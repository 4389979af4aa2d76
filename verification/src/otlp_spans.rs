//! The spans an OTLP trace exporter sends: one server span per HTTP request
//! the runtime served, in the shape of the OTLP JSON encoding.

use vstd::prelude::*;
use crate::text::{decimal_text, push_decimal_text};

verus! {

/// One finished HTTP request, as the runtime recorded it.
#[derive(Clone, Debug)]
pub struct Span {
    pub trace_id: String,
    pub span_id: String,
    pub parent_span_id: Option<String>,
    pub trace_flags: u8,
    pub method: String,
    pub route: Option<String>,
    pub status: u16,
    pub start_unix_nano: u64,
    pub end_unix_nano: u64,
}

/// An attribute value: a string, or an integer written in decimal (as OTLP
/// JSON writes 64-bit integers).
#[derive(Clone, Debug, PartialEq, Eq)]
pub enum AttributeValue {
    Text(String),
    Integer(String),
}

/// A span attribute.
#[derive(Clone, Debug, PartialEq, Eq)]
pub struct SpanAttribute {
    pub key: String,
    pub value: AttributeValue,
}

/// A span as exported.
#[derive(Clone, Debug, PartialEq, Eq)]
pub struct SpanRecord {
    pub trace_id: String,
    pub span_id: String,
    pub parent_span_id: Option<String>,
    pub name: String,
    pub kind: u8,
    pub start_time_unix_nano: String,
    pub end_time_unix_nano: String,
    pub attributes: Vec<SpanAttribute>,
    pub status_code: u8,
    pub flags: u8,
}

/// The span kind of a server span.
pub const SPAN_KIND_SERVER: u8 = 2;

/// The status code of a span that failed.
pub const STATUS_CODE_ERROR: u8 = 2;

/// The status code of a span whose outcome is left unset.
pub const STATUS_CODE_UNSET: u8 = 0;

pub open spec fn value_view(v: AttributeValue) -> (bool, Seq<char>) {
    match v {
        AttributeValue::Text(s) => (true, s@),
        AttributeValue::Integer(s) => (false, s@),
    }
}

pub open spec fn attribute_views(attributes: Seq<SpanAttribute>) -> Seq<(Seq<char>, (bool, Seq<char>))> {
    attributes.map_values(|a: SpanAttribute| (a.key@, value_view(a.value)))
}

pub open spec fn text_option(o: Option<String>) -> Option<Seq<char>> {
    match o {
        Some(s) => Some(s@),
        None => None,
    }
}

/// The attributes of a request's span: its method and status, then its
/// route where it has one.
pub open spec fn span_attributes(span: Span) -> Seq<(Seq<char>, (bool, Seq<char>))> {
    let common = seq![
        ("http.request.method"@, (true, span.method@)),
        ("http.response.status_code"@, (false, decimal_text(span.status as nat))),
    ];
    match span.route {
        Some(route) => common.push(("http.route"@, (true, route@))),
        None => common,
    }
}

/// What is exported of a request: a server span named after its method,
/// with its times in decimal, failed where the status is 500 or more.
pub open spec fn exports_span(span: Span, record: SpanRecord) -> bool {
    &&& record.trace_id@ == span.trace_id@
    &&& record.span_id@ == span.span_id@
    &&& text_option(record.parent_span_id) == text_option(span.parent_span_id)
    &&& record.name@ == "HTTP "@ + span.method@
    &&& record.kind == SPAN_KIND_SERVER
    &&& record.start_time_unix_nano@ == decimal_text(span.start_unix_nano as nat)
    &&& record.end_time_unix_nano@ == decimal_text(span.end_unix_nano as nat)
    &&& attribute_views(record.attributes@) == span_attributes(span)
    &&& record.status_code == (if span.status >= 500 { STATUS_CODE_ERROR } else { STATUS_CODE_UNSET })
    &&& record.flags == span.trace_flags
}

fn decimal(n: u64) -> (r: String)
    ensures
        r@ == decimal_text(n as nat),
{
    let mut out = String::new();
    push_decimal_text(&mut out, n);
    assert(out@ =~= decimal_text(n as nat));
    out
}

fn copy_option(o: &Option<String>) -> (r: Option<String>)
    ensures
        text_option(r) == text_option(*o),
{
    match o {
        Some(s) => Some(String::from_str(s.as_str())),
        None => None,
    }
}

/// The exported span of one request.
pub fn span_record(span: &Span) -> (record: SpanRecord)
    ensures
        exports_span(*span, record),
{
    let mut name = String::from_str("HTTP ");
    name.append(span.method.as_str());
    let mut attributes: Vec<SpanAttribute> = Vec::new();
    attributes.push(SpanAttribute {
        key: String::from_str("http.request.method"),
        value: AttributeValue::Text(String::from_str(span.method.as_str())),
    });
    attributes.push(SpanAttribute {
        key: String::from_str("http.response.status_code"),
        value: AttributeValue::Integer(decimal(span.status as u64)),
    });
    let ghost common = attribute_views(attributes@);
    match &span.route {
        Some(route) => {
            attributes.push(SpanAttribute {
                key: String::from_str("http.route"),
                value: AttributeValue::Text(String::from_str(route.as_str())),
            });
            assert(attribute_views(attributes@) =~= common.push(("http.route"@, (true, route@))));
        },
        None => {},
    }
    assert(attribute_views(attributes@) =~= span_attributes(*span));
    SpanRecord {
        trace_id: String::from_str(span.trace_id.as_str()),
        span_id: String::from_str(span.span_id.as_str()),
        parent_span_id: copy_option(&span.parent_span_id),
        name,
        kind: SPAN_KIND_SERVER,
        start_time_unix_nano: decimal(span.start_unix_nano),
        end_time_unix_nano: decimal(span.end_unix_nano),
        attributes,
        status_code: if span.status >= 500 { STATUS_CODE_ERROR } else { STATUS_CODE_UNSET },
        flags: span.trace_flags,
    }
}

/// The exported spans of a batch of requests, in order.
pub fn span_records(spans: &Vec<Span>) -> (records: Vec<SpanRecord>)
    ensures
        records@.len() == spans@.len(),
        forall|i: int| 0 <= i < spans@.len() ==> exports_span(#[trigger] spans@[i], records@[i]),
{
    let mut records: Vec<SpanRecord> = Vec::new();
    let mut i: usize = 0;
    while i < spans.len()
        invariant
            i <= spans@.len(),
            records@.len() == i,
            forall|k: int| 0 <= k < i ==> exports_span(#[trigger] spans@[k], records@[k]),
        decreases spans.len() - i,
    {
        records.push(span_record(&spans[i]));
        i = i + 1;
    }
    records
}

} // verus!
