use pam::otlp_spans::{span_record, span_records, AttributeValue, Span, SpanAttribute};

fn span(status: u16, route: Option<&str>) -> Span {
    Span {
        trace_id: "0af7651916cd43dd8448eb211c80319c".to_owned(),
        span_id: "b7ad6b7169203331".to_owned(),
        parent_span_id: None,
        trace_flags: 1,
        method: "GET".to_owned(),
        route: route.map(str::to_owned),
        status,
        start_unix_nano: 1_700_000_000_000_000_000,
        end_unix_nano: 1_700_000_000_250_000_000,
    }
}

#[test]
fn request_spans_are_exported_as_server_spans() {
    let record = span_record(&span(200, Some("/users/{id}")));
    assert_eq!(record.name, "HTTP GET");
    assert_eq!(record.kind, 2);
    assert_eq!(record.start_time_unix_nano, "1700000000000000000");
    assert_eq!(record.end_time_unix_nano, "1700000000250000000");
    assert_eq!(record.status_code, 0);
    assert_eq!(record.flags, 1);
    assert_eq!(record.parent_span_id, None);
    assert_eq!(
        record.attributes,
        vec![
            SpanAttribute { key: "http.request.method".to_owned(), value: AttributeValue::Text("GET".to_owned()) },
            SpanAttribute { key: "http.response.status_code".to_owned(), value: AttributeValue::Integer("200".to_owned()) },
            SpanAttribute { key: "http.route".to_owned(), value: AttributeValue::Text("/users/{id}".to_owned()) },
        ]
    );
}

#[test]
fn server_errors_fail_their_spans() {
    let records = span_records(&vec![span(500, None), span(499, None)]);
    assert_eq!(records[0].status_code, 2);
    assert_eq!(records[1].status_code, 0);
    assert_eq!(records[0].attributes.len(), 2);
}
