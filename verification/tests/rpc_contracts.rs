use pam::rpc::{
    catalog_from, is_method_identifier, is_property_identifier, is_type_identifier, load, looks_like_uuid,
    to_snake_case, trim_ascii, valid_request_id, valid_version, validate_catalog, validate_manifest, RpcCase,
    RpcCatalog, RpcContract, RpcManifest, RpcMethod, RpcProperty,
};

fn field(name: &str, kind: u8, type_label: &str) -> RpcProperty {
    RpcProperty {
        name: name.to_owned(),
        kind,
        type_label: type_label.to_owned(),
        nullable: false,
        format: None,
        item_type: None,
        minimum_exceeds_maximum: false,
    }
}

fn record(name: &str, php: &str, properties: Vec<RpcProperty>) -> RpcContract {
    RpcContract { kind: 1, name: name.to_owned(), php_class: php.to_owned(), properties, cases: Vec::new() }
}

fn enumeration(name: &str, php: &str, cases: &[(&str, i64)]) -> RpcContract {
    RpcContract {
        kind: 2,
        name: name.to_owned(),
        php_class: php.to_owned(),
        properties: Vec::new(),
        cases: cases.iter().map(|(name, value)| RpcCase { name: (*name).to_owned(), value: *value }).collect(),
    }
}

fn method(name: &str, input: &str, output: &str, timeout_ms: u64) -> RpcMethod {
    RpcMethod {
        kind: 1,
        name: name.to_owned(),
        input: input.to_owned(),
        output: output.to_owned(),
        timeout_ms,
        idempotent: false,
    }
}

fn manifest(methods: Vec<RpcMethod>) -> RpcManifest {
    RpcManifest { schema_version: 1, service: "Orders".to_owned(), version: "1.2.3".to_owned(), methods }
}

fn catalog(contracts: Vec<RpcContract>) -> RpcCatalog {
    catalog_from(contracts).unwrap()
}

#[test]
fn identifiers_follow_their_first_character_rules() {
    assert!(is_type_identifier("OrderLine_2"));
    assert!(!is_type_identifier("orderLine"));
    assert!(!is_type_identifier(""));
    assert!(!is_type_identifier(&"A".repeat(129)));
    assert!(is_type_identifier(&"A".repeat(128)));
    assert!(is_method_identifier("placeOrder"));
    assert!(!is_method_identifier("PlaceOrder"));
    assert!(!is_method_identifier("place-order"));
    assert!(is_property_identifier("_total"));
    assert!(is_property_identifier("total"));
    assert!(!is_property_identifier("1total"));
}

#[test]
fn versions_request_ids_and_uuids_are_recognised() {
    assert!(valid_version("1.20.3"));
    assert!(!valid_version("1.2"));
    assert!(!valid_version("1..3"));
    assert!(!valid_version("1.2.x"));
    assert!(valid_request_id("req-1_a.b:c"));
    assert!(!valid_request_id(""));
    assert!(!valid_request_id("bad id"));
    assert!(!valid_request_id(&"a".repeat(129)));
    assert!(looks_like_uuid("123e4567-e89b-12d3-a456-426614174000"));
    assert!(!looks_like_uuid("123e4567e89b12d3a456426614174000"));
    assert!(!looks_like_uuid("123e4567-e89b-12d3-a456-42661417400g"));
}

#[test]
fn snake_case_and_ascii_trimming() {
    assert_eq!(to_snake_case("OrderLineItem"), "order_line_item");
    assert_eq!(to_snake_case("already_Snake"), "already_snake");
    assert_eq!(to_snake_case("HTTPCode"), "h_t_t_p_code");
    assert_eq!(trim_ascii(b"  \t value \r\n"), b"value");
    assert_eq!(trim_ascii(b"   "), b"");
}

#[test]
fn catalogs_are_ordered_by_name_and_map_php_classes() {
    let built = catalog(vec![record("Zeta", "App\\Zeta", vec![]), record("Alpha", "App\\Alpha", vec![])]);
    let names: Vec<&str> = built.contracts.iter().map(|c| c.name.as_str()).collect();
    assert_eq!(names, ["Alpha", "Zeta"]);
    assert_eq!(
        built.php_names,
        vec![("App\\Zeta".to_owned(), "Zeta".to_owned()), ("App\\Alpha".to_owned(), "Alpha".to_owned())]
    );
}

#[test]
fn catalogs_refuse_bad_or_repeated_contract_names() {
    let error = catalog_from(vec![record("lower", "App\\Lower", vec![])]).err().unwrap();
    assert_eq!(error, "invalid RPC contract name \"lower\"");
    let error = catalog_from(vec![record("One", "App\\Same", vec![]), record("Two", "App\\Same", vec![])]).err().unwrap();
    assert_eq!(error, "duplicate RPC contract name or PHP class");
    let error = catalog_from(vec![record("One", "App\\One", vec![]), record("One", "App\\Two", vec![])]).err().unwrap();
    assert_eq!(error, "duplicate RPC contract name or PHP class");
}

#[test]
fn catalog_validation_names_the_first_broken_rule() {
    let ok = catalog(vec![
        record("Order", "App\\Order", vec![field("id", 1, "string"), field("status", 7, "App\\Status")]),
        enumeration("Status", "App\\Status", &[("Open", 1), ("Closed", 2)]),
    ]);
    assert_eq!(validate_catalog(&ok), Ok(()));

    let gaps = catalog(vec![enumeration("Status", "App\\Status", &[("Open", 1), ("Closed", 3)])]);
    assert_eq!(validate_catalog(&gaps).err().unwrap(), "RPC enum Status values must be sequential integers from 1");
    let repeated = catalog(vec![enumeration("Status", "App\\Status", &[("Open", 1), ("Open", 2)])]);
    assert_eq!(validate_catalog(&repeated).err().unwrap(), "RPC enum Status has invalid or duplicate cases");
    let mut odd = record("Odd", "App\\Odd", vec![]);
    odd.kind = 9;
    assert_eq!(validate_catalog(&catalog(vec![odd])).err().unwrap(), "invalid RPC contract kind 9 for Odd");

    let duplicate = catalog(vec![record("Order", "App\\Order", vec![field("id", 1, "string"), field("id", 2, "int")])]);
    assert_eq!(validate_catalog(&duplicate).err().unwrap(), "invalid or duplicate RPC field Order.id");
    let unsupported = catalog(vec![record("Order", "App\\Order", vec![field("id", 8, "x")])]);
    assert_eq!(validate_catalog(&unsupported).err().unwrap(), "unsupported RPC field kind 8 on Order.id");
    let mismatch = catalog(vec![record("Order", "App\\Order", vec![field("id", 2, "string")])]);
    assert_eq!(validate_catalog(&mismatch).err().unwrap(), "RPC field Order.id kind does not match type string");
    let mut bounded = field("total", 3, "float");
    bounded.minimum_exceeds_maximum = true;
    let inverted = catalog(vec![record("Order", "App\\Order", vec![bounded])]);
    assert_eq!(validate_catalog(&inverted).err().unwrap(), "RPC field Order.total minimum exceeds maximum");
    let array = catalog(vec![record("Order", "App\\Order", vec![field("lines", 6, "array")])]);
    assert_eq!(validate_catalog(&array).err().unwrap(), "RPC array field Order.lines requires itemType");
    let mut items = field("lines", 6, "array");
    items.item_type = Some("App\\Missing".to_owned());
    let unknown_item = catalog(vec![record("Order", "App\\Order", vec![items])]);
    assert_eq!(
        validate_catalog(&unknown_item).err().unwrap(),
        "RPC array field Order.lines references unknown item contract App\\Missing"
    );
    let unknown = catalog(vec![record("Order", "App\\Order", vec![field("line", 5, "Line")])]);
    assert_eq!(validate_catalog(&unknown).err().unwrap(), "RPC field Order.line references unknown contract Line");
    let wrong_kind = catalog(vec![
        record("Order", "App\\Order", vec![field("status", 5, "App\\Status")]),
        enumeration("Status", "App\\Status", &[("Open", 1)]),
    ]);
    assert_eq!(
        validate_catalog(&wrong_kind).err().unwrap(),
        "RPC field Order.status kind does not match referenced contract App\\Status"
    );
}

#[test]
fn catalog_errors_come_in_name_order() {
    let mut zeta = record("Zeta", "App\\Zeta", vec![]);
    zeta.kind = 4;
    let mut alpha = record("Alpha", "App\\Alpha", vec![]);
    alpha.kind = 3;
    assert_eq!(validate_catalog(&catalog(vec![zeta, alpha])).err().unwrap(), "invalid RPC contract kind 3 for Alpha");
}

#[test]
fn manifest_validation_names_the_first_broken_rule() {
    let contracts = catalog(vec![record("Request", "App\\Request", vec![]), record("Reply", "App\\Reply", vec![])]);
    assert_eq!(validate_manifest(&manifest(vec![method("placeOrder", "Request", "Reply", 1000)]), &contracts), Ok(()));

    let mut schema = manifest(vec![method("placeOrder", "Request", "Reply", 1000)]);
    schema.schema_version = 2;
    assert_eq!(validate_manifest(&schema, &contracts).err().unwrap(), "unsupported RPC manifest schema 2");
    let mut service = manifest(vec![method("placeOrder", "Request", "Reply", 1000)]);
    service.service = "orders".to_owned();
    assert_eq!(validate_manifest(&service, &contracts).err().unwrap(), "RPC service must be a PascalCase identifier");
    let mut version = manifest(vec![method("placeOrder", "Request", "Reply", 1000)]);
    version.version = "1.0".to_owned();
    assert_eq!(
        validate_manifest(&version, &contracts).err().unwrap(),
        "RPC version must use numeric MAJOR.MINOR.PATCH form"
    );
    assert_eq!(
        validate_manifest(&manifest(vec![]), &contracts).err().unwrap(),
        "RPC manifest requires at least one method"
    );
    let mut streaming = method("placeOrder", "Request", "Reply", 1000);
    streaming.kind = 2;
    assert_eq!(
        validate_manifest(&manifest(vec![streaming]), &contracts).err().unwrap(),
        "RPC method placeOrder kind must currently be 1 (unary)"
    );
    let twice = manifest(vec![method("placeOrder", "Request", "Reply", 1000), method("placeOrder", "Request", "Reply", 1000)]);
    assert_eq!(
        validate_manifest(&twice, &contracts).err().unwrap(),
        "RPC method names must be unique lowerCamelCase identifiers: \"placeOrder\""
    );
    assert_eq!(
        validate_manifest(&manifest(vec![method("placeOrder", "Missing", "Reply", 1000)]), &contracts).err().unwrap(),
        "RPC method placeOrder references unknown input Missing"
    );
    assert_eq!(
        validate_manifest(&manifest(vec![method("placeOrder", "Request", "Missing", 1000)]), &contracts).err().unwrap(),
        "RPC method placeOrder references unknown output Missing"
    );
    assert_eq!(
        validate_manifest(&manifest(vec![method("placeOrder", "Request", "Reply", 3_600_001)]), &contracts).err().unwrap(),
        "RPC method placeOrder timeoutMs must be between 1 and 3600000"
    );
}

#[test]
fn loading_gathers_checks_the_catalog_and_then_the_manifest() {
    let contracts = vec![record("Reply", "App\\Reply", vec![]), record("Request", "App\\Request", vec![])];
    let loaded = load(&manifest(vec![method("placeOrder", "Request", "Reply", 1)]), contracts).unwrap();
    assert_eq!(loaded.contracts.len(), 2);
    let broken = vec![record("Request", "App\\Request", vec![field("bad", 9, "x")])];
    assert_eq!(
        load(&manifest(vec![method("placeOrder", "Request", "Request", 0)]), broken).err().unwrap(),
        "unsupported RPC field kind 9 on Request.bad"
    );
    let fine = vec![record("Request", "App\\Request", vec![])];
    assert_eq!(
        load(&manifest(vec![method("placeOrder", "Request", "Request", 0)]), fine).err().unwrap(),
        "RPC method placeOrder timeoutMs must be between 1 and 3600000"
    );
}

use pam::rpc::{language_type, python_sdk, rpc_markdown, rust_sdk, typescript_sdk, Target};

fn sample() -> (RpcManifest, RpcCatalog) {
    let mut items = field("lines", 6, "array");
    items.item_type = Some("App\\Line".to_owned());
    let mut note = field("note", 1, "string");
    note.nullable = true;
    let contracts = catalog(vec![
        record("Order", "App\\Order", vec![field("id", 1, "string"), items, note, field("status", 7, "App\\Status")]),
        record("Line", "App\\Line", vec![field("qty", 2, "int")]),
        enumeration("Status", "App\\Status", &[("Open", 1), ("Closed", 2)]),
    ]);
    let mut place = method("placeOrder", "Order", "Order", 5000);
    place.idempotent = true;
    (manifest(vec![place]), contracts)
}

#[test]
fn field_types_follow_the_target_language() {
    let (_, contracts) = sample();
    let order = contracts.contracts.iter().find(|c| c.name == "Order").unwrap();
    let lines = &order.properties[1];
    assert_eq!(language_type(lines, &contracts, Target::TypeScript), "ReadonlyArray<Line>");
    assert_eq!(language_type(lines, &contracts, Target::Python), "list[Line]");
    assert_eq!(language_type(lines, &contracts, Target::Rust), "Vec<Line>");
    let status = &order.properties[3];
    assert_eq!(language_type(status, &contracts, Target::Rust), "Status");
    let mut nested = field("line", 5, "App\\Line");
    assert_eq!(language_type(&nested, &contracts, Target::Rust), "Box<Line>");
    nested.kind = 9;
    assert_eq!(language_type(&nested, &contracts, Target::Python), "Any");
    assert_eq!(language_type(&field("n", 3, "float"), &contracts, Target::TypeScript), "number");
}

#[test]
fn method_tables_list_every_method() {
    let (manifest, _) = sample();
    assert_eq!(
        rpc_markdown(&manifest),
        "# Orders RPC\n\nVersion `1.2.3` · PAM RPC protocol `1`\n\n| Method | Kind | Input | Output | Deadline | Idempotent |\n| --- | ---: | --- | --- | ---: | --- |\n| `placeOrder` | `1` | `Order` | `Order` | 5000 ms | yes |\n\nKinds are sequential integers: request `1`, success `2`, failure `3`. Unknown fields and contract violations are rejected before guest execution and again on the response boundary.\n"
    );
}

#[test]
fn clients_declare_contracts_and_methods() {
    let (manifest, contracts) = sample();
    let ts = typescript_sdk(&manifest, &contracts);
    assert!(ts.starts_with("// Generated by `pam rpc generate`. Do not edit.\n"));
    assert!(ts.contains("export interface Order {\n  readonly id: string;\n  readonly lines: ReadonlyArray<Line>;\n  readonly note?: string | null;\n  readonly status: Status;\n}\n\n"));
    assert!(ts.contains("export enum Status {\n  Open = 1,\n  Closed = 2,\n}\n\n"));
    assert!(ts.contains("service: \"Orders\", method: \"placeOrder\", payload }"));
    assert!(ts.ends_with("    return response.result as Order;\n  }\n}\n"));
    let py = python_sdk(&manifest, &contracts);
    assert!(py.contains("class Order(TypedDict):\n    id: str\n    lines: list[Line]\n    note: NotRequired[str | None]\n    status: Status\n\n"));
    assert!(py.contains("class Status(IntEnum):\n    Open = 1\n    Closed = 2\n\n"));
    assert!(py.contains("    async def place_order(self, payload: Order, request_id: str | None = None) -> Order:\n"));
    let rs = rust_sdk(&manifest, &contracts);
    assert!(rs.contains("pub struct Order {\n    pub id: String,\n    pub lines: Vec<Line>,\n    pub note: Option<String>,\n    pub status: Status,\n}\n\n"));
    assert!(rs.contains("            2 => Ok(Self::Closed),\n"));
    assert!(rs.contains("pub const PAM_RPC_SERVICE: &str = \"Orders\";\npub const PAM_RPC_SERVICE_VERSION: &str = \"1.2.3\";\n"));
    assert!(rs.contains("\n    pub fn place_order(\n        &self,\n        payload: Order,\n"));
    assert!(rs.ends_with("    }\n}\n"));
}
