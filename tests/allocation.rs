use inventory_core::allocator::{allocate, AllocError, StockOutRequest};
use inventory_core::document::{Collection, Document, ImportError};
use inventory_core::quantity::parse_quantity;
use inventory_core::record::{Field, Record, Value};

fn field(key: &str, value: Value) -> Field {
    Field { key: key.to_string(), value }
}

fn text(s: &str) -> Value {
    Value::Text(s.to_string())
}

fn lot(po: &str, stock: Value, client: Option<&str>) -> Record {
    let mut fields = vec![field("PO", text(po)), field("stock", stock)];
    if let Some(c) = client {
        fields.push(field("client", text(c)));
    }
    Record { fields }
}

fn doc_with(lots: Vec<Record>) -> Document {
    let mut d = Document::new();
    d.stock_in = lots;
    d
}

fn request(po: &str, client: Option<&str>) -> StockOutRequest {
    StockOutRequest {
        po: po.to_string(),
        recipient: "Bob".to_string(),
        kind: "out".to_string(),
        note: String::new(),
        client: client.map(|c| c.to_string()),
    }
}

fn text_of(r: &Record, key: &str) -> String {
    match r.get(key) {
        Some(Value::Text(s)) => s.clone(),
        other => panic!("field {} is {:?}", key, other),
    }
}

#[test]
fn save_stock_out_scenario() {
    let mut d = doc_with(vec![lot("PO1", Value::Int(2), Some("Acme"))]);
    let a = allocate(&mut d, &request("PO1", None), "1700000000000".to_string(), "2024-05-01".to_string())
        .unwrap();
    assert_eq!(a.remaining, 1);
    assert_eq!(a.lot, 0);
    assert_eq!(text_of(&a.record, "PO"), "PO1");
    assert_eq!(text_of(&a.record, "client"), "Acme");
    assert_eq!(text_of(&a.record, "recipient"), "Bob");
    assert_eq!(text_of(&a.record, "type"), "out");
    assert_eq!(text_of(&a.record, "note"), "");
    assert_eq!(text_of(&a.record, "id"), "1700000000000");
    assert_eq!(text_of(&a.record, "date"), "2024-05-01");
    assert_eq!(d.stock_in[0].get("stock"), Some(&Value::Int(1)));
    assert_eq!(d.stock_out.len(), 1);
    assert_eq!(d.stock_out[0], a.record);
}

#[test]
fn unknown_po_leaves_document_unchanged() {
    let mut d = doc_with(vec![lot("PO1", Value::Int(5), Some("Acme"))]);
    d.stock_out.push(Record { fields: vec![field("id", text("7"))] });
    let before = d.clone();
    let r = allocate(&mut d, &request("PO9", None), "1".to_string(), "2024-01-01".to_string());
    assert_eq!(r, Err(AllocError::StockUnavailable));
    assert_eq!(d, before);
}

#[test]
fn empty_lot_is_unavailable() {
    let mut d = doc_with(vec![lot("PO1", Value::Int(0), None)]);
    let before = d.clone();
    let r = allocate(&mut d, &request("PO1", None), "1".to_string(), "d".to_string());
    assert_eq!(r, Err(AllocError::StockUnavailable));
    assert_eq!(d, before);
}

#[test]
fn first_lot_in_stored_order_is_used() {
    let mut d = doc_with(vec![
        lot("PO1", Value::Int(1), Some("A")),
        lot("PO1", Value::Int(50), Some("B")),
    ]);
    let a = allocate(&mut d, &request("PO1", None), "1".to_string(), "d".to_string()).unwrap();
    assert_eq!(a.lot, 0);
    assert_eq!(a.remaining, 0);
    assert_eq!(text_of(&a.record, "client"), "A");
    assert_eq!(d.stock_in[1].get("stock"), Some(&Value::Int(50)));
    // the first lot is now empty, so the next allocation moves on
    let b = allocate(&mut d, &request("PO1", None), "2".to_string(), "d".to_string()).unwrap();
    assert_eq!(b.lot, 1);
    assert_eq!(b.remaining, 49);
    assert_eq!(text_of(&b.record, "client"), "B");
    assert_eq!(d.stock_out.len(), 2);
    assert_eq!(text_of(&d.stock_out[0], "id"), "2");
    assert_eq!(text_of(&d.stock_out[1], "id"), "1");
}

#[test]
fn string_stock_is_read_and_stored_as_number() {
    let mut d = doc_with(vec![lot("PO1", text("3"), None)]);
    let a = allocate(&mut d, &request("PO1", None), "1".to_string(), "d".to_string()).unwrap();
    assert_eq!(a.remaining, 2);
    assert_eq!(d.stock_in[0].get("stock"), Some(&Value::Int(2)));
    assert_eq!(text_of(&a.record, "client"), "");
}

#[test]
fn unparsable_or_missing_stock_counts_as_zero() {
    let mut d = doc_with(vec![
        lot("PO1", text("abc"), None),
        lot("PO1", Value::Raw("2.5".to_string()), None),
        Record { fields: vec![field("PO", text("PO1"))] },
    ]);
    let before = d.clone();
    let r = allocate(&mut d, &request("PO1", None), "1".to_string(), "d".to_string());
    assert_eq!(r, Err(AllocError::StockUnavailable));
    assert_eq!(d, before);
}

#[test]
fn other_fields_are_kept_in_place() {
    let mut l = lot("PO1", Value::Int(4), Some("Acme"));
    l.fields.insert(0, field("sku", Value::Raw("{\"a\":[1,2]}".to_string())));
    let mut d = doc_with(vec![l]);
    allocate(&mut d, &request("PO1", None), "1".to_string(), "d".to_string()).unwrap();
    let f = &d.stock_in[0].fields;
    assert_eq!(f.len(), 4);
    assert_eq!(f[0], field("sku", Value::Raw("{\"a\":[1,2]}".to_string())));
    assert_eq!(f[1], field("PO", text("PO1")));
    assert_eq!(f[2], field("stock", Value::Int(3)));
    assert_eq!(f[3], field("client", text("Acme")));
}

#[test]
fn client_override() {
    let mut d = doc_with(vec![lot("PO1", Value::Int(9), Some("Acme"))]);
    let a = allocate(&mut d, &request("PO1", Some("Beta")), "1".to_string(), "d".to_string()).unwrap();
    assert_eq!(text_of(&a.record, "client"), "Beta");
    let b = allocate(&mut d, &request("PO1", Some("")), "2".to_string(), "d".to_string()).unwrap();
    assert_eq!(text_of(&b.record, "client"), "Acme");
}

#[test]
fn last_unit_allocated_once() {
    let mut d = doc_with(vec![lot("PO1", Value::Int(1), None)]);
    let first = allocate(&mut d, &request("PO1", None), "1".to_string(), "d".to_string());
    let second = allocate(&mut d, &request("PO1", Some("X")), "2".to_string(), "d".to_string());
    assert_eq!(first.unwrap().remaining, 0);
    assert_eq!(second, Err(AllocError::StockUnavailable));
    assert_eq!(d.stock_in[0].get("stock"), Some(&Value::Int(0)));
    assert_eq!(d.stock_out.len(), 1);
}

#[test]
fn new_document_is_empty() {
    let d = Document::new();
    assert!(d.stock_in.is_empty() && d.stock_out.is_empty() && d.system_list.is_empty());
}

#[test]
fn collection_names() {
    assert_eq!(Collection::from_name("stockIn"), Some(Collection::StockIn));
    assert_eq!(Collection::from_name("stockOut"), Some(Collection::StockOut));
    assert_eq!(Collection::from_name("systemList"), Some(Collection::SystemList));
    assert_eq!(Collection::from_name("stockin"), None);
    assert_eq!(Collection::from_name(""), None);
}

#[test]
fn import_replaces_one_collection() {
    let mut d = doc_with(vec![lot("PO1", Value::Int(1), None)]);
    let items = vec![
        Record { fields: vec![field("name", text("a"))] },
        Record { fields: vec![field("name", text("b"))] },
    ];
    assert_eq!(d.import_data("systemList", items.clone()), Ok(2));
    assert_eq!(d.system_list, items);
    assert_eq!(d.stock_in.len(), 1);
    assert_eq!(d.import_data("stockIn", Vec::new()), Ok(0));
    assert!(d.stock_in.is_empty());
    assert_eq!(d.system_list, items);
}

#[test]
fn import_rejects_unknown_collection() {
    let mut d = doc_with(vec![lot("PO1", Value::Int(1), None)]);
    let before = d.clone();
    let r = d.import_data("users", vec![Record::new()]);
    assert_eq!(r, Err(ImportError::UnknownCollection));
    assert_eq!(d, before);
}

#[test]
fn quantity_strings() {
    assert_eq!(parse_quantity("42"), Some(42));
    assert_eq!(parse_quantity("007"), Some(7));
    assert_eq!(parse_quantity("-7"), Some(-7));
    assert_eq!(parse_quantity("-0"), Some(0));
    assert_eq!(parse_quantity(""), None);
    assert_eq!(parse_quantity("-"), None);
    assert_eq!(parse_quantity("4a"), None);
    assert_eq!(parse_quantity(" 4"), None);
    assert_eq!(parse_quantity("+4"), None);
    assert_eq!(parse_quantity("9223372036854775807"), Some(i64::MAX));
    assert_eq!(parse_quantity("9223372036854775808"), None);
    assert_eq!(parse_quantity("-9223372036854775808"), Some(i64::MIN));
    assert_eq!(parse_quantity("-9223372036854775809"), None);
    assert_eq!(parse_quantity("99999999999999999999x"), None);
}

#[test]
fn record_lookup_takes_first_field() {
    let r = Record { fields: vec![field("a", Value::Int(1)), field("b", text("x")), field("a", Value::Int(2))] };
    assert_eq!(r.find("a"), Some(0));
    assert_eq!(r.find("b"), Some(1));
    assert_eq!(r.find("c"), None);
    assert_eq!(r.get("a"), Some(&Value::Int(1)));
    assert_eq!(r.copy(), r);
    assert_eq!(Value::Text("12".to_string()).quantity(), 12);
    assert_eq!(Value::Raw("true".to_string()).quantity(), 0);
    assert_eq!(Field::text("k", "v".to_string()), field("k", text("v")));
}
