use std::collections::HashMap;

use stock_service::collection::decode_all;
use stock_service::number::{is_amount, is_float};
use stock_service::record::{decode_record, encode_transaction, AttrValue, DecodeError, Field, Record};
use stock_service::service::{
    check_request, CreateTransactionRequest, InputError, ListTransactionsRequest, ServiceError,
    StockServiceImpl, StoreError,
};
use stock_service::transaction::Transaction;

fn tx(id: &str, symbol: &str, cost: f64, count: f64, created_at: i64) -> Transaction {
    Transaction {
        id: id.to_string(),
        symbol: symbol.to_string(),
        purchase_cost: cost.to_string(),
        count: count.to_string(),
        created_at,
    }
}

fn attr_s(name: &str, v: &str) -> (String, AttrValue) {
    (name.to_string(), AttrValue::S(v.to_string()))
}

fn attr_n(name: &str, v: &str) -> (String, AttrValue) {
    (name.to_string(), AttrValue::N(v.to_string()))
}

/// A keyed collection as the store keeps one: a put replaces the record
/// stored under the same `id`.
fn put(table: &mut HashMap<String, Record>, r: Record) {
    let key = match r.get("id") {
        Some(AttrValue::S(k)) => k.clone(),
        _ => panic!("record without a key"),
    };
    table.insert(key, r);
}

fn scan(table: &HashMap<String, Record>) -> Vec<Record> {
    table.values().cloned().collect()
}

fn list(svc: &StockServiceImpl, table: &HashMap<String, Record>) -> Vec<Transaction> {
    let req = ListTransactionsRequest { name: "Tonic".to_string() };
    svc.list_transactions(&req, Ok(scan(table))).unwrap().transactions
}

fn create_req(symbol: &str, cost: f64) -> CreateTransactionRequest {
    CreateTransactionRequest { symbol: symbol.to_string(), purchase_cost: cost.to_string() }
}

#[test]
fn written_transaction_reads_back_once() {
    let t = tx("t1", "SPY", 7000.0, 5000.0, 5000);
    let mut table = HashMap::new();
    put(&mut table, encode_transaction(&t));
    let listed = list(&StockServiceImpl::new(), &table);
    assert_eq!(listed.len(), 1);
    assert_eq!(listed[0], t);
    assert_eq!(listed[0].purchase_cost.parse::<f64>().unwrap(), 7000.0);
    assert_eq!(listed[0].count.parse::<f64>().unwrap(), 5000.0);
    assert_eq!(listed[0].created_at, 5000);
}

#[test]
fn stored_record_has_typed_attributes() {
    let r = encode_transaction(&tx("t1", "SPY", 7000.5, 5000.0, -42));
    assert_eq!(r.get("id"), Some(&AttrValue::S("t1".to_string())));
    assert_eq!(r.get("symbol"), Some(&AttrValue::S("SPY".to_string())));
    assert_eq!(r.get("purchaseCost"), Some(&AttrValue::N("7000.5".to_string())));
    assert_eq!(r.get("count"), Some(&AttrValue::N("5000".to_string())));
    assert_eq!(r.get("createdAt"), Some(&AttrValue::S("-42".to_string())));
    assert_eq!(decode_record(&r).unwrap().created_at, -42);
}

#[test]
fn two_reads_agree() {
    let mut table = HashMap::new();
    put(&mut table, encode_transaction(&tx("a", "SPY", 1.5, 2.0, 3)));
    put(&mut table, encode_transaction(&tx("b", "AAPL", 4.0, 5.0, 6)));
    put(&mut table, encode_transaction(&tx("c", "MSFT", 7.25, 8.0, 9)));
    let svc = StockServiceImpl::new();
    let mut first = list(&svc, &table);
    let mut second = list(&svc, &table);
    first.sort_by(|x, y| x.id.cmp(&y.id));
    second.sort_by(|x, y| x.id.cmp(&y.id));
    assert_eq!(first.len(), 3);
    assert_eq!(first, second);
}

#[test]
fn second_write_under_same_id_replaces_first() {
    let mut table = HashMap::new();
    put(&mut table, encode_transaction(&tx("t1", "SPY", 1.0, 2.0, 3)));
    put(&mut table, encode_transaction(&tx("t1", "QQQ", 1.0, 2.0, 3)));
    let listed = list(&StockServiceImpl::new(), &table);
    assert_eq!(listed.len(), 1);
    assert_eq!(listed[0].symbol, "QQQ");
}

#[test]
fn one_malformed_record_fails_the_whole_list() {
    let good = encode_transaction(&tx("a", "SPY", 1.0, 2.0, 3));
    let bad = Record {
        attrs: vec![
            attr_s("id", "b"),
            attr_s("symbol", "AAPL"),
            attr_n("count", "1"),
            attr_s("createdAt", "5000"),
        ],
    };
    let req = ListTransactionsRequest { name: String::new() };
    let r = StockServiceImpl::new().list_transactions(&req, Ok(vec![good, bad]));
    assert_eq!(r.unwrap_err(), ServiceError::Decode(DecodeError::Missing(Field::PurchaseCost)));
}

#[test]
fn create_then_list_end_to_end() {
    let svc = StockServiceImpl::new();
    let prepared = svc.create_transaction(&create_req("AAPL", 150.25)).unwrap();
    let mut table = HashMap::new();
    put(&mut table, prepared.item.clone());
    let resp = prepared.complete(Ok(())).unwrap();
    assert!(!resp.id.is_empty());
    let listed = list(&svc, &table);
    assert_eq!(listed.len(), 1);
    assert_eq!(listed[0].symbol, "AAPL");
    assert_eq!(listed[0].purchase_cost.parse::<f64>().unwrap(), 150.25);
    assert_eq!(listed[0].id, resp.id);
    assert_eq!(listed[0].count, "5000");
    assert_eq!(listed[0].created_at, 5000);
}

#[test]
fn created_ids_are_distinct_uuids() {
    let svc = StockServiceImpl::default();
    let mut ids = Vec::new();
    for _ in 0..100 {
        ids.push(svc.create_transaction(&create_req("SPY", 1.0)).unwrap().id);
    }
    for id in &ids {
        let chars: Vec<char> = id.chars().collect();
        assert_eq!(chars.len(), 36);
        assert_eq!(chars[8], '-');
        assert_eq!(chars[13], '-');
        assert_eq!(chars[14], '4');
        assert_eq!(chars[23], '-');
    }
    let mut sorted = ids.clone();
    sorted.sort();
    sorted.dedup();
    assert_eq!(sorted.len(), ids.len());
}

#[test]
fn failed_write_returns_no_id() {
    let svc = StockServiceImpl::new();
    let prepared = svc.create_transaction(&create_req("AAPL", 1.0)).unwrap();
    let r = prepared.complete(Err(StoreError::Unreachable));
    assert_eq!(r.unwrap_err(), ServiceError::Store(StoreError::Unreachable));
}

#[test]
fn failed_scan_fails_the_list() {
    let req = ListTransactionsRequest { name: String::new() };
    let r = StockServiceImpl::new().list_transactions(&req, Err(StoreError::Rejected));
    assert_eq!(r.unwrap_err(), ServiceError::Store(StoreError::Rejected));
}

#[test]
fn empty_collection_lists_nothing() {
    let table = HashMap::new();
    assert!(list(&StockServiceImpl::new(), &table).is_empty());
}

#[test]
fn create_rejects_bad_input() {
    let svc = StockServiceImpl::new();
    let e = svc.create_transaction(&create_req("", 1.0)).unwrap_err();
    assert_eq!(e, ServiceError::InvalidInput(InputError::EmptySymbol));
    for cost in [-1.0, f64::NAN, f64::INFINITY, f64::NEG_INFINITY] {
        let e = svc.create_transaction(&create_req("SPY", cost)).unwrap_err();
        assert_eq!(e, ServiceError::InvalidInput(InputError::InvalidCost));
    }
    assert!(svc.create_transaction(&create_req("SPY", -0.0)).is_ok());
    assert!(svc.create_transaction(&create_req("SPY", 0.0)).is_ok());
    let text = CreateTransactionRequest { symbol: "SPY".to_string(), purchase_cost: "abc".to_string() };
    assert_eq!(check_request(&text), Err(InputError::InvalidCost));
}

#[test]
fn decode_errors_name_the_field() {
    let wrong_type = Record { attrs: vec![attr_n("id", "1")] };
    assert_eq!(decode_record(&wrong_type), Err(DecodeError::WrongType(Field::Id)));
    let other = Record { attrs: vec![("id".to_string(), AttrValue::Other)] };
    assert_eq!(decode_record(&other), Err(DecodeError::WrongType(Field::Id)));
    let missing = Record { attrs: vec![] };
    assert_eq!(decode_record(&missing), Err(DecodeError::Missing(Field::Id)));
    let bad_count = Record {
        attrs: vec![attr_s("id", "x"), attr_n("count", "1.2.3"), attr_n("purchaseCost", "1")],
    };
    assert_eq!(decode_record(&bad_count), Err(DecodeError::Unparsable(Field::Count)));
    let bad_time = Record {
        attrs: vec![
            attr_s("id", "x"),
            attr_n("count", "1"),
            attr_n("purchaseCost", "1"),
            attr_s("createdAt", "12:00"),
            attr_s("symbol", "SPY"),
        ],
    };
    assert_eq!(decode_record(&bad_time), Err(DecodeError::Unparsable(Field::CreatedAt)));
    let time_as_number = Record {
        attrs: vec![
            attr_s("id", "x"),
            attr_n("count", "1"),
            attr_n("purchaseCost", "1"),
            attr_n("createdAt", "5000"),
        ],
    };
    assert_eq!(decode_record(&time_as_number), Err(DecodeError::WrongType(Field::CreatedAt)));
    let no_symbol = Record {
        attrs: vec![
            attr_s("id", "x"),
            attr_n("count", "1"),
            attr_n("purchaseCost", "1"),
            attr_s("createdAt", "+7"),
        ],
    };
    assert_eq!(decode_record(&no_symbol), Err(DecodeError::Missing(Field::Symbol)));
}

#[test]
fn decode_reads_all_fields() {
    let r = Record {
        attrs: vec![
            attr_s("symbol", "SPY"),
            attr_s("createdAt", "-9223372036854775808"),
            attr_n("count", "1e3"),
            attr_n("purchaseCost", "12.5"),
            attr_s("id", "k"),
            attr_s("id", "later"),
        ],
    };
    let t = decode_record(&r).unwrap();
    assert_eq!(t.id, "k");
    assert_eq!(t.symbol, "SPY");
    assert_eq!(t.count, "1e3");
    assert_eq!(t.purchase_cost, "12.5");
    assert_eq!(t.created_at, i64::MIN);
    let out_of_range = Record {
        attrs: vec![
            attr_s("id", "x"),
            attr_n("count", "1"),
            attr_n("purchaseCost", "1"),
            attr_s("createdAt", "9223372036854775808"),
        ],
    };
    assert_eq!(decode_record(&out_of_range), Err(DecodeError::Unparsable(Field::CreatedAt)));
    assert_eq!(decode_all(&vec![r.clone(), r]).unwrap().len(), 2);
}

#[test]
fn float_text_grammar() {
    for ok in ["0", "7000", "150.25", "-1.5", "+.5", "5.", "1e5", "1E-5", "2.5e+10", "inf", "-Infinity", "NaN", "nAn"] {
        assert!(is_float(ok), "{ok}");
        assert!(ok.parse::<f64>().is_ok(), "{ok}");
    }
    for bad in ["", ".", "+", "-", "e5", "1e", "1e+", "1.2.3", " 1", "1 ", "abc", "infinit", "0x10", "1_000"] {
        assert!(!is_float(bad), "{bad}");
        assert!(bad.parse::<f64>().is_err(), "{bad}");
    }
}

#[test]
fn amount_text() {
    for ok in ["0", "-0", "-0.0", "150.25", "+3", "1e300", "-0e5"] {
        assert!(is_amount(ok), "{ok}");
    }
    for bad in ["-1", "-0.01", "inf", "NaN", "", "-1e-3", "x"] {
        assert!(!is_amount(bad), "{bad}");
    }
}
