use shared::export::{
    escape_csv_field, export_to_csv, import_from_csv, items_hash, json_import_text,
    parse_csv_fields, parse_csv_line, ExportError,
};
use shared::models::{Item, ItemCollection, Priority};

fn djb2(s: &str) -> u32 {
    let mut h: u32 = 5381;
    for b in s.bytes() {
        h = h.wrapping_mul(33).wrapping_add(b as u32);
    }
    h
}

#[test]
fn escape_plain_and_special_fields() {
    assert_eq!(escape_csv_field("plain text"), "plain text");
    assert_eq!(escape_csv_field(""), "");
    assert_eq!(escape_csv_field("a,b"), "\"a,b\"");
    assert_eq!(escape_csv_field("say \"hi\""), "\"say \"\"hi\"\"\"");
    assert_eq!(escape_csv_field("line\nbreak"), "\"line\nbreak\"");
    assert_eq!(escape_csv_field("cr\rhere"), "\"cr\rhere\"");
}

#[test]
fn export_exact_text() {
    let mut c = ItemCollection::new();
    let mut it = Item::new("x1", "Hello, world", "He said \"go\"", Priority::High);
    it.completed = true;
    it.created_at = 42;
    c.add(it);
    c.add(Item::new("x2", "Plain", "", Priority::Low));
    let text = export_to_csv(&c).unwrap();
    assert_eq!(
        text,
        "id,title,description,priority,completed,created_at\n\
         x1,\"Hello, world\",\"He said \"\"go\"\"\",High,true,42\n\
         x2,Plain,,Low,false,0\n"
    );
}

#[test]
fn export_empty_collection_is_header_only() {
    let text = export_to_csv(&ItemCollection::new()).unwrap();
    assert_eq!(text, "id,title,description,priority,completed,created_at\n");
}

#[test]
fn export_then_import_round_trip() {
    let c = ItemCollection::with_sample_data();
    let text = export_to_csv(&c).unwrap();
    let back = import_from_csv(&text).unwrap();
    assert_eq!(back, c);
}

#[test]
fn round_trip_with_quotes_and_commas() {
    let mut c = ItemCollection::new();
    let mut it = Item::new("q\"1", "a, \"b\", c", "x\ry", Priority::Critical);
    it.created_at = u64::MAX;
    c.add(it);
    let text = export_to_csv(&c).unwrap();
    assert_eq!(import_from_csv(&text).unwrap(), c);
}

#[test]
fn import_without_header_reads_first_line() {
    let c = import_from_csv("a,First,,high,1,7\nb,Second,desc,LOW,TRUE,+9").unwrap();
    assert_eq!(c.items.len(), 2);
    assert_eq!(c.items[0].id, "a");
    assert_eq!(c.items[0].priority, Priority::High);
    assert!(c.items[0].completed);
    assert_eq!(c.items[0].created_at, 7);
    assert_eq!(c.items[1].priority, Priority::Low);
    assert!(c.items[1].completed);
    assert_eq!(c.items[1].created_at, 9);
}

#[test]
fn import_skips_header_in_any_case_and_blank_lines() {
    let c = import_from_csv("  ID,TITLE,x\r\n\r\n   \nk,T,D,Medium,no,abc\r\n").unwrap();
    assert_eq!(c.items.len(), 1);
    assert_eq!(c.items[0].id, "k");
    assert_eq!(c.items[0].title, "T");
    assert_eq!(c.items[0].description, "D");
    assert!(!c.items[0].completed);
    assert_eq!(c.items[0].created_at, 0);
}

#[test]
fn import_missing_fields_take_defaults() {
    let c = import_from_csv("only-id").unwrap();
    let it = &c.items[0];
    assert_eq!(it.id, "only-id");
    assert_eq!(it.title, "Untitled");
    assert_eq!(it.description, "");
    assert_eq!(it.priority, Priority::Medium);
    assert!(!it.completed);
    assert_eq!(it.created_at, 0);
}

#[test]
fn import_generates_id_from_title_hash() {
    let c = import_from_csv(",My Task,,low,false,3").unwrap();
    assert_eq!(c.items[0].id, format!("item-{}", djb2("My Task")));
}

#[test]
fn import_created_at_overflow_is_zero() {
    let c = import_from_csv("a,b,c,low,false,18446744073709551616").unwrap();
    assert_eq!(c.items[0].created_at, 0);
    let c = import_from_csv("a,b,c,low,false,18446744073709551615").unwrap();
    assert_eq!(c.items[0].created_at, u64::MAX);
    let c = import_from_csv("a,b,c,low,false,-1").unwrap();
    assert_eq!(c.items[0].created_at, 0);
}

#[test]
fn import_empty_data_error() {
    assert!(matches!(import_from_csv(""), Err(ExportError::EmptyData)));
    assert!(matches!(import_from_csv("  \n\t "), Err(ExportError::EmptyData)));
}

#[test]
fn import_invalid_priority_error() {
    match import_from_csv("a,b,c,Urgent,false,0\nb,c,d,weird,false,0") {
        Err(ExportError::InvalidPriority(p)) => assert_eq!(p, "urgent"),
        other => panic!("unexpected {:?}", other),
    }
}

#[test]
fn import_header_only_is_parse_error() {
    match import_from_csv("id,title,description,priority,completed,created_at\n") {
        Err(ExportError::CsvParse(msg)) => assert_eq!(msg, "No valid items parsed from CSV"),
        other => panic!("unexpected {:?}", other),
    }
}

#[test]
fn fields_parser_handles_quotes() {
    assert_eq!(parse_csv_fields("a, b ,c"), vec!["a", "b", "c"]);
    assert_eq!(parse_csv_fields("\"x,y\",\"say \"\"hi\"\"\""), vec!["x,y", "say \"hi\""]);
    assert_eq!(parse_csv_fields(""), vec![""]);
    assert_eq!(parse_csv_fields("a,"), vec!["a", ""]);
    assert_eq!(parse_csv_fields("ab\"c,d\"e"), vec!["abc,de"]);
}

#[test]
fn line_parser_blank_and_item() {
    assert!(matches!(parse_csv_line("   "), Ok(None)));
    let it = parse_csv_line(" i,t,d,critical,1,5 ").unwrap().unwrap();
    assert_eq!(it.priority, Priority::Critical);
    assert!(it.completed);
    assert_eq!(it.created_at, 5);
}

#[test]
fn hash_values() {
    assert_eq!(items_hash(""), 5381);
    assert_eq!(items_hash("a"), 5381 * 33 + 97);
    assert_eq!(items_hash("My Task"), djb2("My Task"));
    assert_eq!(items_hash("ünïcödé"), djb2("ünïcödé"));
}

#[test]
fn json_text_is_trimmed_or_empty() {
    assert_eq!(json_import_text("  {\"a\":1}\n").unwrap(), "{\"a\":1}");
    assert!(matches!(json_import_text(" \n "), Err(ExportError::EmptyData)));
}
