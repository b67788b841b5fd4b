use csv_tasks::record::Record;
use csv_tasks::table::parse_csv_records;

fn s(x: &str) -> String {
    x.to_string()
}

#[test]
fn record_insert_get_remove() {
    let mut r = Record::new();
    r.insert(s("city"), s("oslo"));
    r.insert(s("name"), s("ann"));
    r.insert(s("city"), s("rome"));
    assert_eq!(r.get(&s("city")), Some(&s("rome")));
    assert_eq!(r.get(&s("name")), Some(&s("ann")));
    assert_eq!(r.get(&s("age")), None);
    assert_eq!(r.keys(), vec![s("city"), s("name")]);
    r.remove(&s("city"));
    assert_eq!(r.get(&s("city")), None);
    assert_eq!(r.keys(), vec![s("name")]);
    r.remove(&s("missing"));
    assert_eq!(r.keys(), vec![s("name")]);
}

#[test]
fn record_duplicate_is_equal() {
    let mut r = Record::new();
    r.insert(s("a"), s("1"));
    r.insert(s("b"), s("2"));
    let d = r.duplicate();
    assert_eq!(d.keys(), r.keys());
    assert_eq!(d.get(&s("b")), Some(&s("2")));
}

#[test]
fn record_from_row_later_header_wins() {
    let header = vec![s("a"), s("b"), s("a")];
    let row = vec![s("1"), s("2"), s("3")];
    let r = Record::from_row(&header, &row).unwrap();
    assert_eq!(r.keys(), vec![s("a"), s("b")]);
    assert_eq!(r.get(&s("a")), Some(&s("3")));
    assert!(Record::from_row(&header, &vec![s("1")]).is_none());
}

#[test]
fn parse_csv_reads_rows_by_header() {
    let rows = parse_csv_records(b"name,city\nann,oslo\nbob,rome\n");
    assert_eq!(rows.len(), 2);
    let first = rows[0].as_ref().unwrap();
    assert_eq!(first.get(&s("name")), Some(&s("ann")));
    assert_eq!(first.get(&s("city")), Some(&s("oslo")));
    assert_eq!(rows[1].as_ref().unwrap().get(&s("name")), Some(&s("bob")));
}

#[test]
fn parse_csv_short_or_invalid_rows_are_unread() {
    let rows = parse_csv_records(b"name,city\nann\nbob,rome\n\xff\xfe,x\n");
    assert_eq!(rows.len(), 3);
    assert!(rows[0].is_none());
    assert!(rows[1].is_some());
    assert!(rows[2].is_none());
}

#[test]
fn parse_csv_header_only_has_no_rows() {
    assert_eq!(parse_csv_records(b"name,city\n").len(), 0);
    assert_eq!(parse_csv_records(b"").len(), 0);
}
