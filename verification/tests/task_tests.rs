use csv_tasks::record::Record;
use csv_tasks::table::parse_csv_records;
use csv_tasks::task::{
    ExecuteOptions, ExportAction, FileType, FilterOptions, OutputOptions, ParseConfig, SplitError,
    SplitOptions, TargetValues,
};

fn s(x: &str) -> String {
    x.to_string()
}

fn strings(xs: &[&str]) -> Vec<String> {
    xs.iter().map(|x| x.to_string()).collect()
}

fn options() -> SplitOptions {
    SplitOptions {
        column_name: s("city"),
        target_to_value: vec![
            TargetValues { targets: strings(&["a@x.org"]), values: strings(&["oslo", "rome"]) },
            TargetValues { targets: strings(&["b@x.org", "c@x.org"]), values: strings(&["paris"]) },
        ],
        output_options: OutputOptions { smtp: Some(true), sftp: None },
    }
}

const CSV: &[u8] = b"name,city\nann,oslo\nbob,paris\ncid,rome\ndan,lima\n";

#[test]
fn split_one_export_per_value() {
    let exps = options().execute(CSV).ok().unwrap();
    let values: Vec<String> = exps.iter().map(|e| e.value.clone()).collect();
    assert_eq!(values, strings(&["oslo", "rome", "paris"]));
    let oslo = &exps[0];
    assert_eq!(oslo.targets, strings(&["a@x.org"]));
    assert_eq!(oslo.header, strings(&["name", "city"]));
    assert_eq!(oslo.rows, vec![strings(&["ann", "oslo"]), strings(&["cid", "rome"])]);
    let paris = &exps[2];
    assert_eq!(paris.targets, strings(&["b@x.org", "c@x.org"]));
    assert_eq!(paris.rows, vec![strings(&["bob", "paris"])]);
}

#[test]
fn split_values_of_one_group_share_the_file() {
    let exps = options().execute(CSV).ok().unwrap();
    assert_eq!(exps[0].rows, exps[1].rows);
    assert_eq!(exps[0].targets, exps[1].targets);
}

#[test]
fn split_later_group_takes_a_value_over() {
    let mut o = options();
    o.target_to_value.push(TargetValues { targets: strings(&["d@x.org"]), values: strings(&["rome"]) });
    let exps = o.execute(CSV).ok().unwrap();
    let rome = exps.iter().find(|e| e.value == "rome").unwrap();
    assert_eq!(rome.targets, strings(&["d@x.org"]));
    assert_eq!(rome.rows, vec![strings(&["cid", "rome"])]);
    let oslo = exps.iter().find(|e| e.value == "oslo").unwrap();
    assert_eq!(oslo.rows, vec![strings(&["ann", "oslo"])]);
}

#[test]
fn split_empty_group_fails() {
    let mut o = options();
    o.target_to_value.push(TargetValues { targets: strings(&["e@x.org"]), values: strings(&["berlin"]) });
    match o.execute(CSV) {
        Err(SplitError::EmptyGroup(v)) => assert_eq!(v, "berlin"),
        _ => panic!("expected an empty group"),
    }
}

#[test]
fn split_unreadable_row_fails_first() {
    let r = options().execute(b"name,city\nann,oslo\nbob\ncid,rome\n");
    match r {
        Err(SplitError::UnreadableRecord(i)) => assert_eq!(i, 1),
        _ => panic!("expected an unreadable row"),
    }
}

#[test]
fn split_incomplete_row_fails() {
    let mut a = Record::new();
    a.insert(s("city"), s("paris"));
    a.insert(s("name"), s("ann"));
    let mut b = Record::new();
    b.insert(s("city"), s("paris"));
    let mut o = options();
    o.target_to_value.remove(0);
    match o.split_records(&vec![Some(a), Some(b)]) {
        Err(SplitError::IncompleteRecord(v)) => assert_eq!(v, "paris"),
        _ => panic!("expected an incomplete row"),
    }
}

#[test]
fn split_without_groups_writes_nothing() {
    let mut o = options();
    o.target_to_value.clear();
    assert_eq!(o.execute(CSV).ok().unwrap().len(), 0);
}

#[test]
fn parse_config_without_split_writes_nothing() {
    let pc = ParseConfig { filter_options: None, split_options: None, file_type: FileType::CSV };
    assert_eq!(pc.parse_csv(CSV).ok().unwrap().len(), 0);
    let ex = ExecuteOptions { parse_config: None, csv_file: s("in.csv") };
    assert_eq!(ex.execute(CSV).ok().unwrap().len(), 0);
    let ex = ExecuteOptions {
        parse_config: Some(ParseConfig { filter_options: None, split_options: Some(options()), file_type: FileType::EXCEL }),
        csv_file: s("in.csv"),
    };
    assert_eq!(ex.execute(CSV).ok().unwrap().len(), 3);
}

#[test]
fn filter_drops_listed_columns() {
    let f = FilterOptions { filter_column_name: strings(&["city", "zip"]) };
    let out = f.execute_on_csv_record(b"name,city,age\nann,oslo,30\nbob\n");
    assert_eq!(out.len(), 2);
    assert_eq!(out[0].keys(), strings(&["name", "age"]));
    assert_eq!(out[0].get(&s("age")), Some(&s("30")));
    assert_eq!(out[0].get(&s("city")), None);
    assert_eq!(out[1].keys(), Vec::<String>::new());
}

#[test]
fn filter_records_keeps_order_and_count() {
    let f = FilterOptions { filter_column_name: vec![] };
    let rows = parse_csv_records(b"a\n1\n2\n");
    let out = f.filter_records(&rows);
    assert_eq!(out[0].get(&s("a")), Some(&s("1")));
    assert_eq!(out[1].get(&s("a")), Some(&s("2")));
}

#[test]
fn export_actions_follow_flags() {
    let both = OutputOptions { smtp: Some(true), sftp: Some(true) };
    let acts = both.export(strings(&["a@x.org"]), s("/tmp/f.csv"));
    assert_eq!(acts.len(), 2);
    match &acts[0] {
        ExportAction::SendEmail { recipients, file_path } => {
            assert_eq!(recipients, &strings(&["a@x.org"]));
            assert_eq!(file_path, "/tmp/f.csv");
        }
        _ => panic!("expected an e-mail first"),
    }
    assert!(matches!(acts[1], ExportAction::NotifySftp));
    let none = OutputOptions { smtp: Some(false), sftp: None };
    assert_eq!(none.export(vec![], s("f")).len(), 0);
    let sftp = OutputOptions { smtp: None, sftp: Some(true) };
    let acts = sftp.export(vec![], s("f"));
    assert_eq!(acts.len(), 1);
    assert!(matches!(acts[0], ExportAction::NotifySftp));
}

#[test]
fn export_to_csv_bytes() {
    let exps = options().execute(CSV).ok().unwrap();
    assert_eq!(exps[0].to_csv(), b"name,city\nann,oslo\ncid,rome\n".to_vec());
    let quoted = csv_tasks::task::Export {
        value: s("v"),
        targets: vec![],
        header: strings(&["a", "b"]),
        rows: vec![strings(&["x,y", "z"])],
    };
    assert_eq!(quoted.to_csv(), b"a,b\n\"x,y\",z\n".to_vec());
}

#[test]
fn split_same_for_both_file_types() {
    let csv_cfg = ParseConfig { filter_options: None, split_options: Some(options()), file_type: FileType::CSV };
    let xl_cfg = ParseConfig { filter_options: None, split_options: Some(options()), file_type: FileType::EXCEL };
    let a = csv_cfg.parse_csv(CSV).ok().unwrap();
    let b = xl_cfg.parse_csv(CSV).ok().unwrap();
    assert_eq!(a.len(), b.len());
    for (x, y) in a.iter().zip(b.iter()) {
        assert_eq!(x.rows, y.rows);
        assert_eq!(x.targets, y.targets);
    }
}

#[test]
fn filter_lists_naming_same_columns_agree() {
    let f1 = FilterOptions { filter_column_name: strings(&["city", "zip"]) };
    let f2 = FilterOptions { filter_column_name: strings(&["city", "city"]) };
    let a = f1.execute_on_csv_record(b"name,city\nann,oslo\n");
    let b = f2.execute_on_csv_record(b"name,city\nann,oslo\n");
    assert_eq!(a[0].keys(), b[0].keys());
    assert_eq!(a[0].get(&s("name")), b[0].get(&s("name")));
}
