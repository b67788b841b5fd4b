use csv_tasks::email::{
    attachment_name, check_recipients, compose_file_email, compose_report_email, file_ending, find_file_mime,
    EmailError,
};

fn strings(xs: &[&str]) -> Vec<String> {
    xs.iter().map(|x| x.to_string()).collect()
}

#[test]
fn file_ending_is_after_last_dot() {
    assert_eq!(file_ending("/tmp/act/abc.def.csv"), "csv");
    assert_eq!(file_ending("noext"), "noext");
    assert_eq!(file_ending("trailing."), "");
    assert_eq!(file_ending(""), "");
}

#[test]
fn attachment_is_named_data_and_ending() {
    assert_eq!(attachment_name("/tmp/x/1234.xlsx"), "data.xlsx");
    assert_eq!(attachment_name("report"), "data.report");
    assert_eq!(attachment_name("/tmp/act.Xy12Z/3f2a.csv"), "data.csv");
}

#[test]
fn mime_from_extension() {
    assert_eq!(find_file_mime("/tmp/a.csv").ok().unwrap(), "text/csv");
    assert_eq!(find_file_mime("/tmp/b.CSV").ok().unwrap(), "text/csv");
    assert!(find_file_mime("/tmp/a.xlsx").is_ok());
    assert!(matches!(find_file_mime("/tmp/noext"), Err(EmailError::MimeUndetermined)));
    assert!(matches!(find_file_mime("/tmp/a.notaknownext"), Err(EmailError::MimeUndetermined)));
}

#[test]
fn mime_of_path_without_dot_is_undetermined() {
    match find_file_mime("/tmp/README") {
        Err(e) => assert_eq!(e.message(), "Could not determine mime type!"),
        Ok(_) => panic!("expected no mime type"),
    }
    assert!(matches!(find_file_mime("/tmp/act.Xy12Z/3f2a"), Err(EmailError::MimeUndetermined)));
    assert!(matches!(find_file_mime("/tmp/.csv"), Err(EmailError::MimeUndetermined)));
}

#[test]
fn mime_depends_on_extension_only() {
    assert_eq!(find_file_mime("/a/b/x.csv").ok(), find_file_mime("other.dir/y.csv").ok());
    assert_eq!(find_file_mime("/tmp/act.Xy12Z/3f2a.csv").ok().unwrap(), "text/csv");
}

#[test]
fn recipients_must_all_parse() {
    assert!(check_recipients(&strings(&["a@x.org", "Bob <b@x.org>"])).is_ok());
    match check_recipients(&strings(&["a@x.org", "not an address", "also bad"])) {
        Err(EmailError::InvalidAddress(a)) => assert_eq!(a, "not an address"),
        _ => panic!("expected an invalid address"),
    }
}

#[test]
fn file_email_checks_in_order() {
    let body = Some(b"a,b\n1,2\n".to_vec());
    assert!(matches!(compose_file_email(&strings(&["a@x.org"]), "f", body.clone()), Err(EmailError::MimeUndetermined)));
    assert!(matches!(compose_file_email(&strings(&["bad"]), "f.csv", None), Err(EmailError::ReadFailed)));
    assert!(matches!(compose_file_email(&strings(&["bad"]), "f.csv", body.clone()), Err(EmailError::InvalidAddress(_))));
    let empty = compose_file_email(&vec![], "f.csv", body.clone()).ok().unwrap();
    assert!(matches!(empty.to_message(), Err(EmailError::CreateFailed)));
}

#[test]
fn file_email_content() {
    let to = strings(&["a@x.com", "Bob <b@x.com>"]);
    let m = compose_file_email(&to, "/tmp/act.Xy12Z/3f2a.csv", Some(b"x,y\n1,2\n".to_vec())).ok().unwrap();
    assert_eq!(m.from, "MDclone <nobody@domain.tld>");
    assert_eq!(m.to, to);
    assert_eq!(m.subject, "Happy new year");
    assert_eq!(m.attachment_name, "data.csv");
    assert_eq!(m.content_type, "text/csv");
    assert_eq!(m.body, b"x,y\n1,2\n".to_vec());
    let message = m.to_message().ok().unwrap();
    let text = String::from_utf8(message.formatted()).unwrap();
    assert!(text.contains("Subject: Happy new year"));
    assert!(text.contains("data.csv"));
    assert!(text.contains("text/csv"));
    assert!(text.contains("a@x.com"));
}

#[test]
fn report_email() {
    let m = compose_report_email(&strings(&["a@x.org"]), "a,b\n".to_string()).ok().unwrap();
    assert_eq!(m.from, "MDclone <nobody@domain.tld>");
    assert_eq!(m.to, strings(&["a@x.org"]));
    assert_eq!(m.subject, "Happy new year");
    assert_eq!(m.html_body, "happy");
    assert_eq!(m.html_content_type, "text/html; charset=utf-8");
    assert_eq!(m.message_content_type, "text/plain; charset=utf-8");
    assert_eq!(m.attachment_name, "data.csv");
    assert_eq!(m.content_type, "text/csv");
    assert_eq!(m.body, "a,b\n");
    assert!(m.to_message().is_ok());
    let empty = compose_report_email(&vec![], "a\n".to_string()).ok().unwrap();
    assert!(matches!(empty.to_message(), Err(EmailError::CreateFailed)));
    assert!(matches!(compose_report_email(&strings(&["@@"]), "a\n".to_string()), Err(EmailError::InvalidAddress(_))));
}

#[test]
fn error_messages() {
    assert_eq!(EmailError::MimeUndetermined.message(), "Could not determine mime type!");
    assert_eq!(EmailError::MimeUnparsable.message(), "Could not parse mime type!");
    assert_eq!(EmailError::ReadFailed.message(), "Could not read file!");
    assert_eq!(EmailError::InvalidAddress("x".to_string()).message(), "Could not parse email address!");
    assert_eq!(EmailError::CreateFailed.message(), "Could not create email!");
    assert_eq!(EmailError::SendFailed.message(), "Could not send email!");
}
