use vstd::prelude::*;

use lettre::address::AddressError;
use lettre::message::header::{ContentType, ContentTypeErr};
use lettre::message::Mailbox;
use lettre::message::header::To;
use lettre::message::{Attachment, Mailboxes, MultiPart, SinglePart};
use lettre::Message;

use crate::record::{copy_strings, string_views};

verus! {

#[verifier::external_type_specification]
#[verifier::external_body]
pub struct ExMailbox(Mailbox);

#[verifier::external_type_specification]
#[verifier::external_body]
pub struct ExAddressError(AddressError);

#[verifier::external_type_specification]
#[verifier::external_body]
pub struct ExContentType(ContentType);

#[verifier::external_type_specification]
#[verifier::external_body]
pub struct ExContentTypeErr(ContentTypeErr);

#[verifier::external_type_specification]
#[verifier::external_body]
pub struct ExMessage(Message);

#[verifier::external_type_specification]
#[verifier::external_body]
pub struct ExMessageError(lettre::error::Error);

/// The address every e-mail is sent from.
pub const SENDER: &'static str = "MDclone <nobody@domain.tld>";

/// The subject of every e-mail.
pub const SUBJECT: &'static str = "Happy new year";

/// The content type of the report attached to the report e-mail.
pub const REPORT_CONTENT_TYPE: &'static str = "text/csv";

/// The name of the report attached to the report e-mail.
pub const REPORT_ATTACHMENT_NAME: &'static str = "data.csv";

/// The HTML part of the report e-mail.
pub const REPORT_HTML_BODY: &'static str = "happy";

/// The content type of the report e-mail as a whole.
pub const REPORT_MESSAGE_CONTENT_TYPE: &'static str = "text/plain; charset=utf-8";

/// The content type of the HTML part of the report e-mail.
pub const REPORT_HTML_CONTENT_TYPE: &'static str = "text/html; charset=utf-8";

/// Why an e-mail could not be composed or sent.
pub enum EmailError {
    /// No MIME type is known for the file's extension.
    MimeUndetermined,
    /// The MIME type could not be read as a content type.
    MimeUnparsable,
    /// The file could not be read.
    ReadFailed,
    /// This recipient address could not be read.
    InvalidAddress(String),
    /// The sender address could not be read.
    InvalidSender,
    /// The message could not be put together.
    CreateFailed,
    /// The message could not be sent.
    SendFailed,
}

/// The text reported for an error.
pub open spec fn email_error_text(e: EmailError) -> Seq<char> {
    match e {
        EmailError::MimeUndetermined => "Could not determine mime type!"@,
        EmailError::MimeUnparsable => "Could not parse mime type!"@,
        EmailError::ReadFailed => "Could not read file!"@,
        EmailError::InvalidAddress(_) => "Could not parse email address!"@,
        EmailError::InvalidSender => "Could not parse sender address!"@,
        EmailError::CreateFailed => "Could not create email!"@,
        EmailError::SendFailed => "Could not send email!"@,
    }
}

impl EmailError {
    /// The text reported for the error.
    pub fn message(&self) -> (m: &'static str)
        ensures
            m@ == email_error_text(*self),
    {
        match self {
            EmailError::MimeUndetermined => "Could not determine mime type!",
            EmailError::MimeUnparsable => "Could not parse mime type!",
            EmailError::ReadFailed => "Could not read file!",
            EmailError::InvalidAddress(_) => "Could not parse email address!",
            EmailError::InvalidSender => "Could not parse sender address!",
            EmailError::CreateFailed => "Could not create email!",
            EmailError::SendFailed => "Could not send email!",
        }
    }
}

/// `lettre` reads `s` as a mailbox (`Mailbox::from_str`).
pub uninterp spec fn mailbox_parses(s: Seq<char>) -> bool;

/// `lettre` reads `s` as a content type (`ContentType::parse`).
pub uninterp spec fn content_type_parses(s: Seq<char>) -> bool;

/// The first MIME type, as text, that `mime_guess` knows for the (non-empty) file extension `ext`.
pub uninterp spec fn mime_for_extension(ext: Seq<char>) -> Option<Seq<char>>;

/// `lettre`'s `MessageBuilder` accepts a message sent from the mailbox `from` to the mailboxes
/// `to`: the `From` and `To` headers it writes read back as one sender and some recipient.
pub uninterp spec fn headers_accepted(from: Seq<char>, to: Seq<Seq<char>>) -> bool;

/// What a message put together by `build_file_message` carries, as the texts it was read
/// from: the sender, the recipients in order, the subject, the attachment's name, its bytes and
/// its content type. (The `Date` header, which depends on the time, is not among them.)
pub uninterp spec fn file_message_parts(m: Message) -> (
    Seq<char>,
    Seq<Seq<char>>,
    Seq<char>,
    Seq<char>,
    Seq<u8>,
    Seq<char>,
);

/// What a message put together by `build_report_message` carries, as the texts it was read
/// from: the sender, the recipients in order, the subject, the message's content type, the HTML
/// part's content type and text, the attachment's name, text and content type. (The `Date`
/// header, which depends on the time, is not among them.)
pub uninterp spec fn report_message_parts(m: Message) -> (
    Seq<char>,
    Seq<Seq<char>>,
    Seq<char>,
    Seq<char>,
    Seq<char>,
    Seq<char>,
    Seq<char>,
    Seq<char>,
    Seq<char>,
);

/// Reads a mailbox (`Name <user@domain>` or `user@domain`) with `lettre`'s `Mailbox::from_str`.
/// The contract claims that whether it succeeds is a fixed function of the text; the mailbox it
/// gives is not described (the library keeps addresses as text and only checks them here).
#[verifier::external_body]
fn parse_mailbox(s: &str) -> (r: Result<Mailbox, AddressError>)
    ensures
        r is Ok <==> mailbox_parses(s@),
{
    s.parse::<Mailbox>()
}

/// Reads a content type with `lettre`'s `ContentType::parse`. The contract claims that whether
/// it succeeds is a fixed function of the text; the content type it gives is not described
/// (the library keeps content types as text and only checks them here).
#[verifier::external_body]
fn parse_content_type(s: &str) -> (r: Result<ContentType, ContentTypeErr>)
    ensures
        r is Ok <==> content_type_parses(s@),
{
    ContentType::parse(s)
}

/// The position of the last `c` in `s`, or -1.
pub open spec fn last_index_of(s: Seq<char>, c: char) -> int
    decreases s.len(),
{
    if s.len() == 0 {
        -1
    } else if s.last() == c {
        s.len() - 1
    } else {
        last_index_of(s.drop_last(), c)
    }
}

/// `last_index_of` gives the position of the last `c`, or -1 when there is none.
pub proof fn lemma_last_index_of(s: Seq<char>, c: char)
    ensures
        -1 <= last_index_of(s, c) < s.len(),
        last_index_of(s, c) >= 0 ==> s[last_index_of(s, c)] == c,
        forall|j: int| last_index_of(s, c) < j < s.len() ==> s[j] != c,
    decreases s.len(),
{
    if s.len() > 0 && s.last() != c {
        lemma_last_index_of(s.drop_last(), c);
        assert forall|j: int| last_index_of(s, c) < j < s.len() implies s[j] != c by {
            if j < s.len() - 1 {
                assert(s[j] == s.drop_last()[j]);
            }
        }
    }
}

/// The file name of a path, as `Path::file_name` documents it: the last component, where
/// repeated and trailing slashes and `.` components other than a leading one are ignored;
/// none for a path that ends in `..`, a root, a lone `.` or nothing.
pub open spec fn path_file_name(p: Seq<char>) -> Option<Seq<char>>
    decreases p.len(),
{
    let i = last_index_of(p, '/');
    if i < 0 {
        if p.len() == 0 || p == seq!['.'] || p == seq!['.', '.'] {
            None
        } else {
            Some(p)
        }
    } else {
        let seg = p.subrange(i + 1, p.len() as int);
        if seg.len() == 0 || seg == seq!['.'] {
            proof {
                lemma_last_index_of(p, '/');
            }
            path_file_name(p.subrange(0, i))
        } else if seg == seq!['.', '.'] {
            None
        } else {
            Some(seg)
        }
    }
}

/// The extension of a file name, as `Path::extension` documents it: the text after the last
/// dot, unless there is no dot or the only dot leads the name.
pub open spec fn name_extension(f: Seq<char>) -> Option<Seq<char>> {
    let i = last_index_of(f, '.');
    if i <= 0 {
        None
    } else {
        Some(f.subrange(i + 1, f.len() as int))
    }
}

/// The extension of a path.
pub open spec fn path_extension(p: Seq<char>) -> Option<Seq<char>> {
    match path_file_name(p) {
        Some(f) => name_extension(f),
        None => None,
    }
}

/// The MIME type that `mime_guess::from_path(..).first()` gives for a path: the first one known
/// for its extension; none without an extension or for an empty one.
pub open spec fn mime_of_path(p: Seq<char>) -> Option<Seq<char>> {
    match path_extension(p) {
        Some(e) => if e.len() > 0 {
            mime_for_extension(e)
        } else {
            None
        },
        None => None,
    }
}

/// The first MIME type that `mime_guess::from_path` gives for the path, as text. The contract
/// claims what `mime_guess` and `Path::extension` document: the guess is looked up from the
/// path's extension alone, and a path without one (or with an empty one) has none.
#[verifier::external_body]
fn guess_mime(path: &str) -> (r: Option<String>)
    ensures
        r.deep_view() == match path_extension(path@) {
            Some(e) => if e.len() > 0 {
                mime_for_extension(e)
            } else {
                None
            },
            None => None,
        },
{
    mime_guess::from_path(path).first().map(|m| m.to_string())
}

/// An e-mail that carries one file as its only attachment.
pub struct FileEmail {
    pub from: String,
    pub to: Vec<String>,
    pub subject: String,
    pub attachment_name: String,
    pub body: Vec<u8>,
    pub content_type: String,
}

/// An e-mail that carries a CSV report: a message of type `message_content_type` with an HTML
/// part (`html_body`, of type `html_content_type`) followed by the report as an attachment.
pub struct ReportEmail {
    pub from: String,
    pub to: Vec<String>,
    pub subject: String,
    pub message_content_type: String,
    pub html_content_type: String,
    pub html_body: String,
    pub attachment_name: String,
    pub body: String,
    pub content_type: String,
}

/// Every address reads as a mailbox.
pub open spec fn all_parse(addresses: Seq<Seq<char>>) -> bool {
    forall|i: int| 0 <= i < addresses.len() ==> mailbox_parses(#[trigger] addresses[i])
}

/// Puts together, with `lettre`'s `MessageBuilder`, the message that `e` describes: from
/// `e.from` to the mailboxes of `e.to` in order, with subject `e.subject` and one attachment,
/// `e.body` named `e.attachment_name` of type `e.content_type`; the text parts are read with
/// `Mailbox::from_str` and `ContentType::parse`, which the `requires` says succeed. The contract
/// claims what `MessageBuilder::build` and `Envelope::new` show: with no recipient the message is
/// refused (`MissingTo`); otherwise it is made exactly when the headers read back
/// (`headers_accepted`); and, as `MessageBuilder` copies its inputs into the message, the
/// message carries the parts of `e` (`file_message_parts`). Its `Date` header is not described.
#[verifier::external_body]
fn build_file_message(e: &FileEmail) -> (r: Result<Message, lettre::error::Error>)
    requires
        mailbox_parses(e.from@),
        all_parse(string_views(e.to@)),
        content_type_parses(e.content_type@),
    ensures
        e.to@.len() == 0 ==> r is Err,
        e.to@.len() > 0 ==> (r is Ok <==> headers_accepted(e.from@, string_views(e.to@))),
        r matches Ok(m) ==> file_message_parts(m) == (
            e.from@,
            string_views(e.to@),
            e.subject@,
            e.attachment_name@,
            e.body@,
            e.content_type@,
        ),
{
    let to: Mailboxes = e.to.iter().map(|a| a.parse::<Mailbox>().unwrap()).collect();
    let attachment = Attachment::new(e.attachment_name.clone()).body(
        e.body.clone(),
        ContentType::parse(&e.content_type).unwrap(),
    );
    Message::builder().from(e.from.parse().unwrap()).mailbox(To::from(to))
        .subject(e.subject.clone()).multipart(MultiPart::mixed().singlepart(attachment))
}

/// Puts together, with `lettre`'s `MessageBuilder`, the message that `e` describes: from
/// `e.from` to the mailboxes of `e.to` in order, with subject `e.subject`, content type
/// `e.message_content_type`, and two parts: `e.html_body` of type `e.html_content_type`, then the
/// attachment `e.body` named `e.attachment_name` of type `e.content_type`. The text parts are
/// read as `build_file_message` reads them. The contract claims the same as that of
/// `build_file_message`, with the parts of `e` given by `report_message_parts`.
#[verifier::external_body]
fn build_report_message(e: &ReportEmail) -> (r: Result<Message, lettre::error::Error>)
    requires
        mailbox_parses(e.from@),
        all_parse(string_views(e.to@)),
        content_type_parses(e.message_content_type@),
        content_type_parses(e.html_content_type@),
        content_type_parses(e.content_type@),
    ensures
        e.to@.len() == 0 ==> r is Err,
        e.to@.len() > 0 ==> (r is Ok <==> headers_accepted(e.from@, string_views(e.to@))),
        r matches Ok(m) ==> report_message_parts(m) == (
            e.from@,
            string_views(e.to@),
            e.subject@,
            e.message_content_type@,
            e.html_content_type@,
            e.html_body@,
            e.attachment_name@,
            e.body@,
            e.content_type@,
        ),
{
    let to: Mailboxes = e.to.iter().map(|a| a.parse::<Mailbox>().unwrap()).collect();
    let html = SinglePart::builder().header(ContentType::parse(&e.html_content_type).unwrap())
        .body(e.html_body.clone());
    let attachment = Attachment::new(e.attachment_name.clone()).body(
        e.body.clone(),
        ContentType::parse(&e.content_type).unwrap(),
    );
    Message::builder().from(e.from.parse().unwrap()).mailbox(To::from(to))
        .subject(e.subject.clone()).header(ContentType::parse(&e.message_content_type).unwrap())
        .multipart(MultiPart::mixed().singlepart(html).singlepart(attachment))
}

/// The part of `s` after its last dot: all of `s` when it has no dot.
pub open spec fn after_last_dot(s: Seq<char>) -> Seq<char>
    decreases s.len(),
{
    if s.len() == 0 {
        s
    } else if s.last() == '.' {
        Seq::empty()
    } else {
        after_last_dot(s.drop_last()).push(s.last())
    }
}

proof fn lemma_after_last_dot(s: Seq<char>, p: int)
    requires
        -1 <= p < s.len(),
        p >= 0 ==> s[p] == '.',
        forall|i: int| p < i < s.len() ==> s[i] != '.',
    ensures
        after_last_dot(s) == s.subrange(p + 1, s.len() as int),
    decreases s.len(),
{
    if s.len() > 0 {
        if p == s.len() - 1 {
            assert(s.subrange(p + 1, s.len() as int) =~= Seq::<char>::empty());
        } else {
            lemma_after_last_dot(s.drop_last(), p);
            assert(s.subrange(p + 1, s.len() as int) =~= s.drop_last().subrange(p + 1, s.len() - 1).push(s.last()));
        }
    } else {
        assert(s.subrange(p + 1, s.len() as int) =~= s);
    }
}

/// The file ending of a path: the text after its last dot, or the whole path when it has no dot.
pub fn file_ending(file_path: &str) -> (r: String)
    ensures
        r@ == after_last_dot(file_path@),
{
    let n: usize = file_path.unicode_len();
    let mut i: usize = n;
    while i > 0
        invariant
            i <= n,
            n == file_path@.len(),
            forall|j: int| i <= j < n ==> file_path@[j] != '.',
        decreases i,
    {
        if file_path.get_char(i - 1) == '.' {
            proof {
                lemma_after_last_dot(file_path@, i - 1);
            }
            return file_path.substring_char(i, n).to_string();
        }
        i = i - 1;
    }
    proof {
        lemma_after_last_dot(file_path@, -1);
        assert(file_path@.subrange(0, n as int) =~= file_path@);
    }
    file_path.to_string()
}

/// The name under which a file is attached: `data.` followed by the file's ending.
pub open spec fn attachment_name_of(file_path: Seq<char>) -> Seq<char> {
    seq!['d', 'a', 't', 'a', '.'] + after_last_dot(file_path)
}

/// The name under which the file at `file_path` is attached: `data.` and its ending.
pub fn attachment_name(file_path: &str) -> (r: String)
    ensures
        r@ == attachment_name_of(file_path@),
{
    let ending = file_ending(file_path);
    let prefix = "data.";
    proof {
        reveal_strlit("data.");
    }
    let name = prefix.to_string();
    name.concat(ending.as_str())
}

/// The MIME type of the file at `file_path` reads as a content type.
pub open spec fn mime_readable(file_path: Seq<char>) -> bool {
    match mime_of_path(file_path) {
        Some(g) => content_type_parses(g),
        None => false,
    }
}

/// A path without a dot has no extension.
proof fn lemma_no_dot_no_extension(p: Seq<char>)
    requires
        !p.contains('.'),
    ensures
        path_extension(p) is None,
    decreases p.len(),
{
    lemma_last_index_of(p, '/');
    let i = last_index_of(p, '/');
    if i < 0 {
        lemma_last_index_of(p, '.');
        if last_index_of(p, '.') >= 0 {
            assert(p[last_index_of(p, '.')] == '.');
        }
    } else {
        let seg = p.subrange(i + 1, p.len() as int);
        if seg.len() == 0 || seg == seq!['.'] {
            let q = p.subrange(0, i);
            assert(!q.contains('.')) by {
                if q.contains('.') {
                    let k: int = choose|k: int| 0 <= k < q.len() && q[k] == '.';
                    assert(p[k] == '.');
                }
            }
            lemma_no_dot_no_extension(q);
        } else if seg != seq!['.', '.'] {
            lemma_last_index_of(seg, '.');
            if last_index_of(seg, '.') >= 0 {
                assert(p[i + 1 + last_index_of(seg, '.')] == '.');
            }
        }
    }
}

/// The guessed MIME type of the file at `file_path`, which must read as a content type. Only
/// the path's extension counts; a path without a dot has no guess.
pub fn find_file_mime(file_path: &str) -> (r: Result<String, EmailError>)
    ensures
        mime_of_path(file_path@) is None <==> r matches Err(EmailError::MimeUndetermined),
        (mime_of_path(file_path@) is Some && !mime_readable(file_path@)) <==> r matches Err(
            EmailError::MimeUnparsable,
        ),
        r is Ok <==> mime_readable(file_path@),
        r matches Ok(m) ==> Some(m@) == mime_of_path(file_path@),
        !file_path@.contains('.') ==> r matches Err(EmailError::MimeUndetermined),
{
    proof {
        if !file_path@.contains('.') {
            lemma_no_dot_no_extension(file_path@);
        }
    }
    match guess_mime(file_path) {
        Some(guess) => match parse_content_type(guess.as_str()) {
            Ok(_) => Ok(guess),
            Err(_) => Err(EmailError::MimeUnparsable),
        },
        None => Err(EmailError::MimeUndetermined),
    }
}

/// Two paths with the same extension get the same MIME type.
pub proof fn law_mime_by_extension(p: Seq<char>, q: Seq<char>)
    requires
        path_extension(p) == path_extension(q),
    ensures
        mime_of_path(p) == mime_of_path(q),
        mime_readable(p) == mime_readable(q),
{
}

/// The first address that does not read as a mailbox is `a`.
pub open spec fn first_bad_address(addresses: Seq<Seq<char>>, a: Seq<char>) -> bool {
    exists|i: int|
        0 <= i < addresses.len() && a == addresses[i] && !mailbox_parses(a) && forall|j: int|
            0 <= j < i ==> mailbox_parses(#[trigger] addresses[j])
}

/// Checks that every address reads as a mailbox; otherwise names the first that does not.
pub fn check_recipients(addresses: &Vec<String>) -> (r: Result<(), EmailError>)
    ensures
        r is Ok <==> all_parse(string_views(addresses@)),
        r matches Err(e) ==> e matches EmailError::InvalidAddress(a) && first_bad_address(
            string_views(addresses@),
            a@,
        ),
{
    let mut i: usize = 0;
    while i < addresses.len()
        invariant
            i <= addresses@.len(),
            forall|j: int| 0 <= j < i ==> mailbox_parses(#[trigger] addresses@[j]@),
        decreases addresses@.len() - i,
    {
        if parse_mailbox(addresses[i].as_str()).is_err() {
            proof {
                let views = string_views(addresses@);
                assert(views[i as int] == addresses@[i as int]@);
                assert(!all_parse(views));
                assert forall|j: int| 0 <= j < i implies mailbox_parses(#[trigger] views[j]) by {
                    assert(views[j] == addresses@[j]@);
                }
                assert(first_bad_address(views, addresses@[i as int]@));
            }
            return Err(EmailError::InvalidAddress(addresses[i].clone()));
        }
        i = i + 1;
    }
    proof {
        assert forall|j: int| 0 <= j < string_views(addresses@).len() implies mailbox_parses(
            #[trigger] string_views(addresses@)[j],
        ) by {
            assert(string_views(addresses@)[j] == addresses@[j]@);
        }
    }
    Ok(())
}

/// Checks that the sender address reads as a mailbox.
fn check_sender(from: &String) -> (r: Result<(), EmailError>)
    ensures
        r is Ok <==> mailbox_parses(from@),
        r matches Err(e) ==> e is InvalidSender,
{
    match parse_mailbox(from.as_str()) {
        Ok(_) => Ok(()),
        Err(_) => Err(EmailError::InvalidSender),
    }
}

/// Checks that a content type reads as one.
fn check_content_type(ct: &String) -> (r: Result<(), EmailError>)
    ensures
        r is Ok <==> content_type_parses(ct@),
        r matches Err(e) ==> e is MimeUnparsable,
{
    match parse_content_type(ct.as_str()) {
        Ok(_) => Ok(()),
        Err(_) => Err(EmailError::MimeUnparsable),
    }
}

/// Composes the e-mail that carries the file at `file_path` (whose contents are `body`, or
/// `None` when it could not be read) to `email_addresses`: from the sender, to the addresses in
/// order, with the subject, and the file attached as `data.` and its ending, with its guessed
/// MIME type. The checks come in this order: the file's MIME type, the file's contents, the
/// addresses, the sender.
pub fn compose_file_email(email_addresses: &Vec<String>, file_path: &str, body: Option<Vec<u8>>) -> (r:
    Result<FileEmail, EmailError>)
    ensures
        mime_of_path(file_path@) is None ==> (r matches Err(EmailError::MimeUndetermined)),
        (mime_of_path(file_path@) is Some && !mime_readable(file_path@)) ==> (r matches Err(
            EmailError::MimeUnparsable,
        )),
        (mime_readable(file_path@) && body is None) ==> (r matches Err(EmailError::ReadFailed)),
        (mime_readable(file_path@) && body is Some && !all_parse(string_views(email_addresses@))) ==> (
        r matches Err(EmailError::InvalidAddress(a)) && first_bad_address(string_views(email_addresses@), a@)),
        (mime_readable(file_path@) && body is Some && all_parse(string_views(email_addresses@))
            && !mailbox_parses(SENDER@)) ==> (r matches Err(EmailError::InvalidSender)),
        r is Ok <==> (mime_readable(file_path@) && body is Some && all_parse(string_views(email_addresses@))
            && mailbox_parses(SENDER@)),
        r matches Ok(m) ==> {
            &&& m.from@ == SENDER@
            &&& m.to@ == email_addresses@
            &&& m.subject@ == SUBJECT@
            &&& m.attachment_name@ == attachment_name_of(file_path@)
            &&& m.body@ == body->0@
            &&& Some(m.content_type@) == mime_of_path(file_path@)
        },
{
    let content_type = match find_file_mime(file_path) {
        Ok(ct) => ct,
        Err(e) => {
            return Err(e);
        },
    };
    let body = match body {
        Some(b) => b,
        None => {
            return Err(EmailError::ReadFailed);
        },
    };
    if let Err(e) = check_recipients(email_addresses) {
        return Err(e);
    }
    let from = SENDER.to_string();
    if let Err(e) = check_sender(&from) {
        return Err(e);
    }
    Ok(
        FileEmail {
            from,
            to: copy_strings(email_addresses),
            subject: SUBJECT.to_string(),
            attachment_name: attachment_name(file_path),
            body,
            content_type,
        },
    )
}

impl FileEmail {
    /// The `lettre` message this e-mail describes. Its parts are checked in this order: the
    /// sender, the recipients, the content type; then the message is put together, which fails
    /// when there is no recipient or its headers do not read back.
    pub fn to_message(&self) -> (r: Result<Message, EmailError>)
        ensures
            !mailbox_parses(self.from@) ==> (r matches Err(EmailError::InvalidSender)),
            (mailbox_parses(self.from@) && !all_parse(string_views(self.to@))) ==> (r matches Err(
                EmailError::InvalidAddress(a),
            ) && first_bad_address(string_views(self.to@), a@)),
            (mailbox_parses(self.from@) && all_parse(string_views(self.to@)) && !content_type_parses(
                self.content_type@,
            )) ==> (r matches Err(EmailError::MimeUnparsable)),
            (mailbox_parses(self.from@) && all_parse(string_views(self.to@)) && content_type_parses(
                self.content_type@,
            )) ==> (r is Ok <==> (self.to@.len() > 0 && headers_accepted(self.from@, string_views(self.to@)))),
            (mailbox_parses(self.from@) && all_parse(string_views(self.to@)) && content_type_parses(
                self.content_type@,
            ) && r is Err) ==> (r matches Err(EmailError::CreateFailed)),
            r matches Ok(m) ==> file_message_parts(m) == (
                self.from@,
                string_views(self.to@),
                self.subject@,
                self.attachment_name@,
                self.body@,
                self.content_type@,
            ),
    {
        check_sender(&self.from)?;
        check_recipients(&self.to)?;
        check_content_type(&self.content_type)?;
        match build_file_message(self) {
            Ok(message) => Ok(message),
            Err(_) => Err(EmailError::CreateFailed),
        }
    }
}

/// Composes the e-mail that carries the CSV report `body` to `email_addresses`: from the
/// sender, to the addresses in order, with the subject, as a plain-text message with the short
/// HTML part followed by the report attached as `data.csv` of type `text/csv`. The checks come in
/// this order: the addresses, the report's content type, the sender.
pub fn compose_report_email(email_addresses: &Vec<String>, body: String) -> (r: Result<ReportEmail, EmailError>)
    ensures
        !all_parse(string_views(email_addresses@)) ==> (r matches Err(EmailError::InvalidAddress(a))
            && first_bad_address(string_views(email_addresses@), a@)),
        (all_parse(string_views(email_addresses@)) && !content_type_parses(REPORT_CONTENT_TYPE@)) ==> (
        r matches Err(EmailError::MimeUnparsable)),
        (all_parse(string_views(email_addresses@)) && content_type_parses(REPORT_CONTENT_TYPE@)
            && !mailbox_parses(SENDER@)) ==> (r matches Err(EmailError::InvalidSender)),
        r is Ok <==> (all_parse(string_views(email_addresses@)) && content_type_parses(REPORT_CONTENT_TYPE@)
            && mailbox_parses(SENDER@)),
        r matches Ok(m) ==> {
            &&& m.from@ == SENDER@
            &&& m.to@ == email_addresses@
            &&& m.subject@ == SUBJECT@
            &&& m.message_content_type@ == REPORT_MESSAGE_CONTENT_TYPE@
            &&& m.html_content_type@ == REPORT_HTML_CONTENT_TYPE@
            &&& m.html_body@ == REPORT_HTML_BODY@
            &&& m.attachment_name@ == REPORT_ATTACHMENT_NAME@
            &&& m.body@ == body@
            &&& m.content_type@ == REPORT_CONTENT_TYPE@
        },
{
    check_recipients(email_addresses)?;
    let content_type = REPORT_CONTENT_TYPE.to_string();
    check_content_type(&content_type)?;
    let from = SENDER.to_string();
    check_sender(&from)?;
    Ok(
        ReportEmail {
            from,
            to: copy_strings(email_addresses),
            subject: SUBJECT.to_string(),
            message_content_type: REPORT_MESSAGE_CONTENT_TYPE.to_string(),
            html_content_type: REPORT_HTML_CONTENT_TYPE.to_string(),
            html_body: REPORT_HTML_BODY.to_string(),
            attachment_name: REPORT_ATTACHMENT_NAME.to_string(),
            body,
            content_type,
        },
    )
}

impl ReportEmail {
    /// The `lettre` message this e-mail describes. Its parts are checked in this order: the
    /// sender, the recipients, the three content types; then the message is put together, which
    /// fails when there is no recipient or its headers do not read back.
    pub fn to_message(&self) -> (r: Result<Message, EmailError>)
        ensures
            !mailbox_parses(self.from@) ==> (r matches Err(EmailError::InvalidSender)),
            (mailbox_parses(self.from@) && !all_parse(string_views(self.to@))) ==> (r matches Err(
                EmailError::InvalidAddress(a),
            ) && first_bad_address(string_views(self.to@), a@)),
            (mailbox_parses(self.from@) && all_parse(string_views(self.to@)) && !(content_type_parses(
                self.message_content_type@,
            ) && content_type_parses(self.html_content_type@) && content_type_parses(self.content_type@)))
                ==> (r matches Err(EmailError::MimeUnparsable)),
            (mailbox_parses(self.from@) && all_parse(string_views(self.to@)) && content_type_parses(
                self.message_content_type@,
            ) && content_type_parses(self.html_content_type@) && content_type_parses(self.content_type@))
                ==> (r is Ok <==> (self.to@.len() > 0 && headers_accepted(self.from@, string_views(self.to@)))),
            (mailbox_parses(self.from@) && all_parse(string_views(self.to@)) && content_type_parses(
                self.message_content_type@,
            ) && content_type_parses(self.html_content_type@) && content_type_parses(self.content_type@)
                && r is Err) ==> (r matches Err(EmailError::CreateFailed)),
            r matches Ok(m) ==> report_message_parts(m) == (
                self.from@,
                string_views(self.to@),
                self.subject@,
                self.message_content_type@,
                self.html_content_type@,
                self.html_body@,
                self.attachment_name@,
                self.body@,
                self.content_type@,
            ),
    {
        check_sender(&self.from)?;
        check_recipients(&self.to)?;
        check_content_type(&self.message_content_type)?;
        check_content_type(&self.html_content_type)?;
        check_content_type(&self.content_type)?;
        match build_report_message(self) {
            Ok(message) => Ok(message),
            Err(_) => Err(EmailError::CreateFailed),
        }
    }
}

/// The file ending never holds a dot; a path without a dot is its own ending.
pub proof fn law_ending_has_no_dot(s: Seq<char>)
    ensures
        !after_last_dot(s).contains('.'),
        !s.contains('.') ==> after_last_dot(s) == s,
    decreases s.len(),
{
    if s.len() > 0 && s.last() != '.' {
        law_ending_has_no_dot(s.drop_last());
        let t = after_last_dot(s.drop_last());
        assert forall|i: int| 0 <= i < t.push(s.last()).len() implies t.push(s.last())[i] != '.' by {
            if i < t.len() {
                assert(t.push(s.last())[i] == t[i]);
            }
        }
        if !s.contains('.') {
            assert forall|i: int| 0 <= i < s.drop_last().len() implies s.drop_last()[i] != '.' by {
                assert(s[i] != '.');
            }
            assert(s.drop_last().push(s.last()) =~= s);
        }
    }
    if s.len() > 0 && s.last() == '.' {
        assert(s.contains('.')) by {
            assert(s[s.len() - 1] == '.');
        }
    }
}

} // verus!
