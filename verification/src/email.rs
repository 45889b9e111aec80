//! E-mail messages (EML) to Markdown: the From, To and CC addresses, the
//! subject and date, the body, and a list of the attachments.
use vstd::prelude::*;
use mail_parser::MimeHeaders;
use crate::chars::{to_lowercase, to_string, unicode_lowercase};
use crate::error::{parse_error, MarkitdownError};
use crate::html::{html_to_markdown, parse_html};
use crate::model::{ext_views, is_markdown_doc, markdown_document, opt_str, ConversionOptions, Document, DocumentConverter};
use crate::text::{
    chars_eq_str, chars_of, decimal, extend_chars, extend_str, join, join_chars, lemma_chars_deep_view, lemma_push_line, push_decimal,
    trim, trim_chars,
};

verus! {

/// E-mail converter.
pub struct EmailConverter;

/// One address of a header: the display name and the address, each where
/// the header gives it.
pub struct MailAddress {
    pub name: Option<String>,
    pub address: Option<String>,
}

/// The mathematical content of a [`MailAddress`].
pub struct MailAddressView {
    pub name: Option<Seq<char>>,
    pub address: Option<Seq<char>>,
}

impl View for MailAddress {
    type V = MailAddressView;

    open spec fn view(&self) -> MailAddressView {
        MailAddressView { name: opt_str(self.name), address: opt_str(self.address) }
    }
}

/// One attachment: its file name and content type where given, and the
/// size of its contents in bytes.
pub struct MailAttachment {
    pub name: Option<String>,
    pub content_type: Option<String>,
    pub size: usize,
}

/// The mathematical content of a [`MailAttachment`].
pub struct MailAttachmentView {
    pub name: Option<Seq<char>>,
    pub content_type: Option<Seq<char>>,
    pub size: nat,
}

impl View for MailAttachment {
    type V = MailAttachmentView;

    open spec fn view(&self) -> MailAttachmentView {
        MailAttachmentView { name: opt_str(self.name), content_type: opt_str(self.content_type), size: self.size as nat }
    }
}

/// The views of a list of addresses, where there is one.
pub open spec fn addr_views(r: Option<Vec<MailAddress>>) -> Option<Seq<MailAddressView>> {
    match r {
        Some(v) => Some(v@.map_values(|a: MailAddress| a@)),
        None => None,
    }
}

/// Whether `MessageParser::parse` accepts the bytes as a message.
pub uninterp spec fn mail_parses(data: Seq<u8>) -> bool;

/// The addresses of the From header of the parsed message.
pub uninterp spec fn mail_from(data: Seq<u8>) -> Option<Seq<MailAddressView>>;

/// The addresses of the To header of the parsed message.
pub uninterp spec fn mail_to(data: Seq<u8>) -> Option<Seq<MailAddressView>>;

/// The addresses of the Cc header of the parsed message.
pub uninterp spec fn mail_cc(data: Seq<u8>) -> Option<Seq<MailAddressView>>;

/// The subject of the parsed message.
pub uninterp spec fn mail_subject(data: Seq<u8>) -> Option<Seq<char>>;

/// The date of the parsed message, as its `Display` (RFC 3339) writes it.
pub uninterp spec fn mail_date(data: Seq<u8>) -> Option<Seq<char>>;

/// The first text body of the parsed message.
pub uninterp spec fn mail_text_body(data: Seq<u8>) -> Option<Seq<char>>;

/// The first HTML body of the parsed message.
pub uninterp spec fn mail_html_body(data: Seq<u8>) -> Option<Seq<char>>;

/// The attachments of the parsed message, in order.
pub uninterp spec fn mail_attachments(data: Seq<u8>) -> Seq<MailAttachmentView>;

/// Calls `MessageParser::default().parse` and tells whether it gave a
/// message.
#[verifier::external_body]
fn parses(data: &[u8]) -> (r: bool)
    ensures
        r == mail_parses(data@),
{
    mail_parser::MessageParser::default().parse(data).is_some()
}

/// Parses the message and gives the name and address of each entry of
/// `Message::from`.
#[verifier::external_body]
fn from_addresses(data: &[u8]) -> (r: Option<Vec<MailAddress>>)
    ensures
        addr_views(r) == mail_from(data@),
{
    let m = mail_parser::MessageParser::default().parse(data)?;
    let a = m.from()?;
    Some(a.iter().map(|x| MailAddress { name: x.name().map(String::from), address: x.address().map(String::from) }).collect())
}

/// Parses the message and gives the name and address of each entry of
/// `Message::to`.
#[verifier::external_body]
fn to_addresses(data: &[u8]) -> (r: Option<Vec<MailAddress>>)
    ensures
        addr_views(r) == mail_to(data@),
{
    let m = mail_parser::MessageParser::default().parse(data)?;
    let a = m.to()?;
    Some(a.iter().map(|x| MailAddress { name: x.name().map(String::from), address: x.address().map(String::from) }).collect())
}

/// Parses the message and gives the name and address of each entry of
/// `Message::cc`.
#[verifier::external_body]
fn cc_addresses(data: &[u8]) -> (r: Option<Vec<MailAddress>>)
    ensures
        addr_views(r) == mail_cc(data@),
{
    let m = mail_parser::MessageParser::default().parse(data)?;
    let a = m.cc()?;
    Some(a.iter().map(|x| MailAddress { name: x.name().map(String::from), address: x.address().map(String::from) }).collect())
}

/// Parses the message and gives `Message::subject`.
#[verifier::external_body]
fn subject_of(data: &[u8]) -> (r: Option<String>)
    ensures
        opt_str(r) == mail_subject(data@),
{
    let m = mail_parser::MessageParser::default().parse(data)?;
    m.subject().map(String::from)
}

/// Parses the message and gives `Message::date` as its `Display` writes it.
#[verifier::external_body]
fn date_of(data: &[u8]) -> (r: Option<String>)
    ensures
        opt_str(r) == mail_date(data@),
{
    let m = mail_parser::MessageParser::default().parse(data)?;
    m.date().map(|d| d.to_string())
}

/// Parses the message and gives `Message::body_text(0)`.
#[verifier::external_body]
fn text_body_of(data: &[u8]) -> (r: Option<String>)
    ensures
        opt_str(r) == mail_text_body(data@),
{
    let m = mail_parser::MessageParser::default().parse(data)?;
    m.body_text(0).map(|s| s.into_owned())
}

/// Parses the message and gives `Message::body_html(0)`.
#[verifier::external_body]
fn html_body_of(data: &[u8]) -> (r: Option<String>)
    ensures
        opt_str(r) == mail_html_body(data@),
{
    let m = mail_parser::MessageParser::default().parse(data)?;
    m.body_html(0).map(|s| s.into_owned())
}

/// Parses the message and gives, for each of `Message::attachments`, its
/// `attachment_name`, the type of its `content_type` and its `len`.
#[verifier::external_body]
fn attachments_of(data: &[u8]) -> (r: Vec<MailAttachment>)
    ensures
        r@.map_values(|a: MailAttachment| a@) == mail_attachments(data@),
{
    match mail_parser::MessageParser::default().parse(data) {
        Some(m) => m.attachments().map(|a| MailAttachment {
            name: a.attachment_name().map(String::from),
            content_type: a.content_type().map(|c| c.c_type.to_string()),
            size: a.len(),
        }).collect(),
        None => Vec::new(),
    }
}

/// `o`, or `d` where there is none.
pub open spec fn or_default(o: Option<Seq<char>>, d: Seq<char>) -> Seq<char> {
    match o {
        Some(s) => s,
        None => d,
    }
}

/// An address as `name <address>`, or the bare address where there is no
/// name (a missing address is empty).
pub open spec fn address_md(a: MailAddressView) -> Seq<char> {
    match a.name {
        Some(n) => n + " <"@ + or_default(a.address, Seq::<char>::empty()) + ">"@,
        None => or_default(a.address, Seq::<char>::empty()),
    }
}

/// The line of an address header: `**Label:**` and the addresses separated
/// by commas; nothing where the header is missing or empty.
pub open spec fn addresses_md(label: Seq<char>, l: Option<Seq<MailAddressView>>) -> Seq<char> {
    match l {
        Some(v) => if v.len() > 0 {
            "**"@ + label + ":** "@ + join(v.map_values(|a: MailAddressView| address_md(a)), ", "@) + "\n\n"@
        } else {
            Seq::<char>::empty()
        },
        None => Seq::<char>::empty(),
    }
}

/// The line of a text header: `**Label:**` and the value; nothing where
/// the header is missing.
pub open spec fn field_md(label: Seq<char>, o: Option<Seq<char>>) -> Seq<char> {
    match o {
        Some(s) => "**"@ + label + ":** "@ + s + "\n\n"@,
        None => Seq::<char>::empty(),
    }
}

/// The item of an attachment: name (or `unnamed`), content type (or
/// `unknown`) and size in bytes.
pub open spec fn attachment_md(a: MailAttachmentView) -> Seq<char> {
    "- **"@ + or_default(a.name, "unnamed"@) + "** ("@ + or_default(a.content_type, "unknown"@) + ", "@
        + decimal(a.size) + " bytes)\n"@
}

/// The items of the attachments, in order.
pub open spec fn attachments_md(l: Seq<MailAttachmentView>) -> Seq<char>
    decreases l.len(),
{
    if l.len() == 0 {
        Seq::<char>::empty()
    } else {
        attachments_md(l.drop_last()) + attachment_md(l.last())
    }
}

/// The body shown: the text body, else the HTML body turned into
/// Markdown.
pub open spec fn mail_body(data: Seq<u8>) -> Option<Seq<char>> {
    match mail_text_body(data) {
        Some(t) => Some(t),
        None => match mail_html_body(data) {
            Some(h) => Some(html_to_markdown(h)),
            None => None,
        },
    }
}

/// The Markdown of a message's fields, before trimming: a heading, the
/// From, To and CC lines, subject and date, a rule, the body and the
/// attachments.
pub open spec fn fields_md(
    from: Option<Seq<MailAddressView>>,
    to: Option<Seq<MailAddressView>>,
    cc: Option<Seq<MailAddressView>>,
    subject: Option<Seq<char>>,
    date: Option<Seq<char>>,
    body: Option<Seq<char>>,
    attachments: Seq<MailAttachmentView>,
) -> Seq<char> {
    "# Email\n\n"@ + addresses_md("From"@, from) + addresses_md("To"@, to) + addresses_md("CC"@, cc) + field_md(
        "Subject"@,
        subject,
    ) + field_md("Date"@, date) + "---\n\n"@ + match body {
        Some(b) => b + "\n\n"@,
        None => Seq::<char>::empty(),
    } + if attachments.len() > 0 {
        "---\n\n## Attachments\n\n"@ + attachments_md(attachments)
    } else {
        Seq::<char>::empty()
    }
}

/// The Markdown of a parsed message, before trimming.
pub open spec fn email_md_untrimmed(data: Seq<u8>) -> Seq<char> {
    fields_md(
        mail_from(data),
        mail_to(data),
        mail_cc(data),
        mail_subject(data),
        mail_date(data),
        mail_body(data),
        mail_attachments(data),
    )
}

/// The Markdown of a parsed message, trimmed.
pub open spec fn email_md(data: Seq<u8>) -> Seq<char> {
    trim(email_md_untrimmed(data))
}

/// Appends the line of an address header.
fn push_addresses(md: &mut Vec<char>, label: &str, l: &Option<Vec<MailAddress>>)
    ensures
        final(md)@ == old(md)@ + addresses_md(label@, addr_views(*l)),
{
    let ghost start = md@;
    match l {
        Some(v) => {
            if v.len() > 0 {
                let ghost views = v@.map_values(|a: MailAddress| a@);
                let mut parts: Vec<Vec<char>> = Vec::new();
                let mut i: usize = 0;
                while i < v.len()
                    invariant
                        i <= v@.len(),
                        views == v@.map_values(|a: MailAddress| a@),
                        parts.deep_view() =~= views.take(i as int).map_values(|a: MailAddressView| address_md(a)),
                    decreases v@.len() - i,
                {
                    let a = &v[i];
                    let mut p: Vec<char> = Vec::new();
                    match &a.name {
                        Some(n) => {
                            extend_str(&mut p, n.as_str());
                            extend_str(&mut p, " <");
                            match &a.address {
                                Some(s) => extend_str(&mut p, s.as_str()),
                                None => {},
                            }
                            extend_str(&mut p, ">");
                        },
                        None => match &a.address {
                            Some(s) => extend_str(&mut p, s.as_str()),
                            None => {},
                        },
                    }
                    proof {
                        lemma_chars_deep_view(p);
                        assert(p@ =~= address_md(views[i as int]));
                    }
                    let ghost before = parts.deep_view();
                    parts.push(p);
                    proof {
                        lemma_push_line(before, parts@, p);
                        assert(views.take(i + 1) =~= views.take(i as int).push(views[i as int]));
                        assert(parts.deep_view() =~= before.push(p@));
                    }
                    i += 1;
                }
                assert(views.take(i as int) =~= views);
                extend_str(md, "**");
                extend_str(md, label);
                extend_str(md, ":** ");
                let j = join_chars(&parts, &[',', ' ']);
                assert(seq![',', ' '] =~= ", "@) by {
                    reveal_strlit(", ");
                }
                extend_chars(md, j.as_slice());
                extend_str(md, "\n\n");
                assert(md@ =~= start + addresses_md(label@, addr_views(*l)));
            } else {
                assert(start + Seq::<char>::empty() =~= start);
            }
        },
        None => {
            assert(start + Seq::<char>::empty() =~= start);
        },
    }
}

/// Appends the line of a text header.
fn push_field(md: &mut Vec<char>, label: &str, o: &Option<String>)
    ensures
        final(md)@ == old(md)@ + field_md(label@, opt_str(*o)),
{
    let ghost start = md@;
    match o {
        Some(s) => {
            extend_str(md, "**");
            extend_str(md, label);
            extend_str(md, ":** ");
            extend_str(md, s.as_str());
            extend_str(md, "\n\n");
            assert(md@ =~= start + field_md(label@, opt_str(*o)));
        },
        None => {
            assert(start + Seq::<char>::empty() =~= start);
        },
    }
}

/// Appends the items of the attachments.
fn push_attachments(md: &mut Vec<char>, l: &Vec<MailAttachment>)
    ensures
        final(md)@ == old(md)@ + attachments_md(l@.map_values(|a: MailAttachment| a@)),
{
    let ghost views = l@.map_values(|a: MailAttachment| a@);
    let ghost start = md@;
    let mut i: usize = 0;
    while i < l.len()
        invariant
            i <= l@.len(),
            views == l@.map_values(|a: MailAttachment| a@),
            md@ == start + attachments_md(views.take(i as int)),
        decreases l@.len() - i,
    {
        let a = &l[i];
        let ghost before = md@;
        extend_str(md, "- **");
        match &a.name {
            Some(n) => extend_str(md, n.as_str()),
            None => extend_str(md, "unnamed"),
        }
        extend_str(md, "** (");
        match &a.content_type {
            Some(c) => extend_str(md, c.as_str()),
            None => extend_str(md, "unknown"),
        }
        extend_str(md, ", ");
        push_decimal(md, a.size);
        extend_str(md, " bytes)\n");
        proof {
            assert(views.take(i + 1).drop_last() =~= views.take(i as int));
            assert(md@ =~= before + attachment_md(views[i as int]));
        }
        i += 1;
    }
    assert(views.take(i as int) =~= views);
}

impl EmailConverter {
    /// The Markdown of a message's fields (see [`fields_md`]), trimmed.
    pub fn email_markdown(
        from: &Option<Vec<MailAddress>>,
        to: &Option<Vec<MailAddress>>,
        cc: &Option<Vec<MailAddress>>,
        subject: &Option<String>,
        date: &Option<String>,
        body: &Option<String>,
        attachments: &Vec<MailAttachment>,
    ) -> (r: Vec<char>)
        ensures
            r@ == trim(
                fields_md(
                    addr_views(*from),
                    addr_views(*to),
                    addr_views(*cc),
                    opt_str(*subject),
                    opt_str(*date),
                    opt_str(*body),
                    attachments@.map_values(|a: MailAttachment| a@),
                ),
            ),
    {
        let mut md: Vec<char> = Vec::new();
        extend_str(&mut md, "# Email\n\n");
        push_addresses(&mut md, "From", from);
        push_addresses(&mut md, "To", to);
        push_addresses(&mut md, "CC", cc);
        push_field(&mut md, "Subject", subject);
        push_field(&mut md, "Date", date);
        extend_str(&mut md, "---\n\n");
        match body {
            Some(b) => {
                extend_str(&mut md, b.as_str());
                extend_str(&mut md, "\n\n");
            },
            None => {},
        }
        if attachments.len() > 0 {
            extend_str(&mut md, "---\n\n## Attachments\n\n");
            push_attachments(&mut md, attachments);
        }
        proof {
            reveal_strlit("From");
            reveal_strlit("To");
            reveal_strlit("CC");
            reveal_strlit("Subject");
            reveal_strlit("Date");
            assert(md@ =~= fields_md(
                addr_views(*from),
                addr_views(*to),
                addr_views(*cc),
                opt_str(*subject),
                opt_str(*date),
                opt_str(*body),
                attachments@.map_values(|a: MailAttachment| a@),
            ));
        }
        trim_chars(md.as_slice())
    }

    /// Converts a message to a one-page document: a heading, the From, To
    /// and CC lines, subject and date, a rule, the body (the text body, else
    /// the HTML body turned into Markdown) and the attachments; a message
    /// that does not parse is a parse error.
    pub fn convert_email(bytes: &[u8]) -> (r: Result<Document, MarkitdownError>)
        ensures
            mail_parses(bytes@) ==> (r matches Ok(d) && is_markdown_doc(d, email_md(bytes@))),
            !mail_parses(bytes@) ==> (r matches Err(MarkitdownError::ParseError(m)) && m@ == "Failed to parse email"@),
    {
        if !parses(bytes) {
            let none: Vec<char> = Vec::new();
            assert("Failed to parse email"@ + none@ =~= "Failed to parse email"@);
            return Err(parse_error("Failed to parse email", none.as_slice()));
        }
        let from = from_addresses(bytes);
        let to = to_addresses(bytes);
        let cc = cc_addresses(bytes);
        let subject = subject_of(bytes);
        let date = date_of(bytes);
        let body = match text_body_of(bytes) {
            Some(t) => Some(t),
            None => match html_body_of(bytes) {
                Some(h) => Some(parse_html(h.as_str())),
                None => None,
            },
        };
        assert(opt_str(body) == mail_body(bytes@));
        let atts = attachments_of(bytes);
        let md = Self::email_markdown(&from, &to, &cc, &subject, &date, &body, &atts);
        Ok(markdown_document(md))
    }

    /// Converts a message; an extension hint that is neither `.eml` nor
    /// `.msg` (after `to_lowercase`) is an invalid file.
    pub fn convert_bytes(&self, bytes: &[u8], options: Option<&ConversionOptions>) -> (r: Result<Document, MarkitdownError>)
        ensures
            match options {
                Some(o) => match opt_str(o.file_extension) {
                    Some(e) => if unicode_lowercase(e) == ".eml"@ || unicode_lowercase(e) == ".msg"@ {
                        email_result(bytes@, r)
                    } else {
                        r matches Err(MarkitdownError::InvalidFile(m)) && m@ == "Expected .eml or .msg file, got "@ + e
                    },
                    None => email_result(bytes@, r),
                },
                None => email_result(bytes@, r),
            },
    {
        match options {
            Some(o) => match &o.file_extension {
                Some(e) => {
                    let c = chars_of(e.as_str());
                    let lower = to_lowercase(c.as_slice());
                    if !(chars_eq_str(lower.as_slice(), ".eml") || chars_eq_str(lower.as_slice(), ".msg")) {
                        let mut m: Vec<char> = Vec::new();
                        extend_str(&mut m, "Expected .eml or .msg file, got ");
                        extend_chars(&mut m, c.as_slice());
                        return Err(MarkitdownError::InvalidFile(to_string(m.as_slice())));
                    }
                },
                None => {},
            },
            None => {},
        }
        Self::convert_email(bytes)
    }
}

/// What [`EmailConverter::convert_email`] gives for the bytes.
pub open spec fn email_result(data: Seq<u8>, r: Result<Document, MarkitdownError>) -> bool {
    if mail_parses(data) {
        r matches Ok(d) && is_markdown_doc(d, email_md(data))
    } else {
        r matches Err(MarkitdownError::ParseError(m)) && m@ == "Failed to parse email"@
    }
}

impl DocumentConverter for EmailConverter {
    open spec fn extensions(&self) -> Seq<Seq<char>> {
        seq![".eml"@, ".msg"@]
    }

    fn supported_extensions(&self) -> (r: Vec<&'static str>) {
        let r = vec![".eml", ".msg"];
        assert(ext_views(r@) =~= self.extensions());
        r
    }
}

} // verus!
