//! vCard files to Markdown: one section per contact with its name,
//! organization, title, e-mail addresses, phone numbers, address, website
//! and note. Parsing is done by the `vcard_parser` crate.
use vstd::prelude::*;
use vcard_parser::traits::HasValue;
use crate::calendar::opt_line;
use crate::chars::{from_utf8_lossy, to_string, utf8_lossy};
use crate::error::{is_parse_error, parse_error, MarkitdownError};
use crate::model::{ext_views, is_markdown_doc, markdown_document, opt_str, strs, ConversionOptions, Document, DocumentConverter};
use crate::text::{chars_eq_str, chars_of, decimal, extend_chars, extend_str, push_decimal, trim, trim_chars};

verus! {

/// vCard converter.
pub struct VCardConverter;

/// The number of cards that `vcard_parser::parse_vcards` reads from the
/// text, or the `Debug` text of its error.
pub uninterp spec fn vcf_cards(content: Seq<char>) -> Result<nat, Seq<char>>;

/// The value (as its `Display` writes it) of the property that
/// `Vcard::get_property_by_name` finds in card `card`, if any.
pub uninterp spec fn vcf_single(content: Seq<char>, card: nat, prop: Seq<char>) -> Option<Seq<char>>;

/// The values (as their `Display` writes them) of the properties that
/// `Vcard::get_properties_by_name` gives for card `card`, in order.
pub uninterp spec fn vcf_multiple(content: Seq<char>, card: nat, prop: Seq<char>) -> Seq<Seq<char>>;

/// Parses the cards and gives their number, or the error formatted with
/// `{:?}`.
#[verifier::external_body]
fn count_cards(content: &str) -> (r: Result<usize, String>)
    ensures
        match r {
            Ok(n) => vcf_cards(content@) == Ok::<nat, Seq<char>>(n as nat),
            Err(m) => vcf_cards(content@) == Err::<nat, Seq<char>>(m@),
        },
{
    match vcard_parser::parse_vcards(content) {
        Ok(cards) => Ok(cards.len()),
        Err(e) => Err(format!("{:?}", e)),
    }
}

/// Parses the cards and gives the value of `get_property_by_name(prop)` of
/// card `card`.
#[verifier::external_body]
fn single_value(content: &str, card: usize, prop: &str) -> (r: Option<String>)
    ensures
        opt_str(r) == vcf_single(content@, card as nat, prop@),
{
    let cards = vcard_parser::parse_vcards(content).ok()?;
    cards.get(card)?.get_property_by_name(prop).map(|p| p.get_value().to_string())
}

/// Parses the cards and gives the values of `get_properties_by_name(prop)`
/// of card `card`.
#[verifier::external_body]
fn multiple_values(content: &str, card: usize, prop: &str) -> (r: Vec<String>)
    ensures
        strs(r@) == vcf_multiple(content@, card as nat, prop@),
{
    match vcard_parser::parse_vcards(content) {
        Ok(cards) => match cards.get(card) {
            Some(c) => c.get_properties_by_name(prop).iter().map(|p| p.get_value().to_string()).collect(),
            None => Vec::new(),
        },
        Err(_) => Vec::new(),
    }
}

/// The text without the commas at its two ends.
pub open spec fn trim_commas(s: Seq<char>) -> Seq<char>
    decreases s.len(),
{
    if s.len() > 0 && s[0] == ',' {
        trim_commas(s.drop_first())
    } else if s.len() > 0 && s.last() == ',' {
        trim_commas(s.drop_last())
    } else {
        s
    }
}

/// The address shown for an address value: each `;` made `, `, the commas
/// at both ends removed, then trimmed.
pub open spec fn address_text(v: Seq<char>) -> Seq<char> {
    trim(trim_commas(crate::bibtex::replace_seq(v, ";"@, ", "@)))
}

/// The line of an address: shown unless empty or only separators.
pub open spec fn address_md(o: Option<Seq<char>>) -> Seq<char> {
    match o {
        Some(v) => {
            let a = address_text(v);
            if a.len() > 0 && a != ", , , , , ,"@ {
                "- **Address:** "@ + a + "\n"@
            } else {
                Seq::empty()
            }
        },
        None => Seq::empty(),
    }
}

/// A line for each value.
pub open spec fn each_line(before: Seq<char>, vs: Seq<Seq<char>>) -> Seq<char>
    decreases vs.len(),
{
    if vs.len() == 0 {
        Seq::empty()
    } else {
        each_line(before, vs.drop_last()) + before + vs.last() + "\n"@
    }
}

/// The section of card `k`.
pub open spec fn card_md(c: Seq<char>, k: nat) -> Seq<char> {
    "## \u{1F464} Contact\n\n"@ + opt_line("**"@, vcf_single(c, k, "FN"@), "**\n\n"@) + opt_line(
        "- **Organization:** "@,
        vcf_single(c, k, "ORG"@),
        "\n"@,
    ) + opt_line("- **Title:** "@, vcf_single(c, k, "TITLE"@), "\n"@) + each_line(
        "- **Email:** "@,
        vcf_multiple(c, k, "EMAIL"@),
    ) + each_line("- **Phone:** "@, vcf_multiple(c, k, "TEL"@)) + address_md(vcf_single(c, k, "ADR"@)) + opt_line(
        "- **Website:** "@,
        vcf_single(c, k, "URL"@),
        "\n"@,
    ) + opt_line("\n> "@, vcf_single(c, k, "NOTE"@), "\n"@) + "\n"@
}

/// The sections of the first `k` cards.
pub open spec fn cards_md(c: Seq<char>, k: nat) -> Seq<char>
    decreases k,
{
    if k == 0 {
        Seq::empty()
    } else {
        cards_md(c, (k - 1) as nat) + card_md(c, (k - 1) as nat)
    }
}

/// The Markdown of `n` cards.
pub open spec fn contacts_md(c: Seq<char>, n: nat) -> Seq<char> {
    "# Contacts\n\n"@ + if n == 0 {
        "*No contacts found.*\n"@
    } else {
        cards_md(c, n) + "---\n*"@ + decimal(n) + " contact(s)*\n"@
    }
}

/// The result for vCard bytes (decoded as UTF-8, invalid sequences
/// replaced).
pub open spec fn vcf_result(b: Seq<u8>, r: Result<Document, MarkitdownError>) -> bool {
    match vcf_cards(utf8_lossy(b)) {
        Ok(n) => r matches Ok(d) && is_markdown_doc(d, contacts_md(utf8_lossy(b), n)),
        Err(m) => r matches Err(e) && is_parse_error(e, "vCard parse error: "@ + m),
    }
}

/// The text without the commas at its two ends.
fn trim_commas_exec(s: &[char]) -> (r: Vec<char>)
    ensures
        r@ == trim_commas(s@),
{
    let mut lo: usize = 0;
    let mut hi: usize = s.len();
    assert(s@.subrange(0, s@.len() as int) =~= s@);
    while lo < hi && s[lo] == ','
        invariant
            lo <= hi <= s@.len(),
            hi == s@.len(),
            trim_commas(s@.subrange(lo as int, hi as int)) == trim_commas(s@),
        decreases hi - lo,
    {
        assert(s@.subrange(lo + 1, hi as int) =~= s@.subrange(lo as int, hi as int).drop_first());
        lo += 1;
    }
    while lo < hi && s[hi - 1] == ','
        invariant
            lo <= hi <= s@.len(),
            lo == hi || s@[lo as int] != ',',
            trim_commas(s@.subrange(lo as int, hi as int)) == trim_commas(s@),
        decreases hi - lo,
    {
        assert(s@.subrange(lo as int, hi - 1) =~= s@.subrange(lo as int, hi as int).drop_last());
        hi -= 1;
    }
    assert(trim_commas(s@.subrange(lo as int, hi as int)) == s@.subrange(lo as int, hi as int));
    crate::text::sub_vec(s, lo, hi)
}

/// Appends a line for each value.
fn push_each(md: &mut Vec<char>, before: &str, vs: &Vec<String>)
    ensures
        final(md)@ == old(md)@ + each_line(before@, strs(vs@)),
{
    let ghost sv = strs(vs@);
    let ghost start = md@;
    let mut i: usize = 0;
    while i < vs.len()
        invariant
            i <= vs@.len(),
            sv == strs(vs@),
            md@ == start + each_line(before@, sv.take(i as int)),
        decreases vs@.len() - i,
    {
        extend_str(md, before);
        extend_str(md, vs[i].as_str());
        extend_str(md, "\n");
        proof {
            assert(sv.take(i + 1).drop_last() =~= sv.take(i as int));
        }
        i += 1;
    }
    assert(sv.take(i as int) =~= sv);
}

/// Appends `before`, the value and `after`, where there is a value.
fn push_opt_value(md: &mut Vec<char>, before: &str, o: &Option<String>, after: &str)
    ensures
        final(md)@ == old(md)@ + opt_line(before@, opt_str(*o), after@),
{
    let ghost start = md@;
    match o {
        Some(v) => {
            extend_str(md, before);
            extend_str(md, v.as_str());
            extend_str(md, after);
            assert(md@ =~= start + (before@ + v@ + after@));
        },
        None => {
            assert(start + Seq::<char>::empty() =~= start);
        },
    }
}

/// Appends the address line.
fn push_address(md: &mut Vec<char>, o: &Option<String>)
    ensures
        final(md)@ == old(md)@ + address_md(opt_str(*o)),
{
    let ghost start = md@;
    match o {
        Some(v) => {
            let vc = chars_of(v.as_str());
            let replaced = crate::bibtex::replace_chars(vc.as_slice(), ";", ", ");
            let a = trim_chars(trim_commas_exec(replaced.as_slice()).as_slice());
            assert(a@ == address_text(v@));
            if a.len() > 0 && !chars_eq_str(a.as_slice(), ", , , , , ,") {
                extend_str(md, "- **Address:** ");
                extend_chars(md, a.as_slice());
                extend_str(md, "\n");
            } else {
                assert(start + Seq::<char>::empty() =~= start);
            }
        },
        None => {
            assert(start + Seq::<char>::empty() =~= start);
        },
    }
}

/// Appends the section of card `k`.
fn push_card(md: &mut Vec<char>, content: &str, k: usize)
    ensures
        final(md)@ == old(md)@ + card_md(content@, k as nat),
{
    let ghost start = md@;
    extend_str(md, "## \u{1F464} Contact\n\n");
    push_opt_value(md, "**", &single_value(content, k, "FN"), "**\n\n");
    push_opt_value(md, "- **Organization:** ", &single_value(content, k, "ORG"), "\n");
    push_opt_value(md, "- **Title:** ", &single_value(content, k, "TITLE"), "\n");
    push_each(md, "- **Email:** ", &multiple_values(content, k, "EMAIL"));
    push_each(md, "- **Phone:** ", &multiple_values(content, k, "TEL"));
    push_address(md, &single_value(content, k, "ADR"));
    push_opt_value(md, "- **Website:** ", &single_value(content, k, "URL"), "\n");
    push_opt_value(md, "\n> ", &single_value(content, k, "NOTE"), "\n");
    extend_str(md, "\n");
    assert(md@ =~= start + card_md(content@, k as nat));
}

impl VCardConverter {
    /// Converts vCard bytes to a one-page document (see [`contacts_md`]);
    /// text that does not parse is a parse error.
    pub fn convert_vcf(bytes: &[u8]) -> (r: Result<Document, MarkitdownError>)
        ensures
            vcf_result(bytes@, r),
    {
        let content = to_string(from_utf8_lossy(bytes).as_slice());
        let n = match count_cards(content.as_str()) {
            Ok(n) => n,
            Err(m) => {
                let mc = chars_of(m.as_str());
                return Err(parse_error("vCard parse error: ", mc.as_slice()));
            },
        };
        let mut md: Vec<char> = Vec::new();
        extend_str(&mut md, "# Contacts\n\n");
        if n == 0 {
            extend_str(&mut md, "*No contacts found.*\n");
        } else {
            let ghost head = md@;
            let mut k: usize = 0;
            while k < n
                invariant
                    k <= n,
                    md@ == head + cards_md(content@, k as nat),
                decreases n - k,
            {
                push_card(&mut md, content.as_str(), k);
                k += 1;
            }
            extend_str(&mut md, "---\n*");
            push_decimal(&mut md, n);
            extend_str(&mut md, " contact(s)*\n");
        }
        assert(md@ =~= contacts_md(content@, n as nat));
        Ok(markdown_document(md))
    }

    /// Converts vCard bytes; an extension hint other than `.vcf` or `.vcard`
    /// (compared exactly) is an invalid file.
    pub fn convert_bytes(&self, bytes: &[u8], options: Option<&ConversionOptions>) -> (r: Result<Document, MarkitdownError>)
        ensures
            match options {
                Some(o) => match opt_str(o.file_extension) {
                    Some(e) => if e == ".vcf"@ || e == ".vcard"@ {
                        vcf_result(bytes@, r)
                    } else {
                        r matches Err(MarkitdownError::InvalidFile(m)) && m@ == "Expected .vcf file, got "@ + e
                    },
                    None => vcf_result(bytes@, r),
                },
                None => vcf_result(bytes@, r),
            },
    {
        match options {
            Some(o) => match &o.file_extension {
                Some(e) => {
                    let c = chars_of(e.as_str());
                    let s = c.as_slice();
                    if !(chars_eq_str(s, ".vcf") || chars_eq_str(s, ".vcard")) {
                        let mut m: Vec<char> = Vec::new();
                        extend_str(&mut m, "Expected .vcf file, got ");
                        extend_chars(&mut m, s);
                        return Err(MarkitdownError::InvalidFile(to_string(m.as_slice())));
                    }
                },
                None => {},
            },
            None => {},
        }
        Self::convert_vcf(bytes)
    }
}

impl DocumentConverter for VCardConverter {
    open spec fn extensions(&self) -> Seq<Seq<char>> {
        seq![".vcf"@, ".vcard"@]
    }

    fn supported_extensions(&self) -> (r: Vec<&'static str>) {
        let r = vec![".vcf", ".vcard"];
        assert(ext_views(r@) =~= self.extensions());
        r
    }
}

} // verus!
