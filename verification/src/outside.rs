//! The calls into the outside crates `encoding`, `xml-rs`, `regex` and
//! `url`. Each of these functions is trusted: its contract is taken as
//! given, not proved, and its doc comment says what is claimed of the
//! outside function it calls.
use vstd::prelude::*;
use vstd::utf8::encode_utf8;
use crate::feed::XmlItem;
use crate::feed::XmlItemView;
use encoding::Encoding;
use xml::reader::XmlEvent;

verus! {

/// What `encoding::all::WINDOWS_1251.decode(bytes, DecoderTrap::Replace)`
/// yields for `bytes`.
pub uninterp spec fn windows1251_of(bytes: Seq<u8>) -> Seq<char>;

/// Decodes `bytes` as Windows-1251 with the `Replace` trap of the
/// `encoding` crate. Claimed: the result is `windows1251_of(bytes)`; the
/// single-byte decoder writes exactly one character per byte (a byte with no
/// mapping becomes U+FFFD), and bytes below 0x80 are written as the ASCII
/// character of the same value. The crate's decoder never fails under the
/// `Replace` trap; the `Err` arm is unreachable and kept only to convert.
#[verifier::external_body]
pub(crate) fn decode_windows1251(bytes: &[u8]) -> (res: String)
    ensures
        res@ == windows1251_of(bytes@),
        res@.len() == bytes@.len(),
        forall|i: int| 0 <= i < bytes@.len() && bytes@[i] < 128 ==> res@[i] == (bytes@[i] as char),
{
    match encoding::all::WINDOWS_1251.decode(bytes, encoding::DecoderTrap::Replace) {
        Ok(text) => text,
        Err(_) => String::new(),
    }
}

/// The events that `xml::reader::EventReader` (crate `xml-rs`) yields when it
/// reads `text` as UTF-8, in order, up to and including the end of the
/// document or the first error, each reduced to an `XmlItemView`.
pub uninterp spec fn xml_items_of(text: Seq<char>) -> Seq<XmlItemView>;

/// Runs `xml-rs`'s `EventReader` over the UTF-8 bytes of `text` and lists its
/// events: a start or end tag by its local name, character data by its
/// text, a parse error as `Malformed`, and every other event as `Other`.
/// Claimed: the list is `xml_items_of(text)`.
#[verifier::external_body]
pub(crate) fn xml_items(text: &str) -> (res: Vec<XmlItem>)
    ensures
        res@.map_values(|e: XmlItem| e@) == xml_items_of(text@),
{
    let mut items = Vec::new();
    for ev in xml::reader::EventReader::new(text.as_bytes()) {
        items.push(match ev {
            Ok(XmlEvent::StartElement { name, .. }) => XmlItem::Start(name.local_name),
            Ok(XmlEvent::EndElement { name }) => XmlItem::End(name.local_name),
            Ok(XmlEvent::Characters(data)) => XmlItem::Text(data),
            Ok(_) => XmlItem::Other,
            Err(_) => XmlItem::Malformed,
        });
    }
    items
}


/// The texts of a list of optional capture groups.
pub open spec fn groups_view(g: Seq<Option<String>>) -> Seq<Option<Seq<char>>> {
    g.map_values(
        |o: Option<String>|
            match o {
                Some(s) => Some(s@),
                None => None,
            },
    )
}

/// Whether `regex::Regex::new(pattern)` compiles and the regex matches
/// somewhere in `text` (false for a pattern that does not compile).
pub uninterp spec fn regex_is_match_of(pattern: Seq<char>, text: Seq<char>) -> bool;

/// The capture groups (group 0 being the whole match) of the first match of
/// `pattern` in `text`, as `regex::Regex::captures` finds it; `None` when
/// nothing matches or the pattern does not compile.
pub uninterp spec fn regex_captures_of(pattern: Seq<char>, text: Seq<char>) -> Option<
    Seq<Option<Seq<char>>>,
>;

/// The capture groups of every successive non-overlapping match of
/// `pattern` in `text`, as `regex::Regex::captures_iter` yields them; empty
/// when the pattern does not compile.
pub uninterp spec fn regex_captures_iter_of(pattern: Seq<char>, text: Seq<char>) -> Seq<
    Seq<Option<Seq<char>>>,
>;

/// Compiles `pattern` with `regex::Regex::new` and asks `Regex::is_match`.
/// Claimed: the answer is `regex_is_match_of(pattern, text)`.
#[verifier::external_body]
pub(crate) fn regex_is_match(pattern: &str, text: &str) -> (res: bool)
    ensures
        res == regex_is_match_of(pattern@, text@),
{
    match regex::Regex::new(pattern) {
        Ok(re) => re.is_match(text),
        Err(_) => false,
    }
}

/// Compiles `pattern` with `regex::Regex::new` and calls `Regex::captures`,
/// listing the text of each group of the first match. Claimed: the result
/// is `regex_captures_of(pattern, text)`.
#[verifier::external_body]
pub(crate) fn regex_captures(pattern: &str, text: &str) -> (res: Option<Vec<Option<String>>>)
    ensures
        match res {
            Some(g) => regex_captures_of(pattern@, text@) == Some(groups_view(g@)),
            None => regex_captures_of(pattern@, text@) is None,
        },
{
    match regex::Regex::new(pattern) {
        Ok(re) => re.captures(text).map(
            |c| c.iter().map(|m| m.map(|m| m.as_str().to_string())).collect(),
        ),
        Err(_) => None,
    }
}

/// Compiles `pattern` with `regex::Regex::new` and collects
/// `Regex::captures_iter`, listing the text of each group of each match.
/// Claimed: the result is `regex_captures_iter_of(pattern, text)`.
#[verifier::external_body]
pub(crate) fn regex_captures_iter(pattern: &str, text: &str) -> (res: Vec<Vec<Option<String>>>)
    ensures
        res@.map_values(|g: Vec<Option<String>>| groups_view(g@)) == regex_captures_iter_of(
            pattern@,
            text@,
        ),
{
    match regex::Regex::new(pattern) {
        Ok(re) => re.captures_iter(text).map(
            |c| c.iter().map(|m| m.map(|m| m.as_str().to_string())).collect(),
        ).collect(),
        Err(_) => Vec::new(),
    }
}


/// The upper-case hexadecimal digit of `d` (for `d < 16`).
pub open spec fn hex_upper(d: nat) -> char {
    if d < 10 {
        (d + 48) as char
    } else {
        (d + 55) as char
    }
}

/// How the `application/x-www-form-urlencoded` byte serializer writes one
/// byte: space as `+`; ASCII letters, digits and `*-._` as themselves;
/// anything else as `%` and two upper-case hex digits.
pub open spec fn form_byte(b: u8) -> Seq<char> {
    if b == 32 {
        seq!['+']
    } else if b == 42 || b == 45 || b == 46 || b == 95 || (48 <= b && b <= 57) || (65 <= b && b
        <= 90) || (97 <= b && b <= 122) {
        seq![b as char]
    } else {
        seq!['%', hex_upper((b / 16) as nat), hex_upper((b % 16) as nat)]
    }
}

/// The byte serializer over a byte string.
pub open spec fn form_bytes(bs: Seq<u8>) -> Seq<char>
    decreases bs.len(),
{
    if bs.len() == 0 {
        seq![]
    } else {
        form_bytes(bs.drop_last()) + form_byte(bs.last())
    }
}

/// One name or value, serialized from its UTF-8 bytes.
pub open spec fn form_component(s: Seq<char>) -> Seq<char> {
    form_bytes(encode_utf8(s))
}

/// One `name=value` pair.
pub open spec fn form_pair(p: (Seq<char>, Seq<char>)) -> Seq<char> {
    form_component(p.0) + seq!['='] + form_component(p.1)
}

/// The `application/x-www-form-urlencoded` serialization of a list of
/// pairs: the pairs in order, joined by `&`.
pub open spec fn form_urlencoded(pairs: Seq<(Seq<char>, Seq<char>)>) -> Seq<char>
    decreases pairs.len(),
{
    if pairs.len() == 0 {
        seq![]
    } else if pairs.len() == 1 {
        form_pair(pairs[0])
    } else {
        form_urlencoded(pairs.drop_last()) + seq!['&'] + form_pair(pairs.last())
    }
}

/// The texts of a list of string pairs.
pub open spec fn pairs_view(pairs: Seq<(String, String)>) -> Seq<(Seq<char>, Seq<char>)> {
    pairs.map_values(|p: (String, String)| (p.0@, p.1@))
}

/// Serializes `pairs` with `url::form_urlencoded::Serializer` (a fresh
/// `String` target, no encoding override, `extend_pairs`, `finish`).
/// Claimed: the result is `form_urlencoded(pairs)`, which is how the crate's
/// source writes it: `&` before every pair but the first, each name and
/// value passed through its byte serializer over the UTF-8 bytes.
#[verifier::external_body]
pub(crate) fn form_urlencode(pairs: &[(String, String)]) -> (res: String)
    ensures
        res@ == form_urlencoded(pairs_view(pairs@)),
{
    url::form_urlencoded::Serializer::new(String::new()).extend_pairs(pairs).finish()
}

/// The serialization of `input` parsed by the `url` crate against the
/// base URL `base` (`Url::parse(base)` then `Url::join(input)`), or `None`
/// when either step fails.
pub uninterp spec fn url_join_of(base: Seq<char>, input: Seq<char>) -> Option<Seq<char>>;

/// Resolves `input` against `base` with the `url` crate. Claimed: the
/// result is `url_join_of(base, input)`.
#[verifier::external_body]
pub(crate) fn url_join(base: &str, input: &str) -> (res: Option<String>)
    ensures
        match res {
            Some(u) => url_join_of(base@, input@) == Some(u@),
            None => url_join_of(base@, input@) is None,
        },
{
    match url::Url::parse(base) {
        Ok(b) => match b.join(input) {
            Ok(u) => Some(u.to_string()),
            Err(_) => None,
        },
        Err(_) => None,
    }
}

/// The serialization of the URL `url` (parsed by the `url` crate) with its
/// query replaced by the single pair `key=value`
/// (`query_pairs_mut().clear().append_pair(key, value)`), or `None` when
/// `url` does not parse.
pub uninterp spec fn url_with_query_pair_of(url: Seq<char>, key: Seq<char>, value: Seq<char>) -> Option<Seq<char>>;

/// Sets the query of `url` to the one pair `key=value` with the `url`
/// crate. Claimed: the result is `url_with_query_pair_of(url, key, value)`.
#[verifier::external_body]
pub(crate) fn url_with_query_pair(url: &str, key: &str, value: &str) -> (res: Option<String>)
    ensures
        match res {
            Some(u) => url_with_query_pair_of(url@, key@, value@) == Some(u@),
            None => url_with_query_pair_of(url@, key@, value@) is None,
        },
{
    match url::Url::parse(url) {
        Ok(mut u) => {
            u.query_pairs_mut().clear().append_pair(key, value);
            Some(u.to_string())
        },
        Err(_) => None,
    }
}

} // verus!
