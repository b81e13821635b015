//! What the library says of the header types of HTTP.

use reqwest::header::{HeaderMap, HeaderName, HeaderValue};
use vstd::prelude::*;
use vstd::string::*;
use vstd::utf8::*;

verus! {

#[verifier::external_type_specification]
#[verifier::external_body]
#[verifier::reject_recursive_types(T)]
pub struct ExHeaderMap<T>(reqwest::header::HeaderMap<T>);

#[verifier::external_type_specification]
#[verifier::external_body]
pub struct ExHeaderName(reqwest::header::HeaderName);

#[verifier::external_type_specification]
#[verifier::external_body]
pub struct ExHeaderValue(reqwest::header::HeaderValue);

/// The text of a header name, in lower case.
pub uninterp spec fn header_name(name: HeaderName) -> Seq<char>;

/// The bytes of a header value.
pub uninterp spec fn header_bytes(value: HeaderValue) -> Seq<u8>;

/// The values of each name that occurs in a header map, in the order in which
/// they were added.
pub uninterp spec fn header_contents(map: HeaderMap) -> Map<Seq<char>, Seq<Seq<u8>>>;

/// The contents of a map without headers.
pub open spec fn no_contents() -> Map<Seq<char>, Seq<Seq<u8>>> {
    Map::empty()
}

/// How many names a header map can hold with room for one more in any case.
pub open spec fn sure_room() -> nat {
    6553
}

/// A header name of lower case letters and hyphens.
pub open spec fn is_plain_name(name: Seq<char>) -> bool {
    &&& 1 <= name.len() <= 64
    &&& forall|i: int| 0 <= i < name.len() ==> 'a' <= #[trigger] name[i] <= 'z' || name[i] == '-'
}

/// A byte that a header value may hold.
pub open spec fn is_value_byte(b: u8) -> bool {
    b == 9 || (b >= 32 && b != 127)
}

/// A visible ASCII byte, a space or a tab.
pub open spec fn is_visible(b: u8) -> bool {
    b == 9 || 32 <= b < 127
}

/// Whether a text can be a header value.
pub open spec fn is_value_text(text: Seq<char>) -> bool {
    forall|i: int|
        0 <= i < encode_utf8(text).len() ==> is_value_byte(#[trigger] encode_utf8(text)[i])
}

/// A text of printable ASCII can be a header value.
pub proof fn lemma_printable_is_value_text(text: Seq<char>)
    requires
        forall|i: int| 0 <= i < text.len() ==> ' ' <= #[trigger] text[i] <= '~',
    ensures
        is_value_text(text),
{
    assert(is_ascii_chars(text)) by {
        assert forall|i: int| 0 <= i < text.len() implies '\0' <= #[trigger] text[i] <= '\u{7f}' by {}
    }
    is_ascii_chars_encode_utf8(text);
    assert forall|i: int| 0 <= i < encode_utf8(text).len() implies is_value_byte(
        #[trigger] encode_utf8(text)[i],
    ) by {
        assert(' ' <= text[i] <= '~');
    }
}

/// The text of a header value that holds visible ASCII alone.
pub open spec fn visible_text(bytes: Seq<u8>) -> Option<Seq<char>> {
    if forall|i: int| 0 <= i < bytes.len() ==> is_visible(#[trigger] bytes[i]) {
        Some(Seq::new(bytes.len(), |i: int| bytes[i] as char))
    } else {
        None
    }
}

/// The text of the first value of `name`, where there is one and it is visible
/// ASCII.
pub open spec fn header_text(
    contents: Map<Seq<char>, Seq<Seq<u8>>>,
    name: Seq<char>,
) -> Option<Seq<char>> {
    if contents.contains_key(name) {
        visible_text(contents[name][0])
    } else {
        None
    }
}

/// The contents of a map after a name got a value, unless it had one.
pub open spec fn with_missing(
    contents: Map<Seq<char>, Seq<Seq<u8>>>,
    name: Seq<char>,
    value: Seq<u8>,
) -> Map<Seq<char>, Seq<Seq<u8>>> {
    if contents.contains_key(name) {
        contents
    } else {
        contents.insert(name, seq![value])
    }
}

/// `HeaderMap::new`: a map without headers.
#[verifier::external_body]
pub(crate) fn no_headers() -> (r: HeaderMap)
    ensures
        header_contents(r) == no_contents(),
{
    HeaderMap::new()
}

/// `HeaderName::from_static`, which panics on a name that is empty, too long
/// or holds another character than a header name in lower case may: the name
/// with this text.
#[verifier::external_body]
fn static_name(text: &'static str) -> (name: HeaderName)
    requires
        is_plain_name(text@),
    ensures
        header_name(name) == text@,
{
    HeaderName::from_static(text)
}

/// `HeaderValue::from_str`: the value with the bytes of `text`, unless one of
/// them is a control byte other than the tab.
#[verifier::external_body]
pub(crate) fn text_value(text: &str) -> (r: Option<HeaderValue>)
    ensures
        match r {
            Some(value) => is_value_text(text@) && header_bytes(value) == encode_utf8(text@),
            None => !is_value_text(text@),
        },
{
    HeaderValue::from_str(text).ok()
}

/// `HeaderValue::to_str`: the text of a value that holds visible ASCII alone.
#[verifier::external_body]
fn value_text(value: &HeaderValue) -> (r: Option<&str>)
    ensures
        match r {
            Some(text) => visible_text(header_bytes(*value)) == Some(text@),
            None => visible_text(header_bytes(*value)) is None,
        },
{
    value.to_str().ok()
}

/// `HeaderMap::get`: the first value of a name.
#[verifier::external_body]
fn first_value<'a>(map: &'a HeaderMap, name: &str) -> (r: Option<&'a HeaderValue>)
    requires
        is_plain_name(name@),
    ensures
        match r {
            Some(value) => header_contents(*map).contains_key(name@) && header_bytes(*value)
                == header_contents(*map)[name@][0],
            None => !header_contents(*map).contains_key(name@),
        },
{
    map.get(name)
}

/// `HeaderMap::try_insert`: the name has this value and no other, or, where
/// the map cannot grow any more, nothing is changed. The table of a map has at
/// most 32768 slots, and has to grow when three quarters of them are taken, or,
/// where many names collide, a fifth. So a map with at most `sure_room` names
/// takes one more, and beyond that the hashes of the names decide.
#[verifier::external_body]
fn insert_header(map: &mut HeaderMap, name: HeaderName, value: HeaderValue) -> (r: bool)
    ensures
        header_contents(*final(map)) == (if r {
            header_contents(*old(map)).insert(header_name(name), seq![header_bytes(value)])
        } else {
            header_contents(*old(map))
        }),
        header_contents(*old(map)).dom().len() <= sure_room() ==> r,
{
    map.try_insert(name, value).is_ok()
}

/// `HeaderValue::clone`: a value with the same bytes.
pub assume_specification[ <HeaderValue as Clone>::clone ](value: &HeaderValue) -> (r: HeaderValue)
    ensures
        header_bytes(r) == header_bytes(*value),
;

/// `HeaderMap::clone`: a map with the same contents, which are finitely many.
#[verifier::external_body]
pub(crate) fn copied_headers(map: &HeaderMap) -> (r: HeaderMap)
    ensures
        header_contents(r) == header_contents(*map),
        header_contents(r).dom().finite(),
{
    map.clone()
}

/// The text of the first value of `name`, where there is one and it is visible
/// ASCII.
pub fn first_text<'a>(map: &'a HeaderMap, name: &str) -> (r: Option<&'a str>)
    requires
        is_plain_name(name@),
    ensures
        match r {
            Some(text) => header_text(header_contents(*map), name@) == Some(text@),
            None => header_text(header_contents(*map), name@) is None,
        },
{
    match first_value(map, name) {
        Some(value) => value_text(value),
        None => None,
    }
}

/// Give a name a value, unless it has one. The result is `false`, and nothing
/// is changed, where the map cannot grow any more.
pub(crate) fn add_missing(map: &mut HeaderMap, name: &'static str, value: HeaderValue) -> (r: bool)
    requires
        is_plain_name(name@),
        header_contents(*old(map)).dom().finite(),
    ensures
        header_contents(*final(map)) == (if r {
            with_missing(header_contents(*old(map)), name@, header_bytes(value))
        } else {
            header_contents(*old(map))
        }),
        header_contents(*final(map)).dom().finite(),
        header_contents(*old(map)).contains_key(name@) ==> r,
        header_contents(*old(map)).dom().len() <= sure_room() ==> r,
{
    if first_value(map, name).is_some() {
        return true;
    }
    insert_header(map, static_name(name), value)
}

/// A header is read where its first value is visible ASCII, a space or a tab,
/// character by character, and no other.
pub proof fn law_header_text_is_the_first_value(
    contents: Map<Seq<char>, Seq<Seq<u8>>>,
    name: Seq<char>,
)
    ensures
        header_text(contents, name) is Some <==> contents.contains_key(name) && forall|i: int|
            0 <= i < contents[name][0].len() ==> 32 <= #[trigger] contents[name][0][i] <= 126
                || contents[name][0][i] == 9,
        header_text(contents, name) matches Some(text) ==> text.len() == contents[name][0].len()
            && forall|i: int|
            0 <= i < text.len() ==> #[trigger] text[i] == contents[name][0][i] as char,
{
    if contents.contains_key(name) {
        let bytes = contents[name][0];
        assert forall|i: int| 0 <= i < bytes.len() implies (is_visible(#[trigger] bytes[i]) <==> 32
            <= bytes[i] <= 126 || bytes[i] == 9) by {}
    }
}

/// A text is a header value unless it has a control byte other than the tab.
pub proof fn law_header_values_have_no_controls(text: Seq<char>)
    ensures
        is_value_text(text) <==> forall|i: int|
            0 <= i < encode_utf8(text).len() ==> #[trigger] encode_utf8(text)[i] == 9 || 32
                <= encode_utf8(text)[i] <= 126 || encode_utf8(text)[i] >= 128,
{
    let bytes = encode_utf8(text);
    assert forall|i: int| 0 <= i < bytes.len() implies (is_value_byte(#[trigger] bytes[i])
        <==> bytes[i] == 9 || 32 <= bytes[i] <= 126 || bytes[i] >= 128) by {}
}

/// Giving a name a value where it has none changes nothing else, and changes
/// nothing where it has one.
pub proof fn law_missing_headers_are_added(
    contents: Map<Seq<char>, Seq<Seq<u8>>>,
    name: Seq<char>,
    value: Seq<u8>,
    other: Seq<char>,
)
    ensures
        with_missing(contents, name, value).contains_key(name),
        with_missing(contents, name, value)[name] == (if contents.contains_key(name) {
            contents[name]
        } else {
            seq![value]
        }),
        other != name ==> with_missing(contents, name, value).contains_key(other)
            == contents.contains_key(other),
        other != name && contents.contains_key(other) ==> with_missing(contents, name, value)[other]
            == contents[other],
{
}

} // verus!
