//! Text: white space, number formatting and the order of keys.
//!
//! A string is seen as its sequence of characters, `s@`.

use vstd::prelude::*;
use vstd::string::*;
use vstd::utf8::*;

verus! {

// ---------------------------------------------------------------------------
// White space
// ---------------------------------------------------------------------------

/// The characters with the Unicode property `White_Space`.
pub open spec fn is_white_space(c: char) -> bool {
    let u = c as u32;
    ||| 0x0009 <= u <= 0x000D
    ||| u == 0x0020
    ||| u == 0x0085
    ||| u == 0x00A0
    ||| u == 0x1680
    ||| 0x2000 <= u <= 0x200A
    ||| u == 0x2028
    ||| u == 0x2029
    ||| u == 0x202F
    ||| u == 0x205F
    ||| u == 0x3000
}

/// `s` without its leading white space.
pub open spec fn trim_start(s: Seq<char>) -> Seq<char>
    decreases s.len(),
{
    if s.len() > 0 && is_white_space(s.first()) {
        trim_start(s.drop_first())
    } else {
        s
    }
}

/// `s` without its trailing white space.
pub open spec fn trim_end(s: Seq<char>) -> Seq<char>
    decreases s.len(),
{
    if s.len() > 0 && is_white_space(s.last()) {
        trim_end(s.drop_last())
    } else {
        s
    }
}

/// `s` without its leading and trailing white space.
pub open spec fn trimmed(s: Seq<char>) -> Seq<char> {
    trim_end(trim_start(s))
}

/// Whether `s` is empty or made of white space only.
pub open spec fn is_blank(s: Seq<char>) -> bool {
    forall|i: int| 0 <= i < s.len() ==> is_white_space(#[trigger] s[i])
}

/// `str::trim` removes the leading and the trailing characters that have the
/// Unicode property `White_Space`.
pub assume_specification[ str::trim ](s: &str) -> (r: &str)
    ensures
        r@ == trimmed(s@),
;

proof fn lemma_trim_start_blank(s: Seq<char>)
    ensures
        trim_start(s).len() == 0 <==> is_blank(s),
        trim_start(s).len() > 0 ==> !is_white_space(trim_start(s).first()),
    decreases s.len(),
{
    if s.len() > 0 {
        if is_white_space(s.first()) {
            let rest = s.drop_first();
            lemma_trim_start_blank(rest);
            assert forall|i: int| is_blank(rest) && 0 <= i < s.len() implies is_white_space(
                #[trigger] s[i],
            ) by {
                if i > 0 {
                    assert(rest[i - 1] == s[i]);
                }
            }
            assert forall|i: int| is_blank(s) && 0 <= i < rest.len() implies is_white_space(
                #[trigger] rest[i],
            ) by {
                assert(s[i + 1] == rest[i]);
            }
        } else {
            assert(!is_white_space(s[0]));
        }
    }
}

proof fn lemma_trim_end_keeps_first(s: Seq<char>)
    requires
        s.len() > 0,
        !is_white_space(s.first()),
    ensures
        trim_end(s).len() > 0,
        trim_end(s).first() == s.first(),
    decreases s.len(),
{
    if is_white_space(s.last()) {
        lemma_trim_end_keeps_first(s.drop_last());
    }
}

proof fn lemma_trim_end_no_longer(s: Seq<char>)
    ensures
        trim_end(s).len() <= s.len(),
    decreases s.len(),
{
    if s.len() > 0 && is_white_space(s.last()) {
        lemma_trim_end_no_longer(s.drop_last());
    }
}

/// Trimming leaves nothing exactly when the text is blank.
pub proof fn lemma_trim_blank(s: Seq<char>)
    ensures
        trimmed(s).len() == 0 <==> is_blank(s),
{
    lemma_trim_start_blank(s);
    let t = trim_start(s);
    lemma_trim_end_no_longer(t);
    if t.len() > 0 {
        lemma_trim_end_keeps_first(t);
    }
}

/// Whether `text` is empty or made of white space only.
pub fn blank(text: &str) -> (r: bool)
    ensures
        r == is_blank(text@),
{
    proof {
        lemma_trim_blank(text@);
    }
    text.trim().is_empty()
}

// ---------------------------------------------------------------------------
// Trailing slashes
// ---------------------------------------------------------------------------

/// `s` without its trailing slashes.
pub open spec fn trim_slashes(s: Seq<char>) -> Seq<char>
    decreases s.len(),
{
    if s.len() > 0 && s.last() == '/' {
        trim_slashes(s.drop_last())
    } else {
        s
    }
}

proof fn lemma_trim_slashes(s: Seq<char>, n: int)
    requires
        0 <= n <= s.len(),
        n > 0 ==> s[n - 1] != '/',
        forall|i: int| n <= i < s.len() ==> s[i] == '/',
    ensures
        trim_slashes(s) == s.take(n),
    decreases s.len(),
{
    if n < s.len() {
        assert(s.last() == '/');
        lemma_trim_slashes(s.drop_last(), n);
        assert(s.drop_last().take(n) =~= s.take(n));
    } else {
        assert(s.take(n) =~= s);
    }
}

/// No slash is left at the end.
pub proof fn lemma_trim_slashes_end(s: Seq<char>)
    ensures
        trim_slashes(s).len() > 0 ==> trim_slashes(s).last() != '/',
    decreases s.len(),
{
    if s.len() > 0 && s.last() == '/' {
        lemma_trim_slashes_end(s.drop_last());
    }
}

/// `text` without its trailing slashes.
pub fn without_trailing_slashes(text: &str) -> (r: &str)
    ensures
        r@ == trim_slashes(text@),
{
    // One past the last character that is not a slash.
    let count: usize = text.unicode_len();
    let mut end: usize = 0;
    let mut index: usize = 0;
    for c in it: text.chars()
        invariant
            it.seq() == text@,
            index == it.index(),
            count == text@.len(),
            end <= index,
            end > 0 ==> text@[end - 1] != '/',
            forall|i: int| end <= i < index ==> text@[i] == '/',
    {
        index = index + 1;
        if c != '/' {
            end = index;
        }
    }
    proof {
        lemma_trim_slashes(text@, end as int);
    }
    text.substring_char(0, end)
}

// ---------------------------------------------------------------------------
// Numbers
// ---------------------------------------------------------------------------

/// The decimal digit that stands for `n`, which is below ten.
pub open spec fn digit(n: nat) -> char {
    (48 + n) as char
}

/// `n` in decimal notation.
pub open spec fn decimal(n: nat) -> Seq<char>
    decreases n,
{
    if n < 10 {
        seq![digit(n)]
    } else {
        decimal(n / 10).push(digit(n % 10))
    }
}

fn digit_text(n: usize) -> (r: &'static str)
    requires
        n < 10,
    ensures
        r@ == seq![digit(n as nat)],
{
    proof {
        reveal_strlit("0");
        reveal_strlit("1");
        reveal_strlit("2");
        reveal_strlit("3");
        reveal_strlit("4");
        reveal_strlit("5");
        reveal_strlit("6");
        reveal_strlit("7");
        reveal_strlit("8");
        reveal_strlit("9");
    }
    match n {
        0 => "0",
        1 => "1",
        2 => "2",
        3 => "3",
        4 => "4",
        5 => "5",
        6 => "6",
        7 => "7",
        8 => "8",
        _ => "9",
    }
}

/// `n` in decimal notation.
pub fn decimal_text(n: usize) -> (r: String)
    ensures
        r@ == decimal(n as nat),
    decreases n,
{
    if n < 10 {
        digit_text(n).to_owned()
    } else {
        let mut text = decimal_text(n / 10);
        text.append(digit_text(n % 10));
        proof {
            assert(text@ =~= decimal(n as nat));
        }
        text
    }
}

/// Whether `c` is a decimal digit.
pub open spec fn is_digit(c: char) -> bool {
    '0' <= c <= '9'
}

/// The number that the digits of `s` stand for.
pub open spec fn digits_value(s: Seq<char>) -> nat
    decreases s.len(),
{
    if s.len() == 0 {
        0
    } else {
        digits_value(s.drop_last()) * 10 + (s.last() as u32 - 48) as nat
    }
}

/// `s` without one leading plus sign.
pub open spec fn without_plus(s: Seq<char>) -> Seq<char> {
    if s.len() > 0 && s.first() == '+' {
        s.drop_first()
    } else {
        s
    }
}

/// The unsigned integer that `s` spells: digits, after an optional plus sign,
/// whose value fits in 64 bits.
pub open spec fn unsigned_value(s: Seq<char>) -> Option<u64> {
    let digits = without_plus(s);
    if digits.len() > 0 && (forall|i: int| 0 <= i < digits.len() ==> is_digit(#[trigger] digits[i]))
        && digits_value(digits) <= u64::MAX {
        Some(digits_value(digits) as u64)
    } else {
        None
    }
}

proof fn lemma_digits_value_grows(s: Seq<char>, n: int)
    requires
        0 <= n <= s.len(),
    ensures
        digits_value(s.take(n)) <= digits_value(s),
    decreases s.len(),
{
    if n == s.len() {
        assert(s.take(n) =~= s);
    } else {
        lemma_digits_value_grows(s.drop_last(), n);
        assert(s.drop_last().take(n) =~= s.take(n));
    }
}

/// Reads an unsigned integer: digits after an optional plus sign.
pub fn parse_unsigned(text: &str) -> (r: Option<u64>)
    ensures
        r == unsigned_value(text@),
{
    let ghost digits = without_plus(text@);
    let ghost offset: int = text@.len() - digits.len();
    let mut value: u64 = 0;
    let mut seen: bool = false;
    let mut first: bool = true;
    for c in it: text.chars()
        invariant
            it.seq() == text@,
            digits == without_plus(text@),
            offset == text@.len() - digits.len(),
            first == (it.index() == 0),
            seen == (it.index() > offset),
            it.index() > offset ==> value == digits_value(digits.take(it.index() - offset)),
            it.index() <= offset ==> value == 0,
            forall|i: int| 0 <= i < it.index() - offset ==> is_digit(#[trigger] digits[i]),
    {
        let ghost n = it.index() - offset;
        if first && c == '+' {
            first = false;
        } else {
            first = false;
            assert(c == digits[n]);
            if c < '0' || '9' < c {
                return None;
            }
            assert(digits.take(n + 1).drop_last() =~= digits.take(n));
            let d: u64 = (c as u32 - 48) as u64;
            if value > 1844674407370955161 || (value == 1844674407370955161 && d > 5) {
                proof {
                    assert(digits_value(digits.take(n + 1)) > u64::MAX);
                    lemma_digits_value_grows(digits, n + 1);
                }
                return None;
            }
            assert(digits_value(digits.take(n)) == value);
            assert(digits.take(n + 1).last() == c);
            assert(digits_value(digits.take(n + 1)) == value * 10 + d);
            value = value * 10 + d;
            seen = true;
        }
    }
    assert(digits.take(digits.len() as int) =~= digits);
    if seen {
        Some(value)
    } else {
        None
    }
}

// ---------------------------------------------------------------------------
// Order
// ---------------------------------------------------------------------------

/// Whether `a` comes before `b` in lexicographic order.
pub open spec fn bytes_before(a: Seq<u8>, b: Seq<u8>) -> bool
    decreases a.len(),
{
    if b.len() == 0 {
        false
    } else if a.len() == 0 {
        true
    } else {
        a.first() < b.first() || (a.first() == b.first() && bytes_before(
            a.drop_first(),
            b.drop_first(),
        ))
    }
}

/// Whether `a` comes before `b`: strings are ordered by their UTF-8 bytes.
pub open spec fn text_before(a: Seq<char>, b: Seq<char>) -> bool {
    bytes_before(encode_utf8(a), encode_utf8(b))
}

proof fn lemma_bytes_irreflexive(a: Seq<u8>)
    ensures
        !bytes_before(a, a),
    decreases a.len(),
{
    if a.len() > 0 {
        lemma_bytes_irreflexive(a.drop_first());
    }
}

proof fn lemma_bytes_transitive(a: Seq<u8>, b: Seq<u8>, c: Seq<u8>)
    requires
        bytes_before(a, b),
        bytes_before(b, c),
    ensures
        bytes_before(a, c),
    decreases a.len(),
{
    if a.len() > 0 && a.first() == b.first() && b.first() == c.first() {
        lemma_bytes_transitive(a.drop_first(), b.drop_first(), c.drop_first());
    }
}

/// No text comes before itself.
pub proof fn lemma_text_irreflexive(a: Seq<char>)
    ensures
        !text_before(a, a),
{
    lemma_bytes_irreflexive(encode_utf8(a));
}

/// The order of text is transitive.
pub proof fn lemma_text_transitive(a: Seq<char>, b: Seq<char>, c: Seq<char>)
    requires
        text_before(a, b),
        text_before(b, c),
    ensures
        text_before(a, c),
{
    lemma_bytes_transitive(encode_utf8(a), encode_utf8(b), encode_utf8(c));
}

/// How one text stands to another.
#[derive(Debug, Clone, Copy, PartialEq, Eq, Structural)]
pub enum Place {
    /// Strictly before.
    Before,
    /// The same text.
    Same,
    /// Strictly after.
    After,
}

/// How `a` stands to `b` in the order of text.
pub fn place(a: &str, b: &str) -> (r: Place)
    ensures
        r == Place::Before <==> text_before(a@, b@),
        r == Place::Same <==> a@ == b@,
        r == Place::After <==> text_before(b@, a@),
{
    let x: &[u8] = a.as_bytes();
    let y: &[u8] = b.as_bytes();
    proof {
        encode_utf8_decode_utf8(a@);
        encode_utf8_decode_utf8(b@);
        lemma_text_irreflexive(a@);
        assert(x@.skip(0) =~= x@);
        assert(y@.skip(0) =~= y@);
    }
    let mut i: usize = 0;
    while i < x.len() && i < y.len() && x[i] == y[i]
        invariant
            x@ == encode_utf8(a@),
            y@ == encode_utf8(b@),
            i <= x@.len(),
            i <= y@.len(),
            bytes_before(x@, y@) == bytes_before(x@.skip(i as int), y@.skip(i as int)),
            bytes_before(y@, x@) == bytes_before(y@.skip(i as int), x@.skip(i as int)),
            x@.take(i as int) =~= y@.take(i as int),
        decreases x@.len() - i,
    {
        proof {
            let p = x@.skip(i as int);
            let q = y@.skip(i as int);
            assert(p.drop_first() =~= x@.skip(i + 1));
            assert(q.drop_first() =~= y@.skip(i + 1));
            assert(p.first() == q.first());
            assert(bytes_before(p, q) == bytes_before(p.drop_first(), q.drop_first()));
            assert(bytes_before(q, p) == bytes_before(q.drop_first(), p.drop_first()));
            assert(x@.take(i + 1) =~= x@.take(i as int).push(x@[i as int]));
            assert(y@.take(i + 1) =~= y@.take(i as int).push(y@[i as int]));
        }
        i = i + 1;
    }
    let ghost p = x@.skip(i as int);
    let ghost q = y@.skip(i as int);
    if i == x.len() && i == y.len() {
        assert(x@.take(i as int) =~= x@);
        assert(y@.take(i as int) =~= y@);
        Place::Same
    } else if i == x.len() || (i < y.len() && x[i] < y[i]) {
        assert(bytes_before(p, q));
        assert(!bytes_before(q, p));
        Place::Before
    } else {
        assert(bytes_before(q, p));
        assert(!bytes_before(p, q));
        Place::After
    }
}

/// Whether `a` and `b` are the same text.
pub fn same_text(a: &str, b: &str) -> (r: bool)
    ensures
        r == (a@ == b@),
{
    place(a, b) == Place::Same
}

// ---------------------------------------------------------------------------
// Texts that the standard library makes
// ---------------------------------------------------------------------------

/// The text that `{:?}` shows for a string: quoted, with escapes.
pub uninterp spec fn quoted_text(s: Seq<char>) -> Seq<char>;

/// `format!("{:?}", ..)` on a string. Nothing is said of the quoted text but
/// that the string alone decides it.
#[verifier::external_body]
pub(crate) fn quoted(text: &str) -> (r: String)
    ensures
        r@ == quoted_text(text@),
{
    format!("{:?}", text)
}

/// The text that `String::from_utf8_lossy` makes of bytes.
pub uninterp spec fn lossy_text(bytes: Seq<u8>) -> Seq<char>;

/// `String::from_utf8_lossy`: valid UTF-8 is decoded; in other bytes what is
/// invalid is replaced, and of that nothing is said but that the bytes alone
/// decide it.
#[verifier::external_body]
pub(crate) fn decode_lossy(bytes: &[u8]) -> (r: String)
    ensures
        r@ == lossy_text(bytes@),
        valid_utf8(bytes@) ==> r@ == decode_utf8(bytes@),
{
    String::from_utf8_lossy(bytes).into_owned()
}

/// The view of an optional text.
pub open spec fn optional(text: Option<String>) -> Option<Seq<char>> {
    match text {
        Some(text) => Some(text@),
        None => None,
    }
}

/// Two texts, one after the other.
pub fn join(a: &str, b: &str) -> (r: String)
    ensures
        r@ == a@ + b@,
{
    let mut text = a.to_owned();
    text.append(b);
    text
}

/// Three texts, one after the other.
pub fn join3(a: &str, b: &str, c: &str) -> (r: String)
    ensures
        r@ == a@ + b@ + c@,
{
    let mut text = join(a, b);
    text.append(c);
    text
}

// ---------------------------------------------------------------------------
// Laws
// ---------------------------------------------------------------------------

/// White space is the tab, the line feed, the vertical tab, the form feed, the
/// carriage return, and the spaces and separators of Unicode.
pub proof fn law_white_space(c: char)
    ensures
        is_white_space(c) <==> seq![
            '\t', '\n', '\u{b}', '\u{c}', '\r', ' ', '\u{85}', '\u{a0}', '\u{1680}', '\u{2000}',
            '\u{2001}', '\u{2002}', '\u{2003}', '\u{2004}', '\u{2005}', '\u{2006}', '\u{2007}',
            '\u{2008}', '\u{2009}', '\u{200a}', '\u{2028}', '\u{2029}', '\u{202f}', '\u{205f}',
            '\u{3000}',
        ].contains(c),
{
    let all = seq![
        '\t', '\n', '\u{b}', '\u{c}', '\r', ' ', '\u{85}', '\u{a0}', '\u{1680}', '\u{2000}',
        '\u{2001}', '\u{2002}', '\u{2003}', '\u{2004}', '\u{2005}', '\u{2006}', '\u{2007}',
        '\u{2008}', '\u{2009}', '\u{200a}', '\u{2028}', '\u{2029}', '\u{202f}', '\u{205f}',
        '\u{3000}',
    ];
    assert(all.len() == 25);
    let u = c as u32;
    if 0x0009 <= u <= 0x000D {
        assert(all[u - 9] == c);
    }
    if u == 0x0020 {
        assert(all[5] == c);
    }
    if u == 0x0085 {
        assert(all[6] == c);
    }
    if u == 0x00A0 {
        assert(all[7] == c);
    }
    if u == 0x1680 {
        assert(all[8] == c);
    }
    if 0x2000 <= u <= 0x200A {
        assert(all[u - 0x2000 + 9] == c);
    }
    if u == 0x2028 {
        assert(all[20] == c);
    }
    if u == 0x2029 {
        assert(all[21] == c);
    }
    if u == 0x202F {
        assert(all[22] == c);
    }
    if u == 0x205F {
        assert(all[23] == c);
    }
    if u == 0x3000 {
        assert(all[24] == c);
    }
}

/// A trimmed text is a part of the text with nothing but white space before and
/// behind it, and with no white space at its own ends.
pub proof fn law_trimmed_is_the_dark_part(s: Seq<char>)
    ensures
        exists|i: int, j: int|
            {
                &&& 0 <= i <= j <= s.len()
                &&& trimmed(s) == #[trigger] s.subrange(i, j)
                &&& forall|k: int| 0 <= k < i ==> is_white_space(#[trigger] s[k])
                &&& forall|k: int| j <= k < s.len() ==> is_white_space(#[trigger] s[k])
            },
        trimmed(s).len() > 0 ==> !is_white_space(trimmed(s).first()) && !is_white_space(
            trimmed(s).last(),
        ),
{
    let i = lemma_trim_start_part(s);
    let t = trim_start(s);
    let n = lemma_trim_end_part(t);
    lemma_trim_start_blank(s);
    assert(t.subrange(0, n) =~= s.subrange(i, i + n));
    assert forall|k: int| i + n <= k < s.len() implies is_white_space(#[trigger] s[k]) by {
        assert(t[k - i] == s[k]);
    }
    if n > 0 {
        assert(trimmed(s).first() == t.first());
    }
}

proof fn lemma_trim_start_part(s: Seq<char>) -> (i: int)
    ensures
        0 <= i <= s.len(),
        trim_start(s) == s.subrange(i, s.len() as int),
        forall|k: int| 0 <= k < i ==> is_white_space(#[trigger] s[k]),
    decreases s.len(),
{
    if s.len() > 0 && is_white_space(s.first()) {
        let rest = s.drop_first();
        let i = lemma_trim_start_part(rest);
        assert(rest.subrange(i, rest.len() as int) =~= s.subrange(i + 1, s.len() as int));
        assert forall|k: int| 0 <= k < i + 1 implies is_white_space(#[trigger] s[k]) by {
            if k > 0 {
                assert(rest[k - 1] == s[k]);
            }
        }
        i + 1
    } else {
        assert(s.subrange(0, s.len() as int) =~= s);
        0
    }
}

proof fn lemma_trim_end_part(s: Seq<char>) -> (n: int)
    ensures
        0 <= n <= s.len(),
        trim_end(s) == s.subrange(0, n),
        forall|k: int| n <= k < s.len() ==> is_white_space(#[trigger] s[k]),
        n > 0 ==> !is_white_space(s[n - 1]),
    decreases s.len(),
{
    if s.len() > 0 && is_white_space(s.last()) {
        let rest = s.drop_last();
        let n = lemma_trim_end_part(rest);
        assert(rest.subrange(0, n) =~= s.subrange(0, n));
        assert forall|k: int| n <= k < s.len() implies is_white_space(#[trigger] s[k]) by {
            if k < rest.len() {
                assert(rest[k] == s[k]);
            }
        }
        n
    } else {
        assert(s.subrange(0, s.len() as int) =~= s);
        s.len() as int
    }
}

/// A text is blank exactly when it holds no character but white space, and so
/// exactly when nothing of it is left by trimming.
pub proof fn law_blank_text(s: Seq<char>)
    ensures
        is_blank(s) <==> !exists|i: int| 0 <= i < s.len() && !is_white_space(#[trigger] s[i]),
        is_blank(s) <==> trimmed(s).len() == 0,
{
    lemma_trim_blank(s);
}

/// Behind a text without trailing slashes nothing but slashes was cut off, and
/// no slash is left at its end.
pub proof fn law_only_slashes_are_cut(s: Seq<char>)
    ensures
        trim_slashes(s).len() <= s.len(),
        s.take(trim_slashes(s).len() as int) == trim_slashes(s),
        forall|i: int| trim_slashes(s).len() <= i < s.len() ==> #[trigger] s[i] == '/',
        trim_slashes(s).len() > 0 ==> trim_slashes(s).last() != '/',
    decreases s.len(),
{
    if s.len() > 0 && s.last() == '/' {
        law_only_slashes_are_cut(s.drop_last());
        let n = trim_slashes(s).len() as int;
        assert(s.drop_last().take(n) =~= s.take(n));
        assert forall|i: int| n <= i < s.len() implies #[trigger] s[i] == '/' by {
            if i < s.len() - 1 {
                assert(s.drop_last()[i] == s[i]);
            }
        }
    } else {
        assert(s.take(s.len() as int) =~= s);
    }
}

/// The digits of a number, from the first on, each ten times as much as the
/// next.
pub proof fn law_digits_are_decimal(s: Seq<char>, c: char)
    requires
        '0' <= c <= '9',
    ensures
        digits_value(Seq::<char>::empty()) == 0,
        digits_value(s.push(c)) == 10 * digits_value(s) + (c as u32 - '0' as u32),
{
    assert(s.push(c).drop_last() =~= s);
}

/// The notation of a number is its digits, without a zero in front, and reads
/// back as the number.
pub proof fn law_decimal_reads_back(n: nat)
    ensures
        decimal(n).len() > 0,
        forall|i: int| 0 <= i < decimal(n).len() ==> '0' <= #[trigger] decimal(n)[i] <= '9',
        n > 0 ==> decimal(n).first() != '0',
        n == 0 ==> decimal(n) == seq!['0'],
        digits_value(decimal(n)) == n,
    decreases n,
{
    let c = digit(n % 10);
    if n < 10 {
        assert(seq![digit(n)] =~= Seq::<char>::empty().push(digit(n)));
        law_digits_are_decimal(Seq::empty(), digit(n));
    } else {
        law_decimal_reads_back(n / 10);
        law_digits_are_decimal(decimal(n / 10), c);
        assert(decimal(n).first() == decimal(n / 10).first());
    }
}

/// An unsigned integer reads back from its notation, with or without a plus
/// sign, with or without zeros in front, as long as it fits in 64 bits.
pub proof fn law_unsigned_integers_are_read(s: Seq<char>)
    requires
        s.len() > 0,
        forall|i: int| 0 <= i < s.len() ==> '0' <= #[trigger] s[i] <= '9',
    ensures
        digits_value(s) <= u64::MAX ==> unsigned_value(s) == Some(digits_value(s) as u64),
        digits_value(s) > u64::MAX ==> unsigned_value(s) is None,
        unsigned_value(seq!['+'] + s) == unsigned_value(s),
{
    assert(s[0] != '+');
    assert((seq!['+'] + s).drop_first() =~= s);
}

/// Nothing else is an unsigned integer: not an empty text, not a lone plus
/// sign, and no text with another character than a digit, but for a plus sign
/// at its start.
pub proof fn law_other_texts_are_no_integers(s: Seq<char>, i: int)
    requires
        s.len() == 0 || s == seq!['+'] || (0 <= i < s.len() && !('0' <= s[i] <= '9') && (i > 0 || s[i]
            != '+')),
    ensures
        unsigned_value(s) is None,
{
    let digits = without_plus(s);
    if s.len() > 0 && s != seq!['+'] {
        if s.first() == '+' {
            assert(digits[i - 1] == s[i]);
        } else {
            assert(digits[i] == s[i]);
        }
    }
}

/// Of two texts that are not the same, one comes before the other, and not the
/// other way round.
pub proof fn law_text_order_is_total(a: Seq<char>, b: Seq<char>)
    ensures
        a == b || text_before(a, b) || text_before(b, a),
        text_before(a, b) ==> a != b && !text_before(b, a),
{
    encode_utf8_decode_utf8(a);
    encode_utf8_decode_utf8(b);
    lemma_bytes_total(encode_utf8(a), encode_utf8(b));
    lemma_text_irreflexive(a);
    if text_before(a, b) && text_before(b, a) {
        lemma_text_transitive(a, b, a);
    }
}

proof fn lemma_bytes_total(a: Seq<u8>, b: Seq<u8>)
    ensures
        a == b || bytes_before(a, b) || bytes_before(b, a),
    decreases a.len(),
{
    if a.len() > 0 && b.len() > 0 {
        if a.first() == b.first() {
            lemma_bytes_total(a.drop_first(), b.drop_first());
            if a.drop_first() == b.drop_first() {
                assert(a =~= seq![a.first()] + a.drop_first());
                assert(b =~= seq![b.first()] + b.drop_first());
            }
        }
    } else if a.len() == 0 && b.len() == 0 {
        assert(a =~= b);
    }
}

/// The first byte in which two texts differ decides which comes first, and a
/// text comes before its continuations.
pub proof fn law_first_difference_decides(
    start: Seq<u8>,
    x: u8,
    y: u8,
    a: Seq<u8>,
    b: Seq<u8>,
)
    requires
        x < y,
    ensures
        bytes_before(start + seq![x] + a, start + seq![y] + b),
        bytes_before(start, start + seq![x] + a),
    decreases start.len(),
{
    let (p, q) = (start + seq![x] + a, start + seq![y] + b);
    if start.len() > 0 {
        let rest = start.drop_first();
        law_first_difference_decides(rest, x, y, a, b);
        assert(p.drop_first() =~= rest + seq![x] + a);
        assert(q.drop_first() =~= rest + seq![y] + b);
    } else {
        assert(p.first() == x && q.first() == y);
    }
}

/// An optional text says the text that it holds, if it holds one.
pub proof fn law_optional_texts(text: String)
    ensures
        optional(Some(text)) == Some(text@),
        optional(None::<String>) is None,
{
}

} // verus!
