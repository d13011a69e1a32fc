//! Text: the order of keys, comparison, trimming, and the conversions between bytes and text.
use vstd::prelude::*;
use vstd::string::*;
use vstd::utf8::*;

verus! {

/// `a` comes before `b` when the first byte in which they differ is smaller in `a`, or when `a`
/// is a proper prefix of `b`.
pub open spec fn bytes_before(a: Seq<u8>, b: Seq<u8>) -> bool
    decreases a.len(),
{
    if b.len() == 0 {
        false
    } else if a.len() == 0 {
        true
    } else if a[0] == b[0] {
        bytes_before(a.drop_first(), b.drop_first())
    } else {
        a[0] < b[0]
    }
}

/// The order of text: that of its UTF-8 bytes.
pub open spec fn text_before(a: Seq<char>, b: Seq<char>) -> bool {
    bytes_before(encode_utf8(a), encode_utf8(b))
}

/// How one text stands to another in the order of text.
#[derive(Clone, Copy, Debug, PartialEq, Eq, Structural)]
pub enum TextOrder {
    Before,
    Same,
    After,
}

proof fn lemma_bytes_before_total(a: Seq<u8>, b: Seq<u8>)
    ensures
        a == b || bytes_before(a, b) || bytes_before(b, a),
        !(bytes_before(a, b) && bytes_before(b, a)),
        !bytes_before(a, a),
    decreases a.len(),
{
    if a.len() == 0 || b.len() == 0 {
        if a.len() == 0 && b.len() == 0 {
            assert(a =~= b);
        }
    } else {
        lemma_bytes_before_total(a.drop_first(), b.drop_first());
        if a[0] == b[0] && a.drop_first() == b.drop_first() {
            assert(a =~= seq![a[0]] + a.drop_first());
            assert(b =~= seq![b[0]] + b.drop_first());
        }
    }
    if a.len() > 0 {
        lemma_bytes_before_total(a.drop_first(), a.drop_first());
    }
}

proof fn lemma_bytes_before_transitive(a: Seq<u8>, b: Seq<u8>, c: Seq<u8>)
    requires
        bytes_before(a, b),
        bytes_before(b, c),
    ensures
        bytes_before(a, c),
    decreases a.len(),
{
    if a.len() > 0 && a[0] == b[0] && b[0] == c[0] {
        lemma_bytes_before_transitive(a.drop_first(), b.drop_first(), c.drop_first());
    }
}

/// Two texts with the same UTF-8 bytes are the same text.
pub proof fn lemma_utf8_injective(a: Seq<char>, b: Seq<char>)
    requires
        encode_utf8(a) == encode_utf8(b),
    ensures
        a == b,
{
    encode_utf8_decode_utf8(a);
    encode_utf8_decode_utf8(b);
}

/// The order of text is total and strict: of two texts exactly one of "before", "same" and
/// "after" holds.
pub proof fn lemma_text_before_total(a: Seq<char>, b: Seq<char>)
    ensures
        a == b || text_before(a, b) || text_before(b, a),
        !(text_before(a, b) && text_before(b, a)),
        !text_before(a, a),
{
    lemma_bytes_before_total(encode_utf8(a), encode_utf8(b));
    if encode_utf8(a) == encode_utf8(b) {
        lemma_utf8_injective(a, b);
    }
}

/// The order of text is transitive.
pub proof fn lemma_text_before_transitive(a: Seq<char>, b: Seq<char>, c: Seq<char>)
    requires
        text_before(a, b),
        text_before(b, c),
    ensures
        text_before(a, c),
{
    lemma_bytes_before_transitive(encode_utf8(a), encode_utf8(b), encode_utf8(c));
}

/// The first byte in which two texts differ decides their order; a text comes before all that go on
/// from it.
pub proof fn law_first_difference_decides(
    start: Seq<u8>,
    x: u8,
    y: u8,
    a: Seq<u8>,
    b: Seq<u8>,
)
    ensures
        x < y ==> bytes_before(start + seq![x] + a, start + seq![y] + b),
        bytes_before(start, start + seq![x] + a),
    decreases start.len(),
{
    let one = start + seq![x] + a;
    let other = start + seq![y] + b;
    if start.len() > 0 {
        let rest = start.drop_first();
        law_first_difference_decides(rest, x, y, a, b);
        assert(one.drop_first() =~= rest + seq![x] + a);
        assert(other.drop_first() =~= rest + seq![y] + b);
        assert(one[0] == start[0] && other[0] == start[0]);
    } else {
        assert(one[0] == x && other[0] == y);
    }
}

/// Compares two texts in the order of text.
pub fn compare_text(a: &str, b: &str) -> (order: TextOrder)
    ensures
        order == (if text_before(a@, b@) {
            TextOrder::Before
        } else if a@ == b@ {
            TextOrder::Same
        } else {
            TextOrder::After
        }),
{
    let x = a.as_bytes();
    let y = b.as_bytes();
    let mut i: usize = 0;
    proof {
        assert(x@.skip(0) =~= x@);
        assert(y@.skip(0) =~= y@);
        lemma_text_before_total(a@, b@);
    }
    while i < x.len() && i < y.len()
        invariant
            i <= x@.len(),
            i <= y@.len(),
            x@ == encode_utf8(a@),
            y@ == encode_utf8(b@),
            forall|j: int| 0 <= j < i ==> x@[j] == y@[j],
            bytes_before(x@, y@) == bytes_before(x@.skip(i as int), y@.skip(i as int)),
            !(text_before(a@, b@) && a@ == b@),
        decreases x@.len() - i,
    {
        proof {
            assert(x@.skip(i as int).drop_first() =~= x@.skip(i + 1));
            assert(y@.skip(i as int).drop_first() =~= y@.skip(i + 1));
        }
        if x[i] < y[i] {
            return TextOrder::Before;
        }
        if x[i] > y[i] {
            assert(x@[i as int] != y@[i as int]);
            return TextOrder::After;
        }
        i = i + 1;
    }
    if i < y.len() {
        TextOrder::Before
    } else if i < x.len() {
        assert(x@.len() != y@.len());
        TextOrder::After
    } else {
        proof {
            assert(x@ =~= y@);
            lemma_utf8_injective(a@, b@);
        }
        TextOrder::Same
    }
}

/// Whether two texts are the same.
pub fn same_text(a: &str, b: &str) -> (same: bool)
    ensures
        same == (a@ == b@),
{
    proof {
        lemma_text_before_total(a@, b@);
    }
    match compare_text(a, b) {
        TextOrder::Same => true,
        _ => false,
    }
}

/// The text without the characters `mark` at its start.
pub open spec fn trimmed_start(text: Seq<char>, mark: char) -> Seq<char>
    decreases text.len(),
{
    if text.len() > 0 && text[0] == mark {
        trimmed_start(text.drop_first(), mark)
    } else {
        text
    }
}

/// The text without the characters `mark` at its end.
pub open spec fn trimmed_end(text: Seq<char>, mark: char) -> Seq<char>
    decreases text.len(),
{
    if text.len() > 0 && text.last() == mark {
        trimmed_end(text.drop_last(), mark)
    } else {
        text
    }
}

/// Takes the characters `mark` off the start of a text.
pub fn trim_start<'a>(text: &'a str, mark: char) -> (rest: &'a str)
    ensures
        rest@ == trimmed_start(text@, mark),
{
    let len = text.unicode_len();
    let mut i: usize = 0;
    assert(text@.skip(0) =~= text@);
    while i < len && text.get_char(i) == mark
        invariant
            i <= len,
            len == text@.len(),
            trimmed_start(text@, mark) == trimmed_start(text@.skip(i as int), mark),
        decreases len - i,
    {
        assert(text@.skip(i as int).drop_first() =~= text@.skip(i + 1));
        i = i + 1;
    }
    assert(text@.subrange(i as int, len as int) =~= text@.skip(i as int));
    text.substring_char(i, len)
}

/// Takes the characters `mark` off the end of a text.
pub fn trim_end<'a>(text: &'a str, mark: char) -> (rest: &'a str)
    ensures
        rest@ == trimmed_end(text@, mark),
{
    let mut i: usize = text.unicode_len();
    assert(text@.take(i as int) =~= text@);
    while i > 0 && text.get_char(i - 1) == mark
        invariant
            i <= text@.len(),
            trimmed_end(text@, mark) == trimmed_end(text@.take(i as int), mark),
        decreases i,
    {
        assert(text@.take(i as int).drop_last() =~= text@.take(i - 1));
        i = i - 1;
    }
    assert(text@.subrange(0, i as int) =~= text@.take(i as int));
    text.substring_char(0, i)
}

/// What follows `prefix` in `text`, where `text` starts with it.
pub open spec fn after_prefix(text: Seq<char>, prefix: Seq<char>) -> Option<Seq<char>> {
    if prefix.is_prefix_of(text) {
        Some(text.skip(prefix.len() as int))
    } else {
        None
    }
}

/// Takes `prefix` off the start of a text that starts with it.
pub fn strip_prefix<'a>(text: &'a str, prefix: &str) -> (rest: Option<&'a str>)
    ensures
        after_prefix(text@, prefix@) == (match rest {
            Some(r) => Some(r@),
            None => None,
        }),
{
    let len = text.unicode_len();
    let prefix_len = prefix.unicode_len();
    if prefix_len > len {
        return None;
    }
    let head = text.substring_char(0, prefix_len);
    if same_text(head, prefix) {
        assert(prefix@ =~= text@.take(prefix_len as int));
        assert(text@.skip(prefix_len as int) =~= text@.subrange(prefix_len as int, len as int));
        Some(text.substring_char(prefix_len, len))
    } else {
        proof {
            if prefix@.is_prefix_of(text@) {
                assert(head@ =~= prefix@);
            }
        }
        None
    }
}

/// Copies bytes.
pub fn copy_bytes(bytes: &[u8]) -> (copy: Vec<u8>)
    ensures
        copy@ == bytes@,
{
    let mut copy: Vec<u8> = Vec::new();
    copy.extend_from_slice(bytes);
    assert(copy@ =~= bytes@);
    copy
}

/// `String::from_utf8`: bytes that are valid UTF-8 become the text that they encode; others are
/// refused.
#[verifier::external_body]
pub(crate) fn text_from_utf8(bytes: Vec<u8>) -> (text: Option<String>)
    ensures
        text is Some <==> valid_utf8(bytes@),
        text matches Some(t) ==> t@ == decode_utf8(bytes@),
{
    String::from_utf8(bytes).ok()
}

/// What `String::from_utf8_lossy` makes of bytes that are not valid UTF-8: text in which a
/// replacement character stands for each part that is not valid.
pub uninterp spec fn utf8_replaced(bytes: Seq<u8>) -> Seq<char>;

/// The text that bytes stand for: the one that they encode, or, where they are not valid UTF-8, one
/// with replacement characters.
pub open spec fn lossy_text(bytes: Seq<u8>) -> Seq<char> {
    if valid_utf8(bytes) {
        decode_utf8(bytes)
    } else {
        utf8_replaced(bytes)
    }
}

/// `String::from_utf8_lossy`: bytes that are valid UTF-8 become the text that they encode, and
/// others the text that the name `utf8_replaced` stands for.
#[verifier::external_body]
pub(crate) fn text_from_utf8_lossy(bytes: &Vec<u8>) -> (text: String)
    ensures
        valid_utf8(bytes@) ==> text@ == decode_utf8(bytes@),
        !valid_utf8(bytes@) ==> text@ == utf8_replaced(bytes@),
{
    String::from_utf8_lossy(bytes).into_owned()
}

/// The lower case of an ASCII character; any other character as it is.
pub open spec fn ascii_lowered(c: char) -> char {
    if 'A' <= c <= 'Z' {
        (c as u32 + 32) as char
    } else {
        c
    }
}

/// The lower case that `str::to_lowercase` gives to text that is not ASCII.
pub uninterp spec fn unicode_lowercase(text: Seq<char>) -> Seq<char>;

/// The lower case of a text.
pub open spec fn lowercase(text: Seq<char>) -> Seq<char> {
    if is_ascii_chars(text) {
        text.map_values(|c: char| ascii_lowered(c))
    } else {
        unicode_lowercase(text)
    }
}

/// `str::to_lowercase`: in ASCII text each capital letter becomes its small letter and nothing else
/// changes; other text becomes what the name `unicode_lowercase` stands for.
#[verifier::external_body]
pub(crate) fn to_lowercase(text: &str) -> (lowered: String)
    ensures
        is_ascii_chars(text@) ==> lowered@ == text@.map_values(|c: char| ascii_lowered(c)),
        !is_ascii_chars(text@) ==> lowered@ == unicode_lowercase(text@),
{
    text.to_lowercase()
}

/// The upper case of an ASCII character; any other character as it is.
pub open spec fn ascii_raised(c: char) -> char {
    if 'a' <= c <= 'z' {
        (c as u32 - 32) as char
    } else {
        c
    }
}

/// The upper case that `str::to_uppercase` gives to text that is not ASCII.
pub uninterp spec fn unicode_uppercase(text: Seq<char>) -> Seq<char>;

/// The upper case of a text.
pub open spec fn uppercase(text: Seq<char>) -> Seq<char> {
    if is_ascii_chars(text) {
        text.map_values(|c: char| ascii_raised(c))
    } else {
        unicode_uppercase(text)
    }
}

/// `str::to_uppercase`: in ASCII text each small letter becomes its capital letter and nothing else
/// changes; other text becomes what the name `unicode_uppercase` stands for.
#[verifier::external_body]
pub(crate) fn to_uppercase(text: &str) -> (raised: String)
    ensures
        is_ascii_chars(text@) ==> raised@ == text@.map_values(|c: char| ascii_raised(c)),
        !is_ascii_chars(text@) ==> raised@ == unicode_uppercase(text@),
{
    text.to_uppercase()
}

/// The text with small letters in place of the capital letters of ASCII.
pub open spec fn ascii_lowercase(text: Seq<char>) -> Seq<char> {
    text.map_values(|c: char| ascii_lowered(c))
}

/// `str::to_ascii_lowercase`: each capital letter of ASCII becomes its small letter, and nothing
/// else changes.
#[verifier::external_body]
pub(crate) fn to_ascii_lowercase(text: &str) -> (lowered: String)
    ensures
        lowered@ == ascii_lowercase(text@),
{
    text.to_ascii_lowercase()
}

}
