//! From the payload of a name element to text: trailing NUL bytes leave, the
//! bytes are decoded, and the white space around the text leaves.

use vstd::prelude::*;
use vstd::string::*;

verus! {

/// The text that `String::from_utf8_lossy` gives for the bytes: the decoded
/// characters, with U+FFFD in place of each invalid sequence.
pub uninterp spec fn utf8_lossy(bytes: Seq<u8>) -> Seq<char>;

/// Calls `String::from_utf8_lossy` and takes the result as an owned string.
/// Taken on trust: that the text depends on the bytes alone, so that it is
/// what `utf8_lossy` names. The call accepts every slice and never fails.
#[verifier::external_body]
fn decode_lossy(bytes: &[u8]) -> (text: String)
    ensures
        text@ == utf8_lossy(bytes@),
{
    String::from_utf8_lossy(bytes).into_owned()
}

/// Whether a character is white space: whether it has the Unicode property
/// White_Space. These are the controls U+0009 to U+000D and U+0085, and the
/// spaces U+0020, U+00A0, U+1680, U+2000 to U+200A, U+2028, U+2029, U+202F,
/// U+205F and U+3000.
pub open spec fn is_white_space(c: char) -> bool {
    let code = c as u32;
    ||| 0x0009 <= code <= 0x000D
    ||| code == 0x0020
    ||| code == 0x0085
    ||| code == 0x00A0
    ||| code == 0x1680
    ||| 0x2000 <= code <= 0x200A
    ||| code == 0x2028
    ||| code == 0x2029
    ||| code == 0x202F
    ||| code == 0x205F
    ||| code == 0x3000
}

/// Tells whether a character is white space.
pub fn is_white_space_char(c: char) -> (white: bool)
    ensures
        white == is_white_space(c),
{
    let code = c as u32;
    (0x0009 <= code && code <= 0x000D) || code == 0x0020 || code == 0x0085 || code == 0x00A0
        || code == 0x1680 || (0x2000 <= code && code <= 0x200A) || code == 0x2028 || code
        == 0x2029 || code == 0x202F || code == 0x205F || code == 0x3000
}

/// The bytes without the NUL bytes at their end.
pub open spec fn strip_trailing_nul(bytes: Seq<u8>) -> Seq<u8>
    decreases bytes.len(),
{
    if bytes.len() > 0 && bytes.last() == 0 {
        strip_trailing_nul(bytes.drop_last())
    } else {
        bytes
    }
}

/// The text without the white space at its start.
pub open spec fn strip_leading_space(text: Seq<char>) -> Seq<char>
    decreases text.len(),
{
    if text.len() > 0 && is_white_space(text.first()) {
        strip_leading_space(text.drop_first())
    } else {
        text
    }
}

/// The text without the white space at its end.
pub open spec fn strip_trailing_space(text: Seq<char>) -> Seq<char>
    decreases text.len(),
{
    if text.len() > 0 && is_white_space(text.last()) {
        strip_trailing_space(text.drop_last())
    } else {
        text
    }
}

/// The text without the white space around it.
pub open spec fn strip_space(text: Seq<char>) -> Seq<char> {
    strip_trailing_space(strip_leading_space(text))
}

/// Cuts the NUL bytes off the end of the bytes.
pub fn trim_trailing_nul<'a>(bytes: &'a [u8]) -> (trimmed: &'a [u8])
    ensures
        trimmed@ == strip_trailing_nul(bytes@),
{
    let mut end: usize = bytes.len();
    assert(bytes@.take(end as int) =~= bytes@);
    while end > 0 && bytes[end - 1] == 0
        invariant
            end <= bytes@.len(),
            strip_trailing_nul(bytes@.take(end as int)) == strip_trailing_nul(bytes@),
        decreases end,
    {
        assert(bytes@.take(end as int).drop_last() =~= bytes@.take(end - 1));
        end -= 1;
    }
    vstd::slice::slice_subrange(bytes, 0, end)
}

/// Cuts the white space off both ends of the text.
pub fn trim_space<'a>(text: &'a str) -> (trimmed: &'a str)
    ensures
        trimmed@ == strip_space(text@),
{
    let len = text.unicode_len();
    let mut start: usize = 0;
    assert(text@.skip(0) =~= text@);
    while start < len && is_white_space_char(text.get_char(start))
        invariant
            start <= len,
            len == text@.len(),
            strip_leading_space(text@.skip(start as int)) == strip_leading_space(text@),
        decreases len - start,
    {
        assert(text@.skip(start as int).drop_first() =~= text@.skip(start + 1));
        start += 1;
    }
    let mut end: usize = len;
    assert(text@.subrange(start as int, len as int) =~= text@.skip(start as int));
    while end > start && is_white_space_char(text.get_char(end - 1))
        invariant
            start <= end <= len,
            len == text@.len(),
            strip_trailing_space(text@.subrange(start as int, end as int))
                == strip_trailing_space(text@.skip(start as int)),
        decreases end,
    {
        assert(text@.subrange(start as int, end as int).drop_last() =~= text@.subrange(
            start as int,
            end - 1,
        ));
        end -= 1;
    }
    text.substring_char(start, end)
}

/// Of bytes that are all NUL nothing is left, and so their text is empty.
pub proof fn lemma_all_nul_leaves_nothing(bytes: Seq<u8>)
    requires
        forall|i: int| 0 <= i < bytes.len() ==> bytes[i] == 0,
    ensures
        strip_trailing_nul(bytes).len() == 0,
        name_text(bytes).len() == 0,
    decreases bytes.len(),
{
    if bytes.len() > 0 {
        lemma_all_nul_leaves_nothing(bytes.drop_last());
    }
}

/// What is left of the bytes is their start, and it does not end in NUL.
pub proof fn lemma_strip_trailing_nul_is_prefix(bytes: Seq<u8>)
    ensures
        strip_trailing_nul(bytes).len() <= bytes.len(),
        strip_trailing_nul(bytes) == bytes.take(strip_trailing_nul(bytes).len() as int),
        strip_trailing_nul(bytes).len() > 0 ==> strip_trailing_nul(bytes).last() != 0,
        forall|i: int| strip_trailing_nul(bytes).len() <= i < bytes.len() ==> bytes[i] == 0,
    decreases bytes.len(),
{
    if bytes.len() > 0 && bytes.last() == 0 {
        let shorter = bytes.drop_last();
        lemma_strip_trailing_nul_is_prefix(shorter);
        let kept = strip_trailing_nul(shorter).len() as int;
        assert(shorter.take(kept) =~= bytes.take(kept));
        assert forall|i: int| kept <= i < bytes.len() implies bytes[i] == 0 by {
            if i < shorter.len() {
                assert(shorter[i] == bytes[i]);
            }
        }
    } else {
        assert(bytes.take(bytes.len() as int) =~= bytes);
    }
}

/// The text of a name element's payload: the payload without the NUL bytes at
/// its end, decoded, without the white space around it. Empty where only NUL
/// bytes and white space were sent.
pub open spec fn name_text(payload: Seq<u8>) -> Seq<char> {
    let bytes = strip_trailing_nul(payload);
    if bytes.len() == 0 {
        Seq::empty()
    } else {
        strip_space(utf8_lossy(bytes))
    }
}

/// Decodes the payload of a name element. Bytes that are no valid UTF-8 are
/// replaced and make no failure.
pub fn decode_name(payload: &[u8]) -> (text: String)
    ensures
        text@ == name_text(payload@),
{
    let bytes = trim_trailing_nul(payload);
    if bytes.len() == 0 {
        String::new()
    } else {
        let decoded = decode_lossy(bytes);
        String::from_str(trim_space(decoded.as_str()))
    }
}

} // verus!
