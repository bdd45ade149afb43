//! Text checks on what the user typed and on files read from disk.

use vstd::prelude::*;

verus! {

/// Whether a character has Unicode's `White_Space` property, the set `char::is_whitespace`
/// answers from: the controls U+0009 to U+000D, the space, U+0085, the no-break space, the
/// Ogham space mark, the spaces U+2000 to U+200A, the line and paragraph separators, the
/// narrow no-break space, the medium mathematical space and the ideographic space.
pub open spec fn unicode_white_space(c: char) -> bool {
    let n = c as u32;
    ||| 0x9 <= n <= 0xd
    ||| n == 0x20
    ||| n == 0x85
    ||| n == 0xa0
    ||| n == 0x1680
    ||| 0x2000 <= n <= 0x200a
    ||| n == 0x2028
    ||| n == 0x2029
    ||| n == 0x202f
    ||| n == 0x205f
    ||| n == 0x3000
}

/// Whether `c` is white space.
pub fn is_whitespace(c: char) -> (space: bool)
    ensures
        space == unicode_white_space(c),
{
    let n = c as u32;
    (0x9 <= n && n <= 0xd) || n == 0x20 || n == 0x85 || n == 0xa0 || n == 0x1680 || (0x2000 <= n
        && n <= 0x200a) || n == 0x2028 || n == 0x2029 || n == 0x202f || n == 0x205f || n == 0x3000
}

/// Every character of the text is white space (an empty text is blank too).
pub open spec fn blank(text: Seq<char>) -> bool {
    forall|i: int| 0 <= i < text.len() ==> unicode_white_space(#[trigger] text[i])
}

/// Whether `text` holds nothing once its surrounding white space is trimmed.
pub fn is_blank(text: &str) -> (result: bool)
    ensures
        result == blank(text@),
{
    let n = text.unicode_len();
    let mut i: usize = 0;
    while i < n
        invariant
            n == text@.len(),
            i <= n,
            forall|j: int| 0 <= j < i ==> unicode_white_space(#[trigger] text@[j]),
        decreases n - i,
    {
        let c = text.get_char(i);
        if !is_whitespace(c) {
            return false;
        }
        i = i + 1;
    }
    true
}

/// The byte order mark some editors put at the start of a text file.
pub const BYTE_ORDER_MARK: char = '\u{feff}';

/// The text with every byte order mark at its start removed.
pub open spec fn without_leading_marks(text: Seq<char>) -> Seq<char>
    decreases text.len(),
{
    if text.len() > 0 && text[0] == BYTE_ORDER_MARK {
        without_leading_marks(text.drop_first())
    } else {
        text
    }
}

proof fn lemma_skip_mark(text: Seq<char>, k: int)
    requires
        0 <= k < text.len(),
        text[k] == BYTE_ORDER_MARK,
    ensures
        without_leading_marks(text.skip(k)) == without_leading_marks(text.skip(k + 1)),
{
    assert(text.skip(k).drop_first() =~= text.skip(k + 1));
}

/// The text without the byte order marks at its start, as `trim_start_matches('\u{feff}')`
/// gives it.
pub fn strip_byte_order_marks(text: &str) -> (stripped: &str)
    ensures
        stripped@ == without_leading_marks(text@),
{
    let n = text.unicode_len();
    let mut k: usize = 0;
    assert(text@.skip(0) =~= text@);
    while k < n && text.get_char(k) == BYTE_ORDER_MARK
        invariant
            n == text@.len(),
            k <= n,
            without_leading_marks(text@) == without_leading_marks(text@.skip(k as int)),
        decreases n - k,
    {
        proof {
            lemma_skip_mark(text@, k as int);
        }
        k = k + 1;
    }
    let stripped = text.substring_char(k, n);
    assert(stripped@ =~= text@.skip(k as int));
    stripped
}

/// Stripping byte order marks leaves a text that does not start with one, made of the last
/// characters of the text it started from; stripping again changes nothing.
pub proof fn law_marks_stripped(text: Seq<char>)
    ensures
        without_leading_marks(text).len() > 0 ==> without_leading_marks(text)[0] != BYTE_ORDER_MARK,
        without_leading_marks(text).len() <= text.len(),
        without_leading_marks(text) == text.skip(text.len() - without_leading_marks(text).len()),
        without_leading_marks(without_leading_marks(text)) == without_leading_marks(text),
    decreases text.len(),
{
    if text.len() > 0 && text[0] == BYTE_ORDER_MARK {
        law_marks_stripped(text.drop_first());
        let rest = text.drop_first();
        let w = without_leading_marks(rest);
        assert(rest.skip(rest.len() - w.len()) =~= text.skip(text.len() - w.len()));
    } else {
        assert(text.skip(0) =~= text);
    }
}

} // verus!
