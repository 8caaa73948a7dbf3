use vstd::prelude::*;

use ruff_source_file::LineIndex;
use ruff_text_size::TextSize;
use vstd::utf8::encode_utf8;

verus! {

/// Byte `i` of `b` ends a line: a `\n`, or a `\r` not followed by `\n`.
pub open spec fn is_line_break_at(b: Seq<u8>, i: int) -> bool {
    b[i] == 10u8 || (b[i] == 13u8 && !(i + 1 < b.len() && b[i + 1] == 10u8))
}

/// The number of line breaks among the first `n` bytes of `b`.
pub open spec fn line_breaks_before(b: Seq<u8>, n: int) -> nat
    decreases n,
{
    if n <= 0 {
        0
    } else {
        line_breaks_before(b, n - 1) + if n - 1 < b.len() && is_line_break_at(b, n - 1) {
            1nat
        } else {
            0nat
        }
    }
}

/// At most one line break per byte.
pub proof fn lemma_line_breaks_bounded(b: Seq<u8>, n: int)
    ensures
        line_breaks_before(b, n) <= b.len(),
        n >= 0 ==> line_breaks_before(b, n) <= n,
    decreases n,
{
    if n > 0 {
        lemma_line_breaks_bounded(b, n - 1);
        if n - 1 < b.len() {
            assert(line_breaks_before(b, n - 1) <= n - 1);
        }
    }
}

/// The one-based number of the line holding byte `offset` of `source`.
///
/// Calls `ruff_source_file::LineIndex::from_source_text(source)` and then
/// `line_index(offset)`, whose `get()` is returned. The index records a line
/// start after every `\n` and after every `\r` that no `\n` follows; the line
/// of an offset is the number of line starts at or before it; the one-based
/// number saturates at `usize::MAX`. Building the index asserts that the
/// source length fits in a `u32`.
#[verifier::external_body]
pub(crate) fn line_number(source: &str, offset: u32) -> (r: usize)
    requires
        encode_utf8(source@).len() <= u32::MAX,
    ensures
        r == if line_breaks_before(encode_utf8(source@), offset as int) + 1 <= usize::MAX {
            line_breaks_before(encode_utf8(source@), offset as int) + 1int
        } else {
            usize::MAX as int
        },
{
    LineIndex::from_source_text(source).line_index(TextSize::from(offset)).get()
}

} // verus!
