//! The console cursor: how much of a build's cumulative console text has
//! been shown, and what of a newly fetched text is still to show. Offsets
//! count bytes of the text's UTF-8 form.

use vstd::prelude::*;
use vstd::slice::{slice_subrange, slice_to_vec};
use vstd::string::StringSliceAdditionalSpecFns;
use vstd::utf8::encode_utf8;

verus! {

/// The bytes of a text's UTF-8 form.
pub open spec fn bytes(text: Seq<char>) -> Seq<u8> {
    encode_utf8(text)
}

/// Whether a text of `console`'s length moves a cursor at `cursor` forward.
pub open spec fn extends(console: Seq<u8>, cursor: usize) -> bool {
    cursor < console.len() <= usize::MAX
}

/// The part of `console` that lies beyond `cursor`; empty where the text
/// is no longer than the cursor.
pub open spec fn fresh(console: Seq<u8>, cursor: usize) -> Seq<u8> {
    if extends(console, cursor) {
        console.skip(cursor as int)
    } else {
        Seq::empty()
    }
}

/// The cursor after `console` was shown: the text's length, or the old
/// cursor where the text is no longer than that.
pub open spec fn advanced(console: Seq<u8>, cursor: usize) -> usize {
    if extends(console, cursor) {
        console.len() as usize
    } else {
        cursor
    }
}

/// Everything that a series of fetched texts makes visible, starting with
/// the cursor at `cursor`.
pub open spec fn shown(polls: Seq<Seq<u8>>, cursor: usize) -> Seq<u8>
    decreases polls.len(),
{
    if polls.len() == 0 {
        Seq::empty()
    } else {
        fresh(polls[0], cursor) + shown(polls.drop_first(), advanced(polls[0], cursor))
    }
}

/// The cursor after a series of fetched texts.
pub open spec fn cursor_after(polls: Seq<Seq<u8>>, cursor: usize) -> usize
    decreases polls.len(),
{
    if polls.len() == 0 {
        cursor
    } else {
        cursor_after(polls.drop_first(), advanced(polls[0], cursor))
    }
}

/// Each text continues the one before it, and each fits the machine.
pub open spec fn growing(polls: Seq<Seq<u8>>) -> bool {
    &&& forall|i: int| 0 <= i < polls.len() ==> (#[trigger] polls[i]).len() <= usize::MAX
    &&& forall|i: int, j: int|
        0 <= i <= j < polls.len() ==> (#[trigger] polls[i]).is_prefix_of(#[trigger] polls[j])
}

/// Splits off what of `console` has not been shown yet, and moves the
/// cursor to the text's end.
pub fn unseen(console: &str, cursor: usize) -> (r: (Vec<u8>, usize))
    ensures
        r.0@ == fresh(bytes(console@), cursor),
        r.1 == advanced(bytes(console@), cursor),
{
    let bytes = console.as_bytes();
    let n = bytes.len();
    if n > cursor {
        (slice_to_vec(slice_subrange(bytes, cursor, n)), n)
    } else {
        (Vec::new(), cursor)
    }
}

/// The cursor never moves back, and what is shown is exactly what lies
/// between the old cursor and the new one.
pub proof fn lemma_cursor_monotone(console: Seq<u8>, cursor: usize)
    ensures
        cursor <= advanced(console, cursor),
        fresh(console, cursor).len() == advanced(console, cursor) - cursor,
        extends(console, cursor) ==> fresh(console, cursor) == console.subrange(
            cursor as int,
            advanced(console, cursor) as int,
        ),
{
}

/// Where each fetched text continues the one before, every byte of the
/// last text is shown exactly once: what was shown before, followed by what
/// the series makes visible, is the last text.
pub proof fn lemma_shown_once(before: Seq<u8>, polls: Seq<Seq<u8>>)
    requires
        polls.len() > 0,
        growing(polls),
        before.is_prefix_of(polls[0]),
    ensures
        before + shown(polls, before.len() as usize) == polls.last(),
        cursor_after(polls, before.len() as usize) == polls.last().len(),
    decreases polls.len(),
{
    let cursor = before.len() as usize;
    let first = polls[0];
    let rest = polls.drop_first();
    assert(before + fresh(first, cursor) =~= first);
    assert(advanced(first, cursor) == first.len());
    if rest.len() == 0 {
        assert(shown(rest, advanced(first, cursor)) =~= Seq::<u8>::empty());
        assert(cursor_after(rest, advanced(first, cursor)) == advanced(first, cursor));
        assert(before + shown(polls, cursor) =~= first);
    } else {
        assert(growing(rest)) by {
            assert forall|i: int| 0 <= i < rest.len() implies (#[trigger] rest[i]).len()
                <= usize::MAX by {
                assert(rest[i] == polls[i + 1]);
            }
            assert forall|i: int, j: int| 0 <= i <= j < rest.len() implies (#[trigger] rest[i]).is_prefix_of(
                #[trigger] rest[j],
            ) by {
                assert(rest[i] == polls[i + 1]);
                assert(rest[j] == polls[j + 1]);
            }
        }
        assert(first.is_prefix_of(rest[0])) by {
            assert(rest[0] == polls[1]);
        }
        lemma_shown_once(first, rest);
        assert(rest.last() == polls.last());
        assert(before + shown(polls, cursor) =~= (before + fresh(first, cursor)) + shown(
            rest,
            advanced(first, cursor),
        ));
    }
}

} // verus!
