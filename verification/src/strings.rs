//! The `String` operations that the editor performs on a line, each stated
//! over the line's characters. A byte index names the column whose byte
//! position it is (see `text::byte_pos`).
use vstd::prelude::*;
use crate::text::{byte_pos, is_char_pos};

verus! {

/// `String::push`: appends `c` to the end of `s`.
#[verifier::external_body]
pub(crate) fn string_push(s: &mut String, c: char)
    ensures
        final(s)@ == old(s)@.push(c),
{
    s.push(c)
}

/// `String::pop`: removes the last character of `s` and returns it, or
/// returns `None` and leaves `s` as it is when `s` is empty.
#[verifier::external_body]
pub(crate) fn string_pop(s: &mut String) -> (r: Option<char>)
    ensures
        old(s)@.len() == 0 ==> r is None && final(s)@ == old(s)@,
        old(s)@.len() > 0 ==> r == Some(old(s)@.last()) && final(s)@ == old(s)@.drop_last(),
{
    s.pop()
}

/// `String::insert`: inserts `c` at the byte index `idx`, which must be a
/// character boundary of `s` (the call panics otherwise).
#[verifier::external_body]
pub(crate) fn string_insert(s: &mut String, idx: usize, c: char)
    requires
        is_char_pos(old(s)@, idx as int),
    ensures
        forall|k: int|
            0 <= k <= old(s)@.len() && #[trigger] byte_pos(old(s)@, k) == idx ==> final(s)@
                == old(s)@.take(k).push(c) + old(s)@.skip(k),
{
    s.insert(idx, c)
}

/// `String::remove`: removes and returns the character that starts at the
/// byte index `idx`, which must be a character boundary before the end of
/// `s` (the call panics otherwise).
#[verifier::external_body]
pub(crate) fn string_remove(s: &mut String, idx: usize) -> (r: char)
    requires
        exists|k: int| 0 <= k < old(s)@.len() && #[trigger] byte_pos(old(s)@, k) == idx,
    ensures
        forall|k: int|
            0 <= k < old(s)@.len() && #[trigger] byte_pos(old(s)@, k) == idx ==> r == old(s)@[k]
                && final(s)@ == old(s)@.remove(k),
{
    s.remove(idx)
}

/// `String::split_off`: keeps the bytes before `at` in `s` and returns the
/// rest; `at` must be a character boundary of `s` (the call panics otherwise).
#[verifier::external_body]
pub(crate) fn string_split_off(s: &mut String, at: usize) -> (r: String)
    requires
        is_char_pos(old(s)@, at as int),
    ensures
        forall|k: int|
            0 <= k <= old(s)@.len() && #[trigger] byte_pos(old(s)@, k) == at ==> final(s)@
                == old(s)@.take(k) && r@ == old(s)@.skip(k),
{
    s.split_off(at)
}

/// `String::replace_range` with an empty replacement: removes the bytes
/// `lo..hi`; both ends must be character boundaries with `lo <= hi` (the call
/// panics otherwise).
#[verifier::external_body]
pub(crate) fn string_remove_range(s: &mut String, lo: usize, hi: usize)
    requires
        is_char_pos(old(s)@, lo as int),
        is_char_pos(old(s)@, hi as int),
        lo <= hi,
    ensures
        forall|k1: int, k2: int|
            0 <= k1 <= k2 <= old(s)@.len() && #[trigger] byte_pos(old(s)@, k1) == lo
                && #[trigger] byte_pos(old(s)@, k2) == hi ==> final(s)@ == old(s)@.take(k1)
                + old(s)@.skip(k2),
{
    s.replace_range(lo..hi, "")
}

} // verus!
