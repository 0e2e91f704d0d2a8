//! Cursor primitives: taking a window of fixed size off the front of a
//! buffer.
//!
//! A cursor is a reference to a slice that stands for the bytes not yet read
//! or not yet written. Taking a window hands out the first `N` bytes as an
//! array, borrowed from the buffer and not copied, and leaves the cursor on
//! what follows. These two functions are the only place where a read or a
//! write of fixed size is checked against the end of the buffer.

use crate::errors::{MarshalError, UnmarshalError};
use vstd::prelude::*;

verus! {

/// `<[T]>::split_first_chunk` of std: the first `N` items as an array and
/// the items after them, or `None` where the slice has fewer than `N`.
pub assume_specification<T, const N: usize>[ <[T]>::split_first_chunk::<N> ](slice: &[T]) -> (r:
    Option<(&[T; N], &[T])>)
    ensures
        r is Some <==> N <= slice@.len(),
        r is Some ==> r.unwrap().0@ == slice@.subrange(0, N as int),
        r is Some ==> r.unwrap().1@ == slice@.subrange(N as int, slice@.len() as int),
;

/// `<[T]>::split_first_chunk_mut` of std: as `split_first_chunk`, with
/// mutable borrows. What is written through the two parts is what the slice
/// holds afterwards, the array first; with `None` the slice is untouched.
pub assume_specification<T, const N: usize>[ <[T]>::split_first_chunk_mut::<N> ](
    slice: &mut [T],
) -> (r: Option<(&mut [T; N], &mut [T])>)
    ensures
        r is Some <==> N <= old(slice)@.len(),
        r is Some ==> r.unwrap().0@ == old(slice)@.subrange(0, N as int),
        r is Some ==> r.unwrap().1@ == old(slice)@.subrange(N as int, old(slice)@.len() as int),
        r is Some ==> final(slice)@ == final(r.unwrap().0)@ + final(r.unwrap().1)@,
        r is None ==> final(slice)@ == old(slice)@,
;

/// The array that holds the bytes `s`.
pub open spec fn array_of<const N: usize>(s: Seq<u8>) -> [u8; N] {
    choose|a: [u8; N]| a@ == s
}

/// An array whose first `k` bytes are those of `s`.
proof fn lemma_array_prefix<const N: usize>(s: Seq<u8>, k: nat) -> (a: [u8; N])
    requires
        s.len() == N,
        k <= N,
    ensures
        forall|i: int| 0 <= i < k ==> a@[i] == s[i],
    decreases k,
{
    if k == 0 {
        arbitrary()
    } else {
        let shorter = lemma_array_prefix::<N>(s, (k - 1) as nat);
        vstd::array::axiom_spec_array_update(shorter, k - 1, s[k - 1]);
        vstd::array::spec_array_update(shorter, k - 1, s[k - 1])
    }
}

/// Every sequence of `N` bytes is held by an array, and by one only.
pub proof fn lemma_array_of<const N: usize>(s: Seq<u8>)
    requires
        s.len() == N,
    ensures
        array_of::<N>(s)@ == s,
        forall|a: [u8; N]| a@ == s ==> a == array_of::<N>(s),
{
    let witness = lemma_array_prefix::<N>(s, N as nat);
    assert(witness@ =~= s);
    assert forall|a: [u8; N]| a@ == s implies a == array_of::<N>(s) by {
        assert(a =~= array_of::<N>(s));
    }
}

/// Takes the first `N` bytes off the front of `buf` for reading.
///
/// With at least `N` bytes left, the window is returned and `buf` is
/// advanced past it. With fewer, the call fails and `buf` stays where it
/// was.
pub fn pop_array<'s, const N: usize>(buf: &mut &'s [u8]) -> (r: Result<
    &'s [u8; N],
    UnmarshalError,
>)
    ensures
        r is Ok <==> N <= old(buf)@.len(),
        r is Ok ==> r.unwrap()@ == old(buf)@.take(N as int),
        r is Ok ==> final(buf)@ == old(buf)@.skip(N as int),
        r is Err ==> r.unwrap_err() == UnmarshalError::BufferTooShort,
        r is Err ==> *final(buf) == *old(buf),
{
    match (*buf).split_first_chunk::<N>() {
        Some((window, rest)) => {
            *buf = rest;
            Ok(window)
        },
        None => Err(UnmarshalError::BufferTooShort),
    }
}

/// Takes the first `N` bytes off the front of `buf` for writing.
///
/// With at least `N` bytes left, the window is returned and `buf` is
/// advanced past it: the buffer that `buf` stood for will hold what is
/// written to the window, followed by what is written through `buf` from
/// here on. With fewer, the call fails and `buf` stays where it was.
pub fn pop_array_mut<'a, const N: usize>(buf: &mut &'a mut [u8]) -> (r: Result<
    &'a mut [u8; N],
    MarshalError,
>)
    ensures
        r is Ok <==> N <= old(buf)@.len(),
        r is Ok ==> r.unwrap()@ == old(buf)@.take(N as int),
        r is Ok ==> final(buf)@ == old(buf)@.skip(N as int),
        r is Ok ==> final(*old(buf))@ == final(r.unwrap())@ + final(*final(buf))@,
        r is Err ==> *final(buf) == *old(buf),
{
    if buf.len() < N {
        return Err(MarshalError);
    }
    let mut whole: &'a mut [u8] = &mut [];
    core::mem::swap(buf, &mut whole);
    match whole.split_first_chunk_mut::<N>() {
        Some((window, rest)) => {
            *buf = rest;
            Ok(window)
        },
        None => Err(MarshalError),
    }
}

} // verus!
