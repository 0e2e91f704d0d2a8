//! The marshaling framework: capability limits, the fixed-width and the
//! variable-width codec, and the cursor primitives under them.
//!
//! A value of fixed width is written to and read from an array whose length
//! its type gives ([`MarshalFixed`], [`UnmarshalFixed`]). A value of variable
//! width is written to and read from a buffer ([`Marshal`], [`Unmarshal`]),
//! in one of three calling conventions that differ only in how the position
//! in the buffer is handed back. Every value of fixed width is one of
//! variable width too.

pub mod cursor;
pub mod limits;

pub use cursor::{pop_array, pop_array_mut};
pub use limits::{limits_of, EccCurves, LimitSets, Limits, RsaKeySizes, TpmaHashAlgs};

use crate::errors::{MarshalError, UnmarshalError};
use vstd::prelude::*;

verus! {

/// A value whose wire form has a length that its type alone gives.
pub trait MarshalFixed: Sized {
    /// The length of the wire form in bytes.
    const SIZE: usize;

    /// The array that holds the wire form: `[u8; SIZE]`.
    type Array: View<V = Seq<u8>>;

    /// The wire form of this value.
    spec fn spec_marshal_fixed(&self) -> Seq<u8>;

    /// The wire form and the array both have `SIZE` bytes.
    proof fn lemma_size(&self, arr: Self::Array)
        ensures
            self.spec_marshal_fixed().len() == Self::SIZE,
            arr@.len() == Self::SIZE,
    ;

    /// Writes the wire form of this value to `arr`. This cannot fail.
    fn marshal_fixed(&self, arr: &mut Self::Array)
        ensures
            final(arr)@ == self.spec_marshal_fixed(),
    ;
}

/// A value of fixed width that can be read back from its wire form.
pub trait UnmarshalFixed: MarshalFixed {
    /// The value that the bytes stand for, or `InvalidValue` where they are
    /// the wire form of no value.
    spec fn spec_unmarshal_fixed(bytes: Seq<u8>) -> Result<Self, UnmarshalError>;

    /// Reading the wire form of a value gives the value back.
    proof fn lemma_round_trip(&self)
        ensures
            Self::spec_unmarshal_fixed(self.spec_marshal_fixed()) == Ok::<Self, UnmarshalError>(
                *self,
            ),
    ;

    /// Reads a value from `arr`. Fails, with `InvalidValue`, only where the
    /// bytes are the wire form of no value.
    fn unmarshal_fixed<L: Limits>(arr: &Self::Array) -> (r: Result<Self, UnmarshalError>)
        ensures
            r == Self::spec_unmarshal_fixed(arr@),
            r matches Err(e) ==> e == UnmarshalError::InvalidValue,
    ;
}

/// A value that can be written to a buffer.
///
/// The three methods write the same bytes, [`spec_marshal`](Self::spec_marshal),
/// to the front of what they are given, and fail, leaving everything as it
/// was, exactly where those bytes do not fit.
pub trait Marshal {
    /// The wire form of this value.
    spec fn spec_marshal(&self) -> Seq<u8>;

    /// Writes this value to the front of `buf`. The rest of `buf` is left as
    /// it was, and how far the value reached is not reported.
    fn marshal<L: Limits>(&self, buf: &mut [u8]) -> (r: Result<(), MarshalError>)
        ensures
            r is Ok <==> self.spec_marshal().len() <= old(buf)@.len(),
            r is Ok ==> final(buf)@ == self.spec_marshal() + old(buf)@.skip(
                self.spec_marshal().len() as int,
            ),
            r is Err ==> final(buf)@ == old(buf)@,
    {
        let mut cursor: &mut [u8] = buf;
        self.marshal2::<L>(&mut cursor)
    }

    /// Writes this value at the cursor `buf` and advances the cursor past
    /// it, so that the next value can be written behind it by the same call.
    ///
    /// On success the buffer that the cursor stood for will hold the wire
    /// form, followed by what is written through the cursor from here on.
    fn marshal2<L: Limits>(&self, buf: &mut &mut [u8]) -> (r: Result<(), MarshalError>)
        ensures
            r is Ok <==> self.spec_marshal().len() <= old(buf)@.len(),
            r is Ok ==> final(buf)@ == old(buf)@.skip(self.spec_marshal().len() as int),
            r is Ok ==> final(*old(buf))@ == self.spec_marshal() + final(*final(buf))@,
            r is Err ==> *final(buf) == *old(buf),
    ;

    /// Writes this value to the front of `buf` and returns the number of
    /// bytes written. The rest of `buf` is left as it was.
    fn marshal3<L: Limits>(&self, buf: &mut [u8]) -> (r: Result<usize, MarshalError>)
        ensures
            r is Ok <==> self.spec_marshal().len() <= old(buf)@.len(),
            r is Ok ==> r.unwrap() == self.spec_marshal().len(),
            r is Ok ==> final(buf)@ == self.spec_marshal() + old(buf)@.skip(
                self.spec_marshal().len() as int,
            ),
            r is Err ==> final(buf)@ == old(buf)@,
    {
        let before = buf.len();
        let mut cursor: &mut [u8] = buf;
        match self.marshal2::<L>(&mut cursor) {
            Ok(()) => Ok(before - cursor.len()),
            Err(e) => Err(e),
        }
    }
}

/// A value that can be read from a buffer, in place of the value that
/// `self` held. What is read may borrow from the buffer, which lives for
/// `'s`.
///
/// The three methods read the same value,
/// [`spec_unmarshal`](Self::spec_unmarshal), from the front of what they are
/// given, and fail with the same error, leaving everything as it was.
pub trait Unmarshal<'s>: Sized {
    /// What reading from `bytes` under `limits` gives: the value and the
    /// number of bytes that it took, or the error.
    spec fn spec_unmarshal(limits: LimitSets, bytes: Seq<u8>) -> Result<
        (Self, nat),
        UnmarshalError,
    >;

    /// A value takes no more bytes than there are.
    proof fn lemma_consumed(limits: LimitSets, bytes: Seq<u8>)
        ensures
            Self::spec_unmarshal(limits, bytes) matches Ok((_, n)) ==> n <= bytes.len(),
    ;

    /// Reads a value from the front of `buf` and returns what follows it.
    fn unmarshal<L: Limits>(&mut self, buf: &'s [u8]) -> (r: Result<&'s [u8], UnmarshalError>)
        ensures
            match Self::spec_unmarshal(limits_of::<L>(), buf@) {
                Ok((value, n)) => r is Ok && *final(self) == value && r.unwrap()@ == buf@.skip(
                    n as int,
                ),
                Err(e) => r == Err::<&[u8], UnmarshalError>(e) && *final(self) == *old(self),
            },
    {
        let mut cursor = buf;
        match self.unmarshal2::<L>(&mut cursor) {
            Ok(()) => Ok(cursor),
            Err(e) => Err(e),
        }
    }

    /// Reads a value at the cursor `buf` and advances the cursor past it, so
    /// that the next value can be read behind it by the same call.
    fn unmarshal2<L: Limits>(&mut self, buf: &mut &'s [u8]) -> (r: Result<(), UnmarshalError>)
        ensures
            match Self::spec_unmarshal(limits_of::<L>(), old(buf)@) {
                Ok((value, n)) => r is Ok && *final(self) == value && final(buf)@ == old(
                    buf,
                )@.skip(n as int),
                Err(e) => r == Err::<(), UnmarshalError>(e) && *final(self) == *old(self)
                    && *final(buf) == *old(buf),
            },
    ;

    /// Reads a value from the front of `buf` and returns the number of bytes
    /// that it took.
    fn unmarshal3<L: Limits>(&mut self, buf: &'s [u8]) -> (r: Result<usize, UnmarshalError>)
        ensures
            match Self::spec_unmarshal(limits_of::<L>(), buf@) {
                Ok((value, n)) => r == Ok::<usize, UnmarshalError>(n as usize) && *final(self)
                    == value,
                Err(e) => r == Err::<usize, UnmarshalError>(e) && *final(self) == *old(self),
            },
    {
        let mut cursor = buf;
        proof {
            Self::lemma_consumed(limits_of::<L>(), buf@);
        }
        match self.unmarshal2::<L>(&mut cursor) {
            Ok(()) => Ok(buf.len() - cursor.len()),
            Err(e) => Err(e),
        }
    }
}

/// A value of fixed width is written as its fixed wire form.
impl<F, const N: usize> Marshal for F where F: MarshalFixed<Array = [u8; N]> {
    open spec fn spec_marshal(&self) -> Seq<u8> {
        self.spec_marshal_fixed()
    }

    fn marshal2<L: Limits>(&self, buf: &mut &mut [u8]) -> (r: Result<(), MarshalError>) {
        proof {
            self.lemma_size(arbitrary());
        }
        match pop_array_mut::<N>(buf) {
            Ok(arr) => {
                self.marshal_fixed(arr);
                Ok(())
            },
            Err(e) => Err(e),
        }
    }
}

/// A value of fixed width is read from as many bytes as its type gives.
impl<'s, F, const N: usize> Unmarshal<'s> for F where
    F: UnmarshalFixed + MarshalFixed<Array = [u8; N]>,
 {
    open spec fn spec_unmarshal(limits: LimitSets, bytes: Seq<u8>) -> Result<
        (Self, nat),
        UnmarshalError,
    > {
        if bytes.len() < N {
            Err(UnmarshalError::BufferTooShort)
        } else {
            match F::spec_unmarshal_fixed(bytes.take(N as int)) {
                Ok(value) => Ok((value, N as nat)),
                Err(e) => Err(e),
            }
        }
    }

    proof fn lemma_consumed(limits: LimitSets, bytes: Seq<u8>) {
    }

    fn unmarshal2<L: Limits>(&mut self, buf: &mut &'s [u8]) -> (r: Result<(), UnmarshalError>) {
        let start: &'s [u8] = *buf;
        match pop_array::<N>(buf) {
            Ok(arr) => match F::unmarshal_fixed::<L>(arr) {
                Ok(value) => {
                    *self = value;
                    Ok(())
                },
                Err(e) => {
                    *buf = start;
                    Err(e)
                },
            },
            Err(e) => Err(e),
        }
    }
}

/// A value of fixed width that was written to a buffer is read back from it
/// as it was, under any limits and whatever follows it, and reading takes
/// as many bytes as writing gave.
pub proof fn lemma_fixed_round_trip<'s, F, const N: usize>(value: F, limits: LimitSets, rest: Seq<u8>)
    where F: UnmarshalFixed + MarshalFixed<Array = [u8; N]>
    ensures
        <F as Unmarshal<'s>>::spec_unmarshal(limits, value.spec_marshal() + rest) == Ok::<
            (F, nat),
            UnmarshalError,
        >((value, value.spec_marshal().len())),
{
    value.lemma_size(arbitrary());
    value.lemma_round_trip();
    assert((value.spec_marshal() + rest).take(N as int) =~= value.spec_marshal_fixed());
}

} // verus!
