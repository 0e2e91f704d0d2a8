//! The three calling conventions side by side: a tagged hash value written
//! and read in each of them, under the largest limits.
//!
//! The three writers have one contract, and so have the three readers: the
//! conventions differ in how a position in the buffer is handed back, and
//! in nothing that ends up in the buffer or in the value.

use crate::errors::{MarshalError, UnmarshalError};
use crate::marshal::{limits_of, Marshal, Unmarshal};
use crate::profiles::Large;
use crate::tpmt_ha::TpmtHa;
use vstd::prelude::*;

verus! {

/// What a buffer that held `before` holds once `ha` is written to its
/// front; `None` where `ha` does not fit.
pub open spec fn spec_written(ha: TpmtHa, before: Seq<u8>) -> Option<Seq<u8>> {
    if ha.spec_marshal().len() <= before.len() {
        Some(ha.spec_marshal() + before.skip(ha.spec_marshal().len() as int))
    } else {
        None
    }
}

/// What reading from `bytes` gives: the value at their front, or the error.
pub open spec fn spec_read<'a>(bytes: Seq<u8>) -> Result<TpmtHa<'a>, UnmarshalError> {
    match TpmtHa::<'a>::spec_unmarshal(limits_of::<Large>(), bytes) {
        Ok((ha, _)) => Ok(ha),
        Err(e) => Err(e),
    }
}

/// Writes `ha` to the front of `buf`.
pub fn marshal1(ha: TpmtHa, buf: &mut [u8]) -> (r: Result<(), MarshalError>)
    ensures
        r is Ok <==> spec_written(ha, old(buf)@) is Some,
        r is Ok ==> spec_written(ha, old(buf)@) == Some(final(buf)@),
        r is Err ==> final(buf)@ == old(buf)@,
{
    ha.marshal::<Large>(buf)?;
    Ok(())
}

/// Writes `ha` to the front of `buf`, through a cursor.
pub fn marshal2(ha: TpmtHa, buf: &mut [u8]) -> (r: Result<(), MarshalError>)
    ensures
        r is Ok <==> spec_written(ha, old(buf)@) is Some,
        r is Ok ==> spec_written(ha, old(buf)@) == Some(final(buf)@),
        r is Err ==> final(buf)@ == old(buf)@,
{
    let mut buf = buf;
    ha.marshal2::<Large>(&mut buf)
}

/// Writes `ha` to the front of `buf`, and drops the count of bytes written.
pub fn marshal3(ha: TpmtHa, buf: &mut [u8]) -> (r: Result<(), MarshalError>)
    ensures
        r is Ok <==> spec_written(ha, old(buf)@) is Some,
        r is Ok ==> spec_written(ha, old(buf)@) == Some(final(buf)@),
        r is Err ==> final(buf)@ == old(buf)@,
{
    ha.marshal3::<Large>(buf)?;
    Ok(())
}

/// Reads a value from the front of `buf`.
pub fn unmarshal1(buf: &[u8]) -> (r: Result<TpmtHa<'_>, UnmarshalError>)
    ensures
        r == spec_read(buf@),
{
    let mut ha = TpmtHa::Sha256(&[0; 32]);
    ha.unmarshal::<Large>(buf)?;
    Ok(ha)
}

/// Reads a value from the front of `buf`, through a cursor.
pub fn unmarshal2(buf: &[u8]) -> (r: Result<TpmtHa<'_>, UnmarshalError>)
    ensures
        r == spec_read(buf@),
{
    let mut buf = buf;
    let mut ha = TpmtHa::Sha256(&[0; 32]);
    ha.unmarshal2::<Large>(&mut buf)?;
    Ok(ha)
}

/// Reads a value from the front of `buf`, and drops the count of bytes read.
pub fn unmarshal3(buf: &[u8]) -> (r: Result<TpmtHa<'_>, UnmarshalError>)
    ensures
        r == spec_read(buf@),
{
    let mut ha = TpmtHa::Sha256(&[0; 32]);
    ha.unmarshal3::<Large>(buf)?;
    Ok(ha)
}

/// Writes `ha` once in each convention, to three buffers that hold the same
/// bytes. Afterwards the three hold the same bytes again: the conventions
/// agree on every value and every buffer.
pub fn marshal_all_ways(ha: TpmtHa, a: &mut [u8], b: &mut [u8], c: &mut [u8]) -> (r: Result<
    (),
    MarshalError,
>)
    requires
        old(a)@ == old(b)@,
        old(b)@ == old(c)@,
    ensures
        final(a)@ == final(b)@,
        final(b)@ == final(c)@,
        r is Ok <==> spec_written(ha, old(a)@) is Some,
        r is Ok ==> spec_written(ha, old(a)@) == Some(final(a)@),
        r is Err ==> final(a)@ == old(a)@,
{
    let first = marshal1(ha, a);
    let second = marshal2(ha, b);
    let third = marshal3(ha, c);
    first
}

/// Reads a value once in each convention, from three buffers that hold the
/// same bytes. The three results are the same: the conventions agree on
/// every input.
pub fn unmarshal_all_ways<'s>(a: &'s [u8], b: &'s [u8], c: &'s [u8]) -> (r: (
    Result<TpmtHa<'s>, UnmarshalError>,
    Result<TpmtHa<'s>, UnmarshalError>,
    Result<TpmtHa<'s>, UnmarshalError>,
))
    requires
        a@ == b@,
        b@ == c@,
    ensures
        r.0 == spec_read::<'s>(a@),
        r.1 == r.0,
        r.2 == r.0,
{
    (unmarshal1(a), unmarshal2(b), unmarshal3(c))
}

} // verus!
