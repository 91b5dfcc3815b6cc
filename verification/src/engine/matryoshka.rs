//! Matryoshka truncation: the prefix of a vector that stands for the whole.
//!
//! The prefix is cut here. Dividing it by its norm is left to the caller,
//! who is told when to do so.

use vstd::prelude::*;

use crate::engine::binary32::is_zero;
use crate::engine::binary32::zero;
use crate::error::ErrorKind;

verus! {

/// Why a vector could not be cut to a prefix.
#[derive(Debug, Clone, Copy, PartialEq, Eq, Structural)]
pub enum SliceError {
    /// A prefix of no components was asked for.
    ZeroDimension,
    /// A prefix of `target` components was asked of a vector of `len`.
    TooLarge { target: usize, len: usize },
}

impl SliceError {
    /// The kind of this failure: an invalid argument.
    pub fn kind(&self) -> (kind: ErrorKind)
        ensures
            kind == ErrorKind::InvalidArgument,
    {
        ErrorKind::InvalidArgument
    }
}

/// What cutting a vector of `len` components to `target` components comes
/// to: nothing to object to, or the objection.
pub open spec fn slice_check(len: nat, target: nat) -> Option<SliceError> {
    if target == 0 {
        Some(SliceError::ZeroDimension)
    } else if target > len {
        Some(SliceError::TooLarge { target: target as usize, len: len as usize })
    } else {
        None
    }
}

/// Cuts a vector to its first `target_dim` components. Fails when
/// `target_dim` is zero or more than the vector has.
pub fn slice_prefix(vec: &[u32], target_dim: usize) -> (sliced: Result<Vec<u32>, SliceError>)
    ensures
        sliced is Err <==> target_dim == 0 || target_dim > vec@.len(),
        sliced matches Err(objection) ==> slice_check(vec@.len(), target_dim as nat) == Some(
            objection,
        ),
        sliced matches Ok(prefix) ==> prefix@ == vec@.take(target_dim as int),
{
    if target_dim == 0 {
        return Err(SliceError::ZeroDimension);
    }
    if target_dim > vec.len() {
        return Err(SliceError::TooLarge { target: target_dim, len: vec.len() });
    }
    let mut prefix: Vec<u32> = Vec::with_capacity(target_dim);
    let mut i: usize = 0;
    while i < target_dim
        invariant
            i <= target_dim <= vec@.len(),
            prefix@ == vec@.take(i as int),
        decreases target_dim - i,
    {
        prefix.push(vec[i]);
        assert(vec@.take(i as int).push(vec@[i as int]) =~= vec@.take(i as int + 1));
        i += 1;
    }
    Ok(prefix)
}

/// Whether a prefix with the given norm, a binary32 pattern, is to be
/// divided by it: always, except when the norm is zero, where the prefix is
/// kept as it is.
pub fn needs_scaling(norm: u32) -> (scale: bool)
    ensures
        scale == !is_zero(norm),
{
    !zero(norm)
}

} // verus!
