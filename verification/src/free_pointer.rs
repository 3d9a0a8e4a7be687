use vstd::prelude::*;

verus! {

/// A `core::num::NonZeroUsize` held behind an opaque wrapper. Verus cannot
/// declare `NonZero` itself (it is generic over an unstable trait), so the
/// value is hidden here and spoken of through [`nz_usize_value`].
#[verifier::external_body]
#[derive(Debug)]
pub struct NzUsize {
    raw: core::num::NonZeroUsize,
}

impl Clone for NzUsize {
    /// Relies on `NonZeroUsize` being `Copy`: a clone is the same value.
    #[verifier::external_body]
    fn clone(&self) -> (r: Self)
        ensures
            r == *self,
    {
        NzUsize { raw: self.raw }
    }
}

impl Copy for NzUsize {
}

/// The integer wrapped inside an [`NzUsize`], as `NonZeroUsize::get`
/// returns it.
pub uninterp spec fn nz_usize_value(n: NzUsize) -> usize;

/// Relies on `core::num::NonZeroUsize::new`: returns `Some` exactly when
/// the argument is nonzero, wrapping that argument.
#[verifier::external_body]
fn nz_usize_new(v: usize) -> (r: Option<NzUsize>)
    ensures
        r is Some <==> v != 0,
        r matches Some(n) ==> nz_usize_value(n) == v,
{
    match core::num::NonZeroUsize::new(v) {
        Some(raw) => Some(NzUsize { raw }),
        None => None,
    }
}

/// Relies on `core::num::NonZeroUsize::get`: returns the wrapped integer,
/// which the type guarantees is never zero.
#[verifier::external_body]
fn nz_usize_get(n: NzUsize) -> (r: usize)
    ensures
        r == nz_usize_value(n),
        r != 0,
{
    n.raw.get()
}

/// A reference to a free slot in an arena, encoded as the slot number plus
/// one so that "no next slot" needs no separate representation:
/// `Option<FreePointer>` is the same size as a bare pointer.
#[derive(Clone, Copy, Debug)]
pub struct FreePointer {
    raw: NzUsize,
}

impl View for FreePointer {
    type V = usize;

    closed spec fn view(&self) -> usize {
        (nz_usize_value(self.raw) - 1) as usize
    }
}

impl FreePointer {
    /// Point at the given slot.
    pub fn from_slot(slot: usize) -> (p: FreePointer)
        requires
            slot < usize::MAX,
        ensures
            p@ == slot,
    {
        FreePointer { raw: nz_usize_new(slot + 1).unwrap() }
    }

    /// The slot this pointer refers to.
    pub fn slot(self) -> (r: usize)
        ensures
            r == self@,
    {
        nz_usize_get(self.raw) - 1
    }
}

} // verus!
