use vstd::prelude::*;

verus! {

/// A `core::num::NonZeroU32` held behind an opaque wrapper. Verus cannot
/// declare `NonZero` itself (it is generic over an unstable trait), so the
/// value is hidden here and spoken of through [`nz_u32_value`].
#[verifier::external_body]
#[derive(Debug, Hash, PartialEq, Eq, PartialOrd, Ord)]
pub struct NzU32 {
    raw: core::num::NonZeroU32,
}

impl Clone for NzU32 {
    /// Relies on `NonZeroU32` being `Copy`: a clone is the same value.
    #[verifier::external_body]
    fn clone(&self) -> (r: Self)
        ensures
            r == *self,
    {
        NzU32 { raw: self.raw }
    }
}

impl Copy for NzU32 {
}

/// The integer wrapped inside an [`NzU32`], as `NonZeroU32::get` returns it.
pub uninterp spec fn nz_u32_value(n: NzU32) -> u32;

/// Relies on `core::num::NonZeroU32::new`: returns `Some` exactly when the
/// argument is nonzero, wrapping that argument.
#[verifier::external_body]
fn nz_u32_new(v: u32) -> (r: Option<NzU32>)
    ensures
        r is Some <==> v != 0,
        r matches Some(n) ==> nz_u32_value(n) == v,
{
    match core::num::NonZeroU32::new(v) {
        Some(raw) => Some(NzU32 { raw }),
        None => None,
    }
}

/// Relies on `core::num::NonZeroU32::get`: returns the wrapped integer,
/// which the type guarantees is never zero.
#[verifier::external_body]
fn nz_u32_get(n: NzU32) -> (r: u32)
    ensures
        r == nz_u32_value(n),
        r != 0,
{
    n.raw.get()
}

/// The generation a slot advances to when it is reused: the successor of
/// `g`, wrapping back to the first generation after the largest one so that
/// the counter never becomes zero.
pub open spec fn next_generation_value(g: u32) -> u32 {
    if g == u32::MAX {
        1u32
    } else {
        (g + 1) as u32
    }
}

/// A reused slot never repeats the generation it just held: the successor
/// of a generation differs from it and is itself a valid (positive)
/// generation.
pub proof fn lemma_next_generation_fresh(g: u32)
    ensures
        next_generation_value(g) != g,
        next_generation_value(g) >= 1,
{
}

/// A per-slot counter distinguishing successive occupants of the same slot;
/// the basis of handle validity.
///
/// A generation is strictly positive: zero is reserved as an invalid
/// sentinel, so the counter is stored as a `NonZeroU32`. The nonzero niche
/// also keeps `Option<Index>` the same size as `Index` itself.
#[derive(Clone, Copy, Debug, Hash, Ord)]
pub struct Generation {
    raw: NzU32,
}

impl View for Generation {
    type V = u32;

    closed spec fn view(&self) -> u32 {
        nz_u32_value(self.raw)
    }
}

impl Generation {
    /// The generation a brand-new slot starts at.
    pub fn first() -> (g: Generation)
        ensures
            g@ == 1,
    {
        Generation::from_u32(1)
    }

    /// The generation that follows this one.
    pub fn next(self) -> (g: Generation)
        ensures
            g@ == next_generation_value(self@),
    {
        let cur = nz_u32_get(self.raw);
        let succ: u32 = if cur == u32::MAX {
            1
        } else {
            cur + 1
        };
        Generation { raw: nz_u32_new(succ).unwrap() }
    }

    /// Wrap a raw counter value. Zero is not a generation.
    pub fn from_u32(v: u32) -> (g: Generation)
        requires
            v != 0,
        ensures
            g@ == v,
    {
        Generation { raw: nz_u32_new(v).unwrap() }
    }

    /// The raw counter value.
    pub fn to_u32(self) -> (r: u32)
        ensures
            r == self@,
    {
        nz_u32_get(self.raw)
    }
}

impl PartialEq for Generation {
    fn eq(&self, other: &Generation) -> bool {
        nz_u32_get(self.raw) == nz_u32_get(other.raw)
    }
}

impl vstd::std_specs::cmp::PartialEqSpecImpl for Generation {
    open spec fn obeys_eq_spec() -> bool {
        true
    }

    open spec fn eq_spec(&self, other: &Generation) -> bool {
        self@ == other@
    }
}

impl Eq for Generation {
}

impl PartialOrd for Generation {
    fn partial_cmp(&self, other: &Generation) -> Option<core::cmp::Ordering> {
        let a = nz_u32_get(self.raw);
        let b = nz_u32_get(other.raw);
        if a < b {
            Some(core::cmp::Ordering::Less)
        } else if a == b {
            Some(core::cmp::Ordering::Equal)
        } else {
            Some(core::cmp::Ordering::Greater)
        }
    }
}

impl vstd::std_specs::cmp::PartialOrdSpecImpl for Generation {
    open spec fn obeys_partial_cmp_spec() -> bool {
        true
    }

    open spec fn partial_cmp_spec(&self, other: &Generation) -> Option<core::cmp::Ordering> {
        if self@ < other@ {
            Some(core::cmp::Ordering::Less)
        } else if self@ == other@ {
            Some(core::cmp::Ordering::Equal)
        } else {
            Some(core::cmp::Ordering::Greater)
        }
    }
}

} // verus!
