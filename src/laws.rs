//! Properties that hold of unit selection and rendering for every input.

use vstd::prelude::*;

use crate::bounded;
use crate::decimal::{places, rendered};
use crate::unbounded;
use crate::unit::{auto_ordinal, chosen_unit, lemma_auto_small, pow1024, Unit};

verus! {

/// Every power of 1024 is positive.
pub proof fn lemma_pow1024_positive(k: nat)
    ensures
        pow1024(k) >= 1,
    decreases k,
{
    if k > 0 {
        lemma_pow1024_positive((k - 1) as nat);
    }
}

/// Higher powers of 1024 are larger.
pub proof fn lemma_pow1024_increasing(j: nat, k: nat)
    requires
        j < k,
    ensures
        pow1024(j) < pow1024(k),
    decreases k,
{
    lemma_pow1024_positive((k - 1) as nat);
    if j < k - 1 {
        lemma_pow1024_increasing(j, (k - 1) as nat);
    }
}

/// Selection never goes past the top unit.
pub proof fn lemma_auto_bounded(m: int, top: nat)
    ensures
        auto_ordinal(m, top) <= top,
    decreases top,
{
    if top > 0 {
        lemma_auto_bounded(m, (top - 1) as nat);
    }
}

/// Magnitudes below 1024 are shown in bytes in both domains; 0 and 1, which do
/// not exceed the divisor 1, keep 3 fractional digits.
pub proof fn law_small_magnitudes_in_bytes(m: int)
    requires
        0 <= m < 1024,
    ensures
        chosen_unit(None, m, bounded::top()) == Unit::Bytes,
        chosen_unit(None, m, unbounded::top()) == Unit::Bytes,
        m <= 1 ==> places(m, Unit::Bytes.divisor_spec()) == 3,
{
    lemma_auto_small(m, bounded::top());
    lemma_auto_small(m, unbounded::top());
}

/// A magnitude equal to a unit's divisor selects that unit, not the one below:
/// the comparison at each boundary is strict.
pub proof fn law_divisor_selects_its_unit(u: Unit, top: nat)
    requires
        u.ordinal() <= top,
    ensures
        auto_ordinal(u.divisor_spec() as int, top) == u.ordinal(),
        chosen_unit(None, u.divisor_spec() as int, top) == u,
    decreases top,
{
    if top > u.ordinal() {
        lemma_pow1024_increasing(u.ordinal(), top);
        law_divisor_selects_its_unit(u, (top - 1) as nat);
    }
}

/// Every magnitude from a unit's divisor up to just below the next one selects
/// that unit.
pub proof fn law_selection_between_boundaries(m: int, k: nat, top: nat)
    requires
        1 <= k <= top,
        pow1024(k) <= m < pow1024(k + 1),
    ensures
        auto_ordinal(m, top) == k,
    decreases top,
{
    if top > k {
        if k + 1 < top {
            lemma_pow1024_increasing(k + 1, top);
        }
        law_selection_between_boundaries(m, k, (top - 1) as nat);
    }
}

/// A requested unit is used whatever the magnitude, and the rendered line is
/// in that unit.
pub proof fn law_requested_unit_wins(u: Unit, m: int, top: nat)
    ensures
        chosen_unit(Some(u), m, top) == u,
        rendered(m, chosen_unit(Some(u), m, top)) == rendered(m, u),
{
}

/// In the unbounded domain every magnitude from YiB's divisor up is shown in
/// YiB, and no unit above YiB is ever selected.
pub proof fn law_unbounded_ceiling(m: int)
    ensures
        m >= Unit::YiB.divisor_spec() ==> chosen_unit(None, m, unbounded::top()) == Unit::YiB,
        auto_ordinal(m, unbounded::top()) <= Unit::YiB.ordinal(),
{
    lemma_auto_bounded(m, unbounded::top());
}

/// In the bounded domain no unit above EiB is ever selected.
pub proof fn law_bounded_ceiling(m: int)
    ensures
        m >= Unit::EiB.divisor_spec() ==> chosen_unit(None, m, bounded::top()) == Unit::EiB,
        auto_ordinal(m, bounded::top()) <= Unit::EiB.ordinal(),
{
    lemma_auto_bounded(m, bounded::top());
}

} // verus!
