//! Conversion of arbitrary-precision non-negative byte counts, with units up to YiB.

use vstd::prelude::*;

use crate::decimal::{
    digits_value, is_unsigned_text, limbs_value, parse_unsigned, places, rendered,
    rounded_quotient, unsigned_body,
};
use crate::error::SizeError;
use crate::unit::{
    auto_ordinal, chosen_unit, lemma_auto_at_top, lemma_divisor_bound, lemma_pow1024_values,
    Unit,
};
use vstd::string::StringExecFns;

verus! {

/// A non-negative integer of any size, kept as little-endian base 2^32 limbs.
pub struct Magnitude {
    limbs: Vec<u32>,
}

impl View for Magnitude {
    type V = nat;

    closed spec fn view(&self) -> nat {
        limbs_value(self.limbs@)
    }
}

/// 2^(32k): the weight of the limb at index `k`.
pub open spec fn limb_weight(k: nat) -> nat
    decreases k,
{
    if k == 0 {
        1
    } else {
        4294967296 * limb_weight((k - 1) as nat)
    }
}

/// The limbs past the first `k` are worth the value above `2^(32k)`; the first
/// `k` alone are worth less than that.
proof fn lemma_limbs_split(v: Seq<u32>, k: nat)
    requires
        k <= v.len(),
    ensures
        limbs_value(v) == limbs_value(v.subrange(0, k as int)) + limb_weight(k) * limbs_value(v.subrange(k as int, v.len() as int)),
    decreases k,
{
    if k > 0 {
        let t = v.drop_first();
        let a = limbs_value(t.subrange(0, k - 1));
        let w = limb_weight((k - 1) as nat);
        let rest = limbs_value(t.subrange(k - 1, t.len() as int));
        lemma_limbs_split(t, (k - 1) as nat);
        assert(t.subrange(0, k - 1) =~= v.subrange(0, k as int).drop_first());
        assert(t.subrange(k - 1, t.len() as int) =~= v.subrange(k as int, v.len() as int));
        assert(limbs_value(v.subrange(0, k as int)) == v[0] + 4294967296 * a);
        assert(limb_weight(k) == 4294967296 * w);
        assert(limbs_value(v) == v[0] + 4294967296 * limbs_value(t));
        assert(limbs_value(t) == a + w * rest);
        assert(v[0] + 4294967296 * (a + w * rest) == (v[0] + 4294967296 * a) + (4294967296 * w)
            * rest) by (nonlinear_arith);
        assert(limbs_value(v) == limbs_value(v.subrange(0, k as int)) + limb_weight(k) * limbs_value(
            v.subrange(k as int, v.len() as int),
        ));
    } else {
        assert(v.subrange(0, 0) =~= Seq::<u32>::empty());
        assert(v.subrange(0, v.len() as int) =~= v);
        assert(limbs_value(v.subrange(0, 0)) == 0);
        assert(limb_weight(0) == 1);
    }
}

/// Limbs that hold a non-zero limb are worth at least 1; all-zero limbs are worth 0.
proof fn lemma_limbs_zero(v: Seq<u32>)
    ensures
        (forall|i: int| 0 <= i < v.len() ==> v[i] == 0) ==> limbs_value(v) == 0,
        (exists|i: int| 0 <= i < v.len() && v[i] != 0) ==> limbs_value(v) >= 1,
    decreases v.len(),
{
    if v.len() > 0 {
        lemma_limbs_zero(v.drop_first());
        if exists|i: int| 0 <= i < v.len() && v[i] != 0 {
            let i = choose|i: int| 0 <= i < v.len() && v[i] != 0;
            if i > 0 {
                assert(v.drop_first()[i - 1] != 0);
            }
        }
        if forall|i: int| 0 <= i < v.len() ==> v[i] == 0 {
            assert(forall|i: int| 0 <= i < v.drop_first().len() ==> v.drop_first()[i] == v[i + 1]);
        }
    }
}

impl Magnitude {
    /// Reads a decimal integer: an optional '+', then a digit, then digits and
    /// underscores, which count for nothing.
    pub fn parse(text: &str) -> (r: Result<Magnitude, SizeError>)
        ensures
            r is Ok <==> is_unsigned_text(text@),
            r is Ok ==> r->Ok_0@ == digits_value(unsigned_body(text@)),
            r matches Err(e) ==> e is Parse,
    {
        match parse_unsigned(text) {
            Ok(limbs) => Ok(Magnitude { limbs }),
            Err(message) => Err(SizeError::Parse(message)),
        }
    }

    /// The value as a `u128` when it is below 2^96, else nothing.
    pub fn low_value(&self) -> (r: Option<u128>)
        ensures
            r matches Some(x) ==> x == self@ && x < 0x1000000000000000000000000u128,
            r is None ==> self@ >= 0x1000000000000000000000000u128,
    {
        let n = self.limbs.len();
        let mut i: usize = 3;
        while i < n
            invariant
                n == self.limbs@.len(),
                3 <= i,
                forall|j: int| 3 <= j < i && j < n ==> self.limbs@[j] == 0,
            decreases n - i,
        {
            if self.limbs[i] != 0 {
                proof {
                    let v = self.limbs@;
                    lemma_limbs_split(v, 3);
                    let rest = v.subrange(3, v.len() as int);
                    assert(rest[i - 3] != 0);
                    lemma_limbs_zero(rest);
                    reveal_with_fuel(limb_weight, 4);
                    let w = limb_weight(3);
                    let rv = limbs_value(rest);
                    assert(w * rv >= w) by (nonlinear_arith)
                        requires
                            rv >= 1,
                            w >= 0,
                    ;
                }
                return None;
            }
            i = i + 1;
        }
        let l0: u128 = if n > 0 { self.limbs[0] as u128 } else { 0 };
        let l1: u128 = if n > 1 { self.limbs[1] as u128 } else { 0 };
        let l2: u128 = if n > 2 { self.limbs[2] as u128 } else { 0 };
        proof {
            let v = self.limbs@;
            reveal_with_fuel(limbs_value, 4);
            reveal_with_fuel(limb_weight, 4);
            if n > 3 {
                lemma_limbs_split(v, 3);
                let rest = v.subrange(3, v.len() as int);
                lemma_limbs_zero(rest);
                let low = v.subrange(0, 3);
                assert(low.drop_first().drop_first().drop_first() =~= Seq::<u32>::empty());
                assert(low.drop_first().drop_first()[0] == v[2]);
                assert(low.drop_first()[0] == v[1]);
                assert(limbs_value(rest) == 0);
                let rv = limbs_value(rest);
                assert(limb_weight(3) * rv == 0) by (nonlinear_arith)
                    requires
                        rv == 0,
                ;
            } else if n == 3 {
                assert(v.drop_first().drop_first().drop_first() =~= Seq::<u32>::empty());
            } else if n == 2 {
                assert(v.drop_first().drop_first() =~= Seq::<u32>::empty());
            } else if n == 1 {
                assert(v.drop_first() =~= Seq::<u32>::empty());
            }
        }
        Some(l0 + l1 * 0x100000000 + l2 * 0x10000000000000000)
    }
}

/// The largest unit of this domain.
pub open spec fn top() -> nat {
    8
}

/// The unit chosen for `m` when none is asked for: the largest whose divisor
/// `m` reaches, Bytes below 1024, and YiB for all that reach YiB.
pub fn auto_unit(m: &Magnitude) -> (r: Unit)
    ensures
        r.ordinal() == auto_ordinal(m@ as int, top()),
        r == Unit::at(auto_ordinal(m@ as int, top())),
{
    match m.low_value() {
        Some(x) => Unit::select(x, Unit::YiB),
        None => {
            proof {
                lemma_pow1024_values();
                lemma_auto_at_top(m@ as int, 8);
            }
            Unit::YiB
        },
    }
}

/// The unit asked for, or else the one selected for `m`.
pub fn resolve_unit(requested: Option<Unit>, m: &Magnitude) -> (r: Unit)
    ensures
        r == chosen_unit(requested, m@ as int, top()),
{
    match requested {
        Some(u) => u,
        None => auto_unit(m),
    }
}

/// Fractional digits kept for `m` over the divisor `d`: 2 when `m` exceeds
/// `d`, else 3.
fn precision(m: &Magnitude, d: u128) -> (r: i64)
    requires
        d < 0x1000000000000000000000000u128,
    ensures
        r == places(m@ as int, d as nat),
{
    match m.low_value() {
        Some(x) => if x > d {
            2
        } else {
            3
        },
        None => 2,
    }
}

/// The line for `m` in `unit`: `m` over the unit's divisor, rounded, then a
/// space and the unit's name.
pub fn convert(unit: Unit, m: &Magnitude) -> (r: String)
    ensures
        r@ == rendered(m@ as int, unit),
        m@ == unit.divisor_spec() ==> r@ == seq!['1', ' '] + unit.display_name(),
{
    let d = unit.divisor();
    proof {
        lemma_divisor_bound(unit);
    }
    let p = precision(m, d);
    let mut text = rounded_quotient(false, &m.limbs, d, p);
    text.append(" ");
    let name = unit.name();
    text.append(name.as_str());
    proof {
        reveal_strlit(" ");
    }
    assert(text@ =~= rendered(m@ as int, unit));
    assert(m@ == unit.divisor_spec() ==> text@ =~= seq!['1', ' '] + unit.display_name());
    text
}

/// Reads the magnitude from `text` and renders it in the unit asked for, or in
/// the one selected for it.
pub fn human_size(text: &str, requested: Option<Unit>) -> (r: Result<String, SizeError>)
    ensures
        r is Ok <==> is_unsigned_text(text@),
        r matches Ok(s) ==> {
            let m = digits_value(unsigned_body(text@)) as int;
            s@ == rendered(m, chosen_unit(requested, m, top()))
        },
        r matches Err(e) ==> e is Parse,
{
    let m = match Magnitude::parse(text) {
        Ok(m) => m,
        Err(e) => return Err(e),
    };
    let unit = resolve_unit(requested, &m);
    Ok(convert(unit, &m))
}

} // verus!
