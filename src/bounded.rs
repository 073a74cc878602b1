//! Conversion of `i64` byte counts, with units up to EiB: ZiB and YiB do not
//! fit in the domain and are refused.

use vstd::prelude::*;

use crate::decimal::{is_i64_text, limbs_value, parse_i64, places, rendered, rounded_quotient, signed_value};
use crate::error::SizeError;
use crate::unit::{auto_ordinal, chosen_unit, lemma_auto_small, lemma_divisor_bound, lemma_pow1024_values, Unit};
use vstd::string::StringExecFns;

verus! {

/// The largest unit of this domain.
pub open spec fn top() -> nat {
    6
}

/// `m` as a sign and little-endian base 2^32 limbs of its absolute value.
fn signed_limbs(m: i64) -> (r: (bool, Vec<u32>))
    ensures
        (if r.0 {
            -limbs_value(r.1@)
        } else {
            limbs_value(r.1@) as int
        }) == m,
{
    let negative = m < 0;
    let a: u64 = if negative {
        (-(m as i128)) as u64
    } else {
        m as u64
    };
    let lo = (a % 4294967296) as u32;
    let hi = (a / 4294967296) as u32;
    let limbs = vec![lo, hi];
    proof {
        let v = limbs@;
        assert(v.drop_first() =~= seq![hi]);
        assert(v.drop_first().drop_first() =~= Seq::<u32>::empty());
        reveal_with_fuel(limbs_value, 3);
        assert(limbs_value(v) == lo + 4294967296 * hi);
        assert(a == lo + 4294967296 * hi);
    }
    (negative, limbs)
}

/// The divisor of `unit` in this domain; ZiB and YiB have none.
pub fn divisor(unit: Unit) -> (r: Result<i64, SizeError>)
    ensures
        r is Ok <==> unit.ordinal() <= top(),
        r matches Ok(d) ==> d == unit.divisor_spec(),
        r matches Err(e) ==> e == SizeError::UnsupportedUnit(unit),
{
    proof {
        lemma_pow1024_values();
    }
    match unit {
        Unit::ZiB | Unit::YiB => Err(SizeError::UnsupportedUnit(unit)),
        _ => Ok(unit.divisor() as i64),
    }
}

/// The unit chosen for `m` when none is asked for: the largest whose divisor
/// `m` reaches, Bytes below 1024, and EiB for all that reach EiB.
pub fn auto_unit(m: i64) -> (r: Unit)
    ensures
        r.ordinal() == auto_ordinal(m as int, top()),
        r == Unit::at(auto_ordinal(m as int, top())),
{
    if m < 0 {
        proof {
            lemma_auto_small(m as int, top());
        }
        Unit::Bytes
    } else {
        Unit::select(m as u128, Unit::EiB)
    }
}

/// The unit asked for, or else the one selected for `m`.
pub fn resolve_unit(requested: Option<Unit>, m: i64) -> (r: Unit)
    ensures
        r == chosen_unit(requested, m as int, top()),
{
    match requested {
        Some(u) => u,
        None => auto_unit(m),
    }
}

/// The line for `m` in `unit`: `m` over the unit's divisor, rounded, then a
/// space and the unit's name; an error for a unit beyond EiB.
pub fn convert(unit: Unit, m: i64) -> (r: Result<String, SizeError>)
    ensures
        r is Ok <==> unit.ordinal() <= top(),
        r matches Ok(s) ==> s@ == rendered(m as int, unit),
        r matches Ok(s) ==> (m == unit.divisor_spec() ==> s@ == seq!['1', ' '] + unit.display_name()),
        r matches Err(e) ==> e == SizeError::UnsupportedUnit(unit),
{
    let d = match divisor(unit) {
        Ok(d) => d,
        Err(e) => return Err(e),
    };
    proof {
        lemma_divisor_bound(unit);
    }
    let p: i64 = if m > d {
        2
    } else {
        3
    };
    let (negative, limbs) = signed_limbs(m);
    let mut text = rounded_quotient(negative, &limbs, d as u128, p);
    text.append(" ");
    let name = unit.name();
    text.append(name.as_str());
    proof {
        reveal_strlit(" ");
    }
    assert(text@ =~= rendered(m as int, unit));
    assert(m == unit.divisor_spec() ==> text@ =~= seq!['1', ' '] + unit.display_name());
    Ok(text)
}

/// Reads the magnitude from `text` as an `i64` and renders it in the unit asked
/// for, or in the one selected for it.
pub fn human_size(text: &str, requested: Option<Unit>) -> (r: Result<String, SizeError>)
    ensures
        !is_i64_text(text@) ==> (r is Err && r->Err_0 is Parse),
        is_i64_text(text@) ==> {
            let m = signed_value(text@);
            let unit = chosen_unit(requested, m, top());
            if unit.ordinal() <= top() {
                r is Ok && r->Ok_0@ == rendered(m, unit)
            } else {
                r == Err::<String, SizeError>(SizeError::UnsupportedUnit(unit))
            }
        },
{
    let m = match parse_i64(text) {
        Ok(m) => m,
        Err(message) => return Err(SizeError::Parse(message)),
    };
    let unit = resolve_unit(requested, m);
    convert(unit, m)
}

} // verus!
