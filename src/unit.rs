//! The nine binary-prefix units, their names, codes and divisors.

use vstd::prelude::*;

verus! {

/// Bytes in one KiB.
pub const ONE_KIB: u128 = 1024;

/// Bytes in one MiB.
pub const ONE_MIB: u128 = ONE_KIB * 1024;

/// Bytes in one GiB.
pub const ONE_GIB: u128 = ONE_MIB * 1024;

/// Bytes in one TiB.
pub const ONE_TIB: u128 = ONE_GIB * 1024;

/// Bytes in one PiB.
pub const ONE_PIB: u128 = ONE_TIB * 1024;

/// Bytes in one EiB.
pub const ONE_EIB: u128 = ONE_PIB * 1024;

/// Bytes in one ZiB.
pub const ONE_ZIB: u128 = ONE_EIB * 1024;

/// Bytes in one YiB.
pub const ONE_YIB: u128 = ONE_ZIB * 1024;

/// A binary-prefix unit of size: each step up is a factor of 1024.
#[derive(PartialEq, Eq, Structural, Clone, Copy, Debug)]
pub enum Unit {
    Bytes,
    KiB,
    MiB,
    GiB,
    TiB,
    PiB,
    EiB,
    ZiB,
    YiB,
}

/// 1024 raised to the power `k`.
pub open spec fn pow1024(k: nat) -> nat
    decreases k,
{
    if k == 0 {
        1
    } else {
        1024 * pow1024((k - 1) as nat)
    }
}

/// The ordinal of the largest unit not above `top` whose divisor is at most `m`;
/// 0 when `m` is below 1024.
pub open spec fn auto_ordinal(m: int, top: nat) -> nat
    decreases top,
{
    if top == 0 {
        0
    } else if m >= pow1024(top) {
        top
    } else {
        auto_ordinal(m, (top - 1) as nat)
    }
}

/// The powers of 1024 that the scale uses, as numbers.
pub proof fn lemma_pow1024_values()
    ensures
        pow1024(0) == 1,
        pow1024(1) == ONE_KIB,
        pow1024(2) == ONE_MIB,
        pow1024(3) == ONE_GIB,
        pow1024(4) == ONE_TIB,
        pow1024(5) == ONE_PIB,
        pow1024(6) == ONE_EIB,
        pow1024(7) == ONE_ZIB,
        pow1024(8) == ONE_YIB,
{
    reveal_with_fuel(pow1024, 9);
}

/// The unit used for magnitude `m`: the one asked for, else the one selected
/// with `top` as the largest.
pub open spec fn chosen_unit(requested: Option<Unit>, m: int, top: nat) -> Unit {
    match requested {
        Some(u) => u,
        None => Unit::at(auto_ordinal(m, top)),
    }
}

/// Every divisor of the scale is at most YiB's.
pub proof fn lemma_divisor_bound(u: Unit)
    ensures
        1 <= u.divisor_spec() <= ONE_YIB,
{
    lemma_pow1024_values();
}

/// Every power above the zeroth is at least 1024.
pub proof fn lemma_pow1024_at_least(k: nat)
    requires
        k >= 1,
    ensures
        pow1024(k) >= 1024,
    decreases k,
{
    if k > 1 {
        lemma_pow1024_at_least((k - 1) as nat);
    } else {
        reveal_with_fuel(pow1024, 2);
    }
}

/// Below 1024, selection gives Bytes whatever the top.
pub proof fn lemma_auto_small(m: int, top: nat)
    requires
        m < 1024,
    ensures
        auto_ordinal(m, top) == 0,
    decreases top,
{
    if top > 0 {
        lemma_pow1024_at_least(top);
        lemma_auto_small(m, (top - 1) as nat);
    }
}

/// Above the top of the scale, selection stops at the top.
pub proof fn lemma_auto_at_top(m: int, top: nat)
    requires
        m >= pow1024(top),
    ensures
        auto_ordinal(m, top) == top,
{
}

/// The unit of each one-letter code; a sequence that is no code has none.
pub open spec fn code_unit(s: Seq<char>) -> Option<Unit> {
    if s == seq!['k'] {
        Some(Unit::KiB)
    } else if s == seq!['m'] {
        Some(Unit::MiB)
    } else if s == seq!['g'] {
        Some(Unit::GiB)
    } else if s == seq!['t'] {
        Some(Unit::TiB)
    } else if s == seq!['p'] {
        Some(Unit::PiB)
    } else if s == seq!['e'] {
        Some(Unit::EiB)
    } else if s == seq!['z'] {
        Some(Unit::ZiB)
    } else if s == seq!['y'] {
        Some(Unit::YiB)
    } else {
        None
    }
}

impl Unit {
    /// Position of the unit in the scale: Bytes is 0, YiB is 8.
    pub open spec fn ordinal(self) -> nat {
        match self {
            Unit::Bytes => 0,
            Unit::KiB => 1,
            Unit::MiB => 2,
            Unit::GiB => 3,
            Unit::TiB => 4,
            Unit::PiB => 5,
            Unit::EiB => 6,
            Unit::ZiB => 7,
            Unit::YiB => 8,
        }
    }

    /// The unit at position `k` of the scale (`k` at most 8).
    pub open spec fn at(k: nat) -> Unit {
        if k == 0 {
            Unit::Bytes
        } else if k == 1 {
            Unit::KiB
        } else if k == 2 {
            Unit::MiB
        } else if k == 3 {
            Unit::GiB
        } else if k == 4 {
            Unit::TiB
        } else if k == 5 {
            Unit::PiB
        } else if k == 6 {
            Unit::EiB
        } else if k == 7 {
            Unit::ZiB
        } else {
            Unit::YiB
        }
    }

    /// Number of bytes in one of this unit: 1024 to the power of its ordinal.
    pub open spec fn divisor_spec(self) -> nat {
        pow1024(self.ordinal())
    }

    /// The name shown after a value.
    pub open spec fn display_name(self) -> Seq<char> {
        match self {
            Unit::Bytes => seq!['b', 'y', 't', 'e', 's'],
            Unit::KiB => seq!['K', 'i', 'B'],
            Unit::MiB => seq!['M', 'i', 'B'],
            Unit::GiB => seq!['G', 'i', 'B'],
            Unit::TiB => seq!['T', 'i', 'B'],
            Unit::PiB => seq!['P', 'i', 'B'],
            Unit::EiB => seq!['E', 'i', 'B'],
            Unit::ZiB => seq!['Z', 'i', 'B'],
            Unit::YiB => seq!['Y', 'i', 'B'],
        }
    }

    /// The unit at position `k` of the scale.
    pub fn from_ordinal(k: u32) -> (r: Unit)
        requires
            k <= 8,
        ensures
            r == Unit::at(k as nat),
            r.ordinal() == k,
    {
        if k == 0 {
            Unit::Bytes
        } else if k == 1 {
            Unit::KiB
        } else if k == 2 {
            Unit::MiB
        } else if k == 3 {
            Unit::GiB
        } else if k == 4 {
            Unit::TiB
        } else if k == 5 {
            Unit::PiB
        } else if k == 6 {
            Unit::EiB
        } else if k == 7 {
            Unit::ZiB
        } else {
            Unit::YiB
        }
    }

    /// Position of the unit in the scale: Bytes is 0, YiB is 8.
    pub fn index(&self) -> (r: u32)
        ensures
            r == self.ordinal(),
    {
        match self {
            Unit::Bytes => 0,
            Unit::KiB => 1,
            Unit::MiB => 2,
            Unit::GiB => 3,
            Unit::TiB => 4,
            Unit::PiB => 5,
            Unit::EiB => 6,
            Unit::ZiB => 7,
            Unit::YiB => 8,
        }
    }

    /// Number of bytes in one of this unit.
    pub fn divisor(&self) -> (r: u128)
        ensures
            r == self.divisor_spec(),
    {
        proof {
            lemma_pow1024_values();
        }
        match self {
            Unit::Bytes => 1,
            Unit::KiB => ONE_KIB,
            Unit::MiB => ONE_MIB,
            Unit::GiB => ONE_GIB,
            Unit::TiB => ONE_TIB,
            Unit::PiB => ONE_PIB,
            Unit::EiB => ONE_EIB,
            Unit::ZiB => ONE_ZIB,
            Unit::YiB => ONE_YIB,
        }
    }

    /// The unit that a one-letter code asks for: "k", "m", "g", "t", "p", "e",
    /// "z" or "y", lower case only.
    pub fn from_code(s: &str) -> (r: Option<Unit>)
        ensures
            r == code_unit(s@),
    {
        broadcast use vstd::string::axiom_spec_iter, vstd::string::next_postcondition;

        let mut chars = s.chars();
        let first = chars.next();
        let second = chars.next();
        match (first, second) {
            (Some(c), None) => {
                assert(s@ =~= seq![c]);
                match c {
                    'k' => Some(Unit::KiB),
                    'm' => Some(Unit::MiB),
                    'g' => Some(Unit::GiB),
                    't' => Some(Unit::TiB),
                    'p' => Some(Unit::PiB),
                    'e' => Some(Unit::EiB),
                    'z' => Some(Unit::ZiB),
                    'y' => Some(Unit::YiB),
                    _ => None,
                }
            },
            _ => {
                assert(s@.len() != 1);
                None
            },
        }
    }

    /// The unit chosen for the magnitude `m` when none is asked for: the largest
    /// unit, up to `top`, whose divisor `m` reaches, and Bytes below 1024.
    pub fn select(m: u128, top: Unit) -> (r: Unit)
        ensures
            r.ordinal() == auto_ordinal(m as int, top.ordinal()),
            r == Unit::at(auto_ordinal(m as int, top.ordinal())),
    {
        let mut k: u32 = top.index();
        while k > 0 && m < Unit::from_ordinal(k).divisor()
            invariant
                k <= top.ordinal(),
                auto_ordinal(m as int, top.ordinal()) == auto_ordinal(m as int, k as nat),
            decreases k,
        {
            k = k - 1;
        }
        Unit::from_ordinal(k)
    }

    /// The name shown after a value: "bytes", "KiB", ... "YiB".
    pub fn name(&self) -> (r: String)
        ensures
            r@ == self.display_name(),
    {
        let s: &str = match self {
            Unit::Bytes => "bytes",
            Unit::KiB => "KiB",
            Unit::MiB => "MiB",
            Unit::GiB => "GiB",
            Unit::TiB => "TiB",
            Unit::PiB => "PiB",
            Unit::EiB => "EiB",
            Unit::ZiB => "ZiB",
            Unit::YiB => "YiB",
        };
        proof {
            reveal_strlit("bytes");
            reveal_strlit("KiB");
            reveal_strlit("MiB");
            reveal_strlit("GiB");
            reveal_strlit("TiB");
            reveal_strlit("PiB");
            reveal_strlit("EiB");
            reveal_strlit("ZiB");
            reveal_strlit("YiB");
        }
        let r = s.to_owned();
        assert(r@ =~= self.display_name());
        r
    }
}

} // verus!
