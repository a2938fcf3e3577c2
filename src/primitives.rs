use vstd::prelude::*;

verus! {

/// Two to the power of 128: the weight of the high half of a 256-bit word.
pub open spec fn pow128() -> nat {
    0x1_0000_0000_0000_0000_0000_0000_0000_0000nat
}

/// The largest value a 256-bit word can hold, plus one.
pub open spec fn pow256() -> nat {
    pow128() * pow128()
}

/// An unsigned 256-bit integer, held as two 128-bit halves.
#[derive(Clone, Copy, Debug, PartialEq, Eq, Structural)]
pub struct U256 {
    pub hi: u128,
    pub lo: u128,
}

/// A 32-byte hash, held big-endian as two 128-bit halves.
#[derive(Clone, Copy, Debug, PartialEq, Eq, Structural)]
pub struct B256 {
    pub hi: u128,
    pub lo: u128,
}

/// A 20-byte account address, held big-endian as a 32-bit head and a 128-bit tail.
#[derive(Clone, Copy, Debug, PartialEq, Eq, Structural)]
pub struct Address {
    pub hi: u32,
    pub lo: u128,
}

impl U256 {
    /// The number this word denotes.
    pub open spec fn value(self) -> nat {
        self.hi as nat * pow128() + self.lo as nat
    }

    pub fn from_u64(n: u64) -> (r: U256)
        ensures
            r.value() == n as nat,
    {
        U256 { hi: 0, lo: n as u128 }
    }

    pub fn zero() -> (r: U256)
        ensures
            r.value() == 0,
    {
        U256 { hi: 0, lo: 0 }
    }

    /// `self <= other` as numbers.
    pub fn le(&self, other: &U256) -> (r: bool)
        ensures
            r == (self.value() <= other.value()),
    {
        proof {
            lemma_value_order(*self, *other);
        }
        self.hi < other.hi || (self.hi == other.hi && self.lo <= other.lo)
    }

    /// The sum, or `None` where it does not fit in 256 bits.
    pub fn checked_add(&self, other: &U256) -> (r: Option<U256>)
        ensures
            self.value() + other.value() < pow256() ==> r == Some(
                U256::from_value(self.value() + other.value()),
            ),
            self.value() + other.value() >= pow256() ==> r.is_none(),
            r matches Some(s) ==> s.value() == self.value() + other.value(),
    {
        let max: u128 = u128::MAX;
        let carry: u128 = if self.lo > max - other.lo { 1 } else { 0 };
        let lo: u128 = if carry == 1 {
            self.lo - (max - other.lo) - 1
        } else {
            self.lo + other.lo
        };
        proof {
            assert(lo as nat + carry as nat * pow128() == self.lo as nat + other.lo as nat);
            lemma_sum_shape(*self, *other, carry as nat, lo as nat);
        }
        if self.hi > max - other.hi || (self.hi == max - other.hi && carry == 1) {
            proof {
                lemma_halves_overflow(self.hi as nat + other.hi as nat + carry as nat, lo as nat);
            }
            None
        } else {
            let hi: u128 = self.hi + other.hi + carry;
            let r = U256 { hi, lo };
            proof {
                lemma_from_value_of(r);
            }
            Some(r)
        }
    }

    /// `self - other`, where `other <= self`.
    pub fn sub(&self, other: &U256) -> (r: U256)
        requires
            other.value() <= self.value(),
        ensures
            r.value() == self.value() - other.value(),
    {
        proof {
            lemma_value_order(*self, *other);
        }
        let borrow: u128 = if self.lo < other.lo { 1 } else { 0 };
        let lo: u128 = if borrow == 1 {
            u128::MAX - (other.lo - self.lo) + 1
        } else {
            self.lo - other.lo
        };
        let hi: u128 = self.hi - other.hi - borrow;
        let r = U256 { hi, lo };
        proof {
            assert(lo as nat == self.lo as nat + borrow as nat * pow128() - other.lo as nat);
            assert(r.value() == self.value() - other.value()) by (nonlinear_arith)
                requires
                    r.value() == hi as nat * pow128() + lo as nat,
                    self.value() == self.hi as nat * pow128() + self.lo as nat,
                    other.value() == other.hi as nat * pow128() + other.lo as nat,
                    hi as nat == self.hi as nat - other.hi as nat - borrow as nat,
                    lo as nat == self.lo as nat + borrow as nat * pow128() - other.lo as nat,
            ;
        }
        r
    }

    /// The word that denotes `v`, for `v < 2^256`.
    pub open spec fn from_value(v: nat) -> U256 {
        U256 { hi: (v / pow128()) as u128, lo: (v % pow128()) as u128 }
    }

    /// This word as a machine index, or `None` where it does not fit.
    pub fn to_usize(&self) -> (r: Option<usize>)
        ensures
            self.value() <= usize::MAX ==> r == Some(self.value() as usize),
            self.value() > usize::MAX ==> r.is_none(),
    {
        proof {
            lemma_value_order(*self, U256 { hi: 0, lo: usize::MAX as u128 });
        }
        if self.hi == 0 && self.lo <= usize::MAX as u128 {
            Some(self.lo as usize)
        } else {
            None
        }
    }
}

/// Words compare as the numbers they denote.
pub proof fn lemma_value_order(a: U256, b: U256)
    ensures
        (a.value() <= b.value()) == (a.hi < b.hi || (a.hi == b.hi && a.lo <= b.lo)),
        (a.value() == b.value()) == (a == b),
{
    let p = pow128();
    assert(p == 0x1_0000_0000_0000_0000_0000_0000_0000_0000nat);
    if a.hi < b.hi {
        assert((a.hi as nat * p + a.lo as nat) < (b.hi as nat * p + b.lo as nat)) by (nonlinear_arith)
            requires
                a.hi < b.hi,
                (a.lo as nat) < p,
        ;
    } else if a.hi > b.hi {
        assert((a.hi as nat * p + a.lo as nat) > (b.hi as nat * p + b.lo as nat)) by (nonlinear_arith)
            requires
                a.hi > b.hi,
                (b.lo as nat) < p,
        ;
    }
}

/// A word is recovered from the number it denotes.
pub proof fn lemma_from_value_of(a: U256)
    ensures
        U256::from_value(a.value()) == a,
{
    let p = pow128();
    assert(p > 0);
    vstd::arithmetic::div_mod::lemma_fundamental_div_mod_converse(
        a.value() as int,
        p as int,
        a.hi as int,
        a.lo as int,
    );
}

/// Every word denotes a number below `2^256`.
pub proof fn lemma_value_bound(a: U256)
    ensures
        a.value() < pow256(),
{
    let p = pow128();
    assert((a.hi as nat * p + a.lo as nat) < p * p) by (nonlinear_arith)
        requires
            (a.hi as nat) < p,
            (a.lo as nat) < p,
    ;
}

proof fn lemma_sum_shape(a: U256, b: U256, carry: nat, lo: nat)
    requires
        lo + carry * pow128() == a.lo as nat + b.lo as nat,
    ensures
        a.value() + b.value() == (a.hi as nat + b.hi as nat + carry) * pow128() + lo,
{
    assert(a.value() + b.value() == (a.hi as nat + b.hi as nat + carry) * pow128() + lo)
        by (nonlinear_arith)
        requires
            lo + carry * pow128() == a.lo as nat + b.lo as nat,
            a.value() == a.hi as nat * pow128() + a.lo as nat,
            b.value() == b.hi as nat * pow128() + b.lo as nat,
    ;
}

proof fn lemma_halves_overflow(h: nat, lo: nat)
    requires
        h >= pow128(),
    ensures
        h * pow128() + lo >= pow256(),
{
    assert(h * pow128() >= pow128() * pow128()) by (nonlinear_arith)
        requires
            h >= pow128(),
    ;
}

impl B256 {
    /// The hash whose 32 bytes are the big-endian bytes of `u`.
    pub fn from_u256(u: U256) -> (r: B256)
        ensures
            r == B256::of_u256(u),
    {
        B256 { hi: u.hi, lo: u.lo }
    }

    pub open spec fn of_u256(u: U256) -> B256 {
        B256 { hi: u.hi, lo: u.lo }
    }
}

} // verus!
