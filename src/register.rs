//! The machine's five registers and the bank that holds them.

use vstd::prelude::*;
use crate::text::chars_of;

verus! {

/// One of the machine's registers.
#[derive(Clone, Copy, Debug, PartialEq, Eq, Hash, Structural)]
pub enum Register {
    /// object distance in horizontal direction
    H,
    /// object distance in vertical direction
    V,
    /// general purpose register, the accumulator
    A,
    /// motor register: the crab walks right if positive, left if negative
    M,
    /// rotation v0 <1 ^2 >3
    R,
}

/// The register that a one-letter name stands for.
pub open spec fn register_of(w: Seq<char>) -> Option<Register> {
    if w.len() != 1 {
        None
    } else if w[0] == 'H' {
        Some(Register::H)
    } else if w[0] == 'V' {
        Some(Register::V)
    } else if w[0] == 'A' {
        Some(Register::A)
    } else if w[0] == 'M' {
        Some(Register::M)
    } else if w[0] == 'R' {
        Some(Register::R)
    } else {
        None
    }
}

/// The value of every register; all start at zero.
#[derive(Clone, Copy, Debug, PartialEq, Eq, Structural)]
pub struct Registers {
    pub h: i32,
    pub v: i32,
    pub a: i32,
    pub m: i32,
    pub r: i32,
}

impl Registers {
    /// The value held by `reg`.
    pub open spec fn value(self, reg: Register) -> i32 {
        match reg {
            Register::H => self.h,
            Register::V => self.v,
            Register::A => self.a,
            Register::M => self.m,
            Register::R => self.r,
        }
    }

    /// The bank after a write of `val` to `reg` by the generic write path,
    /// which leaves the facing register alone.
    pub open spec fn written(self, reg: Register, val: i32) -> Registers {
        match reg {
            Register::H => Registers { h: val, ..self },
            Register::V => Registers { v: val, ..self },
            Register::A => Registers { a: val, ..self },
            Register::M => Registers { m: val, ..self },
            Register::R => self,
        }
    }

    pub open spec fn zeroed() -> Registers {
        Registers { h: 0, v: 0, a: 0, m: 0, r: 0 }
    }

    /// A bank with every register at zero.
    pub fn new() -> (r: Registers)
        ensures
            r == Registers::zeroed(),
    {
        Registers { h: 0, v: 0, a: 0, m: 0, r: 0 }
    }

    /// The value held by `reg`.
    pub fn get(&self, reg: Register) -> (r: i32)
        ensures
            r == self.value(reg),
    {
        match reg {
            Register::H => self.h,
            Register::V => self.v,
            Register::A => self.a,
            Register::M => self.m,
            Register::R => self.r,
        }
    }

    /// Writes `val` to `reg`, unless `reg` is the facing register.
    pub fn set(&mut self, reg: Register, val: i32)
        ensures
            *final(self) == old(self).written(reg, val),
    {
        match reg {
            Register::H => self.h = val,
            Register::V => self.v = val,
            Register::A => self.a = val,
            Register::M => self.m = val,
            Register::R => {},
        }
    }
}

impl Register {
    /// The register named by `s` (one of `H`, `V`, `A`, `M`, `R`).
    pub fn parse(s: &str) -> (r: Option<Register>)
        ensures
            r == register_of(s@),
    {
        let cs = chars_of(s);
        proof {
            assert(cs@.subrange(0, cs@.len() as int) =~= s@);
        }
        register_at(&cs, 0, cs.len())
    }
}

/// The register named by the characters of `s` from `a` up to `b`.
pub fn register_at(s: &Vec<char>, a: usize, b: usize) -> (r: Option<Register>)
    requires
        a <= b <= s.len(),
    ensures
        r == register_of(s@.subrange(a as int, b as int)),
{
    if b - a != 1 {
        return None;
    }
    let c = s[a];
    if c == 'H' {
        Some(Register::H)
    } else if c == 'V' {
        Some(Register::V)
    } else if c == 'A' {
        Some(Register::A)
    } else if c == 'M' {
        Some(Register::M)
    } else if c == 'R' {
        Some(Register::R)
    } else {
        None
    }
}

impl std::str::FromStr for Register {
    type Err = String;

    /// `Register::parse`, failing with a message where `s` names no register.
    fn from_str(s: &str) -> (r: Result<Register, String>)
        ensures
            match r {
                Ok(x) => register_of(s@) == Some(x),
                Err(_) => register_of(s@) is None,
            },
    {
        match Register::parse(s) {
            Some(r) => Ok(r),
            None => Err("not a register".to_owned()),
        }
    }
}

} // verus!
