//! The registers of the machine and their operand widths.
use vstd::prelude::*;
use crate::text::{is_word, spelled};

verus! {

/// The size of an operand: one byte or one sixteen-bit word.
#[derive(Clone, Copy, Debug, PartialEq, Eq, Hash, Structural)]
pub enum Width {
    Byte,
    Word,
}

impl Width {
    /// Number of bytes an operand of this width occupies.
    pub open spec fn spec_bytes(self) -> nat {
        match self {
            Width::Byte => 1,
            Width::Word => 2,
        }
    }

    /// Number of bits an operand of this width holds.
    pub open spec fn spec_bits(self) -> nat {
        match self {
            Width::Byte => 8,
            Width::Word => 16,
        }
    }

    /// Number of bytes an operand of this width occupies.
    pub fn bytes(self) -> (n: usize)
        ensures
            n == self.spec_bytes(),
    {
        match self {
            Width::Byte => 1,
            Width::Word => 2,
        }
    }

    /// Number of bits an operand of this width holds.
    pub fn bits(self) -> (n: u16)
        ensures
            n == self.spec_bits(),
    {
        match self {
            Width::Byte => 8,
            Width::Word => 16,
        }
    }
}

/// An addressable register.
///
/// `R0` to `R15` are the general-purpose word registers and `Rb0` to `Rb15`
/// name the low byte of the word register with the same number. `Rip`, `Rfl`
/// and `Rinfo` are the instruction pointer, the flags and the
/// interrupt-information register; all three are word registers.
#[derive(Clone, Copy, Debug, PartialEq, Eq, Hash, Structural)]
pub enum Register {
    R0,
    R1,
    R2,
    R3,
    R4,
    R5,
    R6,
    R7,
    R8,
    R9,
    R10,
    R11,
    R12,
    R13,
    R14,
    R15,
    Rb0,
    Rb1,
    Rb2,
    Rb3,
    Rb4,
    Rb5,
    Rb6,
    Rb7,
    Rb8,
    Rb9,
    Rb10,
    Rb11,
    Rb12,
    Rb13,
    Rb14,
    Rb15,
    Rip,
    Rfl,
    Rinfo,
}

/// The register that `name` spells in assembly source, if any.
pub open spec fn register_named(name: Seq<u8>) -> Option<Register> {
    if spelled(name, "r0") {
        Some(Register::R0)
    } else if spelled(name, "r1") {
        Some(Register::R1)
    } else if spelled(name, "r2") {
        Some(Register::R2)
    } else if spelled(name, "r3") {
        Some(Register::R3)
    } else if spelled(name, "r4") {
        Some(Register::R4)
    } else if spelled(name, "r5") {
        Some(Register::R5)
    } else if spelled(name, "r6") {
        Some(Register::R6)
    } else if spelled(name, "r7") {
        Some(Register::R7)
    } else if spelled(name, "r8") {
        Some(Register::R8)
    } else if spelled(name, "r9") {
        Some(Register::R9)
    } else if spelled(name, "r10") {
        Some(Register::R10)
    } else if spelled(name, "r11") {
        Some(Register::R11)
    } else if spelled(name, "r12") {
        Some(Register::R12)
    } else if spelled(name, "r13") {
        Some(Register::R13)
    } else if spelled(name, "r14") {
        Some(Register::R14)
    } else if spelled(name, "r15") {
        Some(Register::R15)
    } else if spelled(name, "rb0") {
        Some(Register::Rb0)
    } else if spelled(name, "rb1") {
        Some(Register::Rb1)
    } else if spelled(name, "rb2") {
        Some(Register::Rb2)
    } else if spelled(name, "rb3") {
        Some(Register::Rb3)
    } else if spelled(name, "rb4") {
        Some(Register::Rb4)
    } else if spelled(name, "rb5") {
        Some(Register::Rb5)
    } else if spelled(name, "rb6") {
        Some(Register::Rb6)
    } else if spelled(name, "rb7") {
        Some(Register::Rb7)
    } else if spelled(name, "rb8") {
        Some(Register::Rb8)
    } else if spelled(name, "rb9") {
        Some(Register::Rb9)
    } else if spelled(name, "rb10") {
        Some(Register::Rb10)
    } else if spelled(name, "rb11") {
        Some(Register::Rb11)
    } else if spelled(name, "rb12") {
        Some(Register::Rb12)
    } else if spelled(name, "rb13") {
        Some(Register::Rb13)
    } else if spelled(name, "rb14") {
        Some(Register::Rb14)
    } else if spelled(name, "rb15") {
        Some(Register::Rb15)
    } else if spelled(name, "rip") {
        Some(Register::Rip)
    } else if spelled(name, "rfl") {
        Some(Register::Rfl)
    } else if spelled(name, "rinfo") {
        Some(Register::Rinfo)
    } else {
        None
    }
}

impl Register {
    /// The operand width that this register selects.
    pub open spec fn spec_width(self) -> Width {
        match self {
            Register::Rb0
            | Register::Rb1
            | Register::Rb2
            | Register::Rb3
            | Register::Rb4
            | Register::Rb5
            | Register::Rb6
            | Register::Rb7
            | Register::Rb8
            | Register::Rb9
            | Register::Rb10
            | Register::Rb11
            | Register::Rb12
            | Register::Rb13
            | Register::Rb14
            | Register::Rb15 => Width::Byte,
            _ => Width::Word,
        }
    }

    /// The byte that stands for this register in an encoded instruction:
    /// the register number for a word register, the number plus `0x10` for
    /// its low byte, and `0x20` to `0x22` for the special registers.
    #[verifier::opaque]
    pub open spec fn spec_code(self) -> u8 {
        match self {
            Register::R0 => 0x00,
            Register::R1 => 0x01,
            Register::R2 => 0x02,
            Register::R3 => 0x03,
            Register::R4 => 0x04,
            Register::R5 => 0x05,
            Register::R6 => 0x06,
            Register::R7 => 0x07,
            Register::R8 => 0x08,
            Register::R9 => 0x09,
            Register::R10 => 0x0a,
            Register::R11 => 0x0b,
            Register::R12 => 0x0c,
            Register::R13 => 0x0d,
            Register::R14 => 0x0e,
            Register::R15 => 0x0f,
            Register::Rb0 => 0x10,
            Register::Rb1 => 0x11,
            Register::Rb2 => 0x12,
            Register::Rb3 => 0x13,
            Register::Rb4 => 0x14,
            Register::Rb5 => 0x15,
            Register::Rb6 => 0x16,
            Register::Rb7 => 0x17,
            Register::Rb8 => 0x18,
            Register::Rb9 => 0x19,
            Register::Rb10 => 0x1a,
            Register::Rb11 => 0x1b,
            Register::Rb12 => 0x1c,
            Register::Rb13 => 0x1d,
            Register::Rb14 => 0x1e,
            Register::Rb15 => 0x1f,
            Register::Rip => 0x20,
            Register::Rfl => 0x21,
            Register::Rinfo => 0x22,
        }
    }

    /// The operand width that this register selects.
    #[verifier::when_used_as_spec(spec_width)]
    pub fn width(self) -> (w: Width)
        ensures
            w == self.spec_width(),
    {
        match self {
            Register::Rb0
            | Register::Rb1
            | Register::Rb2
            | Register::Rb3
            | Register::Rb4
            | Register::Rb5
            | Register::Rb6
            | Register::Rb7
            | Register::Rb8
            | Register::Rb9
            | Register::Rb10
            | Register::Rb11
            | Register::Rb12
            | Register::Rb13
            | Register::Rb14
            | Register::Rb15 => Width::Byte,
            _ => Width::Word,
        }
    }

    /// The byte that stands for this register in an encoded instruction.
    #[verifier::when_used_as_spec(spec_code)]
    pub fn code(self) -> (c: u8)
        ensures
            c == self.spec_code(),
    {
        reveal(Register::spec_code);
        match self {
            Register::R0 => 0x00,
            Register::R1 => 0x01,
            Register::R2 => 0x02,
            Register::R3 => 0x03,
            Register::R4 => 0x04,
            Register::R5 => 0x05,
            Register::R6 => 0x06,
            Register::R7 => 0x07,
            Register::R8 => 0x08,
            Register::R9 => 0x09,
            Register::R10 => 0x0a,
            Register::R11 => 0x0b,
            Register::R12 => 0x0c,
            Register::R13 => 0x0d,
            Register::R14 => 0x0e,
            Register::R15 => 0x0f,
            Register::Rb0 => 0x10,
            Register::Rb1 => 0x11,
            Register::Rb2 => 0x12,
            Register::Rb3 => 0x13,
            Register::Rb4 => 0x14,
            Register::Rb5 => 0x15,
            Register::Rb6 => 0x16,
            Register::Rb7 => 0x17,
            Register::Rb8 => 0x18,
            Register::Rb9 => 0x19,
            Register::Rb10 => 0x1a,
            Register::Rb11 => 0x1b,
            Register::Rb12 => 0x1c,
            Register::Rb13 => 0x1d,
            Register::Rb14 => 0x1e,
            Register::Rb15 => 0x1f,
            Register::Rip => 0x20,
            Register::Rfl => 0x21,
            Register::Rinfo => 0x22,
        }
    }

    /// Looks a register up by the name it has in assembly source.
    pub fn from_name(name: &[u8]) -> (r: Option<Register>)
        ensures
            r == register_named(name@),
    {
        if is_word(name, "r0") {
            Some(Register::R0)
        } else if is_word(name, "r1") {
            Some(Register::R1)
        } else if is_word(name, "r2") {
            Some(Register::R2)
        } else if is_word(name, "r3") {
            Some(Register::R3)
        } else if is_word(name, "r4") {
            Some(Register::R4)
        } else if is_word(name, "r5") {
            Some(Register::R5)
        } else if is_word(name, "r6") {
            Some(Register::R6)
        } else if is_word(name, "r7") {
            Some(Register::R7)
        } else if is_word(name, "r8") {
            Some(Register::R8)
        } else if is_word(name, "r9") {
            Some(Register::R9)
        } else if is_word(name, "r10") {
            Some(Register::R10)
        } else if is_word(name, "r11") {
            Some(Register::R11)
        } else if is_word(name, "r12") {
            Some(Register::R12)
        } else if is_word(name, "r13") {
            Some(Register::R13)
        } else if is_word(name, "r14") {
            Some(Register::R14)
        } else if is_word(name, "r15") {
            Some(Register::R15)
        } else if is_word(name, "rb0") {
            Some(Register::Rb0)
        } else if is_word(name, "rb1") {
            Some(Register::Rb1)
        } else if is_word(name, "rb2") {
            Some(Register::Rb2)
        } else if is_word(name, "rb3") {
            Some(Register::Rb3)
        } else if is_word(name, "rb4") {
            Some(Register::Rb4)
        } else if is_word(name, "rb5") {
            Some(Register::Rb5)
        } else if is_word(name, "rb6") {
            Some(Register::Rb6)
        } else if is_word(name, "rb7") {
            Some(Register::Rb7)
        } else if is_word(name, "rb8") {
            Some(Register::Rb8)
        } else if is_word(name, "rb9") {
            Some(Register::Rb9)
        } else if is_word(name, "rb10") {
            Some(Register::Rb10)
        } else if is_word(name, "rb11") {
            Some(Register::Rb11)
        } else if is_word(name, "rb12") {
            Some(Register::Rb12)
        } else if is_word(name, "rb13") {
            Some(Register::Rb13)
        } else if is_word(name, "rb14") {
            Some(Register::Rb14)
        } else if is_word(name, "rb15") {
            Some(Register::Rb15)
        } else if is_word(name, "rip") {
            Some(Register::Rip)
        } else if is_word(name, "rfl") {
            Some(Register::Rfl)
        } else if is_word(name, "rinfo") {
            Some(Register::Rinfo)
        } else {
            None
        }
    }
}

/// Two registers with the same code are the same register.
pub proof fn lemma_code_identifies_register(a: Register, b: Register)
    requires
        a.spec_code() == b.spec_code(),
    ensures
        a == b,
{
    reveal(Register::spec_code);
}

} // verus!
