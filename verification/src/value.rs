//! Immediate operands.
use vstd::prelude::*;
use crate::register::Width;

verus! {

/// An immediate operand together with its width.
#[derive(Clone, Copy, Debug, PartialEq, Eq, Hash, Structural)]
pub enum Value {
    Byte(u8),
    Word(u16),
}

/// The low sixteen bits of `v`, read as an unsigned number.
pub open spec fn low_word(v: int) -> int {
    v % 0x1_0000
}

impl Value {
    /// The width that the operand is tagged with.
    pub open spec fn spec_width(self) -> Width {
        match self {
            Value::Byte(_) => Width::Byte,
            Value::Word(_) => Width::Word,
        }
    }

    /// The number that the operand holds.
    pub open spec fn spec_magnitude(self) -> u16 {
        match self {
            Value::Byte(b) => b as u16,
            Value::Word(w) => w,
        }
    }

    /// The operand of the given width that holds the low bits of `value`.
    pub open spec fn spec_new(width: Width, value: u16) -> Value {
        match width {
            Width::Byte => Value::Byte((value % 0x100) as u8),
            Width::Word => Value::Word(value),
        }
    }

    /// Whether the number can be held at `width` without losing bits.
    pub open spec fn fits(self, width: Width) -> bool {
        width == Width::Word || self.spec_magnitude() < 0x100
    }

    /// The bytes of the operand in an encoded instruction: one byte, or the
    /// low byte of a word followed by its high byte.
    pub open spec fn encoding(self) -> Seq<u8> {
        match self {
            Value::Byte(b) => seq![b],
            Value::Word(w) => seq![(w % 0x100) as u8, (w / 0x100) as u8],
        }
    }

    /// An operand of the given width; `value` is masked to that width.
    pub fn new(width: Width, value: u16) -> (v: Value)
        ensures
            v == Value::spec_new(width, value),
            v.spec_width() == width,
    {
        match width {
            Width::Byte => Value::Byte((value % 0x100) as u8),
            Width::Word => Value::Word(value),
        }
    }

    /// An operand of one byte.
    pub fn byte(value: u8) -> (v: Value)
        ensures
            v == Value::Byte(value),
    {
        Value::Byte(value)
    }

    /// An operand of one word.
    pub fn word(value: u16) -> (v: Value)
        ensures
            v == Value::Word(value),
    {
        Value::Word(value)
    }

    /// The width that the operand is tagged with.
    #[verifier::when_used_as_spec(spec_width)]
    pub fn width(self) -> (w: Width)
        ensures
            w == self.spec_width(),
    {
        match self {
            Value::Byte(_) => Width::Byte,
            Value::Word(_) => Width::Word,
        }
    }

    /// The number held, widened to sixteen bits.
    #[verifier::when_used_as_spec(spec_magnitude)]
    pub fn magnitude(self) -> (m: u16)
        ensures
            m == self.spec_magnitude(),
    {
        match self {
            Value::Byte(b) => b as u16,
            Value::Word(w) => w,
        }
    }

    /// Appends the encoded operand to `out`.
    pub fn encode(self, out: &mut Vec<u8>)
        ensures
            final(out)@ == old(out)@ + self.encoding(),
    {
        match self {
            Value::Byte(b) => {
                out.push(b);
            },
            Value::Word(w) => {
                out.push((w % 0x100) as u8);
                out.push((w / 0x100) as u8);
            },
        }
        assert(out@ =~= old(out)@ + self.encoding());
    }
}

/// Splits a word into its low and high byte.
pub fn word_bytes(w: u16) -> (pair: (u8, u8))
    ensures
        pair.0 == w % 0x100,
        pair.1 == w / 0x100,
        Value::Word(w).encoding() == seq![pair.0, pair.1],
{
    ((w % 0x100) as u8, (w / 0x100) as u8)
}

/// Reduces a signed literal to its low sixteen bits.
pub fn truncate_to_word(v: i64) -> (w: u16)
    ensures
        w == low_word(v as int),
{
    if v >= 0 {
        (v % 0x1_0000) as u16
    } else {
        let below: i64 = -(v + 1);
        let rest: i64 = below % 0x1_0000;
        (0xffff - rest) as u16
    }
}

} // verus!
