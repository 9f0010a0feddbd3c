//! Statements: the units of a parsed program, and what each of them
//! contributes to the output.
use vstd::hash_map::StringHashMap;
use vstd::prelude::*;
use vstd::utf8::{decode_utf8, encode_utf8, encode_utf8_decode_utf8};
use crate::instruction::{BinaryOp, Instruction};
use crate::register::{Register, Width};
use crate::utils::{Error, ErrorView};
use crate::value::{low_word, Value};

verus! {

/// One statement of a program.
#[derive(Debug, Clone, PartialEq, Eq)]
pub enum Expr {
    /// An instruction that needs no label.
    Instruction(Instruction),
    /// Bytes of data, emitted as they are.
    DB(Vec<u8>),
    /// The definition of a label at the place where it stands.
    IdentifierDef(String),
    /// The load of a label's offset into a register: the label, the
    /// destination, and whether the offset is taken relative to the
    /// statement itself.
    MovC2R(String, Register, bool),
}

/// The mathematical value of an [`Expr`]: text is held as its UTF-8 bytes.
pub enum ExprView {
    Instruction(Instruction),
    DB(Seq<u8>),
    IdentifierDef(Seq<u8>),
    MovC2R(Seq<u8>, Register, bool),
}

impl View for Expr {
    type V = ExprView;

    open spec fn view(&self) -> ExprView {
        match self {
            Expr::Instruction(i) => ExprView::Instruction(*i),
            Expr::DB(bytes) => ExprView::DB(bytes@),
            Expr::IdentifierDef(name) => ExprView::IdentifierDef(encode_utf8(name@)),
            Expr::MovC2R(name, dest, relative) => ExprView::MovC2R(
                encode_utf8(name@),
                *dest,
                *relative,
            ),
        }
    }
}

impl DeepView for Expr {
    type V = ExprView;

    open spec fn deep_view(&self) -> ExprView {
        self@
    }
}

/// The key under which the symbol table holds the label with the given
/// UTF-8 bytes.
pub open spec fn label_key(name: Seq<u8>) -> Seq<char> {
    decode_utf8(name)
}

/// The number that a load of the label at offset `target` puts into its
/// register when the load itself stands at `offset`. An absolute load gives
/// the target. A relative one gives the target less the offset where the
/// target comes first, and the offset less the target otherwise, both
/// within sixteen bits: the distance between the two, counted downwards
/// from zero.
pub open spec fn resolved(target: u16, offset: u16, relative: bool) -> u16 {
    if !relative {
        target
    } else if target < offset {
        low_word(target - offset) as u16
    } else {
        low_word(offset - target) as u16
    }
}

/// A relative load gives the same number whether the label or the load
/// comes first: the distance between the two, negated, within sixteen bits.
pub proof fn lemma_relative_is_negated_distance(target: u16, offset: u16)
    ensures
        resolved(target, offset, true) == resolved(offset, target, true),
        resolved(target, offset, true) == low_word(
            if target < offset {
                target - offset
            } else {
                offset - target
            },
        ),
        resolved(target, offset, true) == 0 <==> target == offset,
{
}

/// One data instruction for each byte.
pub open spec fn data_instructions(bytes: Seq<u8>) -> Seq<Instruction> {
    Seq::new(bytes.len(), |i: int| Instruction::DB(bytes[i]))
}

/// The load of `number` into `dest`, held at the width of `dest`.
pub open spec fn load_of(number: u16, dest: Register) -> Instruction {
    Instruction::ImmediateToRegister(
        BinaryOp::Mov,
        Value::spec_new(dest.spec_width(), number),
        dest,
    )
}

impl ExprView {
    /// Number of bytes that the statement contributes to the output. It does
    /// not depend on the offset of any label.
    pub open spec fn len(self) -> nat {
        match self {
            ExprView::Instruction(i) => i.spec_len(),
            ExprView::DB(bytes) => bytes.len(),
            ExprView::IdentifierDef(_) => 0,
            ExprView::MovC2R(_, dest, _) => 2 + dest.spec_width().spec_bytes(),
        }
    }

    /// The instruction of the statement, where it is one, is well formed.
    pub open spec fn wf(self) -> bool {
        match self {
            ExprView::Instruction(i) => i.wf(),
            _ => true,
        }
    }

    /// The instructions that the statement stands for when it lies at
    /// `offset` and the labels have the offsets that `symbols` gives.
    pub open spec fn to_instructions(self, symbols: Map<Seq<char>, u16>, offset: u16) -> Result<
        Seq<Instruction>,
        ErrorView,
    > {
        match self {
            ExprView::Instruction(i) => Ok(seq![i]),
            ExprView::DB(bytes) => Ok(data_instructions(bytes)),
            ExprView::IdentifierDef(_) => Ok(Seq::empty()),
            ExprView::MovC2R(name, dest, relative) => {
                if symbols.dom().contains(label_key(name)) {
                    Ok(seq![load_of(resolved(symbols[label_key(name)], offset, relative), dest)])
                } else {
                    Err(ErrorView::NoSuchIdentifier(name))
                }
            },
        }
    }
}

/// Computes the number that a load of a label puts into its register.
pub fn resolve(target: u16, offset: u16, relative: bool) -> (number: u16)
    ensures
        number == resolved(target, offset, relative),
{
    if relative {
        if target < offset {
            target.wrapping_sub(offset)
        } else {
            offset.wrapping_sub(target)
        }
    } else {
        target
    }
}

impl Expr {
    /// Resolves the statement, which lies at `offset`, against the labels in
    /// `identifiers`. A load of a label that `identifiers` does not hold
    /// fails with `NoSuchIdentifier`; nothing else fails.
    pub fn to_instructions(&self, identifiers: &StringHashMap<u16>, offset: u16) -> (r: Result<
        Vec<Instruction>,
        Error,
    >)
        ensures
            match self@.to_instructions(identifiers@, offset) {
                Ok(instructions) => r is Ok && r->Ok_0@ == instructions,
                Err(e) => r is Err && r->Err_0@ == e,
            },
    {
        match self {
            Expr::Instruction(instruction) => {
                let mut out: Vec<Instruction> = Vec::new();
                out.push(*instruction);
                assert(out@ =~= seq![*instruction]);
                Ok(out)
            },
            Expr::DB(values) => {
                let mut out: Vec<Instruction> = Vec::new();
                let mut i: usize = 0;
                while i < values.len()
                    invariant
                        i <= values.len(),
                        out@.len() == i,
                        forall|j: int| 0 <= j < i ==> out@[j] == Instruction::DB(values@[j]),
                    decreases values.len() - i,
                {
                    out.push(Instruction::DB(values[i]));
                    i += 1;
                }
                assert(out@ =~= data_instructions(values@));
                Ok(out)
            },
            Expr::IdentifierDef(_) => {
                let out: Vec<Instruction> = Vec::new();
                assert(out@ =~= Seq::empty());
                Ok(out)
            },
            Expr::MovC2R(ident, dest, relative) => {
                proof {
                    encode_utf8_decode_utf8(ident@);
                }
                match identifiers.get(ident.as_str()) {
                    Some(target) => {
                        let number = resolve(*target, offset, *relative);
                        let mut out: Vec<Instruction> = Vec::new();
                        out.push(
                            Instruction::ImmediateToRegister(
                                BinaryOp::Mov,
                                Value::new(dest.width(), number),
                                *dest,
                            ),
                        );
                        assert(out@ =~= seq![load_of(number, *dest)]);
                        Ok(out)
                    },
                    None => Err(Error::NoSuchIdentifier(ident.clone())),
                }
            },
        }
    }

    /// Number of bytes that the statement contributes to the output.
    pub fn len(&self) -> (n: usize)
        ensures
            n == self@.len(),
    {
        match self {
            Expr::Instruction(instruction) => instruction.len() as usize,
            Expr::DB(values) => values.len(),
            Expr::IdentifierDef(_) => 0,
            Expr::MovC2R(_, dest, _) => match dest.width() {
                Width::Byte => 3,
                Width::Word => 4,
            },
        }
    }
}

} // verus!
