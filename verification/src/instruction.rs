//! Instructions and their byte encoding.
//!
//! An encoded instruction starts with one opcode byte. Register operands
//! follow as one byte each, in source order, and an immediate operand comes
//! last: one byte, or two with the low byte first. A data byte stands for
//! itself.
//!
//! | opcode | instruction | opcode | instruction |
//! |---|---|---|---|
//! | `00` | `nop` | `1c` | `cmp` number, register |
//! | `01` | `mov` number, register | `1d` | `cmp` register, register |
//! | `02` | `mov` register, register | `20` | `ajmp` |
//! | `03` | `mov` pointer, register | `21` | `jmp` |
//! | `04` | `mov` register, pointer | `22` | `jeq` |
//! | `05` | `push` | `23` | `jneq` |
//! | `06` | `pop` | `24` | `jlt` |
//! | `10` | `add` number, register | `25` | `jgt` |
//! | `11` | `add` register, register | `26` | `jleq` |
//! | `12` | `sub` number, register | `27` | `jgeq` |
//! | `13` | `sub` register, register | `28` | `jo` |
//! | `14` | `not` | `29` | `jno` |
//! | `15` | `and` number, register | `2a` | `call` number |
//! | `16` | `and` register, register | `2b` | `call` register |
//! | `17` | `or` number, register | `2c` | `ret` |
//! | `18` | `or` register, register | `30` | `int` |
//! | `19` | `shl` | `31` | `sti` |
//! | `1a` | `shr` | `32` | `cli` |
//! | `1b` | `shre` | | |
use vstd::prelude::*;
use crate::register::{Register, Width};
use crate::utils::{Error, ErrorView};
use crate::value::Value;

verus! {

/// The operations that take one register.
#[derive(Clone, Copy, Debug, PartialEq, Eq, Hash, Structural)]
pub enum UnaryOp {
    Push,
    Pop,
    Not,
    AJmp,
    Jmp,
    Jeq,
    Jneq,
    Jlt,
    Jgt,
    Jleq,
    Jgeq,
    Jo,
    Jno,
    Call,
    Int,
    Sti,
}

/// The operations that take a source, register or immediate, and a
/// destination register.
#[derive(Clone, Copy, Debug, PartialEq, Eq, Hash, Structural)]
pub enum BinaryOp {
    Mov,
    Add,
    Sub,
    And,
    Or,
    Cmp,
}

/// The shifts: left, right, and right with sign extension.
#[derive(Clone, Copy, Debug, PartialEq, Eq, Hash, Structural)]
pub enum ShiftOp {
    Shl,
    Shr,
    Shre,
}

// The opcodes of the instructions that have no operation of their own.
pub const OPCODE_NOP: u8 = 0x00;

pub const OPCODE_LOAD: u8 = 0x03;

pub const OPCODE_STORE: u8 = 0x04;

pub const OPCODE_CALL_ADDRESS: u8 = 0x2a;

pub const OPCODE_RET: u8 = 0x2c;

pub const OPCODE_CLI: u8 = 0x32;

impl UnaryOp {
    /// The opcode of the operation.
    #[verifier::opaque]
    pub open spec fn spec_opcode(self) -> u8 {
        match self {
            UnaryOp::Push => 0x05,
            UnaryOp::Pop => 0x06,
            UnaryOp::Not => 0x14,
            UnaryOp::AJmp => 0x20,
            UnaryOp::Jmp => 0x21,
            UnaryOp::Jeq => 0x22,
            UnaryOp::Jneq => 0x23,
            UnaryOp::Jlt => 0x24,
            UnaryOp::Jgt => 0x25,
            UnaryOp::Jleq => 0x26,
            UnaryOp::Jgeq => 0x27,
            UnaryOp::Jo => 0x28,
            UnaryOp::Jno => 0x29,
            UnaryOp::Call => 0x2b,
            UnaryOp::Int => 0x30,
            UnaryOp::Sti => 0x31,
        }
    }

    /// The opcode of the operation.
    #[verifier::when_used_as_spec(spec_opcode)]
    pub fn opcode(self) -> (c: u8)
        ensures
            c == self.spec_opcode(),
    {
        reveal(UnaryOp::spec_opcode);
        match self {
            UnaryOp::Push => 0x05,
            UnaryOp::Pop => 0x06,
            UnaryOp::Not => 0x14,
            UnaryOp::AJmp => 0x20,
            UnaryOp::Jmp => 0x21,
            UnaryOp::Jeq => 0x22,
            UnaryOp::Jneq => 0x23,
            UnaryOp::Jlt => 0x24,
            UnaryOp::Jgt => 0x25,
            UnaryOp::Jleq => 0x26,
            UnaryOp::Jgeq => 0x27,
            UnaryOp::Jo => 0x28,
            UnaryOp::Jno => 0x29,
            UnaryOp::Call => 0x2b,
            UnaryOp::Int => 0x30,
            UnaryOp::Sti => 0x31,
        }
    }
}

impl BinaryOp {
    /// Opcode of the form whose source is an immediate.
    #[verifier::opaque]
    pub open spec fn spec_immediate_opcode(self) -> u8 {
        match self {
            BinaryOp::Mov => 0x01,
            BinaryOp::Add => 0x10,
            BinaryOp::Sub => 0x12,
            BinaryOp::And => 0x15,
            BinaryOp::Or => 0x17,
            BinaryOp::Cmp => 0x1c,
        }
    }

    /// Opcode of the form whose source is a register.
    #[verifier::opaque]
    pub open spec fn spec_register_opcode(self) -> u8 {
        match self {
            BinaryOp::Mov => 0x02,
            BinaryOp::Add => 0x11,
            BinaryOp::Sub => 0x13,
            BinaryOp::And => 0x16,
            BinaryOp::Or => 0x18,
            BinaryOp::Cmp => 0x1d,
        }
    }

    /// Opcode of the form whose source is an immediate.
    #[verifier::when_used_as_spec(spec_immediate_opcode)]
    pub fn immediate_opcode(self) -> (c: u8)
        ensures
            c == self.spec_immediate_opcode(),
    {
        reveal(BinaryOp::spec_immediate_opcode);
        match self {
            BinaryOp::Mov => 0x01,
            BinaryOp::Add => 0x10,
            BinaryOp::Sub => 0x12,
            BinaryOp::And => 0x15,
            BinaryOp::Or => 0x17,
            BinaryOp::Cmp => 0x1c,
        }
    }

    /// Opcode of the form whose source is a register.
    #[verifier::when_used_as_spec(spec_register_opcode)]
    pub fn register_opcode(self) -> (c: u8)
        ensures
            c == self.spec_register_opcode(),
    {
        reveal(BinaryOp::spec_register_opcode);
        match self {
            BinaryOp::Mov => 0x02,
            BinaryOp::Add => 0x11,
            BinaryOp::Sub => 0x13,
            BinaryOp::And => 0x16,
            BinaryOp::Or => 0x18,
            BinaryOp::Cmp => 0x1d,
        }
    }
}

impl ShiftOp {
    /// The opcode of the operation.
    #[verifier::opaque]
    pub open spec fn spec_opcode(self) -> u8 {
        match self {
            ShiftOp::Shl => 0x19,
            ShiftOp::Shr => 0x1a,
            ShiftOp::Shre => 0x1b,
        }
    }

    /// The opcode of the operation.
    #[verifier::when_used_as_spec(spec_opcode)]
    pub fn opcode(self) -> (c: u8)
        ensures
            c == self.spec_opcode(),
    {
        reveal(ShiftOp::spec_opcode);
        match self {
            ShiftOp::Shl => 0x19,
            ShiftOp::Shr => 0x1a,
            ShiftOp::Shre => 0x1b,
        }
    }
}

/// One encodable unit of a program.
#[derive(Clone, Copy, Debug, PartialEq, Eq, Hash, Structural)]
pub enum Instruction {
    Nop,
    Ret,
    Cli,
    /// One byte of data, emitted as it is.
    DB(u8),
    /// An operation on one register.
    Unary(UnaryOp, Register),
    /// A call to an absolute address.
    CallAddress(u16),
    /// Source register, then destination register.
    RegisterToRegister(BinaryOp, Register, Register),
    /// Immediate source, then destination register.
    ImmediateToRegister(BinaryOp, Value, Register),
    /// Shift amount, then the register that is shifted.
    Shift(ShiftOp, Value, Register),
    /// Register that holds the address, then destination register.
    Load(Register, Register),
    /// Source register, then register that holds the address.
    Store(Register, Register),
}

/// Whether `amount` is a shift distance for an operand of the given width:
/// at least one bit and at most all of them.
pub open spec fn shift_in_range(amount: int, width: Width) -> bool {
    1 <= amount <= width.spec_bits()
}

impl Instruction {
    /// An immediate has the width of the register it goes with, and a shift
    /// amount lies in the range that this width allows.
    pub open spec fn wf(self) -> bool {
        match self {
            Instruction::ImmediateToRegister(_, value, reg) => value.spec_width()
                == reg.spec_width(),
            Instruction::Shift(_, amount, reg) => {
                &&& amount.spec_width() == reg.spec_width()
                &&& shift_in_range(amount.spec_magnitude() as int, reg.spec_width())
            },
            _ => true,
        }
    }

    /// Number of bytes of the encoded instruction. It depends on the kind of
    /// instruction and on the width of an immediate, never on a number.
    pub open spec fn spec_len(self) -> nat {
        match self {
            Instruction::Nop | Instruction::Ret | Instruction::Cli | Instruction::DB(_) => 1,
            Instruction::Unary(_, _) => 2,
            Instruction::CallAddress(_) => 3,
            Instruction::RegisterToRegister(_, _, _)
            | Instruction::Load(_, _)
            | Instruction::Store(_, _) => 3,
            Instruction::ImmediateToRegister(_, value, _) | Instruction::Shift(_, value, _) => 2
                + value.spec_width().spec_bytes(),
        }
    }

    /// The bytes that stand for the instruction in the output.
    pub open spec fn encoding(self) -> Seq<u8> {
        match self {
            Instruction::Nop => seq![OPCODE_NOP],
            Instruction::Ret => seq![OPCODE_RET],
            Instruction::Cli => seq![OPCODE_CLI],
            Instruction::DB(b) => seq![b],
            Instruction::Unary(op, reg) => seq![op.spec_opcode(), reg.spec_code()],
            Instruction::CallAddress(address) => seq![OPCODE_CALL_ADDRESS] + Value::Word(
                address,
            ).encoding(),
            Instruction::RegisterToRegister(op, src, dest) => seq![
                op.spec_register_opcode(),
                src.spec_code(),
                dest.spec_code(),
            ],
            Instruction::ImmediateToRegister(op, value, dest) => seq![
                op.spec_immediate_opcode(),
                dest.spec_code(),
            ] + value.encoding(),
            Instruction::Shift(op, amount, reg) => seq![op.spec_opcode(), reg.spec_code()]
                + amount.encoding(),
            Instruction::Load(pointer, dest) => seq![
                OPCODE_LOAD,
                pointer.spec_code(),
                dest.spec_code(),
            ],
            Instruction::Store(src, pointer) => seq![
                OPCODE_STORE,
                src.spec_code(),
                pointer.spec_code(),
            ],
        }
    }

    /// The first byte of the encoding of every instruction but a data byte.
    pub open spec fn spec_opcode(self) -> Option<u8> {
        match self {
            Instruction::Nop => Some(OPCODE_NOP),
            Instruction::Ret => Some(OPCODE_RET),
            Instruction::Cli => Some(OPCODE_CLI),
            Instruction::DB(_) => None,
            Instruction::Unary(op, _) => Some(op.spec_opcode()),
            Instruction::CallAddress(_) => Some(OPCODE_CALL_ADDRESS),
            Instruction::RegisterToRegister(op, _, _) => Some(op.spec_register_opcode()),
            Instruction::ImmediateToRegister(op, _, _) => Some(op.spec_immediate_opcode()),
            Instruction::Shift(op, _, _) => Some(op.spec_opcode()),
            Instruction::Load(_, _) => Some(OPCODE_LOAD),
            Instruction::Store(_, _) => Some(OPCODE_STORE),
        }
    }

    /// The width of the immediate, for an instruction that has one.
    pub open spec fn spec_immediate_width(self) -> Option<Width> {
        match self {
            Instruction::ImmediateToRegister(_, value, _) | Instruction::Shift(_, value, _) => Some(
                value.spec_width(),
            ),
            Instruction::CallAddress(_) => Some(Width::Word),
            _ => None,
        }
    }

    /// The immediate form of `op` for the destination `dest`, with the number
    /// of `value` held at the width of `dest`.
    pub open spec fn spec_immediate(op: BinaryOp, value: Value, dest: Register) -> Instruction {
        Instruction::ImmediateToRegister(
            op,
            Value::spec_new(dest.spec_width(), value.spec_magnitude()),
            dest,
        )
    }

    /// The shift `op` of `reg` by the number of `amount`.
    pub open spec fn spec_shift(op: ShiftOp, amount: Value, reg: Register) -> Instruction {
        Instruction::Shift(
            op,
            Value::spec_new(reg.spec_width(), amount.spec_magnitude()),
            reg,
        )
    }

    /// What [`Instruction::immediate`] returns: the instruction where the
    /// number fits the destination, and `NumberTooLarge` where it does not.
    pub open spec fn immediate_built(
        r: Result<Instruction, Error>,
        op: BinaryOp,
        value: Value,
        dest: Register,
    ) -> bool {
        match r {
            Ok(i) => value.fits(dest.spec_width()) && i == Instruction::spec_immediate(
                op,
                value,
                dest,
            ) && i.wf(),
            Err(e) => !value.fits(dest.spec_width()) && e@ == ErrorView::NumberTooLarge(
                value.spec_magnitude() as i64,
                "byte"@,
            ),
        }
    }

    /// What [`Instruction::shift`] returns: the instruction where the
    /// distance is one that the register allows, and `NumberTooLarge` where
    /// it is not.
    pub open spec fn shift_built(
        r: Result<Instruction, Error>,
        op: ShiftOp,
        amount: Value,
        reg: Register,
    ) -> bool {
        match r {
            Ok(i) => shift_in_range(amount.spec_magnitude() as int, reg.spec_width()) && i
                == Instruction::spec_shift(op, amount, reg) && i.wf(),
            Err(e) => !shift_in_range(amount.spec_magnitude() as int, reg.spec_width()) && e@
                == ErrorView::NumberTooLarge(amount.spec_magnitude() as i64, "shift amount"@),
        }
    }

    /// Number of bytes that [`Instruction::compile`] returns.
    pub fn len(&self) -> (n: u16)
        ensures
            n == self.spec_len(),
    {
        match self {
            Instruction::Nop | Instruction::Ret | Instruction::Cli | Instruction::DB(_) => 1,
            Instruction::Unary(_, _) => 2,
            Instruction::CallAddress(_) => 3,
            Instruction::RegisterToRegister(_, _, _)
            | Instruction::Load(_, _)
            | Instruction::Store(_, _) => 3,
            Instruction::ImmediateToRegister(_, value, _) | Instruction::Shift(_, value, _) => {
                match value.width() {
                    Width::Byte => 3,
                    Width::Word => 4,
                }
            },
        }
    }

    /// Appends the encoded instruction to `out`.
    pub fn encode(&self, out: &mut Vec<u8>)
        ensures
            final(out)@ == old(out)@ + self.encoding(),
    {
        match self {
            Instruction::Nop => {
                out.push(OPCODE_NOP);
            },
            Instruction::Ret => {
                out.push(OPCODE_RET);
            },
            Instruction::Cli => {
                out.push(OPCODE_CLI);
            },
            Instruction::DB(b) => {
                out.push(*b);
            },
            Instruction::Unary(op, reg) => {
                out.push(op.opcode());
                out.push(reg.code());
            },
            Instruction::CallAddress(address) => {
                out.push(OPCODE_CALL_ADDRESS);
                Value::Word(*address).encode(out);
            },
            Instruction::RegisterToRegister(op, src, dest) => {
                out.push(op.register_opcode());
                out.push(src.code());
                out.push(dest.code());
            },
            Instruction::ImmediateToRegister(op, value, dest) => {
                out.push(op.immediate_opcode());
                out.push(dest.code());
                value.encode(out);
            },
            Instruction::Shift(op, amount, reg) => {
                out.push(op.opcode());
                out.push(reg.code());
                amount.encode(out);
            },
            Instruction::Load(pointer, dest) => {
                out.push(OPCODE_LOAD);
                out.push(pointer.code());
                out.push(dest.code());
            },
            Instruction::Store(src, pointer) => {
                out.push(OPCODE_STORE);
                out.push(src.code());
                out.push(pointer.code());
            },
        }
        assert(out@ =~= old(out)@ + self.encoding());
    }

    /// The encoded instruction.
    pub fn compile(&self) -> (bytes: Vec<u8>)
        ensures
            bytes@ == self.encoding(),
    {
        let mut bytes: Vec<u8> = Vec::new();
        self.encode(&mut bytes);
        assert(bytes@ =~= self.encoding());
        bytes
    }

    /// Builds the immediate form of `op`. The number is held at the width of
    /// `dest`; one that needs more bits than `dest` has is refused.
    pub fn immediate(op: BinaryOp, value: Value, dest: Register) -> (r: Result<Instruction, Error>)
        ensures
            Instruction::immediate_built(r, op, value, dest),
    {
        let width = dest.width();
        let number = value.magnitude();
        match width {
            Width::Byte => {
                if number >= 0x100 {
                    return Err(Error::NumberTooLarge(number as i64, "byte"));
                }
            },
            Width::Word => {},
        }
        Ok(Instruction::ImmediateToRegister(op, Value::new(width, number), dest))
    }

    /// Builds a shift of `reg`. The distance must be at least one bit and at
    /// most the number of bits of `reg`.
    pub fn shift(op: ShiftOp, amount: Value, reg: Register) -> (r: Result<Instruction, Error>)
        ensures
            Instruction::shift_built(r, op, amount, reg),
    {
        let width = reg.width();
        let number = amount.magnitude();
        if number < 1 || number > width.bits() {
            return Err(Error::NumberTooLarge(number as i64, "shift amount"));
        }
        Ok(Instruction::Shift(op, Value::new(width, number), reg))
    }
}

impl Instruction {
    /// The instruction that does nothing.
    pub fn nop() -> (i: Instruction)
        ensures
            i == Instruction::Nop,
    {
        Instruction::Nop
    }

    /// The instruction that returns from a routine.
    pub fn ret() -> (i: Instruction)
        ensures
            i == Instruction::Ret,
    {
        Instruction::Ret
    }

    /// The instruction that clears the interrupt handler.
    pub fn cli() -> (i: Instruction)
        ensures
            i == Instruction::Cli,
    {
        Instruction::Cli
    }

    /// One byte of data.
    pub fn db(value: u8) -> (i: Instruction)
        ensures
            i == Instruction::DB(value),
    {
        Instruction::DB(value)
    }

    /// The instruction that calls the routine at `address`.
    pub fn callc(address: u16) -> (i: Instruction)
        ensures
            i == Instruction::CallAddress(address),
    {
        Instruction::CallAddress(address)
    }

    /// The instruction that loads into `dest` from the address in `pointer`.
    pub fn movm2r(pointer: Register, dest: Register) -> (i: Instruction)
        ensures
            i == Instruction::Load(pointer, dest),
    {
        Instruction::Load(pointer, dest)
    }

    /// The instruction that stores `src` at the address in `pointer`.
    pub fn movr2m(src: Register, pointer: Register) -> (i: Instruction)
        ensures
            i == Instruction::Store(src, pointer),
    {
        Instruction::Store(src, pointer)
    }

    /// The instruction that pushes `reg` onto the stack.
    pub fn push(reg: Register) -> (i: Instruction)
        ensures
            i == Instruction::Unary(UnaryOp::Push, reg),
    {
        Instruction::Unary(UnaryOp::Push, reg)
    }

    /// The instruction that pops the top of the stack into `reg`.
    pub fn pop(reg: Register) -> (i: Instruction)
        ensures
            i == Instruction::Unary(UnaryOp::Pop, reg),
    {
        Instruction::Unary(UnaryOp::Pop, reg)
    }

    /// The instruction that inverts every bit of `reg`.
    pub fn not(reg: Register) -> (i: Instruction)
        ensures
            i == Instruction::Unary(UnaryOp::Not, reg),
    {
        Instruction::Unary(UnaryOp::Not, reg)
    }

    /// The instruction that jumps to the absolute address in `reg`.
    pub fn ajmp(reg: Register) -> (i: Instruction)
        ensures
            i == Instruction::Unary(UnaryOp::AJmp, reg),
    {
        Instruction::Unary(UnaryOp::AJmp, reg)
    }

    /// The instruction that jumps by the distance in `reg`.
    pub fn jmp(reg: Register) -> (i: Instruction)
        ensures
            i == Instruction::Unary(UnaryOp::Jmp, reg),
    {
        Instruction::Unary(UnaryOp::Jmp, reg)
    }

    /// The instruction that jumps if the last comparison found equality.
    pub fn jeq(reg: Register) -> (i: Instruction)
        ensures
            i == Instruction::Unary(UnaryOp::Jeq, reg),
    {
        Instruction::Unary(UnaryOp::Jeq, reg)
    }

    /// The instruction that jumps if the last comparison found a difference.
    pub fn jneq(reg: Register) -> (i: Instruction)
        ensures
            i == Instruction::Unary(UnaryOp::Jneq, reg),
    {
        Instruction::Unary(UnaryOp::Jneq, reg)
    }

    /// The instruction that jumps if the last comparison found less.
    pub fn jlt(reg: Register) -> (i: Instruction)
        ensures
            i == Instruction::Unary(UnaryOp::Jlt, reg),
    {
        Instruction::Unary(UnaryOp::Jlt, reg)
    }

    /// The instruction that jumps if the last comparison found more.
    pub fn jgt(reg: Register) -> (i: Instruction)
        ensures
            i == Instruction::Unary(UnaryOp::Jgt, reg),
    {
        Instruction::Unary(UnaryOp::Jgt, reg)
    }

    /// The instruction that jumps if the last comparison found less or equality.
    pub fn jleq(reg: Register) -> (i: Instruction)
        ensures
            i == Instruction::Unary(UnaryOp::Jleq, reg),
    {
        Instruction::Unary(UnaryOp::Jleq, reg)
    }

    /// The instruction that jumps if the last comparison found more or equality.
    pub fn jgeq(reg: Register) -> (i: Instruction)
        ensures
            i == Instruction::Unary(UnaryOp::Jgeq, reg),
    {
        Instruction::Unary(UnaryOp::Jgeq, reg)
    }

    /// The instruction that jumps if the last operation overflowed.
    pub fn jo(reg: Register) -> (i: Instruction)
        ensures
            i == Instruction::Unary(UnaryOp::Jo, reg),
    {
        Instruction::Unary(UnaryOp::Jo, reg)
    }

    /// The instruction that jumps if the last operation did not overflow.
    pub fn jno(reg: Register) -> (i: Instruction)
        ensures
            i == Instruction::Unary(UnaryOp::Jno, reg),
    {
        Instruction::Unary(UnaryOp::Jno, reg)
    }

    /// The instruction that calls the routine at the address in `reg`.
    pub fn callr(reg: Register) -> (i: Instruction)
        ensures
            i == Instruction::Unary(UnaryOp::Call, reg),
    {
        Instruction::Unary(UnaryOp::Call, reg)
    }

    /// The instruction that raises the interrupt whose number is in `reg`.
    pub fn interrupt(reg: Register) -> (i: Instruction)
        ensures
            i == Instruction::Unary(UnaryOp::Int, reg),
    {
        Instruction::Unary(UnaryOp::Int, reg)
    }

    /// The instruction that sets the interrupt handler to the address in `reg`.
    pub fn sti(reg: Register) -> (i: Instruction)
        ensures
            i == Instruction::Unary(UnaryOp::Sti, reg),
    {
        Instruction::Unary(UnaryOp::Sti, reg)
    }

    /// The instruction that copies the source into `dest`, a register.
    pub fn movr2r(src: Register, dest: Register) -> (i: Instruction)
        ensures
            i == Instruction::RegisterToRegister(BinaryOp::Mov, src, dest),
    {
        Instruction::RegisterToRegister(BinaryOp::Mov, src, dest)
    }

    /// The instruction that copies the source into `dest`, a number. See [`Instruction::immediate`].
    pub fn movc2r(value: Value, dest: Register) -> (r: Result<Instruction, Error>)
        ensures
            Instruction::immediate_built(r, BinaryOp::Mov, value, dest),
    {
        Instruction::immediate(BinaryOp::Mov, value, dest)
    }

    /// The instruction that adds the source to `dest`, a register.
    pub fn addr2r(src: Register, dest: Register) -> (i: Instruction)
        ensures
            i == Instruction::RegisterToRegister(BinaryOp::Add, src, dest),
    {
        Instruction::RegisterToRegister(BinaryOp::Add, src, dest)
    }

    /// The instruction that adds the source to `dest`, a number. See [`Instruction::immediate`].
    pub fn addc2r(value: Value, dest: Register) -> (r: Result<Instruction, Error>)
        ensures
            Instruction::immediate_built(r, BinaryOp::Add, value, dest),
    {
        Instruction::immediate(BinaryOp::Add, value, dest)
    }

    /// The instruction that subtracts the source from `dest`, a register.
    pub fn subr2r(src: Register, dest: Register) -> (i: Instruction)
        ensures
            i == Instruction::RegisterToRegister(BinaryOp::Sub, src, dest),
    {
        Instruction::RegisterToRegister(BinaryOp::Sub, src, dest)
    }

    /// The instruction that subtracts the source from `dest`, a number. See [`Instruction::immediate`].
    pub fn subc2r(value: Value, dest: Register) -> (r: Result<Instruction, Error>)
        ensures
            Instruction::immediate_built(r, BinaryOp::Sub, value, dest),
    {
        Instruction::immediate(BinaryOp::Sub, value, dest)
    }

    /// The instruction that combines the source into `dest` with a bitwise and, a register.
    pub fn andr2r(src: Register, dest: Register) -> (i: Instruction)
        ensures
            i == Instruction::RegisterToRegister(BinaryOp::And, src, dest),
    {
        Instruction::RegisterToRegister(BinaryOp::And, src, dest)
    }

    /// The instruction that combines the source into `dest` with a bitwise and, a number. See [`Instruction::immediate`].
    pub fn andc2r(value: Value, dest: Register) -> (r: Result<Instruction, Error>)
        ensures
            Instruction::immediate_built(r, BinaryOp::And, value, dest),
    {
        Instruction::immediate(BinaryOp::And, value, dest)
    }

    /// The instruction that combines the source into `dest` with a bitwise or, a register.
    pub fn orr2r(src: Register, dest: Register) -> (i: Instruction)
        ensures
            i == Instruction::RegisterToRegister(BinaryOp::Or, src, dest),
    {
        Instruction::RegisterToRegister(BinaryOp::Or, src, dest)
    }

    /// The instruction that combines the source into `dest` with a bitwise or, a number. See [`Instruction::immediate`].
    pub fn orc2r(value: Value, dest: Register) -> (r: Result<Instruction, Error>)
        ensures
            Instruction::immediate_built(r, BinaryOp::Or, value, dest),
    {
        Instruction::immediate(BinaryOp::Or, value, dest)
    }

    /// The instruction that compares `dest` with the source, a register.
    pub fn cmpr2r(src: Register, dest: Register) -> (i: Instruction)
        ensures
            i == Instruction::RegisterToRegister(BinaryOp::Cmp, src, dest),
    {
        Instruction::RegisterToRegister(BinaryOp::Cmp, src, dest)
    }

    /// The instruction that compares `dest` with the source, a number. See [`Instruction::immediate`].
    pub fn cmpc2r(value: Value, dest: Register) -> (r: Result<Instruction, Error>)
        ensures
            Instruction::immediate_built(r, BinaryOp::Cmp, value, dest),
    {
        Instruction::immediate(BinaryOp::Cmp, value, dest)
    }

    /// The instruction that shifts `reg` to the left. See [`Instruction::shift`].
    pub fn shl(amount: Value, reg: Register) -> (r: Result<Instruction, Error>)
        ensures
            Instruction::shift_built(r, ShiftOp::Shl, amount, reg),
    {
        Instruction::shift(ShiftOp::Shl, amount, reg)
    }

    /// The instruction that shifts `reg` to the right. See [`Instruction::shift`].
    pub fn shr(amount: Value, reg: Register) -> (r: Result<Instruction, Error>)
        ensures
            Instruction::shift_built(r, ShiftOp::Shr, amount, reg),
    {
        Instruction::shift(ShiftOp::Shr, amount, reg)
    }

    /// The instruction that shifts `reg` to the right, keeping the sign. See [`Instruction::shift`].
    pub fn shre(amount: Value, reg: Register) -> (r: Result<Instruction, Error>)
        ensures
            Instruction::shift_built(r, ShiftOp::Shre, amount, reg),
    {
        Instruction::shift(ShiftOp::Shre, amount, reg)
    }
}

/// The encoding of an instruction has the length that `spec_len` gives.
pub proof fn lemma_encoding_len(i: Instruction)
    ensures
        i.encoding().len() == i.spec_len(),
{
}

/// The length of an instruction depends on its kind and on the width of its
/// immediate, never on a number or on which registers it names.
pub proof fn lemma_len_ignores_numbers(a: Instruction, b: Instruction)
    requires
        a.spec_opcode() == b.spec_opcode(),
        a.spec_immediate_width() == b.spec_immediate_width(),
    ensures
        a.spec_len() == b.spec_len(),
{
    if a.spec_opcode() is Some {
        lemma_opcode_identifies_kind(a, b);
    }
}

/// No two kinds of instruction share an opcode.
pub proof fn lemma_opcode_identifies_kind(a: Instruction, b: Instruction)
    requires
        a.spec_opcode() is Some,
        a.spec_opcode() == b.spec_opcode(),
    ensures
        match (a, b) {
            (Instruction::Nop, Instruction::Nop) => true,
            (Instruction::Ret, Instruction::Ret) => true,
            (Instruction::Cli, Instruction::Cli) => true,
            (Instruction::Unary(p, _), Instruction::Unary(q, _)) => p == q,
            (Instruction::CallAddress(_), Instruction::CallAddress(_)) => true,
            (
                Instruction::RegisterToRegister(p, _, _),
                Instruction::RegisterToRegister(q, _, _),
            ) => p == q,
            (
                Instruction::ImmediateToRegister(p, _, _),
                Instruction::ImmediateToRegister(q, _, _),
            ) => p == q,
            (Instruction::Shift(p, _, _), Instruction::Shift(q, _, _)) => p == q,
            (Instruction::Load(_, _), Instruction::Load(_, _)) => true,
            (Instruction::Store(_, _), Instruction::Store(_, _)) => true,
            _ => false,
        },
{
    reveal(UnaryOp::spec_opcode);
    reveal(BinaryOp::spec_immediate_opcode);
    reveal(BinaryOp::spec_register_opcode);
    reveal(ShiftOp::spec_opcode);
}

} // verus!
