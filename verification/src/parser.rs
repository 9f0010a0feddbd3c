//! The parser: tokens to statements, and the two passes that turn
//! statements into instructions.
//!
//! A statement is a label definition, a `db` or `dw` directive with its
//! list of numbers, or a mnemonic with the operands that its kind takes:
//! none, one, or two with a comma between them.
use vstd::hash_map::StringHashMap;
use vstd::prelude::*;
use vstd::string::StringSliceAdditionalSpecFns;
use vstd::utf8::encode_utf8;
use crate::expr::{Expr, ExprView};
use crate::instruction::{shift_in_range, BinaryOp, Instruction, ShiftOp, UnaryOp};
use crate::passes::{build, lemma_resolved_wf, resolve_all, spec_resolve, spec_symbols};
use crate::register::Register;
use crate::text::{is_word, spelled};
use crate::token::{spec_tokenize, tokenize, Token, TokenView, Tokens};
use crate::utils::{after, lemma_after_nothing, lemma_after_push, refines, Error, ErrorView};
use crate::value::{low_word, truncate_to_word, word_bytes, Value};

verus! {

/// The instruction that a mnemonic without operands stands for.
pub open spec fn spec_zero_op(op: TokenView) -> Option<Instruction> {
    match op {
        TokenView::Nop => Some(Instruction::Nop),
        TokenView::Ret => Some(Instruction::Ret),
        TokenView::Cli => Some(Instruction::Cli),
        _ => None,
    }
}

/// The operation of a mnemonic that takes one operand.
pub open spec fn spec_unary_op(op: TokenView) -> Option<UnaryOp> {
    match op {
        TokenView::Push => Some(UnaryOp::Push),
        TokenView::Pop => Some(UnaryOp::Pop),
        TokenView::Not => Some(UnaryOp::Not),
        TokenView::AJmp => Some(UnaryOp::AJmp),
        TokenView::Jmp => Some(UnaryOp::Jmp),
        TokenView::Jeq => Some(UnaryOp::Jeq),
        TokenView::Jneq => Some(UnaryOp::Jneq),
        TokenView::Jlt => Some(UnaryOp::Jlt),
        TokenView::Jgt => Some(UnaryOp::Jgt),
        TokenView::Jleq => Some(UnaryOp::Jleq),
        TokenView::Jgeq => Some(UnaryOp::Jgeq),
        TokenView::Jo => Some(UnaryOp::Jo),
        TokenView::Jno => Some(UnaryOp::Jno),
        TokenView::Call => Some(UnaryOp::Call),
        TokenView::Int => Some(UnaryOp::Int),
        TokenView::Sti => Some(UnaryOp::Sti),
        _ => None,
    }
}

/// The operation of a mnemonic that takes a source and a destination.
pub open spec fn spec_binary_op(op: TokenView) -> Option<BinaryOp> {
    match op {
        TokenView::Mov => Some(BinaryOp::Mov),
        TokenView::Add => Some(BinaryOp::Add),
        TokenView::Sub => Some(BinaryOp::Sub),
        TokenView::And => Some(BinaryOp::And),
        TokenView::Or => Some(BinaryOp::Or),
        TokenView::Cmp => Some(BinaryOp::Cmp),
        _ => None,
    }
}

/// The operation of a shift mnemonic.
pub open spec fn spec_shift_op(op: TokenView) -> Option<ShiftOp> {
    match op {
        TokenView::Shl => Some(ShiftOp::Shl),
        TokenView::Shr => Some(ShiftOp::Shr),
        TokenView::Shre => Some(ShiftOp::Shre),
        _ => None,
    }
}

/// The numbers of a list in which commas separate them, and the tokens
/// after the list. The list ends with the first number that no comma
/// follows; after a comma there must be a number.
pub open spec fn spec_parse_db_values(toks: Seq<TokenView>, context: Seq<char>) -> Result<
    (Seq<i64>, Seq<TokenView>),
    ErrorView,
>
    decreases toks.len(),
{
    if toks.len() == 0 {
        Err(ErrorView::EOF("a number"@, context))
    } else {
        match toks[0] {
            TokenView::Number(value) => {
                let rest = toks.drop_first();
                if rest.len() > 0 && rest[0] is Comma {
                    more_values(seq![value], spec_parse_db_values(rest.drop_first(), context))
                } else {
                    Ok((seq![value], rest))
                }
            },
            other => Err(ErrorView::UnexpectedToken(other, context)),
        }
    }
}

/// Puts the numbers `head` in front of the numbers that the rest of a list
/// gave.
pub open spec fn more_values(
    head: Seq<i64>,
    rest: Result<(Seq<i64>, Seq<TokenView>), ErrorView>,
) -> Result<(Seq<i64>, Seq<TokenView>), ErrorView> {
    match rest {
        Ok((tail, left)) => Ok((head + tail, left)),
        Err(e) => Err(e),
    }
}

/// The numbers from index `i` on as bytes. A number outside a byte's range
/// is refused.
pub open spec fn spec_data_bytes(values: Seq<i64>, i: int) -> Result<Seq<u8>, ErrorView>
    decreases values.len() - i,
{
    if i < 0 || i >= values.len() {
        Ok(Seq::empty())
    } else if 0 <= values[i] <= 0xff {
        after(seq![values[i] as u8], spec_data_bytes(values, i + 1))
    } else {
        Err(ErrorView::NumberTooLarge(values[i], "byte"@))
    }
}

/// The numbers from index `i` on as words, each with its low byte first. A
/// number outside a word's range is refused.
pub open spec fn spec_data_words(values: Seq<i64>, i: int) -> Result<Seq<u8>, ErrorView>
    decreases values.len() - i,
{
    if i < 0 || i >= values.len() {
        Ok(Seq::empty())
    } else if 0 <= values[i] <= 0xffff {
        after(Value::Word(values[i] as u16).encoding(), spec_data_words(values, i + 1))
    } else {
        Err(ErrorView::NumberTooLarge(values[i], "word"@))
    }
}

/// A `db` directive: every number of the list is one byte.
pub open spec fn spec_parse_db(toks: Seq<TokenView>) -> Result<
    (ExprView, Seq<TokenView>),
    ErrorView,
> {
    match spec_parse_db_values(toks, "db"@) {
        Ok((values, rest)) => match spec_data_bytes(values, 0) {
            Ok(bytes) => Ok((ExprView::DB(bytes), rest)),
            Err(e) => Err(e),
        },
        Err(e) => Err(e),
    }
}

/// A `dw` directive: every number of the list is one word, which gives two
/// bytes.
pub open spec fn spec_parse_dw(toks: Seq<TokenView>) -> Result<
    (ExprView, Seq<TokenView>),
    ErrorView,
> {
    match spec_parse_db_values(toks, "dw"@) {
        Ok((values, rest)) => match spec_data_words(values, 0) {
            Ok(bytes) => Ok((ExprView::DB(bytes), rest)),
            Err(e) => Err(e),
        },
        Err(e) => Err(e),
    }
}

/// Two operands with a comma between them, and the tokens after them.
pub open spec fn spec_parse_comma(toks: Seq<TokenView>, context: Seq<char>) -> Result<
    (TokenView, TokenView, Seq<TokenView>),
    ErrorView,
> {
    if toks.len() == 0 {
        Err(ErrorView::EOF("value"@, context))
    } else if toks.len() == 1 {
        Err(ErrorView::EOF("comma"@, context))
    } else if !(toks[1] is Comma) {
        Err(ErrorView::UnexpectedToken(toks[1], context))
    } else if toks.len() == 2 {
        Err(ErrorView::EOF("value"@, context))
    } else {
        Ok((toks[0], toks[2], toks.drop_first().drop_first().drop_first()))
    }
}

/// A mnemonic without operands.
pub open spec fn spec_parse_zero(op: TokenView) -> Result<ExprView, ErrorView> {
    match spec_zero_op(op) {
        Some(instruction) => Ok(ExprView::Instruction(instruction)),
        None => Err(ErrorView::UnexpectedToken(op, "parse_zero"@)),
    }
}

/// A mnemonic with one operand, which is a register.
pub open spec fn spec_parse_one_r(op: TokenView, reg: Register) -> Result<ExprView, ErrorView> {
    match spec_unary_op(op) {
        Some(unary) => Ok(ExprView::Instruction(Instruction::Unary(unary, reg))),
        None => Err(ErrorView::UnexpectedToken(op, "parse_one_r"@)),
    }
}

/// Only a call takes a number: the address, of which the low sixteen bits
/// count.
pub open spec fn spec_parse_one_c(op: TokenView, value: i64) -> Result<ExprView, ErrorView> {
    match op {
        TokenView::Call => Ok(
            ExprView::Instruction(Instruction::CallAddress(low_word(value as int) as u16)),
        ),
        _ => Err(ErrorView::UnexpectedToken(op, "parse_one_c"@)),
    }
}

/// A mnemonic with one operand: a register, or for a call a number.
pub open spec fn spec_parse_one(op: TokenView, toks: Seq<TokenView>) -> Result<
    (ExprView, Seq<TokenView>),
    ErrorView,
> {
    if toks.len() == 0 {
        Err(ErrorView::EOF("value"@, "parse_one"@))
    } else {
        with_rest(
            match toks[0] {
                TokenView::Register(reg) => spec_parse_one_r(op, reg),
                TokenView::Number(value) => spec_parse_one_c(op, value),
                other => Err(ErrorView::UnexpectedToken(other, "parse_one"@)),
            },
            toks.drop_first(),
        )
    }
}

/// A statement together with the tokens that follow it.
pub open spec fn with_rest(r: Result<ExprView, ErrorView>, rest: Seq<TokenView>) -> Result<
    (ExprView, Seq<TokenView>),
    ErrorView,
> {
    match r {
        Ok(e) => Ok((e, rest)),
        Err(e) => Err(e),
    }
}

/// Register to register: every mnemonic with two operands but the shifts.
pub open spec fn spec_parse_two_r2r(op: TokenView, r1: Register, r2: Register) -> Result<
    ExprView,
    ErrorView,
> {
    match spec_binary_op(op) {
        Some(binary) => Ok(ExprView::Instruction(Instruction::RegisterToRegister(binary, r1, r2))),
        None => Err(ErrorView::UnexpectedToken(op, "parse_two_r2r"@)),
    }
}

/// Register to pointer: a store, which only `mov` can be.
pub open spec fn spec_parse_two_r2p(op: TokenView, r1: Register, r2: Register) -> Result<
    ExprView,
    ErrorView,
> {
    match op {
        TokenView::Mov => Ok(ExprView::Instruction(Instruction::Store(r1, r2))),
        _ => Err(ErrorView::UnexpectedToken(op, "parse_two_r2p"@)),
    }
}

/// A register as first operand: the second is a register or a pointer.
pub open spec fn spec_parse_two_r(op: TokenView, r1: Register, t2: TokenView) -> Result<
    ExprView,
    ErrorView,
> {
    match t2 {
        TokenView::Register(r2) => spec_parse_two_r2r(op, r1, r2),
        TokenView::Pointer(r2) => spec_parse_two_r2p(op, r1, r2),
        _ => Err(ErrorView::UnexpectedToken(t2, "parse_two_r"@)),
    }
}

/// A number as source. The destination gives the width of the operand: of
/// the number the low bits of that width count. A shift takes the number
/// as it is written, which must be a distance that the width allows.
pub open spec fn spec_parse_two_c2r(op: TokenView, value: i64, reg: Register) -> Result<
    ExprView,
    ErrorView,
> {
    match spec_binary_op(op) {
        Some(binary) => Ok(
            ExprView::Instruction(
                Instruction::ImmediateToRegister(
                    binary,
                    Value::spec_new(reg.spec_width(), low_word(value as int) as u16),
                    reg,
                ),
            ),
        ),
        None => match spec_shift_op(op) {
            Some(shift) => {
                if shift_in_range(value as int, reg.spec_width()) {
                    Ok(
                        ExprView::Instruction(
                            Instruction::Shift(
                                shift,
                                Value::spec_new(reg.spec_width(), value as u16),
                                reg,
                            ),
                        ),
                    )
                } else {
                    Err(ErrorView::NumberTooLarge(value, "shift amount"@))
                }
            },
            None => Err(ErrorView::UnexpectedToken(op, "parse_two_c2r"@)),
        },
    }
}

/// A number as first operand: the second is a register.
pub open spec fn spec_parse_two_c(op: TokenView, v1: i64, t2: TokenView) -> Result<
    ExprView,
    ErrorView,
> {
    match t2 {
        TokenView::Register(reg) => spec_parse_two_c2r(op, v1, reg),
        _ => Err(ErrorView::UnexpectedToken(t2, "parse_two_c"@)),
    }
}

/// Pointer to register: a load, which only `mov` can be.
pub open spec fn spec_parse_two_p2r(op: TokenView, r1: Register, r2: Register) -> Result<
    ExprView,
    ErrorView,
> {
    match op {
        TokenView::Mov => Ok(ExprView::Instruction(Instruction::Load(r1, r2))),
        _ => Err(ErrorView::UnexpectedToken(op, "parse_two_p2r"@)),
    }
}

/// A pointer as first operand: the second is a register.
pub open spec fn spec_parse_two_p(op: TokenView, r1: Register, t2: TokenView) -> Result<
    ExprView,
    ErrorView,
> {
    match t2 {
        TokenView::Register(r2) => spec_parse_two_p2r(op, r1, r2),
        _ => Err(ErrorView::UnexpectedToken(t2, "parse_two_p"@)),
    }
}

/// Label to register: the load of an offset, which only `mov` can be.
pub open spec fn spec_parse_two_l2r(
    op: TokenView,
    label: Seq<u8>,
    relative: bool,
    reg: Register,
) -> Result<ExprView, ErrorView> {
    match op {
        TokenView::Mov => Ok(ExprView::MovC2R(label, reg, relative)),
        _ => Err(ErrorView::UnexpectedToken(op, "parse_two_l2r"@)),
    }
}

/// A label as first operand: the second is a register.
pub open spec fn spec_parse_two_l(
    op: TokenView,
    label: Seq<u8>,
    relative: bool,
    t2: TokenView,
) -> Result<ExprView, ErrorView> {
    match t2 {
        TokenView::Register(reg) => spec_parse_two_l2r(op, label, relative, reg),
        _ => Err(ErrorView::UnexpectedToken(t2, "parse_two_l"@)),
    }
}

/// Whether the tokens start with the word `rel` in front of a label, which
/// makes the load of that label relative.
pub open spec fn spec_relative_prefix(toks: Seq<TokenView>) -> bool {
    toks.len() >= 2 && match (toks[0], toks[1]) {
        (TokenView::IdentifierRef(word), TokenView::IdentifierRef(_)) => spelled(word, "rel"),
        _ => false,
    }
}

/// A mnemonic with two operands: the operands with a comma between them,
/// the first of which decides what the second may be. The word `rel` in
/// front of a label makes the load of that label relative.
pub open spec fn spec_parse_two(op: TokenView, toks: Seq<TokenView>) -> Result<
    (ExprView, Seq<TokenView>),
    ErrorView,
> {
    let relative = spec_relative_prefix(toks);
    let operands = if relative {
        toks.drop_first()
    } else {
        toks
    };
    match spec_parse_comma(operands, "parse_two"@) {
        Ok((t1, t2, rest)) => with_rest(
            match t1 {
                TokenView::Register(r1) => spec_parse_two_r(op, r1, t2),
                TokenView::Pointer(r1) => spec_parse_two_p(op, r1, t2),
                TokenView::Number(v1) => spec_parse_two_c(op, v1, t2),
                TokenView::IdentifierRef(label) => spec_parse_two_l(op, label, relative, t2),
                _ => Err(ErrorView::UnexpectedToken(t1, "parse_two"@)),
            },
            rest,
        ),
        Err(e) => Err(e),
    }
}

/// The statement that starts with the token `t`, which `toks` follow, and
/// the tokens after the statement.
#[verifier::opaque]
pub open spec fn spec_parse_toks(t: TokenView, toks: Seq<TokenView>) -> Result<
    (ExprView, Seq<TokenView>),
    ErrorView,
> {
    match t {
        TokenView::IdentifierDef(name) => Ok((ExprView::IdentifierDef(name), toks)),
        TokenView::DB => spec_parse_db(toks),
        TokenView::DW => spec_parse_dw(toks),
        _ => if spec_zero_op(t) is Some {
            with_rest(spec_parse_zero(t), toks)
        } else if spec_unary_op(t) is Some {
            spec_parse_one(t, toks)
        } else if spec_binary_op(t) is Some || spec_shift_op(t) is Some {
            spec_parse_two(t, toks)
        } else {
            Err(ErrorView::UnexpectedToken(t, "parse_toks"@))
        },
    }
}

/// A list of numbers leaves fewer tokens than it found.
pub proof fn lemma_values_consume(toks: Seq<TokenView>, context: Seq<char>)
    ensures
        match spec_parse_db_values(toks, context) {
            Ok((_, rest)) => rest.len() < toks.len(),
            Err(_) => true,
        },
    decreases toks.len(),
{
    if toks.len() > 0 && toks[0] is Number {
        let rest = toks.drop_first();
        if rest.len() > 0 && rest[0] is Comma {
            lemma_values_consume(rest.drop_first(), context);
        }
    }
}

/// A statement leaves no more tokens than it found.
pub proof fn lemma_statement_consumes(t: TokenView, toks: Seq<TokenView>)
    ensures
        match spec_parse_toks(t, toks) {
            Ok((_, rest)) => rest.len() <= toks.len(),
            Err(_) => true,
        },
{
    reveal(spec_parse_toks);
    lemma_values_consume(toks, "db"@);
    lemma_values_consume(toks, "dw"@);
}

/// The statements that a sequence of tokens spells.
#[verifier::opaque]
pub open spec fn spec_parse_all(toks: Seq<TokenView>) -> Result<Seq<ExprView>, ErrorView>
    decreases toks.len(),
{
    if toks.len() == 0 {
        Ok(Seq::empty())
    } else {
        match spec_parse_toks(toks[0], toks.drop_first()) {
            Ok((e, rest)) => {
                proof {
                    lemma_statement_consumes(toks[0], toks.drop_first());
                }
                after(seq![e], spec_parse_all(rest))
            },
            Err(e) => Err(e),
        }
    }
}

/// What `spec_parse_all` gives for tokens whose first statement is known.
pub proof fn lemma_parse_all_step(toks: Seq<TokenView>)
    requires
        toks.len() > 0,
    ensures
        spec_parse_all(toks) == match spec_parse_toks(toks[0], toks.drop_first()) {
            Ok((e, rest)) => after(seq![e], spec_parse_all(rest)),
            Err(e) => Err(e),
        },
{
    reveal(spec_parse_all);
}

/// No tokens spell no statements.
pub proof fn lemma_parse_all_nothing(toks: Seq<TokenView>)
    requires
        toks.len() == 0,
    ensures
        spec_parse_all(toks) == Ok::<Seq<ExprView>, ErrorView>(Seq::empty()),
{
    reveal(spec_parse_all);
}

/// The statements of a source text.
#[verifier::opaque]
pub open spec fn spec_parse_to_exprs(s: Seq<u8>) -> Result<Seq<ExprView>, ErrorView> {
    match spec_tokenize(s) {
        Ok(toks) => spec_parse_all(toks),
        Err(e) => Err(e),
    }
}

/// Every instruction that the parser gives is well formed: an immediate has
/// the width of its register and a shift distance lies in its range.
pub proof fn lemma_statement_wf(t: TokenView, toks: Seq<TokenView>)
    requires
        spec_parse_toks(t, toks) is Ok,
    ensures
        spec_parse_toks(t, toks)->Ok_0.0.wf(),
{
    reveal(spec_parse_toks);
}

/// Every statement of a parsed program is well formed.
pub proof fn lemma_parse_all_wf(toks: Seq<TokenView>)
    requires
        spec_parse_all(toks) is Ok,
    ensures
        forall|i: int|
            0 <= i < spec_parse_all(toks)->Ok_0.len() ==> (#[trigger] spec_parse_all(
                toks,
            )->Ok_0[i]).wf(),
    decreases toks.len(),
{
    if toks.len() == 0 {
        lemma_parse_all_nothing(toks);
    } else {
        lemma_parse_all_step(toks);
        lemma_statement_consumes(toks[0], toks.drop_first());
        lemma_statement_wf(toks[0], toks.drop_first());
        let rest = spec_parse_toks(toks[0], toks.drop_first())->Ok_0.1;
        lemma_parse_all_wf(rest);
    }
}

/// Which pairs of operands a mnemonic with two operands takes: two
/// registers for every mnemonic that is no shift; a register and a pointer,
/// in either order, and a label and a register for `mov` alone; a number
/// and a register for every mnemonic, where for a shift the number is a
/// distance that the register allows.
pub open spec fn operands_accepted(op: TokenView, first: TokenView, second: TokenView) -> bool {
    match (first, second) {
        (TokenView::Register(_), TokenView::Register(_)) => spec_binary_op(op) is Some,
        (TokenView::Register(_), TokenView::Pointer(_)) => op is Mov,
        (TokenView::Pointer(_), TokenView::Register(_)) => op is Mov,
        (TokenView::Number(n), TokenView::Register(r)) => spec_binary_op(op) is Some || (
        spec_shift_op(op) is Some && shift_in_range(n as int, r.spec_width())),
        (TokenView::IdentifierRef(_), TokenView::Register(_)) => op is Mov,
        _ => false,
    }
}

/// A mnemonic with two operands, followed by an operand, a comma and an
/// operand, is a statement exactly where the table of `operands_accepted`
/// holds the combination. A refused combination is an `UnexpectedToken`, but
/// for a shift distance out of range, which is a `NumberTooLarge`.
pub proof fn lemma_two_operand_table(
    op: TokenView,
    first: TokenView,
    second: TokenView,
    rest: Seq<TokenView>,
)
    requires
        spec_binary_op(op) is Some || spec_shift_op(op) is Some,
        !(first is Comma),
    ensures
        ({
            let toks = seq![first, TokenView::Comma, second] + rest;
            &&& spec_parse_two(op, toks) is Ok <==> operands_accepted(op, first, second)
            &&& spec_parse_two(op, toks) is Ok ==> spec_parse_two(op, toks)->Ok_0.1 == rest
            &&& spec_parse_two(op, toks) is Err ==> (spec_parse_two(op, toks)->Err_0
                is UnexpectedToken || spec_parse_two(op, toks)->Err_0 is NumberTooLarge)
        }),
{
    let toks = seq![first, TokenView::Comma, second] + rest;
    assert(toks[0] == first);
    assert(toks[1] == TokenView::Comma);
    assert(toks[2] == second);
    assert(!spec_relative_prefix(toks));
    assert(toks.drop_first().drop_first().drop_first() =~= rest);
}

/// What a function that reads a statement from the tokens leaves behind:
/// the statement and the tokens after it, or the error, as `expected` says.
pub open spec fn parsed(
    r: Result<Expr, Error>,
    left: Seq<TokenView>,
    expected: Result<(ExprView, Seq<TokenView>), ErrorView>,
) -> bool {
    match expected {
        Ok((e, rest)) => r is Ok && r->Ok_0@ == e && left == rest,
        Err(e) => r is Err && r->Err_0@ == e,
    }
}

/// Numbers may be put in front of a list one by one or all at once.
proof fn lemma_more_values_push(
    head: Seq<i64>,
    value: i64,
    rest: Result<(Seq<i64>, Seq<TokenView>), ErrorView>,
)
    ensures
        more_values(head.push(value), rest) == more_values(head, more_values(seq![value], rest)),
{
    match rest {
        Ok((tail, _)) => {
            assert(head.push(value) + tail =~= head + (seq![value] + tail));
        },
        Err(_) => {},
    }
}

/// Whether the next token is a comma.
fn comma_follows(toks: &Tokens) -> (r: bool)
    ensures
        r == (toks@.len() > 0 && toks@[0] is Comma),
{
    match toks.peek(0) {
        Some(Token::Comma) => true,
        _ => false,
    }
}

/// Reads a list of numbers with commas between them.
fn parse_db_values(toks: &mut Tokens, ctx: &'static str) -> (r: Result<Vec<i64>, Error>)
    ensures
        match spec_parse_db_values(old(toks)@, ctx@) {
            Ok((values, rest)) => r is Ok && r->Ok_0@ == values && final(toks)@ == rest,
            Err(e) => r is Err && r->Err_0@ == e,
        },
{
    let mut values: Vec<i64> = Vec::new();
    let ghost all = toks@;
    proof {
        match spec_parse_db_values(all, ctx@) {
            Ok((found, _)) => {
                assert(Seq::<i64>::empty() + found =~= found);
            },
            Err(_) => {},
        }
    }
    loop
        invariant
            all == old(toks)@,
            spec_parse_db_values(all, ctx@) == more_values(
                values@,
                spec_parse_db_values(toks@, ctx@),
            ),
        decreases toks@.len(),
    {
        let ghost seen = values@;
        let t = match toks.pop() {
            Some(t) => t,
            None => {
                return Err(Error::EOF("a number", ctx));
            },
        };
        let value = match t {
            Token::Number(value) => value,
            _ => {
                return Err(Error::UnexpectedToken(t, ctx));
            },
        };
        values.push(value);
        if !comma_follows(toks) {
            proof {
                assert(seen + seq![value] =~= values@);
            }
            return Ok(values);
        }
        let _ = toks.pop();
        proof {
            lemma_more_values_push(seen, value, spec_parse_db_values(toks@, ctx@));
        }
    }
}

/// Reads the numbers of a `db` directive, each of which must be a byte.
fn parse_db(toks: &mut Tokens) -> (r: Result<Expr, Error>)
    ensures
        parsed(r, final(toks)@, spec_parse_db(old(toks)@)),
{
    let numbers = match parse_db_values(toks, "db") {
        Ok(numbers) => numbers,
        Err(e) => {
            return Err(e);
        },
    };
    let mut values: Vec<u8> = Vec::new();
    let mut i: usize = 0;
    let ghost rest = toks@;
    proof {
        assert(Seq::<u8>::empty() + spec_data_bytes(numbers@, 0)->Ok_0 =~= spec_data_bytes(
            numbers@,
            0,
        )->Ok_0);
    }
    while i < numbers.len()
        invariant
            i <= numbers.len(),
            toks@ == rest,
            spec_parse_db_values(old(toks)@, "db"@) == Ok::<(Seq<i64>, Seq<TokenView>), ErrorView>(
                (numbers@, rest),
            ),
            spec_data_bytes(numbers@, 0) == after(values@, spec_data_bytes(numbers@, i as int)),
        decreases numbers.len() - i,
    {
        let value = numbers[i];
        if value < 0 || value > 0xff {
            return Err(Error::NumberTooLarge(value, "byte"));
        }
        proof {
            lemma_after_push(values@, value as u8, spec_data_bytes(numbers@, i + 1));
        }
        values.push(value as u8);
        i += 1;
    }
    proof {
        lemma_after_nothing::<u8, ErrorView>(values@);
    }
    Ok(Expr::DB(values))
}

/// Reads the numbers of a `dw` directive, each of which must be a word.
fn parse_dw(toks: &mut Tokens) -> (r: Result<Expr, Error>)
    ensures
        parsed(r, final(toks)@, spec_parse_dw(old(toks)@)),
{
    let numbers = match parse_db_values(toks, "dw") {
        Ok(numbers) => numbers,
        Err(e) => {
            return Err(e);
        },
    };
    let mut values: Vec<u8> = Vec::new();
    let mut i: usize = 0;
    let ghost rest = toks@;
    proof {
        assert(Seq::<u8>::empty() + spec_data_words(numbers@, 0)->Ok_0 =~= spec_data_words(
            numbers@,
            0,
        )->Ok_0);
    }
    while i < numbers.len()
        invariant
            i <= numbers.len(),
            toks@ == rest,
            spec_parse_db_values(old(toks)@, "dw"@) == Ok::<(Seq<i64>, Seq<TokenView>), ErrorView>(
                (numbers@, rest),
            ),
            spec_data_words(numbers@, 0) == after(values@, spec_data_words(numbers@, i as int)),
        decreases numbers.len() - i,
    {
        let value = numbers[i];
        if value < 0 || value > 0xffff {
            return Err(Error::NumberTooLarge(value, "word"));
        }
        let (low, high) = word_bytes(value as u16);
        proof {
            let rest = spec_data_words(numbers@, i + 1);
            lemma_after_push(values@, low, after(seq![high], rest));
            lemma_after_push(values@.push(low), high, rest);
            match rest {
                Ok(tail) => {
                    assert(seq![low] + (seq![high] + tail) =~= seq![low, high] + tail);
                },
                Err(_) => {},
            }
        }
        values.push(low);
        values.push(high);
        i += 1;
    }
    proof {
        lemma_after_nothing::<u8, ErrorView>(values@);
    }
    Ok(Expr::DB(values))
}

/// Reads two operands with a comma between them.
fn parse_comma(toks: &mut Tokens, ctx: &'static str) -> (r: Result<(Token, Token), Error>)
    ensures
        match spec_parse_comma(old(toks)@, ctx@) {
            Ok((t1, t2, rest)) => r is Ok && r->Ok_0.0@ == t1 && r->Ok_0.1@ == t2 && final(toks)@
                == rest,
            Err(e) => r is Err && r->Err_0@ == e,
        },
{
    let t1 = match toks.pop() {
        Some(t) => t,
        None => {
            return Err(Error::EOF("value", ctx));
        },
    };
    let t2 = match toks.pop() {
        Some(t) => t,
        None => {
            return Err(Error::EOF("comma", ctx));
        },
    };
    match t2 {
        Token::Comma => {},
        _ => {
            return Err(Error::UnexpectedToken(t2, ctx));
        },
    }
    let t3 = match toks.pop() {
        Some(t) => t,
        None => {
            return Err(Error::EOF("value", ctx));
        },
    };
    Ok((t1, t3))
}

/// Builds the statement of a mnemonic without operands.
fn parse_zero(op: Token) -> (r: Result<Expr, Error>)
    ensures
        refines(r, spec_parse_zero(op@)),
{
    Ok(
        Expr::Instruction(
            match op {
                Token::Nop => Instruction::Nop,
                Token::Ret => Instruction::Ret,
                Token::Cli => Instruction::Cli,
                _ => {
                    return Err(Error::UnexpectedToken(op, "parse_zero"));
                },
            },
        ),
    )
}

/// Builds the statement of a mnemonic with a register as its operand.
fn parse_one_r(op: Token, reg: Register) -> (r: Result<Expr, Error>)
    ensures
        refines(r, spec_parse_one_r(op@, reg)),
{
    let unary = match op {
        Token::Push => UnaryOp::Push,
        Token::Pop => UnaryOp::Pop,
        Token::Not => UnaryOp::Not,
        Token::AJmp => UnaryOp::AJmp,
        Token::Jmp => UnaryOp::Jmp,
        Token::Jeq => UnaryOp::Jeq,
        Token::Jneq => UnaryOp::Jneq,
        Token::Jlt => UnaryOp::Jlt,
        Token::Jgt => UnaryOp::Jgt,
        Token::Jleq => UnaryOp::Jleq,
        Token::Jgeq => UnaryOp::Jgeq,
        Token::Jo => UnaryOp::Jo,
        Token::Jno => UnaryOp::Jno,
        Token::Call => UnaryOp::Call,
        Token::Int => UnaryOp::Int,
        Token::Sti => UnaryOp::Sti,
        _ => {
            return Err(Error::UnexpectedToken(op, "parse_one_r"));
        },
    };
    Ok(Expr::Instruction(Instruction::Unary(unary, reg)))
}

/// Builds the statement of a mnemonic with a number as its operand.
fn parse_one_c(op: Token, value: i64) -> (r: Result<Expr, Error>)
    ensures
        refines(r, spec_parse_one_c(op@, value)),
{
    match op {
        Token::Call => Ok(Expr::Instruction(Instruction::CallAddress(truncate_to_word(value)))),
        _ => Err(Error::UnexpectedToken(op, "parse_one_c")),
    }
}

/// Reads the operand of a mnemonic that takes one.
fn parse_one(op: Token, toks: &mut Tokens) -> (r: Result<Expr, Error>)
    ensures
        parsed(r, final(toks)@, spec_parse_one(op@, old(toks)@)),
{
    let t = match toks.pop() {
        Some(t) => t,
        None => {
            return Err(Error::EOF("value", "parse_one"));
        },
    };
    match t {
        Token::Register(reg) => parse_one_r(op, reg),
        Token::Number(value) => parse_one_c(op, value),
        _ => Err(Error::UnexpectedToken(t, "parse_one")),
    }
}

/// The operation of a mnemonic that takes a source and a destination.
fn binary_op(op: &Token) -> (r: Option<BinaryOp>)
    ensures
        r == spec_binary_op(op@),
{
    match op {
        Token::Mov => Some(BinaryOp::Mov),
        Token::Add => Some(BinaryOp::Add),
        Token::Sub => Some(BinaryOp::Sub),
        Token::And => Some(BinaryOp::And),
        Token::Or => Some(BinaryOp::Or),
        Token::Cmp => Some(BinaryOp::Cmp),
        _ => None,
    }
}

/// Builds the statement of a mnemonic with two registers.
fn parse_two_r2r(op: Token, r1: Register, r2: Register) -> (r: Result<Expr, Error>)
    ensures
        refines(r, spec_parse_two_r2r(op@, r1, r2)),
{
    match binary_op(&op) {
        Some(binary) => Ok(Expr::Instruction(Instruction::RegisterToRegister(binary, r1, r2))),
        None => Err(Error::UnexpectedToken(op, "parse_two_r2r")),
    }
}

/// Builds the statement of a mnemonic with a register and a pointer.
fn parse_two_r2p(op: Token, r1: Register, r2: Register) -> (r: Result<Expr, Error>)
    ensures
        refines(r, spec_parse_two_r2p(op@, r1, r2)),
{
    match op {
        Token::Mov => Ok(Expr::Instruction(Instruction::Store(r1, r2))),
        _ => Err(Error::UnexpectedToken(op, "parse_two_r2p")),
    }
}

/// Builds the statement of a mnemonic whose first operand is a register.
fn parse_two_r(op: Token, r1: Register, t2: Token) -> (r: Result<Expr, Error>)
    ensures
        refines(r, spec_parse_two_r(op@, r1, t2@)),
{
    match t2 {
        Token::Register(r2) => parse_two_r2r(op, r1, r2),
        Token::Pointer(r2) => parse_two_r2p(op, r1, r2),
        _ => Err(Error::UnexpectedToken(t2, "parse_two_r")),
    }
}

/// Builds the statement of a mnemonic with a number and a register.
fn parse_two_c2r(op: Token, value: i64, reg: Register) -> (r: Result<Expr, Error>)
    ensures
        refines(r, spec_parse_two_c2r(op@, value, reg)),
{
    match binary_op(&op) {
        Some(binary) => {
            let operand = Value::new(reg.width(), truncate_to_word(value));
            Ok(Expr::Instruction(Instruction::ImmediateToRegister(binary, operand, reg)))
        },
        None => {
            let shift = match op {
                Token::Shl => ShiftOp::Shl,
                Token::Shr => ShiftOp::Shr,
                Token::Shre => ShiftOp::Shre,
                _ => {
                    return Err(Error::UnexpectedToken(op, "parse_two_c2r"));
                },
            };
            let width = reg.width();
            if value < 1 || value > width.bits() as i64 {
                return Err(Error::NumberTooLarge(value, "shift amount"));
            }
            let amount = Value::new(width, value as u16);
            Ok(Expr::Instruction(Instruction::Shift(shift, amount, reg)))
        },
    }
}

/// Builds the statement of a mnemonic whose first operand is a number.
fn parse_two_c(op: Token, v1: i64, t2: Token) -> (r: Result<Expr, Error>)
    ensures
        refines(r, spec_parse_two_c(op@, v1, t2@)),
{
    match t2 {
        Token::Register(reg) => parse_two_c2r(op, v1, reg),
        _ => Err(Error::UnexpectedToken(t2, "parse_two_c")),
    }
}

/// Builds the statement of a mnemonic with a pointer and a register.
fn parse_two_p2r(op: Token, r1: Register, r2: Register) -> (r: Result<Expr, Error>)
    ensures
        refines(r, spec_parse_two_p2r(op@, r1, r2)),
{
    match op {
        Token::Mov => Ok(Expr::Instruction(Instruction::Load(r1, r2))),
        _ => Err(Error::UnexpectedToken(op, "parse_two_p2r")),
    }
}

/// Builds the statement of a mnemonic whose first operand is a pointer.
fn parse_two_p(op: Token, r1: Register, t2: Token) -> (r: Result<Expr, Error>)
    ensures
        refines(r, spec_parse_two_p(op@, r1, t2@)),
{
    match t2 {
        Token::Register(r2) => parse_two_p2r(op, r1, r2),
        _ => Err(Error::UnexpectedToken(t2, "parse_two_p")),
    }
}

/// Builds the statement of a mnemonic with a label and a register.
fn parse_two_l2r(op: Token, label: String, relative: bool, reg: Register) -> (r: Result<
    Expr,
    Error,
>)
    ensures
        refines(r, spec_parse_two_l2r(op@, encode_utf8(label@), relative, reg)),
{
    match op {
        Token::Mov => Ok(Expr::MovC2R(label, reg, relative)),
        _ => Err(Error::UnexpectedToken(op, "parse_two_l2r")),
    }
}

/// Builds the statement of a mnemonic whose first operand is a label.
fn parse_two_l(op: Token, l1: String, relative: bool, t2: Token) -> (r: Result<Expr, Error>)
    ensures
        refines(r, spec_parse_two_l(op@, encode_utf8(l1@), relative, t2@)),
{
    match t2 {
        Token::Register(r2) => parse_two_l2r(op, l1, relative, r2),
        _ => Err(Error::UnexpectedToken(t2, "parse_two_l")),
    }
}

/// Whether the next two tokens are the word `rel` and a label.
fn relative_prefix(toks: &Tokens) -> (r: bool)
    ensures
        r == spec_relative_prefix(toks@),
{
    match toks.peek(0) {
        Some(Token::IdentifierRef(word)) => match toks.peek(1) {
            Some(Token::IdentifierRef(_)) => is_word(word.as_str().as_bytes(), "rel"),
            _ => false,
        },
        _ => false,
    }
}

/// Reads the operands of a mnemonic that takes two.
fn parse_two(op: Token, toks: &mut Tokens) -> (r: Result<Expr, Error>)
    ensures
        parsed(r, final(toks)@, spec_parse_two(op@, old(toks)@)),
{
    let relative = relative_prefix(toks);
    if relative {
        let _ = toks.pop();
    }
    let (t1, t2) = match parse_comma(toks, "parse_two") {
        Ok(pair) => pair,
        Err(e) => {
            return Err(e);
        },
    };
    match t1 {
        Token::Register(r1) => parse_two_r(op, r1, t2),
        Token::Pointer(r1) => parse_two_p(op, r1, t2),
        Token::Number(v1) => parse_two_c(op, v1, t2),
        Token::IdentifierRef(label) => parse_two_l(op, label, relative, t2),
        _ => Err(Error::UnexpectedToken(t1, "parse_two")),
    }
}

/// Reads the statement that starts with the token `t`.
fn parse_toks(t: Token, toks: &mut Tokens) -> (r: Result<Expr, Error>)
    ensures
        parsed(r, final(toks)@, spec_parse_toks(t@, old(toks)@)),
{
    reveal(spec_parse_toks);
    match t {
        Token::IdentifierDef(ident) => Ok(Expr::IdentifierDef(ident)),
        Token::DB => parse_db(toks),
        Token::DW => parse_dw(toks),
        Token::Nop | Token::Ret | Token::Cli => parse_zero(t),
        Token::Push
        | Token::Pop
        | Token::Not
        | Token::AJmp
        | Token::Jmp
        | Token::Jeq
        | Token::Jneq
        | Token::Jlt
        | Token::Jgt
        | Token::Jleq
        | Token::Jgeq
        | Token::Jo
        | Token::Jno
        | Token::Call
        | Token::Int
        | Token::Sti => parse_one(t, toks),
        Token::Mov
        | Token::Add
        | Token::Sub
        | Token::And
        | Token::Or
        | Token::Shl
        | Token::Shr
        | Token::Shre
        | Token::Cmp => parse_two(t, toks),
        _ => Err(Error::UnexpectedToken(t, "parse_toks")),
    }
}

/// The next statement, if any token is left.
fn next_statement(toks: &mut Tokens) -> (r: Result<Option<Expr>, Error>)
    ensures
        match r {
            Ok(None) => old(toks)@.len() == 0 && final(toks)@.len() == 0,
            Ok(Some(expr)) => old(toks)@.len() > 0 && final(toks)@.len() < old(toks)@.len()
                && spec_parse_toks(old(toks)@[0], old(toks)@.drop_first()) == Ok::<
                (ExprView, Seq<TokenView>),
                ErrorView,
            >((expr@, final(toks)@)),
            Err(e) => old(toks)@.len() > 0 && spec_parse_toks(
                old(toks)@[0],
                old(toks)@.drop_first(),
            ) == Err::<(ExprView, Seq<TokenView>), ErrorView>(e@),
        },
{
    proof {
        if toks@.len() > 0 {
            lemma_statement_consumes(toks@[0], toks@.drop_first());
        }
    }
    let t = match toks.pop() {
        Some(t) => t,
        None => {
            return Ok(None);
        },
    };
    match parse_toks(t, toks) {
        Ok(expr) => Ok(Some(expr)),
        Err(e) => Err(e),
    }
}

/// Parses the statements that the tokens spell.
pub fn parse_all(toks: Tokens) -> (r: Result<Vec<Expr>, Error>)
    ensures
        refines(r, spec_parse_all(toks@)),
{
    let mut left = toks;
    let mut res: Vec<Expr> = Vec::new();
    let ghost all = toks@;
    proof {
        assert(res.deep_view() =~= Seq::empty());
        assert(Seq::<ExprView>::empty() + spec_parse_all(all)->Ok_0 =~= spec_parse_all(all)->Ok_0);
    }
    loop
        invariant
            all == toks@,
            spec_parse_all(all) == after(res.deep_view(), spec_parse_all(left@)),
        decreases left@.len(),
    {
        let ghost seen = res.deep_view();
        proof {
            if left@.len() > 0 {
                lemma_parse_all_step(left@);
            } else {
                lemma_parse_all_nothing(left@);
            }
        }
        match next_statement(&mut left) {
            Ok(Some(expr)) => {
                proof {
                    lemma_after_push(seen, expr@, spec_parse_all(left@));
                }
                res.push(expr);
                proof {
                    assert(res.deep_view() =~= seen.push(expr@));
                }
            },
            Ok(None) => {
                proof {
                    lemma_after_nothing::<ExprView, ErrorView>(seen);
                }
                return Ok(res);
            },
            Err(e) => {
                return Err(e);
            },
        }
    }
}

/// Parses a program into its statements.
pub fn parse_to_exprs(code: &str) -> (r: Result<Vec<Expr>, Error>)
    ensures
        refines(r, spec_parse_to_exprs(code.spec_bytes())),
{
    reveal(spec_parse_to_exprs);
    match tokenize(code) {
        Ok(toks) => parse_all(toks),
        Err(e) => Err(e),
    }
}

/// The instructions and the symbol table of a source text.
pub open spec fn spec_parse(s: Seq<u8>) -> Result<
    (Seq<Instruction>, Map<Seq<char>, u16>),
    ErrorView,
> {
    match spec_parse_to_exprs(s) {
        Ok(exprs) => match spec_resolve(exprs, spec_symbols(exprs)) {
            Ok(instructions) => Ok((instructions, spec_symbols(exprs))),
            Err(e) => Err(e),
        },
        Err(e) => Err(e),
    }
}

/// Every instruction of a parsed program is well formed.
pub proof fn lemma_parse_wf(s: Seq<u8>)
    requires
        spec_parse(s) is Ok,
    ensures
        forall|i: int|
            0 <= i < spec_parse(s)->Ok_0.0.len() ==> (#[trigger] spec_parse(s)->Ok_0.0[i]).wf(),
{
    reveal(spec_parse_to_exprs);
    let toks = spec_tokenize(s)->Ok_0;
    let exprs = spec_parse_to_exprs(s)->Ok_0;
    lemma_parse_all_wf(toks);
    lemma_resolved_wf(exprs, spec_symbols(exprs));
}

/// Parses a program and resolves its labels: gives the instructions in
/// source order and the offset of every label.
pub fn parse(code: &str) -> (r: Result<(Vec<Instruction>, StringHashMap<u16>), Error>)
    ensures
        match spec_parse(code.spec_bytes()) {
            Ok((instructions, symbols)) => r is Ok && r->Ok_0.0@ == instructions && r->Ok_0.1@
                == symbols,
            Err(e) => r is Err && r->Err_0@ == e,
        },
        r is Ok ==> forall|i: int|
            0 <= i < r->Ok_0.0@.len() ==> (#[trigger] r->Ok_0.0@[i]).wf(),
{
    proof {
        if spec_parse(code.spec_bytes()) is Ok {
            lemma_parse_wf(code.spec_bytes());
        }
    }
    let exprs = match parse_to_exprs(code) {
        Ok(exprs) => exprs,
        Err(e) => {
            return Err(e);
        },
    };
    let identifiers = build(&exprs);
    match resolve_all(&exprs, &identifiers) {
        Ok(res) => Ok((res, identifiers)),
        Err(e) => Err(e),
    }
}

} // verus!
