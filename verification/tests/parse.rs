use sasm_lib::{parse, Error, Instruction, Register, Value};

/// Parses `code`, which defines no label, and gives its instructions.
fn instructions_of(code: &str) -> Vec<Instruction> {
    match parse(code) {
        Ok((instructions, symbols)) => {
            assert!(symbols.is_empty());
            instructions
        },
        Err(error) => panic!("{:?}", error),
    }
}

#[test]
fn empty() {
    assert_eq!(instructions_of(""), Vec::<Instruction>::new());
}

#[test]
fn comment() {
    assert_eq!(instructions_of("// This is a comment"), Vec::<Instruction>::new());
}

#[test]
fn multi_comment() {
    assert_eq!(instructions_of("/* This is a\n * multiline\n * comment\n */"), Vec::<Instruction>::new());
}

#[test]
fn nop_comment() {
    assert_eq!(instructions_of("nop // This is a comment"), vec![Instruction::nop()]);
}

#[test]
fn nop() {
    assert_eq!(instructions_of("nop"), vec![Instruction::nop()]);
}

#[test]
fn db() {
    assert_eq!(instructions_of("db 0xF3"), vec![Instruction::db(0xF3)]);
}

#[test]
fn db_multi() {
    assert_eq!(instructions_of("db 0xF3, 0x37"), vec![Instruction::db(0xF3), Instruction::db(0x37)]);
}

#[test]
fn db_err() {
    assert_eq!(parse("db 0xFFFF").err(), Some(Error::NumberTooLarge(0xFFFF, "byte")));
}

#[test]
fn dw() {
    assert_eq!(instructions_of("dw 0xF337"), vec![Instruction::db(0x37), Instruction::db(0xF3)]);
}

#[test]
fn movc2r_byte() {
    assert_eq!(instructions_of("mov 0xF3, rb0"), vec![Instruction::movc2r(Value::byte(0xF3), Register::Rb0).unwrap()]);
}

#[test]
fn movc2r_word() {
    assert_eq!(instructions_of("mov 0xF337, r1"), vec![Instruction::movc2r(Value::word(0xF337), Register::R1).unwrap()]);
}

#[test]
fn movr2r_byte() {
    assert_eq!(instructions_of("mov rb2, rb3"), vec![Instruction::movr2r(Register::Rb2, Register::Rb3)]);
}

#[test]
fn movr2r_word() {
    assert_eq!(instructions_of("mov r4, r5"), vec![Instruction::movr2r(Register::R4, Register::R5)]);
}

#[test]
fn movm2r_byte() {
    assert_eq!(instructions_of("mov [r6], rb7"), vec![Instruction::movm2r(Register::R6, Register::Rb7)]);
}

#[test]
fn movm2r_word() {
    assert_eq!(instructions_of("mov [r6], r7"), vec![Instruction::movm2r(Register::R6, Register::R7)]);
}

#[test]
fn movr2m_byte() {
    assert_eq!(instructions_of("mov rb8, [r9]"), vec![Instruction::movr2m(Register::Rb8, Register::R9)]);
}

#[test]
fn movr2m_word() {
    assert_eq!(instructions_of("mov r8, [r9]"), vec![Instruction::movr2m(Register::R8, Register::R9)]);
}

#[test]
fn push() {
    assert_eq!(instructions_of("push r0"), vec![Instruction::push(Register::R0)]);
}

#[test]
fn pop() {
    assert_eq!(instructions_of("pop r0"), vec![Instruction::pop(Register::R0)]);
}

#[test]
fn addc2r_byte() {
    assert_eq!(instructions_of("add 0xF3, rb1"), vec![Instruction::addc2r(Value::byte(0xF3), Register::Rb1).unwrap()]);
}

#[test]
fn addc2r_word() {
    assert_eq!(instructions_of("add 0xF337, r1"), vec![Instruction::addc2r(Value::word(0xF337), Register::R1).unwrap()]);
}

#[test]
fn addr2r_byte() {
    assert_eq!(instructions_of("add rb0, rb1"), vec![Instruction::addr2r(Register::Rb0, Register::Rb1)]);
}

#[test]
fn addr2r_word() {
    assert_eq!(instructions_of("add r0, r1"), vec![Instruction::addr2r(Register::R0, Register::R1)]);
}

#[test]
fn subc2r_byte() {
    assert_eq!(instructions_of("sub 0xF3, rb1"), vec![Instruction::subc2r(Value::byte(0xF3), Register::Rb1).unwrap()]);
}

#[test]
fn subc2r_word() {
    assert_eq!(instructions_of("sub 0xF337, r1"), vec![Instruction::subc2r(Value::word(0xF337), Register::R1).unwrap()]);
}

#[test]
fn subr2r_byte() {
    assert_eq!(instructions_of("sub rb0, rb1"), vec![Instruction::subr2r(Register::Rb0, Register::Rb1)]);
}

#[test]
fn subr2r_word() {
    assert_eq!(instructions_of("sub r0, r1"), vec![Instruction::subr2r(Register::R0, Register::R1)]);
}

#[test]
fn not_byte() {
    assert_eq!(instructions_of("not rb0"), vec![Instruction::not(Register::Rb0)]);
}

#[test]
fn not_word() {
    assert_eq!(instructions_of("not r0"), vec![Instruction::not(Register::R0)]);
}

#[test]
fn andc2r_byte() {
    assert_eq!(instructions_of("and 0xF3, rb1"), vec![Instruction::andc2r(Value::byte(0xF3), Register::Rb1).unwrap()]);
}

#[test]
fn andc2r_word() {
    assert_eq!(instructions_of("and 0xF337, r1"), vec![Instruction::andc2r(Value::word(0xF337), Register::R1).unwrap()]);
}

#[test]
fn andr2r_byte() {
    assert_eq!(instructions_of("and rb0, rb1"), vec![Instruction::andr2r(Register::Rb0, Register::Rb1)]);
}

#[test]
fn andr2r_word() {
    assert_eq!(instructions_of("and r0, r1"), vec![Instruction::andr2r(Register::R0, Register::R1)]);
}

#[test]
fn orc2r_byte() {
    assert_eq!(instructions_of("or 0xF3, rb1"), vec![Instruction::orc2r(Value::byte(0xF3), Register::Rb1).unwrap()]);
}

#[test]
fn orc2r_word() {
    assert_eq!(instructions_of("or 0xF337, r1"), vec![Instruction::orc2r(Value::word(0xF337), Register::R1).unwrap()]);
}

#[test]
fn orr2r_byte() {
    assert_eq!(instructions_of("or rb0, rb1"), vec![Instruction::orr2r(Register::Rb0, Register::Rb1)]);
}

#[test]
fn orr2r_word() {
    assert_eq!(instructions_of("or r0, r1"), vec![Instruction::orr2r(Register::R0, Register::R1)]);
}

#[test]
fn cmpc2r_byte() {
    assert_eq!(instructions_of("cmp 0xF3, rb1"), vec![Instruction::cmpc2r(Value::byte(0xF3), Register::Rb1).unwrap()]);
}

#[test]
fn cmpc2r_word() {
    assert_eq!(instructions_of("cmp 0xF337, r1"), vec![Instruction::cmpc2r(Value::word(0xF337), Register::R1).unwrap()]);
}

#[test]
fn cmpr2r_byte() {
    assert_eq!(instructions_of("cmp rb0, rb1"), vec![Instruction::cmpr2r(Register::Rb0, Register::Rb1)]);
}

#[test]
fn cmpr2r_word() {
    assert_eq!(instructions_of("cmp r0, r1"), vec![Instruction::cmpr2r(Register::R0, Register::R1)]);
}

#[test]
fn ajmp() {
    assert_eq!(instructions_of("ajmp r0"), vec![Instruction::ajmp(Register::R0)]);
}

#[test]
fn jmp() {
    assert_eq!(instructions_of("jmp r0"), vec![Instruction::jmp(Register::R0)]);
}

#[test]
fn jeq() {
    assert_eq!(instructions_of("jeq r0"), vec![Instruction::jeq(Register::R0)]);
}

#[test]
fn jneq() {
    assert_eq!(instructions_of("jneq r0"), vec![Instruction::jneq(Register::R0)]);
}

#[test]
fn jlt() {
    assert_eq!(instructions_of("jlt r0"), vec![Instruction::jlt(Register::R0)]);
}

#[test]
fn jgt() {
    assert_eq!(instructions_of("jgt r0"), vec![Instruction::jgt(Register::R0)]);
}

#[test]
fn jleq() {
    assert_eq!(instructions_of("jleq r0"), vec![Instruction::jleq(Register::R0)]);
}

#[test]
fn jgeq() {
    assert_eq!(instructions_of("jgeq r0"), vec![Instruction::jgeq(Register::R0)]);
}

#[test]
fn jo() {
    assert_eq!(instructions_of("jo r0"), vec![Instruction::jo(Register::R0)]);
}

#[test]
fn jno() {
    assert_eq!(instructions_of("jno r0"), vec![Instruction::jno(Register::R0)]);
}

#[test]
fn callc() {
    assert_eq!(instructions_of("call 0xF337"), vec![Instruction::callc(0xF337)]);
}

#[test]
fn callr() {
    assert_eq!(instructions_of("call r0"), vec![Instruction::callr(Register::R0)]);
}

#[test]
fn int_register() {
    assert_eq!(instructions_of("int r0"), vec![Instruction::interrupt(Register::R0)]);
}

#[test]
fn sti() {
    assert_eq!(instructions_of("sti r0"), vec![Instruction::sti(Register::R0)]);
}

#[test]
fn cli() {
    assert_eq!(instructions_of("cli"), vec![Instruction::cli()]);
}

#[test]
fn shl() {
    for i in 1..=8 {
        assert_eq!(
            instructions_of(&format!("shl {i}, rb0")),
            vec![Instruction::shl(Value::byte(i), Register::Rb0).unwrap()]
        );
    }

    for i in 1..=16 {
        assert_eq!(
            instructions_of(&format!("shl {i}, r0")),
            vec![Instruction::shl(Value::word(i), Register::R0).unwrap()]
        );
    }
}

#[test]
fn shr() {
    for i in 1..=8 {
        assert_eq!(
            instructions_of(&format!("shr {i}, rb0")),
            vec![Instruction::shr(Value::byte(i), Register::Rb0).unwrap()]
        );
    }

    for i in 1..=16 {
        assert_eq!(
            instructions_of(&format!("shr {i}, r0")),
            vec![Instruction::shr(Value::word(i), Register::R0).unwrap()]
        );
    }
}

#[test]
fn shre() {
    for i in 1..=8 {
        assert_eq!(
            instructions_of(&format!("shre {i}, rb0")),
            vec![Instruction::shre(Value::byte(i), Register::Rb0).unwrap()]
        );
    }

    for i in 1..=16 {
        assert_eq!(
            instructions_of(&format!("shre {i}, r0")),
            vec![Instruction::shre(Value::word(i), Register::R0).unwrap()]
        );
    }
}
