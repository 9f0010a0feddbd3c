use sasm_lib::expr::resolve;
use sasm_lib::passes::{advance, build, encode, encode_instructions, resolve_all};
use sasm_lib::{
    compile, parse, parse_to_exprs, BinaryOp, Error, Expr, Instruction, Register, ShiftOp, Token,
    UnaryOp, Value, Width,
};

fn bytes_of(code: &str) -> Vec<u8> {
    match compile(code) {
        Ok(bytes) => bytes,
        Err(error) => panic!("{:?}", error),
    }
}

#[test]
fn empty_program_gives_no_bytes() {
    assert_eq!(bytes_of(""), Vec::<u8>::new());
    assert_eq!(bytes_of(" \t\r\n// nothing\n/* at all */"), Vec::<u8>::new());
}

#[test]
fn data_byte_is_emitted_as_it_is() {
    assert_eq!(bytes_of("db 0xF3"), vec![0xF3]);
    assert_eq!(bytes_of("db 0, 255, 0b101, 0o17, 1_0"), vec![0, 255, 5, 15, 10]);
}

#[test]
fn data_byte_out_of_range_is_refused() {
    assert_eq!(compile("db 0xFFFF"), Err(Error::NumberTooLarge(0xFFFF, "byte")));
    assert_eq!(compile("db 256"), Err(Error::NumberTooLarge(256, "byte")));
    assert_eq!(compile("db -1"), Err(Error::NumberTooLarge(-1, "byte")));
    assert_eq!(compile("db 1, 2, 300, 400"), Err(Error::NumberTooLarge(300, "byte")));
}

#[test]
fn data_word_is_emitted_low_byte_first() {
    assert_eq!(bytes_of("dw 0xF337"), vec![0x37, 0xF3]);
    assert_eq!(bytes_of("dw 1, 0xFFFF, 0x100"), vec![1, 0, 0xFF, 0xFF, 0, 1]);
}

#[test]
fn data_word_out_of_range_is_refused() {
    assert_eq!(compile("dw 0x10000"), Err(Error::NumberTooLarge(0x10000, "word")));
    assert_eq!(compile("dw -5"), Err(Error::NumberTooLarge(-5, "word")));
}

#[test]
fn data_list_errors() {
    assert_eq!(compile("db"), Err(Error::EOF("a number", "db")));
    assert_eq!(compile("dw 1,"), Err(Error::EOF("a number", "dw")));
    assert_eq!(compile("db r0"), Err(Error::UnexpectedToken(Token::Register(Register::R0), "db")));
    assert_eq!(compile("dw 1, 2, :"), Err(Error::LexError(b':')));
    assert_eq!(compile("db 1, nop"), Err(Error::UnexpectedToken(Token::Nop, "db")));
    assert_eq!(compile("db 1, , 2"), Err(Error::UnexpectedToken(Token::Comma, "db")));
    // A token error in the list comes before a number out of range.
    assert_eq!(compile("db 999, nop"), Err(Error::UnexpectedToken(Token::Nop, "db")));
    assert_eq!(compile("db 999 nop"), Err(Error::NumberTooLarge(999, "byte")));
}

#[test]
fn data_list_ends_where_no_comma_follows() {
    assert_eq!(bytes_of("db 1\nnop"), vec![1, 0x00]);
    assert_eq!(bytes_of("db 1, 2 ret"), vec![1, 2, 0x2C]);
    assert_eq!(bytes_of("dw 1 db 2 dw 3"), vec![1, 0, 2, 3, 0]);
    assert_eq!(bytes_of("db 1\nend: mov end, r0"), vec![1, 0x01, 0x00, 0x01, 0x00]);
    assert_eq!(compile("db 1 2"), Err(Error::UnexpectedToken(Token::Number(2), "parse_toks")));
}

#[test]
fn labels_are_bound_and_resolved() {
    let code = "foo: mov bar, r0\nbar: mov rel foo, r1";
    let (instructions, symbols) = match parse(code) {
        Ok(parsed) => parsed,
        Err(error) => panic!("{:?}", error),
    };
    assert_eq!(symbols.len(), 2);
    assert_eq!(symbols.get("foo"), Some(&0));
    assert_eq!(symbols.get("bar"), Some(&4));
    assert_eq!(
        instructions,
        vec![
            Instruction::movc2r(Value::word(4), Register::R0).unwrap(),
            Instruction::movc2r(Value::word(0xFFFC), Register::R1).unwrap(),
        ]
    );
    assert_eq!(bytes_of(code), vec![0x01, 0x00, 0x04, 0x00, 0x01, 0x01, 0xFC, 0xFF]);
}

#[test]
fn undefined_label_gives_no_output() {
    assert_eq!(
        compile("mov undefined_label, r0"),
        Err(Error::NoSuchIdentifier("undefined_label".to_string()))
    );
    assert_eq!(
        parse("nop\nmov rel nowhere, rb3").err(),
        Some(Error::NoSuchIdentifier("nowhere".to_string()))
    );
}

#[test]
fn pointer_load_and_store() {
    let load = parse("mov [r6], rb7").ok().unwrap().0;
    assert_eq!(load, vec![Instruction::Load(Register::R6, Register::Rb7)]);
    assert_eq!(load[0].len(), 3);
    assert_eq!(bytes_of("mov [r6], rb7"), vec![0x03, 0x06, 0x17]);
    let store = parse("mov rb8, [r9]").ok().unwrap().0;
    assert_eq!(store, vec![Instruction::Store(Register::Rb8, Register::R9)]);
    assert_eq!(store[0].len(), 3);
    assert_eq!(bytes_of("mov rb8, [r9]"), vec![0x04, 0x18, 0x09]);
    assert_eq!(bytes_of("mov [r6], r7"), vec![0x03, 0x06, 0x07]);
    assert_eq!(bytes_of("mov r8, [r9]"), vec![0x04, 0x08, 0x09]);
}

#[test]
fn relative_reference_takes_the_smaller_from_the_larger() {
    // Backward: the label lies before the load.
    assert_eq!(resolve(0, 4, true), 0xFFFC);
    // Forward: the load lies before the label.
    assert_eq!(resolve(4, 0, true), 0xFFFC);
    assert_eq!(resolve(10, 10, true), 0);
    assert_eq!(resolve(0xFFFF, 0, true), 1);
    assert_eq!(resolve(0, 0xFFFF, true), 1);
    assert_eq!(resolve(0x1234, 0x10, false), 0x1234);
    assert_eq!(bytes_of("mov rel end, r2\nend:"), vec![0x01, 0x02, 0xFC, 0xFF]);
    assert_eq!(bytes_of("here: mov rel here, r2"), vec![0x01, 0x02, 0x00, 0x00]);
}

#[test]
fn label_named_like_the_relative_word() {
    assert_eq!(bytes_of("nop\nrel: mov rel, r0"), vec![0x00, 0x01, 0x00, 0x01, 0x00]);
    assert_eq!(bytes_of("nop\nrel: mov rel rel, r0"), vec![0x00, 0x01, 0x00, 0x00, 0x00]);
}

#[test]
fn label_into_byte_register_keeps_the_low_byte() {
    assert_eq!(bytes_of("dw 1\nx: mov x, rb1"), vec![1, 0, 0x01, 0x11, 0x02]);
    let exprs = parse_to_exprs("mov far, rb0\nfar:").ok().unwrap();
    assert_eq!(exprs[0].len(), 3);
    assert_eq!(exprs[1].len(), 0);
}

#[test]
fn later_definition_of_a_label_wins() {
    let (instructions, symbols) = parse("a: nop\na: mov a, r0").ok().unwrap();
    assert_eq!(symbols.len(), 1);
    assert_eq!(symbols.get("a"), Some(&1));
    assert_eq!(
        instructions,
        vec![Instruction::Nop, Instruction::movc2r(Value::word(1), Register::R0).unwrap()]
    );
}

#[test]
fn offsets_start_again_after_the_last_address() {
    assert_eq!(advance(0, 0), 0);
    assert_eq!(advance(0xFFFF, 1), 0);
    assert_eq!(advance(0xFFFF, 4), 3);
    assert_eq!(advance(5, 0x1_0000), 5);
    assert_eq!(advance(5, 0x2_0003), 8);
    let mut program = String::from("mov end, r0\ndb 0");
    for _ in 0..0x1_0000 {
        program.push_str(", 0");
    }
    program.push_str("\nend: nop");
    let exprs = parse_to_exprs(&program).ok().unwrap();
    assert_eq!(exprs.len(), 4);
    assert_eq!(exprs[1].len(), 0x1_0001);
    let (instructions, symbols) = parse(&program).ok().unwrap();
    assert_eq!(symbols.get("end"), Some(&5));
    assert_eq!(instructions[0], Instruction::movc2r(Value::word(5), Register::R0).unwrap());
    let bytes = bytes_of(&program);
    assert_eq!(bytes.len(), 4 + 0x1_0001 + 1);
    assert_eq!(bytes[..5], [0x01, 0x00, 0x05, 0x00, 0x00]);
}

#[test]
fn statement_lengths_add_up_to_the_output() {
    let code = "start: mov 1, rb0\nadd r1, r2\nshl 3, r4\ncall 0x1234\npush r0\nret\nmov rel \
                start, r5\nmov end, rb6\nend: dw 1, 2, 3";
    let exprs = parse_to_exprs(code).ok().unwrap();
    let total: usize = exprs.iter().map(|e| e.len()).sum();
    let bytes = bytes_of(code);
    assert_eq!(total, 3 + 3 + 4 + 3 + 2 + 1 + 4 + 3 + 6);
    assert_eq!(bytes.len(), total);
    let symbols = build(&exprs);
    let instructions = resolve_all(&exprs, &symbols).ok().unwrap();
    let lengths: usize = instructions.iter().map(|i| i.len() as usize).sum();
    assert_eq!(lengths, total);
    assert_eq!(encode_instructions(&instructions), bytes);
    assert_eq!(encode(&exprs, &symbols), Ok(bytes));
}

#[test]
fn compiling_twice_gives_the_same_bytes() {
    let code = "loop: add 1, r0\ncmp 10, r0\nmov rel loop, r1\njlt r1\nret";
    assert_eq!(compile(code), compile(code));
    assert_eq!(compile("mov x, r0"), compile("mov x, r0"));
    assert_eq!(
        bytes_of(code),
        vec![
            0x10, 0x00, 0x01, 0x00, 0x1C, 0x00, 0x0A, 0x00, 0x01, 0x01, 0xF8, 0xFF, 0x24, 0x01,
            0x2C
        ]
    );
}

#[test]
fn every_form_has_its_encoding() {
    assert_eq!(bytes_of("nop"), vec![0x00]);
    assert_eq!(bytes_of("ret"), vec![0x2C]);
    assert_eq!(bytes_of("cli"), vec![0x32]);
    assert_eq!(bytes_of("mov 0xF3, rb0"), vec![0x01, 0x10, 0xF3]);
    assert_eq!(bytes_of("mov 0xF337, r1"), vec![0x01, 0x01, 0x37, 0xF3]);
    assert_eq!(bytes_of("mov rb2, rb3"), vec![0x02, 0x12, 0x13]);
    assert_eq!(bytes_of("push r0"), vec![0x05, 0x00]);
    assert_eq!(bytes_of("pop rb15"), vec![0x06, 0x1F]);
    assert_eq!(bytes_of("add 1, r15"), vec![0x10, 0x0F, 0x01, 0x00]);
    assert_eq!(bytes_of("add r0, r1"), vec![0x11, 0x00, 0x01]);
    assert_eq!(bytes_of("sub 2, rb1"), vec![0x12, 0x11, 0x02]);
    assert_eq!(bytes_of("sub r0, r1"), vec![0x13, 0x00, 0x01]);
    assert_eq!(bytes_of("not rip"), vec![0x14, 0x20]);
    assert_eq!(bytes_of("and 3, rb1"), vec![0x15, 0x11, 0x03]);
    assert_eq!(bytes_of("and r0, r1"), vec![0x16, 0x00, 0x01]);
    assert_eq!(bytes_of("or 4, rb1"), vec![0x17, 0x11, 0x04]);
    assert_eq!(bytes_of("or r0, r1"), vec![0x18, 0x00, 0x01]);
    assert_eq!(bytes_of("shl 8, rb0"), vec![0x19, 0x10, 0x08]);
    assert_eq!(bytes_of("shr 16, r0"), vec![0x1A, 0x00, 0x10, 0x00]);
    assert_eq!(bytes_of("shre 1, rfl"), vec![0x1B, 0x21, 0x01, 0x00]);
    assert_eq!(bytes_of("cmp 5, rb1"), vec![0x1C, 0x11, 0x05]);
    assert_eq!(bytes_of("cmp r0, rinfo"), vec![0x1D, 0x00, 0x22]);
    assert_eq!(bytes_of("ajmp r0"), vec![0x20, 0x00]);
    assert_eq!(bytes_of("jmp r0"), vec![0x21, 0x00]);
    assert_eq!(bytes_of("jeq r0"), vec![0x22, 0x00]);
    assert_eq!(bytes_of("jneq r0"), vec![0x23, 0x00]);
    assert_eq!(bytes_of("jlt r0"), vec![0x24, 0x00]);
    assert_eq!(bytes_of("jgt r0"), vec![0x25, 0x00]);
    assert_eq!(bytes_of("jleq r0"), vec![0x26, 0x00]);
    assert_eq!(bytes_of("jgeq r0"), vec![0x27, 0x00]);
    assert_eq!(bytes_of("jo r0"), vec![0x28, 0x00]);
    assert_eq!(bytes_of("jno r0"), vec![0x29, 0x00]);
    assert_eq!(bytes_of("call 0xF337"), vec![0x2A, 0x37, 0xF3]);
    assert_eq!(bytes_of("call r0"), vec![0x2B, 0x00]);
    assert_eq!(bytes_of("int r0"), vec![0x30, 0x00]);
    assert_eq!(bytes_of("sti r0"), vec![0x31, 0x00]);
}

#[test]
fn immediate_is_masked_to_the_width_of_the_register() {
    assert_eq!(bytes_of("mov 0x1F3, rb0"), vec![0x01, 0x10, 0xF3]);
    assert_eq!(bytes_of("mov 0x1F337, r0"), vec![0x01, 0x00, 0x37, 0xF3]);
    assert_eq!(bytes_of("mov -1, r0"), vec![0x01, 0x00, 0xFF, 0xFF]);
    assert_eq!(bytes_of("add -2, rb0"), vec![0x10, 0x10, 0xFE]);
    assert_eq!(bytes_of("call -1"), vec![0x2A, 0xFF, 0xFF]);
    assert_eq!(bytes_of("call 0x12345"), vec![0x2A, 0x45, 0x23]);
    assert_eq!(Value::new(Width::Byte, 0x1F3), Value::Byte(0xF3));
    assert_eq!(Value::new(Width::Word, 0x1F3), Value::Word(0x1F3));
    assert_eq!(Value::byte(7).magnitude(), 7);
    assert_eq!(Value::word(700).width(), Width::Word);
}

#[test]
fn shift_distance_out_of_range_is_refused() {
    assert_eq!(compile("shl 0, rb0"), Err(Error::NumberTooLarge(0, "shift amount")));
    assert_eq!(compile("shl 9, rb0"), Err(Error::NumberTooLarge(9, "shift amount")));
    assert_eq!(compile("shr 17, r0"), Err(Error::NumberTooLarge(17, "shift amount")));
    assert_eq!(compile("shre -1, r0"), Err(Error::NumberTooLarge(-1, "shift amount")));
    assert_eq!(compile("shl 257, rb0"), Err(Error::NumberTooLarge(257, "shift amount")));
    assert_eq!(
        Instruction::shl(Value::byte(9), Register::Rb0),
        Err(Error::NumberTooLarge(9, "shift amount"))
    );
    assert_eq!(
        Instruction::shift(ShiftOp::Shr, Value::word(16), Register::Rb0),
        Err(Error::NumberTooLarge(16, "shift amount"))
    );
    assert_eq!(
        Instruction::shre(Value::word(16), Register::R3),
        Ok(Instruction::Shift(ShiftOp::Shre, Value::Word(16), Register::R3))
    );
    assert_eq!(
        Instruction::shr(Value::word(8), Register::Rb3),
        Ok(Instruction::Shift(ShiftOp::Shr, Value::Byte(8), Register::Rb3))
    );
}

#[test]
fn immediate_that_does_not_fit_is_refused() {
    assert_eq!(
        Instruction::movc2r(Value::word(0x1234), Register::Rb1),
        Err(Error::NumberTooLarge(0x1234, "byte"))
    );
    assert_eq!(
        Instruction::immediate(BinaryOp::Add, Value::word(0x100), Register::Rb1),
        Err(Error::NumberTooLarge(0x100, "byte"))
    );
    assert_eq!(
        Instruction::movc2r(Value::word(0x34), Register::Rb1),
        Ok(Instruction::ImmediateToRegister(BinaryOp::Mov, Value::Byte(0x34), Register::Rb1))
    );
    assert_eq!(
        Instruction::cmpc2r(Value::byte(0x34), Register::R1),
        Ok(Instruction::ImmediateToRegister(BinaryOp::Cmp, Value::Word(0x34), Register::R1))
    );
}

#[test]
fn operands_outside_the_table_are_refused() {
    assert_eq!(compile("shl r0, r1"), Err(Error::UnexpectedToken(Token::Shl, "parse_two_r2r")));
    assert_eq!(compile("add r0, [r1]"), Err(Error::UnexpectedToken(Token::Add, "parse_two_r2p")));
    assert_eq!(compile("add [r0], r1"), Err(Error::UnexpectedToken(Token::Add, "parse_two_p2r")));
    assert_eq!(
        compile("mov [r0], [r1]"),
        Err(Error::UnexpectedToken(Token::Pointer(Register::R1), "parse_two_p"))
    );
    assert_eq!(compile("mov [r0], 1"), Err(Error::UnexpectedToken(Token::Number(1), "parse_two_p")));
    assert_eq!(compile("mov r0, 1"), Err(Error::UnexpectedToken(Token::Number(1), "parse_two_r")));
    assert_eq!(compile("mov 1, 2"), Err(Error::UnexpectedToken(Token::Number(2), "parse_two_c")));
    assert_eq!(
        compile("mov 1, [r0]"),
        Err(Error::UnexpectedToken(Token::Pointer(Register::R0), "parse_two_c"))
    );
    assert_eq!(compile("add x, r0"), Err(Error::UnexpectedToken(Token::Add, "parse_two_l2r")));
    assert_eq!(
        compile("mov x, [r0]"),
        Err(Error::UnexpectedToken(Token::Pointer(Register::R0), "parse_two_l"))
    );
    assert_eq!(compile("mov nop, r0"), Err(Error::UnexpectedToken(Token::Nop, "parse_two")));
    assert_eq!(compile("mov r0 r1"), Err(Error::UnexpectedToken(Token::Register(Register::R1), "parse_two")));
    assert_eq!(compile("push 1"), Err(Error::UnexpectedToken(Token::Push, "parse_one_c")));
    assert_eq!(compile("jmp [r0]"), Err(Error::UnexpectedToken(Token::Pointer(Register::R0), "parse_one")));
    assert_eq!(
        compile("jmp somewhere"),
        Err(Error::UnexpectedToken(Token::IdentifierRef("somewhere".to_string()), "parse_one"))
    );
    assert_eq!(compile("r0"), Err(Error::UnexpectedToken(Token::Register(Register::R0), "parse_toks")));
    assert_eq!(compile(", nop"), Err(Error::UnexpectedToken(Token::Comma, "parse_toks")));
    assert_eq!(compile("5"), Err(Error::UnexpectedToken(Token::Number(5), "parse_toks")));
    assert_eq!(
        compile("foo"),
        Err(Error::UnexpectedToken(Token::IdentifierRef("foo".to_string()), "parse_toks"))
    );
}

#[test]
fn program_that_ends_too_early() {
    assert_eq!(compile("push"), Err(Error::EOF("value", "parse_one")));
    assert_eq!(compile("mov"), Err(Error::EOF("value", "parse_two")));
    assert_eq!(compile("mov r0"), Err(Error::EOF("comma", "parse_two")));
    assert_eq!(compile("mov r0,"), Err(Error::EOF("value", "parse_two")));
    assert_eq!(compile("mov rel"), Err(Error::EOF("comma", "parse_two")));
    assert_eq!(compile("mov rel x"), Err(Error::EOF("comma", "parse_two")));
}

#[test]
fn statements_follow_each_other_without_separators() {
    assert_eq!(bytes_of("nop ret cli"), vec![0x00, 0x2C, 0x32]);
    assert_eq!(bytes_of("push r0 pop r1\nnop"), vec![0x05, 0x00, 0x06, 0x01, 0x00]);
    assert_eq!(bytes_of("a: b: nop c:"), vec![0x00]);
}

#[test]
fn statement_to_instructions() {
    let exprs = vec![
        Expr::IdentifierDef("top".to_string()),
        Expr::DB(vec![1, 2, 3]),
        Expr::Instruction(Instruction::Unary(UnaryOp::Push, Register::R2)),
        Expr::MovC2R("top".to_string(), Register::R1, false),
        Expr::MovC2R("top".to_string(), Register::Rb1, true),
        Expr::MovC2R("bottom".to_string(), Register::R1, false),
    ];
    let symbols = build(&exprs);
    assert_eq!(symbols.len(), 1);
    assert_eq!(symbols.get("top"), Some(&0));
    assert_eq!(exprs[0].to_instructions(&symbols, 0), Ok(vec![]));
    assert_eq!(
        exprs[1].to_instructions(&symbols, 0),
        Ok(vec![Instruction::DB(1), Instruction::DB(2), Instruction::DB(3)])
    );
    assert_eq!(
        exprs[2].to_instructions(&symbols, 3),
        Ok(vec![Instruction::Unary(UnaryOp::Push, Register::R2)])
    );
    assert_eq!(
        exprs[3].to_instructions(&symbols, 5),
        Ok(vec![Instruction::ImmediateToRegister(BinaryOp::Mov, Value::Word(0), Register::R1)])
    );
    assert_eq!(
        exprs[4].to_instructions(&symbols, 9),
        Ok(vec![Instruction::ImmediateToRegister(BinaryOp::Mov, Value::Byte(0xF7), Register::Rb1)])
    );
    assert_eq!(
        exprs[5].to_instructions(&symbols, 12),
        Err(Error::NoSuchIdentifier("bottom".to_string()))
    );
    assert_eq!(
        resolve_all(&exprs, &symbols),
        Err(Error::NoSuchIdentifier("bottom".to_string()))
    );
    assert_eq!(encode(&exprs, &symbols), Err(Error::NoSuchIdentifier("bottom".to_string())));
    let lengths: Vec<usize> = exprs.iter().map(|e| e.len()).collect();
    assert_eq!(lengths, vec![0, 3, 2, 4, 3, 4]);
}

#[test]
fn registers_have_width_and_code() {
    assert_eq!(Register::R0.width(), Width::Word);
    assert_eq!(Register::Rb0.width(), Width::Byte);
    assert_eq!(Register::Rip.width(), Width::Word);
    assert_eq!(Register::Rfl.width(), Width::Word);
    assert_eq!(Register::Rinfo.width(), Width::Word);
    assert_eq!(Register::R15.code(), 0x0F);
    assert_eq!(Register::Rb15.code(), 0x1F);
    assert_eq!(Register::Rinfo.code(), 0x22);
    assert_eq!(Width::Byte.bytes(), 1);
    assert_eq!(Width::Word.bytes(), 2);
    assert_eq!(Width::Byte.bits(), 8);
    assert_eq!(Width::Word.bits(), 16);
    for n in 0..16u8 {
        let word = Register::from_name(format!("r{}", n).as_bytes()).unwrap();
        let byte = Register::from_name(format!("rb{}", n).as_bytes()).unwrap();
        assert_eq!(word.code(), n);
        assert_eq!(byte.code(), 0x10 + n);
        assert_eq!(word.width(), Width::Word);
        assert_eq!(byte.width(), Width::Byte);
    }
    assert_eq!(Register::from_name(b"rip"), Some(Register::Rip));
    assert_eq!(Register::from_name(b"rfl"), Some(Register::Rfl));
    assert_eq!(Register::from_name(b"rinfo"), Some(Register::Rinfo));
    assert_eq!(Register::from_name(b"r16"), None);
    assert_eq!(Register::from_name(b"r01"), None);
    assert_eq!(Register::from_name(b"R0"), None);
    assert_eq!(Register::from_name(b"r"), None);
    assert_eq!(Register::from_name(b""), None);
}

#[test]
fn instruction_length_matches_encoding() {
    let all = vec![
        Instruction::nop(),
        Instruction::ret(),
        Instruction::cli(),
        Instruction::db(0x00),
        Instruction::push(Register::R1),
        Instruction::interrupt(Register::Rb1),
        Instruction::callc(0x1234),
        Instruction::callr(Register::R1),
        Instruction::movr2r(Register::R1, Register::R2),
        Instruction::movm2r(Register::R1, Register::R2),
        Instruction::movr2m(Register::R1, Register::R2),
        Instruction::movc2r(Value::byte(1), Register::Rb2).unwrap(),
        Instruction::movc2r(Value::byte(1), Register::R2).unwrap(),
        Instruction::shl(Value::byte(1), Register::Rb2).unwrap(),
        Instruction::shl(Value::byte(1), Register::R2).unwrap(),
    ];
    let lengths: Vec<u16> = all.iter().map(|i| i.len()).collect();
    assert_eq!(lengths, vec![1, 1, 1, 1, 2, 2, 3, 2, 3, 3, 3, 3, 4, 3, 4]);
    for instruction in all.iter() {
        assert_eq!(instruction.compile().len(), instruction.len() as usize);
        let mut out = vec![0xAA];
        instruction.encode(&mut out);
        assert_eq!(out[0], 0xAA);
        assert_eq!(out[1..], instruction.compile()[..]);
    }
    assert_eq!(Instruction::callc(0x1234).compile(), vec![0x2A, 0x34, 0x12]);
    assert_eq!(
        Instruction::movc2r(Value::word(0xABCD), Register::R2).unwrap().len(),
        Instruction::movc2r(Value::word(0), Register::R2).unwrap().len()
    );
}
