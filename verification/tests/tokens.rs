use sasm_lib::lexer::{is_digit, is_name_byte, is_name_start, is_number_byte, is_punct, is_space};
use sasm_lib::text::{bytes_eq, is_word};
use sasm_lib::token::{convert_tokens, mnemonic, plain, word};
use sasm_lib::value::{truncate_to_word, word_bytes};
use sasm_lib::{lex, tokenize, Error, RawToken, Register, Token, Tokens};

fn raw_tokens(code: &str) -> Vec<RawToken> {
    match lex(code) {
        Ok(tokens) => tokens,
        Err(error) => panic!("{:?}", error),
    }
}

fn tokens_of(code: &str) -> Vec<Token> {
    let mut tokens = match tokenize(code) {
        Ok(tokens) => tokens,
        Err(error) => panic!("{:?}", error),
    };
    let mut out = Vec::new();
    while let Some(token) = tokens.pop() {
        out.push(token);
    }
    out
}

fn ident(name: &str) -> RawToken {
    RawToken::Ident(name.to_string())
}

#[test]
fn lexer_splits_text_into_raw_tokens() {
    assert_eq!(raw_tokens(""), vec![]);
    assert_eq!(raw_tokens("  \t\n\r\x0C "), vec![]);
    assert_eq!(
        raw_tokens("foo: mov [r6], rb7 // done"),
        vec![
            ident("foo"),
            RawToken::Punct(b':'),
            ident("mov"),
            RawToken::Punct(b'['),
            ident("r6"),
            RawToken::Punct(b']'),
            RawToken::Punct(b','),
            ident("rb7"),
            RawToken::Comment(" done".to_string()),
        ]
    );
    assert_eq!(raw_tokens("a1_b2 _x X9"), vec![ident("a1_b2"), ident("_x"), ident("X9")]);
    assert_eq!(raw_tokens("a,b"), vec![ident("a"), RawToken::Punct(b','), ident("b")]);
}

#[test]
fn lexer_reads_numbers_in_four_radixes() {
    assert_eq!(raw_tokens("0"), vec![RawToken::Number(0)]);
    assert_eq!(raw_tokens("42"), vec![RawToken::Number(42)]);
    assert_eq!(raw_tokens("0x2A"), vec![RawToken::Number(42)]);
    assert_eq!(raw_tokens("0x2a"), vec![RawToken::Number(42)]);
    assert_eq!(raw_tokens("0o52"), vec![RawToken::Number(42)]);
    assert_eq!(raw_tokens("0b101010"), vec![RawToken::Number(42)]);
    assert_eq!(raw_tokens("-42"), vec![RawToken::Number(-42)]);
    assert_eq!(raw_tokens("-0x2A"), vec![RawToken::Number(-42)]);
    assert_eq!(raw_tokens("1_000"), vec![RawToken::Number(1000)]);
    assert_eq!(raw_tokens("0xFF_FF"), vec![RawToken::Number(0xFFFF)]);
    assert_eq!(raw_tokens("0b_1_"), vec![RawToken::Number(1)]);
    assert_eq!(raw_tokens("007"), vec![RawToken::Number(7)]);
    assert_eq!(raw_tokens("1,2"), vec![RawToken::Number(1), RawToken::Punct(b','), RawToken::Number(2)]);
    assert_eq!(raw_tokens("1-2"), vec![RawToken::Number(1), RawToken::Number(-2)]);
    assert_eq!(raw_tokens("0X1"), vec![RawToken::Number(0), ident("X1")]);
    assert_eq!(raw_tokens("9223372036854775807"), vec![RawToken::Number(i64::MAX)]);
    assert_eq!(raw_tokens("-9223372036854775808"), vec![RawToken::Number(i64::MIN)]);
    assert_eq!(raw_tokens("0x7FFF_FFFF_FFFF_FFFF"), vec![RawToken::Number(i64::MAX)]);
    assert_eq!(raw_tokens("-0x8000000000000000"), vec![RawToken::Number(i64::MIN)]);
}

#[test]
fn lexer_refuses_malformed_numbers() {
    assert_eq!(lex("-"), Err(Error::LexError(b'-')));
    assert_eq!(lex("- 1"), Err(Error::LexError(b'-')));
    assert_eq!(lex("0x"), Err(Error::LexError(b'0')));
    assert_eq!(lex("0b"), Err(Error::LexError(b'0')));
    assert_eq!(lex("0b2"), Err(Error::LexError(b'0')));
    assert_eq!(lex("0o8"), Err(Error::LexError(b'0')));
    assert_eq!(lex("12ab"), Err(Error::LexError(b'1')));
    assert_eq!(lex("0x_"), Err(Error::LexError(b'0')));
    assert_eq!(lex("9223372036854775808"), Err(Error::LexError(b'9')));
    assert_eq!(lex("-9223372036854775809"), Err(Error::LexError(b'-')));
    assert_eq!(lex("0x8000000000000000"), Err(Error::LexError(b'0')));
    assert_eq!(lex("99999999999999999999999999999999999999999999"), Err(Error::LexError(b'9')));
    assert_eq!(lex("nop 0xZ"), Err(Error::LexError(b'0')));
}

#[test]
fn lexer_reads_comments() {
    assert_eq!(raw_tokens("//"), vec![RawToken::Comment(String::new())]);
    assert_eq!(raw_tokens("// a\n// b"), vec![
        RawToken::Comment(" a".to_string()),
        RawToken::Comment(" b".to_string()),
    ]);
    assert_eq!(raw_tokens("/**/"), vec![RawToken::Comment(String::new())]);
    assert_eq!(raw_tokens("/* a\n * b */nop"), vec![
        RawToken::Comment(" a\n * b ".to_string()),
        ident("nop"),
    ]);
    assert_eq!(raw_tokens("/* // */ x"), vec![RawToken::Comment(" // ".to_string()), ident("x")]);
    assert_eq!(raw_tokens("/***/"), vec![RawToken::Comment("*".to_string())]);
    assert_eq!(raw_tokens("// caf\u{e9} \u{1F600}\nnop"), vec![
        RawToken::Comment(" caf\u{e9} \u{1F600}".to_string()),
        ident("nop"),
    ]);
    assert_eq!(raw_tokens("/* \u{4e16}\u{754c} */"), vec![
        RawToken::Comment(" \u{4e16}\u{754c} ".to_string()),
    ]);
}

#[test]
fn lexer_refuses_what_is_no_token() {
    assert_eq!(lex("@"), Err(Error::LexError(b'@')));
    assert_eq!(lex("nop ; ret"), Err(Error::LexError(b';')));
    assert_eq!(lex("/"), Err(Error::LexError(b'/')));
    assert_eq!(lex("/ /"), Err(Error::LexError(b'/')));
    assert_eq!(lex("/* never closed"), Err(Error::LexError(b'/')));
    assert_eq!(lex("/*/"), Err(Error::LexError(b'/')));
    assert_eq!(lex("nop \u{e9}"), Err(Error::LexError(0xC3)));
    assert_eq!(lex("caf\u{e9}"), Err(Error::LexError(0xC3)));
    assert_eq!(lex("\"text\""), Err(Error::LexError(b'"')));
}

#[test]
fn classifier_gives_names_their_meaning() {
    assert_eq!(
        tokens_of("foo: mov bar, r0 // c\n/* d */ [rb3] 7"),
        vec![
            Token::IdentifierDef("foo".to_string()),
            Token::Mov,
            Token::IdentifierRef("bar".to_string()),
            Token::Comma,
            Token::Register(Register::R0),
            Token::Pointer(Register::Rb3),
            Token::Number(7),
        ]
    );
    assert_eq!(
        convert_tokens(raw_tokens("nop // c")),
        Ok(vec![Token::Nop, Token::Comment(" c".to_string())])
    );
    let mnemonics = "nop db dw mov push pop add sub not and or shl shr shre cmp ajmp jmp jeq jneq \
                     jlt jgt jleq jgeq jo jno call ret int sti cli";
    assert_eq!(
        tokens_of(mnemonics),
        vec![
            Token::Nop, Token::DB, Token::DW, Token::Mov, Token::Push, Token::Pop, Token::Add,
            Token::Sub, Token::Not, Token::And, Token::Or, Token::Shl, Token::Shr, Token::Shre,
            Token::Cmp, Token::AJmp, Token::Jmp, Token::Jeq, Token::Jneq, Token::Jlt, Token::Jgt,
            Token::Jleq, Token::Jgeq, Token::Jo, Token::Jno, Token::Call, Token::Ret, Token::Int,
            Token::Sti, Token::Cli,
        ]
    );
    assert_eq!(tokens_of("MOV Nop"), vec![
        Token::IdentifierRef("MOV".to_string()),
        Token::IdentifierRef("Nop".to_string()),
    ]);
    assert_eq!(mnemonic(b"shre"), Some(Token::Shre));
    assert_eq!(mnemonic(b"shra"), None);
    assert_eq!(word(&"rip".to_string()), Token::Register(Register::Rip));
    assert_eq!(word(&"ripe".to_string()), Token::IdentifierRef("ripe".to_string()));
    assert_eq!(plain(&RawToken::Punct(b',')), Some(Token::Comma));
    assert_eq!(plain(&RawToken::Punct(b':')), None);
    assert_eq!(plain(&RawToken::Number(-3)), Some(Token::Number(-3)));
}

#[test]
fn classifier_refuses_stray_punctuation() {
    assert_eq!(tokenize(":").err(), Some(Error::LexError(b':')));
    assert_eq!(tokenize("]").err(), Some(Error::LexError(b']')));
    assert_eq!(tokenize("mov: nop").err(), Some(Error::LexError(b':')));
    assert_eq!(tokenize("r0: nop").err(), Some(Error::LexError(b':')));
    assert_eq!(tokenize("foo /* c */: nop").err(), Some(Error::LexError(b':')));
    assert_eq!(tokenize("foo :").ok().map(|t| t.len()), Some(1));
}

#[test]
fn classifier_refuses_malformed_pointers() {
    assert_eq!(tokenize("[").err(), Some(Error::EOF("a register", "pointer")));
    assert_eq!(tokenize("[r0").err(), Some(Error::EOF("a closing bracket", "pointer")));
    assert_eq!(
        tokenize("[foo]").err(),
        Some(Error::UnexpectedToken(Token::IdentifierRef("foo".to_string()), "pointer"))
    );
    assert_eq!(tokenize("[mov]").err(), Some(Error::UnexpectedToken(Token::Mov, "pointer")));
    assert_eq!(tokenize("[5]").err(), Some(Error::UnexpectedToken(Token::Number(5), "pointer")));
    assert_eq!(tokenize("[r0, r1]").err(), Some(Error::UnexpectedToken(Token::Comma, "pointer")));
    assert_eq!(
        tokenize("[r0 r1]").err(),
        Some(Error::UnexpectedToken(Token::Register(Register::R1), "pointer"))
    );
    assert_eq!(tokenize("[]").err(), Some(Error::LexError(b']')));
    assert_eq!(tokenize("[[r0]]").err(), Some(Error::LexError(b'[')));
    assert_eq!(tokenize("[r0:").err(), Some(Error::LexError(b':')));
    assert_eq!(
        tokenize("[/* c */r0]").err(),
        Some(Error::UnexpectedToken(Token::Comment(" c ".to_string()), "pointer"))
    );
}

#[test]
fn token_stream_is_read_from_the_front() {
    let mut tokens = Tokens::new(vec![
        Token::Comment("kept".to_string()),
        Token::Nop,
        Token::Number(1),
    ]);
    assert_eq!(tokens.len(), 3);
    assert_eq!(tokens.peek(0), Some(&Token::Comment("kept".to_string())));
    assert_eq!(tokens.peek(2), Some(&Token::Number(1)));
    assert_eq!(tokens.peek(3), None);
    assert_eq!(tokens.pop(), Some(Token::Comment("kept".to_string())));
    assert_eq!(tokens.pop(), Some(Token::Nop));
    assert_eq!(tokens.len(), 1);
    assert_eq!(tokens.pop(), Some(Token::Number(1)));
    assert_eq!(tokens.pop(), None);
    assert_eq!(tokens.pop(), None);
    assert_eq!(tokens.len(), 0);
    assert!(Token::Comment(String::new()).is_comment());
    assert!(!Token::Comma.is_comment());
    assert!(!Token::IdentifierRef("comment".to_string()).is_comment());
}

#[test]
fn byte_classes() {
    for b in 0..=255u8 {
        let c = b as char;
        assert_eq!(is_space(b), b == b' ' || b == b'\t' || b == b'\n' || b == b'\r' || b == 0x0C);
        assert_eq!(is_digit(b), c.is_ascii_digit());
        assert_eq!(is_name_start(b), c.is_ascii_alphabetic() || b == b'_');
        assert_eq!(is_name_byte(b), c.is_ascii_alphanumeric() || b == b'_');
        assert_eq!(is_number_byte(b), c.is_ascii_hexdigit() || b == b'_');
        assert_eq!(is_punct(b), b == b',' || b == b':' || b == b'[' || b == b']');
    }
}

#[test]
fn text_helpers() {
    assert!(bytes_eq(b"abc", b"abc"));
    assert!(bytes_eq(b"", b""));
    assert!(!bytes_eq(b"abc", b"abd"));
    assert!(!bytes_eq(b"abc", b"ab"));
    assert!(is_word(b"mov", "mov"));
    assert!(!is_word(b"mo", "mov"));
    assert_eq!(truncate_to_word(0), 0);
    assert_eq!(truncate_to_word(0x1_2345), 0x2345);
    assert_eq!(truncate_to_word(-1), 0xFFFF);
    assert_eq!(truncate_to_word(-0x1_0000), 0);
    assert_eq!(truncate_to_word(i64::MIN), 0);
    assert_eq!(truncate_to_word(i64::MAX), 0xFFFF);
    assert_eq!(word_bytes(0xF337), (0x37, 0xF3));
}
