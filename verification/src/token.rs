//! Semantic tokens: what the parser reads, and how raw tokens become them.
//!
//! A name that spells a mnemonic or a register becomes that mnemonic or
//! register. Any other name defines a label where a `:` follows it and refers
//! to one where none does. A register between `[` and `]` is a pointer.
use vstd::prelude::*;
use vstd::string::StringSliceAdditionalSpecFns;
use vstd::utf8::encode_utf8;
use crate::lexer::{lex, spec_lex, RawToken, RawTokenView};
use crate::register::{register_named, Register};
use crate::text::{is_word, spelled, COLON, COMMA, LEFT_BRACKET, RIGHT_BRACKET};
use crate::utils::{after, lemma_after_nothing, lemma_after_push, refines, Error, ErrorView};

verus! {

/// A token of the assembly language.
///
/// Besides comments, numbers, commas, registers, bracketed registers and
/// label names there is one variant for each mnemonic.
#[derive(Debug, Clone, PartialEq, Eq)]
pub enum Token {
    Comment(String),
    IdentifierDef(String),
    IdentifierRef(String),
    Register(Register),
    Pointer(Register),
    Number(i64),
    Comma,
    // Directives and the empty instruction
    Nop,
    DB,
    DW,
    // Data movement
    Mov,
    Push,
    Pop,
    // Arithmetic and logic
    Add,
    Sub,
    Not,
    And,
    Or,
    Shl,
    Shr,
    Shre,
    Cmp,
    // Control flow
    AJmp,
    Jmp,
    Jeq,
    Jneq,
    Jlt,
    Jgt,
    Jleq,
    Jgeq,
    Jo,
    Jno,
    Call,
    Ret,
    // Interrupts
    Int,
    Sti,
    Cli,
}

/// The mathematical value of a [`Token`]: text is held as its UTF-8 bytes.
pub enum TokenView {
    Comment(Seq<u8>),
    IdentifierDef(Seq<u8>),
    IdentifierRef(Seq<u8>),
    Register(Register),
    Pointer(Register),
    Number(i64),
    Comma,
    Nop,
    DB,
    DW,
    Mov,
    Push,
    Pop,
    Add,
    Sub,
    Not,
    And,
    Or,
    Shl,
    Shr,
    Shre,
    Cmp,
    AJmp,
    Jmp,
    Jeq,
    Jneq,
    Jlt,
    Jgt,
    Jleq,
    Jgeq,
    Jo,
    Jno,
    Call,
    Ret,
    Int,
    Sti,
    Cli,
}

impl View for Token {
    type V = TokenView;

    open spec fn view(&self) -> TokenView {
        match self {
            Token::Comment(text) => TokenView::Comment(encode_utf8(text@)),
            Token::IdentifierDef(name) => TokenView::IdentifierDef(encode_utf8(name@)),
            Token::IdentifierRef(name) => TokenView::IdentifierRef(encode_utf8(name@)),
            Token::Register(r) => TokenView::Register(*r),
            Token::Pointer(r) => TokenView::Pointer(*r),
            Token::Number(n) => TokenView::Number(*n),
            Token::Comma => TokenView::Comma,
            Token::Nop => TokenView::Nop,
            Token::DB => TokenView::DB,
            Token::DW => TokenView::DW,
            Token::Mov => TokenView::Mov,
            Token::Push => TokenView::Push,
            Token::Pop => TokenView::Pop,
            Token::Add => TokenView::Add,
            Token::Sub => TokenView::Sub,
            Token::Not => TokenView::Not,
            Token::And => TokenView::And,
            Token::Or => TokenView::Or,
            Token::Shl => TokenView::Shl,
            Token::Shr => TokenView::Shr,
            Token::Shre => TokenView::Shre,
            Token::Cmp => TokenView::Cmp,
            Token::AJmp => TokenView::AJmp,
            Token::Jmp => TokenView::Jmp,
            Token::Jeq => TokenView::Jeq,
            Token::Jneq => TokenView::Jneq,
            Token::Jlt => TokenView::Jlt,
            Token::Jgt => TokenView::Jgt,
            Token::Jleq => TokenView::Jleq,
            Token::Jgeq => TokenView::Jgeq,
            Token::Jo => TokenView::Jo,
            Token::Jno => TokenView::Jno,
            Token::Call => TokenView::Call,
            Token::Ret => TokenView::Ret,
            Token::Int => TokenView::Int,
            Token::Sti => TokenView::Sti,
            Token::Cli => TokenView::Cli,
        }
    }
}

impl DeepView for Token {
    type V = TokenView;

    open spec fn deep_view(&self) -> TokenView {
        self@
    }
}

impl Token {
    /// Whether the token is a comment.
    pub fn is_comment(&self) -> (b: bool)
        ensures
            b == (self@ is Comment),
    {
        match self {
            Token::Comment(_) => true,
            _ => false,
        }
    }
}

/// The mnemonic that `name` spells, if any.
pub open spec fn mnemonic_named(name: Seq<u8>) -> Option<TokenView> {
    if spelled(name, "nop") {
        Some(TokenView::Nop)
    } else if spelled(name, "db") {
        Some(TokenView::DB)
    } else if spelled(name, "dw") {
        Some(TokenView::DW)
    } else if spelled(name, "mov") {
        Some(TokenView::Mov)
    } else if spelled(name, "push") {
        Some(TokenView::Push)
    } else if spelled(name, "pop") {
        Some(TokenView::Pop)
    } else if spelled(name, "add") {
        Some(TokenView::Add)
    } else if spelled(name, "sub") {
        Some(TokenView::Sub)
    } else if spelled(name, "not") {
        Some(TokenView::Not)
    } else if spelled(name, "and") {
        Some(TokenView::And)
    } else if spelled(name, "or") {
        Some(TokenView::Or)
    } else if spelled(name, "shl") {
        Some(TokenView::Shl)
    } else if spelled(name, "shr") {
        Some(TokenView::Shr)
    } else if spelled(name, "shre") {
        Some(TokenView::Shre)
    } else if spelled(name, "cmp") {
        Some(TokenView::Cmp)
    } else if spelled(name, "ajmp") {
        Some(TokenView::AJmp)
    } else if spelled(name, "jmp") {
        Some(TokenView::Jmp)
    } else if spelled(name, "jeq") {
        Some(TokenView::Jeq)
    } else if spelled(name, "jneq") {
        Some(TokenView::Jneq)
    } else if spelled(name, "jlt") {
        Some(TokenView::Jlt)
    } else if spelled(name, "jgt") {
        Some(TokenView::Jgt)
    } else if spelled(name, "jleq") {
        Some(TokenView::Jleq)
    } else if spelled(name, "jgeq") {
        Some(TokenView::Jgeq)
    } else if spelled(name, "jo") {
        Some(TokenView::Jo)
    } else if spelled(name, "jno") {
        Some(TokenView::Jno)
    } else if spelled(name, "call") {
        Some(TokenView::Call)
    } else if spelled(name, "ret") {
        Some(TokenView::Ret)
    } else if spelled(name, "int") {
        Some(TokenView::Int)
    } else if spelled(name, "sti") {
        Some(TokenView::Sti)
    } else if spelled(name, "cli") {
        Some(TokenView::Cli)
    } else {
        None
    }
}

/// What a name means where no `:` follows it.
pub open spec fn word_token(name: Seq<u8>) -> TokenView {
    match mnemonic_named(name) {
        Some(token) => token,
        None => match register_named(name) {
            Some(r) => TokenView::Register(r),
            None => TokenView::IdentifierRef(name),
        },
    }
}

/// Whether `name` is kept for a mnemonic or a register.
pub open spec fn is_reserved(name: Seq<u8>) -> bool {
    mnemonic_named(name) is Some || register_named(name) is Some
}

/// The token that a raw token is when it stands alone. Punctuation other
/// than a comma is none.
pub open spec fn plain_token(raw: RawTokenView) -> Option<TokenView> {
    match raw {
        RawTokenView::Comment(text) => Some(TokenView::Comment(text)),
        RawTokenView::Number(n) => Some(TokenView::Number(n)),
        RawTokenView::Ident(name) => Some(word_token(name)),
        RawTokenView::Punct(b) => if b == COMMA {
            Some(TokenView::Comma)
        } else {
            None
        },
    }
}

/// The error for a raw token that stands where the rule named `context` has
/// no use for it.
pub open spec fn unexpected(raw: RawTokenView, context: Seq<char>) -> ErrorView {
    match plain_token(raw) {
        Some(token) => ErrorView::UnexpectedToken(token, context),
        None => ErrorView::LexError(raw->Punct_0),
    }
}

/// The pointer that the `[` at index `i` opens.
pub open spec fn pointer_at(raws: Seq<RawTokenView>, i: int) -> Result<TokenView, ErrorView> {
    if i + 1 >= raws.len() {
        Err(ErrorView::EOF("a register"@, "pointer"@))
    } else {
        match raws[i + 1] {
            RawTokenView::Ident(name) if register_named(name) is Some => {
                if i + 2 >= raws.len() {
                    Err(ErrorView::EOF("a closing bracket"@, "pointer"@))
                } else if raws[i + 2] == RawTokenView::Punct(RIGHT_BRACKET) {
                    Ok(TokenView::Pointer(register_named(name)->Some_0))
                } else {
                    Err(unexpected(raws[i + 2], "pointer"@))
                }
            },
            other => Err(unexpected(other, "pointer"@)),
        }
    }
}

/// The tokens that the raw tokens from index `i` on stand for.
pub open spec fn classify_from(raws: Seq<RawTokenView>, i: int) -> Result<
    Seq<TokenView>,
    ErrorView,
>
    decreases raws.len() - i,
{
    if i < 0 || i >= raws.len() {
        Ok(Seq::empty())
    } else {
        match raws[i] {
            RawTokenView::Punct(b) if b == LEFT_BRACKET => match pointer_at(raws, i) {
                Ok(token) => after(seq![token], classify_from(raws, i + 3)),
                Err(e) => Err(e),
            },
            RawTokenView::Ident(name) if !is_reserved(name) && i + 1 < raws.len() && raws[i + 1]
                == RawTokenView::Punct(COLON) => after(
                seq![TokenView::IdentifierDef(name)],
                classify_from(raws, i + 2),
            ),
            raw => match plain_token(raw) {
                Some(token) => after(seq![token], classify_from(raws, i + 1)),
                None => Err(ErrorView::LexError(raw->Punct_0)),
            },
        }
    }
}

/// The tokens that a sequence of raw tokens stands for, comments included.
pub open spec fn spec_convert_tokens(raws: Seq<RawTokenView>) -> Result<Seq<TokenView>, ErrorView> {
    classify_from(raws, 0)
}

/// The tokens that are no comments, in their order.
pub open spec fn without_comments(tokens: Seq<TokenView>) -> Seq<TokenView> {
    tokens.filter(|t: TokenView| !(t is Comment))
}

/// The tokens of a source text that the parser reads.
#[verifier::opaque]
pub open spec fn spec_tokenize(s: Seq<u8>) -> Result<Seq<TokenView>, ErrorView> {
    match spec_lex(s) {
        Ok(raws) => match spec_convert_tokens(raws) {
            Ok(tokens) => Ok(without_comments(tokens)),
            Err(e) => Err(e),
        },
        Err(e) => Err(e),
    }
}

/// Looks a mnemonic up by its spelling.
pub fn mnemonic(name: &[u8]) -> (r: Option<Token>)
    ensures
        match r {
            Some(token) => mnemonic_named(name@) == Some(token@),
            None => mnemonic_named(name@) is None,
        },
{
    if is_word(name, "nop") {
        Some(Token::Nop)
    } else if is_word(name, "db") {
        Some(Token::DB)
    } else if is_word(name, "dw") {
        Some(Token::DW)
    } else if is_word(name, "mov") {
        Some(Token::Mov)
    } else if is_word(name, "push") {
        Some(Token::Push)
    } else if is_word(name, "pop") {
        Some(Token::Pop)
    } else if is_word(name, "add") {
        Some(Token::Add)
    } else if is_word(name, "sub") {
        Some(Token::Sub)
    } else if is_word(name, "not") {
        Some(Token::Not)
    } else if is_word(name, "and") {
        Some(Token::And)
    } else if is_word(name, "or") {
        Some(Token::Or)
    } else if is_word(name, "shl") {
        Some(Token::Shl)
    } else if is_word(name, "shr") {
        Some(Token::Shr)
    } else if is_word(name, "shre") {
        Some(Token::Shre)
    } else if is_word(name, "cmp") {
        Some(Token::Cmp)
    } else if is_word(name, "ajmp") {
        Some(Token::AJmp)
    } else if is_word(name, "jmp") {
        Some(Token::Jmp)
    } else if is_word(name, "jeq") {
        Some(Token::Jeq)
    } else if is_word(name, "jneq") {
        Some(Token::Jneq)
    } else if is_word(name, "jlt") {
        Some(Token::Jlt)
    } else if is_word(name, "jgt") {
        Some(Token::Jgt)
    } else if is_word(name, "jleq") {
        Some(Token::Jleq)
    } else if is_word(name, "jgeq") {
        Some(Token::Jgeq)
    } else if is_word(name, "jo") {
        Some(Token::Jo)
    } else if is_word(name, "jno") {
        Some(Token::Jno)
    } else if is_word(name, "call") {
        Some(Token::Call)
    } else if is_word(name, "ret") {
        Some(Token::Ret)
    } else if is_word(name, "int") {
        Some(Token::Int)
    } else if is_word(name, "sti") {
        Some(Token::Sti)
    } else if is_word(name, "cli") {
        Some(Token::Cli)
    } else {
        None
    }
}

/// The token that a name is where no `:` follows it.
pub fn word(name: &String) -> (token: Token)
    ensures
        token@ == word_token(encode_utf8(name@)),
{
    let bytes = name.as_str().as_bytes();
    match mnemonic(bytes) {
        Some(token) => token,
        None => match Register::from_name(bytes) {
            Some(r) => Token::Register(r),
            None => Token::IdentifierRef(name.clone()),
        },
    }
}

/// The token that a raw token is when it stands alone, or the byte of the
/// punctuation that is none.
fn plain_or_byte(raw: &RawToken) -> (r: Result<Token, u8>)
    ensures
        match r {
            Ok(token) => plain_token(raw@) == Some(token@),
            Err(b) => plain_token(raw@) is None && raw@ == RawTokenView::Punct(b),
        },
{
    match raw {
        RawToken::Comment(text) => Ok(Token::Comment(text.clone())),
        RawToken::Number(n) => Ok(Token::Number(*n)),
        RawToken::Ident(name) => Ok(word(name)),
        RawToken::Punct(b) => if *b == COMMA {
            Ok(Token::Comma)
        } else {
            Err(*b)
        },
    }
}

/// The token that a raw token is when it stands alone.
pub fn plain(raw: &RawToken) -> (r: Option<Token>)
    ensures
        match r {
            Some(token) => plain_token(raw@) == Some(token@),
            None => plain_token(raw@) is None,
        },
{
    match plain_or_byte(raw) {
        Ok(token) => Some(token),
        Err(_) => None,
    }
}

/// The error for a raw token that the rule named `context` has no use for.
fn reject(raw: &RawToken, context: &'static str) -> (error: Error)
    ensures
        error@ == unexpected(raw@, context@),
{
    match plain_or_byte(raw) {
        Ok(token) => Error::UnexpectedToken(token, context),
        Err(b) => Error::LexError(b),
    }
}

/// The register that the name in a raw token spells.
fn register_of(raw: &RawToken) -> (r: Option<Register>)
    ensures
        r == match raw@ {
            RawTokenView::Ident(name) => register_named(name),
            _ => None,
        },
{
    match raw {
        RawToken::Ident(name) => Register::from_name(name.as_str().as_bytes()),
        _ => None,
    }
}

/// Whether the raw token is the punctuation `b`.
fn is_punct(raw: &RawToken, b: u8) -> (r: bool)
    ensures
        r == (raw@ == RawTokenView::Punct(b)),
{
    match raw {
        RawToken::Punct(p) => *p == b,
        _ => false,
    }
}

/// Reads the pointer that the `[` at index `i` opens.
fn pointer(raws: &Vec<RawToken>, i: usize) -> (r: Result<Token, Error>)
    requires
        i < raws.len(),
    ensures
        match pointer_at(raws.deep_view(), i as int) {
            Ok(token) => r is Ok && r->Ok_0@ == token && i + 2 < raws.len(),
            Err(e) => r is Err && r->Err_0@ == e,
        },
{
    let n = raws.len();
    if n - i <= 1 {
        return Err(Error::EOF("a register", "pointer"));
    }
    match register_of(&raws[i + 1]) {
        Some(r) => {
            if n - i <= 2 {
                Err(Error::EOF("a closing bracket", "pointer"))
            } else if is_punct(&raws[i + 2], RIGHT_BRACKET) {
                Ok(Token::Pointer(r))
            } else {
                Err(reject(&raws[i + 2], "pointer"))
            }
        },
        None => Err(reject(&raws[i + 1], "pointer")),
    }
}

/// Gives each raw token its meaning. Comments are kept.
pub fn convert_tokens(raws: Vec<RawToken>) -> (r: Result<Vec<Token>, Error>)
    ensures
        refines(r, spec_convert_tokens(raws.deep_view())),
{
    let n = raws.len();
    let mut tokens: Vec<Token> = Vec::new();
    let mut i: usize = 0;
    let ghost views = raws.deep_view();
    proof {
        assert(tokens.deep_view() =~= Seq::empty());
        assert(Seq::<TokenView>::empty() + classify_from(views, 0)->Ok_0 =~= classify_from(
            views,
            0,
        )->Ok_0);
    }
    while i < n
        invariant
            i <= n,
            n == raws.len(),
            views == raws.deep_view(),
            spec_convert_tokens(views) == after(tokens.deep_view(), classify_from(views, i as int)),
        decreases n - i,
    {
        let ghost seen = tokens.deep_view();
        let raw = &raws[i];
        assert(views[i as int] == raw@);
        let mut step: usize = 1;
        let token = match raw {
            RawToken::Punct(b) => {
                if *b == LEFT_BRACKET {
                    match pointer(&raws, i) {
                        Ok(token) => {
                            step = 3;
                            token
                        },
                        Err(e) => {
                            return Err(e);
                        },
                    }
                } else if *b == COMMA {
                    Token::Comma
                } else {
                    return Err(Error::LexError(*b));
                }
            },
            RawToken::Ident(name) => {
                let token = word(name);
                match token {
                    Token::IdentifierRef(label) => {
                        if n - i > 1 && is_punct(&raws[i + 1], COLON) {
                            step = 2;
                            Token::IdentifierDef(label)
                        } else {
                            Token::IdentifierRef(label)
                        }
                    },
                    other => other,
                }
            },
            RawToken::Comment(text) => Token::Comment(text.clone()),
            RawToken::Number(x) => Token::Number(*x),
        };
        proof {
            lemma_after_push(seen, token@, classify_from(views, i + step));
        }
        tokens.push(token);
        proof {
            assert(tokens.deep_view() =~= seen.push(token@));
        }
        i += step;
    }
    proof {
        lemma_after_nothing::<TokenView, ErrorView>(tokens.deep_view());
    }
    Ok(tokens)
}

/// The tokens of a program that are still to be read, first token first.
pub struct Tokens {
    /// The tokens in reverse: the next one is the last.
    stack: Vec<Token>,
}

impl View for Tokens {
    type V = Seq<TokenView>;

    closed spec fn view(&self) -> Seq<TokenView> {
        Seq::new(self.stack.len() as nat, |i: int| self.stack[self.stack.len() - 1 - i]@)
    }
}

impl Tokens {
    /// The tokens of `source`, to be read from the first one on, without the
    /// comments where `keep_comments` is not set.
    fn turn(source: Vec<Token>, keep_comments: bool) -> (tokens: Tokens)
        ensures
            tokens@ == if keep_comments {
                source.deep_view()
            } else {
                without_comments(source.deep_view())
            },
    {
        let mut source = source;
        let mut stack: Vec<Token> = Vec::new();
        let ghost all = source.deep_view();
        let ghost keep = |t: TokenView| !(t is Comment);
        proof {
            assert(without_comments(all) == all.filter(keep));
        }
        while source.len() > 0
            invariant
                keep == |t: TokenView| !(t is Comment),
                keep_comments ==> all =~= source.deep_view() + (Tokens { stack })@,
                !keep_comments ==> all.filter(keep) =~= source.deep_view().filter(keep)
                    + (Tokens { stack })@,
                source.len() <= all.len(),
            decreases source.len(),
        {
            let ghost before = source.deep_view();
            let ghost tail = (Tokens { stack })@;
            let token = source.pop().unwrap();
            proof {
                assert(source.deep_view() =~= before.drop_last());
                assert(before.last() == token@);
                reveal(Seq::filter);
            }
            if keep_comments || !token.is_comment() {
                stack.push(token);
                proof {
                    assert((Tokens { stack })@ =~= seq![token@] + tail);
                    assert(before =~= before.drop_last().push(token@));
                }
            }
        }
        proof {
            reveal(Seq::filter);
            assert(source.deep_view() =~= Seq::empty());
        }
        Tokens { stack }
    }

    /// The tokens of `tokens`, to be read from the first one on.
    pub fn new(tokens: Vec<Token>) -> (r: Tokens)
        ensures
            r@ == tokens.deep_view(),
    {
        Tokens::turn(tokens, true)
    }

    /// Number of tokens that are still to be read.
    pub fn len(&self) -> (n: usize)
        ensures
            n == self@.len(),
    {
        self.stack.len()
    }

    /// Takes the next token, if one is left.
    pub fn pop(&mut self) -> (r: Option<Token>)
        ensures
            match r {
                Some(token) => old(self)@.len() > 0 && token@ == old(self)@[0] && final(self)@
                    == old(self)@.drop_first(),
                None => old(self)@.len() == 0 && final(self)@ == old(self)@,
            },
    {
        let r = self.stack.pop();
        proof {
            if r is Some {
                assert(self@ =~= old(self)@.drop_first());
            }
        }
        r
    }

    /// The token that comes `ahead` tokens after the next one.
    pub fn peek(&self, ahead: usize) -> (r: Option<&Token>)
        ensures
            match r {
                Some(token) => ahead < self@.len() && token@ == self@[ahead as int],
                None => ahead >= self@.len(),
            },
    {
        let n = self.stack.len();
        if ahead < n {
            Some(&self.stack[n - 1 - ahead])
        } else {
            None
        }
    }
}

/// Splits a program into the tokens that the parser reads: every token of
/// the text but the comments.
pub fn tokenize(code: &str) -> (r: Result<Tokens, Error>)
    ensures
        match spec_tokenize(code.spec_bytes()) {
            Ok(tokens) => r is Ok && r->Ok_0@ == tokens,
            Err(e) => r is Err && r->Err_0@ == e,
        },
{
    reveal(spec_tokenize);
    let raws = match lex(code) {
        Ok(raws) => raws,
        Err(e) => {
            return Err(e);
        },
    };
    let tokens = match convert_tokens(raws) {
        Ok(tokens) => tokens,
        Err(e) => {
            return Err(e);
        },
    };
    Ok(Tokens::turn(tokens, false))
}

} // verus!
