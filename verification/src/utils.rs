//! The errors of the assembler.
use vstd::prelude::*;
use vstd::utf8::encode_utf8;
use crate::token::{Token, TokenView};

verus! {

/// Why a program could not be assembled. Every error is fatal: no output is
/// produced for a program that raises one.
#[derive(Debug, Clone, PartialEq, Eq)]
pub enum Error {
    /// The text that starts with this byte is no token.
    LexError(u8),
    /// The program ended where the first text was expected by the second.
    EOF(&'static str, &'static str),
    /// The token does not fit the rule named by the text.
    UnexpectedToken(Token, &'static str),
    /// The number does not fit the range named by the text.
    NumberTooLarge(i64, &'static str),
    /// The label is used but never defined.
    NoSuchIdentifier(String),
}

/// The mathematical value of an [`Error`].
pub enum ErrorView {
    LexError(u8),
    EOF(Seq<char>, Seq<char>),
    UnexpectedToken(TokenView, Seq<char>),
    NumberTooLarge(i64, Seq<char>),
    NoSuchIdentifier(Seq<u8>),
}

impl View for Error {
    type V = ErrorView;

    open spec fn view(&self) -> ErrorView {
        match self {
            Error::LexError(b) => ErrorView::LexError(*b),
            Error::EOF(expected, context) => ErrorView::EOF(expected@, context@),
            Error::UnexpectedToken(token, context) => ErrorView::UnexpectedToken(
                token@,
                context@,
            ),
            Error::NumberTooLarge(n, range) => ErrorView::NumberTooLarge(*n, range@),
            Error::NoSuchIdentifier(name) => ErrorView::NoSuchIdentifier(encode_utf8(name@)),
        }
    }
}

impl DeepView for Error {
    type V = ErrorView;

    open spec fn deep_view(&self) -> ErrorView {
        self@
    }
}

/// Puts the items `head` in front of what the rest of the input gave.
pub open spec fn after<T, E>(head: Seq<T>, rest: Result<Seq<T>, E>) -> Result<Seq<T>, E> {
    match rest {
        Ok(tail) => Ok(head + tail),
        Err(e) => Err(e),
    }
}

/// The result `r` of a function stands for the mathematical result
/// `expected`: both are values with the same view, or both are errors with
/// the same view.
pub open spec fn refines<T: DeepView>(r: Result<T, Error>, expected: Result<T::V, ErrorView>) -> bool {
    match (r, expected) {
        (Ok(value), Ok(v)) => value.deep_view() == v,
        (Err(error), Err(e)) => error@ == e,
        _ => false,
    }
}

/// An item may be put in front of a result together with the items before
/// it or on its own.
pub proof fn lemma_after_push<T, E>(head: Seq<T>, item: T, rest: Result<Seq<T>, E>)
    ensures
        after(head.push(item), rest) == after(head, after(seq![item], rest)),
{
    match rest {
        Ok(tail) => {
            assert(head.push(item) + tail =~= head + (seq![item] + tail));
        },
        Err(_) => {},
    }
}

/// Items in front of an empty result are the whole result.
pub proof fn lemma_after_nothing<T, E>(head: Seq<T>)
    ensures
        after(head, Ok::<Seq<T>, E>(Seq::empty())) == Ok::<Seq<T>, E>(head),
{
    assert(head + Seq::<T>::empty() =~= head);
}

/// Items may be put in front of a result in two parts or all at once.
pub proof fn lemma_after_append<T, E>(head: Seq<T>, part: Seq<T>, rest: Result<Seq<T>, E>)
    ensures
        after(head + part, rest) == after(head, after(part, rest)),
{
    match rest {
        Ok(tail) => {
            assert((head + part) + tail =~= head + (part + tail));
        },
        Err(_) => {},
    }
}

} // verus!
