//! A simple lexer that will produce text and whitespace categorized tokens,
//! suitable as a fallback in situations where a format/language-specific
//! equivalent is unavailable.

use vstd::prelude::*;

use crate::lexers::{lex_measure, step_progress};
use crate::token::{all_lexemes_nonempty, concat_lexemes, Category, Token};
use crate::tokenizer::{flushed, flushed_then_advanced, is_lex_whitespace, only_advanced};
use crate::tokenizer::{new, StateFunction, Tokenizer};

verus! {

/// The lexical contexts this lexer is built from.
spec fn default_state(s: StateFunction) -> bool {
    s == StateFunction::Initial || s == StateFunction::Whitespace
}

fn initial_state(lexer: &mut Tokenizer) -> (r: Option<StateFunction>)
    requires
        old(lexer).inv(),
    ensures
        final(lexer).inv(),
        final(lexer).text() == old(lexer).text(),
        final(lexer).stack() == old(lexer).stack(),
        (match r {
            Some(s) => default_state(s),
            None => true,
        }),
        step_progress(*old(lexer), StateFunction::Initial, *final(lexer), r),
        ({
            let t0 = *old(lexer);
            let tf = *final(lexer);
            if t0.head() < t0.text().len() {
                if is_lex_whitespace(t0.text()[t0.head()]) {
                    flushed_then_advanced(t0, tf, Category::Text, 1)
                        && r == Some(StateFunction::Whitespace)
                } else {
                    only_advanced(t0, tf, 1) && r == Some(StateFunction::Initial)
                }
            } else {
                flushed(t0, tf, Category::Text) && r == None::<StateFunction>
            }
        }),
{
    match lexer.current_char() {
        Some(c) => {
            match c {
                ' ' | '\n' => {
                    lexer.tokenize(Category::Text);
                    lexer.advance();
                    return Some(StateFunction::Whitespace);
                },
                _ => lexer.advance(),
            }
            Some(StateFunction::Initial)
        },
        None => {
            lexer.tokenize(Category::Text);
            None
        },
    }
}

fn whitespace(lexer: &mut Tokenizer) -> (r: Option<StateFunction>)
    requires
        old(lexer).inv(),
    ensures
        final(lexer).inv(),
        final(lexer).text() == old(lexer).text(),
        final(lexer).stack() == old(lexer).stack(),
        (match r {
            Some(s) => default_state(s),
            None => true,
        }),
        step_progress(*old(lexer), StateFunction::Whitespace, *final(lexer), r),
        ({
            let t0 = *old(lexer);
            let tf = *final(lexer);
            if t0.head() < t0.text().len() {
                if is_lex_whitespace(t0.text()[t0.head()]) {
                    only_advanced(t0, tf, 1) && r == Some(StateFunction::Whitespace)
                } else {
                    flushed(t0, tf, Category::Whitespace) && r == Some(StateFunction::Initial)
                }
            } else {
                flushed(t0, tf, Category::Whitespace) && r == None::<StateFunction>
            }
        }),
{
    match lexer.current_char() {
        Some(c) => {
            match c {
                ' ' | '\n' => {
                    lexer.advance();
                    Some(StateFunction::Whitespace)
                },
                _ => {
                    lexer.tokenize(Category::Whitespace);
                    Some(StateFunction::Initial)
                },
            }
        },
        None => {
            lexer.tokenize(Category::Whitespace);
            None
        },
    }
}

/// Lexes any UTF-8 document: the emitted tokens join to reproduce `data`
/// exactly, and none of them is empty.
pub fn lex(data: &str) -> (r: Vec<Token>)
    ensures
        concat_lexemes(r@) == data@,
        all_lexemes_nonempty(r@),
{
    let mut lexer = new(data);
    let mut state = StateFunction::Initial;
    loop
        invariant
            lexer.inv(),
            lexer.text() == data@,
            lexer.stack().len() == 0,
            default_state(state),
        decreases
            lexer.text().len() - lexer.head(),
            lex_measure(lexer, state),
    {
        let next = match state {
            StateFunction::Whitespace => whitespace(&mut lexer),
            _ => initial_state(&mut lexer),
        };
        match next {
            Some(s) => { state = s; },
            None => {
                match lexer.pop_state() {
                    Some(s) => { state = s; },
                    None => { return lexer.tokens(); },
                }
            },
        }
    }
}

} // verus!
