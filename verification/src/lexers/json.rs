//! A lexer for JSON data.

use vstd::prelude::*;

use crate::lexers::{lex_measure, step_progress};
use crate::token::{all_lexemes_nonempty, concat_lexemes, Category, Token};
use crate::tokenizer::{advanced_then_flushed, flushed, flushed_then_advanced};
use crate::tokenizer::{flushed_then_committed, is_lex_whitespace, only_advanced, spec_has_prefix};
use crate::tokenizer::{new, StateFunction, Tokenizer};

verus! {

/// The lexical contexts this lexer is built from.
spec fn json_state(s: StateFunction) -> bool {
    ||| s == StateFunction::Initial
    ||| s == StateFunction::Whitespace
    ||| s == StateFunction::InsideString
}

fn initial_state(tokenizer: &mut Tokenizer) -> (r: Option<StateFunction>)
    requires
        old(tokenizer).inv(),
    ensures
        final(tokenizer).inv(),
        final(tokenizer).text() == old(tokenizer).text(),
        final(tokenizer).stack() == old(tokenizer).stack(),
        (match r {
            Some(s) => json_state(s),
            None => true,
        }),
        step_progress(*old(tokenizer), StateFunction::Initial, *final(tokenizer), r),
        ({
            let t0 = *old(tokenizer);
            let tf = *final(tokenizer);
            let text = t0.text();
            let h = t0.head();
            if h < text.len() {
                let c = text[h];
                if c == '{' {
                    flushed_then_committed(t0, tf, Category::Text, 1, Category::Brace)
                        && r == Some(StateFunction::Initial)
                } else if c == '[' {
                    flushed_then_committed(t0, tf, Category::Text, 1, Category::Bracket)
                        && r == Some(StateFunction::Initial)
                } else if is_lex_whitespace(c) {
                    flushed_then_advanced(t0, tf, Category::Text, 1)
                        && r == Some(StateFunction::Whitespace)
                } else if c == '"' {
                    flushed_then_advanced(t0, tf, Category::Text, 1)
                        && r == Some(StateFunction::InsideString)
                } else if c == ':' {
                    flushed_then_committed(t0, tf, Category::Text, 1, Category::Operator)
                        && r == Some(StateFunction::Initial)
                } else if c == '}' {
                    flushed_then_committed(t0, tf, Category::Text, 1, Category::Brace)
                        && r == Some(StateFunction::Initial)
                } else if c == ']' {
                    flushed_then_committed(t0, tf, Category::Text, 1, Category::Bracket)
                        && r == Some(StateFunction::Initial)
                } else if spec_has_prefix(text, h, "true"@) {
                    flushed_then_committed(t0, tf, Category::Text, 4, Category::Boolean)
                        && r == Some(StateFunction::Initial)
                } else if spec_has_prefix(text, h, "false"@) {
                    flushed_then_committed(t0, tf, Category::Text, 5, Category::Boolean)
                        && r == Some(StateFunction::Initial)
                } else if spec_has_prefix(text, h, "null"@) {
                    flushed_then_committed(t0, tf, Category::Text, 4, Category::Keyword)
                        && r == Some(StateFunction::Initial)
                } else {
                    only_advanced(t0, tf, 1) && r == Some(StateFunction::Initial)
                }
            } else {
                flushed(t0, tf, Category::Text) && r == None::<StateFunction>
            }
        }),
{
    match tokenizer.current_char() {
        Some(c) => {
            match c {
                '{' => {
                    tokenizer.tokenize_next(1, Category::Brace);
                },
                '[' => {
                    tokenizer.tokenize_next(1, Category::Bracket);
                },
                ' ' | '\n' => {
                    tokenizer.tokenize(Category::Text);
                    tokenizer.advance();
                    return Some(StateFunction::Whitespace);
                },
                '"' => {
                    tokenizer.tokenize(Category::Text);
                    tokenizer.advance();
                    return Some(StateFunction::InsideString);
                },
                ':' => {
                    tokenizer.tokenize_next(1, Category::Operator);
                },
                '}' => {
                    tokenizer.tokenize_next(1, Category::Brace);
                },
                ']' => {
                    tokenizer.tokenize_next(1, Category::Bracket);
                },
                _ => {
                    if tokenizer.has_prefix("true") {
                        proof { reveal_strlit("true"); }
                        tokenizer.tokenize_next(4, Category::Boolean);
                    } else if tokenizer.has_prefix("false") {
                        proof { reveal_strlit("false"); }
                        tokenizer.tokenize_next(5, Category::Boolean);
                    } else if tokenizer.has_prefix("null") {
                        proof { reveal_strlit("null"); }
                        tokenizer.tokenize_next(4, Category::Keyword);
                    } else {
                        tokenizer.advance();
                    }
                },
            }
            Some(StateFunction::Initial)
        },
        None => {
            tokenizer.tokenize(Category::Text);
            None
        },
    }
}

fn inside_string(tokenizer: &mut Tokenizer) -> (r: Option<StateFunction>)
    requires
        old(tokenizer).inv(),
    ensures
        final(tokenizer).inv(),
        final(tokenizer).text() == old(tokenizer).text(),
        final(tokenizer).stack() == old(tokenizer).stack(),
        (match r {
            Some(s) => json_state(s),
            None => true,
        }),
        step_progress(*old(tokenizer), StateFunction::InsideString, *final(tokenizer), r),
        ({
            let t0 = *old(tokenizer);
            let tf = *final(tokenizer);
            if t0.head() < t0.text().len() {
                let c = t0.text()[t0.head()];
                if c == '"' {
                    advanced_then_flushed(t0, tf, 1, Category::String)
                        && r == Some(StateFunction::Initial)
                } else if c == '\\' {
                    only_advanced(t0, tf, 2) && r == Some(StateFunction::InsideString)
                } else {
                    only_advanced(t0, tf, 1) && r == Some(StateFunction::InsideString)
                }
            } else {
                flushed(t0, tf, Category::String) && r == None::<StateFunction>
            }
        }),
{
    match tokenizer.current_char() {
        Some(c) => {
            match c {
                '"' => {
                    tokenizer.advance();
                    tokenizer.tokenize(Category::String);
                    Some(StateFunction::Initial)
                },
                '\\' => {
                    tokenizer.advance();
                    tokenizer.advance();
                    Some(StateFunction::InsideString)
                },
                _ => {
                    tokenizer.advance();
                    Some(StateFunction::InsideString)
                },
            }
        },
        None => {
            tokenizer.tokenize(Category::String);
            None
        },
    }
}

fn whitespace(tokenizer: &mut Tokenizer) -> (r: Option<StateFunction>)
    requires
        old(tokenizer).inv(),
    ensures
        final(tokenizer).inv(),
        final(tokenizer).text() == old(tokenizer).text(),
        final(tokenizer).stack() == old(tokenizer).stack(),
        (match r {
            Some(s) => json_state(s),
            None => true,
        }),
        step_progress(*old(tokenizer), StateFunction::Whitespace, *final(tokenizer), r),
        ({
            let t0 = *old(tokenizer);
            let tf = *final(tokenizer);
            if t0.head() < t0.text().len() {
                if is_lex_whitespace(t0.text()[t0.head()]) {
                    only_advanced(t0, tf, 1) && r == Some(StateFunction::Whitespace)
                } else {
                    flushed(t0, tf, Category::Whitespace) && r == Some(StateFunction::Initial)
                }
            } else {
                flushed(t0, tf, Category::Whitespace) && r == None::<StateFunction>
            }
        }),
{
    match tokenizer.current_char() {
        Some(c) => {
            match c {
                ' ' | '\n' => {
                    tokenizer.advance();
                    Some(StateFunction::Whitespace)
                },
                _ => {
                    tokenizer.tokenize(Category::Whitespace);
                    Some(StateFunction::Initial)
                },
            }
        },
        None => {
            tokenizer.tokenize(Category::Whitespace);
            None
        },
    }
}

/// Lexes a JSON document: the emitted tokens join to reproduce `data`
/// exactly, and none of them is empty. Input the format does not recognize
/// degrades to text and whitespace tokens rather than failing.
pub fn lex(data: &str) -> (r: Vec<Token>)
    ensures
        concat_lexemes(r@) == data@,
        all_lexemes_nonempty(r@),
{
    let mut tokenizer = new(data);
    let mut state = StateFunction::Initial;
    loop
        invariant
            tokenizer.inv(),
            tokenizer.text() == data@,
            tokenizer.stack().len() == 0,
            json_state(state),
        decreases
            tokenizer.text().len() - tokenizer.head(),
            lex_measure(tokenizer, state),
    {
        let next = match state {
            StateFunction::Whitespace => whitespace(&mut tokenizer),
            StateFunction::InsideString => inside_string(&mut tokenizer),
            _ => initial_state(&mut tokenizer),
        };
        match next {
            Some(s) => { state = s; },
            None => {
                match tokenizer.pop_state() {
                    Some(s) => { state = s; },
                    None => { return tokenizer.tokens(); },
                }
            },
        }
    }
}

} // verus!
