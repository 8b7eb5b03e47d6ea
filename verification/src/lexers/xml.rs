//! A lexer for XML data.

use vstd::prelude::*;

use crate::lexers::{lex_measure, step_progress};
use crate::token::{all_lexemes_nonempty, concat_lexemes, Category, Token};
use crate::tokenizer::{advanced_then_flushed, flushed, flushed_then_advanced};
use crate::tokenizer::{flushed_then_committed, is_lex_whitespace, only_advanced, spec_has_prefix};
use crate::tokenizer::{new, StateFunction, Tokenizer};

verus! {

/// The lexical contexts this lexer is built from.
spec fn xml_state(s: StateFunction) -> bool {
    ||| s == StateFunction::Initial
    ||| s == StateFunction::StartOfTag
    ||| s == StateFunction::InsideTag
    ||| s == StateFunction::InsideString
    ||| s == StateFunction::Whitespace
}

/// Every suspended context on the stack belongs to this lexer.
spec fn xml_stack_ok(stack: Seq<StateFunction>) -> bool {
    forall|i: int| 0 <= i < stack.len() ==> xml_state(#[trigger] stack[i])
}

fn initial_state(tokenizer: &mut Tokenizer) -> (r: Option<StateFunction>)
    requires
        old(tokenizer).inv(),
        xml_stack_ok(old(tokenizer).stack()),
    ensures
        final(tokenizer).inv(),
        final(tokenizer).text() == old(tokenizer).text(),
        xml_stack_ok(final(tokenizer).stack()),
        (match r {
            Some(s) => xml_state(s),
            None => true,
        }),
        step_progress(*old(tokenizer), StateFunction::Initial, *final(tokenizer), r),
        ({
            let t0 = *old(tokenizer);
            let tf = *final(tokenizer);
            let text = t0.text();
            let h = t0.head();
            if h < text.len() {
                if spec_has_prefix(text, h, "</"@) {
                    flushed_then_committed(t0, tf, Category::Identifier, 2, Category::Text)
                        && tf.stack() == t0.stack() && r == Some(StateFunction::InsideTag)
                } else if text[h] == '<' {
                    flushed_then_committed(t0, tf, Category::Text, 1, Category::Text)
                        && tf.stack() == t0.stack() && r == Some(StateFunction::StartOfTag)
                } else if is_lex_whitespace(text[h]) {
                    flushed_then_advanced(t0, tf, Category::Text, 1)
                        && tf.stack() == t0.stack().push(StateFunction::Initial)
                        && r == Some(StateFunction::Whitespace)
                } else {
                    only_advanced(t0, tf, 1) && tf.stack() == t0.stack()
                        && r == Some(StateFunction::Initial)
                }
            } else {
                flushed(t0, tf, Category::Text) && tf.stack() == t0.stack()
                    && r == None::<StateFunction>
            }
        }),
{
    match tokenizer.current_char() {
        Some(c) => {
            if tokenizer.has_prefix("</") {
                proof { reveal_strlit("</"); }
                tokenizer.tokenize(Category::Identifier);
                tokenizer.tokenize_next(2, Category::Text);
                return Some(StateFunction::InsideTag);
            }
            match c {
                '<' => {
                    tokenizer.tokenize_next(1, Category::Text);
                    return Some(StateFunction::StartOfTag);
                },
                ' ' | '\n' => {
                    tokenizer.tokenize(Category::Text);
                    tokenizer.advance();
                    tokenizer.push_state(StateFunction::Initial);
                    return Some(StateFunction::Whitespace);
                },
                _ => {
                    tokenizer.advance();
                },
            }
            Some(StateFunction::Initial)
        },
        None => {
            tokenizer.tokenize(Category::Text);
            None
        },
    }
}

fn start_of_tag(tokenizer: &mut Tokenizer) -> (r: Option<StateFunction>)
    requires
        old(tokenizer).inv(),
        xml_stack_ok(old(tokenizer).stack()),
    ensures
        final(tokenizer).inv(),
        final(tokenizer).text() == old(tokenizer).text(),
        xml_stack_ok(final(tokenizer).stack()),
        (match r {
            Some(s) => xml_state(s),
            None => true,
        }),
        step_progress(*old(tokenizer), StateFunction::StartOfTag, *final(tokenizer), r),
        ({
            let t0 = *old(tokenizer);
            let tf = *final(tokenizer);
            if t0.head() < t0.text().len() {
                let c = t0.text()[t0.head()];
                if is_lex_whitespace(c) {
                    flushed(t0, tf, Category::Identifier)
                        && tf.stack() == t0.stack().push(StateFunction::InsideTag)
                        && r == Some(StateFunction::Whitespace)
                } else if c == '>' {
                    flushed_then_committed(t0, tf, Category::Identifier, 1, Category::Text)
                        && tf.stack() == t0.stack() && r == Some(StateFunction::Initial)
                } else {
                    only_advanced(t0, tf, 1) && tf.stack() == t0.stack()
                        && r == Some(StateFunction::StartOfTag)
                }
            } else {
                flushed(t0, tf, Category::Identifier) && tf.stack() == t0.stack()
                    && r == None::<StateFunction>
            }
        }),
{
    match tokenizer.current_char() {
        Some(c) => {
            match c {
                ' ' | '\n' => {
                    tokenizer.tokenize(Category::Identifier);
                    tokenizer.push_state(StateFunction::InsideTag);
                    return Some(StateFunction::Whitespace);
                },
                '>' => {
                    tokenizer.tokenize(Category::Identifier);
                    tokenizer.tokenize_next(1, Category::Text);
                    Some(StateFunction::Initial)
                },
                _ => {
                    tokenizer.advance();
                    Some(StateFunction::StartOfTag)
                },
            }
        },
        None => {
            tokenizer.tokenize(Category::Identifier);
            None
        },
    }
}

fn inside_tag(tokenizer: &mut Tokenizer) -> (r: Option<StateFunction>)
    requires
        old(tokenizer).inv(),
        xml_stack_ok(old(tokenizer).stack()),
    ensures
        final(tokenizer).inv(),
        final(tokenizer).text() == old(tokenizer).text(),
        xml_stack_ok(final(tokenizer).stack()),
        (match r {
            Some(s) => xml_state(s),
            None => true,
        }),
        step_progress(*old(tokenizer), StateFunction::InsideTag, *final(tokenizer), r),
        ({
            let t0 = *old(tokenizer);
            let tf = *final(tokenizer);
            let text = t0.text();
            let h = t0.head();
            if h < text.len() {
                let c = text[h];
                if c == '"' {
                    flushed_then_advanced(t0, tf, Category::Identifier, 1)
                        && tf.stack() == t0.stack() && r == Some(StateFunction::InsideString)
                } else if is_lex_whitespace(c) {
                    flushed_then_advanced(t0, tf, Category::Identifier, 1)
                        && tf.stack() == t0.stack().push(StateFunction::InsideTag)
                        && r == Some(StateFunction::Whitespace)
                } else if c == '=' {
                    flushed_then_committed(t0, tf, Category::Identifier, 1, Category::Operator)
                        && tf.stack() == t0.stack() && r == Some(StateFunction::InsideTag)
                } else if c == '>' {
                    flushed_then_committed(t0, tf, Category::Identifier, 1, Category::Text)
                        && tf.stack() == t0.stack() && r == Some(StateFunction::Initial)
                } else if spec_has_prefix(text, h, "/>"@) {
                    flushed_then_committed(t0, tf, Category::Identifier, 2, Category::Text)
                        && tf.stack() == t0.stack() && r == Some(StateFunction::Initial)
                } else {
                    only_advanced(t0, tf, 1) && tf.stack() == t0.stack()
                        && r == Some(StateFunction::InsideTag)
                }
            } else {
                flushed(t0, tf, Category::Identifier) && tf.stack() == t0.stack()
                    && r == None::<StateFunction>
            }
        }),
{
    match tokenizer.current_char() {
        Some(c) => {
            match c {
                '"' => {
                    tokenizer.tokenize(Category::Identifier);
                    tokenizer.advance();
                    Some(StateFunction::InsideString)
                },
                ' ' | '\n' => {
                    tokenizer.tokenize(Category::Identifier);
                    tokenizer.advance();
                    tokenizer.push_state(StateFunction::InsideTag);
                    return Some(StateFunction::Whitespace);
                },
                '=' => {
                    tokenizer.tokenize(Category::Identifier);
                    tokenizer.tokenize_next(1, Category::Operator);
                    Some(StateFunction::InsideTag)
                },
                '>' => {
                    tokenizer.tokenize(Category::Identifier);
                    tokenizer.tokenize_next(1, Category::Text);
                    Some(StateFunction::Initial)
                },
                _ => {
                    if tokenizer.has_prefix("/>") {
                        proof { reveal_strlit("/>"); }
                        tokenizer.tokenize(Category::Identifier);
                        tokenizer.tokenize_next(2, Category::Text);
                        return Some(StateFunction::Initial);
                    }
                    tokenizer.advance();
                    Some(StateFunction::InsideTag)
                },
            }
        },
        None => {
            tokenizer.tokenize(Category::Identifier);
            None
        },
    }
}

fn inside_string(tokenizer: &mut Tokenizer) -> (r: Option<StateFunction>)
    requires
        old(tokenizer).inv(),
        xml_stack_ok(old(tokenizer).stack()),
    ensures
        final(tokenizer).inv(),
        final(tokenizer).text() == old(tokenizer).text(),
        xml_stack_ok(final(tokenizer).stack()),
        (match r {
            Some(s) => xml_state(s),
            None => true,
        }),
        step_progress(*old(tokenizer), StateFunction::InsideString, *final(tokenizer), r),
        ({
            let t0 = *old(tokenizer);
            let tf = *final(tokenizer);
            if t0.head() < t0.text().len() {
                let c = t0.text()[t0.head()];
                if c == '"' {
                    advanced_then_flushed(t0, tf, 1, Category::String)
                        && r == Some(StateFunction::InsideTag)
                } else if c == '\\' {
                    only_advanced(t0, tf, 2) && r == Some(StateFunction::InsideString)
                } else {
                    only_advanced(t0, tf, 1) && r == Some(StateFunction::InsideString)
                }
            } else {
                flushed(t0, tf, Category::String) && r == None::<StateFunction>
            }
        }),
        final(tokenizer).stack() == old(tokenizer).stack(),
{
    match tokenizer.current_char() {
        Some(c) => {
            match c {
                '"' => {
                    tokenizer.advance();
                    tokenizer.tokenize(Category::String);
                    Some(StateFunction::InsideTag)
                },
                '\\' => {
                    tokenizer.advance();
                    tokenizer.advance();
                    Some(StateFunction::InsideString)
                },
                _ => {
                    tokenizer.advance();
                    Some(StateFunction::InsideString)
                },
            }
        },
        None => {
            tokenizer.tokenize(Category::String);
            None
        },
    }
}

fn whitespace(tokenizer: &mut Tokenizer) -> (r: Option<StateFunction>)
    requires
        old(tokenizer).inv(),
        xml_stack_ok(old(tokenizer).stack()),
    ensures
        final(tokenizer).inv(),
        final(tokenizer).text() == old(tokenizer).text(),
        xml_stack_ok(final(tokenizer).stack()),
        (match r {
            Some(s) => xml_state(s),
            None => true,
        }),
        step_progress(*old(tokenizer), StateFunction::Whitespace, *final(tokenizer), r),
        ({
            let t0 = *old(tokenizer);
            let tf = *final(tokenizer);
            if t0.head() < t0.text().len() {
                if is_lex_whitespace(t0.text()[t0.head()]) {
                    only_advanced(t0, tf, 1) && tf.stack() == t0.stack()
                        && r == Some(StateFunction::Whitespace)
                } else {
                    flushed(t0, tf, Category::Whitespace)
                        && (if t0.stack().len() > 0 {
                            tf.stack() == t0.stack().drop_last()
                                && r == Some(t0.stack().last())
                        } else {
                            tf.stack() == t0.stack() && r == Some(StateFunction::Initial)
                        })
                }
            } else {
                flushed(t0, tf, Category::Whitespace) && tf.stack() == t0.stack()
                    && r == None::<StateFunction>
            }
        }),
{
    match tokenizer.current_char() {
        Some(c) => {
            match c {
                ' ' | '\n' => {
                    tokenizer.advance();
                    Some(StateFunction::Whitespace)
                },
                _ => {
                    tokenizer.tokenize(Category::Whitespace);
                    match tokenizer.pop_state() {
                        Some(state) => Some(state),
                        None => Some(StateFunction::Initial),
                    }
                },
            }
        },
        None => {
            tokenizer.tokenize(Category::Whitespace);
            None
        },
    }
}

/// Lexes an XML document: the emitted tokens join to reproduce `data`
/// exactly, and none of them is empty. Input the format does not recognize
/// degrades to text and whitespace tokens rather than failing.
pub fn lex(data: &str) -> (r: Vec<Token>)
    ensures
        concat_lexemes(r@) == data@,
        all_lexemes_nonempty(r@),
{
    let mut tokenizer = new(data);
    let mut state = StateFunction::Initial;
    loop
        invariant
            tokenizer.inv(),
            tokenizer.text() == data@,
            xml_stack_ok(tokenizer.stack()),
            xml_state(state),
        decreases
            tokenizer.text().len() - tokenizer.head(),
            lex_measure(tokenizer, state),
    {
        let next = match state {
            StateFunction::StartOfTag => start_of_tag(&mut tokenizer),
            StateFunction::InsideTag => inside_tag(&mut tokenizer),
            StateFunction::InsideString => inside_string(&mut tokenizer),
            StateFunction::Whitespace => whitespace(&mut tokenizer),
            _ => initial_state(&mut tokenizer),
        };
        match next {
            Some(s) => { state = s; },
            None => {
                match tokenizer.pop_state() {
                    Some(s) => { state = s; },
                    None => { return tokenizer.tokens(); },
                }
            },
        }
    }
}

} // verus!
