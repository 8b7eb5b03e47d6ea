//! A lexer for the Rust programming language.

use vstd::prelude::*;

use crate::lexers::{assignment_committed, char_is_numeric, is_numeric};
use crate::lexers::{lex_measure, step_progress};
use crate::token::{all_lexemes_nonempty, concat_lexemes, Category, Token};
use crate::tokenizer::{advanced_then_flushed, flushed, flushed_then_advanced};
use crate::tokenizer::{flushed_then_committed, is_lex_whitespace, only_advanced};
use crate::tokenizer::{spec_has_prefix, spec_starts_with_lexeme, whitespace_consumed};
use crate::tokenizer::{new, StateFunction, Tokenizer, whitespace_run_end};

verus! {

/// The lexical contexts this lexer is built from.
spec fn rust_state(s: StateFunction) -> bool {
    ||| s == StateFunction::Initial
    ||| s == StateFunction::InsideString
    ||| s == StateFunction::InsideSingleQuoteString
    ||| s == StateFunction::Whitespace
    ||| s == StateFunction::Argument
    ||| s == StateFunction::Identifier
    ||| s == StateFunction::Function
    ||| s == StateFunction::Comment
    ||| s == StateFunction::Integer
}

/// Every suspended context on the stack belongs to this lexer.
spec fn rust_stack_ok(stack: Seq<StateFunction>) -> bool {
    forall|i: int| 0 <= i < stack.len() ==> rust_state(#[trigger] stack[i])
}

fn initial_state(tokenizer: &mut Tokenizer) -> (r: Option<StateFunction>)
    requires
        old(tokenizer).inv(),
        rust_stack_ok(old(tokenizer).stack()),
    ensures
        final(tokenizer).inv(),
        final(tokenizer).text() == old(tokenizer).text(),
        rust_stack_ok(final(tokenizer).stack()),
        (match r {
            Some(s) => rust_state(s),
            None => true,
        }),
        step_progress(*old(tokenizer), StateFunction::Initial, *final(tokenizer), r),
        ({
            let t0 = *old(tokenizer);
            let tf = *final(tokenizer);
            let text = t0.text();
            let h = t0.head();
            if spec_starts_with_lexeme(text, h, "pub"@) {
                flushed_then_committed(t0, tf, Category::Text, 3, Category::Keyword)
                    && tf.stack() == t0.stack() && r == Some(StateFunction::Initial)
            } else if spec_starts_with_lexeme(text, h, "let"@) {
                flushed_then_committed(t0, tf, Category::Text, 3, Category::Keyword)
                    && tf.stack() == t0.stack() && r == Some(StateFunction::Initial)
            } else if spec_starts_with_lexeme(text, h, "mut"@) {
                flushed_then_committed(t0, tf, Category::Text, 3, Category::Keyword)
                    && tf.stack() == t0.stack() && r == Some(StateFunction::Initial)
            } else if spec_starts_with_lexeme(text, h, "match"@) {
                flushed_then_committed(t0, tf, Category::Text, 5, Category::Keyword)
                    && tf.stack() == t0.stack() && r == Some(StateFunction::Initial)
            } else if spec_starts_with_lexeme(text, h, "loop"@) {
                flushed_then_committed(t0, tf, Category::Text, 4, Category::Keyword)
                    && tf.stack() == t0.stack() && r == Some(StateFunction::Initial)
            } else if spec_starts_with_lexeme(text, h, "use"@) {
                flushed_then_committed(t0, tf, Category::Text, 3, Category::Keyword)
                    && tf.stack() == t0.stack().push(StateFunction::Identifier)
                    && r == Some(StateFunction::Whitespace)
            } else if spec_starts_with_lexeme(text, h, "mod"@) {
                flushed_then_committed(t0, tf, Category::Text, 3, Category::Keyword)
                    && tf.stack() == t0.stack().push(StateFunction::Identifier)
                    && r == Some(StateFunction::Whitespace)
            } else if spec_starts_with_lexeme(text, h, "extern"@) {
                flushed_then_committed(t0, tf, Category::Text, 6, Category::Keyword)
                    && tf.stack() == t0.stack().push(StateFunction::Initial)
                    && r == Some(StateFunction::Whitespace)
            } else if spec_starts_with_lexeme(text, h, "crate"@) {
                flushed_then_committed(t0, tf, Category::Text, 5, Category::Keyword)
                    && tf.stack() == t0.stack().push(StateFunction::Identifier)
                    && r == Some(StateFunction::Whitespace)
            } else if spec_starts_with_lexeme(text, h, "for"@) {
                flushed_then_committed(t0, tf, Category::Text, 3, Category::Keyword)
                    && tf.stack() == t0.stack().push(StateFunction::Identifier)
                    && r == Some(StateFunction::Whitespace)
            } else if spec_starts_with_lexeme(text, h, "in"@) {
                flushed_then_committed(t0, tf, Category::Text, 2, Category::Keyword)
                    && tf.stack() == t0.stack().push(StateFunction::Identifier)
                    && r == Some(StateFunction::Whitespace)
            } else if spec_starts_with_lexeme(text, h, "fn"@) {
                flushed_then_committed(t0, tf, Category::Text, 2, Category::Keyword)
                    && tf.stack() == t0.stack().push(StateFunction::Function)
                    && r == Some(StateFunction::Whitespace)
            } else if spec_starts_with_lexeme(text, h, ":"@) {
                advanced_then_flushed(t0, tf, 1, Category::Key)
                    && tf.stack() == t0.stack().push(StateFunction::Identifier)
                    && r == Some(StateFunction::Whitespace)
            } else if spec_has_prefix(text, h, "::"@) {
                flushed_then_committed(t0, tf, Category::Identifier, 2, Category::Text)
                    && tf.stack() == t0.stack() && r == Some(StateFunction::Initial)
            } else if spec_starts_with_lexeme(text, h, "//"@) {
                only_advanced(t0, tf, 0) && tf.stack() == t0.stack()
                    && r == Some(StateFunction::Comment)
            } else if h < text.len() {
                let c = text[h];
                if c == '"' {
                    flushed_then_advanced(t0, tf, Category::Text, 1)
                        && tf.stack() == t0.stack() && r == Some(StateFunction::InsideString)
                } else if c == '\'' {
                    flushed_then_advanced(t0, tf, Category::Text, 1)
                        && tf.stack() == t0.stack()
                        && r == Some(StateFunction::InsideSingleQuoteString)
                } else if c == '|' {
                    flushed_then_committed(t0, tf, Category::Text, 1, Category::Text)
                        && tf.stack() == t0.stack().push(StateFunction::Argument)
                        && r == Some(StateFunction::Whitespace)
                } else if c == '.' {
                    flushed_then_committed(t0, tf, Category::Identifier, 1, Category::Text)
                        && tf.stack() == t0.stack() && r == Some(StateFunction::Initial)
                } else if c == '(' {
                    flushed_then_committed(t0, tf, Category::Call, 1, Category::Text)
                        && tf.stack() == t0.stack() && r == Some(StateFunction::Argument)
                } else if c == '+' {
                    flushed_then_committed(t0, tf, Category::Text, 1, Category::Operator)
                        && tf.stack() == t0.stack() && r == Some(StateFunction::Initial)
                } else if is_lex_whitespace(c) {
                    let e = whitespace_run_end(text, h);
                    (if e < text.len() && text[e] == '=' {
                        assignment_committed(t0, tf)
                    } else {
                        whitespace_consumed(t0, tf)
                    }) && tf.stack() == t0.stack() && r == Some(StateFunction::Initial)
                } else if c == '=' {
                    flushed_then_committed(t0, tf, Category::Identifier, 1, Category::Text)
                        && tf.stack() == t0.stack() && r == Some(StateFunction::Initial)
                } else if c == '[' {
                    flushed_then_committed(t0, tf, Category::Identifier, 1, Category::Text)
                        && tf.stack() == t0.stack() && r == Some(StateFunction::Initial)
                } else if c == ']' {
                    flushed_then_committed(t0, tf, Category::Text, 1, Category::Text)
                        && tf.stack() == t0.stack() && r == Some(StateFunction::Initial)
                } else {
                    only_advanced(t0, tf, 1) && tf.stack() == t0.stack()
                        && r == (if char_is_numeric(c) {
                            Some(StateFunction::Integer)
                        } else {
                            Some(StateFunction::Initial)
                        })
                }
            } else {
                flushed(t0, tf, Category::Text) && tf.stack() == t0.stack()
                    && r == None::<StateFunction>
            }
        }),
{
    if tokenizer.starts_with_lexeme("pub") {
        proof { reveal_strlit("pub"); }
        tokenizer.tokenize_next(3, Category::Keyword);
        return Some(StateFunction::Initial);
    } else if tokenizer.starts_with_lexeme("let") {
        proof { reveal_strlit("let"); }
        tokenizer.tokenize_next(3, Category::Keyword);
        return Some(StateFunction::Initial);
    } else if tokenizer.starts_with_lexeme("mut") {
        proof { reveal_strlit("mut"); }
        tokenizer.tokenize_next(3, Category::Keyword);
        return Some(StateFunction::Initial);
    } else if tokenizer.starts_with_lexeme("match") {
        proof { reveal_strlit("match"); }
        tokenizer.tokenize_next(5, Category::Keyword);
        return Some(StateFunction::Initial);
    } else if tokenizer.starts_with_lexeme("loop") {
        proof { reveal_strlit("loop"); }
        tokenizer.tokenize_next(4, Category::Keyword);
        return Some(StateFunction::Initial);
    }

    if tokenizer.starts_with_lexeme("use") {
        proof { reveal_strlit("use"); }
        tokenizer.tokenize_next(3, Category::Keyword);
        tokenizer.push_state(StateFunction::Identifier);
        return Some(StateFunction::Whitespace);
    } else if tokenizer.starts_with_lexeme("mod") {
        proof { reveal_strlit("mod"); }
        tokenizer.tokenize_next(3, Category::Keyword);
        tokenizer.push_state(StateFunction::Identifier);
        return Some(StateFunction::Whitespace);
    } else if tokenizer.starts_with_lexeme("extern") {
        proof { reveal_strlit("extern"); }
        tokenizer.tokenize_next(6, Category::Keyword);
        tokenizer.push_state(StateFunction::Initial);
        return Some(StateFunction::Whitespace);
    } else if tokenizer.starts_with_lexeme("crate") {
        proof { reveal_strlit("crate"); }
        tokenizer.tokenize_next(5, Category::Keyword);
        tokenizer.push_state(StateFunction::Identifier);
        return Some(StateFunction::Whitespace);
    } else if tokenizer.starts_with_lexeme("for") {
        proof { reveal_strlit("for"); }
        tokenizer.tokenize_next(3, Category::Keyword);
        tokenizer.push_state(StateFunction::Identifier);
        return Some(StateFunction::Whitespace);
    } else if tokenizer.starts_with_lexeme("in") {
        proof { reveal_strlit("in"); }
        tokenizer.tokenize_next(2, Category::Keyword);
        tokenizer.push_state(StateFunction::Identifier);
        return Some(StateFunction::Whitespace);
    } else if tokenizer.starts_with_lexeme("fn") {
        proof { reveal_strlit("fn"); }
        tokenizer.tokenize_next(2, Category::Keyword);
        tokenizer.push_state(StateFunction::Function);
        return Some(StateFunction::Whitespace);
    } else if tokenizer.starts_with_lexeme(":") {
        proof { reveal_strlit(":"); }
        tokenizer.advance();
        tokenizer.tokenize(Category::Key);
        tokenizer.push_state(StateFunction::Identifier);
        return Some(StateFunction::Whitespace);
    } else if tokenizer.has_prefix("::") {
        proof { reveal_strlit("::"); }
        tokenizer.tokenize(Category::Identifier);
        tokenizer.tokenize_next(2, Category::Text);
        return Some(StateFunction::Initial);
    } else if tokenizer.starts_with_lexeme("//") {
        proof {
            reveal_strlit("//");
            assert(tokenizer.text()[tokenizer.head() + 0] == "//"@[0]);
            assert(tokenizer.text()[tokenizer.head()] == '/');
        }
        return Some(StateFunction::Comment);
    }

    match tokenizer.current_char() {
        Some('"') => {
            tokenizer.tokenize(Category::Text);
            tokenizer.advance();
            Some(StateFunction::InsideString)
        },
        Some('\'') => {
            tokenizer.tokenize(Category::Text);
            tokenizer.advance();
            Some(StateFunction::InsideSingleQuoteString)
        },
        Some('|') => {
            tokenizer.tokenize_next(1, Category::Text);
            tokenizer.push_state(StateFunction::Argument);
            Some(StateFunction::Whitespace)
        },
        Some('.') => {
            tokenizer.tokenize(Category::Identifier);
            tokenizer.tokenize_next(1, Category::Text);
            Some(StateFunction::Initial)
        },
        Some('(') => {
            tokenizer.tokenize(Category::Call);
            tokenizer.tokenize_next(1, Category::Text);
            Some(StateFunction::Argument)
        },
        Some('+') => {
            tokenizer.tokenize_next(1, Category::Operator);
            Some(StateFunction::Initial)
        },
        Some(' ') | Some('\n') => {
            match tokenizer.next_non_whitespace_char() {
                Some('=') => {
                    tokenizer.tokenize(Category::Identifier);
                    tokenizer.consume_whitespace();
                    tokenizer.tokenize_next(1, Category::Text);
                },
                _ => tokenizer.consume_whitespace(),
            }
            Some(StateFunction::Initial)
        },
        Some('=') => {
            tokenizer.tokenize(Category::Identifier);
            tokenizer.tokenize_next(1, Category::Text);
            Some(StateFunction::Initial)
        },
        Some('[') => {
            tokenizer.tokenize(Category::Identifier);
            tokenizer.tokenize_next(1, Category::Text);
            Some(StateFunction::Initial)
        },
        Some(']') => {
            tokenizer.tokenize_next(1, Category::Text);
            Some(StateFunction::Initial)
        },
        Some(c) => {
            tokenizer.advance();
            if is_numeric(c) {
                Some(StateFunction::Integer)
            } else {
                Some(StateFunction::Initial)
            }
        },
        None => {
            tokenizer.tokenize(Category::Text);
            None
        },
    }
}

fn inside_string(tokenizer: &mut Tokenizer) -> (r: Option<StateFunction>)
    requires
        old(tokenizer).inv(),
        rust_stack_ok(old(tokenizer).stack()),
    ensures
        final(tokenizer).inv(),
        final(tokenizer).text() == old(tokenizer).text(),
        rust_stack_ok(final(tokenizer).stack()),
        (match r {
            Some(s) => rust_state(s),
            None => true,
        }),
        step_progress(*old(tokenizer), StateFunction::InsideString, *final(tokenizer), r),
        final(tokenizer).stack() == old(tokenizer).stack(),
        ({
            let t0 = *old(tokenizer);
            let tf = *final(tokenizer);
            if t0.head() < t0.text().len() {
                let c = t0.text()[t0.head()];
                if c == '"' {
                    advanced_then_flushed(t0, tf, 1, Category::String)
                        && r == Some(StateFunction::Initial)
                } else if c == '\\' {
                    only_advanced(t0, tf, 2) && r == Some(StateFunction::InsideString)
                } else {
                    only_advanced(t0, tf, 1) && r == Some(StateFunction::InsideString)
                }
            } else {
                flushed(t0, tf, Category::String) && r == None::<StateFunction>
            }
        }),
{
    match tokenizer.current_char() {
        Some(c) => {
            match c {
                '"' => {
                    tokenizer.advance();
                    tokenizer.tokenize(Category::String);
                    Some(StateFunction::Initial)
                },
                '\\' => {
                    tokenizer.advance();
                    tokenizer.advance();
                    Some(StateFunction::InsideString)
                },
                _ => {
                    tokenizer.advance();
                    Some(StateFunction::InsideString)
                },
            }
        },
        None => {
            tokenizer.tokenize(Category::String);
            None
        },
    }
}

fn inside_single_quote_string(tokenizer: &mut Tokenizer) -> (r: Option<StateFunction>)
    requires
        old(tokenizer).inv(),
        rust_stack_ok(old(tokenizer).stack()),
    ensures
        final(tokenizer).inv(),
        final(tokenizer).text() == old(tokenizer).text(),
        rust_stack_ok(final(tokenizer).stack()),
        (match r {
            Some(s) => rust_state(s),
            None => true,
        }),
        step_progress(
            *old(tokenizer),
            StateFunction::InsideSingleQuoteString,
            *final(tokenizer),
            r,
        ),
        final(tokenizer).stack() == old(tokenizer).stack(),
        ({
            let t0 = *old(tokenizer);
            let tf = *final(tokenizer);
            if t0.head() < t0.text().len() {
                let c = t0.text()[t0.head()];
                if c == '\'' {
                    advanced_then_flushed(t0, tf, 1, Category::String)
                        && r == Some(StateFunction::Initial)
                } else if c == '\\' {
                    only_advanced(t0, tf, 2)
                        && r == Some(StateFunction::InsideSingleQuoteString)
                } else if c == ':' {
                    advanced_then_flushed(t0, tf, 1, Category::Identifier)
                        && r == Some(StateFunction::Initial)
                } else {
                    only_advanced(t0, tf, 1)
                        && r == Some(StateFunction::InsideSingleQuoteString)
                }
            } else {
                flushed(t0, tf, Category::String) && r == None::<StateFunction>
            }
        }),
{
    match tokenizer.current_char() {
        Some(c) => {
            match c {
                '\'' => {
                    tokenizer.advance();
                    tokenizer.tokenize(Category::String);
                    Some(StateFunction::Initial)
                },
                '\\' => {
                    tokenizer.advance();
                    tokenizer.advance();
                    Some(StateFunction::InsideSingleQuoteString)
                },
                ':' => {
                    tokenizer.advance();
                    tokenizer.tokenize(Category::Identifier);
                    Some(StateFunction::Initial)
                },
                _ => {
                    tokenizer.advance();
                    Some(StateFunction::InsideSingleQuoteString)
                },
            }
        },
        None => {
            tokenizer.tokenize(Category::String);
            None
        },
    }
}

fn whitespace(tokenizer: &mut Tokenizer) -> (r: Option<StateFunction>)
    requires
        old(tokenizer).inv(),
        rust_stack_ok(old(tokenizer).stack()),
    ensures
        final(tokenizer).inv(),
        final(tokenizer).text() == old(tokenizer).text(),
        rust_stack_ok(final(tokenizer).stack()),
        (match r {
            Some(s) => rust_state(s),
            None => true,
        }),
        step_progress(*old(tokenizer), StateFunction::Whitespace, *final(tokenizer), r),
        ({
            let t0 = *old(tokenizer);
            let tf = *final(tokenizer);
            if t0.head() < t0.text().len() {
                if is_lex_whitespace(t0.text()[t0.head()]) {
                    only_advanced(t0, tf, 1) && tf.stack() == t0.stack()
                        && r == Some(StateFunction::Whitespace)
                } else {
                    flushed(t0, tf, Category::Whitespace)
                        && (if t0.stack().len() > 0 {
                            tf.stack() == t0.stack().drop_last()
                                && r == Some(t0.stack().last())
                        } else {
                            tf.stack() == t0.stack() && r == Some(StateFunction::Initial)
                        })
                }
            } else {
                flushed(t0, tf, Category::Whitespace) && tf.stack() == t0.stack()
                    && r == None::<StateFunction>
            }
        }),
{
    match tokenizer.current_char() {
        Some(c) => {
            match c {
                ' ' | '\n' => {
                    tokenizer.advance();
                    Some(StateFunction::Whitespace)
                },
                _ => {
                    tokenizer.tokenize(Category::Whitespace);
                    match tokenizer.pop_state() {
                        Some(state) => Some(state),
                        None => Some(StateFunction::Initial),
                    }
                },
            }
        },
        None => {
            tokenizer.tokenize(Category::Whitespace);
            None
        },
    }
}

fn argument(tokenizer: &mut Tokenizer) -> (r: Option<StateFunction>)
    requires
        old(tokenizer).inv(),
        rust_stack_ok(old(tokenizer).stack()),
    ensures
        final(tokenizer).inv(),
        final(tokenizer).text() == old(tokenizer).text(),
        rust_stack_ok(final(tokenizer).stack()),
        (match r {
            Some(s) => rust_state(s),
            None => true,
        }),
        step_progress(*old(tokenizer), StateFunction::Argument, *final(tokenizer), r),
        ({
            let t0 = *old(tokenizer);
            let tf = *final(tokenizer);
            let text = t0.text();
            let h = t0.head();
            if spec_starts_with_lexeme(text, h, "true"@) {
                flushed_then_committed(t0, tf, Category::Text, 4, Category::Boolean)
                    && tf.stack() == t0.stack() && r == Some(StateFunction::Argument)
            } else if spec_starts_with_lexeme(text, h, "false"@) {
                flushed_then_committed(t0, tf, Category::Text, 5, Category::Boolean)
                    && tf.stack() == t0.stack() && r == Some(StateFunction::Argument)
            } else if h < text.len() {
                let c = text[h];
                if is_lex_whitespace(c) {
                    flushed(t0, tf, Category::Identifier)
                        && tf.stack() == t0.stack().push(StateFunction::Argument)
                        && r == Some(StateFunction::Whitespace)
                } else if c == '|' || c == ')' {
                    flushed_then_committed(t0, tf, Category::Identifier, 1, Category::Text)
                        && tf.stack() == t0.stack() && r == Some(StateFunction::Initial)
                } else if c == '=' || c == ',' {
                    flushed_then_committed(t0, tf, Category::Identifier, 1, Category::Text)
                        && tf.stack() == t0.stack() && r == Some(StateFunction::Argument)
                } else {
                    only_advanced(t0, tf, 1) && tf.stack() == t0.stack()
                        && r == Some(StateFunction::Argument)
                }
            } else {
                flushed(t0, tf, Category::Identifier) && tf.stack() == t0.stack()
                    && r == None::<StateFunction>
            }
        }),
{
    if tokenizer.starts_with_lexeme("true") {
        proof { reveal_strlit("true"); }
        tokenizer.tokenize_next(4, Category::Boolean);
        return Some(StateFunction::Argument);
    } else if tokenizer.starts_with_lexeme("false") {
        proof { reveal_strlit("false"); }
        tokenizer.tokenize_next(5, Category::Boolean);
        return Some(StateFunction::Argument);
    }

    match tokenizer.current_char() {
        Some(c) => {
            match c {
                ' ' | '\n' => {
                    tokenizer.tokenize(Category::Identifier);
                    tokenizer.push_state(StateFunction::Argument);
                    Some(StateFunction::Whitespace)
                },
                '|' | ')' => {
                    tokenizer.tokenize(Category::Identifier);
                    tokenizer.tokenize_next(1, Category::Text);
                    Some(StateFunction::Initial)
                },
                '=' | ',' => {
                    tokenizer.tokenize(Category::Identifier);
                    tokenizer.tokenize_next(1, Category::Text);
                    Some(StateFunction::Argument)
                },
                _ => {
                    tokenizer.advance();
                    Some(StateFunction::Argument)
                },
            }
        },
        None => {
            tokenizer.tokenize(Category::Identifier);
            None
        },
    }
}

fn identifier(tokenizer: &mut Tokenizer) -> (r: Option<StateFunction>)
    requires
        old(tokenizer).inv(),
        rust_stack_ok(old(tokenizer).stack()),
    ensures
        final(tokenizer).inv(),
        final(tokenizer).text() == old(tokenizer).text(),
        rust_stack_ok(final(tokenizer).stack()),
        (match r {
            Some(s) => rust_state(s),
            None => true,
        }),
        step_progress(*old(tokenizer), StateFunction::Identifier, *final(tokenizer), r),
        final(tokenizer).stack() == old(tokenizer).stack(),
        ({
            let t0 = *old(tokenizer);
            let tf = *final(tokenizer);
            if t0.head() < t0.text().len() {
                let c = t0.text()[t0.head()];
                if is_lex_whitespace(c) {
                    flushed(t0, tf, Category::Identifier) && r == Some(StateFunction::Initial)
                } else if c == '|' || c == '(' || c == ')' || c == '-' || c == ';' {
                    flushed_then_committed(t0, tf, Category::Identifier, 1, Category::Text)
                        && r == Some(StateFunction::Initial)
                } else {
                    only_advanced(t0, tf, 1) && r == Some(StateFunction::Identifier)
                }
            } else {
                flushed(t0, tf, Category::Identifier) && r == None::<StateFunction>
            }
        }),
{
    match tokenizer.current_char() {
        Some(c) => {
            match c {
                ' ' | '\n' => {
                    tokenizer.tokenize(Category::Identifier);
                    Some(StateFunction::Initial)
                },
                '|' | '(' | ')' | '-' | ';' => {
                    tokenizer.tokenize(Category::Identifier);
                    tokenizer.tokenize_next(1, Category::Text);
                    Some(StateFunction::Initial)
                },
                _ => {
                    tokenizer.advance();
                    Some(StateFunction::Identifier)
                },
            }
        },
        None => {
            tokenizer.tokenize(Category::Identifier);
            None
        },
    }
}

fn function(tokenizer: &mut Tokenizer) -> (r: Option<StateFunction>)
    requires
        old(tokenizer).inv(),
        rust_stack_ok(old(tokenizer).stack()),
    ensures
        final(tokenizer).inv(),
        final(tokenizer).text() == old(tokenizer).text(),
        rust_stack_ok(final(tokenizer).stack()),
        (match r {
            Some(s) => rust_state(s),
            None => true,
        }),
        step_progress(*old(tokenizer), StateFunction::Function, *final(tokenizer), r),
        final(tokenizer).stack() == old(tokenizer).stack(),
        ({
            let t0 = *old(tokenizer);
            let tf = *final(tokenizer);
            if t0.head() < t0.text().len() {
                let c = t0.text()[t0.head()];
                if is_lex_whitespace(c) {
                    flushed(t0, tf, Category::Function) && r == Some(StateFunction::Initial)
                } else if c == '(' {
                    flushed_then_committed(t0, tf, Category::Function, 1, Category::Text)
                        && r == Some(StateFunction::Argument)
                } else {
                    only_advanced(t0, tf, 1) && r == Some(StateFunction::Function)
                }
            } else {
                flushed(t0, tf, Category::Whitespace) && r == None::<StateFunction>
            }
        }),
{
    match tokenizer.current_char() {
        Some(c) => {
            match c {
                ' ' | '\n' => {
                    tokenizer.tokenize(Category::Function);
                    Some(StateFunction::Initial)
                },
                '(' => {
                    tokenizer.tokenize(Category::Function);
                    tokenizer.tokenize_next(1, Category::Text);
                    Some(StateFunction::Argument)
                },
                _ => {
                    tokenizer.advance();
                    Some(StateFunction::Function)
                },
            }
        },
        None => {
            tokenizer.tokenize(Category::Whitespace);
            None
        },
    }
}

fn comment(tokenizer: &mut Tokenizer) -> (r: Option<StateFunction>)
    requires
        old(tokenizer).inv(),
        rust_stack_ok(old(tokenizer).stack()),
    ensures
        final(tokenizer).inv(),
        final(tokenizer).text() == old(tokenizer).text(),
        rust_stack_ok(final(tokenizer).stack()),
        (match r {
            Some(s) => rust_state(s),
            None => true,
        }),
        step_progress(*old(tokenizer), StateFunction::Comment, *final(tokenizer), r),
        final(tokenizer).stack() == old(tokenizer).stack(),
        ({
            let t0 = *old(tokenizer);
            let tf = *final(tokenizer);
            if t0.head() < t0.text().len() {
                if t0.text()[t0.head()] == '\n' {
                    flushed(t0, tf, Category::Comment) && r == Some(StateFunction::Initial)
                } else {
                    only_advanced(t0, tf, 1) && r == Some(StateFunction::Comment)
                }
            } else {
                flushed(t0, tf, Category::Whitespace) && r == None::<StateFunction>
            }
        }),
{
    match tokenizer.current_char() {
        Some(c) => {
            match c {
                '\n' => {
                    tokenizer.tokenize(Category::Comment);
                    Some(StateFunction::Initial)
                },
                _ => {
                    tokenizer.advance();
                    Some(StateFunction::Comment)
                },
            }
        },
        None => {
            tokenizer.tokenize(Category::Whitespace);
            None
        },
    }
}

fn integer(tokenizer: &mut Tokenizer) -> (r: Option<StateFunction>)
    requires
        old(tokenizer).inv(),
        rust_stack_ok(old(tokenizer).stack()),
    ensures
        final(tokenizer).inv(),
        final(tokenizer).text() == old(tokenizer).text(),
        rust_stack_ok(final(tokenizer).stack()),
        (match r {
            Some(s) => rust_state(s),
            None => true,
        }),
        step_progress(*old(tokenizer), StateFunction::Integer, *final(tokenizer), r),
        final(tokenizer).stack() == old(tokenizer).stack(),
        ({
            let t0 = *old(tokenizer);
            let tf = *final(tokenizer);
            if t0.head() < t0.text().len() {
                if char_is_numeric(t0.text()[t0.head()]) {
                    only_advanced(t0, tf, 1) && r == Some(StateFunction::Integer)
                } else {
                    flushed(t0, tf, Category::Integer) && r == Some(StateFunction::Initial)
                }
            } else {
                flushed(t0, tf, Category::Integer) && r == None::<StateFunction>
            }
        }),
{
    match tokenizer.current_char() {
        Some(c) => {
            if is_numeric(c) {
                tokenizer.advance();
                Some(StateFunction::Integer)
            } else {
                tokenizer.tokenize(Category::Integer);
                Some(StateFunction::Initial)
            }
        },
        None => {
            tokenizer.tokenize(Category::Integer);
            None
        },
    }
}

/// Lexes a Rust document: the emitted tokens join to reproduce `data`
/// exactly, and none of them is empty. Input the format does not recognize
/// degrades to text and whitespace tokens rather than failing.
pub fn lex(data: &str) -> (r: Vec<Token>)
    ensures
        concat_lexemes(r@) == data@,
        all_lexemes_nonempty(r@),
{
    let mut tokenizer = new(data);
    let mut state = StateFunction::Initial;
    loop
        invariant
            tokenizer.inv(),
            tokenizer.text() == data@,
            rust_stack_ok(tokenizer.stack()),
            rust_state(state),
        decreases
            tokenizer.text().len() - tokenizer.head(),
            lex_measure(tokenizer, state),
    {
        let next = match state {
            StateFunction::InsideString => inside_string(&mut tokenizer),
            StateFunction::InsideSingleQuoteString => inside_single_quote_string(&mut tokenizer),
            StateFunction::Whitespace => whitespace(&mut tokenizer),
            StateFunction::Argument => argument(&mut tokenizer),
            StateFunction::Identifier => identifier(&mut tokenizer),
            StateFunction::Function => function(&mut tokenizer),
            StateFunction::Comment => comment(&mut tokenizer),
            StateFunction::Integer => integer(&mut tokenizer),
            _ => initial_state(&mut tokenizer),
        };
        match next {
            Some(s) => { state = s; },
            None => {
                match tokenizer.pop_state() {
                    Some(s) => { state = s; },
                    None => { return tokenizer.tokens(); },
                }
            },
        }
    }
}

} // verus!
