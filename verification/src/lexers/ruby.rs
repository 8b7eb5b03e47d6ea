//! A lexer for the Ruby programming language.

use vstd::prelude::*;

use crate::lexers::{assignment_committed, flushed_committed_then_whitespace};
use crate::lexers::{char_is_alphanumeric, char_is_numeric, is_alphanumeric, is_numeric};
use crate::lexers::{lex_measure, step_progress};
use crate::token::{all_lexemes_nonempty, concat_lexemes, Category, Token};
use crate::tokenizer::{advanced_then_flushed, flushed, flushed_then_advanced};
use crate::tokenizer::{flushed_then_committed, is_lex_whitespace, only_advanced};
use crate::tokenizer::{spec_has_prefix, spec_starts_with_lexeme, whitespace_consumed};
use crate::tokenizer::{new, StateFunction, Tokenizer, whitespace_run_end};

verus! {

/// The lexical contexts this lexer is built from.
spec fn ruby_state(s: StateFunction) -> bool {
    ||| s == StateFunction::Initial
    ||| s == StateFunction::InsideString
    ||| s == StateFunction::InsideSingleQuoteString
    ||| s == StateFunction::Whitespace
    ||| s == StateFunction::Argument
    ||| s == StateFunction::Identifier
    ||| s == StateFunction::Method
    ||| s == StateFunction::Comment
    ||| s == StateFunction::Integer
    ||| s == StateFunction::Symbol
}

/// Every suspended context on the stack belongs to this lexer.
spec fn ruby_stack_ok(stack: Seq<StateFunction>) -> bool {
    forall|i: int| 0 <= i < stack.len() ==> ruby_state(#[trigger] stack[i])
}

fn initial_state(tokenizer: &mut Tokenizer) -> (r: Option<StateFunction>)
    requires
        old(tokenizer).inv(),
        ruby_stack_ok(old(tokenizer).stack()),
    ensures
        final(tokenizer).inv(),
        final(tokenizer).text() == old(tokenizer).text(),
        ruby_stack_ok(final(tokenizer).stack()),
        (match r {
            Some(s) => ruby_state(s),
            None => true,
        }),
        step_progress(*old(tokenizer), StateFunction::Initial, *final(tokenizer), r),
        ({
            let t0 = *old(tokenizer);
            let tf = *final(tokenizer);
            let text = t0.text();
            let h = t0.head();
            if spec_starts_with_lexeme(text, h, "class"@) {
                flushed_then_committed(t0, tf, Category::Text, 5, Category::Keyword)
                    && tf.stack() == t0.stack().push(StateFunction::Identifier)
                    && r == Some(StateFunction::Whitespace)
            } else if spec_starts_with_lexeme(text, h, "module"@) {
                flushed_then_committed(t0, tf, Category::Text, 6, Category::Keyword)
                    && tf.stack() == t0.stack().push(StateFunction::Identifier)
                    && r == Some(StateFunction::Whitespace)
            } else if spec_starts_with_lexeme(text, h, "include"@) {
                flushed_then_committed(t0, tf, Category::Text, 7, Category::Keyword)
                    && tf.stack() == t0.stack().push(StateFunction::Identifier)
                    && r == Some(StateFunction::Whitespace)
            } else if spec_starts_with_lexeme(text, h, "extend"@) {
                flushed_then_committed(t0, tf, Category::Text, 6, Category::Keyword)
                    && tf.stack() == t0.stack().push(StateFunction::Identifier)
                    && r == Some(StateFunction::Whitespace)
            } else if spec_starts_with_lexeme(text, h, "def"@) {
                flushed_then_committed(t0, tf, Category::Text, 3, Category::Keyword)
                    && tf.stack() == t0.stack().push(StateFunction::Method)
                    && r == Some(StateFunction::Whitespace)
            } else if spec_starts_with_lexeme(text, h, "do"@) {
                flushed_then_committed(t0, tf, Category::Text, 2, Category::Keyword)
                    && tf.stack() == t0.stack() && r == Some(StateFunction::Whitespace)
            } else if spec_starts_with_lexeme(text, h, "if"@) {
                flushed_then_committed(t0, tf, Category::Text, 2, Category::Keyword)
                    && tf.stack() == t0.stack() && r == Some(StateFunction::Whitespace)
            } else if spec_starts_with_lexeme(text, h, "unless"@) {
                flushed_then_committed(t0, tf, Category::Text, 6, Category::Keyword)
                    && tf.stack() == t0.stack() && r == Some(StateFunction::Whitespace)
            } else if spec_starts_with_lexeme(text, h, "elsif"@) {
                flushed_then_committed(t0, tf, Category::Text, 5, Category::Keyword)
                    && tf.stack() == t0.stack() && r == Some(StateFunction::Whitespace)
            } else if spec_starts_with_lexeme(text, h, "else"@) {
                flushed_then_committed(t0, tf, Category::Text, 4, Category::Keyword)
                    && tf.stack() == t0.stack() && r == Some(StateFunction::Whitespace)
            } else if spec_starts_with_lexeme(text, h, "end"@) {
                flushed_then_committed(t0, tf, Category::Text, 3, Category::Keyword)
                    && tf.stack() == t0.stack() && r == Some(StateFunction::Initial)
            } else if spec_starts_with_lexeme(text, h, "true"@) {
                flushed_then_committed(t0, tf, Category::Text, 4, Category::Boolean)
                    && tf.stack() == t0.stack() && r == Some(StateFunction::Initial)
            } else if spec_starts_with_lexeme(text, h, "false"@) {
                flushed_then_committed(t0, tf, Category::Text, 5, Category::Boolean)
                    && tf.stack() == t0.stack() && r == Some(StateFunction::Initial)
            } else if spec_starts_with_lexeme(text, h, "nil"@) {
                flushed_then_committed(t0, tf, Category::Text, 3, Category::Literal)
                    && tf.stack() == t0.stack() && r == Some(StateFunction::Initial)
            } else if spec_starts_with_lexeme(text, h, "private"@) {
                flushed_then_committed(t0, tf, Category::Text, 7, Category::Keyword)
                    && tf.stack() == t0.stack() && r == Some(StateFunction::Initial)
            } else if spec_starts_with_lexeme(text, h, "begin"@) {
                flushed_then_committed(t0, tf, Category::Text, 5, Category::Keyword)
                    && tf.stack() == t0.stack() && r == Some(StateFunction::Initial)
            } else if spec_starts_with_lexeme(text, h, "rescue"@) {
                flushed_then_committed(t0, tf, Category::Text, 6, Category::Keyword)
                    && tf.stack() == t0.stack() && r == Some(StateFunction::Initial)
            } else if spec_starts_with_lexeme(text, h, "raise"@) {
                flushed_then_committed(t0, tf, Category::Text, 5, Category::Keyword)
                    && tf.stack() == t0.stack() && r == Some(StateFunction::Initial)
            } else if h < text.len() {
                let c = text[h];
                if c == '"' {
                    flushed_then_advanced(t0, tf, Category::Text, 1)
                        && tf.stack() == t0.stack() && r == Some(StateFunction::InsideString)
                } else if c == '\'' {
                    flushed_then_advanced(t0, tf, Category::Text, 1)
                        && tf.stack() == t0.stack()
                        && r == Some(StateFunction::InsideSingleQuoteString)
                } else if c == '#' {
                    flushed_then_advanced(t0, tf, Category::Text, 1)
                        && tf.stack() == t0.stack().push(StateFunction::Initial)
                        && r == Some(StateFunction::Comment)
                } else if c == '|' {
                    flushed_then_committed(t0, tf, Category::Text, 1, Category::Text)
                        && tf.stack() == t0.stack().push(StateFunction::Argument)
                        && r == Some(StateFunction::Whitespace)
                } else if c == '.' {
                    flushed_then_committed(t0, tf, Category::Text, 1, Category::Text)
                        && tf.stack() == t0.stack() && r == Some(StateFunction::Initial)
                } else if c == '(' {
                    flushed_then_committed(t0, tf, Category::Call, 1, Category::Text)
                        && tf.stack() == t0.stack() && r == Some(StateFunction::Argument)
                } else if c == '+' {
                    flushed_then_committed(t0, tf, Category::Text, 1, Category::Operator)
                        && tf.stack() == t0.stack() && r == Some(StateFunction::Initial)
                } else if is_lex_whitespace(c) {
                    let e = whitespace_run_end(text, h);
                    (if e < text.len() && text[e] == '=' {
                        assignment_committed(t0, tf)
                    } else {
                        whitespace_consumed(t0, tf)
                    }) && tf.stack() == t0.stack() && r == Some(StateFunction::Initial)
                } else if c == '=' {
                    flushed_then_committed(t0, tf, Category::Identifier, 1, Category::Text)
                        && tf.stack() == t0.stack() && r == Some(StateFunction::Initial)
                } else if c == '@' {
                    flushed(t0, tf, Category::Text) && tf.stack() == t0.stack()
                        && r == Some(StateFunction::Identifier)
                } else if c == '[' {
                    flushed_then_committed(t0, tf, Category::Identifier, 1, Category::Text)
                        && tf.stack() == t0.stack() && r == Some(StateFunction::Initial)
                } else if c == ']' {
                    flushed_then_committed(t0, tf, Category::Text, 1, Category::Text)
                        && tf.stack() == t0.stack() && r == Some(StateFunction::Initial)
                } else if c == ':' {
                    if spec_has_prefix(text, h, ": "@) {
                        flushed_committed_then_whitespace(
                            t0,
                            tf,
                            Category::Literal,
                            1,
                            Category::Text,
                        ) && tf.stack() == t0.stack() && r == Some(StateFunction::Initial)
                    } else {
                        only_advanced(t0, tf, 1) && tf.stack() == t0.stack()
                            && r == Some(StateFunction::Symbol)
                    }
                } else {
                    only_advanced(t0, tf, 1) && tf.stack() == t0.stack()
                        && r == (if char_is_numeric(c) {
                            Some(StateFunction::Integer)
                        } else {
                            Some(StateFunction::Initial)
                        })
                }
            } else {
                flushed(t0, tf, Category::Text) && tf.stack() == t0.stack()
                    && r == None::<StateFunction>
            }
        }),
{
    if tokenizer.starts_with_lexeme("class") {
        proof { reveal_strlit("class"); }
        tokenizer.tokenize_next(5, Category::Keyword);
        tokenizer.push_state(StateFunction::Identifier);
        return Some(StateFunction::Whitespace);
    } else if tokenizer.starts_with_lexeme("module") {
        proof { reveal_strlit("module"); }
        tokenizer.tokenize_next(6, Category::Keyword);
        tokenizer.push_state(StateFunction::Identifier);
        return Some(StateFunction::Whitespace);
    } else if tokenizer.starts_with_lexeme("include") {
        proof { reveal_strlit("include"); }
        tokenizer.tokenize_next(7, Category::Keyword);
        tokenizer.push_state(StateFunction::Identifier);
        return Some(StateFunction::Whitespace);
    } else if tokenizer.starts_with_lexeme("extend") {
        proof { reveal_strlit("extend"); }
        tokenizer.tokenize_next(6, Category::Keyword);
        tokenizer.push_state(StateFunction::Identifier);
        return Some(StateFunction::Whitespace);
    } else if tokenizer.starts_with_lexeme("def") {
        proof { reveal_strlit("def"); }
        tokenizer.tokenize_next(3, Category::Keyword);
        tokenizer.push_state(StateFunction::Method);
        return Some(StateFunction::Whitespace);
    } else if tokenizer.starts_with_lexeme("do") {
        proof { reveal_strlit("do"); }
        tokenizer.tokenize_next(2, Category::Keyword);
        return Some(StateFunction::Whitespace);
    } else if tokenizer.starts_with_lexeme("if") {
        proof { reveal_strlit("if"); }
        tokenizer.tokenize_next(2, Category::Keyword);
        return Some(StateFunction::Whitespace);
    } else if tokenizer.starts_with_lexeme("unless") {
        proof { reveal_strlit("unless"); }
        tokenizer.tokenize_next(6, Category::Keyword);
        return Some(StateFunction::Whitespace);
    } else if tokenizer.starts_with_lexeme("elsif") {
        proof { reveal_strlit("elsif"); }
        tokenizer.tokenize_next(5, Category::Keyword);
        return Some(StateFunction::Whitespace);
    } else if tokenizer.starts_with_lexeme("else") {
        proof { reveal_strlit("else"); }
        tokenizer.tokenize_next(4, Category::Keyword);
        return Some(StateFunction::Whitespace);
    } else if tokenizer.starts_with_lexeme("end") {
        proof { reveal_strlit("end"); }
        tokenizer.tokenize_next(3, Category::Keyword);
        return Some(StateFunction::Initial);
    } else if tokenizer.starts_with_lexeme("true") {
        proof { reveal_strlit("true"); }
        tokenizer.tokenize_next(4, Category::Boolean);
        return Some(StateFunction::Initial);
    } else if tokenizer.starts_with_lexeme("false") {
        proof { reveal_strlit("false"); }
        tokenizer.tokenize_next(5, Category::Boolean);
        return Some(StateFunction::Initial);
    } else if tokenizer.starts_with_lexeme("nil") {
        proof { reveal_strlit("nil"); }
        tokenizer.tokenize_next(3, Category::Literal);
        return Some(StateFunction::Initial);
    } else if tokenizer.starts_with_lexeme("private") {
        proof { reveal_strlit("private"); }
        tokenizer.tokenize_next(7, Category::Keyword);
        return Some(StateFunction::Initial);
    } else if tokenizer.starts_with_lexeme("begin") {
        proof { reveal_strlit("begin"); }
        tokenizer.tokenize_next(5, Category::Keyword);
        return Some(StateFunction::Initial);
    } else if tokenizer.starts_with_lexeme("rescue") {
        proof { reveal_strlit("rescue"); }
        tokenizer.tokenize_next(6, Category::Keyword);
        return Some(StateFunction::Initial);
    } else if tokenizer.starts_with_lexeme("raise") {
        proof { reveal_strlit("raise"); }
        tokenizer.tokenize_next(5, Category::Keyword);
        return Some(StateFunction::Initial);
    }

    match tokenizer.current_char() {
        Some('"') => {
            tokenizer.tokenize(Category::Text);
            tokenizer.advance();
            Some(StateFunction::InsideString)
        },
        Some('\'') => {
            tokenizer.tokenize(Category::Text);
            tokenizer.advance();
            Some(StateFunction::InsideSingleQuoteString)
        },
        Some('#') => {
            tokenizer.tokenize(Category::Text);
            tokenizer.advance();
            tokenizer.push_state(StateFunction::Initial);
            Some(StateFunction::Comment)
        },
        Some('|') => {
            tokenizer.tokenize_next(1, Category::Text);
            tokenizer.push_state(StateFunction::Argument);
            Some(StateFunction::Whitespace)
        },
        Some('.') => {
            tokenizer.tokenize_next(1, Category::Text);
            Some(StateFunction::Initial)
        },
        Some('(') => {
            tokenizer.tokenize(Category::Call);
            tokenizer.tokenize_next(1, Category::Text);
            Some(StateFunction::Argument)
        },
        Some('+') => {
            tokenizer.tokenize_next(1, Category::Operator);
            Some(StateFunction::Initial)
        },
        Some(' ') | Some('\n') => {
            match tokenizer.next_non_whitespace_char() {
                Some('=') => {
                    tokenizer.tokenize(Category::Identifier);
                    tokenizer.consume_whitespace();
                    tokenizer.tokenize_next(1, Category::Text);
                },
                _ => tokenizer.consume_whitespace(),
            }
            Some(StateFunction::Initial)
        },
        Some('=') => {
            tokenizer.tokenize(Category::Identifier);
            tokenizer.tokenize_next(1, Category::Text);
            Some(StateFunction::Initial)
        },
        Some('@') => {
            tokenizer.tokenize(Category::Text);
            Some(StateFunction::Identifier)
        },
        Some('[') => {
            tokenizer.tokenize(Category::Identifier);
            tokenizer.tokenize_next(1, Category::Text);
            Some(StateFunction::Initial)
        },
        Some(']') => {
            tokenizer.tokenize_next(1, Category::Text);
            Some(StateFunction::Initial)
        },
        Some(':') => {
            if tokenizer.has_prefix(": ") {
                proof { reveal_strlit(": "); }
                tokenizer.tokenize(Category::Literal);
                tokenizer.tokenize_next(1, Category::Text);
                tokenizer.consume_whitespace();
                Some(StateFunction::Initial)
            } else {
                tokenizer.advance();
                Some(StateFunction::Symbol)
            }
        },
        Some(c) => {
            tokenizer.advance();
            if is_numeric(c) {
                Some(StateFunction::Integer)
            } else {
                Some(StateFunction::Initial)
            }
        },
        None => {
            tokenizer.tokenize(Category::Text);
            None
        },
    }
}

fn inside_string(tokenizer: &mut Tokenizer) -> (r: Option<StateFunction>)
    requires
        old(tokenizer).inv(),
        ruby_stack_ok(old(tokenizer).stack()),
    ensures
        final(tokenizer).inv(),
        final(tokenizer).text() == old(tokenizer).text(),
        ruby_stack_ok(final(tokenizer).stack()),
        (match r {
            Some(s) => ruby_state(s),
            None => true,
        }),
        step_progress(*old(tokenizer), StateFunction::InsideString, *final(tokenizer), r),
        final(tokenizer).stack() == old(tokenizer).stack(),
        ({
            let t0 = *old(tokenizer);
            let tf = *final(tokenizer);
            if t0.head() < t0.text().len() {
                let c = t0.text()[t0.head()];
                if c == '"' {
                    advanced_then_flushed(t0, tf, 1, Category::String)
                        && r == Some(StateFunction::Initial)
                } else if c == '\\' {
                    only_advanced(t0, tf, 2) && r == Some(StateFunction::InsideString)
                } else {
                    only_advanced(t0, tf, 1) && r == Some(StateFunction::InsideString)
                }
            } else {
                flushed(t0, tf, Category::String) && r == None::<StateFunction>
            }
        }),
{
    match tokenizer.current_char() {
        Some(c) => {
            match c {
                '"' => {
                    tokenizer.advance();
                    tokenizer.tokenize(Category::String);
                    Some(StateFunction::Initial)
                },
                '\\' => {
                    tokenizer.advance();
                    tokenizer.advance();
                    Some(StateFunction::InsideString)
                },
                _ => {
                    tokenizer.advance();
                    Some(StateFunction::InsideString)
                },
            }
        },
        None => {
            tokenizer.tokenize(Category::String);
            None
        },
    }
}

fn inside_single_quote_string(tokenizer: &mut Tokenizer) -> (r: Option<StateFunction>)
    requires
        old(tokenizer).inv(),
        ruby_stack_ok(old(tokenizer).stack()),
    ensures
        final(tokenizer).inv(),
        final(tokenizer).text() == old(tokenizer).text(),
        ruby_stack_ok(final(tokenizer).stack()),
        (match r {
            Some(s) => ruby_state(s),
            None => true,
        }),
        step_progress(*old(tokenizer), StateFunction::InsideSingleQuoteString, *final(tokenizer), r),
        final(tokenizer).stack() == old(tokenizer).stack(),
        ({
            let t0 = *old(tokenizer);
            let tf = *final(tokenizer);
            if t0.head() < t0.text().len() {
                let c = t0.text()[t0.head()];
                if c == '\'' {
                    advanced_then_flushed(t0, tf, 1, Category::String)
                        && r == Some(StateFunction::Initial)
                } else if c == '\\' {
                    only_advanced(t0, tf, 2)
                        && r == Some(StateFunction::InsideSingleQuoteString)
                } else {
                    only_advanced(t0, tf, 1)
                        && r == Some(StateFunction::InsideSingleQuoteString)
                }
            } else {
                flushed(t0, tf, Category::String) && r == None::<StateFunction>
            }
        }),
{
    match tokenizer.current_char() {
        Some(c) => {
            match c {
                '\'' => {
                    tokenizer.advance();
                    tokenizer.tokenize(Category::String);
                    Some(StateFunction::Initial)
                },
                '\\' => {
                    tokenizer.advance();
                    tokenizer.advance();
                    Some(StateFunction::InsideSingleQuoteString)
                },
                _ => {
                    tokenizer.advance();
                    Some(StateFunction::InsideSingleQuoteString)
                },
            }
        },
        None => {
            tokenizer.tokenize(Category::String);
            None
        },
    }
}

fn whitespace(tokenizer: &mut Tokenizer) -> (r: Option<StateFunction>)
    requires
        old(tokenizer).inv(),
        ruby_stack_ok(old(tokenizer).stack()),
    ensures
        final(tokenizer).inv(),
        final(tokenizer).text() == old(tokenizer).text(),
        ruby_stack_ok(final(tokenizer).stack()),
        (match r {
            Some(s) => ruby_state(s),
            None => true,
        }),
        step_progress(*old(tokenizer), StateFunction::Whitespace, *final(tokenizer), r),
        ({
            let t0 = *old(tokenizer);
            let tf = *final(tokenizer);
            if t0.head() < t0.text().len() {
                if is_lex_whitespace(t0.text()[t0.head()]) {
                    only_advanced(t0, tf, 1) && tf.stack() == t0.stack()
                        && r == Some(StateFunction::Whitespace)
                } else {
                    flushed(t0, tf, Category::Whitespace)
                        && (if t0.stack().len() > 0 {
                            tf.stack() == t0.stack().drop_last()
                                && r == Some(t0.stack().last())
                        } else {
                            tf.stack() == t0.stack() && r == Some(StateFunction::Initial)
                        })
                }
            } else {
                flushed(t0, tf, Category::Whitespace) && tf.stack() == t0.stack()
                    && r == None::<StateFunction>
            }
        }),
{
    match tokenizer.current_char() {
        Some(c) => {
            match c {
                ' ' | '\n' => {
                    tokenizer.advance();
                    Some(StateFunction::Whitespace)
                },
                _ => {
                    tokenizer.tokenize(Category::Whitespace);
                    match tokenizer.pop_state() {
                        Some(state) => Some(state),
                        None => Some(StateFunction::Initial),
                    }
                },
            }
        },
        None => {
            tokenizer.tokenize(Category::Whitespace);
            None
        },
    }
}

fn argument(tokenizer: &mut Tokenizer) -> (r: Option<StateFunction>)
    requires
        old(tokenizer).inv(),
        ruby_stack_ok(old(tokenizer).stack()),
    ensures
        final(tokenizer).inv(),
        final(tokenizer).text() == old(tokenizer).text(),
        ruby_stack_ok(final(tokenizer).stack()),
        (match r {
            Some(s) => ruby_state(s),
            None => true,
        }),
        step_progress(*old(tokenizer), StateFunction::Argument, *final(tokenizer), r),
        ({
            let t0 = *old(tokenizer);
            let tf = *final(tokenizer);
            let text = t0.text();
            let h = t0.head();
            if spec_starts_with_lexeme(text, h, "true"@) {
                flushed_then_committed(t0, tf, Category::Text, 4, Category::Boolean)
                    && tf.stack() == t0.stack() && r == Some(StateFunction::Argument)
            } else if spec_starts_with_lexeme(text, h, "false"@) {
                flushed_then_committed(t0, tf, Category::Text, 5, Category::Boolean)
                    && tf.stack() == t0.stack() && r == Some(StateFunction::Argument)
            } else if h < text.len() {
                let c = text[h];
                if is_lex_whitespace(c) {
                    flushed(t0, tf, Category::Identifier)
                        && tf.stack() == t0.stack().push(StateFunction::Argument)
                        && r == Some(StateFunction::Whitespace)
                } else if c == '|' || c == ')' {
                    flushed_then_committed(t0, tf, Category::Identifier, 1, Category::Text)
                        && tf.stack() == t0.stack() && r == Some(StateFunction::Initial)
                } else if c == '=' || c == ',' {
                    flushed_then_committed(t0, tf, Category::Identifier, 1, Category::Text)
                        && tf.stack() == t0.stack() && r == Some(StateFunction::Argument)
                } else {
                    only_advanced(t0, tf, 1) && tf.stack() == t0.stack()
                        && r == Some(StateFunction::Argument)
                }
            } else {
                flushed(t0, tf, Category::Identifier) && tf.stack() == t0.stack()
                    && r == None::<StateFunction>
            }
        }),
{
    if tokenizer.starts_with_lexeme("true") {
        proof { reveal_strlit("true"); }
        tokenizer.tokenize_next(4, Category::Boolean);
        return Some(StateFunction::Argument);
    } else if tokenizer.starts_with_lexeme("false") {
        proof { reveal_strlit("false"); }
        tokenizer.tokenize_next(5, Category::Boolean);
        return Some(StateFunction::Argument);
    }

    match tokenizer.current_char() {
        Some(c) => {
            match c {
                ' ' | '\n' => {
                    tokenizer.tokenize(Category::Identifier);
                    tokenizer.push_state(StateFunction::Argument);
                    Some(StateFunction::Whitespace)
                },
                '|' | ')' => {
                    tokenizer.tokenize(Category::Identifier);
                    tokenizer.tokenize_next(1, Category::Text);
                    Some(StateFunction::Initial)
                },
                '=' | ',' => {
                    tokenizer.tokenize(Category::Identifier);
                    tokenizer.tokenize_next(1, Category::Text);
                    Some(StateFunction::Argument)
                },
                _ => {
                    tokenizer.advance();
                    Some(StateFunction::Argument)
                },
            }
        },
        None => {
            tokenizer.tokenize(Category::Identifier);
            None
        },
    }
}

fn identifier(tokenizer: &mut Tokenizer) -> (r: Option<StateFunction>)
    requires
        old(tokenizer).inv(),
        ruby_stack_ok(old(tokenizer).stack()),
    ensures
        final(tokenizer).inv(),
        final(tokenizer).text() == old(tokenizer).text(),
        ruby_stack_ok(final(tokenizer).stack()),
        (match r {
            Some(s) => ruby_state(s),
            None => true,
        }),
        step_progress(*old(tokenizer), StateFunction::Identifier, *final(tokenizer), r),
        final(tokenizer).stack() == old(tokenizer).stack(),
        ({
            let t0 = *old(tokenizer);
            let tf = *final(tokenizer);
            if t0.head() < t0.text().len() {
                let c = t0.text()[t0.head()];
                if is_lex_whitespace(c) {
                    flushed(t0, tf, Category::Identifier) && r == Some(StateFunction::Initial)
                } else if c == '|' || c == '(' || c == ')' || c == '-' || c == ';' || c == '{'
                    || c == '}' {
                    flushed_then_committed(t0, tf, Category::Identifier, 1, Category::Text)
                        && r == Some(StateFunction::Initial)
                } else {
                    only_advanced(t0, tf, 1) && r == Some(StateFunction::Identifier)
                }
            } else {
                flushed(t0, tf, Category::Identifier) && r == None::<StateFunction>
            }
        }),
{
    match tokenizer.current_char() {
        Some(c) => {
            match c {
                ' ' | '\n' => {
                    tokenizer.tokenize(Category::Identifier);
                    Some(StateFunction::Initial)
                },
                '|' | '(' | ')' | '-' | ';' | '{' | '}' => {
                    tokenizer.tokenize(Category::Identifier);
                    tokenizer.tokenize_next(1, Category::Text);
                    Some(StateFunction::Initial)
                },
                _ => {
                    tokenizer.advance();
                    Some(StateFunction::Identifier)
                },
            }
        },
        None => {
            tokenizer.tokenize(Category::Identifier);
            None
        },
    }
}

fn method(tokenizer: &mut Tokenizer) -> (r: Option<StateFunction>)
    requires
        old(tokenizer).inv(),
        ruby_stack_ok(old(tokenizer).stack()),
    ensures
        final(tokenizer).inv(),
        final(tokenizer).text() == old(tokenizer).text(),
        ruby_stack_ok(final(tokenizer).stack()),
        (match r {
            Some(s) => ruby_state(s),
            None => true,
        }),
        step_progress(*old(tokenizer), StateFunction::Method, *final(tokenizer), r),
        final(tokenizer).stack() == old(tokenizer).stack(),
        ({
            let t0 = *old(tokenizer);
            let tf = *final(tokenizer);
            if t0.head() < t0.text().len() {
                let c = t0.text()[t0.head()];
                if is_lex_whitespace(c) {
                    flushed(t0, tf, Category::Method) && r == Some(StateFunction::Initial)
                } else if c == '(' {
                    flushed_then_committed(t0, tf, Category::Method, 1, Category::Text)
                        && r == Some(StateFunction::Argument)
                } else {
                    only_advanced(t0, tf, 1) && r == Some(StateFunction::Method)
                }
            } else {
                flushed(t0, tf, Category::Whitespace) && r == None::<StateFunction>
            }
        }),
{
    match tokenizer.current_char() {
        Some(c) => {
            match c {
                ' ' | '\n' => {
                    tokenizer.tokenize(Category::Method);
                    Some(StateFunction::Initial)
                },
                '(' => {
                    tokenizer.tokenize(Category::Method);
                    tokenizer.tokenize_next(1, Category::Text);
                    Some(StateFunction::Argument)
                },
                _ => {
                    tokenizer.advance();
                    Some(StateFunction::Method)
                },
            }
        },
        None => {
            tokenizer.tokenize(Category::Whitespace);
            None
        },
    }
}

fn comment(tokenizer: &mut Tokenizer) -> (r: Option<StateFunction>)
    requires
        old(tokenizer).inv(),
        ruby_stack_ok(old(tokenizer).stack()),
    ensures
        final(tokenizer).inv(),
        final(tokenizer).text() == old(tokenizer).text(),
        ruby_stack_ok(final(tokenizer).stack()),
        (match r {
            Some(s) => ruby_state(s),
            None => true,
        }),
        step_progress(*old(tokenizer), StateFunction::Comment, *final(tokenizer), r),
        final(tokenizer).stack() == old(tokenizer).stack(),
        ({
            let t0 = *old(tokenizer);
            let tf = *final(tokenizer);
            if t0.head() < t0.text().len() {
                if t0.text()[t0.head()] == '\n' {
                    flushed(t0, tf, Category::Comment) && r == Some(StateFunction::Initial)
                } else {
                    only_advanced(t0, tf, 1) && r == Some(StateFunction::Comment)
                }
            } else {
                flushed(t0, tf, Category::Whitespace) && r == None::<StateFunction>
            }
        }),
{
    match tokenizer.current_char() {
        Some(c) => {
            match c {
                '\n' => {
                    tokenizer.tokenize(Category::Comment);
                    Some(StateFunction::Initial)
                },
                _ => {
                    tokenizer.advance();
                    Some(StateFunction::Comment)
                },
            }
        },
        None => {
            tokenizer.tokenize(Category::Whitespace);
            None
        },
    }
}

fn integer(tokenizer: &mut Tokenizer) -> (r: Option<StateFunction>)
    requires
        old(tokenizer).inv(),
        ruby_stack_ok(old(tokenizer).stack()),
    ensures
        final(tokenizer).inv(),
        final(tokenizer).text() == old(tokenizer).text(),
        ruby_stack_ok(final(tokenizer).stack()),
        (match r {
            Some(s) => ruby_state(s),
            None => true,
        }),
        step_progress(*old(tokenizer), StateFunction::Integer, *final(tokenizer), r),
        final(tokenizer).stack() == old(tokenizer).stack(),
        ({
            let t0 = *old(tokenizer);
            let tf = *final(tokenizer);
            if t0.head() < t0.text().len() {
                if char_is_numeric(t0.text()[t0.head()]) {
                    only_advanced(t0, tf, 1) && r == Some(StateFunction::Integer)
                } else {
                    flushed(t0, tf, Category::Integer) && r == Some(StateFunction::Initial)
                }
            } else {
                flushed(t0, tf, Category::Integer) && r == None::<StateFunction>
            }
        }),
{
    match tokenizer.current_char() {
        Some(c) => {
            if is_numeric(c) {
                tokenizer.advance();
                Some(StateFunction::Integer)
            } else {
                tokenizer.tokenize(Category::Integer);
                Some(StateFunction::Initial)
            }
        },
        None => {
            tokenizer.tokenize(Category::Integer);
            None
        },
    }
}

fn symbol(tokenizer: &mut Tokenizer) -> (r: Option<StateFunction>)
    requires
        old(tokenizer).inv(),
        ruby_stack_ok(old(tokenizer).stack()),
    ensures
        final(tokenizer).inv(),
        final(tokenizer).text() == old(tokenizer).text(),
        ruby_stack_ok(final(tokenizer).stack()),
        (match r {
            Some(s) => ruby_state(s),
            None => true,
        }),
        step_progress(*old(tokenizer), StateFunction::Symbol, *final(tokenizer), r),
        final(tokenizer).stack() == old(tokenizer).stack(),
        ({
            let t0 = *old(tokenizer);
            let tf = *final(tokenizer);
            if t0.head() < t0.text().len() {
                let c = t0.text()[t0.head()];
                if char_is_alphanumeric(c) || c == '_' || c == '?' {
                    only_advanced(t0, tf, 1) && r == Some(StateFunction::Symbol)
                } else {
                    flushed(t0, tf, Category::Literal) && r == Some(StateFunction::Initial)
                }
            } else {
                flushed(t0, tf, Category::Literal) && r == None::<StateFunction>
            }
        }),
{
    match tokenizer.current_char() {
        Some(c) => {
            if is_alphanumeric(c) || c == '_' || c == '?' {
                tokenizer.advance();
                Some(StateFunction::Symbol)
            } else {
                tokenizer.tokenize(Category::Literal);
                Some(StateFunction::Initial)
            }
        },
        None => {
            tokenizer.tokenize(Category::Literal);
            None
        },
    }
}

/// Lexes a Ruby document: the emitted tokens join to reproduce `data`
/// exactly, and none of them is empty. Input the format does not recognize
/// degrades to text and whitespace tokens rather than failing.
pub fn lex(data: &str) -> (r: Vec<Token>)
    ensures
        concat_lexemes(r@) == data@,
        all_lexemes_nonempty(r@),
{
    let mut tokenizer = new(data);
    let mut state = StateFunction::Initial;
    loop
        invariant
            tokenizer.inv(),
            tokenizer.text() == data@,
            ruby_stack_ok(tokenizer.stack()),
            ruby_state(state),
        decreases
            tokenizer.text().len() - tokenizer.head(),
            lex_measure(tokenizer, state),
    {
        let next = match state {
            StateFunction::InsideString => inside_string(&mut tokenizer),
            StateFunction::InsideSingleQuoteString => inside_single_quote_string(&mut tokenizer),
            StateFunction::Whitespace => whitespace(&mut tokenizer),
            StateFunction::Argument => argument(&mut tokenizer),
            StateFunction::Identifier => identifier(&mut tokenizer),
            StateFunction::Method => method(&mut tokenizer),
            StateFunction::Comment => comment(&mut tokenizer),
            StateFunction::Integer => integer(&mut tokenizer),
            StateFunction::Symbol => symbol(&mut tokenizer),
            _ => initial_state(&mut tokenizer),
        };
        match next {
            Some(s) => { state = s; },
            None => {
                match tokenizer.pop_state() {
                    Some(s) => { state = s; },
                    None => { return tokenizer.tokens(); },
                }
            },
        }
    }
}

} // verus!
