//! Pre-built lexers for various languages/formats, together with the
//! shared specification vocabulary their driving loops use to show that
//! every lexing pass terminates.

pub mod default;
pub mod html_erb;
pub mod javascript;
pub mod json;
pub mod ruby;
pub mod rust;
pub mod xml;

use vstd::prelude::*;

use crate::token::{appended, committed_span, Category};
use crate::tokenizer::{flushed_then_committed, is_lex_whitespace, whitespace_run_end};
use crate::tokenizer::{StateFunction, Tokenizer};

verus! {

/// Whether `c` counts as numeric under Unicode. The result depends on the
/// character alone; the Unicode tables behind it are left unspecified.
pub uninterp spec fn char_is_numeric(c: char) -> bool;

/// Whether `c` counts as alphanumeric under Unicode. The result depends on
/// the character alone; the Unicode tables behind it are left unspecified.
pub uninterp spec fn char_is_alphanumeric(c: char) -> bool;

/// Relies on char::is_numeric: whether the character is numeric under
/// Unicode, a function of the character alone.
#[verifier::external_body]
pub(crate) fn is_numeric(c: char) -> (r: bool)
    ensures
        r == char_is_numeric(c),
{
    c.is_numeric()
}

/// Relies on char::is_alphanumeric: whether the character is alphanumeric
/// under Unicode, a function of the character alone.
#[verifier::external_body]
pub(crate) fn is_alphanumeric(c: char) -> (r: bool)
    ensures
        r == char_is_alphanumeric(c),
{
    c.is_alphanumeric()
}

/// The effect of spotting an assignment across whitespace: the pending span
/// was committed as an `Identifier`, the whitespace run at the cursor as one
/// `Whitespace` token, and the single character after the run — the
/// assignment character — as `Text`. Claimed only where the cursor stands on
/// whitespace and a non-whitespace character follows the run.
pub open spec fn assignment_committed(t0: Tokenizer, tf: Tokenizer) -> bool {
    let text = t0.text();
    let h = t0.head();
    let e = whitespace_run_end(text, h);
    let stop = if e + 1 <= text.len() {
        e + 1
    } else {
        text.len() as int
    };
    let c3 = tf.committed();
    let c2 = if stop > e {
        c3.drop_last()
    } else {
        c3
    };
    let c1 = c2.drop_last();
    &&& tf.head() == stop
    &&& tf.tail() == stop
    &&& committed_span(t0.committed(), c1, text, t0.tail(), h, Category::Identifier)
    &&& appended(c1, c2, text.subrange(h, e), Category::Whitespace)
    &&& committed_span(c2, c3, text, e, stop, Category::Text)
}

/// The pending span was committed under `pending`, the next `amount`
/// characters as one token under `category`, and then the whitespace run
/// starting there, if any, as one `Whitespace` token.
pub open spec fn flushed_committed_then_whitespace(
    t0: Tokenizer,
    tf: Tokenizer,
    pending: Category,
    amount: int,
    category: Category,
) -> bool {
    let text = t0.text();
    let h = t0.head();
    let s = if h + amount <= text.len() {
        h + amount
    } else {
        text.len() as int
    };
    let e = whitespace_run_end(text, s);
    if s < text.len() && is_lex_whitespace(text[s]) {
        let c3 = tf.committed();
        let c2 = c3.drop_last();
        let c1 = if s > h {
            c2.drop_last()
        } else {
            c2
        };
        &&& tf.head() == e
        &&& tf.tail() == e
        &&& committed_span(t0.committed(), c1, text, t0.tail(), h, pending)
        &&& committed_span(c1, c2, text, h, s, category)
        &&& appended(c2, c3, text.subrange(s, e), Category::Whitespace)
    } else {
        flushed_then_committed(t0, tf, pending, amount, category)
    }
}

/// A termination rank for a lexical context, judged against the character at
/// the scan position. Every step of a lexer either moves the scan position
/// forward, or lowers the combined weight of the state stack and this rank;
/// the ranks are chosen so that each context's non-advancing transitions
/// (committing a pending span and handing control to another context, or
/// popping a suspended one) strictly lower that weight.
pub open spec fn state_rank(t: Tokenizer, s: StateFunction) -> int {
    if t.head() >= t.text().len() {
        0
    } else {
        let c = t.text()[t.head()];
        match s {
            StateFunction::Initial => 1,
            StateFunction::Whitespace => if is_lex_whitespace(c) {
                0
            } else {
                2
            },
            StateFunction::Identifier => if c == '@' {
                0
            } else {
                2
            },
            StateFunction::Comment => if c == '/' {
                0
            } else {
                2
            },
            StateFunction::Integer => 2,
            StateFunction::Symbol => 2,
            StateFunction::Method => 2,
            StateFunction::Function => 2,
            StateFunction::Argument => 4,
            StateFunction::StartOfTag => 4,
            StateFunction::InsideString => 1,
            StateFunction::InsideSingleQuoteString => 1,
            StateFunction::MultiLineComment => 1,
            StateFunction::InsideTag => 1,
            StateFunction::EmbeddedCode => 1,
        }
    }
}

/// The weight a driving loop's decreases clause uses alongside the number of
/// unscanned characters: suspended contexts each cost three, the current
/// context its rank.
pub open spec fn lex_measure(t: Tokenizer, s: StateFunction) -> int {
    3 * t.stack().len() + state_rank(t, s)
}

/// One invocation of the context `s` made progress: either the scan position
/// moved forward, or it stayed put and the termination weight shrank. A
/// context reports the pass exhausted only at the end of the input, leaving
/// the scan position and the stack alone.
pub open spec fn step_progress(
    pre: Tokenizer,
    s: StateFunction,
    post: Tokenizer,
    r: Option<StateFunction>,
) -> bool {
    match r {
        Some(next) => post.head() > pre.head()
            || (post.head() == pre.head() && lex_measure(post, next) < lex_measure(pre, s)),
        None => {
            &&& post.head() == pre.head()
            &&& pre.head() == pre.text().len()
            &&& post.stack() == pre.stack()
        },
    }
}

} // verus!
