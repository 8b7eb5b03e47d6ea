//! A simple lexer for HTML data with embedded Ruby. Breaks data into three
//! segments: HTML, embedding tags, and Ruby. Defers to other lexers for the
//! HTML and Ruby segments.

use vstd::prelude::*;

use crate::lexers::{lex_measure, step_progress};
use crate::token::{all_lexemes_nonempty, committed_span, concat_lexemes};
use crate::token::{lemma_concat_lexemes_append, Category, Token};
use crate::tokenizer::{flushed, flushed_then_committed, only_advanced, spec_has_prefix};
use crate::tokenizer::{new, StateFunction, Tokenizer};

verus! {

/// The lexical contexts this lexer is built from.
spec fn html_erb_state(s: StateFunction) -> bool {
    s == StateFunction::Initial || s == StateFunction::EmbeddedCode
}

/// The carving pass marks every span with one of three categories: embedding
/// tags as keywords, embedded code as strings, and plain markup as text.
spec fn carved_cats(toks: Seq<Token>) -> bool {
    forall|i: int|
        #![trigger toks[i]]
        0 <= i < toks.len() ==> (toks[i].category == Category::Keyword
            || toks[i].category == Category::String || toks[i].category == Category::Text)
}

/// Committing one more span under a carving category keeps the token
/// collection carved.
proof fn lemma_carved_span(
    pre: Seq<Token>,
    post: Seq<Token>,
    text: Seq<char>,
    from: int,
    to: int,
    cat: Category,
)
    requires
        carved_cats(pre),
        committed_span(pre, post, text, from, to, cat),
        cat == Category::Keyword || cat == Category::String || cat == Category::Text,
    ensures
        carved_cats(post),
{
    if from < to {
        assert forall|i: int|
            0 <= i < post.len() implies (#[trigger] post[i]).category == Category::Keyword
            || post[i].category == Category::String
            || post[i].category == Category::Text by {
            if i < post.len() - 1 {
                assert(post.drop_last()[i] == post[i]);
                assert(pre[i] == post[i]);
            }
        }
    }
}

fn initial_state(tokenizer: &mut Tokenizer) -> (r: Option<StateFunction>)
    requires
        old(tokenizer).inv(),
        carved_cats(old(tokenizer).committed()),
    ensures
        final(tokenizer).inv(),
        final(tokenizer).text() == old(tokenizer).text(),
        final(tokenizer).stack() == old(tokenizer).stack(),
        carved_cats(final(tokenizer).committed()),
        (match r {
            Some(s) => html_erb_state(s),
            None => true,
        }),
        step_progress(*old(tokenizer), StateFunction::Initial, *final(tokenizer), r),
        ({
            let t0 = *old(tokenizer);
            let tf = *final(tokenizer);
            let text = t0.text();
            let h = t0.head();
            if spec_has_prefix(text, h, "<%="@) {
                flushed_then_committed(t0, tf, Category::Text, 3, Category::Keyword)
                    && r == Some(StateFunction::EmbeddedCode)
            } else if spec_has_prefix(text, h, "<%"@) {
                flushed_then_committed(t0, tf, Category::Text, 2, Category::Keyword)
                    && r == Some(StateFunction::EmbeddedCode)
            } else if h < text.len() {
                only_advanced(t0, tf, 1) && r == Some(StateFunction::Initial)
            } else {
                flushed(t0, tf, Category::Text) && r == None::<StateFunction>
            }
        }),
{
    if tokenizer.has_prefix("<%=") {
        proof { reveal_strlit("<%="); }
        tokenizer.tokenize_next(3, Category::Keyword);
        proof {
            lemma_carved_span(
                old(tokenizer).committed(),
                tokenizer.committed().drop_last(),
                old(tokenizer).text(),
                old(tokenizer).tail(),
                old(tokenizer).head(),
                Category::Text,
            );
            lemma_carved_span(
                tokenizer.committed().drop_last(),
                tokenizer.committed(),
                old(tokenizer).text(),
                old(tokenizer).head(),
                old(tokenizer).head() + 3,
                Category::Keyword,
            );
        }
        return Some(StateFunction::EmbeddedCode);
    } else if tokenizer.has_prefix("<%") {
        proof { reveal_strlit("<%"); }
        tokenizer.tokenize_next(2, Category::Keyword);
        proof {
            lemma_carved_span(
                old(tokenizer).committed(),
                tokenizer.committed().drop_last(),
                old(tokenizer).text(),
                old(tokenizer).tail(),
                old(tokenizer).head(),
                Category::Text,
            );
            lemma_carved_span(
                tokenizer.committed().drop_last(),
                tokenizer.committed(),
                old(tokenizer).text(),
                old(tokenizer).head(),
                old(tokenizer).head() + 2,
                Category::Keyword,
            );
        }
        return Some(StateFunction::EmbeddedCode);
    }

    match tokenizer.current_char() {
        Some(_) => {
            tokenizer.advance();
            Some(StateFunction::Initial)
        },
        None => {
            tokenizer.tokenize(Category::Text);
            proof {
                lemma_carved_span(
                    old(tokenizer).committed(),
                    tokenizer.committed(),
                    old(tokenizer).text(),
                    old(tokenizer).tail(),
                    old(tokenizer).head(),
                    Category::Text,
                );
            }
            None
        },
    }
}

fn ruby(tokenizer: &mut Tokenizer) -> (r: Option<StateFunction>)
    requires
        old(tokenizer).inv(),
        carved_cats(old(tokenizer).committed()),
    ensures
        final(tokenizer).inv(),
        final(tokenizer).text() == old(tokenizer).text(),
        final(tokenizer).stack() == old(tokenizer).stack(),
        carved_cats(final(tokenizer).committed()),
        (match r {
            Some(s) => html_erb_state(s),
            None => true,
        }),
        step_progress(*old(tokenizer), StateFunction::EmbeddedCode, *final(tokenizer), r),
        ({
            let t0 = *old(tokenizer);
            let tf = *final(tokenizer);
            let text = t0.text();
            let h = t0.head();
            if spec_has_prefix(text, h, "%>"@) {
                flushed_then_committed(t0, tf, Category::String, 2, Category::Keyword)
                    && r == Some(StateFunction::Initial)
            } else if h < text.len() {
                only_advanced(t0, tf, 1) && r == Some(StateFunction::EmbeddedCode)
            } else {
                flushed(t0, tf, Category::String) && r == None::<StateFunction>
            }
        }),
{
    if tokenizer.has_prefix("%>") {
        proof { reveal_strlit("%>"); }
        tokenizer.tokenize(Category::String);
        proof {
            lemma_carved_span(
                old(tokenizer).committed(),
                tokenizer.committed(),
                old(tokenizer).text(),
                old(tokenizer).tail(),
                old(tokenizer).head(),
                Category::String,
            );
        }
        let ghost carved = tokenizer.committed();
        tokenizer.tokenize_next(2, Category::Keyword);
        proof {
            lemma_carved_span(
                carved,
                tokenizer.committed().drop_last(),
                old(tokenizer).text(),
                old(tokenizer).head(),
                old(tokenizer).head(),
                Category::Text,
            );
            lemma_carved_span(
                tokenizer.committed().drop_last(),
                tokenizer.committed(),
                old(tokenizer).text(),
                old(tokenizer).head(),
                old(tokenizer).head() + 2,
                Category::Keyword,
            );
        }
        return Some(StateFunction::Initial);
    }

    match tokenizer.current_char() {
        Some(_) => {
            tokenizer.advance();
            Some(StateFunction::EmbeddedCode)
        },
        None => {
            tokenizer.tokenize(Category::String);
            proof {
                lemma_carved_span(
                    old(tokenizer).committed(),
                    tokenizer.committed(),
                    old(tokenizer).text(),
                    old(tokenizer).tail(),
                    old(tokenizer).head(),
                    Category::String,
                );
            }
            None
        },
    }
}

/// The carving pass: lexes the data into keyword-tagged embedding tags,
/// string-tagged embedded code runs, and text-tagged markup runs.
fn carve(data: &str) -> (r: Vec<Token>)
    ensures
        concat_lexemes(r@) == data@,
        all_lexemes_nonempty(r@),
        carved_cats(r@),
{
    let mut tokenizer = new(data);
    let mut state = StateFunction::Initial;
    loop
        invariant
            tokenizer.inv(),
            tokenizer.text() == data@,
            tokenizer.stack().len() == 0,
            carved_cats(tokenizer.committed()),
            html_erb_state(state),
        decreases
            tokenizer.text().len() - tokenizer.head(),
            lex_measure(tokenizer, state),
    {
        let next = match state {
            StateFunction::EmbeddedCode => ruby(&mut tokenizer),
            _ => initial_state(&mut tokenizer),
        };
        match next {
            Some(s) => { state = s; },
            None => {
                match tokenizer.pop_state() {
                    Some(s) => { state = s; },
                    None => { return tokenizer.tokens(); },
                }
            },
        }
    }
}

/// Lexes an HTML document with embedded Ruby: the data is carved into typed
/// runs, embedding tags pass through unchanged, and every other run is
/// re-lexed as a fresh input by the lexer for its sub-language, whose output
/// is spliced in place. The spliced tokens still join to reproduce `data`
/// exactly, and none of them is empty.
pub fn lex(data: &str) -> (r: Vec<Token>)
    ensures
        concat_lexemes(r@) == data@,
        all_lexemes_nonempty(r@),
{
    let phase_one = carve(data);
    let mut result: Vec<Token> = Vec::new();
    let mut i: usize = 0;
    while i < phase_one.len()
        invariant
            i <= phase_one@.len(),
            concat_lexemes(phase_one@) == data@,
            all_lexemes_nonempty(phase_one@),
            carved_cats(phase_one@),
            concat_lexemes(result@) == concat_lexemes(phase_one@.subrange(0, i as int)),
            all_lexemes_nonempty(result@),
        decreases phase_one@.len() - i,
    {
        let ghost previous = result@;
        let token = &phase_one[i];
        match token.category {
            Category::Keyword => {
                let copy = Token {
                    lexeme: token.lexeme.as_str().to_owned(),
                    category: token.category,
                };
                result.push(copy);
                proof {
                    assert(result@.drop_last() =~= previous);
                }
            },
            Category::String => {
                let mut sub = crate::lexers::ruby::lex(token.lexeme.as_str());
                proof {
                    lemma_concat_lexemes_append(previous, sub@);
                }
                result.append(&mut sub);
            },
            Category::Text => {
                let mut sub = crate::lexers::xml::lex(token.lexeme.as_str());
                proof {
                    lemma_concat_lexemes_append(previous, sub@);
                }
                result.append(&mut sub);
            },
            _ => {
                // The carving pass only ever emits the three categories above.
                proof {
                    assert(false);
                }
            },
        }
        i = i + 1;
        proof {
            assert(phase_one@.subrange(0, i as int).drop_last()
                =~= phase_one@.subrange(0, i as int - 1));
            assert(concat_lexemes(result@)
                == concat_lexemes(phase_one@.subrange(0, i as int)));
        }
    }
    proof {
        assert(phase_one@.subrange(0, phase_one@.len() as int) =~= phase_one@);
    }
    result
}

} // verus!
