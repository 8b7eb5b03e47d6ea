//! The scanning core: a cursor-owning tokenizer over UTF-8 text, providing
//! character-level navigation, lookahead, and token-emission primitives, plus
//! the explicit state stack behind the state-machine protocol.

use vstd::prelude::*;

use crate::token::{all_lexemes_nonempty, appended, committed_span, concat_lexemes};
use crate::token::{Category, Token};

verus! {

/// A named lexical context. A lexer interprets each name as one unit of
/// scanning logic: invoked against the tokenizer, it performs queries and
/// mutations and either selects the next context or signals that the current
/// lexing pass is exhausted. Contexts are plain names rather than code so
/// that they can be pushed onto the tokenizer's suspend/resume stack; every
/// lexer gives its own meaning to the names it uses, and treats any name it
/// does not define as its initial context.
#[derive(Clone, Copy, PartialEq, Eq, Structural, Debug)]
pub enum StateFunction {
    Initial,
    Whitespace,
    InsideString,
    InsideSingleQuoteString,
    Argument,
    Identifier,
    Function,
    Method,
    Comment,
    MultiLineComment,
    Integer,
    Symbol,
    StartOfTag,
    InsideTag,
    EmbeddedCode,
}

/// The characters the scanning protocol treats as whitespace: space and
/// newline. This set is fixed by the protocol, not configurable per lexer.
pub open spec fn is_lex_whitespace(c: char) -> bool {
    c == ' ' || c == '\n'
}

/// The index of the first character at or after `i` that is not protocol
/// whitespace, or the length of `text` if only whitespace remains.
pub open spec fn whitespace_run_end(text: Seq<char>, i: int) -> int
    decreases text.len() - i,
{
    if i < 0 || i >= text.len() {
        text.len() as int
    } else if !is_lex_whitespace(text[i]) {
        i
    } else {
        whitespace_run_end(text, i + 1)
    }
}

/// A whitespace run ends no earlier than where it starts and no later than
/// the end of the input.
pub proof fn lemma_whitespace_run_end_bounds(text: Seq<char>, i: int)
    requires
        0 <= i <= text.len(),
    ensures
        i <= whitespace_run_end(text, i) <= text.len(),
    decreases text.len() - i,
{
    if i < text.len() && is_lex_whitespace(text[i]) {
        lemma_whitespace_run_end_bounds(text, i + 1);
    }
}

/// The characters of `text` starting at `i` begin with `prefix`.
pub open spec fn spec_has_prefix(text: Seq<char>, i: int, prefix: Seq<char>) -> bool {
    &&& i + prefix.len() <= text.len()
    &&& forall|j: int| 0 <= j < prefix.len() ==> text[i + j] == prefix[j]
}

/// Position `j` of `text` ends a lexeme: it is past the end of the input, or
/// holds a space, newline, or comma.
pub open spec fn spec_lexeme_boundary(text: Seq<char>, j: int) -> bool {
    j >= text.len() || text[j] == ' ' || text[j] == '\n' || text[j] == ','
}

/// The characters of `text` starting at `i` begin with the word `w`, and the
/// word ends there: the character after it is a space, newline, comma, or
/// the end of the input.
pub open spec fn spec_starts_with_lexeme(text: Seq<char>, i: int, w: Seq<char>) -> bool {
    spec_has_prefix(text, i, w) && spec_lexeme_boundary(text, i + w.len())
}

/// The Tokenizer type is used to produce and store tokens for lexers.
///
/// It owns a borrowed view of the input document, a `tail` cursor marking the
/// start of the span not yet committed to a token, a `head` cursor marking
/// the current scan position, the ordered collection of committed tokens, and
/// an explicit stack of suspended lexical contexts.
pub struct Tokenizer<'a> {
    data: &'a str,
    length: usize,
    tail: usize,
    head: usize,
    tokens: Vec<Token>,
    states: Vec<StateFunction>,
}

impl<'a> Tokenizer<'a> {
    /// The decoded characters of the input document.
    pub closed spec fn text(self) -> Seq<char> {
        self.data@
    }

    /// The character index where the pending, not-yet-committed span starts.
    pub closed spec fn tail(self) -> int {
        self.tail as int
    }

    /// The character index of the current scan position.
    pub closed spec fn head(self) -> int {
        self.head as int
    }

    /// The tokens committed so far, in emission order.
    pub closed spec fn committed(self) -> Seq<Token> {
        self.tokens@
    }

    /// The stack of suspended lexical contexts.
    pub closed spec fn stack(self) -> Seq<StateFunction> {
        self.states@
    }

    /// The cached character count agrees with the input.
    pub closed spec fn length_ok(self) -> bool {
        self.length == self.data@.len()
    }

    /// Well-formedness: the cursors sit in order inside the input, and the
    /// committed tokens are exactly the input up to `tail`, sliced into
    /// nonempty lexemes.
    pub open spec fn inv(self) -> bool {
        &&& self.length_ok()
        &&& 0 <= self.tail()
        &&& self.tail() <= self.head()
        &&& self.head() <= self.text().len()
        &&& concat_lexemes(self.committed()) == self.text().subrange(0, self.tail())
        &&& all_lexemes_nonempty(self.committed())
    }
}

// The effects a step of scanning can have, each relating the tokenizer before
// (`t0`) to the tokenizer after (`tf`). The contracts of the emission
// operations below, and of every lexer's state functions, are stated in this
// vocabulary.

/// The cursor moved forward by `n` characters, clamped at the end of the
/// input; the token start stayed put and nothing was committed.
pub open spec fn only_advanced(t0: Tokenizer, tf: Tokenizer, n: int) -> bool {
    &&& tf.head() == (if t0.head() + n <= t0.text().len() {
        t0.head() + n
    } else {
        t0.text().len() as int
    })
    &&& tf.tail() == t0.tail()
    &&& tf.committed() == t0.committed()
}

/// The pending span was committed under `category` (no token when it was
/// empty) and the token start caught up with the cursor, which did not move.
pub open spec fn flushed(t0: Tokenizer, tf: Tokenizer, category: Category) -> bool {
    &&& tf.head() == t0.head()
    &&& tf.tail() == t0.head()
    &&& committed_span(t0.committed(), tf.committed(), t0.text(), t0.tail(), t0.head(), category)
}

/// The pending span was committed under `category`, then the cursor moved
/// forward by `n` characters, clamped at the end of the input, leaving those
/// characters pending.
pub open spec fn flushed_then_advanced(
    t0: Tokenizer,
    tf: Tokenizer,
    category: Category,
    n: int,
) -> bool {
    &&& tf.head() == (if t0.head() + n <= t0.text().len() {
        t0.head() + n
    } else {
        t0.text().len() as int
    })
    &&& tf.tail() == t0.head()
    &&& committed_span(t0.committed(), tf.committed(), t0.text(), t0.tail(), t0.head(), category)
}

/// The cursor moved forward by `n` characters, clamped at the end of the
/// input, and the whole span from the old token start through those
/// characters was committed as one token under `category`.
pub open spec fn advanced_then_flushed(
    t0: Tokenizer,
    tf: Tokenizer,
    n: int,
    category: Category,
) -> bool {
    let stop = if t0.head() + n <= t0.text().len() {
        t0.head() + n
    } else {
        t0.text().len() as int
    };
    &&& tf.head() == stop
    &&& tf.tail() == stop
    &&& committed_span(t0.committed(), tf.committed(), t0.text(), t0.tail(), stop, category)
}

/// The pending span was committed under `pending`, then the next `amount`
/// characters (clamped to the input) as one token under `category`.
pub open spec fn flushed_then_committed(
    t0: Tokenizer,
    tf: Tokenizer,
    pending: Category,
    amount: int,
    category: Category,
) -> bool {
    let stop = if t0.head() + amount <= t0.text().len() {
        t0.head() + amount
    } else {
        t0.text().len() as int
    };
    let mid = if stop > t0.head() {
        tf.committed().drop_last()
    } else {
        tf.committed()
    };
    &&& tf.head() == stop
    &&& tf.tail() == stop
    &&& committed_span(t0.committed(), mid, t0.text(), t0.tail(), t0.head(), pending)
    &&& committed_span(mid, tf.committed(), t0.text(), t0.head(), stop, category)
}

/// The pending span was committed as `Text`; then, when the cursor stood on
/// whitespace, the whole whitespace run was consumed and committed as one
/// `Whitespace` token.
pub open spec fn whitespace_consumed(t0: Tokenizer, tf: Tokenizer) -> bool {
    let e = whitespace_run_end(t0.text(), t0.head());
    if t0.head() < t0.text().len() && is_lex_whitespace(t0.text()[t0.head()]) {
        &&& t0.head() < e
        &&& tf.head() == e
        &&& tf.tail() == e
        &&& committed_span(
            t0.committed(),
            tf.committed().drop_last(),
            t0.text(),
            t0.tail(),
            t0.head(),
            Category::Text,
        )
        &&& appended(
            tf.committed().drop_last(),
            tf.committed(),
            t0.text().subrange(t0.head(), e),
            Category::Whitespace,
        )
    } else {
        flushed(t0, tf, Category::Text)
    }
}

/// Initializes a new tokenizer over the given data, with both cursors at the
/// start, no tokens, and an empty state stack.
pub fn new<'a>(data: &'a str) -> (t: Tokenizer<'a>)
    ensures
        t.inv(),
        t.text() == data@,
        t.head() == 0,
        t.tail() == 0,
        t.committed().len() == 0,
        t.stack().len() == 0,
{
    let length = data.unicode_len();
    let t = Tokenizer { data, length, tail: 0, head: 0, tokens: Vec::new(), states: Vec::new() };
    proof {
        assert(t.text().subrange(0, 0) =~= Seq::<char>::empty());
    }
    t
}

impl<'a> Tokenizer<'a> {
    /// Moves to the next character in the data.
    /// Does nothing if there is no more data to process.
    pub fn advance(&mut self)
        requires
            old(self).inv(),
        ensures
            final(self).inv(),
            final(self).text() == old(self).text(),
            final(self).stack() == old(self).stack(),
            only_advanced(*old(self), *final(self), 1),
    {
        if self.head < self.length {
            self.head = self.head + 1;
        }
    }

    /// Returns the character at the current position, unless all of the data
    /// has been processed.
    pub fn current_char(&self) -> (r: Option<char>)
        requires
            self.inv(),
        ensures
            r == (if self.head() < self.text().len() {
                Some(self.text()[self.head()])
            } else {
                None::<char>
            }),
    {
        if self.head < self.length {
            Some(self.data.get_char(self.head))
        } else {
            None
        }
    }

    /// Whether any input remains at or after the current position.
    pub fn has_more_data(&self) -> (r: bool)
        requires
            self.inv(),
        ensures
            r == (self.head() < self.text().len()),
    {
        self.head < self.length
    }

    /// Suspends the given context onto the state stack, to be resumed later.
    pub fn push_state(&mut self, state: StateFunction)
        requires
            old(self).inv(),
        ensures
            final(self).inv(),
            final(self).text() == old(self).text(),
            final(self).head() == old(self).head(),
            final(self).tail() == old(self).tail(),
            final(self).committed() == old(self).committed(),
            final(self).stack() == old(self).stack().push(state),
    {
        self.states.push(state);
    }

    /// Removes and returns the most recently suspended context, if any.
    pub fn pop_state(&mut self) -> (r: Option<StateFunction>)
        requires
            old(self).inv(),
        ensures
            final(self).inv(),
            final(self).text() == old(self).text(),
            final(self).head() == old(self).head(),
            final(self).tail() == old(self).tail(),
            final(self).committed() == old(self).committed(),
            match r {
                Some(s) => old(self).stack().len() > 0 && s == old(self).stack().last()
                    && final(self).stack() == old(self).stack().drop_last(),
                None => old(self).stack().len() == 0 && final(self).stack() == old(self).stack(),
            },
    {
        self.states.pop()
    }

    /// Whether or not the remaining data starts with the specified prefix.
    pub fn has_prefix(&self, prefix: &str) -> (r: bool)
        requires
            self.inv(),
        ensures
            r == spec_has_prefix(self.text(), self.head(), prefix@),
    {
        let plen = prefix.unicode_len();
        if plen > self.length - self.head {
            return false;
        }
        let mut j: usize = 0;
        while j < plen
            invariant
                self.inv(),
                j <= plen,
                plen == prefix@.len(),
                self.head() + plen <= self.text().len(),
                forall|k: int| 0 <= k < j ==> self.text()[self.head() + k] == prefix@[k],
            decreases plen - j,
        {
            if self.data.get_char(self.head + j) != prefix.get_char(j) {
                return false;
            }
            j = j + 1;
        }
        true
    }

    /// Whether or not the remaining data starts with the specified lexeme:
    /// the lexeme must be present as a prefix and be followed by a space,
    /// newline, comma, or the end of the input, so that a word is never
    /// recognized inside a longer word that merely begins with it.
    pub fn starts_with_lexeme(&self, lexeme: &str) -> (r: bool)
        requires
            self.inv(),
        ensures
            r == (spec_has_prefix(self.text(), self.head(), lexeme@)
                && spec_lexeme_boundary(self.text(), self.head() + lexeme@.len())),
    {
        if !self.has_prefix(lexeme) {
            return false;
        }
        let plen = lexeme.unicode_len();
        let boundary = self.head + plen;
        if boundary >= self.length {
            return true;
        }
        let c = self.data.get_char(boundary);
        c == ' ' || c == '\n' || c == ','
    }

    /// Returns the next non-whitespace character at or after the current
    /// position, without moving the cursor.
    pub fn next_non_whitespace_char(&self) -> (r: Option<char>)
        requires
            self.inv(),
        ensures
            ({
                let e = whitespace_run_end(self.text(), self.head());
                r == (if e < self.text().len() {
                    Some(self.text()[e])
                } else {
                    None::<char>
                })
            }),
    {
        let mut i: usize = self.head;
        loop
            invariant
                self.inv(),
                self.head() <= i as int <= self.text().len(),
                whitespace_run_end(self.text(), i as int)
                    == whitespace_run_end(self.text(), self.head()),
            decreases self.text().len() - i,
        {
            if i >= self.length {
                return None;
            }
            let c = self.data.get_char(i);
            if c != ' ' && c != '\n' {
                return Some(c);
            }
            i = i + 1;
        }
    }

    /// Creates and stores a token with the given category containing the
    /// pending span between `tail` and `head`. Does nothing when that span is
    /// empty, so no empty token is ever emitted.
    pub fn tokenize(&mut self, category: Category)
        requires
            old(self).inv(),
        ensures
            final(self).inv(),
            final(self).text() == old(self).text(),
            final(self).stack() == old(self).stack(),
            flushed(*old(self), *final(self), category),
    {
        if self.head > self.tail {
            let lexeme_slice = self.data.substring_char(self.tail, self.head);
            let token = Token { lexeme: lexeme_slice.to_owned(), category };
            self.tokens.push(token);
            self.tail = self.head;
            proof {
                assert(self.tokens@.drop_last() =~= old(self).tokens@);
                assert(old(self).text().subrange(0, old(self).tail())
                        + old(self).text().subrange(old(self).tail(), old(self).head())
                    =~= old(self).text().subrange(0, old(self).head()));
            }
        }
    }

    /// Creates and stores a token with the given category holding the next
    /// `amount` characters of the data, clamped to what remains. Before doing
    /// this, it commits any pending span under the generic `Category::Text`.
    pub fn tokenize_next(&mut self, amount: usize, category: Category)
        requires
            old(self).inv(),
        ensures
            final(self).inv(),
            final(self).text() == old(self).text(),
            final(self).stack() == old(self).stack(),
            flushed_then_committed(*old(self), *final(self), Category::Text, amount as int, category),
    {
        self.tokenize(Category::Text);
        let remaining = self.length - self.head;
        let step = if amount < remaining {
            amount
        } else {
            remaining
        };
        self.head = self.head + step;
        self.tokenize(category);
    }

    /// Commits any pending span as `Text`, then consumes a run of
    /// consecutive whitespace characters as a single `Whitespace` token.
    /// When the current character is not whitespace, only the flush happens
    /// and no `Whitespace` token is emitted.
    pub fn consume_whitespace(&mut self)
        requires
            old(self).inv(),
        ensures
            final(self).inv(),
            final(self).text() == old(self).text(),
            final(self).stack() == old(self).stack(),
            whitespace_consumed(*old(self), *final(self)),
    {
        self.tokenize(Category::Text);
        let currently_whitespace = if self.head < self.length {
            let c = self.data.get_char(self.head);
            c == ' ' || c == '\n'
        } else {
            false
        };
        if currently_whitespace {
            proof {
                lemma_whitespace_run_end_bounds(old(self).text(), old(self).head() + 1);
            }
            while self.head < self.length
                && (self.data.get_char(self.head) == ' ' || self.data.get_char(self.head) == '\n')
                invariant
                    self.inv(),
                    self.text() == old(self).text(),
                    self.stack() == old(self).stack(),
                    committed_span(
                        old(self).committed(),
                        self.committed(),
                        old(self).text(),
                        old(self).tail(),
                        old(self).head(),
                        Category::Text,
                    ),
                    self.tail() == old(self).head(),
                    old(self).head() <= self.head() <= self.text().len(),
                    whitespace_run_end(self.text(), self.head())
                        == whitespace_run_end(old(self).text(), old(self).head()),
                decreases self.text().len() - self.head(),
            {
                self.head = self.head + 1;
            }
            let ghost mid_tokens = self.committed();
            self.tokenize(Category::Whitespace);
            proof {
                assert(self.committed().drop_last() =~= mid_tokens);
            }
        }
    }

    /// Returns a copy of the tokens committed to date, with any remaining
    /// data from `tail` to the end of the input appended as a single
    /// text-category token. As a result, the returned tokens always join to
    /// reproduce the original dataset.
    pub fn tokens(&self) -> (r: Vec<Token>)
        requires
            self.inv(),
        ensures
            r@.len() == self.committed().len()
                + (if self.tail() < self.text().len() { 1int } else { 0int }),
            forall|i: int| #![trigger r@[i]] 0 <= i < self.committed().len()
                ==> r@[i].lexeme@ == self.committed()[i].lexeme@
                    && r@[i].category == self.committed()[i].category,
            self.tail() < self.text().len() ==> r@.last().lexeme@
                == self.text().subrange(self.tail(), self.text().len() as int)
                && r@.last().category == Category::Text,
            concat_lexemes(r@) == self.text(),
            all_lexemes_nonempty(r@),
    {
        let mut result: Vec<Token> = Vec::new();
        let mut i: usize = 0;
        while i < self.tokens.len()
            invariant
                self.inv(),
                i <= self.tokens@.len(),
                result@.len() == i as int,
                forall|k: int| #![trigger result@[k]] 0 <= k < i as int
                    ==> result@[k].lexeme@ == self.tokens@[k].lexeme@
                        && result@[k].category == self.tokens@[k].category,
            decreases self.tokens@.len() - i,
        {
            let source = &self.tokens[i];
            let copy = Token { lexeme: source.lexeme.as_str().to_owned(), category: source.category };
            result.push(copy);
            i = i + 1;
        }
        proof {
            crate::token::lemma_concat_lexemes_congruence(result@, self.tokens@);
        }
        if self.tail < self.length {
            let ghost base = result@;
            let trailing_slice = self.data.substring_char(self.tail, self.length);
            let trailing = Token { lexeme: trailing_slice.to_owned(), category: Category::Text };
            result.push(trailing);
            proof {
                assert(result@.drop_last() =~= base);
                assert(self.text().subrange(0, self.tail())
                        + self.text().subrange(self.tail(), self.text().len() as int)
                    =~= self.text());
            }
        } else {
            proof {
                assert(self.text().subrange(0, self.tail()) =~= self.text());
            }
        }
        result
    }
}

} // verus!
