//! Token-related types: the classified lexemes a lexer produces, and the
//! specification vocabulary used to talk about sequences of them.

use vstd::prelude::*;

verus! {

/// The primary means of classifying a format or language's lexemes.
#[derive(Clone, Copy, PartialEq, Eq, Structural, Debug)]
pub enum Category {
    Whitespace,
    Identifier,
    Keyword,
    Brace,
    Bracket,
    Parenthesis,
    Operator,
    Integer,
    Float,
    String,
    Boolean,
    Text,
    Comment,
    Function,
    Method,
    Call,
    Literal,
    Key,
}

/// A lexeme and category pairing. Tokens are the final product of a lexer;
/// their lexemes should join to produce the original data passed to the lexer.
#[derive(PartialEq, Debug)]
pub struct Token {
    pub lexeme: String,
    pub category: Category,
}

/// The characters formed by joining the lexemes of `toks` in emission order.
/// A lexer is lossless exactly when this equals the input it was given.
pub open spec fn concat_lexemes(toks: Seq<Token>) -> Seq<char>
    decreases toks.len(),
{
    if toks.len() == 0 {
        Seq::empty()
    } else {
        concat_lexemes(toks.drop_last()) + toks.last().lexeme@
    }
}

/// No token in `toks` has a zero-length lexeme.
pub open spec fn all_lexemes_nonempty(toks: Seq<Token>) -> bool {
    forall|i: int| 0 <= i < toks.len() ==> #[trigger] toks[i].lexeme@.len() > 0
}

/// `post` is `pre` with one more token appended, holding the given
/// lexeme characters and category.
pub open spec fn appended(pre: Seq<Token>, post: Seq<Token>, lexeme: Seq<char>, category: Category) -> bool {
    &&& post.len() == pre.len() + 1
    &&& post.drop_last() == pre
    &&& post.last().lexeme@ == lexeme
    &&& post.last().category == category
}

/// `post` extends `pre` with the span `text[from..to)` under `category`,
/// except that an empty span commits nothing at all.
pub open spec fn committed_span(
    pre: Seq<Token>,
    post: Seq<Token>,
    text: Seq<char>,
    from: int,
    to: int,
    category: Category,
) -> bool {
    if from < to {
        appended(pre, post, text.subrange(from, to), category)
    } else {
        post == pre
    }
}

/// Joining lexemes distributes over concatenation of token sequences.
pub proof fn lemma_concat_lexemes_append(a: Seq<Token>, b: Seq<Token>)
    ensures
        concat_lexemes(a + b) == concat_lexemes(a) + concat_lexemes(b),
    decreases b.len(),
{
    if b.len() == 0 {
        assert(a + b =~= a);
        assert(concat_lexemes(a) + concat_lexemes(b) =~= concat_lexemes(a));
    } else {
        lemma_concat_lexemes_append(a, b.drop_last());
        assert((a + b).drop_last() =~= a + b.drop_last());
        assert((a + b).last() == b.last());
        assert(concat_lexemes(a) + concat_lexemes(b.drop_last()) + b.last().lexeme@
            =~= concat_lexemes(a) + concat_lexemes(b));
    }
}

/// Two token sequences whose lexemes agree character-for-character join to
/// the same characters.
pub proof fn lemma_concat_lexemes_congruence(a: Seq<Token>, b: Seq<Token>)
    requires
        a.len() == b.len(),
        forall|i: int| 0 <= i < a.len() ==> #[trigger] a[i].lexeme@ == b[i].lexeme@,
    ensures
        concat_lexemes(a) == concat_lexemes(b),
    decreases a.len(),
{
    if a.len() > 0 {
        assert(forall|i: int| 0 <= i < a.drop_last().len()
            ==> #[trigger] a.drop_last()[i].lexeme@ == b.drop_last()[i].lexeme@);
        lemma_concat_lexemes_congruence(a.drop_last(), b.drop_last());
        assert(a.last().lexeme@ == b.last().lexeme@);
    }
}

/// A lossless token sequence without empty lexemes covers an empty input
/// only when it is itself empty: a lexer meeting both guarantees emits no
/// tokens at all for an empty document.
pub proof fn lemma_empty_input_has_no_tokens(toks: Seq<Token>)
    requires
        concat_lexemes(toks).len() == 0,
        all_lexemes_nonempty(toks),
    ensures
        toks.len() == 0,
{
    if toks.len() > 0 {
        assert(toks.last().lexeme@.len() > 0);
    }
}

/// Holds text data and a set of tokens (categorized spans) describing it.
pub struct TokenSet {
    pub data: String,
    pub tokens: Vec<Token>,
}

impl TokenSet {
    pub fn new(data: String) -> (r: TokenSet)
        ensures
            r.data@ == data@,
            r.tokens@.len() == 0,
    {
        TokenSet { data, tokens: Vec::new() }
    }
}

} // verus!
