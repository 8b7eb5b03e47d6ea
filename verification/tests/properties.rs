use luthor::lexers;
use luthor::token::{Category, Token, TokenSet};
use luthor::tokenizer::new;
use luthor::StateFunction;

fn joined(tokens: &[Token]) -> String {
    let mut joined = String::new();
    for token in tokens {
        joined.push_str(&token.lexeme);
    }
    joined
}

#[test]
fn lexing_is_lossless_for_every_lexer() {
    let data = "} adwyx123&*_ <%= fn main() {} %> \"open! différent\n";
    assert_eq!(joined(&lexers::default::lex(data)), data);
    assert_eq!(joined(&lexers::json::lex(data)), data);
    assert_eq!(joined(&lexers::xml::lex(data)), data);
    assert_eq!(joined(&lexers::ruby::lex(data)), data);
    assert_eq!(joined(&lexers::javascript::lex(data)), data);
    assert_eq!(joined(&lexers::rust::lex(data)), data);
    assert_eq!(joined(&lexers::html_erb::lex(data)), data);
}

#[test]
fn lexing_empty_input_yields_no_tokens() {
    assert!(lexers::default::lex("").is_empty());
    assert!(lexers::json::lex("").is_empty());
    assert!(lexers::xml::lex("").is_empty());
    assert!(lexers::ruby::lex("").is_empty());
    assert!(lexers::javascript::lex("").is_empty());
    assert!(lexers::rust::lex("").is_empty());
    assert!(lexers::html_erb::lex("").is_empty());
}

#[test]
fn no_emitted_token_is_empty() {
    let data = "{ \"a\": [true, null] } <% def m(x) %> 123 + 456 // c\n";
    for tokens in [
        lexers::default::lex(data),
        lexers::json::lex(data),
        lexers::xml::lex(data),
        lexers::ruby::lex(data),
        lexers::javascript::lex(data),
        lexers::rust::lex(data),
        lexers::html_erb::lex(data),
    ] {
        for token in tokens {
            assert!(!token.lexeme.is_empty());
        }
    }
}

#[test]
fn starts_with_lexeme_respects_boundaries() {
    assert!(new("end\n").starts_with_lexeme("end"));
    assert!(new("end ").starts_with_lexeme("end"));
    assert!(new("end,").starts_with_lexeme("end"));
    assert!(new("end").starts_with_lexeme("end"));
    assert!(!new("ending").starts_with_lexeme("end"));
}

#[test]
fn keywords_are_not_recognized_inside_longer_words() {
    assert_eq!(
        lexers::ruby::lex("end"),
        vec![Token { lexeme: "end".to_string(), category: Category::Keyword }]
    );
    assert_eq!(
        lexers::ruby::lex("ending"),
        vec![Token { lexeme: "ending".to_string(), category: Category::Text }]
    );
}

#[test]
fn has_more_data_reports_remaining_input() {
    let mut tokenizer = new("él");
    assert!(tokenizer.has_more_data());
    tokenizer.advance();
    assert!(tokenizer.has_more_data());
    tokenizer.advance();
    assert!(!tokenizer.has_more_data());
}

#[test]
fn has_prefix_finds_prefixes_of_the_remaining_data() {
    let tokenizer = new("lex");
    assert!(tokenizer.has_prefix("le"));
    assert!(!tokenizer.has_prefix("ex"));
}

#[test]
fn advancing_through_multibyte_characters_never_splits_them() {
    let mut tokenizer = new("élégant");
    assert_eq!(tokenizer.current_char(), Some('é'));
    tokenizer.advance();
    assert_eq!(tokenizer.current_char(), Some('l'));
    tokenizer.advance();
    tokenizer.tokenize(Category::Text);

    let tokens = tokenizer.tokens();
    assert_eq!(tokens[0].lexeme, "él");
    assert_eq!(tokens[0].lexeme.chars().count(), 2);
    assert_eq!(tokens[0].lexeme.len(), 3);
}

#[test]
fn next_non_whitespace_char_skips_spaces_and_newlines() {
    let mut tokenizer = new("  \nb");
    assert_eq!(tokenizer.next_non_whitespace_char(), Some('b'));
    for _ in 0..4 {
        tokenizer.advance();
    }
    assert!(tokenizer.next_non_whitespace_char().is_none());
}

#[test]
fn state_stack_suspends_and_resumes_contexts() {
    let mut tokenizer = new("data");
    assert_eq!(tokenizer.pop_state(), None);
    tokenizer.push_state(StateFunction::Initial);
    tokenizer.push_state(StateFunction::Whitespace);
    assert_eq!(tokenizer.pop_state(), Some(StateFunction::Whitespace));
    assert_eq!(tokenizer.pop_state(), Some(StateFunction::Initial));
    assert_eq!(tokenizer.pop_state(), None);
}

#[test]
fn delegation_round_trip_is_lossless() {
    let data = "<html>\n  <% [\"ruby\"].each do |string| %>\n  <b>text</b>\n<% end %>\n</html>\n";
    assert_eq!(joined(&lexers::html_erb::lex(data)), data);
}

#[test]
fn relexing_a_context_free_token_reproduces_its_classification() {
    let tokens = lexers::json::lex("\"key\"");
    assert_eq!(
        tokens,
        vec![Token { lexeme: "\"key\"".to_string(), category: Category::String }]
    );

    let relexed = lexers::json::lex(&tokens[0].lexeme);
    assert_eq!(relexed, tokens);
}

#[test]
fn consume_whitespace_flushes_pending_data_even_without_whitespace() {
    let mut tokenizer = new("ab");
    tokenizer.advance();
    tokenizer.consume_whitespace();

    // The pending "a" is committed as Text although no whitespace follows;
    // no Whitespace token is emitted.
    assert_eq!(
        tokenizer.tokens(),
        vec![
            Token { lexeme: "a".to_string(), category: Category::Text },
            Token { lexeme: "b".to_string(), category: Category::Text },
        ]
    );
}

#[test]
fn token_set_starts_empty() {
    let token_set = TokenSet::new(String::from("luthor"));
    assert_eq!(token_set.data, "luthor");
    assert!(token_set.tokens.is_empty());
}
