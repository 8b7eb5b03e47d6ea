use luthor::token::{Category, Token};
use luthor::tokenizer::new;

#[test]
fn current_char_returns_the_char_at_head() {
    let data = "él";
    let tokenizer = new(data);

    assert_eq!(tokenizer.current_char().unwrap(), 'é');
}

#[test]
fn current_char_returns_none_if_at_the_end() {
    let data = "él";
    let mut tokenizer = new(data);
    tokenizer.advance();
    tokenizer.advance();

    assert_eq!(tokenizer.current_char(), None);
}

#[test]
fn tokenizer_tokenize_creates_the_correct_token() {
    let data = "élégant";
    let mut tokenizer = new(data);
    tokenizer.advance();
    tokenizer.advance();
    tokenizer.tokenize(Category::Text);

    let token = tokenizer.tokens().remove(0);
    let expected_token = Token { lexeme: "él".to_string(), category: Category::Text };
    assert_eq!(token, expected_token);
}

#[test]
fn tokenizer_tokenize_does_nothing_if_range_is_empty() {
    let data = "élégant";
    let mut tokenizer = new(data);
    tokenizer.tokenize(Category::Text);

    // Nothing was committed: the only token is the trailing flush of the
    // untouched data.
    assert_eq!(
        tokenizer.tokens(),
        vec![Token { lexeme: "élégant".to_string(), category: Category::Text }]
    );
}

#[test]
fn tokenizer_tokenize_next_tokenizes_previous_data_as_text() {
    let data = "élégant";
    let mut tokenizer = new(data);
    tokenizer.advance();
    tokenizer.advance();
    tokenizer.tokenize_next(1, Category::Keyword);

    let token = tokenizer.tokens().remove(0);
    let expected_token = Token { lexeme: "él".to_string(), category: Category::Text };
    assert_eq!(token, expected_token);
}

#[test]
fn tokenizer_tokenize_next_tokenizes_next_x_chars() {
    let data = "élégant";
    let mut tokenizer = new(data);
    tokenizer.advance();
    tokenizer.advance();
    tokenizer.tokenize_next(5, Category::Keyword);

    let token = tokenizer.tokens().pop().unwrap();
    let expected_token = Token { lexeme: "égant".to_string(), category: Category::Keyword };
    assert_eq!(token, expected_token);
}

#[test]
fn tokenizer_tokenize_next_takes_at_most_what_is_left() {
    let data = "élégant";
    let mut tokenizer = new(data);
    tokenizer.advance();
    tokenizer.advance();
    tokenizer.tokenize_next(15, Category::Keyword);

    let token = tokenizer.tokens().pop().unwrap();
    let expected_token = Token { lexeme: "égant".to_string(), category: Category::Keyword };
    assert_eq!(token, expected_token);
}

#[test]
fn consume_whitespace_handles_preexisting_noncategorized_chars() {
    let data = "e  ";
    let mut tokenizer = new(data);
    tokenizer.advance();
    tokenizer.consume_whitespace();

    assert_eq!(
        tokenizer.tokens()[0],
        Token { lexeme: "e".to_string(), category: Category::Text }
    );
    assert_eq!(
        tokenizer.tokens()[1],
        Token { lexeme: "  ".to_string(), category: Category::Whitespace }
    );
}

#[test]
fn tokens_returns_unprocessed_data_as_text_token() {
    let tokenizer = new("luthor");

    assert_eq!(
        tokenizer.tokens()[0],
        Token { lexeme: "luthor".to_string(), category: Category::Text }
    );
}

#[test]
fn tokens_joins_advanced_data_with_unprocessed_data_as_text_token() {
    let mut tokenizer = new("luthor");
    tokenizer.advance();

    assert_eq!(
        tokenizer.tokens()[0],
        Token { lexeme: "luthor".to_string(), category: Category::Text }
    );
}
