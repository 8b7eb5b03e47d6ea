use luthor::lexers;
use luthor::token::{Category, Token};

#[test]
fn default_it_works() {
    let data = "This is a test.\n  Luthor text lexing.\n";
    let tokens = lexers::default::lex(data);
    let expected_tokens = vec![
        Token { lexeme: "This".to_string(), category: Category::Text },
        Token { lexeme: " ".to_string(), category: Category::Whitespace },
        Token { lexeme: "is".to_string(), category: Category::Text },
        Token { lexeme: " ".to_string(), category: Category::Whitespace },
        Token { lexeme: "a".to_string(), category: Category::Text },
        Token { lexeme: " ".to_string(), category: Category::Whitespace },
        Token { lexeme: "test.".to_string(), category: Category::Text },
        Token { lexeme: "\n  ".to_string(), category: Category::Whitespace },
        Token { lexeme: "Luthor".to_string(), category: Category::Text },
        Token { lexeme: " ".to_string(), category: Category::Whitespace },
        Token { lexeme: "text".to_string(), category: Category::Text },
        Token { lexeme: " ".to_string(), category: Category::Whitespace },
        Token { lexeme: "lexing.".to_string(), category: Category::Text },
        Token { lexeme: "\n".to_string(), category: Category::Whitespace },
    ];

    for (index, token) in tokens.iter().enumerate() {
        assert_eq!(*token, expected_tokens[index]);
    }
}

#[test]
fn json_it_works() {
    let data = "{\n  \"key\": \"4032\",\n  'single': 'quotes\\'',\n  \"literals\": [\n    true,\n    false,\n    null\n  ]\n}\n";
    let tokens = lexers::json::lex(data);
    let expected_tokens = vec![
        Token { lexeme: "{".to_string(), category: Category::Brace },
        Token { lexeme: "\n  ".to_string(), category: Category::Whitespace },
        Token { lexeme: "\"key\"".to_string(), category: Category::String },
        Token { lexeme: ":".to_string(), category: Category::Operator },
        Token { lexeme: " ".to_string(), category: Category::Whitespace },
        Token { lexeme: "\"4032\"".to_string(), category: Category::String },
        Token { lexeme: ",".to_string(), category: Category::Text },
        Token { lexeme: "\n  ".to_string(), category: Category::Whitespace },
        Token { lexeme: "'single'".to_string(), category: Category::Text },
        Token { lexeme: ":".to_string(), category: Category::Operator },
        Token { lexeme: " ".to_string(), category: Category::Whitespace },
        Token { lexeme: "'quotes\\'',".to_string(), category: Category::Text },
        Token { lexeme: "\n  ".to_string(), category: Category::Whitespace },
        Token { lexeme: "\"literals\"".to_string(), category: Category::String },
        Token { lexeme: ":".to_string(), category: Category::Operator },
        Token { lexeme: " ".to_string(), category: Category::Whitespace },
        Token { lexeme: "[".to_string(), category: Category::Bracket },
        Token { lexeme: "\n    ".to_string(), category: Category::Whitespace },
        Token { lexeme: "true".to_string(), category: Category::Boolean },
        Token { lexeme: ",".to_string(), category: Category::Text },
        Token { lexeme: "\n    ".to_string(), category: Category::Whitespace },
        Token { lexeme: "false".to_string(), category: Category::Boolean },
        Token { lexeme: ",".to_string(), category: Category::Text },
        Token { lexeme: "\n    ".to_string(), category: Category::Whitespace },
        Token { lexeme: "null".to_string(), category: Category::Keyword },
        Token { lexeme: "\n  ".to_string(), category: Category::Whitespace },
        Token { lexeme: "]".to_string(), category: Category::Bracket },
        Token { lexeme: "\n".to_string(), category: Category::Whitespace },
        Token { lexeme: "}".to_string(), category: Category::Brace },
        Token { lexeme: "\n".to_string(), category: Category::Whitespace },
    ];

    for (index, token) in tokens.iter().enumerate() {
        assert_eq!(*token, expected_tokens[index]);
    }
}

#[test]
fn json_it_can_handle_garbage() {
    let tokens = lexers::json::lex("} adwyx123&*_ ");
    let expected_tokens = vec![
        Token { lexeme: "}".to_string(), category: Category::Brace },
        Token { lexeme: " ".to_string(), category: Category::Whitespace },
        Token { lexeme: "adwyx123&*_".to_string(), category: Category::Text },
        Token { lexeme: " ".to_string(), category: Category::Whitespace },
    ];

    for (index, token) in tokens.iter().enumerate() {
        assert_eq!(*token, expected_tokens[index]);
    }
}

#[test]
fn json_it_can_handle_open_strings() {
    let tokens = lexers::json::lex("\"open!");
    let expected_tokens = vec![
        Token { lexeme: "\"open!".to_string(), category: Category::String },
    ];

    for (index, token) in tokens.iter().enumerate() {
        assert_eq!(*token, expected_tokens[index]);
    }
}

#[test]
fn json_it_can_handle_utf8_data() {
    let tokens = lexers::json::lex("différent");
    let expected_tokens = vec![
        Token { lexeme: "différent".to_string(), category: Category::Text },
    ];

    for (index, token) in tokens.iter().enumerate() {
        assert_eq!(*token, expected_tokens[index]);
    }
}

#[test]
fn xml_it_works() {
    let data = "<tag>\n  <tag_with_attribute attribute=\"value\"></tag_with_attribute>\n  <self_closing_tag />\n</tag>\n";
    let tokens = lexers::xml::lex(data);
    let expected_tokens = vec![
        Token { lexeme: "<".to_string(), category: Category::Text },
        Token { lexeme: "tag".to_string(), category: Category::Identifier },
        Token { lexeme: ">".to_string(), category: Category::Text },
        Token { lexeme: "\n  ".to_string(), category: Category::Whitespace },
        Token { lexeme: "<".to_string(), category: Category::Text },
        Token { lexeme: "tag_with_attribute".to_string(), category: Category::Identifier },
        Token { lexeme: " ".to_string(), category: Category::Whitespace },
        Token { lexeme: "attribute".to_string(), category: Category::Identifier },
        Token { lexeme: "=".to_string(), category: Category::Operator },
        Token { lexeme: "\"value\"".to_string(), category: Category::String },
        Token { lexeme: ">".to_string(), category: Category::Text },
        Token { lexeme: "</".to_string(), category: Category::Text },
        Token { lexeme: "tag_with_attribute".to_string(), category: Category::Identifier },
        Token { lexeme: ">".to_string(), category: Category::Text },
        Token { lexeme: "\n  ".to_string(), category: Category::Whitespace },
        Token { lexeme: "<".to_string(), category: Category::Text },
        Token { lexeme: "self_closing_tag".to_string(), category: Category::Identifier },
        Token { lexeme: " ".to_string(), category: Category::Whitespace },
        Token { lexeme: "/>".to_string(), category: Category::Text },
        Token { lexeme: "\n".to_string(), category: Category::Whitespace },
        Token { lexeme: "</".to_string(), category: Category::Text },
        Token { lexeme: "tag".to_string(), category: Category::Identifier },
        Token { lexeme: ">".to_string(), category: Category::Text },
        Token { lexeme: "\n".to_string(), category: Category::Whitespace },
    ];

    for (index, token) in tokens.iter().enumerate() {
        assert_eq!(*token, expected_tokens[index]);
    }
}

#[test]
fn xml_it_can_handle_garbage() {
    let tokens = lexers::xml::lex("} adwyx123&*_ ");
    let expected_tokens = vec![
        Token { lexeme: "}".to_string(), category: Category::Text },
        Token { lexeme: " ".to_string(), category: Category::Whitespace },
        Token { lexeme: "adwyx123&*_".to_string(), category: Category::Text },
        Token { lexeme: " ".to_string(), category: Category::Whitespace },
    ];

    for (index, token) in tokens.iter().enumerate() {
        assert_eq!(*token, expected_tokens[index]);
    }
}

#[test]
fn xml_it_can_handle_open_strings() {
    let tokens = lexers::xml::lex("<tag \"open!>");
    let expected_tokens = vec![
        Token { lexeme: "<".to_string(), category: Category::Text },
        Token { lexeme: "tag".to_string(), category: Category::Identifier },
        Token { lexeme: " ".to_string(), category: Category::Whitespace },
        Token { lexeme: "\"open!>".to_string(), category: Category::String },
    ];

    for (index, token) in tokens.iter().enumerate() {
        assert_eq!(*token, expected_tokens[index]);
    }
}

#[test]
fn xml_it_can_handle_utf8_data() {
    let tokens = lexers::xml::lex("différent");
    let expected_tokens = vec![
        Token { lexeme: "différent".to_string(), category: Category::Text },
    ];

    for (index, token) in tokens.iter().enumerate() {
        assert_eq!(*token, expected_tokens[index]);
    }
}

#[test]
fn html_erb_it_works() {
    let data = "<html>\n<% class Ruby %>\n<%= class Ruby %>\n</html>";
    let tokens = lexers::html_erb::lex(data);

    let expected_tokens = vec![
        Token { lexeme: "<".to_string(), category: Category::Text },
        Token { lexeme: "html".to_string(), category: Category::Identifier },
        Token { lexeme: ">".to_string(), category: Category::Text },
        Token { lexeme: "\n".to_string(), category: Category::Whitespace },
        Token { lexeme: "<%".to_string(), category: Category::Keyword },
        Token { lexeme: " ".to_string(), category: Category::Whitespace },
        Token { lexeme: "class".to_string(), category: Category::Keyword },
        Token { lexeme: " ".to_string(), category: Category::Whitespace },
        Token { lexeme: "Ruby".to_string(), category: Category::Identifier },
        Token { lexeme: " ".to_string(), category: Category::Whitespace },
        Token { lexeme: "%>".to_string(), category: Category::Keyword },
        Token { lexeme: "\n".to_string(), category: Category::Whitespace },
        Token { lexeme: "<%=".to_string(), category: Category::Keyword },
        Token { lexeme: " ".to_string(), category: Category::Whitespace },
        Token { lexeme: "class".to_string(), category: Category::Keyword },
        Token { lexeme: " ".to_string(), category: Category::Whitespace },
        Token { lexeme: "Ruby".to_string(), category: Category::Identifier },
        Token { lexeme: " ".to_string(), category: Category::Whitespace },
        Token { lexeme: "%>".to_string(), category: Category::Keyword },
        Token { lexeme: "\n".to_string(), category: Category::Whitespace },
        Token { lexeme: "</".to_string(), category: Category::Text },
        Token { lexeme: "html".to_string(), category: Category::Identifier },
        Token { lexeme: ">".to_string(), category: Category::Text },
    ];

    for (index, token) in tokens.iter().enumerate() {
        assert_eq!(*token, expected_tokens[index]);
    }
}
