use luthor::lexers;
use luthor::token::{Category, Token};

#[test]
fn ruby_it_works() {
    let data = "module RubyModule\nend\n\nclass Ruby\n  include RubyModule\n  extend RubyModule\n\n  private\n\n  def method(argument)\n    begin\n      unless\n      if true\n        \"true\"\n      elsif false\n        \"false\"\n      else\n        nil\n      end\n    rescue\n      raise\n    end\n\n    # comment\n    [\"ruby\"].each do |string|\n      variable = 'string'\n      another_variable=1\n      @instance_variable\n      method_call(argument = false, another_argument)\n      another_method_call\n      hash[:symbol_1234?] = { key: value }\n    end\n  end\nend\n";
    let tokens = lexers::ruby::lex(data);
    let expected_tokens = vec![
        Token { lexeme: "module".to_string(), category: Category::Keyword },
        Token { lexeme: " ".to_string(), category: Category::Whitespace },
        Token { lexeme: "RubyModule".to_string(), category: Category::Identifier },
        Token { lexeme: "\n".to_string(), category: Category::Whitespace },
        Token { lexeme: "end".to_string(), category: Category::Keyword },
        Token { lexeme: "\n\n".to_string(), category: Category::Whitespace },
        Token { lexeme: "class".to_string(), category: Category::Keyword },
        Token { lexeme: " ".to_string(), category: Category::Whitespace },
        Token { lexeme: "Ruby".to_string(), category: Category::Identifier },
        Token { lexeme: "\n  ".to_string(), category: Category::Whitespace },
        Token { lexeme: "include".to_string(), category: Category::Keyword },
        Token { lexeme: " ".to_string(), category: Category::Whitespace },
        Token { lexeme: "RubyModule".to_string(), category: Category::Identifier },
        Token { lexeme: "\n  ".to_string(), category: Category::Whitespace },
        Token { lexeme: "extend".to_string(), category: Category::Keyword },
        Token { lexeme: " ".to_string(), category: Category::Whitespace },
        Token { lexeme: "RubyModule".to_string(), category: Category::Identifier },
        Token { lexeme: "\n\n  ".to_string(), category: Category::Whitespace },
        Token { lexeme: "private".to_string(), category: Category::Keyword },
        Token { lexeme: "\n\n  ".to_string(), category: Category::Whitespace },
        Token { lexeme: "def".to_string(), category: Category::Keyword },
        Token { lexeme: " ".to_string(), category: Category::Whitespace },
        Token { lexeme: "method".to_string(), category: Category::Method },
        Token { lexeme: "(".to_string(), category: Category::Text },
        Token { lexeme: "argument".to_string(), category: Category::Identifier },
        Token { lexeme: ")".to_string(), category: Category::Text },
        Token { lexeme: "\n    ".to_string(), category: Category::Whitespace },
        Token { lexeme: "begin".to_string(), category: Category::Keyword },
        Token { lexeme: "\n      ".to_string(), category: Category::Whitespace },
        Token { lexeme: "unless".to_string(), category: Category::Keyword },
        Token { lexeme: "\n      ".to_string(), category: Category::Whitespace },
        Token { lexeme: "if".to_string(), category: Category::Keyword },
        Token { lexeme: " ".to_string(), category: Category::Whitespace },
        Token { lexeme: "true".to_string(), category: Category::Boolean },
        Token { lexeme: "\n        ".to_string(), category: Category::Whitespace },
        Token { lexeme: "\"true\"".to_string(), category: Category::String },
        Token { lexeme: "\n      ".to_string(), category: Category::Whitespace },
        Token { lexeme: "elsif".to_string(), category: Category::Keyword },
        Token { lexeme: " ".to_string(), category: Category::Whitespace },
        Token { lexeme: "false".to_string(), category: Category::Boolean },
        Token { lexeme: "\n        ".to_string(), category: Category::Whitespace },
        Token { lexeme: "\"false\"".to_string(), category: Category::String },
        Token { lexeme: "\n      ".to_string(), category: Category::Whitespace },
        Token { lexeme: "else".to_string(), category: Category::Keyword },
        Token { lexeme: "\n        ".to_string(), category: Category::Whitespace },
        Token { lexeme: "nil".to_string(), category: Category::Literal },
        Token { lexeme: "\n      ".to_string(), category: Category::Whitespace },
        Token { lexeme: "end".to_string(), category: Category::Keyword },
        Token { lexeme: "\n    ".to_string(), category: Category::Whitespace },
        Token { lexeme: "rescue".to_string(), category: Category::Keyword },
        Token { lexeme: "\n      ".to_string(), category: Category::Whitespace },
        Token { lexeme: "raise".to_string(), category: Category::Keyword },
        Token { lexeme: "\n    ".to_string(), category: Category::Whitespace },
        Token { lexeme: "end".to_string(), category: Category::Keyword },
        Token { lexeme: "\n\n    ".to_string(), category: Category::Whitespace },
        Token { lexeme: "# comment".to_string(), category: Category::Comment },
        Token { lexeme: "\n    ".to_string(), category: Category::Whitespace },
        Token { lexeme: "[".to_string(), category: Category::Text },
        Token { lexeme: "\"ruby\"".to_string(), category: Category::String },
        Token { lexeme: "]".to_string(), category: Category::Text },
        Token { lexeme: ".".to_string(), category: Category::Text },
        Token { lexeme: "each".to_string(), category: Category::Text },
        Token { lexeme: " ".to_string(), category: Category::Whitespace },
        Token { lexeme: "do".to_string(), category: Category::Keyword },
        Token { lexeme: " ".to_string(), category: Category::Whitespace },
        Token { lexeme: "|".to_string(), category: Category::Text },
        Token { lexeme: "string".to_string(), category: Category::Identifier },
        Token { lexeme: "|".to_string(), category: Category::Text },
        Token { lexeme: "\n      ".to_string(), category: Category::Whitespace },
        Token { lexeme: "variable".to_string(), category: Category::Identifier },
        Token { lexeme: " ".to_string(), category: Category::Whitespace },
        Token { lexeme: "=".to_string(), category: Category::Text },
        Token { lexeme: " ".to_string(), category: Category::Whitespace },
        Token { lexeme: "'string'".to_string(), category: Category::String },
        Token { lexeme: "\n      ".to_string(), category: Category::Whitespace },
        Token { lexeme: "another_variable".to_string(), category: Category::Identifier },
        Token { lexeme: "=".to_string(), category: Category::Text },
        Token { lexeme: "1".to_string(), category: Category::Integer },
        Token { lexeme: "\n      ".to_string(), category: Category::Whitespace },
        Token { lexeme: "@instance_variable".to_string(), category: Category::Identifier },
        Token { lexeme: "\n      ".to_string(), category: Category::Whitespace },
        Token { lexeme: "method_call".to_string(), category: Category::Call },
        Token { lexeme: "(".to_string(), category: Category::Text },
        Token { lexeme: "argument".to_string(), category: Category::Identifier },
        Token { lexeme: " ".to_string(), category: Category::Whitespace },
        Token { lexeme: "=".to_string(), category: Category::Text },
        Token { lexeme: " ".to_string(), category: Category::Whitespace },
        Token { lexeme: "false".to_string(), category: Category::Boolean },
        Token { lexeme: ",".to_string(), category: Category::Text },
        Token { lexeme: " ".to_string(), category: Category::Whitespace },
        Token { lexeme: "another_argument".to_string(), category: Category::Identifier },
        Token { lexeme: ")".to_string(), category: Category::Text },
        Token { lexeme: "\n      ".to_string(), category: Category::Whitespace },
        Token { lexeme: "another_method_call".to_string(), category: Category::Text },
        Token { lexeme: "\n      ".to_string(), category: Category::Whitespace },
        Token { lexeme: "hash".to_string(), category: Category::Identifier },
        Token { lexeme: "[".to_string(), category: Category::Text },
        Token { lexeme: ":symbol_1234?".to_string(), category: Category::Literal },
        Token { lexeme: "]".to_string(), category: Category::Text },
        Token { lexeme: " ".to_string(), category: Category::Whitespace },
        Token { lexeme: "=".to_string(), category: Category::Text },
        Token { lexeme: " ".to_string(), category: Category::Whitespace },
        Token { lexeme: "{".to_string(), category: Category::Text },
        Token { lexeme: " ".to_string(), category: Category::Whitespace },
        Token { lexeme: "key".to_string(), category: Category::Literal },
        Token { lexeme: ":".to_string(), category: Category::Text },
        Token { lexeme: " ".to_string(), category: Category::Whitespace },
        Token { lexeme: "value".to_string(), category: Category::Text },
        Token { lexeme: " ".to_string(), category: Category::Whitespace },
        Token { lexeme: "}".to_string(), category: Category::Text },
        Token { lexeme: "\n    ".to_string(), category: Category::Whitespace },
        Token { lexeme: "end".to_string(), category: Category::Keyword },
        Token { lexeme: "\n  ".to_string(), category: Category::Whitespace },
        Token { lexeme: "end".to_string(), category: Category::Keyword },
        Token { lexeme: "\n".to_string(), category: Category::Whitespace },
        Token { lexeme: "end".to_string(), category: Category::Keyword },
        Token { lexeme: "\n".to_string(), category: Category::Whitespace },
    ];

    for (index, token) in tokens.iter().enumerate() {
        assert_eq!(*token, expected_tokens[index]);
    }
}

#[test]
fn ruby_it_identifies_integers_and_operators() {
    let data = "123 + 456";
    let tokens = lexers::ruby::lex(data);
    let expected_tokens = vec![
        Token { lexeme: "123".to_string(), category: Category::Integer },
        Token { lexeme: " ".to_string(), category: Category::Whitespace },
        Token { lexeme: "+".to_string(), category: Category::Operator },
        Token { lexeme: " ".to_string(), category: Category::Whitespace },
        Token { lexeme: "456".to_string(), category: Category::Integer },
    ];

    for (index, token) in tokens.iter().enumerate() {
        assert_eq!(*token, expected_tokens[index]);
    }
}

#[test]
fn javascript_it_works() {
    let data = "var data = \"string\";\nvar data_2 = 'string';\n// comment\n/*\n multi-line comment\n*/\nfunction myFunction(arg) {\n  if true {} else { return false }\n}\n";
    let tokens = lexers::javascript::lex(data);
    let expected_tokens = vec![
        Token { lexeme: "var".to_string(), category: Category::Keyword },
        Token { lexeme: " ".to_string(), category: Category::Whitespace },
        Token { lexeme: "data".to_string(), category: Category::Identifier },
        Token { lexeme: " ".to_string(), category: Category::Whitespace },
        Token { lexeme: "=".to_string(), category: Category::Text },
        Token { lexeme: " ".to_string(), category: Category::Whitespace },
        Token { lexeme: "\"string\"".to_string(), category: Category::String },
        Token { lexeme: ";".to_string(), category: Category::Text },
        Token { lexeme: "\n".to_string(), category: Category::Whitespace },
        Token { lexeme: "var".to_string(), category: Category::Keyword },
        Token { lexeme: " ".to_string(), category: Category::Whitespace },
        Token { lexeme: "data_2".to_string(), category: Category::Identifier },
        Token { lexeme: " ".to_string(), category: Category::Whitespace },
        Token { lexeme: "=".to_string(), category: Category::Text },
        Token { lexeme: " ".to_string(), category: Category::Whitespace },
        Token { lexeme: "'string'".to_string(), category: Category::String },
        Token { lexeme: ";".to_string(), category: Category::Text },
        Token { lexeme: "\n".to_string(), category: Category::Whitespace },
        Token { lexeme: "// comment".to_string(), category: Category::Comment },
        Token { lexeme: "\n".to_string(), category: Category::Whitespace },
        Token { lexeme: "/*\n multi-line comment\n*/".to_string(), category: Category::Comment },
        Token { lexeme: "\n".to_string(), category: Category::Whitespace },
        Token { lexeme: "function".to_string(), category: Category::Keyword },
        Token { lexeme: " ".to_string(), category: Category::Whitespace },
        Token { lexeme: "myFunction".to_string(), category: Category::Function },
        Token { lexeme: "(".to_string(), category: Category::Text },
        Token { lexeme: "arg".to_string(), category: Category::Identifier },
        Token { lexeme: ")".to_string(), category: Category::Text },
        Token { lexeme: " ".to_string(), category: Category::Whitespace },
        Token { lexeme: "{".to_string(), category: Category::Text },
        Token { lexeme: "\n  ".to_string(), category: Category::Whitespace },
        Token { lexeme: "if".to_string(), category: Category::Keyword },
        Token { lexeme: " ".to_string(), category: Category::Whitespace },
        Token { lexeme: "true".to_string(), category: Category::Boolean },
        Token { lexeme: " ".to_string(), category: Category::Whitespace },
        Token { lexeme: "{}".to_string(), category: Category::Text },
        Token { lexeme: " ".to_string(), category: Category::Whitespace },
        Token { lexeme: "else".to_string(), category: Category::Keyword },
        Token { lexeme: " ".to_string(), category: Category::Whitespace },
        Token { lexeme: "{".to_string(), category: Category::Text },
        Token { lexeme: " ".to_string(), category: Category::Whitespace },
        Token { lexeme: "return".to_string(), category: Category::Keyword },
        Token { lexeme: " ".to_string(), category: Category::Whitespace },
        Token { lexeme: "false".to_string(), category: Category::Boolean },
        Token { lexeme: " ".to_string(), category: Category::Whitespace },
        Token { lexeme: "}".to_string(), category: Category::Text },
        Token { lexeme: "\n".to_string(), category: Category::Whitespace },
        Token { lexeme: "}".to_string(), category: Category::Text },
        Token { lexeme: "\n".to_string(), category: Category::Whitespace },
    ];

    for (index, token) in tokens.iter().enumerate() {
        assert_eq!(*token, expected_tokens[index]);
    }
}

#[test]
fn javascript_it_identifies_integers_and_operators() {
    let data = "123 + 456";
    let tokens = lexers::javascript::lex(data);
    let expected_tokens = vec![
        Token { lexeme: "123".to_string(), category: Category::Integer },
        Token { lexeme: " ".to_string(), category: Category::Whitespace },
        Token { lexeme: "+".to_string(), category: Category::Operator },
        Token { lexeme: " ".to_string(), category: Category::Whitespace },
        Token { lexeme: "456".to_string(), category: Category::Integer },
    ];

    for (index, token) in tokens.iter().enumerate() {
        assert_eq!(*token, expected_tokens[index]);
    }
}

#[test]
fn rust_it_works() {
    let data = "extern crate luthor;\nuse luthor;\npub fn main() {\n    let mut variable = \"string\";\n    'loop_name: for value in collection {}\n}";
    let tokens = lexers::rust::lex(data);
    let expected_tokens = vec![
        Token { lexeme: "extern".to_string(), category: Category::Keyword },
        Token { lexeme: " ".to_string(), category: Category::Whitespace },
        Token { lexeme: "crate".to_string(), category: Category::Keyword },
        Token { lexeme: " ".to_string(), category: Category::Whitespace },
        Token { lexeme: "luthor".to_string(), category: Category::Identifier },
        Token { lexeme: ";".to_string(), category: Category::Text },
        Token { lexeme: "\n".to_string(), category: Category::Whitespace },
        Token { lexeme: "use".to_string(), category: Category::Keyword },
        Token { lexeme: " ".to_string(), category: Category::Whitespace },
        Token { lexeme: "luthor".to_string(), category: Category::Identifier },
        Token { lexeme: ";".to_string(), category: Category::Text },
        Token { lexeme: "\n".to_string(), category: Category::Whitespace },
        Token { lexeme: "pub".to_string(), category: Category::Keyword },
        Token { lexeme: " ".to_string(), category: Category::Whitespace },
        Token { lexeme: "fn".to_string(), category: Category::Keyword },
        Token { lexeme: " ".to_string(), category: Category::Whitespace },
        Token { lexeme: "main".to_string(), category: Category::Function },
        Token { lexeme: "(".to_string(), category: Category::Text },
        Token { lexeme: ")".to_string(), category: Category::Text },
        Token { lexeme: " ".to_string(), category: Category::Whitespace },
        Token { lexeme: "{".to_string(), category: Category::Text },
        Token { lexeme: "\n    ".to_string(), category: Category::Whitespace },
        Token { lexeme: "let".to_string(), category: Category::Keyword },
        Token { lexeme: " ".to_string(), category: Category::Whitespace },
        Token { lexeme: "mut".to_string(), category: Category::Keyword },
        Token { lexeme: " ".to_string(), category: Category::Whitespace },
        Token { lexeme: "variable".to_string(), category: Category::Identifier },
        Token { lexeme: " ".to_string(), category: Category::Whitespace },
        Token { lexeme: "=".to_string(), category: Category::Text },
        Token { lexeme: " ".to_string(), category: Category::Whitespace },
        Token { lexeme: "\"string\"".to_string(), category: Category::String },
        Token { lexeme: ";".to_string(), category: Category::Text },
        Token { lexeme: "\n    ".to_string(), category: Category::Whitespace },
        Token { lexeme: "'loop_name:".to_string(), category: Category::Identifier },
        Token { lexeme: " ".to_string(), category: Category::Whitespace },
        Token { lexeme: "for".to_string(), category: Category::Keyword },
        Token { lexeme: " ".to_string(), category: Category::Whitespace },
        Token { lexeme: "value".to_string(), category: Category::Identifier },
        Token { lexeme: " ".to_string(), category: Category::Whitespace },
        Token { lexeme: "in".to_string(), category: Category::Keyword },
        Token { lexeme: " ".to_string(), category: Category::Whitespace },
        Token { lexeme: "collection".to_string(), category: Category::Identifier },
        Token { lexeme: " ".to_string(), category: Category::Whitespace },
        Token { lexeme: "{}".to_string(), category: Category::Text },
        Token { lexeme: "\n".to_string(), category: Category::Whitespace },
        Token { lexeme: "}".to_string(), category: Category::Text },
    ];

    for (index, token) in tokens.iter().enumerate() {
        assert_eq!(*token, expected_tokens[index]);
    }
}
