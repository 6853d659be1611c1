use dessert::document::fixture::{FixtureDocument, InternalNode};
use dessert::template_parser::builder::DocBuilder;
use dessert::template_parser::token::TokenParser;

#[test]
fn test_tokenize() {
    let tokens = TokenParser::tokenize("css selector='div.author  > p' default =\"N/A\"");
    assert_eq!(tokens, vec!["css", "selector", "=", "div.author  > p", "default", "=", "N/A"]);
}

#[test]
fn test_tokenized_value_by_key() {
    let tokens = TokenParser::tokenize("css selector='div.author  > p' default =\"N/A\"");
    assert_eq!(
        TokenParser::tokenized_value_by_key(&tokens, "selector").unwrap(),
        "div.author  > p"
    );
    assert_eq!(TokenParser::tokenized_value_by_key(&tokens, "default").unwrap(), "N/A");
    assert_eq!(TokenParser::tokenized_value_by_key(&tokens, "the-key-does-not-exist"), None);
}

#[test]
fn test_token_parser() {
    let mut mock_data = FixtureDocument::new();
    let author = InternalNode::new("James Ma");
    mock_data.insert("div.author", vec![author]);
    let doc_builder = DocBuilder::from(mock_data);
    let mut token_parser = TokenParser::new(
        "The author's name is {{css selector='div.author' doc='https://www.google.com'}}!",
    );
    let token = token_parser.next_node().unwrap().unwrap();
    let mut buff = String::new();
    token.evaluate(None, &doc_builder, &mut buff).unwrap();
    assert_eq!(buff, "The author's name is ");
    let token = token_parser.next_node().unwrap().unwrap();
    token.evaluate(None, &doc_builder, &mut buff).unwrap();
    assert_eq!(buff, "The author's name is James Ma");
    let token = token_parser.next_node().unwrap().unwrap();
    token.evaluate(None, &doc_builder, &mut buff).unwrap();
    assert_eq!(buff, "The author's name is James Ma!");
}

#[test]
fn test_tokenize_separator_variants() {
    let tokens = TokenParser::tokenize("loop selector>'div.x' var<'v'");
    assert_eq!(tokens, vec!["loop", "selector", "=", "div.x", "var", "=", "v"]);
}

#[test]
fn test_tokenize_empty_body() {
    let tokens = TokenParser::tokenize("   ");
    assert_eq!(tokens, Vec::<String>::new());
}
