use dessert::document::fixture::{FixtureDocument, InternalNode};
use dessert::template_parser::builder::DocBuilder;
use dessert::template_parser::{parse, TemplateError};

#[test]
fn test_parse() {
    let mut mock_data = FixtureDocument::new();
    let name_john = InternalNode::new("John");
    mock_data.insert("div.name", vec![name_john]);
    let doc_builder = DocBuilder::from(mock_data);
    assert_eq!(
        parse("Hello {{css selector='div.name' doc='https://mock'}}!", &doc_builder).unwrap(),
        "Hello John!"
    );
}

#[test]
fn test_css_property() {
    let mut mock_data = FixtureDocument::new();
    let mut url = InternalNode::new("");
    url.set_prop("href", "https://www.google.com");
    mock_data.insert("div.url", vec![url]);
    let doc_builder = DocBuilder::from(mock_data);
    let result = parse(
        "The author's home page is {{css selector='div.url' node-property='href' doc='https://mock'}}!",
        &doc_builder,
    )
    .unwrap();
    assert_eq!(result, "The author's home page is https://www.google.com!");
}

#[test]
fn test_css_default_value() {
    let mock_data = FixtureDocument::new();
    let doc_builder = DocBuilder::from(mock_data);
    let result = parse(
        "The author's home page is {{css selector='div.url' node-property='href' default='https://youtube.com' doc='https://mock'}}!",
        &doc_builder,
    )
    .unwrap();
    assert_eq!(result, "The author's home page is https://youtube.com!");
}

#[test]
fn test_loop() {
    let mut mock_data = FixtureDocument::new();
    let name_james = InternalNode::new("James Ma");
    let name_alex = InternalNode::new("Alex Wang");
    mock_data.insert("div.name", vec![name_james, name_alex]);
    let doc_builder = DocBuilder::from(mock_data);
    let result = parse(
        "The authors are: {{loop selector='div.name' var ='name' doc='https://mock'}}Mr. {{var name}} {{end}}",
        &doc_builder,
    )
    .unwrap();
    assert_eq!(result, "The authors are: Mr. James Ma Mr. Alex Wang ");
}

#[test]
fn test_doc_var() {
    let mut mock_data = FixtureDocument::new();
    let address_1 = InternalNode::new("https://mock1");
    let address_2 = InternalNode::new("https://mock2");
    mock_data.insert("div.url", vec![address_1, address_2]);
    let info1 = InternalNode::new("This is My Page");
    mock_data.insert("div.info", vec![info1]);
    let doc_builder = DocBuilder::from(mock_data);
    let result = parse(
        "The authors are: {{loop selector='div.url' var ='name' doc='https//mock'}}Info: {{css selector='div.info' doc-var='name'}} {{end}}",
        &doc_builder,
    )
    .unwrap();
    assert_eq!(result, "The authors are: Info: This is My Page Info: This is My Page ");
}

#[test]
fn test_empty_template() {
    let doc_builder = DocBuilder::from(FixtureDocument::new());
    assert_eq!(parse("", &doc_builder).unwrap(), "");
    assert_eq!(parse("just text", &doc_builder).unwrap(), "just text");
}

#[test]
fn test_loop_without_matches() {
    let doc_builder = DocBuilder::from(FixtureDocument::new());
    let result = parse(
        "Names: {{loop selector='div.name' var='name' doc='https://mock'}}{{var name}}{{end}}!",
        &doc_builder,
    )
    .unwrap();
    assert_eq!(result, "Names: !");
}

#[test]
fn test_doc_var_falls_back_to_doc() {
    let mut mock_data = FixtureDocument::new();
    mock_data.insert("div.url", vec![InternalNode::new("https://mock1")]);
    mock_data.insert("div.info", vec![InternalNode::new("Fallback Page")]);
    let doc_builder = DocBuilder::from(mock_data);
    let result = parse(
        "{{loop selector='div.url' var='name' doc='https://mock'}}{{css selector='div.info' doc-var='missing' doc='https://other'}}{{end}}",
        &doc_builder,
    )
    .unwrap();
    assert_eq!(result, "Fallback Page");
}

#[test]
fn test_render_idempotent() {
    let mut mock_data = FixtureDocument::new();
    mock_data.insert("div.name", vec![InternalNode::new("James Ma"), InternalNode::new("Alex Wang")]);
    let doc_builder = DocBuilder::from(mock_data);
    let template =
        "The authors are: {{loop selector='div.name' var='name' doc='https://mock'}}Mr. {{var name}} {{end}}";
    let first = parse(template, &doc_builder).unwrap();
    let second = parse(template, &doc_builder).unwrap();
    assert_eq!(first, second);
}

#[test]
fn test_malformed_template() {
    let doc_builder = DocBuilder::from(FixtureDocument::new());
    let result = parse("Hello {{css selector='div.name'", &doc_builder);
    assert!(matches!(result, Err(TemplateError::MalformedTemplate { open_at: 6 })));
}

#[test]
fn test_missing_required_key() {
    let doc_builder = DocBuilder::from(FixtureDocument::new());
    let result = parse("{{css doc='https://mock'}}", &doc_builder);
    match result {
        Err(TemplateError::MalformedDirective { missing_key, .. }) => {
            assert_eq!(missing_key, "selector");
        }
        other => panic!("expected a malformed-directive failure, got {:?}", other),
    }
    let result = parse("{{loop selector='div.a' doc='https://mock'}}{{end}}", &doc_builder);
    match result {
        Err(TemplateError::MalformedDirective { missing_key, .. }) => {
            assert_eq!(missing_key, "var");
        }
        other => panic!("expected a malformed-directive failure, got {:?}", other),
    }
}

#[test]
fn test_unknown_directive() {
    let doc_builder = DocBuilder::from(FixtureDocument::new());
    let result = parse("{{frob x='1'}}", &doc_builder);
    match result {
        Err(TemplateError::UnknownDirective { keyword }) => assert_eq!(keyword, "frob"),
        other => panic!("expected an unknown-directive failure, got {:?}", other),
    }
}

#[test]
fn test_excess_end_marker() {
    let doc_builder = DocBuilder::from(FixtureDocument::new());
    let result = parse("text {{end}}", &doc_builder);
    assert!(matches!(result, Err(TemplateError::UnbalancedEnd { unterminated: false })));
}

#[test]
fn test_unterminated_iteration() {
    let mut mock_data = FixtureDocument::new();
    mock_data.insert("div.name", vec![InternalNode::new("John")]);
    let doc_builder = DocBuilder::from(mock_data);
    let result = parse(
        "{{loop selector='div.name' var='name' doc='https://mock'}}body",
        &doc_builder,
    );
    assert!(matches!(result, Err(TemplateError::UnbalancedEnd { unterminated: true })));
}

#[test]
fn test_missing_document_source() {
    let doc_builder = DocBuilder::from(FixtureDocument::new());
    let result = parse("{{css selector='div.name'}}", &doc_builder);
    assert!(matches!(result, Err(TemplateError::MissingDocumentSource)));
}

#[test]
fn test_unbound_variable() {
    let doc_builder = DocBuilder::from(FixtureDocument::new());
    let result = parse("{{var name}}", &doc_builder);
    match result {
        Err(TemplateError::UnboundVariable { name }) => assert_eq!(name, "name"),
        other => panic!("expected an unbound-variable failure, got {:?}", other),
    }
}

#[test]
fn test_unresolved_lookup() {
    let doc_builder = DocBuilder::from(FixtureDocument::new());
    let result = parse("{{css selector='div.missing' doc='https://mock'}}", &doc_builder);
    match result {
        Err(TemplateError::UnresolvedLookup { selector }) => assert_eq!(selector, "div.missing"),
        other => panic!("expected an unresolved-lookup failure, got {:?}", other),
    }
}

#[test]
fn test_literal_only_live_builder() {
    let doc_builder = DocBuilder::new();
    assert_eq!(parse("just text, no directives", &doc_builder).unwrap(), "just text, no directives");
    assert_eq!(parse("", &doc_builder).unwrap(), "");
}

#[test]
fn test_unbound_variable_live_builder() {
    let doc_builder = DocBuilder::new();
    let result = parse("{{var name}}", &doc_builder);
    match result {
        Err(TemplateError::UnboundVariable { name }) => assert_eq!(name, "name"),
        other => panic!("expected an unbound-variable failure, got {:?}", other),
    }
}

#[test]
fn test_missing_source_live_builder() {
    let doc_builder = DocBuilder::new();
    let result = parse("{{css selector='div.name'}}", &doc_builder);
    assert!(matches!(result, Err(TemplateError::MissingDocumentSource)));
}

#[test]
fn test_error_message() {
    let doc_builder = DocBuilder::from(FixtureDocument::new());
    let err = parse("{{frob}}", &doc_builder).unwrap_err();
    assert_eq!(err.message(), "unknown directive keyword: frob");
}
