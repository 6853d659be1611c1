use dessert::document::css::CssDocument;
use dessert::document::Document;

const PAGE: &str = "<html><body>\
    <div class=\"author\">James Ma</div>\
    <a class=\"url\" href=\"https://example.org\">home</a>\
    <div class=\"author\">Alex Wang</div>\
    <a class=\"url\">no link</a>\
    </body></html>";

#[test]
fn test_css_document_select() {
    let doc = CssDocument::new(PAGE);
    assert_eq!(doc.select("div.author").unwrap(), Some(String::from("James Ma")));
    assert_eq!(doc.select("div.missing").unwrap(), None);
}

#[test]
fn test_css_document_select_prop() {
    let doc = CssDocument::new(PAGE);
    assert_eq!(
        doc.select_prop("a.url", "href").unwrap(),
        Some(String::from("https://example.org"))
    );
    assert_eq!(doc.select_prop("div.author", "href").unwrap(), None);
}

#[test]
fn test_css_document_select_all() {
    let doc = CssDocument::new(PAGE);
    assert_eq!(
        doc.select_all("div.author").unwrap(),
        Some(vec![String::from("James Ma"), String::from("Alex Wang")])
    );
    assert_eq!(doc.select_all("div.missing").unwrap(), None);
}

#[test]
fn test_css_document_select_all_prop() {
    let doc = CssDocument::new(PAGE);
    assert_eq!(
        doc.select_all_prop("a.url", "href").unwrap(),
        Some(vec![String::from("https://example.org")])
    );
    assert_eq!(doc.select_all_prop("div.missing", "href").unwrap(), None);
}

#[test]
fn test_css_document_bad_selector() {
    let doc = CssDocument::new(PAGE);
    assert!(doc.select("div..").is_err());
    assert!(doc.select_all("div..").is_err());
}
