use vstd::prelude::*;

use crate::document::{Document, ParseError};

verus! {

/// Whether scraper's `Selector::parse` accepts `sel` as a CSS selector group.
pub uninterp spec fn css_selector_ok(sel: Seq<char>) -> bool;

/// The concatenated text of the first element of the document parsed from
/// `html` that matches `sel`, as scraper computes it.
pub uninterp spec fn css_first_text(html: Seq<char>, sel: Seq<char>) -> Option<Seq<char>>;

/// The value of attribute `attr` on the first element of the document parsed
/// from `html` that matches `sel`, as scraper computes it.
pub uninterp spec fn css_first_attr(html: Seq<char>, sel: Seq<char>, attr: Seq<char>) -> Option<
    Seq<char>,
>;

/// The concatenated texts of all elements of the document parsed from `html`
/// that match `sel`, in document order, as scraper computes them.
pub uninterp spec fn css_all_texts(html: Seq<char>, sel: Seq<char>) -> Seq<Seq<char>>;

/// The values of attribute `attr` over all elements of the document parsed
/// from `html` that match `sel` and carry the attribute, in document order.
pub uninterp spec fn css_all_attrs(html: Seq<char>, sel: Seq<char>, attr: Seq<char>) -> Seq<
    Seq<char>,
>;

/// A document backed by real markup parsing and CSS selector evaluation,
/// holding the raw markup it was built from.
pub struct CssDocument {
    raw: String,
}

impl View for CssDocument {
    type V = Seq<char>;

    closed spec fn view(&self) -> Seq<char> {
        self.raw@
    }
}

impl CssDocument {
    /// Builds a document over the given raw markup.
    pub fn new(html: &str) -> (r: CssDocument)
        ensures
            r@ == html@,
    {
        CssDocument { raw: String::from_str(html) }
    }

    /// Relies on scraper's `Selector::parse`, `Html::parse_document`,
    /// `Html::select` and `ElementRef::text`: parsing and selecting are
    /// deterministic in the markup and selector texts, an error arises
    /// exactly when the selector is rejected, and the answer is the first
    /// matching element's concatenated text.
    #[verifier::external_body]
    fn query_first_text(&self, selector: &str) -> (r: Result<Option<String>, ParseError>)
        ensures
            r is Err <==> !css_selector_ok(selector@),
            r matches Ok(v) ==> v.deep_view() == css_first_text(self@, selector@),
    {
        let sel = match scraper::Selector::parse(selector) {
            Ok(s) => s,
            Err(e) => return Err(ParseError::new_str(format!("invalid selector: {e:?}"))),
        };
        let doc = scraper::Html::parse_document(&self.raw);
        match doc.select(&sel).next() {
            Some(el) => Ok(Some(el.text().collect())),
            None => Ok(None),
        }
    }

    /// Relies on scraper's `Selector::parse`, `Html::parse_document`,
    /// `Html::select` and `ElementRef::attr`: the answer is the named
    /// attribute of the first matching element, when both exist.
    #[verifier::external_body]
    fn query_first_attr(&self, selector: &str, prop: &str) -> (r: Result<
        Option<String>,
        ParseError,
    >)
        ensures
            r is Err <==> !css_selector_ok(selector@),
            r matches Ok(v) ==> v.deep_view() == css_first_attr(self@, selector@, prop@),
    {
        let sel = match scraper::Selector::parse(selector) {
            Ok(s) => s,
            Err(e) => return Err(ParseError::new_str(format!("invalid selector: {e:?}"))),
        };
        let doc = scraper::Html::parse_document(&self.raw);
        match doc.select(&sel).next() {
            Some(el) => Ok(el.attr(prop).map(String::from)),
            None => Ok(None),
        }
    }

    /// Relies on scraper's `Selector::parse`, `Html::parse_document`,
    /// `Html::select` and `ElementRef::text`: the answer lists every matching
    /// element's concatenated text in document order.
    #[verifier::external_body]
    fn query_all_texts(&self, selector: &str) -> (r: Result<Vec<String>, ParseError>)
        ensures
            r is Err <==> !css_selector_ok(selector@),
            r matches Ok(v) ==> v.deep_view() == css_all_texts(self@, selector@),
    {
        let sel = match scraper::Selector::parse(selector) {
            Ok(s) => s,
            Err(e) => return Err(ParseError::new_str(format!("invalid selector: {e:?}"))),
        };
        let doc = scraper::Html::parse_document(&self.raw);
        Ok(doc.select(&sel).map(|el| el.text().collect()).collect())
    }

    /// Relies on scraper's `Selector::parse`, `Html::parse_document`,
    /// `Html::select` and `ElementRef::attr`: the answer lists the named
    /// attribute of every matching element that carries it, in document
    /// order.
    #[verifier::external_body]
    fn query_all_attrs(&self, selector: &str, prop: &str) -> (r: Result<Vec<String>, ParseError>)
        ensures
            r is Err <==> !css_selector_ok(selector@),
            r matches Ok(v) ==> v.deep_view() == css_all_attrs(self@, selector@, prop@),
    {
        let sel = match scraper::Selector::parse(selector) {
            Ok(s) => s,
            Err(e) => return Err(ParseError::new_str(format!("invalid selector: {e:?}"))),
        };
        let doc = scraper::Html::parse_document(&self.raw);
        Ok(doc.select(&sel).filter_map(|el| el.attr(prop).map(String::from)).collect())
    }
}

impl Document for CssDocument {
    open spec fn spec_selector_ok(&self, sel: Seq<char>) -> bool {
        css_selector_ok(sel)
    }

    open spec fn spec_select(&self, sel: Seq<char>) -> Option<Seq<char>> {
        css_first_text(self@, sel)
    }

    open spec fn spec_select_prop(&self, sel: Seq<char>, prop: Seq<char>) -> Option<Seq<char>> {
        css_first_attr(self@, sel, prop)
    }

    open spec fn spec_select_all(&self, sel: Seq<char>) -> Option<Seq<Seq<char>>> {
        let a = css_all_texts(self@, sel);
        if a.len() == 0 {
            None
        } else {
            Some(a)
        }
    }

    open spec fn spec_select_all_prop(&self, sel: Seq<char>, prop: Seq<char>) -> Option<
        Seq<Seq<char>>,
    > {
        let a = css_all_attrs(self@, sel, prop);
        if a.len() == 0 {
            None
        } else {
            Some(a)
        }
    }

    fn select(&self, selector: &str) -> (r: Result<Option<String>, ParseError>)
    {
        self.query_first_text(selector)
    }

    fn select_prop(&self, selector: &str, prop: &str) -> (r: Result<Option<String>, ParseError>)
    {
        self.query_first_attr(selector, prop)
    }

    fn select_all(&self, selector: &str) -> (r: Result<Option<Vec<String>>, ParseError>)
    {
        match self.query_all_texts(selector) {
            Err(e) => Err(e),
            Ok(v) => {
                if v.len() == 0 {
                    Ok(None)
                } else {
                    Ok(Some(v))
                }
            },
        }
    }

    fn select_all_prop(&self, selector: &str, prop: &str) -> (r: Result<
        Option<Vec<String>>,
        ParseError,
    >)
    {
        match self.query_all_attrs(selector, prop) {
            Err(e) => Err(e),
            Ok(v) => {
                if v.len() == 0 {
                    Ok(None)
                } else {
                    Ok(Some(v))
                }
            },
        }
    }
}

} // verus!
