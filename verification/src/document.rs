pub mod css;
pub mod fixture;

use vstd::prelude::*;

verus! {

/// An error raised by a document model, carrying a human-readable message.
#[derive(Debug, Clone)]
pub struct ParseError {
    error: String,
}

impl View for ParseError {
    type V = Seq<char>;

    closed spec fn view(&self) -> Seq<char> {
        self.error@
    }
}

impl ParseError {
    /// Builds an error from a message slice.
    pub fn new(error: &str) -> (r: ParseError)
        ensures
            r@ == error@,
    {
        ParseError { error: String::from_str(error) }
    }

    /// Builds an error from an owned message.
    pub fn new_str(error: String) -> (r: ParseError)
        ensures
            r@ == error@,
    {
        ParseError { error }
    }

    /// The error's message.
    pub fn message(&self) -> (r: &String)
        ensures
            r@ == self@,
    {
        &self.error
    }
}

/// A queryable document: the capability interface the template engine
/// consumes. Each implementation fixes, through the spec functions, which
/// selectors it accepts and what every query answers.
pub trait Document: Sized {
    /// Whether the document model accepts `sel` as a selector.
    spec fn spec_selector_ok(&self, sel: Seq<char>) -> bool;

    /// The text of the first element matching `sel`, if any.
    spec fn spec_select(&self, sel: Seq<char>) -> Option<Seq<char>>;

    /// The named attribute of the first element matching `sel`, if any.
    spec fn spec_select_prop(&self, sel: Seq<char>, prop: Seq<char>) -> Option<Seq<char>>;

    /// The texts of all elements matching `sel`, in document order.
    spec fn spec_select_all(&self, sel: Seq<char>) -> Option<Seq<Seq<char>>>;

    /// The named attribute of all elements matching `sel` that carry it, in
    /// document order.
    spec fn spec_select_all_prop(&self, sel: Seq<char>, prop: Seq<char>) -> Option<
        Seq<Seq<char>>,
    >;

    /// Single-value query for an element's text.
    fn select(&self, selector: &str) -> (r: Result<Option<String>, ParseError>)
        ensures
            r is Err <==> !self.spec_selector_ok(selector@),
            r matches Ok(v) ==> v.deep_view() == self.spec_select(selector@),
    ;

    /// Single-value query for an element's named attribute.
    fn select_prop(&self, selector: &str, prop: &str) -> (r: Result<Option<String>, ParseError>)
        ensures
            r is Err <==> !self.spec_selector_ok(selector@),
            r matches Ok(v) ==> v.deep_view() == self.spec_select_prop(selector@, prop@),
    ;

    /// Multi-value query for the matching elements' texts.
    fn select_all(&self, selector: &str) -> (r: Result<Option<Vec<String>>, ParseError>)
        ensures
            r is Err <==> !self.spec_selector_ok(selector@),
            r matches Ok(v) ==> v.deep_view() == self.spec_select_all(selector@),
    ;

    /// Multi-value query for the matching elements' named attribute.
    fn select_all_prop(&self, selector: &str, prop: &str) -> (r: Result<
        Option<Vec<String>>,
        ParseError,
    >)
        ensures
            r is Err <==> !self.spec_selector_ok(selector@),
            r matches Ok(v) ==> v.deep_view() == self.spec_select_all_prop(selector@, prop@),
    ;
}

} // verus!
