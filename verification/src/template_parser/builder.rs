use vstd::prelude::*;

use crate::document::css::CssDocument;
use crate::document::fixture::{FixtureDocument, NodeData};
use crate::document::{Document, ParseError};

verus! {

/// A document produced by a `DocBuilder`: either backed by real markup
/// parsing or by an in-memory fixture.
pub enum Doc<'a> {
    Css(CssDocument),
    Fixture(&'a FixtureDocument),
}

impl<'a> Document for Doc<'a> {
    open spec fn spec_selector_ok(&self, sel: Seq<char>) -> bool {
        match self {
            Doc::Css(d) => d.spec_selector_ok(sel),
            Doc::Fixture(f) => f.spec_selector_ok(sel),
        }
    }

    open spec fn spec_select(&self, sel: Seq<char>) -> Option<Seq<char>> {
        match self {
            Doc::Css(d) => d.spec_select(sel),
            Doc::Fixture(f) => f.spec_select(sel),
        }
    }

    open spec fn spec_select_prop(&self, sel: Seq<char>, prop: Seq<char>) -> Option<Seq<char>> {
        match self {
            Doc::Css(d) => d.spec_select_prop(sel, prop),
            Doc::Fixture(f) => f.spec_select_prop(sel, prop),
        }
    }

    open spec fn spec_select_all(&self, sel: Seq<char>) -> Option<Seq<Seq<char>>> {
        match self {
            Doc::Css(d) => d.spec_select_all(sel),
            Doc::Fixture(f) => f.spec_select_all(sel),
        }
    }

    open spec fn spec_select_all_prop(&self, sel: Seq<char>, prop: Seq<char>) -> Option<
        Seq<Seq<char>>,
    > {
        match self {
            Doc::Css(d) => d.spec_select_all_prop(sel, prop),
            Doc::Fixture(f) => f.spec_select_all_prop(sel, prop),
        }
    }

    fn select(&self, selector: &str) -> (r: Result<Option<String>, ParseError>)
    {
        match self {
            Doc::Css(d) => d.select(selector),
            Doc::Fixture(f) => f.select(selector),
        }
    }

    fn select_prop(&self, selector: &str, prop: &str) -> (r: Result<Option<String>, ParseError>)
    {
        match self {
            Doc::Css(d) => d.select_prop(selector, prop),
            Doc::Fixture(f) => f.select_prop(selector, prop),
        }
    }

    fn select_all(&self, selector: &str) -> (r: Result<Option<Vec<String>>, ParseError>)
    {
        match self {
            Doc::Css(d) => d.select_all(selector),
            Doc::Fixture(f) => f.select_all(selector),
        }
    }

    fn select_all_prop(&self, selector: &str, prop: &str) -> (r: Result<
        Option<Vec<String>>,
        ParseError,
    >)
    {
        match self {
            Doc::Css(d) => d.select_all_prop(selector, prop),
            Doc::Fixture(f) => f.select_all_prop(selector, prop),
        }
    }
}

/// Chooses, per render, which document implementation answers the template's
/// queries: real markup parsing over fetched content, or a fixture.
pub enum DocBuilder {
    Live,
    Fixture(FixtureDocument),
}

impl DocBuilder {
    /// A builder that parses fetched markup for real.
    pub fn new() -> (r: DocBuilder)
        ensures
            r is Live,
    {
        DocBuilder::Live
    }

    /// A builder that answers every query from the given fixture.
    pub fn from(fixture: FixtureDocument) -> (r: DocBuilder)
        ensures
            r matches DocBuilder::Fixture(f) && f == fixture,
    {
        DocBuilder::Fixture(fixture)
    }

    /// The fixture model when this builder is fixture-backed; for a live
    /// builder the value is arbitrary, and the contracts that mention it
    /// there do not depend on it.
    pub open spec fn fixture_model(&self) -> Seq<(Seq<char>, Seq<NodeData>)> {
        self->Fixture_0@
    }

    /// Builds the document a directive queries, from raw content in live
    /// mode; a fixture answers from its table and ignores the content.
    pub fn build_doc<'a>(&'a self, html: &str) -> (r: Doc<'a>)
        ensures
            match self {
                DocBuilder::Live => r matches Doc::Css(d) && d@ == html@,
                DocBuilder::Fixture(f) => r matches Doc::Fixture(g) && g == f,
            },
    {
        match self {
            DocBuilder::Live => Doc::Css(CssDocument::new(html)),
            DocBuilder::Fixture(f) => Doc::Fixture(f),
        }
    }
}

} // verus!
