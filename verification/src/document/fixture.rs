use vstd::prelude::*;

use crate::document::{Document, ParseError};
use crate::strutil::{assoc_lookup, pairs_view, str_eq};

verus! {

/// Model of one fixture element: its text and its attributes in insertion
/// order.
pub struct NodeData {
    pub text: Seq<char>,
    pub props: Seq<(Seq<char>, Seq<char>)>,
}

/// One element recorded in the fixture: a text and named attributes.
pub struct InternalNode {
    text: String,
    props: Vec<(String, String)>,
}

/// The models of a sequence of fixture elements.
pub open spec fn nodes_data_view(s: Seq<InternalNode>) -> Seq<NodeData> {
    s.map_values(|n: InternalNode| n@)
}

impl View for InternalNode {
    type V = NodeData;

    closed spec fn view(&self) -> NodeData {
        NodeData { text: self.text@, props: pairs_view(self.props@) }
    }
}

impl InternalNode {
    /// Builds an element with the given text and no attributes.
    pub fn new(text: &str) -> (r: InternalNode)
        ensures
            r@.text == text@,
            r@.props == Seq::<(Seq<char>, Seq<char>)>::empty(),
    {
        let r = InternalNode { text: String::from_str(text), props: Vec::new() };
        proof {
            assert(r@.props =~= Seq::<(Seq<char>, Seq<char>)>::empty());
        }
        r
    }

    /// Records an attribute value under the given name.
    pub fn set_prop(&mut self, prop_name: &str, prop_val: &str)
        ensures
            final(self)@.text == old(self)@.text,
            final(self)@.props == old(self)@.props.push((prop_name@, prop_val@)),
    {
        self.props.push((String::from_str(prop_name), String::from_str(prop_val)));
        proof {
            assert(self@.props =~= old(self)@.props.push((prop_name@, prop_val@)));
        }
    }

    /// The element's text.
    pub fn text(&self) -> (r: String)
        ensures
            r@ == self@.text,
    {
        self.text.clone()
    }

    /// The element's attribute of the given name, if it was recorded.
    pub fn prop(&self, prop_name: &str) -> (r: Option<String>)
        ensures
            match r {
                Some(v) => assoc_lookup(self@.props, prop_name@) == Some(v@),
                None => assoc_lookup(self@.props, prop_name@) is None,
            },
    {
        let mut j: usize = self.props.len();
        proof {
            assert(self@.props.take(j as int) =~= self@.props);
        }
        while j > 0
            invariant
                0 <= j <= self.props@.len(),
                self@.props.len() == self.props@.len(),
                assoc_lookup(self@.props, prop_name@) == assoc_lookup(
                    self@.props.take(j as int),
                    prop_name@,
                ),
            decreases j,
        {
            proof {
                assert(self@.props.take(j as int).last() == self@.props[j - 1]);
                assert(self@.props.take(j as int).drop_last() =~= self@.props.take(j - 1));
                assert(self@.props[j - 1] == (self.props@[j - 1].0@, self.props@[j - 1].1@));
            }
            if str_eq(self.props[j - 1].0.as_str(), prop_name) {
                let v = self.props[j - 1].1.clone();
                return Some(v);
            }
            j -= 1;
        }
        None
    }
}

/// The fixture entry for `sel`, taking the most recently inserted entry when
/// the selector was inserted more than once.
pub open spec fn fx_find(entries: Seq<(Seq<char>, Seq<NodeData>)>, sel: Seq<char>) -> Option<
    Seq<NodeData>,
>
    decreases entries.len(),
{
    if entries.len() == 0 {
        None
    } else if entries.last().0 == sel {
        Some(entries.last().1)
    } else {
        fx_find(entries.drop_last(), sel)
    }
}

/// The texts of the given fixture elements, in order.
pub open spec fn texts_of(nodes: Seq<NodeData>) -> Seq<Seq<char>> {
    nodes.map_values(|n: NodeData| n.text)
}

/// The values of the attribute named `prop` over the given fixture elements
/// that carry it, in order.
pub open spec fn props_of(nodes: Seq<NodeData>, prop: Seq<char>) -> Seq<Seq<char>>
    decreases nodes.len(),
{
    if nodes.len() == 0 {
        Seq::empty()
    } else {
        let rest = props_of(nodes.drop_last(), prop);
        match assoc_lookup(nodes.last().props, prop) {
            Some(v) => rest.push(v),
            None => rest,
        }
    }
}

/// What a single-value text query answers on the fixture model.
pub open spec fn fx_select(entries: Seq<(Seq<char>, Seq<NodeData>)>, sel: Seq<char>) -> Option<
    Seq<char>,
> {
    match fx_find(entries, sel) {
        None => None,
        Some(nodes) => if nodes.len() == 0 {
            None
        } else {
            Some(nodes[0].text)
        },
    }
}

/// What a single-value attribute query answers on the fixture model.
pub open spec fn fx_select_prop(
    entries: Seq<(Seq<char>, Seq<NodeData>)>,
    sel: Seq<char>,
    prop: Seq<char>,
) -> Option<Seq<char>> {
    match fx_find(entries, sel) {
        None => None,
        Some(nodes) => if nodes.len() == 0 {
            None
        } else {
            assoc_lookup(nodes[0].props, prop)
        },
    }
}

/// What a multi-value text query answers on the fixture model.
pub open spec fn fx_select_all(entries: Seq<(Seq<char>, Seq<NodeData>)>, sel: Seq<char>) -> Option<
    Seq<Seq<char>>,
> {
    match fx_find(entries, sel) {
        None => None,
        Some(nodes) => Some(texts_of(nodes)),
    }
}

/// What a multi-value attribute query answers on the fixture model.
pub open spec fn fx_select_all_prop(
    entries: Seq<(Seq<char>, Seq<NodeData>)>,
    sel: Seq<char>,
    prop: Seq<char>,
) -> Option<Seq<Seq<char>>> {
    match fx_find(entries, sel) {
        None => None,
        Some(nodes) => Some(props_of(nodes, prop)),
    }
}

/// A document that answers queries from an in-memory table keyed by selector
/// string, for deterministic rendering without network access.
pub struct FixtureDocument {
    entries: Vec<(String, Vec<InternalNode>)>,
}

impl View for FixtureDocument {
    type V = Seq<(Seq<char>, Seq<NodeData>)>;

    closed spec fn view(&self) -> Seq<(Seq<char>, Seq<NodeData>)> {
        self.entries@.map_values(
            |e: (String, Vec<InternalNode>)| (e.0@, nodes_data_view(e.1@)),
        )
    }
}

impl FixtureDocument {
    /// Builds an empty fixture.
    pub fn new() -> (r: FixtureDocument)
        ensures
            r@ == Seq::<(Seq<char>, Seq<NodeData>)>::empty(),
    {
        let r = FixtureDocument { entries: Vec::new() };
        proof {
            assert(r@ =~= Seq::<(Seq<char>, Seq<NodeData>)>::empty());
        }
        r
    }

    /// Records the elements answered for the given selector; a later entry
    /// for the same selector takes precedence over an earlier one.
    pub fn insert(&mut self, selector: &str, nodes: Vec<InternalNode>)
        ensures
            final(self)@ == old(self)@.push((selector@, nodes_data_view(nodes@))),
    {
        let ghost nv = nodes@;
        self.entries.push((String::from_str(selector), nodes));
        proof {
            assert(self@ =~= old(self)@.push((selector@, nodes_data_view(nv))));
        }
    }

    /// The recorded elements for `selector`, if any entry matches.
    fn find_entry<'a>(&'a self, selector: &str) -> (r: Option<&'a Vec<InternalNode>>)
        ensures
            match r {
                Some(v) => fx_find(self@, selector@) == Some(nodes_data_view(v@)),
                None => fx_find(self@, selector@) is None,
            },
    {
        let mut j: usize = self.entries.len();
        proof {
            assert(self@.take(j as int) =~= self@);
        }
        while j > 0
            invariant
                0 <= j <= self.entries@.len(),
                self@.len() == self.entries@.len(),
                fx_find(self@, selector@) == fx_find(self@.take(j as int), selector@),
            decreases j,
        {
            proof {
                assert(self@.take(j as int).last() == self@[j - 1]);
                assert(self@.take(j as int).drop_last() =~= self@.take(j - 1));
                assert(self@[j - 1] == (
                    self.entries@[j - 1].0@,
                    nodes_data_view(self.entries@[j - 1].1@),
                ));
            }
            if str_eq(self.entries[j - 1].0.as_str(), selector) {
                return Some(&self.entries[j - 1].1);
            }
            j -= 1;
        }
        None
    }
}

impl Document for FixtureDocument {
    open spec fn spec_selector_ok(&self, sel: Seq<char>) -> bool {
        true
    }

    open spec fn spec_select(&self, sel: Seq<char>) -> Option<Seq<char>> {
        fx_select(self@, sel)
    }

    open spec fn spec_select_prop(&self, sel: Seq<char>, prop: Seq<char>) -> Option<Seq<char>> {
        fx_select_prop(self@, sel, prop)
    }

    open spec fn spec_select_all(&self, sel: Seq<char>) -> Option<Seq<Seq<char>>> {
        fx_select_all(self@, sel)
    }

    open spec fn spec_select_all_prop(&self, sel: Seq<char>, prop: Seq<char>) -> Option<
        Seq<Seq<char>>,
    > {
        fx_select_all_prop(self@, sel, prop)
    }

    fn select(&self, selector: &str) -> (r: Result<Option<String>, ParseError>)
    {
        match self.find_entry(selector) {
            None => Ok(None),
            Some(nodes) => {
                if nodes.len() == 0 {
                    Ok(None)
                } else {
                    proof {
                        assert(nodes_data_view(nodes@)[0] == nodes@[0]@);
                    }
                    Ok(Some(nodes[0].text()))
                }
            },
        }
    }

    fn select_prop(&self, selector: &str, prop: &str) -> (r: Result<Option<String>, ParseError>)
    {
        match self.find_entry(selector) {
            None => Ok(None),
            Some(nodes) => {
                if nodes.len() == 0 {
                    Ok(None)
                } else {
                    proof {
                        assert(nodes_data_view(nodes@)[0] == nodes@[0]@);
                    }
                    Ok(nodes[0].prop(prop))
                }
            },
        }
    }

    fn select_all(&self, selector: &str) -> (r: Result<Option<Vec<String>>, ParseError>)
    {
        match self.find_entry(selector) {
            None => Ok(None),
            Some(nodes) => {
                let ghost nd = nodes_data_view(nodes@);
                let mut out: Vec<String> = Vec::new();
                let mut k: usize = 0;
                while k < nodes.len()
                    invariant
                        0 <= k <= nodes@.len(),
                        nd == nodes_data_view(nodes@),
                        nd.len() == nodes@.len(),
                        out.deep_view() == texts_of(nd.take(k as int)),
                    decreases nodes@.len() - k,
                {
                    proof {
                        assert(nd[k as int] == nodes@[k as int]@);
                    }
                    let t = nodes[k].text();
                    let ghost old_deep = out.deep_view();
                    out.push(t);
                    proof {
                        assert(out.deep_view() =~= old_deep.push(t@));
                        assert(texts_of(nd.take(k as int + 1)) =~= texts_of(nd.take(k as int)).push(
                            nd[k as int].text,
                        ));
                    }
                    k += 1;
                }
                proof {
                    assert(nd.take(nd.len() as int) =~= nd);
                }
                Ok(Some(out))
            },
        }
    }

    fn select_all_prop(&self, selector: &str, prop: &str) -> (r: Result<
        Option<Vec<String>>,
        ParseError,
    >)
    {
        match self.find_entry(selector) {
            None => Ok(None),
            Some(nodes) => {
                let ghost nd = nodes_data_view(nodes@);
                let mut out: Vec<String> = Vec::new();
                let mut k: usize = 0;
                while k < nodes.len()
                    invariant
                        0 <= k <= nodes@.len(),
                        nd == nodes_data_view(nodes@),
                        nd.len() == nodes@.len(),
                        out.deep_view() == props_of(nd.take(k as int), prop@),
                    decreases nodes@.len() - k,
                {
                    proof {
                        assert(nd[k as int] == nodes@[k as int]@);
                        assert(nd.take(k as int + 1).drop_last() =~= nd.take(k as int));
                        assert(nd.take(k as int + 1).last() == nd[k as int]);
                    }
                    match nodes[k].prop(prop) {
                        Some(v) => {
                            let ghost old_deep = out.deep_view();
                            out.push(v);
                            proof {
                                assert(out.deep_view() =~= old_deep.push(v@));
                                assert(out.deep_view() == props_of(nd.take(k as int + 1), prop@));
                            }
                        },
                        None => {
                            proof {
                                assert(out.deep_view() == props_of(nd.take(k as int + 1), prop@));
                            }
                        },
                    }
                    k += 1;
                }
                proof {
                    assert(nd.take(nd.len() as int) =~= nd);
                }
                Ok(Some(out))
            },
        }
    }
}

} // verus!
