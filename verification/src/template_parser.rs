pub mod builder;
pub mod token;

use vstd::prelude::*;

use self::builder::{Doc, DocBuilder};
use crate::document::css::css_selector_ok;
use self::token::{drafts_of, lemma_next_draft_advances, next_draft, TokenParser};
use crate::document::fixture::{fx_select, fx_select_all, fx_select_all_prop, fx_select_prop, NodeData};
use crate::document::Document;
use crate::fetch::fetch_url;
use crate::strutil::{assoc_lookup, lemma_concat_prefix, lemma_prefix_refl, lemma_prefix_trans, pairs_view};

verus! {

/// Model of a rendering or parsing failure, over character sequences.
pub enum ErrModel {
    /// A directive opener with no matching closer; carries the opener's position.
    MalformedTemplate { open_at: int },
    /// A directive that lacks a required key; carries the key and the directive body.
    MalformedDirective { missing_key: Seq<char>, directive: Seq<char> },
    /// A directive whose keyword is not one of the known directive kinds.
    UnknownDirective { keyword: Seq<char> },
    /// A closing directive with no open container (`unterminated` is false),
    /// or a container still open at the end of the template (`unterminated` is true).
    UnbalancedEnd { unterminated: bool },
    /// A selector the document model rejected.
    SelectorSyntax { selector: Seq<char> },
    /// A single-value lookup that found no match and had no default text.
    UnresolvedLookup { selector: Seq<char> },
    /// Neither a literal nor a variable-resolved document source was available.
    MissingDocumentSource,
    /// A variable reference outside any matching context.
    UnboundVariable { name: Seq<char> },
    /// The document at the attempted source could not be retrieved.
    FetchFailure { source: Seq<char> },
}

/// A rendering or parsing failure, surfaced as a typed result to the caller
/// of the parse and render entry points.
#[derive(Debug)]
pub enum TemplateError {
    MalformedTemplate { open_at: usize },
    MalformedDirective { missing_key: String, directive: String },
    UnknownDirective { keyword: String },
    UnbalancedEnd { unterminated: bool },
    SelectorSyntax { selector: String },
    UnresolvedLookup { selector: String },
    MissingDocumentSource,
    UnboundVariable { name: String },
    FetchFailure { source: String },
}

impl View for TemplateError {
    type V = ErrModel;

    open spec fn view(&self) -> ErrModel {
        match self {
            TemplateError::MalformedTemplate { open_at } => ErrModel::MalformedTemplate {
                open_at: *open_at as int,
            },
            TemplateError::MalformedDirective { missing_key, directive } => {
                ErrModel::MalformedDirective { missing_key: missing_key@, directive: directive@ }
            },
            TemplateError::UnknownDirective { keyword } => ErrModel::UnknownDirective {
                keyword: keyword@,
            },
            TemplateError::UnbalancedEnd { unterminated } => ErrModel::UnbalancedEnd {
                unterminated: *unterminated,
            },
            TemplateError::SelectorSyntax { selector } => ErrModel::SelectorSyntax {
                selector: selector@,
            },
            TemplateError::UnresolvedLookup { selector } => ErrModel::UnresolvedLookup {
                selector: selector@,
            },
            TemplateError::MissingDocumentSource => ErrModel::MissingDocumentSource,
            TemplateError::UnboundVariable { name } => ErrModel::UnboundVariable { name: name@ },
            TemplateError::FetchFailure { source } => ErrModel::FetchFailure { source: source@ },
        }
    }
}

/// What each failure's human-readable description says.
pub open spec fn err_message_spec(e: ErrModel) -> Seq<char> {
    match e {
        ErrModel::MalformedTemplate { .. } => "a directive opener has no matching closer"@,
        ErrModel::MalformedDirective { missing_key, directive } => "the directive '"@ + directive
            + "' lacks the required key '"@ + missing_key + "'"@,
        ErrModel::UnknownDirective { keyword } => "unknown directive keyword: "@ + keyword,
        ErrModel::UnbalancedEnd { unterminated } => if unterminated {
            "unterminated container"@
        } else {
            "an end directive has no open container to close"@
        },
        ErrModel::SelectorSyntax { selector } => "invalid selector: "@ + selector,
        ErrModel::UnresolvedLookup { selector } => "no match and no default for selector: "@
            + selector,
        ErrModel::MissingDocumentSource => "'doc' or 'doc-var' must give a document source"@,
        ErrModel::UnboundVariable { name } => "unbound variable: "@ + name,
        ErrModel::FetchFailure { source } => "failed to retrieve the document at: "@ + source,
    }
}

impl TemplateError {
    /// A human-readable description of the failure.
    pub fn message(&self) -> (r: String)
        ensures
            r@ == err_message_spec(self@),
    {
        match self {
            TemplateError::MalformedTemplate { .. } => String::from_str(
                "a directive opener has no matching closer",
            ),
            TemplateError::MalformedDirective { missing_key, directive } => String::from_str(
                "the directive '",
            ).concat(directive.as_str()).concat("' lacks the required key '").concat(
                missing_key.as_str(),
            ).concat("'"),
            TemplateError::UnknownDirective { keyword } => String::from_str(
                "unknown directive keyword: ",
            ).concat(keyword.as_str()),
            TemplateError::UnbalancedEnd { unterminated } => if *unterminated {
                String::from_str("unterminated container")
            } else {
                String::from_str("an end directive has no open container to close")
            },
            TemplateError::SelectorSyntax { selector } => String::from_str(
                "invalid selector: ",
            ).concat(selector.as_str()),
            TemplateError::UnresolvedLookup { selector } => String::from_str(
                "no match and no default for selector: ",
            ).concat(selector.as_str()),
            TemplateError::MissingDocumentSource => String::from_str(
                "'doc' or 'doc-var' must give a document source",
            ),
            TemplateError::UnboundVariable { name } => String::from_str(
                "unbound variable: ",
            ).concat(name.as_str()),
            TemplateError::FetchFailure { source } => String::from_str(
                "failed to retrieve the document at: ",
            ).concat(source.as_str()),
        }
    }
}

/// Model of a template node, over character sequences.
pub enum NodeModel {
    Literal { text: Seq<char> },
    Lookup {
        selector: Seq<char>,
        default_value: Option<Seq<char>>,
        node_property: Option<Seq<char>>,
        doc: Option<Seq<char>>,
        doc_var: Option<Seq<char>>,
        base_doc: Option<Seq<char>>,
    },
    Iteration {
        var_name: Seq<char>,
        selector: Seq<char>,
        node_property: Option<Seq<char>>,
        doc: Option<Seq<char>>,
        doc_var: Option<Seq<char>>,
        base_doc: Option<Seq<char>>,
        children: Seq<NodeModel>,
    },
    VariableRef { var_name: Seq<char> },
    EndMarker,
}

/// One node of a parsed template: literal text, a single-value lookup, an
/// iteration over repeated elements, a variable reference, or the marker that
/// closes the most recently opened iteration (never part of a final tree).
pub enum TemplateNode {
    Literal { text: String },
    Lookup {
        selector: String,
        default_value: Option<String>,
        node_property: Option<String>,
        doc: Option<String>,
        doc_var: Option<String>,
        base_doc: Option<String>,
    },
    Iteration {
        var_name: String,
        selector: String,
        node_property: Option<String>,
        doc: Option<String>,
        doc_var: Option<String>,
        base_doc: Option<String>,
        children: Vec<TemplateNode>,
    },
    VariableRef { var_name: String },
    EndMarker,
}

/// The model of one template node.
pub open spec fn node_view(n: TemplateNode) -> NodeModel
    decreases n, 0nat,
{
    match n {
        TemplateNode::Literal { text } => NodeModel::Literal { text: text@ },
        TemplateNode::Lookup {
            selector,
            default_value,
            node_property,
            doc,
            doc_var,
            base_doc,
        } => NodeModel::Lookup {
            selector: selector@,
            default_value: default_value.deep_view(),
            node_property: node_property.deep_view(),
            doc: doc.deep_view(),
            doc_var: doc_var.deep_view(),
            base_doc: base_doc.deep_view(),
        },
        TemplateNode::Iteration {
            var_name,
            selector,
            node_property,
            doc,
            doc_var,
            base_doc,
            children,
        } => NodeModel::Iteration {
            var_name: var_name@,
            selector: selector@,
            node_property: node_property.deep_view(),
            doc: doc.deep_view(),
            doc_var: doc_var.deep_view(),
            base_doc: base_doc.deep_view(),
            children: nodes_view(children@),
        },
        TemplateNode::VariableRef { var_name } => NodeModel::VariableRef { var_name: var_name@ },
        TemplateNode::EndMarker => NodeModel::EndMarker,
    }
}

/// The models of a sequence of template nodes, in order.
pub open spec fn nodes_view(s: Seq<TemplateNode>) -> Seq<NodeModel>
    decreases s, 1nat,
{
    if s.len() == 0 {
        Seq::empty()
    } else {
        nodes_view(s.drop_last()).push(node_view(s.last()))
    }
}

impl View for TemplateNode {
    type V = NodeModel;

    open spec fn view(&self) -> NodeModel {
        node_view(*self)
    }
}

/// The mapping of loop-bound variable names to values visible to the nodes
/// inside an iteration body; created fresh for each iteration step.
pub struct VarContext {
    entries: Vec<(String, String)>,
}

impl View for VarContext {
    type V = Seq<(Seq<char>, Seq<char>)>;

    closed spec fn view(&self) -> Seq<(Seq<char>, Seq<char>)> {
        pairs_view(self.entries@)
    }
}

impl VarContext {
    /// Builds an empty context.
    pub fn new() -> (r: VarContext)
        ensures
            r@ == Seq::<(Seq<char>, Seq<char>)>::empty(),
    {
        let r = VarContext { entries: Vec::new() };
        proof {
            assert(r@ =~= Seq::<(Seq<char>, Seq<char>)>::empty());
        }
        r
    }

    /// Binds a value under the given variable name; a later binding of the
    /// same name takes precedence over an earlier one.
    pub fn insert(&mut self, name: &str, value: &str)
        ensures
            final(self)@ == old(self)@.push((name@, value@)),
    {
        self.entries.push((String::from_str(name), String::from_str(value)));
        proof {
            assert(self@ =~= old(self)@.push((name@, value@)));
        }
    }

    /// The value bound to the given variable name, if any.
    pub fn get<'a>(&'a self, name: &str) -> (r: Option<&'a String>)
        ensures
            match r {
                Some(v) => assoc_lookup(self@, name@) == Some(v@),
                None => assoc_lookup(self@, name@) is None,
            },
    {
        let mut j: usize = self.entries.len();
        proof {
            assert(self@.take(j as int) =~= self@);
        }
        while j > 0
            invariant
                0 <= j <= self.entries@.len(),
                self@.len() == self.entries@.len(),
                assoc_lookup(self@, name@) == assoc_lookup(self@.take(j as int), name@),
            decreases j,
        {
            proof {
                assert(self@.take(j as int).last() == self@[j - 1]);
                assert(self@.take(j as int).drop_last() =~= self@.take(j - 1));
                assert(self@[j - 1] == (self.entries@[j - 1].0@, self.entries@[j - 1].1@));
            }
            if crate::strutil::str_eq(self.entries[j - 1].0.as_str(), name) {
                return Some(&self.entries[j - 1].1);
            }
            j -= 1;
        }
        None
    }
}

/// The model of an optional context reference.
pub open spec fn ctx_view(c: Option<&VarContext>) -> Option<Seq<(Seq<char>, Seq<char>)>> {
    match c {
        Some(v) => Some(v@),
        None => None,
    }
}

/// Whether a source string begins with the recognized absolute scheme prefix.
pub open spec fn starts_with_http(s: Seq<char>) -> bool {
    s.len() >= 4 && s[0] == 'h' && s[1] == 't' && s[2] == 't' && s[3] == 'p'
}

/// The document source a directive resolves to: a variable-resolved source
/// takes precedence, then the literal source field; a relative source is
/// prefixed with the configured base source.
pub open spec fn resolve_source_spec(
    ctx: Option<Seq<(Seq<char>, Seq<char>)>>,
    doc: Option<Seq<char>>,
    doc_var: Option<Seq<char>>,
    base_doc: Option<Seq<char>>,
) -> Result<Seq<char>, ErrModel> {
    let found = if doc_var is Some && ctx is Some {
        assoc_lookup(ctx->0, doc_var->0)
    } else {
        None
    };
    let src = if found is Some {
        found
    } else {
        doc
    };
    match src {
        None => Err(ErrModel::MissingDocumentSource),
        Some(u) => Ok(
            if !starts_with_http(u) && base_doc is Some {
                base_doc->0 + u
            } else {
                u
            },
        ),
    }
}

/// What evaluating template nodes against a fixture produces: the text
/// appended to the output, and the failure that stopped evaluation, if any.
#[verifier::ext_equal]
pub struct EvalOut {
    pub out: Seq<char>,
    pub err: Option<ErrModel>,
}

/// An evaluation that appended `s` and succeeded.
pub open spec fn eval_ok(s: Seq<char>) -> EvalOut {
    EvalOut { out: s, err: None }
}

/// An evaluation that appended nothing and failed with `e`.
pub open spec fn eval_fail(e: ErrModel) -> EvalOut {
    EvalOut { out: Seq::empty(), err: Some(e) }
}

/// Evaluation `a` followed by evaluation `b`: `b` contributes only when `a`
/// succeeded.
pub open spec fn eval_seq2(a: EvalOut, b: EvalOut) -> EvalOut {
    if a.err is Some {
        a
    } else {
        EvalOut { out: a.out + b.out, err: b.err }
    }
}

/// What a variable reference produces, whatever document backs the render:
/// the value bound under the name, else an unbound-variable failure with
/// nothing appended.
pub open spec fn var_step_spec(ctx: Option<Seq<(Seq<char>, Seq<char>)>>, name: Seq<char>) -> EvalOut {
    match ctx {
        None => eval_fail(ErrModel::UnboundVariable { name }),
        Some(c) => match assoc_lookup(c, name) {
            Some(v) => eval_ok(v),
            None => eval_fail(ErrModel::UnboundVariable { name }),
        },
    }
}

/// What a single-value lookup produces once its document is built, whichever
/// implementation backs it: a rejected selector fails with a selector-syntax
/// error; otherwise the found value is appended, else the default, else the
/// lookup fails as unresolved with nothing appended.
pub open spec fn lookup_step_spec<'a>(
    docm: Doc<'a>,
    selector: Seq<char>,
    node_property: Option<Seq<char>>,
    default_value: Option<Seq<char>>,
) -> EvalOut {
    if !docm.spec_selector_ok(selector) {
        eval_fail(ErrModel::SelectorSyntax { selector })
    } else {
        let found = match node_property {
            Some(p) => docm.spec_select_prop(selector, p),
            None => docm.spec_select(selector),
        };
        match found {
            Some(v) => eval_ok(v),
            None => match default_value {
                Some(d) => eval_ok(d),
                None => eval_fail(ErrModel::UnresolvedLookup { selector }),
            },
        }
    }
}

/// The match values an iteration ranges over once its document is built,
/// whichever implementation backs it; a rejected selector fails with a
/// selector-syntax error.
pub open spec fn iteration_query_spec<'a>(
    docm: Doc<'a>,
    selector: Seq<char>,
    node_property: Option<Seq<char>>,
) -> Result<Option<Seq<Seq<char>>>, ErrModel> {
    if !docm.spec_selector_ok(selector) {
        Err(ErrModel::SelectorSyntax { selector })
    } else {
        Ok(
            match node_property {
                Some(p) => docm.spec_select_all_prop(selector, p),
                None => docm.spec_select_all(selector),
            },
        )
    }
}

/// What one template node produces when evaluated in context `ctx` against
/// the fixture model `fx`.
pub open spec fn eval_node_spec(
    n: NodeModel,
    ctx: Option<Seq<(Seq<char>, Seq<char>)>>,
    fx: Seq<(Seq<char>, Seq<NodeData>)>,
) -> EvalOut
    decreases n, 0nat, 0nat,
{
    match n {
        NodeModel::Literal { text } => eval_ok(text),
        NodeModel::EndMarker => eval_ok(Seq::empty()),
        NodeModel::VariableRef { var_name } => var_step_spec(ctx, var_name),
        NodeModel::Lookup { selector, default_value, node_property, doc, doc_var, base_doc } => {
            match resolve_source_spec(ctx, doc, doc_var, base_doc) {
                Err(e) => eval_fail(e),
                Ok(_src) => {
                    let found = match node_property {
                        Some(p) => fx_select_prop(fx, selector, p),
                        None => fx_select(fx, selector),
                    };
                    match found {
                        Some(v) => eval_ok(v),
                        None => match default_value {
                            Some(d) => eval_ok(d),
                            None => eval_fail(ErrModel::UnresolvedLookup { selector }),
                        },
                    }
                },
            }
        },
        NodeModel::Iteration {
            var_name,
            selector,
            node_property,
            doc,
            doc_var,
            base_doc,
            children,
        } => {
            match resolve_source_spec(ctx, doc, doc_var, base_doc) {
                Err(e) => eval_fail(e),
                Ok(_src) => {
                    let found = match node_property {
                        Some(p) => fx_select_all_prop(fx, selector, p),
                        None => fx_select_all(fx, selector),
                    };
                    match found {
                        None => eval_ok(Seq::empty()),
                        Some(values) => eval_iters_spec(children, var_name, values, 0, fx),
                    }
                },
            }
        },
    }
}

/// What the nodes `nodes[i..]` produce, evaluated in order in context `ctx`.
pub open spec fn eval_nodes_spec(
    nodes: Seq<NodeModel>,
    i: int,
    ctx: Option<Seq<(Seq<char>, Seq<char>)>>,
    fx: Seq<(Seq<char>, Seq<NodeData>)>,
) -> EvalOut
    decreases nodes, 1nat, nodes.len() - i,
{
    if i < 0 || i >= nodes.len() {
        eval_ok(Seq::empty())
    } else {
        eval_seq2(eval_node_spec(nodes[i], ctx, fx), eval_nodes_spec(nodes, i + 1, ctx, fx))
    }
}

/// What an iteration body produces over the match values `values[i..]`: each
/// value is bound in a fresh single-entry context that replaces whatever
/// context was active at the iteration itself, and the body is evaluated once
/// per value.
pub open spec fn eval_iters_spec(
    children: Seq<NodeModel>,
    var_name: Seq<char>,
    values: Seq<Seq<char>>,
    i: int,
    fx: Seq<(Seq<char>, Seq<NodeData>)>,
) -> EvalOut
    decreases children, 2nat, values.len() - i,
{
    if i < 0 || i >= values.len() {
        eval_ok(Seq::empty())
    } else {
        let step_ctx = Seq::<(Seq<char>, Seq<char>)>::empty().push((var_name, values[i]));
        eval_seq2(
            eval_nodes_spec(children, 0, Some(step_ctx), fx),
            eval_iters_spec(children, var_name, values, i + 1, fx),
        )
    }
}

/// Sequencing evaluations is associative.
pub proof fn lemma_eval_seq2_assoc(a: EvalOut, b: EvalOut, c: EvalOut)
    ensures
        eval_seq2(eval_seq2(a, b), c) == eval_seq2(a, eval_seq2(b, c)),
{
    if a.err is None && b.err is None {
        assert(eval_seq2(eval_seq2(a, b), c) =~= eval_seq2(a, eval_seq2(b, c)));
    }
}

/// The length of a node sequence's model.
pub proof fn lemma_nodes_view_len(s: Seq<TemplateNode>)
    ensures
        nodes_view(s).len() == s.len(),
    decreases s.len(),
{
    if s.len() > 0 {
        lemma_nodes_view_len(s.drop_last());
    }
}

/// The model of a node sequence is the pointwise model of its nodes.
pub proof fn lemma_nodes_view_index(s: Seq<TemplateNode>, i: int)
    requires
        0 <= i < s.len(),
    ensures
        nodes_view(s).len() == s.len(),
        nodes_view(s)[i] == node_view(s[i]),
    decreases s.len(),
{
    lemma_nodes_view_len(s);
    if i < s.len() - 1 {
        lemma_nodes_view_index(s.drop_last(), i);
        assert(s.drop_last()[i] == s[i]);
    }
}

/// An iteration node with one more child, all other fields unchanged.
pub open spec fn iteration_with_child(m: NodeModel, c: NodeModel) -> NodeModel
    recommends
        m is Iteration,
{
    NodeModel::Iteration {
        var_name: m->Iteration_var_name,
        selector: m->Iteration_selector,
        node_property: m->Iteration_node_property,
        doc: m->Iteration_doc,
        doc_var: m->Iteration_doc_var,
        base_doc: m->Iteration_base_doc,
        children: m->Iteration_children.push(c),
    }
}

impl TemplateNode {
    /// Whether this node opens a container scope that a later end directive
    /// must close.
    pub fn is_container(&self) -> (r: bool)
        ensures
            r == (self@ is Iteration),
    {
        match self {
            TemplateNode::Iteration { .. } => true,
            _ => false,
        }
    }

    /// Whether this node closes the most recently opened container.
    pub fn is_end(&self) -> (r: bool)
        ensures
            r == (self@ is EndMarker),
    {
        match self {
            TemplateNode::EndMarker => true,
            _ => false,
        }
    }

    /// Appends a child to an iteration node; any other node takes no
    /// children.
    pub fn add_child(&mut self, node: TemplateNode) -> (r: Result<(), crate::document::ParseError>)
        ensures
            old(self)@ is Iteration ==> r is Ok && final(self)@ == iteration_with_child(
                old(self)@,
                node@,
            ),
            !(old(self)@ is Iteration) ==> r is Err && *final(self) == *old(self),
    {
        let ghost nv = node@;
        match self {
            TemplateNode::Iteration { children, .. } => {
                let ghost c0 = children@;
                children.push(node);
                proof {
                    assert(children@.drop_last() =~= c0);
                    assert(nodes_view(children@) == nodes_view(c0).push(nv));
                }
                Ok(())
            },
            _ => Err(crate::document::ParseError::new("only an iteration node takes children")),
        }
    }
}

/// Reports whether a source string begins with the recognized absolute
/// scheme prefix.
fn has_http_prefix(s: &String) -> (r: bool)
    ensures
        r == starts_with_http(s@),
{
    let t = s.as_str();
    if t.unicode_len() < 4 {
        return false;
    }
    t.get_char(0) == 'h' && t.get_char(1) == 't' && t.get_char(2) == 't' && t.get_char(3) == 'p'
}

/// Resolves the document source a directive queries, preferring a
/// variable-resolved source, then the literal source field, and prefixing a
/// relative source with the configured base source.
fn resolve_source(
    context: Option<&VarContext>,
    doc: &Option<String>,
    doc_var: &Option<String>,
    base_doc: &Option<String>,
) -> (r: Result<String, TemplateError>)
    ensures
        match resolve_source_spec(
            ctx_view(context),
            doc.deep_view(),
            doc_var.deep_view(),
            base_doc.deep_view(),
        ) {
            Ok(s) => r matches Ok(v) && v@ == s,
            Err(e) => r matches Err(x) && x@ == e,
        },
{
    let mut found: Option<String> = None;
    match doc_var {
        Some(dv) => match context {
            Some(c) => match c.get(dv.as_str()) {
                Some(v) => {
                    found = Some(v.clone());
                },
                None => {},
            },
            None => {},
        },
        None => {},
    }
    let src: String = match found {
        Some(v) => v,
        None => match doc {
            Some(d) => d.clone(),
            None => {
                return Err(TemplateError::MissingDocumentSource);
            },
        },
    };
    if !has_http_prefix(&src) {
        match base_doc {
            Some(b) => {
                let joined = b.clone().concat(src.as_str());
                return Ok(joined);
            },
            None => {},
        }
    }
    Ok(src)
}

/// The model of a node sequence grows pointwise under push.
pub proof fn lemma_nodes_view_push(s: Seq<TemplateNode>, x: TemplateNode)
    ensures
        nodes_view(s.push(x)) == nodes_view(s).push(node_view(x)),
{
    assert(s.push(x).drop_last() =~= s);
}

/// Dropping the last node drops the last model.
pub proof fn lemma_nodes_view_drop_last(s: Seq<TemplateNode>)
    requires
        s.len() > 0,
    ensures
        nodes_view(s).len() == s.len(),
        nodes_view(s.drop_last()) == nodes_view(s).drop_last(),
        nodes_view(s).last() == node_view(s.last()),
    decreases s.len(),
{
    lemma_nodes_view_len(s);
    assert(nodes_view(s) == nodes_view(s.drop_last()).push(node_view(s.last())));
    assert(nodes_view(s.drop_last()).push(node_view(s.last())).drop_last() =~= nodes_view(
        s.drop_last(),
    ));
}

/// The tree the node builder produces from the drafts the scanner yields
/// starting at `cursor`, given the iterations already open (`stack`, deepest
/// first) and the root nodes already finished (`root`): an iteration draft is
/// pushed open; an end draft closes the most recently opened iteration,
/// attaching it to the enclosing iteration or, at the top level, to the root;
/// any other draft is attached to the innermost open iteration or to the
/// root. An end draft with nothing open, or an iteration still open at the
/// end of the text, is a balance failure.
pub open spec fn parse_loop_spec(
    s: Seq<char>,
    cursor: int,
    stack: Seq<NodeModel>,
    root: Seq<NodeModel>,
) -> Result<Seq<NodeModel>, ErrModel>
    decreases s.len() - cursor,
    via parse_loop_spec_decreases
{
    match next_draft(s, cursor) {
        Err(e) => Err(e),
        Ok(None) => if stack.len() == 0 {
            Ok(root)
        } else {
            Err(ErrModel::UnbalancedEnd { unterminated: true })
        },
        Ok(Some((d, c1))) => {
            if d is Iteration {
                parse_loop_spec(s, c1, stack.push(d), root)
            } else if d is EndMarker {
                if stack.len() == 0 {
                    Err(ErrModel::UnbalancedEnd { unterminated: false })
                } else {
                    let top = stack.last();
                    let rest = stack.drop_last();
                    if rest.len() == 0 {
                        parse_loop_spec(s, c1, rest, root.push(top))
                    } else {
                        parse_loop_spec(
                            s,
                            c1,
                            rest.drop_last().push(iteration_with_child(rest.last(), top)),
                            root,
                        )
                    }
                }
            } else {
                if stack.len() == 0 {
                    parse_loop_spec(s, c1, stack, root.push(d))
                } else {
                    parse_loop_spec(
                        s,
                        c1,
                        stack.drop_last().push(iteration_with_child(stack.last(), d)),
                        root,
                    )
                }
            }
        },
    }
}

#[via_fn]
proof fn parse_loop_spec_decreases(s: Seq<char>, cursor: int, stack: Seq<NodeModel>, root: Seq<NodeModel>) {
    if next_draft(s, cursor) matches Ok(Some(_)) {
        lemma_next_draft_advances(s, cursor);
    }
}

/// The root node sequence a template parses to.
pub open spec fn template_spec(s: Seq<char>) -> Result<Seq<NodeModel>, ErrModel> {
    parse_loop_spec(s, 0, Seq::empty(), Seq::empty())
}

/// Parses the template text into its root node sequence, matching each
/// opening iteration directive with its closing directive over an explicit
/// stack of open containers.
pub fn parse_template(template: &str) -> (r: Result<Vec<TemplateNode>, TemplateError>)
    ensures
        match template_spec(template@) {
            Ok(nodes) => r matches Ok(v) && nodes_view(v@) == nodes,
            Err(e) => r matches Err(x) && x@ == e,
        },
{
    let ghost t = template@;
    let mut token_parser = TokenParser::new(template);
    let mut temp: Vec<TemplateNode> = Vec::new();
    let mut last_containers: Vec<TemplateNode> = Vec::new();
    proof {
        assert(nodes_view(temp@) =~= Seq::<NodeModel>::empty());
        assert(nodes_view(last_containers@) =~= Seq::<NodeModel>::empty());
    }
    loop
        invariant
            token_parser.template@ == t,
            t == template@,
            token_parser.cursor as int <= t.len(),
            forall|k: int|
                0 <= k < last_containers@.len() ==> #[trigger] node_view(
                    last_containers@[k],
                ) is Iteration,
            template_spec(t) == parse_loop_spec(
                t,
                token_parser.cursor as int,
                nodes_view(last_containers@),
                nodes_view(temp@),
            ),
        decreases t.len() - token_parser.cursor,
    {
        let ghost c0 = token_parser.cursor as int;
        let step = token_parser.next_node();
        proof {
            if next_draft(t, c0) matches Ok(Some(_)) {
                lemma_next_draft_advances(t, c0);
            }
            lemma_nodes_view_len(last_containers@);
        }
        match step {
            Err(e) => {
                return Err(e);
            },
            Ok(None) => {
                if last_containers.len() > 0 {
                    return Err(TemplateError::UnbalancedEnd { unterminated: true });
                }
                return Ok(temp);
            },
            Ok(Some(token)) => {
                if token.is_container() {
                    let ghost lc0 = last_containers@;
                    let ghost tokg = token;
                    last_containers.push(token);
                    proof {
                        lemma_nodes_view_push(lc0, tokg);
                        assert forall|k: int| 0 <= k < last_containers@.len() implies
                            #[trigger] node_view(last_containers@[k]) is Iteration by {
                            if k < lc0.len() {
                                assert(last_containers@[k] == lc0[k]);
                            } else {
                                assert(last_containers@[k] == tokg);
                            }
                        }
                    }
                } else if token.is_end() {
                    match last_containers.pop() {
                        None => {
                            return Err(TemplateError::UnbalancedEnd { unterminated: false });
                        },
                        Some(container) => {
                            let ghost lc0 = last_containers@.push(container);
                            proof {
                                assert(lc0 =~= lc0.drop_last().push(container));
                                assert(last_containers@ =~= lc0.drop_last());
                                lemma_nodes_view_drop_last(lc0);
                            }
                            if last_containers.len() == 0 {
                                let ghost tv0 = temp@;
                                let ghost cg = container;
                                temp.push(container);
                                proof {
                                    lemma_nodes_view_push(tv0, cg);
                                }
                            } else {
                                let ghost lc1 = last_containers@;
                                let mut top = last_containers.pop().unwrap();
                                proof {
                                    assert(node_view(lc1[lc1.len() - 1]) is Iteration);
                                }
                                let _res = top.add_child(container);
                                let ghost topg = top;
                                last_containers.push(top);
                                proof {
                                    assert(lc1.drop_last() =~= last_containers@.drop_last());
                                    lemma_nodes_view_drop_last(lc1);
                                    lemma_nodes_view_push(lc1.drop_last(), topg);
                                    assert forall|k: int| 0 <= k < last_containers@.len() implies
                                        #[trigger] node_view(last_containers@[k]) is Iteration by {
                                        if k < lc1.len() - 1 {
                                            assert(last_containers@[k] == lc1[k]);
                                        } else {
                                            assert(last_containers@[k] == topg);
                                        }
                                    }
                                }
                            }
                        },
                    }
                } else {
                    if last_containers.len() == 0 {
                        let ghost tv0 = temp@;
                        let ghost tokg = token;
                        temp.push(token);
                        proof {
                            lemma_nodes_view_push(tv0, tokg);
                        }
                    } else {
                        let ghost lc1 = last_containers@;
                        let mut top = last_containers.pop().unwrap();
                        proof {
                            assert(node_view(lc1[lc1.len() - 1]) is Iteration);
                        }
                        let _res = top.add_child(token);
                        let ghost topg = top;
                        last_containers.push(top);
                        proof {
                            assert(lc1.drop_last() =~= last_containers@.drop_last());
                            lemma_nodes_view_drop_last(lc1);
                            lemma_nodes_view_push(lc1.drop_last(), topg);
                            assert forall|k: int| 0 <= k < last_containers@.len() implies
                                #[trigger] node_view(last_containers@[k]) is Iteration by {
                                if k < lc1.len() - 1 {
                                    assert(last_containers@[k] == lc1[k]);
                                } else {
                                    assert(last_containers@[k] == topg);
                                }
                            }
                        }
                    }
                }
            },
        }
    }
}

/// The number of iteration drafts in a draft node sequence.
pub open spec fn count_iterations(drafts: Seq<NodeModel>) -> nat
    decreases drafts.len(),
{
    if drafts.len() == 0 {
        0
    } else {
        (if drafts[0] is Iteration {
            1nat
        } else {
            0nat
        }) + count_iterations(drafts.drop_first())
    }
}

/// The number of end-marker drafts in a draft node sequence.
pub open spec fn count_ends(drafts: Seq<NodeModel>) -> nat
    decreases drafts.len(),
{
    if drafts.len() == 0 {
        0
    } else {
        (if drafts[0] is EndMarker {
            1nat
        } else {
            0nat
        }) + count_ends(drafts.drop_first())
    }
}

proof fn lemma_parse_loop_balanced(
    s: Seq<char>,
    cursor: int,
    stack: Seq<NodeModel>,
    root: Seq<NodeModel>,
)
    requires
        parse_loop_spec(s, cursor, stack, root) is Ok,
    ensures
        drafts_of(s, cursor) matches Ok(d) && count_iterations(d) + stack.len() == count_ends(d),
    decreases s.len() - cursor,
{
    match next_draft(s, cursor) {
        Err(_) => {},
        Ok(None) => {},
        Ok(Some((d, c1))) => {
            lemma_next_draft_advances(s, cursor);
            let tail = if d is Iteration {
                stack.push(d)
            } else if d is EndMarker {
                let top = stack.last();
                let rest = stack.drop_last();
                if rest.len() == 0 {
                    rest
                } else {
                    rest.drop_last().push(iteration_with_child(rest.last(), top))
                }
            } else {
                if stack.len() == 0 {
                    stack
                } else {
                    stack.drop_last().push(iteration_with_child(stack.last(), d))
                }
            };
            let tail_root = if d is EndMarker && stack.len() == 1 {
                root.push(stack.last())
            } else if !(d is Iteration) && !(d is EndMarker) && stack.len() == 0 {
                root.push(d)
            } else {
                root
            };
            lemma_parse_loop_balanced(s, c1, tail, tail_root);
            let d1 = drafts_of(s, c1)->Ok_0;
            assert((seq![d] + d1)[0] == d);
            assert((seq![d] + d1).drop_first() =~= d1);
        },
    }
}

/// For any template that parses successfully, the number of iteration
/// directives consumed equals the number of end directives consumed, and the
/// open-container stack finishes empty; an excess end directive or an
/// unterminated iteration fails the parse instead.
pub proof fn lemma_parse_balanced(t: Seq<char>)
    requires
        template_spec(t) is Ok,
    ensures
        drafts_of(t, 0) matches Ok(d) && count_iterations(d) == count_ends(d),
{
    lemma_parse_loop_balanced(t, 0, Seq::empty(), Seq::empty());
}

proof fn lemma_parse_loop_prefix(
    s: Seq<char>,
    cursor: int,
    stack: Seq<NodeModel>,
    root: Seq<NodeModel>,
)
    requires
        parse_loop_spec(s, cursor, stack, root) is Ok,
    ensures
        drafts_of(s, cursor) matches Ok(d) && forall|k: int|
            0 <= k <= d.len() ==> count_iterations(#[trigger] d.take(k)) + stack.len()
                >= count_ends(d.take(k)),
    decreases s.len() - cursor,
{
    match next_draft(s, cursor) {
        Err(_) => {},
        Ok(None) => {
            let d = drafts_of(s, cursor)->Ok_0;
            assert forall|k: int|
                0 <= k <= d.len() implies count_iterations(#[trigger] d.take(k)) + stack.len()
                >= count_ends(d.take(k)) by {
                assert(d.take(k) =~= Seq::<NodeModel>::empty());
            }
        },
        Ok(Some((d0, c1))) => {
            lemma_next_draft_advances(s, cursor);
            let tail_stack = if d0 is Iteration {
                stack.push(d0)
            } else if d0 is EndMarker {
                let top = stack.last();
                let rest = stack.drop_last();
                if rest.len() == 0 {
                    rest
                } else {
                    rest.drop_last().push(iteration_with_child(rest.last(), top))
                }
            } else {
                if stack.len() == 0 {
                    stack
                } else {
                    stack.drop_last().push(iteration_with_child(stack.last(), d0))
                }
            };
            let tail_root = if d0 is EndMarker && stack.len() == 1 {
                root.push(stack.last())
            } else if !(d0 is Iteration) && !(d0 is EndMarker) && stack.len() == 0 {
                root.push(d0)
            } else {
                root
            };
            lemma_parse_loop_prefix(s, c1, tail_stack, tail_root);
            let d1 = drafts_of(s, c1)->Ok_0;
            let d = drafts_of(s, cursor)->Ok_0;
            assert forall|k: int|
                0 <= k <= d.len() implies count_iterations(#[trigger] d.take(k)) + stack.len()
                >= count_ends(d.take(k)) by {
                if k == 0 {
                    assert(d.take(0) =~= Seq::<NodeModel>::empty());
                } else {
                    assert(d.take(k)[0] == d0);
                    assert(d.take(k).drop_first() =~= d1.take(k - 1));
                    assert(count_iterations(d1.take(k - 1)) + tail_stack.len() >= count_ends(
                        d1.take(k - 1),
                    ));
                }
            }
        },
    }
}

/// A closing directive can never outnumber the iterations opened before it:
/// on any template that parses successfully, every prefix of the scanner's
/// draft stream holds at least as many iteration directives as end
/// directives.
pub proof fn lemma_parse_prefix_balanced(t: Seq<char>)
    requires
        template_spec(t) is Ok,
    ensures
        drafts_of(t, 0) matches Ok(d) && forall|k: int|
            0 <= k <= d.len() ==> count_iterations(#[trigger] d.take(k)) >= count_ends(d.take(k)),
{
    lemma_parse_loop_prefix(t, 0, Seq::empty(), Seq::empty());
}

/// An excess end directive fails the parse: a template whose draft stream has
/// a prefix with more end directives than iteration directives does not parse.
pub proof fn lemma_excess_end_fails(t: Seq<char>, k: int)
    requires
        drafts_of(t, 0) matches Ok(d) && 0 <= k <= d.len() && count_ends(d.take(k))
            > count_iterations(d.take(k)),
    ensures
        template_spec(t) is Err,
{
    if template_spec(t) is Ok {
        lemma_parse_prefix_balanced(t);
    }
}

/// An unterminated iteration fails the parse rather than being dropped: a
/// template whose draft stream holds unequal numbers of iteration and end
/// directives does not parse.
pub proof fn lemma_unbalanced_template_fails(t: Seq<char>)
    requires
        drafts_of(t, 0) matches Ok(d) && count_iterations(d) != count_ends(d),
    ensures
        template_spec(t) is Err,
{
    if template_spec(t) is Ok {
        lemma_parse_balanced(t);
    }
}

/// Whether a node sequence consists of literal text alone, so that rendering
/// it consults no context and no document.
pub open spec fn literal_only(nodes: Seq<NodeModel>) -> bool {
    forall|k: int| 0 <= k < nodes.len() ==> (#[trigger] nodes[k]) is Literal
}

/// What rendering a template against a fixture produces: the output text, or
/// the parse or evaluation failure that stopped the render.
pub open spec fn render_spec(t: Seq<char>, fx: Seq<(Seq<char>, Seq<NodeData>)>) -> Result<
    Seq<char>,
    ErrModel,
> {
    match template_spec(t) {
        Err(e) => Err(e),
        Ok(nodes) => {
            let e = eval_nodes_spec(nodes, 0, None, fx);
            match e.err {
                None => Ok(e.out),
                Some(em) => Err(em),
            }
        },
    }
}

/// Rendering has no hidden state: the result is a function of the template
/// text and the fixture content alone, so re-rendering the identical template
/// against the identical fixture yields an identical result.
pub proof fn lemma_render_idempotent(
    t: Seq<char>,
    fx: Seq<(Seq<char>, Seq<NodeData>)>,
    r1: Result<Seq<char>, ErrModel>,
    r2: Result<Seq<char>, ErrModel>,
)
    requires
        r1 == render_spec(t, fx),
        r2 == render_spec(t, fx),
    ensures
        r1 == r2,
{
}

/// Parses the template and renders it with no outer context. Against a
/// fixture-backed builder the output and the outcome are exactly those of the
/// rendering model. Whatever builder backs the render, a structural parse
/// failure is reported exactly, and a template of literal text alone renders
/// to exactly that text.
pub fn parse(template: &str, doc_builder: &DocBuilder) -> (r: Result<String, TemplateError>)
    ensures
        template_spec(template@) matches Err(e) ==> r matches Err(x) && x@ == e,
        template_spec(template@) matches Ok(nodes) ==> (literal_only(nodes) ==> ({
            let e = eval_nodes_spec(nodes, 0, None, doc_builder.fixture_model());
            r matches Ok(s) && s@ == e.out
        })),
        doc_builder is Fixture ==> (match render_spec(template@, doc_builder.fixture_model()) {
            Ok(out) => r matches Ok(s) && s@ == out,
            Err(e) => r matches Err(x) && x@ == e,
        }),
{
    let ghost fx = doc_builder.fixture_model();
    let template_nodes = match parse_template(template) {
        Ok(nodes) => nodes,
        Err(e) => {
            return Err(e);
        },
    };
    let ghost nv = nodes_view(template_nodes@);
    let mut buff = String::new();
    let ghost mut done: Seq<char> = Seq::empty();
    proof {
        lemma_nodes_view_len(template_nodes@);
        assert(buff@ =~= done);
        assert(eval_seq2(EvalOut { out: done, err: None }, eval_nodes_spec(nv, 0, None, fx))
            =~= eval_nodes_spec(nv, 0, None, fx));
    }
    let n = template_nodes.len();
    let mut k: usize = 0;
    while k < n
        invariant
            0 <= k <= n,
            n == template_nodes@.len(),
            nv == nodes_view(template_nodes@),
            nv.len() == n,
            template_spec(template@) == Ok::<Seq<NodeModel>, ErrModel>(nv),
            fx == doc_builder.fixture_model(),
            doc_builder is Fixture || literal_only(nv) ==> buff@ == done,
            doc_builder is Fixture || literal_only(nv) ==> eval_seq2(
                EvalOut { out: done, err: None },
                eval_nodes_spec(nv, k as int, None, fx),
            ) == eval_nodes_spec(nv, 0, None, fx),
        decreases n - k,
    {
        let ghost pre = buff@;
        let cres = template_nodes[k].evaluate(None, doc_builder, &mut buff);
        proof {
            lemma_nodes_view_index(template_nodes@, k as int);
        }
        let ghost ce = eval_node_spec(nv[k as int], None, fx);
        let ghost rest = eval_nodes_spec(nv, k as int + 1, None, fx);
        match cres {
            Ok(_) => {
                proof {
                    if doc_builder is Fixture || literal_only(nv) {
                        if !(doc_builder is Fixture) {
                            assert(nv[k as int] is Literal);
                        }
                        assert(eval_nodes_spec(nv, k as int, None, fx) == eval_seq2(ce, rest));
                        lemma_eval_seq2_assoc(EvalOut { out: done, err: None }, ce, rest);
                        assert(eval_seq2(EvalOut { out: done, err: None }, ce) =~= (EvalOut {
                            out: done + ce.out,
                            err: None,
                        }));
                        done = done + ce.out;
                    }
                }
            },
            Err(err) => {
                proof {
                    if literal_only(nv) {
                        assert(nv[k as int] is Literal);
                        assert(false);
                    }
                    if doc_builder is Fixture {
                        assert(eval_nodes_spec(nv, k as int, None, fx) == eval_seq2(ce, rest));
                        assert(eval_seq2(ce, rest) == ce);
                        let whole = eval_nodes_spec(nv, 0, None, fx);
                        assert(whole == eval_seq2(EvalOut { out: done, err: None }, ce));
                        assert(whole.err == ce.err);
                    }
                }
                return Err(err);
            },
        }
        k += 1;
    }
    proof {
        if doc_builder is Fixture || literal_only(nv) {
            assert(eval_nodes_spec(nv, n as int, None, fx) == eval_ok(Seq::empty()));
            let whole = eval_nodes_spec(nv, 0, None, fx);
            assert(whole == eval_seq2(EvalOut { out: done, err: None }, eval_ok(Seq::empty())));
            assert(whole =~= (EvalOut { out: done, err: None }));
        }
    }
    Ok(buff)
}

impl TemplateNode {
    /// Evaluates this node, appending its output to `buff`. Whatever builder
    /// backs the render: a literal appends its text, an end marker appends
    /// nothing, a variable reference behaves as the variable model says, and
    /// a lookup or iteration whose document source does not resolve reports
    /// that failure with nothing appended. Against a fixture-backed builder
    /// the appended text and the outcome are, further, exactly those the
    /// evaluation model gives. Against a live builder the remaining steps
    /// depend on the fetched content, so the node can only extend `buff`;
    /// but selector acceptance does not depend on content, so a lookup or
    /// iteration whose selector the live document model rejects can only
    /// fail — with the fetch failure or the selector-syntax error — and
    /// appends nothing.
    pub fn evaluate(
        &self,
        context: Option<&VarContext>,
        builder: &DocBuilder,
        buff: &mut String,
    ) -> (r: Result<(), TemplateError>)
        ensures
            old(buff)@.is_prefix_of(final(buff)@),
            self@ matches NodeModel::Literal { text } ==> r is Ok && final(buff)@ == old(buff)@
                + text,
            self@ is EndMarker ==> r is Ok && final(buff)@ == old(buff)@,
            self@ matches NodeModel::VariableRef { var_name } ==> ({
                let e = var_step_spec(ctx_view(context), var_name);
                &&& final(buff)@ == old(buff)@ + e.out
                &&& (match e.err {
                    None => r is Ok,
                    Some(em) => r matches Err(x) && x@ == em,
                })
            }),
            self@ matches NodeModel::Lookup { doc, doc_var, base_doc, .. } ==> (
            resolve_source_spec(ctx_view(context), doc, doc_var, base_doc) matches Err(e)
                ==> r matches Err(x) && x@ == e && final(buff)@ == old(buff)@),
            self@ matches NodeModel::Iteration { doc, doc_var, base_doc, .. } ==> (
            resolve_source_spec(ctx_view(context), doc, doc_var, base_doc) matches Err(e)
                ==> r matches Err(x) && x@ == e && final(buff)@ == old(buff)@),
            builder is Live ==> (self@ matches NodeModel::Lookup {
                selector,
                doc,
                doc_var,
                base_doc,
                ..
            } ==> (resolve_source_spec(ctx_view(context), doc, doc_var, base_doc) matches Ok(src)
                ==> (!css_selector_ok(selector) ==> (r matches Err(x) && final(buff)@ == old(
                buff)@ && (x@ == (ErrModel::FetchFailure { source: src }) || x@ == (
                ErrModel::SelectorSyntax { selector })))))),
            builder is Live ==> (self@ matches NodeModel::Iteration {
                selector,
                doc,
                doc_var,
                base_doc,
                ..
            } ==> (resolve_source_spec(ctx_view(context), doc, doc_var, base_doc) matches Ok(src)
                ==> (!css_selector_ok(selector) ==> (r matches Err(x) && final(buff)@ == old(
                buff)@ && (x@ == (ErrModel::FetchFailure { source: src }) || x@ == (
                ErrModel::SelectorSyntax { selector })))))),
            builder is Fixture ==> ({
                let e = eval_node_spec(self@, ctx_view(context), builder.fixture_model());
                &&& final(buff)@ == old(buff)@ + e.out
                &&& (match e.err {
                    None => r is Ok,
                    Some(em) => r matches Err(x) && x@ == em,
                })
            }),
        decreases *self, 0nat,
    {
        match self {
            TemplateNode::Literal { text } => {
                buff.append(text.as_str());
                proof {
                    lemma_concat_prefix(old(buff)@, text@);
                }
                Ok(())
            },
            TemplateNode::EndMarker => {
                proof {
                    lemma_prefix_refl(buff@);
                    assert(buff@ =~= old(buff)@ + Seq::<char>::empty());
                }
                Ok(())
            },
            TemplateNode::VariableRef { var_name } => {
                let bound: Option<&String> = match context {
                    Some(ctx) => ctx.get(var_name.as_str()),
                    None => None,
                };
                match bound {
                    Some(v) => {
                        buff.append(v.as_str());
                        proof {
                            lemma_concat_prefix(old(buff)@, v@);
                        }
                        Ok(())
                    },
                    None => {
                        proof {
                            lemma_prefix_refl(buff@);
                            assert(buff@ =~= old(buff)@ + Seq::<char>::empty());
                        }
                        Err(TemplateError::UnboundVariable { name: var_name.clone() })
                    },
                }
            },
            TemplateNode::Lookup {
                selector,
                default_value,
                node_property,
                doc,
                doc_var,
                base_doc,
            } => {
                let src = match resolve_source(context, doc, doc_var, base_doc) {
                    Ok(s) => s,
                    Err(err) => {
                        proof {
                            lemma_prefix_refl(buff@);
                            assert(buff@ =~= old(buff)@ + Seq::<char>::empty());
                        }
                        return Err(err);
                    },
                };
                let content: String = match builder {
                    DocBuilder::Live => match fetch_url(src.as_str()) {
                        Ok(c) => c,
                        Err(_) => {
                            proof {
                                lemma_prefix_refl(buff@);
                            }
                            return Err(TemplateError::FetchFailure { source: src });
                        },
                    },
                    DocBuilder::Fixture(_) => String::new(),
                };
                let docm = builder.build_doc(content.as_str());
                let res = eval_lookup(&docm, selector, node_property, default_value, buff);
                proof {
                    let e = lookup_step_spec(
                        docm,
                        selector@,
                        node_property.deep_view(),
                        default_value.deep_view(),
                    );
                    lemma_concat_prefix(old(buff)@, e.out);
                }
                res
            },
            TemplateNode::Iteration {
                var_name,
                selector,
                node_property,
                doc,
                doc_var,
                base_doc,
                children,
            } => {
                let src = match resolve_source(context, doc, doc_var, base_doc) {
                    Ok(s) => s,
                    Err(err) => {
                        proof {
                            lemma_prefix_refl(buff@);
                            assert(buff@ =~= old(buff)@ + Seq::<char>::empty());
                        }
                        return Err(err);
                    },
                };
                let content: String = match builder {
                    DocBuilder::Live => match fetch_url(src.as_str()) {
                        Ok(c) => c,
                        Err(_) => {
                            proof {
                                lemma_prefix_refl(buff@);
                            }
                            return Err(TemplateError::FetchFailure { source: src });
                        },
                    },
                    DocBuilder::Fixture(_) => String::new(),
                };
                let docm = builder.build_doc(content.as_str());
                match query_iteration_values(&docm, selector, node_property) {
                    Err(e) => {
                        proof {
                            lemma_prefix_refl(buff@);
                        }
                        Err(e)
                    },
                    Ok(found) => eval_iteration_matches(children, var_name, found, builder, buff),
                }
            },
        }
    }
}

/// Performs the single-value query of a lookup directive against its built
/// document and appends what the directive substitutes: whichever document
/// implementation is queried, the appended text and the outcome are exactly
/// those of the lookup step model over that document's query answers.
fn eval_lookup(
    docm: &Doc,
    selector: &String,
    node_property: &Option<String>,
    default_value: &Option<String>,
    buff: &mut String,
) -> (r: Result<(), TemplateError>)
    ensures
        ({
            let e = lookup_step_spec(
                *docm,
                selector@,
                node_property.deep_view(),
                default_value.deep_view(),
            );
            &&& final(buff)@ == old(buff)@ + e.out
            &&& (match e.err {
                None => r is Ok,
                Some(em) => r matches Err(x) && x@ == em,
            })
        }),
{
    let found = match node_property {
        Some(p) => docm.select_prop(selector.as_str(), p.as_str()),
        None => docm.select(selector.as_str()),
    };
    match found {
        Err(_) => {
            proof {
                assert(buff@ =~= old(buff)@ + Seq::<char>::empty());
            }
            Err(TemplateError::SelectorSyntax { selector: selector.clone() })
        },
        Ok(Some(v)) => {
            buff.append(v.as_str());
            Ok(())
        },
        Ok(None) => match default_value {
            Some(d) => {
                buff.append(d.as_str());
                Ok(())
            },
            None => {
                proof {
                    assert(buff@ =~= old(buff)@ + Seq::<char>::empty());
                }
                Err(TemplateError::UnresolvedLookup { selector: selector.clone() })
            },
        },
    }
}

/// Performs the multi-value query of an iteration directive against its built
/// document: whichever document implementation is queried, the yielded match
/// values and the outcome are exactly those of the iteration query model over
/// that document's query answers.
fn query_iteration_values(
    docm: &Doc,
    selector: &String,
    node_property: &Option<String>,
) -> (r: Result<Option<Vec<String>>, TemplateError>)
    ensures
        match iteration_query_spec(*docm, selector@, node_property.deep_view()) {
            Ok(vals) => r matches Ok(v) && v.deep_view() == vals,
            Err(e) => r matches Err(x) && x@ == e,
        },
{
    let all = match node_property {
        Some(p) => docm.select_all_prop(selector.as_str(), p.as_str()),
        None => docm.select_all(selector.as_str()),
    };
    match all {
        Err(_) => Err(TemplateError::SelectorSyntax { selector: selector.clone() }),
        Ok(v) => Ok(v),
    }
}

/// Applies an iteration's query result, whatever builder backs the render: a
/// query with no matches contributes no output and is no error, and no body
/// node is evaluated; otherwise the body is evaluated once per match value.
fn eval_iteration_matches(
    children: &Vec<TemplateNode>,
    var_name: &String,
    found: Option<Vec<String>>,
    builder: &DocBuilder,
    buff: &mut String,
) -> (r: Result<(), TemplateError>)
    ensures
        old(buff)@.is_prefix_of(final(buff)@),
        found is None ==> r is Ok && final(buff)@ == old(buff)@,
        found matches Some(values) ==> (values@.len() == 0 ==> r is Ok
            && final(buff)@ == old(buff)@),
        builder is Fixture ==> ({
            let e = match found {
                None => eval_ok(Seq::empty()),
                Some(values) => eval_iters_spec(
                    nodes_view(children@),
                    var_name@,
                    values.deep_view(),
                    0,
                    builder.fixture_model(),
                ),
            };
            &&& final(buff)@ == old(buff)@ + e.out
            &&& (match e.err {
                None => r is Ok,
                Some(em) => r matches Err(x) && x@ == em,
            })
        }),
    decreases *children, 1nat,
{
    match found {
        None => {
            proof {
                lemma_prefix_refl(buff@);
                assert(buff@ =~= old(buff)@ + Seq::<char>::empty());
            }
            Ok(())
        },
        Some(values) => eval_iteration(children, var_name, &values, builder, buff),
    }
}

/// Evaluates an iteration body once per match value, binding the loop
/// variable to each value in a fresh single-entry context that replaces
/// whatever context was active at the iteration itself. With no match values
/// there is nothing to do, whatever builder backs the render; against a
/// fixture-backed builder the appended text and the outcome are exactly those
/// of the iteration model.
fn eval_iteration(
    children: &Vec<TemplateNode>,
    var_name: &String,
    values: &Vec<String>,
    builder: &DocBuilder,
    buff: &mut String,
) -> (r: Result<(), TemplateError>)
    ensures
        old(buff)@.is_prefix_of(final(buff)@),
        values@.len() == 0 ==> r is Ok && final(buff)@ == old(buff)@,
        builder is Fixture ==> ({
            let e = eval_iters_spec(
                nodes_view(children@),
                var_name@,
                values.deep_view(),
                0,
                builder.fixture_model(),
            );
            &&& final(buff)@ == old(buff)@ + e.out
            &&& (match e.err {
                None => r is Ok,
                Some(em) => r matches Err(x) && x@ == em,
            })
        }),
    decreases *children, 0nat,
{
    let ghost fx = builder.fixture_model();
    let ghost ch = nodes_view(children@);
    let ghost vals = values.deep_view();
    let ghost b0 = old(buff)@;
    let ghost mut done: Seq<char> = Seq::empty();
    proof {
        lemma_nodes_view_len(children@);
        lemma_prefix_refl(buff@);
        assert(buff@ =~= b0 + done);
        assert(eval_seq2(
            EvalOut { out: done, err: None },
            eval_iters_spec(ch, var_name@, vals, 0, fx),
        ) =~= eval_iters_spec(ch, var_name@, vals, 0, fx));
    }
    let n = values.len();
    let mut i: usize = 0;
    while i < n
        invariant
            0 <= i <= n,
            n == values@.len(),
            vals == values.deep_view(),
            vals.len() == values@.len(),
            ch == nodes_view(children@),
            ch.len() == children@.len(),
            fx == builder.fixture_model(),
            b0 == old(buff)@,
            b0.is_prefix_of(buff@),
            values@.len() == 0 ==> buff@ == b0,
            builder is Fixture ==> buff@ == b0 + done,
            builder is Fixture ==> eval_seq2(
                EvalOut { out: done, err: None },
                eval_iters_spec(ch, var_name@, vals, i as int, fx),
            ) == eval_iters_spec(ch, var_name@, vals, 0, fx),
        decreases n - i,
    {
        let mut step_ctx = VarContext::new();
        step_ctx.insert(var_name.as_str(), values[i].as_str());
        let ghost sctx = step_ctx@;
        proof {
            assert(vals[i as int] == values@[i as int]@);
            assert(sctx =~= Seq::<(Seq<char>, Seq<char>)>::empty().push((
                var_name@,
                vals[i as int],
            )));
        }
        let ghost b1 = buff@;
        let ghost mut idone: Seq<char> = Seq::empty();
        proof {
            lemma_prefix_refl(buff@);
            assert(buff@ =~= b1 + idone);
            assert(eval_seq2(
                EvalOut { out: idone, err: None },
                eval_nodes_spec(ch, 0, Some(sctx), fx),
            ) =~= eval_nodes_spec(ch, 0, Some(sctx), fx));
        }
        let m = children.len();
        let mut j: usize = 0;
        while j < m
            invariant
                0 <= j <= m,
                m == children@.len(),
                0 <= i < vals.len(),
                vals == values.deep_view(),
                ch == nodes_view(children@),
                ch.len() == children@.len(),
                fx == builder.fixture_model(),
                sctx == step_ctx@,
                sctx == Seq::<(Seq<char>, Seq<char>)>::empty().push((var_name@, vals[i as int])),
                b0 == old(buff)@,
                b0.is_prefix_of(b1),
                b1.is_prefix_of(buff@),
                builder is Fixture ==> b1 == b0 + done,
                builder is Fixture ==> buff@ == b1 + idone,
                builder is Fixture ==> eval_seq2(
                    EvalOut { out: done, err: None },
                    eval_iters_spec(ch, var_name@, vals, i as int, fx),
                ) == eval_iters_spec(ch, var_name@, vals, 0, fx),
                builder is Fixture ==> eval_seq2(
                    EvalOut { out: idone, err: None },
                    eval_nodes_spec(ch, j as int, Some(sctx), fx),
                ) == eval_nodes_spec(ch, 0, Some(sctx), fx),
            decreases m - j,
        {
            let ghost pre = buff@;
            let cres = children[j].evaluate(Some(&step_ctx), builder, buff);
            proof {
                lemma_nodes_view_index(children@, j as int);
                lemma_prefix_trans(b1, pre, buff@);
            }
            let ghost ce = eval_node_spec(ch[j as int], Some(sctx), fx);
            let ghost rest = eval_nodes_spec(ch, j as int + 1, Some(sctx), fx);
            match cres {
                Ok(_) => {
                    proof {
                        if builder is Fixture {
                            assert(eval_nodes_spec(ch, j as int, Some(sctx), fx) == eval_seq2(
                                ce,
                                rest,
                            ));
                            lemma_eval_seq2_assoc(EvalOut { out: idone, err: None }, ce, rest);
                            assert(eval_seq2(EvalOut { out: idone, err: None }, ce)
                                =~= (EvalOut { out: idone + ce.out, err: None }));
                            idone = idone + ce.out;
                            assert(buff@ =~= b1 + idone);
                        }
                    }
                },
                Err(err) => {
                    proof {
                        lemma_prefix_trans(b0, b1, buff@);
                        if builder is Fixture {
                            assert(eval_nodes_spec(ch, j as int, Some(sctx), fx) == eval_seq2(
                                ce,
                                rest,
                            ));
                            assert(eval_seq2(ce, rest) == ce);
                            let inner0 = eval_nodes_spec(ch, 0, Some(sctx), fx);
                            assert(inner0 == eval_seq2(EvalOut { out: idone, err: None }, ce));
                            assert(inner0 =~= (EvalOut { out: idone + ce.out, err: ce.err }));
                            assert(eval_iters_spec(ch, var_name@, vals, i as int, fx) == eval_seq2(
                                inner0,
                                eval_iters_spec(ch, var_name@, vals, i as int + 1, fx),
                            ));
                            assert(eval_seq2(
                                inner0,
                                eval_iters_spec(ch, var_name@, vals, i as int + 1, fx),
                            ) == inner0);
                            let full = eval_iters_spec(ch, var_name@, vals, 0, fx);
                            assert(full == eval_seq2(EvalOut { out: done, err: None }, inner0));
                            assert(full =~= (EvalOut {
                                out: done + (idone + ce.out),
                                err: ce.err,
                            }));
                            assert(buff@ =~= b0 + full.out);
                        }
                    }
                    return Err(err);
                },
            }
            j += 1;
        }
        proof {
            lemma_prefix_trans(b0, b1, buff@);
            if builder is Fixture {
                let inner0 = eval_nodes_spec(ch, 0, Some(sctx), fx);
                assert(eval_nodes_spec(ch, m as int, Some(sctx), fx) == eval_ok(Seq::empty()));
                assert(inner0 == eval_seq2(
                    EvalOut { out: idone, err: None },
                    eval_ok(Seq::empty()),
                ));
                assert(inner0 =~= (EvalOut { out: idone, err: None }));
                let rest_iters = eval_iters_spec(ch, var_name@, vals, i as int + 1, fx);
                assert(eval_iters_spec(ch, var_name@, vals, i as int, fx) == eval_seq2(
                    inner0,
                    rest_iters,
                ));
                lemma_eval_seq2_assoc(EvalOut { out: done, err: None }, inner0, rest_iters);
                assert(eval_seq2(EvalOut { out: done, err: None }, inner0) =~= (EvalOut {
                    out: done + idone,
                    err: None,
                }));
                done = done + idone;
                assert(buff@ =~= b0 + done);
            }
        }
        i += 1;
    }
    proof {
        if builder is Fixture {
            assert(eval_iters_spec(ch, var_name@, vals, n as int, fx) == eval_ok(Seq::empty()));
            let full = eval_iters_spec(ch, var_name@, vals, 0, fx);
            assert(full == eval_seq2(EvalOut { out: done, err: None }, eval_ok(Seq::empty())));
            assert(full =~= (EvalOut { out: done, err: None }));
            assert(buff@ =~= b0 + full.out);
        }
    }
    Ok(())
}

} // verus!
