use vstd::prelude::*;

use super::{ErrModel, NodeModel, TemplateError, TemplateNode};
use crate::strutil::{
    chars_range_string, chars_to_string, str_eq, str_to_chars, trim_chars, trim_spec,
};

verus! {

/// State of the directive tokenizer after reading a prefix of the directive
/// body: whether the scan is inside a quoted value, whether the current
/// fragment is a key (as opposed to a value following a separator), the
/// fragment accumulated so far, and the fragments already emitted.
pub struct TokState {
    pub in_quote: bool,
    pub is_key: bool,
    pub buff: Seq<char>,
    pub out: Seq<Seq<char>>,
}

/// The tokenizer state before any character has been read.
pub open spec fn tok_init() -> TokState {
    TokState { in_quote: false, is_key: true, buff: Seq::empty(), out: Seq::empty() }
}

/// Emits the accumulated fragment, if it is non-empty.
pub open spec fn tok_flush(st: TokState) -> TokState {
    if st.buff.len() > 0 {
        TokState { buff: Seq::empty(), out: st.out.push(st.buff), ..st }
    } else {
        st
    }
}

/// One step of the directive tokenizer. Either quote character toggles the
/// quoted state (mismatched quote characters are treated as matching); inside
/// quotes every character is copied verbatim. Outside quotes, the characters
/// `=`, `>` and `<` act as key/value separators, and the first one seen after
/// a key flushes the key and emits the separator fragment as `=` regardless
/// of which character triggered it; a space flushes the current fragment.
pub open spec fn tok_step(st: TokState, c: char) -> TokState {
    if c == '\'' || c == '"' {
        let f = tok_flush(st);
        TokState { in_quote: !st.in_quote, ..f }
    } else if st.in_quote {
        TokState { buff: st.buff.push(c), ..st }
    } else if c == '=' || c == '>' || c == '<' {
        if st.is_key {
            let f = tok_flush(st);
            TokState { is_key: false, out: f.out.push("="@), ..f }
        } else {
            st
        }
    } else if c == ' ' {
        let f = tok_flush(st);
        TokState { is_key: true, ..f }
    } else {
        TokState { is_key: true, buff: st.buff.push(c), ..st }
    }
}

/// The tokenizer state after reading the first `n` characters of `s`.
pub open spec fn tok_run(s: Seq<char>, n: int) -> TokState
    decreases n,
{
    if n <= 0 {
        tok_init()
    } else {
        tok_step(tok_run(s, n - 1), s[n - 1])
    }
}

/// The fragment list produced from one directive body: the body is trimmed,
/// scanned character by character, and a trailing non-empty fragment is
/// flushed (trimmed) at the end of the input.
pub open spec fn tokenize_spec(s: Seq<char>) -> Seq<Seq<char>> {
    let t = trim_spec(s);
    let st = tok_run(t, t.len() as int);
    if st.buff.len() > 0 {
        st.out.push(trim_spec(st.buff))
    } else {
        st.out
    }
}

/// The value fragment following the first occurrence of `key` that is
/// directly followed by a separator fragment and a value fragment.
pub open spec fn kv_lookup(tokens: Seq<Seq<char>>, key: Seq<char>) -> Option<Seq<char>>
    decreases tokens.len(),
{
    if tokens.len() < 3 {
        None
    } else if tokens[0] == key && tokens[1] == "="@ {
        Some(tokens[2])
    } else {
        kv_lookup(tokens.drop_first(), key)
    }
}

/// Scanner over the raw template text: yields literal spans and directive
/// bodies in order, advancing a cursor over the character sequence.
pub struct TokenParser {
    pub template: Vec<char>,
    pub cursor: usize,
}

/// Position of the first occurrence of the two-character marker `cc` at or
/// after `from` in `s`.
pub open spec fn find_marker2(s: Seq<char>, c: char, from: int) -> Option<int>
    decreases s.len() - from,
{
    if from < 0 || from + 1 >= s.len() {
        None
    } else if s[from] == c && s[from + 1] == c {
        Some(from)
    } else {
        find_marker2(s, c, from + 1)
    }
}

/// Every position the marker search yields names a real marker occurrence at
/// or after the start of the search.
pub proof fn lemma_find_marker2_some(s: Seq<char>, c: char, from: int)
    requires
        find_marker2(s, c, from) is Some,
    ensures
        ({
            let p = find_marker2(s, c, from)->0;
            &&& from <= p
            &&& p + 1 < s.len()
            &&& s[p] == c
            &&& s[p + 1] == c
        }),
    decreases s.len() - from,
{
    if !(from < 0 || from + 1 >= s.len()) && !(s[from] == c && s[from + 1] == c) {
        lemma_find_marker2_some(s, c, from + 1);
    }
}

/// Finds the first occurrence of the doubled character `c` at or after
/// position `from`.
pub fn find_double(v: &Vec<char>, c: char, from: usize) -> (r: Option<usize>)
    ensures
        match r {
            Some(p) => find_marker2(v@, c, from as int) == Some(p as int) && from <= p && p + 1
                < v@.len(),
            None => find_marker2(v@, c, from as int) is None,
        },
{
    let n = v.len();
    if n < 2 {
        return None;
    }
    let mut i: usize = from;
    while i < n - 1
        invariant
            from <= i,
            n == v@.len(),
            n >= 2,
            find_marker2(v@, c, from as int) == find_marker2(v@, c, i as int),
        decreases n - i,
    {
        if v[i] == c && v[i + 1] == c {
            return Some(i);
        }
        i += 1;
    }
    None
}

impl TokenParser {
    /// Builds a scanner positioned at the start of the template text.
    pub fn new(template: &str) -> (r: TokenParser)
        ensures
            r.template@ == template@,
            r.cursor == 0,
    {
        TokenParser { template: str_to_chars(template), cursor: 0 }
    }

    /// Splits one directive body into its ordered fragment list, honoring
    /// quoted values and normalizing key/value separators to `=`.
    pub fn tokenize(token: &str) -> (r: Vec<String>)
        ensures
            r.deep_view() == tokenize_spec(token@),
    {
        let chars0 = str_to_chars(token);
        let t = trim_chars(&chars0);
        let n = t.len();
        let mut in_quote: bool = false;
        let mut is_key: bool = true;
        let mut buff: Vec<char> = Vec::new();
        let mut out: Vec<String> = Vec::new();
        let mut i: usize = 0;
        while i < n
            invariant
                0 <= i <= n,
                n == t@.len(),
                t@ == trim_spec(token@),
                in_quote == tok_run(t@, i as int).in_quote,
                is_key == tok_run(t@, i as int).is_key,
                buff@ == tok_run(t@, i as int).buff,
                out.deep_view() == tok_run(t@, i as int).out,
            decreases n - i,
        {
            let ghost st = tok_run(t@, i as int);
            let c = t[i];
            if c == '\'' || c == '"' {
                if buff.len() > 0 {
                    let frag = chars_to_string(&buff);
                    out.push(frag);
                    buff = Vec::new();
                }
                in_quote = !in_quote;
            } else if in_quote {
                buff.push(c);
            } else if c == '=' || c == '>' || c == '<' {
                if is_key {
                    if buff.len() > 0 {
                        let frag = chars_to_string(&buff);
                        out.push(frag);
                        buff = Vec::new();
                    }
                    out.push(String::from_str("="));
                    is_key = false;
                }
            } else if c == ' ' {
                if buff.len() > 0 {
                    let frag = chars_to_string(&buff);
                    out.push(frag);
                    buff = Vec::new();
                }
                is_key = true;
            } else {
                is_key = true;
                buff.push(c);
            }
            proof {
                let st1 = tok_run(t@, i as int + 1);
                assert(st1 == tok_step(st, t@[i as int]));
                assert(out.deep_view() =~= st1.out);
                assert(buff@ =~= st1.buff);
            }
            i += 1;
        }
        if buff.len() > 0 {
            let tb = trim_chars(&buff);
            let frag = chars_to_string(&tb);
            out.push(frag);
        }
        proof {
            assert(out.deep_view() =~= tokenize_spec(token@));
        }
        out
    }

    /// Looks up the value fragment that follows `key` and a separator in a
    /// tokenized directive body; yields nothing when the key is absent.
    pub fn tokenized_value_by_key(tokenized: &Vec<String>, key: &str) -> (r: Option<String>)
        ensures
            match r {
                Some(v) => kv_lookup(tokenized.deep_view(), key@) == Some(v@),
                None => kv_lookup(tokenized.deep_view(), key@) is None,
            },
    {
        let n = tokenized.len();
        if n < 3 {
            return None;
        }
        proof {
            assert(tokenized.deep_view().skip(0) =~= tokenized.deep_view());
        }
        let mut idx: usize = 0;
        while idx < n - 2
            invariant
                0 <= idx <= n - 2,
                n == tokenized@.len(),
                n >= 3,
                kv_lookup(tokenized.deep_view(), key@) == kv_lookup(
                    tokenized.deep_view().skip(idx as int),
                    key@,
                ),
            decreases n - idx,
        {
            let hit = str_eq(tokenized[idx].as_str(), key) && str_eq(
                tokenized[idx + 1].as_str(),
                "=",
            );
            proof {
                let s = tokenized.deep_view();
                assert(s.skip(idx as int)[0] == s[idx as int]);
                assert(s.skip(idx as int)[1] == s[idx as int + 1]);
                assert(s.skip(idx as int)[2] == s[idx as int + 2]);
                assert(s.skip(idx as int).drop_first() =~= s.skip(idx as int + 1));
            }
            if hit {
                let v = tokenized[idx + 2].clone();
                return Some(v);
            }
            idx += 1;
        }
        proof {
            assert(tokenized.deep_view().skip(idx as int).len() < 3);
        }
        None
    }

    /// Turns one directive body into a draft template node according to its
    /// keyword; an iteration node starts with no children.
    pub fn token_to_template_node(token: &str) -> (r: Result<TemplateNode, TemplateError>)
        ensures
            match node_of_directive(token@) {
                Ok(m) => r matches Ok(node) && node@ == m,
                Err(e) => r matches Err(x) && x@ == e,
            },
    {
        let tokens = Self::tokenize(token);
        if tokens.len() == 0 {
            return Err(TemplateError::UnknownDirective { keyword: String::new() });
        }
        if str_eq(tokens[0].as_str(), "css") {
            let selector = match Self::tokenized_value_by_key(&tokens, "selector") {
                Some(s) => s,
                None => {
                    return Err(TemplateError::MalformedDirective {
                        missing_key: String::from_str("selector"),
                        directive: String::from_str(token),
                    });
                },
            };
            let default_value = Self::tokenized_value_by_key(&tokens, "default");
            let node_property = Self::tokenized_value_by_key(&tokens, "node-property");
            let doc = Self::tokenized_value_by_key(&tokens, "doc");
            let doc_var = Self::tokenized_value_by_key(&tokens, "doc-var");
            let base_doc = Self::tokenized_value_by_key(&tokens, "base-doc");
            Ok(TemplateNode::Lookup { selector, default_value, node_property, doc, doc_var, base_doc })
        } else if str_eq(tokens[0].as_str(), "loop") {
            let var_name = match Self::tokenized_value_by_key(&tokens, "var") {
                Some(v) => v,
                None => {
                    return Err(TemplateError::MalformedDirective {
                        missing_key: String::from_str("var"),
                        directive: String::from_str(token),
                    });
                },
            };
            let selector = match Self::tokenized_value_by_key(&tokens, "selector") {
                Some(s) => s,
                None => {
                    return Err(TemplateError::MalformedDirective {
                        missing_key: String::from_str("selector"),
                        directive: String::from_str(token),
                    });
                },
            };
            let node_property = Self::tokenized_value_by_key(&tokens, "node-property");
            let doc = Self::tokenized_value_by_key(&tokens, "doc");
            let doc_var = Self::tokenized_value_by_key(&tokens, "doc-var");
            let base_doc = Self::tokenized_value_by_key(&tokens, "base-doc");
            let node = TemplateNode::Iteration {
                var_name,
                selector,
                node_property,
                doc,
                doc_var,
                base_doc,
                children: Vec::new(),
            };
            proof {
                assert(node@->Iteration_children =~= Seq::<NodeModel>::empty());
            }
            Ok(node)
        } else if str_eq(tokens[0].as_str(), "var") {
            if tokens.len() < 2 {
                return Err(TemplateError::MalformedDirective {
                    missing_key: String::from_str("name"),
                    directive: String::from_str(token),
                });
            }
            let var_name = tokens[1].clone();
            Ok(TemplateNode::VariableRef { var_name })
        } else if str_eq(tokens[0].as_str(), "end") {
            Ok(TemplateNode::EndMarker)
        } else {
            let keyword = tokens[0].clone();
            Err(TemplateError::UnknownDirective { keyword })
        }
    }

    /// Finds the span of the next directive: the position of its opener and
    /// of its closer. Fails when an opener has no closer after it.
    pub fn next_token(&self) -> (r: Result<Option<(usize, usize)>, TemplateError>)
        ensures
            match find_marker2(self.template@, '{', self.cursor as int) {
                None => r == Ok::<Option<(usize, usize)>, TemplateError>(None),
                Some(start) => match find_marker2(self.template@, '}', start + 2) {
                    Some(end) => r matches Ok(Some((s, e))) && s == start && e == end,
                    None => r matches Err(x) && x@ == (ErrModel::MalformedTemplate {
                        open_at: start,
                    }),
                },
            },
    {
        let n = self.template.len();
        match find_double(&self.template, '{', self.cursor) {
            None => Ok(None),
            Some(start) => match find_double(&self.template, '}', start + 2) {
                Some(end) => Ok(Some((start, end))),
                None => Err(TemplateError::MalformedTemplate { open_at: start }),
            },
        }
    }

    /// Yields the next literal span or directive node of the template, or
    /// nothing when the text is exhausted; advances the cursor past what was
    /// produced.
    pub fn next_node(&mut self) -> (r: Result<Option<TemplateNode>, TemplateError>)
        ensures
            final(self).template == old(self).template,
            match next_draft(old(self).template@, old(self).cursor as int) {
                Ok(None) => r == Ok::<Option<TemplateNode>, TemplateError>(None)
                    && final(self).cursor == old(self).cursor,
                Ok(Some((d, c1))) => r matches Ok(Some(node)) && node@ == d && final(self).cursor
                    == c1,
                Err(e) => r matches Err(x) && x@ == e,
            },
    {
        let ghost t = self.template@;
        let ghost c0 = self.cursor as int;
        match self.next_token() {
            Err(e) => {
                proof {
                    lemma_find_marker2_some(t, '{', c0);
                }
                Err(e)
            },
            Ok(None) => {
                if self.cursor < self.template.len() {
                    let text = chars_range_string(&self.template, self.cursor, self.template.len());
                    self.cursor = self.template.len();
                    let node = TemplateNode::Literal { text };
                    Ok(Some(node))
                } else {
                    Ok(None)
                }
            },
            Ok(Some((start, end))) => {
                let n = self.template.len();
                proof {
                    lemma_find_marker2_some(t, '{', c0);
                    lemma_find_marker2_some(t, '}', start as int + 2);
                }
                if start > self.cursor {
                    let text = chars_range_string(&self.template, self.cursor, start);
                    self.cursor = start;
                    let node = TemplateNode::Literal { text };
                    Ok(Some(node))
                } else {
                    let body = chars_range_string(&self.template, start + 2, end);
                    match Self::token_to_template_node(body.as_str()) {
                        Err(e) => Err(e),
                        Ok(node) => {
                            self.cursor = end + 2;
                            Ok(Some(node))
                        },
                    }
                }
            },
        }
    }
}

/// The draft node a directive body denotes: its first fragment names the
/// directive kind, and the remaining fragments carry its fields. A lookup
/// requires a selector; an iteration requires a variable name and a selector;
/// a variable reference requires a name fragment.
pub open spec fn node_of_directive(body: Seq<char>) -> Result<NodeModel, ErrModel> {
    let tokens = tokenize_spec(body);
    if tokens.len() == 0 {
        Err(ErrModel::UnknownDirective { keyword: Seq::empty() })
    } else if tokens[0] == "css"@ {
        match kv_lookup(tokens, "selector"@) {
            None => Err(
                ErrModel::MalformedDirective { missing_key: "selector"@, directive: body },
            ),
            Some(sel) => Ok(
                NodeModel::Lookup {
                    selector: sel,
                    default_value: kv_lookup(tokens, "default"@),
                    node_property: kv_lookup(tokens, "node-property"@),
                    doc: kv_lookup(tokens, "doc"@),
                    doc_var: kv_lookup(tokens, "doc-var"@),
                    base_doc: kv_lookup(tokens, "base-doc"@),
                },
            ),
        }
    } else if tokens[0] == "loop"@ {
        match kv_lookup(tokens, "var"@) {
            None => Err(ErrModel::MalformedDirective { missing_key: "var"@, directive: body }),
            Some(v) => match kv_lookup(tokens, "selector"@) {
                None => Err(
                    ErrModel::MalformedDirective { missing_key: "selector"@, directive: body },
                ),
                Some(sel) => Ok(
                    NodeModel::Iteration {
                        var_name: v,
                        selector: sel,
                        node_property: kv_lookup(tokens, "node-property"@),
                        doc: kv_lookup(tokens, "doc"@),
                        doc_var: kv_lookup(tokens, "doc-var"@),
                        base_doc: kv_lookup(tokens, "base-doc"@),
                        children: Seq::empty(),
                    },
                ),
            },
        }
    } else if tokens[0] == "var"@ {
        if tokens.len() < 2 {
            Err(ErrModel::MalformedDirective { missing_key: "name"@, directive: body })
        } else {
            Ok(NodeModel::VariableRef { var_name: tokens[1] })
        }
    } else if tokens[0] == "end"@ {
        Ok(NodeModel::EndMarker)
    } else {
        Err(ErrModel::UnknownDirective { keyword: tokens[0] })
    }
}

/// What one scanner step produces from `s[cursor..]`: nothing when the text
/// is exhausted; otherwise the next literal span or directive draft node,
/// together with the cursor position after it. Fails when a directive opener
/// has no closer or a directive body is invalid.
pub open spec fn next_draft(s: Seq<char>, cursor: int) -> Result<Option<(NodeModel, int)>, ErrModel> {
    if cursor < 0 || cursor >= s.len() {
        Ok(None)
    } else {
        match find_marker2(s, '{', cursor) {
            None => Ok(
                Some((NodeModel::Literal { text: s.subrange(cursor, s.len() as int) }, s.len() as int)),
            ),
            Some(start) => match find_marker2(s, '}', start + 2) {
                None => Err(ErrModel::MalformedTemplate { open_at: start }),
                Some(end) => {
                    if start > cursor {
                        Ok(Some((NodeModel::Literal { text: s.subrange(cursor, start) }, start)))
                    } else {
                        match node_of_directive(s.subrange(start + 2, end)) {
                            Err(e) => Err(e),
                            Ok(node) => Ok(Some((node, end + 2))),
                        }
                    }
                },
            },
        }
    }
}

/// Every draft the scanner yields advances the cursor, and never past the end
/// of the text.
pub proof fn lemma_next_draft_advances(s: Seq<char>, cursor: int)
    requires
        next_draft(s, cursor) matches Ok(Some(_)),
    ensures
        ({
            let c1 = next_draft(s, cursor)->Ok_0->Some_0.1;
            cursor < c1 <= s.len()
        }),
{
    if find_marker2(s, '{', cursor) is Some {
        lemma_find_marker2_some(s, '{', cursor);
        let start = find_marker2(s, '{', cursor)->0;
        if find_marker2(s, '}', start + 2) is Some {
            lemma_find_marker2_some(s, '}', start + 2);
        }
    }
}

/// The ordered draft nodes the scanner produces from `s[cursor..]`.
pub open spec fn drafts_of(s: Seq<char>, cursor: int) -> Result<Seq<NodeModel>, ErrModel>
    decreases s.len() - cursor,
    via drafts_of_decreases
{
    match next_draft(s, cursor) {
        Err(e) => Err(e),
        Ok(None) => Ok(Seq::empty()),
        Ok(Some((d, c1))) => match drafts_of(s, c1) {
            Err(e) => Err(e),
            Ok(rest) => Ok(seq![d] + rest),
        },
    }
}

#[via_fn]
proof fn drafts_of_decreases(s: Seq<char>, cursor: int) {
    if next_draft(s, cursor) matches Ok(Some(_)) {
        lemma_next_draft_advances(s, cursor);
    }
}

} // verus!
