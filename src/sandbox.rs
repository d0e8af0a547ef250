use vstd::prelude::*;
use vstd::string::StringExecFns;

use crate::document::{
    is_valid_name, is_void, is_void_tag, same_text, valid_name, attributes_model, doctype, lemma_nodes_model_len, lemma_nodes_model_push, node_model, nodes_html, nodes_model,
    strings_model, Document, DocumentNode, NodeModel,
};

verus! {

broadcast use {
    vstd::seq::axiom_seq_index_decreases,
    vstd::seq::axiom_seq_subrange_decreases,
    vstd::std_specs::vec::axiom_vec_decreases_to_view,
    vstd::std_specs::vec::axiom_vec_index_decreases,
};

/// A value handed back by a page script, as plain data.
#[derive(Debug)]
pub enum ScriptValue {
    Nil,
    Boolean(bool),
    Integer(i64),
    Str(String),
    /// A table's entries, key and value; a sequence has the keys `1..=n` in order.
    Table(Vec<(ScriptValue, ScriptValue)>),
    /// Any other value (a function, a fractional number, ...), by its type name.
    Other(String),
}

/// Why evaluating a page script failed.
#[derive(Debug, Clone, PartialEq, Eq)]
pub enum SandboxError {
    /// The script could not be loaded or compiled.
    Compile(String),
    /// The script raised an error while running.
    Runtime(String),
    /// The returned value is not shaped like a document node.
    Convert(String),
}

/// The key is the string `key`.
pub open spec fn is_key(v: ScriptValue, key: Seq<char>) -> bool {
    match v {
        ScriptValue::Str(s) => s@ == key,
        _ => false,
    }
}

/// The position of the last entry whose key is `key`, or -1.
pub open spec fn key_position(entries: Seq<(ScriptValue, ScriptValue)>, key: Seq<char>) -> int
    decreases entries.len(),
{
    if entries.len() == 0 {
        -1
    } else if is_key(entries.last().0, key) {
        entries.len() - 1
    } else {
        key_position(entries.drop_last(), key)
    }
}

/// Every key of the table is one of the strings `a`, `b` and `c`.
pub open spec fn keys_among(
    entries: Seq<(ScriptValue, ScriptValue)>,
    a: Seq<char>,
    b: Seq<char>,
    c: Seq<char>,
) -> bool {
    forall|i: int|
        0 <= i < entries.len() ==> (is_key(#[trigger] entries[i].0, a) || is_key(entries[i].0, b)
            || is_key(entries[i].0, c))
}

/// `p` is a position of `entries`.
pub open spec fn found(entries: Seq<(ScriptValue, ScriptValue)>, p: int) -> bool {
    0 <= p < entries.len()
}

/// The text of a string value.
pub open spec fn string_of(v: ScriptValue) -> Option<Seq<char>> {
    match v {
        ScriptValue::Str(s) => Some(s@),
        _ => None,
    }
}

/// A sequence of strings: entries keyed `1..=n` in order, each a string.
pub open spec fn decoded_strings(entries: Seq<(ScriptValue, ScriptValue)>) -> Option<Seq<Seq<char>>>
    decreases entries.len(),
{
    if entries.len() == 0 {
        Some(seq![])
    } else {
        match (decoded_strings(entries.drop_last()), string_of(entries.last().1)) {
            (Some(init), Some(s)) => if entries.last().0 == ScriptValue::Integer(
                entries.len() as i64,
            ) {
                Some(init.push(s))
            } else {
                None
            },
            _ => None,
        }
    }
}

/// An attribute table: every key a valid name and every value a string.
pub open spec fn decoded_attributes(entries: Seq<(ScriptValue, ScriptValue)>) -> Option<
    Seq<(Seq<char>, Seq<char>)>,
>
    decreases entries.len(),
{
    if entries.len() == 0 {
        Some(seq![])
    } else {
        match (
            decoded_attributes(entries.drop_last()),
            string_of(entries.last().0),
            string_of(entries.last().1),
        ) {
            (Some(init), Some(k), Some(v)) => if valid_name(k) {
                Some(init.push((k, v)))
            } else {
                None
            },
            _ => None,
        }
    }
}

/// A node, from the value a script returned:
/// `{ text = "..." }`, `{ doctype = { "html" } }`, or
/// `{ tag = "div", attributes = { ... }, children = { ... } }` with a valid tag
/// name, where `attributes` and `children` may be left out and a void element
/// has no children. `tag` is looked at first, then `text`, then `doctype`; a
/// table with any key besides those of its kind has no node, nor has anything else.
pub open spec fn decoded_node(v: ScriptValue) -> Option<NodeModel>
    decreases v,
{
    match v {
        ScriptValue::Table(entries) => {
            let es = entries@;
            let t = key_position(es, "tag"@);
            let x = key_position(es, "text"@);
            let d = key_position(es, "doctype"@);
            if found(es, t) {
                let a = key_position(es, "attributes"@);
                let c = key_position(es, "children"@);
                let attrs = if found(es, a) {
                    match es[a].1 {
                        ScriptValue::Table(ae) => decoded_attributes(ae@),
                        _ => None,
                    }
                } else {
                    Some(seq![])
                };
                let kids = if found(es, c) {
                    match es[c].1 {
                        ScriptValue::Table(ce) => decoded_nodes(ce@),
                        _ => None,
                    }
                } else {
                    Some(seq![])
                };
                match (string_of(es[t].1), attrs, kids) {
                    (Some(tag), Some(attrs), Some(kids)) => if valid_name(tag) && keys_among(
                        es,
                        "tag"@,
                        "attributes"@,
                        "children"@,
                    ) && !(is_void(tag) && kids.len() > 0) {
                        Some(NodeModel::Element(tag, attrs, kids))
                    } else {
                        None
                    },
                    _ => None,
                }
            } else if found(es, x) {
                match string_of(es[x].1) {
                    Some(s) => if keys_among(es, "text"@, "text"@, "text"@) {
                        Some(NodeModel::Text(s))
                    } else {
                        None
                    },
                    None => None,
                }
            } else if found(es, d) {
                match es[d].1 {
                    ScriptValue::Table(pe) => match decoded_strings(pe@) {
                        Some(parts) => if keys_among(es, "doctype"@, "doctype"@, "doctype"@) {
                            Some(NodeModel::Doctype(parts))
                        } else {
                            None
                        },
                        None => None,
                    },
                    _ => None,
                }
            } else {
                None
            }
        },
        _ => None,
    }
}

/// A sequence of nodes: entries keyed `1..=n` in order, each a node.
pub open spec fn decoded_nodes(entries: Seq<(ScriptValue, ScriptValue)>) -> Option<Seq<NodeModel>>
    decreases entries,
{
    if entries.len() == 0 {
        Some(seq![])
    } else {
        match (decoded_nodes(entries.drop_last()), decoded_node(entries.last().1)) {
            (Some(init), Some(n)) => if entries.last().0 == ScriptValue::Integer(
                entries.len() as i64,
            ) {
                Some(init.push(n))
            } else {
                None
            },
            _ => None,
        }
    }
}

pub proof fn lemma_key_position_range(entries: Seq<(ScriptValue, ScriptValue)>, key: Seq<char>)
    ensures
        -1 <= key_position(entries, key) < entries.len(),
    decreases entries.len(),
{
    if entries.len() > 0 {
        lemma_key_position_range(entries.drop_last(), key);
    }
}

proof fn lemma_strings_none(es: Seq<(ScriptValue, ScriptValue)>, i: int)
    requires
        0 <= i <= es.len(),
        decoded_strings(es.subrange(0, i)) is None,
    ensures
        decoded_strings(es) is None,
    decreases es.len(),
{
    if i < es.len() {
        assert(es.drop_last().subrange(0, i) =~= es.subrange(0, i));
        lemma_strings_none(es.drop_last(), i);
    } else {
        assert(es.subrange(0, i) =~= es);
    }
}

proof fn lemma_attributes_none(es: Seq<(ScriptValue, ScriptValue)>, i: int)
    requires
        0 <= i <= es.len(),
        decoded_attributes(es.subrange(0, i)) is None,
    ensures
        decoded_attributes(es) is None,
    decreases es.len(),
{
    if i < es.len() {
        assert(es.drop_last().subrange(0, i) =~= es.subrange(0, i));
        lemma_attributes_none(es.drop_last(), i);
    } else {
        assert(es.subrange(0, i) =~= es);
    }
}

proof fn lemma_nodes_none(es: Seq<(ScriptValue, ScriptValue)>, i: int)
    requires
        0 <= i <= es.len(),
        decoded_nodes(es.subrange(0, i)) is None,
    ensures
        decoded_nodes(es) is None,
    decreases es.len(),
{
    if i < es.len() {
        assert(es.drop_last().subrange(0, i) =~= es.subrange(0, i));
        lemma_nodes_none(es.drop_last(), i);
    } else {
        assert(es.subrange(0, i) =~= es);
    }
}

/// Whether every key of the table is one of the strings `a`, `b` and `c`.
fn keys_only(entries: &Vec<(ScriptValue, ScriptValue)>, a: &str, b: &str, c: &str) -> (r: bool)
    ensures
        r == keys_among(entries@, a@, b@, c@),
{
    let mut i: usize = 0;
    while i < entries.len()
        invariant
            i <= entries@.len(),
            forall|j: int|
                0 <= j < i ==> (is_key(#[trigger] entries@[j].0, a@) || is_key(entries@[j].0, b@)
                    || is_key(entries@[j].0, c@)),
        decreases entries@.len() - i,
    {
        match &entries[i].0 {
            ScriptValue::Str(k) => {
                if !(same_text(k.as_str(), a) || same_text(k.as_str(), b) || same_text(
                    k.as_str(),
                    c,
                )) {
                    return false;
                }
            },
            _ => {
                return false;
            },
        }
        i = i + 1;
    }
    true
}

/// The position of the last entry keyed by the string `key`.
fn find_key(entries: &Vec<(ScriptValue, ScriptValue)>, key: &String) -> (r: Option<usize>)
    ensures
        match r {
            Some(p) => p == key_position(entries@, key@),
            None => key_position(entries@, key@) == -1,
        },
{
    let mut i: usize = entries.len();
    assert(entries@.subrange(0, i as int) =~= entries@);
    while i > 0
        invariant
            i <= entries@.len(),
            key_position(entries@, key@) == key_position(entries@.subrange(0, i as int), key@),
        decreases i,
    {
        let ghost pre = entries@.subrange(0, i as int);
        assert(pre.last() == entries@[i - 1]);
        assert(pre.drop_last() =~= entries@.subrange(0, i - 1));
        match &entries[i - 1].0 {
            ScriptValue::Str(s) => {
                if *s == *key {
                    return Some(i - 1);
                }
            },
            _ => {},
        }
        i = i - 1;
    }
    assert(entries@.subrange(0, 0) =~= Seq::<(ScriptValue, ScriptValue)>::empty());
    None
}

/// The detail of every refusal of a script's value.
pub const NOT_A_NODE: &'static str = "the script's value is not shaped like a document node";

/// The refusal of a value that has no node shape.
pub open spec fn is_refusal(e: SandboxError) -> bool {
    e is Convert && e->Convert_0@ == NOT_A_NODE@
}

fn convert_error() -> (e: SandboxError)
    ensures
        is_refusal(e),
{
    SandboxError::Convert(String::from_str(NOT_A_NODE))
}

fn decode_strings(entries: &Vec<(ScriptValue, ScriptValue)>) -> (r: Option<Vec<String>>)
    ensures
        match r {
            Some(parts) => decoded_strings(entries@) == Some(strings_model(parts@)),
            None => decoded_strings(entries@) is None,
        },
{
    let mut out: Vec<String> = Vec::new();
    let mut i: usize = 0;
    while i < entries.len()
        invariant
            i <= entries@.len(),
            decoded_strings(entries@.subrange(0, i as int)) == Some(strings_model(out@)),
        decreases entries@.len() - i,
    {
        let ghost pre = entries@.subrange(0, i + 1);
        assert(pre.drop_last() =~= entries@.subrange(0, i as int));
        assert(pre.last() == entries@[i as int]);
        let keyed = match &entries[i].0 {
            ScriptValue::Integer(k) => *k == (i + 1) as i64,
            _ => false,
        };
        match &entries[i].1 {
            ScriptValue::Str(s) => {
                if !keyed {
                    proof {
                        lemma_strings_none(entries@, i + 1);
                    }
                    return None;
                }
                let ghost before = out@;
                out.push(s.clone());
                assert(strings_model(out@) =~= strings_model(before).push(s@));
            },
            _ => {
                proof {
                    lemma_strings_none(entries@, i + 1);
                }
                return None;
            },
        }
        i = i + 1;
    }
    assert(entries@.subrange(0, entries@.len() as int) =~= entries@);
    Some(out)
}

fn decode_attributes(entries: &Vec<(ScriptValue, ScriptValue)>) -> (r: Option<
    Vec<(String, String)>,
>)
    ensures
        match r {
            Some(attrs) => decoded_attributes(entries@) == Some(attributes_model(attrs@)),
            None => decoded_attributes(entries@) is None,
        },
{
    let mut out: Vec<(String, String)> = Vec::new();
    let mut i: usize = 0;
    while i < entries.len()
        invariant
            i <= entries@.len(),
            decoded_attributes(entries@.subrange(0, i as int)) == Some(attributes_model(out@)),
        decreases entries@.len() - i,
    {
        let ghost pre = entries@.subrange(0, i + 1);
        assert(pre.drop_last() =~= entries@.subrange(0, i as int));
        assert(pre.last() == entries@[i as int]);
        match (&entries[i].0, &entries[i].1) {
            (ScriptValue::Str(k), ScriptValue::Str(v)) => {
                if !is_valid_name(k.as_str()) {
                    proof {
                        lemma_attributes_none(entries@, i + 1);
                    }
                    return None;
                }
                let ghost before = out@;
                out.push((k.clone(), v.clone()));
                assert(attributes_model(out@) =~= attributes_model(before).push((k@, v@)));
            },
            _ => {
                proof {
                    lemma_attributes_none(entries@, i + 1);
                }
                return None;
            },
        }
        i = i + 1;
    }
    assert(entries@.subrange(0, entries@.len() as int) =~= entries@);
    Some(out)
}

/// Decodes the value a page script returned into a document node, refusing
/// anything that does not follow the node shape.
pub fn decode_node(v: &ScriptValue) -> (r: Result<DocumentNode, SandboxError>)
    ensures
        match r {
            Ok(n) => decoded_node(*v) == Some(node_model(n)),
            Err(e) => decoded_node(*v) is None && is_refusal(e),
        },
    decreases v,
{
    let entries = match v {
        ScriptValue::Table(entries) => entries,
        _ => {
            return Err(convert_error());
        },
    };
    proof {
        lemma_key_position_range(entries@, "tag"@);
        lemma_key_position_range(entries@, "text"@);
        lemma_key_position_range(entries@, "doctype"@);
        lemma_key_position_range(entries@, "attributes"@);
        lemma_key_position_range(entries@, "children"@);
    }
    if let Some(t) = find_key(entries, &String::from_str("tag")) {
        let tag = match &entries[t].1 {
            ScriptValue::Str(s) => s,
            _ => {
                return Err(convert_error());
            },
        };
        let attributes = match find_key(entries, &String::from_str("attributes")) {
            Some(a) => match &entries[a].1 {
                ScriptValue::Table(ae) => match decode_attributes(ae) {
                    Some(attrs) => attrs,
                    None => {
                        return Err(convert_error());
                    },
                },
                _ => {
                    return Err(convert_error());
                },
            },
            None => Vec::new(),
        };
        let children = match find_key(entries, &String::from_str("children")) {
            Some(c) => match &entries[c].1 {
                ScriptValue::Table(ce) => {
                    proof {
                        assert(decreases_to!(*v => v->Table_0));
                    }
                    match decode_nodes(ce) {
                        Ok(kids) => kids,
                        Err(e) => {
                            return Err(e);
                        },
                    }
                },
                _ => {
                    return Err(convert_error());
                },
            },
            None => Vec::new(),
        };
        proof {
            lemma_empty_models();
            lemma_nodes_model_len(children@);
        }
        if !is_valid_name(tag.as_str()) || !keys_only(entries, "tag", "attributes", "children") || (
        is_void_tag(tag.as_str()) && children.len() > 0) {
            return Err(convert_error());
        }
        Ok(DocumentNode::Element { tag: tag.clone(), attributes, children })
    } else if let Some(x) = find_key(entries, &String::from_str("text")) {
        match &entries[x].1 {
            ScriptValue::Str(s) => if keys_only(entries, "text", "text", "text") {
                Ok(DocumentNode::Text { content: s.clone() })
            } else {
                Err(convert_error())
            },
            _ => Err(convert_error()),
        }
    } else if let Some(d) = find_key(entries, &String::from_str("doctype")) {
        match &entries[d].1 {
            ScriptValue::Table(pe) => match decode_strings(pe) {
                Some(parts) => if keys_only(entries, "doctype", "doctype", "doctype") {
                    Ok(DocumentNode::Doctype { parts })
                } else {
                    Err(convert_error())
                },
                None => Err(convert_error()),
            },
            _ => Err(convert_error()),
        }
    } else {
        Err(convert_error())
    }
}

proof fn lemma_empty_models()
    ensures
        attributes_model(Seq::<(String, String)>::empty()) == Seq::<(Seq<char>, Seq<char>)>::empty(),
        nodes_model(Seq::<DocumentNode>::empty()) == Seq::<NodeModel>::empty(),
{
    assert(attributes_model(Seq::<(String, String)>::empty()) =~= Seq::<(Seq<char>, Seq<char>)>::empty());
}

/// Decodes a sequence of nodes: entries keyed `1..=n` in order.
fn decode_nodes(entries: &Vec<(ScriptValue, ScriptValue)>) -> (r: Result<
    Vec<DocumentNode>,
    SandboxError,
>)
    ensures
        match r {
            Ok(kids) => decoded_nodes(entries@) == Some(nodes_model(kids@)),
            Err(e) => decoded_nodes(entries@) is None && is_refusal(e),
        },
    decreases entries,
{
    let mut out: Vec<DocumentNode> = Vec::new();
    let mut i: usize = 0;
    while i < entries.len()
        invariant
            i <= entries@.len(),
            decoded_nodes(entries@.subrange(0, i as int)) == Some(nodes_model(out@)),
        decreases entries@.len() - i,
    {
        let ghost pre = entries@.subrange(0, i + 1);
        assert(pre.drop_last() =~= entries@.subrange(0, i as int));
        assert(pre.last() == entries@[i as int]);
        let keyed = match &entries[i].0 {
            ScriptValue::Integer(k) => *k == (i + 1) as i64,
            _ => false,
        };
        proof {
            assert(decreases_to!(*entries => entries@[i as int].1));
        }
        match decode_node(&entries[i].1) {
            Ok(n) => {
                if !keyed {
                    proof {
                        lemma_nodes_none(entries@, i + 1);
                    }
                    return Err(convert_error());
                }
                proof {
                    lemma_nodes_model_push(out@, n);
                }
                out.push(n);
            },
            Err(e) => {
                proof {
                    lemma_nodes_none(entries@, i + 1);
                }
                return Err(e);
            },
        }
        i = i + 1;
    }
    assert(entries@.subrange(0, entries@.len() as int) =~= entries@);
    Ok(out)
}

/// The text of a page whose root node a script built: an HTML doctype, then
/// the root.
pub open spec fn script_page_html(root: NodeModel) -> Seq<char> {
    nodes_html(seq![NodeModel::Doctype(seq!["html"@]), root])
}

/// Finishes a script-driven page from what evaluating the script gave: the
/// script's own failure is passed on, a value that is not a node is refused
/// with a conversion failure, and a node becomes the page's root.
pub fn render_script_page(evaluated: Result<ScriptValue, SandboxError>) -> (r: Result<
    String,
    SandboxError,
>)
    ensures
        match evaluated {
            Err(e) => r == Err::<String, SandboxError>(e),
            Ok(v) => match decoded_node(v) {
                Some(root) => r is Ok && r->Ok_0@ == script_page_html(root),
                None => r is Err && is_refusal(r->Err_0),
            },
        },
{
    match evaluated {
        Err(e) => Err(e),
        Ok(v) => {
            let root = match decode_node(&v) {
                Ok(root) => root,
                Err(e) => {
                    return Err(e);
                },
            };
            let mut parts: Vec<String> = Vec::new();
            parts.push(String::from_str("html"));
            let head = doctype(parts);
            assert(strings_model(parts@) =~= seq!["html"@]);
            let mut nodes: Vec<DocumentNode> = Vec::new();
            nodes.push(head);
            nodes.push(root);
            let page = Document::new(nodes);
            proof {
                lemma_nodes_model_push(Seq::<DocumentNode>::empty(), head);
                lemma_nodes_model_push(seq![head], root);
                assert(nodes@ =~= seq![head].push(root));
                assert(Seq::<DocumentNode>::empty().push(head) =~= seq![head]);
                assert(nodes_model(nodes@) =~= seq![
                    NodeModel::Doctype(seq!["html"@]),
                    node_model(root),
                ]);
            }
            Ok(page.serialize())
        },
    }
}

/// The failure of a render, as reported to the client.
#[derive(Debug, Clone)]
pub struct RenderError {
    pub message: String,
}

/// The message that names a sandbox failure and its detail.
pub open spec fn sandbox_message(e: SandboxError) -> Seq<char> {
    match e {
        SandboxError::Compile(d) => "script failed to compile: "@ + d@,
        SandboxError::Runtime(d) => "script failed while running: "@ + d@,
        SandboxError::Convert(d) => "script result is not a document: "@ + d@,
    }
}

impl RenderError {
    pub fn from_sandbox(e: SandboxError) -> (r: RenderError)
        ensures
            r.message@ == sandbox_message(e),
    {
        let message = match e {
            SandboxError::Compile(d) => String::from_str("script failed to compile: ").concat(
                d.as_str(),
            ),
            SandboxError::Runtime(d) => String::from_str("script failed while running: ").concat(
                d.as_str(),
            ),
            SandboxError::Convert(d) => String::from_str("script result is not a document: ").concat(
                d.as_str(),
            ),
        };
        RenderError { message }
    }

    /// A failed render is answered with an internal server error.
    pub fn status_code(&self) -> (r: u16)
        ensures
            r == 500,
    {
        500
    }

    /// The plain-text body of the error reply.
    pub fn response_body(&self) -> (r: String)
        ensures
            r@ == "Something went wrong: "@ + self.message@,
    {
        String::from_str("Something went wrong: ").concat(self.message.as_str())
    }
}

} // verus!
