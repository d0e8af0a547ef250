use vstd::prelude::*;
use vstd::string::StringExecFns;

verus! {

broadcast use {
    vstd::seq::axiom_seq_index_decreases,
    vstd::seq::axiom_seq_subrange_decreases,
    vstd::std_specs::vec::axiom_vec_decreases_to_view,
    vstd::std_specs::vec::axiom_vec_index_decreases,
};

/// One node of a markup tree.
#[derive(Debug)]
pub enum DocumentNode {
    /// `<!DOCTYPE part ...>`.
    Doctype { parts: Vec<String> },
    /// A tag with its attributes, in order, and its children.
    Element { tag: String, attributes: Vec<(String, String)>, children: Vec<DocumentNode> },
    /// Character data, escaped when written.
    Text { content: String },
}

/// An ordered sequence of top-level nodes.
#[derive(Debug)]
pub struct Document {
    pub nodes: Vec<DocumentNode>,
}

/// The mathematical shape of a node: strings as character sequences.
pub enum NodeModel {
    Doctype(Seq<Seq<char>>),
    Element(Seq<char>, Seq<(Seq<char>, Seq<char>)>, Seq<NodeModel>),
    Text(Seq<char>),
}

pub open spec fn strings_model(parts: Seq<String>) -> Seq<Seq<char>> {
    parts.map_values(|p: String| p@)
}

pub open spec fn attributes_model(attributes: Seq<(String, String)>) -> Seq<(Seq<char>, Seq<char>)> {
    attributes.map_values(|a: (String, String)| (a.0@, a.1@))
}

pub open spec fn node_model(n: DocumentNode) -> NodeModel
    decreases n,
{
    match n {
        DocumentNode::Doctype { parts } => NodeModel::Doctype(strings_model(parts@)),
        DocumentNode::Element { tag, attributes, children } => NodeModel::Element(
            tag@,
            attributes_model(attributes@),
            nodes_model(children@),
        ),
        DocumentNode::Text { content } => NodeModel::Text(content@),
    }
}

pub open spec fn nodes_model(nodes: Seq<DocumentNode>) -> Seq<NodeModel>
    decreases nodes,
{
    if nodes.len() == 0 {
        seq![]
    } else {
        nodes_model(nodes.drop_last()).push(node_model(nodes.last()))
    }
}

pub proof fn lemma_nodes_model_push(nodes: Seq<DocumentNode>, n: DocumentNode)
    ensures
        nodes_model(nodes.push(n)) == nodes_model(nodes).push(node_model(n)),
        nodes_model(nodes.push(n)).len() == nodes.len() + 1,
{
    assert(nodes.push(n).drop_last() =~= nodes);
    lemma_nodes_model_len(nodes);
}

pub proof fn lemma_nodes_html_push(nodes: Seq<NodeModel>, n: NodeModel)
    ensures
        nodes_html(nodes.push(n)) == nodes_html(nodes) + node_html(n),
{
    assert(nodes.push(n).drop_last() =~= nodes);
}

pub proof fn lemma_nodes_model_len(nodes: Seq<DocumentNode>)
    ensures
        nodes_model(nodes).len() == nodes.len(),
    decreases nodes.len(),
{
    if nodes.len() > 0 {
        lemma_nodes_model_len(nodes.drop_last());
    }
}

/// A character allowed in tag and attribute names: ASCII letters and digits,
/// `-`, `_`, `:` and `.`.
pub open spec fn is_name_char(c: char) -> bool {
    let u = c as u32;
    (0x61 <= u && u <= 0x7a) || (0x41 <= u && u <= 0x5a) || (0x30 <= u && u <= 0x39) || c == '-'
        || c == '_' || c == ':' || c == '.'
}

/// A tag or attribute name: non-empty, of name characters only.
pub open spec fn valid_name(s: Seq<char>) -> bool {
    s.len() > 0 && forall|i: int| 0 <= i < s.len() ==> is_name_char(#[trigger] s[i])
}

/// An element that has no content and no closing tag.
pub open spec fn is_void(tag: Seq<char>) -> bool {
    tag == "area"@ || tag == "base"@ || tag == "br"@ || tag == "col"@ || tag == "embed"@ || tag
        == "hr"@ || tag == "img"@ || tag == "input"@ || tag == "link"@ || tag == "meta"@ || tag
        == "source"@ || tag == "track"@ || tag == "wbr"@
}

/// Whether two texts are the same.
pub fn same_text(a: &str, b: &str) -> (r: bool)
    ensures
        r == (a@ == b@),
{
    let n = a.unicode_len();
    if n != b.unicode_len() {
        return false;
    }
    let mut i: usize = 0;
    while i < n
        invariant
            i <= n,
            n == a@.len(),
            n == b@.len(),
            a@.subrange(0, i as int) == b@.subrange(0, i as int),
        decreases n - i,
    {
        if a.get_char(i) != b.get_char(i) {
            return false;
        }
        assert(a@.subrange(0, i + 1) =~= a@.subrange(0, i as int).push(a@[i as int]));
        assert(b@.subrange(0, i + 1) =~= b@.subrange(0, i as int).push(b@[i as int]));
        i = i + 1;
    }
    assert(a@ =~= a@.subrange(0, n as int));
    assert(b@ =~= b@.subrange(0, n as int));
    true
}

pub fn is_void_tag(tag: &str) -> (r: bool)
    ensures
        r == is_void(tag@),
{
    same_text(tag, "area") || same_text(tag, "base") || same_text(tag, "br") || same_text(
        tag,
        "col",
    ) || same_text(tag, "embed") || same_text(tag, "hr") || same_text(tag, "img") || same_text(
        tag,
        "input",
    ) || same_text(tag, "link") || same_text(tag, "meta") || same_text(tag, "source")
        || same_text(tag, "track") || same_text(tag, "wbr")
}

/// Whether `s` is a valid tag or attribute name.
pub fn is_valid_name(s: &str) -> (r: bool)
    ensures
        r == valid_name(s@),
{
    let n = s.unicode_len();
    if n == 0 {
        return false;
    }
    let mut i: usize = 0;
    while i < n
        invariant
            i <= n,
            n == s@.len(),
            forall|j: int| 0 <= j < i ==> is_name_char(#[trigger] s@[j]),
        decreases n - i,
    {
        let c = s.get_char(i);
        let u = c as u32;
        let ok = (0x61 <= u && u <= 0x7a) || (0x41 <= u && u <= 0x5a) || (0x30 <= u && u <= 0x39)
            || c == '-' || c == '_' || c == ':' || c == '.';
        if !ok {
            return false;
        }
        i = i + 1;
    }
    true
}

/// How one character of text is written; inside an attribute value the
/// double quote is escaped as well.
pub open spec fn escape_char(c: char, in_attribute: bool) -> Seq<char> {
    if c == '&' {
        "&amp;"@
    } else if c == '<' {
        "&lt;"@
    } else if c == '>' {
        "&gt;"@
    } else if in_attribute && c == '"' {
        "&quot;"@
    } else {
        seq![c]
    }
}

/// Text with every character escaped.
pub open spec fn escaped(s: Seq<char>, in_attribute: bool) -> Seq<char>
    decreases s.len(),
{
    if s.len() == 0 {
        seq![]
    } else {
        escaped(s.drop_last(), in_attribute) + escape_char(s.last(), in_attribute)
    }
}

/// ` part` for each doctype part, in order.
pub open spec fn parts_html(parts: Seq<Seq<char>>) -> Seq<char>
    decreases parts.len(),
{
    if parts.len() == 0 {
        seq![]
    } else {
        parts_html(parts.drop_last()) + " "@ + parts.last()
    }
}

/// ` name="value"` for each attribute, in order.
pub open spec fn attributes_html(attributes: Seq<(Seq<char>, Seq<char>)>) -> Seq<char>
    decreases attributes.len(),
{
    if attributes.len() == 0 {
        seq![]
    } else {
        attributes_html(attributes.drop_last()) + " "@ + attributes.last().0 + "=\""@
            + escaped(attributes.last().1, true) + "\""@
    }
}

/// The text of one node: its own markup, with its children written in order
/// between the opening and the closing tag.
pub open spec fn node_html(n: NodeModel) -> Seq<char>
    decreases n,
{
    match n {
        NodeModel::Doctype(parts) => "<!DOCTYPE"@ + parts_html(parts) + ">"@,
        NodeModel::Element(tag, attributes, children) => if is_void(tag) {
            "<"@ + tag + attributes_html(attributes) + ">"@
        } else {
            "<"@ + tag + attributes_html(attributes) + ">"@ + nodes_html(children) + "</"@ + tag
                + ">"@
        },
        NodeModel::Text(content) => escaped(content, false),
    }
}

/// The text of a sequence of nodes, one after another.
pub open spec fn nodes_html(nodes: Seq<NodeModel>) -> Seq<char>
    decreases nodes,
{
    if nodes.len() == 0 {
        seq![]
    } else {
        nodes_html(nodes.drop_last()) + node_html(nodes.last())
    }
}

fn push_escaped(out: &mut String, s: &str, in_attribute: bool)
    ensures
        final(out)@ == old(out)@ + escaped(s@, in_attribute),
{
    let n = s.unicode_len();
    let mut i: usize = 0;
    while i < n
        invariant
            i <= n,
            n == s@.len(),
            out@ == old(out)@ + escaped(s@.subrange(0, i as int), in_attribute),
        decreases n - i,
    {
        let c = s.get_char(i);
        if c == '&' {
            out.append("&amp;");
        } else if c == '<' {
            out.append("&lt;");
        } else if c == '>' {
            out.append("&gt;");
        } else if in_attribute && c == '"' {
            out.append("&quot;");
        } else {
            let one = s.substring_char(i, i + 1);
            assert(one@ =~= seq![c]);
            out.append(one);
        }
        assert(s@.subrange(0, i + 1).drop_last() =~= s@.subrange(0, i as int));
        i = i + 1;
    }
    assert(s@.subrange(0, n as int) =~= s@);
}

fn push_parts(out: &mut String, parts: &Vec<String>)
    ensures
        final(out)@ == old(out)@ + parts_html(strings_model(parts@)),
{
    let mut i: usize = 0;
    while i < parts.len()
        invariant
            i <= parts@.len(),
            out@ == old(out)@ + parts_html(strings_model(parts@.subrange(0, i as int))),
        decreases parts@.len() - i,
    {
        out.append(" ");
        out.append(parts[i].as_str());
        assert(strings_model(parts@.subrange(0, i + 1)).drop_last() =~= strings_model(
            parts@.subrange(0, i as int),
        ));
        i = i + 1;
    }
    assert(parts@.subrange(0, parts@.len() as int) =~= parts@);
}

fn push_attributes(out: &mut String, attributes: &Vec<(String, String)>)
    ensures
        final(out)@ == old(out)@ + attributes_html(attributes_model(attributes@)),
{
    let mut i: usize = 0;
    while i < attributes.len()
        invariant
            i <= attributes@.len(),
            out@ == old(out)@ + attributes_html(attributes_model(attributes@.subrange(0, i as int))),
        decreases attributes@.len() - i,
    {
        let (name, value) = &attributes[i];
        out.append(" ");
        out.append(name.as_str());
        out.append("=\"");
        push_escaped(out, value.as_str(), true);
        out.append("\"");
        assert(attributes_model(attributes@.subrange(0, i + 1)).drop_last() =~= attributes_model(
            attributes@.subrange(0, i as int),
        ));
        i = i + 1;
    }
    assert(attributes@.subrange(0, attributes@.len() as int) =~= attributes@);
}

fn push_node(out: &mut String, n: &DocumentNode)
    ensures
        final(out)@ == old(out)@ + node_html(node_model(*n)),
    decreases n,
{
    match n {
        DocumentNode::Doctype { parts } => {
            out.append("<!DOCTYPE");
            push_parts(out, parts);
            out.append(">");
        },
        DocumentNode::Element { tag, attributes, children } => {
            out.append("<");
            out.append(tag.as_str());
            push_attributes(out, attributes);
            out.append(">");
            if is_void_tag(tag.as_str()) {
                return;
            }
            let ghost before = out@;
            let mut i: usize = 0;
            while i < children.len()
                invariant
                    i <= children@.len(),
                    *n == (DocumentNode::Element {
                        tag: *tag,
                        attributes: *attributes,
                        children: *children,
                    }),
                    out@ == before + nodes_html(nodes_model(children@.subrange(0, i as int))),
                decreases children@.len() - i,
            {
                proof {
                    assert(n->Element_children == *children);
                    assert(decreases_to!(*n => n->Element_children));
                }
                let child = &children[i];
                push_node(out, child);
                proof {
                    assert(children@.subrange(0, i + 1) =~= children@.subrange(0, i as int).push(
                        *child,
                    ));
                    lemma_nodes_model_push(children@.subrange(0, i as int), *child);
                    lemma_nodes_html_push(nodes_model(children@.subrange(0, i as int)), node_model(*child));
                }
                i = i + 1;
            }
            assert(children@.subrange(0, children@.len() as int) =~= children@);
            out.append("</");
            out.append(tag.as_str());
            out.append(">");
        },
        DocumentNode::Text { content } => {
            push_escaped(out, content.as_str(), false);
        },
    }
}

/// A text node.
pub fn text(content: &str) -> (r: DocumentNode)
    ensures
        node_model(r) == NodeModel::Text(content@),
{
    DocumentNode::Text { content: String::from_str(content) }
}

/// An element with a valid tag name, attributes with valid names, and its
/// children; a void element has none.
pub fn element(tag: &str, attributes: Vec<(String, String)>, children: Vec<DocumentNode>) -> (r:
    DocumentNode)
    requires
        valid_name(tag@),
        forall|i: int| 0 <= i < attributes@.len() ==> valid_name(#[trigger] attributes@[i].0@),
        is_void(tag@) ==> children@.len() == 0,
    ensures
        node_model(r) == NodeModel::Element(
            tag@,
            attributes_model(attributes@),
            nodes_model(children@),
        ),
{
    DocumentNode::Element { tag: String::from_str(tag), attributes, children }
}

/// A doctype declaration with its parts.
pub fn doctype(parts: Vec<String>) -> (r: DocumentNode)
    ensures
        node_model(r) == NodeModel::Doctype(strings_model(parts@)),
{
    DocumentNode::Doctype { parts }
}

/// Serialization is a function of the tree's shape alone: two documents whose
/// trees are the same are written to the same text.
pub proof fn serialize_is_deterministic(a: Document, b: Document)
    requires
        nodes_model(a.nodes@) == nodes_model(b.nodes@),
    ensures
        nodes_html(nodes_model(a.nodes@)) == nodes_html(nodes_model(b.nodes@)),
{
}

impl Document {
    pub fn new(nodes: Vec<DocumentNode>) -> (r: Self)
        ensures
            r.nodes@ == nodes@,
    {
        Document { nodes }
    }

    /// Writes the document as HTML text, node after node in pre-order.
    pub fn serialize(&self) -> (r: String)
        ensures
            r@ == nodes_html(nodes_model(self.nodes@)),
    {
        let mut out = String::new();
        let mut i: usize = 0;
        while i < self.nodes.len()
            invariant
                i <= self.nodes@.len(),
                out@ == nodes_html(nodes_model(self.nodes@.subrange(0, i as int))),
            decreases self.nodes@.len() - i,
        {
            let n = &self.nodes[i];
            push_node(&mut out, n);
            proof {
                assert(self.nodes@.subrange(0, i + 1) =~= self.nodes@.subrange(0, i as int).push(*n));
                lemma_nodes_model_push(self.nodes@.subrange(0, i as int), *n);
                lemma_nodes_html_push(nodes_model(self.nodes@.subrange(0, i as int)), node_model(*n));
            }
            i = i + 1;
        }
        assert(self.nodes@.subrange(0, self.nodes@.len() as int) =~= self.nodes@);
        out
    }
}

} // verus!
