use dashboard::document::{doctype, element, text, Document, DocumentNode};

fn div_with_text() -> DocumentNode {
    element(
        "div",
        vec![("class".to_string(), "a \"b\" & c".to_string())],
        vec![text("x < y & z")],
    )
}

#[test]
fn serializes_doctype_element_and_escaped_text() {
    let doc = Document::new(vec![doctype(vec!["html".to_string()]), div_with_text()]);
    assert_eq!(
        doc.serialize(),
        "<!DOCTYPE html><div class=\"a &quot;b&quot; &amp; c\">x &lt; y &amp; z</div>"
    );
}

#[test]
fn serialization_is_deterministic() {
    let a = Document::new(vec![doctype(vec!["html".to_string()]), div_with_text()]);
    let b = Document::new(vec![doctype(vec!["html".to_string()]), div_with_text()]);
    assert_eq!(a.serialize(), a.serialize());
    assert_eq!(a.serialize(), b.serialize());
}

#[test]
fn nested_children_are_written_in_preorder() {
    let inner = element("span", vec![], vec![text("one"), text("two")]);
    let outer = element(
        "p",
        vec![("id".to_string(), "k".to_string()), ("title".to_string(), "t".to_string())],
        vec![inner, text(">")],
    );
    let doc = Document::new(vec![outer]);
    assert_eq!(
        doc.serialize(),
        "<p id=\"k\" title=\"t\"><span>onetwo</span>&gt;</p>"
    );
}

#[test]
fn empty_document_is_empty_text() {
    assert_eq!(Document::new(vec![]).serialize(), "");
}

#[test]
fn text_keeps_quotes_and_non_ascii() {
    let doc = Document::new(vec![text("\"é\"")]);
    assert_eq!(doc.serialize(), "\"é\"");
}

#[test]
fn doctype_with_several_parts() {
    let doc = Document::new(vec![doctype(vec!["html".to_string(), "PUBLIC".to_string()])]);
    assert_eq!(doc.serialize(), "<!DOCTYPE html PUBLIC>");
}

#[test]
fn void_elements_have_no_closing_tag() {
    let doc = Document::new(vec![
        element("br", vec![], vec![]),
        element("link", vec![("rel".to_string(), "stylesheet".to_string())], vec![]),
    ]);
    assert_eq!(doc.serialize(), "<br><link rel=\"stylesheet\">");
}
