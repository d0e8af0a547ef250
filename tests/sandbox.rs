use dashboard::document::{Document, DocumentNode};
use dashboard::sandbox::{
    decode_node, render_script_page, RenderError, SandboxError, ScriptValue, NOT_A_NODE,
};

fn s(v: &str) -> ScriptValue {
    ScriptValue::Str(v.to_string())
}

fn list(items: Vec<ScriptValue>) -> ScriptValue {
    ScriptValue::Table(
        items
            .into_iter()
            .enumerate()
            .map(|(i, v)| (ScriptValue::Integer(i as i64 + 1), v))
            .collect(),
    )
}

fn page_value() -> ScriptValue {
    ScriptValue::Table(vec![
        (s("tag"), s("main")),
        (s("attributes"), ScriptValue::Table(vec![(s("class"), s("tiles"))])),
        (
            s("children"),
            list(vec![ScriptValue::Table(vec![(s("text"), s("hi & bye"))])]),
        ),
    ])
}

fn render(node: DocumentNode) -> String {
    Document::new(vec![node]).serialize()
}

#[test]
fn decodes_an_element_tree() {
    let node = decode_node(&page_value()).unwrap();
    assert_eq!(render(node), "<main class=\"tiles\">hi &amp; bye</main>");
}

#[test]
fn decodes_a_doctype() {
    let v = ScriptValue::Table(vec![(s("doctype"), list(vec![s("html")]))]);
    assert_eq!(render(decode_node(&v).unwrap()), "<!DOCTYPE html>");
}

#[test]
fn element_without_attributes_or_children() {
    let v = ScriptValue::Table(vec![(s("tag"), s("br"))]);
    assert_eq!(render(decode_node(&v).unwrap()), "<br>");
    let p = ScriptValue::Table(vec![(s("tag"), s("p"))]);
    assert_eq!(render(decode_node(&p).unwrap()), "<p></p>");
}

fn is_refusal(r: Result<DocumentNode, SandboxError>) -> bool {
    match r {
        Err(SandboxError::Convert(m)) => m == NOT_A_NODE,
        _ => false,
    }
}

#[test]
fn unknown_keys_are_refused() {
    let v = ScriptValue::Table(vec![(s("tag"), s("br")), (s("extra"), ScriptValue::Boolean(true))]);
    assert!(is_refusal(decode_node(&v)));
    let t = ScriptValue::Table(vec![(s("text"), s("a")), (s("tag"), ScriptValue::Integer(1))]);
    assert!(is_refusal(decode_node(&t)));
    let u = ScriptValue::Table(vec![(s("text"), s("a")), (s("class"), s("x"))]);
    assert!(is_refusal(decode_node(&u)));
}

#[test]
fn names_outside_the_name_characters_are_refused() {
    let bad_tag = ScriptValue::Table(vec![(s("tag"), s("div onclick=x"))]);
    assert!(is_refusal(decode_node(&bad_tag)));
    let bad_attr = ScriptValue::Table(vec![
        (s("tag"), s("div")),
        (s("attributes"), ScriptValue::Table(vec![(s("a\"b"), s("v"))])),
    ]);
    assert!(is_refusal(decode_node(&bad_attr)));
    let ok = ScriptValue::Table(vec![
        (s("tag"), s("my-el")),
        (s("attributes"), ScriptValue::Table(vec![(s("data-x_1:y.z"), s("v"))])),
    ]);
    assert_eq!(render(decode_node(&ok).unwrap()), "<my-el data-x_1:y.z=\"v\"></my-el>");
}

#[test]
fn void_element_with_children_is_refused() {
    let v = ScriptValue::Table(vec![
        (s("tag"), s("img")),
        (s("children"), list(vec![ScriptValue::Table(vec![(s("text"), s("x"))])])),
    ]);
    assert!(is_refusal(decode_node(&v)));
    let empty = ScriptValue::Table(vec![(s("tag"), s("img")), (s("children"), list(vec![]))]);
    assert_eq!(render(decode_node(&empty).unwrap()), "<img>");
}

#[test]
fn non_table_values_are_refused() {
    for v in [ScriptValue::Nil, ScriptValue::Integer(3), s("text"), ScriptValue::Other("function".to_string())] {
        assert!(matches!(decode_node(&v), Err(SandboxError::Convert(_))));
    }
}

#[test]
fn empty_tag_is_refused() {
    let v = ScriptValue::Table(vec![(s("tag"), s(""))]);
    assert!(matches!(decode_node(&v), Err(SandboxError::Convert(_))));
}

#[test]
fn table_without_node_keys_is_refused() {
    let v = ScriptValue::Table(vec![(s("name"), s("div"))]);
    assert!(matches!(decode_node(&v), Err(SandboxError::Convert(_))));
}

#[test]
fn children_out_of_order_are_refused() {
    let kids = ScriptValue::Table(vec![
        (ScriptValue::Integer(2), ScriptValue::Table(vec![(s("text"), s("b"))])),
        (ScriptValue::Integer(1), ScriptValue::Table(vec![(s("text"), s("a"))])),
    ]);
    let v = ScriptValue::Table(vec![(s("tag"), s("div")), (s("children"), kids)]);
    assert!(matches!(decode_node(&v), Err(SandboxError::Convert(_))));
}

#[test]
fn non_string_attribute_is_refused() {
    let attrs = ScriptValue::Table(vec![(s("width"), ScriptValue::Integer(3))]);
    let v = ScriptValue::Table(vec![(s("tag"), s("div")), (s("attributes"), attrs)]);
    assert!(matches!(decode_node(&v), Err(SandboxError::Convert(_))));
}

#[test]
fn script_page_gets_a_doctype() {
    let page = render_script_page(Ok(page_value())).unwrap();
    assert_eq!(page, "<!DOCTYPE html><main class=\"tiles\">hi &amp; bye</main>");
}

#[test]
fn script_returning_a_non_document_is_a_conversion_failure() {
    let r = render_script_page(Ok(ScriptValue::Integer(42)));
    let e = r.unwrap_err();
    assert_eq!(e, SandboxError::Convert(NOT_A_NODE.to_string()));
    let re = RenderError::from_sandbox(e);
    assert_eq!(re.status_code(), 500);
    assert!(re.response_body().starts_with("Something went wrong: script result is not a document: "));
}

#[test]
fn script_failures_pass_through() {
    let r = render_script_page(Err(SandboxError::Runtime("boom".to_string())));
    assert_eq!(r, Err(SandboxError::Runtime("boom".to_string())));
    let re = RenderError::from_sandbox(SandboxError::Compile("syntax".to_string()));
    assert_eq!(re.message, "script failed to compile: syntax");
    assert_eq!(re.response_body(), "Something went wrong: script failed to compile: syntax");
}

#[test]
fn fetch_error_seen_by_script_then_page_still_renders() {
    // the script caught the fetch error and turned its message into text
    let msg = dashboard::proxy::FetchError::Network("unreachable".to_string()).sandbox_message();
    let v = ScriptValue::Table(vec![(s("text"), ScriptValue::Str(msg))]);
    let page = render_script_page(Ok(v)).unwrap();
    assert_eq!(page, "<!DOCTYPE html>Failed to fetch JSON: unreachable");
}
