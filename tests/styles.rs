use dashboard::styles::{stylesheet, trim_end, BASE_STYLES};

#[test]
fn stylesheet_starts_with_the_theme_and_ends_with_the_generated_css() {
    let css = stylesheet(".a{color:red}");
    assert!(css.starts_with(":root {\n--color: #ffffff;"));
    assert!(css.ends_with("monospace;\n}\n\n.a{color:red}"));
    assert_eq!(css.matches("@font-face").count(), 2);
}

#[test]
fn stylesheet_drops_trailing_white_space() {
    let css = stylesheet("a \n\t");
    assert!(css.ends_with("\n\na"));
    assert_eq!(css, format!("{}a", BASE_STYLES));
}

#[test]
fn blank_generated_css_leaves_the_theme_trimmed() {
    assert_eq!(stylesheet("  \n"), BASE_STYLES.trim_end());
    assert!(stylesheet("").ends_with("monospace;\n}"));
}

#[test]
fn trim_end_matches_unicode_white_space() {
    assert_eq!(trim_end("x \u{3000}\u{a0}\u{2009}"), "x");
    assert_eq!(trim_end("  x y  "), "  x y");
    assert_eq!(trim_end(" \t\r\n"), "");
    assert_eq!(trim_end("ab"), "ab");
}
