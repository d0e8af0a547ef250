use vstd::prelude::*;
use vstd::string::StringExecFns;

verus! {

/// The theme rules that precede the generated utility classes.
pub const BASE_STYLES: &'static str = ":root {
--color: #ffffff;
--color-secondary: #cccccc;
--background-color: #3c2954;
--background-color-secondary: #6f4c9a;
--stopped-service-bg: #374151;
}

/* Fonts */
@font-face {
  font-family: \"Literata\";
  src: url(\"/fonts/Literata.woff2\") format(\"woff2\");
  font-weight: normal;
  font-style: normal;
}

@font-face {
  font-family: \"Literata\";
  src: url(\"/fonts/Literata-Italic.woff2\") format(\"woff2\");
  font-weight: normal;
  font-style: italic;
}

/* Monospace font fallback */
font-mono {
  font-family: \"SF Mono\", Monaco, \"Cascadia Code\", \"Roboto Mono\", Consolas, \"Courier New\", monospace;
}

";

/// A character that Unicode counts as white space (`char::is_whitespace`).
pub open spec fn is_white(c: char) -> bool {
    let u = c as u32;
    (0x9 <= u && u <= 0xd) || u == 0x20 || u == 0x85 || u == 0xa0 || u == 0x1680 || (0x2000 <= u
        && u <= 0x200a) || u == 0x2028 || u == 0x2029 || u == 0x202f || u == 0x205f || u == 0x3000
}

/// The text without the white space at its end.
pub open spec fn trimmed_end(s: Seq<char>) -> Seq<char>
    decreases s.len(),
{
    if s.len() > 0 && is_white(s.last()) {
        trimmed_end(s.drop_last())
    } else {
        s
    }
}

fn white(c: char) -> (r: bool)
    ensures
        r == is_white(c),
{
    let u = c as u32;
    (0x9 <= u && u <= 0xd) || u == 0x20 || u == 0x85 || u == 0xa0 || u == 0x1680 || (0x2000 <= u
        && u <= 0x200a) || u == 0x2028 || u == 0x2029 || u == 0x202f || u == 0x205f || u == 0x3000
}

/// Drops the white space at the end of `s`.
pub fn trim_end(s: &str) -> (r: String)
    ensures
        r@ == trimmed_end(s@),
{
    let mut i: usize = s.unicode_len();
    assert(s@.subrange(0, i as int) =~= s@);
    while i > 0 && white(s.get_char(i - 1))
        invariant
            i <= s@.len(),
            trimmed_end(s@) == trimmed_end(s@.subrange(0, i as int)),
        decreases i,
    {
        assert(s@.subrange(0, i as int).drop_last() =~= s@.subrange(0, i - 1));
        i = i - 1;
    }
    String::from_str(s.substring_char(0, i))
}

/// The stylesheet served to browsers: the theme rules, then the generated CSS,
/// with the white space at the end dropped.
pub fn stylesheet(generated: &str) -> (r: String)
    ensures
        r@ == trimmed_end(BASE_STYLES@ + generated@),
{
    let mut joined = String::from_str(BASE_STYLES);
    joined.append(generated);
    trim_end(joined.as_str())
}

} // verus!
