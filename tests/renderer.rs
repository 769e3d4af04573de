use notes_reminder::markup::{demark, Demark};

#[test]
fn bold_span_is_wrapped() {
    assert_eq!(demark("**bold**"), "<b>bold</b>");
    assert_eq!(demark("a **b** c **d**"), "a <b>b</b> c <b>d</b>");
}

#[test]
fn italic_spans_are_wrapped_independently() {
    assert_eq!(demark("*a* and *b*"), "<i>a</i> and <i>b</i>");
}

#[test]
fn italic_needs_a_non_space_after_the_star() {
    assert_eq!(demark("(*not a bullet*)"), "(<i>not a bullet</i>)");
    assert_eq!(demark("* bullet item"), "* bullet item");
}

#[test]
fn unmatched_delimiters_pass_through() {
    assert_eq!(demark("an *open span"), "an *open span");
    assert_eq!(demark("**half"), "**half");
    assert_eq!(demark("`tick"), "`tick");
    assert_eq!(demark(""), "");
}

#[test]
fn spans_stop_at_a_line_break() {
    assert_eq!(demark("**a\nb**"), "**a\nb**");
    assert_eq!(demark("*a\nb*"), "*a\nb*");
}

#[test]
fn inline_code_is_wrapped() {
    assert_eq!(demark("`code`"), "<code>code</code>");
}

#[test]
fn code_block_drops_the_language_tag() {
    assert_eq!(demark("```lang\nblock```"), "<pre>\nblock</pre>");
    assert_eq!(demark("```a`b```"), "<pre>`b</pre>");
}

#[test]
fn angle_brackets_are_escaped() {
    assert_eq!(demark("a < b"), "a &lt; b");
    assert_eq!(demark("x>y"), "x&gt;y");
    assert_eq!(demark("**b** < c"), "<b>b</b> &lt; c");
}

#[test]
fn sup_and_sub_become_carets_and_underscores() {
    assert_eq!(demark("<sup>2</sup>"), "^(2)");
    assert_eq!(demark("H<sub>2</sub>O"), "H_(2)O");
}

#[test]
fn link_becomes_an_anchor() {
    assert_eq!(demark("[text](http://x.io/p)"), "<a href='http://x.io/p'>text</a>");
    assert_eq!(demark("[two words](http://x.io)"), "[two words](http://x.io)");
}

#[test]
fn steps_apply_one_by_one() {
    let mut d = Demark::from("**x** `y`");
    d.demark_bold();
    assert_eq!(d.content(), "<b>x</b> `y`");
    d.demark_code();
    assert_eq!(d.content(), "<b>x</b> <code>y</code>");
    d.demark_angles();
    assert_eq!(d.content(), "<b>x</b> <code>y</code>");
    let mut e = Demark::from("```rust let a = 1;```");
    e.demark_code_block();
    assert_eq!(e.content(), "<pre> let a = 1;</pre>");
}

#[test]
fn new_text_is_empty() {
    let d = Demark::new();
    assert_eq!(d.content(), "");
    assert_eq!(d.demark(), "");
}

#[test]
fn text_without_markup_passes_through() {
    let plain = "Plain words, (ok) & fine! — ещё 42 / 7 = 6";
    assert_eq!(demark(plain), plain);
}
