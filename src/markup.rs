//! The markup renderer: an ordered chain of text substitutions that turns the
//! lightweight markup of a note into display text.
//!
//! Each step scans its input from left to right. Where a span of the step's
//! form starts, the shortest such span is replaced and the scan resumes after
//! it; elsewhere the character is copied. Spans do not cross a line break,
//! except code blocks.

use vstd::prelude::*;

use crate::text::{chars_of, string_of};

verus! {

/// Whether `c` is in the Unicode class `\w` of regular expressions, as
/// `regex_syntax::is_word_character` decides it.
pub uninterp spec fn word_char(c: char) -> bool;

/// Relies on `regex_syntax::is_word_character`, which decides the class `\w`
/// from the Unicode tables (it never panics with the crate's default features).
#[verifier::external_body]
fn is_word_char(c: char) -> (r: bool)
    ensures
        r == word_char(c),
{
    regex_syntax::is_word_character(c)
}

/// The Unicode `White_Space` characters (the class `\s`).
pub open spec fn space_char(c: char) -> bool {
    ('\u{9}' <= c <= '\u{d}') || c == ' ' || c == '\u{85}' || c == '\u{a0}' || c == '\u{1680}'
        || ('\u{2000}' <= c <= '\u{200a}') || c == '\u{2028}' || c == '\u{2029}' || c
        == '\u{202f}' || c == '\u{205f}' || c == '\u{3000}'
}

/// A character that may stand in a link's address.
pub open spec fn url_char(c: char) -> bool {
    word_char(c) || c == '.' || c == ':' || c == '/' || c == '-'
}

/// Whether `p` occurs in `s` at position `i`.
pub open spec fn occurs_at(s: Seq<char>, i: int, p: Seq<char>) -> bool {
    0 <= i && i + p.len() <= s.len() && s.subrange(i, i + p.len()) == p
}

/// The first position `j >= from` where `close` occurs in `s`, provided no
/// line break stands in `s[from..j]` (unless `multiline`).
pub open spec fn close_from(s: Seq<char>, from: int, close: Seq<char>, multiline: bool) -> Option<
    int,
>
    decreases s.len() - from,
{
    if from < 0 || from >= s.len() || from + close.len() > s.len() {
        None
    } else if occurs_at(s, from, close) {
        Some(from)
    } else if !multiline && s[from] == '\n' {
        None
    } else {
        close_from(s, from + 1, close, multiline)
    }
}

/// The end of the run of word characters that starts at `from`.
pub open spec fn word_end(s: Seq<char>, from: int) -> int
    decreases s.len() - from,
{
    if 0 <= from < s.len() && word_char(s[from]) {
        word_end(s, from + 1)
    } else {
        from
    }
}

/// The end of the run of address characters that starts at `from`.
pub open spec fn url_end(s: Seq<char>, from: int) -> int
    decreases s.len() - from,
{
    if 0 <= from < s.len() && url_char(s[from]) {
        url_end(s, from + 1)
    } else {
        from
    }
}

/// The forms of span that the renderer rewrites, one per step.
#[derive(Clone, Copy, Debug, PartialEq, Eq, Structural)]
pub enum Step {
    /// `**X**` becomes a bold `X`.
    Bold,
    /// `*X*`, where `X` starts with a non-space character, becomes an italic `X`.
    Italic,
    /// A triple-backtick fence, an optional language tag, and content up to the
    /// next fence become a preformatted block.
    CodeBlock,
    /// `` `X` `` becomes inline code.
    Code,
    /// Angle brackets outside the recognised tags become entities.
    Angles,
    /// `<sup>X</sup>` becomes `^(X)`.
    Sup,
    /// `<sub>X</sub>` becomes `_(X)`.
    Sub,
    /// `[label](address)` becomes an anchor.
    Link,
}

pub open spec fn two_stars() -> Seq<char> {
    seq!['*', '*']
}

pub open spec fn one_star() -> Seq<char> {
    seq!['*']
}

pub open spec fn fence() -> Seq<char> {
    seq!['`', '`', '`']
}

pub open spec fn backtick() -> Seq<char> {
    seq!['`']
}

pub open spec fn bold_open() -> Seq<char> {
    seq!['<', 'b', '>']
}

pub open spec fn bold_close() -> Seq<char> {
    seq!['<', '/', 'b', '>']
}

pub open spec fn italic_open() -> Seq<char> {
    seq!['<', 'i', '>']
}

pub open spec fn italic_close() -> Seq<char> {
    seq!['<', '/', 'i', '>']
}

pub open spec fn pre_open() -> Seq<char> {
    seq!['<', 'p', 'r', 'e', '>']
}

pub open spec fn pre_close() -> Seq<char> {
    seq!['<', '/', 'p', 'r', 'e', '>']
}

pub open spec fn code_open() -> Seq<char> {
    seq!['<', 'c', 'o', 'd', 'e', '>']
}

pub open spec fn code_close() -> Seq<char> {
    seq!['<', '/', 'c', 'o', 'd', 'e', '>']
}

pub open spec fn sup_open() -> Seq<char> {
    seq!['<', 's', 'u', 'p', '>']
}

pub open spec fn sup_close() -> Seq<char> {
    seq!['<', '/', 's', 'u', 'p', '>']
}

pub open spec fn sub_open() -> Seq<char> {
    seq!['<', 's', 'u', 'b', '>']
}

pub open spec fn sub_close() -> Seq<char> {
    seq!['<', '/', 's', 'u', 'b', '>']
}

pub open spec fn less_than_entity() -> Seq<char> {
    seq!['&', 'l', 't', ';']
}

pub open spec fn greater_than_entity() -> Seq<char> {
    seq!['&', 'g', 't', ';']
}

pub open spec fn anchor_open() -> Seq<char> {
    seq!['<', 'a', ' ', 'h', 'r', 'e', 'f', '=', '\'']
}

pub open spec fn anchor_middle() -> Seq<char> {
    seq!['\'', '>']
}

pub open spec fn anchor_close() -> Seq<char> {
    seq!['<', '/', 'a', '>']
}

/// The tags whose angle brackets the escaping step keeps: the markers written
/// by the earlier steps, and the sub- and superscript tags.
pub open spec fn kept_tags() -> Seq<Seq<char>> {
    seq![
        bold_open(),
        bold_close(),
        italic_open(),
        italic_close(),
        pre_open(),
        pre_close(),
        code_open(),
        code_close(),
        sup_open(),
        sup_close(),
        sub_open(),
        sub_close(),
    ]
}

/// The first kept tag, from the `k`-th on, that occurs at `i`.
pub open spec fn tag_from(s: Seq<char>, i: int, k: int) -> Option<Seq<char>>
    decreases kept_tags().len() - k,
{
    if k < 0 || k >= kept_tags().len() {
        None
    } else if occurs_at(s, i, kept_tags()[k]) {
        Some(kept_tags()[k])
    } else {
        tag_from(s, i, k + 1)
    }
}

/// A span `open X close` at `i`, with `X` running from `from` to the first
/// `close`: where it ends, and its replacement `before X after`.
pub open spec fn delimited(
    s: Seq<char>,
    from: int,
    close: Seq<char>,
    multiline: bool,
    before: Seq<char>,
    after: Seq<char>,
) -> Option<(int, Seq<char>)> {
    match close_from(s, from, close, multiline) {
        Some(j) => Some((j + close.len(), before + s.subrange(from, j) + after)),
        None => None,
    }
}

/// The span of the given step that starts at `i`, if any: where it ends, and
/// the text that replaces it.
pub open spec fn step_match(step: Step, s: Seq<char>, i: int) -> Option<(int, Seq<char>)> {
    match step {
        Step::Bold => if occurs_at(s, i, two_stars()) {
            delimited(s, i + 2, two_stars(), false, bold_open(), bold_close())
        } else {
            None
        },
        Step::Italic => if occurs_at(s, i, one_star()) && i + 1 < s.len() && !space_char(
            s[i + 1],
        ) {
            delimited(s, i + 2, one_star(), false, italic_open() + seq![s[i + 1]], italic_close())
        } else {
            None
        },
        Step::CodeBlock => if occurs_at(s, i, fence()) {
            delimited(s, word_end(s, i + 3), fence(), true, pre_open(), pre_close())
        } else {
            None
        },
        Step::Code => if occurs_at(s, i, backtick()) {
            delimited(s, i + 1, backtick(), false, code_open(), code_close())
        } else {
            None
        },
        Step::Angles => match tag_from(s, i, 0) {
            Some(t) => Some((i + t.len(), t)),
            None => if 0 <= i < s.len() && s[i] == '<' {
                Some((i + 1, less_than_entity()))
            } else if 0 <= i < s.len() && s[i] == '>' {
                Some((i + 1, greater_than_entity()))
            } else {
                None
            },
        },
        Step::Sup => if occurs_at(s, i, sup_open()) {
            delimited(s, i + 5, sup_close(), false, seq!['^', '('], seq![')'])
        } else {
            None
        },
        Step::Sub => if occurs_at(s, i, sub_open()) {
            delimited(s, i + 5, sub_close(), false, seq!['_', '('], seq![')'])
        } else {
            None
        },
        Step::Link => {
            let a = word_end(s, i + 1);
            let b = url_end(s, a + 2);
            if 0 <= i && a + 1 < s.len() && b < s.len() && s[i] == '[' && s[a] == ']' && s[a + 1]
                == '(' && s[b] == ')' {
                Some(
                    (
                        b + 1,
                        anchor_open() + s.subrange(a + 2, b) + anchor_middle() + s.subrange(
                            i + 1,
                            a,
                        ) + anchor_close(),
                    ),
                )
            } else {
                None
            }
        },
    }
}

/// The output of a step on `s[i..]`.
pub open spec fn pass_from(step: Step, s: Seq<char>, i: int) -> Seq<char>
    decreases s.len() - i,
{
    if i < 0 || i >= s.len() {
        seq![]
    } else {
        match step_match(step, s, i) {
            Some((e, rep)) => if i < e <= s.len() {
                rep + pass_from(step, s, e)
            } else {
                seq![s[i]] + pass_from(step, s, i + 1)
            },
            None => seq![s[i]] + pass_from(step, s, i + 1),
        }
    }
}

/// The output of a step on the whole of `s`.
pub open spec fn pass(step: Step, s: Seq<char>) -> Seq<char> {
    pass_from(step, s, 0)
}

pub(crate) fn is_space(c: char) -> (r: bool)
    ensures
        r == space_char(c),
{
    ('\u{9}' <= c && c <= '\u{d}') || c == ' ' || c == '\u{85}' || c == '\u{a0}' || c == '\u{1680}'
        || ('\u{2000}' <= c && c <= '\u{200a}') || c == '\u{2028}' || c == '\u{2029}' || c
        == '\u{202f}' || c == '\u{205f}' || c == '\u{3000}'
}

fn is_url_char(c: char) -> (r: bool)
    ensures
        r == url_char(c),
{
    is_word_char(c) || c == '.' || c == ':' || c == '/' || c == '-'
}

fn occurs(s: &Vec<char>, i: usize, p: &Vec<char>) -> (r: bool)
    ensures
        r == occurs_at(s@, i as int, p@),
{
    if i > s.len() || p.len() > s.len() - i {
        return false;
    }
    let mut k: usize = 0;
    while k < p.len()
        invariant
            k <= p.len(),
            i + p.len() <= s.len(),
            forall|t: int| 0 <= t < k ==> s@[i + t] == p@[t],
        decreases p.len() - k,
    {
        if s[i + k] != p[k] {
            assert(s@.subrange(i as int, i + p.len())[k as int] != p@[k as int]);
            return false;
        }
        k += 1;
    }
    assert(s@.subrange(i as int, i + p.len()) =~= p@);
    true
}

fn copy_range(s: &Vec<char>, from: usize, to: usize) -> (r: Vec<char>)
    requires
        from <= to <= s.len(),
    ensures
        r@ == s@.subrange(from as int, to as int),
{
    let mut r: Vec<char> = Vec::new();
    let mut k = from;
    while k < to
        invariant
            from <= k <= to <= s.len(),
            r@ == s@.subrange(from as int, k as int),
        decreases to - k,
    {
        r.push(s[k]);
        k += 1;
        assert(r@ =~= s@.subrange(from as int, k as int));
    }
    r
}

fn find_close(s: &Vec<char>, from: usize, close: &Vec<char>, multiline: bool) -> (r: Option<usize>)
    requires
        close@.len() > 0,
    ensures
        match r {
            Some(j) => close_from(s@, from as int, close@, multiline) == Some(j as int) && from <= j
                && j + close@.len() <= s@.len(),
            None => close_from(s@, from as int, close@, multiline) is None,
        },
{
    let mut j = from;
    while j < s.len()
        invariant
            from <= j,
            close@.len() > 0,
            close_from(s@, from as int, close@, multiline) == close_from(
                s@,
                j as int,
                close@,
                multiline,
            ),
        decreases s.len() - j,
    {
        if close.len() > s.len() - j {
            return None;
        }
        if occurs(s, j, close) {
            return Some(j);
        }
        if !multiline && s[j] == '\n' {
            return None;
        }
        j += 1;
    }
    None
}

fn word_run_end(s: &Vec<char>, from: usize) -> (r: usize)
    requires
        from <= s.len(),
    ensures
        r as int == word_end(s@, from as int),
        from <= r <= s.len(),
{
    let mut j = from;
    while j < s.len() && is_word_char(s[j])
        invariant
            from <= j <= s.len(),
            word_end(s@, from as int) == word_end(s@, j as int),
        decreases s.len() - j,
    {
        j += 1;
    }
    j
}

fn url_run_end(s: &Vec<char>, from: usize) -> (r: usize)
    requires
        from <= s.len(),
    ensures
        r as int == url_end(s@, from as int),
        from <= r <= s.len(),
{
    let mut j = from;
    while j < s.len() && is_url_char(s[j])
        invariant
            from <= j <= s.len(),
            url_end(s@, from as int) == url_end(s@, j as int),
        decreases s.len() - j,
    {
        j += 1;
    }
    j
}

fn kept_tag(k: usize) -> (r: Vec<char>)
    requires
        k < kept_tags().len(),
    ensures
        r@ == kept_tags()[k as int],
{
    let r = match k {
        0 => lit_bold_open(),
        1 => lit_bold_close(),
        2 => lit_italic_open(),
        3 => lit_italic_close(),
        4 => lit_pre_open(),
        5 => lit_pre_close(),
        6 => lit_code_open(),
        7 => lit_code_close(),
        8 => lit_sup_open(),
        9 => lit_sup_close(),
        10 => lit_sub_open(),
        _ => lit_sub_close(),
    };
    assert(r@ == kept_tags()[k as int]);
    r
}

fn find_tag(s: &Vec<char>, i: usize) -> (r: Option<Vec<char>>)
    ensures
        match r {
            Some(t) => tag_from(s@, i as int, 0) == Some(t@) && occurs_at(s@, i as int, t@)
                && t@.len() > 0,
            None => tag_from(s@, i as int, 0) is None,
        },
{
    let mut k: usize = 0;
    while k < 12
        invariant
            k <= 12,
            kept_tags().len() == 12,
            tag_from(s@, i as int, 0) == tag_from(s@, i as int, k as int),
        decreases 12 - k,
    {
        let t = kept_tag(k);
        if occurs(s, i, &t) {
            return Some(t);
        }
        k += 1;
    }
    None
}

fn match_delimited(
    s: &Vec<char>,
    from: usize,
    close: &Vec<char>,
    multiline: bool,
    before: Vec<char>,
    after: Vec<char>,
) -> (r: Option<(usize, Vec<char>)>)
    requires
        close@.len() > 0,
    ensures
        match r {
            Some((e, rep)) => delimited(s@, from as int, close@, multiline, before@, after@) == Some(
                (e as int, rep@),
            ) && from < e <= s@.len(),
            None => delimited(s@, from as int, close@, multiline, before@, after@) is None,
        },
{
    match find_close(s, from, close, multiline) {
        Some(j) => {
            assert(j + close@.len() <= s@.len());
            let mut rep = before;
            let mut inner = copy_range(s, from, j);
            let mut tail = after;
            rep.append(&mut inner);
            rep.append(&mut tail);
            let n = s.len();
            assert(j + close.len() <= n);
            Some((j + close.len(), rep))
        },
        None => None,
    }
}

/// The span of `step` that starts at `i`, if any.
fn lit_two_stars() -> (r: Vec<char>)
    ensures
        r@ == two_stars(),
{
    let r = vec!['*', '*'];
    assert(r@ == two_stars());
    r
}

fn lit_one_star() -> (r: Vec<char>)
    ensures
        r@ == one_star(),
{
    let r = vec!['*'];
    assert(r@ == one_star());
    r
}

fn lit_fence() -> (r: Vec<char>)
    ensures
        r@ == fence(),
{
    let r = vec!['`', '`', '`'];
    assert(r@ == fence());
    r
}

fn lit_backtick() -> (r: Vec<char>)
    ensures
        r@ == backtick(),
{
    let r = vec!['`'];
    assert(r@ == backtick());
    r
}

fn lit_bold_open() -> (r: Vec<char>)
    ensures
        r@ == bold_open(),
{
    let r = vec!['<', 'b', '>'];
    assert(r@ == bold_open());
    r
}

fn lit_bold_close() -> (r: Vec<char>)
    ensures
        r@ == bold_close(),
{
    let r = vec!['<', '/', 'b', '>'];
    assert(r@ == bold_close());
    r
}

fn lit_italic_open() -> (r: Vec<char>)
    ensures
        r@ == italic_open(),
{
    let r = vec!['<', 'i', '>'];
    assert(r@ == italic_open());
    r
}

fn lit_italic_close() -> (r: Vec<char>)
    ensures
        r@ == italic_close(),
{
    let r = vec!['<', '/', 'i', '>'];
    assert(r@ == italic_close());
    r
}

fn lit_pre_open() -> (r: Vec<char>)
    ensures
        r@ == pre_open(),
{
    let r = vec!['<', 'p', 'r', 'e', '>'];
    assert(r@ == pre_open());
    r
}

fn lit_pre_close() -> (r: Vec<char>)
    ensures
        r@ == pre_close(),
{
    let r = vec!['<', '/', 'p', 'r', 'e', '>'];
    assert(r@ == pre_close());
    r
}

fn lit_code_open() -> (r: Vec<char>)
    ensures
        r@ == code_open(),
{
    let r = vec!['<', 'c', 'o', 'd', 'e', '>'];
    assert(r@ == code_open());
    r
}

fn lit_code_close() -> (r: Vec<char>)
    ensures
        r@ == code_close(),
{
    let r = vec!['<', '/', 'c', 'o', 'd', 'e', '>'];
    assert(r@ == code_close());
    r
}

fn lit_sup_open() -> (r: Vec<char>)
    ensures
        r@ == sup_open(),
{
    let r = vec!['<', 's', 'u', 'p', '>'];
    assert(r@ == sup_open());
    r
}

fn lit_sup_close() -> (r: Vec<char>)
    ensures
        r@ == sup_close(),
{
    let r = vec!['<', '/', 's', 'u', 'p', '>'];
    assert(r@ == sup_close());
    r
}

fn lit_sub_open() -> (r: Vec<char>)
    ensures
        r@ == sub_open(),
{
    let r = vec!['<', 's', 'u', 'b', '>'];
    assert(r@ == sub_open());
    r
}

fn lit_sub_close() -> (r: Vec<char>)
    ensures
        r@ == sub_close(),
{
    let r = vec!['<', '/', 's', 'u', 'b', '>'];
    assert(r@ == sub_close());
    r
}

fn lit_less_than_entity() -> (r: Vec<char>)
    ensures
        r@ == less_than_entity(),
{
    let r = vec!['&', 'l', 't', ';'];
    assert(r@ == less_than_entity());
    r
}

fn lit_greater_than_entity() -> (r: Vec<char>)
    ensures
        r@ == greater_than_entity(),
{
    let r = vec!['&', 'g', 't', ';'];
    assert(r@ == greater_than_entity());
    r
}

fn lit_anchor_open() -> (r: Vec<char>)
    ensures
        r@ == anchor_open(),
{
    let r = vec!['<', 'a', ' ', 'h', 'r', 'e', 'f', '=', '\''];
    assert(r@ == anchor_open());
    r
}

fn lit_anchor_middle() -> (r: Vec<char>)
    ensures
        r@ == anchor_middle(),
{
    let r = vec!['\'', '>'];
    assert(r@ == anchor_middle());
    r
}

fn lit_anchor_close() -> (r: Vec<char>)
    ensures
        r@ == anchor_close(),
{
    let r = vec!['<', '/', 'a', '>'];
    assert(r@ == anchor_close());
    r
}

fn match_step(step: Step, s: &Vec<char>, i: usize) -> (r: Option<(usize, Vec<char>)>)
    requires
        i < s.len(),
    ensures
        match r {
            Some((e, rep)) => step_match(step, s@, i as int) == Some((e as int, rep@)) && i < e
                <= s@.len(),
            None => step_match(step, s@, i as int) is None,
        },
{
    match step {
        Step::Bold => {
            if occurs(s, i, &lit_two_stars()) {
                match_delimited(s, i + 2, &lit_two_stars(), false, lit_bold_open(), lit_bold_close())
            } else {
                None
            }
        },
        Step::Italic => {
            if occurs(s, i, &lit_one_star()) && i + 1 < s.len() && !is_space(s[i + 1]) {
                match_delimited(
                    s,
                    i + 2,
                    &lit_one_star(),
                    false,
                    vec!['<', 'i', '>', s[i + 1]],
                    lit_italic_close(),
                )
            } else {
                None
            }
        },
        Step::CodeBlock => {
            if occurs(s, i, &lit_fence()) {
                let w = word_run_end(s, i + 3);
                match_delimited(
                    s,
                    w,
                    &lit_fence(),
                    true,
                    lit_pre_open(),
                    lit_pre_close(),
                )
            } else {
                None
            }
        },
        Step::Code => {
            if occurs(s, i, &lit_backtick()) {
                match_delimited(
                    s,
                    i + 1,
                    &lit_backtick(),
                    false,
                    lit_code_open(),
                    lit_code_close(),
                )
            } else {
                None
            }
        },
        Step::Angles => {
            match find_tag(s, i) {
                Some(t) => Some((i + t.len(), t)),
                None => {
                    if s[i] == '<' {
                        Some((i + 1, lit_less_than_entity()))
                    } else if s[i] == '>' {
                        Some((i + 1, lit_greater_than_entity()))
                    } else {
                        None
                    }
                },
            }
        },
        Step::Sup => {
            if occurs(s, i, &lit_sup_open()) {
                match_delimited(
                    s,
                    i + 5,
                    &lit_sup_close(),
                    false,
                    vec!['^', '('],
                    vec![')'],
                )
            } else {
                None
            }
        },
        Step::Sub => {
            if occurs(s, i, &lit_sub_open()) {
                match_delimited(
                    s,
                    i + 5,
                    &lit_sub_close(),
                    false,
                    vec!['_', '('],
                    vec![')'],
                )
            } else {
                None
            }
        },
        Step::Link => {
            if s[i] != '[' {
                return None;
            }
            let a = word_run_end(s, i + 1);
            if s.len() - a <= 1 || s[a] != ']' || s[a + 1] != '(' {
                return None;
            }
            let b = url_run_end(s, a + 2);
            if b >= s.len() || s[b] != ')' {
                return None;
            }
            let mut rep = lit_anchor_open();
            let mut address = copy_range(s, a + 2, b);
            let mut middle = lit_anchor_middle();
            let mut label = copy_range(s, i + 1, a);
            let mut tail = lit_anchor_close();
            rep.append(&mut address);
            rep.append(&mut middle);
            rep.append(&mut label);
            rep.append(&mut tail);
            Some((b + 1, rep))
        },
    }
}

/// Applies one step to the whole of `s`.
pub fn apply_step(step: Step, s: &Vec<char>) -> (r: Vec<char>)
    ensures
        r@ == pass(step, s@),
{
    let mut out: Vec<char> = Vec::new();
    let mut i: usize = 0;
    while i < s.len()
        invariant
            i <= s.len(),
            out@ + pass_from(step, s@, i as int) == pass(step, s@),
        decreases s.len() - i,
    {
        match match_step(step, s, i) {
            Some((e, rep)) => {
                let ghost before = out@;
                let mut rep = rep;
                out.append(&mut rep);
                assert(out@ + pass_from(step, s@, e as int) =~= before + pass_from(step, s@, i as int));
                i = e;
            },
            None => {
                let ghost before = out@;
                out.push(s[i]);
                assert(out@ + pass_from(step, s@, i + 1) =~= before + pass_from(step, s@, i as int));
                i += 1;
            },
        }
    }
    assert(pass_from(step, s@, i as int) == Seq::<char>::empty());
    assert(out@ =~= out@ + pass_from(step, s@, i as int));
    out
}

/// The whole renderer: bold, italic, code block, inline code, escaping,
/// superscript, subscript and links, each step on the output of the one before.
pub open spec fn render(s: Seq<char>) -> Seq<char> {
    let bold = pass(Step::Bold, s);
    let italic = pass(Step::Italic, bold);
    let block = pass(Step::CodeBlock, italic);
    let code = pass(Step::Code, block);
    let escaped = pass(Step::Angles, code);
    let sup = pass(Step::Sup, escaped);
    let sub = pass(Step::Sub, sup);
    pass(Step::Link, sub)
}

pub(crate) fn render_chars(s: &Vec<char>) -> (r: Vec<char>)
    ensures
        r@ == render(s@),
{
    let bold = apply_step(Step::Bold, s);
    let italic = apply_step(Step::Italic, &bold);
    let block = apply_step(Step::CodeBlock, &italic);
    let code = apply_step(Step::Code, &block);
    let escaped = apply_step(Step::Angles, &code);
    let sup = apply_step(Step::Sup, &escaped);
    let sub = apply_step(Step::Sub, &sup);
    apply_step(Step::Link, &sub)
}

/// Renders the markup of `content` into display text.
pub fn demark(content: &str) -> (r: String)
    ensures
        r@ == render(content@),
{
    let chars = chars_of(content);
    string_of(&render_chars(&chars))
}

/// A text on its way through the renderer's steps.
#[derive(Debug)]
pub struct Demark {
    content: String,
}

impl View for Demark {
    type V = Seq<char>;

    closed spec fn view(&self) -> Seq<char> {
        self.content@
    }
}

impl Demark {
    /// An empty text.
    pub fn new() -> (r: Demark)
        ensures
            r@ == Seq::<char>::empty(),
    {
        Demark { content: String::new() }
    }

    /// The text `content`, not yet rendered.
    pub fn from(content: &str) -> (r: Demark)
        ensures
            r@ == content@,
    {
        Demark { content: String::from_str(content) }
    }

    /// The text as it stands.
    pub fn content(&self) -> (r: &str)
        ensures
            r@ == self@,
    {
        self.content.as_str()
    }

    fn apply(&mut self, step: Step)
        ensures
            final(self)@ == pass(step, old(self)@),
    {
        let chars = chars_of(self.content.as_str());
        let out = apply_step(step, &chars);
        self.content = string_of(&out);
    }

    /// Rewrites each `**X**` to a bold `X`.
    pub fn demark_bold(&mut self)
        ensures
            final(self)@ == pass(Step::Bold, old(self)@),
    {
        self.apply(Step::Bold)
    }

    /// Rewrites each `*X*` whose `X` starts with a non-space to an italic `X`.
    pub fn demark_italic(&mut self)
        ensures
            final(self)@ == pass(Step::Italic, old(self)@),
    {
        self.apply(Step::Italic)
    }

    /// Rewrites each fenced code block, language tag dropped, to a preformatted block.
    pub fn demark_code_block(&mut self)
        ensures
            final(self)@ == pass(Step::CodeBlock, old(self)@),
    {
        self.apply(Step::CodeBlock)
    }

    /// Rewrites each `` `X` `` to inline code.
    pub fn demark_code(&mut self)
        ensures
            final(self)@ == pass(Step::Code, old(self)@),
    {
        self.apply(Step::Code)
    }

    /// Escapes each angle bracket that is not part of a recognised tag.
    pub fn demark_angles(&mut self)
        ensures
            final(self)@ == pass(Step::Angles, old(self)@),
    {
        self.apply(Step::Angles)
    }

    /// Rewrites each `<sup>X</sup>` to `^(X)`.
    pub fn demark_sup(&mut self)
        ensures
            final(self)@ == pass(Step::Sup, old(self)@),
    {
        self.apply(Step::Sup)
    }

    /// Rewrites each `<sub>X</sub>` to `_(X)`.
    pub fn demark_sub(&mut self)
        ensures
            final(self)@ == pass(Step::Sub, old(self)@),
    {
        self.apply(Step::Sub)
    }

    /// Rewrites each `[label](address)` to an anchor.
    pub fn demark_link(&mut self)
        ensures
            final(self)@ == pass(Step::Link, old(self)@),
    {
        self.apply(Step::Link)
    }

    /// Runs every step in order and hands back the rendered text.
    pub fn demark(self) -> (r: String)
        ensures
            r@ == render(self@),
    {
        let chars = chars_of(self.content.as_str());
        string_of(&render_chars(&chars))
    }
}

/// None of the characters that open a span or must be escaped.
pub open spec fn plain_text(s: Seq<char>) -> bool {
    forall|i: int|
        0 <= i < s.len() ==> #[trigger] s[i] != '*' && s[i] != '`' && s[i] != '<' && s[i] != '>'
            && s[i] != '['
}

proof fn lemma_no_tag_in_plain_text(s: Seq<char>, i: int, k: int)
    requires
        plain_text(s),
        0 <= i < s.len(),
    ensures
        tag_from(s, i, k) is None,
    decreases kept_tags().len() - k,
{
    if 0 <= k < kept_tags().len() {
        if occurs_at(s, i, kept_tags()[k]) {
            assert(s.subrange(i, i + kept_tags()[k].len())[0] == s[i]);
        }
        lemma_no_tag_in_plain_text(s, i, k + 1);
    }
}

proof fn lemma_plain_pass_from(step: Step, s: Seq<char>, i: int)
    requires
        plain_text(s),
        0 <= i <= s.len(),
    ensures
        pass_from(step, s, i) == s.subrange(i, s.len() as int),
    decreases s.len() - i,
{
    if i < s.len() {
        lemma_no_tag_in_plain_text(s, i, 0);
        let c = s[i];
        assert(c != '*' && c != '`' && c != '<' && c != '>' && c != '[');
        if occurs_at(s, i, two_stars()) {
            assert(s.subrange(i, i + 2)[0] == c);
        }
        if occurs_at(s, i, one_star()) {
            assert(s.subrange(i, i + 1)[0] == c);
        }
        if occurs_at(s, i, fence()) {
            assert(s.subrange(i, i + 3)[0] == c);
        }
        if occurs_at(s, i, backtick()) {
            assert(s.subrange(i, i + 1)[0] == c);
        }
        if occurs_at(s, i, sup_open()) {
            assert(s.subrange(i, i + 5)[0] == c);
        }
        if occurs_at(s, i, sub_open()) {
            assert(s.subrange(i, i + 5)[0] == c);
        }
        assert(step_match(step, s, i) is None);
        lemma_plain_pass_from(step, s, i + 1);
        assert(s.subrange(i, s.len() as int) =~= seq![c] + s.subrange(i + 1, s.len() as int));
    } else {
        assert(s.subrange(i, s.len() as int) =~= Seq::<char>::empty());
    }
}

/// Text without asterisks, backticks, angle brackets or opening square
/// brackets holds no markup: the renderer hands it back unchanged.
pub proof fn lemma_plain_text_unchanged(s: Seq<char>)
    requires
        plain_text(s),
    ensures
        render(s) == s,
{
    assert(s.subrange(0, s.len() as int) =~= s);
    lemma_plain_pass_from(Step::Bold, s, 0);
    lemma_plain_pass_from(Step::Italic, s, 0);
    lemma_plain_pass_from(Step::CodeBlock, s, 0);
    lemma_plain_pass_from(Step::Code, s, 0);
    lemma_plain_pass_from(Step::Angles, s, 0);
    lemma_plain_pass_from(Step::Sup, s, 0);
    lemma_plain_pass_from(Step::Sub, s, 0);
    lemma_plain_pass_from(Step::Link, s, 0);
}

} // verus!
