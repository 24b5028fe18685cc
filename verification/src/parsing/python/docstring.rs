use crate::indexing::content::{
    chars_of, content_views, find_char, find_char_exec, lemma_find_char_bounds, parse_content,
    parse_contents, ContentNode, ContentNodeView,
};
use crate::parsing::python::syntax::{body_docstring, docstring_literal};
use rustpython_parser::ast::Stmt;
use vstd::prelude::*;

verus! {

/// `s[a..b]` holds only spaces.
pub open spec fn all_spaces(s: Seq<char>, a: int, b: int) -> bool {
    forall|i: int| a <= i < b ==> s[i] == ' '
}

/// The line `s[a..b]` without its first `n` characters when these are all spaces.
pub open spec fn dedent_line(s: Seq<char>, a: int, b: int, n: int) -> Seq<char> {
    if b - a >= n && all_spaces(s, a, a + n) {
        s.subrange(a + n, b)
    } else {
        s.subrange(a, b)
    }
}

/// The lines of `s` from position `p` on, each without `n` leading spaces when it has them,
/// joined again by newlines.
pub open spec fn dedent_from(s: Seq<char>, p: int, n: int) -> Seq<char>
    decreases s.len() - p,
{
    if p < 0 || p > s.len() {
        Seq::empty()
    } else {
        match find_char(s, '\n', p, s.len() as int) {
            Some(e) => {
                proof {
                    lemma_find_char_bounds(s, '\n', p, s.len() as int);
                }
                dedent_line(s, p, e, n) + seq!['\n'] + dedent_from(s, e + 1, n)
            },
            None => dedent_line(s, p, s.len() as int, n),
        }
    }
}

/// `s` with `n` leading spaces taken from every line that starts with them.
pub open spec fn dedent(s: Seq<char>, n: int) -> Seq<char> {
    dedent_from(s, 0, n)
}

/// The nodes of a docstring whose text is `raw` and whose body is indented `indent_level`
/// levels of four spaces.
pub open spec fn docstring_nodes(raw: Seq<char>, indent_level: int) -> Seq<ContentNodeView> {
    parse_content(dedent(raw, 4 * indent_level))
}

/// The parsed docstring of a body whose statements are indented `level` levels, if it has one.
pub open spec fn body_docstring_nodes(body: Seq<Stmt>, level: int) -> Option<Seq<ContentNodeView>> {
    match body_docstring(body) {
        Some(raw) => Some(docstring_nodes(raw, level)),
        None => None,
    }
}

fn all_spaces_exec(v: &Vec<char>, a: usize, b: usize) -> (r: bool)
    requires
        a <= b <= v.len(),
    ensures
        r == all_spaces(v@, a as int, b as int),
{
    let mut i = a;
    while i < b
        invariant
            a <= i <= b <= v.len(),
            all_spaces(v@, a as int, i as int),
        decreases b - i,
    {
        if v[i] != ' ' {
            return false;
        }
        i += 1;
    }
    true
}

fn dedent_line_exec(v: &Vec<char>, src: &str, a: usize, b: usize, n: usize) -> (r: String)
    requires
        v@ == src@,
        a <= b <= v.len(),
    ensures
        r@ == dedent_line(v@, a as int, b as int, n as int),
{
    let start = if b - a >= n && all_spaces_exec(v, a, a + n) {
        a + n
    } else {
        a
    };
    String::from_str(src.substring_char(start, b))
}

/// Takes `n` leading spaces from every line of `src` that starts with them.
pub fn dedent_text(src: &str, n: usize) -> (r: String)
    ensures
        r@ == dedent(src@, n as int),
{
    let v = chars_of(src);
    let len = v.len();
    let mut res = String::new();
    let mut p: usize = 0;
    loop
        invariant
            v@ == src@,
            len == v.len(),
            p <= len,
            dedent(v@, n as int) == res@ + dedent_from(v@, p as int, n as int),
        decreases len + 1 - p,
    {
        proof {
            lemma_find_char_bounds(v@, '\n', p as int, len as int);
        }
        match find_char_exec(&v, '\n', p, len) {
            Some(e) => {
                let line = dedent_line_exec(&v, src, p, e, n);
                let ghost before = res@;
                res.append(line.as_str());
                res.append("\n");
                proof {
                    reveal_strlit("\n");
                }
                assert(res@ == before + dedent_line(v@, p as int, e as int, n as int) + seq!['\n']);
                p = e + 1;
            },
            None => {
                let line = dedent_line_exec(&v, src, p, len, n);
                res.append(line.as_str());
                return res;
            },
        }
    }
}

/// Parses the text of a docstring, indented `indent_level` levels of four spaces, into nodes.
pub fn docstring_content(raw: &str, indent_level: usize) -> (r: Vec<ContentNode>)
    requires
        indent_level <= usize::MAX / 4,
    ensures
        content_views(r@) == docstring_nodes(raw@, indent_level as int),
{
    let text = dedent_text(raw, 4 * indent_level);
    let mut rest: &str = text.as_str();
    match parse_contents(&mut rest) {
        Ok(nodes) => nodes,
        Err(_) => Vec::new(),
    }
}

/// The docstring of a body whose statements are indented `body_indent_level` levels.
pub fn extract_docstring_from_body(body: &Vec<Stmt>, body_indent_level: usize) -> (r: Option<
    Vec<ContentNode>,
>)
    requires
        body_indent_level <= usize::MAX / 4,
    ensures
        match body_docstring(body@) {
            Some(raw) => r matches Some(nodes) && content_views(nodes@) == docstring_nodes(
                raw,
                body_indent_level as int,
            ),
            None => r is None,
        },
{
    match docstring_literal(body) {
        Some(raw) => {
            let nodes = docstring_content(raw.as_str(), body_indent_level);
            assert(content_views(nodes@) == docstring_nodes(raw@, body_indent_level as int));
            Some(nodes)
        },
        None => None,
    }
}

} // verus!
