use vstd::prelude::*;

verus! {

/// A cross reference written as `[[name]]` or `[[name|display text]]` in a docstring.
#[derive(Debug, PartialEq, Eq)]
pub struct Reference {
    pub fully_qualified_name: String,
    pub display_text: Option<String>,
}

/// A reference that was checked: what it points to and the text it is shown with.
#[derive(Debug, PartialEq, Eq, Clone)]
pub struct ValidatedReference {
    pub subject: String,
    pub display_text: String,
}

/// The mathematical value of a [`Reference`].
pub struct ReferenceView {
    pub name: Seq<char>,
    pub display: Option<Seq<char>>,
}

pub open spec fn opt_string_view(s: Option<String>) -> Option<Seq<char>> {
    match s {
        Some(t) => Some(t@),
        None => None,
    }
}

impl View for Reference {
    type V = ReferenceView;

    open spec fn view(&self) -> ReferenceView {
        ReferenceView { name: self.fully_qualified_name@, display: opt_string_view(self.display_text) }
    }
}

/// The text a reference is written as: `[[name]]` or `[[name|display]]`.
pub open spec fn original_text(r: ReferenceView) -> Seq<char> {
    seq!['[', '['] + r.name + match r.display {
        Some(d) => seq!['|'] + d,
        None => Seq::<char>::empty(),
    } + seq![']', ']']
}

impl Reference {
    pub fn new(name: String, display: Option<String>) -> (r: Self)
        ensures
            r.fully_qualified_name == name,
            r.display_text == display,
    {
        Reference { fully_qualified_name: name, display_text: display }
    }

    /// Renders the reference back into the syntax it is written in.
    pub fn original(&self) -> (res: String)
        ensures
            res@ == original_text(self@),
    {
        let mut res = String::from_str("[[");
        res.append(self.fully_qualified_name.as_str());
        match &self.display_text {
            Some(d) => {
                res.append("|");
                res.append(d.as_str());
            },
            None => {},
        }
        res.append("]]");
        proof {
            reveal_strlit("[[");
            reveal_strlit("|");
            reveal_strlit("]]");
        }
        res
    }
}


/// A node of a parsed docstring: plain text, or a reference to another object.
#[derive(Debug, PartialEq)]
pub enum ContentNode {
    Text(String),
    Reference(Reference),
}

impl Clone for Reference {
    fn clone(&self) -> (r: Self)
        ensures
            r == *self,
    {
        let display_text = match &self.display_text {
            Some(d) => Some(d.clone()),
            None => None,
        };
        Reference { fully_qualified_name: self.fully_qualified_name.clone(), display_text }
    }
}

impl Clone for ContentNode {
    fn clone(&self) -> (r: Self)
        ensures
            r == *self,
    {
        match self {
            ContentNode::Text(t) => ContentNode::Text(t.clone()),
            ContentNode::Reference(r) => ContentNode::Reference(r.clone()),
        }
    }
}

/// The mathematical value of a [`ContentNode`].
pub enum ContentNodeView {
    Text(Seq<char>),
    Reference(ReferenceView),
}

impl View for ContentNode {
    type V = ContentNodeView;

    open spec fn view(&self) -> ContentNodeView {
        match self {
            ContentNode::Text(t) => ContentNodeView::Text(t@),
            ContentNode::Reference(r) => ContentNodeView::Reference(r@),
        }
    }
}

pub open spec fn content_views(nodes: Seq<ContentNode>) -> Seq<ContentNodeView> {
    nodes.map_values(|n: ContentNode| n@)
}

/// The error of the reference and text parsers when their syntax is not at the input's start.
#[derive(Debug, PartialEq, Eq, Clone, Copy)]
pub enum ContentError {
    NoMatch,
}

/// The characters that Unicode gives the White_Space property, which `str::trim` removes.
pub open spec fn is_white_space(c: char) -> bool {
    let x = c as u32;
    ||| 0x9 <= x <= 0xd
    ||| x == 0x20
    ||| x == 0x85
    ||| x == 0xa0
    ||| x == 0x1680
    ||| 0x2000 <= x <= 0x200a
    ||| x == 0x2028
    ||| x == 0x2029
    ||| x == 0x202f
    ||| x == 0x205f
    ||| x == 0x3000
}

pub open spec fn trim_start(s: Seq<char>) -> Seq<char>
    decreases s.len(),
{
    if s.len() > 0 && is_white_space(s[0]) {
        trim_start(s.drop_first())
    } else {
        s
    }
}

pub open spec fn trim_end(s: Seq<char>) -> Seq<char>
    decreases s.len(),
{
    if s.len() > 0 && is_white_space(s.last()) {
        trim_end(s.drop_last())
    } else {
        s
    }
}

/// `s` without its leading and trailing white space.
pub open spec fn trim(s: Seq<char>) -> Seq<char> {
    trim_end(trim_start(s))
}

/// `s[i]` and `s[i + 1]` are both `c`.
pub open spec fn pair_at(s: Seq<char>, i: int, c: char) -> bool {
    0 <= i && i + 1 < s.len() && s[i] == c && s[i + 1] == c
}

/// The first position at or after `from` where `c` stands twice in a row.
pub open spec fn find_pair(s: Seq<char>, c: char, from: int) -> Option<int>
    decreases s.len() - from,
{
    if from < 0 || from + 1 >= s.len() {
        None
    } else if pair_at(s, from, c) {
        Some(from)
    } else {
        find_pair(s, c, from + 1)
    }
}

/// The first position in `[from, to)` that holds `c`.
pub open spec fn find_char(s: Seq<char>, c: char, from: int, to: int) -> Option<int>
    decreases to - from,
{
    if from >= to || from < 0 {
        None
    } else if s[from] == c {
        Some(from)
    } else {
        find_char(s, c, from + 1, to)
    }
}

/// The reference written between positions `a` and `b`: split at the first `|` into
/// name and display text, both trimmed.
pub open spec fn reference_in(s: Seq<char>, a: int, b: int) -> ReferenceView {
    match find_char(s, '|', a, b) {
        Some(i) => ReferenceView {
            name: trim(s.subrange(a, i)),
            display: Some(trim(s.subrange(i + 1, b))),
        },
        None => ReferenceView { name: trim(s.subrange(a, b)), display: None },
    }
}

/// A reference starting at `p`: `[[`, then everything up to the first `]]` after it,
/// which must hold no newline, then `]]`. The result holds the node and the position after it.
pub open spec fn reference_at(s: Seq<char>, p: int) -> Option<(ContentNodeView, int)> {
    if pair_at(s, p, '[') {
        match find_pair(s, ']', p + 2) {
            Some(c) => if find_char(s, '\n', p + 2, c) is None {
                Some((ContentNodeView::Reference(reference_in(s, p + 2, c)), c + 2))
            } else {
                None
            },
            None => None,
        }
    } else {
        None
    }
}

/// Text starting at `p`: everything up to the next `[[` if that is not at `p` itself,
/// else everything up to the end.
pub open spec fn text_at(s: Seq<char>, p: int) -> (ContentNodeView, int) {
    match find_pair(s, '[', p) {
        Some(k) => if k > p {
            (ContentNodeView::Text(s.subrange(p, k)), k)
        } else {
            (ContentNodeView::Text(s.subrange(p, s.len() as int)), s.len() as int)
        },
        None => (ContentNodeView::Text(s.subrange(p, s.len() as int)), s.len() as int),
    }
}

pub proof fn lemma_find_pair_bounds(s: Seq<char>, c: char, from: int)
    ensures
        find_pair(s, c, from) matches Some(k) ==> from <= k && pair_at(s, k, c),
    decreases s.len() - from,
{
    if from < 0 || from + 1 >= s.len() {
    } else if pair_at(s, from, c) {
    } else {
        lemma_find_pair_bounds(s, c, from + 1);
    }
}

pub proof fn lemma_find_char_bounds(s: Seq<char>, c: char, from: int, to: int)
    ensures
        find_char(s, c, from, to) matches Some(k) ==> from <= k < to && s[k] == c,
        find_char(s, c, from, to) is None ==> forall|k: int| from <= k < to && 0 <= from ==> s[k] != c,
    decreases to - from,
{
    if from >= to || from < 0 {
    } else if s[from] == c {
    } else {
        lemma_find_char_bounds(s, c, from + 1, to);
    }
}

/// The nodes that the input from position `p` on parses into: at each position a reference
/// if one starts there, else text.
pub open spec fn parse_from(s: Seq<char>, p: int) -> Seq<ContentNodeView>
    decreases s.len() - p,
{
    if p < 0 || p >= s.len() {
        Seq::empty()
    } else {
        match reference_at(s, p) {
            Some((n, q)) => {
                proof {
                    lemma_find_pair_bounds(s, ']', p + 2);
                }
                seq![n] + parse_from(s, q)
            },
            None => {
                proof {
                    lemma_find_pair_bounds(s, '[', p);
                }
                seq![text_at(s, p).0] + parse_from(s, text_at(s, p).1)
            },
        }
    }
}

/// The nodes that a docstring parses into.
pub open spec fn parse_content(s: Seq<char>) -> Seq<ContentNodeView> {
    parse_from(s, 0)
}


pub(crate) fn chars_of(s: &str) -> (v: Vec<char>)
    ensures
        v@ == s@,
{
    let mut v: Vec<char> = Vec::new();
    for c in it: s.chars()
        invariant
            v@ == it.seq().take(it.index() as int),
    {
        v.push(c);
        assert(v@ == it.seq().take(it.index() as int + 1));
    }
    assert(v@ == s@);
    v
}


fn find_pair_exec(v: &Vec<char>, c: char, from: usize) -> (r: Option<usize>)
    requires
        from <= v.len(),
    ensures
        match r {
            Some(k) => find_pair(v@, c, from as int) == Some(k as int),
            None => find_pair(v@, c, from as int) is None,
        },
{
    let n = v.len();
    let mut k = from;
    while n - k >= 2
        invariant
            from <= k <= n,
            n == v.len(),
            find_pair(v@, c, from as int) == find_pair(v@, c, k as int),
        decreases n - k,
    {
        if v[k] == c && v[k + 1] == c {
            return Some(k);
        }
        k += 1;
    }
    None
}

pub(crate) fn find_char_exec(v: &Vec<char>, c: char, from: usize, to: usize) -> (r: Option<usize>)
    requires
        from <= to <= v.len(),
    ensures
        match r {
            Some(k) => find_char(v@, c, from as int, to as int) == Some(k as int),
            None => find_char(v@, c, from as int, to as int) is None,
        },
{
    let mut k = from;
    while k < to
        invariant
            from <= k <= to <= v.len(),
            find_char(v@, c, from as int, to as int) == find_char(v@, c, k as int, to as int),
        decreases to - k,
    {
        if v[k] == c {
            return Some(k);
        }
        k += 1;
    }
    None
}

fn white_space(c: char) -> (b: bool)
    ensures
        b == is_white_space(c),
{
    let x = c as u32;
    (0x9 <= x && x <= 0xd) || x == 0x20 || x == 0x85 || x == 0xa0 || x == 0x1680 || (0x2000 <= x
        && x <= 0x200a) || x == 0x2028 || x == 0x2029 || x == 0x202f || x == 0x205f || x == 0x3000
}

/// The bounds of the trimmed part of `v[a..b]`.
fn trim_bounds(v: &Vec<char>, a: usize, b: usize) -> (r: (usize, usize))
    requires
        a <= b <= v.len(),
    ensures
        a <= r.0 <= r.1 <= b,
        v@.subrange(r.0 as int, r.1 as int) == trim(v@.subrange(a as int, b as int)),
{
    let mut lo = a;
    while lo < b && white_space(v[lo])
        invariant
            a <= lo <= b <= v.len(),
            trim_start(v@.subrange(a as int, b as int)) == trim_start(
                v@.subrange(lo as int, b as int),
            ),
        decreases b - lo,
    {
        assert(v@.subrange(lo as int, b as int).drop_first() == v@.subrange(
            lo + 1,
            b as int,
        ));
        lo += 1;
    }
    assert(trim_start(v@.subrange(lo as int, b as int)) == v@.subrange(lo as int, b as int));
    let mut hi = b;
    while hi > lo && white_space(v[hi - 1])
        invariant
            a <= lo <= hi <= b <= v.len(),
            trim_end(v@.subrange(lo as int, b as int)) == trim_end(
                v@.subrange(lo as int, hi as int),
            ),
        decreases hi - lo,
    {
        assert(v@.subrange(lo as int, hi as int).drop_last() == v@.subrange(
            lo as int,
            hi - 1,
        ));
        hi -= 1;
    }
    assert(trim_end(v@.subrange(lo as int, hi as int)) == v@.subrange(lo as int, hi as int));
    (lo, hi)
}

fn string_of(v: &Vec<char>, src: &str, a: usize, b: usize) -> (res: String)
    requires
        v@ == src@,
        a <= b <= v.len(),
    ensures
        res@ == v@.subrange(a as int, b as int),
{
    String::from_str(src.substring_char(a, b))
}

fn reference_in_exec(v: &Vec<char>, src: &str, a: usize, b: usize) -> (r: Reference)
    requires
        v@ == src@,
        a <= b <= v.len(),
    ensures
        r@ == reference_in(v@, a as int, b as int),
{
    proof {
        lemma_find_char_bounds(v@, '|', a as int, b as int);
    }
    match find_char_exec(v, '|', a, b) {
        Some(i) => {
            let (l1, h1) = trim_bounds(v, a, i);
            let (l2, h2) = trim_bounds(v, i + 1, b);
            Reference::new(string_of(v, src, l1, h1), Some(string_of(v, src, l2, h2)))
        },
        None => {
            let (l, h) = trim_bounds(v, a, b);
            Reference::new(string_of(v, src, l, h), None)
        },
    }
}

fn reference_at_pos(v: &Vec<char>, src: &str, p: usize) -> (r: Option<(ContentNode, usize)>)
    requires
        v@ == src@,
        p <= v.len(),
    ensures
        match r {
            Some((n, q)) => reference_at(v@, p as int) == Some((n@, q as int)) && p < q <= v.len(),
            None => reference_at(v@, p as int) is None,
        },
{
    let n = v.len();
    if n - p >= 2 && v[p] == '[' && v[p + 1] == '[' {
        proof {
            lemma_find_pair_bounds(v@, ']', p + 2);
        }
        match find_pair_exec(v, ']', p + 2) {
            Some(c) => {
                if find_char_exec(v, '\n', p + 2, c).is_none() {
                    let r = reference_in_exec(v, src, p + 2, c);
                    Some((ContentNode::Reference(r), c + 2))
                } else {
                    None
                }
            },
            None => None,
        }
    } else {
        None
    }
}

fn text_at_pos(v: &Vec<char>, src: &str, p: usize) -> (r: (ContentNode, usize))
    requires
        v@ == src@,
        p <= v.len(),
    ensures
        text_at(v@, p as int) == (r.0@, r.1 as int),
        p <= r.1 <= v.len(),
        p < v.len() ==> p < r.1,
{
    proof {
        lemma_find_pair_bounds(v@, '[', p as int);
    }
    let n = v.len();
    match find_pair_exec(v, '[', p) {
        Some(k) => if k > p {
            (ContentNode::Text(string_of(v, src, p, k)), k)
        } else {
            (ContentNode::Text(string_of(v, src, p, n)), n)
        },
        None => (ContentNode::Text(string_of(v, src, p, n)), n),
    }
}


/// Parses a reference at the start of `input` and advances `input` past it.
pub fn reference(input: &mut &str) -> (res: Result<ContentNode, ContentError>)
    ensures
        match reference_at(old(input)@, 0) {
            Some((n, q)) => {
                &&& res matches Ok(m) && m@ == n
                &&& final(input)@ == old(input)@.subrange(q, old(input)@.len() as int)
            },
            None => res is Err && final(input)@ == old(input)@,
        },
{
    let src: &str = *input;
    let v = chars_of(src);
    match reference_at_pos(&v, src, 0) {
        Some((node, q)) => {
            *input = src.substring_char(q, v.len());
            Ok(node)
        },
        None => Err(ContentError::NoMatch),
    }
}

/// Parses text at the start of `input` up to the next `[[` (or to the end, when `input`
/// starts with `[[` or holds none) and advances `input` past it.
pub fn text_node(input: &mut &str) -> (res: Result<ContentNode, ContentError>)
    ensures
        res matches Ok(m) && m@ == text_at(old(input)@, 0).0,
        final(input)@ == old(input)@.subrange(
            text_at(old(input)@, 0).1,
            old(input)@.len() as int,
        ),
{
    let src: &str = *input;
    let v = chars_of(src);
    let (node, q) = text_at_pos(&v, src, 0);
    *input = src.substring_char(q, v.len());
    Ok(node)
}

/// Parses a whole docstring into text and reference nodes; this never fails and
/// consumes all of `input`.
pub fn parse_contents(input: &mut &str) -> (res: Result<Vec<ContentNode>, ContentError>)
    ensures
        res matches Ok(nodes) && content_views(nodes@) == parse_content(old(input)@),
        final(input)@ == Seq::<char>::empty(),
{
    let src: &str = *input;
    let v = chars_of(src);
    let n = v.len();
    let mut nodes: Vec<ContentNode> = Vec::new();
    let mut p: usize = 0;
    while p < n
        invariant
            v@ == src@,
            n == v.len(),
            p <= n,
            content_views(nodes@) + parse_from(v@, p as int) == parse_from(v@, 0),
        decreases n - p,
    {
        let ghost prev = nodes@;
        let (node, q) = match reference_at_pos(&v, src, p) {
            Some((node, q)) => (node, q),
            None => text_at_pos(&v, src, p),
        };
        nodes.push(node);
        assert(content_views(nodes@) == content_views(prev) + seq![node@]);
        assert(parse_from(v@, p as int) == seq![node@] + parse_from(v@, q as int));
        assert(content_views(prev) + parse_from(v@, p as int) == content_views(nodes@)
            + parse_from(v@, q as int));
        p = q;
    }
    assert(content_views(nodes@) == parse_from(v@, 0));
    *input = src.substring_char(n, n);
    Ok(nodes)
}


proof fn lemma_find_pair_first(s: Seq<char>, c: char, from: int, k: int)
    requires
        0 <= from <= k,
        pair_at(s, k, c),
        forall|j: int| from <= j < k ==> !pair_at(s, j, c),
    ensures
        find_pair(s, c, from) == Some(k),
    decreases k - from,
{
    if from < k {
        lemma_find_pair_first(s, c, from + 1, k);
    }
}

proof fn lemma_find_char_first(s: Seq<char>, c: char, from: int, to: int, k: int)
    requires
        0 <= from <= k < to,
        s[k] == c,
        forall|j: int| from <= j < k ==> s[j] != c,
    ensures
        find_char(s, c, from, to) == Some(k),
    decreases k - from,
{
    if from < k {
        lemma_find_char_first(s, c, from + 1, to, k);
    }
}

proof fn lemma_find_char_none(s: Seq<char>, c: char, from: int, to: int)
    requires
        0 <= from,
        forall|j: int| from <= j < to ==> s[j] != c,
    ensures
        find_char(s, c, from, to) is None,
    decreases to - from,
{
    if from < to {
        lemma_find_char_none(s, c, from + 1, to);
    }
}

/// A name or display text that a reference can hold and give back unchanged: it has no
/// surrounding white space, and no `]` or newline, which would end the reference early.
pub open spec fn is_plain_reference_part(t: Seq<char>) -> bool {
    &&& trim(t) == t
    &&& forall|i: int| 0 <= i < t.len() ==> t[i] != ']' && t[i] != '\n'
}

/// Reading back what `original` writes gives the reference itself: the text of a
/// reference whose name holds no `|` and whose parts are plain parses into exactly
/// that one reference.
pub proof fn law_original_parses_back(r: ReferenceView)
    requires
        is_plain_reference_part(r.name),
        forall|i: int| 0 <= i < r.name.len() ==> r.name[i] != '|',
        r.display matches Some(d) ==> is_plain_reference_part(d),
    ensures
        parse_content(original_text(r)) == seq![ContentNodeView::Reference(r)],
{
    let s = original_text(r);
    let len = s.len() as int;
    let m = r.name.len() as int;
    let c = len - 2;
    assert(s[len - 2] == ']' && s[len - 1] == ']');
    assert(s.subrange(2, 2 + m) == r.name);
    match r.display {
        Some(d) => {
            assert(s[2 + m] == '|');
            assert(s.subrange(3 + m, c) == d);
            assert forall|j: int| 2 <= j < c implies s[j] != ']' && s[j] != '\n' by {
                if j < 2 + m {
                    assert(s[j] == r.name[j - 2]);
                } else if j > 2 + m {
                    assert(s[j] == d[j - 3 - m]);
                }
            }
            lemma_find_char_first(s, '|', 2, c, 2 + m);
        },
        None => {
            assert(c == 2 + m);
            assert forall|j: int| 2 <= j < c implies s[j] != ']' && s[j] != '\n' && s[j]
                != '|' by {
                assert(s[j] == r.name[j - 2]);
            }
            lemma_find_char_none(s, '|', 2, c);
        },
    }
    lemma_find_pair_first(s, ']', 2, c);
    lemma_find_char_none(s, '\n', 2, c);
    assert(reference_at(s, 0) == Some((ContentNodeView::Reference(r), len)));
    assert(parse_from(s, len) == Seq::<ContentNodeView>::empty());
}


proof fn lemma_text_nodes_nonempty_from(s: Seq<char>, p: int)
    ensures
        forall|i: int|
            0 <= i < parse_from(s, p).len() ==> (#[trigger] parse_from(s, p)[i] matches ContentNodeView::Text(
                t,
            ) ==> t.len() > 0),
    decreases s.len() - p,
{
    if 0 <= p < s.len() {
        lemma_find_pair_bounds(s, ']', p + 2);
        lemma_find_pair_bounds(s, '[', p);
        let (n, q) = match reference_at(s, p) {
            Some((n, q)) => (n, q),
            None => text_at(s, p),
        };
        lemma_text_nodes_nonempty_from(s, q);
        assert(parse_from(s, p) == seq![n] + parse_from(s, q));
        assert forall|i: int|
            0 <= i < parse_from(s, p).len() implies (#[trigger] parse_from(s, p)[i] matches ContentNodeView::Text(
                t,
            ) ==> t.len() > 0) by {
            if i > 0 {
                assert(parse_from(s, p)[i] == parse_from(s, q)[i - 1]);
            }
        }
    }
}

/// A docstring never parses into an empty text node.
pub proof fn law_text_nodes_nonempty(s: Seq<char>)
    ensures
        forall|i: int|
            0 <= i < parse_content(s).len() ==> (#[trigger] parse_content(s)[i] matches ContentNodeView::Text(
                t,
            ) ==> t.len() > 0),
{
    lemma_text_nodes_nonempty_from(s, 0);
}

/// Text that holds no `[[` parses into one text node holding all of it (none if empty).
pub proof fn law_plain_text_is_one_node(s: Seq<char>)
    requires
        forall|i: int| 0 <= i < s.len() ==> !pair_at(s, i, '['),
    ensures
        s.len() > 0 ==> parse_content(s) == seq![ContentNodeView::Text(s)],
        s.len() == 0 ==> parse_content(s) == Seq::<ContentNodeView>::empty(),
{
    if s.len() > 0 {
        assert(!pair_at(s, 0, '['));
        lemma_find_pair_none(s, '[', 0);
        assert(s.subrange(0, s.len() as int) == s);
        assert(parse_from(s, s.len() as int) == Seq::<ContentNodeView>::empty());
    }
}

proof fn lemma_find_pair_none(s: Seq<char>, c: char, from: int)
    requires
        0 <= from,
        forall|i: int| from <= i < s.len() ==> !pair_at(s, i, c),
    ensures
        find_pair(s, c, from) is None,
    decreases s.len() - from,
{
    if from + 1 < s.len() {
        lemma_find_pair_none(s, c, from + 1);
    }
}

} // verus!
