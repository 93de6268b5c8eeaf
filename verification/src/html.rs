//! HTML-to-Markdown walker.
//!
//! A lenient fragment parser turns the input into an arena of nodes in
//! document order, each holding its parent's index; a walker then emits
//! Markdown for every node whose tag lies in a fixed set; a final
//! line-based pass reconstructs tables from the shape of the emitted
//! pipe-delimited lines.
//!
//! The parser's scanning rules are deliberately simple: a tag runs from
//! a `<` that a letter, `/`, `!` or `?` follows, to the first `>` after
//! it (a `>` inside a quoted attribute value ends the tag head);
//! anything between tags is one text node; an unmatched closing tag is
//! ignored; an unterminated tag discards the rest of the input.
//! Malformed input never aborts the conversion.

use vstd::prelude::*;

use crate::is_space;
use crate::text::{
    find_char_from, first_non_space, lemma_find_char_props, lemma_first_non_space_props,
};

verus! {

/// One parsed node: an element with a tag, attributes and a parent, or
/// a run of text.
#[derive(Debug)]
pub struct HtmlNode {
    /// Whether this node is a text run rather than an element.
    pub is_text: bool,
    /// Lower-cased element name; empty for text nodes and the root.
    pub tag: Vec<char>,
    /// The text of a text run; empty for elements.
    pub text: Vec<char>,
    /// Attribute names (lower-cased) and values, in source order.
    pub attrs: Vec<(Vec<char>, Vec<char>)>,
    /// Index of the parent node; the root is its own parent.
    pub parent: usize,
}

/// The mathematical content of a node.
#[verifier::ext_equal]
pub struct NodeModel {
    pub is_text: bool,
    pub tag: Seq<char>,
    pub text: Seq<char>,
    pub attrs: Seq<(Seq<char>, Seq<char>)>,
    pub parent: int,
}

impl View for HtmlNode {
    type V = NodeModel;

    open spec fn view(&self) -> NodeModel {
        NodeModel {
            is_text: self.is_text,
            tag: self.tag@,
            text: self.text@,
            attrs: self.attrs.deep_view(),
            parent: self.parent as int,
        }
    }
}

impl DeepView for HtmlNode {
    type V = NodeModel;

    open spec fn deep_view(&self) -> NodeModel {
        self.view()
    }
}

/// A parsed fragment: the node arena, in document order, rooted at a
/// synthetic node at index zero.
#[derive(Debug)]
pub struct Fragment {
    pub nodes: Vec<HtmlNode>,
}

impl View for Fragment {
    type V = Seq<NodeModel>;

    open spec fn view(&self) -> Seq<NodeModel> {
        self.nodes.deep_view()
    }
}

/// Well-formedness of an arena: a synthetic root at index zero, and
/// every later node's parent strictly before it.
pub open spec fn frag_wf(nodes: Seq<NodeModel>) -> bool {
    &&& nodes.len() >= 1
    &&& nodes[0].parent == 0
    &&& forall|i: int| 1 <= i < nodes.len() ==> 0 <= #[trigger] nodes[i].parent < i
}

// ---------------------------------------------------------------------
// Character classes and scanning.
// ---------------------------------------------------------------------

pub open spec fn is_letter(c: char) -> bool {
    ('a' <= c && c <= 'z') || ('A' <= c && c <= 'Z')
}

pub open spec fn is_digit(c: char) -> bool {
    '0' <= c && c <= '9'
}

pub open spec fn is_name_char(c: char) -> bool {
    is_letter(c) || is_digit(c)
}

/// The lower-case form of an ASCII letter; other characters unchanged.
pub open spec fn lower_char(c: char) -> char {
    if c == 'A' {
        'a'
    } else if c == 'B' {
        'b'
    } else if c == 'C' {
        'c'
    } else if c == 'D' {
        'd'
    } else if c == 'E' {
        'e'
    } else if c == 'F' {
        'f'
    } else if c == 'G' {
        'g'
    } else if c == 'H' {
        'h'
    } else if c == 'I' {
        'i'
    } else if c == 'J' {
        'j'
    } else if c == 'K' {
        'k'
    } else if c == 'L' {
        'l'
    } else if c == 'M' {
        'm'
    } else if c == 'N' {
        'n'
    } else if c == 'O' {
        'o'
    } else if c == 'P' {
        'p'
    } else if c == 'Q' {
        'q'
    } else if c == 'R' {
        'r'
    } else if c == 'S' {
        's'
    } else if c == 'T' {
        't'
    } else if c == 'U' {
        'u'
    } else if c == 'V' {
        'v'
    } else if c == 'W' {
        'w'
    } else if c == 'X' {
        'x'
    } else if c == 'Y' {
        'y'
    } else if c == 'Z' {
        'z'
    } else {
        c
    }
}

/// `s` with every ASCII upper-case letter lowered.
pub open spec fn lower_seq(s: Seq<char>) -> Seq<char> {
    Seq::new(s.len(), |i: int| lower_char(s[i]))
}

/// Whether position `i` of `s` starts a tag: a `<` followed by a
/// letter, `/`, `!` or `?`.
pub open spec fn tag_start_at(s: Seq<char>, i: int) -> bool {
    &&& 0 <= i
    &&& i + 1 < s.len()
    &&& s[i] == '<'
    &&& (is_letter(s[i + 1]) || s[i + 1] == '/' || s[i + 1] == '!' || s[i + 1] == '?')
}

/// The first tag start at or after `p`.
pub open spec fn find_tag_start(s: Seq<char>, p: int) -> Option<int>
    decreases s.len() - p,
{
    if p < 0 || p >= s.len() {
        None
    } else if tag_start_at(s, p) {
        Some(p)
    } else {
        find_tag_start(s, p + 1)
    }
}

pub proof fn lemma_find_tag_start_props(s: Seq<char>, p: int)
    requires
        0 <= p,
    ensures
        match find_tag_start(s, p) {
            Some(i) => p <= i && tag_start_at(s, i) && forall|k: int|
                p <= k < i ==> !tag_start_at(s, k),
            None => forall|k: int| p <= k ==> !tag_start_at(s, k),
        },
    decreases s.len() - p,
{
    if p < s.len() && !tag_start_at(s, p) {
        lemma_find_tag_start_props(s, p + 1);
    }
}

/// The first index at or after `i` that does not hold a name character.
pub open spec fn scan_name_end(s: Seq<char>, i: int) -> int
    decreases s.len() - i,
{
    if i < 0 || i >= s.len() {
        s.len() as int
    } else if is_name_char(s[i]) {
        scan_name_end(s, i + 1)
    } else {
        i
    }
}

/// A character that ends an attribute name: `=`, `/`, or whitespace.
pub open spec fn is_attr_name_end(c: char) -> bool {
    c == '=' || c == '/' || is_space(c)
}

/// The first index at or after `i` that ends an attribute name.
pub open spec fn scan_attr_name_end(s: Seq<char>, i: int) -> int
    decreases s.len() - i,
{
    if i < 0 || i >= s.len() {
        s.len() as int
    } else if !is_attr_name_end(s[i]) {
        scan_attr_name_end(s, i + 1)
    } else {
        i
    }
}

pub proof fn lemma_scan_attr_name_end_props(s: Seq<char>, i: int)
    requires
        0 <= i <= s.len(),
    ensures
        i <= scan_attr_name_end(s, i) <= s.len(),
    decreases s.len() - i,
{
    if i < s.len() && !is_attr_name_end(s[i]) {
        lemma_scan_attr_name_end_props(s, i + 1);
    }
}

/// The first index at or after `i` holding whitespace.
pub open spec fn scan_value_end(s: Seq<char>, i: int) -> int
    decreases s.len() - i,
{
    if i < 0 || i >= s.len() {
        s.len() as int
    } else if !is_space(s[i]) {
        scan_value_end(s, i + 1)
    } else {
        i
    }
}

pub proof fn lemma_scan_value_end_props(s: Seq<char>, i: int)
    requires
        0 <= i <= s.len(),
    ensures
        i <= scan_value_end(s, i) <= s.len(),
    decreases s.len() - i,
{
    if i < s.len() && !is_space(s[i]) {
        lemma_scan_value_end_props(s, i + 1);
    }
}

/// The attributes written in a tag head from position `i` on: names
/// lower-cased, values taken from quoted or bare form.
pub open spec fn attrs_of(head: Seq<char>, i: int) -> Seq<(Seq<char>, Seq<char>)>
    decreases head.len() - i when 0 <= i <= head.len() via attrs_of_decreases
{
    let j = first_non_space(head, i);
    if j >= head.len() {
        Seq::empty()
    } else if head[j] == '/' || head[j] == '=' {
        attrs_of(head, j + 1)
    } else {
        let ne = scan_attr_name_end(head, j);
        let name = lower_seq(head.subrange(j, ne));
        if ne < head.len() && head[ne] == '=' {
            let vs = ne + 1;
            if vs < head.len() && (head[vs] == '"' || head[vs] == '\'') {
                match find_char_from(head, head[vs], vs + 1) {
                    None => seq![(name, head.subrange(vs + 1, head.len() as int))],
                    Some(e) => seq![(name, head.subrange(vs + 1, e))] + attrs_of(head, e + 1),
                }
            } else {
                let ve = scan_value_end(head, vs);
                seq![(name, head.subrange(vs, ve))] + attrs_of(head, ve)
            }
        } else {
            seq![(name, Seq::empty())] + attrs_of(head, ne)
        }
    }
}

#[via_fn]
proof fn attrs_of_decreases(head: Seq<char>, i: int) {
    lemma_first_non_space_props(head, i);
    let j = first_non_space(head, i);
    if j < head.len() && head[j] != '/' && head[j] != '=' {
        let ne = scan_attr_name_end(head, j);
        assert(!is_attr_name_end(head[j]));
        assert(scan_attr_name_end(head, j) == scan_attr_name_end(head, j + 1));
        lemma_scan_attr_name_end_props(head, j + 1);
        assert(ne > j);
        if ne < head.len() && head[ne] == '=' {
            let vs = ne + 1;
            if vs < head.len() && (head[vs] == '"' || head[vs] == '\'') {
                lemma_find_char_props(head, head[vs], vs + 1);
            } else {
                lemma_scan_value_end_props(head, vs);
            }
        }
    }
}

// ---------------------------------------------------------------------
// The parser.
// ---------------------------------------------------------------------

/// Parser state: the arena built so far and the stack of open elements.
#[verifier::ext_equal]
pub struct ParseModel {
    pub nodes: Seq<NodeModel>,
    pub stack: Seq<int>,
}

/// The index new nodes attach to: the innermost open element, or the
/// root.
pub open spec fn stack_top(st: ParseModel) -> int {
    if st.stack.len() == 0 {
        0
    } else {
        st.stack.last()
    }
}

/// Elements that never take content and so are not pushed open.
pub open spec fn is_void_tag(tag: Seq<char>) -> bool {
    ||| tag == "img"@
    ||| tag == "br"@
    ||| tag == "hr"@
    ||| tag == "meta"@
    ||| tag == "link"@
    ||| tag == "input"@
}

/// The state after a text run `t` is added under the innermost open
/// element.
pub open spec fn add_text(st: ParseModel, t: Seq<char>) -> ParseModel {
    ParseModel {
        nodes: st.nodes.push(
            NodeModel {
                is_text: true,
                tag: Seq::empty(),
                text: t,
                attrs: Seq::empty(),
                parent: stack_top(st),
            },
        ),
        stack: st.stack,
    }
}

/// The state after an opening tag whose head (name and attributes,
/// without the angle brackets) is `head`: the element is appended, and
/// pushed open unless it is void or self-closing.
pub open spec fn open_tag(st: ParseModel, head: Seq<char>) -> ParseModel {
    let ne = scan_name_end(head, 0);
    let name = lower_seq(head.subrange(0, ne));
    let self_closing = head.len() > 0 && head.last() == '/';
    let node = NodeModel {
        is_text: false,
        tag: name,
        text: Seq::empty(),
        attrs: attrs_of(head, ne),
        parent: stack_top(st),
    };
    let nodes = st.nodes.push(node);
    if self_closing || is_void_tag(name) {
        ParseModel { nodes, stack: st.stack }
    } else {
        ParseModel { nodes, stack: st.stack.push(st.nodes.len() as int) }
    }
}

/// The innermost stack entry whose element carries `name`, scanning
/// down from position `k`.
pub open spec fn stack_find(nodes: Seq<NodeModel>, stack: Seq<int>, name: Seq<char>, k: int) -> Option<int>
    decreases k + 1,
{
    if k < 0 || k >= stack.len() {
        None
    } else if 0 <= stack[k] < nodes.len() && nodes[stack[k]].tag == name {
        Some(k)
    } else {
        stack_find(nodes, stack, name, k - 1)
    }
}

/// The state after a closing tag for `name`: open elements down to and
/// including the matching one are closed; with no match the tag is
/// ignored.
pub open spec fn close_tag(st: ParseModel, name: Seq<char>) -> ParseModel {
    match stack_find(st.nodes, st.stack, name, st.stack.len() - 1) {
        None => st,
        Some(k) => ParseModel { nodes: st.nodes, stack: st.stack.take(k) },
    }
}

/// One pass of the parser from position `p`: text up to the next tag
/// start, then one tag, and so on to the end of the input.
pub open spec fn parse_from(s: Seq<char>, p: int, st: ParseModel) -> ParseModel
    decreases s.len() - p when 0 <= p via parse_from_decreases
{
    if p >= s.len() {
        st
    } else if tag_start_at(s, p) {
        if s[p + 1] == '/' {
            let ne = scan_name_end(s, p + 2);
            let name = lower_seq(s.subrange(p + 2, ne));
            match find_char_from(s, '>', p + 1) {
                None => st,
                Some(g) => parse_from(s, g + 1, close_tag(st, name)),
            }
        } else if s[p + 1] == '!' || s[p + 1] == '?' {
            match find_char_from(s, '>', p + 1) {
                None => st,
                Some(g) => parse_from(s, g + 1, st),
            }
        } else {
            match find_char_from(s, '>', p + 1) {
                None => st,
                Some(g) => parse_from(s, g + 1, open_tag(st, s.subrange(p + 1, g))),
            }
        }
    } else {
        match find_tag_start(s, p + 1) {
            None => add_text(st, s.subrange(p, s.len() as int)),
            Some(ts) => parse_from(s, ts, add_text(st, s.subrange(p, ts))),
        }
    }
}

#[via_fn]
proof fn parse_from_decreases(s: Seq<char>, p: int, st: ParseModel) {
    if 0 <= p < s.len() {
        if tag_start_at(s, p) {
            lemma_find_char_props(s, '>', p + 1);
        } else {
            lemma_find_tag_start_props(s, p + 1);
        }
    }
}

/// The initial parser state: the synthetic root alone.
pub open spec fn init_state() -> ParseModel {
    ParseModel {
        nodes: seq![
            NodeModel {
                is_text: false,
                tag: Seq::empty(),
                text: Seq::empty(),
                attrs: Seq::empty(),
                parent: 0,
            },
        ],
        stack: Seq::empty(),
    }
}

/// The arena the parser yields for `s`.
pub open spec fn parse_spec(s: Seq<char>) -> Seq<NodeModel> {
    parse_from(s, 0, init_state()).nodes
}

/// A state whose arena is well formed and whose stack names existing
/// nodes in increasing order.
pub open spec fn state_wf(st: ParseModel) -> bool {
    &&& frag_wf(st.nodes)
    &&& forall|k: int| 0 <= k < st.stack.len() ==> 0 <= #[trigger] st.stack[k] < st.nodes.len()
}

proof fn lemma_close_tag_wf(st: ParseModel, name: Seq<char>)
    requires
        state_wf(st),
    ensures
        state_wf(close_tag(st, name)),
        close_tag(st, name).nodes == st.nodes,
{
    if let Some(k) = stack_find(st.nodes, st.stack, name, st.stack.len() - 1) {
        lemma_stack_find_props(st.nodes, st.stack, name, st.stack.len() - 1);
        assert(forall|m: int| 0 <= m < k ==> st.stack.take(k)[m] == st.stack[m]);
    }
}

proof fn lemma_stack_find_props(nodes: Seq<NodeModel>, stack: Seq<int>, name: Seq<char>, k: int)
    requires
        k < stack.len(),
    ensures
        match stack_find(nodes, stack, name, k) {
            Some(m) => 0 <= m <= k,
            None => true,
        },
    decreases k + 1,
{
    if k >= 0 {
        if !(0 <= stack[k] < nodes.len() && nodes[stack[k]].tag == name) {
            lemma_stack_find_props(nodes, stack, name, k - 1);
        }
    }
}

// ---------------------------------------------------------------------
// Executable parser.
// ---------------------------------------------------------------------

fn is_letter_exec(c: char) -> (r: bool)
    ensures
        r == is_letter(c),
{
    ('a' <= c && c <= 'z') || ('A' <= c && c <= 'Z')
}

fn is_name_char_exec(c: char) -> (r: bool)
    ensures
        r == is_name_char(c),
{
    is_letter_exec(c) || ('0' <= c && c <= '9')
}

fn lower_char_exec(c: char) -> (r: char)
    ensures
        r == lower_char(c),
{
    if c == 'A' {
        'a'
    } else if c == 'B' {
        'b'
    } else if c == 'C' {
        'c'
    } else if c == 'D' {
        'd'
    } else if c == 'E' {
        'e'
    } else if c == 'F' {
        'f'
    } else if c == 'G' {
        'g'
    } else if c == 'H' {
        'h'
    } else if c == 'I' {
        'i'
    } else if c == 'J' {
        'j'
    } else if c == 'K' {
        'k'
    } else if c == 'L' {
        'l'
    } else if c == 'M' {
        'm'
    } else if c == 'N' {
        'n'
    } else if c == 'O' {
        'o'
    } else if c == 'P' {
        'p'
    } else if c == 'Q' {
        'q'
    } else if c == 'R' {
        'r'
    } else if c == 'S' {
        's'
    } else if c == 'T' {
        't'
    } else if c == 'U' {
        'u'
    } else if c == 'V' {
        'v'
    } else if c == 'W' {
        'w'
    } else if c == 'X' {
        'x'
    } else if c == 'Y' {
        'y'
    } else if c == 'Z' {
        'z'
    } else {
        c
    }
}

/// `v` with every ASCII upper-case letter lowered, as `lower_seq`
/// states.
pub fn v_lower(v: &Vec<char>) -> (r: Vec<char>)
    ensures
        r@ == lower_seq(v@),
{
    let mut r: Vec<char> = Vec::new();
    let mut i: usize = 0;
    while i < v.len()
        invariant
            i <= v@.len(),
            r@.len() == i,
            forall|k: int| 0 <= k < i ==> r@[k] == lower_char(v@[k]),
        decreases v.len() - i,
    {
        r.push(lower_char_exec(v[i]));
        i = i + 1;
    }
    assert(r@ =~= lower_seq(v@));
    r
}

fn v_find_tag_start(v: &Vec<char>, p0: usize) -> (r: Option<usize>)
    ensures
        match r {
            Some(i) => find_tag_start(v@, p0 as int) == Some(i as int) && p0 <= i,
            None => find_tag_start(v@, p0 as int) is None,
        },
{
    let n: usize = v.len();
    let mut i: usize = p0;
    while i < n
        invariant
            p0 <= i,
            n == v@.len(),
            find_tag_start(v@, p0 as int) == find_tag_start(v@, i as int),
        decreases n - i,
    {
        if v[i] == '<' && i + 1 < n {
            let c = v[i + 1];
            if is_letter_exec(c) || c == '/' || c == '!' || c == '?' {
                assert(tag_start_at(v@, i as int));
                return Some(i);
            }
        }
        assert(!tag_start_at(v@, i as int));
        i = i + 1;
    }
    None
}

fn v_scan_name_end(v: &Vec<char>, i0: usize) -> (r: usize)
    requires
        i0 <= v@.len(),
    ensures
        r == scan_name_end(v@, i0 as int),
        i0 <= r <= v@.len(),
{
    let n: usize = v.len();
    let mut i: usize = i0;
    while i < n
        invariant
            i0 <= i <= n,
            n == v@.len(),
            scan_name_end(v@, i0 as int) == scan_name_end(v@, i as int),
        decreases n - i,
    {
        if !is_name_char_exec(v[i]) {
            return i;
        }
        i = i + 1;
    }
    i
}

fn v_scan_attr_name_end(v: &Vec<char>, i0: usize) -> (r: usize)
    requires
        i0 <= v@.len(),
    ensures
        r == scan_attr_name_end(v@, i0 as int),
        i0 <= r <= v@.len(),
{
    let n: usize = v.len();
    let mut i: usize = i0;
    while i < n
        invariant
            i0 <= i <= n,
            n == v@.len(),
            scan_attr_name_end(v@, i0 as int) == scan_attr_name_end(v@, i as int),
        decreases n - i,
    {
        let c = v[i];
        if c == '=' || c == '/' || crate::text::is_space_exec(c) {
            return i;
        }
        i = i + 1;
    }
    i
}

fn v_scan_value_end(v: &Vec<char>, i0: usize) -> (r: usize)
    requires
        i0 <= v@.len(),
    ensures
        r == scan_value_end(v@, i0 as int),
        i0 <= r <= v@.len(),
{
    let n: usize = v.len();
    let mut i: usize = i0;
    while i < n
        invariant
            i0 <= i <= n,
            n == v@.len(),
            scan_value_end(v@, i0 as int) == scan_value_end(v@, i as int),
        decreases n - i,
    {
        if crate::text::is_space_exec(v[i]) {
            return i;
        }
        i = i + 1;
    }
    i
}

fn v_first_non_space(v: &Vec<char>, i0: usize) -> (r: usize)
    requires
        i0 <= v@.len(),
    ensures
        r == first_non_space(v@, i0 as int),
        i0 <= r <= v@.len(),
        r < v@.len() ==> !is_space(v@[r as int]),
{
    let n: usize = v.len();
    let mut i: usize = i0;
    while i < n
        invariant
            i0 <= i <= n,
            n == v@.len(),
            first_non_space(v@, i0 as int) == first_non_space(v@, i as int),
        decreases n - i,
    {
        if !crate::text::is_space_exec(v[i]) {
            return i;
        }
        i = i + 1;
    }
    i
}

/// The attributes of a tag head from position `i0` on, as `attrs_of`
/// states.
fn v_attrs_of(head: &Vec<char>, i0: usize) -> (r: Vec<(Vec<char>, Vec<char>)>)
    requires
        i0 <= head@.len(),
    ensures
        r.deep_view() == attrs_of(head@, i0 as int),
{
    let n: usize = head.len();
    let mut r: Vec<(Vec<char>, Vec<char>)> = Vec::new();
    let mut i: usize = i0;
    loop
        invariant
            i0 <= i <= n,
            n == head@.len(),
            attrs_of(head@, i0 as int) == r.deep_view() + attrs_of(head@, i as int),
        decreases n - i,
    {
        let ghost prev = r.deep_view();
        let j = v_first_non_space(head, i);
        if j >= n {
            assert(attrs_of(head@, i as int) =~~= Seq::<(Seq<char>, Seq<char>)>::empty());
            assert(r.deep_view() =~~= attrs_of(head@, i0 as int));
            return r;
        }
        let cj = head[j];
        if cj == '/' || cj == '=' {
            i = j + 1;
        } else {
            let ne = v_scan_attr_name_end(head, j);
            proof {
                assert(!is_attr_name_end(head@[j as int]));
                assert(scan_attr_name_end(head@, j as int) == scan_attr_name_end(
                    head@,
                    j + 1,
                ));
                lemma_scan_attr_name_end_props(head@, j + 1);
            }
            let name = v_lower(&crate::text::v_subrange(head, j, ne));
            if ne < n && head[ne] == '=' {
                let vs = ne + 1;
                if vs < n && (head[vs] == '"' || head[vs] == '\'') {
                    match crate::text::v_find_char(head, head[vs], vs + 1) {
                        None => {
                            let value = crate::text::v_subrange(head, vs + 1, n);
                            r.push((name, value));
                            assert(r.deep_view() =~~= prev + attrs_of(head@, i as int));
                            assert(attrs_of(head@, i0 as int) =~~= r.deep_view());
                            return r;
                        },
                        Some(e) => {
                            proof {
                                lemma_find_char_props(head@, head@[vs as int], vs + 1);
                            }
                            let value = crate::text::v_subrange(head, vs + 1, e);
                            r.push((name, value));
                            assert(r.deep_view() =~~= prev + seq![
                                (
                                    lower_seq(head@.subrange(j as int, ne as int)),
                                    head@.subrange(vs + 1, e as int),
                                ),
                            ]);
                            assert(r.deep_view() + attrs_of(head@, e + 1) =~~= prev
                                + attrs_of(head@, i as int));
                            i = e + 1;
                        },
                    }
                } else {
                    let ve = v_scan_value_end(head, vs);
                    let value = crate::text::v_subrange(head, vs, ve);
                    r.push((name, value));
                    assert(r.deep_view() =~~= prev + seq![
                        (
                            lower_seq(head@.subrange(j as int, ne as int)),
                            head@.subrange(vs as int, ve as int),
                        ),
                    ]);
                    assert(r.deep_view() + attrs_of(head@, ve as int) =~~= prev + attrs_of(
                        head@,
                        i as int,
                    ));
                    i = ve;
                }
            } else {
                r.push((name, Vec::new()));
                assert(r.deep_view() =~~= prev + seq![
                    (lower_seq(head@.subrange(j as int, ne as int)), Seq::<char>::empty()),
                ]);
                assert(r.deep_view() + attrs_of(head@, ne as int) =~~= prev + attrs_of(
                    head@,
                    i as int,
                ));
                i = ne;
            }
        }
    }
}


/// The integer model of an executable stack of indices.
pub open spec fn stack_model(st: Seq<usize>) -> Seq<int> {
    Seq::new(st.len(), |i: int| st[i] as int)
}

fn lit(s: &str) -> (v: Vec<char>)
    ensures
        v@ == s@,
{
    crate::conv::str_to_chars(s)
}

fn is_void_exec(name: &Vec<char>) -> (r: bool)
    ensures
        r == is_void_tag(name@),
{
    crate::text::v_eq(name, &lit("img")) || crate::text::v_eq(name, &lit("br"))
        || crate::text::v_eq(name, &lit("hr")) || crate::text::v_eq(name, &lit("meta"))
        || crate::text::v_eq(name, &lit("link")) || crate::text::v_eq(name, &lit("input"))
}

/// Closes open elements down to the innermost one named `name`, as
/// `close_tag` states; with no match the stack is unchanged.
fn v_close_tag(nodes: &Vec<HtmlNode>, stack: &mut Vec<usize>, name: &Vec<char>)
    ensures
        stack_model(final(stack)@) == close_tag(
            ParseModel { nodes: nodes.deep_view(), stack: stack_model(old(stack)@) },
            name@,
        ).stack,
{
    let ghost nm = nodes.deep_view();
    let ghost sm0 = stack_model(stack@);
    let mut k: usize = stack.len();
    loop
        invariant
            k <= stack@.len(),
            stack@ == old(stack)@,
            nm == nodes.deep_view(),
            sm0 == stack_model(stack@),
            stack_find(nm, sm0, name@, sm0.len() - 1) == stack_find(nm, sm0, name@, k - 1),
        decreases k,
    {
        if k == 0 {
            assert(stack_find(nm, sm0, name@, -1) is None);
            return;
        }
        let idx = stack[k - 1];
        assert(sm0[k - 1] == idx as int);
        if idx < nodes.len() {
            assert(nm[idx as int].tag == nodes@[idx as int].tag@);
            if crate::text::v_eq(&nodes[idx].tag, name) {
                assert(stack_find(nm, sm0, name@, sm0.len() - 1) == Some(k - 1));
                stack.truncate(k - 1);
                assert(stack_model(stack@) =~= sm0.take(k - 1));
                return;
            }
        }
        assert(stack_find(nm, sm0, name@, k - 1) == stack_find(nm, sm0, name@, k - 2));
        k = k - 1;
    }
}

/// Parses `html` leniently into a well-formed arena, as `parse_spec`
/// states.
pub fn parse_fragment(html: &str) -> (f: Fragment)
    ensures
        f@ == parse_spec(html@),
        frag_wf(f@),
{
    let s = crate::conv::str_to_chars(html);
    let n: usize = s.len();
    let mut nodes: Vec<HtmlNode> = Vec::new();
    nodes.push(
        HtmlNode {
            is_text: false,
            tag: Vec::new(),
            text: Vec::new(),
            attrs: Vec::new(),
            parent: 0,
        },
    );
    let mut stack: Vec<usize> = Vec::new();
    proof {
        assert((ParseModel { nodes: nodes.deep_view(), stack: stack_model(stack@) })
            =~~= init_state());
    }
    let mut p: usize = 0;
    loop
        invariant
            p <= n,
            n == s@.len(),
            s@ == html@,
            state_wf((ParseModel { nodes: nodes.deep_view(), stack: stack_model(stack@) })),
            parse_from(html@, 0, init_state()) == parse_from(
                html@,
                p as int,
                (ParseModel { nodes: nodes.deep_view(), stack: stack_model(stack@) }),
            ),
        decreases n - p,
    {
        let ghost cur = ParseModel { nodes: nodes.deep_view(), stack: stack_model(stack@) };
        if p >= n {
            assert(parse_from(html@, p as int, cur) == cur);
            let f = Fragment { nodes };
            assert(f@ == parse_spec(html@));
            return f;
        }
        let is_ts: bool = s[p] == '<' && p + 1 < n && {
            let c = s[p + 1];
            is_letter_exec(c) || c == '/' || c == '!' || c == '?'
        };
        assert(is_ts == tag_start_at(html@, p as int));
        if is_ts {
            if s[p + 1] == '/' {
                let ne = v_scan_name_end(&s, p + 2);
                let name = v_lower(&crate::text::v_subrange(&s, p + 2, ne));
                match crate::text::v_find_char(&s, '>', p + 1) {
                    None => {
                        assert(parse_from(html@, p as int, cur) == cur);
                        let f = Fragment { nodes };
                        assert(f@ == parse_spec(html@));
                        return f;
                    },
                    Some(g) => {
                        proof {
                            lemma_find_char_props(html@, '>', p + 1);
                        }
                        v_close_tag(&nodes, &mut stack, &name);
                        proof {
                            assert((ParseModel {
                                nodes: nodes.deep_view(),
                                stack: stack_model(stack@),
                            }) =~~= close_tag(cur, name@));
                            lemma_close_tag_wf(cur, name@);
                        }
                        p = g + 1;
                    },
                }
            } else if s[p + 1] == '!' || s[p + 1] == '?' {
                match crate::text::v_find_char(&s, '>', p + 1) {
                    None => {
                        assert(parse_from(html@, p as int, cur) == cur);
                        let f = Fragment { nodes };
                        assert(f@ == parse_spec(html@));
                        return f;
                    },
                    Some(g) => {
                        proof {
                            lemma_find_char_props(html@, '>', p + 1);
                        }
                        p = g + 1;
                    },
                }
            } else {
                match crate::text::v_find_char(&s, '>', p + 1) {
                    None => {
                        assert(parse_from(html@, p as int, cur) == cur);
                        let f = Fragment { nodes };
                        assert(f@ == parse_spec(html@));
                        return f;
                    },
                    Some(g) => {
                        proof {
                            lemma_find_char_props(html@, '>', p + 1);
                        }
                        let head = crate::text::v_subrange(&s, p + 1, g);
                        let ne = v_scan_name_end(&head, 0);
                        let name = v_lower(&crate::text::v_subrange(&head, 0, ne));
                        let self_closing: bool = head.len() > 0 && head[head.len() - 1] == '/';
                        let attrs = v_attrs_of(&head, ne);
                        let parent: usize = if stack.len() == 0 {
                            0
                        } else {
                            stack[stack.len() - 1]
                        };
                        assert(parent as int == stack_top(cur));
                        let idx = nodes.len();
                        let keep_open: bool = !(self_closing || is_void_exec(&name));
                        nodes.push(
                            HtmlNode { is_text: false, tag: name, text: Vec::new(), attrs, parent },
                        );
                        if keep_open {
                            stack.push(idx);
                        }
                        proof {
                            assert(self_closing == (head@.len() > 0 && head@.last() == '/'));
                            assert((ParseModel {
                                nodes: nodes.deep_view(),
                                stack: stack_model(stack@),
                            }) =~~= open_tag(cur, head@));
                            assert(state_wf(open_tag(cur, head@)));
                        }
                        p = g + 1;
                    },
                }
            }
        } else {
            match v_find_tag_start(&s, p + 1) {
                None => {
                    proof {
                        lemma_find_tag_start_props(html@, p + 1);
                    }
                    let t = crate::text::v_subrange(&s, p, n);
                    let parent: usize = if stack.len() == 0 {
                        0
                    } else {
                        stack[stack.len() - 1]
                    };
                    assert(parent as int == stack_top(cur));
                    nodes.push(
                        HtmlNode {
                            is_text: true,
                            tag: Vec::new(),
                            text: t,
                            attrs: Vec::new(),
                            parent,
                        },
                    );
                    proof {
                        assert((ParseModel {
                            nodes: nodes.deep_view(),
                            stack: stack_model(stack@),
                        }) =~~= add_text(cur, html@.subrange(p as int, html@.len() as int)));
                        assert(state_wf(add_text(cur, html@.subrange(p as int, html@.len() as int))));
                    }
                    p = n;
                },
                Some(ts) => {
                    proof {
                        lemma_find_tag_start_props(html@, p + 1);
                    }
                    let t = crate::text::v_subrange(&s, p, ts);
                    let parent: usize = if stack.len() == 0 {
                        0
                    } else {
                        stack[stack.len() - 1]
                    };
                    assert(parent as int == stack_top(cur));
                    nodes.push(
                        HtmlNode {
                            is_text: true,
                            tag: Vec::new(),
                            text: t,
                            attrs: Vec::new(),
                            parent,
                        },
                    );
                    proof {
                        assert((ParseModel {
                            nodes: nodes.deep_view(),
                            stack: stack_model(stack@),
                        }) =~~= add_text(cur, html@.subrange(p as int, ts as int)));
                        assert(state_wf(add_text(cur, html@.subrange(p as int, ts as int))));
                    }
                    p = ts;
                },
            }
        }
    }
}


// ---------------------------------------------------------------------
// The walker: per-tag Markdown emission.
// ---------------------------------------------------------------------

/// The tags the walker emits for.
pub open spec fn selected_tag(t: Seq<char>) -> bool {
    ||| t == "h1"@
    ||| t == "h2"@
    ||| t == "h3"@
    ||| t == "h4"@
    ||| t == "h5"@
    ||| t == "h6"@
    ||| t == "p"@
    ||| t == "a"@
    ||| t == "div"@
    ||| t == "ul"@
    ||| t == "ol"@
    ||| t == "li"@
    ||| t == "pre"@
    ||| t == "code"@
    ||| t == "blockquote"@
    ||| t == "img"@
    ||| t == "table"@
    ||| t == "tr"@
    ||| t == "th"@
    ||| t == "td"@
}

/// The tags emitted even with no inline text.
pub open spec fn structural_tag(t: Seq<char>) -> bool {
    ||| t == "img"@
    ||| t == "pre"@
    ||| t == "table"@
    ||| t == "tr"@
    ||| t == "th"@
    ||| t == "td"@
}

/// Whether node `j` lies in the subtree of node `i`, following parent
/// links.
pub open spec fn is_desc(nodes: Seq<NodeModel>, j: int, i: int) -> bool
    decreases j,
{
    if j <= 0 || j >= nodes.len() {
        false
    } else if !(0 <= nodes[j].parent < j) {
        false
    } else if nodes[j].parent == i {
        true
    } else {
        is_desc(nodes, nodes[j].parent, i)
    }
}

/// The text runs of the descendants of node `i`, in document order,
/// from node `j` on.
pub open spec fn texts_from(nodes: Seq<NodeModel>, i: int, j: int) -> Seq<Seq<char>>
    decreases nodes.len() - j,
{
    if j < 0 || j >= nodes.len() {
        Seq::empty()
    } else {
        (if nodes[j].is_text && is_desc(nodes, j, i) {
            seq![nodes[j].text]
        } else {
            Seq::empty()
        }) + texts_from(nodes, i, j + 1)
    }
}

/// The inline text of node `i`: its descendants' runs joined by single
/// spaces, trimmed.
pub open spec fn joined_text(nodes: Seq<NodeModel>, i: int) -> Seq<char> {
    crate::text::trim_spec(crate::text::join_with(texts_from(nodes, i, i + 1), seq![' ']))
}

/// The raw text of node `i`: its descendants' runs concatenated.
pub open spec fn raw_text(nodes: Seq<NodeModel>, i: int) -> Seq<char> {
    crate::text::concat_from(texts_from(nodes, i, i + 1), 0)
}

/// The tag of node `i`'s parent.
pub open spec fn parent_tag(nodes: Seq<NodeModel>, i: int) -> Seq<char> {
    if 0 <= i < nodes.len() && 0 <= nodes[i].parent < nodes.len() {
        nodes[nodes[i].parent].tag
    } else {
        Seq::empty()
    }
}

/// The value of the first attribute named `name`, from index `k` on.
pub open spec fn attr_value_from(
    attrs: Seq<(Seq<char>, Seq<char>)>,
    name: Seq<char>,
    k: int,
) -> Option<Seq<char>>
    decreases attrs.len() - k,
{
    if k < 0 || k >= attrs.len() {
        None
    } else if attrs[k].0 == name {
        Some(attrs[k].1)
    } else {
        attr_value_from(attrs, name, k + 1)
    }
}

/// Blockquote rendering: each non-blank line behind `> `, then a
/// trailing newline.
pub open spec fn quote_lines(ls: Seq<Seq<char>>, k: int) -> Seq<char>
    decreases ls.len() - k,
{
    if k < 0 || k >= ls.len() {
        "\n"@
    } else {
        (if crate::text::trim_spec(ls[k]).len() > 0 {
            "> "@ + ls[k] + "\n"@
        } else {
            Seq::empty()
        }) + quote_lines(ls, k + 1)
    }
}

/// What the walker emits for node `i`, by the per-tag rules.
pub open spec fn emit_node(nodes: Seq<NodeModel>, i: int) -> Seq<char> {
    let nd = nodes[i];
    let t = joined_text(nodes, i);
    if nd.is_text || !selected_tag(nd.tag) {
        Seq::empty()
    } else if t.len() == 0 && !structural_tag(nd.tag) {
        Seq::empty()
    } else if nd.tag == "h1"@ {
        "# "@ + t + "\n\n"@
    } else if nd.tag == "h2"@ {
        "## "@ + t + "\n\n"@
    } else if nd.tag == "h3"@ {
        "### "@ + t + "\n\n"@
    } else if nd.tag == "h4"@ {
        "#### "@ + t + "\n\n"@
    } else if nd.tag == "h5"@ {
        "##### "@ + t + "\n\n"@
    } else if nd.tag == "h6"@ {
        "###### "@ + t + "\n\n"@
    } else if nd.tag == "p"@ {
        t + "\n\n"@
    } else if nd.tag == "a"@ {
        match attr_value_from(nd.attrs, "href"@, 0) {
            Some(h) => "["@ + (if t.len() == 0 {
                h
            } else {
                t
            }) + "]("@ + h + ")"@,
            None => t,
        }
    } else if nd.tag == "ul"@ || nd.tag == "ol"@ || nd.tag == "table"@ || nd.tag == "tr"@ {
        "\n"@
    } else if nd.tag == "li"@ {
        if parent_tag(nodes, i) == "ol"@ {
            "1. "@ + t + "\n"@
        } else {
            "- "@ + t + "\n"@
        }
    } else if nd.tag == "pre"@ {
        "```\n"@ + raw_text(nodes, i) + "\n```\n\n"@
    } else if nd.tag == "code"@ {
        if parent_tag(nodes, i) == "pre"@ {
            Seq::empty()
        } else {
            "`"@ + t + "`"@
        }
    } else if nd.tag == "blockquote"@ {
        quote_lines(crate::text::lines_of(t), 0)
    } else if nd.tag == "img"@ {
        match attr_value_from(nd.attrs, "src"@, 0) {
            Some(src) => "!["@ + (match attr_value_from(nd.attrs, "alt"@, 0) {
                Some(a) => if a.len() > 0 {
                    a
                } else {
                    "image"@
                },
                None => "image"@,
            }) + "]("@ + src + ")\n\n"@,
            None => Seq::empty(),
        }
    } else if nd.tag == "th"@ || nd.tag == "td"@ {
        "| "@ + t + " "@
    } else {
        t + "\n\n"@
    }
}

/// The walker's whole output: the emissions of all nodes from `i` on,
/// in document order.
pub open spec fn emissions_from(nodes: Seq<NodeModel>, i: int) -> Seq<char>
    decreases nodes.len() - i,
{
    if i < 0 || i >= nodes.len() {
        Seq::empty()
    } else {
        emit_node(nodes, i) + emissions_from(nodes, i + 1)
    }
}

// ---------------------------------------------------------------------
// Executable walker.
// ---------------------------------------------------------------------

/// Whether node `j` descends from node `i`, as `is_desc` states.
fn v_is_desc(nodes: &Vec<HtmlNode>, j: usize, i: usize) -> (r: bool)
    requires
        frag_wf(nodes.deep_view()),
        j < nodes@.len(),
    ensures
        r == is_desc(nodes.deep_view(), j as int, i as int),
{
    let ghost nm = nodes.deep_view();
    let mut cur: usize = j;
    loop
        invariant
            nm == nodes.deep_view(),
            frag_wf(nm),
            cur < nm.len(),
            cur <= j,
            is_desc(nm, j as int, i as int) == is_desc(nm, cur as int, i as int),
        decreases cur,
    {
        if cur == 0 {
            return false;
        }
        assert(0 <= nm[cur as int].parent < cur);
        let par = nodes[cur].parent;
        assert(par as int == nm[cur as int].parent);
        if par == i {
            return true;
        }
        cur = par;
    }
}

/// The descendants' text runs of node `i`, as `texts_from` states.
fn v_texts(nodes: &Vec<HtmlNode>, i: usize) -> (r: Vec<Vec<char>>)
    requires
        frag_wf(nodes.deep_view()),
        i < nodes@.len(),
    ensures
        r.deep_view() == texts_from(nodes.deep_view(), i as int, i + 1),
{
    let ghost nm = nodes.deep_view();
    let n: usize = nodes.len();
    let mut r: Vec<Vec<char>> = Vec::new();
    let mut j: usize = i + 1;
    while j < nodes.len()
        invariant
            i + 1 <= j <= nm.len(),
            nm == nodes.deep_view(),
            frag_wf(nm),
            texts_from(nm, i as int, i + 1) == r.deep_view() + texts_from(nm, i as int, j as int),
        decreases nodes.len() - j,
    {
        let ghost prev = r.deep_view();
        if nodes[j].is_text && v_is_desc(nodes, j, i) {
            let t = crate::text::v_subrange(&nodes[j].text, 0, nodes[j].text.len());
            assert(t@ =~= nm[j as int].text);
            r.push(t);
            assert(r.deep_view() =~~= prev + seq![nm[j as int].text]);
        }
        j = j + 1;
    }
    assert(texts_from(nm, i as int, nm.len() as int) =~~= Seq::<Seq<char>>::empty());
    assert(r.deep_view() =~~= texts_from(nm, i as int, i + 1));
    r
}

/// The concatenation of all of `parts`.
fn v_concat(parts: &Vec<Vec<char>>) -> (r: Vec<char>)
    ensures
        r@ == crate::text::concat_from(parts.deep_view(), 0),
{
    let mut r: Vec<char> = Vec::new();
    let mut k: usize = 0;
    while k < parts.len()
        invariant
            k <= parts@.len(),
            parts.deep_view().len() == parts@.len(),
            crate::text::concat_from(parts.deep_view(), 0) == r@ + crate::text::concat_from(
                parts.deep_view(),
                k as int,
            ),
        decreases parts.len() - k,
    {
        assert(parts.deep_view()[k as int] =~= parts@[k as int]@);
        crate::text::v_append(&mut r, &parts[k]);
        k = k + 1;
    }
    assert(crate::text::concat_from(parts.deep_view(), parts@.len() as int) =~= Seq::<
        char,
    >::empty());
    assert(r@ =~= crate::text::concat_from(parts.deep_view(), 0));
    r
}

/// The value of the first attribute named `name`, as `attr_value_from`
/// states.
fn v_attr_value(attrs: &Vec<(Vec<char>, Vec<char>)>, name: &Vec<char>) -> (r: Option<Vec<char>>)
    ensures
        match r {
            Some(v) => attr_value_from(attrs.deep_view(), name@, 0) == Some(v@),
            None => attr_value_from(attrs.deep_view(), name@, 0) is None,
        },
{
    let mut k: usize = 0;
    while k < attrs.len()
        invariant
            k <= attrs@.len(),
            attrs.deep_view().len() == attrs@.len(),
            attr_value_from(attrs.deep_view(), name@, 0) == attr_value_from(
                attrs.deep_view(),
                name@,
                k as int,
            ),
        decreases attrs.len() - k,
    {
        assert(attrs.deep_view()[k as int].0 =~= attrs@[k as int].0@);
        assert(attrs.deep_view()[k as int].1 =~= attrs@[k as int].1@);
        if crate::text::v_eq(&attrs[k].0, name) {
            let v = crate::text::v_subrange(&attrs[k].1, 0, attrs[k].1.len());
            assert(v@ =~= attrs.deep_view()[k as int].1);
            return Some(v);
        }
        k = k + 1;
    }
    None
}


/// What the walker emits for node `i`, as `emit_node` states.
fn v_emit(nodes: &Vec<HtmlNode>, i: usize) -> (r: Vec<char>)
    requires
        frag_wf(nodes.deep_view()),
        i < nodes@.len(),
    ensures
        r@ == emit_node(nodes.deep_view(), i as int),
{
    let ghost nm = nodes.deep_view();
    let empty: Vec<char> = Vec::new();
    if nodes[i].is_text {
        assert(empty@ =~= emit_node(nm, i as int));
        return empty;
    }
    let tag = &nodes[i].tag;
    assert(tag@ == nm[i as int].tag);
    let sel: bool = crate::text::v_eq(tag, &lit("h1")) || crate::text::v_eq(tag, &lit("h2"))
        || crate::text::v_eq(tag, &lit("h3")) || crate::text::v_eq(tag, &lit("h4"))
        || crate::text::v_eq(tag, &lit("h5")) || crate::text::v_eq(tag, &lit("h6"))
        || crate::text::v_eq(tag, &lit("p")) || crate::text::v_eq(tag, &lit("a"))
        || crate::text::v_eq(tag, &lit("div")) || crate::text::v_eq(tag, &lit("ul"))
        || crate::text::v_eq(tag, &lit("ol")) || crate::text::v_eq(tag, &lit("li"))
        || crate::text::v_eq(tag, &lit("pre")) || crate::text::v_eq(tag, &lit("code"))
        || crate::text::v_eq(tag, &lit("blockquote")) || crate::text::v_eq(tag, &lit("img"))
        || crate::text::v_eq(tag, &lit("table")) || crate::text::v_eq(tag, &lit("tr"))
        || crate::text::v_eq(tag, &lit("th")) || crate::text::v_eq(tag, &lit("td"));
    assert(sel == selected_tag(nm[i as int].tag));
    if !sel {
        assert(empty@ =~= emit_node(nm, i as int));
        return empty;
    }
    let texts = v_texts(nodes, i);
    let mut sp: Vec<char> = Vec::new();
    sp.push(' ');
    assert(sp@ =~= seq![' ']);
    let t = crate::text::v_trim(&crate::text::v_join(&texts, &sp));
    assert(t@ == joined_text(nm, i as int));
    let structural: bool = crate::text::v_eq(tag, &lit("img")) || crate::text::v_eq(
        tag,
        &lit("pre"),
    ) || crate::text::v_eq(tag, &lit("table")) || crate::text::v_eq(tag, &lit("tr"))
        || crate::text::v_eq(tag, &lit("th")) || crate::text::v_eq(tag, &lit("td"));
    assert(structural == structural_tag(nm[i as int].tag));
    if t.len() == 0 && !structural {
        assert(empty@ =~= emit_node(nm, i as int));
        return empty;
    }
    let mut out: Vec<char> = Vec::new();
    if crate::text::v_eq(tag, &lit("h1")) {
        crate::text::v_append(&mut out, &lit("# "));
        crate::text::v_append(&mut out, &t);
        crate::text::v_append(&mut out, &lit("\n\n"));
        assert(out@ =~= emit_node(nm, i as int));
        return out;
    }
    if crate::text::v_eq(tag, &lit("h2")) {
        crate::text::v_append(&mut out, &lit("## "));
        crate::text::v_append(&mut out, &t);
        crate::text::v_append(&mut out, &lit("\n\n"));
        assert(out@ =~= emit_node(nm, i as int));
        return out;
    }
    if crate::text::v_eq(tag, &lit("h3")) {
        crate::text::v_append(&mut out, &lit("### "));
        crate::text::v_append(&mut out, &t);
        crate::text::v_append(&mut out, &lit("\n\n"));
        assert(out@ =~= emit_node(nm, i as int));
        return out;
    }
    if crate::text::v_eq(tag, &lit("h4")) {
        crate::text::v_append(&mut out, &lit("#### "));
        crate::text::v_append(&mut out, &t);
        crate::text::v_append(&mut out, &lit("\n\n"));
        assert(out@ =~= emit_node(nm, i as int));
        return out;
    }
    if crate::text::v_eq(tag, &lit("h5")) {
        crate::text::v_append(&mut out, &lit("##### "));
        crate::text::v_append(&mut out, &t);
        crate::text::v_append(&mut out, &lit("\n\n"));
        assert(out@ =~= emit_node(nm, i as int));
        return out;
    }
    if crate::text::v_eq(tag, &lit("h6")) {
        crate::text::v_append(&mut out, &lit("###### "));
        crate::text::v_append(&mut out, &t);
        crate::text::v_append(&mut out, &lit("\n\n"));
        assert(out@ =~= emit_node(nm, i as int));
        return out;
    }
    if crate::text::v_eq(tag, &lit("p")) {
        crate::text::v_append(&mut out, &t);
        crate::text::v_append(&mut out, &lit("\n\n"));
        assert(out@ =~= emit_node(nm, i as int));
        return out;
    }
    if crate::text::v_eq(tag, &lit("a")) {
        assert(nm[i as int].attrs == nodes@[i as int].attrs.deep_view());
        match v_attr_value(&nodes[i].attrs, &lit("href")) {
            Some(h) => {
                crate::text::v_append(&mut out, &lit("["));
                if t.len() == 0 {
                    crate::text::v_append(&mut out, &h);
                } else {
                    crate::text::v_append(&mut out, &t);
                }
                crate::text::v_append(&mut out, &lit("]("));
                crate::text::v_append(&mut out, &h);
                crate::text::v_append(&mut out, &lit(")"));
            },
            None => {
                crate::text::v_append(&mut out, &t);
            },
        }
        assert(out@ =~= emit_node(nm, i as int));
        return out;
    }
    if crate::text::v_eq(tag, &lit("ul")) || crate::text::v_eq(tag, &lit("ol"))
        || crate::text::v_eq(tag, &lit("table")) || crate::text::v_eq(tag, &lit("tr")) {
        crate::text::v_append(&mut out, &lit("\n"));
        assert(out@ =~= emit_node(nm, i as int));
        return out;
    }
    if crate::text::v_eq(tag, &lit("li")) {
        let par = nodes[i].parent;
        assert(par as int == nm[i as int].parent);
        assert(par < nodes@.len());
        let pt = &nodes[par].tag;
        assert(pt@ == parent_tag(nm, i as int));
        if crate::text::v_eq(pt, &lit("ol")) {
            crate::text::v_append(&mut out, &lit("1. "));
        } else {
            crate::text::v_append(&mut out, &lit("- "));
        }
        crate::text::v_append(&mut out, &t);
        crate::text::v_append(&mut out, &lit("\n"));
        assert(out@ =~= emit_node(nm, i as int));
        return out;
    }
    if crate::text::v_eq(tag, &lit("pre")) {
        crate::text::v_append(&mut out, &lit("```\n"));
        crate::text::v_append(&mut out, &v_concat(&texts));
        crate::text::v_append(&mut out, &lit("\n```\n\n"));
        assert(out@ =~= emit_node(nm, i as int));
        return out;
    }
    if crate::text::v_eq(tag, &lit("code")) {
        let par = nodes[i].parent;
        assert(par as int == nm[i as int].parent);
        assert(par < nodes@.len());
        let pt = &nodes[par].tag;
        assert(pt@ == parent_tag(nm, i as int));
        if crate::text::v_eq(pt, &lit("pre")) {
            assert(out@ =~= emit_node(nm, i as int));
            return out;
        }
        crate::text::v_append(&mut out, &lit("`"));
        crate::text::v_append(&mut out, &t);
        crate::text::v_append(&mut out, &lit("`"));
        assert(out@ =~= emit_node(nm, i as int));
        return out;
    }
    if crate::text::v_eq(tag, &lit("blockquote")) {
        let ls = crate::text::v_lines(&t);
        let ghost lsm = ls.deep_view();
        assert(lsm == crate::text::lines_of(t@));
        let mut k: usize = 0;
        while k < ls.len()
            invariant
                k <= ls@.len(),
                lsm == ls.deep_view(),
                lsm.len() == ls@.len(),
                quote_lines(lsm, 0) == out@ + quote_lines(lsm, k as int),
            decreases ls.len() - k,
        {
            let ghost prev = out@;
            assert(lsm[k as int] =~= ls@[k as int]@);
            let lt = crate::text::v_trim(&ls[k]);
            if lt.len() > 0 {
                crate::text::v_append(&mut out, &lit("> "));
                crate::text::v_append(&mut out, &ls[k]);
                crate::text::v_append(&mut out, &lit("\n"));
                assert(out@ =~= prev + ("> "@ + lsm[k as int] + "\n"@));
            }
            k = k + 1;
        }
        crate::text::v_append(&mut out, &lit("\n"));
        assert(quote_lines(lsm, lsm.len() as int) =~= "\n"@);
        assert(out@ =~= emit_node(nm, i as int));
        return out;
    }
    if crate::text::v_eq(tag, &lit("img")) {
        assert(nm[i as int].attrs == nodes@[i as int].attrs.deep_view());
        match v_attr_value(&nodes[i].attrs, &lit("src")) {
            Some(src) => {
                crate::text::v_append(&mut out, &lit("!["));
                match v_attr_value(&nodes[i].attrs, &lit("alt")) {
                    Some(a) => {
                        if a.len() > 0 {
                            crate::text::v_append(&mut out, &a);
                        } else {
                            crate::text::v_append(&mut out, &lit("image"));
                        }
                    },
                    None => {
                        crate::text::v_append(&mut out, &lit("image"));
                    },
                }
                crate::text::v_append(&mut out, &lit("]("));
                crate::text::v_append(&mut out, &src);
                crate::text::v_append(&mut out, &lit(")\n\n"));
            },
            None => {},
        }
        assert(out@ =~= emit_node(nm, i as int));
        return out;
    }
    if crate::text::v_eq(tag, &lit("th")) || crate::text::v_eq(tag, &lit("td")) {
        crate::text::v_append(&mut out, &lit("| "));
        crate::text::v_append(&mut out, &t);
        crate::text::v_append(&mut out, &lit(" "));
        assert(out@ =~= emit_node(nm, i as int));
        return out;
    }
    crate::text::v_append(&mut out, &t);
    crate::text::v_append(&mut out, &lit("\n\n"));
    assert(out@ =~= emit_node(nm, i as int));
    out
}

/// The walker's whole output, as `emissions_from` states.
fn v_walk(nodes: &Vec<HtmlNode>) -> (r: Vec<char>)
    requires
        frag_wf(nodes.deep_view()),
    ensures
        r@ == emissions_from(nodes.deep_view(), 0),
{
    let ghost nm = nodes.deep_view();
    let mut out: Vec<char> = Vec::new();
    let mut i: usize = 0;
    while i < nodes.len()
        invariant
            i <= nm.len(),
            nm == nodes.deep_view(),
            frag_wf(nm),
            emissions_from(nm, 0) == out@ + emissions_from(nm, i as int),
        decreases nodes.len() - i,
    {
        crate::text::v_append(&mut out, &v_emit(nodes, i));
        i = i + 1;
    }
    assert(emissions_from(nm, nm.len() as int) =~= Seq::<char>::empty());
    assert(out@ =~= emissions_from(nm, 0));
    out
}


// ---------------------------------------------------------------------
// Table reconstruction: a line-based second pass.
// ---------------------------------------------------------------------

/// A line judged to belong to a table row: it holds a pipe and either
/// starts with one after trimming or holds the sequence `space pipe
/// space`.
pub open spec fn is_table_line(l: Seq<char>) -> bool {
    &&& find_char_from(l, '|', 0) is Some
    &&& {
        ||| (crate::text::trim_spec(l).len() > 0 && crate::text::trim_spec(l)[0] == '|')
        ||| crate::text::contains_sub(l, " | "@)
    }
}

/// The number of pipe characters in `l` at or after `from`.
pub open spec fn pipe_count(l: Seq<char>, from: int) -> nat
    decreases l.len() - from when 0 <= from via pipe_count_decreases
{
    match find_char_from(l, '|', from) {
        None => 0,
        Some(i) => 1 + pipe_count(l, i + 1),
    }
}

#[via_fn]
proof fn pipe_count_decreases(l: Seq<char>, from: int) {
    lemma_find_char_props(l, '|', from);
}

/// The synthesized separator row for `k` cells.
pub open spec fn sep_row(k: nat) -> Seq<char>
    decreases k,
{
    if k == 0 {
        "|"@
    } else {
        sep_row((k - 1) as nat) + " --- |"@
    }
}

/// The buffered lines each followed by a newline, from index `k` on.
pub open spec fn emit_lines(ls: Seq<Seq<char>>, k: int) -> Seq<char>
    decreases ls.len() - k,
{
    if k < 0 || k >= ls.len() {
        Seq::empty()
    } else {
        ls[k] + "\n"@ + emit_lines(ls, k + 1)
    }
}

/// Flushing an open table buffer: the first line, a separator row when
/// more than one line is buffered, the remaining lines, then one blank
/// line.  An empty buffer flushes to nothing.
pub open spec fn flush_buffer(buf: Seq<Seq<char>>) -> Seq<char> {
    if buf.len() == 0 {
        Seq::empty()
    } else {
        buf[0] + "\n"@ + (if buf.len() > 1 {
            sep_row(pipe_count(buf[0], 0)) + "\n"@
        } else {
            Seq::empty()
        }) + emit_lines(buf, 1) + "\n"@
    }
}

/// The rewritten text from line `i` on, with `buf` the open table
/// buffer: table-like lines are buffered; any other line first flushes
/// the buffer and then passes through with its own newline.
pub open spec fn rewrite_from(lines: Seq<Seq<char>>, i: int, buf: Seq<Seq<char>>) -> Seq<char>
    decreases lines.len() - i,
{
    if i < 0 || i >= lines.len() {
        flush_buffer(buf)
    } else if is_table_line(lines[i]) {
        rewrite_from(lines, i + 1, buf.push(lines[i]))
    } else {
        flush_buffer(buf) + lines[i] + "\n"@ + rewrite_from(lines, i + 1, Seq::empty())
    }
}

/// The table pass over a whole text.
pub open spec fn rewrite_tables_spec(s: Seq<char>) -> Seq<char> {
    rewrite_from(crate::text::lines_of(s), 0, Seq::empty())
}

/// What converting an HTML fragment returns: the walker's output, its
/// table pass, trimmed.
pub open spec fn html_markdown_spec(s: Seq<char>) -> Seq<char> {
    crate::text::trim_spec(rewrite_tables_spec(emissions_from(parse_spec(s), 0)))
}

fn v_is_table_line(l: &Vec<char>) -> (r: bool)
    ensures
        r == is_table_line(l@),
{
    if crate::text::v_find_char(l, '|', 0).is_none() {
        return false;
    }
    let t = crate::text::v_trim(l);
    if t.len() > 0 && t[0] == '|' {
        return true;
    }
    crate::text::v_contains_sub(l, &lit(" | "))
}

fn v_pipe_count(l: &Vec<char>) -> (r: usize)
    ensures
        r as nat == pipe_count(l@, 0),
{
    let n: usize = l.len();
    let mut cnt: usize = 0;
    let mut p: usize = 0;
    loop
        invariant
            p <= n,
            n == l@.len(),
            cnt <= p,
            pipe_count(l@, 0) == cnt + pipe_count(l@, p as int),
        decreases n - p,
    {
        match crate::text::v_find_char(l, '|', p) {
            None => {
                assert(pipe_count(l@, p as int) == 0);
                return cnt;
            },
            Some(i) => {
                proof {
                    lemma_find_char_props(l@, '|', p as int);
                }
                cnt = cnt + 1;
                p = i + 1;
            },
        }
    }
}

fn v_sep_row(k: usize) -> (r: Vec<char>)
    ensures
        r@ == sep_row(k as nat),
{
    let mut r = lit("|");
    let mut j: usize = 0;
    while j < k
        invariant
            j <= k,
            r@ == sep_row(j as nat),
        decreases k - j,
    {
        crate::text::v_append(&mut r, &lit(" --- |"));
        j = j + 1;
    }
    r
}

/// Appends the flush of `buf` to `out`, as `flush_buffer` states.
fn v_flush(out: &mut Vec<char>, buf: &Vec<Vec<char>>)
    ensures
        final(out)@ == old(out)@ + flush_buffer(buf.deep_view()),
{
    let ghost bm = buf.deep_view();
    let ghost base = out@;
    if buf.len() == 0 {
        assert(out@ =~= base + flush_buffer(bm));
        return;
    }
    assert(bm[0] =~= buf@[0]@);
    crate::text::v_append(out, &buf[0]);
    crate::text::v_append(out, &lit("\n"));
    if buf.len() > 1 {
        let cnt = v_pipe_count(&buf[0]);
        crate::text::v_append(out, &v_sep_row(cnt));
        crate::text::v_append(out, &lit("\n"));
    }
    let ghost mid = out@;
    let mut k: usize = 1;
    while k < buf.len()
        invariant
            1 <= k <= buf@.len(),
            bm == buf.deep_view(),
            bm.len() == buf@.len(),
            mid + emit_lines(bm, 1) == out@ + emit_lines(bm, k as int),
        decreases buf.len() - k,
    {
        let ghost prev = out@;
        assert(bm[k as int] =~= buf@[k as int]@);
        crate::text::v_append(out, &buf[k]);
        crate::text::v_append(out, &lit("\n"));
        assert(prev + (bm[k as int] + "\n"@) =~= out@);
        assert(mid + emit_lines(bm, 1) =~= out@ + emit_lines(bm, k + 1));
        k = k + 1;
    }
    assert(emit_lines(bm, buf@.len() as int) =~= Seq::<char>::empty());
    assert(out@ =~= mid + emit_lines(bm, 1));
    crate::text::v_append(out, &lit("\n"));
    assert(out@ =~= base + flush_buffer(bm));
}

/// The table pass, as `rewrite_tables_spec` states.
fn v_rewrite_tables(v: &Vec<char>) -> (r: Vec<char>)
    ensures
        r@ == rewrite_tables_spec(v@),
{
    let lines = crate::text::v_lines(v);
    let ghost lm = lines.deep_view();
    let mut out: Vec<char> = Vec::new();
    let mut buf: Vec<Vec<char>> = Vec::new();
    assert(buf.deep_view() =~~= Seq::<Seq<char>>::empty());
    let mut i: usize = 0;
    while i < lines.len()
        invariant
            i <= lines@.len(),
            lm == lines.deep_view(),
            lm.len() == lines@.len(),
            rewrite_from(lm, 0, Seq::empty()) == out@ + rewrite_from(
                lm,
                i as int,
                buf.deep_view(),
            ),
        decreases lines.len() - i,
    {
        let ghost prevb = buf.deep_view();
        let ghost prevo = out@;
        assert(lm[i as int] =~= lines@[i as int]@);
        let line = &lines[i];
        if v_is_table_line(line) {
            let copy = crate::text::v_subrange(line, 0, line.len());
            assert(copy@ =~= lm[i as int]);
            buf.push(copy);
            assert(buf.deep_view() =~~= prevb.push(lm[i as int]));
        } else {
            v_flush(&mut out, &buf);
            crate::text::v_append(&mut out, line);
            crate::text::v_append(&mut out, &lit("\n"));
            buf = Vec::new();
            assert(buf.deep_view() =~~= Seq::<Seq<char>>::empty());
            assert(out@ =~= prevo + (flush_buffer(prevb) + lm[i as int] + "\n"@));
            assert(prevo + rewrite_from(lm, i as int, prevb) =~= out@ + rewrite_from(
                lm,
                i + 1,
                Seq::empty(),
            ));
        }
        i = i + 1;
    }
    v_flush(&mut out, &buf);
    assert(rewrite_from(lm, lm.len() as int, buf.deep_view()) == flush_buffer(buf.deep_view()));
    assert(out@ =~= rewrite_from(lm, 0, Seq::empty()));
    out
}

/// Converts an HTML fragment to Markdown: parse, walk, reconstruct
/// tables, trim — as `html_markdown_spec` states.
pub fn html_to_markdown(html: &str) -> (r: String)
    ensures
        r@ == html_markdown_spec(html@),
{
    let f = parse_fragment(html);
    let md = v_walk(&f.nodes);
    let rewritten = v_rewrite_tables(&md);
    let trimmed = crate::text::v_trim(&rewritten);
    crate::conv::chars_to_string(&trimmed)
}

} // verus!
