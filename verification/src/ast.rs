//! Syntax-tree navigation for definition lookup.
//!
//! The compiler's tree is mirrored as an arena of nodes addressed by index,
//! with explicit parent, child, and sibling indices; "linked node"
//! navigation is index arithmetic over the arena. Children always come
//! after their parent in the arena, which grounds every backward walk.
use vstd::prelude::*;
use vstd::pervasive::VecAdditionalExecFns;
use vstd::string::*;
use crate::position::nl_before;

verus! {

/// The node kinds that navigation distinguishes; everything else is
/// `Other`.
#[derive(Clone, Copy, Debug, PartialEq, Eq, Structural)]
pub enum SyntaxKind {
    /// An identifier.
    Ident,
    /// A `let` binding construct.
    LetBinding,
    /// A callable-expression wrapper around a bound function.
    Closure,
    /// A parameter list of a closure.
    Params,
    /// A named (defaulted) parameter.
    Named,
    /// A line comment.
    LineComment,
    /// Horizontal or vertical space between nodes.
    Space,
    /// A paragraph break.
    Parbreak,
    /// Markup content.
    Markup,
    /// Code content.
    Code,
    /// Any other kind of node.
    Other,
}

/// One node of the arena.
#[derive(Debug)]
pub struct SyntaxNode {
    /// The node's kind.
    pub kind: SyntaxKind,
    /// The node's own text (empty for most inner nodes).
    pub text: String,
    /// Byte offset of the node's span in its source buffer.
    pub offset: usize,
    /// Byte length of the node's span.
    pub length: usize,
    /// Index of the parent node; `None` for the root.
    pub parent: Option<usize>,
    /// Position of this node in the parent's child list.
    pub sibling_index: usize,
    /// Indices of the node's children, in source order.
    pub children: Vec<usize>,
}

/// A syntax tree as an arena; node 0, when present, is the root.
#[derive(Debug)]
pub struct SyntaxTree {
    pub nodes: Vec<SyntaxNode>,
}

/// Parent and child links of node `i` agree: the parent comes earlier, the
/// node sits in its parent's child list at its sibling index, children come
/// later, and every child points back with the right sibling index.
pub open spec fn node_ok(t: Seq<SyntaxNode>, i: int) -> bool {
    &&& match t[i].parent {
        Some(p) => {
            &&& 0 <= p < i
            &&& (t[i].sibling_index as int) < t[p as int].children@.len()
            &&& t[p as int].children@[t[i].sibling_index as int] == i
        },
        None => true,
    }
    &&& forall|j: int|
        0 <= j < t[i].children@.len() ==> {
            let c = #[trigger] t[i].children@[j];
            &&& i < c < t.len()
            &&& t[c as int].parent == Some(i as usize)
            &&& t[c as int].sibling_index == j
        }
    &&& forall|j1: int, j2: int|
        0 <= j1 < j2 < t[i].children@.len() ==> t[i].children@[j1] < t[i].children@[j2]
}

/// Arena well-formedness: every node's links agree.
pub open spec fn seq_wf(t: Seq<SyntaxNode>) -> bool {
    forall|i: int| 0 <= i < t.len() ==> node_ok(t, i)
}

impl SyntaxTree {
    /// The arena's links are consistent.
    pub open spec fn wf(self) -> bool {
        seq_wf(self.nodes@)
    }

    /// Number of nodes.
    pub fn len(&self) -> (r: usize)
        ensures
            r == self.nodes@.len(),
    {
        self.nodes.len()
    }
}

/// Number of newlines that the node contributes as vertical spacing: its
/// newline count when it is a `Space` or `Parbreak` node, and zero for any
/// other kind.
pub open spec fn spec_new_lines(t: Seq<SyntaxNode>, node: int) -> int {
    if t[node].kind == SyntaxKind::Space || t[node].kind == SyntaxKind::Parbreak {
        nl_before(t[node].text@, t[node].text@.len() as int)
    } else {
        0
    }
}

/// Returns the number of newlines a node contains. Only `Space` and
/// `Parbreak` nodes count; every other node reports zero.
pub fn new_lines(tree: &SyntaxTree, node: usize) -> (r: usize)
    requires
        node < tree.nodes@.len(),
    ensures
        r == spec_new_lines(tree.nodes@, node as int),
{
    let n = &tree.nodes[node];
    match n.kind {
        SyntaxKind::Space | SyntaxKind::Parbreak => {
            let text = n.text.as_str();
            let ghost s = text@;
            let count = text.unicode_len();
            let mut ci: usize = 0;
            let mut nl: usize = 0;
            while ci < count
                invariant
                    count == s.len(),
                    s == n.text@,
                    text@ == s,
                    0 <= ci <= count,
                    nl == nl_before(s, ci as int),
                    nl <= ci,
                decreases count - ci,
            {
                let c = text.get_char(ci);
                if c == '\n' {
                    nl = nl + 1;
                }
                ci = ci + 1;
            }
            nl
        },
        _ => 0,
    }
}

/// The previous sibling of a node, if any: the entry just before it in its
/// parent's child list.
pub open spec fn spec_prev_sibling(t: Seq<SyntaxNode>, node: int) -> Option<usize> {
    match t[node].parent {
        None => None,
        Some(p) => {
            if t[node].sibling_index == 0 {
                None
            } else {
                Some(t[p as int].children@[t[node].sibling_index - 1])
            }
        },
    }
}

/// Previous sibling of `node`, trivia included.
pub fn prev_sibling_verbose(tree: &SyntaxTree, node: usize) -> (r: Option<usize>)
    requires
        tree.wf(),
        node < tree.nodes@.len(),
    ensures
        r == spec_prev_sibling(tree.nodes@, node as int),
        r matches Some(m) ==> m < node && tree.nodes@[m as int].sibling_index
            == tree.nodes@[node as int].sibling_index - 1 && tree.nodes@[m as int].parent
            == tree.nodes@[node as int].parent,
{
    proof {
        assert(node_ok(tree.nodes@, node as int));
    }
    match &tree.nodes[node].parent {
        None => None,
        Some(p) => {
            let idx = tree.nodes[node].sibling_index;
            if idx == 0 {
                None
            } else {
                proof {
                    assert(node_ok(tree.nodes@, *p as int));
                }
                let m = tree.nodes[*p].children[idx - 1];
                Some(m)
            }
        },
    }
}

/// True when the walk backward stops at this node: spacing that contains
/// more than `max_nl` newlines.
pub open spec fn is_blank_cut(t: Seq<SyntaxNode>, node: int, max_nl: int) -> bool {
    spec_new_lines(t, node) > max_nl
}

/// The nodes that a backward walk from `cur` (inclusive) collects: walking
/// through previous siblings, stopping before any spacing with more than
/// `max_nl` newlines, and keeping the nodes whose kind is in `kinds`, in
/// source order.
pub open spec fn collect_prev_spec(
    t: Seq<SyntaxNode>,
    cur: Option<usize>,
    kinds: Seq<SyntaxKind>,
    max_nl: int,
) -> Seq<usize>
    decreases (match cur {
        Some(n) => n as int + 1,
        None => 0,
    }),
    when (match cur {
        Some(n) => seq_wf(t) && (n as int) < t.len(),
        None => true,
    })
    via collect_prev_spec_dec
{
    match cur {
        None => Seq::empty(),
        Some(n) => {
            if is_blank_cut(t, n as int, max_nl) {
                Seq::empty()
            } else {
                let rest = collect_prev_spec(t, spec_prev_sibling(t, n as int), kinds, max_nl);
                if kinds.contains(t[n as int].kind) {
                    rest.push(n)
                } else {
                    rest
                }
            }
        },
    }
}

#[via_fn]
proof fn collect_prev_spec_dec(
    t: Seq<SyntaxNode>,
    cur: Option<usize>,
    kinds: Seq<SyntaxKind>,
    max_nl: int,
) {
    match cur {
        Some(n) => {
            assert(node_ok(t, n as int));
            match t[n as int].parent {
                Some(p) => {
                    assert(node_ok(t, p as int));
                },
                None => {},
            }
        },
        None => {},
    }
}

/// True when `k` occurs in `kinds`.
fn kind_in(kinds: &Vec<SyntaxKind>, k: SyntaxKind) -> (r: bool)
    ensures
        r == kinds@.contains(k),
{
    let mut i: usize = 0;
    let n = kinds.len();
    while i < n
        invariant
            n == kinds@.len(),
            0 <= i <= n,
            forall|j: int| 0 <= j < i ==> kinds@[j] != k,
        decreases n - i,
    {
        if kinds[i] == k {
            return true;
        }
        i = i + 1;
    }
    false
}

/// Collects all previous siblings of `node` whose kind is in `kinds`, in
/// source order, stopping the walk at the first `Space` or `Parbreak` that
/// contains more than `max_nl` newlines.
pub fn collect_prev_nodes(
    tree: &SyntaxTree,
    node: usize,
    kinds: &Vec<SyntaxKind>,
    max_nl: usize,
) -> (r: Vec<usize>)
    requires
        tree.wf(),
        node < tree.nodes@.len(),
    ensures
        r@ == collect_prev_spec(
            tree.nodes@,
            spec_prev_sibling(tree.nodes@, node as int),
            kinds@,
            max_nl as int,
        ),
        forall|i: int| 0 <= i < r@.len() ==> (#[trigger] r@[i]) < tree.nodes@.len(),
{
    let ghost t = tree.nodes@;
    let ghost start = spec_prev_sibling(t, node as int);
    let mut acc: Vec<usize> = Vec::new();
    let mut cur: Option<usize> = prev_sibling_verbose(tree, node);
    loop
        invariant
            tree.wf(),
            t == tree.nodes@,
            node < t.len(),
            start == spec_prev_sibling(t, node as int),
            match cur {
                Some(n) => (n as int) < t.len(),
                None => true,
            },
            collect_prev_spec(t, start, kinds@, max_nl as int) == collect_prev_spec(
                t,
                cur,
                kinds@,
                max_nl as int,
            ) + acc@,
            forall|i: int| 0 <= i < acc@.len() ==> (#[trigger] acc@[i]) < t.len(),
        decreases (match cur {
            Some(n) => n as int + 1,
            None => 0,
        }),
    {
        let n = match cur {
            Some(n) => n,
            None => {
                proof {
                    assert(collect_prev_spec(t, cur, kinds@, max_nl as int)
                        =~= Seq::<usize>::empty());
                    assert(collect_prev_spec(t, start, kinds@, max_nl as int) =~= acc@);
                }
                return acc;
            },
        };
        let nl = new_lines(tree, n);
        let is_spacing = match tree.nodes[n].kind {
            SyntaxKind::Space | SyntaxKind::Parbreak => true,
            _ => false,
        };
        if is_spacing && nl > max_nl {
            proof {
                assert(is_blank_cut(t, n as int, max_nl as int));
                assert(collect_prev_spec(t, cur, kinds@, max_nl as int)
                    =~= Seq::<usize>::empty());
                assert(collect_prev_spec(t, start, kinds@, max_nl as int) =~= acc@);
            }
            return acc;
        }
        proof {
            assert(!is_blank_cut(t, n as int, max_nl as int));
        }
        let prev = prev_sibling_verbose(tree, n);
        if kind_in(kinds, tree.nodes[n].kind) {
            let ghost acc0 = acc@;
            acc.insert(0, n);
            proof {
                assert(acc@ =~= seq![n] + acc0);
                assert(collect_prev_spec(t, cur, kinds@, max_nl as int) + acc0
                    =~= collect_prev_spec(t, prev, kinds@, max_nl as int) + acc@);
            }
        } else {
            proof {
                assert(collect_prev_spec(t, cur, kinds@, max_nl as int)
                    == collect_prev_spec(t, prev, kinds@, max_nl as int));
            }
        }
        cur = prev;
    }
}

/// The binding that a node belongs to: the node itself when it is a
/// `LetBinding`; for an `Ident`, its parent when that is a `LetBinding`, or
/// its grandparent when the parent is a `Closure` directly under a
/// `LetBinding`; any other shape is no binding.
pub open spec fn spec_is_let_binding(t: Seq<SyntaxNode>, node: int) -> Option<usize> {
    if t[node].kind == SyntaxKind::Ident {
        match t[node].parent {
            Some(p) => {
                if t[p as int].kind == SyntaxKind::LetBinding {
                    Some(p)
                } else if t[p as int].kind == SyntaxKind::Closure {
                    match t[p as int].parent {
                        Some(g) => {
                            if t[g as int].kind == SyntaxKind::LetBinding {
                                Some(g)
                            } else {
                                None
                            }
                        },
                        None => None,
                    }
                } else {
                    None
                }
            },
            None => None,
        }
    } else if t[node].kind == SyntaxKind::LetBinding {
        Some(node as usize)
    } else {
        None
    }
}

/// Checks whether a node is a `LetBinding`, or an `Ident` directly (or
/// through a `Closure`) under one, and returns that binding node.
pub fn is_let_binding(tree: &SyntaxTree, node: usize) -> (r: Option<usize>)
    requires
        tree.wf(),
        node < tree.nodes@.len(),
    ensures
        r == spec_is_let_binding(tree.nodes@, node as int),
        r matches Some(b) ==> b < tree.nodes@.len(),
{
    proof {
        assert(node_ok(tree.nodes@, node as int));
    }
    match tree.nodes[node].kind {
        SyntaxKind::Ident => {
            match &tree.nodes[node].parent {
                Some(p) => {
                    proof {
                        assert(node_ok(tree.nodes@, *p as int));
                    }
                    match tree.nodes[*p].kind {
                        SyntaxKind::LetBinding => Some(*p),
                        SyntaxKind::Closure => {
                            match &tree.nodes[*p].parent {
                                Some(g) => {
                                    if let SyntaxKind::LetBinding = tree.nodes[*g].kind {
                                        Some(*g)
                                    } else {
                                        None
                                    }
                                },
                                None => None,
                            }
                        },
                        _ => None,
                    }
                },
                None => None,
            }
        },
        SyntaxKind::LetBinding => Some(node),
        _ => None,
    }
}

/// The first entry of the child list `cs` (from position `j` on) whose node
/// has the given kind.
pub open spec fn find_child_from(
    t: Seq<SyntaxNode>,
    cs: Seq<usize>,
    j: int,
    kind: SyntaxKind,
) -> Option<usize>
    decreases cs.len() - j,
    when 0 <= j <= cs.len()
{
    if j >= cs.len() {
        None
    } else if t[cs[j] as int].kind == kind {
        Some(cs[j])
    } else {
        find_child_from(t, cs, j + 1, kind)
    }
}

/// The first child of `node` with the given kind.
pub open spec fn spec_child_by_kind(t: Seq<SyntaxNode>, node: int, kind: SyntaxKind) -> Option<
    usize,
> {
    find_child_from(t, t[node].children@, 0, kind)
}

/// Finds the first child node of a given node by its kind.
pub fn child_by_kind(tree: &SyntaxTree, node: usize, kind: SyntaxKind) -> (r: Option<usize>)
    requires
        tree.wf(),
        node < tree.nodes@.len(),
    ensures
        r == spec_child_by_kind(tree.nodes@, node as int, kind),
        r matches Some(c) ==> node < c < tree.nodes@.len(),
{
    let ghost t = tree.nodes@;
    let ghost cs = tree.nodes@[node as int].children@;
    proof {
        assert(node_ok(t, node as int));
    }
    let count = tree.nodes[node].children.len();
    let mut j: usize = 0;
    while j < count
        invariant
            tree.wf(),
            t == tree.nodes@,
            node < t.len(),
            cs == t[node as int].children@,
            count == cs.len(),
            0 <= j <= count,
            find_child_from(t, cs, 0, kind) == find_child_from(t, cs, j as int, kind),
        decreases count - j,
    {
        let c = tree.nodes[node].children[j];
        proof {
            assert(node_ok(t, node as int));
        }
        if tree.nodes[c].kind == kind {
            return Some(c);
        }
        j = j + 1;
    }
    None
}

/// The entries of the child list `cs` (from position `j` on) whose nodes
/// have one of the given kinds, in order.
pub open spec fn filter_children_from(
    t: Seq<SyntaxNode>,
    cs: Seq<usize>,
    j: int,
    kinds: Seq<SyntaxKind>,
) -> Seq<usize>
    decreases cs.len() - j,
    when 0 <= j <= cs.len()
{
    if j >= cs.len() {
        Seq::empty()
    } else {
        let rest = filter_children_from(t, cs, j + 1, kinds);
        if kinds.contains(t[cs[j] as int].kind) {
            seq![cs[j]] + rest
        } else {
            rest
        }
    }
}

/// The children of `node` whose kind is one of `kinds`, in source order.
pub open spec fn spec_children_by_kind(
    t: Seq<SyntaxNode>,
    node: int,
    kinds: Seq<SyntaxKind>,
) -> Seq<usize> {
    filter_children_from(t, t[node].children@, 0, kinds)
}

/// Collects the children of a node that match one of the given kinds, in
/// source order.
pub fn children_by_kind(tree: &SyntaxTree, node: usize, kinds: &Vec<SyntaxKind>) -> (r: Vec<
    usize,
>)
    requires
        tree.wf(),
        node < tree.nodes@.len(),
    ensures
        r@ == spec_children_by_kind(tree.nodes@, node as int, kinds@),
        forall|i: int| 0 <= i < r@.len() ==> node < (#[trigger] r@[i]) < tree.nodes@.len(),
{
    let ghost t = tree.nodes@;
    let ghost cs = tree.nodes@[node as int].children@;
    proof {
        assert(node_ok(t, node as int));
    }
    let count = tree.nodes[node].children.len();
    let mut out: Vec<usize> = Vec::new();
    let mut j: usize = 0;
    while j < count
        invariant
            tree.wf(),
            t == tree.nodes@,
            node < t.len(),
            cs == t[node as int].children@,
            count == cs.len(),
            0 <= j <= count,
            filter_children_from(t, cs, 0, kinds@) == out@ + filter_children_from(
                t,
                cs,
                j as int,
                kinds@,
            ),
            forall|i: int| 0 <= i < out@.len() ==> node < (#[trigger] out@[i]) < t.len(),
        decreases count - j,
    {
        let c = tree.nodes[node].children[j];
        proof {
            assert(node_ok(t, node as int));
        }
        if kind_in(kinds, tree.nodes[c].kind) {
            let ghost out0 = out@;
            out.push(c);
            proof {
                assert(out@ =~= out0 + seq![c]);
                assert(out0 + (seq![c] + filter_children_from(t, cs, j + 1, kinds@)) =~= out@
                    + filter_children_from(t, cs, j + 1, kinds@));
            }
        }
        j = j + 1;
    }
    proof {
        assert(out@ + filter_children_from(t, cs, count as int, kinds@) =~= out@);
    }
    out
}

/// The texts of the given nodes, in order.
pub open spec fn texts_of(t: Seq<SyntaxNode>, ns: Seq<usize>) -> Seq<Seq<char>> {
    ns.map_values(|n: usize| t[n as int].text@)
}

/// Copies the text of each listed node, in order.
pub fn extract_text(tree: &SyntaxTree, nodes: &Vec<usize>) -> (r: Vec<String>)
    requires
        forall|i: int| 0 <= i < nodes@.len() ==> (#[trigger] nodes@[i]) < tree.nodes@.len(),
    ensures
        r@.len() == nodes@.len(),
        forall|i: int|
            0 <= i < nodes@.len() ==> (#[trigger] r@[i])@ == texts_of(tree.nodes@, nodes@)[i],
{
    let count = nodes.len();
    let mut out: Vec<String> = Vec::new();
    let mut i: usize = 0;
    while i < count
        invariant
            count == nodes@.len(),
            forall|k: int| 0 <= k < count ==> (#[trigger] nodes@[k]) < tree.nodes@.len(),
            0 <= i <= count,
            out@.len() == i,
            forall|k: int|
                0 <= k < i ==> (#[trigger] out@[k])@ == tree.nodes@[nodes@[k] as int].text@,
        decreases count - i,
    {
        out.push(tree.nodes[nodes[i]].text.clone());
        i = i + 1;
    }
    out
}

/// The kinds that form a documentation block: line comments.
pub open spec fn doc_comment_kinds() -> Seq<SyntaxKind> {
    seq![SyntaxKind::LineComment]
}

/// The documentation nodes of `n`: the run of line comments among its
/// previous siblings, cut off at any spacing with more than one newline.
pub open spec fn spec_docs_of(t: Seq<SyntaxNode>, n: int) -> Seq<usize> {
    collect_prev_spec(t, spec_prev_sibling(t, n), doc_comment_kinds(), 1)
}

/// The parameter nodes of the closure `cl`: the `Ident` and `Named`
/// children of its parameter list, or none when it has no parameter list.
pub open spec fn spec_param_nodes(t: Seq<SyntaxNode>, cl: int) -> Seq<usize> {
    match spec_child_by_kind(t, cl, SyntaxKind::Params) {
        Some(ps) => spec_children_by_kind(t, ps as int, seq![SyntaxKind::Ident, SyntaxKind::Named]),
        None => Seq::empty(),
    }
}

/// What a successful parse of the binding `b` holds: the name node's text,
/// the binding's documentation lines, and one (name, documentation lines)
/// pair per parameter node.
pub open spec fn parse_result_ok(
    t: Seq<SyntaxNode>,
    b: usize,
    nm: usize,
    params: Seq<usize>,
    v: ((String, Vec<String>), Vec<(String, Vec<String>)>),
) -> bool {
    &&& v.0.0@ == t[nm as int].text@
    &&& v.0.1@.len() == spec_docs_of(t, b as int).len()
    &&& forall|i: int|
        0 <= i < v.0.1@.len() ==> (#[trigger] v.0.1@[i])@ == texts_of(
            t,
            spec_docs_of(t, b as int),
        )[i]
    &&& v.1@.len() == params.len()
    &&& forall|i: int|
        0 <= i < params.len() ==> {
            let a = #[trigger] v.1@[i];
            &&& a.0@ == t[params[i] as int].text@
            &&& a.1@.len() == spec_docs_of(t, params[i] as int).len()
            &&& forall|j: int|
                0 <= j < a.1@.len() ==> (#[trigger] a.1@[j])@ == texts_of(
                    t,
                    spec_docs_of(t, params[i] as int),
                )[j]
        }
}

/// Parses the binding that `node` belongs to. Yields the bound name with
/// the binding's documentation lines, and, for a callable binding, each
/// parameter's name with its own documentation lines — both collected by
/// the same backward walk over preceding siblings. Yields `None` when
/// `node` belongs to no binding or the binding has no name.
pub fn parse_let_binding(tree: &SyntaxTree, node: usize) -> (r: Option<
    ((String, Vec<String>), Vec<(String, Vec<String>)>),
>)
    requires
        tree.wf(),
        node < tree.nodes@.len(),
    ensures
        ({
            let t = tree.nodes@;
            match spec_is_let_binding(t, node as int) {
                None => r is None,
                Some(b) => match spec_child_by_kind(t, b as int, SyntaxKind::Closure) {
                    Some(cl) => match spec_child_by_kind(t, cl as int, SyntaxKind::Ident) {
                        None => r is None,
                        Some(nm) => r matches Some(v) && parse_result_ok(
                            t,
                            b,
                            nm,
                            spec_param_nodes(t, cl as int),
                            v,
                        ),
                    },
                    None => match spec_child_by_kind(t, b as int, SyntaxKind::Ident) {
                        None => r is None,
                        Some(nm) => r matches Some(v) && parse_result_ok(t, b, nm, Seq::empty(), v),
                    },
                },
            }
        }),
{
    let ghost t = tree.nodes@;
    let b = match is_let_binding(tree, node) {
        Some(b) => b,
        None => {
            return None;
        },
    };
    let mut doc_kinds: Vec<SyntaxKind> = Vec::new();
    doc_kinds.push(SyntaxKind::LineComment);
    proof {
        assert(doc_kinds@ =~= doc_comment_kinds());
    }
    let binding_doc_nodes = collect_prev_nodes(tree, b, &doc_kinds, 1);
    let binding_docs = extract_text(tree, &binding_doc_nodes);
    match child_by_kind(tree, b, SyntaxKind::Closure) {
        Some(cl) => {
            let nm = match child_by_kind(tree, cl, SyntaxKind::Ident) {
                Some(nm) => nm,
                None => {
                    return None;
                },
            };
            let name = tree.nodes[nm].text.clone();
            let param_nodes = match child_by_kind(tree, cl, SyntaxKind::Params) {
                Some(ps) => {
                    let mut param_kinds: Vec<SyntaxKind> = Vec::new();
                    param_kinds.push(SyntaxKind::Ident);
                    param_kinds.push(SyntaxKind::Named);
                    proof {
                        assert(param_kinds@ =~= seq![SyntaxKind::Ident, SyntaxKind::Named]);
                    }
                    children_by_kind(tree, ps, &param_kinds)
                },
                None => Vec::new(),
            };
            let ghost params = spec_param_nodes(t, cl as int);
            let count = param_nodes.len();
            let mut args: Vec<(String, Vec<String>)> = Vec::new();
            let mut i: usize = 0;
            while i < count
                invariant
                    tree.wf(),
                    t == tree.nodes@,
                    doc_kinds@ == doc_comment_kinds(),
                    count == param_nodes@.len(),
                    param_nodes@ == params,
                    forall|k: int|
                        0 <= k < count ==> (#[trigger] param_nodes@[k]) < t.len(),
                    0 <= i <= count,
                    args@.len() == i,
                    forall|k: int|
                        0 <= k < i ==> {
                            let a = #[trigger] args@[k];
                            &&& a.0@ == t[params[k] as int].text@
                            &&& a.1@.len() == spec_docs_of(t, params[k] as int).len()
                            &&& forall|j: int|
                                0 <= j < a.1@.len() ==> (#[trigger] a.1@[j])@ == texts_of(
                                    t,
                                    spec_docs_of(t, params[k] as int),
                                )[j]
                        },
                decreases count - i,
            {
                let pn = param_nodes[i];
                let txt = tree.nodes[pn].text.clone();
                let arg_doc_nodes = collect_prev_nodes(tree, pn, &doc_kinds, 1);
                let arg_docs = extract_text(tree, &arg_doc_nodes);
                args.push((txt, arg_docs));
                i = i + 1;
            }
            Some(((name, binding_docs), args))
        },
        None => {
            let nm = match child_by_kind(tree, b, SyntaxKind::Ident) {
                Some(nm) => nm,
                None => {
                    return None;
                },
            };
            let name = tree.nodes[nm].text.clone();
            Some(((name, binding_docs), Vec::new()))
        },
    }
}

/// Two spaces of indentation per nesting level.
pub open spec fn indent_sp(n: int) -> Seq<char>
    decreases n,
{
    if n <= 0 {
        Seq::empty()
    } else {
        indent_sp(n - 1) + seq![' ', ' ']
    }
}

/// The label under which a kind is rendered.
pub open spec fn kind_label(k: SyntaxKind) -> Seq<char> {
    match k {
        SyntaxKind::Ident => "Ident"@,
        SyntaxKind::LetBinding => "LetBinding"@,
        SyntaxKind::Closure => "Closure"@,
        SyntaxKind::Params => "Params"@,
        SyntaxKind::Named => "Named"@,
        SyntaxKind::LineComment => "LineComment"@,
        SyntaxKind::Space => "Space"@,
        SyntaxKind::Parbreak => "Parbreak"@,
        SyntaxKind::Markup => "Markup"@,
        SyntaxKind::Code => "Code"@,
        SyntaxKind::Other => "Other"@,
    }
}

/// One line for the node (indentation, text, kind), then its children, one
/// nesting level deeper.
pub open spec fn render_node(t: Seq<SyntaxNode>, n: usize, ind: int) -> Seq<char>
    decreases t.len() - n, 1int, 0int,
    when seq_wf(t) && (n as int) < t.len()
    via render_node_dec
{
    indent_sp(ind) + "Node: "@ + t[n as int].text@ + ", Kind: "@ + kind_label(t[n as int].kind)
        + "\n"@ + render_children(t, n, 0, ind + 1)
}

/// The renderings of the children of `parent` from position `j` on.
pub open spec fn render_children(t: Seq<SyntaxNode>, parent: usize, j: int, ind: int) -> Seq<
    char,
>
    decreases t.len() - parent, 0int, t[parent as int].children@.len() - j,
    when seq_wf(t) && (parent as int) < t.len() && 0 <= j <= t[parent as int].children@.len()
    via render_children_dec
{
    if j >= t[parent as int].children@.len() {
        Seq::empty()
    } else {
        render_node(t, t[parent as int].children@[j], ind) + render_children(t, parent, j + 1, ind)
    }
}

#[via_fn]
proof fn render_node_dec(t: Seq<SyntaxNode>, n: usize, ind: int) {
    assert(node_ok(t, n as int));
}

#[via_fn]
proof fn render_children_dec(t: Seq<SyntaxNode>, parent: usize, j: int, ind: int) {
    assert(node_ok(t, parent as int));
}

/// Builds `n` levels of indentation.
fn indent_exec(n: usize) -> (r: String)
    ensures
        r@ == indent_sp(n as int),
{
    let mut out = String::new();
    let mut i: usize = 0;
    while i < n
        invariant
            0 <= i <= n,
            out@ == indent_sp(i as int),
        decreases n - i,
    {
        out.append("  ");
        proof {
            reveal_strlit("  ");
            assert(out@ =~= indent_sp(i + 1));
        }
        i = i + 1;
    }
    out
}

/// The label under which a kind is rendered.
fn kind_label_exec(k: SyntaxKind) -> (r: &'static str)
    ensures
        r@ == kind_label(k),
{
    match k {
        SyntaxKind::Ident => "Ident",
        SyntaxKind::LetBinding => "LetBinding",
        SyntaxKind::Closure => "Closure",
        SyntaxKind::Params => "Params",
        SyntaxKind::Named => "Named",
        SyntaxKind::LineComment => "LineComment",
        SyntaxKind::Space => "Space",
        SyntaxKind::Parbreak => "Parbreak",
        SyntaxKind::Markup => "Markup",
        SyntaxKind::Code => "Code",
        SyntaxKind::Other => "Other",
    }
}

/// Renders the subtree under `n` as [`render_node`] describes it.
fn render_node_exec(tree: &SyntaxTree, n: usize, ind: usize) -> (r: String)
    requires
        tree.wf(),
        n < tree.nodes@.len(),
        ind <= n,
    ensures
        r@ == render_node(tree.nodes@, n, ind as int),
    decreases tree.nodes@.len() - n,
{
    let ghost t = tree.nodes@;
    proof {
        assert(node_ok(t, n as int));
    }
    let mut out = indent_exec(ind);
    out.append("Node: ");
    out.append(tree.nodes[n].text.as_str());
    out.append(", Kind: ");
    out.append(kind_label_exec(tree.nodes[n].kind));
    out.append("\n");
    let count = tree.nodes[n].children.len();
    let ghost prefix = out@;
    let mut j: usize = 0;
    while j < count
        invariant
            tree.wf(),
            t == tree.nodes@,
            n < t.len(),
            ind <= n,
            count == t[n as int].children@.len(),
            0 <= j <= count,
            render_node(t, n, ind as int) == out@ + render_children(
                t,
                n,
                j as int,
                ind as int + 1,
            ),
        decreases count - j,
    {
        let c = tree.nodes[n].children[j];
        proof {
            assert(node_ok(t, n as int));
        }
        let piece = render_node_exec(tree, c, ind + 1);
        let ghost out0 = out@;
        out.append(piece.as_str());
        proof {
            assert(out0 + (render_node(t, c, ind as int + 1) + render_children(
                t,
                n,
                j + 1,
                ind as int + 1,
            )) =~= out@ + render_children(t, n, j + 1, ind as int + 1));
        }
        j = j + 1;
    }
    proof {
        assert(render_children(t, n, count as int, ind as int + 1) =~= Seq::<char>::empty());
        assert(out@ + Seq::<char>::empty() =~= out@);
    }
    out
}

/// Renders the whole tree, one line per node, for inspection by the host.
pub fn debug_print_ast(tree: &SyntaxTree) -> (r: String)
    requires
        tree.wf(),
        tree.nodes@.len() > 0,
    ensures
        r@ == "AST Debug Print:\n"@ + render_node(tree.nodes@, 0, 0)
            + "End of AST Debug Print\n"@,
{
    let mut out = String::from_str("AST Debug Print:\n");
    out.append(render_node_exec(tree, 0, 0).as_str());
    out.append("End of AST Debug Print\n");
    proof {
        assert(out@ =~= "AST Debug Print:\n"@ + render_node(tree.nodes@, 0, 0)
            + "End of AST Debug Print\n"@);
    }
    out
}

/// The last arena index whose node spans exactly the byte range
/// `[start, end)`, scanning from position `j` downward; the last matching
/// index is the deepest node with that span, children standing after their
/// parents.
pub open spec fn find_span_from(t: Seq<SyntaxNode>, j: int, start: int, end: int) -> Option<
    usize,
>
    decreases j,
    when j <= t.len()
{
    if j <= 0 {
        None
    } else if t[j - 1].offset == start && t[j - 1].offset + t[j - 1].length == end {
        Some((j - 1) as usize)
    } else {
        find_span_from(t, j - 1, start, end)
    }
}

/// Finds the deepest node whose span is exactly the byte range
/// `[start, end)`, if any.
pub fn find_node_by_range(tree: &SyntaxTree, start: usize, end: usize) -> (r: Option<usize>)
    ensures
        r == find_span_from(
            tree.nodes@,
            tree.nodes@.len() as int,
            start as int,
            end as int,
        ),
        r matches Some(i) ==> i < tree.nodes@.len(),
{
    let ghost t = tree.nodes@;
    let n = tree.nodes.len();
    let mut j: usize = n;
    while j > 0
        invariant
            t == tree.nodes@,
            n == t.len(),
            0 <= j <= n,
            find_span_from(t, n as int, start as int, end as int) == find_span_from(
                t,
                j as int,
                start as int,
                end as int,
            ),
        decreases j,
    {
        let node = &tree.nodes[j - 1];
        if node.offset == start && node.length <= usize::MAX - node.offset && node.offset
            + node.length == end {
            return Some(j - 1);
        }
        j = j - 1;
    }
    None
}

} // verus!
