use typst_core::ast::{
    child_by_kind, children_by_kind, collect_prev_nodes, debug_print_ast, extract_text,
    is_let_binding, new_lines, parse_let_binding, prev_sibling_verbose, SyntaxKind, SyntaxNode,
    SyntaxTree,
};

fn inner(
    kind: SyntaxKind,
    parent: Option<usize>,
    sibling_index: usize,
    children: Vec<usize>,
) -> SyntaxNode {
    SyntaxNode {
        kind,
        text: String::new(),
        offset: 0,
        length: 0,
        parent,
        sibling_index,
        children,
    }
}

fn leaf(kind: SyntaxKind, text: &str, parent: usize, sibling_index: usize) -> SyntaxNode {
    SyntaxNode {
        kind,
        text: String::from(text),
        offset: 0,
        length: text.len(),
        parent: Some(parent),
        sibling_index,
        children: Vec::new(),
    }
}

/// Two bindings with doc blocks and one with a cut-off block:
/// `// one` / `// two` directly above `pi`; `// lost` above `q` but a blank
/// line above that; `// far` separated from `r` by a blank line.
pub fn doc_blocks_tree() -> SyntaxTree {
    let nodes = vec![
        inner(
            SyntaxKind::Markup,
            None,
            0,
            vec![1, 2, 3, 4, 5, 7, 8, 9, 10, 12, 13, 14, 15],
        ),
        leaf(SyntaxKind::LineComment, "// one", 0, 0),
        leaf(SyntaxKind::Space, "\n", 0, 1),
        leaf(SyntaxKind::LineComment, "// two", 0, 2),
        leaf(SyntaxKind::Space, "\n", 0, 3),
        inner(SyntaxKind::LetBinding, Some(0), 4, vec![6]),
        SyntaxNode {
            kind: SyntaxKind::Ident,
            text: String::from("pi"),
            offset: 19,
            length: 2,
            parent: Some(5),
            sibling_index: 0,
            children: Vec::new(),
        },
        leaf(SyntaxKind::Space, "\n\n", 0, 5),
        leaf(SyntaxKind::LineComment, "// lost", 0, 6),
        leaf(SyntaxKind::Space, "\n", 0, 7),
        inner(SyntaxKind::LetBinding, Some(0), 8, vec![11]),
        leaf(SyntaxKind::Ident, "q", 10, 0),
        leaf(SyntaxKind::Space, "\n", 0, 9),
        leaf(SyntaxKind::LineComment, "// far", 0, 10),
        leaf(SyntaxKind::Space, "\n\n", 0, 11),
        inner(SyntaxKind::LetBinding, Some(0), 12, vec![16]),
        leaf(SyntaxKind::Ident, "r", 15, 0),
    ];
    SyntaxTree { nodes }
}

/// A callable binding `f(a, b)` whose second parameter carries a doc line.
pub fn closure_tree() -> SyntaxTree {
    let nodes = vec![
        inner(SyntaxKind::Markup, None, 0, vec![1]),
        inner(SyntaxKind::LetBinding, Some(0), 0, vec![2]),
        inner(SyntaxKind::Closure, Some(1), 0, vec![3, 4]),
        leaf(SyntaxKind::Ident, "f", 2, 0),
        inner(SyntaxKind::Params, Some(2), 1, vec![5, 6, 7, 8, 9]),
        leaf(SyntaxKind::Ident, "a", 4, 0),
        leaf(SyntaxKind::Space, " ", 4, 1),
        leaf(SyntaxKind::LineComment, "// doc b", 4, 2),
        leaf(SyntaxKind::Space, " ", 4, 3),
        leaf(SyntaxKind::Ident, "b", 4, 4),
    ];
    SyntaxTree { nodes }
}

#[test]
fn new_lines_counts_only_spacing() {
    let tree = doc_blocks_tree();
    assert_eq!(new_lines(&tree, 2), 1);
    assert_eq!(new_lines(&tree, 7), 2);
    // Comments contain no countable newlines, whatever their text.
    assert_eq!(new_lines(&tree, 1), 0);
}

#[test]
fn prev_sibling_walks_backward() {
    let tree = doc_blocks_tree();
    assert_eq!(prev_sibling_verbose(&tree, 5), Some(4));
    assert_eq!(prev_sibling_verbose(&tree, 1), None);
    // The root has no parent, so no sibling either.
    assert_eq!(prev_sibling_verbose(&tree, 0), None);
}

#[test]
fn collect_prev_nodes_stops_at_blank_lines() {
    let tree = doc_blocks_tree();
    let kinds = vec![SyntaxKind::LineComment];
    // Both comment lines directly above `pi` are collected, in source order.
    assert_eq!(collect_prev_nodes(&tree, 5, &kinds, 1), vec![1, 3]);
    // The block above `q` ends at the blank line separating it from `pi`.
    assert_eq!(collect_prev_nodes(&tree, 10, &kinds, 1), vec![8]);
    // A blank line directly above `r` cuts its documentation off entirely.
    assert_eq!(collect_prev_nodes(&tree, 15, &kinds, 1), Vec::<usize>::new());
}

#[test]
fn is_let_binding_classifies_shapes() {
    let doc = doc_blocks_tree();
    assert_eq!(is_let_binding(&doc, 5), Some(5));
    assert_eq!(is_let_binding(&doc, 6), Some(5));
    assert_eq!(is_let_binding(&doc, 1), None);
    let call = closure_tree();
    // An identifier under a closure under a binding resolves to the binding.
    assert_eq!(is_let_binding(&call, 3), Some(1));
    assert_eq!(is_let_binding(&call, 5), None);
}

#[test]
fn child_lookup_by_kind() {
    let call = closure_tree();
    assert_eq!(child_by_kind(&call, 1, SyntaxKind::Closure), Some(2));
    assert_eq!(child_by_kind(&call, 2, SyntaxKind::Params), Some(4));
    assert_eq!(child_by_kind(&call, 2, SyntaxKind::Markup), None);
    let kinds = vec![SyntaxKind::Ident, SyntaxKind::Named];
    assert_eq!(children_by_kind(&call, 4, &kinds), vec![5, 9]);
}

#[test]
fn extract_text_copies_in_order() {
    let tree = doc_blocks_tree();
    let texts = extract_text(&tree, &vec![1, 3]);
    assert_eq!(texts, vec![String::from("// one"), String::from("// two")]);
}

#[test]
fn parse_simple_binding_with_docs() {
    let tree = doc_blocks_tree();
    let ((name, docs), args) = parse_let_binding(&tree, 6).unwrap();
    assert_eq!(name, "pi");
    assert_eq!(docs, vec![String::from("// one"), String::from("// two")]);
    assert!(args.is_empty());
}

#[test]
fn parse_binding_docs_cut_by_blank_line() {
    let tree = doc_blocks_tree();
    let ((name, docs), _) = parse_let_binding(&tree, 11).unwrap();
    assert_eq!(name, "q");
    assert_eq!(docs, vec![String::from("// lost")]);
    let ((name, docs), _) = parse_let_binding(&tree, 16).unwrap();
    assert_eq!(name, "r");
    assert!(docs.is_empty());
}

#[test]
fn parse_callable_binding_with_parameter_docs() {
    let tree = closure_tree();
    let ((name, docs), args) = parse_let_binding(&tree, 3).unwrap();
    assert_eq!(name, "f");
    assert!(docs.is_empty());
    assert_eq!(args.len(), 2);
    assert_eq!(args[0].0, "a");
    assert!(args[0].1.is_empty());
    assert_eq!(args[1].0, "b");
    // The parameter's own doc line is collected by the same backward walk.
    assert_eq!(args[1].1, vec![String::from("// doc b")]);
}

#[test]
fn parse_rejects_non_bindings() {
    let tree = doc_blocks_tree();
    assert!(parse_let_binding(&tree, 1).is_none());
}

#[test]
fn debug_print_renders_every_node() {
    let tree = closure_tree();
    let rendered = debug_print_ast(&tree);
    assert!(rendered.starts_with("AST Debug Print:\n"));
    assert!(rendered.ends_with("End of AST Debug Print\n"));
    assert!(rendered.contains("Node: f, Kind: Ident"));
    assert!(rendered.contains("Kind: Params"));
}
