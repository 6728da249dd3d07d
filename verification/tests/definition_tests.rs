use typst_core::ast::{SyntaxKind, SyntaxNode, SyntaxTree};
use typst_core::definition::{
    parse_cast_info, parse_params, Args, CastDescriptor, DefinitionExt, DefinitionTarget,
    ParamDescriptor, StdValue, TypstCoreDefinition,
};
use typst_core::range::MonacoRange;
use typst_core::source_file::SourceFile;
use typst_core::store::FileId;

fn param(name: &str, input: CastDescriptor, required: bool) -> ParamDescriptor {
    ParamDescriptor {
        variadic: false,
        name: String::from(name),
        input,
        default: None,
        required,
        named: false,
    }
}

#[test]
fn cast_rendering() {
    assert_eq!(parse_cast_info(&CastDescriptor::Any), "any");
    assert_eq!(
        parse_cast_info(&CastDescriptor::Type(String::from("length"))),
        "length"
    );
    assert_eq!(parse_cast_info(&CastDescriptor::Value(None)), "undef");
    assert_eq!(
        parse_cast_info(&CastDescriptor::Value(Some(String::from("auto")))),
        "auto"
    );
    // The union flattening rule: members joined with ` | ` in parentheses.
    let union = CastDescriptor::Union(vec![
        CastDescriptor::Type(String::from("str")),
        CastDescriptor::Any,
        CastDescriptor::Union(vec![CastDescriptor::Type(String::from("int"))]),
    ]);
    assert_eq!(parse_cast_info(&union), "(str | any | (int))");
    assert_eq!(parse_cast_info(&CastDescriptor::Union(Vec::new())), "()");
}

#[test]
fn parameter_rendering() {
    let mut spacing = param("spacing", CastDescriptor::Type(String::from("length")), false);
    spacing.named = true;
    spacing.default = Some(String::from("1.5em"));
    let mut body = param("body", CastDescriptor::Type(String::from("content")), true);
    body.variadic = true;
    let rendered = parse_params(&vec![spacing, body]);
    assert_eq!(rendered, "spacing?: length = 1.5em, ...bodycontent");
}

#[test]
fn args_join_documentation_lines() {
    let arg = Args::from((
        String::from("width"),
        vec![String::from("// line one"), String::from("// line two")],
    ));
    assert_eq!(arg.name, "width");
    assert_eq!(arg.docs.as_deref(), Some("// line one\n// line two"));
    let bare = Args::from((String::from("height"), Vec::new()));
    assert!(bare.docs.is_none());
}

fn block_value() -> StdValue {
    StdValue::Func {
        name: Some(String::from("block")),
        params: Some(vec![param(
            "body",
            CastDescriptor::Type(String::from("content")),
            false,
        )]),
        ret_ty: Some(CastDescriptor::Type(String::from("content"))),
        docs: Some(String::from("A block-level container.")),
    }
}

#[test]
fn std_value_descriptors() {
    let value = block_value();
    assert_eq!(value.name().as_deref(), Some("block(body?content) -> content"));
    assert!(value.kind().is_none());
    assert_eq!(value.docs().as_deref(), Some("A block-level container."));

    let other = StdValue::Other {
        ty_name: String::from("integer"),
        docs: None,
    };
    assert_eq!(other.name().as_deref(), Some("undef"));
    assert_eq!(other.kind().as_deref(), Some("integer"));
    assert!(other.docs().is_none());
}

fn pi_tree() -> SyntaxTree {
    // `// one` and `// two` directly above `#let pi = 3`; the identifier
    // `pi` sits at bytes 19..21 of the buffer below.
    let mut nodes = Vec::new();
    nodes.push(SyntaxNode {
        kind: SyntaxKind::Markup,
        text: String::new(),
        offset: 0,
        length: 0,
        parent: None,
        sibling_index: 0,
        children: vec![1, 2, 3, 4, 5],
    });
    for (i, (kind, text)) in [
        (SyntaxKind::LineComment, "// one"),
        (SyntaxKind::Space, "\n"),
        (SyntaxKind::LineComment, "// two"),
        (SyntaxKind::Space, "\n"),
    ]
    .into_iter()
    .enumerate()
    {
        nodes.push(SyntaxNode {
            kind,
            text: String::from(text),
            offset: 0,
            length: text.len(),
            parent: Some(0),
            sibling_index: i,
            children: Vec::new(),
        });
    }
    nodes.push(SyntaxNode {
        kind: SyntaxKind::LetBinding,
        text: String::new(),
        offset: 14,
        length: 11,
        parent: Some(0),
        sibling_index: 4,
        children: vec![6],
    });
    nodes.push(SyntaxNode {
        kind: SyntaxKind::Ident,
        text: String::from("pi"),
        offset: 19,
        length: 2,
        parent: Some(5),
        sibling_index: 0,
        children: Vec::new(),
    });
    SyntaxTree { nodes }
}

fn pi_source() -> SourceFile {
    SourceFile::new(
        FileId::new(None, String::from("/main.typ")),
        String::from("// one\n// two\n#let pi = 3\n"),
    )
}

#[test]
fn user_definition_has_range_and_docs() {
    // A use of `pi` resolves to a user-defined, non-callable binding with a
    // populated declaration range.
    let tree = pi_tree();
    let source = pi_source();
    let def =
        TypstCoreDefinition::new(Some(DefinitionTarget::Span(6)), &tree, &source).unwrap();
    assert!(!def.is_std);
    assert!(!def.is_fn);
    assert_eq!(def.name.as_deref(), Some("pi"));
    assert!(def.kind.is_none());
    assert_eq!(def.docs.as_deref(), Some("// one\n// two"));
    assert!(def.args.is_empty());
    let span = def.def_span.unwrap();
    assert_eq!(span.path, "/main.typ");
    // Bytes 19..21 sit on line 3, columns 6..8 of the editor convention.
    assert_eq!(span.monaco_range, MonacoRange::new(3, 6, 3, 8));
    assert!(def.tooltip.is_none());
}

#[test]
fn std_definition_has_no_range() {
    // A standard-library symbol keeps its descriptor and has no
    // declaration range.
    let tree = pi_tree();
    let source = pi_source();
    let def = TypstCoreDefinition::new(
        Some(DefinitionTarget::Std(block_value())),
        &tree,
        &source,
    )
    .unwrap();
    assert!(def.is_std);
    assert!(!def.is_fn);
    assert_eq!(def.name.as_deref(), Some("block(body?content) -> content"));
    assert!(def.kind.is_none());
    assert!(def.def_span.is_none());
    assert!(def.args.is_empty());
}

#[test]
fn callable_definition_lists_parameters() {
    let nodes = vec![
        SyntaxNode {
            kind: SyntaxKind::Markup,
            text: String::new(),
            offset: 0,
            length: 0,
            parent: None,
            sibling_index: 0,
            children: vec![1],
        },
        SyntaxNode {
            kind: SyntaxKind::LetBinding,
            text: String::new(),
            offset: 0,
            length: 20,
            parent: Some(0),
            sibling_index: 0,
            children: vec![2],
        },
        SyntaxNode {
            kind: SyntaxKind::Closure,
            text: String::new(),
            offset: 5,
            length: 15,
            parent: Some(1),
            sibling_index: 0,
            children: vec![3, 4],
        },
        SyntaxNode {
            kind: SyntaxKind::Ident,
            text: String::from("f"),
            offset: 5,
            length: 1,
            parent: Some(2),
            sibling_index: 0,
            children: Vec::new(),
        },
        SyntaxNode {
            kind: SyntaxKind::Params,
            text: String::new(),
            offset: 6,
            length: 6,
            parent: Some(2),
            sibling_index: 1,
            children: vec![5, 6],
        },
        SyntaxNode {
            kind: SyntaxKind::Ident,
            text: String::from("a"),
            offset: 7,
            length: 1,
            parent: Some(4),
            sibling_index: 0,
            children: Vec::new(),
        },
        SyntaxNode {
            kind: SyntaxKind::Ident,
            text: String::from("b"),
            offset: 10,
            length: 1,
            parent: Some(4),
            sibling_index: 1,
            children: Vec::new(),
        },
    ];
    let tree = SyntaxTree { nodes };
    let source = SourceFile::new(
        FileId::new(None, String::from("/main.typ")),
        String::from("#let f(a, b) = a + b"),
    );
    let def =
        TypstCoreDefinition::new(Some(DefinitionTarget::Span(3)), &tree, &source).unwrap();
    assert!(def.is_fn);
    assert!(!def.is_std);
    assert_eq!(def.name.as_deref(), Some("f"));
    assert_eq!(def.args.len(), 2);
    assert_eq!(def.args[0].name, "a");
    assert_eq!(def.args[1].name, "b");
}

#[test]
fn missing_target_yields_empty_payload() {
    let tree = pi_tree();
    let source = pi_source();
    let def = TypstCoreDefinition::new(None, &tree, &source).unwrap();
    assert!(def.name.is_none());
    assert!(!def.is_std);
    assert!(def.def_span.is_none());
}

#[test]
fn non_binding_shape_is_a_structural_error() {
    // Resolving a node that belongs to no binding reports a structural
    // error instead of panicking.
    let tree = pi_tree();
    let source = pi_source();
    let err =
        TypstCoreDefinition::new(Some(DefinitionTarget::Span(1)), &tree, &source).unwrap_err();
    match err {
        typst_core::error::TypstCoreError::DefaultError(m) => {
            assert_eq!(m, "Definition should be a let binding")
        }
        typst_core::error::TypstCoreError::CompileError(_) => {
            panic!("expected a default error")
        }
    }
}
