//! Structured definition lookup results: rendering of the compiler's
//! type-description union, parameter signatures, and the definition payload
//! handed to the editor.
use vstd::prelude::*;
use vstd::string::*;
use crate::ast::{
    spec_child_by_kind, spec_docs_of, spec_is_let_binding, spec_param_nodes, texts_of,
    SyntaxKind, SyntaxNode, SyntaxTree,
};
use crate::error::TypstCoreError;
use crate::range::{spec_from_typst_range, SpanData, TypstCoreRange};
use crate::source_file::SourceFile;

verus! {

/// A type description as the compiler reports it: anything, a named type, a
/// concrete value (whose name may be unknown), or a union of descriptions.
#[derive(Debug)]
pub enum CastDescriptor {
    /// Any value is accepted.
    Any,
    /// A type, by its short name.
    Type(String),
    /// A concrete value, by its name when it has one.
    Value(Option<String>),
    /// Any of several descriptions.
    Union(Vec<CastDescriptor>),
}

/// Text of one type description: `any`, the type name, the value's name
/// (`undef` when it has none), or the union's members joined with `|` in
/// parentheses.
pub open spec fn spec_render_cast(c: CastDescriptor) -> Seq<char>
    decreases c, 1int, 0int,
{
    match c {
        CastDescriptor::Any => "any"@,
        CastDescriptor::Type(k) => k@,
        CastDescriptor::Value(n) => match n {
            Some(s) => s@,
            None => "undef"@,
        },
        CastDescriptor::Union(ts) => "("@ + spec_render_cast_items(ts@, 0) + ")"@,
    }
}

/// Texts of the union members from position `j` on, separated by ` | `.
pub open spec fn spec_render_cast_items(s: Seq<CastDescriptor>, j: int) -> Seq<char>
    decreases s, 0int, s.len() - j,
    when 0 <= j <= s.len()
{
    if j >= s.len() {
        Seq::empty()
    } else {
        (if j > 0 {
            " | "@
        } else {
            Seq::empty()
        }) + spec_render_cast(s[j]) + spec_render_cast_items(s, j + 1)
    }
}

/// Renders a type description as [`spec_render_cast`] describes it.
pub fn parse_cast_info(cast: &CastDescriptor) -> (r: String)
    ensures
        r@ == spec_render_cast(*cast),
    decreases *cast,
{
    match cast {
        CastDescriptor::Any => String::from_str("any"),
        CastDescriptor::Type(k) => k.clone(),
        CastDescriptor::Value(n) => match n {
            Some(s) => s.clone(),
            None => String::from_str("undef"),
        },
        CastDescriptor::Union(ts) => {
            let ghost s = ts@;
            let mut out = String::from_str("(");
            let count = ts.len();
            let mut j: usize = 0;
            while j < count
                invariant
                    (*cast) is Union,
                    (*cast)->Union_0@ == s,
                    s == ts@,
                    count == s.len(),
                    0 <= j <= count,
                    "("@ + spec_render_cast_items(s, 0) + ")"@ == out@ + spec_render_cast_items(
                        s,
                        j as int,
                    ) + ")"@,
                decreases count - j,
            {
                if j > 0 {
                    out.append(" | ");
                }
                proof {
                    assert(decreases_to!(*cast => (*cast)->Union_0));
                    assert(decreases_to!((*cast)->Union_0 => (*cast)->Union_0@));
                    assert((*cast)->Union_0@ == ts@);
                    assert(decreases_to!(ts@ => ts@[j as int]));
                }
                let piece = parse_cast_info(&ts[j]);
                out.append(piece.as_str());
                proof {
                    assert("("@ + spec_render_cast_items(s, 0) + ")"@ =~= out@
                        + spec_render_cast_items(s, j + 1) + ")"@);
                }
                j = j + 1;
            }
            out.append(")");
            proof {
                assert(spec_render_cast_items(s, count as int) =~= Seq::<char>::empty());
                assert(out@ =~= "("@ + spec_render_cast_items(s, 0) + ")"@);
            }
            out
        },
    }
}

/// One parameter of a callable, as the compiler describes it.
#[derive(Debug)]
pub struct ParamDescriptor {
    /// Whether the parameter is variadic.
    pub variadic: bool,
    /// The parameter's name.
    pub name: String,
    /// What the parameter accepts.
    pub input: CastDescriptor,
    /// The default value, already rendered as plain text, when there is one.
    pub default: Option<String>,
    /// Whether the parameter is required.
    pub required: bool,
    /// Whether the parameter is named.
    pub named: bool,
}

/// Text of one parameter: `...` for variadic, the name, `?` when optional,
/// `: ` when named, the accepted type, and ` = default` when defaulted.
pub open spec fn spec_render_param(p: ParamDescriptor) -> Seq<char> {
    (if p.variadic {
        "..."@
    } else {
        Seq::empty()
    }) + p.name@ + (if !p.required {
        "?"@
    } else {
        Seq::empty()
    }) + (if p.named {
        ": "@
    } else {
        Seq::empty()
    }) + spec_render_cast(p.input) + (match p.default {
        Some(d) => " = "@ + d@,
        None => Seq::empty(),
    })
}

/// Texts of the parameters from position `j` on, joined with `, `.
pub open spec fn spec_render_params(s: Seq<ParamDescriptor>, j: int) -> Seq<char>
    decreases s.len() - j,
    when 0 <= j <= s.len()
{
    if j >= s.len() {
        Seq::empty()
    } else {
        (if j > 0 {
            ", "@
        } else {
            Seq::empty()
        }) + spec_render_param(s[j]) + spec_render_params(s, j + 1)
    }
}

/// Renders one parameter as [`spec_render_param`] describes it.
fn render_param(p: &ParamDescriptor) -> (r: String)
    ensures
        r@ == spec_render_param(*p),
{
    let mut out = String::new();
    if p.variadic {
        out.append("...");
    }
    out.append(p.name.as_str());
    if !p.required {
        out.append("?");
    }
    if p.named {
        out.append(": ");
    }
    let ty = parse_cast_info(&p.input);
    out.append(ty.as_str());
    match &p.default {
        Some(d) => {
            out.append(" = ");
            out.append(d.as_str());
        },
        None => {},
    }
    proof {
        assert(out@ =~= spec_render_param(*p));
    }
    out
}

/// Renders a parameter list as [`spec_render_params`] describes it.
pub fn parse_params(params: &Vec<ParamDescriptor>) -> (r: String)
    ensures
        r@ == spec_render_params(params@, 0),
{
    let ghost s = params@;
    let mut out = String::new();
    let count = params.len();
    let mut j: usize = 0;
    while j < count
        invariant
            s == params@,
            count == s.len(),
            0 <= j <= count,
            spec_render_params(s, 0) == out@ + spec_render_params(s, j as int),
        decreases count - j,
    {
        if j > 0 {
            out.append(", ");
        }
        let piece = render_param(&params[j]);
        out.append(piece.as_str());
        proof {
            assert(spec_render_params(s, 0) =~= out@ + spec_render_params(s, j + 1));
        }
        j = j + 1;
    }
    proof {
        assert(spec_render_params(s, count as int) =~= Seq::<char>::empty());
        assert(out@ =~= spec_render_params(s, 0));
    }
    out
}

/// The given text lines joined with newlines, from position `j` on.
pub open spec fn join_texts(s: Seq<Seq<char>>, j: int) -> Seq<char>
    decreases s.len() - j,
    when 0 <= j <= s.len()
{
    if j >= s.len() {
        Seq::empty()
    } else {
        (if j > 0 {
            "\n"@
        } else {
            Seq::empty()
        }) + s[j] + join_texts(s, j + 1)
    }
}

/// The views of a list of strings.
pub open spec fn views_of(v: Seq<String>) -> Seq<Seq<char>> {
    v.map_values(|s: String| s@)
}

/// Joins text lines with newlines, as [`join_texts`] describes it.
pub fn join_lines(lines: &Vec<String>) -> (r: String)
    ensures
        r@ == join_texts(views_of(lines@), 0),
{
    let ghost s = views_of(lines@);
    let mut out = String::new();
    let count = lines.len();
    let mut j: usize = 0;
    while j < count
        invariant
            s == views_of(lines@),
            count == s.len(),
            0 <= j <= count,
            join_texts(s, 0) == out@ + join_texts(s, j as int),
        decreases count - j,
    {
        if j > 0 {
            out.append("\n");
        }
        out.append(lines[j].as_str());
        proof {
            assert(join_texts(s, 0) =~= out@ + join_texts(s, j + 1));
        }
        j = j + 1;
    }
    proof {
        assert(join_texts(s, count as int) =~= Seq::<char>::empty());
        assert(out@ =~= join_texts(s, 0));
    }
    out
}

/// One parameter of a definition result: its name and its joined
/// documentation, absent when no documentation lines were collected.
#[derive(Debug)]
pub struct Args {
    pub name: String,
    pub docs: Option<String>,
}

impl Args {
    /// Builds one parameter entry from its name and documentation lines:
    /// the lines joined with newlines, or no documentation when there are
    /// no lines.
    pub fn from(value: (String, Vec<String>)) -> (r: Self)
        ensures
            r.name@ == value.0@,
            value.1@.len() == 0 ==> r.docs is None,
            value.1@.len() > 0 ==> (r.docs matches Some(d) && d@ == join_texts(
                views_of(value.1@),
                0,
            )),
    {
        let (name, lines) = value;
        let docs = if lines.len() == 0 {
            None
        } else {
            Some(join_lines(&lines))
        };
        Args { name, docs }
    }
}

/// A standard-library value as the definition lookup reports it: a callable
/// with its signature pieces, or any other value with its type's short
/// name. Both carry the value's documentation when the compiler has any.
#[derive(Debug)]
pub enum StdValue {
    Func {
        /// The function's name, when it has one.
        name: Option<String>,
        /// The function's parameters, when the compiler lists them.
        params: Option<Vec<ParamDescriptor>>,
        /// The function's result type, when the compiler states it.
        ret_ty: Option<CastDescriptor>,
        /// The function's documentation.
        docs: Option<String>,
    },
    Other {
        /// The short name of the value's type.
        ty_name: String,
        /// The value's documentation.
        docs: Option<String>,
    },
}

/// The display name of a standard-library value: for a callable, its name
/// followed by its rendered parameter list and return type (each part only
/// when known); `undef` for anything else.
pub open spec fn spec_value_name(v: StdValue) -> Seq<char> {
    match v {
        StdValue::Func { name, params, ret_ty, docs } => (match name {
            Some(n) => n@,
            None => Seq::empty(),
        }) + (match params {
            Some(ps) => "("@ + spec_render_params(ps@, 0) + ")"@,
            None => Seq::empty(),
        }) + (match ret_ty {
            Some(rt) => " -> "@ + spec_render_cast(rt),
            None => Seq::empty(),
        }),
        StdValue::Other { ty_name, docs } => "undef"@,
    }
}

/// Descriptive accessors that a definition result needs from a value.
pub trait DefinitionExt {
    /// The value's display name.
    fn name(&self) -> Option<String>;

    /// The value's informal kind label.
    fn kind(&self) -> Option<String>;

    /// The value's documentation.
    fn docs(&self) -> Option<String>;
}

impl StdValue {
    /// The display name, as [`spec_value_name`] describes it; always
    /// present.
    pub fn value_name(&self) -> (r: Option<String>)
        ensures
            r matches Some(s) && s@ == spec_value_name(*self),
    {
        match self {
            StdValue::Func { name, params, ret_ty, docs } => {
                let mut out = String::new();
                match name {
                    Some(n) => {
                        out.append(n.as_str());
                    },
                    None => {},
                }
                match params {
                    Some(ps) => {
                        out.append("(");
                        let rendered = parse_params(ps);
                        out.append(rendered.as_str());
                        out.append(")");
                    },
                    None => {},
                }
                match ret_ty {
                    Some(rt) => {
                        out.append(" -> ");
                        let rendered = parse_cast_info(rt);
                        out.append(rendered.as_str());
                    },
                    None => {},
                }
                proof {
                    assert(out@ =~= spec_value_name(*self));
                }
                Some(out)
            },
            StdValue::Other { ty_name, docs } => Some(String::from_str("undef")),
        }
    }

    /// The kind label: absent for callables, the type's short name
    /// otherwise.
    pub fn value_kind(&self) -> (r: Option<String>)
        ensures
            match *self {
                StdValue::Func { name, params, ret_ty, docs } => r is None,
                StdValue::Other { ty_name, docs } => r matches Some(s) && s@ == ty_name@,
            },
    {
        match self {
            StdValue::Func { name, params, ret_ty, docs } => None,
            StdValue::Other { ty_name, docs } => Some(ty_name.clone()),
        }
    }

    /// The value's documentation, as the compiler reported it.
    pub fn value_docs(&self) -> (r: Option<String>)
        ensures
            match *self {
                StdValue::Func { name, params, ret_ty, docs } => r == docs,
                StdValue::Other { ty_name, docs } => r == docs,
            },
    {
        match self {
            StdValue::Func { name, params, ret_ty, docs } => match docs {
                Some(d) => Some(d.clone()),
                None => None,
            },
            StdValue::Other { ty_name, docs } => match docs {
                Some(d) => Some(d.clone()),
                None => None,
            },
        }
    }
}

impl DefinitionExt for StdValue {
    fn name(&self) -> Option<String> {
        self.value_name()
    }

    fn kind(&self) -> Option<String> {
        self.value_kind()
    }

    fn docs(&self) -> Option<String> {
        self.value_docs()
    }
}

/// The binding node and its name node for the declaration that `node`
/// belongs to: the binding found by [`spec_is_let_binding`], with the name
/// taken from its closure when it is callable and from the binding itself
/// otherwise; `None` when there is no binding or it has no name.
pub open spec fn spec_binding_name(t: Seq<SyntaxNode>, node: int) -> Option<(usize, usize)> {
    match spec_is_let_binding(t, node) {
        None => None,
        Some(b) => match spec_child_by_kind(t, b as int, SyntaxKind::Closure) {
            Some(cl) => match spec_child_by_kind(t, cl as int, SyntaxKind::Ident) {
                Some(nm) => Some((b, nm)),
                None => None,
            },
            None => match spec_child_by_kind(t, b as int, SyntaxKind::Ident) {
                Some(nm) => Some((b, nm)),
                None => None,
            },
        },
    }
}

/// The parameter nodes of the declaration that `node` belongs to: those of
/// its closure when it is callable, none otherwise.
pub open spec fn spec_binding_params(t: Seq<SyntaxNode>, node: int) -> Seq<usize> {
    match spec_is_let_binding(t, node) {
        None => Seq::empty(),
        Some(b) => match spec_child_by_kind(t, b as int, SyntaxKind::Closure) {
            Some(cl) => spec_param_nodes(t, cl as int),
            None => Seq::empty(),
        },
    }
}

/// What the compiler's name resolution found at the queried position: the
/// arena node of a user-level declaration's name, or a standard-library
/// value.
#[derive(Debug)]
pub enum DefinitionTarget {
    /// The arena index of the identifier node at the declaration span.
    Span(usize),
    /// A standard-library value descriptor.
    Std(StdValue),
}

/// A definition lookup result: the symbol's name (with a rendered signature
/// for callables), an informal kind label, joined documentation, its origin
/// (standard library or user-defined), whether it is callable, its
/// parameters with their own documentation, and the declaration's range
/// (absent for the standard library).
#[derive(Debug)]
pub struct TypstCoreDefinition {
    pub name: Option<String>,
    pub kind: Option<String>,
    pub docs: Option<String>,
    pub is_std: bool,
    pub is_fn: bool,
    pub args: Vec<Args>,
    pub def_span: Option<TypstCoreRange>,
    pub tooltip: Option<String>,
}

impl TypstCoreDefinition {
    /// Builds the definition payload for what name resolution found at a
    /// position of `source`, using the syntax-tree arena of that buffer.
    ///
    /// No target yields an empty payload. A standard-library value yields
    /// its descriptor, with no declaration range. A declaration node is
    /// classified through [`crate::ast::parse_let_binding`]: its name,
    /// documentation block, parameters with their documentation, whether
    /// the binding is callable (the queried identifier sits under a
    /// `Closure`), and the declaration's editor range; a shape that is not
    /// a simple binding is a structural error, never a panic.
    pub fn new(definition: Option<DefinitionTarget>, tree: &SyntaxTree, source: &SourceFile) -> (r:
        Result<TypstCoreDefinition, TypstCoreError>)
        requires
            tree.wf(),
            match definition {
                Some(DefinitionTarget::Span(node)) => (node as int) < tree.nodes@.len(),
                _ => true,
            },
        ensures
            match definition {
                None => r matches Ok(d) && d.name is None && d.kind is None && d.docs is None
                    && !d.is_std && !d.is_fn && d.args@.len() == 0 && d.def_span is None
                    && d.tooltip is None,
                Some(DefinitionTarget::Std(v)) => r matches Ok(d) && {
                    &&& d.name matches Some(nm) && nm@ == spec_value_name(v)
                    &&& match v {
                        StdValue::Func { name, params, ret_ty, docs } => d.kind is None
                            && d.docs == docs,
                        StdValue::Other { ty_name, docs } => (d.kind matches Some(k) && k@
                            == ty_name@) && d.docs == docs,
                    }
                    &&& d.is_std
                    &&& !d.is_fn
                    &&& d.args@.len() == 0
                    &&& d.def_span is None
                    &&& d.tooltip is None
                },
                Some(DefinitionTarget::Span(node)) => {
                    let t = tree.nodes@;
                    let off = t[node as int].offset;
                    let length = t[node as int].length;
                    if off + length > usize::MAX {
                        r matches Err(e) && e matches TypstCoreError::DefaultError(m) && m@
                            == "Failed to get range for span"@
                    } else {
                        match spec_binding_name(t, node as int) {
                            None => r matches Err(e) && e
                                matches TypstCoreError::DefaultError(m) && m@
                                == "Definition should be a let binding"@,
                            Some((b, nm)) => match t[node as int].parent {
                                None => r matches Err(e) && e
                                    matches TypstCoreError::DefaultError(m) && m@
                                    == "Let binding identifier should have a parent"@,
                                Some(p) => r matches Ok(d) && {
                                    let docs = texts_of(t, spec_docs_of(t, b as int));
                                    let params = spec_binding_params(t, node as int);
                                    &&& d.name matches Some(s) && s@ == t[nm as int].text@
                                    &&& d.kind is None
                                    &&& (docs.len() == 0 ==> d.docs is None)
                                    &&& (docs.len() > 0 ==> (d.docs matches Some(dd) && dd@
                                        == join_texts(docs, 0)))
                                    &&& !d.is_std
                                    &&& d.is_fn == (t[p as int].kind == SyntaxKind::Closure)
                                    &&& d.def_span matches Some(rng) && rng.path@
                                        == source.id.vpath@ && rng.monaco_range
                                        == spec_from_typst_range(
                                        source.text(),
                                        off as int,
                                        off as int + length as int,
                                    )
                                    &&& d.args@.len() == params.len()
                                    &&& forall|i: int|
                                        0 <= i < params.len() ==> {
                                            let a = #[trigger] d.args@[i];
                                            let adocs = texts_of(
                                                t,
                                                spec_docs_of(t, params[i] as int),
                                            );
                                            &&& a.name@ == t[params[i] as int].text@
                                            &&& (adocs.len() == 0 ==> a.docs is None)
                                            &&& (adocs.len() > 0 ==> (a.docs matches Some(ad)
                                                && ad@ == join_texts(adocs, 0)))
                                        }
                                    &&& d.tooltip is None
                                },
                            },
                        }
                    }
                },
            },
    {
        let ghost t = tree.nodes@;
        match definition {
            None => Ok(
                TypstCoreDefinition {
                    name: None,
                    kind: None,
                    docs: None,
                    is_std: false,
                    is_fn: false,
                    args: Vec::new(),
                    def_span: None,
                    tooltip: None,
                },
            ),
            Some(DefinitionTarget::Std(value)) => {
                let name = value.value_name();
                let kind = value.value_kind();
                let docs = value.value_docs();
                Ok(
                    TypstCoreDefinition {
                        name,
                        kind,
                        docs,
                        is_std: true,
                        is_fn: false,
                        args: Vec::new(),
                        def_span: None,
                        tooltip: None,
                    },
                )
            },
            Some(DefinitionTarget::Span(node)) => {
                let off = tree.nodes[node].offset;
                let length = tree.nodes[node].length;
                if off > usize::MAX - length {
                    return Err(TypstCoreError::default_error("Failed to get range for span"));
                }
                let span = SpanData { id: Some(source.id.clone()), range: Some((off, off + length)) };
                let def_span = match TypstCoreRange::with_source(&span, source) {
                    Ok(v) => v,
                    Err(e) => {
                        return Err(e);
                    },
                };
                let parsed = match crate::ast::parse_let_binding(tree, node) {
                    Some(p) => p,
                    None => {
                        return Err(
                            TypstCoreError::default_error("Definition should be a let binding"),
                        );
                    },
                };
                proof {
                    assert(crate::ast::node_ok(t, node as int));
                }
                let is_fn = match &tree.nodes[node].parent {
                    Some(p) => match tree.nodes[*p].kind {
                        SyntaxKind::Closure => true,
                        _ => false,
                    },
                    None => {
                        return Err(
                            TypstCoreError::default_error(
                                "Let binding identifier should have a parent",
                            ),
                        );
                    },
                };
                let ((name, raw_docs), raw_args) = parsed;
                let ghost b = (spec_binding_name(t, node as int)->0).0;
                let ghost params = spec_binding_params(t, node as int);
                proof {
                    assert forall|i: int| 0 <= i < raw_docs@.len() implies views_of(
                        raw_docs@,
                    )[i] == texts_of(t, spec_docs_of(t, b as int))[i] by {}
                    assert(views_of(raw_docs@) =~= texts_of(t, spec_docs_of(t, b as int)));
                    assert forall|k: int| 0 <= k < raw_args@.len() implies {
                        let a = #[trigger] raw_args@[k];
                        &&& a.0@ == t[params[k] as int].text@
                        &&& views_of(a.1@) =~= texts_of(t, spec_docs_of(t, params[k] as int))
                    } by {
                        let a = raw_args@[k];
                        assert forall|j: int| 0 <= j < a.1@.len() implies views_of(a.1@)[j]
                            == texts_of(t, spec_docs_of(t, params[k] as int))[j] by {}
                    }
                }
                let docs = if raw_docs.len() == 0 {
                    None
                } else {
                    Some(join_lines(&raw_docs))
                };
                let count = raw_args.len();
                let mut args: Vec<Args> = Vec::new();
                let mut i: usize = 0;
                while i < count
                    invariant
                        t == tree.nodes@,
                        count == raw_args@.len(),
                        count == params.len(),
                        forall|k: int|
                            0 <= k < count ==> {
                                let a = #[trigger] raw_args@[k];
                                &&& a.0@ == t[params[k] as int].text@
                                &&& views_of(a.1@) =~= texts_of(
                                    t,
                                    spec_docs_of(t, params[k] as int),
                                )
                            },
                        0 <= i <= count,
                        args@.len() == i,
                        forall|k: int|
                            0 <= k < i ==> {
                                let a = #[trigger] args@[k];
                                let adocs = texts_of(t, spec_docs_of(t, params[k] as int));
                                &&& a.name@ == t[params[k] as int].text@
                                &&& (adocs.len() == 0 ==> a.docs is None)
                                &&& (adocs.len() > 0 ==> (a.docs matches Some(ad) && ad@
                                    == join_texts(adocs, 0)))
                            },
                    decreases count - i,
                {
                    let pair = &raw_args[i];
                    let txt = pair.0.clone();
                    let lines = pair.1.clone();
                    proof {
                        assert(lines@ =~= raw_args@[i as int].1@);
                        assert(views_of(lines@) =~= views_of(raw_args@[i as int].1@));
                    }
                    args.push(Args::from((txt, lines)));
                    i = i + 1;
                }
                Ok(
                    TypstCoreDefinition {
                        name: Some(name),
                        kind: None,
                        docs,
                        is_std: false,
                        is_fn,
                        args,
                        def_span: Some(def_span),
                        tooltip: None,
                    },
                )
            },
        }
    }
}

} // verus!
