//! Structural extraction from a parse tree.
//!
//! A parse tree is held as `SyntaxNode`s: each node's type, whether it is
//! named, its source text, its 0-indexed start and end rows, the positions of
//! its `name` and `argument` field children, and its children in order. The
//! walks below visit a tree in pre-order: for each declaration node they
//! capture its name, construct and 1-indexed source span; for each `use`
//! declaration, the imports it names; inside macro token trees, the
//! identifiers a macro expands from.
use vstd::prelude::*;
use crate::parsers::adapter::{
    ExtractedSymbol, ParsedImport, ParsedSymbol, SymbolKind, is_declaration, is_declaration_spec,
    is_root_container, is_root_container_exec, kind_for, kind_for_spec,
};
use crate::parsers::constructs::{Construct, ConstructRegistry, resolve_spec};
use crate::parsers::imports::{expand_spec, expand_use_path, import_pairs, use_text_expandable, use_text_ok};
use crate::text::{chars_eq_str, chars_of, str_eq};

verus! {

/// One node of a parse tree.
#[derive(Debug)]
pub struct SyntaxNode {
    /// The grammar's node type, e.g. `function_item`.
    pub kind: String,
    pub is_named: bool,
    /// The node's source text, or `None` when its bytes are not valid UTF-8.
    pub text: Option<String>,
    /// 0-indexed row of the node's first byte.
    pub start_row: usize,
    /// 0-indexed row of the node's last byte.
    pub end_row: usize,
    /// Which child is the node's `name` field, if any.
    pub name_child: Option<usize>,
    /// Which child is the node's `argument` field, if any.
    pub argument_child: Option<usize>,
    pub children: Vec<SyntaxNode>,
}

/// A node's text as a name: present and non-empty.
pub open spec fn slice_spec(n: SyntaxNode) -> Option<Seq<char>> {
    match n.text {
        Some(t) => if t@.len() > 0 {
            Some(t@)
        } else {
            None
        },
        None => None,
    }
}

/// Node types that name a declaration directly.
pub open spec fn is_identifier_kind(k: Seq<char>) -> bool {
    k == "identifier"@ || k == "type_identifier"@ || k == "field_identifier"@ || k
        == "constant"@
}

/// The first child at or after `i` whose type is an identifier.
pub open spec fn first_identifier_child(cs: Seq<SyntaxNode>, i: int) -> Option<int>
    decreases cs.len() - i,
{
    if i < 0 || i >= cs.len() {
        None
    } else if is_identifier_kind(cs[i].kind@) {
        Some(i)
    } else {
        first_identifier_child(cs, i + 1)
    }
}

/// A declaration's name: its `name` field, else a direct identifier child,
/// else the shallowest name in its children, in order.
pub open spec fn declaration_name_spec(n: SyntaxNode) -> Option<Seq<char>>
    decreases n, 1int,
{
    match n.name_child {
        Some(i) if i < n.children@.len() => slice_spec(n.children@[i as int]),
        _ => match first_identifier_child(n.children@, 0) {
            Some(j) => slice_spec(n.children@[j]),
            None => first_name_in(n.children@),
        },
    }
}

/// The first child, in order, that yields a declaration name.
pub open spec fn first_name_in(cs: Seq<SyntaxNode>) -> Option<Seq<char>>
    decreases cs, 0int,
{
    if cs.len() == 0 {
        None
    } else {
        match declaration_name_spec(cs[0]) {
            Some(name) => Some(name),
            None => first_name_in(cs.drop_first()),
        }
    }
}

/// Every node's rows leave room for the 1-indexed line numbers.
pub open spec fn rows_fit(n: SyntaxNode) -> bool
    decreases n, 1int,
{
    n.start_row < usize::MAX && n.end_row < usize::MAX && rows_fit_all(n.children@)
}

pub open spec fn rows_fit_all(cs: Seq<SyntaxNode>) -> bool
    decreases cs, 0int,
{
    cs.len() == 0 || (rows_fit(cs[0]) && rows_fit_all(cs.drop_first()))
}

/// A node's text as a name: present and non-empty.
fn slice(node: &SyntaxNode) -> (r: Option<String>)
    ensures
        opt_view(r) == slice_spec(*node),
{
    match &node.text {
        Some(t) => {
            let cs = chars_of(t.as_str());
            if cs.len() > 0 {
                Some(t.clone())
            } else {
                None
            }
        },
        None => None,
    }
}

/// The view of an optional string.
pub open spec fn opt_view(r: Option<String>) -> Option<Seq<char>> {
    match r {
        Some(s) => Some(s@),
        None => None,
    }
}

fn is_identifier_kind_exec(k: &str) -> (r: bool)
    ensures
        r == is_identifier_kind(k@),
{
    str_eq(k, "identifier") || str_eq(k, "type_identifier") || str_eq(k, "field_identifier")
        || str_eq(k, "constant")
}

/// A declaration's name: its `name` field, else a direct identifier child,
/// else the shallowest name in its children.
pub fn declaration_name(node: &SyntaxNode) -> (r: Option<String>)
    ensures
        opt_view(r) == declaration_name_spec(*node),
    decreases node, 2int,
{
    if let Some(i) = node.name_child {
        if i < node.children.len() {
            return slice(&node.children[i]);
        }
    }
    let mut j: usize = 0;
    while j < node.children.len()
        invariant
            0 <= j <= node.children@.len(),
            !(node.name_child matches Some(i) && i < node.children@.len()),
            first_identifier_child(node.children@, 0) == first_identifier_child(
                node.children@,
                j as int,
            ),
        decreases node.children@.len() - j,
    {
        if is_identifier_kind_exec(node.children[j].kind.as_str()) {
            return slice(&node.children[j]);
        }
        j = j + 1;
    }
    first_name_in_exec(&node.children)
}

fn first_name_in_exec(cs: &Vec<SyntaxNode>) -> (r: Option<String>)
    ensures
        opt_view(r) == first_name_in(cs@),
    decreases cs@, 1int,
{
    let mut k: usize = 0;
    assert(cs@.skip(0) =~= cs@);
    while k < cs.len()
        invariant
            0 <= k <= cs@.len(),
            first_name_in(cs@) == first_name_in(cs@.skip(k as int)),
        decreases cs@.len() - k,
    {
        let ghost rest = cs@.skip(k as int);
        assert(rest[0] == cs@[k as int]);
        assert(rest.drop_first() =~= cs@.skip(k + 1));
        proof {
            assert(decreases_to!(cs@ => cs@[k as int]));
        }
        match declaration_name(&cs[k]) {
            Some(name) => {
                return Some(name);
            },
            None => {},
        }
        k = k + 1;
    }
    assert(cs@.skip(cs@.len() as int) =~= Seq::<SyntaxNode>::empty());
    None
}

/// One Rust declaration as plain values: name, kind, start and end lines.
pub type SymbolView = (Seq<char>, SymbolKind, int, int);

/// The Rust declaration a node is, if it is one.
pub open spec fn own_symbol(n: SyntaxNode) -> Seq<SymbolView> {
    if n.is_named && !is_root_container(n.kind@) && kind_for_spec(n.kind@) is Some {
        let name = match declaration_name_spec(n) {
            Some(x) => x,
            None => n.kind@,
        };
        seq![(name, kind_for_spec(n.kind@)->0, n.start_row + 1, n.end_row + 1)]
    } else {
        seq![]
    }
}

/// The Rust declarations of a tree, in pre-order.
pub open spec fn symbols_spec(n: SyntaxNode) -> Seq<SymbolView>
    decreases n, 1int,
{
    own_symbol(n) + symbols_list_spec(n.children@)
}

pub open spec fn symbols_list_spec(cs: Seq<SyntaxNode>) -> Seq<SymbolView>
    decreases cs, 0int,
{
    if cs.len() == 0 {
        seq![]
    } else {
        symbols_spec(cs[0]) + symbols_list_spec(cs.drop_first())
    }
}

pub open spec fn symbols_view(v: Seq<ExtractedSymbol>) -> Seq<SymbolView> {
    v.map_values(
        |x: ExtractedSymbol| (x.name@, x.kind, x.start_line as int, x.end_line as int),
    )
}

fn collect(node: &SyntaxNode, out: &mut Vec<ExtractedSymbol>)
    requires
        rows_fit(*node),
    ensures
        symbols_view(final(out)@) == symbols_view(old(out)@) + symbols_spec(*node),
    decreases node, 2int,
{
    let ghost start = symbols_view(out@);
    if node.is_named && !is_root_container_exec(node.kind.as_str()) {
        if let Some(kind) = kind_for(node.kind.as_str()) {
            let name = match declaration_name(node) {
                Some(n) => n,
                None => node.kind.clone(),
            };
            let sym = ExtractedSymbol {
                name,
                kind,
                start_line: node.start_row + 1,
                end_line: node.end_row + 1,
            };
            let ghost before = symbols_view(out@);
            out.push(sym);
            assert(symbols_view(out@) =~= before.push(
                (sym.name@, sym.kind, sym.start_line as int, sym.end_line as int),
            ));
        }
    }
    assert(symbols_view(out@) =~= start + own_symbol(*node));
    collect_children(&node.children, out);
    assert(symbols_view(out@) =~= start + symbols_spec(*node));
}

fn collect_children(cs: &Vec<SyntaxNode>, out: &mut Vec<ExtractedSymbol>)
    requires
        rows_fit_all(cs@),
    ensures
        symbols_view(final(out)@) == symbols_view(old(out)@) + symbols_list_spec(cs@),
    decreases cs@, 1int,
{
    let ghost start = symbols_view(out@);
    let mut k: usize = 0;
    assert(cs@.skip(0) =~= cs@);
    while k < cs.len()
        invariant
            0 <= k <= cs@.len(),
            rows_fit_all(cs@.skip(k as int)),
            symbols_view(out@) + symbols_list_spec(cs@.skip(k as int)) == start
                + symbols_list_spec(cs@),
        decreases cs@.len() - k,
    {
        let ghost rest = cs@.skip(k as int);
        assert(rest[0] == cs@[k as int]);
        assert(rest.drop_first() =~= cs@.skip(k + 1));
        let ghost before = symbols_view(out@);
        proof {
            assert(decreases_to!(cs@ => cs@[k as int]));
        }
        collect(&cs[k], out);
        assert(symbols_view(out@) + symbols_list_spec(cs@.skip(k + 1)) =~= before + (symbols_spec(
            cs@[k as int],
        ) + symbols_list_spec(cs@.skip(k + 1))));
        k = k + 1;
    }
    assert(cs@.skip(cs@.len() as int) =~= Seq::<SyntaxNode>::empty());
    assert(symbols_view(out@) =~= symbols_view(out@) + symbols_list_spec(Seq::<SyntaxNode>::empty()));
}

/// The Rust declarations of a parse tree, with name, kind and 1-indexed
/// inclusive line span, in pre-order.
pub fn extract_symbols(root: &SyntaxNode) -> (r: Vec<ExtractedSymbol>)
    requires
        rows_fit(*root),
    ensures
        symbols_view(r@) == symbols_spec(*root),
{
    let mut out: Vec<ExtractedSymbol> = Vec::new();
    collect(root, &mut out);
    assert(symbols_view(out@) =~= symbols_spec(*root));
    out
}

/// A construct as plain values.
pub enum ConstructView {
    Shared(Seq<char>),
    Native(Seq<char>, Seq<char>),
}

pub open spec fn construct_view(c: Construct) -> ConstructView {
    match c {
        Construct::Shared(s) => ConstructView::Shared(s@),
        Construct::Native(n) => ConstructView::Native(n.language@, n.name@),
    }
}

/// What the default catalogue resolves `(language, node)` to.
pub open spec fn resolved(language: Seq<char>, node: Seq<char>) -> ConstructView {
    match resolve_spec(crate::parsers::constructs::default_catalogue(), language, node) {
        Some(c) => ConstructView::Shared(c),
        None => ConstructView::Native(language, node),
    }
}

fn resolve_default(registry: &ConstructRegistry, language: &str, node_type: &str) -> (r: Construct)
    requires
        registry.catalogue() == crate::parsers::constructs::default_catalogue(),
    ensures
        construct_view(r) == resolved(language@, node_type@),
{
    registry.resolve(language, node_type)
}

/// A Rust declaration paired with its construct, as plain values.
pub open spec fn own_typed(n: SyntaxNode) -> Seq<(Seq<char>, ConstructView)> {
    if n.is_named && !is_root_container(n.kind@) && kind_for_spec(n.kind@) is Some {
        let name = match declaration_name_spec(n) {
            Some(x) => x,
            None => n.kind@,
        };
        seq![(name, resolved("rust"@, n.kind@))]
    } else {
        seq![]
    }
}

pub open spec fn typed_spec(n: SyntaxNode) -> Seq<(Seq<char>, ConstructView)>
    decreases n, 1int,
{
    own_typed(n) + typed_list_spec(n.children@)
}

pub open spec fn typed_list_spec(cs: Seq<SyntaxNode>) -> Seq<(Seq<char>, ConstructView)>
    decreases cs, 0int,
{
    if cs.len() == 0 {
        seq![]
    } else {
        typed_spec(cs[0]) + typed_list_spec(cs.drop_first())
    }
}

pub open spec fn typed_view(v: Seq<(String, Construct)>) -> Seq<(Seq<char>, ConstructView)> {
    v.map_values(|x: (String, Construct)| (x.0@, construct_view(x.1)))
}

fn collect_typed(node: &SyntaxNode, registry: &ConstructRegistry, out: &mut Vec<(String, Construct)>)
    requires
        registry.catalogue() == crate::parsers::constructs::default_catalogue(),
    ensures
        typed_view(final(out)@) == typed_view(old(out)@) + typed_spec(*node),
    decreases node, 2int,
{
    let ghost start = typed_view(out@);
    if node.is_named && !is_root_container_exec(node.kind.as_str()) && kind_for(
        node.kind.as_str(),
    ).is_some() {
        let name = match declaration_name(node) {
            Some(n) => n,
            None => node.kind.clone(),
        };
        let c = resolve_default(registry, "rust", node.kind.as_str());
        let ghost before = typed_view(out@);
        out.push((name, c));
        assert(typed_view(out@) =~= before.push((name@, construct_view(c))));
    }
    assert(typed_view(out@) =~= start + own_typed(*node));
    let cs = &node.children;
    let mut k: usize = 0;
    assert(cs@.skip(0) =~= cs@);
    while k < cs.len()
        invariant
            0 <= k <= cs@.len(),
            cs@ == node.children@,
            registry.catalogue() == crate::parsers::constructs::default_catalogue(),
            typed_view(out@) + typed_list_spec(cs@.skip(k as int)) == start + own_typed(*node)
                + typed_list_spec(cs@),
        decreases cs@.len() - k,
    {
        let ghost rest = cs@.skip(k as int);
        assert(rest[0] == cs@[k as int]);
        assert(rest.drop_first() =~= cs@.skip(k + 1));
        let ghost before = typed_view(out@);
        proof {
            assert(decreases_to!(node => node.children@[k as int]));
        }
        collect_typed(&cs[k], registry, out);
        assert(typed_view(out@) + typed_list_spec(cs@.skip(k + 1)) =~= before + (typed_spec(
            cs@[k as int],
        ) + typed_list_spec(cs@.skip(k + 1))));
        k = k + 1;
    }
    assert(cs@.skip(cs@.len() as int) =~= Seq::<SyntaxNode>::empty());
    assert(typed_view(out@) =~= start + typed_spec(*node));
}

/// The Rust declarations of a parse tree, each paired with the construct it
/// participates in, in pre-order.
pub fn extract_typed(root: &SyntaxNode) -> (r: Vec<(String, Construct)>)
    ensures
        typed_view(r@) == typed_spec(*root),
{
    let registry = ConstructRegistry::default_registry();
    let mut out: Vec<(String, Construct)> = Vec::new();
    collect_typed(root, &registry, &mut out);
    assert(typed_view(out@) =~= typed_spec(*root));
    out
}

/// A declaration is exported when it carries a visibility modifier child.
pub open spec fn is_exported_spec(n: SyntaxNode) -> bool {
    exists|i: int| 0 <= i < n.children@.len() && #[trigger] n.children@[i].kind@
        == "visibility_modifier"@
}

/// Whether a declaration node is exported (visible outside its module).
pub fn is_exported(node: &SyntaxNode) -> (r: bool)
    ensures
        r == is_exported_spec(*node),
{
    let mut i: usize = 0;
    while i < node.children.len()
        invariant
            0 <= i <= node.children@.len(),
            forall|j: int| 0 <= j < i ==> node.children@[j].kind@ != "visibility_modifier"@,
        decreases node.children@.len() - i,
    {
        if str_eq(node.children[i].kind.as_str(), "visibility_modifier") {
            return true;
        }
        i = i + 1;
    }
    false
}

/// One declaration as plain values: name, construct, start and end lines,
/// exported.
pub type DeclarationView = (Seq<char>, ConstructView, int, int, bool);

/// The declaration a node is, in the given language, if it is one.
pub open spec fn own_declaration(n: SyntaxNode, language: Seq<char>) -> Seq<DeclarationView> {
    if n.is_named && !is_root_container(n.kind@) && is_declaration_spec(n.kind@)
        && declaration_name_spec(n) is Some {
        seq![
            (
                declaration_name_spec(n)->0,
                resolved(language, n.kind@),
                n.start_row + 1,
                n.end_row + 1,
                is_exported_spec(n),
            ),
        ]
    } else {
        seq![]
    }
}

pub open spec fn declarations_spec(n: SyntaxNode, language: Seq<char>) -> Seq<DeclarationView>
    decreases n, 1int,
{
    own_declaration(n, language) + declarations_list_spec(n.children@, language)
}

pub open spec fn declarations_list_spec(cs: Seq<SyntaxNode>, language: Seq<char>) -> Seq<
    DeclarationView,
>
    decreases cs, 0int,
{
    if cs.len() == 0 {
        seq![]
    } else {
        declarations_spec(cs[0], language) + declarations_list_spec(cs.drop_first(), language)
    }
}

pub open spec fn declarations_view(v: Seq<ParsedSymbol>) -> Seq<DeclarationView> {
    v.map_values(
        |x: ParsedSymbol|
            (
                x.name@,
                construct_view(x.construct),
                x.start_line as int,
                x.end_line as int,
                x.exported,
            ),
    )
}

fn collect_declarations(
    node: &SyntaxNode,
    language_key: &str,
    registry: &ConstructRegistry,
    out: &mut Vec<ParsedSymbol>,
)
    requires
        registry.catalogue() == crate::parsers::constructs::default_catalogue(),
        rows_fit(*node),
    ensures
        declarations_view(final(out)@) == declarations_view(old(out)@) + declarations_spec(
            *node,
            language_key@,
        ),
    decreases node, 2int,
{
    let ghost start = declarations_view(out@);
    if node.is_named && !is_root_container_exec(node.kind.as_str()) && is_declaration(
        node.kind.as_str(),
    ) {
        if let Some(name) = declaration_name(node) {
            let sym = ParsedSymbol {
                name,
                construct: resolve_default(registry, language_key, node.kind.as_str()),
                start_line: node.start_row + 1,
                end_line: node.end_row + 1,
                exported: is_exported(node),
            };
            let ghost before = declarations_view(out@);
            out.push(sym);
            assert(declarations_view(out@) =~= before.push(
                (
                    sym.name@,
                    construct_view(sym.construct),
                    sym.start_line as int,
                    sym.end_line as int,
                    sym.exported,
                ),
            ));
        }
    }
    assert(declarations_view(out@) =~= start + own_declaration(*node, language_key@));
    collect_declarations_in(&node.children, language_key, registry, out);
    assert(declarations_view(out@) =~= start + declarations_spec(*node, language_key@));
}

fn collect_declarations_in(
    cs: &Vec<SyntaxNode>,
    language_key: &str,
    registry: &ConstructRegistry,
    out: &mut Vec<ParsedSymbol>,
)
    requires
        registry.catalogue() == crate::parsers::constructs::default_catalogue(),
        rows_fit_all(cs@),
    ensures
        declarations_view(final(out)@) == declarations_view(old(out)@) + declarations_list_spec(
            cs@,
            language_key@,
        ),
    decreases cs@, 1int,
{
    let ghost start = declarations_view(out@);
    let mut k: usize = 0;
    assert(cs@.skip(0) =~= cs@);
    while k < cs.len()
        invariant
            0 <= k <= cs@.len(),
            registry.catalogue() == crate::parsers::constructs::default_catalogue(),
            rows_fit_all(cs@.skip(k as int)),
            declarations_view(out@) + declarations_list_spec(cs@.skip(k as int), language_key@)
                == start + declarations_list_spec(cs@, language_key@),
        decreases cs@.len() - k,
    {
        let ghost rest = cs@.skip(k as int);
        assert(rest[0] == cs@[k as int]);
        assert(rest.drop_first() =~= cs@.skip(k + 1));
        let ghost before = declarations_view(out@);
        proof {
            assert(decreases_to!(cs@ => cs@[k as int]));
        }
        collect_declarations(&cs[k], language_key, registry, out);
        assert(declarations_view(out@) + declarations_list_spec(cs@.skip(k + 1), language_key@)
            =~= before + (declarations_spec(cs@[k as int], language_key@)
            + declarations_list_spec(cs@.skip(k + 1), language_key@)));
        k = k + 1;
    }
    assert(cs@.skip(cs@.len() as int) =~= Seq::<SyntaxNode>::empty());
    assert(declarations_view(out@) =~= declarations_view(out@) + declarations_list_spec(
        Seq::<SyntaxNode>::empty(),
        language_key@,
    ));
}

/// The declarations of a parse tree in the given language, with construct,
/// 1-indexed span and export status, in pre-order. The root is the file and
/// is never a declaration: only its children's subtrees are searched.
pub fn extract_declarations(root: &SyntaxNode, language_key: &str) -> (r: Vec<ParsedSymbol>)
    requires
        rows_fit(*root),
    ensures
        declarations_view(r@) == declarations_list_spec(root.children@, language_key@),
{
    let registry = ConstructRegistry::default_registry();
    let mut out: Vec<ParsedSymbol> = Vec::new();
    collect_declarations_in(&root.children, language_key, &registry, &mut out);
    assert(declarations_view(out@) =~= declarations_list_spec(root.children@, language_key@));
    out
}

/// The text of a `use` declaration's argument, if the node is one.
pub open spec fn use_argument(n: SyntaxNode) -> Option<Seq<char>> {
    if n.kind@ == "use_declaration"@ {
        match n.argument_child {
            Some(i) if i < n.children@.len() => slice_spec(n.children@[i as int]),
            _ => None,
        }
    } else {
        None
    }
}

/// Every `use` argument in the tree can be expanded.
pub open spec fn imports_ok(n: SyntaxNode) -> bool
    decreases n, 1int,
{
    (use_argument(n) matches Some(t) ==> use_text_ok(t)) && imports_ok_all(n.children@)
}

pub open spec fn imports_ok_all(cs: Seq<SyntaxNode>) -> bool
    decreases cs, 0int,
{
    cs.len() == 0 || (imports_ok(cs[0]) && imports_ok_all(cs.drop_first()))
}

/// One import as plain values: path, item, line.
pub type ImportView = (Seq<char>, Seq<char>, int);

/// The imports a node names itself.
pub open spec fn own_imports(n: SyntaxNode) -> Seq<ImportView> {
    match use_argument(n) {
        Some(t) => expand_spec(seq![], t).map_values(
            |p: (Seq<char>, Seq<char>)| (p.0, p.1, n.start_row + 1),
        ),
        None => seq![],
    }
}

pub open spec fn imports_spec(n: SyntaxNode) -> Seq<ImportView>
    decreases n, 1int,
{
    own_imports(n) + imports_list_spec(n.children@)
}

pub open spec fn imports_list_spec(cs: Seq<SyntaxNode>) -> Seq<ImportView>
    decreases cs, 0int,
{
    if cs.len() == 0 {
        seq![]
    } else {
        imports_spec(cs[0]) + imports_list_spec(cs.drop_first())
    }
}

pub open spec fn imports_view(v: Seq<ParsedImport>) -> Seq<ImportView> {
    v.map_values(|x: ParsedImport| (x.path@, x.item@, x.start_line as int))
}

fn collect_imports(node: &SyntaxNode, out: &mut Vec<ParsedImport>)
    requires
        imports_ok(*node),
        rows_fit(*node),
        forall|k: int| 0 <= k < old(out)@.len() ==> (#[trigger] old(out)@[k]).intra_repo,
    ensures
        imports_view(final(out)@) == imports_view(old(out)@) + imports_spec(*node),
        forall|k: int| 0 <= k < final(out)@.len() ==> (#[trigger] final(out)@[k]).intra_repo,
    decreases node, 2int,
{
    let ghost start = imports_view(out@);
    let ghost start_out = out@;
    if str_eq(node.kind.as_str(), "use_declaration") {
        if let Some(i) = node.argument_child {
            if i < node.children.len() {
                if let Some(text) = slice(&node.children[i]) {
                    expand_use_path(text.as_str(), node.start_row + 1, out);
                    proof {
                        let added = expand_spec(seq![], text@);
                        let n0 = start_out.len();
                        assert(use_argument(*node) == Some(text@));
                        assert(own_imports(*node).len() == added.len());
                        assert(import_pairs(out@).len() == import_pairs(start_out).len()
                            + added.len());
                        assert(out@.len() == n0 + added.len());
                        assert forall|k: int| 0 <= k < out@.len() implies imports_view(out@)[k]
                            == (start + own_imports(*node))[k] by {
                            if k < n0 {
                                assert(out@[k] == start_out[k]);
                            } else {
                                assert(import_pairs(out@)[k] == (import_pairs(start_out)
                                    + added)[k]);
                                assert(import_pairs(out@)[k] == added[k - n0]);
                                assert(out@[k].intra_repo);
                                assert(out@[k].start_line == node.start_row + 1);
                                assert(own_imports(*node)[k - n0] == (
                                    added[k - n0].0,
                                    added[k - n0].1,
                                    node.start_row + 1,
                                ));
                            }
                        }
                        assert(imports_view(out@) =~= start + own_imports(*node));
                    }
                }
            }
        }
    }
    assert(imports_view(out@) =~= start + own_imports(*node));
    let cs = &node.children;
    let ghost mid = imports_view(out@);
    let mut k: usize = 0;
    assert(cs@.skip(0) =~= cs@);
    while k < cs.len()
        invariant
            0 <= k <= cs@.len(),
            cs@ == node.children@,
            imports_ok_all(cs@.skip(k as int)),
            rows_fit_all(cs@.skip(k as int)),
            forall|m: int| 0 <= m < out@.len() ==> (#[trigger] out@[m]).intra_repo,
            imports_view(out@) + imports_list_spec(cs@.skip(k as int)) == mid
                + imports_list_spec(cs@),
        decreases cs@.len() - k,
    {
        let ghost rest = cs@.skip(k as int);
        assert(rest[0] == cs@[k as int]);
        assert(rest.drop_first() =~= cs@.skip(k + 1));
        let ghost before = imports_view(out@);
        proof {
            assert(decreases_to!(node => node.children@[k as int]));
        }
        collect_imports(&cs[k], out);
        assert(imports_view(out@) + imports_list_spec(cs@.skip(k + 1)) =~= before + (imports_spec(
            cs@[k as int],
        ) + imports_list_spec(cs@.skip(k + 1))));
        k = k + 1;
    }
    assert(cs@.skip(cs@.len() as int) =~= Seq::<SyntaxNode>::empty());
    assert(imports_view(out@) =~= start + imports_spec(*node));
}

/// Whether every row in the tree leaves room for a 1-indexed line number.
pub fn rows_fit_exec(node: &SyntaxNode) -> (r: bool)
    ensures
        r == rows_fit(*node),
    decreases node, 2int,
{
    if node.start_row == usize::MAX || node.end_row == usize::MAX {
        return false;
    }
    let cs = &node.children;
    let mut k: usize = 0;
    assert(cs@.skip(0) =~= cs@);
    while k < cs.len()
        invariant
            0 <= k <= cs@.len(),
            cs@ == node.children@,
            rows_fit_all(cs@) == rows_fit_all(cs@.skip(k as int)),
        decreases cs@.len() - k,
    {
        let ghost rest = cs@.skip(k as int);
        assert(rest[0] == cs@[k as int]);
        assert(rest.drop_first() =~= cs@.skip(k + 1));
        proof {
            assert(decreases_to!(node => node.children@[k as int]));
        }
        if !rows_fit_exec(&cs[k]) {
            return false;
        }
        k = k + 1;
    }
    assert(cs@.skip(cs@.len() as int) =~= Seq::<SyntaxNode>::empty());
    true
}

/// Whether `extract_imports` accepts the tree: every `use` argument can be
/// expanded and every row leaves room for a 1-indexed line number.
pub fn imports_expandable(node: &SyntaxNode) -> (r: bool)
    ensures
        r == (imports_ok(*node) && rows_fit(*node)),
    decreases node, 2int,
{
    if node.start_row == usize::MAX || node.end_row == usize::MAX {
        return false;
    }
    if str_eq(node.kind.as_str(), "use_declaration") {
        if let Some(i) = node.argument_child {
            if i < node.children.len() {
                if let Some(text) = slice(&node.children[i]) {
                    if !use_text_expandable(&chars_of(text.as_str())) {
                        return false;
                    }
                }
            }
        }
    }
    let cs = &node.children;
    let mut k: usize = 0;
    assert(cs@.skip(0) =~= cs@);
    while k < cs.len()
        invariant
            0 <= k <= cs@.len(),
            cs@ == node.children@,
            imports_ok_all(cs@) && rows_fit_all(cs@) <==> imports_ok_all(cs@.skip(k as int))
                && rows_fit_all(cs@.skip(k as int)),
        decreases cs@.len() - k,
    {
        let ghost rest = cs@.skip(k as int);
        assert(rest[0] == cs@[k as int]);
        assert(rest.drop_first() =~= cs@.skip(k + 1));
        proof {
            assert(decreases_to!(node => node.children@[k as int]));
        }
        if !imports_expandable(&cs[k]) {
            return false;
        }
        k = k + 1;
    }
    assert(cs@.skip(cs@.len() as int) =~= Seq::<SyntaxNode>::empty());
    true
}

/// Whether a language key is Rust, the one language whose imports and macro
/// names are extracted.
pub fn is_rust(language_key: &str) -> (r: bool)
    ensures
        r == (language_key@ == "rust"@),
{
    str_eq(language_key, "rust")
}

/// The intra-repository imports of a parse tree: Rust `use` declarations
/// only; every other language yields none.
pub fn extract_imports(root: &SyntaxNode, language_key: &str) -> (r: Vec<ParsedImport>)
    requires
        language_key@ == "rust"@ ==> imports_ok(*root) && rows_fit(*root),
    ensures
        language_key@ != "rust"@ ==> r@.len() == 0,
        language_key@ == "rust"@ ==> imports_view(r@) == imports_spec(*root),
        forall|k: int| 0 <= k < r@.len() ==> (#[trigger] r@[k]).intra_repo,
{
    let mut out: Vec<ParsedImport> = Vec::new();
    if !is_rust(language_key) {
        return out;
    }
    collect_imports(root, &mut out);
    assert(imports_view(out@) =~= imports_spec(*root));
    out
}

/// Identifier node types a macro argument can name.
pub open spec fn is_macro_name_kind(k: Seq<char>) -> bool {
    k == "identifier"@ || k == "type_identifier"@
}

pub open spec fn own_macro_name(n: SyntaxNode, in_macro: bool) -> Seq<Seq<char>> {
    let inside = in_macro || n.kind@ == "token_tree"@;
    if inside && is_macro_name_kind(n.kind@) && slice_spec(n) is Some {
        seq![slice_spec(n)->0]
    } else {
        seq![]
    }
}

/// The identifiers inside macro token trees, in pre-order.
pub open spec fn macro_names_spec(n: SyntaxNode, in_macro: bool) -> Seq<Seq<char>>
    decreases n, 1int,
{
    own_macro_name(n, in_macro) + macro_names_list_spec(
        n.children@,
        in_macro || n.kind@ == "token_tree"@,
    )
}

pub open spec fn macro_names_list_spec(cs: Seq<SyntaxNode>, in_macro: bool) -> Seq<Seq<char>>
    decreases cs, 0int,
{
    if cs.len() == 0 {
        seq![]
    } else {
        macro_names_spec(cs[0], in_macro) + macro_names_list_spec(cs.drop_first(), in_macro)
    }
}

pub open spec fn names_view(v: Seq<String>) -> Seq<Seq<char>> {
    v.map_values(|s: String| s@)
}

fn collect_macro_identifiers(node: &SyntaxNode, in_macro: bool, out: &mut Vec<String>)
    ensures
        names_view(final(out)@) == names_view(old(out)@) + macro_names_spec(*node, in_macro),
    decreases node, 2int,
{
    let ghost start = names_view(out@);
    let inside = in_macro || str_eq(node.kind.as_str(), "token_tree");
    if inside && (str_eq(node.kind.as_str(), "identifier") || str_eq(
        node.kind.as_str(),
        "type_identifier",
    )) {
        if let Some(name) = slice(node) {
            let ghost before = names_view(out@);
            out.push(name);
            assert(names_view(out@) =~= before.push(name@));
        }
    }
    assert(names_view(out@) =~= start + own_macro_name(*node, in_macro));
    let cs = &node.children;
    let ghost mid = names_view(out@);
    let mut k: usize = 0;
    assert(cs@.skip(0) =~= cs@);
    while k < cs.len()
        invariant
            0 <= k <= cs@.len(),
            cs@ == node.children@,
            inside == (in_macro || node.kind@ == "token_tree"@),
            names_view(out@) + macro_names_list_spec(cs@.skip(k as int), inside) == mid
                + macro_names_list_spec(cs@, inside),
        decreases cs@.len() - k,
    {
        let ghost rest = cs@.skip(k as int);
        assert(rest[0] == cs@[k as int]);
        assert(rest.drop_first() =~= cs@.skip(k + 1));
        let ghost before = names_view(out@);
        proof {
            assert(decreases_to!(node => node.children@[k as int]));
        }
        collect_macro_identifiers(&cs[k], inside, out);
        assert(names_view(out@) + macro_names_list_spec(cs@.skip(k + 1), inside) =~= before + (
        macro_names_spec(cs@[k as int], inside) + macro_names_list_spec(cs@.skip(k + 1), inside)));
        k = k + 1;
    }
    assert(cs@.skip(cs@.len() as int) =~= Seq::<SyntaxNode>::empty());
    assert(names_view(out@) =~= start + macro_names_spec(*node, in_macro));
}

/// Identifiers that appear inside a macro invocation's token tree: Rust
/// only; every other language yields none.
pub fn extract_macro_names(root: &SyntaxNode, language_key: &str) -> (r: Vec<String>)
    ensures
        language_key@ != "rust"@ ==> r@.len() == 0,
        language_key@ == "rust"@ ==> names_view(r@) == macro_names_spec(*root, false),
{
    let mut out: Vec<String> = Vec::new();
    if !is_rust(language_key) {
        return out;
    }
    collect_macro_identifiers(root, false, &mut out);
    assert(names_view(out@) =~= macro_names_spec(*root, false));
    out
}


/// A declaration spans exactly its node's rows, 1-indexed: it starts on the
/// line after the node's first row and ends on the line after its last, so a
/// declaration over several lines ends after it starts.
pub proof fn law_a_declaration_spans_its_node(n: SyntaxNode, language: Seq<char>)
    ensures
        forall|i: int|
            0 <= i < own_declaration(n, language).len() ==> {
                let d = #[trigger] own_declaration(n, language)[i];
                &&& d.2 == n.start_row + 1
                &&& d.3 == n.end_row + 1
                &&& (n.end_row > n.start_row ==> d.3 > d.2)
            },
        forall|i: int|
            0 <= i < own_symbol(n).len() ==> {
                let d = #[trigger] own_symbol(n)[i];
                &&& d.2 == n.start_row + 1
                &&& d.3 == n.end_row + 1
            },
{
}

} // verus!
