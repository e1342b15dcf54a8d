//! Structural extraction: the kinds a declaration can have, what one
//! extracted declaration or import looks like, and the node-type tests that
//! decide what counts as a declaration.
use vstd::prelude::*;
use crate::text::{chars_eq, chars_eq_str, chars_of, push_str, str_eq};
pub use crate::parsers::constructs::Construct;

verus! {

/// A canonical declaration kind.
#[derive(Clone, Copy, Debug, PartialEq, Eq, Structural)]
pub enum SymbolKind {
    Function,
    Struct,
    Enum,
    Trait,
    Impl,
    Module,
    TypeAlias,
    Other,
}

/// One Rust declaration: its name, kind and 1-indexed inclusive line span.
#[derive(Clone, Debug, PartialEq, Eq)]
pub struct ExtractedSymbol {
    pub name: String,
    pub kind: SymbolKind,
    pub start_line: usize,
    pub end_line: usize,
}

#[derive(Debug, PartialEq, Eq, Structural)]
pub enum ParseError {
    LanguageLoad,
    Parse,
}

/// One extracted declaration: its name, the construct it participates in, its
/// 1-indexed source span, and whether it is exported (visible outside its
/// module). An exported declaration becomes a `provides` socket.
#[derive(Clone, Debug, PartialEq, Eq)]
pub struct ParsedSymbol {
    pub name: String,
    pub construct: Construct,
    pub start_line: usize,
    pub end_line: usize,
    pub exported: bool,
}

/// An `import` found in a source file: a shape the file needs another entity
/// to provide. `intra_repo` is true when the path is repository-relative by
/// syntax (`crate::`, `self::`, `super::`).
#[derive(Clone, Debug, PartialEq, Eq)]
pub struct ParsedImport {
    /// The path as written, e.g. `crate::widget::Widget`.
    pub path: String,
    /// The leaf item name matched on, e.g. `Widget`.
    pub item: String,
    pub intra_repo: bool,
    pub start_line: usize,
}

/// The Rust node types that root a whole file.
pub open spec fn is_root_container(t: Seq<char>) -> bool {
    t == "source_file"@ || t == "program"@ || t == "translation_unit"@ || t
        == "compilation_unit"@
}

/// Whether `node_type` roots a whole file and is never a declaration.
pub fn is_root_container_exec(node_type: &str) -> (r: bool)
    ensures
        r == is_root_container(node_type@),
{
    str_eq(node_type, "source_file") || str_eq(node_type, "program") || str_eq(
        node_type,
        "translation_unit",
    ) || str_eq(node_type, "compilation_unit")
}

/// The declaration kind of a Rust node type.
pub open spec fn kind_for_spec(t: Seq<char>) -> Option<SymbolKind> {
    if t == "function_item"@ || t == "function_signature_item"@ {
        Some(SymbolKind::Function)
    } else if t == "struct_item"@ {
        Some(SymbolKind::Struct)
    } else if t == "enum_item"@ {
        Some(SymbolKind::Enum)
    } else if t == "trait_item"@ {
        Some(SymbolKind::Trait)
    } else if t == "impl_item"@ {
        Some(SymbolKind::Impl)
    } else if t == "mod_item"@ {
        Some(SymbolKind::Module)
    } else if t == "type_item"@ {
        Some(SymbolKind::TypeAlias)
    } else {
        None
    }
}

/// The declaration kind of a Rust node type, if it declares something.
pub fn kind_for(node_type: &str) -> (r: Option<SymbolKind>)
    ensures
        r == kind_for_spec(node_type@),
{
    if str_eq(node_type, "function_item") || str_eq(node_type, "function_signature_item") {
        Some(SymbolKind::Function)
    } else if str_eq(node_type, "struct_item") {
        Some(SymbolKind::Struct)
    } else if str_eq(node_type, "enum_item") {
        Some(SymbolKind::Enum)
    } else if str_eq(node_type, "trait_item") {
        Some(SymbolKind::Trait)
    } else if str_eq(node_type, "impl_item") {
        Some(SymbolKind::Impl)
    } else if str_eq(node_type, "mod_item") {
        Some(SymbolKind::Module)
    } else if str_eq(node_type, "type_item") {
        Some(SymbolKind::TypeAlias)
    } else {
        None
    }
}

/// Node types that are declarations whatever their language.
pub open spec fn exact_declarations() -> Seq<Seq<char>> {
    seq![
        "class"@,
        "struct"@,
        "trait"@,
        "protocol"@,
        "interface"@,
        "enum"@,
        "impl"@,
        "namespace"@,
        "module"@,
        "package"@,
        "type_declaration"@,
    ]
}

/// Declaration families: a family name followed by a declaration suffix.
pub open spec fn declaration_families() -> Seq<Seq<char>> {
    seq![
        "function"@,
        "method"@,
        "class"@,
        "struct"@,
        "trait"@,
        "protocol"@,
        "interface"@,
        "enum"@,
        "impl"@,
        "namespace"@,
        "module"@,
        "type"@,
    ]
}

pub open spec fn declaration_suffixes() -> Seq<Seq<char>> {
    seq![
        "_declaration"@,
        "_definition"@,
        "_item"@,
        "_specifier"@,
        "_statement"@,
        "_signature"@,
        "_binding"@,
    ]
}

/// Whether a node type names a declaration in any language: one of an exact
/// set, or a family followed by a declaration suffix.
pub open spec fn is_declaration_spec(t: Seq<char>) -> bool {
    ||| exact_declarations().contains(t)
    ||| exists|f: int, x: int|
        0 <= f < declaration_families().len() && 0 <= x < declaration_suffixes().len() && t
            == #[trigger] declaration_families()[f] + #[trigger] declaration_suffixes()[x]
}

fn str_list_view(v: &[&str]) -> (r: Ghost<Seq<Seq<char>>>)
    ensures
        r@ == v@.map_values(|s: &str| s@),
{
    Ghost(v@.map_values(|s: &str| s@))
}

/// Whether a node type names a declaration in any language.
pub fn is_declaration(node_type: &str) -> (r: bool)
    ensures
        r == is_declaration_spec(node_type@),
{
    let exact: [&str; 11] = [
        "class",
        "struct",
        "trait",
        "protocol",
        "interface",
        "enum",
        "impl",
        "namespace",
        "module",
        "package",
        "type_declaration",
    ];
    let families: [&str; 12] = [
        "function",
        "method",
        "class",
        "struct",
        "trait",
        "protocol",
        "interface",
        "enum",
        "impl",
        "namespace",
        "module",
        "type",
    ];
    let suffixes: [&str; 7] = [
        "_declaration",
        "_definition",
        "_item",
        "_specifier",
        "_statement",
        "_signature",
        "_binding",
    ];
    let Ghost(ev) = str_list_view(exact.as_slice());
    let Ghost(fv) = str_list_view(families.as_slice());
    let Ghost(sv) = str_list_view(suffixes.as_slice());
    assert(ev =~= exact_declarations());
    assert(fv =~= declaration_families());
    assert(sv =~= declaration_suffixes());
    let t = chars_of(node_type);
    let mut i: usize = 0;
    while i < exact.len()
        invariant
            0 <= i <= exact.len(),
            t@ == node_type@,
            ev == exact@.map_values(|s: &str| s@),
            ev == exact_declarations(),
            forall|k: int| 0 <= k < i ==> ev[k] != t@,
        decreases exact.len() - i,
    {
        if chars_eq_str(&t, exact[i]) {
            assert(ev[i as int] == t@);
            return true;
        }
        i = i + 1;
    }
    assert(!exact_declarations().contains(t@));
    let mut f: usize = 0;
    while f < families.len()
        invariant
            0 <= f <= families.len(),
            t@ == node_type@,
            fv == families@.map_values(|s: &str| s@),
            sv == suffixes@.map_values(|s: &str| s@),
            fv == declaration_families(),
            sv == declaration_suffixes(),
            forall|a: int, b: int|
                0 <= a < f && 0 <= b < sv.len() ==> t@ != #[trigger] fv[a] + #[trigger] sv[b],
        decreases families.len() - f,
    {
        let mut x: usize = 0;
        while x < suffixes.len()
            invariant
                0 <= f < families.len(),
                0 <= x <= suffixes.len(),
                t@ == node_type@,
                fv == families@.map_values(|s: &str| s@),
                sv == suffixes@.map_values(|s: &str| s@),
                fv == declaration_families(),
                sv == declaration_suffixes(),
                forall|a: int, b: int|
                    0 <= a < f && 0 <= b < sv.len() ==> t@ != #[trigger] fv[a] + #[trigger] sv[b],
                forall|b: int| 0 <= b < x ==> t@ != fv[f as int] + #[trigger] sv[b],
            decreases suffixes.len() - x,
        {
            let mut candidate = String::from_str(families[f]);
            push_str(&mut candidate, suffixes[x]);
            let cv = chars_of(candidate.as_str());
            if chars_eq(&t, &cv) {
                assert(t@ == fv[f as int] + sv[x as int]);
                assert(declaration_families()[f as int] == fv[f as int]);
                assert(declaration_suffixes()[x as int] == sv[x as int]);
                return true;
            }
            x = x + 1;
        }
        f = f + 1;
    }
    false
}


/// Each Rust item node type declares its own kind: functions and function
/// signatures are functions, `struct_item` a struct, `enum_item` an enum,
/// `trait_item` a trait, `impl_item` an impl, `mod_item` a module and
/// `type_item` a type alias; any other node type declares nothing.
pub proof fn law_each_rust_item_declares_its_own_kind(t: Seq<char>)
    ensures
        t == "function_item"@ || t == "function_signature_item"@ ==> kind_for_spec(t) == Some(
            SymbolKind::Function,
        ),
        t == "struct_item"@ ==> kind_for_spec(t) == Some(SymbolKind::Struct),
        t == "enum_item"@ ==> kind_for_spec(t) == Some(SymbolKind::Enum),
        t == "trait_item"@ ==> kind_for_spec(t) == Some(SymbolKind::Trait),
        t == "impl_item"@ ==> kind_for_spec(t) == Some(SymbolKind::Impl),
        t == "mod_item"@ ==> kind_for_spec(t) == Some(SymbolKind::Module),
        t == "type_item"@ ==> kind_for_spec(t) == Some(SymbolKind::TypeAlias),
        !(t == "function_item"@ || t == "function_signature_item"@ || t == "struct_item"@ || t
            == "enum_item"@ || t == "trait_item"@ || t == "impl_item"@ || t == "mod_item"@ || t
            == "type_item"@) ==> kind_for_spec(t) is None,
{
    reveal_strlit("function_item");
    assert("function_item"@.len() == 13);
    reveal_strlit("function_signature_item");
    assert("function_signature_item"@.len() == 23);
    reveal_strlit("struct_item");
    assert("struct_item"@.len() == 11);
    reveal_strlit("enum_item");
    assert("enum_item"@.len() == 9);
    reveal_strlit("trait_item");
    assert("trait_item"@.len() == 10);
    reveal_strlit("impl_item");
    assert("impl_item"@.len() == 9);
    reveal_strlit("mod_item");
    assert("mod_item"@.len() == 8);
    reveal_strlit("type_item");
    assert("type_item"@.len() == 9);
    assert("enum_item"@[0] == 'e' && "impl_item"@[0] == 'i' && "type_item"@[0] == 't');
}


/// The node types that declare something in any language: the exact names
/// `class`, `struct`, `trait`, `protocol`, `interface`, `enum`, `impl`,
/// `namespace`, `module`, `package` and `type_declaration`, and every
/// family (`function`, `method`, `class`, `struct`, `trait`, `protocol`,
/// `interface`, `enum`, `impl`, `namespace`, `module`, `type`) followed by a
/// declaration suffix (`_declaration`, `_definition`, `_item`, `_specifier`,
/// `_statement`, `_signature`, `_binding`).
pub proof fn law_declarations_are_named_by_family_and_suffix(t: Seq<char>, f: Seq<char>, x: Seq<char>)
    ensures
        (t == "class"@ || t == "struct"@ || t == "trait"@ || t == "protocol"@ || t == "interface"@ || t == "enum"@ || t == "impl"@ || t == "namespace"@ || t == "module"@ || t == "package"@ || t == "type_declaration"@) ==> is_declaration_spec(t),
        (f == "function"@ || f == "method"@ || f == "class"@ || f == "struct"@ || f == "trait"@ || f == "protocol"@ || f == "interface"@ || f == "enum"@ || f == "impl"@ || f == "namespace"@ || f == "module"@ || f == "type"@) && (x == "_declaration"@ || x == "_definition"@ || x == "_item"@ || x == "_specifier"@ || x == "_statement"@ || x == "_signature"@ || x == "_binding"@) ==> is_declaration_spec(f + x),
{
    let e = exact_declarations();
    let fs = declaration_families();
    let xs = declaration_suffixes();
    if t == "class"@ { assert(e[0] == t); }
    if t == "struct"@ { assert(e[1] == t); }
    if t == "trait"@ { assert(e[2] == t); }
    if t == "protocol"@ { assert(e[3] == t); }
    if t == "interface"@ { assert(e[4] == t); }
    if t == "enum"@ { assert(e[5] == t); }
    if t == "impl"@ { assert(e[6] == t); }
    if t == "namespace"@ { assert(e[7] == t); }
    if t == "module"@ { assert(e[8] == t); }
    if t == "package"@ { assert(e[9] == t); }
    if t == "type_declaration"@ { assert(e[10] == t); }
    let fi: int = if f == "function"@ { 0 } else if f == "method"@ { 1 } else if f == "class"@ { 2 } else if f == "struct"@ { 3 } else if f == "trait"@ { 4 } else if f == "protocol"@ { 5 } else if f == "interface"@ { 6 } else if f == "enum"@ { 7 } else if f == "impl"@ { 8 } else if f == "namespace"@ { 9 } else if f == "module"@ { 10 } else if f == "type"@ { 11 } else { 0 };
    let xi: int = if x == "_declaration"@ { 0 } else if x == "_definition"@ { 1 } else if x == "_item"@ { 2 } else if x == "_specifier"@ { 3 } else if x == "_statement"@ { 4 } else if x == "_signature"@ { 5 } else if x == "_binding"@ { 6 } else { 0 };
    if (f == "function"@ || f == "method"@ || f == "class"@ || f == "struct"@ || f == "trait"@ || f == "protocol"@ || f == "interface"@ || f == "enum"@ || f == "impl"@ || f == "namespace"@ || f == "module"@ || f == "type"@) && (x == "_declaration"@ || x == "_definition"@ || x == "_item"@ || x == "_specifier"@ || x == "_statement"@ || x == "_signature"@ || x == "_binding"@) {
        assert(fs[fi] == f && xs[xi] == x);
        assert(f + x == fs[fi] + xs[xi]);
    }
}

} // verus!
