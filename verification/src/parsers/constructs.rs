//! The construct registry: a cross-language catalogue in which a *shared
//! construct* (canonical "function", "product_type", "behavioral_contract"…)
//! lists the *native constructs* — one language's node type — that participate
//! in it. Resolving a node type yields the shared construct it belongs to, or a
//! native construct when it is unique to its language.
use vstd::prelude::*;
use crate::text::{chars_eq, chars_of};

verus! {

/// One language's node type.
#[derive(Clone, Debug, PartialEq, Eq)]
pub struct NativeConstruct {
    pub language: String,
    pub name: String,
}

impl NativeConstruct {
    /// A native construct for `language`'s node type `name`.
    pub fn new(language: &str, name: &str) -> (r: Self)
        ensures
            r.language@ == language@,
            r.name@ == name@,
    {
        NativeConstruct { language: String::from_str(language), name: String::from_str(name) }
    }
}

/// A canonical concept and the native constructs that participate in it.
#[derive(Clone, Debug)]
pub struct SharedConstruct {
    pub canonical_name: String,
    pub members: Vec<NativeConstruct>,
}

/// A node type resolved either to the shared construct it participates in
/// (carrying the canonical name) or to a native construct unique to its
/// language.
#[derive(Clone, Debug, PartialEq, Eq)]
pub enum Construct {
    Shared(String),
    Native(NativeConstruct),
}

/// The catalogue of shared constructs.
pub struct ConstructRegistry {
    pub shared: Vec<SharedConstruct>,
}

/// A catalogue entry as plain values: the canonical name and its
/// `(language, node type)` members.
pub type CatalogueEntry = (Seq<char>, Seq<(Seq<char>, Seq<char>)>);

impl SharedConstruct {
    pub open spec fn entry(self) -> CatalogueEntry {
        (
            self.canonical_name@,
            self.members@.map_values(|m: NativeConstruct| (m.language@, m.name@)),
        )
    }
}

impl ConstructRegistry {
    /// The registry as plain values, in catalogue order.
    pub open spec fn catalogue(self) -> Seq<CatalogueEntry> {
        self.shared@.map_values(|s: SharedConstruct| s.entry())
    }
}

/// `(language, node)` is listed among `entry`'s members.
pub open spec fn lists(entry: CatalogueEntry, language: Seq<char>, node: Seq<char>) -> bool {
    entry.1.contains((language, node))
}

/// The canonical name of the first entry at or after `i` that lists
/// `(language, node)`.
pub open spec fn resolve_from(
    cat: Seq<CatalogueEntry>,
    language: Seq<char>,
    node: Seq<char>,
    i: int,
) -> Option<Seq<char>>
    decreases cat.len() - i,
{
    if i < 0 || i >= cat.len() {
        None
    } else if lists(cat[i], language, node) {
        Some(cat[i].0)
    } else {
        resolve_from(cat, language, node, i + 1)
    }
}

/// What a registry resolves `(language, node)` to: the canonical name of the
/// first shared construct listing it, or `None` when it stays native.
pub open spec fn resolve_spec(cat: Seq<CatalogueEntry>, language: Seq<char>, node: Seq<char>) -> Option<
    Seq<char>,
> {
    resolve_from(cat, language, node, 0)
}

proof fn lemma_resolve_from(cat: Seq<CatalogueEntry>, language: Seq<char>, node: Seq<char>, i: int)
    requires
        0 <= i,
    ensures
        resolve_from(cat, language, node, i) is None ==> forall|k: int|
            i <= k < cat.len() ==> !lists(#[trigger] cat[k], language, node),
        resolve_from(cat, language, node, i) matches Some(c) ==> exists|k: int|
            i <= k < cat.len() && lists(#[trigger] cat[k], language, node) && cat[k].0 == c,
    decreases cat.len() - i,
{
    if i < cat.len() && !lists(cat[i], language, node) {
        lemma_resolve_from(cat, language, node, i + 1);
    }
}

/// Whether `members` lists `(language, node)`.
fn members_contain(members: &Vec<NativeConstruct>, language: &Vec<char>, node: &Vec<char>) -> (r:
    bool)
    ensures
        r == members@.map_values(|m: NativeConstruct| (m.language@, m.name@)).contains(
            (language@, node@),
        ),
{
    let ghost mv = members@.map_values(|m: NativeConstruct| (m.language@, m.name@));
    let mut i: usize = 0;
    while i < members.len()
        invariant
            0 <= i <= members.len(),
            mv == members@.map_values(|m: NativeConstruct| (m.language@, m.name@)),
            forall|j: int| 0 <= j < i ==> mv[j] != (language@, node@),
        decreases members.len() - i,
    {
        let m = &members[i];
        let lang_chars = chars_of(m.language.as_str());
        let name_chars = chars_of(m.name.as_str());
        if chars_eq(&lang_chars, language) && chars_eq(&name_chars, node) {
            assert(mv[i as int] == (language@, node@));
            return true;
        }
        i = i + 1;
    }
    false
}

impl ConstructRegistry {
    /// Resolve a language's node type to its construct.
    pub fn resolve(&self, language: &str, node_type: &str) -> (r: Construct)
        ensures
            match r {
                Construct::Shared(c) => resolve_spec(self.catalogue(), language@, node_type@)
                    == Some(c@),
                Construct::Native(n) => resolve_spec(self.catalogue(), language@, node_type@)
                    is None && n.language@ == language@ && n.name@ == node_type@,
            },
    {
        let lang = chars_of(language);
        let node = chars_of(node_type);
        let ghost cat = self.catalogue();
        let mut i: usize = 0;
        while i < self.shared.len()
            invariant
                0 <= i <= self.shared.len(),
                cat == self.catalogue(),
                lang@ == language@,
                node@ == node_type@,
                resolve_spec(cat, lang@, node@) == resolve_from(cat, lang@, node@, i as int),
            decreases self.shared.len() - i,
        {
            let s = &self.shared[i];
            if members_contain(&s.members, &lang, &node) {
                return Construct::Shared(s.canonical_name.clone());
            }
            i = i + 1;
        }
        Construct::Native(NativeConstruct::new(language, node_type))
    }

    /// The default catalogue.
    pub fn default_registry() -> (r: Self)
        ensures
            r.catalogue() == default_catalogue(),
    {
        ConstructRegistry { shared: default_shared_constructs() }
    }
}

/// One catalogue entry built from literals.
fn make(canonical: &str, members: Vec<(&str, &str)>) -> (r: SharedConstruct)
    ensures
        r.entry() == (canonical@, members@.map_values(|p: (&str, &str)| (p.0@, p.1@))),
{
    let mut v: Vec<NativeConstruct> = Vec::new();
    let mut i: usize = 0;
    while i < members.len()
        invariant
            0 <= i <= members.len(),
            v@.len() == i,
            v@.map_values(|m: NativeConstruct| (m.language@, m.name@)) == members@.take(
                i as int,
            ).map_values(|p: (&str, &str)| (p.0@, p.1@)),
        decreases members.len() - i,
    {
        let pair = members[i];
        let ghost before = v@;
        let nc = NativeConstruct::new(pair.0, pair.1);
        v.push(nc);
        proof {
            let lhs = v@.map_values(|m: NativeConstruct| (m.language@, m.name@));
            let rhs = members@.take(i + 1).map_values(|p: (&str, &str)| (p.0@, p.1@));
            let prev = members@.take(i as int).map_values(|p: (&str, &str)| (p.0@, p.1@));
            assert forall|k: int| 0 <= k < i + 1 implies #[trigger] lhs[k] == rhs[k] by {
                if k < i {
                    assert(lhs[k] == before.map_values(
                        |m: NativeConstruct| (m.language@, m.name@),
                    )[k]);
                    assert(rhs[k] == prev[k]);
                }
            }
            assert(lhs =~= rhs);
        }
        i = i + 1;
    }
    assert(members@.take(members@.len() as int) =~= members@);
    SharedConstruct { canonical_name: String::from_str(canonical), members: v }
}

/// The members of the `function` construct.
pub open spec fn function_members() -> Seq<(Seq<char>, Seq<char>)> {
    seq![
        ("rust"@, "function_item"@),
        ("rust"@, "fn"@),
        ("python"@, "function_definition"@),
        ("go"@, "function_declaration"@),
        ("typescript"@, "function_declaration"@),
        ("javascript"@, "function_declaration"@),
        ("c"@, "function_definition"@),
        ("java"@, "method_declaration"@),
        ("swift"@, "function_declaration"@),
    ]
}

/// The members of the `product_type` construct.
pub open spec fn product_type_members() -> Seq<(Seq<char>, Seq<char>)> {
    seq![
        ("rust"@, "struct_item"@),
        ("go"@, "type_declaration"@),
        ("c"@, "struct_specifier"@),
        ("cpp"@, "struct_specifier"@),
        ("swift"@, "struct_declaration"@),
        ("csharp"@, "struct_declaration"@),
        ("haskell"@, "data_declaration"@),
    ]
}

/// The members of the `behavioral_contract` construct.
pub open spec fn behavioral_contract_members() -> Seq<(Seq<char>, Seq<char>)> {
    seq![
        ("rust"@, "trait_item"@),
        ("go"@, "interface_type"@),
        ("java"@, "interface_declaration"@),
        ("typescript"@, "interface_declaration"@),
        ("swift"@, "protocol_declaration"@),
        ("scala"@, "trait_definition"@),
    ]
}

/// The members of the `enumeration` construct.
pub open spec fn enumeration_members() -> Seq<(Seq<char>, Seq<char>)> {
    seq![
        ("rust"@, "enum_item"@),
        ("swift"@, "enum_declaration"@),
        ("java"@, "enum_declaration"@),
        ("typescript"@, "enum_declaration"@),
        ("c"@, "enum_specifier"@),
    ]
}

/// The members of the `type_alias` construct.
pub open spec fn type_alias_members() -> Seq<(Seq<char>, Seq<char>)> {
    seq![
        ("rust"@, "type_item"@),
        ("typescript"@, "type_alias_declaration"@),
        ("go"@, "type_alias"@),
        ("swift"@, "typealias_declaration"@),
    ]
}

/// The members of the `extension` construct.
pub open spec fn extension_members() -> Seq<(Seq<char>, Seq<char>)> {
    seq![
        ("rust"@, "impl_item"@),
        ("swift"@, "extension_declaration"@),
        ("csharp"@, "extension"@),
    ]
}

/// The members of the `module` construct.
pub open spec fn module_members() -> Seq<(Seq<char>, Seq<char>)> {
    seq![
        ("rust"@, "mod_item"@),
        ("rust"@, "mod"@),
        ("python"@, "module"@),
        ("go"@, "package_clause"@),
        ("java"@, "package_declaration"@),
    ]
}

/// The members of the `class` construct.
pub open spec fn class_members() -> Seq<(Seq<char>, Seq<char>)> {
    seq![
        ("java"@, "class_declaration"@),
        ("python"@, "class_definition"@),
        ("cpp"@, "class_specifier"@),
        ("swift"@, "class_declaration"@),
        ("typescript"@, "class_declaration"@),
        ("csharp"@, "class_declaration"@),
    ]
}

/// The default catalogue as plain values: each canonical construct and its
/// `(language, node type)` members, in resolution order.
pub open spec fn default_catalogue() -> Seq<CatalogueEntry> {
    seq![
        ("function"@, function_members()),
        ("product_type"@, product_type_members()),
        ("behavioral_contract"@, behavioral_contract_members()),
        ("enumeration"@, enumeration_members()),
        ("type_alias"@, type_alias_members()),
        ("extension"@, extension_members()),
        ("module"@, module_members()),
        ("class"@, class_members()),
    ]
}

/// Build the shared-construct catalogue.
fn default_shared_constructs() -> (r: Vec<SharedConstruct>)
    ensures
        r@.map_values(|s: SharedConstruct| s.entry()) == default_catalogue(),
{
    let members = vec![
        ("rust", "function_item"),
        ("rust", "fn"),
        ("python", "function_definition"),
        ("go", "function_declaration"),
        ("typescript", "function_declaration"),
        ("javascript", "function_declaration"),
        ("c", "function_definition"),
        ("java", "method_declaration"),
        ("swift", "function_declaration"),
    ];
    assert(members@.map_values(|p: (&str, &str)| (p.0@, p.1@)) =~= function_members());
    let entry0 = make("function", members);
    let members = vec![
        ("rust", "struct_item"),
        ("go", "type_declaration"),
        ("c", "struct_specifier"),
        ("cpp", "struct_specifier"),
        ("swift", "struct_declaration"),
        ("csharp", "struct_declaration"),
        ("haskell", "data_declaration"),
    ];
    assert(members@.map_values(|p: (&str, &str)| (p.0@, p.1@)) =~= product_type_members());
    let entry1 = make("product_type", members);
    let members = vec![
        ("rust", "trait_item"),
        ("go", "interface_type"),
        ("java", "interface_declaration"),
        ("typescript", "interface_declaration"),
        ("swift", "protocol_declaration"),
        ("scala", "trait_definition"),
    ];
    assert(members@.map_values(|p: (&str, &str)| (p.0@, p.1@)) =~= behavioral_contract_members());
    let entry2 = make("behavioral_contract", members);
    let members = vec![
        ("rust", "enum_item"),
        ("swift", "enum_declaration"),
        ("java", "enum_declaration"),
        ("typescript", "enum_declaration"),
        ("c", "enum_specifier"),
    ];
    assert(members@.map_values(|p: (&str, &str)| (p.0@, p.1@)) =~= enumeration_members());
    let entry3 = make("enumeration", members);
    let members = vec![
        ("rust", "type_item"),
        ("typescript", "type_alias_declaration"),
        ("go", "type_alias"),
        ("swift", "typealias_declaration"),
    ];
    assert(members@.map_values(|p: (&str, &str)| (p.0@, p.1@)) =~= type_alias_members());
    let entry4 = make("type_alias", members);
    let members = vec![
        ("rust", "impl_item"),
        ("swift", "extension_declaration"),
        ("csharp", "extension"),
    ];
    assert(members@.map_values(|p: (&str, &str)| (p.0@, p.1@)) =~= extension_members());
    let entry5 = make("extension", members);
    let members = vec![
        ("rust", "mod_item"),
        ("rust", "mod"),
        ("python", "module"),
        ("go", "package_clause"),
        ("java", "package_declaration"),
    ];
    assert(members@.map_values(|p: (&str, &str)| (p.0@, p.1@)) =~= module_members());
    let entry6 = make("module", members);
    let members = vec![
        ("java", "class_declaration"),
        ("python", "class_definition"),
        ("cpp", "class_specifier"),
        ("swift", "class_declaration"),
        ("typescript", "class_declaration"),
        ("csharp", "class_declaration"),
    ];
    assert(members@.map_values(|p: (&str, &str)| (p.0@, p.1@)) =~= class_members());
    let entry7 = make("class", members);
    let r = vec![entry0, entry1, entry2, entry3, entry4, entry5, entry6, entry7];
    assert(r@.map_values(|s: SharedConstruct| s.entry()) =~= default_catalogue());
    r
}

} // verus!

verus! {

/// Every shared construct of the default catalogue has its own canonical
/// name, and no `(language, node type)` is a member of two of them, so what
/// a node type resolves to never depends on the order of the catalogue.
#[verifier::rlimit(100)]
pub proof fn law_the_default_catalogue_is_unambiguous()
    ensures
        forall|i: int, j: int|
            0 <= i < j < default_catalogue().len() ==> default_catalogue()[i].0
                != default_catalogue()[j].0,
        forall|i: int, j: int, l: Seq<char>, n: Seq<char>|
            #![trigger lists(default_catalogue()[i], l, n), lists(default_catalogue()[j], l, n)]
            0 <= i < j < default_catalogue().len() && lists(default_catalogue()[i], l, n) ==> !lists(
                default_catalogue()[j],
                l,
                n,
            ),
{
    reveal_strlit("behavioral_contract");
    reveal_strlit("c");
    reveal_strlit("class");
    reveal_strlit("class_declaration");
    reveal_strlit("class_definition");
    reveal_strlit("class_specifier");
    reveal_strlit("cpp");
    reveal_strlit("csharp");
    reveal_strlit("data_declaration");
    reveal_strlit("enum_declaration");
    reveal_strlit("enum_item");
    reveal_strlit("enum_specifier");
    reveal_strlit("enumeration");
    reveal_strlit("extension");
    reveal_strlit("extension_declaration");
    reveal_strlit("fn");
    reveal_strlit("function");
    reveal_strlit("function_declaration");
    reveal_strlit("function_definition");
    reveal_strlit("function_item");
    reveal_strlit("go");
    reveal_strlit("haskell");
    reveal_strlit("impl_item");
    reveal_strlit("interface_declaration");
    reveal_strlit("interface_type");
    reveal_strlit("java");
    reveal_strlit("javascript");
    reveal_strlit("method_declaration");
    reveal_strlit("mod");
    reveal_strlit("mod_item");
    reveal_strlit("module");
    reveal_strlit("package_clause");
    reveal_strlit("package_declaration");
    reveal_strlit("product_type");
    reveal_strlit("protocol_declaration");
    reveal_strlit("python");
    reveal_strlit("rust");
    reveal_strlit("scala");
    reveal_strlit("struct_declaration");
    reveal_strlit("struct_item");
    reveal_strlit("struct_specifier");
    reveal_strlit("swift");
    reveal_strlit("trait_definition");
    reveal_strlit("trait_item");
    reveal_strlit("type_alias");
    reveal_strlit("type_alias_declaration");
    reveal_strlit("type_declaration");
    reveal_strlit("type_item");
    reveal_strlit("typealias_declaration");
    reveal_strlit("typescript");
    let c = default_catalogue();
    assert(c.len() == 8);
    assert(c[0] == ("function"@, function_members()));
    assert(c[0].0.len() == 8);
    assert(c[1] == ("product_type"@, product_type_members()));
    assert(c[1].0.len() == 12);
    assert(c[2] == ("behavioral_contract"@, behavioral_contract_members()));
    assert(c[2].0.len() == 19);
    assert(c[3] == ("enumeration"@, enumeration_members()));
    assert(c[3].0.len() == 11);
    assert(c[4] == ("type_alias"@, type_alias_members()));
    assert(c[4].0.len() == 10);
    assert(c[5] == ("extension"@, extension_members()));
    assert(c[5].0.len() == 9);
    assert(c[6] == ("module"@, module_members()));
    assert(c[6].0.len() == 6);
    assert(c[7] == ("class"@, class_members()));
    assert(c[7].0.len() == 5);
    assert forall|i: int, j: int| 0 <= i < j < c.len() implies c[i].0 != c[j].0 by {
        assert(i == 0 || i == 1 || i == 2 || i == 3 || i == 4 || i == 5 || i == 6);
        assert(j == 1 || j == 2 || j == 3 || j == 4 || j == 5 || j == 6 || j == 7);
    }
    assert(function_members().len() == 9);
    assert(function_members()[0] == ("rust"@, "function_item"@));
    assert(function_members()[1] == ("rust"@, "fn"@));
    assert(function_members()[2] == ("python"@, "function_definition"@));
    assert(function_members()[3] == ("go"@, "function_declaration"@));
    assert(function_members()[4] == ("typescript"@, "function_declaration"@));
    assert(function_members()[5] == ("javascript"@, "function_declaration"@));
    assert(function_members()[6] == ("c"@, "function_definition"@));
    assert(function_members()[7] == ("java"@, "method_declaration"@));
    assert(function_members()[8] == ("swift"@, "function_declaration"@));
    assert(product_type_members().len() == 7);
    assert(product_type_members()[0] == ("rust"@, "struct_item"@));
    assert(product_type_members()[1] == ("go"@, "type_declaration"@));
    assert(product_type_members()[2] == ("c"@, "struct_specifier"@));
    assert(product_type_members()[3] == ("cpp"@, "struct_specifier"@));
    assert(product_type_members()[4] == ("swift"@, "struct_declaration"@));
    assert(product_type_members()[5] == ("csharp"@, "struct_declaration"@));
    assert(product_type_members()[6] == ("haskell"@, "data_declaration"@));
    assert(behavioral_contract_members().len() == 6);
    assert(behavioral_contract_members()[0] == ("rust"@, "trait_item"@));
    assert(behavioral_contract_members()[1] == ("go"@, "interface_type"@));
    assert(behavioral_contract_members()[2] == ("java"@, "interface_declaration"@));
    assert(behavioral_contract_members()[3] == ("typescript"@, "interface_declaration"@));
    assert(behavioral_contract_members()[4] == ("swift"@, "protocol_declaration"@));
    assert(behavioral_contract_members()[5] == ("scala"@, "trait_definition"@));
    assert(enumeration_members().len() == 5);
    assert(enumeration_members()[0] == ("rust"@, "enum_item"@));
    assert(enumeration_members()[1] == ("swift"@, "enum_declaration"@));
    assert(enumeration_members()[2] == ("java"@, "enum_declaration"@));
    assert(enumeration_members()[3] == ("typescript"@, "enum_declaration"@));
    assert(enumeration_members()[4] == ("c"@, "enum_specifier"@));
    assert(type_alias_members().len() == 4);
    assert(type_alias_members()[0] == ("rust"@, "type_item"@));
    assert(type_alias_members()[1] == ("typescript"@, "type_alias_declaration"@));
    assert(type_alias_members()[2] == ("go"@, "type_alias"@));
    assert(type_alias_members()[3] == ("swift"@, "typealias_declaration"@));
    assert(extension_members().len() == 3);
    assert(extension_members()[0] == ("rust"@, "impl_item"@));
    assert(extension_members()[1] == ("swift"@, "extension_declaration"@));
    assert(extension_members()[2] == ("csharp"@, "extension"@));
    assert(module_members().len() == 5);
    assert(module_members()[0] == ("rust"@, "mod_item"@));
    assert(module_members()[1] == ("rust"@, "mod"@));
    assert(module_members()[2] == ("python"@, "module"@));
    assert(module_members()[3] == ("go"@, "package_clause"@));
    assert(module_members()[4] == ("java"@, "package_declaration"@));
    assert(class_members().len() == 6);
    assert(class_members()[0] == ("java"@, "class_declaration"@));
    assert(class_members()[1] == ("python"@, "class_definition"@));
    assert(class_members()[2] == ("cpp"@, "class_specifier"@));
    assert(class_members()[3] == ("swift"@, "class_declaration"@));
    assert(class_members()[4] == ("typescript"@, "class_declaration"@));
    assert(class_members()[5] == ("csharp"@, "class_declaration"@));
    assert("behavioral_contract"@.len() == 19);
    assert("c"@.len() == 1);
    assert("class"@.len() == 5);
    assert("class_declaration"@.len() == 17);
    assert("class_definition"@.len() == 16);
    assert("class_specifier"@.len() == 15);
    assert("cpp"@.len() == 3);
    assert("csharp"@.len() == 6);
    assert("data_declaration"@.len() == 16);
    assert("enum_declaration"@.len() == 16);
    assert("enum_item"@.len() == 9);
    assert("enum_specifier"@.len() == 14);
    assert("enumeration"@.len() == 11);
    assert("extension"@.len() == 9);
    assert("extension_declaration"@.len() == 21);
    assert("fn"@.len() == 2);
    assert("function"@.len() == 8);
    assert("function_declaration"@.len() == 20);
    assert("function_definition"@.len() == 19);
    assert("function_item"@.len() == 13);
    assert("go"@.len() == 2);
    assert("haskell"@.len() == 7);
    assert("impl_item"@.len() == 9);
    assert("interface_declaration"@.len() == 21);
    assert("interface_type"@.len() == 14);
    assert("java"@.len() == 4);
    assert("javascript"@.len() == 10);
    assert("method_declaration"@.len() == 18);
    assert("mod"@.len() == 3);
    assert("mod_item"@.len() == 8);
    assert("module"@.len() == 6);
    assert("package_clause"@.len() == 14);
    assert("package_declaration"@.len() == 19);
    assert("product_type"@.len() == 12);
    assert("protocol_declaration"@.len() == 20);
    assert("python"@.len() == 6);
    assert("rust"@.len() == 4);
    assert("scala"@.len() == 5);
    assert("struct_declaration"@.len() == 18);
    assert("struct_item"@.len() == 11);
    assert("struct_specifier"@.len() == 16);
    assert("swift"@.len() == 5);
    assert("trait_definition"@.len() == 16);
    assert("trait_item"@.len() == 10);
    assert("type_alias"@.len() == 10);
    assert("type_alias_declaration"@.len() == 22);
    assert("type_declaration"@.len() == 16);
    assert("type_item"@.len() == 9);
    assert("typealias_declaration"@.len() == 21);
    assert("typescript"@.len() == 10);
    assert("function_declaration"@[0] == 'f' && "protocol_declaration"@[0] == 'p');
    assert("scala"@[1] == 'c' && "swift"@[1] == 'w');
    assert("interface_type"@[0] == 'i' && "package_clause"@[0] == 'p');
    assert("enum_item"@[0] == 'e' && "type_item"@[0] == 't' && "impl_item"@[0] == 'i');
    assert("typealias_declaration"@[0] == 't' && "extension_declaration"@[0] == 'e');
    assert forall|i: int, j: int, l: Seq<char>, n: Seq<char>|
        #![trigger lists(c[i], l, n), lists(c[j], l, n)]
        0 <= i < j < c.len() && lists(c[i], l, n) implies !lists(c[j], l, n) by {
        if lists(c[j], l, n) {
            let k = choose|k: int| 0 <= k < c[i].1.len() && c[i].1[k] == (l, n);
            let m = choose|m: int| 0 <= m < c[j].1.len() && c[j].1[m] == (l, n);
            assert(i == 0 || i == 1 || i == 2 || i == 3 || i == 4 || i == 5 || i == 6);
            assert(j == 1 || j == 2 || j == 3 || j == 4 || j == 5 || j == 6 || j == 7);
            assert(k == 0 || k == 1 || k == 2 || k == 3 || k == 4 || k == 5 || k == 6 || k == 7
                || k == 8);
            assert(m == 0 || m == 1 || m == 2 || m == 3 || m == 4 || m == 5 || m == 6 || m == 7
                || m == 8);
        }
    }
}


proof fn lemma_first_listing_resolves(
    cat: Seq<CatalogueEntry>,
    language: Seq<char>,
    node: Seq<char>,
    i: int,
    k: int,
)
    requires
        0 <= i <= k < cat.len(),
        lists(cat[k], language, node),
        forall|j: int| i <= j < k ==> !lists(#[trigger] cat[j], language, node),
    ensures
        resolve_from(cat, language, node, i) == Some(cat[k].0),
    decreases k - i,
{
    if i < k {
        lemma_first_listing_resolves(cat, language, node, i + 1, k);
    }
}

/// Each member of the default catalogue resolves to its shared construct:
/// every listed `(language, node type)` pair names the canonical construct
/// it is listed under.
#[verifier::rlimit(100)]
pub proof fn law_each_member_resolves_to_its_construct(language: Seq<char>, node: Seq<char>)
    ensures
        language == "rust"@ && node == "function_item"@ ==> resolve_spec(default_catalogue(), language, node) == Some("function"@),
        language == "rust"@ && node == "fn"@ ==> resolve_spec(default_catalogue(), language, node) == Some("function"@),
        language == "python"@ && node == "function_definition"@ ==> resolve_spec(default_catalogue(), language, node) == Some("function"@),
        language == "go"@ && node == "function_declaration"@ ==> resolve_spec(default_catalogue(), language, node) == Some("function"@),
        language == "typescript"@ && node == "function_declaration"@ ==> resolve_spec(default_catalogue(), language, node) == Some("function"@),
        language == "javascript"@ && node == "function_declaration"@ ==> resolve_spec(default_catalogue(), language, node) == Some("function"@),
        language == "c"@ && node == "function_definition"@ ==> resolve_spec(default_catalogue(), language, node) == Some("function"@),
        language == "java"@ && node == "method_declaration"@ ==> resolve_spec(default_catalogue(), language, node) == Some("function"@),
        language == "swift"@ && node == "function_declaration"@ ==> resolve_spec(default_catalogue(), language, node) == Some("function"@),
        language == "rust"@ && node == "struct_item"@ ==> resolve_spec(default_catalogue(), language, node) == Some("product_type"@),
        language == "go"@ && node == "type_declaration"@ ==> resolve_spec(default_catalogue(), language, node) == Some("product_type"@),
        language == "c"@ && node == "struct_specifier"@ ==> resolve_spec(default_catalogue(), language, node) == Some("product_type"@),
        language == "cpp"@ && node == "struct_specifier"@ ==> resolve_spec(default_catalogue(), language, node) == Some("product_type"@),
        language == "swift"@ && node == "struct_declaration"@ ==> resolve_spec(default_catalogue(), language, node) == Some("product_type"@),
        language == "csharp"@ && node == "struct_declaration"@ ==> resolve_spec(default_catalogue(), language, node) == Some("product_type"@),
        language == "haskell"@ && node == "data_declaration"@ ==> resolve_spec(default_catalogue(), language, node) == Some("product_type"@),
        language == "rust"@ && node == "trait_item"@ ==> resolve_spec(default_catalogue(), language, node) == Some("behavioral_contract"@),
        language == "go"@ && node == "interface_type"@ ==> resolve_spec(default_catalogue(), language, node) == Some("behavioral_contract"@),
        language == "java"@ && node == "interface_declaration"@ ==> resolve_spec(default_catalogue(), language, node) == Some("behavioral_contract"@),
        language == "typescript"@ && node == "interface_declaration"@ ==> resolve_spec(default_catalogue(), language, node) == Some("behavioral_contract"@),
        language == "swift"@ && node == "protocol_declaration"@ ==> resolve_spec(default_catalogue(), language, node) == Some("behavioral_contract"@),
        language == "scala"@ && node == "trait_definition"@ ==> resolve_spec(default_catalogue(), language, node) == Some("behavioral_contract"@),
        language == "rust"@ && node == "enum_item"@ ==> resolve_spec(default_catalogue(), language, node) == Some("enumeration"@),
        language == "swift"@ && node == "enum_declaration"@ ==> resolve_spec(default_catalogue(), language, node) == Some("enumeration"@),
        language == "java"@ && node == "enum_declaration"@ ==> resolve_spec(default_catalogue(), language, node) == Some("enumeration"@),
        language == "typescript"@ && node == "enum_declaration"@ ==> resolve_spec(default_catalogue(), language, node) == Some("enumeration"@),
        language == "c"@ && node == "enum_specifier"@ ==> resolve_spec(default_catalogue(), language, node) == Some("enumeration"@),
        language == "rust"@ && node == "type_item"@ ==> resolve_spec(default_catalogue(), language, node) == Some("type_alias"@),
        language == "typescript"@ && node == "type_alias_declaration"@ ==> resolve_spec(default_catalogue(), language, node) == Some("type_alias"@),
        language == "go"@ && node == "type_alias"@ ==> resolve_spec(default_catalogue(), language, node) == Some("type_alias"@),
        language == "swift"@ && node == "typealias_declaration"@ ==> resolve_spec(default_catalogue(), language, node) == Some("type_alias"@),
        language == "rust"@ && node == "impl_item"@ ==> resolve_spec(default_catalogue(), language, node) == Some("extension"@),
        language == "swift"@ && node == "extension_declaration"@ ==> resolve_spec(default_catalogue(), language, node) == Some("extension"@),
        language == "csharp"@ && node == "extension"@ ==> resolve_spec(default_catalogue(), language, node) == Some("extension"@),
        language == "rust"@ && node == "mod_item"@ ==> resolve_spec(default_catalogue(), language, node) == Some("module"@),
        language == "rust"@ && node == "mod"@ ==> resolve_spec(default_catalogue(), language, node) == Some("module"@),
        language == "python"@ && node == "module"@ ==> resolve_spec(default_catalogue(), language, node) == Some("module"@),
        language == "go"@ && node == "package_clause"@ ==> resolve_spec(default_catalogue(), language, node) == Some("module"@),
        language == "java"@ && node == "package_declaration"@ ==> resolve_spec(default_catalogue(), language, node) == Some("module"@),
        language == "java"@ && node == "class_declaration"@ ==> resolve_spec(default_catalogue(), language, node) == Some("class"@),
        language == "python"@ && node == "class_definition"@ ==> resolve_spec(default_catalogue(), language, node) == Some("class"@),
        language == "cpp"@ && node == "class_specifier"@ ==> resolve_spec(default_catalogue(), language, node) == Some("class"@),
        language == "swift"@ && node == "class_declaration"@ ==> resolve_spec(default_catalogue(), language, node) == Some("class"@),
        language == "typescript"@ && node == "class_declaration"@ ==> resolve_spec(default_catalogue(), language, node) == Some("class"@),
        language == "csharp"@ && node == "class_declaration"@ ==> resolve_spec(default_catalogue(), language, node) == Some("class"@),
{
    let c = default_catalogue();
    law_the_default_catalogue_is_unambiguous();
    assert(c[0] == ("function"@, function_members()));
    assert(c[1] == ("product_type"@, product_type_members()));
    assert(c[2] == ("behavioral_contract"@, behavioral_contract_members()));
    assert(c[3] == ("enumeration"@, enumeration_members()));
    assert(c[4] == ("type_alias"@, type_alias_members()));
    assert(c[5] == ("extension"@, extension_members()));
    assert(c[6] == ("module"@, module_members()));
    assert(c[7] == ("class"@, class_members()));
    if language == "rust"@ && node == "function_item"@ {
        assert(function_members()[0] == ("rust"@, "function_item"@));
        assert(lists(c[0], language, node));
        lemma_first_listing_resolves(c, language, node, 0, 0);
    }
    if language == "rust"@ && node == "fn"@ {
        assert(function_members()[1] == ("rust"@, "fn"@));
        assert(lists(c[0], language, node));
        lemma_first_listing_resolves(c, language, node, 0, 0);
    }
    if language == "python"@ && node == "function_definition"@ {
        assert(function_members()[2] == ("python"@, "function_definition"@));
        assert(lists(c[0], language, node));
        lemma_first_listing_resolves(c, language, node, 0, 0);
    }
    if language == "go"@ && node == "function_declaration"@ {
        assert(function_members()[3] == ("go"@, "function_declaration"@));
        assert(lists(c[0], language, node));
        lemma_first_listing_resolves(c, language, node, 0, 0);
    }
    if language == "typescript"@ && node == "function_declaration"@ {
        assert(function_members()[4] == ("typescript"@, "function_declaration"@));
        assert(lists(c[0], language, node));
        lemma_first_listing_resolves(c, language, node, 0, 0);
    }
    if language == "javascript"@ && node == "function_declaration"@ {
        assert(function_members()[5] == ("javascript"@, "function_declaration"@));
        assert(lists(c[0], language, node));
        lemma_first_listing_resolves(c, language, node, 0, 0);
    }
    if language == "c"@ && node == "function_definition"@ {
        assert(function_members()[6] == ("c"@, "function_definition"@));
        assert(lists(c[0], language, node));
        lemma_first_listing_resolves(c, language, node, 0, 0);
    }
    if language == "java"@ && node == "method_declaration"@ {
        assert(function_members()[7] == ("java"@, "method_declaration"@));
        assert(lists(c[0], language, node));
        lemma_first_listing_resolves(c, language, node, 0, 0);
    }
    if language == "swift"@ && node == "function_declaration"@ {
        assert(function_members()[8] == ("swift"@, "function_declaration"@));
        assert(lists(c[0], language, node));
        lemma_first_listing_resolves(c, language, node, 0, 0);
    }
    if language == "rust"@ && node == "struct_item"@ {
        assert(product_type_members()[0] == ("rust"@, "struct_item"@));
        assert(lists(c[1], language, node));
        lemma_first_listing_resolves(c, language, node, 0, 1);
    }
    if language == "go"@ && node == "type_declaration"@ {
        assert(product_type_members()[1] == ("go"@, "type_declaration"@));
        assert(lists(c[1], language, node));
        lemma_first_listing_resolves(c, language, node, 0, 1);
    }
    if language == "c"@ && node == "struct_specifier"@ {
        assert(product_type_members()[2] == ("c"@, "struct_specifier"@));
        assert(lists(c[1], language, node));
        lemma_first_listing_resolves(c, language, node, 0, 1);
    }
    if language == "cpp"@ && node == "struct_specifier"@ {
        assert(product_type_members()[3] == ("cpp"@, "struct_specifier"@));
        assert(lists(c[1], language, node));
        lemma_first_listing_resolves(c, language, node, 0, 1);
    }
    if language == "swift"@ && node == "struct_declaration"@ {
        assert(product_type_members()[4] == ("swift"@, "struct_declaration"@));
        assert(lists(c[1], language, node));
        lemma_first_listing_resolves(c, language, node, 0, 1);
    }
    if language == "csharp"@ && node == "struct_declaration"@ {
        assert(product_type_members()[5] == ("csharp"@, "struct_declaration"@));
        assert(lists(c[1], language, node));
        lemma_first_listing_resolves(c, language, node, 0, 1);
    }
    if language == "haskell"@ && node == "data_declaration"@ {
        assert(product_type_members()[6] == ("haskell"@, "data_declaration"@));
        assert(lists(c[1], language, node));
        lemma_first_listing_resolves(c, language, node, 0, 1);
    }
    if language == "rust"@ && node == "trait_item"@ {
        assert(behavioral_contract_members()[0] == ("rust"@, "trait_item"@));
        assert(lists(c[2], language, node));
        lemma_first_listing_resolves(c, language, node, 0, 2);
    }
    if language == "go"@ && node == "interface_type"@ {
        assert(behavioral_contract_members()[1] == ("go"@, "interface_type"@));
        assert(lists(c[2], language, node));
        lemma_first_listing_resolves(c, language, node, 0, 2);
    }
    if language == "java"@ && node == "interface_declaration"@ {
        assert(behavioral_contract_members()[2] == ("java"@, "interface_declaration"@));
        assert(lists(c[2], language, node));
        lemma_first_listing_resolves(c, language, node, 0, 2);
    }
    if language == "typescript"@ && node == "interface_declaration"@ {
        assert(behavioral_contract_members()[3] == ("typescript"@, "interface_declaration"@));
        assert(lists(c[2], language, node));
        lemma_first_listing_resolves(c, language, node, 0, 2);
    }
    if language == "swift"@ && node == "protocol_declaration"@ {
        assert(behavioral_contract_members()[4] == ("swift"@, "protocol_declaration"@));
        assert(lists(c[2], language, node));
        lemma_first_listing_resolves(c, language, node, 0, 2);
    }
    if language == "scala"@ && node == "trait_definition"@ {
        assert(behavioral_contract_members()[5] == ("scala"@, "trait_definition"@));
        assert(lists(c[2], language, node));
        lemma_first_listing_resolves(c, language, node, 0, 2);
    }
    if language == "rust"@ && node == "enum_item"@ {
        assert(enumeration_members()[0] == ("rust"@, "enum_item"@));
        assert(lists(c[3], language, node));
        lemma_first_listing_resolves(c, language, node, 0, 3);
    }
    if language == "swift"@ && node == "enum_declaration"@ {
        assert(enumeration_members()[1] == ("swift"@, "enum_declaration"@));
        assert(lists(c[3], language, node));
        lemma_first_listing_resolves(c, language, node, 0, 3);
    }
    if language == "java"@ && node == "enum_declaration"@ {
        assert(enumeration_members()[2] == ("java"@, "enum_declaration"@));
        assert(lists(c[3], language, node));
        lemma_first_listing_resolves(c, language, node, 0, 3);
    }
    if language == "typescript"@ && node == "enum_declaration"@ {
        assert(enumeration_members()[3] == ("typescript"@, "enum_declaration"@));
        assert(lists(c[3], language, node));
        lemma_first_listing_resolves(c, language, node, 0, 3);
    }
    if language == "c"@ && node == "enum_specifier"@ {
        assert(enumeration_members()[4] == ("c"@, "enum_specifier"@));
        assert(lists(c[3], language, node));
        lemma_first_listing_resolves(c, language, node, 0, 3);
    }
    if language == "rust"@ && node == "type_item"@ {
        assert(type_alias_members()[0] == ("rust"@, "type_item"@));
        assert(lists(c[4], language, node));
        lemma_first_listing_resolves(c, language, node, 0, 4);
    }
    if language == "typescript"@ && node == "type_alias_declaration"@ {
        assert(type_alias_members()[1] == ("typescript"@, "type_alias_declaration"@));
        assert(lists(c[4], language, node));
        lemma_first_listing_resolves(c, language, node, 0, 4);
    }
    if language == "go"@ && node == "type_alias"@ {
        assert(type_alias_members()[2] == ("go"@, "type_alias"@));
        assert(lists(c[4], language, node));
        lemma_first_listing_resolves(c, language, node, 0, 4);
    }
    if language == "swift"@ && node == "typealias_declaration"@ {
        assert(type_alias_members()[3] == ("swift"@, "typealias_declaration"@));
        assert(lists(c[4], language, node));
        lemma_first_listing_resolves(c, language, node, 0, 4);
    }
    if language == "rust"@ && node == "impl_item"@ {
        assert(extension_members()[0] == ("rust"@, "impl_item"@));
        assert(lists(c[5], language, node));
        lemma_first_listing_resolves(c, language, node, 0, 5);
    }
    if language == "swift"@ && node == "extension_declaration"@ {
        assert(extension_members()[1] == ("swift"@, "extension_declaration"@));
        assert(lists(c[5], language, node));
        lemma_first_listing_resolves(c, language, node, 0, 5);
    }
    if language == "csharp"@ && node == "extension"@ {
        assert(extension_members()[2] == ("csharp"@, "extension"@));
        assert(lists(c[5], language, node));
        lemma_first_listing_resolves(c, language, node, 0, 5);
    }
    if language == "rust"@ && node == "mod_item"@ {
        assert(module_members()[0] == ("rust"@, "mod_item"@));
        assert(lists(c[6], language, node));
        lemma_first_listing_resolves(c, language, node, 0, 6);
    }
    if language == "rust"@ && node == "mod"@ {
        assert(module_members()[1] == ("rust"@, "mod"@));
        assert(lists(c[6], language, node));
        lemma_first_listing_resolves(c, language, node, 0, 6);
    }
    if language == "python"@ && node == "module"@ {
        assert(module_members()[2] == ("python"@, "module"@));
        assert(lists(c[6], language, node));
        lemma_first_listing_resolves(c, language, node, 0, 6);
    }
    if language == "go"@ && node == "package_clause"@ {
        assert(module_members()[3] == ("go"@, "package_clause"@));
        assert(lists(c[6], language, node));
        lemma_first_listing_resolves(c, language, node, 0, 6);
    }
    if language == "java"@ && node == "package_declaration"@ {
        assert(module_members()[4] == ("java"@, "package_declaration"@));
        assert(lists(c[6], language, node));
        lemma_first_listing_resolves(c, language, node, 0, 6);
    }
    if language == "java"@ && node == "class_declaration"@ {
        assert(class_members()[0] == ("java"@, "class_declaration"@));
        assert(lists(c[7], language, node));
        lemma_first_listing_resolves(c, language, node, 0, 7);
    }
    if language == "python"@ && node == "class_definition"@ {
        assert(class_members()[1] == ("python"@, "class_definition"@));
        assert(lists(c[7], language, node));
        lemma_first_listing_resolves(c, language, node, 0, 7);
    }
    if language == "cpp"@ && node == "class_specifier"@ {
        assert(class_members()[2] == ("cpp"@, "class_specifier"@));
        assert(lists(c[7], language, node));
        lemma_first_listing_resolves(c, language, node, 0, 7);
    }
    if language == "swift"@ && node == "class_declaration"@ {
        assert(class_members()[3] == ("swift"@, "class_declaration"@));
        assert(lists(c[7], language, node));
        lemma_first_listing_resolves(c, language, node, 0, 7);
    }
    if language == "typescript"@ && node == "class_declaration"@ {
        assert(class_members()[4] == ("typescript"@, "class_declaration"@));
        assert(lists(c[7], language, node));
        lemma_first_listing_resolves(c, language, node, 0, 7);
    }
    if language == "csharp"@ && node == "class_declaration"@ {
        assert(class_members()[5] == ("csharp"@, "class_declaration"@));
        assert(lists(c[7], language, node));
        lemma_first_listing_resolves(c, language, node, 0, 7);
    }
}

} // verus!
