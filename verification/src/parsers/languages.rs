//! Language dispatch: which language a file extension names, and which
//! language keys have a grammar.
use vstd::prelude::*;
use crate::text::chars_eq_str;
use crate::text::chars_of;

verus! {

/// The extension table as plain values: each extension (without the dot) and
/// the language key it selects, in lookup order.
pub open spec fn extension_table() -> Seq<(Seq<char>, Seq<char>)> {
    seq![
        ("adb"@, "ada"@),
        ("ads"@, "ada"@),
        ("asm"@, "assembly"@),
        ("s"@, "assembly"@),
        ("sh"@, "bash"@),
        ("bash"@, "bash"@),
        ("c"@, "c"@),
        ("h"@, "c"@),
        ("clj"@, "clojure"@),
        ("cljs"@, "clojure"@),
        ("cpp"@, "cpp"@),
        ("cc"@, "cpp"@),
        ("cxx"@, "cpp"@),
        ("hpp"@, "cpp"@),
        ("hh"@, "cpp"@),
        ("cr"@, "crystal"@),
        ("cs"@, "csharp"@),
        ("d"@, "d"@),
        ("dart"@, "dart"@),
        ("ex"@, "elixir"@),
        ("exs"@, "elixir"@),
        ("erl"@, "erlang"@),
        ("f90"@, "fortran"@),
        ("f95"@, "fortran"@),
        ("f"@, "fortran"@),
        ("fs"@, "fsharp"@),
        ("fsx"@, "fsharp"@),
        ("go"@, "go"@),
        ("groovy"@, "groovy"@),
        ("hs"@, "haskell"@),
        ("java"@, "java"@),
        ("js"@, "javascript"@),
        ("jsx"@, "javascript"@),
        ("mjs"@, "javascript"@),
        ("jl"@, "julia"@),
        ("kt"@, "kotlin"@),
        ("kts"@, "kotlin"@),
        ("lisp"@, "lisp"@),
        ("lsp"@, "lisp"@),
        ("lua"@, "lua"@),
        ("m"@, "matlab"@),
        ("nim"@, "nim"@),
        ("mm"@, "objc"@),
        ("ml"@, "ocaml"@),
        ("mli"@, "ocaml"@),
        ("pas"@, "pascal"@),
        ("pl"@, "perl"@),
        ("pm"@, "perl"@),
        ("php"@, "php"@),
        ("ps1"@, "powershell"@),
        ("py"@, "python"@),
        ("r"@, "r"@),
        ("rb"@, "ruby"@),
        ("rs"@, "rust"@),
        ("scala"@, "scala"@),
        ("sc"@, "scala"@),
        ("scm"@, "scheme"@),
        ("sol"@, "solidity"@),
        ("sql"@, "sql"@),
        ("swift"@, "swift"@),
        ("ts"@, "typescript"@),
        ("tsx"@, "typescript"@),
        ("vb"@, "vbnet"@),
        ("zig"@, "zig"@),
    ]
}

/// The language key an extension selects: the first table entry for it.
pub open spec fn extension_lookup(t: Seq<(Seq<char>, Seq<char>)>, ext: Seq<char>, i: int) -> Option<
    Seq<char>,
>
    decreases t.len() - i,
{
    if i < 0 || i >= t.len() {
        None
    } else if t[i].0 == ext {
        Some(t[i].1)
    } else {
        extension_lookup(t, ext, i + 1)
    }
}

pub open spec fn language_for_extension_spec(ext: Seq<char>) -> Option<Seq<char>> {
    extension_lookup(extension_table(), ext, 0)
}

/// Every language key with a compiled grammar, as plain values.
pub open spec fn supported_list() -> Seq<Seq<char>> {
    seq![
        "ada"@,
        "assembly"@,
        "bash"@,
        "c"@,
        "clojure"@,
        "cpp"@,
        "crystal"@,
        "csharp"@,
        "d"@,
        "dart"@,
        "elixir"@,
        "erlang"@,
        "fortran"@,
        "fsharp"@,
        "go"@,
        "groovy"@,
        "haskell"@,
        "java"@,
        "javascript"@,
        "julia"@,
        "kotlin"@,
        "lisp"@,
        "lua"@,
        "matlab"@,
        "nim"@,
        "objc"@,
        "ocaml"@,
        "pascal"@,
        "perl"@,
        "php"@,
        "powershell"@,
        "python"@,
        "r"@,
        "ruby"@,
        "rust"@,
        "scala"@,
        "scheme"@,
        "solidity"@,
        "sql"@,
        "swift"@,
        "typescript"@,
        "vbnet"@,
        "zig"@,
    ]
}

fn extension_pairs() -> (r: Vec<(&'static str, &'static str)>)
    ensures
        r@.map_values(|p: (&str, &str)| (p.0@, p.1@)) == extension_table(),
{
    let r = vec![
        ("adb", "ada"),
        ("ads", "ada"),
        ("asm", "assembly"),
        ("s", "assembly"),
        ("sh", "bash"),
        ("bash", "bash"),
        ("c", "c"),
        ("h", "c"),
        ("clj", "clojure"),
        ("cljs", "clojure"),
        ("cpp", "cpp"),
        ("cc", "cpp"),
        ("cxx", "cpp"),
        ("hpp", "cpp"),
        ("hh", "cpp"),
        ("cr", "crystal"),
        ("cs", "csharp"),
        ("d", "d"),
        ("dart", "dart"),
        ("ex", "elixir"),
        ("exs", "elixir"),
        ("erl", "erlang"),
        ("f90", "fortran"),
        ("f95", "fortran"),
        ("f", "fortran"),
        ("fs", "fsharp"),
        ("fsx", "fsharp"),
        ("go", "go"),
        ("groovy", "groovy"),
        ("hs", "haskell"),
        ("java", "java"),
        ("js", "javascript"),
        ("jsx", "javascript"),
        ("mjs", "javascript"),
        ("jl", "julia"),
        ("kt", "kotlin"),
        ("kts", "kotlin"),
        ("lisp", "lisp"),
        ("lsp", "lisp"),
        ("lua", "lua"),
        ("m", "matlab"),
        ("nim", "nim"),
        ("mm", "objc"),
        ("ml", "ocaml"),
        ("mli", "ocaml"),
        ("pas", "pascal"),
        ("pl", "perl"),
        ("pm", "perl"),
        ("php", "php"),
        ("ps1", "powershell"),
        ("py", "python"),
        ("r", "r"),
        ("rb", "ruby"),
        ("rs", "rust"),
        ("scala", "scala"),
        ("sc", "scala"),
        ("scm", "scheme"),
        ("sol", "solidity"),
        ("sql", "sql"),
        ("swift", "swift"),
        ("ts", "typescript"),
        ("tsx", "typescript"),
        ("vb", "vbnet"),
        ("zig", "zig"),
    ];
    assert(r@.map_values(|p: (&str, &str)| (p.0@, p.1@)) =~= extension_table());
    r
}

/// Map a file extension (without the dot) to a language key.
pub fn language_for_extension(ext: &str) -> (r: Option<&'static str>)
    ensures
        match r {
            Some(l) => language_for_extension_spec(ext@) == Some(l@),
            None => language_for_extension_spec(ext@) is None,
        },
{
    let table = extension_pairs();
    let ghost t = extension_table();
    let e = chars_of(ext);
    let mut i: usize = 0;
    while i < table.len()
        invariant
            0 <= i <= table.len(),
            e@ == ext@,
            t == table@.map_values(|p: (&str, &str)| (p.0@, p.1@)),
            language_for_extension_spec(ext@) == extension_lookup(t, ext@, i as int),
        decreases table.len() - i,
    {
        let (key, language) = table[i];
        assert(t[i as int] == (key@, language@));
        if chars_eq_str(&e, key) {
            return Some(language);
        }
        i = i + 1;
    }
    None
}

/// Every language key with a compiled grammar.
pub fn supported_languages() -> (r: Vec<&'static str>)
    ensures
        r@.map_values(|s: &str| s@) == supported_list(),
{
    let r = vec![
        "ada",
        "assembly",
        "bash",
        "c",
        "clojure",
        "cpp",
        "crystal",
        "csharp",
        "d",
        "dart",
        "elixir",
        "erlang",
        "fortran",
        "fsharp",
        "go",
        "groovy",
        "haskell",
        "java",
        "javascript",
        "julia",
        "kotlin",
        "lisp",
        "lua",
        "matlab",
        "nim",
        "objc",
        "ocaml",
        "pascal",
        "perl",
        "php",
        "powershell",
        "python",
        "r",
        "ruby",
        "rust",
        "scala",
        "scheme",
        "solidity",
        "sql",
        "swift",
        "typescript",
        "vbnet",
        "zig",
    ];
    assert(r@.map_values(|s: &str| s@) =~= supported_list());
    r
}

proof fn lemma_lookup_in_table(t: Seq<(Seq<char>, Seq<char>)>, ext: Seq<char>, i: int)
    requires
        0 <= i,
    ensures
        extension_lookup(t, ext, i) matches Some(l) ==> exists|k: int|
            i <= k < t.len() && #[trigger] t[k].1 == l,
    decreases t.len() - i,
{
    if i < t.len() && t[i].0 != ext {
        lemma_lookup_in_table(t, ext, i + 1);
    }
}

/// Every language an extension selects has a grammar: the extension table
/// never names a language key that `supported_languages` does not list.
pub proof fn law_extensions_select_supported_languages(ext: Seq<char>)
    ensures
        language_for_extension_spec(ext) matches Some(l) ==> supported_list().contains(l),
{
    let t = extension_table();
    let s = supported_list();
    assert(t[0].1 == s[0]);
    assert(t[1].1 == s[0]);
    assert(t[2].1 == s[1]);
    assert(t[3].1 == s[1]);
    assert(t[4].1 == s[2]);
    assert(t[5].1 == s[2]);
    assert(t[6].1 == s[3]);
    assert(t[7].1 == s[3]);
    assert(t[8].1 == s[4]);
    assert(t[9].1 == s[4]);
    assert(t[10].1 == s[5]);
    assert(t[11].1 == s[5]);
    assert(t[12].1 == s[5]);
    assert(t[13].1 == s[5]);
    assert(t[14].1 == s[5]);
    assert(t[15].1 == s[6]);
    assert(t[16].1 == s[7]);
    assert(t[17].1 == s[8]);
    assert(t[18].1 == s[9]);
    assert(t[19].1 == s[10]);
    assert(t[20].1 == s[10]);
    assert(t[21].1 == s[11]);
    assert(t[22].1 == s[12]);
    assert(t[23].1 == s[12]);
    assert(t[24].1 == s[12]);
    assert(t[25].1 == s[13]);
    assert(t[26].1 == s[13]);
    assert(t[27].1 == s[14]);
    assert(t[28].1 == s[15]);
    assert(t[29].1 == s[16]);
    assert(t[30].1 == s[17]);
    assert(t[31].1 == s[18]);
    assert(t[32].1 == s[18]);
    assert(t[33].1 == s[18]);
    assert(t[34].1 == s[19]);
    assert(t[35].1 == s[20]);
    assert(t[36].1 == s[20]);
    assert(t[37].1 == s[21]);
    assert(t[38].1 == s[21]);
    assert(t[39].1 == s[22]);
    assert(t[40].1 == s[23]);
    assert(t[41].1 == s[24]);
    assert(t[42].1 == s[25]);
    assert(t[43].1 == s[26]);
    assert(t[44].1 == s[26]);
    assert(t[45].1 == s[27]);
    assert(t[46].1 == s[28]);
    assert(t[47].1 == s[28]);
    assert(t[48].1 == s[29]);
    assert(t[49].1 == s[30]);
    assert(t[50].1 == s[31]);
    assert(t[51].1 == s[32]);
    assert(t[52].1 == s[33]);
    assert(t[53].1 == s[34]);
    assert(t[54].1 == s[35]);
    assert(t[55].1 == s[35]);
    assert(t[56].1 == s[36]);
    assert(t[57].1 == s[37]);
    assert(t[58].1 == s[38]);
    assert(t[59].1 == s[39]);
    assert(t[60].1 == s[40]);
    assert(t[61].1 == s[40]);
    assert(t[62].1 == s[41]);
    assert(t[63].1 == s[42]);
    lemma_lookup_in_table(t, ext, 0);
    if let Some(l) = language_for_extension_spec(ext) {
        let k = choose|k: int| 0 <= k < t.len() && #[trigger] t[k].1 == l;
        assert(t[k].1 == l);
    }
}


proof fn lemma_first_entry_selects(t: Seq<(Seq<char>, Seq<char>)>, ext: Seq<char>, i: int, k: int)
    requires
        0 <= i <= k < t.len(),
        t[k].0 == ext,
        forall|m: int| i <= m < k ==> #[trigger] t[m].0 != ext,
    ensures
        extension_lookup(t, ext, i) == Some(t[k].1),
    decreases k - i,
{
    if i < k {
        lemma_first_entry_selects(t, ext, i + 1, k);
    }
}

/// Every language with a grammar is selected by some extension: the table
/// leaves no supported language unreachable.
pub proof fn law_every_supported_language_is_selected(j: int)
    requires
        0 <= j < supported_list().len(),
    ensures
        exists|ext: Seq<char>| language_for_extension_spec(ext) == Some(supported_list()[j]),
{
    let t = extension_table();
    let s = supported_list();

    reveal_strlit("adb");
    reveal_strlit("ads");
    reveal_strlit("asm");
    reveal_strlit("bash");
    reveal_strlit("c");
    reveal_strlit("cc");
    reveal_strlit("clj");
    reveal_strlit("cljs");
    reveal_strlit("cpp");
    reveal_strlit("cr");
    reveal_strlit("cs");
    reveal_strlit("cxx");
    reveal_strlit("d");
    reveal_strlit("dart");
    reveal_strlit("erl");
    reveal_strlit("ex");
    reveal_strlit("exs");
    reveal_strlit("f");
    reveal_strlit("f90");
    reveal_strlit("f95");
    reveal_strlit("fs");
    reveal_strlit("fsx");
    reveal_strlit("go");
    reveal_strlit("groovy");
    reveal_strlit("h");
    reveal_strlit("hh");
    reveal_strlit("hpp");
    reveal_strlit("hs");
    reveal_strlit("java");
    reveal_strlit("jl");
    reveal_strlit("js");
    reveal_strlit("jsx");
    reveal_strlit("kt");
    reveal_strlit("kts");
    reveal_strlit("lisp");
    reveal_strlit("lsp");
    reveal_strlit("lua");
    reveal_strlit("m");
    reveal_strlit("mjs");
    reveal_strlit("ml");
    reveal_strlit("mli");
    reveal_strlit("mm");
    reveal_strlit("nim");
    reveal_strlit("pas");
    reveal_strlit("php");
    reveal_strlit("pl");
    reveal_strlit("pm");
    reveal_strlit("ps1");
    reveal_strlit("py");
    reveal_strlit("r");
    reveal_strlit("rb");
    reveal_strlit("rs");
    reveal_strlit("s");
    reveal_strlit("sc");
    reveal_strlit("scala");
    reveal_strlit("scm");
    reveal_strlit("sh");
    reveal_strlit("sol");
    reveal_strlit("sql");
    reveal_strlit("swift");
    reveal_strlit("ts");
    reveal_strlit("tsx");
    reveal_strlit("vb");
    reveal_strlit("zig");
    assert(t.len() == 64);
    assert(s.len() == 43);
    assert(t[0].0 == "adb"@);
    assert("adb"@.len() == 3 && "adb"@[0] == 'a' && "adb"@[1] == 'd' && "adb"@[2] == 'b');
    assert(t[1].0 == "ads"@);
    assert("ads"@.len() == 3 && "ads"@[0] == 'a' && "ads"@[1] == 'd' && "ads"@[2] == 's');
    assert(t[2].0 == "asm"@);
    assert("asm"@.len() == 3 && "asm"@[0] == 'a' && "asm"@[1] == 's' && "asm"@[2] == 'm');
    assert(t[3].0 == "s"@);
    assert("s"@.len() == 1 && "s"@[0] == 's');
    assert(t[4].0 == "sh"@);
    assert("sh"@.len() == 2 && "sh"@[0] == 's' && "sh"@[1] == 'h');
    assert(t[5].0 == "bash"@);
    assert("bash"@.len() == 4 && "bash"@[0] == 'b' && "bash"@[1] == 'a' && "bash"@[2] == 's' && "bash"@[3] == 'h');
    assert(t[6].0 == "c"@);
    assert("c"@.len() == 1 && "c"@[0] == 'c');
    assert(t[7].0 == "h"@);
    assert("h"@.len() == 1 && "h"@[0] == 'h');
    assert(t[8].0 == "clj"@);
    assert("clj"@.len() == 3 && "clj"@[0] == 'c' && "clj"@[1] == 'l' && "clj"@[2] == 'j');
    assert(t[9].0 == "cljs"@);
    assert("cljs"@.len() == 4 && "cljs"@[0] == 'c' && "cljs"@[1] == 'l' && "cljs"@[2] == 'j' && "cljs"@[3] == 's');
    assert(t[10].0 == "cpp"@);
    assert("cpp"@.len() == 3 && "cpp"@[0] == 'c' && "cpp"@[1] == 'p' && "cpp"@[2] == 'p');
    assert(t[11].0 == "cc"@);
    assert("cc"@.len() == 2 && "cc"@[0] == 'c' && "cc"@[1] == 'c');
    assert(t[12].0 == "cxx"@);
    assert("cxx"@.len() == 3 && "cxx"@[0] == 'c' && "cxx"@[1] == 'x' && "cxx"@[2] == 'x');
    assert(t[13].0 == "hpp"@);
    assert("hpp"@.len() == 3 && "hpp"@[0] == 'h' && "hpp"@[1] == 'p' && "hpp"@[2] == 'p');
    assert(t[14].0 == "hh"@);
    assert("hh"@.len() == 2 && "hh"@[0] == 'h' && "hh"@[1] == 'h');
    assert(t[15].0 == "cr"@);
    assert("cr"@.len() == 2 && "cr"@[0] == 'c' && "cr"@[1] == 'r');
    assert(t[16].0 == "cs"@);
    assert("cs"@.len() == 2 && "cs"@[0] == 'c' && "cs"@[1] == 's');
    assert(t[17].0 == "d"@);
    assert("d"@.len() == 1 && "d"@[0] == 'd');
    assert(t[18].0 == "dart"@);
    assert("dart"@.len() == 4 && "dart"@[0] == 'd' && "dart"@[1] == 'a' && "dart"@[2] == 'r' && "dart"@[3] == 't');
    assert(t[19].0 == "ex"@);
    assert("ex"@.len() == 2 && "ex"@[0] == 'e' && "ex"@[1] == 'x');
    assert(t[20].0 == "exs"@);
    assert("exs"@.len() == 3 && "exs"@[0] == 'e' && "exs"@[1] == 'x' && "exs"@[2] == 's');
    assert(t[21].0 == "erl"@);
    assert("erl"@.len() == 3 && "erl"@[0] == 'e' && "erl"@[1] == 'r' && "erl"@[2] == 'l');
    assert(t[22].0 == "f90"@);
    assert("f90"@.len() == 3 && "f90"@[0] == 'f' && "f90"@[1] == '9' && "f90"@[2] == '0');
    assert(t[23].0 == "f95"@);
    assert("f95"@.len() == 3 && "f95"@[0] == 'f' && "f95"@[1] == '9' && "f95"@[2] == '5');
    assert(t[24].0 == "f"@);
    assert("f"@.len() == 1 && "f"@[0] == 'f');
    assert(t[25].0 == "fs"@);
    assert("fs"@.len() == 2 && "fs"@[0] == 'f' && "fs"@[1] == 's');
    assert(t[26].0 == "fsx"@);
    assert("fsx"@.len() == 3 && "fsx"@[0] == 'f' && "fsx"@[1] == 's' && "fsx"@[2] == 'x');
    assert(t[27].0 == "go"@);
    assert("go"@.len() == 2 && "go"@[0] == 'g' && "go"@[1] == 'o');
    assert(t[28].0 == "groovy"@);
    assert("groovy"@.len() == 6 && "groovy"@[0] == 'g' && "groovy"@[1] == 'r' && "groovy"@[2] == 'o' && "groovy"@[3] == 'o' && "groovy"@[4] == 'v' && "groovy"@[5] == 'y');
    assert(t[29].0 == "hs"@);
    assert("hs"@.len() == 2 && "hs"@[0] == 'h' && "hs"@[1] == 's');
    assert(t[30].0 == "java"@);
    assert("java"@.len() == 4 && "java"@[0] == 'j' && "java"@[1] == 'a' && "java"@[2] == 'v' && "java"@[3] == 'a');
    assert(t[31].0 == "js"@);
    assert("js"@.len() == 2 && "js"@[0] == 'j' && "js"@[1] == 's');
    assert(t[32].0 == "jsx"@);
    assert("jsx"@.len() == 3 && "jsx"@[0] == 'j' && "jsx"@[1] == 's' && "jsx"@[2] == 'x');
    assert(t[33].0 == "mjs"@);
    assert("mjs"@.len() == 3 && "mjs"@[0] == 'm' && "mjs"@[1] == 'j' && "mjs"@[2] == 's');
    assert(t[34].0 == "jl"@);
    assert("jl"@.len() == 2 && "jl"@[0] == 'j' && "jl"@[1] == 'l');
    assert(t[35].0 == "kt"@);
    assert("kt"@.len() == 2 && "kt"@[0] == 'k' && "kt"@[1] == 't');
    assert(t[36].0 == "kts"@);
    assert("kts"@.len() == 3 && "kts"@[0] == 'k' && "kts"@[1] == 't' && "kts"@[2] == 's');
    assert(t[37].0 == "lisp"@);
    assert("lisp"@.len() == 4 && "lisp"@[0] == 'l' && "lisp"@[1] == 'i' && "lisp"@[2] == 's' && "lisp"@[3] == 'p');
    assert(t[38].0 == "lsp"@);
    assert("lsp"@.len() == 3 && "lsp"@[0] == 'l' && "lsp"@[1] == 's' && "lsp"@[2] == 'p');
    assert(t[39].0 == "lua"@);
    assert("lua"@.len() == 3 && "lua"@[0] == 'l' && "lua"@[1] == 'u' && "lua"@[2] == 'a');
    assert(t[40].0 == "m"@);
    assert("m"@.len() == 1 && "m"@[0] == 'm');
    assert(t[41].0 == "nim"@);
    assert("nim"@.len() == 3 && "nim"@[0] == 'n' && "nim"@[1] == 'i' && "nim"@[2] == 'm');
    assert(t[42].0 == "mm"@);
    assert("mm"@.len() == 2 && "mm"@[0] == 'm' && "mm"@[1] == 'm');
    assert(t[43].0 == "ml"@);
    assert("ml"@.len() == 2 && "ml"@[0] == 'm' && "ml"@[1] == 'l');
    assert(t[44].0 == "mli"@);
    assert("mli"@.len() == 3 && "mli"@[0] == 'm' && "mli"@[1] == 'l' && "mli"@[2] == 'i');
    assert(t[45].0 == "pas"@);
    assert("pas"@.len() == 3 && "pas"@[0] == 'p' && "pas"@[1] == 'a' && "pas"@[2] == 's');
    assert(t[46].0 == "pl"@);
    assert("pl"@.len() == 2 && "pl"@[0] == 'p' && "pl"@[1] == 'l');
    assert(t[47].0 == "pm"@);
    assert("pm"@.len() == 2 && "pm"@[0] == 'p' && "pm"@[1] == 'm');
    assert(t[48].0 == "php"@);
    assert("php"@.len() == 3 && "php"@[0] == 'p' && "php"@[1] == 'h' && "php"@[2] == 'p');
    assert(t[49].0 == "ps1"@);
    assert("ps1"@.len() == 3 && "ps1"@[0] == 'p' && "ps1"@[1] == 's' && "ps1"@[2] == '1');
    assert(t[50].0 == "py"@);
    assert("py"@.len() == 2 && "py"@[0] == 'p' && "py"@[1] == 'y');
    assert(t[51].0 == "r"@);
    assert("r"@.len() == 1 && "r"@[0] == 'r');
    assert(t[52].0 == "rb"@);
    assert("rb"@.len() == 2 && "rb"@[0] == 'r' && "rb"@[1] == 'b');
    assert(t[53].0 == "rs"@);
    assert("rs"@.len() == 2 && "rs"@[0] == 'r' && "rs"@[1] == 's');
    assert(t[54].0 == "scala"@);
    assert("scala"@.len() == 5 && "scala"@[0] == 's' && "scala"@[1] == 'c' && "scala"@[2] == 'a' && "scala"@[3] == 'l' && "scala"@[4] == 'a');
    assert(t[55].0 == "sc"@);
    assert("sc"@.len() == 2 && "sc"@[0] == 's' && "sc"@[1] == 'c');
    assert(t[56].0 == "scm"@);
    assert("scm"@.len() == 3 && "scm"@[0] == 's' && "scm"@[1] == 'c' && "scm"@[2] == 'm');
    assert(t[57].0 == "sol"@);
    assert("sol"@.len() == 3 && "sol"@[0] == 's' && "sol"@[1] == 'o' && "sol"@[2] == 'l');
    assert(t[58].0 == "sql"@);
    assert("sql"@.len() == 3 && "sql"@[0] == 's' && "sql"@[1] == 'q' && "sql"@[2] == 'l');
    assert(t[59].0 == "swift"@);
    assert("swift"@.len() == 5 && "swift"@[0] == 's' && "swift"@[1] == 'w' && "swift"@[2] == 'i' && "swift"@[3] == 'f' && "swift"@[4] == 't');
    assert(t[60].0 == "ts"@);
    assert("ts"@.len() == 2 && "ts"@[0] == 't' && "ts"@[1] == 's');
    assert(t[61].0 == "tsx"@);
    assert("tsx"@.len() == 3 && "tsx"@[0] == 't' && "tsx"@[1] == 's' && "tsx"@[2] == 'x');
    assert(t[62].0 == "vb"@);
    assert("vb"@.len() == 2 && "vb"@[0] == 'v' && "vb"@[1] == 'b');
    assert(t[63].0 == "zig"@);
    assert("zig"@.len() == 3 && "zig"@[0] == 'z' && "zig"@[1] == 'i' && "zig"@[2] == 'g');
    assert(j == 0 || j == 1 || j == 2 || j == 3 || j == 4 || j == 5 || j == 6 || j == 7 || j == 8 || j == 9 || j == 10 || j == 11 || j == 12 || j == 13 || j == 14 || j == 15 || j == 16 || j == 17 || j == 18 || j == 19 || j == 20 || j == 21 || j == 22 || j == 23 || j == 24 || j == 25 || j == 26 || j == 27 || j == 28 || j == 29 || j == 30 || j == 31 || j == 32 || j == 33 || j == 34 || j == 35 || j == 36 || j == 37 || j == 38 || j == 39 || j == 40 || j == 41 || j == 42);
    if j == 0 {
        assert(t[0].1 == s[0]);
        lemma_first_entry_selects(t, t[0].0, 0, 0);
        assert(language_for_extension_spec(t[0].0) == Some(s[0]));
    } else if j == 1 {
        assert(t[2].1 == s[1]);
        lemma_first_entry_selects(t, t[2].0, 0, 2);
        assert(language_for_extension_spec(t[2].0) == Some(s[1]));
    } else if j == 2 {
        assert(t[4].1 == s[2]);
        lemma_first_entry_selects(t, t[4].0, 0, 4);
        assert(language_for_extension_spec(t[4].0) == Some(s[2]));
    } else if j == 3 {
        assert(t[6].1 == s[3]);
        lemma_first_entry_selects(t, t[6].0, 0, 6);
        assert(language_for_extension_spec(t[6].0) == Some(s[3]));
    } else if j == 4 {
        assert(t[8].1 == s[4]);
        lemma_first_entry_selects(t, t[8].0, 0, 8);
        assert(language_for_extension_spec(t[8].0) == Some(s[4]));
    } else if j == 5 {
        assert(t[10].1 == s[5]);
        lemma_first_entry_selects(t, t[10].0, 0, 10);
        assert(language_for_extension_spec(t[10].0) == Some(s[5]));
    } else if j == 6 {
        assert(t[15].1 == s[6]);
        lemma_first_entry_selects(t, t[15].0, 0, 15);
        assert(language_for_extension_spec(t[15].0) == Some(s[6]));
    } else if j == 7 {
        assert(t[16].1 == s[7]);
        lemma_first_entry_selects(t, t[16].0, 0, 16);
        assert(language_for_extension_spec(t[16].0) == Some(s[7]));
    } else if j == 8 {
        assert(t[17].1 == s[8]);
        lemma_first_entry_selects(t, t[17].0, 0, 17);
        assert(language_for_extension_spec(t[17].0) == Some(s[8]));
    } else if j == 9 {
        assert(t[18].1 == s[9]);
        lemma_first_entry_selects(t, t[18].0, 0, 18);
        assert(language_for_extension_spec(t[18].0) == Some(s[9]));
    } else if j == 10 {
        assert(t[19].1 == s[10]);
        lemma_first_entry_selects(t, t[19].0, 0, 19);
        assert(language_for_extension_spec(t[19].0) == Some(s[10]));
    } else if j == 11 {
        assert(t[21].1 == s[11]);
        lemma_first_entry_selects(t, t[21].0, 0, 21);
        assert(language_for_extension_spec(t[21].0) == Some(s[11]));
    } else if j == 12 {
        assert(t[22].1 == s[12]);
        lemma_first_entry_selects(t, t[22].0, 0, 22);
        assert(language_for_extension_spec(t[22].0) == Some(s[12]));
    } else if j == 13 {
        assert(t[25].1 == s[13]);
        lemma_first_entry_selects(t, t[25].0, 0, 25);
        assert(language_for_extension_spec(t[25].0) == Some(s[13]));
    } else if j == 14 {
        assert(t[27].1 == s[14]);
        lemma_first_entry_selects(t, t[27].0, 0, 27);
        assert(language_for_extension_spec(t[27].0) == Some(s[14]));
    } else if j == 15 {
        assert(t[28].1 == s[15]);
        lemma_first_entry_selects(t, t[28].0, 0, 28);
        assert(language_for_extension_spec(t[28].0) == Some(s[15]));
    } else if j == 16 {
        assert(t[29].1 == s[16]);
        lemma_first_entry_selects(t, t[29].0, 0, 29);
        assert(language_for_extension_spec(t[29].0) == Some(s[16]));
    } else if j == 17 {
        assert(t[30].1 == s[17]);
        lemma_first_entry_selects(t, t[30].0, 0, 30);
        assert(language_for_extension_spec(t[30].0) == Some(s[17]));
    } else if j == 18 {
        assert(t[31].1 == s[18]);
        lemma_first_entry_selects(t, t[31].0, 0, 31);
        assert(language_for_extension_spec(t[31].0) == Some(s[18]));
    } else if j == 19 {
        assert(t[34].1 == s[19]);
        lemma_first_entry_selects(t, t[34].0, 0, 34);
        assert(language_for_extension_spec(t[34].0) == Some(s[19]));
    } else if j == 20 {
        assert(t[35].1 == s[20]);
        lemma_first_entry_selects(t, t[35].0, 0, 35);
        assert(language_for_extension_spec(t[35].0) == Some(s[20]));
    } else if j == 21 {
        assert(t[37].1 == s[21]);
        lemma_first_entry_selects(t, t[37].0, 0, 37);
        assert(language_for_extension_spec(t[37].0) == Some(s[21]));
    } else if j == 22 {
        assert(t[39].1 == s[22]);
        lemma_first_entry_selects(t, t[39].0, 0, 39);
        assert(language_for_extension_spec(t[39].0) == Some(s[22]));
    } else if j == 23 {
        assert(t[40].1 == s[23]);
        lemma_first_entry_selects(t, t[40].0, 0, 40);
        assert(language_for_extension_spec(t[40].0) == Some(s[23]));
    } else if j == 24 {
        assert(t[41].1 == s[24]);
        lemma_first_entry_selects(t, t[41].0, 0, 41);
        assert(language_for_extension_spec(t[41].0) == Some(s[24]));
    } else if j == 25 {
        assert(t[42].1 == s[25]);
        lemma_first_entry_selects(t, t[42].0, 0, 42);
        assert(language_for_extension_spec(t[42].0) == Some(s[25]));
    } else if j == 26 {
        assert(t[43].1 == s[26]);
        lemma_first_entry_selects(t, t[43].0, 0, 43);
        assert(language_for_extension_spec(t[43].0) == Some(s[26]));
    } else if j == 27 {
        assert(t[45].1 == s[27]);
        lemma_first_entry_selects(t, t[45].0, 0, 45);
        assert(language_for_extension_spec(t[45].0) == Some(s[27]));
    } else if j == 28 {
        assert(t[46].1 == s[28]);
        lemma_first_entry_selects(t, t[46].0, 0, 46);
        assert(language_for_extension_spec(t[46].0) == Some(s[28]));
    } else if j == 29 {
        assert(t[48].1 == s[29]);
        lemma_first_entry_selects(t, t[48].0, 0, 48);
        assert(language_for_extension_spec(t[48].0) == Some(s[29]));
    } else if j == 30 {
        assert(t[49].1 == s[30]);
        lemma_first_entry_selects(t, t[49].0, 0, 49);
        assert(language_for_extension_spec(t[49].0) == Some(s[30]));
    } else if j == 31 {
        assert(t[50].1 == s[31]);
        lemma_first_entry_selects(t, t[50].0, 0, 50);
        assert(language_for_extension_spec(t[50].0) == Some(s[31]));
    } else if j == 32 {
        assert(t[51].1 == s[32]);
        lemma_first_entry_selects(t, t[51].0, 0, 51);
        assert(language_for_extension_spec(t[51].0) == Some(s[32]));
    } else if j == 33 {
        assert(t[52].1 == s[33]);
        lemma_first_entry_selects(t, t[52].0, 0, 52);
        assert(language_for_extension_spec(t[52].0) == Some(s[33]));
    } else if j == 34 {
        assert(t[53].1 == s[34]);
        lemma_first_entry_selects(t, t[53].0, 0, 53);
        assert(language_for_extension_spec(t[53].0) == Some(s[34]));
    } else if j == 35 {
        assert(t[54].1 == s[35]);
        lemma_first_entry_selects(t, t[54].0, 0, 54);
        assert(language_for_extension_spec(t[54].0) == Some(s[35]));
    } else if j == 36 {
        assert(t[56].1 == s[36]);
        lemma_first_entry_selects(t, t[56].0, 0, 56);
        assert(language_for_extension_spec(t[56].0) == Some(s[36]));
    } else if j == 37 {
        assert(t[57].1 == s[37]);
        lemma_first_entry_selects(t, t[57].0, 0, 57);
        assert(language_for_extension_spec(t[57].0) == Some(s[37]));
    } else if j == 38 {
        assert(t[58].1 == s[38]);
        lemma_first_entry_selects(t, t[58].0, 0, 58);
        assert(language_for_extension_spec(t[58].0) == Some(s[38]));
    } else if j == 39 {
        assert(t[59].1 == s[39]);
        lemma_first_entry_selects(t, t[59].0, 0, 59);
        assert(language_for_extension_spec(t[59].0) == Some(s[39]));
    } else if j == 40 {
        assert(t[60].1 == s[40]);
        lemma_first_entry_selects(t, t[60].0, 0, 60);
        assert(language_for_extension_spec(t[60].0) == Some(s[40]));
    } else if j == 41 {
        assert(t[62].1 == s[41]);
        lemma_first_entry_selects(t, t[62].0, 0, 62);
        assert(language_for_extension_spec(t[62].0) == Some(s[41]));
    } else if j == 42 {
        assert(t[63].1 == s[42]);
        lemma_first_entry_selects(t, t[63].0, 0, 63);
        assert(language_for_extension_spec(t[63].0) == Some(s[42]));
    }
}


/// The extension table as it dispatches: each listed extension selects its
/// language, matched exactly.
pub proof fn law_each_extension_selects_its_language(ext: Seq<char>)
    ensures
        ext == "adb"@ ==> language_for_extension_spec(ext) == Some("ada"@),
        ext == "ads"@ ==> language_for_extension_spec(ext) == Some("ada"@),
        ext == "asm"@ ==> language_for_extension_spec(ext) == Some("assembly"@),
        ext == "s"@ ==> language_for_extension_spec(ext) == Some("assembly"@),
        ext == "sh"@ ==> language_for_extension_spec(ext) == Some("bash"@),
        ext == "bash"@ ==> language_for_extension_spec(ext) == Some("bash"@),
        ext == "c"@ ==> language_for_extension_spec(ext) == Some("c"@),
        ext == "h"@ ==> language_for_extension_spec(ext) == Some("c"@),
        ext == "clj"@ ==> language_for_extension_spec(ext) == Some("clojure"@),
        ext == "cljs"@ ==> language_for_extension_spec(ext) == Some("clojure"@),
        ext == "cpp"@ ==> language_for_extension_spec(ext) == Some("cpp"@),
        ext == "cc"@ ==> language_for_extension_spec(ext) == Some("cpp"@),
        ext == "cxx"@ ==> language_for_extension_spec(ext) == Some("cpp"@),
        ext == "hpp"@ ==> language_for_extension_spec(ext) == Some("cpp"@),
        ext == "hh"@ ==> language_for_extension_spec(ext) == Some("cpp"@),
        ext == "cr"@ ==> language_for_extension_spec(ext) == Some("crystal"@),
        ext == "cs"@ ==> language_for_extension_spec(ext) == Some("csharp"@),
        ext == "d"@ ==> language_for_extension_spec(ext) == Some("d"@),
        ext == "dart"@ ==> language_for_extension_spec(ext) == Some("dart"@),
        ext == "ex"@ ==> language_for_extension_spec(ext) == Some("elixir"@),
        ext == "exs"@ ==> language_for_extension_spec(ext) == Some("elixir"@),
        ext == "erl"@ ==> language_for_extension_spec(ext) == Some("erlang"@),
        ext == "f90"@ ==> language_for_extension_spec(ext) == Some("fortran"@),
        ext == "f95"@ ==> language_for_extension_spec(ext) == Some("fortran"@),
        ext == "f"@ ==> language_for_extension_spec(ext) == Some("fortran"@),
        ext == "fs"@ ==> language_for_extension_spec(ext) == Some("fsharp"@),
        ext == "fsx"@ ==> language_for_extension_spec(ext) == Some("fsharp"@),
        ext == "go"@ ==> language_for_extension_spec(ext) == Some("go"@),
        ext == "groovy"@ ==> language_for_extension_spec(ext) == Some("groovy"@),
        ext == "hs"@ ==> language_for_extension_spec(ext) == Some("haskell"@),
        ext == "java"@ ==> language_for_extension_spec(ext) == Some("java"@),
        ext == "js"@ ==> language_for_extension_spec(ext) == Some("javascript"@),
        ext == "jsx"@ ==> language_for_extension_spec(ext) == Some("javascript"@),
        ext == "mjs"@ ==> language_for_extension_spec(ext) == Some("javascript"@),
        ext == "jl"@ ==> language_for_extension_spec(ext) == Some("julia"@),
        ext == "kt"@ ==> language_for_extension_spec(ext) == Some("kotlin"@),
        ext == "kts"@ ==> language_for_extension_spec(ext) == Some("kotlin"@),
        ext == "lisp"@ ==> language_for_extension_spec(ext) == Some("lisp"@),
        ext == "lsp"@ ==> language_for_extension_spec(ext) == Some("lisp"@),
        ext == "lua"@ ==> language_for_extension_spec(ext) == Some("lua"@),
        ext == "m"@ ==> language_for_extension_spec(ext) == Some("matlab"@),
        ext == "nim"@ ==> language_for_extension_spec(ext) == Some("nim"@),
        ext == "mm"@ ==> language_for_extension_spec(ext) == Some("objc"@),
        ext == "ml"@ ==> language_for_extension_spec(ext) == Some("ocaml"@),
        ext == "mli"@ ==> language_for_extension_spec(ext) == Some("ocaml"@),
        ext == "pas"@ ==> language_for_extension_spec(ext) == Some("pascal"@),
        ext == "pl"@ ==> language_for_extension_spec(ext) == Some("perl"@),
        ext == "pm"@ ==> language_for_extension_spec(ext) == Some("perl"@),
        ext == "php"@ ==> language_for_extension_spec(ext) == Some("php"@),
        ext == "ps1"@ ==> language_for_extension_spec(ext) == Some("powershell"@),
        ext == "py"@ ==> language_for_extension_spec(ext) == Some("python"@),
        ext == "r"@ ==> language_for_extension_spec(ext) == Some("r"@),
        ext == "rb"@ ==> language_for_extension_spec(ext) == Some("ruby"@),
        ext == "rs"@ ==> language_for_extension_spec(ext) == Some("rust"@),
        ext == "scala"@ ==> language_for_extension_spec(ext) == Some("scala"@),
        ext == "sc"@ ==> language_for_extension_spec(ext) == Some("scala"@),
        ext == "scm"@ ==> language_for_extension_spec(ext) == Some("scheme"@),
        ext == "sol"@ ==> language_for_extension_spec(ext) == Some("solidity"@),
        ext == "sql"@ ==> language_for_extension_spec(ext) == Some("sql"@),
        ext == "swift"@ ==> language_for_extension_spec(ext) == Some("swift"@),
        ext == "ts"@ ==> language_for_extension_spec(ext) == Some("typescript"@),
        ext == "tsx"@ ==> language_for_extension_spec(ext) == Some("typescript"@),
        ext == "vb"@ ==> language_for_extension_spec(ext) == Some("vbnet"@),
        ext == "zig"@ ==> language_for_extension_spec(ext) == Some("zig"@),
{
    let t = extension_table();
    reveal_strlit("adb");
    reveal_strlit("ads");
    reveal_strlit("asm");
    reveal_strlit("bash");
    reveal_strlit("c");
    reveal_strlit("cc");
    reveal_strlit("clj");
    reveal_strlit("cljs");
    reveal_strlit("cpp");
    reveal_strlit("cr");
    reveal_strlit("cs");
    reveal_strlit("cxx");
    reveal_strlit("d");
    reveal_strlit("dart");
    reveal_strlit("erl");
    reveal_strlit("ex");
    reveal_strlit("exs");
    reveal_strlit("f");
    reveal_strlit("f90");
    reveal_strlit("f95");
    reveal_strlit("fs");
    reveal_strlit("fsx");
    reveal_strlit("go");
    reveal_strlit("groovy");
    reveal_strlit("h");
    reveal_strlit("hh");
    reveal_strlit("hpp");
    reveal_strlit("hs");
    reveal_strlit("java");
    reveal_strlit("jl");
    reveal_strlit("js");
    reveal_strlit("jsx");
    reveal_strlit("kt");
    reveal_strlit("kts");
    reveal_strlit("lisp");
    reveal_strlit("lsp");
    reveal_strlit("lua");
    reveal_strlit("m");
    reveal_strlit("mjs");
    reveal_strlit("ml");
    reveal_strlit("mli");
    reveal_strlit("mm");
    reveal_strlit("nim");
    reveal_strlit("pas");
    reveal_strlit("php");
    reveal_strlit("pl");
    reveal_strlit("pm");
    reveal_strlit("ps1");
    reveal_strlit("py");
    reveal_strlit("r");
    reveal_strlit("rb");
    reveal_strlit("rs");
    reveal_strlit("s");
    reveal_strlit("sc");
    reveal_strlit("scala");
    reveal_strlit("scm");
    reveal_strlit("sh");
    reveal_strlit("sol");
    reveal_strlit("sql");
    reveal_strlit("swift");
    reveal_strlit("ts");
    reveal_strlit("tsx");
    reveal_strlit("vb");
    reveal_strlit("zig");
    reveal_strlit("ada");
    reveal_strlit("assembly");
    reveal_strlit("clojure");
    reveal_strlit("crystal");
    reveal_strlit("csharp");
    reveal_strlit("elixir");
    reveal_strlit("erlang");
    reveal_strlit("fortran");
    reveal_strlit("fsharp");
    reveal_strlit("haskell");
    reveal_strlit("javascript");
    reveal_strlit("julia");
    reveal_strlit("kotlin");
    reveal_strlit("matlab");
    reveal_strlit("objc");
    reveal_strlit("ocaml");
    reveal_strlit("pascal");
    reveal_strlit("perl");
    reveal_strlit("powershell");
    reveal_strlit("python");
    reveal_strlit("ruby");
    reveal_strlit("rust");
    reveal_strlit("scheme");
    reveal_strlit("solidity");
    reveal_strlit("typescript");
    reveal_strlit("vbnet");
    assert(t.len() == 64);
    assert(t[0] == ("adb"@, "ada"@));
    assert("adb"@.len() == 3 && "adb"@[0] == 'a' && "adb"@[1] == 'd' && "adb"@[2] == 'b');
    assert(t[1] == ("ads"@, "ada"@));
    assert("ads"@.len() == 3 && "ads"@[0] == 'a' && "ads"@[1] == 'd' && "ads"@[2] == 's');
    assert(t[2] == ("asm"@, "assembly"@));
    assert("asm"@.len() == 3 && "asm"@[0] == 'a' && "asm"@[1] == 's' && "asm"@[2] == 'm');
    assert(t[3] == ("s"@, "assembly"@));
    assert("s"@.len() == 1 && "s"@[0] == 's');
    assert(t[4] == ("sh"@, "bash"@));
    assert("sh"@.len() == 2 && "sh"@[0] == 's' && "sh"@[1] == 'h');
    assert(t[5] == ("bash"@, "bash"@));
    assert("bash"@.len() == 4 && "bash"@[0] == 'b' && "bash"@[1] == 'a' && "bash"@[2] == 's' && "bash"@[3] == 'h');
    assert(t[6] == ("c"@, "c"@));
    assert("c"@.len() == 1 && "c"@[0] == 'c');
    assert(t[7] == ("h"@, "c"@));
    assert("h"@.len() == 1 && "h"@[0] == 'h');
    assert(t[8] == ("clj"@, "clojure"@));
    assert("clj"@.len() == 3 && "clj"@[0] == 'c' && "clj"@[1] == 'l' && "clj"@[2] == 'j');
    assert(t[9] == ("cljs"@, "clojure"@));
    assert("cljs"@.len() == 4 && "cljs"@[0] == 'c' && "cljs"@[1] == 'l' && "cljs"@[2] == 'j' && "cljs"@[3] == 's');
    assert(t[10] == ("cpp"@, "cpp"@));
    assert("cpp"@.len() == 3 && "cpp"@[0] == 'c' && "cpp"@[1] == 'p' && "cpp"@[2] == 'p');
    assert(t[11] == ("cc"@, "cpp"@));
    assert("cc"@.len() == 2 && "cc"@[0] == 'c' && "cc"@[1] == 'c');
    assert(t[12] == ("cxx"@, "cpp"@));
    assert("cxx"@.len() == 3 && "cxx"@[0] == 'c' && "cxx"@[1] == 'x' && "cxx"@[2] == 'x');
    assert(t[13] == ("hpp"@, "cpp"@));
    assert("hpp"@.len() == 3 && "hpp"@[0] == 'h' && "hpp"@[1] == 'p' && "hpp"@[2] == 'p');
    assert(t[14] == ("hh"@, "cpp"@));
    assert("hh"@.len() == 2 && "hh"@[0] == 'h' && "hh"@[1] == 'h');
    assert(t[15] == ("cr"@, "crystal"@));
    assert("cr"@.len() == 2 && "cr"@[0] == 'c' && "cr"@[1] == 'r');
    assert(t[16] == ("cs"@, "csharp"@));
    assert("cs"@.len() == 2 && "cs"@[0] == 'c' && "cs"@[1] == 's');
    assert(t[17] == ("d"@, "d"@));
    assert("d"@.len() == 1 && "d"@[0] == 'd');
    assert(t[18] == ("dart"@, "dart"@));
    assert("dart"@.len() == 4 && "dart"@[0] == 'd' && "dart"@[1] == 'a' && "dart"@[2] == 'r' && "dart"@[3] == 't');
    assert(t[19] == ("ex"@, "elixir"@));
    assert("ex"@.len() == 2 && "ex"@[0] == 'e' && "ex"@[1] == 'x');
    assert(t[20] == ("exs"@, "elixir"@));
    assert("exs"@.len() == 3 && "exs"@[0] == 'e' && "exs"@[1] == 'x' && "exs"@[2] == 's');
    assert(t[21] == ("erl"@, "erlang"@));
    assert("erl"@.len() == 3 && "erl"@[0] == 'e' && "erl"@[1] == 'r' && "erl"@[2] == 'l');
    assert(t[22] == ("f90"@, "fortran"@));
    assert("f90"@.len() == 3 && "f90"@[0] == 'f' && "f90"@[1] == '9' && "f90"@[2] == '0');
    assert(t[23] == ("f95"@, "fortran"@));
    assert("f95"@.len() == 3 && "f95"@[0] == 'f' && "f95"@[1] == '9' && "f95"@[2] == '5');
    assert(t[24] == ("f"@, "fortran"@));
    assert("f"@.len() == 1 && "f"@[0] == 'f');
    assert(t[25] == ("fs"@, "fsharp"@));
    assert("fs"@.len() == 2 && "fs"@[0] == 'f' && "fs"@[1] == 's');
    assert(t[26] == ("fsx"@, "fsharp"@));
    assert("fsx"@.len() == 3 && "fsx"@[0] == 'f' && "fsx"@[1] == 's' && "fsx"@[2] == 'x');
    assert(t[27] == ("go"@, "go"@));
    assert("go"@.len() == 2 && "go"@[0] == 'g' && "go"@[1] == 'o');
    assert(t[28] == ("groovy"@, "groovy"@));
    assert("groovy"@.len() == 6 && "groovy"@[0] == 'g' && "groovy"@[1] == 'r' && "groovy"@[2] == 'o' && "groovy"@[3] == 'o' && "groovy"@[4] == 'v' && "groovy"@[5] == 'y');
    assert(t[29] == ("hs"@, "haskell"@));
    assert("hs"@.len() == 2 && "hs"@[0] == 'h' && "hs"@[1] == 's');
    assert(t[30] == ("java"@, "java"@));
    assert("java"@.len() == 4 && "java"@[0] == 'j' && "java"@[1] == 'a' && "java"@[2] == 'v' && "java"@[3] == 'a');
    assert(t[31] == ("js"@, "javascript"@));
    assert("js"@.len() == 2 && "js"@[0] == 'j' && "js"@[1] == 's');
    assert(t[32] == ("jsx"@, "javascript"@));
    assert("jsx"@.len() == 3 && "jsx"@[0] == 'j' && "jsx"@[1] == 's' && "jsx"@[2] == 'x');
    assert(t[33] == ("mjs"@, "javascript"@));
    assert("mjs"@.len() == 3 && "mjs"@[0] == 'm' && "mjs"@[1] == 'j' && "mjs"@[2] == 's');
    assert(t[34] == ("jl"@, "julia"@));
    assert("jl"@.len() == 2 && "jl"@[0] == 'j' && "jl"@[1] == 'l');
    assert(t[35] == ("kt"@, "kotlin"@));
    assert("kt"@.len() == 2 && "kt"@[0] == 'k' && "kt"@[1] == 't');
    assert(t[36] == ("kts"@, "kotlin"@));
    assert("kts"@.len() == 3 && "kts"@[0] == 'k' && "kts"@[1] == 't' && "kts"@[2] == 's');
    assert(t[37] == ("lisp"@, "lisp"@));
    assert("lisp"@.len() == 4 && "lisp"@[0] == 'l' && "lisp"@[1] == 'i' && "lisp"@[2] == 's' && "lisp"@[3] == 'p');
    assert(t[38] == ("lsp"@, "lisp"@));
    assert("lsp"@.len() == 3 && "lsp"@[0] == 'l' && "lsp"@[1] == 's' && "lsp"@[2] == 'p');
    assert(t[39] == ("lua"@, "lua"@));
    assert("lua"@.len() == 3 && "lua"@[0] == 'l' && "lua"@[1] == 'u' && "lua"@[2] == 'a');
    assert(t[40] == ("m"@, "matlab"@));
    assert("m"@.len() == 1 && "m"@[0] == 'm');
    assert(t[41] == ("nim"@, "nim"@));
    assert("nim"@.len() == 3 && "nim"@[0] == 'n' && "nim"@[1] == 'i' && "nim"@[2] == 'm');
    assert(t[42] == ("mm"@, "objc"@));
    assert("mm"@.len() == 2 && "mm"@[0] == 'm' && "mm"@[1] == 'm');
    assert(t[43] == ("ml"@, "ocaml"@));
    assert("ml"@.len() == 2 && "ml"@[0] == 'm' && "ml"@[1] == 'l');
    assert(t[44] == ("mli"@, "ocaml"@));
    assert("mli"@.len() == 3 && "mli"@[0] == 'm' && "mli"@[1] == 'l' && "mli"@[2] == 'i');
    assert(t[45] == ("pas"@, "pascal"@));
    assert("pas"@.len() == 3 && "pas"@[0] == 'p' && "pas"@[1] == 'a' && "pas"@[2] == 's');
    assert(t[46] == ("pl"@, "perl"@));
    assert("pl"@.len() == 2 && "pl"@[0] == 'p' && "pl"@[1] == 'l');
    assert(t[47] == ("pm"@, "perl"@));
    assert("pm"@.len() == 2 && "pm"@[0] == 'p' && "pm"@[1] == 'm');
    assert(t[48] == ("php"@, "php"@));
    assert("php"@.len() == 3 && "php"@[0] == 'p' && "php"@[1] == 'h' && "php"@[2] == 'p');
    assert(t[49] == ("ps1"@, "powershell"@));
    assert("ps1"@.len() == 3 && "ps1"@[0] == 'p' && "ps1"@[1] == 's' && "ps1"@[2] == '1');
    assert(t[50] == ("py"@, "python"@));
    assert("py"@.len() == 2 && "py"@[0] == 'p' && "py"@[1] == 'y');
    assert(t[51] == ("r"@, "r"@));
    assert("r"@.len() == 1 && "r"@[0] == 'r');
    assert(t[52] == ("rb"@, "ruby"@));
    assert("rb"@.len() == 2 && "rb"@[0] == 'r' && "rb"@[1] == 'b');
    assert(t[53] == ("rs"@, "rust"@));
    assert("rs"@.len() == 2 && "rs"@[0] == 'r' && "rs"@[1] == 's');
    assert(t[54] == ("scala"@, "scala"@));
    assert("scala"@.len() == 5 && "scala"@[0] == 's' && "scala"@[1] == 'c' && "scala"@[2] == 'a' && "scala"@[3] == 'l' && "scala"@[4] == 'a');
    assert(t[55] == ("sc"@, "scala"@));
    assert("sc"@.len() == 2 && "sc"@[0] == 's' && "sc"@[1] == 'c');
    assert(t[56] == ("scm"@, "scheme"@));
    assert("scm"@.len() == 3 && "scm"@[0] == 's' && "scm"@[1] == 'c' && "scm"@[2] == 'm');
    assert(t[57] == ("sol"@, "solidity"@));
    assert("sol"@.len() == 3 && "sol"@[0] == 's' && "sol"@[1] == 'o' && "sol"@[2] == 'l');
    assert(t[58] == ("sql"@, "sql"@));
    assert("sql"@.len() == 3 && "sql"@[0] == 's' && "sql"@[1] == 'q' && "sql"@[2] == 'l');
    assert(t[59] == ("swift"@, "swift"@));
    assert("swift"@.len() == 5 && "swift"@[0] == 's' && "swift"@[1] == 'w' && "swift"@[2] == 'i' && "swift"@[3] == 'f' && "swift"@[4] == 't');
    assert(t[60] == ("ts"@, "typescript"@));
    assert("ts"@.len() == 2 && "ts"@[0] == 't' && "ts"@[1] == 's');
    assert(t[61] == ("tsx"@, "typescript"@));
    assert("tsx"@.len() == 3 && "tsx"@[0] == 't' && "tsx"@[1] == 's' && "tsx"@[2] == 'x');
    assert(t[62] == ("vb"@, "vbnet"@));
    assert("vb"@.len() == 2 && "vb"@[0] == 'v' && "vb"@[1] == 'b');
    assert(t[63] == ("zig"@, "zig"@));
    assert("zig"@.len() == 3 && "zig"@[0] == 'z' && "zig"@[1] == 'i' && "zig"@[2] == 'g');
    if ext == "adb"@ {
        lemma_first_entry_selects(t, ext, 0, 0);
    }
    if ext == "ads"@ {
        lemma_first_entry_selects(t, ext, 0, 1);
    }
    if ext == "asm"@ {
        lemma_first_entry_selects(t, ext, 0, 2);
    }
    if ext == "s"@ {
        lemma_first_entry_selects(t, ext, 0, 3);
    }
    if ext == "sh"@ {
        lemma_first_entry_selects(t, ext, 0, 4);
    }
    if ext == "bash"@ {
        lemma_first_entry_selects(t, ext, 0, 5);
    }
    if ext == "c"@ {
        lemma_first_entry_selects(t, ext, 0, 6);
    }
    if ext == "h"@ {
        lemma_first_entry_selects(t, ext, 0, 7);
    }
    if ext == "clj"@ {
        lemma_first_entry_selects(t, ext, 0, 8);
    }
    if ext == "cljs"@ {
        lemma_first_entry_selects(t, ext, 0, 9);
    }
    if ext == "cpp"@ {
        lemma_first_entry_selects(t, ext, 0, 10);
    }
    if ext == "cc"@ {
        lemma_first_entry_selects(t, ext, 0, 11);
    }
    if ext == "cxx"@ {
        lemma_first_entry_selects(t, ext, 0, 12);
    }
    if ext == "hpp"@ {
        lemma_first_entry_selects(t, ext, 0, 13);
    }
    if ext == "hh"@ {
        lemma_first_entry_selects(t, ext, 0, 14);
    }
    if ext == "cr"@ {
        lemma_first_entry_selects(t, ext, 0, 15);
    }
    if ext == "cs"@ {
        lemma_first_entry_selects(t, ext, 0, 16);
    }
    if ext == "d"@ {
        lemma_first_entry_selects(t, ext, 0, 17);
    }
    if ext == "dart"@ {
        lemma_first_entry_selects(t, ext, 0, 18);
    }
    if ext == "ex"@ {
        lemma_first_entry_selects(t, ext, 0, 19);
    }
    if ext == "exs"@ {
        lemma_first_entry_selects(t, ext, 0, 20);
    }
    if ext == "erl"@ {
        lemma_first_entry_selects(t, ext, 0, 21);
    }
    if ext == "f90"@ {
        lemma_first_entry_selects(t, ext, 0, 22);
    }
    if ext == "f95"@ {
        lemma_first_entry_selects(t, ext, 0, 23);
    }
    if ext == "f"@ {
        lemma_first_entry_selects(t, ext, 0, 24);
    }
    if ext == "fs"@ {
        lemma_first_entry_selects(t, ext, 0, 25);
    }
    if ext == "fsx"@ {
        lemma_first_entry_selects(t, ext, 0, 26);
    }
    if ext == "go"@ {
        lemma_first_entry_selects(t, ext, 0, 27);
    }
    if ext == "groovy"@ {
        lemma_first_entry_selects(t, ext, 0, 28);
    }
    if ext == "hs"@ {
        lemma_first_entry_selects(t, ext, 0, 29);
    }
    if ext == "java"@ {
        lemma_first_entry_selects(t, ext, 0, 30);
    }
    if ext == "js"@ {
        lemma_first_entry_selects(t, ext, 0, 31);
    }
    if ext == "jsx"@ {
        lemma_first_entry_selects(t, ext, 0, 32);
    }
    if ext == "mjs"@ {
        lemma_first_entry_selects(t, ext, 0, 33);
    }
    if ext == "jl"@ {
        lemma_first_entry_selects(t, ext, 0, 34);
    }
    if ext == "kt"@ {
        lemma_first_entry_selects(t, ext, 0, 35);
    }
    if ext == "kts"@ {
        lemma_first_entry_selects(t, ext, 0, 36);
    }
    if ext == "lisp"@ {
        lemma_first_entry_selects(t, ext, 0, 37);
    }
    if ext == "lsp"@ {
        lemma_first_entry_selects(t, ext, 0, 38);
    }
    if ext == "lua"@ {
        lemma_first_entry_selects(t, ext, 0, 39);
    }
    if ext == "m"@ {
        lemma_first_entry_selects(t, ext, 0, 40);
    }
    if ext == "nim"@ {
        lemma_first_entry_selects(t, ext, 0, 41);
    }
    if ext == "mm"@ {
        lemma_first_entry_selects(t, ext, 0, 42);
    }
    if ext == "ml"@ {
        lemma_first_entry_selects(t, ext, 0, 43);
    }
    if ext == "mli"@ {
        lemma_first_entry_selects(t, ext, 0, 44);
    }
    if ext == "pas"@ {
        lemma_first_entry_selects(t, ext, 0, 45);
    }
    if ext == "pl"@ {
        lemma_first_entry_selects(t, ext, 0, 46);
    }
    if ext == "pm"@ {
        lemma_first_entry_selects(t, ext, 0, 47);
    }
    if ext == "php"@ {
        lemma_first_entry_selects(t, ext, 0, 48);
    }
    if ext == "ps1"@ {
        lemma_first_entry_selects(t, ext, 0, 49);
    }
    if ext == "py"@ {
        lemma_first_entry_selects(t, ext, 0, 50);
    }
    if ext == "r"@ {
        lemma_first_entry_selects(t, ext, 0, 51);
    }
    if ext == "rb"@ {
        lemma_first_entry_selects(t, ext, 0, 52);
    }
    if ext == "rs"@ {
        lemma_first_entry_selects(t, ext, 0, 53);
    }
    if ext == "scala"@ {
        lemma_first_entry_selects(t, ext, 0, 54);
    }
    if ext == "sc"@ {
        lemma_first_entry_selects(t, ext, 0, 55);
    }
    if ext == "scm"@ {
        lemma_first_entry_selects(t, ext, 0, 56);
    }
    if ext == "sol"@ {
        lemma_first_entry_selects(t, ext, 0, 57);
    }
    if ext == "sql"@ {
        lemma_first_entry_selects(t, ext, 0, 58);
    }
    if ext == "swift"@ {
        lemma_first_entry_selects(t, ext, 0, 59);
    }
    if ext == "ts"@ {
        lemma_first_entry_selects(t, ext, 0, 60);
    }
    if ext == "tsx"@ {
        lemma_first_entry_selects(t, ext, 0, 61);
    }
    if ext == "vb"@ {
        lemma_first_entry_selects(t, ext, 0, 62);
    }
    if ext == "zig"@ {
        lemma_first_entry_selects(t, ext, 0, 63);
    }
}

} // verus!
