//! The languages that functions are written in, and where each runs.

use vstd::prelude::*;
use vstd::string::*;
use vstd::utf8::is_ascii_chars;
use crate::text::{
    chars_of, concat, is_listed, lemma_pieces_extend, lemma_pieces_single, listed, pieces,
    same_text, split, text_of, texts,
};

verus! {

/// Where a module runs.
#[derive(Debug, Clone, Copy, PartialEq, Eq, Structural)]
pub enum ModuleEnvironment {
    Isolate,
    Node,
    Invalid,
    Wasm,
}

/// The language of a module. Every guest language runs as WebAssembly.
#[derive(Debug, Clone, Copy, PartialEq, Eq, Structural)]
pub enum ModuleLanguage {
    TS,
    RustWasm,
    GoWasm,
    Zig,
    CWasm,
    KotlinWasm,
    DartWasm,
    CSharpWasm,
}

/// The text that `str::to_lowercase` gives.
pub uninterp spec fn lower_text(s: Seq<char>) -> Seq<char>;

/// An ASCII letter in lower case.
pub open spec fn ascii_lower(c: char) -> char {
    if 'A' <= c && c <= 'Z' {
        (c as u32 + 32) as char
    } else {
        c
    }
}

/// `str::to_lowercase`: a text in lower case. Of ASCII text, only the letters `A` to `Z` change.
#[verifier::external_body]
fn to_lower(s: &str) -> (r: String)
    ensures
        r@ == lower_text(s@),
        is_ascii_chars(s@) ==> r@ == ascii_lowered(s@),
{
    s.to_lowercase()
}

/// A text with its ASCII letters in lower case.
pub open spec fn ascii_lowered(s: Seq<char>) -> Seq<char> {
    s.map_values(|c: char| ascii_lower(c))
}

/// Whether a piece of a path is a name: not empty, and not the current directory.
pub open spec fn is_name(piece: Seq<char>) -> bool {
    piece.len() > 0 && piece != "."@
}

/// The last piece that is a name, if there is one.
pub open spec fn last_name(ps: Seq<Seq<char>>) -> Option<Seq<char>>
    decreases ps.len(),
{
    if ps.len() == 0 {
        None
    } else if is_name(ps.last()) {
        Some(ps.last())
    } else {
        last_name(ps.drop_last())
    }
}

/// The file name of a path: its last name, unless that is the parent directory.
pub open spec fn file_name(path: Seq<char>) -> Option<Seq<char>> {
    match last_name(pieces(path, '/')) {
        Some(name) if name != ".."@ => Some(name),
        _ => None,
    }
}

/// The position of the last `.`, or -1.
pub open spec fn last_dot(s: Seq<char>) -> int
    decreases s.len(),
{
    if s.len() == 0 {
        -1
    } else if s.last() == '.' {
        s.len() - 1
    } else {
        last_dot(s.drop_last())
    }
}

/// The extension of a path: what follows the last `.` of its file name, unless the name has no `.`
/// but at its start.
pub open spec fn extension(path: Seq<char>) -> Option<Seq<char>> {
    match file_name(path) {
        Some(name) if last_dot(name) > 0 => Some(name.skip(last_dot(name) + 1)),
        _ => None,
    }
}

proof fn lemma_last_dot(s: Seq<char>)
    ensures
        -1 <= last_dot(s) < s.len(),
    decreases s.len(),
{
    if s.len() > 0 {
        lemma_last_dot(s.drop_last());
    }
}

fn path_file_name(path: &str) -> (r: Option<String>)
    ensures
        match r {
            Some(s) => file_name(path@) == Some(s@),
            None => file_name(path@) is None,
        },
{
    let parts = split(path, '/');
    let ghost all = pieces(path@, '/');
    let mut i: usize = parts.len();
    assert(all.take(i as int) =~= all);
    while i > 0
        invariant
            i <= parts.len(),
            texts(parts@) == all,
            all == pieces(path@, '/'),
            last_name(all) == last_name(all.take(i as int)),
        decreases i,
    {
        assert(all.take(i as int).drop_last() =~= all.take(i - 1));
        i -= 1;
        let part = parts[i].as_str();
        assert(all[i as int] == part@);
        if !part.is_empty() && !same_text(part, ".") {
            return if same_text(part, "..") {
                None
            } else {
                Some(parts[i].clone())
            };
        }
    }
    None
}

/// The extension of a path.
pub fn path_extension(path: &str) -> (r: Option<String>)
    ensures
        match r {
            Some(s) => extension(path@) == Some(s@),
            None => extension(path@) is None,
        },
{
    let name = path_file_name(path)?;
    let chars = chars_of(name.as_str());
    let ghost all = name@;
    proof {
        lemma_last_dot(all);
    }
    let mut i: usize = chars.len();
    assert(all.take(i as int) =~= all);
    while i > 0
        invariant
            i <= chars.len(),
            chars@ == all,
            all == name@,
            file_name(path@) == Some(all),
            last_dot(all) == last_dot(all.take(i as int)),
        decreases i,
    {
        assert(all.take(i as int).drop_last() =~= all.take(i - 1));
        i -= 1;
        if chars[i] == '.' {
            if i == 0 {
                return None;
            }
            let tail = vstd::slice::slice_subrange(chars.as_slice(), i + 1, chars.len());
            assert(tail@ =~= all.skip(i + 1));
            return Some(text_of(tail));
        }
    }
    None
}

/// The language with an extension, which is in lower case.
pub open spec fn language_of(ext: Seq<char>) -> Option<ModuleLanguage> {
    if ext == "ts"@ || ext == "tsx"@ || ext == "mts"@ || ext == "cts"@ || ext == "js"@ || ext
        == "mjs"@ || ext == "cjs"@ || ext == "jsx"@ {
        Some(ModuleLanguage::TS)
    } else if ext == "rs"@ {
        Some(ModuleLanguage::RustWasm)
    } else if ext == "go"@ {
        Some(ModuleLanguage::GoWasm)
    } else if ext == "zig"@ {
        Some(ModuleLanguage::Zig)
    } else if ext == "c"@ {
        Some(ModuleLanguage::CWasm)
    } else if ext == "kt"@ {
        Some(ModuleLanguage::KotlinWasm)
    } else if ext == "dart"@ {
        Some(ModuleLanguage::DartWasm)
    } else if ext == "cs"@ {
        Some(ModuleLanguage::CSharpWasm)
    } else {
        None
    }
}

/// Whether a language runs as WebAssembly.
pub open spec fn wasm_language(l: ModuleLanguage) -> bool {
    l != ModuleLanguage::TS
}

/// The extensions of guest modules.
pub open spec fn wasm_extensions() -> Seq<&'static str> {
    seq!["rs", "go", "zig", "c", "kt", "dart", "cs"]
}

impl ModuleLanguage {
    /// The language with an extension, which is in lower case.
    pub fn from_lower_extension(ext: &str) -> (r: Option<ModuleLanguage>)
        ensures
            r == language_of(ext@),
    {
        if is_listed(&["ts", "tsx", "mts", "cts", "js", "mjs", "cjs", "jsx"], ext) {
            proof {
                lemma_ts_extensions(ext@);
            }
            return Some(ModuleLanguage::TS);
        }
        proof {
            lemma_ts_extensions(ext@);
        }
        if same_text(ext, "rs") {
            Some(ModuleLanguage::RustWasm)
        } else if same_text(ext, "go") {
            Some(ModuleLanguage::GoWasm)
        } else if same_text(ext, "zig") {
            Some(ModuleLanguage::Zig)
        } else if same_text(ext, "c") {
            Some(ModuleLanguage::CWasm)
        } else if same_text(ext, "kt") {
            Some(ModuleLanguage::KotlinWasm)
        } else if same_text(ext, "dart") {
            Some(ModuleLanguage::DartWasm)
        } else if same_text(ext, "cs") {
            Some(ModuleLanguage::CSharpWasm)
        } else {
            None
        }
    }

    /// The language of the module at a path, whatever the case of its extension.
    pub fn from_extension(path: &str) -> (r: Option<ModuleLanguage>)
        ensures
            r == (match extension(path@) {
                Some(ext) => language_of(lower_text(ext)),
                None => None,
            }),
            extension(path@) matches Some(ext) ==> is_ascii_chars(ext) ==> r == language_of(
                ascii_lowered(ext),
            ),
    {
        match path_extension(path) {
            None => None,
            Some(ext) => ModuleLanguage::from_lower_extension(to_lower(ext.as_str()).as_str()),
        }
    }

    /// Whether a language runs as WebAssembly.
    pub fn is_wasm(&self) -> (r: bool)
        ensures
            r == wasm_language(*self),
    {
        match self {
            ModuleLanguage::TS => false,
            ModuleLanguage::RustWasm
            | ModuleLanguage::GoWasm
            | ModuleLanguage::Zig
            | ModuleLanguage::CWasm
            | ModuleLanguage::KotlinWasm
            | ModuleLanguage::DartWasm
            | ModuleLanguage::CSharpWasm => true,
        }
    }

    /// Where a language runs.
    pub fn environment(&self) -> (r: ModuleEnvironment)
        ensures
            r == (if wasm_language(*self) {
                ModuleEnvironment::Wasm
            } else {
                ModuleEnvironment::Isolate
            }),
    {
        match self {
            ModuleLanguage::TS => ModuleEnvironment::Isolate,
            ModuleLanguage::RustWasm
            | ModuleLanguage::GoWasm
            | ModuleLanguage::Zig
            | ModuleLanguage::CWasm
            | ModuleLanguage::KotlinWasm
            | ModuleLanguage::DartWasm
            | ModuleLanguage::CSharpWasm => ModuleEnvironment::Wasm,
        }
    }

    /// The name of a language.
    pub fn name(&self) -> (r: &'static str)
        ensures
            r@ == language_name(*self),
    {
        match self {
            ModuleLanguage::TS => "TS",
            ModuleLanguage::RustWasm => "RustWasm",
            ModuleLanguage::GoWasm => "GoWasm",
            ModuleLanguage::Zig => "Zig",
            ModuleLanguage::CWasm => "CWasm",
            ModuleLanguage::KotlinWasm => "KotlinWasm",
            ModuleLanguage::DartWasm => "DartWasm",
            ModuleLanguage::CSharpWasm => "CSharpWasm",
        }
    }

    /// The language with a name.
    pub fn from_str(s: &str) -> (r: Result<ModuleLanguage, String>)
        ensures
            match language_named(s@) {
                Some(l) => r matches Ok(got) && got == l,
                None => r matches Err(e) && e@ == "Unknown ModuleLanguage "@ + s@,
            },
    {
        if same_text(s, "TS") || same_text(s, "TypeScript") {
            Ok(ModuleLanguage::TS)
        } else if same_text(s, "RustWasm") {
            Ok(ModuleLanguage::RustWasm)
        } else if same_text(s, "GoWasm") {
            Ok(ModuleLanguage::GoWasm)
        } else if same_text(s, "Zig") {
            Ok(ModuleLanguage::Zig)
        } else if same_text(s, "CWasm") {
            Ok(ModuleLanguage::CWasm)
        } else if same_text(s, "KotlinWasm") {
            Ok(ModuleLanguage::KotlinWasm)
        } else if same_text(s, "DartWasm") {
            Ok(ModuleLanguage::DartWasm)
        } else if same_text(s, "CSharpWasm") {
            Ok(ModuleLanguage::CSharpWasm)
        } else {
            Err(concat("Unknown ModuleLanguage ", s))
        }
    }
}

/// The name of a language.
pub open spec fn language_name(l: ModuleLanguage) -> Seq<char> {
    match l {
        ModuleLanguage::TS => "TS"@,
        ModuleLanguage::RustWasm => "RustWasm"@,
        ModuleLanguage::GoWasm => "GoWasm"@,
        ModuleLanguage::Zig => "Zig"@,
        ModuleLanguage::CWasm => "CWasm"@,
        ModuleLanguage::KotlinWasm => "KotlinWasm"@,
        ModuleLanguage::DartWasm => "DartWasm"@,
        ModuleLanguage::CSharpWasm => "CSharpWasm"@,
    }
}

/// The language with a name; TypeScript has two.
pub open spec fn language_named(s: Seq<char>) -> Option<ModuleLanguage> {
    if s == "TS"@ || s == "TypeScript"@ {
        Some(ModuleLanguage::TS)
    } else if s == "RustWasm"@ {
        Some(ModuleLanguage::RustWasm)
    } else if s == "GoWasm"@ {
        Some(ModuleLanguage::GoWasm)
    } else if s == "Zig"@ {
        Some(ModuleLanguage::Zig)
    } else if s == "CWasm"@ {
        Some(ModuleLanguage::CWasm)
    } else if s == "KotlinWasm"@ {
        Some(ModuleLanguage::KotlinWasm)
    } else if s == "DartWasm"@ {
        Some(ModuleLanguage::DartWasm)
    } else if s == "CSharpWasm"@ {
        Some(ModuleLanguage::CSharpWasm)
    } else {
        None
    }
}

/// Every language is found by its name.
pub proof fn names_round_trip(l: ModuleLanguage)
    ensures
        language_named(language_name(l)) == Some(l),
{
    reveal_strlit("TS");
    reveal_strlit("TypeScript");
    reveal_strlit("RustWasm");
    reveal_strlit("GoWasm");
    reveal_strlit("Zig");
    reveal_strlit("CWasm");
    reveal_strlit("KotlinWasm");
    reveal_strlit("DartWasm");
    reveal_strlit("CSharpWasm");
    assert("TS"@.len() == 2 && "TypeScript"@.len() == 10 && "RustWasm"@.len() == 8
        && "GoWasm"@.len() == 6 && "Zig"@.len() == 3 && "CWasm"@.len() == 5 && "KotlinWasm"@.len()
        == 10 && "DartWasm"@.len() == 8 && "CSharpWasm"@.len() == 10);
    assert("TypeScript"@[0] == 'T' && "KotlinWasm"@[0] == 'K' && "CSharpWasm"@[0] == 'C'
        && "RustWasm"@[0] == 'R' && "DartWasm"@[0] == 'D');
}

proof fn lemma_ts_extensions(ext: Seq<char>)
    ensures
        listed(["ts", "tsx", "mts", "cts", "js", "mjs", "cjs", "jsx"]@, ext) == (ext == "ts"@ || ext
            == "tsx"@ || ext == "mts"@ || ext == "cts"@ || ext == "js"@ || ext == "mjs"@ || ext
            == "cjs"@ || ext == "jsx"@),
{
    let names = ["ts", "tsx", "mts", "cts", "js", "mjs", "cjs", "jsx"]@;
    assert(names[0]@ == "ts"@ && names[1]@ == "tsx"@ && names[2]@ == "mts"@ && names[3]@ == "cts"@
        && names[4]@ == "js"@ && names[5]@ == "mjs"@ && names[6]@ == "cjs"@ && names[7]@
        == "jsx"@);
}

/// Whether modules in an environment run as WebAssembly.
pub fn is_wasm_environment(env: &ModuleEnvironment) -> (r: bool)
    ensures
        r == (*env == ModuleEnvironment::Wasm),
{
    match env {
        ModuleEnvironment::Wasm => true,
        ModuleEnvironment::Isolate | ModuleEnvironment::Node | ModuleEnvironment::Invalid => false,
    }
}

/// Whether an extension, which is in lower case, is that of a guest module.
pub fn is_wasm_extension(ext: &str) -> (r: bool)
    ensures
        r == listed(wasm_extensions(), ext@),
{
    let names: [&str; 7] = ["rs", "go", "zig", "c", "kt", "dart", "cs"];
    assert(names@ =~= wasm_extensions());
    is_listed(&names, ext)
}

/// Whether the module at a path is a guest module.
pub fn is_wasm_guest_path(path: &str) -> (r: bool)
    ensures
        r == (match extension(path@) {
            Some(ext) => listed(wasm_extensions(), lower_text(ext)),
            None => false,
        }),
        extension(path@) matches Some(ext) ==> is_ascii_chars(ext) ==> r == listed(
            wasm_extensions(),
            ascii_lowered(ext),
        ),
{
    match path_extension(path) {
        None => false,
        Some(ext) => is_wasm_extension(to_lower(ext.as_str()).as_str()),
    }
}

/// Guest modules are exactly the modules in a language that runs as WebAssembly.
pub proof fn guest_paths_are_wasm(ext: Seq<char>)
    ensures
        listed(wasm_extensions(), ext) == (language_of(ext) matches Some(l) && wasm_language(l)),
{
    let names = wasm_extensions();
    assert(names[0]@ == "rs"@ && names[1]@ == "go"@ && names[2]@ == "zig"@ && names[3]@ == "c"@
        && names[4]@ == "kt"@ && names[5]@ == "dart"@ && names[6]@ == "cs"@);
    reveal_strlit("ts");
    reveal_strlit("tsx");
    reveal_strlit("mts");
    reveal_strlit("cts");
    reveal_strlit("js");
    reveal_strlit("mjs");
    reveal_strlit("cjs");
    reveal_strlit("jsx");
    reveal_strlit("rs");
    reveal_strlit("go");
    reveal_strlit("zig");
    reveal_strlit("c");
    reveal_strlit("kt");
    reveal_strlit("dart");
    reveal_strlit("cs");
    assert("ts"@.len() == 2 && "ts"@[0] == 't');
    assert("tsx"@.len() == 3 && "tsx"@[0] == 't');
    assert("mts"@.len() == 3 && "mts"@[0] == 'm');
    assert("cts"@.len() == 3 && "cts"@[0] == 'c');
    assert("js"@.len() == 2 && "js"@[0] == 'j');
    assert("mjs"@.len() == 3 && "mjs"@[0] == 'm');
    assert("cjs"@.len() == 3 && "cjs"@[0] == 'c');
    assert("jsx"@.len() == 3 && "jsx"@[0] == 'j');
    assert("rs"@[0] == 'r' && "go"@[0] == 'g' && "zig"@[0] == 'z' && "c"@.len() == 1 && "kt"@[0]
        == 'k' && "dart"@.len() == 4 && "cs"@.len() == 2 && "cs"@[0] == 'c');
}

/// Whether a deployment has modules, and all of them run as WebAssembly.
pub fn is_wasm_only_env(envs: &[ModuleEnvironment]) -> (r: bool)
    ensures
        r == (envs@.len() > 0 && forall|i: int|
            0 <= i < envs@.len() ==> #[trigger] envs@[i] == ModuleEnvironment::Wasm),
{
    let mut i: usize = 0;
    while i < envs.len()
        invariant
            i <= envs.len(),
            forall|j: int| 0 <= j < i ==> #[trigger] envs@[j] == ModuleEnvironment::Wasm,
        decreases envs.len() - i,
    {
        if !is_wasm_environment(&envs[i]) {
            assert(envs@[i as int] != ModuleEnvironment::Wasm);
            return false;
        }
        i += 1;
    }
    envs.len() > 0
}

proof fn lemma_last_dot_at(name: Seq<char>, ext: Seq<char>)
    requires
        !ext.contains('.'),
    ensures
        last_dot(name.push('.') + ext) == name.len(),
    decreases ext.len(),
{
    let s = name.push('.') + ext;
    if ext.len() == 0 {
        assert(s =~= name.push('.'));
    } else {
        let rest = ext.drop_last();
        assert(ext.contains(ext.last()));
        assert(!rest.contains('.')) by {
            if rest.contains('.') {
                let i = choose|i: int| 0 <= i < rest.len() && rest[i] == '.';
                assert(ext[i] == '.');
            }
        }
        lemma_last_dot_at(name, rest);
        assert(s.drop_last() =~= name.push('.') + rest);
        assert(s.last() == ext.last());
    }
}

proof fn lemma_is_name(name: Seq<char>, ext: Seq<char>)
    requires
        name.len() > 0,
        name != seq!['.'] || ext.len() > 0,
    ensures
        is_name(name.push('.') + ext),
        name.push('.') + ext != ".."@,
{
    reveal_strlit(".");
    reveal_strlit("..");
    let s = name.push('.') + ext;
    assert(s.len() >= 2);
    assert("."@.len() == 1);
    if s == ".."@ {
        assert(s.len() == 2);
        assert(name =~= seq!['.']) by {
            assert(s[0] == '.');
            assert(name[0] == s[0]);
        }
    }
}

/// The extension of a file is what follows the last dot of its name, wherever the file lies, as
/// long as something stands before that dot.
pub proof fn extensions_follow_the_last_dot(dir: Seq<char>, name: Seq<char>, ext: Seq<char>)
    requires
        !name.contains('/') && !ext.contains('/'),
        !ext.contains('.'),
        name.len() > 0,
        name != seq!['.'] || ext.len() > 0,
    ensures
        extension(name.push('.') + ext) == Some(ext),
        extension(dir.push('/') + (name.push('.') + ext)) == Some(ext),
{
    let file = name.push('.') + ext;
    assert(!file.contains('/')) by {
        if file.contains('/') {
            let i = choose|i: int| 0 <= i < file.len() && file[i] == '/';
            if i < name.len() {
                assert(name[i] == '/');
            } else if i > name.len() {
                assert(ext[i - name.len() - 1] == '/');
            }
        }
    }
    lemma_is_name(name, ext);
    lemma_last_dot_at(name, ext);
    lemma_pieces_single(file, '/');
    assert(last_name(seq![file]) == Some(file)) by {
        assert(seq![file].last() == file);
    }
    lemma_pieces_extend(dir, '/', file);
    assert(pieces(dir, '/').push(file).last() == file);
    assert(file.skip(last_dot(file) + 1) =~= ext);
}

/// A file without a dot in its name, or with none but the first, has no extension.
pub proof fn hidden_files_have_no_extension(name: Seq<char>)
    requires
        !name.contains('/') && !name.contains('.'),
    ensures
        extension(name) is None,
        extension(seq!['.'] + name) is None,
{
    lemma_pieces_single(name, '/');
    let hidden = seq!['.'] + name;
    assert(!hidden.contains('/')) by {
        if hidden.contains('/') {
            let i = choose|i: int| 0 <= i < hidden.len() && hidden[i] == '/';
            assert(name[i - 1] == '/');
        }
    }
    lemma_pieces_single(hidden, '/');
    lemma_no_dot(name);
    lemma_last_dot_at(Seq::empty(), name);
    assert(Seq::<char>::empty().push('.') + name =~= hidden);
    assert(seq![name].last() == name);
    assert(seq![hidden].last() == hidden);
    assert(seq![name].drop_last() =~= Seq::empty());
    assert(seq![hidden].drop_last() =~= Seq::empty());
    assert(last_name(seq![name].drop_last()) is None);
    assert(last_name(seq![hidden].drop_last()) is None);
}

proof fn lemma_no_dot(s: Seq<char>)
    requires
        !s.contains('.'),
    ensures
        last_dot(s) == -1,
    decreases s.len(),
{
    if s.len() > 0 {
        assert(s.contains(s.last()));
        assert(!s.drop_last().contains('.')) by {
            if s.drop_last().contains('.') {
                let i = choose|i: int| 0 <= i < s.drop_last().len() && s.drop_last()[i] == '.';
                assert(s[i] == '.');
            }
        }
        lemma_no_dot(s.drop_last());
    }
}

/// The extensions that a language is known by: eight for TypeScript and JavaScript, and one for
/// each other language. No other extension is known.
pub proof fn languages_are_known_by_extension(ext: Seq<char>)
    ensures
        language_of(ext) == Some(ModuleLanguage::TS) <==> ext == "ts"@ || ext == "tsx"@ || ext
            == "mts"@ || ext == "cts"@ || ext == "js"@ || ext == "mjs"@ || ext == "cjs"@ || ext
            == "jsx"@,
        language_of(ext) == Some(ModuleLanguage::RustWasm) <==> ext == "rs"@,
        language_of(ext) == Some(ModuleLanguage::GoWasm) <==> ext == "go"@,
        language_of(ext) == Some(ModuleLanguage::Zig) <==> ext == "zig"@,
        language_of(ext) == Some(ModuleLanguage::CWasm) <==> ext == "c"@,
        language_of(ext) == Some(ModuleLanguage::KotlinWasm) <==> ext == "kt"@,
        language_of(ext) == Some(ModuleLanguage::DartWasm) <==> ext == "dart"@,
        language_of(ext) == Some(ModuleLanguage::CSharpWasm) <==> ext == "cs"@,
{
    reveal_strlit("ts");
    reveal_strlit("tsx");
    reveal_strlit("mts");
    reveal_strlit("cts");
    reveal_strlit("js");
    reveal_strlit("mjs");
    reveal_strlit("cjs");
    reveal_strlit("jsx");
    reveal_strlit("rs");
    reveal_strlit("go");
    reveal_strlit("zig");
    reveal_strlit("c");
    reveal_strlit("kt");
    reveal_strlit("dart");
    reveal_strlit("cs");
    assert("ts"@.len() == 2 && "ts"@[0] == 't');
    assert("tsx"@.len() == 3 && "tsx"@[0] == 't');
    assert("mts"@.len() == 3 && "mts"@[0] == 'm');
    assert("cts"@.len() == 3 && "cts"@[0] == 'c');
    assert("js"@.len() == 2 && "js"@[0] == 'j');
    assert("mjs"@.len() == 3 && "mjs"@[0] == 'm');
    assert("cjs"@.len() == 3 && "cjs"@[0] == 'c');
    assert("jsx"@.len() == 3 && "jsx"@[0] == 'j');
    assert("rs"@.len() == 2 && "rs"@[0] == 'r');
    assert("go"@.len() == 2 && "go"@[0] == 'g');
    assert("zig"@.len() == 3 && "zig"@[0] == 'z');
    assert("c"@.len() == 1);
    assert("kt"@.len() == 2 && "kt"@[0] == 'k');
    assert("dart"@.len() == 4);
    assert("cs"@.len() == 2 && "cs"@[0] == 'c');
}

/// The language of a name is the one that has it; beside its own, TypeScript goes by one more name,
/// and no other text names a language.
pub proof fn only_names_name_languages(s: Seq<char>, l: ModuleLanguage)
    ensures
        language_named(s) == Some(l) <==> s == language_name(l) || (l == ModuleLanguage::TS && s
            == "TypeScript"@),
        wasm_language(l) <==> l != ModuleLanguage::TS,
{
    names_round_trip(ModuleLanguage::TS);
    names_round_trip(ModuleLanguage::RustWasm);
    names_round_trip(ModuleLanguage::GoWasm);
    names_round_trip(ModuleLanguage::Zig);
    names_round_trip(ModuleLanguage::CWasm);
    names_round_trip(ModuleLanguage::KotlinWasm);
    names_round_trip(ModuleLanguage::DartWasm);
    names_round_trip(ModuleLanguage::CSharpWasm);
}

/// Upper case makes no difference to an ASCII letter, and nothing else is changed.
pub proof fn lower_case_of_ascii(c: char)
    ensures
        'A' <= c <= 'Z' ==> 'a' <= ascii_lower(c) <= 'z' && ascii_lower(c) as int - 'a' as int
            == c as int - 'A' as int,
        !('A' <= c <= 'Z') ==> ascii_lower(c) == c,
        ascii_lower(ascii_lower(c)) == ascii_lower(c),
{
}

/// A language runs as WebAssembly, and in the environment for it, exactly where it is not
/// TypeScript; TypeScript runs in the JavaScript engine.
pub proof fn languages_run_in_their_environment(
    l: ModuleLanguage,
    is_wasm: bool,
    env: ModuleEnvironment,
    is_wasm_env: bool,
)
    requires
        call_ensures(ModuleLanguage::is_wasm, (&l,), is_wasm),
        call_ensures(ModuleLanguage::environment, (&l,), env),
        call_ensures(is_wasm_environment, (&env,), is_wasm_env),
    ensures
        is_wasm <==> l != ModuleLanguage::TS,
        is_wasm_env == is_wasm,
        !is_wasm ==> env == ModuleEnvironment::Isolate,
{
}

/// The name of a language is read back as that language, and a text that names none is refused and
/// named.
pub proof fn written_languages_are_read_back(
    l: ModuleLanguage,
    name: &'static str,
    read: Result<ModuleLanguage, String>,
)
    requires
        call_ensures(ModuleLanguage::name, (&l,), name),
        call_ensures(ModuleLanguage::from_str, (name,), read),
    ensures
        read == Ok::<ModuleLanguage, String>(l),
{
    names_round_trip(l);
}

/// A path is that of a guest exactly where its extension, in lower case, is known for a language
/// that runs as WebAssembly; and the language of a path is that of its extension.
pub proof fn guest_paths_go_by_extension(
    path: &str,
    is_guest: bool,
    language: Option<ModuleLanguage>,
)
    requires
        call_ensures(is_wasm_guest_path, (path,), is_guest),
        call_ensures(ModuleLanguage::from_extension, (path,), language),
    ensures
        is_guest <==> (language matches Some(l) && l != ModuleLanguage::TS),
        extension(path@) is None ==> language is None,
        extension(path@) matches Some(ext) ==> is_ascii_chars(ext) ==> language == language_of(
            ascii_lowered(ext),
        ),
{
    if let Some(ext) = extension(path@) {
        guest_paths_are_wasm(lower_text(ext));
    }
}

/// Modules are all of WebAssembly where there is one, and where each of them is.
pub proof fn wasm_only_deployments_are_noticed(envs: &[ModuleEnvironment], only: bool)
    requires
        call_ensures(is_wasm_only_env, (envs,), only),
    ensures
        envs@.len() == 0 ==> !only,
        only ==> forall|i: int| 0 <= i < envs@.len() ==> #[trigger] envs@[i]
            == ModuleEnvironment::Wasm,
        !only && envs@.len() > 0 ==> exists|i: int|
            0 <= i < envs@.len() && #[trigger] envs@[i] != ModuleEnvironment::Wasm,
{
}

} // verus!
