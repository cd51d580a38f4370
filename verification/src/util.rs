//! Stateless classification of paths: what to ignore, and which language a
//! file is written in.

use vstd::prelude::*;
use crate::path::{
    extension, extension_of, extension_range, file_name, file_name_range, keep_normal,
    name_ranges, split,
};
use crate::text::{opt_str_text, opt_text, spells, texts, to_chars};

verus! {

/// The language that a file name as a whole stands for: dotfiles and files
/// that are known by their name rather than their extension.
pub open spec fn language_of_name(name: Seq<char>) -> Option<Seq<char>> {
    if name == ".gitignore"@ || name == ".gitattributes"@ || name == ".gitmodules"@ {
        Some("Git Config"@)
    } else if name == "Dockerfile"@ || name == "Containerfile"@ {
        Some("Docker"@)
    } else if name == "Makefile"@ || name == "GNUmakefile"@ {
        Some("Makefile"@)
    } else if name == "Justfile"@ || name == "justfile"@ {
        Some("Just"@)
    } else if name == ".env"@ || name == ".env.local"@ || name == ".env.production"@ {
        Some("Env"@)
    } else if name == "Cargo.toml"@ || name == "Cargo.lock"@ {
        Some("TOML"@)
    } else if name == "package.json"@ || name == "tsconfig.json"@ {
        Some("JSON"@)
    } else {
        None
    }
}

/// The language that a file extension stands for.
pub open spec fn language_of_extension(ext: Seq<char>) -> Option<Seq<char>> {
    if ext == "rs"@ {
        Some("Rust"@)
    } else if ext == "py"@ {
        Some("Python"@)
    } else if ext == "js"@ {
        Some("JavaScript"@)
    } else if ext == "ts"@ {
        Some("TypeScript"@)
    } else if ext == "tsx"@ {
        Some("TypeScript"@)
    } else if ext == "jsx"@ {
        Some("JavaScript"@)
    } else if ext == "go"@ {
        Some("Go"@)
    } else if ext == "java"@ {
        Some("Java"@)
    } else if ext == "kt"@ {
        Some("Kotlin"@)
    } else if ext == "rb"@ {
        Some("Ruby"@)
    } else if ext == "c"@ || ext == "h"@ {
        Some("C"@)
    } else if ext == "cpp"@ || ext == "cc"@ || ext == "cxx"@ || ext == "hpp"@ {
        Some("C++"@)
    } else if ext == "cs"@ {
        Some("C#"@)
    } else if ext == "swift"@ {
        Some("Swift"@)
    } else if ext == "php"@ {
        Some("PHP"@)
    } else if ext == "lua"@ {
        Some("Lua"@)
    } else if ext == "zig"@ {
        Some("Zig"@)
    } else if ext == "vue"@ {
        Some("Vue"@)
    } else if ext == "svelte"@ {
        Some("Svelte"@)
    } else if ext == "html"@ || ext == "htm"@ {
        Some("HTML"@)
    } else if ext == "css"@ || ext == "scss"@ || ext == "sass"@ || ext == "less"@ {
        Some("CSS"@)
    } else if ext == "sql"@ {
        Some("SQL"@)
    } else if ext == "sh"@ || ext == "bash"@ || ext == "zsh"@ {
        Some("Shell"@)
    } else if ext == "toml"@ {
        Some("TOML"@)
    } else if ext == "yaml"@ || ext == "yml"@ {
        Some("YAML"@)
    } else if ext == "json"@ || ext == "jsonc"@ {
        Some("JSON"@)
    } else if ext == "md"@ || ext == "markdown"@ {
        Some("Markdown"@)
    } else if ext == "xml"@ || ext == "svg"@ {
        Some("XML"@)
    } else if ext == "graphql"@ || ext == "gql"@ {
        Some("GraphQL"@)
    } else if ext == "proto"@ {
        Some("Protobuf"@)
    } else if ext == "dockerfile"@ {
        Some("Docker"@)
    } else if ext == "tf"@ || ext == "hcl"@ {
        Some("Terraform"@)
    } else if ext == "r"@ {
        Some("R"@)
    } else if ext == "dart"@ {
        Some("Dart"@)
    } else if ext == "scala"@ {
        Some("Scala"@)
    } else if ext == "ex"@ || ext == "exs"@ {
        Some("Elixir"@)
    } else if ext == "hs"@ {
        Some("Haskell"@)
    } else if ext == "ml"@ || ext == "mli"@ {
        Some("OCaml"@)
    } else if ext == "nix"@ {
        Some("Nix"@)
    } else if ext == "vim"@ {
        Some("Vim Script"@)
    } else if ext == "el"@ {
        Some("Emacs Lisp"@)
    } else {
        None
    }
}

/// The language of the file that `entity` names: by the file name where the
/// name as a whole is known, else by its extension; none where neither is
/// known, so that "unrecognized" can be told from any language.
pub open spec fn language_of(entity: Seq<char>) -> Option<Seq<char>> {
    match file_name(entity) {
        Some(name) => match language_of_name(name) {
            Some(language) => Some(language),
            None => match extension_of(name) {
                Some(ext) => language_of_extension(ext),
                None => None,
            },
        },
        None => None,
    }
}

/// Looks a file name up in the table of names.
fn name_language(chars: &Vec<char>, from: usize, to: usize) -> (found: Option<&'static str>)
    requires
        from <= to <= chars.len(),
    ensures
        opt_str_text(found) == language_of_name(chars@.subrange(from as int, to as int)),
{
    if spells(chars, from, to, ".gitignore")
        || spells(chars, from, to, ".gitattributes")
        || spells(chars, from, to, ".gitmodules") {
        Some("Git Config")
    } else if spells(chars, from, to, "Dockerfile")
        || spells(chars, from, to, "Containerfile") {
        Some("Docker")
    } else if spells(chars, from, to, "Makefile") || spells(chars, from, to, "GNUmakefile") {
        Some("Makefile")
    } else if spells(chars, from, to, "Justfile") || spells(chars, from, to, "justfile") {
        Some("Just")
    } else if spells(chars, from, to, ".env")
        || spells(chars, from, to, ".env.local")
        || spells(chars, from, to, ".env.production") {
        Some("Env")
    } else if spells(chars, from, to, "Cargo.toml") || spells(chars, from, to, "Cargo.lock") {
        Some("TOML")
    } else if spells(chars, from, to, "package.json")
        || spells(chars, from, to, "tsconfig.json") {
        Some("JSON")
    } else {
        None
    }
}

/// Looks an extension up in the table of extensions.
fn extension_language(chars: &Vec<char>, from: usize, to: usize) -> (found: Option<&'static str>)
    requires
        from <= to <= chars.len(),
    ensures
        opt_str_text(found) == language_of_extension(chars@.subrange(from as int, to as int)),
{
    if spells(chars, from, to, "rs") {
        Some("Rust")
    } else if spells(chars, from, to, "py") {
        Some("Python")
    } else if spells(chars, from, to, "js") {
        Some("JavaScript")
    } else if spells(chars, from, to, "ts") {
        Some("TypeScript")
    } else if spells(chars, from, to, "tsx") {
        Some("TypeScript")
    } else if spells(chars, from, to, "jsx") {
        Some("JavaScript")
    } else if spells(chars, from, to, "go") {
        Some("Go")
    } else if spells(chars, from, to, "java") {
        Some("Java")
    } else if spells(chars, from, to, "kt") {
        Some("Kotlin")
    } else if spells(chars, from, to, "rb") {
        Some("Ruby")
    } else if spells(chars, from, to, "c") || spells(chars, from, to, "h") {
        Some("C")
    } else if spells(chars, from, to, "cpp")
        || spells(chars, from, to, "cc")
        || spells(chars, from, to, "cxx")
        || spells(chars, from, to, "hpp") {
        Some("C++")
    } else if spells(chars, from, to, "cs") {
        Some("C#")
    } else if spells(chars, from, to, "swift") {
        Some("Swift")
    } else if spells(chars, from, to, "php") {
        Some("PHP")
    } else if spells(chars, from, to, "lua") {
        Some("Lua")
    } else if spells(chars, from, to, "zig") {
        Some("Zig")
    } else if spells(chars, from, to, "vue") {
        Some("Vue")
    } else if spells(chars, from, to, "svelte") {
        Some("Svelte")
    } else if spells(chars, from, to, "html") || spells(chars, from, to, "htm") {
        Some("HTML")
    } else if spells(chars, from, to, "css")
        || spells(chars, from, to, "scss")
        || spells(chars, from, to, "sass")
        || spells(chars, from, to, "less") {
        Some("CSS")
    } else if spells(chars, from, to, "sql") {
        Some("SQL")
    } else if spells(chars, from, to, "sh")
        || spells(chars, from, to, "bash")
        || spells(chars, from, to, "zsh") {
        Some("Shell")
    } else if spells(chars, from, to, "toml") {
        Some("TOML")
    } else if spells(chars, from, to, "yaml") || spells(chars, from, to, "yml") {
        Some("YAML")
    } else if spells(chars, from, to, "json") || spells(chars, from, to, "jsonc") {
        Some("JSON")
    } else if spells(chars, from, to, "md") || spells(chars, from, to, "markdown") {
        Some("Markdown")
    } else if spells(chars, from, to, "xml") || spells(chars, from, to, "svg") {
        Some("XML")
    } else if spells(chars, from, to, "graphql") || spells(chars, from, to, "gql") {
        Some("GraphQL")
    } else if spells(chars, from, to, "proto") {
        Some("Protobuf")
    } else if spells(chars, from, to, "dockerfile") {
        Some("Docker")
    } else if spells(chars, from, to, "tf") || spells(chars, from, to, "hcl") {
        Some("Terraform")
    } else if spells(chars, from, to, "r") {
        Some("R")
    } else if spells(chars, from, to, "dart") {
        Some("Dart")
    } else if spells(chars, from, to, "scala") {
        Some("Scala")
    } else if spells(chars, from, to, "ex") || spells(chars, from, to, "exs") {
        Some("Elixir")
    } else if spells(chars, from, to, "hs") {
        Some("Haskell")
    } else if spells(chars, from, to, "ml") || spells(chars, from, to, "mli") {
        Some("OCaml")
    } else if spells(chars, from, to, "nix") {
        Some("Nix")
    } else if spells(chars, from, to, "vim") {
        Some("Vim Script")
    } else if spells(chars, from, to, "el") {
        Some("Emacs Lisp")
    } else {
        None
    }
}

fn owned(found: Option<&'static str>) -> (out: Option<String>)
    ensures
        opt_text(out) == opt_str_text(found),
{
    match found {
        Some(label) => Some(label.to_owned()),
        None => None,
    }
}

/// Infers the language of a file from its path.
pub fn infer_language_from_path(entity: &str) -> (language: Option<String>)
    ensures
        opt_text(language) == language_of(entity@),
{
    let chars = to_chars(entity);
    match file_name_range(&chars) {
        Some(name) => {
            let by_name = name_language(&chars, name.0, name.1);
            if by_name.is_some() {
                return owned(by_name);
            }
            match extension_range(&chars, name.0, name.1) {
                Some(ext) => owned(extension_language(&chars, ext.0, ext.1)),
                None => None,
            }
        },
        None => None,
    }
}

/// Directories of version control, dependency caches, build output and
/// editor state.
pub open spec fn ignored_directory(name: Seq<char>) -> bool {
    ||| name == ".git"@
    ||| name == "node_modules"@
    ||| name == "target"@
    ||| name == "__pycache__"@
    ||| name == ".venv"@
    ||| name == "venv"@
    ||| name == ".idea"@
    ||| name == ".vscode"@
    ||| name == "dist"@
    ||| name == "build"@
    ||| name == ".next"@
    ||| name == ".nuxt"@
}

/// Extensions of binaries and lock files.
pub open spec fn ignored_extension(ext: Seq<char>) -> bool {
    ||| ext == "lock"@
    ||| ext == "exe"@
    ||| ext == "dll"@
    ||| ext == "so"@
    ||| ext == "dylib"@
    ||| ext == "o"@
    ||| ext == "a"@
    ||| ext == "pyc"@
    ||| ext == "pyo"@
    ||| ext == "class"@
    ||| ext == "wasm"@
}

/// A path is ignored when one of its named components is an ignored
/// directory, or when its extension is an ignored one.
pub open spec fn ignored(p: Seq<char>) -> bool {
    ||| exists|k: int|
        0 <= k < keep_normal(split(p)).len() && ignored_directory(
            #[trigger] keep_normal(split(p))[k],
        )
    ||| extension(p) matches Some(ext) && ignored_extension(ext)
}

fn is_ignored_directory(chars: &Vec<char>, from: usize, to: usize) -> (yes: bool)
    requires
        from <= to <= chars.len(),
    ensures
        yes == ignored_directory(chars@.subrange(from as int, to as int)),
{
    spells(chars, from, to, ".git")
        || spells(chars, from, to, "node_modules")
        || spells(chars, from, to, "target")
        || spells(chars, from, to, "__pycache__")
        || spells(chars, from, to, ".venv")
        || spells(chars, from, to, "venv")
        || spells(chars, from, to, ".idea")
        || spells(chars, from, to, ".vscode")
        || spells(chars, from, to, "dist")
        || spells(chars, from, to, "build")
        || spells(chars, from, to, ".next")
        || spells(chars, from, to, ".nuxt")
}

fn is_ignored_extension(chars: &Vec<char>, from: usize, to: usize) -> (yes: bool)
    requires
        from <= to <= chars.len(),
    ensures
        yes == ignored_extension(chars@.subrange(from as int, to as int)),
{
    spells(chars, from, to, "lock")
        || spells(chars, from, to, "exe")
        || spells(chars, from, to, "dll")
        || spells(chars, from, to, "so")
        || spells(chars, from, to, "dylib")
        || spells(chars, from, to, "o")
        || spells(chars, from, to, "a")
        || spells(chars, from, to, "pyc")
        || spells(chars, from, to, "pyo")
        || spells(chars, from, to, "class")
        || spells(chars, from, to, "wasm")
}

/// Whether changes to `path` are left out of the activity stream.
pub fn is_ignored_path(path: &str) -> (yes: bool)
    ensures
        yes == ignored(path@),
{
    let chars = to_chars(path);
    let names = name_ranges(&chars);
    let ghost pieces = keep_normal(split(chars@));
    let mut i: usize = 0;
    while i < names.len()
        invariant
            i <= names.len(),
            pieces == keep_normal(split(path@)),
            names.len() == pieces.len(),
            forall|k: int|
                0 <= k < names.len() ==> (#[trigger] names[k]).0 <= names[k].1 <= chars.len()
                    && chars@.subrange(names[k].0 as int, names[k].1 as int) == pieces[k],
            forall|k: int| 0 <= k < i ==> !ignored_directory(#[trigger] pieces[k]),
        decreases names.len() - i,
    {
        let r: (usize, usize) = names[i];
        if is_ignored_directory(&chars, r.0, r.1) {
            assert(ignored_directory(pieces[i as int]));
            return true;
        }
        i = i + 1;
    }
    match file_name_range(&chars) {
        Some(name) => match extension_range(&chars, name.0, name.1) {
            Some(ext) => is_ignored_extension(&chars, ext.0, ext.1),
            None => false,
        },
        None => false,
    }
}

/// A path is ignored under extra entries of the deny list when it is ignored
/// anyway, or when one of its named components is one of the entries.
pub open spec fn ignored_with(p: Seq<char>, extra: Seq<Seq<char>>) -> bool {
    ||| ignored(p)
    ||| exists|k: int, n: int|
        0 <= k < keep_normal(split(p)).len() && 0 <= n < extra.len() && #[trigger] keep_normal(
            split(p),
        )[k] == #[trigger] extra[n]
}

/// Whether changes to `path` are left out of the activity stream, with the
/// configured entries added to the deny list.
pub fn is_ignored_with(path: &str, extra: &Vec<String>) -> (yes: bool)
    ensures
        yes == ignored_with(path@, texts(extra@)),
{
    if is_ignored_path(path) {
        return true;
    }
    if extra.len() == 0 {
        return false;
    }
    let chars = to_chars(path);
    let names = name_ranges(&chars);
    let ghost pieces = keep_normal(split(path@));
    let ghost more = texts(extra@);
    let mut i: usize = 0;
    while i < names.len()
        invariant
            i <= names.len(),
            chars@ == path@,
            pieces == keep_normal(split(path@)),
            more == texts(extra@),
            names.len() == pieces.len(),
            forall|k: int|
                0 <= k < names.len() ==> (#[trigger] names[k]).0 <= names[k].1 <= chars.len()
                    && chars@.subrange(names[k].0 as int, names[k].1 as int) == pieces[k],
            forall|k: int, n: int|
                0 <= k < i && 0 <= n < more.len() ==> #[trigger] pieces[k] != #[trigger] more[n],
        decreases names.len() - i,
    {
        let r: (usize, usize) = names[i];
        let mut j: usize = 0;
        while j < extra.len()
            invariant
                j <= extra.len(),
                i < names.len(),
                names.len() == pieces.len(),
                pieces == keep_normal(split(path@)),
                more == texts(extra@),
                r == names[i as int],
                r.0 <= r.1 <= chars.len(),
                chars@.subrange(r.0 as int, r.1 as int) == pieces[i as int],
                forall|n: int| 0 <= n < j ==> pieces[i as int] != #[trigger] more[n],
            decreases extra.len() - j,
        {
            assert(more[j as int] == extra[j as int]@);
            if spells(&chars, r.0, r.1, extra[j].as_str()) {
                assert(pieces[i as int] == more[j as int]);
                return true;
            }
            j = j + 1;
        }
        i = i + 1;
    }
    false
}

} // verus!
