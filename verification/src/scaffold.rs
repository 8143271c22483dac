//! `init module`: what a new module's scaffold holds. For each style, the
//! file names and the source text of the templates; creating directories,
//! checking for existing files and writing are the caller's part.
use vstd::prelude::*;
use crate::text::{owned, concat2, push_str, str_eq, replace_char, replace_char_seq, chars_of, split_seq};
use crate::bootstrap::{split_module_id, to_struct_name, pascal};
use crate::fs_discoverer::components;

verus! {

/// The three scaffold styles.
#[derive(Debug, Clone, Copy, PartialEq, Eq, Structural)]
pub enum ScaffoldStyle {
    /// A Rust file implementing the module trait.
    Decorator,
    /// A plain Rust function under a directory per ID segment.
    Convention,
    /// A YAML binding plus a companion Rust function.
    Binding,
}

/// The directory a style writes to when `--dir` is not given.
pub fn default_scaffold_dir(style: ScaffoldStyle) -> (r: &'static str)
    ensures
        r@ == match style {
            ScaffoldStyle::Decorator => "extensions"@,
            ScaffoldStyle::Convention => "commands"@,
            ScaffoldStyle::Binding => "bindings"@,
        },
{
    match style {
        ScaffoldStyle::Decorator => "extensions",
        ScaffoldStyle::Convention => "commands",
        ScaffoldStyle::Binding => "bindings",
    }
}

/// An output directory is refused when one of its components is `..`.
pub fn scaffold_dir_error(dir: &str) -> (r: Option<String>)
    ensures
        r is Some <==> components(dir@).contains(".."@),
        r matches Some(m) ==> m@ == "Error: Output directory must not contain '..' path components."@,
{
    let pieces = crate::text::split_chars(&chars_of(dir), '/');
    let ghost pv = crate::text::views_of(pieces@);
    let ghost pred = |c: Seq<char>| c.len() > 0;
    let mut i: usize = 0;
    while i < pieces.len()
        invariant
            0 <= i <= pieces.len(),
            pv == crate::text::views_of(pieces@),
            pv == split_seq(dir@, '/'),
            pred == (|c: Seq<char>| c.len() > 0),
            forall|j: int| 0 <= j < i ==> pv[j] != ".."@,
        decreases pieces.len() - i,
    {
        let p = crate::text::string_from_chars(&pieces[i]);
        if str_eq(p.as_str(), "..") {
            proof {
                reveal_strlit("..");
                assert(pv[i as int] == ".."@);
                assert(pred(pv[i as int]));
                pv.lemma_filter_contains(pred, i as int);
            }
            return Some(owned("Error: Output directory must not contain '..' path components."));
        }
        i = i + 1;
    }
    proof {
        if components(dir@).contains(".."@) {
            pv.lemma_filter_contains_rev(pred, ".."@);
            let k = choose|k: int| 0 <= k < pv.len() && pv[k] == ".."@;
            assert(false);
        }
    }
    None
}

/// The module ID with every `.` turned into `_`.
pub open spec fn file_stem(module_id: Seq<char>) -> Seq<char> {
    replace_char_seq(module_id, '.', '_')
}

// ---------------------------------------------------------------------------
// Decorator style
// ---------------------------------------------------------------------------

/// The module-trait template.
pub open spec fn decorator_text(struct_name: Seq<char>, description: Seq<char>) -> Seq<char> {
    "use apcore::module::Module;\nuse apcore::context::Context;\nuse apcore::errors::ModuleError;\nuse async_trait::async_trait;\nuse serde_json::{json, Value};\n\n/// "@
        + description + "\npub struct "@ + struct_name + ";\n\n#[async_trait]\nimpl Module for "@
        + struct_name
        + " {\n    fn input_schema(&self) -> Value {\n        json!({\n            \"type\": \"object\",\n            \"properties\": {}\n        })\n    }\n\n    fn output_schema(&self) -> Value {\n        json!({\n            \"type\": \"object\",\n            \"properties\": {\n                \"status\": { \"type\": \"string\" }\n            }\n        })\n    }\n\n    fn description(&self) -> &str {\n        \""@
        + description
        + "\"\n    }\n\n    async fn execute(\n        &self,\n        _input: Value,\n        _ctx: &Context<Value>,\n    ) -> Result<Value, ModuleError> {\n        // TODO: implement\n        Ok(json!({ \"status\": \"ok\" }))\n    }\n}\n"@
}

/// The decorator-style scaffold: the file name (the ID with dots turned
/// into underscores, plus `.rs`) and its source, whose struct is named
/// after the ID's last segment in PascalCase plus `Module`.
pub fn decorator_scaffold(module_id: &str, description: &str) -> (r: (String, String))
    ensures
        r.0@ == file_stem(module_id@) + ".rs"@,
        ({
            let (prefix, func) = crate::bootstrap::split_spec(module_id@);
            r.1@ == decorator_text(pascal(func, true) + "Module"@, description@)
        }),
{
    let (_prefix, func_name) = split_module_id(module_id);
    let struct_name = to_struct_name(func_name.as_str());
    let stem = replace_char(module_id, '.', '_');
    let file = concat2(stem.as_str(), ".rs");
    let sn = struct_name.as_str();
    let mut t = owned(
        "use apcore::module::Module;\nuse apcore::context::Context;\nuse apcore::errors::ModuleError;\nuse async_trait::async_trait;\nuse serde_json::{json, Value};\n\n/// ",
    );
    push_str(&mut t, description);
    push_str(&mut t, "\npub struct ");
    push_str(&mut t, sn);
    push_str(&mut t, ";\n\n#[async_trait]\nimpl Module for ");
    push_str(&mut t, sn);
    push_str(
        &mut t,
        " {\n    fn input_schema(&self) -> Value {\n        json!({\n            \"type\": \"object\",\n            \"properties\": {}\n        })\n    }\n\n    fn output_schema(&self) -> Value {\n        json!({\n            \"type\": \"object\",\n            \"properties\": {\n                \"status\": { \"type\": \"string\" }\n            }\n        })\n    }\n\n    fn description(&self) -> &str {\n        \"",
    );
    push_str(&mut t, description);
    push_str(
        &mut t,
        "\"\n    }\n\n    async fn execute(\n        &self,\n        _input: Value,\n        _ctx: &Context<Value>,\n    ) -> Result<Value, ModuleError> {\n        // TODO: implement\n        Ok(json!({ \"status\": \"ok\" }))\n    }\n}\n",
    );
    (file, t)
}


// ---------------------------------------------------------------------------
// Convention style
// ---------------------------------------------------------------------------

pub open spec fn has_dot(id: Seq<char>) -> bool {
    exists|i: int| 0 <= i < id.len() && id[i] == '.'
}

/// The file's path below the output directory: one directory per segment
/// of the ID but the last, which names the `.rs` file; an ID without a dot
/// is the file name.
pub open spec fn convention_parts(id: Seq<char>) -> Seq<Seq<char>> {
    if has_dot(id) {
        let parts = split_seq(id, '.');
        parts.drop_last().push(parts.last() + ".rs"@)
    } else {
        seq![id + ".rs"@]
    }
}

/// A function template: the doc line, the function and its placeholder
/// result.
pub open spec fn function_text(description: Seq<char>, func_name: Seq<char>) -> Seq<char> {
    "use serde_json::{json, Value};\n\n/// "@ + description + "\npub fn "@ + func_name
        + "() -> Value {\n    // TODO: implement\n    json!({ \"status\": \"ok\" })\n}\n"@
}

/// The convention-style source: a module doc line, the `CLI_GROUP` constant
/// naming the first segment of the ID when it has a dot, then the function.
pub open spec fn convention_text(id: Seq<char>, description: Seq<char>) -> Seq<char> {
    let (prefix, func) = crate::bootstrap::split_spec(id);
    "//! "@ + description + "\n\n"@ + (if has_dot(id) {
        "pub const CLI_GROUP: &str = \""@ + split_seq(prefix, '.')[0] + "\";\n\n"@
    } else {
        Seq::empty()
    }) + function_text(description, func)
}

fn function_source(out: &mut String, description: &str, func_name: &str)
    ensures
        final(out)@ == old(out)@ + function_text(description@, func_name@),
{
    push_str(out, "use serde_json::{json, Value};\n\n/// ");
    push_str(out, description);
    push_str(out, "\npub fn ");
    push_str(out, func_name);
    push_str(out, "() -> Value {\n    // TODO: implement\n    json!({ \"status\": \"ok\" })\n}\n");
}

fn dot_position(cs: &Vec<char>) -> (r: Option<usize>)
    ensures
        r is Some <==> has_dot(cs@),
        r matches Some(i) ==> i < cs@.len() && cs@[i as int] == '.',
{
    let mut i: usize = 0;
    while i < cs.len()
        invariant
            0 <= i <= cs.len(),
            forall|j: int| 0 <= j < i ==> cs@[j] != '.',
        decreases cs.len() - i,
    {
        if cs[i] == '.' {
            return Some(i);
        }
        i = i + 1;
    }
    None
}

/// The convention-style scaffold: the file's path below the output
/// directory, segment by segment, and its source.
pub fn convention_scaffold(module_id: &str, description: &str) -> (r: (Vec<String>, String))
    ensures
        crate::text::strings_view(r.0@) == convention_parts(module_id@),
        r.1@ == convention_text(module_id@, description@),
{
    let cs = chars_of(module_id);
    let dotted = dot_position(&cs).is_some();
    let (prefix, func_name) = split_module_id(module_id);
    let mut parts: Vec<String> = Vec::new();
    let mut text = owned("//! ");
    push_str(&mut text, description);
    push_str(&mut text, "\n\n");
    if dotted {
        let pieces = crate::text::split_chars(&cs, '.');
        let ghost pv = crate::text::views_of(pieces@);
        proof {
            crate::text::lemma_split_nonempty(module_id@, '.');
        }
        let n = pieces.len();
        let mut i: usize = 0;
        while i + 1 < n
            invariant
                n == pieces.len(),
                n >= 1,
                pv == crate::text::views_of(pieces@),
                pv == split_seq(module_id@, '.'),
                0 <= i < n,
                crate::text::strings_view(parts@) == pv.take(i as int),
            decreases n - i,
        {
            let ghost before = crate::text::strings_view(parts@);
            let piece = crate::text::string_from_chars(&pieces[i]);
            assert(piece@ == pv[i as int]);
            parts.push(piece);
            assert(crate::text::strings_view(parts@) =~= before.push(pv[i as int]));
            assert(pv.take(i + 1) =~= pv.take(i as int).push(pv[i as int]));
            i = i + 1;
        }
        let last = crate::text::string_from_chars(&pieces[n - 1]);
        let ghost before = crate::text::strings_view(parts@);
        parts.push(concat2(last.as_str(), ".rs"));
        assert(pv.take(i as int) =~= pv.drop_last());
        assert(crate::text::strings_view(parts@) =~= before.push(pv.last() + ".rs"@));
        let pchars = chars_of(prefix.as_str());
        let ppieces = crate::text::split_chars(&pchars, '.');
        proof {
            crate::text::lemma_split_nonempty(prefix@, '.');
        }
        let first = crate::text::string_from_chars(&ppieces[0]);
        push_str(&mut text, "pub const CLI_GROUP: &str = \"");
        push_str(&mut text, first.as_str());
        push_str(&mut text, "\";\n\n");
    } else {
        parts.push(concat2(module_id, ".rs"));
        assert(crate::text::strings_view(parts@) =~= seq![module_id@ + ".rs"@]);
    }
    proof {
        if !has_dot(module_id@) {
            assert(!(exists|p: int| crate::bootstrap::is_last_dot(module_id@, p)));
        }
    }
    function_source(&mut text, description, func_name.as_str());
    (parts, text)
}

// ---------------------------------------------------------------------------
// Binding style
// ---------------------------------------------------------------------------

/// The binding-style scaffold: the YAML binding and its companion function.
#[derive(Debug)]
pub struct BindingScaffold {
    /// `<id with dots as underscores>.binding.yaml`.
    pub yaml_name: String,
    pub yaml: String,
    /// `<prefix with dots as underscores>.rs`, in the `commands` directory
    /// beside the output directory.
    pub companion_name: String,
    pub companion: String,
}

/// The binding YAML: one binding of the ID to `commands.<prefix>:<func>`.
pub open spec fn binding_yaml_text(id: Seq<char>, description: Seq<char>) -> Seq<char> {
    let (prefix, func) = crate::bootstrap::split_spec(id);
    "bindings:\n  - module_id: \""@ + id + "\"\n    target: \""@ + ("commands."@ + prefix + ":"@
        + func) + "\"\n    description: \""@ + description + "\"\n    auto_schema: true\n"@
}

/// The binding-style scaffold of a module ID.
pub fn binding_scaffold(module_id: &str, description: &str) -> (r: BindingScaffold)
    ensures
        r.yaml_name@ == file_stem(module_id@) + ".binding.yaml"@,
        r.yaml@ == binding_yaml_text(module_id@, description@),
        r.companion_name@ == replace_char_seq(crate::bootstrap::split_spec(module_id@).0, '.', '_')
            + ".rs"@,
        r.companion@ == function_text(description@, crate::bootstrap::split_spec(module_id@).1),
{
    let (prefix, func_name) = split_module_id(module_id);
    let stem = replace_char(module_id, '.', '_');
    let yaml_name = concat2(stem.as_str(), ".binding.yaml");
    let mut target = owned("commands.");
    push_str(&mut target, prefix.as_str());
    push_str(&mut target, ":");
    push_str(&mut target, func_name.as_str());
    let mut yaml = owned("bindings:\n  - module_id: \"");
    push_str(&mut yaml, module_id);
    push_str(&mut yaml, "\"\n    target: \"");
    push_str(&mut yaml, target.as_str());
    push_str(&mut yaml, "\"\n    description: \"");
    push_str(&mut yaml, description);
    push_str(&mut yaml, "\"\n    auto_schema: true\n");
    let pstem = replace_char(prefix.as_str(), '.', '_');
    let companion_name = concat2(pstem.as_str(), ".rs");
    let mut companion = String::new();
    function_source(&mut companion, description, func_name.as_str());
    assert(companion@ =~= function_text(description@, func_name@));
    BindingScaffold { yaml_name, yaml, companion_name, companion }
}

/// The refusal to overwrite an existing scaffold file without `--force`.
pub fn overwrite_refusal(path: &str) -> (r: String)
    ensures
        r@ == "Error: '"@ + path@ + "' already exists. Pass --force to overwrite."@,
{
    crate::text::concat3("Error: '", path, "' already exists. Pass --force to overwrite.")
}

} // verus!
