//! Project-level decisions: which layout variant a page uses, how assets are
//! referred to from the build folder, and the names of generated files.
use vstd::prelude::*;
use crate::fields::{FieldMap, PageConfig, PageLayout, ProjectConfig};
use crate::paths::{joined, path_join, relative_path};
use crate::paths::template_name_of;
use crate::status::{join_lines, string_entry, string_entry_of};
use crate::typst::{JsonValue, JsonView};
use crate::svg::char_seqs;
use crate::text::{chars_of, decimal, flat_map_chars, push_char, u64_to_decimal};

verus! {

/// The variant of the page a single-page script renders: the first page's
/// variant, `default` when it names none; an error when there is no page.
pub open spec fn rendered_variant(pages: Seq<PageConfig>) -> Result<Seq<char>, Seq<char>> {
    if pages.len() == 0 {
        Err("No page provided for rendering"@)
    } else {
        match pages[0].variant {
            Some(v) => Ok(v@),
            None => Ok("default"@),
        }
    }
}

/// The layout variant of the page a single-page script renders.
pub fn page_variant(project: &ProjectConfig) -> (res: Result<String, String>)
    ensures
        match rendered_variant(project.pages@) {
            Ok(v) => res matches Ok(r) && r@ == v,
            Err(m) => res matches Err(r) && r@ == m,
        },
{
    if project.pages.len() == 0 {
        return Err(String::from_str("No page provided for rendering"));
    }
    match &project.pages[0].variant {
        Some(v) => Ok(v.clone()),
        None => Ok(String::from_str("default")),
    }
}

/// `s` with every `\` written as `/`.
pub open spec fn forward_slashes(s: Seq<char>) -> Seq<char> {
    flat_map_chars(s, |c: char| if c == '\\' { seq!['/'] } else { seq![c] })
}

/// How a page refers to its resolved asset inside the build folder: relative
/// to the folder when it lies inside it, with `/` as separator.
pub open spec fn asset_reference(resolved: Seq<char>, work_dir: Seq<char>) -> Seq<char> {
    forward_slashes(relative_path(resolved, work_dir))
}

/// The path by which a page refers to its resolved asset.
pub fn page_asset_reference(resolved: &str, work_dir: &str) -> (res: String)
    ensures
        res@ == asset_reference(resolved@, work_dir@),
{
    let rel = crate::paths::make_relative_path(resolved, work_dir);
    let v = chars_of(rel.as_str());
    let mut out = String::new();
    let mut i: usize = 0;
    while i < v.len()
        invariant
            i <= v.len(),
            v@ == rel@,
            out@ == forward_slashes(v@.take(i as int)),
        decreases v.len() - i,
    {
        let c = v[i];
        let ghost before = out@;
        if c == '\\' {
            push_char(&mut out, '/');
        } else {
            push_char(&mut out, c);
        }
        proof {
            let f = |c: char| if c == '\\' { seq!['/'] } else { seq![c] };
            assert(out@ =~= before + f(c));
            assert(v@.take(i + 1) == v@.take(i as int).push(c));
            assert(v@.take(i + 1).drop_last() == v@.take(i as int));
            assert(forward_slashes(v@.take(i + 1)) == forward_slashes(v@.take(i as int)) + f(c));
        }
        i += 1;
    }
    assert(v@.take(v@.len() as int) == v@);
    out
}

/// The page that a template preview renders when the request gives none: the
/// `default` variant on portrait A4, with no fields and no source file.
pub fn default_preview_page() -> (res: PageConfig)
    ensures
        res.variant matches Some(v) && v@ == "default"@,
        res.layout.size@ == "a4"@,
        !res.layout.orientation,
        res.local_fields@ == Map::<Seq<char>, Seq<char>>::empty(),
        res.path@ == Seq::<char>::empty(),
        res.extra_args is None,
{
    PageConfig {
        variant: Some(String::from_str("default")),
        layout: PageLayout { size: String::from_str("a4"), orientation: false },
        local_fields: FieldMap::new(),
        path: String::new(),
        extra_args: None,
    }
}

/// The PDF of page `n` (counted from 1) in a project's build folder.
pub fn page_pdf_file_name(n: u64) -> (res: String)
    ensures
        res@ == "page_"@ + decimal(n as nat) + ".pdf"@,
{
    let mut s = String::from_str("page_");
    let d = u64_to_decimal(n);
    s.append(d.as_str());
    s.append(".pdf");
    s
}

/// The preview PDF of a template.
pub fn preview_pdf_file_name(template_name: &str) -> (res: String)
    ensures
        res@ == template_name@ + "_preview.pdf"@,
{
    let mut s = String::from_str(template_name);
    s.append("_preview.pdf");
    s
}

/// The merged PDF of a project.
pub fn project_pdf_file_name(project_stem: &str) -> (res: String)
    ensures
        res@ == project_stem@ + ".pdf"@,
{
    let mut s = String::from_str(project_stem);
    s.append(".pdf");
    s
}

/// The PCB Forge home folder: `.pcb-forge` in `HOME`, else in `USERPROFILE`,
/// else in the current folder.
pub open spec fn forge_home(home: Option<Seq<char>>, user_profile: Option<Seq<char>>) -> Seq<char> {
    let base = match home {
        Some(h) => h,
        None => match user_profile {
            Some(u) => u,
            None => "."@,
        },
    };
    joined(base, ".pcb-forge"@)
}

/// The PCB Forge home folder, given the values of the `HOME` and `USERPROFILE` variables.
pub fn forge_home_dir(home: Option<String>, user_profile: Option<String>) -> (res: String)
    ensures
        res@ == forge_home(
            match home {
                Some(h) => Some(h@),
                None => None,
            },
            match user_profile {
                Some(u) => Some(u@),
                None => None,
            },
        ),
{
    let base = match home {
        Some(h) => h,
        None => match user_profile {
            Some(u) => u,
            None => String::from_str("."),
        },
    };
    path_join(base.as_str(), ".pcb-forge")
}

/// The folders that startup makes sure exist under the PCB Forge home folder
/// `home`, in the order they are created: the cache, the schemas, the
/// template sources, the generated template schemas, the vector store's cache
/// and the embedding model's cache.
pub open spec fn forge_folders(home: Seq<char>) -> Seq<Seq<char>> {
    seq![
        joined(home, "cache"@),
        joined(home, "schemas"@),
        joined(joined(home, "templates"@), "src"@),
        joined(joined(home, "templates"@), "generated"@),
        joined(joined(home, "cache"@), "qdrant-cache"@),
        joined(joined(home, "cache"@), "fastembed"@),
    ]
}

/// The master template schema, in the schemas folder of `home`.
pub open spec fn template_schema_file(home: Seq<char>) -> Seq<char> {
    joined(joined(home, "schemas"@), "template.schema.json"@)
}

/// The folders of the PCB Forge tree under `forge_home`, in the order in
/// which startup creates them.
pub fn init_directories(forge_home: &str) -> (res: Vec<String>)
    ensures
        char_seqs(res@) == forge_folders(forge_home@),
{
    let cache = path_join(forge_home, "cache");
    let templates = path_join(forge_home, "templates");
    let mut v: Vec<String> = Vec::new();
    v.push(cache.clone());
    v.push(path_join(forge_home, "schemas"));
    v.push(path_join(templates.as_str(), "src"));
    v.push(path_join(templates.as_str(), "generated"));
    v.push(path_join(cache.as_str(), "qdrant-cache"));
    v.push(path_join(cache.as_str(), "fastembed"));
    assert(char_seqs(v@) =~= forge_folders(forge_home@));
    v
}

/// Where the master template schema is written under `forge_home`.
pub fn template_schema_path(forge_home: &str) -> (res: String)
    ensures
        res@ == template_schema_file(forge_home@),
{
    let schemas = path_join(forge_home, "schemas");
    path_join(schemas.as_str(), "template.schema.json")
}

/// Where a new project file is written: the given path when it names a
/// `.json` file, else `<template>.json` inside the given folder.
pub open spec fn project_destination(path: Seq<char>, template_name: Seq<char>) -> Seq<char> {
    if crate::assets::file_extension(path) == Some("json"@) {
        path
    } else {
        joined(path, template_name + ".json"@)
    }
}

/// Where a new project file of template `template_name` is written.
pub fn project_file_destination(path: &str, template_name: &str) -> (res: String)
    ensures
        res@ == project_destination(path@, template_name@),
{
    let is_json = match crate::assets::path_extension(path) {
        Some(e) => crate::text::same_text(e.as_str(), "json"),
        None => false,
    };
    if is_json {
        String::from_str(path)
    } else {
        let mut name = String::from_str(template_name);
        name.append(".json");
        path_join(path, name.as_str())
    }
}

/// The path of a file of an embedded Typst package: `namespace/name/version`
/// followed by the file's rooted path inside the package.
pub fn embedded_package_path(namespace: &str, name: &str, version: &str, rooted_path: &str) -> (res: String)
    ensures
        res@ == namespace@ + "/"@ + name@ + "/"@ + version@ + rooted_path@,
{
    let mut s = String::from_str(namespace);
    s.append("/");
    s.append(name);
    s.append("/");
    s.append(version);
    s.append(rooted_path);
    s
}

/// The error reported when the Typst compiler fails: a heading and one line per diagnostic.
pub fn compilation_failure_message(diagnostics: &Vec<String>) -> (res: String)
    ensures
        res@ == "Typst in-memory compilation failed:\n"@ + join_lines(char_seqs(diagnostics@), "\n"@),
{
    let mut s = String::from_str("Typst in-memory compilation failed:\n");
    let lines = crate::status::join_with(diagnostics, "\n");
    s.append(lines.as_str());
    s
}

/// The template a project document is made from: the one its `$schema` URI
/// names, if the document has a string `$schema` entry.
pub open spec fn project_template(doc: JsonView) -> Option<Seq<char>> {
    match string_entry(doc, "$schema"@) {
        Some(uri) => template_name_of(uri),
        None => None,
    }
}

/// The name of the template a project document is made from.
pub fn project_template_name(doc: &JsonValue) -> (res: Option<String>)
    ensures
        res matches Some(n) ==> project_template(doc@) == Some(n@),
        res is None ==> project_template(doc@) is None,
{
    match string_entry_of(doc, "$schema") {
        Some(uri) => crate::paths::extract_template_name_from_schema(uri.as_str()),
        None => None,
    }
}

/// What compiling a Typst script into a PDF gives: the PDF's bytes when the
/// compiler produced a document, else the compiler's diagnostics (one line
/// each) under a heading.
pub fn compile_typst_script_with_root(outcome: Result<Vec<u8>, Vec<String>>) -> (res: Result<Vec<u8>, String>)
    ensures
        match outcome {
            Ok(pdf) => res matches Ok(r) && r@ == pdf@,
            Err(diagnostics) => res matches Err(m)
                && m@ == "Typst in-memory compilation failed:\n"@ + join_lines(char_seqs(diagnostics@), "\n"@),
        },
{
    match outcome {
        Ok(pdf) => Ok(pdf),
        Err(diagnostics) => Err(compilation_failure_message(&diagnostics)),
    }
}

} // verus!
