//! File-system path handling: joining, prefix stripping, project path
//! resolution and the search order for layout files.
//!
//! The path operations themselves are the standard library's (their results
//! follow the separator conventions of the platform the crate is built for);
//! what this module decides is which paths are formed and in what order they
//! are tried.
use vstd::prelude::*;
use crate::svg::split_on;
use crate::text::{
    chars_of, ends_with, ends_with_exec, find_char_from, find_char_from_exec, is_blank,
    lemma_trim_empty_iff_blank, string_of, string_of_range, trim, trim_bounds,
};

verus! {

// ───────────────────────────── std path operations ─────────────────────────────

/// `Path::join`: `p` adjoined to `base`, as text.
pub uninterp spec fn joined(base: Seq<char>, p: Seq<char>) -> Seq<char>;

/// `Path::is_absolute`.
pub uninterp spec fn is_absolute_path(p: Seq<char>) -> bool;

/// `Path::strip_prefix`: the rest of `path` after the leading components that
/// make up `base`, as text, or `None` when `base` is not a prefix of `path`.
pub uninterp spec fn stripped_path(path: Seq<char>, base: Seq<char>) -> Option<Seq<char>>;

/// `Path::file_stem`, as text.
pub uninterp spec fn file_stem(p: Seq<char>) -> Option<Seq<char>>;

/// `base.join(p)` with `std::path::Path::join`, converted to text (the
/// separator it inserts is the build platform's). Trusted: the contract claims
/// only that the result is `joined(base, p)`, a function of the two texts.
#[verifier::external_body]
pub(crate) fn path_join(base: &str, p: &str) -> (res: String)
    ensures
        res@ == joined(base@, p@),
{
    std::path::Path::new(base).join(p).to_string_lossy().to_string()
}

/// Whether `p` is absolute, by `std::path::Path::is_absolute`. Trusted: the
/// contract claims only that the answer is `is_absolute_path(p)`.
#[verifier::external_body]
pub(crate) fn path_is_absolute(p: &str) -> (res: bool)
    ensures
        res == is_absolute_path(p@),
{
    std::path::Path::new(p).is_absolute()
}

/// `path.strip_prefix(base)` with `std::path::Path::strip_prefix`, the rest
/// converted to text. Trusted: the contract claims that the outcome is
/// `stripped_path(path, base)`, `None` exactly when the call fails.
#[verifier::external_body]
fn path_strip_prefix(path: &str, base: &str) -> (res: Option<String>)
    ensures
        res matches Some(r) ==> stripped_path(path@, base@) == Some(r@),
        res is None ==> stripped_path(path@, base@) is None,
{
    match std::path::Path::new(path).strip_prefix(base) {
        Ok(p) => Some(p.to_string_lossy().to_string()),
        Err(_) => None,
    }
}

/// The file stem of `p` by `std::path::Path::file_stem`, converted to text.
/// Trusted: the contract claims that the outcome is `file_stem(p)`.
#[verifier::external_body]
pub(crate) fn path_file_stem(p: &str) -> (res: Option<String>)
    ensures
        res matches Some(r) ==> file_stem(p@) == Some(r@),
        res is None ==> file_stem(p@) is None,
{
    match std::path::Path::new(p).file_stem() {
        Some(s) => Some(s.to_string_lossy().to_string()),
        None => None,
    }
}

// ───────────────────────────── relative paths ─────────────────────────────

/// `path` relative to `base_dir` when `base_dir` is a prefix of it, else `path` itself.
pub open spec fn relative_path(path: Seq<char>, base_dir: Seq<char>) -> Seq<char> {
    match stripped_path(path, base_dir) {
        Some(r) => r,
        None => path,
    }
}

/// Converts a path to a path string relative to `base_dir` if possible.
pub fn make_relative_path(path: &str, base_dir: &str) -> (res: String)
    ensures
        res@ == relative_path(path@, base_dir@),
{
    match path_strip_prefix(path, base_dir) {
        Some(r) => r,
        None => String::from_str(path),
    }
}

// ───────────────────────────── template names ─────────────────────────────

/// The template name a project's `$schema` URI refers to: its last `/`
/// segment without `.schema.json`, or else that segment's file stem.
pub open spec fn template_name_of(schema_uri: Seq<char>) -> Option<Seq<char>> {
    let pieces = split_on(schema_uri, '/');
    let file_name = pieces.last();
    if ends_with(file_name, ".schema.json"@) {
        Some(file_name.take(file_name.len() - 12))
    } else {
        file_stem(file_name)
    }
}

/// Extracts the template name from a project's `$schema` URI.
pub fn extract_template_name_from_schema(schema_uri: &str) -> (res: Option<String>)
    ensures
        res matches Some(n) ==> template_name_of(schema_uri@) == Some(n@),
        res is None ==> template_name_of(schema_uri@) is None,
{
    let s = chars_of(schema_uri);
    let pieces = crate::svg::split_on_exec(&s, '/');
    proof {
        crate::svg::lemma_split_on_nonempty(s@, '/');
    }
    let last = &pieces[pieces.len() - 1];
    assert(last@ == split_on(schema_uri@, '/').last());
    let suffix = chars_of(".schema.json");
    proof {
        reveal_strlit(".schema.json");
    }
    if ends_with_exec(last, &suffix) {
        Some(string_of_range(last, 0, last.len() - 12))
    } else {
        let name = string_of(last);
        path_file_stem(name.as_str())
    }
}

/// The last piece of `a + b` split at `c` is `b`, when `a` is empty or ends
/// with `c` and `b` holds no `c`.
proof fn lemma_split_last(a: Seq<char>, b: Seq<char>, c: char)
    requires
        a.len() == 0 || a.last() == c,
        forall|i: int| 0 <= i < b.len() ==> b[i] != c,
    ensures
        split_on(a + b, c).last() == b,
    decreases b.len(),
{
    if b.len() == 0 {
        assert(a + b =~= a);
        if a.len() > 0 {
            assert(a.drop_last() + seq![c] =~= a);
        }
    } else {
        let s = a + b;
        lemma_split_last(a, b.drop_last(), c);
        assert(s.drop_last() =~= a + b.drop_last());
        crate::svg::lemma_split_on_nonempty(s.drop_last(), c);
        assert(b.drop_last().push(b.last()) =~= b);
    }
}

/// A project's `$schema` URI names the template whose generated schema file
/// it points at: for a location `prefix` (empty or ending with `/`) and a
/// template name without `/`, the template name read back from
/// `prefix + name + ".schema.json"` (the file name that
/// `project_schema_file_name` gives) is `name`.
pub proof fn lemma_schema_name_round_trip(prefix: Seq<char>, name: Seq<char>)
    requires
        prefix.len() == 0 || prefix.last() == '/',
        forall|i: int| 0 <= i < name.len() ==> name[i] != '/',
    ensures
        template_name_of(prefix + (name + ".schema.json"@)) == Some(name),
{
    reveal_strlit(".schema.json");
    let file_name = name + ".schema.json"@;
    assert forall|i: int| 0 <= i < file_name.len() implies file_name[i] != '/' by {
        if i >= name.len() {
            assert(file_name[i] == ".schema.json"@[i - name.len()]);
        }
    }
    lemma_split_last(prefix, file_name, '/');
    assert(file_name.skip(file_name.len() - 12) =~= ".schema.json"@);
    assert(file_name.take(file_name.len() - 12) =~= name);
}

// ───────────────────────────── project paths ─────────────────────────────

/// A raw page path: the file path before the first `;` and, when there is a
/// `;`, the layer list after it, both trimmed.
pub open spec fn split_layers(raw: Seq<char>) -> (Seq<char>, Option<Seq<char>>) {
    match find_char_from(raw, ';', 0) {
        Some(i) => (trim(raw.take(i)), Some(trim(raw.skip(i + 1)))),
        None => (trim(raw), None),
    }
}

/// Splits a raw page path into the file path and the optional layer list.
pub fn split_path_and_layers(raw: &str) -> (res: (String, Option<String>))
    ensures
        res.0@ == split_layers(raw@).0,
        res.1 matches Some(l) ==> split_layers(raw@).1 == Some(l@),
        res.1 is None ==> split_layers(raw@).1 is None,
{
    let v = chars_of(raw);
    match find_char_from_exec(&v, ';', 0) {
        Some(i) => {
            proof {
                crate::text::lemma_find_from(v@, seq![';'], 0);
            }
            let head = crate::text::trim_exec(&take_chars(&v, i));
            let tail = crate::text::trim_exec(&skip_chars(&v, i + 1));
            (string_of(&head), Some(string_of(&tail)))
        },
        None => {
            let t = crate::text::trim_exec(&v);
            (string_of(&t), None)
        },
    }
}

fn take_chars(v: &Vec<char>, n: usize) -> (res: Vec<char>)
    requires
        n <= v.len(),
    ensures
        res@ == v@.take(n as int),
{
    let mut res: Vec<char> = Vec::new();
    let mut i: usize = 0;
    while i < n
        invariant
            i <= n <= v.len(),
            res@ == v@.take(i as int),
        decreases n - i,
    {
        res.push(v[i]);
        assert(v@.take(i + 1) == v@.take(i as int).push(v@[i as int]));
        i += 1;
    }
    res
}

fn skip_chars(v: &Vec<char>, n: usize) -> (res: Vec<char>)
    requires
        n <= v.len(),
    ensures
        res@ == v@.skip(n as int),
{
    let mut res: Vec<char> = Vec::new();
    let mut i: usize = n;
    while i < v.len()
        invariant
            n <= i <= v.len(),
            res@ == v@.subrange(n as int, i as int),
        decreases v.len() - i,
    {
        res.push(v[i]);
        assert(v@.subrange(n as int, i + 1) == v@.subrange(n as int, i as int).push(v@[i as int]));
        i += 1;
    }
    assert(v@.subrange(n as int, v@.len() as int) == v@.skip(n as int));
    res
}

/// The file that a raw page path names, before canonicalization: the file
/// path itself when absolute, else joined to `base_dir`; `None` for a blank path.
pub open spec fn project_target(raw: Seq<char>, base_dir: Seq<char>) -> Option<Seq<char>> {
    if trim(raw).len() == 0 {
        None
    } else {
        let p = split_layers(raw).0;
        Some(if is_absolute_path(p) { p } else { joined(base_dir, p) })
    }
}

/// The path to hand to canonicalization for a raw page path (`None` for a blank one).
pub fn project_path_target(raw_path_str: &str, base_dir: &str) -> (res: Option<String>)
    ensures
        res matches Some(t) ==> project_target(raw_path_str@, base_dir@) == Some(t@),
        res is None ==> project_target(raw_path_str@, base_dir@) is None,
{
    let v = chars_of(raw_path_str);
    let (lo, hi) = trim_bounds(&v);
    if lo == hi {
        return None;
    }
    let (p, _) = split_path_and_layers(raw_path_str);
    if path_is_absolute(p.as_str()) {
        Some(p)
    } else {
        Some(path_join(base_dir, p.as_str()))
    }
}

/// The resolved form of a raw page path: `""` for a blank path; else the
/// canonical target (or the target itself when it has no canonical form)
/// relative to `base_dir` (kept whole when it does not lie under `base_dir`),
/// followed by `;` and the layer list when the raw path has one.
pub open spec fn resolved_project_path(
    raw: Seq<char>,
    base_dir: Seq<char>,
    canonical: Option<Seq<char>>,
) -> Seq<char> {
    match project_target(raw, base_dir) {
        None => Seq::empty(),
        Some(target) => {
            let path = relative_path(
                match canonical {
                    Some(c) => c,
                    None => target,
                },
                base_dir,
            );
            match split_layers(raw).1 {
                Some(layers) => path + seq![';'] + layers,
                None => path,
            }
        },
    }
}

/// Resolves a raw page path (`file;layers`) into a path string relative to
/// `base_dir`, the layer list trimmed and kept.
///
/// `canonical` is the outcome of canonicalizing `project_path_target(raw_path_str, base_dir)`
/// on the file system (`None` when that failed).
pub fn resolve_project_path(raw_path_str: &str, base_dir: &str, canonical: Option<String>) -> (res: String)
    ensures
        res@ == resolved_project_path(raw_path_str@, base_dir@, match canonical {
            Some(c) => Some(c@),
            None => None,
        }),
{
    match project_path_target(raw_path_str, base_dir) {
        None => String::new(),
        Some(target) => {
            let full = match canonical {
                Some(c) => c,
                None => target,
            };
            let mut path = make_relative_path(full.as_str(), base_dir);
            let (_, layers) = split_path_and_layers(raw_path_str);
            match layers {
                Some(l) => {
                    crate::text::push_char(&mut path, ';');
                    path.append(l.as_str());
                    path
                },
                None => path,
            }
        },
    }
}

/// The index of the first `;` in `a + [';'] + b` is the length of `a` when `a` holds no `;`.
proof fn lemma_first_semicolon(a: Seq<char>, b: Seq<char>)
    requires
        forall|i: int| 0 <= i < a.len() ==> a[i] != ';',
    ensures
        find_char_from(a + seq![';'] + b, ';', 0) == Some(a.len() as int),
{
    let r = a + seq![';'] + b;
    crate::text::lemma_find_from(r, seq![';'], 0);
    assert(r.subrange(a.len() as int, a.len() + 1 as int) =~= seq![';']);
    assert(crate::text::matches_at(r, seq![';'], a.len() as int));
    assert forall|k: int| 0 <= k < a.len() implies !crate::text::matches_at(r, seq![';'], k) by {
        assert(r.subrange(k, k + 1)[0] == a[k]);
    }
}

/// The file part of a resolved page path: the canonical path when there is
/// one, else the unresolved target, relative to `base_dir`.
pub open spec fn resolved_file(raw: Seq<char>, base_dir: Seq<char>, canonical: Option<Seq<char>>) -> Seq<char> {
    relative_path(
        match canonical {
            Some(c) => c,
            None => match project_target(raw, base_dir) {
                Some(t) => t,
                None => Seq::empty(),
            },
        },
        base_dir,
    )
}

/// A resolved page path splits back into the file path and the layer list:
/// when the (canonical) file path holds no `;` and no white space at either
/// end, splitting the resolved path gives that file path and the raw path's
/// layer list, as the asset resolution that reads it expects.
pub proof fn lemma_resolved_path_splits_back(raw: Seq<char>, base_dir: Seq<char>, canonical: Option<Seq<char>>)
    requires
        project_target(raw, base_dir) is Some,
        forall|i: int|
            0 <= i < resolved_file(raw, base_dir, canonical).len() ==> #[trigger] resolved_file(
                raw,
                base_dir,
                canonical,
            )[i] != ';',
        trim(resolved_file(raw, base_dir, canonical)) == resolved_file(raw, base_dir, canonical),
    ensures
        split_layers(resolved_project_path(raw, base_dir, canonical)) == (
            resolved_file(raw, base_dir, canonical),
            split_layers(raw).1,
        ),
{
    let path = resolved_file(raw, base_dir, canonical);
    let r = resolved_project_path(raw, base_dir, canonical);
    match split_layers(raw).1 {
        Some(layers) => {
            assert(r == path + seq![';'] + layers);
            lemma_first_semicolon(path, layers);
            assert(r.take(path.len() as int) =~= path);
            assert(r.skip(path.len() + 1 as int) =~= layers);
            let i = find_char_from(raw, ';', 0)->0;
            crate::text::lemma_trim_idempotent(raw.skip(i + 1));
        },
        None => {
            assert(r == path);
            crate::text::lemma_find_from(path, seq![';'], 0);
            if find_char_from(path, ';', 0) is Some {
                let k = find_char_from(path, ';', 0)->0;
                assert(path.subrange(k, k + 1)[0] == path[k]);
            }
        },
    }
}

// ───────────────────────────── layout file search ─────────────────────────────

/// A path to probe on the file system: it qualifies when it exists (and, if
/// `must_be_file`, is a regular file).
#[derive(Debug, PartialEq, Eq)]
pub struct PathProbe {
    pub path: String,
    pub must_be_file: bool,
}

/// The paths of a probe list, as text.
pub open spec fn probe_paths(probes: Seq<PathProbe>) -> Seq<Seq<char>> {
    probes.map_values(|p: PathProbe| p.path@)
}

/// The index of the first probe that qualified, among the first `n`.
pub open spec fn first_found(found: Seq<bool>, n: int) -> Option<int>
    decreases n,
{
    if n <= 0 {
        None
    } else {
        match first_found(found, n - 1) {
            Some(i) => Some(i),
            None => if n - 1 < found.len() && found[n - 1] {
                Some(n - 1)
            } else {
                None
            },
        }
    }
}

proof fn lemma_first_found_bound(found: Seq<bool>, n: int)
    ensures
        first_found(found, n) matches Some(i) ==> 0 <= i < n && i < found.len() && found[i],
    decreases n,
{
    if n > 0 {
        lemma_first_found_bound(found, n - 1);
    }
}

fn first_found_exec(found: &Vec<bool>, n: usize) -> (res: Option<usize>)
    ensures
        res matches Some(i) ==> first_found(found@, n as int) == Some(i as int),
        res is None ==> first_found(found@, n as int) is None,
{
    let mut i: usize = 0;
    while i < n
        invariant
            i <= n,
            first_found(found@, i as int) is None,
        decreases n - i,
    {
        if i < found.len() && found[i] {
            proof {
                lemma_first_found_after(found@, (i + 1) as int, n as int);
            }
            return Some(i);
        }
        i += 1;
    }
    None
}

pub(crate) proof fn lemma_first_found_after(found: Seq<bool>, m: int, n: int)
    requires
        0 <= m <= n,
        first_found(found, m) is Some,
    ensures
        first_found(found, n) == first_found(found, m),
    decreases n - m,
{
    if n > m {
        lemma_first_found_after(found, m, n - 1);
    }
}

/// The four places a page layout is looked for, in order: the page schema's
/// folder of the template, a `.typ` file of that name in the template, a file
/// of that name in the project folder, and the template's root layout.
pub open spec fn page_layout_probe_paths(
    templates_src_dir: Seq<char>,
    template_name: Seq<char>,
    page_schema: Seq<char>,
    project_dir: Seq<char>,
) -> Seq<Seq<char>> {
    let template_dir = joined(templates_src_dir, template_name);
    seq![
        joined(joined(template_dir, page_schema), "layout.typ"@),
        joined(template_dir, page_schema + ".typ"@),
        joined(project_dir, page_schema),
        joined(template_dir, "layout.typ"@),
    ]
}

/// The probes for a page layout; only the one in the project folder must be a regular file.
pub fn page_layout_candidates(
    templates_src_dir: &str,
    template_name: &str,
    page_schema: &str,
    project_dir: &str,
) -> (res: Vec<PathProbe>)
    ensures
        probe_paths(res@) == page_layout_probe_paths(
            templates_src_dir@,
            template_name@,
            page_schema@,
            project_dir@,
        ),
        res@.len() == 4,
        !res@[0].must_be_file && !res@[1].must_be_file && res@[2].must_be_file
            && !res@[3].must_be_file,
{
    let template_dir = path_join(templates_src_dir, template_name);
    let schema_dir = path_join(template_dir.as_str(), page_schema);
    let subfolder = path_join(schema_dir.as_str(), "layout.typ");
    let mut typ_name = String::from_str(page_schema);
    typ_name.append(".typ");
    let file = path_join(template_dir.as_str(), typ_name.as_str());
    let custom = path_join(project_dir, page_schema);
    let root = path_join(template_dir.as_str(), "layout.typ");
    let mut res: Vec<PathProbe> = Vec::new();
    res.push(PathProbe { path: subfolder, must_be_file: false });
    res.push(PathProbe { path: file, must_be_file: false });
    res.push(PathProbe { path: custom, must_be_file: true });
    res.push(PathProbe { path: root, must_be_file: false });
    assert(probe_paths(res@) =~= page_layout_probe_paths(
        templates_src_dir@,
        template_name@,
        page_schema@,
        project_dir@,
    ));
    res
}

/// The message given when no page layout qualifies.
pub open spec fn missing_page_layout_message(
    template_name: Seq<char>,
    page_schema: Seq<char>,
    subfolder: Seq<char>,
    root: Seq<char>,
) -> Seq<char> {
    "Could not locate layout.typ for template '"@ + template_name + "' with schema '"@ + page_schema
        + "'. Checked:\n  - "@ + subfolder + "\n  - "@ + root
}

/// Finds the layout file of a page: the first of the four candidate places
/// (see `page_layout_candidates`) whose probe qualified. `found[i]` is the
/// outcome of probing candidate `i`.
pub fn find_page_layout_file(
    template_name: &str,
    page_schema: &str,
    project_dir: &str,
    templates_src_dir: &str,
    found: &Vec<bool>,
) -> (res: Result<String, String>)
    ensures
        ({
            let paths = page_layout_probe_paths(templates_src_dir@, template_name@, page_schema@, project_dir@);
            match first_found(found@, 4) {
                Some(i) => res matches Ok(p) && p@ == paths[i],
                None => res matches Err(m) && m@ == missing_page_layout_message(
                    template_name@,
                    page_schema@,
                    paths[0],
                    paths[3],
                ),
            }
        }),
{
    let probes = page_layout_candidates(templates_src_dir, template_name, page_schema, project_dir);
    assert(probe_paths(probes@)[0] == probes@[0].path@);
    assert(probe_paths(probes@)[3] == probes@[3].path@);
    match first_found_exec(found, 4) {
        Some(i) => {
            proof {
                lemma_first_found_bound(found@, 4);
                assert(probe_paths(probes@)[i as int] == probes@[i as int].path@);
            }
            Ok(probes[i].path.clone())
        },
        None => {
            let mut m = String::from_str("Could not locate layout.typ for template '");
            m.append(template_name);
            m.append("' with schema '");
            m.append(page_schema);
            m.append("'. Checked:\n  - ");
            m.append(probes[0].path.as_str());
            m.append("\n  - ");
            m.append(probes[3].path.as_str());
            Err(m)
        },
    }
}

/// The places a project layout is looked for, in order: given a non-blank
/// layout name, that path in the project folder and that template's layout;
/// then, for the template named by the `$schema` URI, its `default` variant's
/// layout and its root layout.
pub open spec fn layout_probe_paths(
    layout: Option<Seq<char>>,
    schema: Option<Seq<char>>,
    project_dir: Seq<char>,
    templates_src_dir: Seq<char>,
) -> Seq<Seq<char>> {
    let from_layout = match layout {
        Some(l) => if trim(l).len() > 0 {
            seq![
                joined(project_dir, trim(l)),
                joined(joined(templates_src_dir, trim(l)), "layout.typ"@),
            ]
        } else {
            Seq::empty()
        },
        None => Seq::empty(),
    };
    let from_schema = match schema {
        Some(s) => match template_name_of(s) {
            Some(name) => seq![
                joined(joined(joined(templates_src_dir, name), "default"@), "layout.typ"@),
                joined(joined(templates_src_dir, name), "layout.typ"@),
            ],
            None => Seq::empty(),
        },
        None => Seq::empty(),
    };
    from_layout + from_schema
}

/// The probes for a project layout (see `layout_probe_paths`); each qualifies by existing.
pub fn layout_candidates(
    layout_option: Option<&str>,
    schema_option: Option<&str>,
    project_dir: &str,
    templates_src_dir: &str,
) -> (res: Vec<PathProbe>)
    ensures
        probe_paths(res@) == layout_probe_paths(
            match layout_option {
                Some(l) => Some(l@),
                None => None,
            },
            match schema_option {
                Some(s) => Some(s@),
                None => None,
            },
            project_dir@,
            templates_src_dir@,
        ),
        forall|i: int| 0 <= i < res@.len() ==> !(#[trigger] res@[i]).must_be_file,
{
    let mut res: Vec<PathProbe> = Vec::new();
    match layout_option {
        Some(l) => {
            let t = crate::text::trim_str(l);
            proof {
                lemma_trim_empty_iff_blank(l@);
            }
            if t.unicode_len() > 0 {
                let custom = path_join(project_dir, t.as_str());
                let dir = path_join(templates_src_dir, t.as_str());
                let template_path = path_join(dir.as_str(), "layout.typ");
                res.push(PathProbe { path: custom, must_be_file: false });
                res.push(PathProbe { path: template_path, must_be_file: false });
            }
        },
        None => {},
    }
    let ghost first = probe_paths(res@);
    match schema_option {
        Some(s) => match extract_template_name_from_schema(s) {
            Some(name) => {
                let dir = path_join(templates_src_dir, name.as_str());
                let default_dir = path_join(dir.as_str(), "default");
                let default_path = path_join(default_dir.as_str(), "layout.typ");
                let root_path = path_join(dir.as_str(), "layout.typ");
                res.push(PathProbe { path: default_path, must_be_file: false });
                res.push(PathProbe { path: root_path, must_be_file: false });
            },
            None => {},
        },
        None => {},
    }
    assert(probe_paths(res@) =~= layout_probe_paths(
        match layout_option {
            Some(l) => Some(l@),
            None => None,
        },
        match schema_option {
            Some(s) => Some(s@),
            None => None,
        },
        project_dir@,
        templates_src_dir@,
    ));
    res
}

/// Finds a project's layout file: the first candidate (see `layout_candidates`)
/// whose probe qualified. `found[i]` is the outcome of probing candidate `i`.
pub fn find_layout_file(
    layout_option: Option<&str>,
    schema_option: Option<&str>,
    project_dir: &str,
    templates_src_dir: &str,
    found: &Vec<bool>,
) -> (res: Result<String, String>)
    ensures
        ({
            let paths = layout_probe_paths(
                match layout_option {
                    Some(l) => Some(l@),
                    None => None,
                },
                match schema_option {
                    Some(s) => Some(s@),
                    None => None,
                },
                project_dir@,
                templates_src_dir@,
            );
            match first_found(found@, paths.len() as int) {
                Some(i) => res matches Ok(p) && p@ == paths[i],
                None => res matches Err(m) && m@
                    == "Could not locate layout.typ from project layout field or $schema URI."@,
            }
        }),
{
    let probes = layout_candidates(layout_option, schema_option, project_dir, templates_src_dir);
    assert(probe_paths(probes@).len() == probes@.len());
    match first_found_exec(found, probes.len()) {
        Some(i) => {
            proof {
                lemma_first_found_bound(found@, probes@.len() as int);
                assert(probe_paths(probes@)[i as int] == probes@[i as int].path@);
            }
            Ok(probes[i].path.clone())
        },
        None => Err(
            String::from_str("Could not locate layout.typ from project layout field or $schema URI."),
        ),
    }
}

} // verus!
