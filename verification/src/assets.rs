//! Page source assets: which kind of file a page shows, the names of cached
//! exports, and the `kicad-cli` command lines that produce them.
use vstd::prelude::*;
use crate::fields::clone_strings;
use crate::paths::split_layers;
use crate::svg::char_seqs;
use crate::text::trim;
use crate::text::{chars_of, decimal, flat_map_chars, lowercase, push_char, same_text, to_lowercase, u64_to_decimal};

verus! {

// ───────────────────────────── std path operations ─────────────────────────────

/// `Path::extension`, as text.
pub uninterp spec fn file_extension(p: Seq<char>) -> Option<Seq<char>>;

/// The extension of `p` by `std::path::Path::extension`, converted to text.
/// Trusted: the contract claims that the outcome is `file_extension(p)`.
#[verifier::external_body]
pub(crate) fn path_extension(p: &str) -> (res: Option<String>)
    ensures
        res matches Some(e) ==> file_extension(p@) == Some(e@),
        res is None ==> file_extension(p@) is None,
{
    match std::path::Path::new(p).extension() {
        Some(e) => Some(e.to_string_lossy().to_string()),
        None => None,
    }
}

// ───────────────────────────── kinds of assets ─────────────────────────────

/// What a page source file is turned into.
#[derive(Clone, Copy, Debug, PartialEq, Eq, Structural)]
pub enum AssetKind {
    /// Used as it is (images, tables, JSON).
    Reference,
    /// Markdown, rewritten and cached.
    Markdown,
    /// A KiCad board, exported to SVG.
    Board,
    /// A KiCad schematic, exported to SVG.
    Schematic,
    /// Not supported.
    Unsupported,
}

/// The kind of asset a (lower-case) file extension denotes.
pub open spec fn kind_of_extension(ext: Seq<char>) -> AssetKind {
    if ext == "svg"@ || ext == "png"@ || ext == "jpg"@ || ext == "jpeg"@ || ext == "csv"@ || ext == "json"@ {
        AssetKind::Reference
    } else if ext == "md"@ {
        AssetKind::Markdown
    } else if ext == "kicad_pcb"@ {
        AssetKind::Board
    } else if ext == "kicad_sch"@ {
        AssetKind::Schematic
    } else {
        AssetKind::Unsupported
    }
}

/// The kind of asset a (lower-case) file extension denotes.
pub fn asset_kind(ext: &str) -> (res: AssetKind)
    ensures
        res == kind_of_extension(ext@),
{
    if same_text(ext, "svg") || same_text(ext, "png") || same_text(ext, "jpg") || same_text(ext, "jpeg")
        || same_text(ext, "csv") || same_text(ext, "json") {
        AssetKind::Reference
    } else if same_text(ext, "md") {
        AssetKind::Markdown
    } else if same_text(ext, "kicad_pcb") {
        AssetKind::Board
    } else if same_text(ext, "kicad_sch") {
        AssetKind::Schematic
    } else {
        AssetKind::Unsupported
    }
}

/// The lower-case extension of a source file (empty when it has none).
pub open spec fn source_extension(file_path: Seq<char>) -> Seq<char> {
    match file_extension(file_path) {
        Some(e) => lowercase(e),
        None => lowercase(Seq::empty()),
    }
}

/// The stem used in the names of cached exports: the file stem, or `export`.
pub open spec fn export_stem(file_path: Seq<char>) -> Seq<char> {
    match crate::paths::file_stem(file_path) {
        Some(s) => s,
        None => "export"@,
    }
}

// ───────────────────────────── cached names ─────────────────────────────

/// A character that separates paths, drives or list items, or a space.
pub open spec fn is_slug_separator(c: char) -> bool {
    c == '/' || c == '\\' || c == ' ' || c == ':' || c == ';' || c == ','
}

/// How a character of a layer list appears in a file name: path, drive and
/// list separators and spaces become `_`.
pub open spec fn slug_char(c: char) -> Seq<char> {
    if is_slug_separator(c) {
        seq!['_']
    } else {
        seq![c]
    }
}

/// A layer list as it appears in a file name.
pub open spec fn layers_slug(layers: Seq<char>) -> Seq<char> {
    flat_map_chars(layers, |c: char| slug_char(c))
}

/// Converts a layer list into the form used in a file name; no separator is
/// left in it, and it has as many characters as the list.
pub fn make_layers_slug(layers: &str) -> (res: String)
    ensures
        res@ == layers_slug(layers@),
        res@.len() == layers@.len(),
        forall|i: int| 0 <= i < res@.len() ==> !is_slug_separator(#[trigger] res@[i]),
{
    let v = chars_of(layers);
    let mut out = String::new();
    let mut i: usize = 0;
    while i < v.len()
        invariant
            i <= v.len(),
            v@ == layers@,
            out@ == layers_slug(v@.take(i as int)),
            out@.len() == i,
            forall|j: int| 0 <= j < out@.len() ==> !is_slug_separator(#[trigger] out@[j]),
        decreases v.len() - i,
    {
        let c = v[i];
        let ghost before = out@;
        if c == '/' || c == '\\' || c == ' ' || c == ':' || c == ';' || c == ',' {
            push_char(&mut out, '_');
        } else {
            push_char(&mut out, c);
        }
        proof {
            assert(out@ =~= before + slug_char(c));
            assert(v@.take(i + 1) == v@.take(i as int).push(c));
            assert(v@.take(i + 1).drop_last() == v@.take(i as int));
            assert(layers_slug(v@.take(i + 1)) == layers_slug(v@.take(i as int)) + slug_char(c));
        }
        i += 1;
    }
    assert(v@.take(v@.len() as int) == v@);
    out
}

/// The layers exported for a board when the page names none.
pub open spec fn default_layers() -> Seq<char> {
    "F.Cu,B.Cu"@
}

/// The cached SVG export of a board: `<stem>_<mtime>_<layers>.svg`.
pub open spec fn board_svg_name(stem: Seq<char>, mtime: nat, layers: Seq<char>) -> Seq<char> {
    stem + "_"@ + decimal(mtime) + "_"@ + layers_slug(layers) + ".svg"@
}

/// The cached SVG export of a schematic: `<stem>_<mtime>.svg`.
pub open spec fn schematic_svg_name(stem: Seq<char>, mtime: nat) -> Seq<char> {
    stem + "_"@ + decimal(mtime) + ".svg"@
}

/// The cached rewrite of a Markdown file: `<stem>_<mtime>.md`.
pub open spec fn markdown_cache_name(stem: Seq<char>, mtime: nat) -> Seq<char> {
    stem + "_"@ + decimal(mtime) + ".md"@
}

fn stem_and_time(stem: &str, mtime: u64) -> (res: String)
    ensures
        res@ == stem@ + "_"@ + decimal(mtime as nat),
{
    let mut s = String::from_str(stem);
    s.append("_");
    let t = u64_to_decimal(mtime);
    s.append(t.as_str());
    s
}

pub fn board_svg_file_name(stem: &str, mtime: u64, layers: &str) -> (res: String)
    ensures
        res@ == board_svg_name(stem@, mtime as nat, layers@),
{
    let mut s = stem_and_time(stem, mtime);
    s.append("_");
    let slug = make_layers_slug(layers);
    s.append(slug.as_str());
    s.append(".svg");
    s
}

pub fn schematic_svg_file_name(stem: &str, mtime: u64) -> (res: String)
    ensures
        res@ == schematic_svg_name(stem@, mtime as nat),
{
    let mut s = stem_and_time(stem, mtime);
    s.append(".svg");
    s
}

pub fn markdown_cache_file_name(stem: &str, mtime: u64) -> (res: String)
    ensures
        res@ == markdown_cache_name(stem@, mtime as nat),
{
    let mut s = stem_and_time(stem, mtime);
    s.append(".md");
    s
}

// ───────────────────────────── plans ─────────────────────────────

/// What resolving a page source file takes.
#[derive(Debug, PartialEq, Eq)]
pub enum AssetPlan {
    /// Refer to the file itself.
    Reference,
    /// Rewrite the Markdown file into the cache under `cache_name`.
    Markdown { cache_name: String },
    /// Export the board's `layers` to the cache under `cache_name`, unless it is there.
    BoardExport { cache_name: String, layers: String },
    /// Export the schematic to the cache under `cache_name`, unless it is there.
    SchematicExport { cache_name: String },
    /// Refuse the file with `message`.
    Unsupported { message: String },
}

/// The plan for a source file that exists, given its modification time
/// (seconds since the epoch) and the layer list of the page path, if any.
pub open spec fn asset_plan(file_path: Seq<char>, mtime: nat, layers: Option<Seq<char>>) -> (AssetKind, Seq<char>, Seq<char>) {
    let ext = source_extension(file_path);
    let stem = export_stem(file_path);
    let l = match layers {
        Some(l) => l,
        None => default_layers(),
    };
    match kind_of_extension(ext) {
        AssetKind::Reference => (AssetKind::Reference, Seq::empty(), Seq::empty()),
        AssetKind::Markdown => (AssetKind::Markdown, markdown_cache_name(stem, mtime), Seq::empty()),
        AssetKind::Board => (AssetKind::Board, board_svg_name(stem, mtime, l), l),
        AssetKind::Schematic => (AssetKind::Schematic, schematic_svg_name(stem, mtime), Seq::empty()),
        AssetKind::Unsupported => (AssetKind::Unsupported, "Unsupported extension ."@ + ext, Seq::empty()),
    }
}

/// The kind, name/message and layers of a plan.
pub open spec fn plan_parts(p: AssetPlan) -> (AssetKind, Seq<char>, Seq<char>) {
    match p {
        AssetPlan::Reference => (AssetKind::Reference, Seq::empty(), Seq::empty()),
        AssetPlan::Markdown { cache_name } => (AssetKind::Markdown, cache_name@, Seq::empty()),
        AssetPlan::BoardExport { cache_name, layers } => (AssetKind::Board, cache_name@, layers@),
        AssetPlan::SchematicExport { cache_name } => (AssetKind::Schematic, cache_name@, Seq::empty()),
        AssetPlan::Unsupported { message } => (AssetKind::Unsupported, message@, Seq::empty()),
    }
}

/// Decides how a page source file that exists is resolved: by its extension,
/// referred to as it is, rewritten (Markdown) or exported to SVG (KiCad board
/// or schematic) under a cache name made of its stem and modification time.
pub fn plan_content_asset(file_path: &str, modified_time: u64, layers: Option<&str>) -> (res: AssetPlan)
    ensures
        plan_parts(res) == asset_plan(file_path@, modified_time as nat, match layers {
            Some(l) => Some(l@),
            None => None,
        }),
{
    let ext = match path_extension(file_path) {
        Some(e) => to_lowercase(e.as_str()),
        None => {
            proof {
                reveal_strlit("");
                assert(""@ =~= Seq::<char>::empty());
            }
            to_lowercase("")
        },
    };
    let stem = match crate::paths::path_file_stem(file_path) {
        Some(s) => s,
        None => String::from_str("export"),
    };
    match asset_kind(ext.as_str()) {
        AssetKind::Reference => AssetPlan::Reference,
        AssetKind::Markdown => AssetPlan::Markdown {
            cache_name: markdown_cache_file_name(stem.as_str(), modified_time),
        },
        AssetKind::Board => {
            let l = match layers {
                Some(l) => String::from_str(l),
                None => String::from_str("F.Cu,B.Cu"),
            };
            AssetPlan::BoardExport {
                cache_name: board_svg_file_name(stem.as_str(), modified_time, l.as_str()),
                layers: l,
            }
        },
        AssetKind::Schematic => AssetPlan::SchematicExport {
            cache_name: schematic_svg_file_name(stem.as_str(), modified_time),
        },
        AssetKind::Unsupported => {
            let mut m = String::from_str("Unsupported extension .");
            m.append(ext.as_str());
            AssetPlan::Unsupported { message: m }
        },
    }
}

/// What a raw page source path (`file;layers`) comes to before it is planned.
#[derive(Debug, PartialEq, Eq)]
pub enum SourceCheck {
    /// The path is blank: the page has no source.
    Blank,
    /// The file does not exist.
    Missing { message: String },
    /// The file exists; its path and the layer list, if any.
    Found { file_path: String, layers: Option<String> },
}

/// Checks a raw page source path, given whether its file (the path before the
/// first `;`, trimmed) exists: blank, missing (with its message) or found.
pub fn check_page_source(raw_path_str: &str, exists: bool) -> (res: SourceCheck)
    ensures
        trim(raw_path_str@).len() == 0 ==> res is Blank,
        trim(raw_path_str@).len() > 0 && !exists ==> (res matches SourceCheck::Missing { message }
            && message@ == "Source file does not exist: "@ + split_layers(raw_path_str@).0),
        trim(raw_path_str@).len() > 0 && exists ==> (res matches SourceCheck::Found { file_path, layers }
            && file_path@ == split_layers(raw_path_str@).0 && match layers {
            Some(l) => split_layers(raw_path_str@).1 == Some(l@),
            None => split_layers(raw_path_str@).1 is None,
        }),
{
    let v = chars_of(raw_path_str);
    let (lo, hi) = crate::text::trim_bounds(&v);
    if lo == hi {
        return SourceCheck::Blank;
    }
    let (file_path, layers) = crate::paths::split_path_and_layers(raw_path_str);
    if !exists {
        SourceCheck::Missing { message: missing_source_message(file_path.as_str()) }
    } else {
        SourceCheck::Found { file_path, layers }
    }
}

/// The message for a page source file that does not exist.
pub fn missing_source_message(file_path: &str) -> (res: String)
    ensures
        res@ == "Source file does not exist: "@ + file_path@,
{
    let mut m = String::from_str("Source file does not exist: ");
    m.append(file_path);
    m
}

/// The message for a failed board export.
pub fn board_export_failed_message(file_path: &str) -> (res: String)
    ensures
        res@ == "kicad-cli PCB export failed for "@ + file_path@,
{
    let mut m = String::from_str("kicad-cli PCB export failed for ");
    m.append(file_path);
    m
}

// ───────────────────────────── kicad-cli command lines ─────────────────────────────

/// The arguments of the board export: a single SVG of the given layers without
/// drawing sheet, page fitted to the board, followed by the page's extra arguments.
pub open spec fn board_export_args(
    layers: Seq<char>,
    output: Seq<char>,
    input: Seq<char>,
    extra: Seq<Seq<char>>,
) -> Seq<Seq<char>> {
    seq![
        "pcb"@,
        "export"@,
        "svg"@,
        "--mode-single"@,
        "--exclude-drawing-sheet"@,
        "--page-size-mode"@,
        "2"@,
        "--layers"@,
        layers,
        "--output"@,
        output,
        input,
    ] + extra
}

/// The arguments of the schematic export: the first page as SVG without drawing
/// sheet or background into `out_dir`, followed by the page's extra arguments.
pub open spec fn schematic_export_args(out_dir: Seq<char>, input: Seq<char>, extra: Seq<Seq<char>>) -> Seq<Seq<char>> {
    seq![
        "sch"@,
        "export"@,
        "svg"@,
        "--exclude-drawing-sheet"@,
        "--no-background-color"@,
        "--pages"@,
        "1"@,
        "--output"@,
        out_dir,
        input,
    ] + extra
}

fn push_all(v: &mut Vec<String>, extra: &Vec<String>)
    ensures
        final(v)@ == old(v)@ + extra@,
{
    let ghost start = v@;
    let mut i: usize = 0;
    while i < extra.len()
        invariant
            i <= extra@.len(),
            v@ == start + extra@.take(i as int),
        decreases extra@.len() - i,
    {
        v.push(extra[i].clone());
        assert(extra@.take(i + 1) == extra@.take(i as int).push(extra@[i as int]));
        i += 1;
    }
    assert(extra@.take(extra@.len() as int) == extra@);
}

fn strings(items: &Vec<&str>) -> (res: Vec<String>)
    ensures
        res@.len() == items@.len(),
        forall|i: int| 0 <= i < items@.len() ==> #[trigger] res@[i]@ == items@[i]@,
{
    let mut res: Vec<String> = Vec::new();
    let mut i: usize = 0;
    while i < items.len()
        invariant
            i <= items@.len(),
            res@.len() == i,
            forall|j: int| 0 <= j < i ==> #[trigger] res@[j]@ == items@[j]@,
        decreases items@.len() - i,
    {
        res.push(String::from_str(items[i]));
        i += 1;
    }
    res
}

/// The `kicad-cli` arguments that export a board to SVG.
pub fn pcb_export_args(layers: &str, output: &str, input: &str, extra_args: &Vec<String>) -> (res: Vec<String>)
    ensures
        char_seqs(res@) == board_export_args(layers@, output@, input@, char_seqs(extra_args@)),
{
    let fixed = vec![
        "pcb",
        "export",
        "svg",
        "--mode-single",
        "--exclude-drawing-sheet",
        "--page-size-mode",
        "2",
        "--layers",
        layers,
        "--output",
        output,
        input,
    ];
    let ghost g = fixed@;
    let mut res = strings(&fixed);
    let ghost head = res@;
    push_all(&mut res, extra_args);
    assert(char_seqs(res@) =~= board_export_args(layers@, output@, input@, char_seqs(extra_args@))) by {
        assert(char_seqs(res@) =~= char_seqs(head) + char_seqs(extra_args@));
        assert(char_seqs(head) =~= seq![
            "pcb"@,
            "export"@,
            "svg"@,
            "--mode-single"@,
            "--exclude-drawing-sheet"@,
            "--page-size-mode"@,
            "2"@,
            "--layers"@,
            layers@,
            "--output"@,
            output@,
            input@,
        ]);
    }
    res
}

/// The `kicad-cli` arguments that export a schematic to SVG.
pub fn sch_export_args(out_dir: &str, input: &str, extra_args: &Vec<String>) -> (res: Vec<String>)
    ensures
        char_seqs(res@) == schematic_export_args(out_dir@, input@, char_seqs(extra_args@)),
{
    let fixed = vec![
        "sch",
        "export",
        "svg",
        "--exclude-drawing-sheet",
        "--no-background-color",
        "--pages",
        "1",
        "--output",
        out_dir,
        input,
    ];
    let mut res = strings(&fixed);
    let ghost head = res@;
    push_all(&mut res, extra_args);
    assert(char_seqs(res@) =~= schematic_export_args(out_dir@, input@, char_seqs(extra_args@))) by {
        assert(char_seqs(res@) =~= char_seqs(head) + char_seqs(extra_args@));
        assert(char_seqs(head) =~= seq![
            "sch"@,
            "export"@,
            "svg"@,
            "--exclude-drawing-sheet"@,
            "--no-background-color"@,
            "--pages"@,
            "1"@,
            "--output"@,
            out_dir@,
            input@,
        ]);
    }
    res
}

/// The `kicad-cli` arguments that export a board's bill of materials as CSV to `output`.
pub fn bom_export_args(output: &str, input: &str) -> (res: Vec<String>)
    ensures
        char_seqs(res@) == seq!["pcb"@, "export"@, "bom"@, "--output"@, output@, input@],
{
    let fixed = vec!["pcb", "export", "bom", "--output", output, input];
    let res = strings(&fixed);
    assert(char_seqs(res@) =~= seq!["pcb"@, "export"@, "bom"@, "--output"@, output@, input@]);
    res
}

/// The extra `kicad-cli` arguments of a page (none when it sets none).
pub fn page_extra_args(extra: &Option<Vec<String>>) -> (res: Vec<String>)
    ensures
        extra matches Some(a) ==> res@ == a@,
        extra is None ==> res@.len() == 0,
{
    match extra {
        Some(a) => clone_strings(a),
        None => Vec::new(),
    }
}

} // verus!
