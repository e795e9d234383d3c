//! Progress events for the tray icon, API response envelopes, and the texts
//! by which parts are searched.
use vstd::prelude::*;
use crate::fields::ElectronicPart;
use crate::svg::{char_seqs, split_on};
use crate::text::{chars_of, decimal, push_char, same_text, string_of, trim, trim_str, u64_to_decimal};
use crate::typst::{json_str, JsonValue, JsonView};

verus! {

// ───────────────────────────── tray events ─────────────────────────────

/// Events sent from request handlers to the tray event loop.
#[derive(Clone, Copy, Debug, PartialEq, Eq, Structural)]
pub enum UserEvent {
    /// Show `n`% progress.
    Update(u8),
    /// Go back to the idle state.
    Remove,
    /// Pause or resume the running operation.
    PauseResume,
    /// Cancel the running operation.
    Cancel,
}

/// The event that reports `status_percent`% progress to the tray.
pub fn update_process_status(status_percent: u8) -> (res: UserEvent)
    ensures
        res == UserEvent::Update(status_percent),
{
    UserEvent::Update(status_percent)
}

/// The event that puts the tray back into its idle state.
pub fn reset_process_status() -> (res: UserEvent)
    ensures
        res == UserEvent::Remove,
{
    UserEvent::Remove
}

/// What the tray shows after an event: a new status line and tooltip, or no change.
#[derive(Debug, PartialEq, Eq)]
pub enum TrayUpdate {
    Show { status_text: String, tooltip: String },
    Unchanged,
}

pub open spec fn progress_status_text(p: u8) -> Seq<char> {
    "Status: "@ + decimal(p as nat) + "%"@
}

pub open spec fn progress_tooltip(p: u8) -> Seq<char> {
    "PCB Forge: Processing "@ + decimal(p as nat) + "%"@
}

/// The tray's response to an event: progress shows the percentage in the
/// status line and tooltip, a reset shows the idle texts, other events change
/// nothing.
pub open spec fn tray_texts(e: UserEvent) -> Option<(Seq<char>, Seq<char>)> {
    match e {
        UserEvent::Update(p) => Some((progress_status_text(p), progress_tooltip(p))),
        UserEvent::Remove => Some(("Status: No process started"@, "PCB Forge: Idle"@)),
        _ => None,
    }
}

/// Decides what the tray shows after an event.
pub fn tray_update(event: UserEvent) -> (res: TrayUpdate)
    ensures
        match tray_texts(event) {
            Some((s, t)) => res matches TrayUpdate::Show { status_text, tooltip } && status_text@ == s
                && tooltip@ == t,
            None => res is Unchanged,
        },
{
    match event {
        UserEvent::Update(p) => {
            let n = u64_to_decimal(p as u64);
            let mut status_text = String::from_str("Status: ");
            status_text.append(n.as_str());
            status_text.append("%");
            let mut tooltip = String::from_str("PCB Forge: Processing ");
            tooltip.append(n.as_str());
            tooltip.append("%");
            TrayUpdate::Show { status_text, tooltip }
        },
        UserEvent::Remove => TrayUpdate::Show {
            status_text: String::from_str("Status: No process started"),
            tooltip: String::from_str("PCB Forge: Idle"),
        },
        _ => TrayUpdate::Unchanged,
    }
}

// ───────────────────────────── API responses ─────────────────────────────

/// The envelope of every API response: `status` is `success` or `error`,
/// `message` describes the outcome, `data` carries a payload on success.
#[derive(Debug)]
pub struct ApiResponse {
    pub status: String,
    pub message: String,
    pub data: Option<JsonValue>,
}

impl ApiResponse {
    /// A `200 OK` response with an optional payload.
    pub fn success(message: String, data: Option<JsonValue>) -> (res: (u16, ApiResponse))
        ensures
            res.0 == 200,
            res.1.status@ == "success"@,
            res.1.message@ == message@,
            res.1.data == data,
    {
        (200, ApiResponse { status: String::from_str("success"), message, data })
    }

    /// An error response with the given HTTP status code; it carries no payload.
    pub fn error(status_code: u16, message: String) -> (res: (u16, ApiResponse))
        ensures
            res.0 == status_code,
            res.1.status@ == "error"@,
            res.1.message@ == message@,
            res.1.data is None,
    {
        (status_code, ApiResponse { status: String::from_str("error"), message, data: None })
    }
}

/// Lines joined by `sep`.
pub open spec fn join_lines(lines: Seq<Seq<char>>, sep: Seq<char>) -> Seq<char>
    decreases lines.len(),
{
    if lines.len() == 0 {
        Seq::empty()
    } else if lines.len() == 1 {
        lines[0]
    } else {
        join_lines(lines.drop_last(), sep) + sep + lines.last()
    }
}

/// Joins lines with `sep` between them.
pub fn join_with(lines: &Vec<String>, sep: &str) -> (res: String)
    ensures
        res@ == join_lines(char_seqs(lines@), sep@),
{
    let mut out = String::new();
    let mut i: usize = 0;
    while i < lines.len()
        invariant
            i <= lines@.len(),
            out@ == join_lines(char_seqs(lines@).take(i as int), sep@),
        decreases lines@.len() - i,
    {
        if i > 0 {
            out.append(sep);
        }
        out.append(lines[i].as_str());
        proof {
            let t = char_seqs(lines@).take(i + 1);
            assert(t.drop_last() == char_seqs(lines@).take(i as int));
            assert(t.last() == lines@[i as int]@);
            if i == 0 {
                assert(join_lines(char_seqs(lines@).take(0), sep@) == Seq::<char>::empty());
                assert(out@ =~= lines@[0]@);
            }
        }
        i += 1;
    }
    assert(char_seqs(lines@).take(lines@.len() as int) =~= char_seqs(lines@));
    out
}

/// The response to regenerating the schemas of all templates: success with the
/// number generated, or `207 Multi-Status` listing the failures.
pub fn schema_generation_response(generated_count: u64, errors: &Vec<String>) -> (res: (u16, ApiResponse))
    ensures
        errors@.len() == 0 ==> {
            &&& res.0 == 200
            &&& res.1.status@ == "success"@
            &&& res.1.message@ == "Successfully generated "@ + decimal(generated_count as nat) + " schema(s)"@
            &&& res.1.data matches Some(d) && d@ == JsonView::Object(
                seq![("generated_count"@, JsonView::Number(decimal(generated_count as nat)))],
            )
        },
        errors@.len() > 0 ==> {
            &&& res.0 == 207
            &&& res.1.status@ == "error"@
            &&& res.1.message@ == "Generated "@ + decimal(generated_count as nat) + " schema(s) with errors:\n"@
                + join_lines(char_seqs(errors@), "\n"@)
            &&& res.1.data is None
        },
{
    let n = u64_to_decimal(generated_count);
    if errors.len() == 0 {
        let mut m = String::from_str("Successfully generated ");
        m.append(n.as_str());
        m.append(" schema(s)");
        let es = vec![(String::from_str("generated_count"), JsonValue::Number(n))];
        let ghost g = es@;
        proof {
            crate::typst::lemma_object_view(es);
        }
        let data = JsonValue::Object(es);
        assert(Seq::new(g.len(), |i: int| (g[i].0@, crate::typst::json_view(g[i].1))) =~= seq![
            ("generated_count"@, JsonView::Number(decimal(generated_count as nat))),
        ]);
        ApiResponse::success(m, Some(data))
    } else {
        let mut m = String::from_str("Generated ");
        m.append(n.as_str());
        m.append(" schema(s) with errors:\n");
        let e = join_with(errors, "\n");
        m.append(e.as_str());
        ApiResponse::error(207, m)
    }
}

/// What a folder of the template sources came to when its schema was to be
/// regenerated (the file-system steps are the caller's).
#[derive(Debug, PartialEq, Eq)]
pub enum TemplateFolder {
    /// The entry is not a folder.
    NotAFolder,
    /// The folder's name is not valid Unicode.
    Unnamed,
    /// The folder holds no `meta.json`.
    NoMeta,
    /// `meta.json` could not be read.
    Unreadable { folder: String, error: String },
    /// `meta.json` is not a valid template.
    Invalid { folder: String, error: String },
    /// The template's schema was generated.
    Generated { folder: String },
}

/// The tally of a schema regeneration run: schemas generated, and the
/// failures met, in order.
pub struct SchemaRun {
    pub generated_count: u64,
    pub errors: Vec<String>,
}

impl SchemaRun {
    /// A run that has met no folder yet.
    pub fn new() -> (res: SchemaRun)
        ensures
            res.generated_count == 0,
            res.errors@.len() == 0,
    {
        SchemaRun { generated_count: 0, errors: Vec::new() }
    }
}

/// The failure message of a folder, if it failed.
pub open spec fn folder_error(f: TemplateFolder) -> Option<Seq<char>> {
    match f {
        TemplateFolder::Unreadable { folder, error } => Some("Failed to read "@ + folder@ + ": "@ + error@),
        TemplateFolder::Invalid { folder, error } => Some("Failed to parse "@ + folder@ + ": "@ + error@),
        _ => None,
    }
}

/// Records one entry of the template sources in the run: a generated schema
/// is counted, a failure adds its message. Returns whether the entry counts
/// towards progress: every entry but an unnamed folder and a folder without
/// `meta.json`.
pub fn record_template_folder(run: &mut SchemaRun, entry: TemplateFolder) -> (advances: bool)
    ensures
        advances == !(entry is Unnamed || entry is NoMeta),
        final(run).generated_count == (if entry is Generated && old(run).generated_count < u64::MAX {
            old(run).generated_count + 1
        } else {
            old(run).generated_count as int
        }),
        char_seqs(final(run).errors@) == match folder_error(entry) {
            Some(m) => char_seqs(old(run).errors@).push(m),
            None => char_seqs(old(run).errors@),
        },
{
    let ghost before = char_seqs(run.errors@);
    match entry {
        TemplateFolder::NotAFolder => true,
        TemplateFolder::Unnamed => false,
        TemplateFolder::NoMeta => false,
        TemplateFolder::Unreadable { folder, error } => {
            let mut m = String::from_str("Failed to read ");
            m.append(folder.as_str());
            m.append(": ");
            m.append(error.as_str());
            run.errors.push(m);
            assert(char_seqs(run.errors@) =~= before.push("Failed to read "@ + folder@ + ": "@ + error@));
            true
        },
        TemplateFolder::Invalid { folder, error } => {
            let mut m = String::from_str("Failed to parse ");
            m.append(folder.as_str());
            m.append(": ");
            m.append(error.as_str());
            run.errors.push(m);
            assert(char_seqs(run.errors@) =~= before.push("Failed to parse "@ + folder@ + ": "@ + error@));
            true
        },
        TemplateFolder::Generated { .. } => {
            if run.generated_count < u64::MAX {
                run.generated_count = run.generated_count + 1;
            }
            true
        },
    }
}

// ───────────────────────────── part texts ─────────────────────────────

/// `a b c d`, trimmed.
pub open spec fn four_words(a: Seq<char>, b: Seq<char>, c: Seq<char>, d: Seq<char>) -> Seq<char> {
    trim(a + " "@ + b + " "@ + c + " "@ + d)
}

fn four_words_exec(a: &str, b: &str, c: &str, d: &str) -> (res: String)
    ensures
        res@ == four_words(a@, b@, c@, d@),
{
    let mut s = String::from_str(a);
    s.append(" ");
    s.append(b);
    s.append(" ");
    s.append(c);
    s.append(" ");
    s.append(d);
    trim_str(s.as_str())
}

/// The text by which a part is embedded and searched: reference, value, name
/// and description.
pub fn part_search_text(part: &ElectronicPart) -> (res: String)
    ensures
        res@ == four_words(part.reference@, part.value@, part.name@, part.description@),
{
    four_words_exec(part.reference.as_str(), part.value.as_str(), part.name.as_str(), part.description.as_str())
}

/// The stored payload of a part: its fields by name, the link empty when absent.
pub open spec fn part_payload_view(part: ElectronicPart) -> JsonView {
    JsonView::Object(seq![
        ("Name"@, JsonView::Str(part.name@)),
        ("Reference"@, JsonView::Str(part.reference@)),
        ("Value"@, JsonView::Str(part.value@)),
        ("Description"@, JsonView::Str(part.description@)),
        ("Link"@, JsonView::Str(match part.link {
            Some(l) => l@,
            None => Seq::empty(),
        })),
    ])
}

/// The payload stored with a part in the parts library.
pub fn part_payload(part: &ElectronicPart) -> (res: JsonValue)
    ensures
        res@ == part_payload_view(*part),
{
    let link = match &part.link {
        Some(l) => l.clone(),
        None => String::new(),
    };
    let es = vec![
        (String::from_str("Name"), JsonValue::Str(part.name.clone())),
        (String::from_str("Reference"), JsonValue::Str(part.reference.clone())),
        (String::from_str("Value"), JsonValue::Str(part.value.clone())),
        (String::from_str("Description"), JsonValue::Str(part.description.clone())),
        (String::from_str("Link"), JsonValue::Str(link)),
    ];
    let ghost g = es@;
    proof {
        crate::typst::lemma_object_view(es);
    }
    let r = JsonValue::Object(es);
    assert(Seq::new(g.len(), |i: int| (g[i].0@, crate::typst::json_view(g[i].1))) =~= seq![
        ("Name"@, JsonView::Str(part.name@)),
        ("Reference"@, JsonView::Str(part.reference@)),
        ("Value"@, JsonView::Str(part.value@)),
        ("Description"@, JsonView::Str(part.description@)),
        ("Link"@, JsonView::Str(match part.link {
            Some(l) => l@,
            None => Seq::empty(),
        })),
    ]);
    r
}

/// Field `i` of a record, or `""` when the record is shorter.
pub open spec fn field_or_empty(record: Seq<Seq<char>>, i: int) -> Seq<char> {
    if 0 <= i < record.len() {
        record[i]
    } else {
        Seq::empty()
    }
}

/// The search text of a bill-of-materials record (reference, value, footprint,
/// description): the footprint is cut to its part after the last `:`.
pub open spec fn bom_record_text(record: Seq<Seq<char>>) -> Seq<char> {
    four_words(
        field_or_empty(record, 0),
        field_or_empty(record, 1),
        split_on(field_or_empty(record, 2), ':').last(),
        field_or_empty(record, 3),
    )
}

/// The search texts of the records, in order, without empty texts and
/// without repeating a text.
pub open spec fn bom_texts(records: Seq<Seq<Seq<char>>>) -> Seq<Seq<char>>
    decreases records.len(),
{
    if records.len() == 0 {
        Seq::empty()
    } else {
        let rest = bom_texts(records.drop_last());
        let t = bom_record_text(records.last());
        if t.len() > 0 && !rest.contains(t) {
            rest.push(t)
        } else {
            rest
        }
    }
}

/// The record views of a list of CSV records.
pub open spec fn record_views(records: Seq<Vec<String>>) -> Seq<Seq<Seq<char>>> {
    records.map_values(|r: Vec<String>| char_seqs(r@))
}

fn field_or_empty_exec(record: &Vec<String>, i: usize) -> (res: String)
    ensures
        res@ == field_or_empty(char_seqs(record@), i as int),
{
    if i < record.len() {
        record[i].clone()
    } else {
        String::new()
    }
}

fn contains_text(v: &Vec<String>, s: &String) -> (res: bool)
    ensures
        res == char_seqs(v@).contains(s@),
{
    let mut i: usize = 0;
    while i < v.len()
        invariant
            i <= v@.len(),
            forall|j: int| 0 <= j < i ==> v@[j]@ != s@,
        decreases v@.len() - i,
    {
        if same_text(v[i].as_str(), s.as_str()) {
            assert(char_seqs(v@)[i as int] == s@);
            return true;
        }
        i += 1;
    }
    proof {
        if char_seqs(v@).contains(s@) {
            let j = choose|j: int| 0 <= j < char_seqs(v@).len() && char_seqs(v@)[j] == s@;
            assert(v@[j]@ == s@);
        }
    }
    false
}

/// The distinct, non-empty search texts of the records of an exported bill of
/// materials, in the order of their first occurrence.
pub fn collect_bom_parts(records: &Vec<Vec<String>>) -> (res: Vec<String>)
    ensures
        char_seqs(res@) == bom_texts(record_views(records@)),
{
    let mut parts: Vec<String> = Vec::new();
    let mut i: usize = 0;
    while i < records.len()
        invariant
            i <= records@.len(),
            char_seqs(parts@) == bom_texts(record_views(records@).take(i as int)),
        decreases records@.len() - i,
    {
        let r = &records[i];
        let footprint = field_or_empty_exec(r, 2);
        let fp = chars_of(footprint.as_str());
        let pieces = crate::svg::split_on_exec(&fp, ':');
        proof {
            crate::svg::lemma_split_on_nonempty(fp@, ':');
        }
        let last = string_of(&pieces[pieces.len() - 1]);
        let a = field_or_empty_exec(r, 0);
        let b = field_or_empty_exec(r, 1);
        let d = field_or_empty_exec(r, 3);
        let t = four_words_exec(a.as_str(), b.as_str(), last.as_str(), d.as_str());
        proof {
            let rv = record_views(records@);
            assert(rv.take(i + 1).drop_last() == rv.take(i as int));
            assert(rv.take(i + 1).last() == char_seqs(r@));
            assert(t@ == bom_record_text(char_seqs(r@)));
        }
        if t.unicode_len() > 0 && !contains_text(&parts, &t) {
            let ghost before = char_seqs(parts@);
            parts.push(t);
            assert(char_seqs(parts@) =~= before.push(t@));
        }
        i += 1;
    }
    assert(record_views(records@).take(records@.len() as int) =~= record_views(records@));
    parts
}

/// Texts without repetition.
pub open spec fn distinct_texts(s: Seq<Seq<char>>) -> bool {
    forall|i: int, j: int| 0 <= i < j < s.len() ==> s[i] != s[j]
}

/// The search texts of a bill of materials are non-empty and never repeated.
pub proof fn lemma_bom_texts_distinct(records: Seq<Seq<Seq<char>>>)
    ensures
        distinct_texts(bom_texts(records)),
        forall|i: int| 0 <= i < bom_texts(records).len() ==> (#[trigger] bom_texts(records)[i]).len() > 0,
    decreases records.len(),
{
    if records.len() > 0 {
        lemma_bom_texts_distinct(records.drop_last());
        let rest = bom_texts(records.drop_last());
        let t = bom_record_text(records.last());
        if t.len() > 0 && !rest.contains(t) {
            let r = rest.push(t);
            assert forall|i: int, j: int| 0 <= i < j < r.len() implies r[i] != r[j] by {
                if j == r.len() - 1 {
                    assert(r[i] == rest[i]);
                    if r[i] == t {
                        assert(rest.contains(t));
                    }
                } else {
                    assert(r[i] == rest[i] && r[j] == rest[j]);
                }
            }
            assert forall|i: int| 0 <= i < r.len() implies (#[trigger] r[i]).len() > 0 by {
                if i < r.len() - 1 {
                    assert(r[i] == rest[i]);
                }
            }
        }
    }
}

// ───────────────────────────── bill-of-materials rows ─────────────────────────────

/// The header row of a generated bill of materials.
pub open spec fn bom_header_view() -> Seq<Seq<char>> {
    seq!["Name"@, "Reference"@, "Value"@, "Description"@, "Link"@]
}

/// The string value of `key` in a JSON object (the first entry with that
/// key), or `""` when the key is absent or its value is not a string.
pub open spec fn string_field(v: JsonView, key: Seq<char>) -> Seq<char> {
    match string_entry(v, key) {
        Some(s) => s,
        None => Seq::empty(),
    }
}

/// The index of the first entry at or after `i` with key `key`.
pub open spec fn first_key_index(entries: Seq<(Seq<char>, JsonView)>, key: Seq<char>, i: int) -> Option<int>
    decreases entries.len() - i,
{
    if i < 0 || i >= entries.len() {
        None
    } else if entries[i].0 == key {
        Some(i)
    } else {
        first_key_index(entries, key, i + 1)
    }
}

fn string_field_exec(v: &JsonValue, key: &str) -> (res: String)
    ensures
        res@ == string_field(v@, key@),
{
    match string_entry_of(v, key) {
        Some(s) => s,
        None => String::new(),
    }
}

/// The string value of the first entry with key `key` of a JSON object;
/// `None` when `v` is not an object, has no such entry, or its value is not a string.
pub open spec fn string_entry(v: JsonView, key: Seq<char>) -> Option<Seq<char>> {
    match v {
        JsonView::Object(entries) => match first_key_index(entries, key, 0) {
            Some(i) => match entries[i].1 {
                JsonView::Str(s) => Some(s),
                _ => None,
            },
            None => None,
        },
        _ => None,
    }
}

/// The string value of entry `key` of a JSON object, if it has one.
pub fn string_entry_of(v: &JsonValue, key: &str) -> (res: Option<String>)
    ensures
        res matches Some(s) ==> string_entry(v@, key@) == Some(s@),
        res is None ==> string_entry(v@, key@) is None,
{
    match v {
        JsonValue::Object(o) => {
            proof {
                crate::typst::lemma_object_view(*o);
            }
            let ghost entries = Seq::new(o@.len(), |j: int| (o@[j].0@, crate::typst::json_view(o@[j].1)));
            let mut i: usize = 0;
            while i < o.len()
                invariant
                    i <= o@.len(),
                    v@ == JsonView::Object(entries),
                    entries == Seq::new(o@.len(), |j: int| (o@[j].0@, crate::typst::json_view(o@[j].1))),
                    first_key_index(entries, key@, 0) == first_key_index(entries, key@, i as int),
                decreases o@.len() - i,
            {
                if same_text(o[i].0.as_str(), key) {
                    assert(entries[i as int] == (o@[i as int].0@, crate::typst::json_view(o@[i as int].1)));
                    return match &o[i].1 {
                        JsonValue::Str(s) => Some(s.clone()),
                        _ => None,
                    };
                }
                i += 1;
            }
            None
        },
        _ => None,
    }
}

/// The row written for one part of a generated bill of materials: its name,
/// reference, value, description and link, each `""` when missing.
pub fn bom_row(part_info: &JsonValue) -> (res: Vec<String>)
    ensures
        char_seqs(res@) == bom_header_view().map_values(|k: Seq<char>| string_field(part_info@, k)),
{
    let row = vec![
        string_field_exec(part_info, "Name"),
        string_field_exec(part_info, "Reference"),
        string_field_exec(part_info, "Value"),
        string_field_exec(part_info, "Description"),
        string_field_exec(part_info, "Link"),
    ];
    assert(char_seqs(row@) =~= bom_header_view().map_values(|k: Seq<char>| string_field(part_info@, k)));
    row
}

/// The header row of a generated bill of materials.
pub fn bom_header() -> (res: Vec<String>)
    ensures
        char_seqs(res@) == bom_header_view(),
{
    let row = vec![
        String::from_str("Name"),
        String::from_str("Reference"),
        String::from_str("Value"),
        String::from_str("Description"),
        String::from_str("Link"),
    ];
    assert(char_seqs(row@) =~= bom_header_view());
    row
}

} // verus!
