//! Template folders: variant ordering, the starter template, template names,
//! and the JSON documents generated for templates and projects.
use vstd::prelude::*;
use crate::fields::{lex_lt, lemma_lex_order, lemma_lex_transitive, name_before, FieldMap, Template};
use crate::svg::char_seqs;
use crate::text::{chars_of, ends_with, ends_with_exec, same_text, string_of_range};
use crate::typst::{json_str, json_str_array, json_view, lemma_object_view, JsonValue, JsonView};

verus! {

broadcast use vstd::seq_lib::group_to_multiset_ensures;

// ───────────────────────────── variants ─────────────────────────────

/// Variant `a` is listed before variant `b`: `default` first, the others in
/// the order of their names.
pub open spec fn variant_before(a: Seq<char>, b: Seq<char>) -> bool {
    ||| (a == "default"@ && b != "default"@)
    ||| (a != "default"@ && b != "default"@ && lex_lt(a, b))
}

/// No variant is listed before one that it follows.
pub open spec fn variants_ordered(s: Seq<Seq<char>>) -> bool {
    forall|i: int, j: int| 0 <= i < j < s.len() ==> !variant_before(#[trigger] s[j], #[trigger] s[i])
}

/// The names that are not hidden (do not start with `.`), in order.
pub open spec fn visible_names(s: Seq<Seq<char>>) -> Seq<Seq<char>>
    decreases s.len(),
{
    if s.len() == 0 {
        Seq::empty()
    } else {
        let rest = visible_names(s.drop_last());
        if s.last().len() > 0 && s.last()[0] == '.' {
            rest
        } else {
            rest.push(s.last())
        }
    }
}

proof fn lemma_variant_order(a: Seq<char>, b: Seq<char>, c: Seq<char>)
    ensures
        !variant_before(a, a),
        a != b ==> (variant_before(a, b) || variant_before(b, a)),
        variant_before(a, b) && variant_before(b, c) ==> variant_before(a, c),
        variant_before(a, b) ==> !variant_before(b, a),
{
    lemma_lex_order(a, b);
    lemma_lex_order(a, a);
    if lex_lt(a, b) && lex_lt(b, c) {
        lemma_lex_transitive(a, b, c);
    }
}

proof fn lemma_multiset_insert<A>(s: Seq<A>, i: int, x: A)
    requires
        0 <= i <= s.len(),
    ensures
        s.insert(i, x).to_multiset() =~= s.to_multiset().insert(x),
{
    let t = s.insert(i, x);
    assert(t.remove(i) =~= s);
    assert(t[i] == x);
    assert(t.contains(x));
    let mt = t.to_multiset();
    let ms = s.to_multiset();
    assert(mt.remove(x) =~= ms);
    assert forall|y: A| mt.count(y) == ms.insert(x).count(y) by {
        if y == x {
            assert(mt.count(x) > 0);
        }
    }
}

/// Whether variant `a` is listed before variant `b`.
fn variant_before_exec(a: &str, b: &str) -> (res: bool)
    ensures
        res == variant_before(a@, b@),
{
    proof {
        reveal_strlit("default");
    }
    let a_default = same_text(a, "default");
    let b_default = same_text(b, "default");
    (a_default && !b_default) || (!a_default && !b_default && name_before(a, b))
}

/// Inserts `x` into an ordered list after every entry it does not precede.
fn insert_variant(r: &mut Vec<String>, x: String)
    requires
        variants_ordered(char_seqs(old(r)@)),
    ensures
        variants_ordered(char_seqs(final(r)@)),
        char_seqs(final(r)@).to_multiset() == char_seqs(old(r)@).to_multiset().insert(x@),
{
    let ghost s = char_seqs(r@);
    let mut idx: usize = 0;
    while idx < r.len() && !variant_before_exec(x.as_str(), r[idx].as_str())
        invariant
            s == char_seqs(r@),
            idx <= r@.len(),
            forall|j: int| 0 <= j < idx ==> !variant_before(x@, #[trigger] s[j]),
        decreases r@.len() - idx,
    {
        idx += 1;
    }
    let ghost xv = x@;
    r.insert(idx, x);
    proof {
        let n = char_seqs(r@);
        assert(n =~= s.insert(idx as int, xv));
        lemma_multiset_insert(s, idx as int, xv);
        assert forall|i: int, j: int| 0 <= i < j < n.len() implies !variant_before(
            #[trigger] n[j],
            #[trigger] n[i],
        ) by {
            if i < idx && j < idx {
                assert(n[i] == s[i] && n[j] == s[j]);
            } else if i < idx && j == idx {
                assert(n[i] == s[i]);
            } else if i < idx && j > idx {
                assert(n[i] == s[i] && n[j] == s[j - 1]);
            } else if i == idx {
                assert(n[j] == s[j - 1]);
                // x precedes s[idx] (or idx is past the end); s[j-1] does not precede s[idx]
                if variant_before(s[j - 1], xv) {
                    assert(idx < s.len());
                    assert(variant_before(xv, s[idx as int]));
                    lemma_variant_order(s[j - 1], xv, s[idx as int]);
                    if j - 1 > idx {
                        assert(!variant_before(s[j - 1], s[idx as int]));
                    }
                }
            } else {
                assert(n[i] == s[i - 1] && n[j] == s[j - 1]);
            }
        }
    }
}

/// The layout variants of a template, given the names of its variant folders
/// (those holding a `layout.typ`): hidden names are dropped; when none remain
/// the only variant is `default`; otherwise `default` comes first and the rest
/// follow in the order of their names.
pub fn order_template_variants(names: &Vec<String>) -> (res: Vec<String>)
    ensures
        visible_names(char_seqs(names@)).len() == 0 ==> char_seqs(res@) == seq!["default"@],
        visible_names(char_seqs(names@)).len() > 0 ==> {
            &&& char_seqs(res@).to_multiset() == visible_names(char_seqs(names@)).to_multiset()
            &&& variants_ordered(char_seqs(res@))
        },
        visible_names(char_seqs(names@)).contains("default"@) ==> char_seqs(res@)[0] == "default"@,
{
    let mut res: Vec<String> = Vec::new();
    let mut i: usize = 0;
    assert(char_seqs(names@).take(0) =~= Seq::<Seq<char>>::empty());
    while i < names.len()
        invariant
            i <= names@.len(),
            variants_ordered(char_seqs(res@)),
            char_seqs(res@).to_multiset() == visible_names(char_seqs(names@).take(i as int)).to_multiset(),
        decreases names@.len() - i,
    {
        let name = &names[i];
        let c = chars_of(name.as_str());
        proof {
            assert(char_seqs(names@).take(i + 1).drop_last() == char_seqs(names@).take(i as int));
            assert(char_seqs(names@).take(i + 1).last() == name@);
        }
        if !(c.len() > 0 && c[0] == '.') {
            insert_variant(&mut res, name.clone());
        }
        i += 1;
    }
    assert(char_seqs(names@).take(names@.len() as int) =~= char_seqs(names@));
    if res.len() == 0 {
        proof {
            let v = visible_names(char_seqs(names@));
            assert(char_seqs(res@).len() == 0);
            assert(v.to_multiset().len() == 0);
            assert(v.len() == 0);
        }
        let mut d: Vec<String> = Vec::new();
        d.push(String::from_str("default"));
        assert(char_seqs(d@) =~= seq!["default"@]);
        d
    } else {
        proof {
            let v = visible_names(char_seqs(names@));
            let r = char_seqs(res@);
            assert(r.to_multiset().len() > 0);
            assert(v.len() > 0);
            if v.contains("default"@) {
                assert(v.to_multiset().count("default"@) > 0);
                assert(r.to_multiset().count("default"@) > 0);
                assert(r.contains("default"@));
                let j = choose|j: int| 0 <= j < r.len() && r[j] == "default"@;
                if r[0] != "default"@ {
                    assert(j > 0);
                    assert(variant_before(r[j], r[0]));
                }
            }
        }
        res
    }
}

/// The first variant of a list, or `default` when the list is empty.
pub open spec fn first_variant(variants: Seq<Seq<char>>) -> Seq<char> {
    if variants.len() > 0 {
        variants[0]
    } else {
        "default"@
    }
}

pub fn default_variant(variants: &Vec<String>) -> (res: String)
    ensures
        res@ == first_variant(char_seqs(variants@)),
{
    if variants.len() > 0 {
        variants[0].clone()
    } else {
        String::from_str("default")
    }
}

// ───────────────────────────── names ─────────────────────────────

/// `s` with every trailing repetition of `p` removed (`str::trim_end_matches`).
pub open spec fn trim_suffixes(s: Seq<char>, p: Seq<char>) -> Seq<char>
    decreases s.len(),
{
    if p.len() > 0 && ends_with(s, p) {
        trim_suffixes(s.take(s.len() - p.len()), p)
    } else {
        s
    }
}

/// Nothing is left to trim: `trim_suffixes(s, p)` does not end with a non-empty `p`.
proof fn lemma_trim_suffixes_done(s: Seq<char>, p: Seq<char>)
    requires
        p.len() > 0,
    ensures
        !ends_with(trim_suffixes(s, p), p),
    decreases s.len(),
{
    if ends_with(s, p) {
        lemma_trim_suffixes_done(s.take(s.len() - p.len()), p);
    }
}

/// A template name as given by a user: any trailing `.json` removed. The
/// name that comes out no longer ends with `.json`.
pub fn template_name_from_input(name: &str) -> (res: String)
    ensures
        res@ == trim_suffixes(name@, ".json"@),
        !ends_with(res@, ".json"@),
{
    proof {
        reveal_strlit(".json");
        lemma_trim_suffixes_done(name@, ".json"@);
    }
    let c = chars_of(name);
    let p = chars_of(".json");
    proof {
        reveal_strlit(".json");
    }
    let mut end = c.len();
    let mut cur = c.clone();
    while end >= 5 && ends_with_exec(&cur, &p)
        invariant
            p@ == ".json"@,
            p@.len() == 5,
            end <= c.len(),
            cur@ == c@.take(end as int),
            trim_suffixes(c@, p@) == trim_suffixes(cur@, p@),
        decreases end,
    {
        let ghost prev = cur@;
        end -= 5;
        cur = take_prefix(&c, end);
        proof {
            assert(prev.take(prev.len() - 5) =~= cur@);
            assert(trim_suffixes(prev, p@) == trim_suffixes(prev.take(prev.len() - p@.len()), p@));
        }
    }
    proof {
        if !(end >= 5) {
            assert(!ends_with(cur@, p@));
        }
    }
    string_of_range(&c, 0, end)
}

fn take_prefix(v: &Vec<char>, n: usize) -> (res: Vec<char>)
    requires
        n <= v.len(),
    ensures
        res@ == v@.take(n as int),
{
    let mut res: Vec<char> = Vec::new();
    let mut i: usize = 0;
    while i < n
        invariant
            i <= n <= v.len(),
            res@ == v@.take(i as int),
        decreases n - i,
    {
        res.push(v[i]);
        assert(v@.take(i + 1) == v@.take(i as int).push(v@[i as int]));
        i += 1;
    }
    res
}

} // verus!

verus! {

// ───────────────────────────── starter template ─────────────────────────────

/// The Typst layout written into a new template folder: it renders the page's
/// source image over the whole page and a title block of all fields.
pub const STARTER_LAYOUT: &'static str = r#"#let render_page(layout, local_fields, global_fields, content, path) = {
  set page(
    paper: layout.size,
    flipped: layout.orientation,
    margin: 0mm
  )

  if path != "" {
    place(top + left, image(path, width: 100%, height: 100%))
  }

  align(bottom + right)[
    #block(
      width: 140mm,
      stroke: 0.5pt + black,
      inset: 8pt,
      fill: rgb("ffffff").transparentize(15%),
      grid(
        columns: (1fr, 1fr),
        gutter: 6pt,
        ..global_fields.pairs().map(((k, v)) => [#k: #v]),
        ..local_fields.pairs().map(((k, v)) => [#k: #v])
      )
    )
  ]
}"#;

/// The template written into a new template folder: two project-wide fields
/// (author name and project title) and two per-page fields (document type and
/// title), its `$schema` pointing at the master template schema.
pub fn starter_template(master_schema_path: &str) -> (res: Template)
    ensures
        res.schema matches Some(s) && s@ == "file://"@ + master_schema_path@,
        res.global_fields@ == map!["name"@ => "Author Name"@, "title"@ => "Project Title"@],
        res.local_fields@ == map![
            "document_type"@ => "Document Type"@,
            "document_title"@ => "Document Title"@,
        ],
{
    let mut schema = String::from_str("file://");
    schema.append(master_schema_path);
    let mut global_fields = FieldMap::new();
    global_fields.insert(String::from_str("name"), String::from_str("Author Name"));
    global_fields.insert(String::from_str("title"), String::from_str("Project Title"));
    let mut local_fields = FieldMap::new();
    local_fields.insert(String::from_str("document_type"), String::from_str("Document Type"));
    local_fields.insert(String::from_str("document_title"), String::from_str("Document Title"));
    assert(global_fields@ =~= map!["name"@ => "Author Name"@, "title"@ => "Project Title"@]);
    assert(local_fields@ =~= map![
        "document_type"@ => "Document Type"@,
        "document_title"@ => "Document Title"@,
    ]);
    Template { schema: Some(schema), global_fields, local_fields }
}

} // verus!

verus! {

// ───────────────────────────── generated JSON documents ─────────────────────────────

pub open spec fn sv(s: Seq<char>) -> JsonView {
    JsonView::Str(s)
}

/// A field map as a JSON object of string values, in the order of the names.
pub open spec fn fields_object(entries: Seq<(Seq<char>, Seq<char>)>) -> JsonView {
    JsonView::Object(Seq::new(entries.len(), |i: int| (entries[i].0, sv(entries[i].1))))
}

/// The schema of one string field, described by `desc`, defaulting to `""`.
pub open spec fn field_schema(desc: Seq<char>) -> JsonView {
    JsonView::Object(seq![
        ("type"@, sv("string"@)),
        ("description"@, sv(desc)),
        ("default"@, sv(""@)),
    ])
}

/// The schema properties of a field map: one string field per name.
pub open spec fn field_schemas(entries: Seq<(Seq<char>, Seq<char>)>) -> JsonView {
    JsonView::Object(Seq::new(entries.len(), |i: int| (entries[i].0, field_schema(entries[i].1))))
}

fn entry(key: &str, value: JsonValue) -> (res: (String, JsonValue))
    ensures
        res.0@ == key@,
        res.1 == value,
{
    (String::from_str(key), value)
}

fn object(entries: Vec<(String, JsonValue)>) -> (res: JsonValue)
    ensures
        res@ == JsonView::Object(
            Seq::new(entries@.len(), |i: int| (entries@[i].0@, json_view(entries@[i].1))),
        ),
{
    proof {
        lemma_object_view(entries);
    }
    JsonValue::Object(entries)
}

/// A field map as a JSON object of string values.
pub fn fields_to_json(m: &FieldMap) -> (res: JsonValue)
    ensures
        res@ == fields_object(m.entry_list()),
{
    let n = m.entry_count();
    let mut o: Vec<(String, JsonValue)> = Vec::new();
    let mut i: usize = 0;
    while i < n
        invariant
            n == m.entry_list().len(),
            i <= n,
            o@.len() == i,
            forall|j: int| 0 <= j < i ==> (#[trigger] o@[j]).0@ == m.entry_list()[j].0 && json_view(
                o@[j].1,
            ) == sv(m.entry_list()[j].1),
        decreases n - i,
    {
        let (k, v) = m.entry(i);
        o.push((k, JsonValue::Str(v)));
        i += 1;
    }
    let res = object(o);
    assert(res@ == fields_object(m.entry_list())) by {
        assert(Seq::new(o@.len(), |j: int| (o@[j].0@, json_view(o@[j].1))) =~= Seq::new(
            m.entry_list().len(),
            |j: int| (m.entry_list()[j].0, sv(m.entry_list()[j].1)),
        ));
    }
    res
}

fn field_schema_json(desc: String) -> (res: JsonValue)
    ensures
        res@ == field_schema(desc@),
{
    let es = vec![
        entry("type", json_str("string")),
        entry("description", JsonValue::Str(desc)),
        entry("default", json_str("")),
    ];
    let ghost gs = es@;
    let o = object(es);
    assert(Seq::new(gs.len(), |i: int| (gs[i].0@, json_view(gs[i].1))) =~= seq![
        ("type"@, sv("string"@)),
        ("description"@, sv(desc@)),
        ("default"@, sv(""@)),
    ]);
    o
}

/// The schema properties of a field map: one string field per name.
pub fn field_schemas_json(m: &FieldMap) -> (res: JsonValue)
    ensures
        res@ == field_schemas(m.entry_list()),
{
    let n = m.entry_count();
    let mut o: Vec<(String, JsonValue)> = Vec::new();
    let mut i: usize = 0;
    while i < n
        invariant
            n == m.entry_list().len(),
            i <= n,
            o@.len() == i,
            forall|j: int| 0 <= j < i ==> (#[trigger] o@[j]).0@ == m.entry_list()[j].0 && json_view(
                o@[j].1,
            ) == field_schema(m.entry_list()[j].1),
        decreases n - i,
    {
        let (k, v) = m.entry(i);
        o.push((k, field_schema_json(v)));
        i += 1;
    }
    let res = object(o);
    assert(res@ == field_schemas(m.entry_list())) by {
        assert(Seq::new(o@.len(), |j: int| (o@[j].0@, json_view(o@[j].1))) =~= Seq::new(
            m.entry_list().len(),
            |j: int| (m.entry_list()[j].0, field_schema(m.entry_list()[j].1)),
        ));
    }
    res
}

} // verus!

verus! {

fn obj1(k1: &str, v1: JsonValue) -> (res: JsonValue)
    ensures
        res@ == JsonView::Object(seq![(k1@, v1@)]),
{
    let es = vec![entry(k1, v1)];
    let ghost gs = es@;
    let o = object(es);
    assert(Seq::new(gs.len(), |i: int| (gs[i].0@, json_view(gs[i].1))) =~= seq![(k1@, v1@)]);
    o
}

fn obj2(k1: &str, v1: JsonValue, k2: &str, v2: JsonValue) -> (res: JsonValue)
    ensures
        res@ == JsonView::Object(seq![(k1@, v1@), (k2@, v2@)]),
{
    let es = vec![entry(k1, v1), entry(k2, v2)];
    let ghost gs = es@;
    let o = object(es);
    assert(Seq::new(gs.len(), |i: int| (gs[i].0@, json_view(gs[i].1))) =~= seq![(k1@, v1@), (k2@, v2@)]);
    o
}

fn obj3(k1: &str, v1: JsonValue, k2: &str, v2: JsonValue, k3: &str, v3: JsonValue) -> (res: JsonValue)
    ensures
        res@ == JsonView::Object(seq![(k1@, v1@), (k2@, v2@), (k3@, v3@)]),
{
    let es = vec![entry(k1, v1), entry(k2, v2), entry(k3, v3)];
    let ghost gs = es@;
    let o = object(es);
    assert(Seq::new(gs.len(), |i: int| (gs[i].0@, json_view(gs[i].1))) =~= seq![
        (k1@, v1@),
        (k2@, v2@),
        (k3@, v3@),
    ]);
    o
}

fn obj4(
    k1: &str,
    v1: JsonValue,
    k2: &str,
    v2: JsonValue,
    k3: &str,
    v3: JsonValue,
    k4: &str,
    v4: JsonValue,
) -> (res: JsonValue)
    ensures
        res@ == JsonView::Object(seq![(k1@, v1@), (k2@, v2@), (k3@, v3@), (k4@, v4@)]),
{
    let es = vec![entry(k1, v1), entry(k2, v2), entry(k3, v3), entry(k4, v4)];
    let ghost gs = es@;
    let o = object(es);
    assert(Seq::new(gs.len(), |i: int| (gs[i].0@, json_view(gs[i].1))) =~= seq![
        (k1@, v1@),
        (k2@, v2@),
        (k3@, v3@),
        (k4@, v4@),
    ]);
    o
}

fn obj5(
    k1: &str,
    v1: JsonValue,
    k2: &str,
    v2: JsonValue,
    k3: &str,
    v3: JsonValue,
    k4: &str,
    v4: JsonValue,
    k5: &str,
    v5: JsonValue,
) -> (res: JsonValue)
    ensures
        res@ == JsonView::Object(seq![(k1@, v1@), (k2@, v2@), (k3@, v3@), (k4@, v4@), (k5@, v5@)]),
{
    let es = vec![entry(k1, v1), entry(k2, v2), entry(k3, v3), entry(k4, v4), entry(k5, v5)];
    let ghost gs = es@;
    let o = object(es);
    assert(Seq::new(gs.len(), |i: int| (gs[i].0@, json_view(gs[i].1))) =~= seq![
        (k1@, v1@),
        (k2@, v2@),
        (k3@, v3@),
        (k4@, v4@),
        (k5@, v5@),
    ]);
    o
}

fn obj6(
    k1: &str,
    v1: JsonValue,
    k2: &str,
    v2: JsonValue,
    k3: &str,
    v3: JsonValue,
    k4: &str,
    v4: JsonValue,
    k5: &str,
    v5: JsonValue,
    k6: &str,
    v6: JsonValue,
) -> (res: JsonValue)
    ensures
        res@ == JsonView::Object(
            seq![(k1@, v1@), (k2@, v2@), (k3@, v3@), (k4@, v4@), (k5@, v5@), (k6@, v6@)],
        ),
{
    let es = vec![
        entry(k1, v1),
        entry(k2, v2),
        entry(k3, v3),
        entry(k4, v4),
        entry(k5, v5),
        entry(k6, v6),
    ];
    let ghost gs = es@;
    let o = object(es);
    assert(Seq::new(gs.len(), |i: int| (gs[i].0@, json_view(gs[i].1))) =~= seq![
        (k1@, v1@),
        (k2@, v2@),
        (k3@, v3@),
        (k4@, v4@),
        (k5@, v5@),
        (k6@, v6@),
    ]);
    o
}

fn array(items: Vec<JsonValue>) -> (res: JsonValue)
    ensures
        res@ == JsonView::Array(Seq::new(items@.len(), |i: int| json_view(items@[i]))),
{
    proof {
        crate::typst::lemma_array_view(items);
    }
    JsonValue::Array(items)
}

fn str_array2(a: &str, b: &str) -> (res: JsonValue)
    ensures
        res@ == JsonView::Array(seq![sv(a@), sv(b@)]),
{
    let items = vec![json_str(a), json_str(b)];
    let ghost gs = items@;
    let r = array(items);
    assert(Seq::new(gs.len(), |i: int| json_view(gs[i])) =~= seq![sv(a@), sv(b@)]);
    r
}

fn str_array4(a: &str, b: &str, c: &str, d: &str) -> (res: JsonValue)
    ensures
        res@ == JsonView::Array(seq![sv(a@), sv(b@), sv(c@), sv(d@)]),
{
    let items = vec![json_str(a), json_str(b), json_str(c), json_str(d)];
    let ghost gs = items@;
    let r = array(items);
    assert(Seq::new(gs.len(), |i: int| json_view(gs[i])) =~= seq![sv(a@), sv(b@), sv(c@), sv(d@)]);
    r
}

/// A JSON array of the given strings.
pub open spec fn str_array(items: Seq<Seq<char>>) -> JsonView {
    JsonView::Array(Seq::new(items.len(), |i: int| sv(items[i])))
}

/// The schema of a string property with a description.
pub open spec fn described_string(desc: Seq<char>) -> JsonView {
    JsonView::Object(seq![("type"@, sv("string"@)), ("description"@, sv(desc))])
}

/// The schema of an object property holding the fields of a field map.
pub open spec fn fields_property(entries: Seq<(Seq<char>, Seq<char>)>) -> JsonView {
    JsonView::Object(seq![
        ("type"@, sv("object"@)),
        ("properties"@, field_schemas(entries)),
        ("additionalProperties"@, JsonView::Bool(false)),
    ])
}

/// The schema of a page's `layout`: a paper size (default `a4`) and an orientation.
pub open spec fn layout_schema() -> JsonView {
    JsonView::Object(seq![
        ("type"@, sv("object"@)),
        ("properties"@, JsonView::Object(seq![
            ("size"@, JsonView::Object(seq![("type"@, sv("string"@)), ("default"@, sv("a4"@))])),
            ("orientation"@, JsonView::Object(seq![
                ("type"@, sv("boolean"@)),
                ("description"@, sv("true for landscape, false for portrait"@)),
                ("default"@, JsonView::Bool(false)),
            ])),
        ])),
        ("required"@, JsonView::Array(seq![sv("size"@), sv("orientation"@)])),
        ("additionalProperties"@, JsonView::Bool(false)),
    ])
}

/// The schema of one page of a project of the template.
pub open spec fn page_schema(
    local: Seq<(Seq<char>, Seq<char>)>,
    variants: Seq<Seq<char>>,
) -> JsonView {
    JsonView::Object(seq![
        ("type"@, sv("object"@)),
        ("properties"@, JsonView::Object(seq![
            ("variant"@, JsonView::Object(seq![
                ("type"@, sv("string"@)),
                ("enum"@, str_array(variants)),
                ("default"@, sv(first_variant(variants))),
                ("description"@, sv("Page layout variant from the template (e.g. 'default', 'bom')"@)),
            ])),
            ("layout"@, layout_schema()),
            ("local_fields"@, fields_property(local)),
            ("content"@, described_string(
                "Source type: Custom value. The user chooses what to render in the template depending on its value"@,
            )),
            ("path"@, described_string(
                "Path to the reference file (.kicad_sch, .kicad_pcb, .md, or .csv)"@,
            )),
            ("extra_args"@, JsonView::Object(seq![
                ("type"@, sv("array"@)),
                ("items"@, JsonView::Object(seq![("type"@, sv("string"@))])),
                ("description"@, sv(
                    "Optional CLI arguments (e.g., ['--black-and-white', '--theme=dark'])"@,
                )),
            ])),
        ])),
        ("required"@, JsonView::Array(seq![sv("variant"@), sv("layout"@), sv("local_fields"@), sv("path"@)])),
        ("additionalProperties"@, JsonView::Bool(false)),
    ])
}

/// The JSON schema of the project files of a template: the template's global
/// fields, and pages that pick one of the template's variants (the first one by
/// default) and set the template's local fields.
pub open spec fn project_schema(
    global: Seq<(Seq<char>, Seq<char>)>,
    local: Seq<(Seq<char>, Seq<char>)>,
    variants: Seq<Seq<char>>,
) -> JsonView {
    JsonView::Object(seq![
        ("$schema"@, sv("http://json-schema.org/draft-07/schema#"@)),
        ("type"@, sv("object"@)),
        ("additionalProperties"@, JsonView::Bool(false)),
        ("properties"@, JsonView::Object(seq![
            ("$schema"@, described_string("Path or URI to the JSON schema"@)),
            ("global_fields"@, fields_property(global)),
            ("pages"@, JsonView::Object(seq![("type"@, sv("array"@)), ("items"@, page_schema(local, variants))])),
        ])),
        ("required"@, JsonView::Array(seq![sv("global_fields"@), sv("pages"@)])),
    ])
}

fn described_string_json(desc: &str) -> (res: JsonValue)
    ensures
        res@ == described_string(desc@),
{
    obj2("type", json_str("string"), "description", json_str(desc))
}

fn fields_property_json(m: &FieldMap) -> (res: JsonValue)
    ensures
        res@ == fields_property(m.entry_list()),
{
    obj3(
        "type",
        json_str("object"),
        "properties",
        field_schemas_json(m),
        "additionalProperties",
        JsonValue::Bool(false),
    )
}

fn layout_schema_json() -> (res: JsonValue)
    ensures
        res@ == layout_schema(),
{
    let size = obj2("type", json_str("string"), "default", json_str("a4"));
    let orientation = obj3(
        "type",
        json_str("boolean"),
        "description",
        json_str("true for landscape, false for portrait"),
        "default",
        JsonValue::Bool(false),
    );
    obj4(
        "type",
        json_str("object"),
        "properties",
        obj2("size", size, "orientation", orientation),
        "required",
        str_array2("size", "orientation"),
        "additionalProperties",
        JsonValue::Bool(false),
    )
}

fn page_schema_json(local: &FieldMap, variants: &Vec<String>) -> (res: JsonValue)
    ensures
        res@ == page_schema(local.entry_list(), char_seqs(variants@)),
{
    let names = json_str_array(variants);
    assert(names@ == str_array(char_seqs(variants@))) by {
        assert(Seq::new(variants@.len(), |i: int| JsonView::Str(variants@[i]@)) =~= Seq::new(
            char_seqs(variants@).len(),
            |i: int| sv(char_seqs(variants@)[i]),
        ));
    }
    let default = default_variant(variants);
    let variant = obj4(
        "type",
        json_str("string"),
        "enum",
        names,
        "default",
        JsonValue::Str(default),
        "description",
        json_str("Page layout variant from the template (e.g. 'default', 'bom')"),
    );
    let extra_args = obj3(
        "type",
        json_str("array"),
        "items",
        obj1("type", json_str("string")),
        "description",
        json_str("Optional CLI arguments (e.g., ['--black-and-white', '--theme=dark'])"),
    );
    let properties = obj6(
        "variant",
        variant,
        "layout",
        layout_schema_json(),
        "local_fields",
        fields_property_json(local),
        "content",
        described_string_json(
            "Source type: Custom value. The user chooses what to render in the template depending on its value",
        ),
        "path",
        described_string_json("Path to the reference file (.kicad_sch, .kicad_pcb, .md, or .csv)"),
        "extra_args",
        extra_args,
    );
    obj4(
        "type",
        json_str("object"),
        "properties",
        properties,
        "required",
        str_array4("variant", "layout", "local_fields", "path"),
        "additionalProperties",
        JsonValue::Bool(false),
    )
}

} // verus!

verus! {

/// The JSON schema document for the project files of a template, given the
/// template's variants (as `order_template_variants` lists them).
pub fn generate_project_schema(meta: &Template, variants: &Vec<String>) -> (res: JsonValue)
    ensures
        res@ == project_schema(
            meta.global_fields.entry_list(),
            meta.local_fields.entry_list(),
            char_seqs(variants@),
        ),
{
    let properties = obj3(
        "$schema",
        described_string_json("Path or URI to the JSON schema"),
        "global_fields",
        fields_property_json(&meta.global_fields),
        "pages",
        obj2("type", json_str("array"), "items", page_schema_json(&meta.local_fields, variants)),
    );
    obj5(
        "$schema",
        json_str("http://json-schema.org/draft-07/schema#"),
        "type",
        json_str("object"),
        "additionalProperties",
        JsonValue::Bool(false),
        "properties",
        properties,
        "required",
        str_array2("global_fields", "pages"),
    )
}

/// The value of the first entry with key `k` of a JSON object (`null` when
/// `v` is not an object or has no such entry).
pub open spec fn json_at(v: JsonView, k: Seq<char>) -> JsonView {
    match v {
        JsonView::Object(entries) => match crate::status::first_key_index(entries, k, 0) {
            Some(i) => entries[i].1,
            None => JsonView::Null,
        },
        _ => JsonView::Null,
    }
}

/// Whether a JSON object has an entry with key `k`.
pub open spec fn json_has(v: JsonView, k: Seq<char>) -> bool {
    match v {
        JsonView::Object(entries) => crate::status::first_key_index(entries, k, 0) is Some,
        _ => false,
    }
}

/// Every key that a page of a project file may carry (`variant`, `layout`,
/// `local_fields`, `content`, `path` and `extra_args`) is a property of the
/// page schema that the generated project schema gives, whatever the
/// template's fields and variants; `extra_args` is an array of strings; and
/// no other key is allowed on a page.
pub proof fn lemma_page_schema_keys(
    global: Seq<(Seq<char>, Seq<char>)>,
    local: Seq<(Seq<char>, Seq<char>)>,
    variants: Seq<Seq<char>>,
)
    ensures
        ({
            let items = json_at(json_at(json_at(project_schema(global, local, variants), "properties"@), "pages"@), "items"@);
            let props = json_at(items, "properties"@);
            &&& json_has(props, "variant"@)
            &&& json_has(props, "layout"@)
            &&& json_has(props, "local_fields"@)
            &&& json_has(props, "content"@)
            &&& json_has(props, "path"@)
            &&& json_has(props, "extra_args"@)
            &&& json_at(json_at(props, "extra_args"@), "type"@) == JsonView::Str("array"@)
            &&& json_at(json_at(json_at(props, "extra_args"@), "items"@), "type"@) == JsonView::Str("string"@)
            &&& json_at(items, "additionalProperties"@) == JsonView::Bool(false)
        }),
{
    reveal_strlit("$schema");
    reveal_strlit("type");
    reveal_strlit("additionalProperties");
    reveal_strlit("properties");
    reveal_strlit("required");
    reveal_strlit("global_fields");
    reveal_strlit("pages");
    reveal_strlit("items");
    reveal_strlit("variant");
    reveal_strlit("layout");
    reveal_strlit("local_fields");
    reveal_strlit("content");
    reveal_strlit("path");
    reveal_strlit("extra_args");
    reveal_strlit("description");
    assert("$schema"@.len() != "pages"@.len());
    assert("$schema"@.len() != "properties"@.len());
    assert("additionalProperties"@.len() != "properties"@.len());
    assert("content"@.len() != "extra_args"@.len());
    assert("content"@.len() != "path"@.len());
    assert("global_fields"@.len() != "pages"@.len());
    assert("layout"@.len() != "content"@.len());
    assert("layout"@.len() != "extra_args"@.len());
    assert("layout"@.len() != "local_fields"@.len());
    assert("layout"@.len() != "path"@.len());
    assert("local_fields"@.len() != "content"@.len());
    assert("local_fields"@.len() != "extra_args"@.len());
    assert("local_fields"@.len() != "path"@.len());
    assert("path"@.len() != "extra_args"@.len());
    assert("properties"@.len() != "additionalProperties"@.len());
    assert("required"@.len() != "additionalProperties"@.len());
    assert("type"@.len() != "additionalProperties"@.len());
    assert("type"@.len() != "items"@.len());
    assert("type"@.len() != "properties"@.len());
    assert("variant"@[0] != "content"@[0]);
    assert("variant"@.len() != "extra_args"@.len());
    assert("variant"@.len() != "layout"@.len());
    assert("variant"@.len() != "local_fields"@.len());
    assert("variant"@.len() != "path"@.len());
    reveal_with_fuel(crate::status::first_key_index, 8);
}

/// The error given when a template has no `meta.json`.
pub fn template_not_found_message(template_name: &str, template_dir: &str) -> (res: String)
    ensures
        res@ == "Template '"@ + template_name@ + "' not found (expected meta.json in "@ + template_dir@ + ")"@,
{
    let mut m = String::from_str("Template '");
    m.append(template_name);
    m.append("' not found (expected meta.json in ");
    m.append(template_dir);
    m.append(")");
    m
}

/// The file name of a template's generated project schema.
pub fn project_schema_file_name(file_stem: &str) -> (res: String)
    ensures
        res@ == file_stem@ + ".schema.json"@,
{
    let mut s = String::from_str(file_stem);
    s.append(".schema.json");
    s
}

/// The project file written for a new project of a template: its `$schema`
/// pointing at `schema_path`, the template's global fields, and one A4
/// landscape page of the first variant (under `variant`, as the project
/// schema asks) showing a schematic, with the template's local fields.
pub open spec fn initial_project(
    schema_path: Seq<char>,
    global: Seq<(Seq<char>, Seq<char>)>,
    local: Seq<(Seq<char>, Seq<char>)>,
    variants: Seq<Seq<char>>,
) -> JsonView {
    JsonView::Object(seq![
        ("$schema"@, sv("file://"@ + schema_path)),
        ("global_fields"@, fields_object(global)),
        ("pages"@, JsonView::Array(seq![JsonView::Object(seq![
            ("variant"@, sv(first_variant(variants))),
            ("layout"@, JsonView::Object(seq![("size"@, sv("a4"@)), ("orientation"@, JsonView::Bool(true))])),
            ("local_fields"@, fields_object(local)),
            ("content"@, sv("sch"@)),
            ("path"@, sv("path"@)),
        ])])),
    ])
}

/// Builds the project file for a new project of template `meta`.
pub fn initial_project_json(schema_path: &str, meta: &Template, variants: &Vec<String>) -> (res: JsonValue)
    ensures
        res@ == initial_project(
            schema_path@,
            meta.global_fields.entry_list(),
            meta.local_fields.entry_list(),
            char_seqs(variants@),
        ),
{
    let mut uri = String::from_str("file://");
    uri.append(schema_path);
    let page = obj5(
        "variant",
        JsonValue::Str(default_variant(variants)),
        "layout",
        obj2("size", json_str("a4"), "orientation", JsonValue::Bool(true)),
        "local_fields",
        fields_to_json(&meta.local_fields),
        "content",
        json_str("sch"),
        "path",
        json_str("path"),
    );
    let ghost pv = page@;
    let items = vec![page];
    let ghost g = items@;
    let pages = array(items);
    assert(Seq::new(g.len(), |i: int| json_view(g[i])) =~= seq![pv]);
    obj3("$schema", JsonValue::Str(uri), "global_fields", fields_to_json(&meta.global_fields), "pages", pages)
}

} // verus!
