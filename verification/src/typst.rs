//! Typst literal generation: string escaping, JSON-to-Typst conversion and
//! the scripts that drive the Typst compiler.
use vstd::prelude::*;
use crate::text::{chars_of, flat_map_chars, lemma_flat_map_concat, lowercase, push_char, same_text, to_lowercase};

verus! {

broadcast use vstd::std_specs::vec::axiom_vec_index_decreases;

// ───────────────────────────── escaping ─────────────────────────────

/// How one character is written inside a Typst string literal.
pub open spec fn escape_char(c: char) -> Seq<char> {
    if c == '\\' {
        seq!['\\', '\\']
    } else if c == '"' {
        seq!['\\', '"']
    } else if c == '\n' {
        seq!['\\', 'n']
    } else if c == '\r' {
        seq!['\\', 'r']
    } else if c == '\t' {
        seq!['\\', 't']
    } else {
        seq![c]
    }
}

/// `s` written as the body of a Typst string literal.
pub open spec fn escape(s: Seq<char>) -> Seq<char> {
    flat_map_chars(s, |c: char| escape_char(c))
}

/// The character that the escape sequence `\c` stands for.
pub open spec fn unescape_code(c: char) -> Option<char> {
    if c == '\\' {
        Some('\\')
    } else if c == '"' {
        Some('"')
    } else if c == 'n' {
        Some('\n')
    } else if c == 'r' {
        Some('\r')
    } else if c == 't' {
        Some('\t')
    } else {
        None
    }
}

/// Reads `t` as the body of a Typst string literal: the string it denotes, or
/// `None` when `t` would end the literal early (a bare `"`), holds a raw line
/// break or tab, or holds an escape sequence that is not one of `\\ \" \n \r \t`.
pub open spec fn unescape(t: Seq<char>) -> Option<Seq<char>>
    decreases t.len(),
{
    if t.len() == 0 {
        Some(Seq::empty())
    } else if t[0] == '\\' {
        if t.len() < 2 {
            None
        } else {
            match unescape_code(t[1]) {
                Some(c) => match unescape(t.skip(2)) {
                    Some(rest) => Some(seq![c] + rest),
                    None => None,
                },
                None => None,
            }
        }
    } else if t[0] == '"' || t[0] == '\n' || t[0] == '\r' || t[0] == '\t' {
        None
    } else {
        match unescape(t.drop_first()) {
            Some(rest) => Some(seq![t[0]] + rest),
            None => None,
        }
    }
}

/// `s` as a complete Typst string literal, quotes included.
pub open spec fn quoted(s: Seq<char>) -> Seq<char> {
    seq!['"'] + escape(s) + seq!['"']
}

proof fn lemma_escape_front(s: Seq<char>)
    requires
        s.len() > 0,
    ensures
        escape(s) == escape_char(s[0]) + escape(s.drop_first()),
{
    let f = |c: char| escape_char(c);
    assert(s == seq![s[0]] + s.drop_first());
    lemma_flat_map_concat(seq![s[0]], s.drop_first(), f);
    assert(seq![s[0]].drop_last() == Seq::<char>::empty());
    assert(flat_map_chars(Seq::<char>::empty(), f) == Seq::<char>::empty());
    assert(flat_map_chars(seq![s[0]], f) == Seq::<char>::empty() + f(s[0]));
    assert(Seq::<char>::empty() + f(s[0]) == f(s[0]));
}

proof fn lemma_unescape_unit(c: char, rest: Seq<char>)
    ensures
        unescape(escape_char(c) + rest) == match unescape(rest) {
            Some(r) => Some(seq![c] + r),
            None => None::<Seq<char>>,
        },
{
    let t = escape_char(c) + rest;
    if escape_char(c).len() == 2 {
        assert(t.skip(2) == rest);
    } else {
        assert(t.drop_first() == rest);
    }
}

/// Escaping is safe and lossless: the escaped text, read back as the body of a
/// Typst string literal, denotes exactly the string it was made from.
pub proof fn lemma_escape_round_trip(s: Seq<char>)
    ensures
        unescape(escape(s)) == Some(s),
    decreases s.len(),
{
    if s.len() == 0 {
        assert(escape(s) == Seq::<char>::empty());
    } else {
        lemma_escape_front(s);
        lemma_escape_round_trip(s.drop_first());
        lemma_unescape_unit(s[0], escape(s.drop_first()));
        assert(seq![s[0]] + s.drop_first() == s);
    }
}

/// The number of backslashes that immediately precede index `i` of `t`.
pub open spec fn backslashes_before(t: Seq<char>, i: int) -> nat
    decreases i,
{
    if i <= 0 || i > t.len() {
        0
    } else if t[i - 1] == '\\' {
        1 + backslashes_before(t, i - 1)
    } else {
        0
    }
}

proof fn lemma_backslashes_prefix(e: Seq<char>, u: Seq<char>, i: int)
    requires
        0 <= i <= e.len(),
    ensures
        backslashes_before(e + u, i) == backslashes_before(e, i),
    decreases i,
{
    if i > 0 {
        assert((e + u)[i - 1] == e[i - 1]);
        lemma_backslashes_prefix(e, u, i - 1);
    }
}

/// Escaping leaves no raw line break, carriage return or tab, and every `"`
/// in the escaped text follows an odd number of backslashes (so it is escaped
/// and does not end the literal); the text also ends after an even number of
/// backslashes, so the closing quote is not escaped.
pub proof fn lemma_escape_safe(s: Seq<char>)
    ensures
        forall|i: int|
            0 <= i < escape(s).len() ==> #[trigger] escape(s)[i] != '\n' && escape(s)[i] != '\r'
                && escape(s)[i] != '\t',
        forall|i: int|
            0 <= i < escape(s).len() && #[trigger] escape(s)[i] == '"' ==> backslashes_before(escape(s), i) % 2
                == 1,
        backslashes_before(escape(s), escape(s).len() as int) % 2 == 0,
    decreases s.len(),
{
    if s.len() > 0 {
        let p = s.drop_last();
        let c = s.last();
        lemma_escape_safe(p);
        let e = escape(p);
        let u = escape_char(c);
        let t = e + u;
        assert(escape(s) == t);
        let n = e.len() as int;
        assert forall|i: int| 0 <= i <= n implies backslashes_before(t, i) == backslashes_before(e, i) by {
            lemma_backslashes_prefix(e, u, i);
        }
        assert forall|i: int| 0 <= i < t.len() implies #[trigger] t[i] != '\n' && t[i] != '\r' && t[i] != '\t' by {
            if i < n {
                assert(t[i] == e[i]);
            } else {
                assert(t[i] == u[i - n]);
            }
        }
        assert forall|i: int| 0 <= i < t.len() && #[trigger] t[i] == '"' implies backslashes_before(t, i) % 2 == 1 by {
            if i < n {
                assert(t[i] == e[i]);
            } else {
                assert(t[i] == u[i - n]);
                assert(i == n + 1);
                assert(t[n] == '\\');
            }
        }
        if u.len() == 2 {
            assert(t[n] == '\\');
            assert(t[n + 1] == u[1]);
            assert(t.len() == n + 2);
            if c == '\\' {
                assert(backslashes_before(t, n + 1) == 1 + backslashes_before(t, n));
                assert(backslashes_before(t, n + 2) == 1 + backslashes_before(t, n + 1));
            } else {
                assert(t[n + 1] != '\\');
                assert(backslashes_before(t, n + 2) == 0);
            }
        } else {
            assert(t[n] == c);
            assert(t.len() == n + 1);
            assert(backslashes_before(t, n + 1) == 0);
        }
    } else {
        assert(escape(s).len() == 0);
    }
}

/// Escapes a string for safe embedding inside a Typst string literal.
pub fn escape_typst_string(s: &str) -> (res: String)
    ensures
        res@ == escape(s@),
{
    let v = chars_of(s);
    let mut out = String::new();
    let mut i: usize = 0;
    while i < v.len()
        invariant
            i <= v.len(),
            v@ == s@,
            out@ == escape(v@.take(i as int)),
        decreases v.len() - i,
    {
        let c = v[i];
        let ghost before = out@;
        if c == '\\' {
            push_char(&mut out, '\\');
            push_char(&mut out, '\\');
        } else if c == '"' {
            push_char(&mut out, '\\');
            push_char(&mut out, '"');
        } else if c == '\n' {
            push_char(&mut out, '\\');
            push_char(&mut out, 'n');
        } else if c == '\r' {
            push_char(&mut out, '\\');
            push_char(&mut out, 'r');
        } else if c == '\t' {
            push_char(&mut out, '\\');
            push_char(&mut out, 't');
        } else {
            push_char(&mut out, c);
        }
        proof {
            assert(out@ =~= before + escape_char(c));
            assert(v@.take(i + 1) == v@.take(i as int).push(c));
            assert(v@.take(i + 1).drop_last() == v@.take(i as int));
            assert(escape(v@.take(i + 1)) == escape(v@.take(i as int)) + escape_char(c));
        }
        i += 1;
    }
    assert(v@.take(v@.len() as int) == v@);
    out
}

} // verus!

verus! {

// ───────────────────────────── JSON values ─────────────────────────────

/// A JSON document as the project and template files hold it.
///
/// Numbers keep the text that JSON gave them; objects keep their entries in
/// the order in which the document's map iterates them.
#[derive(Debug, PartialEq, Eq)]
pub enum JsonValue {
    Null,
    Bool(bool),
    Number(String),
    Str(String),
    Array(Vec<JsonValue>),
    Object(Vec<(String, JsonValue)>),
}

/// Number of array items or object entries of `v`.
pub open spec fn item_count(v: JsonValue) -> nat {
    match v {
        JsonValue::Array(a) => a@.len(),
        JsonValue::Object(o) => o@.len(),
        _ => 0,
    }
}

/// The Typst text of one object entry: `"key": value`, where the value of a
/// `size` key that holds a string is written in lower case.
pub open spec fn entry_text(key: Seq<char>, val: JsonValue, val_text: Seq<char>) -> Seq<char> {
    quoted(key) + ": "@ + match val {
        JsonValue::Str(s) => if key == "size"@ {
            quoted(lowercase(s@))
        } else {
            val_text
        },
        _ => val_text,
    }
}

/// The Typst text of item `i` of an array or object.
pub open spec fn item_text(v: JsonValue, i: int) -> Seq<char>
    decreases v, 0nat,
{
    match v {
        JsonValue::Array(a) => if 0 <= i < a.len() {
            typst_value(a[i])
        } else {
            Seq::empty()
        },
        JsonValue::Object(o) => if 0 <= i < o.len() {
            entry_text(o[i].0@, o[i].1, typst_value(o[i].1))
        } else {
            Seq::empty()
        },
        _ => Seq::empty(),
    }
}

/// The first `n` items of an array or object, separated by `, `.
pub open spec fn joined_items(v: JsonValue, n: nat) -> Seq<char>
    decreases v, n,
{
    if n == 0 {
        Seq::empty()
    } else if n == 1 {
        item_text(v, 0)
    } else {
        joined_items(v, (n - 1) as nat) + ", "@ + item_text(v, n - 1)
    }
}

/// The Typst expression for a JSON value: `none`, booleans, numbers as JSON
/// wrote them, escaped string literals, arrays as `(a, b)` (a single item as
/// `(a,)`, no item as `()`), objects as dictionaries `("k": v)` (no entry as `(:)`).
pub open spec fn typst_value(v: JsonValue) -> Seq<char>
    decreases v, item_count(v) + 1,
{
    match v {
        JsonValue::Null => "none"@,
        JsonValue::Bool(b) => if b {
            "true"@
        } else {
            "false"@
        },
        JsonValue::Number(n) => n@,
        JsonValue::Str(s) => quoted(s@),
        JsonValue::Array(a) => if a.len() == 0 {
            "()"@
        } else if a.len() == 1 {
            "("@ + typst_value(a[0]) + ",)"@
        } else {
            "("@ + joined_items(v, a@.len()) + ")"@
        },
        JsonValue::Object(o) => if o.len() == 0 {
            "(:)"@
        } else {
            "("@ + joined_items(v, o@.len()) + ")"@
        },
    }
}

proof fn lemma_joined_items_join(v: JsonValue, k: nat)
    ensures
        joined_items(v, k) == crate::status::join_lines(Seq::new(k, |i: int| item_text(v, i)), ", "@),
    decreases k,
{
    let s = Seq::new(k, |i: int| item_text(v, i));
    if k == 1 {
        assert(s[0] == item_text(v, 0));
    } else if k >= 2 {
        lemma_joined_items_join(v, (k - 1) as nat);
        assert(s.drop_last() =~= Seq::new((k - 1) as nat, |i: int| item_text(v, i)));
        assert(s.last() == item_text(v, k - 1));
    } else {
        assert(s.len() == 0);
    }
}

/// The Typst literal of a JSON array of two or more items is `(`, then the
/// literals of the items in order with `, ` between each two of them, then
/// `)`, whatever the number of items.
pub proof fn lemma_array_literal(items: Vec<JsonValue>)
    requires
        items@.len() >= 2,
    ensures
        typst_value(JsonValue::Array(items)) == "("@ + crate::status::join_lines(
            Seq::new(items@.len(), |i: int| typst_value(items@[i])),
            ", "@,
        ) + ")"@,
{
    let v = JsonValue::Array(items);
    lemma_joined_items_join(v, items@.len());
    assert(Seq::new(items@.len(), |i: int| item_text(v, i)) =~= Seq::new(
        items@.len(),
        |i: int| typst_value(items@[i]),
    ));
}

/// The Typst literal of a non-empty JSON object is `(`, then one `"key": value`
/// per entry in order with `, ` between each two of them, then `)`; a value is
/// its own literal, except that a string under the key `size` is written in
/// lower case.
pub proof fn lemma_object_literal(entries: Vec<(String, JsonValue)>)
    requires
        entries@.len() >= 1,
    ensures
        typst_value(JsonValue::Object(entries)) == "("@ + crate::status::join_lines(
            Seq::new(
                entries@.len(),
                |i: int|
                    quoted(entries@[i].0@) + ": "@ + match entries@[i].1 {
                        JsonValue::Str(v) => if entries@[i].0@ == "size"@ {
                            quoted(lowercase(v@))
                        } else {
                            quoted(v@)
                        },
                        _ => typst_value(entries@[i].1),
                    },
            ),
            ", "@,
        ) + ")"@,
{
    let v = JsonValue::Object(entries);
    lemma_joined_items_join(v, entries@.len());
    assert(Seq::new(entries@.len(), |i: int| item_text(v, i)) =~= Seq::new(
        entries@.len(),
        |i: int|
            quoted(entries@[i].0@) + ": "@ + match entries@[i].1 {
                JsonValue::Str(v) => if entries@[i].0@ == "size"@ {
                    quoted(lowercase(v@))
                } else {
                    quoted(v@)
                },
                _ => typst_value(entries@[i].1),
            },
    ));
}

/// `s` as a Typst string literal.
pub fn quote_typst_string(s: &str) -> (res: String)
    ensures
        res@ == quoted(s@),
{
    let mut out = String::from_str("\"");
    let e = escape_typst_string(s);
    out.append(e.as_str());
    out.append("\"");
    proof {
        reveal_strlit("\"");
        assert(out@ =~= quoted(s@));
    }
    out
}

/// Recursively converts a JSON value into a Typst expression literal.
pub fn json_to_typst(val: &JsonValue) -> (res: String)
    ensures
        res@ == typst_value(*val),
    decreases val,
{
    match val {
        JsonValue::Null => String::from_str("none"),
        JsonValue::Bool(b) => if *b {
            String::from_str("true")
        } else {
            String::from_str("false")
        },
        JsonValue::Number(n) => n.clone(),
        JsonValue::Str(s) => quote_typst_string(s.as_str()),
        JsonValue::Array(a) => {
            if a.len() == 0 {
                String::from_str("()")
            } else if a.len() == 1 {
                let mut out = String::from_str("(");
                let inner = json_to_typst(&a[0]);
                out.append(inner.as_str());
                out.append(",)");
                out
            } else {
                let mut out = String::from_str("(");
                let mut i: usize = 0;
                assert(out@ =~= "("@ + joined_items(*val, 0));
                while i < a.len()
                    invariant
                        *val == JsonValue::Array(*a),
                        i <= a.len(),
                        out@ == "("@ + joined_items(*val, i as nat),
                    decreases a.len() - i,
                {
                    if i > 0 {
                        out.append(", ");
                    }
                    proof {
                        assert(decreases_to!(*val => (*val)->Array_0));
                        assert(decreases_to!(*a => a[i as int]));
                        assert(decreases_to!(*val => a[i as int]));
                    }
                    let item = json_to_typst(&a[i]);
                    out.append(item.as_str());
                    proof {
                        assert(item_text(*val, i as int) == item@);
                        if i > 0 {
                            assert(joined_items(*val, (i + 1) as nat) == joined_items(*val, i as nat)
                                + ", "@ + item@);
                        } else {
                            assert(joined_items(*val, 1) == item@);
                        }
                        assert(out@ =~= "("@ + joined_items(*val, (i + 1) as nat));
                    }
                    i += 1;
                }
                out.append(")");
                out
            }
        },
        JsonValue::Object(o) => {
            if o.len() == 0 {
                String::from_str("(:)")
            } else {
                let mut out = String::from_str("(");
                let mut i: usize = 0;
                assert(out@ =~= "("@ + joined_items(*val, 0));
                while i < o.len()
                    invariant
                        *val == JsonValue::Object(*o),
                        i <= o.len(),
                        out@ == "("@ + joined_items(*val, i as nat),
                    decreases o.len() - i,
                {
                    if i > 0 {
                        out.append(", ");
                    }
                    let key = &o[i].0;
                    let value = &o[i].1;
                    proof {
                        assert(decreases_to!(*val => (*val)->Object_0));
                        assert(decreases_to!(*o => o[i as int]));
                        assert(decreases_to!(o[i as int] => o[i as int].1));
                        assert(decreases_to!(*val => o[i as int].1));
                    }
                    let mut entry = quote_typst_string(key.as_str());
                    entry.append(": ");
                    let is_size = same_text(key.as_str(), "size");
                    let val_str = match value {
                        JsonValue::Str(s) => if is_size {
                            let low = to_lowercase(s.as_str());
                            quote_typst_string(low.as_str())
                        } else {
                            json_to_typst(value)
                        },
                        _ => json_to_typst(value),
                    };
                    entry.append(val_str.as_str());
                    out.append(entry.as_str());
                    proof {
                        assert(entry@ == entry_text(key@, *value, typst_value(*value)));
                        assert(item_text(*val, i as int) == entry@);
                        if i > 0 {
                            assert(joined_items(*val, (i + 1) as nat) == joined_items(*val, i as nat)
                                + ", "@ + entry@);
                        } else {
                            assert(joined_items(*val, 1) == entry@);
                        }
                        assert(out@ =~= "("@ + joined_items(*val, (i + 1) as nat));
                    }
                    i += 1;
                }
                out.append(")");
                out
            }
        },
    }
}

} // verus!

verus! {

// ───────────────────────────── scripts ─────────────────────────────

/// Text of the single-page script before the layout code.
pub const PAGE_SCRIPT_HEAD: &'static str = r#"
#import "@preview/cmarker:0.1.10"

// --- INJECTED LAYOUT DEFINITION ---
"#;

/// Text of the single-page script between the layout code and the project data.
pub const PAGE_SCRIPT_MIDDLE: &'static str = r#"

// --- INJECTED PROJECT DATA ---
#let project = "#;

/// Text of the single-page script after the project data.
pub const PAGE_SCRIPT_TAIL: &'static str = r#"
#let global_fields = project.global_fields
#let p = project.pages.at(0)

// --- EXECUTION ---
#render_page(p.layout, p.local_fields, global_fields, p.content, p.path)
"#;

/// Text of the multi-page runner script before the project data.
pub const RUNNER_SCRIPT_HEAD: &'static str = r#"
#import "@preview/cmarker:0.1.10"

// --- INJECTED CONTENT HANDLER ---
#let input_content(content, path) = {
  if (content == "pcb" or content == "sch") {
    if path != "" {
      place(
        top + left,
        image(path, width: 100%, height: 100%, fit: "contain"),
      )
    }
  } else if (content == "md") {
    if path != "" {
      place(top + left)[
        #block(
          width: 100%,
          height: 100%,
          inset: 12pt,
          cmarker.render(read(path)),
        )
      ]
    }
  } else if (content == "bom") {
    if path != "" {
      let bom_data = csv(path)
      let headers = bom_data.at(0)
      let rows = bom_data.slice(1)
      place(top + left)[
        #block(
          width: 100%,
          height: 100%,
          inset: 12pt,
          table(
            columns: headers.len(),
            ..headers.map(h => [*#h*]),
            ..rows.flatten(),
          ),
        )
      ]
    }
  }
}

// --- INJECTED PROJECT DATA ---
#let project = "#;

/// Text of the multi-page runner script between the project data and the layout code.
pub const RUNNER_SCRIPT_MIDDLE: &'static str = r#"
#let global_fields = project.global_fields
#let pages = project.pages

// --- USER LAYOUT DEFINITION ---
"#;

/// Text of the multi-page runner script after the layout code.
pub const RUNNER_SCRIPT_TAIL: &'static str = r#"

// --- EXECUTION STENCIL LOOP ---
#for (i, p) in pages.enumerate() {
  if i > 0 { pagebreak() }
  render_page(p.layout, p.local_fields, global_fields, p.content, p.path)
}
"#;

/// The script that renders one page: the layout code, then the project data
/// bound to `project`, then a call of `render_page` for the first page.
pub open spec fn page_script(layout_code: Seq<char>, project_typst: Seq<char>) -> Seq<char> {
    PAGE_SCRIPT_HEAD@ + layout_code + PAGE_SCRIPT_MIDDLE@ + project_typst + PAGE_SCRIPT_TAIL@
}

/// The script that renders every page of a project in turn.
pub open spec fn runner_script(layout_code: Seq<char>, project_typst: Seq<char>) -> Seq<char> {
    RUNNER_SCRIPT_HEAD@ + project_typst + RUNNER_SCRIPT_MIDDLE@ + layout_code + RUNNER_SCRIPT_TAIL@
}

/// Builds the standalone Typst script for rendering a single page from the
/// layout code and the Typst literal of the project data.
pub fn build_single_page_script(layout_code: &str, project_typst: &str) -> (res: String)
    ensures
        res@ == page_script(layout_code@, project_typst@),
{
    let mut out = String::from_str(PAGE_SCRIPT_HEAD);
    out.append(layout_code);
    out.append(PAGE_SCRIPT_MIDDLE);
    out.append(project_typst);
    out.append(PAGE_SCRIPT_TAIL);
    out
}

/// Builds the multi-page runner script from the layout code and the Typst
/// literal of the project data.
pub fn build_typst_runner_script(layout_code: &str, project_typst: &str) -> (res: String)
    ensures
        res@ == runner_script(layout_code@, project_typst@),
{
    let mut out = String::from_str(RUNNER_SCRIPT_HEAD);
    out.append(project_typst);
    out.append(RUNNER_SCRIPT_MIDDLE);
    out.append(layout_code);
    out.append(RUNNER_SCRIPT_TAIL);
    out
}

} // verus!

verus! {

// ───────────────────────────── JSON views ─────────────────────────────

/// The mathematical form of a JSON value: strings and numbers as character
/// sequences, arrays and objects as sequences.
pub enum JsonView {
    Null,
    Bool(bool),
    Number(Seq<char>),
    Str(Seq<char>),
    Array(Seq<JsonView>),
    Object(Seq<(Seq<char>, JsonView)>),
}

/// The views of the first `n` items of an array value.
pub open spec fn array_views(v: JsonValue, n: nat) -> Seq<JsonView>
    decreases v, n,
{
    match v {
        JsonValue::Array(a) => if n == 0 || n > a.len() {
            Seq::empty()
        } else {
            array_views(v, (n - 1) as nat).push(json_view(a[n - 1]))
        },
        _ => Seq::empty(),
    }
}

/// The views of the first `n` entries of an object value.
pub open spec fn object_views(v: JsonValue, n: nat) -> Seq<(Seq<char>, JsonView)>
    decreases v, n,
{
    match v {
        JsonValue::Object(o) => if n == 0 || n > o.len() {
            Seq::empty()
        } else {
            object_views(v, (n - 1) as nat).push((o[n - 1].0@, json_view(o[n - 1].1)))
        },
        _ => Seq::empty(),
    }
}

/// The view of a JSON value.
pub open spec fn json_view(v: JsonValue) -> JsonView
    decreases v, item_count(v) + 1,
{
    match v {
        JsonValue::Null => JsonView::Null,
        JsonValue::Bool(b) => JsonView::Bool(b),
        JsonValue::Number(n) => JsonView::Number(n@),
        JsonValue::Str(s) => JsonView::Str(s@),
        JsonValue::Array(a) => JsonView::Array(array_views(v, a@.len())),
        JsonValue::Object(o) => JsonView::Object(object_views(v, o@.len())),
    }
}

impl View for JsonValue {
    type V = JsonView;

    open spec fn view(&self) -> JsonView {
        json_view(*self)
    }
}

proof fn lemma_array_views(a: Vec<JsonValue>, n: nat)
    requires
        n <= a@.len(),
    ensures
        array_views(JsonValue::Array(a), n) == Seq::new(n, |i: int| json_view(a@[i])),
    decreases n,
{
    if n > 0 {
        lemma_array_views(a, (n - 1) as nat);
        assert(array_views(JsonValue::Array(a), n) =~= Seq::new(n, |i: int| json_view(a@[i])));
    } else {
        assert(array_views(JsonValue::Array(a), n) =~= Seq::new(n, |i: int| json_view(a@[i])));
    }
}

proof fn lemma_object_views(o: Vec<(String, JsonValue)>, n: nat)
    requires
        n <= o@.len(),
    ensures
        object_views(JsonValue::Object(o), n) == Seq::new(n, |i: int| (o@[i].0@, json_view(o@[i].1))),
    decreases n,
{
    if n > 0 {
        lemma_object_views(o, (n - 1) as nat);
        assert(object_views(JsonValue::Object(o), n) =~= Seq::new(
            n,
            |i: int| (o@[i].0@, json_view(o@[i].1)),
        ));
    } else {
        assert(object_views(JsonValue::Object(o), n) =~= Seq::new(
            n,
            |i: int| (o@[i].0@, json_view(o@[i].1)),
        ));
    }
}

/// The view of an array value lists the views of its items.
pub proof fn lemma_array_view(a: Vec<JsonValue>)
    ensures
        json_view(JsonValue::Array(a)) == JsonView::Array(
            Seq::new(a@.len(), |i: int| json_view(a@[i])),
        ),
{
    lemma_array_views(a, a@.len());
}

/// The view of an object value lists the views of its entries.
pub proof fn lemma_object_view(o: Vec<(String, JsonValue)>)
    ensures
        json_view(JsonValue::Object(o)) == JsonView::Object(
            Seq::new(o@.len(), |i: int| (o@[i].0@, json_view(o@[i].1))),
        ),
{
    lemma_object_views(o, o@.len());
}

/// A JSON string value.
pub fn json_str(s: &str) -> (res: JsonValue)
    ensures
        res@ == JsonView::Str(s@),
{
    JsonValue::Str(String::from_str(s))
}

/// A JSON array of strings.
pub fn json_str_array(items: &Vec<String>) -> (res: JsonValue)
    ensures
        res@ == JsonView::Array(Seq::new(items@.len(), |i: int| JsonView::Str(items@[i]@))),
{
    let mut a: Vec<JsonValue> = Vec::new();
    let mut i: usize = 0;
    while i < items.len()
        invariant
            i <= items@.len(),
            a@.len() == i,
            forall|j: int| 0 <= j < i ==> json_view(#[trigger] a@[j]) == JsonView::Str(items@[j]@),
        decreases items@.len() - i,
    {
        a.push(JsonValue::Str(items[i].clone()));
        i += 1;
    }
    proof {
        lemma_array_view(a);
        assert(Seq::new(a@.len(), |j: int| json_view(a@[j])) =~= Seq::new(
            items@.len(),
            |j: int| JsonView::Str(items@[j]@),
        ));
    }
    JsonValue::Array(a)
}

} // verus!
