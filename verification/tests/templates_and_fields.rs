use pcbfapi::fields::{compare_names, name_before, FieldMap, NameOrder, Template};
use pcbfapi::templates::{
    default_variant, field_schemas_json, fields_to_json, generate_project_schema, initial_project_json,
    order_template_variants, project_schema_file_name, starter_template, template_name_from_input, STARTER_LAYOUT,
};
use pcbfapi::typst::{json_str, json_to_typst, JsonValue};

fn strings(v: &[&str]) -> Vec<String> {
    v.iter().map(|s| s.to_string()).collect()
}

fn fields(pairs: &[(&str, &str)]) -> FieldMap {
    FieldMap::from_pairs(pairs.iter().map(|(k, v)| (k.to_string(), v.to_string())).collect())
}

fn entries(m: &FieldMap) -> Vec<(String, String)> {
    (0..m.entry_count()).map(|i| m.entry(i)).collect()
}

fn get(v: &JsonValue, key: &str) -> JsonValue {
    match v {
        JsonValue::Object(o) => clone_json(&o.iter().find(|(k, _)| k == key).expect("key present").1),
        _ => panic!("not an object"),
    }
}

fn clone_json(v: &JsonValue) -> JsonValue {
    match v {
        JsonValue::Null => JsonValue::Null,
        JsonValue::Bool(b) => JsonValue::Bool(*b),
        JsonValue::Number(n) => JsonValue::Number(n.clone()),
        JsonValue::Str(s) => JsonValue::Str(s.clone()),
        JsonValue::Array(a) => JsonValue::Array(a.iter().map(clone_json).collect()),
        JsonValue::Object(o) => JsonValue::Object(o.iter().map(|(k, v)| (k.clone(), clone_json(v))).collect()),
    }
}

#[test]
fn names_compare_as_strings_do() {
    assert_eq!(compare_names("a", "b"), NameOrder::Less);
    assert_eq!(compare_names("b", "a"), NameOrder::Greater);
    assert_eq!(compare_names("ab", "ab"), NameOrder::Same);
    assert_eq!(compare_names("ab", "abc"), NameOrder::Less);
    assert_eq!(compare_names("B", "a"), NameOrder::Less);
    assert!(name_before("", "a"));
    assert!(!name_before("a", "a"));
}

#[test]
fn field_map_reads_back_what_was_written() {
    let mut m = FieldMap::new();
    assert_eq!(m.len(), 0);
    assert_eq!(m.get("title"), None);
    m.insert("title".to_string(), "Board".to_string());
    m.insert("author".to_string(), "Ada".to_string());
    assert_eq!(m.get("title"), Some("Board".to_string()));
    assert_eq!(m.get("author"), Some("Ada".to_string()));
    assert_eq!(m.get("missing"), None);
    m.insert("title".to_string(), "Rev B".to_string());
    assert_eq!(m.get("title"), Some("Rev B".to_string()));
    assert_eq!(m.len(), 2);
}

#[test]
fn field_map_entries_in_name_order() {
    let m = fields(&[("zeta", "1"), ("alpha", "2"), ("mid", "3"), ("alpha", "4")]);
    assert_eq!(
        entries(&m),
        vec![
            ("alpha".to_string(), "4".to_string()),
            ("mid".to_string(), "3".to_string()),
            ("zeta".to_string(), "1".to_string()),
        ]
    );
}

#[test]
fn field_map_clone_has_same_entries() {
    let m = fields(&[("b", "2"), ("a", "1")]);
    let c = m.clone();
    assert_eq!(entries(&c), entries(&m));
}

#[test]
fn variants_default_first_then_by_name() {
    assert_eq!(
        order_template_variants(&strings(&["bom", "default", ".hidden", "assembly", "Zed"])),
        strings(&["default", "Zed", "assembly", "bom"])
    );
}

#[test]
fn variants_default_when_none_visible() {
    assert_eq!(order_template_variants(&vec![]), strings(&["default"]));
    assert_eq!(order_template_variants(&strings(&[".git", ".cache"])), strings(&["default"]));
}

#[test]
fn variants_without_default() {
    assert_eq!(order_template_variants(&strings(&["b", "a"])), strings(&["a", "b"]));
}

#[test]
fn default_variant_is_first_or_default() {
    assert_eq!(default_variant(&strings(&["bom", "x"])), "bom");
    assert_eq!(default_variant(&vec![]), "default");
}

#[test]
fn template_names_lose_json_suffixes() {
    assert_eq!(template_name_from_input("acme.json"), "acme");
    assert_eq!(template_name_from_input("acme.json.json"), "acme");
    assert_eq!(template_name_from_input("acme"), "acme");
    assert_eq!(template_name_from_input(".json"), "");
    assert_eq!(template_name_from_input("acme.JSON"), "acme.JSON");
}

#[test]
fn starter_template_fields() {
    let t: Template = starter_template("/home/u/.pcb-forge/schemas/template.schema.json");
    assert_eq!(t.schema, Some("file:///home/u/.pcb-forge/schemas/template.schema.json".to_string()));
    assert_eq!(
        entries(&t.global_fields),
        vec![("name".to_string(), "Author Name".to_string()), ("title".to_string(), "Project Title".to_string())]
    );
    assert_eq!(t.local_fields.get("document_type"), Some("Document Type".to_string()));
    assert_eq!(t.local_fields.get("document_title"), Some("Document Title".to_string()));
    assert_eq!(t.local_fields.len(), 2);
    assert!(STARTER_LAYOUT.starts_with("#let render_page(layout, local_fields, global_fields, content, path) = {"));
    assert!(STARTER_LAYOUT.ends_with("]\n}"));
}

#[test]
fn fields_as_json_objects() {
    let m = fields(&[("b", "2"), ("a", "1")]);
    assert_eq!(
        fields_to_json(&m),
        JsonValue::Object(vec![("a".to_string(), json_str("1")), ("b".to_string(), json_str("2"))])
    );
    let schemas = field_schemas_json(&fields(&[("title", "Project Title")]));
    assert_eq!(
        schemas,
        JsonValue::Object(vec![(
            "title".to_string(),
            JsonValue::Object(vec![
                ("type".to_string(), json_str("string")),
                ("description".to_string(), json_str("Project Title")),
                ("default".to_string(), json_str("")),
            ])
        )])
    );
}

#[test]
fn project_schema_document() {
    let meta = Template {
        schema: None,
        global_fields: fields(&[("title", "Project Title")]),
        local_fields: fields(&[("sheet", "Sheet")]),
    };
    let s = generate_project_schema(&meta, &strings(&["default", "bom"]));
    assert_eq!(get(&s, "$schema"), json_str("http://json-schema.org/draft-07/schema#"));
    assert_eq!(get(&s, "type"), json_str("object"));
    assert_eq!(get(&s, "additionalProperties"), JsonValue::Bool(false));
    assert_eq!(get(&s, "required"), JsonValue::Array(vec![json_str("global_fields"), json_str("pages")]));
    let props = get(&s, "properties");
    let global = get(&props, "global_fields");
    assert_eq!(get(&global, "properties"), field_schemas_json(&meta.global_fields));
    assert_eq!(get(&global, "additionalProperties"), JsonValue::Bool(false));
    let items = get(&get(&props, "pages"), "items");
    let page_props = get(&items, "properties");
    let variant = get(&page_props, "variant");
    assert_eq!(get(&variant, "enum"), JsonValue::Array(vec![json_str("default"), json_str("bom")]));
    assert_eq!(get(&variant, "default"), json_str("default"));
    assert_eq!(get(&get(&page_props, "local_fields"), "properties"), field_schemas_json(&meta.local_fields));
    let layout = get(&page_props, "layout");
    assert_eq!(get(&layout, "required"), JsonValue::Array(vec![json_str("size"), json_str("orientation")]));
    assert_eq!(
        get(&items, "required"),
        JsonValue::Array(vec![json_str("variant"), json_str("layout"), json_str("local_fields"), json_str("path")])
    );
}

#[test]
fn project_schema_default_variant_without_variants() {
    let meta = Template { schema: None, global_fields: FieldMap::new(), local_fields: FieldMap::new() };
    let s = generate_project_schema(&meta, &vec![]);
    let variant = get(&get(&get(&get(&get(&s, "properties"), "pages"), "items"), "properties"), "variant");
    assert_eq!(get(&variant, "default"), json_str("default"));
    assert_eq!(get(&variant, "enum"), JsonValue::Array(vec![]));
}

#[test]
fn project_schema_file_names() {
    assert_eq!(project_schema_file_name("acme"), "acme.schema.json");
}

#[test]
fn initial_project_document() {
    let meta = Template {
        schema: None,
        global_fields: fields(&[("title", "Project Title")]),
        local_fields: fields(&[("sheet", "Sheet")]),
    };
    let p = initial_project_json("/g/acme.schema.json", &meta, &strings(&["bom"]));
    assert_eq!(
        json_to_typst(&p),
        "(\"$schema\": \"file:///g/acme.schema.json\", \"global_fields\": (\"title\": \"Project Title\"), \
         \"pages\": ((\"variant\": \"bom\", \"layout\": (\"size\": \"a4\", \"orientation\": true), \
         \"local_fields\": (\"sheet\": \"Sheet\"), \"content\": \"sch\", \"path\": \"path\"),))"
    );
}

#[test]
fn trimmed_template_names_never_end_in_json() {
    for input in ["a.json", "a.json.json.json", ".json.json", "x.jsonx", "plain"] {
        assert!(!template_name_from_input(input).ends_with(".json"));
    }
}

#[test]
fn initial_project_keys_fit_its_schema() {
    let meta = Template {
        schema: None,
        global_fields: fields(&[("title", "Project Title")]),
        local_fields: fields(&[("sheet", "Sheet")]),
    };
    let variants = strings(&["default", "bom"]);
    let project = initial_project_json("/g/acme.schema.json", &meta, &variants);
    let schema = generate_project_schema(&meta, &variants);
    fn keys(v: &JsonValue) -> Vec<String> {
        match v {
            JsonValue::Object(o) => o.iter().map(|(k, _)| k.clone()).collect(),
            _ => vec![],
        }
    }
    fn required(v: &JsonValue) -> Vec<String> {
        match v {
            JsonValue::Array(a) => a
                .iter()
                .map(|x| match x {
                    JsonValue::Str(s) => s.clone(),
                    _ => String::new(),
                })
                .collect(),
            _ => vec![],
        }
    }
    let check = |doc: &JsonValue, sch: &JsonValue| {
        let allowed = keys(&get(sch, "properties"));
        for k in keys(doc) {
            assert!(allowed.contains(&k), "key {k} not allowed");
        }
        for k in required(&get(sch, "required")) {
            assert!(keys(doc).contains(&k), "key {k} missing");
        }
    };
    check(&project, &schema);
    let page = match get(&project, "pages") {
        JsonValue::Array(a) => clone_json(&a[0]),
        _ => panic!("pages is an array"),
    };
    let page_schema = get(&get(&get(&schema, "properties"), "pages"), "items");
    check(&page, &page_schema);
    check(&get(&page, "layout"), &get(&get(&page_schema, "properties"), "layout"));
    assert_eq!(get(&page, "variant"), json_str("default"));
}
