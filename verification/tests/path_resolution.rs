use pcbfapi::paths::{
    extract_template_name_from_schema, find_layout_file, find_page_layout_file, layout_candidates,
    make_relative_path, page_layout_candidates, project_path_target, resolve_project_path, split_path_and_layers,
    PathProbe,
};

const SRC: &str = "/home/u/.pcb-forge/templates/src";

#[test]
fn relative_path_inside_base() {
    assert_eq!(make_relative_path("/proj/build/a.svg", "/proj/build"), "a.svg");
    assert_eq!(make_relative_path("/proj/build/sub/a.svg", "/proj/build/"), "sub/a.svg");
}

#[test]
fn relative_path_outside_base_is_unchanged() {
    assert_eq!(make_relative_path("/other/a.svg", "/proj/build"), "/other/a.svg");
    assert_eq!(make_relative_path("/proj/buildings/a.svg", "/proj/build"), "/proj/buildings/a.svg");
}

#[test]
fn template_name_from_schema_uri() {
    assert_eq!(
        extract_template_name_from_schema("file:///home/u/.pcb-forge/templates/generated/acme.schema.json"),
        Some("acme".to_string())
    );
    assert_eq!(extract_template_name_from_schema("https://x.org/s/acme.json"), Some("acme".to_string()));
    assert_eq!(extract_template_name_from_schema("plain"), Some("plain".to_string()));
    assert_eq!(extract_template_name_from_schema(".schema.json"), Some("".to_string()));
}

#[test]
fn template_name_absent_for_empty_last_segment() {
    assert_eq!(extract_template_name_from_schema(""), None);
    assert_eq!(extract_template_name_from_schema("https://x.org/"), None);
}

#[test]
fn page_path_split_at_first_semicolon() {
    assert_eq!(
        split_path_and_layers(" board.kicad_pcb ; F.Cu, B.Cu ;x"),
        ("board.kicad_pcb".to_string(), Some("F.Cu, B.Cu ;x".to_string()))
    );
    assert_eq!(split_path_and_layers("  a.md "), ("a.md".to_string(), None));
    assert_eq!(split_path_and_layers(";"), ("".to_string(), Some("".to_string())));
}

#[test]
fn project_path_targets() {
    assert_eq!(project_path_target("   ", "/proj"), None);
    assert_eq!(project_path_target("docs/a.md", "/proj"), Some("/proj/docs/a.md".to_string()));
    assert_eq!(project_path_target("/abs/a.md;x", "/proj"), Some("/abs/a.md".to_string()));
}

#[test]
fn resolve_blank_path_is_empty() {
    assert_eq!(resolve_project_path("", "/proj", None), "");
    assert_eq!(resolve_project_path(" \t ", "/proj", Some("/ignored".to_string())), "");
}

#[test]
fn resolve_relative_path_keeps_layers() {
    assert_eq!(resolve_project_path("board.kicad_pcb; F.Cu,B.Cu ", "/proj", None), "board.kicad_pcb;F.Cu,B.Cu");
    assert_eq!(
        resolve_project_path("sheets/main.kicad_sch ; F.Cu", "/nonexistent_base", None),
        "sheets/main.kicad_sch;F.Cu"
    );
    assert_eq!(
        resolve_project_path("board.kicad_pcb;F.Cu", "/proj", Some("/proj/hw/board.kicad_pcb".to_string())),
        "hw/board.kicad_pcb;F.Cu"
    );
    assert_eq!(
        resolve_project_path("board.kicad_pcb;F.Cu", "/proj", Some("/real/board.kicad_pcb".to_string())),
        "/real/board.kicad_pcb;F.Cu"
    );
}

#[test]
fn resolve_absolute_path() {
    assert_eq!(resolve_project_path(" /abs/sheet.kicad_sch ", "/proj", None), "/abs/sheet.kicad_sch");
}

#[test]
fn page_layout_candidate_order() {
    let c = page_layout_candidates(SRC, "acme", "bom", "/proj");
    assert_eq!(
        c,
        vec![
            PathProbe { path: format!("{SRC}/acme/bom/layout.typ"), must_be_file: false },
            PathProbe { path: format!("{SRC}/acme/bom.typ"), must_be_file: false },
            PathProbe { path: "/proj/bom".to_string(), must_be_file: true },
            PathProbe { path: format!("{SRC}/acme/layout.typ"), must_be_file: false },
        ]
    );
}

#[test]
fn page_layout_first_found_wins() {
    assert_eq!(
        find_page_layout_file("acme", "bom", "/proj", SRC, &vec![false, true, true, true]),
        Ok(format!("{SRC}/acme/bom.typ"))
    );
    assert_eq!(
        find_page_layout_file("acme", "bom", "/proj", SRC, &vec![true, true, true, true]),
        Ok(format!("{SRC}/acme/bom/layout.typ"))
    );
    assert_eq!(
        find_page_layout_file("acme", "bom", "/proj", SRC, &vec![false, false, false, true]),
        Ok(format!("{SRC}/acme/layout.typ"))
    );
}

#[test]
fn page_layout_missing_lists_checked_places() {
    let expected = format!(
        "Could not locate layout.typ for template 'acme' with schema 'bom'. Checked:\n  - {SRC}/acme/bom/layout.typ\n  - {SRC}/acme/layout.typ"
    );
    assert_eq!(find_page_layout_file("acme", "bom", "/proj", SRC, &vec![false; 4]), Err(expected.clone()));
    assert_eq!(find_page_layout_file("acme", "bom", "/proj", SRC, &vec![]), Err(expected));
}

#[test]
fn layout_candidates_from_layout_and_schema() {
    let c = layout_candidates(Some(" custom.typ "), Some("file:///g/acme.schema.json"), "/proj", SRC);
    let paths: Vec<String> = c.iter().map(|p| p.path.clone()).collect();
    assert_eq!(
        paths,
        vec![
            "/proj/custom.typ".to_string(),
            format!("{SRC}/custom.typ/layout.typ"),
            format!("{SRC}/acme/default/layout.typ"),
            format!("{SRC}/acme/layout.typ"),
        ]
    );
    assert!(c.iter().all(|p| !p.must_be_file));
}

#[test]
fn layout_candidates_skip_blank_layout_and_missing_schema() {
    assert!(layout_candidates(Some("   "), None, "/proj", SRC).is_empty());
    assert!(layout_candidates(None, Some(""), "/proj", SRC).is_empty());
}

#[test]
fn layout_file_search() {
    assert_eq!(
        find_layout_file(None, Some("file:///g/acme.schema.json"), "/proj", SRC, &vec![false, true]),
        Ok(format!("{SRC}/acme/layout.typ"))
    );
    assert_eq!(
        find_layout_file(Some("x"), None, "/proj", SRC, &vec![true]),
        Ok("/proj/x".to_string())
    );
    assert_eq!(
        find_layout_file(None, None, "/proj", SRC, &vec![true, true]),
        Err("Could not locate layout.typ from project layout field or $schema URI.".to_string())
    );
}

#[test]
fn schema_uri_of_generated_schema_names_its_template() {
    for name in ["acme", "my board", "rev.2", ""] {
        let uri = format!("file:///home/u/.pcb-forge/templates/generated/{}", pcbfapi::templates::project_schema_file_name(name));
        assert_eq!(extract_template_name_from_schema(&uri), Some(name.to_string()));
    }
}

#[test]
fn resolved_page_paths_split_back() {
    let resolved = resolve_project_path(" board.kicad_pcb ;  F.Cu,B.Cu ", "/proj", None);
    assert_eq!(split_path_and_layers(&resolved), ("board.kicad_pcb".to_string(), Some("F.Cu,B.Cu".to_string())));
    let resolved = resolve_project_path("sheet.kicad_sch", "/proj", Some("/real/sheet.kicad_sch".to_string()));
    assert_eq!(split_path_and_layers(&resolved), ("/real/sheet.kicad_sch".to_string(), None));
}
