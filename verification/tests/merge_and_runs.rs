use pcbfapi::assets::{check_page_source, SourceCheck};
use pcbfapi::merge::{kids_to_reparent, merge_page_trees};
use pcbfapi::status::{record_template_folder, schema_generation_response, SchemaRun, TemplateFolder};
use pcbfapi::markdown::copied_image_reference;
use pcbfapi::templates::template_not_found_message;
use pcbfapi::typst::escape_typst_string;

#[test]
fn merging_nothing_is_refused() {
    assert_eq!(merge_page_trees(&None, &vec![]), Err("No PDFs to merge".to_string()));
}

#[test]
fn merged_pages_keep_document_order() {
    let first = vec![Some((3, 0)), Some((4, 0))];
    let more = vec![vec![Some((10, 0))], vec![], vec![None, Some((20, 1))]];
    assert_eq!(
        merge_page_trees(&Some(first.clone()), &more),
        Ok((vec![Some((3, 0)), Some((4, 0)), Some((10, 0)), None, Some((20, 1))], 5))
    );
    assert_eq!(merge_page_trees(&Some(first.clone()), &vec![]), Ok((first.clone(), 2)));
    assert_eq!(merge_page_trees(&Some(vec![]), &vec![vec![]]), Ok((vec![], 0)));
}

#[test]
fn single_document_without_pages_is_merged() {
    assert_eq!(merge_page_trees(&Some(vec![]), &vec![]), Ok((vec![], 0)));
}

#[test]
fn later_pages_are_reparented() {
    let more = vec![vec![Some((10, 0)), None], vec![Some((20, 1))]];
    assert_eq!(kids_to_reparent(&more), vec![(10, 0), (20, 1)]);
    assert_eq!(kids_to_reparent(&vec![]), Vec::<(u32, u16)>::new());
}

#[test]
fn page_sources_checked() {
    assert_eq!(check_page_source("  ", false), SourceCheck::Blank);
    assert_eq!(check_page_source("", true), SourceCheck::Blank);
    assert_eq!(
        check_page_source(" /p/a.kicad_pcb ; F.Cu ", false),
        SourceCheck::Missing { message: "Source file does not exist: /p/a.kicad_pcb".to_string() }
    );
    assert_eq!(
        check_page_source(" /p/a.kicad_pcb ; F.Cu ", true),
        SourceCheck::Found { file_path: "/p/a.kicad_pcb".to_string(), layers: Some("F.Cu".to_string()) }
    );
    assert_eq!(
        check_page_source("/p/a.md", true),
        SourceCheck::Found { file_path: "/p/a.md".to_string(), layers: None }
    );
}

#[test]
fn template_folders_tallied() {
    let mut run = SchemaRun::new();
    assert!(record_template_folder(&mut run, TemplateFolder::NotAFolder));
    assert!(!record_template_folder(&mut run, TemplateFolder::Unnamed));
    assert!(!record_template_folder(&mut run, TemplateFolder::NoMeta));
    assert!(record_template_folder(&mut run, TemplateFolder::Generated { folder: "a".to_string() }));
    assert!(record_template_folder(
        &mut run,
        TemplateFolder::Invalid { folder: "b".to_string(), error: "expected value".to_string() }
    ));
    assert!(record_template_folder(
        &mut run,
        TemplateFolder::Unreadable { folder: "c".to_string(), error: "denied".to_string() }
    ));
    assert_eq!(run.generated_count, 1);
    assert_eq!(run.errors, vec!["Failed to parse b: expected value", "Failed to read c: denied"]);
    let (code, r) = schema_generation_response(run.generated_count, &run.errors);
    assert_eq!(code, 207);
    assert_eq!(r.message, "Generated 1 schema(s) with errors:\nFailed to parse b: expected value\nFailed to read c: denied");
}

#[test]
fn escaped_text_has_no_raw_controls_and_escaped_quotes() {
    for s in ["a\"b", "\\\"", "x\n\r\ty", "\\\\\"\"", "end\\"] {
        let e = escape_typst_string(s);
        assert!(!e.contains('\n') && !e.contains('\r') && !e.contains('\t'));
        let chars: Vec<char> = e.chars().collect();
        for (i, c) in chars.iter().enumerate() {
            if *c == '"' {
                let run = chars[..i].iter().rev().take_while(|c| **c == '\\').count();
                assert_eq!(run % 2, 1);
            }
        }
        let trailing = chars.iter().rev().take_while(|c| **c == '\\').count();
        assert_eq!(trailing % 2, 0);
    }
}

#[test]
fn copied_image_locations() {
    assert_eq!(copied_image_reference("img/a.png", "/docs", true, None), "img/a.png");
    assert_eq!(
        copied_image_reference("img/a.png", "/docs", true, Some("/docs/real/a.png".to_string())),
        "real/a.png"
    );
    assert_eq!(copied_image_reference("/abs/a.png", "/docs", true, None), "/abs/a.png");
    assert_eq!(copied_image_reference("img/missing.png", "/docs", false, None), "img/missing.png");
    assert_eq!(copied_image_reference("https://x/a.png", "/docs", true, None), "https://x/a.png");
}

#[test]
fn missing_template_message() {
    assert_eq!(
        template_not_found_message("acme", "/h/.pcb-forge/templates/src/acme"),
        "Template 'acme' not found (expected meta.json in /h/.pcb-forge/templates/src/acme)"
    );
}
