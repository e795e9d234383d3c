use pcbfapi::fields::{FieldMap, PageConfig, PageLayout, ProjectConfig};
use pcbfapi::icon::{clear_dark_pixels, load_icon};
use pcbfapi::markdown::{image_dependency_path, markdown_image_references, rewrite_markdown_images};
use pcbfapi::typst::{json_str, JsonValue};
use pcbfapi::project::{
    project_template_name, compilation_failure_message, compile_typst_script_with_root, default_preview_page, embedded_package_path,
    forge_home_dir, init_directories, page_asset_reference, page_pdf_file_name, page_variant,
    preview_pdf_file_name, project_file_destination, project_pdf_file_name, template_schema_path,
};

fn strings(v: &[&str]) -> Vec<String> {
    v.iter().map(|s| s.to_string()).collect()
}

fn page(variant: Option<&str>) -> PageConfig {
    PageConfig {
        variant: variant.map(|v| v.to_string()),
        layout: PageLayout { size: "a4".to_string(), orientation: true },
        local_fields: FieldMap::new(),
        path: "a.kicad_sch".to_string(),
        extra_args: None,
    }
}

fn png(pixels: &[u8], w: u32, h: u32) -> Vec<u8> {
    let img = image::RgbaImage::from_raw(w, h, pixels.to_vec()).unwrap();
    let mut out = std::io::Cursor::new(Vec::new());
    img.write_to(&mut out, image::ImageFormat::Png).unwrap();
    out.into_inner()
}

#[test]
fn markdown_images_in_document_order() {
    let md = "# Title\n\n![one](img/a.png) text ![two](https://x.org/b.png \"t\")\n\n[link](c.md)\n";
    assert_eq!(markdown_image_references(md), strings(&["img/a.png", "https://x.org/b.png"]));
    assert_eq!(markdown_image_references("no images"), Vec::<String>::new());
}

#[test]
fn markdown_images_rewritten() {
    let md = "Intro\n\n![one](img/a.png)\n";
    let out = rewrite_markdown_images(md, &strings(&["a.png"])).unwrap();
    assert!(out.contains("![one](a.png)"));
    assert!(!out.contains("img/a.png"));
    assert!(out.contains("Intro"));
}

#[test]
fn markdown_rewrite_needs_one_location_per_image() {
    let md = "![one](a.png) ![two](b.png)";
    assert_eq!(rewrite_markdown_images(md, &strings(&["x.png"])), None);
    assert_eq!(rewrite_markdown_images("text", &strings(&["x.png"])), None);
    assert!(rewrite_markdown_images("text", &vec![]).unwrap().contains("text"));
}

#[test]
fn image_dependencies() {
    assert_eq!(image_dependency_path("http://x/a.png", "/docs"), None);
    assert_eq!(image_dependency_path("https://x/a.png", "/docs"), None);
    assert_eq!(image_dependency_path("data:image/png;base64,AAA", "/docs"), None);
    assert_eq!(image_dependency_path("/abs/a.png", "/docs"), Some("/abs/a.png".to_string()));
    assert_eq!(image_dependency_path("img/a.png", "/docs"), Some("/docs/img/a.png".to_string()));
}

#[test]
fn dark_pixels_become_transparent() {
    let mut px = vec![0, 0, 0, 255, 14, 14, 14, 200, 15, 0, 0, 255, 200, 10, 10, 255];
    clear_dark_pixels(&mut px);
    assert_eq!(px, vec![0, 0, 0, 0, 14, 14, 14, 0, 15, 0, 0, 255, 200, 10, 10, 255]);
    let mut partial = vec![1, 1, 1];
    clear_dark_pixels(&mut partial);
    assert_eq!(partial, vec![1, 1, 1]);
}

#[test]
fn icon_decoded_and_cleared() {
    let bytes = png(&[0, 0, 0, 255, 255, 255, 255, 255], 2, 1);
    let (px, w, h) = load_icon(&bytes).unwrap();
    assert_eq!((w, h), (2, 1));
    assert_eq!(px, vec![0, 0, 0, 0, 255, 255, 255, 255]);
}

#[test]
fn icon_refused_when_not_an_image() {
    assert!(load_icon(b"not a png").is_none());
    assert!(load_icon(&[]).is_none());
}

#[test]
fn single_page_variant() {
    let p = ProjectConfig { global_fields: FieldMap::new(), pages: vec![page(Some("bom")), page(None)] };
    assert_eq!(page_variant(&p), Ok("bom".to_string()));
    let p = ProjectConfig { global_fields: FieldMap::new(), pages: vec![page(None)] };
    assert_eq!(page_variant(&p), Ok("default".to_string()));
    let p = ProjectConfig { global_fields: FieldMap::new(), pages: vec![] };
    assert_eq!(page_variant(&p), Err("No page provided for rendering".to_string()));
}

#[test]
fn asset_references_inside_build_folder() {
    assert_eq!(page_asset_reference("/tmp/work/a_1.svg", "/tmp/work"), "a_1.svg");
    assert_eq!(page_asset_reference("/elsewhere/a.png", "/tmp/work"), "/elsewhere/a.png");
    assert_eq!(page_asset_reference("C:\\x\\a.png", "/tmp/work"), "C:/x/a.png");
}

#[test]
fn preview_page_defaults() {
    let p = default_preview_page();
    assert_eq!(p.variant, Some("default".to_string()));
    assert_eq!(p.layout.size, "a4");
    assert!(!p.layout.orientation);
    assert_eq!(p.local_fields.len(), 0);
    assert_eq!(p.path, "");
    assert_eq!(p.extra_args, None);
}

#[test]
fn generated_pdf_names() {
    assert_eq!(page_pdf_file_name(1), "page_1.pdf");
    assert_eq!(page_pdf_file_name(12), "page_12.pdf");
    assert_eq!(preview_pdf_file_name("acme"), "acme_preview.pdf");
    assert_eq!(project_pdf_file_name("board"), "board.pdf");
}

#[test]
fn forge_home_from_environment() {
    assert_eq!(forge_home_dir(Some("/home/u".to_string()), Some("/w".to_string())), "/home/u/.pcb-forge");
    assert_eq!(forge_home_dir(None, Some("/w".to_string())), "/w/.pcb-forge");
    assert_eq!(forge_home_dir(None, None), "./.pcb-forge");
}

#[test]
fn forge_folder_tree() {
    assert_eq!(
        init_directories("/h/.pcb-forge"),
        strings(&[
            "/h/.pcb-forge/cache",
            "/h/.pcb-forge/schemas",
            "/h/.pcb-forge/templates/src",
            "/h/.pcb-forge/templates/generated",
            "/h/.pcb-forge/cache/qdrant-cache",
            "/h/.pcb-forge/cache/fastembed",
        ])
    );
    assert_eq!(template_schema_path("/h/.pcb-forge"), "/h/.pcb-forge/schemas/template.schema.json");
}

#[test]
fn project_file_destinations() {
    assert_eq!(project_file_destination("/p/my.json", "acme"), "/p/my.json");
    assert_eq!(project_file_destination("/p/dir", "acme"), "/p/dir/acme.json");
    assert_eq!(project_file_destination("/p/my.JSON", "acme"), "/p/my.JSON/acme.json");
}

#[test]
fn embedded_package_paths() {
    assert_eq!(embedded_package_path("preview", "cmarker", "0.1.10", "/lib.typ"), "preview/cmarker/0.1.10/lib.typ");
}

#[test]
fn compile_outcomes() {
    assert_eq!(compile_typst_script_with_root(Ok(vec![1, 2, 3])), Ok(vec![1, 2, 3]));
    assert_eq!(
        compile_typst_script_with_root(Err(strings(&["span 1: unknown variable", "span 2: bad"]))),
        Err("Typst in-memory compilation failed:\nspan 1: unknown variable\nspan 2: bad".to_string())
    );
    assert_eq!(compilation_failure_message(&vec![]), "Typst in-memory compilation failed:\n");
}

#[test]
fn template_of_a_project_document() {
    let doc = JsonValue::Object(vec![
        ("global_fields".to_string(), JsonValue::Object(vec![])),
        ("$schema".to_string(), json_str("file:///g/acme.schema.json")),
        ("$schema".to_string(), json_str("file:///g/other.schema.json")),
    ]);
    assert_eq!(project_template_name(&doc), Some("acme".to_string()));
    let not_string = JsonValue::Object(vec![("$schema".to_string(), JsonValue::Null)]);
    assert_eq!(project_template_name(&not_string), None);
    assert_eq!(project_template_name(&JsonValue::Object(vec![])), None);
    assert_eq!(project_template_name(&JsonValue::Array(vec![])), None);
    let empty_uri = JsonValue::Object(vec![("$schema".to_string(), json_str("https://x.org/"))]);
    assert_eq!(project_template_name(&empty_uri), None);
}
