use pcbfapi::assets::{
    asset_kind, board_export_failed_message, board_svg_file_name, make_layers_slug, markdown_cache_file_name,
    missing_source_message, page_extra_args, pcb_export_args, plan_content_asset, sch_export_args,
    schematic_svg_file_name, AssetKind, AssetPlan,
};
use pcbfapi::kicad::{kicad_cli_search_paths, order_install_dirs, select_kicad_cli, TargetOs};

fn strings(v: &[&str]) -> Vec<String> {
    v.iter().map(|s| s.to_string()).collect()
}

#[test]
fn asset_kinds_by_extension() {
    for e in ["svg", "png", "jpg", "jpeg", "csv", "json"] {
        assert_eq!(asset_kind(e), AssetKind::Reference);
    }
    assert_eq!(asset_kind("md"), AssetKind::Markdown);
    assert_eq!(asset_kind("kicad_pcb"), AssetKind::Board);
    assert_eq!(asset_kind("kicad_sch"), AssetKind::Schematic);
    assert_eq!(asset_kind("SVG"), AssetKind::Unsupported);
    assert_eq!(asset_kind(""), AssetKind::Unsupported);
}

#[test]
fn layer_slugs_replace_separators() {
    assert_eq!(make_layers_slug("F.Cu,B.Cu"), "F.Cu_B.Cu");
    assert_eq!(make_layers_slug("a/b\\c d:e;f"), "a_b_c_d_e_f");
    assert_eq!(make_layers_slug(""), "");
}

#[test]
fn cached_export_names() {
    assert_eq!(board_svg_file_name("main", 1700000000, "F.Cu, B.Cu"), "main_1700000000_F.Cu__B.Cu.svg");
    assert_eq!(schematic_svg_file_name("main", 5), "main_5.svg");
    assert_eq!(markdown_cache_file_name("notes", 0), "notes_0.md");
}

#[test]
fn plans_for_referenced_files() {
    assert_eq!(plan_content_asset("/p/img.PNG", 7, None), AssetPlan::Reference);
    assert_eq!(plan_content_asset("/p/bom.csv", 7, Some("x")), AssetPlan::Reference);
}

#[test]
fn plan_for_markdown() {
    assert_eq!(
        plan_content_asset("/p/notes.md", 12, None),
        AssetPlan::Markdown { cache_name: "notes_12.md".to_string() }
    );
}

#[test]
fn plan_for_board_with_and_without_layers() {
    assert_eq!(
        plan_content_asset("/p/main.kicad_pcb", 3, None),
        AssetPlan::BoardExport { cache_name: "main_3_F.Cu_B.Cu.svg".to_string(), layers: "F.Cu,B.Cu".to_string() }
    );
    assert_eq!(
        plan_content_asset("/p/main.Kicad_Pcb", 3, Some("F.SilkS")),
        AssetPlan::BoardExport { cache_name: "main_3_F.SilkS.svg".to_string(), layers: "F.SilkS".to_string() }
    );
}

#[test]
fn plan_for_schematic() {
    assert_eq!(
        plan_content_asset("/p/top.kicad_sch", 9, Some("ignored")),
        AssetPlan::SchematicExport { cache_name: "top_9.svg".to_string() }
    );
}

#[test]
fn plan_refuses_unknown_extensions() {
    assert_eq!(
        plan_content_asset("/p/a.TXT", 1, None),
        AssetPlan::Unsupported { message: "Unsupported extension .txt".to_string() }
    );
    assert_eq!(
        plan_content_asset("/p/Makefile", 1, None),
        AssetPlan::Unsupported { message: "Unsupported extension .".to_string() }
    );
}

#[test]
fn asset_error_messages() {
    assert_eq!(missing_source_message("a.md"), "Source file does not exist: a.md");
    assert_eq!(board_export_failed_message("b.kicad_pcb"), "kicad-cli PCB export failed for b.kicad_pcb");
}

#[test]
fn board_export_command_line() {
    assert_eq!(
        pcb_export_args("F.Cu", "/c/o.svg", "/p/b.kicad_pcb", &strings(&["--theme=dark"])),
        strings(&[
            "pcb", "export", "svg", "--mode-single", "--exclude-drawing-sheet", "--page-size-mode", "2",
            "--layers", "F.Cu", "--output", "/c/o.svg", "/p/b.kicad_pcb", "--theme=dark",
        ])
    );
}

#[test]
fn schematic_export_command_line() {
    assert_eq!(
        sch_export_args("/c", "/p/s.kicad_sch", &vec![]),
        strings(&[
            "sch", "export", "svg", "--exclude-drawing-sheet", "--no-background-color", "--pages", "1",
            "--output", "/c", "/p/s.kicad_sch",
        ])
    );
}

#[test]
fn extra_args_of_a_page() {
    assert_eq!(page_extra_args(&None), Vec::<String>::new());
    assert_eq!(page_extra_args(&Some(strings(&["-a", "-b"]))), strings(&["-a", "-b"]));
}

#[test]
fn install_dirs_newest_first() {
    assert_eq!(order_install_dirs(&strings(&["7.0", "9.0", "8.0", "8.0"])), strings(&["9.0", "8.0", "8.0", "7.0"]));
    assert_eq!(order_install_dirs(&vec![]), Vec::<String>::new());
}

#[test]
fn cli_search_paths_per_system() {
    assert_eq!(
        kicad_cli_search_paths(TargetOs::MacOs, &vec![], &strings(&["9.0"])),
        strings(&[
            "/Applications/KiCad/KiCad.app/Contents/MacOS/kicad-cli",
            "/Applications/KiCad.app/Contents/MacOS/kicad-cli",
        ])
    );
    assert_eq!(
        kicad_cli_search_paths(TargetOs::Other, &vec![], &vec![]),
        strings(&["/usr/bin/kicad-cli", "/usr/local/bin/kicad-cli", "/app/bin/kicad-cli"])
    );
    let win = kicad_cli_search_paths(TargetOs::Windows, &vec![], &strings(&["8.0", "9.0"]));
    assert_eq!(win.len(), 3);
    assert!(win[0].contains("9.0") && win[0].ends_with("kicad-cli.exe"));
    assert!(win[1].contains("8.0"));
    assert_eq!(win[2], "C:\\Program Files\\KiCad\\bin\\kicad-cli.exe");
}

#[test]
fn cli_selection() {
    let paths = strings(&["/a", "/b", "/c"]);
    assert_eq!(select_kicad_cli(&paths, &vec![false, true, true]), Ok("/b".to_string()));
    assert_eq!(
        select_kicad_cli(&paths, &vec![false, false]),
        Err("kicad-cli executable could not be found in PATH or standard installation directories.".to_string())
    );
}

#[test]
fn layer_slugs_keep_length_and_hold_no_separator() {
    for layers in ["F.Cu, B.Cu;In1.Cu", "C:\\x/y", "   ", "Edge.Cuts"] {
        let slug = make_layers_slug(layers);
        assert_eq!(slug.chars().count(), layers.chars().count());
        assert!(!slug.chars().any(|c| "/\\ :;,".contains(c)));
    }
}

#[test]
fn bom_export_command_line() {
    assert_eq!(
        pcbfapi::assets::bom_export_args("/tmp/bom.csv", "/p/b.kicad_pcb"),
        strings(&["pcb", "export", "bom", "--output", "/tmp/bom.csv", "/p/b.kicad_pcb"])
    );
}

#[test]
fn cli_search_starts_with_absolute_path_folders() {
    assert_eq!(
        kicad_cli_search_paths(TargetOs::Other, &strings(&["/opt/kicad/bin", "relative/bin", "/usr/bin"]), &vec![]),
        strings(&[
            "/opt/kicad/bin/kicad-cli",
            "/usr/bin/kicad-cli",
            "/usr/bin/kicad-cli",
            "/usr/local/bin/kicad-cli",
            "/app/bin/kicad-cli",
        ])
    );
    let win = kicad_cli_search_paths(TargetOs::Windows, &strings(&["/w"]), &vec![]);
    assert_eq!(win[0], "/w/kicad-cli.exe");
    let paths = kicad_cli_search_paths(TargetOs::Other, &strings(&["/opt/kicad/bin"]), &vec![]);
    assert_eq!(select_kicad_cli(&paths, &vec![true]), Ok("/opt/kicad/bin/kicad-cli".to_string()));
}
