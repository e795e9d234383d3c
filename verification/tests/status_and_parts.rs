use pcbfapi::fields::ElectronicPart;
use pcbfapi::status::{
    bom_header, bom_row, collect_bom_parts, join_with, part_payload, part_search_text, reset_process_status,
    schema_generation_response, tray_update, update_process_status, ApiResponse, TrayUpdate, UserEvent,
};
use pcbfapi::typst::{json_str, JsonValue};

fn strings(v: &[&str]) -> Vec<String> {
    v.iter().map(|s| s.to_string()).collect()
}

fn part(link: Option<&str>) -> ElectronicPart {
    ElectronicPart {
        name: "LM7805".to_string(),
        reference: "U1".to_string(),
        value: "5V".to_string(),
        description: "Linear regulator ".to_string(),
        link: link.map(|l| l.to_string()),
    }
}

#[test]
fn progress_events() {
    assert_eq!(update_process_status(40), UserEvent::Update(40));
    assert_eq!(reset_process_status(), UserEvent::Remove);
}

#[test]
fn tray_texts_for_events() {
    assert_eq!(
        tray_update(UserEvent::Update(7)),
        TrayUpdate::Show { status_text: "Status: 7%".to_string(), tooltip: "PCB Forge: Processing 7%".to_string() }
    );
    assert_eq!(
        tray_update(UserEvent::Update(100)),
        TrayUpdate::Show {
            status_text: "Status: 100%".to_string(),
            tooltip: "PCB Forge: Processing 100%".to_string()
        }
    );
    assert_eq!(
        tray_update(UserEvent::Remove),
        TrayUpdate::Show {
            status_text: "Status: No process started".to_string(),
            tooltip: "PCB Forge: Idle".to_string()
        }
    );
    assert_eq!(tray_update(UserEvent::PauseResume), TrayUpdate::Unchanged);
    assert_eq!(tray_update(UserEvent::Cancel), TrayUpdate::Unchanged);
}

#[test]
fn tray_after_update_then_reset_is_idle() {
    let _ = tray_update(update_process_status(55));
    assert_eq!(tray_update(reset_process_status()), tray_update(UserEvent::Remove));
}

#[test]
fn response_envelopes() {
    let (code, r) = ApiResponse::success("done".to_string(), Some(json_str("x")));
    assert_eq!(code, 200);
    assert_eq!(r.status, "success");
    assert_eq!(r.message, "done");
    assert_eq!(r.data, Some(json_str("x")));
    let (code, r) = ApiResponse::error(404, "missing".to_string());
    assert_eq!(code, 404);
    assert_eq!(r.status, "error");
    assert_eq!(r.message, "missing");
    assert_eq!(r.data, None);
}

#[test]
fn joining_lines() {
    assert_eq!(join_with(&strings(&["a", "b", "c"]), "\n"), "a\nb\nc");
    assert_eq!(join_with(&strings(&["only"]), ", "), "only");
    assert_eq!(join_with(&vec![], "\n"), "");
}

#[test]
fn schema_generation_success() {
    let (code, r) = schema_generation_response(3, &vec![]);
    assert_eq!(code, 200);
    assert_eq!(r.status, "success");
    assert_eq!(r.message, "Successfully generated 3 schema(s)");
    assert_eq!(
        r.data,
        Some(JsonValue::Object(vec![("generated_count".to_string(), JsonValue::Number("3".to_string()))]))
    );
}

#[test]
fn schema_generation_with_errors() {
    let (code, r) = schema_generation_response(1, &strings(&["Failed to parse a: x", "Failed to read b: y"]));
    assert_eq!(code, 207);
    assert_eq!(r.status, "error");
    assert_eq!(r.message, "Generated 1 schema(s) with errors:\nFailed to parse a: x\nFailed to read b: y");
    assert_eq!(r.data, None);
}

#[test]
fn part_text_and_payload() {
    assert_eq!(part_search_text(&part(None)), "U1 5V LM7805 Linear regulator");
    assert_eq!(
        part_payload(&part(Some("https://x"))),
        JsonValue::Object(vec![
            ("Name".to_string(), json_str("LM7805")),
            ("Reference".to_string(), json_str("U1")),
            ("Value".to_string(), json_str("5V")),
            ("Description".to_string(), json_str("Linear regulator ")),
            ("Link".to_string(), json_str("https://x")),
        ])
    );
    match part_payload(&part(None)) {
        JsonValue::Object(o) => assert_eq!(o[4], ("Link".to_string(), json_str(""))),
        _ => panic!("payload is an object"),
    }
}

#[test]
fn blank_part_text_is_empty() {
    let p = ElectronicPart {
        name: String::new(),
        reference: String::new(),
        value: String::new(),
        description: String::new(),
        link: None,
    };
    assert_eq!(part_search_text(&p), "");
}

#[test]
fn bom_search_texts_distinct_and_non_empty() {
    let records = vec![
        strings(&["R1", "10k", "Resistor_SMD:R_0603", "Resistor"]),
        strings(&["R1", "10k", "Resistor_SMD:R_0603", "Resistor"]),
        strings(&["", "", "", ""]),
        strings(&["C1", "100n"]),
        strings(&["D1", "LED", "LED_THT", "Light"]),
    ];
    assert_eq!(
        collect_bom_parts(&records),
        strings(&["R1 10k R_0603 Resistor", "C1 100n", "D1 LED LED_THT Light"])
    );
    assert_eq!(collect_bom_parts(&vec![]), Vec::<String>::new());
}

#[test]
fn bom_rows_from_part_objects() {
    assert_eq!(bom_header(), strings(&["Name", "Reference", "Value", "Description", "Link"]));
    let info = JsonValue::Object(vec![
        ("Reference".to_string(), json_str("U1")),
        ("Name".to_string(), json_str("LM7805")),
        ("Value".to_string(), JsonValue::Number("5".to_string())),
        ("Name".to_string(), json_str("second")),
    ]);
    assert_eq!(bom_row(&info), strings(&["LM7805", "U1", "", "", ""]));
    assert_eq!(bom_row(&JsonValue::Null), strings(&["", "", "", "", ""]));
}
