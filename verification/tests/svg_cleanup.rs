use pcbfapi::svg::{
    extract_attr_number_text, extract_attr_str, extract_number_tokens, is_percent_background_exec,
    parse_svg_viewbox_text, remove_rect_tags, set_svg_viewbox, split_on_exec, svg_geometry_tags, svg_rect_tags,
};

#[test]
fn attribute_values_double_then_single_quoted() {
    let tag = "<rect width=\"100%\" height='50' x=\"3\"";
    assert_eq!(extract_attr_str(tag, "width"), Some("100%".to_string()));
    assert_eq!(extract_attr_str(tag, "height"), Some("50".to_string()));
    assert_eq!(extract_attr_str(tag, "x"), Some("3".to_string()));
    assert_eq!(extract_attr_str(tag, "y"), None);
}

#[test]
fn attribute_value_without_closing_quote_is_absent() {
    assert_eq!(extract_attr_str("<rect width=\"12", "width"), None);
}

#[test]
fn attribute_search_matches_inside_longer_names() {
    // `width="` is first found inside `stroke-width="`.
    assert_eq!(extract_attr_str("<path stroke-width=\"2\" width=\"5\"", "width"), Some("2".to_string()));
}

#[test]
fn attribute_number_text_cut_at_unit() {
    assert_eq!(extract_attr_number_text("<rect width=\"12.5px\"", "width"), Some("12.5".to_string()));
    assert_eq!(extract_attr_number_text("<rect width=\"-3\"", "width"), Some("-3".to_string()));
    assert_eq!(extract_attr_number_text("<rect width=\"auto\"", "width"), Some("".to_string()));
    assert_eq!(extract_attr_number_text("<rect", "width"), None);
}

#[test]
fn number_tokens_of_path_data() {
    assert_eq!(extract_number_tokens("M10,20 L-3.5 4"), vec!["10", "20", "-3.5", "4"]);
    assert_eq!(extract_number_tokens(""), Vec::<String>::new());
    assert_eq!(extract_number_tokens("abc"), Vec::<String>::new());
}

#[test]
fn lone_sign_is_carried_into_the_next_number() {
    assert_eq!(extract_number_tokens("1 - 2"), vec!["1", "-2"]);
    assert_eq!(extract_number_tokens("."), Vec::<String>::new());
    assert_eq!(extract_number_tokens("- "), Vec::<String>::new());
}

#[test]
fn percent_backgrounds() {
    assert!(is_percent_background_exec("<rect width=\"100%\" height=\"100%\"/>"));
    assert!(is_percent_background_exec("<rect width='100%'/>"));
    assert!(!is_percent_background_exec("<rect width=\"50%\"/>"));
}

#[test]
fn split_on_keeps_empty_pieces() {
    let v: Vec<char> = "a<<b<".chars().collect();
    let pieces: Vec<String> = split_on_exec(&v, '<').into_iter().map(|p| p.into_iter().collect()).collect();
    assert_eq!(pieces, vec!["a", "", "b", ""]);
    let empty: Vec<char> = Vec::new();
    assert_eq!(split_on_exec(&empty, '<').len(), 1);
}

#[test]
fn viewbox_of_the_svg_element() {
    let doc = "<?xml version=\"1.0\"?><svg width=\"1\" viewBox=\"0 0 10 20\"><rect viewBox=\"x\"/></svg>";
    assert_eq!(parse_svg_viewbox_text(doc), Some("0 0 10 20".to_string()));
    assert_eq!(parse_svg_viewbox_text("<SVG viewBox='1 2 3 4'>"), Some("1 2 3 4".to_string()));
    assert_eq!(parse_svg_viewbox_text("<svg width=\"3\">"), None);
    assert_eq!(parse_svg_viewbox_text("<g viewBox=\"1 1 1 1\">"), None);
}

#[test]
fn geometry_tags_skip_declarations_comments_closers_and_svg() {
    let doc = "<?xml?><svg a=\"1\">\n  <rect x=\"1\"/>\n<!-- c --><path d=\"M0 0\"/></svg>";
    assert_eq!(svg_geometry_tags(doc), vec!["rect x=\"1\"/>", "path d=\"M0 0\"/>"]);
    assert_eq!(svg_geometry_tags("<SVG x><Svg2 y>"), Vec::<String>::new());
}

#[test]
fn rect_tags_in_scan_order() {
    let doc = "<svg><rect width=\"100%\"/><g/><rect x=\"1\"></svg>";
    assert_eq!(svg_rect_tags(doc), vec!["<rect width=\"100%\"/>", "<rect x=\"1\">"]);
    assert_eq!(svg_rect_tags("<svg><rect x=\"1\""), Vec::<String>::new());
}

#[test]
fn removing_selected_rect_tags() {
    let doc = "<svg><rect width=\"100%\"/><g/><rect x=\"1\"></svg>";
    assert_eq!(remove_rect_tags(doc, &vec![true, false]), "<svg><g/><rect x=\"1\"></svg>");
    assert_eq!(remove_rect_tags(doc, &vec![false, true]), "<svg><rect width=\"100%\"/><g/></svg>");
    assert_eq!(remove_rect_tags(doc, &vec![true, true, true]), "<svg><g/></svg>");
}

#[test]
fn removing_no_rect_tag_keeps_the_document() {
    for doc in ["<svg><rect width=\"100%\"/><g/><rect x=\"1\"></svg>", "", "<rect", "plain text"] {
        assert_eq!(remove_rect_tags(doc, &vec![]), doc);
        assert_eq!(remove_rect_tags(doc, &vec![false, false]), doc);
    }
}

#[test]
fn unterminated_rect_ends_the_scan() {
    let doc = "<rect a/><rect b";
    assert_eq!(remove_rect_tags(doc, &vec![true, true]), "<rect b");
}

#[test]
fn viewbox_replaced_in_double_quotes() {
    assert_eq!(
        set_svg_viewbox("<svg viewBox=\"0 0 1 1\" w=\"2\">", "5.00 5.00 10.00 10.00"),
        "<svg viewBox=\"5.00 5.00 10.00 10.00\" w=\"2\">"
    );
}

#[test]
fn viewbox_replaced_in_single_quotes() {
    assert_eq!(set_svg_viewbox("<svg viewBox='0 0 1 1'>", "1 2 3 4"), "<svg viewBox='1 2 3 4'>");
}

#[test]
fn viewbox_added_to_svg_tag() {
    assert_eq!(
        set_svg_viewbox("<svg width=\"3\"><g/></svg>", "1 2 3 4"),
        "<svg width=\"3\" viewBox=\"1 2 3 4\"><g/></svg>"
    );
    assert_eq!(set_svg_viewbox("<g/>", "1 2 3 4"), "<g/>");
}
