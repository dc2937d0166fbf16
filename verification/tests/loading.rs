use svg_bench::item::{RenderItem, Rgb, StrokeWidth};
use svg_bench::scene::{load_svg, scene_from_tokens, styles_are_supported, try_load_svg, LoadError, SvgToken};
use svg_bench::style::{apply_style_tokens, has_stroke_width, parse_style, style_is_supported, StyleToken};

const RED: Rgb = Rgb { red: 255, green: 0, blue: 0 };

fn some(text: &str) -> Option<String> {
    Some(text.to_string())
}

#[test]
fn path_with_fill_style_is_loaded() {
    let doc = r#"<svg><path style="fill:#0000ff" path="M 0 0 L 10 0 L 10 10 Z"/></svg>"#;
    let scene = load_svg(doc);
    assert_eq!(scene.len(), 1);
    assert_eq!(scene[0].fill, Some(RED));
    assert_eq!(scene[0].stroke, None);
    assert_eq!(scene[0].stroke_width, StrokeWidth::One);
    assert!(!scene[0].tessellated);
    assert!(!scene[0].uploaded);
    assert_eq!(scene[0].path, some("M 0 0 L 10 0 L 10 10 Z"));
}

#[test]
fn style_values_are_never_read_as_colours() {
    let doc = r#"<svg><path style="fill:none;stroke:rgb(0,128,0)" path="M 1 1 L 2 2"/></svg>"#;
    let scene = load_svg(doc);
    assert_eq!(scene.len(), 1);
    assert_eq!(scene[0].fill, Some(RED));
    assert_eq!(scene[0].stroke, Some(RED));
}

#[test]
fn unpainted_elements_are_dropped() {
    let doc = r#"<svg><path path="M 0 0 L 1 1"/><rect width="3"/></svg>"#;
    assert!(load_svg(doc).is_empty());
}

#[test]
fn d_attribute_is_not_read() {
    let doc = r#"<svg><path style="stroke:black" d="M 0 0 L 5 5"/></svg>"#;
    let scene = load_svg(doc);
    assert_eq!(scene.len(), 1);
    assert_eq!(scene[0].path, None);
}

#[test]
fn group_style_makes_an_item_at_the_group_tag_end() {
    let doc = r#"<svg><g style="fill:red"><path path="M 0 0 L 1 0"/></g></svg>"#;
    let scene = load_svg(doc);
    assert_eq!(scene.len(), 1);
    assert_eq!(scene[0].fill, Some(RED));
    assert_eq!(scene[0].path, None);
}

#[test]
fn painted_path_then_empty_group() {
    let scene = load_svg("<path style='fill:#ff0000'/><g/>");
    assert_eq!(scene.len(), 1);
    assert_eq!(scene[0].fill, Some(RED));
    assert_eq!(scene[0].stroke, None);
    assert_eq!(scene[0].path, None);
}

#[test]
fn ignored_tokens_change_nothing() {
    let plain = load_svg(r#"<svg><path style="fill:red" path="M 0 0 L 1 0"/></svg>"#);
    let noisy = load_svg(&concat_doc(&[
        r#"<?xml version="1.0"?><!-- c --><svg>text<![CDATA[x]]>"#,
        r#"<path id="a" style="fill:red" d="M 9 9" path="M 0 0 L 1 0"/></svg>"#,
    ]));
    assert_eq!(plain.len(), noisy.len());
    assert_eq!(plain[0].path, noisy[0].path);
    assert_eq!(plain[0].fill, noisy[0].fill);
    assert_eq!(plain[0].stroke, noisy[0].stroke);
}

fn concat_doc(parts: &[&str]) -> String {
    parts.concat()
}

#[test]
fn each_painted_path_is_an_item() {
    let doc = concat_doc(&[
        r#"<svg><path style="fill:red" path="M 0 0 L 1 0 L 1 1"/>"#,
        r#"<path path="M 5 5 L 6 6"/>"#,
        r#"<path style="stroke:blue" path="M 2 2 L 3 3"/></svg>"#,
    ]);
    let scene = load_svg(&doc);
    assert_eq!(scene.len(), 2);
    assert_eq!(scene[0].fill, Some(RED));
    assert_eq!(scene[0].stroke, None);
    assert_eq!(scene[1].fill, None);
    assert_eq!(scene[1].stroke, Some(RED));
    assert_eq!(scene[1].path, some("M 2 2 L 3 3"));
}

#[test]
fn stroke_width_in_a_style_is_refused() {
    let doc = r#"<svg><path style="stroke:black;stroke-width:2" path="M 0 0 L 1 1"/></svg>"#;
    assert_eq!(try_load_svg(doc).err(), Some(LoadError::UnsupportedStrokeWidth));
}

#[test]
fn try_load_accepts_supported_styles() {
    let doc = r#"<svg><path style="stroke:black" path="M 0 0 L 1 1"/></svg>"#;
    let scene = try_load_svg(doc).unwrap();
    assert_eq!(scene.len(), 1);
    assert_eq!(scene[0].stroke, Some(RED));
}

#[test]
fn empty_document_loads_nothing() {
    assert!(load_svg("").is_empty());
}

#[test]
fn scene_from_tokens_follows_the_tokens() {
    let tokens = vec![
        SvgToken::ElementStart("path".to_string()),
        SvgToken::Attribute("style".to_string(), "fill:#123456".to_string()),
        SvgToken::Attribute("path".to_string(), "M 0 0 L 4 4".to_string()),
        SvgToken::Attribute("d".to_string(), "M 7 7".to_string()),
        SvgToken::EmptyElementEnd,
        SvgToken::ElementStart("path".to_string()),
        SvgToken::Content,
        SvgToken::TagOpenEnd,
        SvgToken::Attribute("style".to_string(), "stroke:red".to_string()),
        SvgToken::ElementClose,
        SvgToken::ElementStart("g".to_string()),
        SvgToken::Attribute("style".to_string(), "fill:red".to_string()),
        SvgToken::Error,
    ];
    let scene = scene_from_tokens(&tokens);
    assert_eq!(scene.len(), 2);
    assert_eq!(scene[0].fill, Some(RED));
    assert_eq!(scene[0].path, some("M 0 0 L 4 4"));
    assert_eq!(scene[1].fill, None);
    assert_eq!(scene[1].stroke, Some(RED));
    assert_eq!(scene[1].path, None);
}

#[test]
fn style_checks_find_stroke_widths() {
    assert!(style_is_supported("fill:red; stroke:blue"));
    assert!(!style_is_supported("fill:red; stroke-width:3"));
    let tokens = vec![
        StyleToken::Declaration("fill".to_string(), "red".to_string()),
        StyleToken::Declaration("stroke-width".to_string(), "1".to_string()),
    ];
    assert!(has_stroke_width(&tokens));
    assert!(!has_stroke_width(&vec![StyleToken::XmlDeclaration("stroke-width".to_string(), "1".to_string())]));
    let svg = vec![
        SvgToken::Attribute("class".to_string(), "stroke-width:1".to_string()),
        SvgToken::Attribute("style".to_string(), "fill:red".to_string()),
    ];
    assert!(styles_are_supported(&svg));
    let svg = vec![SvgToken::Attribute("style".to_string(), "stroke-width:1".to_string())];
    assert!(!styles_are_supported(&svg));
}

#[test]
fn parse_style_sets_fallback_paints() {
    let mut item = RenderItem::new();
    parse_style("stroke: #00ff00", &mut item);
    assert_eq!(item.fill, None);
    assert_eq!(item.stroke, Some(RED));
    parse_style("opacity:0.5; fill:blue", &mut item);
    assert_eq!(item.fill, Some(RED));
}

#[test]
fn parse_style_in_two_parts_is_the_same() {
    let mut whole = RenderItem::new();
    parse_style("fill:blue; stroke:red", &mut whole);
    let mut parts = RenderItem::new();
    parse_style("fill:blue", &mut parts);
    parse_style("stroke:red", &mut parts);
    assert_eq!(whole.fill, parts.fill);
    assert_eq!(whole.stroke, parts.stroke);
}

#[test]
fn parse_style_ignores_bad_style() {
    let mut item = RenderItem::new();
    parse_style("!!!", &mut item);
    assert_eq!(item.fill, None);
    assert_eq!(item.stroke, None);
}

#[test]
fn apply_style_tokens_reads_declarations_only() {
    let mut item = RenderItem::new();
    let tokens = vec![
        StyleToken::EntityRef("ent".to_string()),
        StyleToken::Declaration("opacity".to_string(), "3".to_string()),
        StyleToken::XmlDeclaration("fill".to_string(), "blue".to_string()),
        StyleToken::Failed,
        StyleToken::Declaration("stroke".to_string(), "none".to_string()),
    ];
    apply_style_tokens(&tokens, &mut item);
    assert_eq!(item.fill, None);
    assert_eq!(item.stroke, Some(RED));
    assert_eq!(item.stroke_width, StrokeWidth::One);
}

#[test]
fn new_item_is_empty() {
    let item = RenderItem::new();
    assert_eq!(item.path, None);
    assert_eq!(item.fill, None);
    assert_eq!(item.stroke, None);
    assert_eq!(item.stroke_width, StrokeWidth::One);
    assert!(!item.tessellated && !item.uploaded);
}

#[test]
fn path_attribute_data_lists_every_path_attribute() {
    let doc = r#"<svg><path path="M 0 0 L 1 1" path="M 2 2 L 3 3"/><g style="fill:red" path="M 5 5"/><path d="M 9 9"/></svg>"#;
    let data = svg_bench::scene::path_attribute_data(doc);
    assert_eq!(data, vec!["M 0 0 L 1 1".to_string(), "M 2 2 L 3 3".to_string(), "M 5 5".to_string()]);
    assert!(svg_bench::scene::path_attribute_data("<svg/>").is_empty());
}
