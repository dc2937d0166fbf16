use svg_bench::input::{command_for_event, frame_commands, Key, ViewCommand, WindowEvent};
use svg_bench::item::{Rgb, StrokeWidth};
use svg_bench::render::{tessellate_scene, upload_geometry, TessellationJob};
use svg_bench::scene::load_svg;

const RED: Rgb = Rgb { red: 255, green: 0, blue: 0 };

fn three_items() -> Vec<svg_bench::item::RenderItem> {
    let doc = &[
        r#"<svg><path style="fill:red" path="M 0 0 L 1 0 L 1 1"/>"#,
        r#"<path style="stroke:blue" path="M 2 2 L 3 3"/>"#,
        r#"<path style="fill:red;stroke:red" path="M 4 4 L 5 5 L 4 5"/></svg>"#,
    ].concat();
    load_svg(&doc)
}

#[test]
fn tessellation_jobs_follow_paints() {
    let mut scene = three_items();
    let jobs = tessellate_scene(&mut scene);
    assert_eq!(
        jobs,
        vec![
            TessellationJob { index: 0, fill: Some(RED), stroke: None, stroke_width: StrokeWidth::One },
            TessellationJob { index: 1, fill: None, stroke: Some(RED), stroke_width: StrokeWidth::One },
            TessellationJob { index: 2, fill: Some(RED), stroke: Some(RED), stroke_width: StrokeWidth::One },
        ]
    );
    assert!(scene.iter().all(|item| item.tessellated && !item.uploaded));
}

#[test]
fn tessellating_twice_does_nothing_more() {
    let mut scene = three_items();
    tessellate_scene(&mut scene);
    assert!(tessellate_scene(&mut scene).is_empty());
    assert!(scene.iter().all(|item| item.tessellated));
}

#[test]
fn upload_takes_the_tessellated_items() {
    let mut scene = three_items();
    assert!(upload_geometry(&mut scene).is_empty());
    tessellate_scene(&mut scene);
    assert_eq!(upload_geometry(&mut scene), vec![0, 1, 2]);
    assert!(scene.iter().all(|item| item.uploaded));
    assert!(upload_geometry(&mut scene).is_empty());
}

#[test]
fn new_items_are_tessellated_and_uploaded_alone() {
    let mut scene = three_items();
    tessellate_scene(&mut scene);
    upload_geometry(&mut scene);
    let mut more = load_svg(r#"<svg><path style="fill:red" path="M 9 9 L 8 8 L 9 8"/></svg>"#);
    scene.append(&mut more);
    let jobs = tessellate_scene(&mut scene);
    assert_eq!(jobs.len(), 1);
    assert_eq!(jobs[0].index, 3);
    assert_eq!(upload_geometry(&mut scene), vec![3]);
}

#[test]
fn keys_map_to_commands() {
    assert_eq!(command_for_event(&WindowEvent::Closed), ViewCommand::Close);
    assert_eq!(command_for_event(&WindowEvent::KeyboardInput(Some(Key::Escape))), ViewCommand::Close);
    assert_eq!(command_for_event(&WindowEvent::KeyboardInput(Some(Key::PageDown))), ViewCommand::ZoomOut);
    assert_eq!(command_for_event(&WindowEvent::KeyboardInput(Some(Key::PageUp))), ViewCommand::ZoomIn);
    assert_eq!(command_for_event(&WindowEvent::KeyboardInput(Some(Key::Left))), ViewCommand::PanLeft);
    assert_eq!(command_for_event(&WindowEvent::KeyboardInput(Some(Key::Right))), ViewCommand::PanRight);
    assert_eq!(command_for_event(&WindowEvent::KeyboardInput(Some(Key::Up))), ViewCommand::PanUp);
    assert_eq!(command_for_event(&WindowEvent::KeyboardInput(Some(Key::Down))), ViewCommand::PanDown);
    assert_eq!(command_for_event(&WindowEvent::KeyboardInput(Some(Key::Other))), ViewCommand::Nothing);
    assert_eq!(command_for_event(&WindowEvent::KeyboardInput(None)), ViewCommand::Nothing);
    assert_eq!(command_for_event(&WindowEvent::Other), ViewCommand::Nothing);
}

#[test]
fn a_frame_closes_on_escape_or_close() {
    let events = vec![
        WindowEvent::KeyboardInput(Some(Key::PageUp)),
        WindowEvent::Other,
        WindowEvent::KeyboardInput(Some(Key::Escape)),
    ];
    let (commands, close) = frame_commands(&events);
    assert_eq!(commands, vec![ViewCommand::ZoomIn, ViewCommand::Nothing, ViewCommand::Close]);
    assert!(close);
    let (commands, close) = frame_commands(&vec![WindowEvent::KeyboardInput(Some(Key::Left))]);
    assert_eq!(commands, vec![ViewCommand::PanLeft]);
    assert!(!close);
    let (commands, close) = frame_commands(&vec![]);
    assert!(commands.is_empty());
    assert!(!close);
}
