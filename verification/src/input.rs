use vstd::prelude::*;

verus! {

/// The keys the viewer reacts to.
#[derive(Clone, Copy, PartialEq, Eq, Debug)]
pub enum Key {
    Escape,
    PageDown,
    PageUp,
    Left,
    Right,
    Up,
    Down,
    Other,
}

/// A window event: the window was closed, a key was pressed or released
/// (with the key, when the windowing system knows it), or anything else.
#[derive(Clone, Copy, PartialEq, Eq, Debug)]
pub enum WindowEvent {
    Closed,
    KeyboardInput(Option<Key>),
    Other,
}

/// What the viewer does with an event: close, change the zoom target (zoom
/// out by a fifth, or in by a quarter), move the position target, or nothing.
#[derive(Clone, Copy, PartialEq, Eq, Debug)]
pub enum ViewCommand {
    Close,
    ZoomOut,
    ZoomIn,
    PanLeft,
    PanRight,
    PanUp,
    PanDown,
    Nothing,
}

/// The command for an event; a key acts on press and on release alike.
pub open spec fn command_of(event: WindowEvent) -> ViewCommand {
    match event {
        WindowEvent::Closed => ViewCommand::Close,
        WindowEvent::KeyboardInput(Some(Key::Escape)) => ViewCommand::Close,
        WindowEvent::KeyboardInput(Some(Key::PageDown)) => ViewCommand::ZoomOut,
        WindowEvent::KeyboardInput(Some(Key::PageUp)) => ViewCommand::ZoomIn,
        WindowEvent::KeyboardInput(Some(Key::Left)) => ViewCommand::PanLeft,
        WindowEvent::KeyboardInput(Some(Key::Right)) => ViewCommand::PanRight,
        WindowEvent::KeyboardInput(Some(Key::Up)) => ViewCommand::PanUp,
        WindowEvent::KeyboardInput(Some(Key::Down)) => ViewCommand::PanDown,
        _ => ViewCommand::Nothing,
    }
}

/// The command for one window event.
pub fn command_for_event(event: &WindowEvent) -> (command: ViewCommand)
    ensures
        command == command_of(*event),
{
    match event {
        WindowEvent::Closed => ViewCommand::Close,
        WindowEvent::KeyboardInput(Some(key)) => match key {
            Key::Escape => ViewCommand::Close,
            Key::PageDown => ViewCommand::ZoomOut,
            Key::PageUp => ViewCommand::ZoomIn,
            Key::Left => ViewCommand::PanLeft,
            Key::Right => ViewCommand::PanRight,
            Key::Up => ViewCommand::PanUp,
            Key::Down => ViewCommand::PanDown,
            Key::Other => ViewCommand::Nothing,
        },
        _ => ViewCommand::Nothing,
    }
}

/// Whether any of a frame's events closes the viewer.
pub open spec fn closes(events: Seq<WindowEvent>) -> bool {
    exists|i: int| 0 <= i < events.len() && #[trigger] command_of(events[i]) == ViewCommand::Close
}

/// The commands for a frame's events, in order, and whether the viewer is to
/// close after the frame.
pub fn frame_commands(events: &Vec<WindowEvent>) -> (result: (Vec<ViewCommand>, bool))
    ensures
        result.0@ == events@.map_values(|e: WindowEvent| command_of(e)),
        result.1 == closes(events@),
{
    let mut commands: Vec<ViewCommand> = Vec::new();
    let mut should_close = false;
    let mut i: usize = 0;
    while i < events.len()
        invariant
            0 <= i <= events.len(),
            commands@ == events@.take(i as int).map_values(|e: WindowEvent| command_of(e)),
            should_close == exists|j: int| 0 <= j < i && #[trigger] command_of(events@[j]) == ViewCommand::Close,
        decreases events.len() - i,
    {
        let command = command_for_event(&events[i]);
        should_close = should_close || matches!(command, ViewCommand::Close);
        commands.push(command);
        assert(events@.take(i + 1).map_values(|e: WindowEvent| command_of(e))
            =~= events@.take(i as int).map_values(|e: WindowEvent| command_of(e)).push(command));
        i = i + 1;
    }
    assert(events@.take(events.len() as int) == events@);
    (commands, should_close)
}

} // verus!
