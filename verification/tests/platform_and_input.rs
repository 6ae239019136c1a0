use code_editor::editor::{CodeEditor, Session, Settings};
use code_editor::geometry::{Point, Rect, GRID_UNIT};
use code_editor::input::{
    CodeEditorAction, Hit, KeyCode, KeyModifiers, Reaction, SessionCommand, When,
};
use code_editor::layout::{Layout, LineEntry};
use code_editor::line::{Line, WrappedElement};
use code_editor::media::{on_midi_1_input_data, on_midi_input_list, Midi1Data, Midi1InputData};
use code_editor::platform::{
    Area, AreaTriggers, Cx, CxDependency, CxDragDrop, CxDrawList, CxFingerCapture, CxFingerHover,
    CxFingers, CxKeyboard, CxOsOp, CxPass, CxPassParent, DraggedItem, DrawEvent, DrawListArea,
    DrawListId, GlobalId, GpuInfo, GpuPerformance, InstanceArea, Menu, MouseCursor, NextFrame,
    OsType, PassId, Signal, Timer, Trigger, Vec2, WindowId,
};
use code_editor::text::{Affinity, Position};
use code_editor::token::TokenColors;

fn area(list: usize) -> Area {
    Area::DrawList(DrawListArea { draw_list_id: DrawListId(list), redraw_id: 0 })
}

fn instance(list: usize) -> Area {
    Area::Instance(InstanceArea {
        draw_list_id: DrawListId(list),
        redraw_id: 1,
        instance_offset: 0,
        instance_count: 1,
    })
}

fn pass(parent: CxPassParent, main: Option<usize>) -> CxPass {
    CxPass { parent, main_draw_list_id: main.map(DrawListId), paint_dirty: false }
}

fn context() -> Cx {
    Cx {
        dependencies: vec![
            CxDependency { path: "font.ttf".to_string(), data: Some(Ok(vec![1, 2, 3])) },
            CxDependency { path: "broken.png".to_string(), data: Some(Err("no file".to_string())) },
            CxDependency { path: "pending.png".to_string(), data: None },
        ],
        redraw_id: 7,
        platform_type: OsType::LinuxWindow,
        cpu_cores: 8,
        gpu_info: GpuInfo {
            min_uniform_vectors: 1024,
            performance: GpuPerformance::Tier1,
            vendor: "vendor".to_string(),
            renderer: "renderer".to_string(),
        },
        platform_ops: Vec::new(),
        timer_id: 0,
        draw_lists: vec![
            CxDrawList { pass_id: Some(PassId(0)) },
            CxDrawList { pass_id: Some(PassId(1)) },
            CxDrawList { pass_id: Some(PassId(2)) },
            CxDrawList { pass_id: None },
        ],
        // Pass 0 is drawn in a window; passes 1 and 3 are drawn in pass 0, pass 2 in pass 1.
        passes: vec![
            pass(CxPassParent::Window(WindowId(0)), Some(0)),
            pass(CxPassParent::Pass(PassId(0)), Some(1)),
            pass(CxPassParent::Pass(PassId(1)), Some(2)),
            pass(CxPassParent::Pass(PassId(0)), None),
            pass(CxPassParent::Detached, Some(3)),
        ],
        new_draw_event: DrawEvent {
            redraw_all: false,
            draw_lists: Vec::new(),
            draw_lists_and_children: Vec::new(),
        },
        keyboard: CxKeyboard {
            prev_key_focus: area(1),
            next_key_focus: area(2),
            key_focus: area(2),
            text_ime_dismissed: true,
        },
        fingers: CxFingers {
            hovers: vec![
                CxFingerHover { digit_id: 1, area: area(2) },
                CxFingerHover { digit_id: 2, area: area(3) },
            ],
            captures: vec![CxFingerCapture { digit_id: 1, area: area(2), sweep_area: area(1) }],
            sweep_lock: Some(area(2)),
        },
        finger_drag: CxDragDrop { drag_area: area(2), next_drag_area: area(2) },
        next_frame_id: 5,
        new_next_frames: Vec::new(),
        signals: Vec::new(),
        triggers: Vec::new(),
        globals: Vec::new(),
    }
}

fn ids(lists: &[DrawListId]) -> Vec<usize> {
    lists.iter().map(|id| id.0).collect()
}

#[test]
fn dependencies_are_found_by_path() {
    let cx = context();
    assert_eq!(cx.get_dependency("font.ttf"), Ok(&vec![1, 2, 3]));
    assert_eq!(cx.get_dependency("broken.png"), Err("no file".to_string()));
    assert_eq!(
        cx.get_dependency("pending.png"),
        Err("Dependency not loaded pending.png".to_string())
    );
    assert_eq!(cx.get_dependency("nowhere"), Err("Dependency not loaded nowhere".to_string()));
    assert_eq!(cx.get_dependency(""), Err("Dependency not loaded ".to_string()));
}

#[test]
fn context_getters() {
    let cx = context();
    assert_eq!(cx.redraw_id(), 7);
    assert_eq!(*cx.platform_type(), OsType::LinuxWindow);
    assert_eq!(cx.cpu_cores(), 8);
    assert_eq!(cx.gpu_info().vendor, "vendor");
    assert!(cx.is_valid());
}

#[test]
fn requests_to_the_operating_system_are_queued_in_order() {
    let mut cx = context();
    cx.update_menu(Menu(3));
    cx.show_text_ime(Vec2 { x: 10, y: 20 });
    cx.hide_text_ime();
    assert!(!cx.is_dragging());
    cx.start_dragging(DraggedItem(9));
    assert!(cx.is_dragging());
    cx.stop_timer(Timer(0));
    cx.stop_timer(Timer(4));
    assert_eq!(
        cx.platform_ops,
        vec![
            CxOsOp::UpdateMenu(Menu(3)),
            CxOsOp::ShowTextIME(Vec2 { x: 10, y: 20 }),
            CxOsOp::HideTextIME,
            CxOsOp::StartDragging(DraggedItem(9)),
            CxOsOp::StopTimer(4),
        ]
    );
}

#[test]
fn a_request_is_pushed_only_once() {
    let mut cx = context();
    cx.push_unique_platform_op(CxOsOp::CloseWindow(WindowId(1)));
    cx.push_unique_platform_op(CxOsOp::CloseWindow(WindowId(2)));
    cx.push_unique_platform_op(CxOsOp::CloseWindow(WindowId(1)));
    assert_eq!(
        cx.platform_ops,
        vec![CxOsOp::CloseWindow(WindowId(1)), CxOsOp::CloseWindow(WindowId(2))]
    );
}

#[test]
fn the_cursor_request_is_replaced_where_it_stands() {
    let mut cx = context();
    cx.hide_text_ime();
    cx.set_cursor(MouseCursor::Hand);
    cx.update_menu(Menu(1));
    cx.set_cursor(MouseCursor::Text);
    assert_eq!(
        cx.platform_ops,
        vec![
            CxOsOp::HideTextIME,
            CxOsOp::SetCursor(MouseCursor::Text),
            CxOsOp::UpdateMenu(Menu(1)),
        ]
    );
}

#[test]
fn timers_are_numbered_from_one() {
    let mut cx = context();
    assert_eq!(cx.start_timer(500_000, true), Timer(1));
    assert_eq!(cx.start_timer(250, false), Timer(2));
    assert_eq!(
        cx.platform_ops,
        vec![
            CxOsOp::StartTimer { timer_id: 1, interval: 500_000, repeats: true },
            CxOsOp::StartTimer { timer_id: 2, interval: 250, repeats: false },
        ]
    );
}

#[test]
fn redrawing_areas() {
    let mut cx = context();
    cx.redraw_area(area(2));
    cx.redraw_area(instance(1));
    cx.redraw_area(area(2));
    cx.redraw_area(Area::Empty);
    assert_eq!(ids(&cx.new_draw_event.draw_lists), vec![2, 1]);
    cx.redraw_area_and_children(instance(3));
    cx.redraw_area_and_children(instance(3));
    cx.redraw_area_and_children(Area::Empty);
    assert_eq!(ids(&cx.new_draw_event.draw_lists_and_children), vec![3]);
    assert!(!cx.new_draw_event.redraw_all);
    cx.redraw_all();
    assert!(cx.new_draw_event.redraw_all);
    assert_eq!(area(2).draw_list_id(), Some(DrawListId(2)));
    assert_eq!(Area::Empty.draw_list_id(), None);
}

#[test]
fn redrawing_a_pass_and_the_passes_above_it() {
    let mut cx = context();
    cx.redraw_pass_and_parent_passes(PassId(2));
    assert_eq!(ids(&cx.new_draw_event.draw_lists_and_children), vec![2, 1, 0]);
    let mut cx = context();
    cx.redraw_pass_and_parent_passes(PassId(3));
    assert_eq!(ids(&cx.new_draw_event.draw_lists_and_children), vec![0]);
    let mut cx = context();
    cx.redraw_pass_of(area(1));
    assert_eq!(ids(&cx.new_draw_event.draw_lists_and_children), vec![1, 0]);
    cx.redraw_pass_of(Area::Empty);
    assert_eq!(ids(&cx.new_draw_event.draw_lists_and_children), vec![1, 0]);
}

#[test]
fn redrawing_a_pass_and_the_passes_below_it() {
    let mut cx = context();
    cx.redraw_pass_and_child_passes(PassId(0));
    assert_eq!(ids(&cx.new_draw_event.draw_lists_and_children), vec![0, 1, 2]);
    let mut cx = context();
    cx.redraw_pass_and_child_passes(PassId(1));
    assert_eq!(ids(&cx.new_draw_event.draw_lists_and_children), vec![1, 2]);
    let mut cx = context();
    cx.redraw_pass_and_child_passes(PassId(4));
    assert_eq!(ids(&cx.new_draw_event.draw_lists_and_children), vec![3]);
}

#[test]
fn the_window_of_a_pass() {
    let cx = context();
    assert_eq!(cx.pass_window(PassId(0)), Some(WindowId(0)));
    assert_eq!(cx.pass_window(PassId(2)), Some(WindowId(0)));
    assert_eq!(cx.pass_window(PassId(4)), None);
    assert_eq!(cx.pass_window(PassId(17)), None);
    // A chain of more than 25 passes is not followed to its end.
    let mut deep = context();
    deep.passes = (0..40)
        .map(|k| if k == 0 {
            pass(CxPassParent::Window(WindowId(3)), None)
        } else {
            pass(CxPassParent::Pass(PassId(k - 1)), None)
        })
        .collect();
    assert_eq!(deep.pass_window(PassId(24)), Some(WindowId(3)));
    assert_eq!(deep.pass_window(PassId(25)), None);
}

#[test]
fn repainting_a_pass() {
    let mut cx = context();
    cx.repaint_pass(PassId(1));
    let dirty: Vec<bool> = cx.passes.iter().map(|pass| pass.paint_dirty).collect();
    assert_eq!(dirty, vec![false, true, false, false, false]);
    assert_eq!(cx.passes[1].parent, CxPassParent::Pass(PassId(0)));
}

#[test]
fn a_context_with_a_cycle_of_passes_is_not_valid() {
    let mut cx = context();
    cx.passes[0].parent = CxPassParent::Pass(PassId(2));
    assert!(!cx.is_valid());
    assert!(!cx.is_rooted(PassId(1)));
    assert!(cx.is_rooted(PassId(4)));
    let mut cx = context();
    cx.passes[3].parent = CxPassParent::Pass(PassId(9));
    assert!(!cx.is_valid());
    let mut cx = context();
    cx.draw_lists[3].pass_id = Some(PassId(5));
    assert!(!cx.is_valid());
}

#[test]
fn area_references_follow_the_widget() {
    let mut cx = context();
    assert_eq!(cx.update_area_refs(area(2), area(9)), area(9));
    assert_eq!(
        cx.keyboard,
        CxKeyboard {
            prev_key_focus: area(1),
            next_key_focus: area(9),
            key_focus: area(9),
            text_ime_dismissed: true,
        }
    );
    assert_eq!(
        cx.fingers.hovers,
        vec![
            CxFingerHover { digit_id: 1, area: area(9) },
            CxFingerHover { digit_id: 2, area: area(3) },
        ]
    );
    assert_eq!(
        cx.fingers.captures,
        vec![CxFingerCapture { digit_id: 1, area: area(9), sweep_area: area(1) }]
    );
    assert_eq!(cx.fingers.sweep_lock, Some(area(9)));
    assert_eq!(cx.finger_drag, CxDragDrop { drag_area: area(9), next_drag_area: area(2) });
    // An empty old area refers to nothing.
    cx.keyboard.key_focus = Area::Empty;
    assert_eq!(cx.update_area_refs(Area::Empty, area(4)), area(4));
    assert_eq!(cx.keyboard.key_focus, Area::Empty);
}

#[test]
fn key_focus() {
    let mut cx = context();
    assert!(cx.has_key_focus(area(2)));
    assert!(!cx.has_key_focus(area(1)));
    cx.set_key_focus(area(3));
    assert_eq!(cx.keyboard.next_key_focus, area(3));
    assert!(!cx.keyboard.text_ime_dismissed);
    assert!(cx.has_key_focus(area(2)));
    cx.revert_key_focus();
    assert_eq!(cx.keyboard.next_key_focus, area(1));
}

#[test]
fn next_frames_signals_and_triggers() {
    let mut cx = context();
    assert_eq!(cx.new_next_frame(), NextFrame(5));
    assert_eq!(cx.new_next_frame(), NextFrame(6));
    assert_eq!(cx.new_next_frames, vec![NextFrame(5), NextFrame(6)]);
    assert_eq!(cx.next_frame_id, 7);
    cx.send_signal(Signal(1));
    cx.send_signal(Signal(2));
    cx.send_signal(Signal(1));
    assert_eq!(cx.signals, vec![Signal(1), Signal(2)]);
    let t1 = Trigger { id: 1, from: Area::Empty };
    let t2 = Trigger { id: 2, from: area(1) };
    cx.send_trigger(area(1), t1);
    cx.send_trigger(area(2), t1);
    cx.send_trigger(area(1), t2);
    cx.send_trigger(area(1), t1);
    let sent: Vec<(Area, Vec<Trigger>)> =
        cx.triggers.iter().map(|AreaTriggers { area, triggers }| (*area, triggers.clone())).collect();
    assert_eq!(sent, vec![(area(1), vec![t1, t2]), (area(2), vec![t1])]);
}

#[test]
fn globals_are_kept_once_per_type() {
    let mut cx = context();
    assert!(!cx.has_global(GlobalId(10)));
    assert_eq!(cx.set_global(GlobalId(10)), Some(0));
    assert_eq!(cx.set_global(GlobalId(20)), Some(1));
    assert_eq!(cx.set_global(GlobalId(10)), None);
    assert!(cx.has_global(GlobalId(20)));
    assert_eq!(cx.get_global(GlobalId(20)), 1);
    assert_eq!(cx.get_global(GlobalId(10)), 0);
    assert_eq!(cx.find_global(GlobalId(30)), 2);
    assert_eq!(cx.globals, vec![GlobalId(10), GlobalId(20)]);
}

#[test]
fn midi_input_is_handed_out_when_it_is_signalled() {
    let message = |input: usize| Midi1InputData {
        input,
        data: Midi1Data { data0: 0x90, data1: 60, data2: 127 },
    };
    let mut buffer = vec![message(0), message(1)];
    let signals = vec![Signal(3), Signal(4)];
    assert!(on_midi_1_input_data(&signals, Signal(9), &mut buffer).is_empty());
    assert_eq!(buffer.len(), 2);
    assert_eq!(on_midi_1_input_data(&signals, Signal(4), &mut buffer), vec![message(0), message(1)]);
    assert!(buffer.is_empty());
    assert!(on_midi_1_input_data(&signals, Signal(4), &mut buffer).is_empty());
    assert!(on_midi_input_list(&signals, Signal(3)));
    assert!(!on_midi_input_list(&signals, Signal(5)));
    assert!(!on_midi_input_list(&Vec::new(), Signal(3)));
}

fn session() -> Session {
    let line = Line {
        scale: GRID_UNIT,
        fold_column: 0,
        indent_column_count: 0,
        wrap_indent_column_count: 0,
        tokens: Vec::new(),
        elements: vec![WrappedElement::Text { is_inlay: false, text: b"hello".to_vec() }],
    };
    let session = Session {
        layout: Layout { entries: vec![LineEntry { y: 0, inlays: Vec::new(), line }] },
        selections: Vec::new(),
        settings: Settings { tab_column_count: 4 },
    };
    assert!(session.is_valid());
    session
}

fn editor() -> CodeEditor {
    let mut editor = CodeEditor::new(TokenColors::default(), 0, 2);
    editor.cell_size = (10, 20);
    editor.viewport_rect = Rect { x: 0, y: 0, width: 1000, height: 100 };
    editor
}

fn no_modifiers() -> KeyModifiers {
    KeyModifiers { shift: false, control: false, alt: false, logo: false }
}

fn summary(reaction: &Reaction) -> (Vec<SessionCommand>, When, When, bool, Option<MouseCursor>) {
    (
        reaction.commands.clone(),
        reaction.redraw,
        reaction.text_did_change,
        reaction.take_key_focus,
        reaction.mouse_cursor,
    )
}

fn key_down(key_code: KeyCode, modifiers: KeyModifiers) -> Reaction {
    editor().handle_event_with(&session(), Hit::KeyDown { key_code, modifiers })
}

#[test]
fn keys_that_move_or_fold() {
    let shift = KeyModifiers { shift: true, ..no_modifiers() };
    let moved = |command| (vec![command], When::Always, When::Never, false, None);
    assert_eq!(summary(&key_down(KeyCode::Escape, no_modifiers())), moved(SessionCommand::Fold));
    assert_eq!(
        summary(&key_down(KeyCode::ArrowLeft, no_modifiers())),
        moved(SessionCommand::MoveLeft { reset_anchor: true })
    );
    assert_eq!(
        summary(&key_down(KeyCode::ArrowRight, shift)),
        moved(SessionCommand::MoveRight { reset_anchor: false })
    );
    assert_eq!(
        summary(&key_down(KeyCode::ArrowUp, shift)),
        moved(SessionCommand::MoveUp { reset_anchor: false })
    );
    assert_eq!(
        summary(&key_down(KeyCode::ArrowDown, no_modifiers())),
        moved(SessionCommand::MoveDown { reset_anchor: true })
    );
    let up = editor().handle_event_with(
        &session(),
        Hit::KeyUp { key_code: KeyCode::Escape, modifiers: no_modifiers() },
    );
    assert_eq!(summary(&up), moved(SessionCommand::Unfold));
    let up = editor()
        .handle_event_with(&session(), Hit::KeyUp { key_code: KeyCode::Tab, modifiers: shift });
    assert_eq!(summary(&up), (Vec::new(), When::Never, When::Never, false, None));
}

#[test]
fn keys_that_edit() {
    let logo = KeyModifiers { logo: true, ..no_modifiers() };
    let logo_shift = KeyModifiers { logo: true, shift: true, ..no_modifiers() };
    let edited = |command| (vec![command], When::Always, When::Always, false, None);
    let history = |command| (vec![command], When::IfChanged, When::IfChanged, false, None);
    let ignored = (Vec::new(), When::Never, When::Never, false, None);
    assert_eq!(summary(&key_down(KeyCode::ReturnKey, no_modifiers())), edited(SessionCommand::Enter));
    assert_eq!(summary(&key_down(KeyCode::Tab, no_modifiers())), edited(SessionCommand::Tab));
    assert_eq!(summary(&key_down(KeyCode::Delete, logo)), edited(SessionCommand::Delete));
    assert_eq!(
        summary(&key_down(KeyCode::Backspace, no_modifiers())),
        edited(SessionCommand::Backspace)
    );
    assert_eq!(summary(&key_down(KeyCode::RBracket, logo)), edited(SessionCommand::Indent));
    assert_eq!(summary(&key_down(KeyCode::LBracket, logo)), edited(SessionCommand::Outdent));
    assert_eq!(summary(&key_down(KeyCode::RBracket, no_modifiers())), ignored);
    assert_eq!(summary(&key_down(KeyCode::LBracket, no_modifiers())), ignored);
    assert_eq!(summary(&key_down(KeyCode::KeyZ, logo)), history(SessionCommand::Undo));
    assert_eq!(summary(&key_down(KeyCode::KeyZ, logo_shift)), history(SessionCommand::Redo));
    assert_eq!(summary(&key_down(KeyCode::KeyZ, no_modifiers())), ignored);
    assert_eq!(summary(&key_down(KeyCode::Other, logo)), ignored);
}

#[test]
fn text_input_copy_and_cut() {
    let react = |hit| summary(&editor().handle_event_with(&session(), hit));
    assert_eq!(
        react(Hit::TextInput { is_empty: false }),
        (vec![SessionCommand::Insert], When::Always, When::Always, false, None)
    );
    assert_eq!(
        react(Hit::TextInput { is_empty: true }),
        (Vec::new(), When::Never, When::Never, false, None)
    );
    assert_eq!(
        react(Hit::TextCopy),
        (vec![SessionCommand::Copy], When::Never, When::Never, false, None)
    );
    assert_eq!(
        react(Hit::TextCut),
        (vec![SessionCommand::Copy, SessionCommand::Delete], When::Always, When::Never, false, None)
    );
    assert_eq!(react(Hit::Nothing), (Vec::new(), When::Never, When::Never, false, None));
}

#[test]
fn fingers_set_add_and_drag_cursors() {
    let react = |hit| summary(&editor().handle_event_with(&session(), hit));
    let position = Position { line_index: 0, byte_index: 2 };
    let affinity = Affinity::After;
    let inside = Point { x: 22, y: 10 };
    let outside = Point { x: 22, y: 500 };
    assert_eq!(
        react(Hit::FingerDown { abs: inside, modifiers: no_modifiers() }),
        (vec![SessionCommand::SetCursor { position, affinity }], When::Always, When::Never, true, None)
    );
    let alt = KeyModifiers { alt: true, ..no_modifiers() };
    assert_eq!(
        react(Hit::FingerDown { abs: inside, modifiers: alt }),
        (vec![SessionCommand::AddCursor { position, affinity }], When::Always, When::Never, true, None)
    );
    assert_eq!(
        react(Hit::FingerDown { abs: outside, modifiers: alt }),
        (Vec::new(), When::Never, When::Never, true, None)
    );
    assert_eq!(
        react(Hit::FingerMove { abs: inside }),
        (
            vec![SessionCommand::MoveTo { position, affinity }],
            When::Always,
            When::Never,
            false,
            Some(MouseCursor::Text)
        )
    );
    assert_eq!(
        react(Hit::FingerMove { abs: outside }),
        (Vec::new(), When::Never, When::Never, false, Some(MouseCursor::Text))
    );
    let hover = (Vec::new(), When::Never, When::Never, false, Some(MouseCursor::Text));
    assert_eq!(react(Hit::FingerHoverIn), hover);
    assert_eq!(react(Hit::FingerHoverOver), hover);
}

#[test]
fn actions_reported_to_the_host() {
    let editor = editor();
    let session = session();
    let logo = KeyModifiers { logo: true, ..no_modifiers() };
    let undo = Hit::KeyDown { key_code: KeyCode::KeyZ, modifiers: logo };
    let changed = vec![CodeEditorAction::TextDidChange];
    assert_eq!(editor.handle_event(&session, Hit::TextInput { is_empty: false }, false), changed);
    assert_eq!(editor.handle_event(&session, undo, true), changed);
    assert!(editor.handle_event(&session, undo, false).is_empty());
    assert!(editor.handle_event(&session, Hit::TextCut, true).is_empty());
    assert!(editor.handle_event(&session, Hit::FingerHoverIn, true).is_empty());
}
