//! What the editor does about an input event: which commands the editing
//! session gets, whether the widget is redrawn, and what is reported to the
//! host. The editor only decides; the host carries the decision out.

use crate::editor::{CodeEditor, Session};
use crate::geometry::Point;
use crate::pick::spec_pick;
use crate::platform::MouseCursor;
use crate::text::{Affinity, Position};
use vstd::prelude::*;

verus! {

#[derive(Clone, Copy, Debug, PartialEq, Eq, Structural)]
pub enum KeyCode {
    Escape,
    ArrowLeft,
    ArrowRight,
    ArrowUp,
    ArrowDown,
    ReturnKey,
    Tab,
    Delete,
    Backspace,
    RBracket,
    LBracket,
    KeyZ,
    /// Any key that the editor does not react to.
    Other,
}

#[derive(Clone, Copy, Debug, PartialEq, Eq, Structural)]
pub struct KeyModifiers {
    pub shift: bool,
    pub control: bool,
    pub alt: bool,
    pub logo: bool,
}

/// An input event that reached the editor.
#[derive(Clone, Copy, Debug, PartialEq, Eq, Structural)]
pub enum Hit {
    KeyDown { key_code: KeyCode, modifiers: KeyModifiers },
    KeyUp { key_code: KeyCode, modifiers: KeyModifiers },
    /// Text was typed; `is_empty` tells whether it was the empty text.
    TextInput { is_empty: bool },
    TextCopy,
    TextCut,
    FingerDown { abs: Point, modifiers: KeyModifiers },
    FingerHoverIn,
    FingerHoverOver,
    FingerMove { abs: Point },
    /// Any event that the editor does not react to.
    Nothing,
}

/// A command to the editing session.
#[derive(Clone, Copy, Debug, PartialEq, Eq, Structural)]
pub enum SessionCommand {
    Fold,
    Unfold,
    MoveLeft { reset_anchor: bool },
    MoveRight { reset_anchor: bool },
    MoveUp { reset_anchor: bool },
    MoveDown { reset_anchor: bool },
    /// Insert the text that was typed.
    Insert,
    Enter,
    Tab,
    Delete,
    Backspace,
    Indent,
    Outdent,
    /// Hand the selected text to the event as its response.
    Copy,
    Undo,
    Redo,
    AddCursor { position: Position, affinity: Affinity },
    SetCursor { position: Position, affinity: Affinity },
    MoveTo { position: Position, affinity: Affinity },
}

/// What the editor reports to its host.
#[derive(Clone, Copy, Debug, PartialEq, Eq, Structural)]
pub enum CodeEditorAction {
    TextDidChange,
}

/// When something that follows the commands has to happen.
#[derive(Clone, Copy, Debug, PartialEq, Eq, Structural)]
pub enum When {
    Never,
    Always,
    /// Only if the last command reports that it changed the document.
    IfChanged,
}

/// The editor's reaction to an event.
pub struct Reaction {
    /// The commands for the session, in order.
    pub commands: Vec<SessionCommand>,
    /// When to redraw.
    pub redraw: When,
    /// When to report that the text changed.
    pub text_did_change: When,
    /// Whether the editor takes the key focus.
    pub take_key_focus: bool,
    /// The mouse cursor to show, if it is to change.
    pub mouse_cursor: Option<MouseCursor>,
}

/// A reaction over a sequence of commands.
pub struct ReactionView {
    pub commands: Seq<SessionCommand>,
    pub redraw: When,
    pub text_did_change: When,
    pub take_key_focus: bool,
    pub mouse_cursor: Option<MouseCursor>,
}

impl View for Reaction {
    type V = ReactionView;

    open spec fn view(&self) -> ReactionView {
        ReactionView {
            commands: self.commands@,
            redraw: self.redraw,
            text_did_change: self.text_did_change,
            take_key_focus: self.take_key_focus,
            mouse_cursor: self.mouse_cursor,
        }
    }
}

/// No reaction at all.
pub open spec fn spec_ignore() -> ReactionView {
    ReactionView {
        commands: Seq::empty(),
        redraw: When::Never,
        text_did_change: When::Never,
        take_key_focus: false,
        mouse_cursor: None,
    }
}

/// One command that does not change the text, and a redraw.
pub open spec fn spec_view_change(command: SessionCommand) -> ReactionView {
    ReactionView {
        commands: seq![command],
        redraw: When::Always,
        text_did_change: When::Never,
        take_key_focus: false,
        mouse_cursor: None,
    }
}

/// One command that changes the text, a redraw, and the report that the text changed.
pub open spec fn spec_edit(command: SessionCommand) -> ReactionView {
    ReactionView {
        commands: seq![command],
        redraw: When::Always,
        text_did_change: When::Always,
        take_key_focus: false,
        mouse_cursor: None,
    }
}

/// One command that may turn out to change nothing; redraw and report only if it did.
pub open spec fn spec_history(command: SessionCommand) -> ReactionView {
    ReactionView {
        commands: seq![command],
        redraw: When::IfChanged,
        text_did_change: When::IfChanged,
        take_key_focus: false,
        mouse_cursor: None,
    }
}

/// The reaction to a key going down.
pub open spec fn spec_key_down(key_code: KeyCode, modifiers: KeyModifiers) -> ReactionView {
    match key_code {
        KeyCode::Escape => spec_view_change(SessionCommand::Fold),
        KeyCode::ArrowLeft => spec_view_change(
            SessionCommand::MoveLeft { reset_anchor: !modifiers.shift },
        ),
        KeyCode::ArrowRight => spec_view_change(
            SessionCommand::MoveRight { reset_anchor: !modifiers.shift },
        ),
        KeyCode::ArrowUp => spec_view_change(
            SessionCommand::MoveUp { reset_anchor: !modifiers.shift },
        ),
        KeyCode::ArrowDown => spec_view_change(
            SessionCommand::MoveDown { reset_anchor: !modifiers.shift },
        ),
        KeyCode::ReturnKey => spec_edit(SessionCommand::Enter),
        KeyCode::Tab => spec_edit(SessionCommand::Tab),
        KeyCode::Delete => spec_edit(SessionCommand::Delete),
        KeyCode::Backspace => spec_edit(SessionCommand::Backspace),
        KeyCode::RBracket => if modifiers.logo {
            spec_edit(SessionCommand::Indent)
        } else {
            spec_ignore()
        },
        KeyCode::LBracket => if modifiers.logo {
            spec_edit(SessionCommand::Outdent)
        } else {
            spec_ignore()
        },
        KeyCode::KeyZ => if !modifiers.logo {
            spec_ignore()
        } else if modifiers.shift {
            spec_history(SessionCommand::Redo)
        } else {
            spec_history(SessionCommand::Undo)
        },
        KeyCode::Other => spec_ignore(),
    }
}

/// The reaction to a pointer event at a place where `hit` was picked: the command that
/// `command` makes of the hit and a redraw, if anything was hit.
pub open spec fn spec_pointer(
    hit: Option<(Position, Affinity)>,
    command: spec_fn(Position, Affinity) -> SessionCommand,
    take_key_focus: bool,
    mouse_cursor: Option<MouseCursor>,
) -> ReactionView {
    ReactionView {
        commands: match hit {
            Some((position, affinity)) => seq![command(position, affinity)],
            None => Seq::empty(),
        },
        redraw: if hit is Some {
            When::Always
        } else {
            When::Never
        },
        text_did_change: When::Never,
        take_key_focus,
        mouse_cursor,
    }
}

impl CodeEditor {
    /// The editor's reaction to `hit`.
    ///
    /// Escape folds while it is held down. The arrow keys move the cursors, keeping the
    /// anchors where they are while shift is held. Typed text, return, tab, delete and
    /// backspace edit the text, and so do the bracket keys together with the logo key, which
    /// indent and outdent. Logo and Z undo, with shift redo. Copy hands the selection to
    /// the event; cut does so too and then deletes it. A finger going down takes the key
    /// focus and sets the cursor where it hit, or adds one there while alt is held; a moving
    /// finger drags the cursor along. The mouse cursor over the editor is the text cursor.
    pub open spec fn spec_reaction(&self, session: &Session, hit: Hit) -> ReactionView {
        match hit {
            Hit::KeyDown { key_code, modifiers } => spec_key_down(key_code, modifiers),
            Hit::KeyUp { key_code, .. } => if key_code == KeyCode::Escape {
                spec_view_change(SessionCommand::Unfold)
            } else {
                spec_ignore()
            },
            Hit::TextInput { is_empty } => if is_empty {
                spec_ignore()
            } else {
                spec_edit(SessionCommand::Insert)
            },
            Hit::TextCopy => ReactionView {
                commands: seq![SessionCommand::Copy],
                redraw: When::Never,
                text_did_change: When::Never,
                take_key_focus: false,
                mouse_cursor: None,
            },
            Hit::TextCut => ReactionView {
                commands: seq![SessionCommand::Copy, SessionCommand::Delete],
                redraw: When::Always,
                text_did_change: When::Never,
                take_key_focus: false,
                mouse_cursor: None,
            },
            Hit::FingerDown { abs, modifiers } => spec_pointer(
                spec_pick(&session.layout, self.spec_metrics(), abs),
                if modifiers.alt {
                    |position: Position, affinity: Affinity|
                        SessionCommand::AddCursor { position, affinity }
                } else {
                    |position: Position, affinity: Affinity|
                        SessionCommand::SetCursor { position, affinity }
                },
                true,
                None,
            ),
            Hit::FingerHoverIn => ReactionView {
                mouse_cursor: Some(MouseCursor::Text),
                ..spec_ignore()
            },
            Hit::FingerHoverOver => ReactionView {
                mouse_cursor: Some(MouseCursor::Text),
                ..spec_ignore()
            },
            Hit::FingerMove { abs } => spec_pointer(
                spec_pick(&session.layout, self.spec_metrics(), abs),
                |position: Position, affinity: Affinity|
                    SessionCommand::MoveTo { position, affinity },
                false,
                Some(MouseCursor::Text),
            ),
            Hit::Nothing => spec_ignore(),
        }
    }

    /// The editor's reaction to `hit`: the commands for the session and what has to follow
    /// them.
    pub fn handle_event_with(&self, session: &Session, hit: Hit) -> (reaction: Reaction)
        requires
            self.wf(),
            session.wf(),
        ensures
            reaction@ == self.spec_reaction(session, hit),
    {
        let mut reaction = Reaction {
            commands: Vec::new(),
            redraw: When::Never,
            text_did_change: When::Never,
            take_key_focus: false,
            mouse_cursor: None,
        };
        match hit {
            Hit::KeyDown { key_code, modifiers } => {
                let reset_anchor = !modifiers.shift;
                let (command, effect): (Option<SessionCommand>, When) = match key_code {
                    KeyCode::Escape => (Some(SessionCommand::Fold), When::Never),
                    KeyCode::ArrowLeft => (
                        Some(SessionCommand::MoveLeft { reset_anchor }),
                        When::Never,
                    ),
                    KeyCode::ArrowRight => (
                        Some(SessionCommand::MoveRight { reset_anchor }),
                        When::Never,
                    ),
                    KeyCode::ArrowUp => (Some(SessionCommand::MoveUp { reset_anchor }), When::Never),
                    KeyCode::ArrowDown => (
                        Some(SessionCommand::MoveDown { reset_anchor }),
                        When::Never,
                    ),
                    KeyCode::ReturnKey => (Some(SessionCommand::Enter), When::Always),
                    KeyCode::Tab => (Some(SessionCommand::Tab), When::Always),
                    KeyCode::Delete => (Some(SessionCommand::Delete), When::Always),
                    KeyCode::Backspace => (Some(SessionCommand::Backspace), When::Always),
                    KeyCode::RBracket => if modifiers.logo {
                        (Some(SessionCommand::Indent), When::Always)
                    } else {
                        (None, When::Never)
                    },
                    KeyCode::LBracket => if modifiers.logo {
                        (Some(SessionCommand::Outdent), When::Always)
                    } else {
                        (None, When::Never)
                    },
                    KeyCode::KeyZ => if !modifiers.logo {
                        (None, When::Never)
                    } else if modifiers.shift {
                        (Some(SessionCommand::Redo), When::IfChanged)
                    } else {
                        (Some(SessionCommand::Undo), When::IfChanged)
                    },
                    KeyCode::Other => (None, When::Never),
                };
                if let Some(command) = command {
                    reaction.commands.push(command);
                    reaction.text_did_change = effect;
                    reaction.redraw = match effect {
                        When::IfChanged => When::IfChanged,
                        _ => When::Always,
                    };
                }
            },
            Hit::KeyUp { key_code, .. } => {
                if key_code == KeyCode::Escape {
                    reaction.commands.push(SessionCommand::Unfold);
                    reaction.redraw = When::Always;
                }
            },
            Hit::TextInput { is_empty } => {
                if !is_empty {
                    reaction.commands.push(SessionCommand::Insert);
                    reaction.redraw = When::Always;
                    reaction.text_did_change = When::Always;
                }
            },
            Hit::TextCopy => {
                reaction.commands.push(SessionCommand::Copy);
            },
            Hit::TextCut => {
                reaction.commands.push(SessionCommand::Copy);
                reaction.commands.push(SessionCommand::Delete);
                reaction.redraw = When::Always;
            },
            Hit::FingerDown { abs, modifiers } => {
                reaction.take_key_focus = true;
                if let Some((position, affinity)) = self.pick(session, abs) {
                    if modifiers.alt {
                        reaction.commands.push(SessionCommand::AddCursor { position, affinity });
                    } else {
                        reaction.commands.push(SessionCommand::SetCursor { position, affinity });
                    }
                    reaction.redraw = When::Always;
                }
            },
            Hit::FingerHoverIn => {
                reaction.mouse_cursor = Some(MouseCursor::Text);
            },
            Hit::FingerHoverOver => {
                reaction.mouse_cursor = Some(MouseCursor::Text);
            },
            Hit::FingerMove { abs } => {
                reaction.mouse_cursor = Some(MouseCursor::Text);
                if let Some((position, affinity)) = self.pick(session, abs) {
                    reaction.commands.push(SessionCommand::MoveTo { position, affinity });
                    reaction.redraw = When::Always;
                }
            },
            Hit::Nothing => {},
        }
        assert(reaction@.commands =~= self.spec_reaction(session, hit).commands);
        reaction
    }

    /// What the editor reports to its host about `hit`, once the commands of its reaction
    /// have been carried out. `changed` tells whether the last of them changed the document.
    pub fn handle_event(&self, session: &Session, hit: Hit, changed: bool) -> (actions: Vec<
        CodeEditorAction,
    >)
        requires
            self.wf(),
            session.wf(),
        ensures
            actions@ == (match self.spec_reaction(session, hit).text_did_change {
                When::Always => seq![CodeEditorAction::TextDidChange],
                When::IfChanged => if changed {
                    seq![CodeEditorAction::TextDidChange]
                } else {
                    Seq::empty()
                },
                When::Never => Seq::empty(),
            }),
    {
        let reaction = self.handle_event_with(session, hit);
        let mut actions: Vec<CodeEditorAction> = Vec::new();
        let report = match reaction.text_did_change {
            When::Always => true,
            When::IfChanged => changed,
            When::Never => false,
        };
        if report {
            actions.push(CodeEditorAction::TextDidChange);
        }
        actions
    }
}

} // verus!
