//! Keyboard commands on the canvas: which command a key press asks for.
use vstd::prelude::*;
use crate::text_util::str_equals;

verus! {

/// The drawing tools.
#[derive(Debug, Clone, Copy, PartialEq, Eq, Hash, Structural)]
pub enum ToolKind {
    Select,
    Pan,
    Rectangle,
    Ellipse,
    Arrow,
    Line,
    Freehand,
    Highlighter,
    Eraser,
    LaserPointer,
    Text,
    Math,
}

/// What a key press on the canvas asks for.
#[derive(Debug, Clone, Copy, PartialEq, Eq, Structural)]
pub enum KeyCommand {
    SelectAll,
    Save,
    Open,
    ExportPng,
    CopyPng,
    Undo,
    Redo,
    Group,
    Ungroup,
    CopyShapes,
    CutShapes,
    Paste,
    Duplicate,
    SelectTool(ToolKind),
    DeleteSelected,
    /// Close open dialogs, or else cancel the tool and return to selection.
    Escape,
}

/// The character of a one-character key name.
pub open spec fn key_char(key: Seq<char>) -> Option<char> {
    if key.len() == 1 {
        Some(key[0])
    } else {
        None
    }
}

/// The command of a key pressed with Ctrl (or Cmd): select all, save, open,
/// export (copy as PNG with Shift), undo (redo with Shift), redo, group
/// (ungroup with Shift), copy (copy as PNG with Shift), cut, paste, duplicate.
pub open spec fn ctrl_command_of(c: char, shift: bool) -> Option<KeyCommand> {
    if c == 'a' || c == 'A' {
        Some(KeyCommand::SelectAll)
    } else if c == 's' || c == 'S' {
        Some(KeyCommand::Save)
    } else if c == 'o' || c == 'O' {
        Some(KeyCommand::Open)
    } else if c == 'e' || c == 'E' {
        Some(if shift { KeyCommand::CopyPng } else { KeyCommand::ExportPng })
    } else if c == 'z' || c == 'Z' {
        Some(if shift { KeyCommand::Redo } else { KeyCommand::Undo })
    } else if c == 'y' || c == 'Y' {
        Some(KeyCommand::Redo)
    } else if c == 'g' || c == 'G' {
        Some(if shift { KeyCommand::Ungroup } else { KeyCommand::Group })
    } else if c == 'c' || c == 'C' {
        Some(if shift { KeyCommand::CopyPng } else { KeyCommand::CopyShapes })
    } else if c == 'x' || c == 'X' {
        Some(KeyCommand::CutShapes)
    } else if c == 'v' || c == 'V' {
        Some(KeyCommand::Paste)
    } else if c == 'd' || c == 'D' {
        Some(KeyCommand::Duplicate)
    } else {
        None
    }
}

/// The tool a key character picks: its letter in either case, or its number,
/// as the toolbar lists them (see [`tool_table`]).
pub open spec fn tool_of_char(c: char) -> Option<ToolKind> {
    if c == 'v' || c == 'V' || c == '1' {
        Some(ToolKind::Select)
    } else if c == 'h' || c == 'H' {
        Some(ToolKind::Pan)
    } else if c == 'r' || c == 'R' || c == '2' {
        Some(ToolKind::Rectangle)
    } else if c == 'o' || c == 'O' || c == '4' {
        Some(ToolKind::Ellipse)
    } else if c == 'a' || c == 'A' || c == '5' {
        Some(ToolKind::Arrow)
    } else if c == 'l' || c == 'L' || c == '6' {
        Some(ToolKind::Line)
    } else if c == 'p' || c == 'P' || c == '7' {
        Some(ToolKind::Freehand)
    } else if c == 'g' || c == 'G' {
        Some(ToolKind::Highlighter)
    } else if c == 'e' || c == 'E' {
        Some(ToolKind::Eraser)
    } else if c == 't' || c == 'T' || c == '8' {
        Some(ToolKind::Text)
    } else if c == 'm' || c == 'M' || c == '9' {
        Some(ToolKind::Math)
    } else if c == 'z' || c == 'Z' {
        Some(ToolKind::LaserPointer)
    } else {
        None
    }
}

/// The command of a key pressed without Ctrl: a tool, deleting the
/// selection, or escape.
pub open spec fn plain_command(key: Seq<char>) -> Option<KeyCommand> {
    match key_char(key) {
        Some(c) => match tool_of_char(c) {
            Some(t) => Some(KeyCommand::SelectTool(t)),
            None => None,
        },
        None => if key == "Delete"@ || key == "Backspace"@ {
            Some(KeyCommand::DeleteSelected)
        } else if key == "Escape"@ {
            Some(KeyCommand::Escape)
        } else {
            None
        },
    }
}

/// The command a key press on the canvas asks for, if any.
pub open spec fn key_command_spec(key: Seq<char>, ctrl: bool, shift: bool) -> Option<KeyCommand> {
    if ctrl {
        match key_char(key) {
            Some(c) => ctrl_command_of(c, shift),
            None => None,
        }
    } else {
        plain_command(key)
    }
}

/// The command of Ctrl with a key character.
fn ctrl_command(c: char, shift: bool) -> (r: Option<KeyCommand>)
    ensures
        r == ctrl_command_of(c, shift),
{
    if c == 'a' || c == 'A' {
        Some(KeyCommand::SelectAll)
    } else if c == 's' || c == 'S' {
        Some(KeyCommand::Save)
    } else if c == 'o' || c == 'O' {
        Some(KeyCommand::Open)
    } else if c == 'e' || c == 'E' {
        Some(if shift { KeyCommand::CopyPng } else { KeyCommand::ExportPng })
    } else if c == 'z' || c == 'Z' {
        Some(if shift { KeyCommand::Redo } else { KeyCommand::Undo })
    } else if c == 'y' || c == 'Y' {
        Some(KeyCommand::Redo)
    } else if c == 'g' || c == 'G' {
        Some(if shift { KeyCommand::Ungroup } else { KeyCommand::Group })
    } else if c == 'c' || c == 'C' {
        Some(if shift { KeyCommand::CopyPng } else { KeyCommand::CopyShapes })
    } else if c == 'x' || c == 'X' {
        Some(KeyCommand::CutShapes)
    } else if c == 'v' || c == 'V' {
        Some(KeyCommand::Paste)
    } else if c == 'd' || c == 'D' {
        Some(KeyCommand::Duplicate)
    } else {
        None
    }
}

/// The tool a key character picks, if any.
fn tool_for_char(c: char) -> (t: Option<ToolKind>)
    ensures
        t == tool_of_char(c),
{
    if c == 'v' || c == 'V' || c == '1' {
        Some(ToolKind::Select)
    } else if c == 'h' || c == 'H' {
        Some(ToolKind::Pan)
    } else if c == 'r' || c == 'R' || c == '2' {
        Some(ToolKind::Rectangle)
    } else if c == 'o' || c == 'O' || c == '4' {
        Some(ToolKind::Ellipse)
    } else if c == 'a' || c == 'A' || c == '5' {
        Some(ToolKind::Arrow)
    } else if c == 'l' || c == 'L' || c == '6' {
        Some(ToolKind::Line)
    } else if c == 'p' || c == 'P' || c == '7' {
        Some(ToolKind::Freehand)
    } else if c == 'g' || c == 'G' {
        Some(ToolKind::Highlighter)
    } else if c == 'e' || c == 'E' {
        Some(ToolKind::Eraser)
    } else if c == 't' || c == 'T' || c == '8' {
        Some(ToolKind::Text)
    } else if c == 'm' || c == 'M' || c == '9' {
        Some(ToolKind::Math)
    } else if c == 'z' || c == 'Z' {
        Some(ToolKind::LaserPointer)
    } else {
        None
    }
}

/// The command a key press on the canvas asks for: `key` is the key's
/// character(s), or `Escape`, `Delete` or `Backspace`; `ctrl` and `shift` are
/// the modifiers held.
pub fn key_command(key: &str, ctrl: bool, shift: bool) -> (c: Option<KeyCommand>)
    ensures
        c == key_command_spec(key@, ctrl, shift),
{
    let single = if key.unicode_len() == 1 {
        Some(key.get_char(0))
    } else {
        None
    };
    if ctrl {
        match single {
            Some(ch) => ctrl_command(ch, shift),
            None => None,
        }
    } else {
        match single {
            Some(ch) => match tool_for_char(ch) {
                Some(t) => Some(KeyCommand::SelectTool(t)),
                None => None,
            },
            None => if str_equals(key, "Delete") || str_equals(key, "Backspace") {
                Some(KeyCommand::DeleteSelected)
            } else if str_equals(key, "Escape") {
                Some(KeyCommand::Escape)
            } else {
                None
            },
        }
    }
}

/// A tool as the toolbar shows it: its kind, label and shortcut keys.
#[derive(Debug, Clone, Copy, PartialEq, Eq)]
pub struct ToolInfo {
    pub kind: ToolKind,
    pub label: &'static str,
    pub shortcut: &'static str,
}

/// The toolbar's tools, in order, with their labels and shortcut keys.
pub open spec fn tool_table() -> Seq<(ToolKind, Seq<char>, Seq<char>)> {
    seq![
        (ToolKind::Select, "Select"@, "V / 1"@),
        (ToolKind::Pan, "Pan"@, "H"@),
        (ToolKind::Rectangle, "Rectangle"@, "R / 2"@),
        (ToolKind::Ellipse, "Ellipse"@, "O / 4"@),
        (ToolKind::Arrow, "Arrow"@, "A / 5"@),
        (ToolKind::Line, "Line"@, "L / 6"@),
        (ToolKind::Freehand, "Draw"@, "P / 7"@),
        (ToolKind::Highlighter, "Highlighter"@, "G"@),
        (ToolKind::Eraser, "Eraser"@, "E"@),
        (ToolKind::Text, "Text"@, "T / 8"@),
        (ToolKind::Math, "Math"@, "M / 9"@),
        (ToolKind::LaserPointer, "Laser"@, "Z"@),
    ]
}

/// A tool entry as plain values.
pub open spec fn tool_entry(t: ToolInfo) -> (ToolKind, Seq<char>, Seq<char>) {
    (t.kind, t.label@, t.shortcut@)
}

/// The toolbar's tools, in order, with their labels and shortcut keys.
pub fn tools() -> (v: Vec<ToolInfo>)
    ensures
        v@.map_values(|t: ToolInfo| tool_entry(t)) == tool_table(),
{
    let v = vec![
        ToolInfo { kind: ToolKind::Select, label: "Select", shortcut: "V / 1" },
        ToolInfo { kind: ToolKind::Pan, label: "Pan", shortcut: "H" },
        ToolInfo { kind: ToolKind::Rectangle, label: "Rectangle", shortcut: "R / 2" },
        ToolInfo { kind: ToolKind::Ellipse, label: "Ellipse", shortcut: "O / 4" },
        ToolInfo { kind: ToolKind::Arrow, label: "Arrow", shortcut: "A / 5" },
        ToolInfo { kind: ToolKind::Line, label: "Line", shortcut: "L / 6" },
        ToolInfo { kind: ToolKind::Freehand, label: "Draw", shortcut: "P / 7" },
        ToolInfo { kind: ToolKind::Highlighter, label: "Highlighter", shortcut: "G" },
        ToolInfo { kind: ToolKind::Eraser, label: "Eraser", shortcut: "E" },
        ToolInfo { kind: ToolKind::Text, label: "Text", shortcut: "T / 8" },
        ToolInfo { kind: ToolKind::Math, label: "Math", shortcut: "M / 9" },
        ToolInfo { kind: ToolKind::LaserPointer, label: "Laser", shortcut: "Z" },
    ];
    proof {
        assert(v@.map_values(|t: ToolInfo| tool_entry(t)) =~= tool_table());
    }
    v
}

/// Each tool of the toolbar is picked, without Ctrl, by the first key its
/// shortcut label names.
pub proof fn lemma_toolbar_shortcuts_pick_their_tools(i: int)
    requires
        0 <= i < tool_table().len(),
    ensures
        key_command_spec(tool_table()[i].2.take(1), false, false) == Some(
            KeyCommand::SelectTool(tool_table()[i].0),
        ),
{
    reveal_strlit("V / 1");
    reveal_strlit("H");
    reveal_strlit("R / 2");
    reveal_strlit("O / 4");
    reveal_strlit("A / 5");
    reveal_strlit("L / 6");
    reveal_strlit("P / 7");
    reveal_strlit("G");
    reveal_strlit("E");
    reveal_strlit("T / 8");
    reveal_strlit("M / 9");
    reveal_strlit("Z");
    let k = tool_table()[i].2.take(1);
    assert(k.len() == 1);
    assert(k[0] == tool_table()[i].2[0]);
}

/// The command a shortcut's description names, if it names one.
pub open spec fn described_command(description: Seq<char>) -> Option<KeyCommand> {
    if description == "Select all shapes"@ {
        Some(KeyCommand::SelectAll)
    } else if description == "Save Local"@ {
        Some(KeyCommand::Save)
    } else if description == "Open..."@ {
        Some(KeyCommand::Open)
    } else if description == "Export to PNG"@ {
        Some(KeyCommand::ExportPng)
    } else if description == "Copy selection as PNG"@ {
        Some(KeyCommand::CopyPng)
    } else if description == "Undo"@ {
        Some(KeyCommand::Undo)
    } else if description == "Redo"@ {
        Some(KeyCommand::Redo)
    } else if description == "Group selected shapes"@ {
        Some(KeyCommand::Group)
    } else if description == "Ungroup selected shapes"@ {
        Some(KeyCommand::Ungroup)
    } else if description == "Copy shapes"@ {
        Some(KeyCommand::CopyShapes)
    } else if description == "Cut shapes"@ {
        Some(KeyCommand::CutShapes)
    } else if description == "Paste shapes or image"@ {
        Some(KeyCommand::Paste)
    } else if description == "Delete selected shapes"@ {
        Some(KeyCommand::DeleteSelected)
    } else if description == "Cancel current action"@ {
        Some(KeyCommand::Escape)
    } else {
        None
    }
}

/// Each documented keyboard shortcut asks for the command its description
/// names (the Shift+Drag gesture, which is no key press, for none).
pub proof fn lemma_documented_shortcuts_do_what_they_say(i: int)
    requires
        0 <= i < crate::shortcuts::shortcut_table().len(),
    ensures
        ({
            let (key, ctrl, shift, description) = crate::shortcuts::shortcut_table()[i];
            key_command_spec(key, ctrl, shift) == described_command(description)
        }),
{
    reveal_strlit("A");
    reveal_strlit("S");
    reveal_strlit("O");
    reveal_strlit("E");
    reveal_strlit("Z");
    reveal_strlit("Y");
    reveal_strlit("G");
    reveal_strlit("C");
    reveal_strlit("X");
    reveal_strlit("V");
    reveal_strlit("Delete");
    reveal_strlit("Backspace");
    reveal_strlit("Escape");
    reveal_strlit("Shift+Drag");
    reveal_strlit("Select all shapes");
    reveal_strlit("Save Local");
    reveal_strlit("Open...");
    reveal_strlit("Export to PNG");
    reveal_strlit("Copy selection as PNG");
    reveal_strlit("Undo");
    reveal_strlit("Redo");
    reveal_strlit("Group selected shapes");
    reveal_strlit("Ungroup selected shapes");
    reveal_strlit("Copy shapes");
    reveal_strlit("Cut shapes");
    reveal_strlit("Paste shapes or image");
    reveal_strlit("Delete selected shapes");
    reveal_strlit("Cancel current action");
    reveal_strlit("Maintain aspect ratio while resizing");
    if i == 0 {
        assert(described_command("Select all shapes"@) == Some(KeyCommand::SelectAll));
        assert(key_command_spec("A"@, true, false) == Some(KeyCommand::SelectAll));
    } else if i == 1 {
        assert("Save Local"@.len() != "Select all shapes"@.len());
        assert("Save Local"@ != "Select all shapes"@);
        assert(described_command("Save Local"@) == Some(KeyCommand::Save));
        assert(key_command_spec("S"@, true, false) == Some(KeyCommand::Save));
    } else if i == 2 {
        assert("Open..."@.len() != "Select all shapes"@.len());
        assert("Open..."@ != "Select all shapes"@);
        assert("Open..."@.len() != "Save Local"@.len());
        assert("Open..."@ != "Save Local"@);
        assert(described_command("Open..."@) == Some(KeyCommand::Open));
        assert(key_command_spec("O"@, true, false) == Some(KeyCommand::Open));
    } else if i == 3 {
        assert("Export to PNG"@.len() != "Select all shapes"@.len());
        assert("Export to PNG"@ != "Select all shapes"@);
        assert("Export to PNG"@.len() != "Save Local"@.len());
        assert("Export to PNG"@ != "Save Local"@);
        assert("Export to PNG"@.len() != "Open..."@.len());
        assert("Export to PNG"@ != "Open..."@);
        assert(described_command("Export to PNG"@) == Some(KeyCommand::ExportPng));
        assert(key_command_spec("E"@, true, false) == Some(KeyCommand::ExportPng));
    } else if i == 4 {
        assert("Copy selection as PNG"@.len() != "Select all shapes"@.len());
        assert("Copy selection as PNG"@ != "Select all shapes"@);
        assert("Copy selection as PNG"@.len() != "Save Local"@.len());
        assert("Copy selection as PNG"@ != "Save Local"@);
        assert("Copy selection as PNG"@.len() != "Open..."@.len());
        assert("Copy selection as PNG"@ != "Open..."@);
        assert("Copy selection as PNG"@.len() != "Export to PNG"@.len());
        assert("Copy selection as PNG"@ != "Export to PNG"@);
        assert(described_command("Copy selection as PNG"@) == Some(KeyCommand::CopyPng));
        assert(key_command_spec("E"@, true, true) == Some(KeyCommand::CopyPng));
    } else if i == 5 {
        assert("Undo"@.len() != "Select all shapes"@.len());
        assert("Undo"@ != "Select all shapes"@);
        assert("Undo"@.len() != "Save Local"@.len());
        assert("Undo"@ != "Save Local"@);
        assert("Undo"@.len() != "Open..."@.len());
        assert("Undo"@ != "Open..."@);
        assert("Undo"@.len() != "Export to PNG"@.len());
        assert("Undo"@ != "Export to PNG"@);
        assert("Undo"@.len() != "Copy selection as PNG"@.len());
        assert("Undo"@ != "Copy selection as PNG"@);
        assert(described_command("Undo"@) == Some(KeyCommand::Undo));
        assert(key_command_spec("Z"@, true, false) == Some(KeyCommand::Undo));
    } else if i == 6 {
        assert("Redo"@.len() != "Select all shapes"@.len());
        assert("Redo"@ != "Select all shapes"@);
        assert("Redo"@.len() != "Save Local"@.len());
        assert("Redo"@ != "Save Local"@);
        assert("Redo"@.len() != "Open..."@.len());
        assert("Redo"@ != "Open..."@);
        assert("Redo"@.len() != "Export to PNG"@.len());
        assert("Redo"@ != "Export to PNG"@);
        assert("Redo"@.len() != "Copy selection as PNG"@.len());
        assert("Redo"@ != "Copy selection as PNG"@);
        assert("Redo"@[0] != "Undo"@[0]);
        assert("Redo"@ != "Undo"@);
        assert(described_command("Redo"@) == Some(KeyCommand::Redo));
        assert(key_command_spec("Z"@, true, true) == Some(KeyCommand::Redo));
    } else if i == 7 {
        assert("Redo"@.len() != "Select all shapes"@.len());
        assert("Redo"@ != "Select all shapes"@);
        assert("Redo"@.len() != "Save Local"@.len());
        assert("Redo"@ != "Save Local"@);
        assert("Redo"@.len() != "Open..."@.len());
        assert("Redo"@ != "Open..."@);
        assert("Redo"@.len() != "Export to PNG"@.len());
        assert("Redo"@ != "Export to PNG"@);
        assert("Redo"@.len() != "Copy selection as PNG"@.len());
        assert("Redo"@ != "Copy selection as PNG"@);
        assert("Redo"@[0] != "Undo"@[0]);
        assert("Redo"@ != "Undo"@);
        assert(described_command("Redo"@) == Some(KeyCommand::Redo));
        assert(key_command_spec("Y"@, true, false) == Some(KeyCommand::Redo));
    } else if i == 8 {
        assert("Group selected shapes"@.len() != "Select all shapes"@.len());
        assert("Group selected shapes"@ != "Select all shapes"@);
        assert("Group selected shapes"@.len() != "Save Local"@.len());
        assert("Group selected shapes"@ != "Save Local"@);
        assert("Group selected shapes"@.len() != "Open..."@.len());
        assert("Group selected shapes"@ != "Open..."@);
        assert("Group selected shapes"@.len() != "Export to PNG"@.len());
        assert("Group selected shapes"@ != "Export to PNG"@);
        assert("Group selected shapes"@[0] != "Copy selection as PNG"@[0]);
        assert("Group selected shapes"@ != "Copy selection as PNG"@);
        assert("Group selected shapes"@.len() != "Undo"@.len());
        assert("Group selected shapes"@ != "Undo"@);
        assert("Group selected shapes"@.len() != "Redo"@.len());
        assert("Group selected shapes"@ != "Redo"@);
        assert(described_command("Group selected shapes"@) == Some(KeyCommand::Group));
        assert(key_command_spec("G"@, true, false) == Some(KeyCommand::Group));
    } else if i == 9 {
        assert("Ungroup selected shapes"@.len() != "Select all shapes"@.len());
        assert("Ungroup selected shapes"@ != "Select all shapes"@);
        assert("Ungroup selected shapes"@.len() != "Save Local"@.len());
        assert("Ungroup selected shapes"@ != "Save Local"@);
        assert("Ungroup selected shapes"@.len() != "Open..."@.len());
        assert("Ungroup selected shapes"@ != "Open..."@);
        assert("Ungroup selected shapes"@.len() != "Export to PNG"@.len());
        assert("Ungroup selected shapes"@ != "Export to PNG"@);
        assert("Ungroup selected shapes"@.len() != "Copy selection as PNG"@.len());
        assert("Ungroup selected shapes"@ != "Copy selection as PNG"@);
        assert("Ungroup selected shapes"@.len() != "Undo"@.len());
        assert("Ungroup selected shapes"@ != "Undo"@);
        assert("Ungroup selected shapes"@.len() != "Redo"@.len());
        assert("Ungroup selected shapes"@ != "Redo"@);
        assert("Ungroup selected shapes"@.len() != "Group selected shapes"@.len());
        assert("Ungroup selected shapes"@ != "Group selected shapes"@);
        assert(described_command("Ungroup selected shapes"@) == Some(KeyCommand::Ungroup));
        assert(key_command_spec("G"@, true, true) == Some(KeyCommand::Ungroup));
    } else if i == 10 {
        assert("Copy selection as PNG"@.len() != "Select all shapes"@.len());
        assert("Copy selection as PNG"@ != "Select all shapes"@);
        assert("Copy selection as PNG"@.len() != "Save Local"@.len());
        assert("Copy selection as PNG"@ != "Save Local"@);
        assert("Copy selection as PNG"@.len() != "Open..."@.len());
        assert("Copy selection as PNG"@ != "Open..."@);
        assert("Copy selection as PNG"@.len() != "Export to PNG"@.len());
        assert("Copy selection as PNG"@ != "Export to PNG"@);
        assert(described_command("Copy selection as PNG"@) == Some(KeyCommand::CopyPng));
        assert(key_command_spec("C"@, true, true) == Some(KeyCommand::CopyPng));
    } else if i == 11 {
        assert("Copy shapes"@.len() != "Select all shapes"@.len());
        assert("Copy shapes"@ != "Select all shapes"@);
        assert("Copy shapes"@.len() != "Save Local"@.len());
        assert("Copy shapes"@ != "Save Local"@);
        assert("Copy shapes"@.len() != "Open..."@.len());
        assert("Copy shapes"@ != "Open..."@);
        assert("Copy shapes"@.len() != "Export to PNG"@.len());
        assert("Copy shapes"@ != "Export to PNG"@);
        assert("Copy shapes"@.len() != "Copy selection as PNG"@.len());
        assert("Copy shapes"@ != "Copy selection as PNG"@);
        assert("Copy shapes"@.len() != "Undo"@.len());
        assert("Copy shapes"@ != "Undo"@);
        assert("Copy shapes"@.len() != "Redo"@.len());
        assert("Copy shapes"@ != "Redo"@);
        assert("Copy shapes"@.len() != "Group selected shapes"@.len());
        assert("Copy shapes"@ != "Group selected shapes"@);
        assert("Copy shapes"@.len() != "Ungroup selected shapes"@.len());
        assert("Copy shapes"@ != "Ungroup selected shapes"@);
        assert(described_command("Copy shapes"@) == Some(KeyCommand::CopyShapes));
        assert(key_command_spec("C"@, true, false) == Some(KeyCommand::CopyShapes));
    } else if i == 12 {
        assert("Cut shapes"@.len() != "Select all shapes"@.len());
        assert("Cut shapes"@ != "Select all shapes"@);
        assert("Cut shapes"@[0] != "Save Local"@[0]);
        assert("Cut shapes"@ != "Save Local"@);
        assert("Cut shapes"@.len() != "Open..."@.len());
        assert("Cut shapes"@ != "Open..."@);
        assert("Cut shapes"@.len() != "Export to PNG"@.len());
        assert("Cut shapes"@ != "Export to PNG"@);
        assert("Cut shapes"@.len() != "Copy selection as PNG"@.len());
        assert("Cut shapes"@ != "Copy selection as PNG"@);
        assert("Cut shapes"@.len() != "Undo"@.len());
        assert("Cut shapes"@ != "Undo"@);
        assert("Cut shapes"@.len() != "Redo"@.len());
        assert("Cut shapes"@ != "Redo"@);
        assert("Cut shapes"@.len() != "Group selected shapes"@.len());
        assert("Cut shapes"@ != "Group selected shapes"@);
        assert("Cut shapes"@.len() != "Ungroup selected shapes"@.len());
        assert("Cut shapes"@ != "Ungroup selected shapes"@);
        assert("Cut shapes"@.len() != "Copy shapes"@.len());
        assert("Cut shapes"@ != "Copy shapes"@);
        assert(described_command("Cut shapes"@) == Some(KeyCommand::CutShapes));
        assert(key_command_spec("X"@, true, false) == Some(KeyCommand::CutShapes));
    } else if i == 13 {
        assert("Paste shapes or image"@.len() != "Select all shapes"@.len());
        assert("Paste shapes or image"@ != "Select all shapes"@);
        assert("Paste shapes or image"@.len() != "Save Local"@.len());
        assert("Paste shapes or image"@ != "Save Local"@);
        assert("Paste shapes or image"@.len() != "Open..."@.len());
        assert("Paste shapes or image"@ != "Open..."@);
        assert("Paste shapes or image"@.len() != "Export to PNG"@.len());
        assert("Paste shapes or image"@ != "Export to PNG"@);
        assert("Paste shapes or image"@[0] != "Copy selection as PNG"@[0]);
        assert("Paste shapes or image"@ != "Copy selection as PNG"@);
        assert("Paste shapes or image"@.len() != "Undo"@.len());
        assert("Paste shapes or image"@ != "Undo"@);
        assert("Paste shapes or image"@.len() != "Redo"@.len());
        assert("Paste shapes or image"@ != "Redo"@);
        assert("Paste shapes or image"@[0] != "Group selected shapes"@[0]);
        assert("Paste shapes or image"@ != "Group selected shapes"@);
        assert("Paste shapes or image"@.len() != "Ungroup selected shapes"@.len());
        assert("Paste shapes or image"@ != "Ungroup selected shapes"@);
        assert("Paste shapes or image"@.len() != "Copy shapes"@.len());
        assert("Paste shapes or image"@ != "Copy shapes"@);
        assert("Paste shapes or image"@.len() != "Cut shapes"@.len());
        assert("Paste shapes or image"@ != "Cut shapes"@);
        assert(described_command("Paste shapes or image"@) == Some(KeyCommand::Paste));
        assert(key_command_spec("V"@, true, false) == Some(KeyCommand::Paste));
    } else if i == 14 {
        assert("Delete selected shapes"@.len() != "Select all shapes"@.len());
        assert("Delete selected shapes"@ != "Select all shapes"@);
        assert("Delete selected shapes"@.len() != "Save Local"@.len());
        assert("Delete selected shapes"@ != "Save Local"@);
        assert("Delete selected shapes"@.len() != "Open..."@.len());
        assert("Delete selected shapes"@ != "Open..."@);
        assert("Delete selected shapes"@.len() != "Export to PNG"@.len());
        assert("Delete selected shapes"@ != "Export to PNG"@);
        assert("Delete selected shapes"@.len() != "Copy selection as PNG"@.len());
        assert("Delete selected shapes"@ != "Copy selection as PNG"@);
        assert("Delete selected shapes"@.len() != "Undo"@.len());
        assert("Delete selected shapes"@ != "Undo"@);
        assert("Delete selected shapes"@.len() != "Redo"@.len());
        assert("Delete selected shapes"@ != "Redo"@);
        assert("Delete selected shapes"@.len() != "Group selected shapes"@.len());
        assert("Delete selected shapes"@ != "Group selected shapes"@);
        assert("Delete selected shapes"@.len() != "Ungroup selected shapes"@.len());
        assert("Delete selected shapes"@ != "Ungroup selected shapes"@);
        assert("Delete selected shapes"@.len() != "Copy shapes"@.len());
        assert("Delete selected shapes"@ != "Copy shapes"@);
        assert("Delete selected shapes"@.len() != "Cut shapes"@.len());
        assert("Delete selected shapes"@ != "Cut shapes"@);
        assert("Delete selected shapes"@.len() != "Paste shapes or image"@.len());
        assert("Delete selected shapes"@ != "Paste shapes or image"@);
        assert(described_command("Delete selected shapes"@) == Some(KeyCommand::DeleteSelected));
        assert(key_command_spec("Delete"@, false, false) == Some(KeyCommand::DeleteSelected));
    } else if i == 15 {
        assert("Delete selected shapes"@.len() != "Select all shapes"@.len());
        assert("Delete selected shapes"@ != "Select all shapes"@);
        assert("Delete selected shapes"@.len() != "Save Local"@.len());
        assert("Delete selected shapes"@ != "Save Local"@);
        assert("Delete selected shapes"@.len() != "Open..."@.len());
        assert("Delete selected shapes"@ != "Open..."@);
        assert("Delete selected shapes"@.len() != "Export to PNG"@.len());
        assert("Delete selected shapes"@ != "Export to PNG"@);
        assert("Delete selected shapes"@.len() != "Copy selection as PNG"@.len());
        assert("Delete selected shapes"@ != "Copy selection as PNG"@);
        assert("Delete selected shapes"@.len() != "Undo"@.len());
        assert("Delete selected shapes"@ != "Undo"@);
        assert("Delete selected shapes"@.len() != "Redo"@.len());
        assert("Delete selected shapes"@ != "Redo"@);
        assert("Delete selected shapes"@.len() != "Group selected shapes"@.len());
        assert("Delete selected shapes"@ != "Group selected shapes"@);
        assert("Delete selected shapes"@.len() != "Ungroup selected shapes"@.len());
        assert("Delete selected shapes"@ != "Ungroup selected shapes"@);
        assert("Delete selected shapes"@.len() != "Copy shapes"@.len());
        assert("Delete selected shapes"@ != "Copy shapes"@);
        assert("Delete selected shapes"@.len() != "Cut shapes"@.len());
        assert("Delete selected shapes"@ != "Cut shapes"@);
        assert("Delete selected shapes"@.len() != "Paste shapes or image"@.len());
        assert("Delete selected shapes"@ != "Paste shapes or image"@);
        assert(described_command("Delete selected shapes"@) == Some(KeyCommand::DeleteSelected));
        assert(key_command_spec("Backspace"@, false, false) == Some(KeyCommand::DeleteSelected));
    } else if i == 16 {
        assert("Cancel current action"@.len() != "Select all shapes"@.len());
        assert("Cancel current action"@ != "Select all shapes"@);
        assert("Cancel current action"@.len() != "Save Local"@.len());
        assert("Cancel current action"@ != "Save Local"@);
        assert("Cancel current action"@.len() != "Open..."@.len());
        assert("Cancel current action"@ != "Open..."@);
        assert("Cancel current action"@.len() != "Export to PNG"@.len());
        assert("Cancel current action"@ != "Export to PNG"@);
        assert("Cancel current action"@[1] != "Copy selection as PNG"@[1]);
        assert("Cancel current action"@ != "Copy selection as PNG"@);
        assert("Cancel current action"@.len() != "Undo"@.len());
        assert("Cancel current action"@ != "Undo"@);
        assert("Cancel current action"@.len() != "Redo"@.len());
        assert("Cancel current action"@ != "Redo"@);
        assert("Cancel current action"@[0] != "Group selected shapes"@[0]);
        assert("Cancel current action"@ != "Group selected shapes"@);
        assert("Cancel current action"@.len() != "Ungroup selected shapes"@.len());
        assert("Cancel current action"@ != "Ungroup selected shapes"@);
        assert("Cancel current action"@.len() != "Copy shapes"@.len());
        assert("Cancel current action"@ != "Copy shapes"@);
        assert("Cancel current action"@.len() != "Cut shapes"@.len());
        assert("Cancel current action"@ != "Cut shapes"@);
        assert("Cancel current action"@[0] != "Paste shapes or image"@[0]);
        assert("Cancel current action"@ != "Paste shapes or image"@);
        assert("Cancel current action"@.len() != "Delete selected shapes"@.len());
        assert("Cancel current action"@ != "Delete selected shapes"@);
        assert(described_command("Cancel current action"@) == Some(KeyCommand::Escape));
        assert("Escape"@[0] != "Delete"@[0]);
        assert("Escape"@ != "Delete"@);
        assert("Escape"@.len() != "Backspace"@.len());
        assert(key_command_spec("Escape"@, false, false) == Some(KeyCommand::Escape));
    } else if i == 17 {
        assert("Maintain aspect ratio while resizing"@.len() != "Select all shapes"@.len());
        assert("Maintain aspect ratio while resizing"@ != "Select all shapes"@);
        assert("Maintain aspect ratio while resizing"@.len() != "Save Local"@.len());
        assert("Maintain aspect ratio while resizing"@ != "Save Local"@);
        assert("Maintain aspect ratio while resizing"@.len() != "Open..."@.len());
        assert("Maintain aspect ratio while resizing"@ != "Open..."@);
        assert("Maintain aspect ratio while resizing"@.len() != "Export to PNG"@.len());
        assert("Maintain aspect ratio while resizing"@ != "Export to PNG"@);
        assert("Maintain aspect ratio while resizing"@.len() != "Copy selection as PNG"@.len());
        assert("Maintain aspect ratio while resizing"@ != "Copy selection as PNG"@);
        assert("Maintain aspect ratio while resizing"@.len() != "Undo"@.len());
        assert("Maintain aspect ratio while resizing"@ != "Undo"@);
        assert("Maintain aspect ratio while resizing"@.len() != "Redo"@.len());
        assert("Maintain aspect ratio while resizing"@ != "Redo"@);
        assert("Maintain aspect ratio while resizing"@.len() != "Group selected shapes"@.len());
        assert("Maintain aspect ratio while resizing"@ != "Group selected shapes"@);
        assert("Maintain aspect ratio while resizing"@.len() != "Ungroup selected shapes"@.len());
        assert("Maintain aspect ratio while resizing"@ != "Ungroup selected shapes"@);
        assert("Maintain aspect ratio while resizing"@.len() != "Copy shapes"@.len());
        assert("Maintain aspect ratio while resizing"@ != "Copy shapes"@);
        assert("Maintain aspect ratio while resizing"@.len() != "Cut shapes"@.len());
        assert("Maintain aspect ratio while resizing"@ != "Cut shapes"@);
        assert("Maintain aspect ratio while resizing"@.len() != "Paste shapes or image"@.len());
        assert("Maintain aspect ratio while resizing"@ != "Paste shapes or image"@);
        assert("Maintain aspect ratio while resizing"@.len() != "Delete selected shapes"@.len());
        assert("Maintain aspect ratio while resizing"@ != "Delete selected shapes"@);
        assert("Maintain aspect ratio while resizing"@.len() != "Cancel current action"@.len());
        assert("Maintain aspect ratio while resizing"@ != "Cancel current action"@);
        assert(described_command("Maintain aspect ratio while resizing"@) == None::<KeyCommand>);
        assert(key_command_spec("Shift+Drag"@, false, false) == None::<KeyCommand>);
    }
}

/// Each documented keyboard shortcut that is a key press (all but the
/// Shift+Drag gesture) asks for a command.
pub proof fn lemma_documented_shortcuts_have_commands(i: int)
    requires
        0 <= i < crate::shortcuts::shortcut_table().len(),
        crate::shortcuts::shortcut_table()[i].0 != "Shift+Drag"@,
    ensures
        ({
            let (key, ctrl, shift, _) = crate::shortcuts::shortcut_table()[i];
            key_command_spec(key, ctrl, shift) is Some
        }),
{
    reveal_strlit("A");
    reveal_strlit("S");
    reveal_strlit("O");
    reveal_strlit("E");
    reveal_strlit("Z");
    reveal_strlit("Y");
    reveal_strlit("G");
    reveal_strlit("C");
    reveal_strlit("X");
    reveal_strlit("V");
    reveal_strlit("Delete");
    reveal_strlit("Backspace");
    reveal_strlit("Escape");
}

} // verus!
