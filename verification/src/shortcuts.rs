//! Keyboard shortcut registry and documentation.
use vstd::prelude::*;

verus! {

/// A keyboard shortcut definition.
#[derive(Debug, Clone)]
pub struct Shortcut {
    pub key: &'static str,
    pub ctrl: bool,
    pub shift: bool,
    pub description: &'static str,
}

/// The display form of a shortcut: `Ctrl+` if it uses Ctrl, then `Shift+` if it
/// uses Shift, then the key.
pub open spec fn shortcut_label(key: Seq<char>, ctrl: bool, shift: bool) -> Seq<char> {
    (if ctrl {
        "Ctrl+"@
    } else {
        seq![]
    }) + (if shift {
        "Shift+"@
    } else {
        seq![]
    }) + key
}

impl Shortcut {
    /// Create a shortcut definition.
    pub fn new(key: &'static str, ctrl: bool, shift: bool, description: &'static str) -> (s: Self)
        ensures
            s.key == key,
            s.ctrl == ctrl,
            s.shift == shift,
            s.description == description,
    {
        Self { key, ctrl, shift, description }
    }

    /// Format the shortcut for display (e.g., "Ctrl+S").
    pub fn format(&self) -> (s: String)
        ensures
            s@ == shortcut_label(self.key@, self.ctrl, self.shift),
    {
        let mut out = String::new();
        if self.ctrl {
            out.append("Ctrl+");
        }
        if self.shift {
            out.append("Shift+");
        }
        out.append(self.key);
        proof {
            assert(out@ =~= shortcut_label(self.key@, self.ctrl, self.shift));
        }
        out
    }
}

/// What the contracts see of a shortcut: key, Ctrl, Shift and description.
pub open spec fn shortcut_entry(s: Shortcut) -> (Seq<char>, bool, bool, Seq<char>) {
    (s.key@, s.ctrl, s.shift, s.description@)
}

/// The registered shortcuts, in display order.
pub open spec fn shortcut_table() -> Seq<(Seq<char>, bool, bool, Seq<char>)> {
    seq![
        ("A"@, true, false, "Select all shapes"@),
        ("S"@, true, false, "Save Local"@),
        ("O"@, true, false, "Open..."@),
        ("E"@, true, false, "Export to PNG"@),
        ("E"@, true, true, "Copy selection as PNG"@),
        ("Z"@, true, false, "Undo"@),
        ("Z"@, true, true, "Redo"@),
        ("Y"@, true, false, "Redo"@),
        ("G"@, true, false, "Group selected shapes"@),
        ("G"@, true, true, "Ungroup selected shapes"@),
        ("C"@, true, true, "Copy selection as PNG"@),
        ("C"@, true, false, "Copy shapes"@),
        ("X"@, true, false, "Cut shapes"@),
        ("V"@, true, false, "Paste shapes or image"@),
        ("Delete"@, false, false, "Delete selected shapes"@),
        ("Backspace"@, false, false, "Delete selected shapes"@),
        ("Escape"@, false, false, "Cancel current action"@),
        ("Shift+Drag"@, false, false, "Maintain aspect ratio while resizing"@),
    ]
}

/// Registry of all keyboard shortcuts.
pub struct ShortcutRegistry;

impl ShortcutRegistry {
    /// Get all registered shortcuts.
    pub fn all() -> (v: Vec<Shortcut>)
        ensures
            v@.map_values(|s: Shortcut| shortcut_entry(s)) == shortcut_table(),
    {
        let v = vec![
            Shortcut::new("A", true, false, "Select all shapes"),
            Shortcut::new("S", true, false, "Save Local"),
            Shortcut::new("O", true, false, "Open..."),
            Shortcut::new("E", true, false, "Export to PNG"),
            Shortcut::new("E", true, true, "Copy selection as PNG"),
            Shortcut::new("Z", true, false, "Undo"),
            Shortcut::new("Z", true, true, "Redo"),
            Shortcut::new("Y", true, false, "Redo"),
            Shortcut::new("G", true, false, "Group selected shapes"),
            Shortcut::new("G", true, true, "Ungroup selected shapes"),
            Shortcut::new("C", true, true, "Copy selection as PNG"),
            Shortcut::new("C", true, false, "Copy shapes"),
            Shortcut::new("X", true, false, "Cut shapes"),
            Shortcut::new("V", true, false, "Paste shapes or image"),
            Shortcut::new("Delete", false, false, "Delete selected shapes"),
            Shortcut::new("Backspace", false, false, "Delete selected shapes"),
            Shortcut::new("Escape", false, false, "Cancel current action"),
            Shortcut::new("Shift+Drag", false, false, "Maintain aspect ratio while resizing"),
        ];
        proof {
            assert(v@.map_values(|s: Shortcut| shortcut_entry(s)) =~= shortcut_table());
        }
        v
    }
}

} // verus!
