//! What pointer presses and releases on the canvas do: which interaction a
//! press starts and how the selection changes, and what a release commits.
//! The caller finds, with its floating-point hit tests, what lies under the
//! pointer ([`PressFacts`]) and how far it moved; this module decides.
use vstd::prelude::*;
use crate::canvas::{Canvas, DocState, append_new, lemma_append_new_one, push_undo_spec, with_content};
use crate::shapes::Shape;
use crate::keys::ToolKind;
use crate::selection::HandleKind;
use crate::shapes::ShapeId;
use crate::zorder::{remove_all, vec_without};

verus! {

/// The kind of the topmost shape under the pointer, as far as a press cares.
#[derive(Debug, Clone, Copy, PartialEq, Eq, Structural)]
pub enum HitShape {
    /// A text shape.
    Text,
    /// A math (LaTeX) shape.
    Math,
    /// Any other shape.
    Other,
}

/// What lies under the pointer when it is pressed, and the state of the
/// keyboard and of text editing.
#[derive(Debug, Clone, Copy)]
pub struct PressFacts {
    /// The current tool.
    pub tool: ToolKind,
    /// The text being edited, if any.
    pub editing_text: Option<ShapeId>,
    /// The topmost shape under the pointer and its kind.
    pub top_hit: Option<(ShapeId, HitShape)>,
    /// The first selected shape (in selection order) one of whose handles is
    /// under the pointer, with that handle.
    pub selected_handle: Option<(ShapeId, HandleKind)>,
    /// A selected shape whose rotation handle is under the pointer.
    pub rotation_handle: Option<ShapeId>,
    /// With the text tool: the handle of the text under the pointer that is
    /// under the pointer.
    pub text_handle: Option<HandleKind>,
    /// With the text tool: whether the pointer is on the boundary of the text
    /// under it.
    pub text_boundary: bool,
    /// Whether the press completes a double click.
    pub double_click: bool,
    /// Whether Shift is held.
    pub shift: bool,
    /// Whether Alt (Option) is held.
    pub alt: bool,
}

/// The interaction a press starts.
#[derive(Debug, Clone, Copy, PartialEq, Eq, Structural)]
pub enum PressAction {
    /// The press is on the text being edited: editing goes on.
    KeepEditing,
    /// Drag a handle of a shape (resize, move an endpoint).
    Manipulate { shape: ShapeId, handle: HandleKind },
    /// Move the selected shapes; with `duplicate`, copies of them.
    Move { duplicate: bool },
    /// Edit a text.
    EditText(ShapeId),
    /// Open the editor of a math shape.
    EditMath(ShapeId),
    /// Reset the rotation of a shape to zero (recorded for undo).
    ResetRotation(ShapeId),
    /// Start a selection rectangle.
    SelectionRect,
    /// Nothing more (a selection toggle, panning, or a text made on release).
    Nothing,
    /// Start a freehand or highlighter stroke.
    BeginStroke,
    /// Start an eraser stroke.
    BeginErase,
    /// Move the laser pointer.
    Laser,
    /// Start a line or an arrow (its start may snap to the grid).
    BeginLine,
    /// Start drawing a shape (its start may snap to the grid).
    BeginShape,
}

/// What a press does: whether text editing ends first (a blank text is then
/// removed by the caller) and the interaction it starts.
#[derive(Debug, Clone, Copy, PartialEq, Eq, Structural)]
pub struct PressOutcome {
    pub exit_text_edit: bool,
    pub action: PressAction,
}

/// Whether the press ends text editing: something is edited and the press is
/// not on it.
pub open spec fn ends_editing(f: PressFacts) -> bool {
    f.editing_text is Some && !(f.top_hit matches Some((id, _)) && f.editing_text == Some(id))
}

/// The selection after a press and the interaction it starts, once text
/// editing is out of the way.
pub open spec fn tool_press(sel: Seq<ShapeId>, f: PressFacts) -> (Seq<ShapeId>, PressAction) {
    match f.tool {
        ToolKind::Text => match f.top_hit {
            Some((id, HitShape::Text)) => match f.text_handle {
                Some(h) => (seq![id], PressAction::Manipulate { shape: id, handle: h }),
                None => if f.text_boundary {
                    (seq![id], PressAction::Move { duplicate: false })
                } else {
                    (seq![id], PressAction::EditText(id))
                },
            },
            _ => (sel, PressAction::Nothing),
        },
        ToolKind::Select => select_tool_press(sel, f),
        ToolKind::Pan => (sel, PressAction::Nothing),
        ToolKind::Freehand | ToolKind::Highlighter => (sel, PressAction::BeginStroke),
        ToolKind::Eraser => (sel, PressAction::BeginErase),
        ToolKind::LaserPointer => (sel, PressAction::Laser),
        ToolKind::Line | ToolKind::Arrow => (sel, PressAction::BeginLine),
        _ => (sel, PressAction::BeginShape),
    }
}

/// A double click with the selection tool: on a text or math shape it opens
/// its editor; on a rotation handle it resets the rotation.
pub open spec fn double_click_press(sel: Seq<ShapeId>, f: PressFacts) -> Option<(Seq<ShapeId>, PressAction)> {
    if !f.double_click {
        None
    } else {
        match f.top_hit {
            Some((id, HitShape::Text)) => Some((seq![id], PressAction::EditText(id))),
            Some((id, HitShape::Math)) => Some((seq![id], PressAction::EditMath(id))),
            _ => match f.rotation_handle {
                Some(id) => Some((sel, PressAction::ResetRotation(id))),
                None => None,
            },
        }
    }
}

/// A press with the selection tool: a double click first; then a handle of a
/// selected shape; then a shape (Shift toggles it in the selection, otherwise
/// it is selected unless it already is, and the selection moves, copied with
/// Alt); else empty space starts a selection rectangle (clearing the
/// selection unless Shift is held).
pub open spec fn select_tool_press(sel: Seq<ShapeId>, f: PressFacts) -> (Seq<ShapeId>, PressAction) {
    match double_click_press(sel, f) {
        Some(r) => r,
        None => match f.selected_handle {
            Some((id, h)) => (sel, PressAction::Manipulate { shape: id, handle: h }),
            None => match f.top_hit {
                Some((id, _)) => if f.shift {
                    if sel.contains(id) {
                        (remove_all(sel, id), PressAction::Nothing)
                    } else {
                        (append_new(sel, seq![id]), PressAction::Nothing)
                    }
                } else if sel.contains(id) {
                    (sel, PressAction::Move { duplicate: f.alt })
                } else {
                    (seq![id], PressAction::Move { duplicate: f.alt })
                },
                None => if f.shift {
                    (sel, PressAction::SelectionRect)
                } else {
                    (Seq::empty(), PressAction::SelectionRect)
                },
            },
        },
    }
}

/// The selection after a press and what the press does.
pub open spec fn press_result(sel: Seq<ShapeId>, f: PressFacts) -> (Seq<ShapeId>, PressOutcome) {
    if f.editing_text is Some && !ends_editing(f) {
        (sel, PressOutcome { exit_text_edit: false, action: PressAction::KeepEditing })
    } else {
        let (s, a) = tool_press(sel, f);
        (s, PressOutcome { exit_text_edit: ends_editing(f), action: a })
    }
}

/// A plain press with the selection tool on a shape (no Shift, no double
/// click, no handle of a selected shape under the pointer) leaves a selection
/// that already holds the shape as it is, so that all selected shapes move
/// together; otherwise the shape alone becomes the selection. Unless the press
/// is on the text being edited, it starts moving the selection (copies of it
/// with Alt).
pub proof fn lemma_press_on_shape_moves_selection(sel: Seq<ShapeId>, f: PressFacts, id: ShapeId)
    requires
        f.tool == ToolKind::Select,
        !f.shift,
        !f.double_click,
        f.selected_handle is None,
        f.top_hit matches Some((h, _)) && h == id,
    ensures
        sel.contains(id) ==> press_result(sel, f).0 == sel,
        f.editing_text != Some(id) ==> {
            &&& press_result(sel, f).0 == if sel.contains(id) {
                sel
            } else {
                seq![id]
            }
            &&& press_result(sel, f).0.contains(id)
            &&& press_result(sel, f).1.action == PressAction::Move { duplicate: f.alt }
        },
{
    if !sel.contains(id) {
        assert(seq![id][0] == id);
    }
}

/// Handle a pointer press: update the selection and say which interaction
/// starts. The document is not changed (the caller ends text editing,
/// duplicates shapes for an Alt-move and resets rotations as told).
pub fn press<P>(canvas: &mut Canvas<P>, f: PressFacts) -> (o: PressOutcome)
    ensures
        final(canvas).document == old(canvas).document,
        (final(canvas).selection@, o) == press_result(old(canvas).selection@, f),
{
    let on_edited = match (f.editing_text, f.top_hit) {
        (Some(e), Some((id, _))) => e == id,
        _ => false,
    };
    if f.editing_text.is_some() && on_edited {
        return PressOutcome { exit_text_edit: false, action: PressAction::KeepEditing };
    }
    let exit = f.editing_text.is_some();
    let action = match f.tool {
        ToolKind::Text => match f.top_hit {
            Some((id, HitShape::Text)) => {
                canvas.select(id);
                match f.text_handle {
                    Some(h) => PressAction::Manipulate { shape: id, handle: h },
                    None => if f.text_boundary {
                        PressAction::Move { duplicate: false }
                    } else {
                        PressAction::EditText(id)
                    },
                }
            },
            _ => PressAction::Nothing,
        },
        ToolKind::Select => select_press(canvas, f),
        ToolKind::Pan => PressAction::Nothing,
        ToolKind::Freehand | ToolKind::Highlighter => PressAction::BeginStroke,
        ToolKind::Eraser => PressAction::BeginErase,
        ToolKind::LaserPointer => PressAction::Laser,
        ToolKind::Line | ToolKind::Arrow => PressAction::BeginLine,
        _ => PressAction::BeginShape,
    };
    PressOutcome { exit_text_edit: exit, action }
}

/// A press with the selection tool.
fn select_press<P>(canvas: &mut Canvas<P>, f: PressFacts) -> (a: PressAction)
    requires
        f.tool == ToolKind::Select,
    ensures
        final(canvas).document == old(canvas).document,
        (final(canvas).selection@, a) == tool_press(old(canvas).selection@, f),
{
    if f.double_click {
        match f.top_hit {
            Some((id, HitShape::Text)) => {
                canvas.select(id);
                return PressAction::EditText(id);
            },
            Some((id, HitShape::Math)) => {
                canvas.select(id);
                return PressAction::EditMath(id);
            },
            _ => {},
        }
        match f.rotation_handle {
            Some(id) => {
                return PressAction::ResetRotation(id);
            },
            None => {},
        }
    }
    match f.selected_handle {
        Some((id, h)) => {
            return PressAction::Manipulate { shape: id, handle: h };
        },
        None => {},
    }
    match f.top_hit {
        Some((id, _)) => {
            if f.shift {
                if canvas.is_selected(id) {
                    canvas.selection = vec_without(&canvas.selection, id);
                } else {
                    canvas.add_to_selection(id);
                }
                PressAction::Nothing
            } else {
                if !canvas.is_selected(id) {
                    canvas.select(id);
                }
                PressAction::Move { duplicate: f.alt }
            }
        },
        None => {
            if !f.shift {
                canvas.clear_selection();
                proof {
                    assert(canvas.selection@ =~= Seq::<ShapeId>::empty());
                }
            }
            PressAction::SelectionRect
        },
    }
}

/// Add identifiers to the selection, each unless already there.
fn add_all_to_selection<P>(canvas: &mut Canvas<P>, ids: &Vec<ShapeId>)
    ensures
        final(canvas).document == old(canvas).document,
        final(canvas).selection@ == append_new(old(canvas).selection@, ids@),
{
    let n = ids.len();
    let mut i: usize = 0;
    proof {
        assert(ids@.take(0) =~= Seq::<ShapeId>::empty());
    }
    while i < n
        invariant
            n == ids@.len(),
            i <= n,
            canvas.document == old(canvas).document,
            canvas.selection@ == append_new(old(canvas).selection@, ids@.take(i as int)),
        decreases n - i,
    {
        proof {
            assert(ids@.take(i + 1).drop_last() =~= ids@.take(i as int));
            lemma_append_new_one(canvas.selection@, ids@[i as int]);
        }
        canvas.add_to_selection(ids[i]);
        i = i + 1;
    }
    proof {
        assert(ids@.take(n as int) =~= ids@);
    }
}

/// Release a selection rectangle: when it is big enough, the shapes inside it
/// are selected, added to the selection when Shift is held.
pub fn finish_selection_rect<P>(canvas: &mut Canvas<P>, big_enough: bool, shift: bool, inside: &Vec<ShapeId>)
    ensures
        final(canvas).document == old(canvas).document,
        final(canvas).selection@ == if !big_enough {
            old(canvas).selection@
        } else if shift {
            append_new(old(canvas).selection@, inside@)
        } else {
            append_new(Seq::empty(), inside@)
        },
{
    if big_enough {
        if !shift {
            canvas.clear_selection();
            proof {
                assert(canvas.selection@ =~= Seq::<ShapeId>::empty());
            }
        }
        add_all_to_selection(canvas, inside);
    }
}

/// Commit a shape drawn (or a text or math shape made) on release: the state
/// before is recorded for undo, the shape is added on top, and, when
/// `select` is set, it becomes the selection.
pub fn commit_new_shape<P: Clone>(canvas: &mut Canvas<P>, shape: Shape<P>, select: bool)
    ensures
        final(canvas).document@ == with_content(
            push_undo_spec(old(canvas).document@),
            DocState {
                shapes: old(canvas).document@.content.shapes.insert(shape.spec_id(), shape),
                z_order: old(canvas).document@.content.z_order.push(shape.spec_id()),
            },
        ),
        final(canvas).selection@ == if select {
            seq![shape.spec_id()]
        } else {
            old(canvas).selection@
        },
{
    let id = shape.id();
    canvas.document.push_undo();
    proof {
        assert(canvas.document@.content == old(canvas).document@.content);
    }
    canvas.document.add_shape(shape);
    if select {
        canvas.select(id);
    }
}

/// Cancel an Alt-move that did not move: the copies are removed and the
/// originals are selected again.
pub fn cancel_duplicate<P>(canvas: &mut Canvas<P>, copies: &Vec<ShapeId>, originals: &Vec<ShapeId>)
    ensures
        final(canvas).document@.content.shapes == old(canvas).document@.content.shapes.remove_keys(
            copies@.to_set(),
        ),
        final(canvas).document@.undo == old(canvas).document@.undo,
        final(canvas).document@.redo == old(canvas).document@.redo,
        final(canvas).selection@ == append_new(Seq::empty(), originals@),
{
    let n = copies.len();
    let mut i: usize = 0;
    while i < n
        invariant
            n == copies@.len(),
            i <= n,
            canvas.document@.content.shapes == old(canvas).document@.content.shapes.remove_keys(
                copies@.take(i as int).to_set(),
            ),
            canvas.document@.undo == old(canvas).document@.undo,
            canvas.document@.redo == old(canvas).document@.redo,
        decreases n - i,
    {
        canvas.document.remove_shape(copies[i]);
        proof {
            let t = copies@.take(i as int);
            let t1 = copies@.take(i + 1);
            assert(t1 =~= t.push(copies@[i as int]));
            assert forall|a: ShapeId| t1.to_set().contains(a) <==> t.to_set().insert(
                copies@[i as int],
            ).contains(a) by {
                if t1.contains(a) && a != copies@[i as int] {
                    let j = choose|j: int| 0 <= j < t1.len() && t1[j] == a;
                    assert(t[j] == a);
                }
                if t.contains(a) {
                    let j = choose|j: int| 0 <= j < t.len() && t[j] == a;
                    assert(t1[j] == a);
                }
                if a == copies@[i as int] {
                    assert(t1[i as int] == a);
                }
            }
            assert(t1.to_set() =~= t.to_set().insert(copies@[i as int]));
            assert(canvas.document@.content.shapes =~= old(canvas).document@.content.shapes.remove_keys(
                copies@.take(i + 1).to_set(),
            ));
        }
        i = i + 1;
    }
    proof {
        assert(copies@.take(n as int) =~= copies@);
    }
    canvas.clear_selection();
    proof {
        assert(canvas.selection@ =~= Seq::<ShapeId>::empty());
    }
    add_all_to_selection(canvas, originals);
}

/// The shapes with each pair's shape stored under its identifier, in
/// order, where the identifier has a shape.
pub open spec fn replace_present<P>(m: Map<ShapeId, Shape<P>>, pairs: Seq<(ShapeId, Shape<P>)>) -> Map<
    ShapeId,
    Shape<P>,
>
    decreases pairs.len(),
{
    if pairs.len() == 0 {
        m
    } else {
        let m0 = replace_present(m, pairs.drop_last());
        let (id, s) = pairs.last();
        if m0.contains_key(id) {
            m0.insert(id, s)
        } else {
            m0
        }
    }
}

/// Store each pair's shape under its identifier, in order, where the
/// identifier has a shape.
fn replace_all<P>(canvas: &mut Canvas<P>, pairs: Vec<(ShapeId, Shape<P>)>)
    ensures
        final(canvas).selection == old(canvas).selection,
        final(canvas).document@ == with_content(
            old(canvas).document@,
            DocState {
                shapes: replace_present(old(canvas).document@.content.shapes, pairs@),
                z_order: old(canvas).document@.content.z_order,
            },
        ),
{
    let n = pairs.len();
    let ghost all = pairs@;
    let mut rest = pairs;
    let mut k: usize = 0;
    proof {
        assert(all.take(0) =~= Seq::<(ShapeId, Shape<P>)>::empty());
        assert(all.skip(0) =~= all);
    }
    while rest.len() > 0
        invariant
            k <= all.len(),
            all.len() == n,
            rest@ == all.skip(k as int),
            canvas.selection == old(canvas).selection,
            canvas.document@ == with_content(
                old(canvas).document@,
                DocState {
                    shapes: replace_present(old(canvas).document@.content.shapes, all.take(k as int)),
                    z_order: old(canvas).document@.content.z_order,
                },
            ),
        decreases rest.len(),
    {
        let (id, shape) = rest.remove(0);
        proof {
            assert(all.take(k + 1).drop_last() =~= all.take(k as int));
            assert(all.take(k + 1).last() == all[k as int]);
            assert(rest@ =~= all.skip(k + 1));
        }
        canvas.document.replace_shape(id, shape);
        k = k + 1;
    }
    proof {
        assert(all.take(k as int) =~= all);
    }
}

/// Commit a move on release: the moved shapes are first put back as they
/// were (`originals`), that state is recorded for undo, and then the moved
/// shapes (`moved`) are stored.
pub fn commit_move<P: Clone>(
    canvas: &mut Canvas<P>,
    originals: Vec<(ShapeId, Shape<P>)>,
    moved: Vec<(ShapeId, Shape<P>)>,
)
    ensures
        final(canvas).selection == old(canvas).selection,
        final(canvas).document@ == with_content(
            push_undo_spec(
                with_content(
                    old(canvas).document@,
                    DocState {
                        shapes: replace_present(old(canvas).document@.content.shapes, originals@),
                        z_order: old(canvas).document@.content.z_order,
                    },
                ),
            ),
            DocState {
                shapes: replace_present(
                    replace_present(old(canvas).document@.content.shapes, originals@),
                    moved@,
                ),
                z_order: old(canvas).document@.content.z_order,
            },
        ),
{
    replace_all(canvas, originals);
    canvas.document.push_undo();
    replace_all(canvas, moved);
}

} // verus!
