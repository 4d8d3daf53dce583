use drafftink::actions::{apply_edit, apply_shared_edit, EditAction};
use drafftink::collab::CollaborationManager;
use drafftink::canvas::Canvas;
use drafftink::keys::ToolKind;
use drafftink::press::{
    cancel_duplicate, commit_new_shape, finish_selection_rect, press, HitShape, PressAction, PressFacts,
};
use drafftink::selection::{Corner, HandleKind};
use drafftink::shapes::Shape;

fn facts(tool: ToolKind) -> PressFacts {
    PressFacts {
        tool,
        editing_text: None,
        top_hit: None,
        selected_handle: None,
        rotation_handle: None,
        text_handle: None,
        text_boundary: false,
        double_click: false,
        shift: false,
        alt: false,
    }
}

fn canvas_with(n: usize) -> (Canvas<u32>, Vec<u128>) {
    let mut c = Canvas::new();
    let mut ids = Vec::new();
    for i in 0..n {
        let s = Shape::new_element(i as u32);
        ids.push(s.id());
        c.document.add_shape(s);
    }
    (c, ids)
}

#[test]
fn press_select_tool() {
    let (mut c, ids) = canvas_with(3);
    let mut f = facts(ToolKind::Select);
    f.top_hit = Some((ids[0], HitShape::Other));
    let o = press(&mut c, f);
    assert_eq!(o.action, PressAction::Move { duplicate: false });
    assert!(!o.exit_text_edit);
    assert_eq!(c.selection, vec![ids[0]]);

    f.shift = true;
    f.top_hit = Some((ids[1], HitShape::Other));
    assert_eq!(press(&mut c, f).action, PressAction::Nothing);
    assert_eq!(c.selection, vec![ids[0], ids[1]]);
    f.top_hit = Some((ids[0], HitShape::Other));
    press(&mut c, f);
    assert_eq!(c.selection, vec![ids[1]]);

    // Alt on a selected shape: move copies, selection kept.
    f.shift = false;
    f.alt = true;
    f.top_hit = Some((ids[1], HitShape::Other));
    assert_eq!(press(&mut c, f).action, PressAction::Move { duplicate: true });
    assert_eq!(c.selection, vec![ids[1]]);

    // A handle of a selected shape wins over the shape under the pointer.
    f.alt = false;
    f.selected_handle = Some((ids[1], HandleKind::Corner(Corner::TopLeft)));
    assert_eq!(
        press(&mut c, f).action,
        PressAction::Manipulate { shape: ids[1], handle: HandleKind::Corner(Corner::TopLeft) }
    );

    // Empty space: a selection rectangle, keeping the selection with Shift.
    let mut e = facts(ToolKind::Select);
    e.shift = true;
    assert_eq!(press(&mut c, e).action, PressAction::SelectionRect);
    assert_eq!(c.selection, vec![ids[1]]);
    e.shift = false;
    press(&mut c, e);
    assert!(c.selection.is_empty());
}

#[test]
fn press_text_editing_and_double_click() {
    let (mut c, ids) = canvas_with(2);
    let mut f = facts(ToolKind::Select);
    f.editing_text = Some(ids[0]);
    f.top_hit = Some((ids[0], HitShape::Text));
    assert_eq!(press(&mut c, f).action, PressAction::KeepEditing);

    f.top_hit = Some((ids[1], HitShape::Text));
    f.double_click = true;
    let o = press(&mut c, f);
    assert!(o.exit_text_edit);
    assert_eq!(o.action, PressAction::EditText(ids[1]));
    assert_eq!(c.selection, vec![ids[1]]);

    let mut m = facts(ToolKind::Select);
    m.double_click = true;
    m.top_hit = Some((ids[0], HitShape::Math));
    assert_eq!(press(&mut c, m).action, PressAction::EditMath(ids[0]));

    let mut t = facts(ToolKind::Text);
    t.top_hit = Some((ids[1], HitShape::Text));
    assert_eq!(press(&mut c, t).action, PressAction::EditText(ids[1]));
    t.text_boundary = true;
    assert_eq!(press(&mut c, t).action, PressAction::Move { duplicate: false });
    t.top_hit = None;
    assert_eq!(press(&mut c, t).action, PressAction::Nothing);

    assert_eq!(press(&mut c, facts(ToolKind::Freehand)).action, PressAction::BeginStroke);
    assert_eq!(press(&mut c, facts(ToolKind::Arrow)).action, PressAction::BeginLine);
    assert_eq!(press(&mut c, facts(ToolKind::Rectangle)).action, PressAction::BeginShape);
    assert_eq!(press(&mut c, facts(ToolKind::Eraser)).action, PressAction::BeginErase);
}

#[test]
fn release_decisions() {
    let (mut c, ids) = canvas_with(3);
    c.select(ids[0]);
    finish_selection_rect(&mut c, false, false, &vec![ids[1]]);
    assert_eq!(c.selection, vec![ids[0]]);
    finish_selection_rect(&mut c, true, true, &vec![ids[1], ids[0]]);
    assert_eq!(c.selection, vec![ids[0], ids[1]]);
    finish_selection_rect(&mut c, true, false, &vec![ids[2]]);
    assert_eq!(c.selection, vec![ids[2]]);

    let s = Shape::new_element(9u32);
    let id = s.id();
    commit_new_shape(&mut c, s, true);
    assert_eq!(c.selection, vec![id]);
    assert_eq!(c.document.len(), 4);
    assert!(c.document.undo());
    assert_eq!(c.document.len(), 3);

    cancel_duplicate(&mut c, &vec![ids[1], ids[2]], &vec![ids[0]]);
    assert_eq!(c.document.len(), 1);
    assert_eq!(c.selection, vec![ids[0]]);
}

#[test]
fn edit_actions() {
    let (mut c, ids) = canvas_with(4);
    assert!(!apply_edit(&mut c, EditAction::BringToFront));
    c.select(ids[0]);
    c.add_to_selection(ids[1]);
    assert!(apply_edit(&mut c, EditAction::BringToFront));
    assert_eq!(c.document.z_order, vec![ids[2], ids[3], ids[0], ids[1]]);
    assert!(apply_edit(&mut c, EditAction::SendToBack));
    assert_eq!(c.document.z_order, vec![ids[0], ids[1], ids[2], ids[3]]);
    assert!(apply_edit(&mut c, EditAction::BringForward));
    assert_eq!(c.document.z_order, vec![ids[2], ids[0], ids[1], ids[3]]);
    assert!(apply_edit(&mut c, EditAction::SendBackward));
    assert_eq!(c.document.z_order, vec![ids[0], ids[1], ids[2], ids[3]]);
    assert!(apply_edit(&mut c, EditAction::Undo));
    assert_eq!(c.document.z_order, vec![ids[2], ids[0], ids[1], ids[3]]);
    assert!(c.selection.is_empty());
    assert!(apply_edit(&mut c, EditAction::Redo));
    assert_eq!(c.document.z_order, vec![ids[0], ids[1], ids[2], ids[3]]);
    assert!(apply_edit(&mut c, EditAction::ClearDocument));
    assert!(c.document.is_empty());
    assert!(!apply_edit(&mut c, EditAction::ClearDocument));
    assert!(apply_edit(&mut c, EditAction::Undo));
    assert_eq!(c.document.len(), 4);
}

#[test]
fn shared_edit_mirrors_reorder() {
    let (mut c, ids) = canvas_with(3);
    let mut manager: CollaborationManager<u8> = CollaborationManager::new(0);
    manager.set_room(Some("r".to_string()));
    let key = |id: u128| uuid::Uuid::from_u128(id).to_string();
    for id in &ids {
        manager.crdt_mut().add_shape_record(&key(*id)).unwrap();
        manager.crdt_mut().finish_add_shape(&key(*id)).unwrap();
    }
    c.select(ids[0]);
    assert!(apply_shared_edit(&mut c, &mut manager, EditAction::BringToFront));
    assert_eq!(c.document.z_order, vec![ids[1], ids[2], ids[0]]);
    assert_eq!(manager.crdt().z_order(), vec![key(ids[1]), key(ids[2]), key(ids[0])]);
    assert!(apply_shared_edit(&mut c, &mut manager, EditAction::SendBackward));
    assert_eq!(manager.crdt().z_order(), vec![key(ids[1]), key(ids[0]), key(ids[2])]);
    // Out of a room, nothing is mirrored.
    manager.leave_room();
    assert!(apply_shared_edit(&mut c, &mut manager, EditAction::SendToBack));
    assert_eq!(manager.crdt().z_order(), vec![key(ids[1]), key(ids[0]), key(ids[2])]);
    assert_eq!(c.document.z_order, vec![ids[0], ids[1], ids[2]]);
}
