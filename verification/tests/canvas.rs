use drafftink::canvas::{Canvas, CanvasDocument, MAX_UNDO_HISTORY};
use drafftink::shapes::{Group, Shape};

fn rect(label: &'static str) -> Shape<&'static str> {
    Shape::new_element(label)
}

#[test]
fn test_document_creation() {
    let doc: CanvasDocument<&'static str> = CanvasDocument::new();
    assert!(doc.is_empty());
}

#[test]
fn test_add_shape() {
    let mut doc = CanvasDocument::new();
    let r = rect("rect");
    let id = r.id();

    doc.add_shape(r);
    assert_eq!(doc.len(), 1);
    assert!(doc.get_shape(id).is_some());
}

#[test]
fn canvas_test_remove_shape() {
    let mut doc = CanvasDocument::new();
    let r = rect("rect");
    let id = r.id();

    doc.add_shape(r);
    let removed = doc.remove_shape(id);

    assert!(removed.is_some());
    assert!(doc.is_empty());
}

#[test]
fn test_z_order() {
    let mut doc = CanvasDocument::new();
    let rect1 = rect("rect1");
    let rect2 = rect("rect2");
    let id1 = rect1.id();
    let id2 = rect2.id();

    doc.add_shape(rect1);
    doc.add_shape(rect2);

    assert_eq!(doc.z_order, vec![id1, id2]);

    doc.bring_to_front(id1);
    assert_eq!(doc.z_order, vec![id2, id1]);

    doc.send_to_back(id1);
    assert_eq!(doc.z_order, vec![id1, id2]);
}

#[test]
fn test_canvas_selection() {
    let mut canvas = Canvas::new();
    let r = rect("rect");
    let id = r.id();

    canvas.document.add_shape(r);

    assert!(!canvas.is_selected(id));
    canvas.select(id);
    assert!(canvas.is_selected(id));
    canvas.clear_selection();
    assert!(!canvas.is_selected(id));
}

#[test]
fn test_delete_selected() {
    let mut canvas = Canvas::new();
    let r = rect("rect");
    let id = r.id();

    canvas.document.add_shape(r);
    canvas.select(id);
    canvas.delete_selected();

    assert!(canvas.document.is_empty());
    assert!(canvas.selection.is_empty());
}

#[test]
fn test_undo_add_shape() {
    let mut doc = CanvasDocument::new();

    doc.push_undo();
    let r = rect("rect");
    let id = r.id();
    doc.add_shape(r);

    assert_eq!(doc.len(), 1);
    assert!(doc.can_undo());

    assert!(doc.undo());
    assert!(doc.is_empty());
    assert!(doc.can_redo());

    assert!(doc.redo());
    assert_eq!(doc.len(), 1);
    assert!(doc.get_shape(id).is_some());
}

#[test]
fn test_undo_remove_shape() {
    let mut doc = CanvasDocument::new();
    let r = rect("rect");
    let id = r.id();
    doc.add_shape(r);

    doc.push_undo();
    doc.remove_shape(id);

    assert!(doc.is_empty());

    assert!(doc.undo());
    assert_eq!(doc.len(), 1);
    assert!(doc.get_shape(id).is_some());
}

#[test]
fn test_undo_clears_redo() {
    let mut doc = CanvasDocument::new();

    doc.push_undo();
    doc.add_shape(rect("rect1"));

    assert!(doc.undo());
    assert!(doc.can_redo());

    doc.push_undo();
    doc.add_shape(rect("rect2"));

    assert!(!doc.can_redo());
}

#[test]
fn test_undo_empty_stack() {
    let mut doc: CanvasDocument<&'static str> = CanvasDocument::new();

    assert!(!doc.can_undo());
    assert!(!doc.undo());

    assert!(!doc.can_redo());
    assert!(!doc.redo());
}

#[test]
fn new_document_is_untitled_with_uuid_id() {
    let doc: CanvasDocument<u8> = CanvasDocument::new();
    assert_eq!(doc.name, "Untitled");
    assert_eq!(doc.id.len(), 36);
    assert_eq!(doc.id.as_bytes()[14], b'4');
    assert_eq!(doc.id.as_bytes()[8], b'-');
}

#[test]
fn bring_forward_and_send_backward_swap_neighbours() {
    let mut doc = CanvasDocument::new();
    let a = rect("a");
    let b = rect("b");
    let c = rect("c");
    let (ia, ib, ic) = (a.id(), b.id(), c.id());
    doc.add_shape(a);
    doc.add_shape(b);
    doc.add_shape(c);

    assert!(doc.bring_forward(ia));
    assert_eq!(doc.z_order, vec![ib, ia, ic]);
    assert!(doc.send_backward(ia));
    assert_eq!(doc.z_order, vec![ia, ib, ic]);

    assert!(!doc.bring_forward(ic));
    assert!(!doc.send_backward(ia));
    assert!(!doc.bring_forward(12345));
    assert_eq!(doc.z_order, vec![ia, ib, ic]);
}

#[test]
fn undo_then_redo_restores_edit() {
    let mut doc = CanvasDocument::new();
    let a = rect("a");
    let ia = a.id();
    doc.add_shape(a);
    doc.push_undo();
    let b = rect("b");
    let ib = b.id();
    doc.add_shape(b);
    assert!(doc.undo());
    assert_eq!(doc.z_order, vec![ia]);
    assert!(doc.redo());
    assert_eq!(doc.z_order, vec![ia, ib]);
    assert!(!doc.redo());
}

#[test]
fn undo_history_is_capped() {
    let mut doc = CanvasDocument::new();
    for i in 0..(MAX_UNDO_HISTORY + 10) {
        doc.push_undo();
        doc.add_shape(rect(if i % 2 == 0 { "even" } else { "odd" }));
    }
    let mut undone = 0;
    while doc.undo() {
        undone += 1;
    }
    assert_eq!(undone, MAX_UNDO_HISTORY);
    assert_eq!(doc.len(), 10);
}

#[test]
fn group_and_ungroup_shapes() {
    let mut doc = CanvasDocument::new();
    let a = rect("a");
    let b = rect("b");
    let c = rect("c");
    let (ia, ib, ic) = (a.id(), b.id(), c.id());
    doc.add_shape(a);
    doc.add_shape(b);
    doc.add_shape(c);

    assert_eq!(doc.group_shapes(&[ia]), None);
    assert_eq!(doc.len(), 3);

    let gid = doc.group_shapes(&[ic, ia]).expect("two shapes group");
    assert_eq!(doc.len(), 2);
    assert_eq!(doc.z_order, vec![ib, gid]);
    let group = doc.get_shape(gid).unwrap().as_group().unwrap();
    let member_ids: Vec<u128> = group.children().iter().map(|s| s.id()).collect();
    assert_eq!(member_ids, vec![ia, ic]);

    let ids = doc.ungroup_shape(gid).expect("a group");
    assert_eq!(ids, vec![ia, ic]);
    assert_eq!(doc.z_order, vec![ib, ia, ic]);
    assert_eq!(doc.ungroup_shape(ib), None);
}

#[test]
fn export_selection_copies_in_selection_order() {
    let mut doc = CanvasDocument::new();
    let a = rect("a");
    let b = rect("b");
    let (ia, ib) = (a.id(), b.id());
    doc.add_shape(a);
    doc.add_shape(b);
    let out = doc.export_selection(&[ib, 777, ia]);
    assert_eq!(out.z_order, vec![ib, ia]);
    assert_eq!(out.len(), 2);
    assert!(!out.can_undo());
    assert_ne!(out.id, doc.id);
}

#[test]
fn canvas_group_and_ungroup_selected() {
    let mut canvas = Canvas::new();
    let a = rect("a");
    let b = rect("b");
    let (ia, ib) = (a.id(), b.id());
    canvas.document.add_shape(a);
    canvas.document.add_shape(b);
    canvas.select_all();
    assert_eq!(canvas.selection, vec![ia, ib]);
    let gid = canvas.group_selected().expect("grouped");
    assert_eq!(canvas.selection, vec![gid]);
    assert!(canvas.document.can_undo());
    let ids = canvas.ungroup_selected();
    assert_eq!(ids, vec![ia, ib]);
    assert_eq!(canvas.selection, vec![ia, ib]);
    assert_eq!(canvas.document.z_order, vec![ia, ib]);
}

#[test]
fn add_to_selection_keeps_one_entry() {
    let mut canvas: Canvas<&'static str> = Canvas::new();
    canvas.add_to_selection(5);
    canvas.add_to_selection(7);
    canvas.add_to_selection(5);
    assert_eq!(canvas.selection, vec![5, 7]);
    canvas.select(7);
    assert_eq!(canvas.selection, vec![7]);
}

#[test]
fn remove_shape_drops_it_from_selection() {
    let mut canvas = Canvas::new();
    let a = rect("a");
    let ia = a.id();
    canvas.document.add_shape(a);
    canvas.select(ia);
    canvas.remove_shape(ia);
    assert!(canvas.selection.is_empty());
    assert!(canvas.document.is_empty());
}

#[test]
fn shapes_ordered_follows_z_order() {
    let mut doc = CanvasDocument::new();
    let a = rect("a");
    let b = rect("b");
    let ia = a.id();
    doc.add_shape(a);
    doc.add_shape(b);
    doc.bring_to_front(ia);
    let labels: Vec<&'static str> = doc
        .shapes_ordered()
        .into_iter()
        .map(|s| match s {
            Shape::Element { data, .. } => *data,
            Shape::Group(_) => "group",
        })
        .collect();
    assert_eq!(labels, vec!["b", "a"]);
}

#[test]
fn nested_group_is_one_shape_of_document() {
    let mut doc = CanvasDocument::new();
    let inner = Group::new(vec![rect("x")]);
    let outer = Shape::Group(Group::new(vec![Shape::Group(inner), rect("y")]));
    let oid = outer.id();
    doc.add_shape(outer);
    doc.clear();
    assert!(doc.is_empty());
    assert!(doc.get_shape(oid).is_none());
}

#[test]
fn get_shape_mut_writes_through() {
    let mut doc = CanvasDocument::new();
    let a = rect("a");
    let ia = a.id();
    doc.add_shape(a);
    doc.push_undo();
    if let Some(Shape::Element { data, .. }) = doc.get_shape_mut(ia) {
        *data = "changed";
    }
    match doc.get_shape(ia) {
        Some(Shape::Element { data, .. }) => assert_eq!(*data, "changed"),
        _ => panic!("shape expected"),
    }
    assert!(doc.get_shape_mut(42).is_none());
    assert!(doc.can_undo());
    assert_eq!(doc.z_order, vec![ia]);
}

#[test]
fn shapes_stay_under_their_ids() {
    let mut doc = CanvasDocument::new();
    let a = rect("a");
    let b = rect("b");
    let c = rect("c");
    let (ia, ib) = (a.id(), b.id());
    doc.add_shape(a);
    doc.add_shape(b);
    doc.add_shape(c);
    let gid = doc.group_shapes(&[ia, ib]).unwrap();
    for id in doc.z_order.clone() {
        assert_eq!(doc.get_shape(id).unwrap().id(), id);
    }
    doc.ungroup_shape(gid).unwrap();
    for id in doc.z_order.clone() {
        assert_eq!(doc.get_shape(id).unwrap().id(), id);
    }
    assert_eq!(doc.len(), 3);
}

#[test]
fn group_then_ungroup_restores_document() {
    let mut doc = CanvasDocument::new();
    let shapes: Vec<_> = ["a", "b", "c", "d"].iter().map(|l| rect(l)).collect();
    let ids: Vec<_> = shapes.iter().map(|s| s.id()).collect();
    for s in shapes {
        doc.add_shape(s);
    }
    let before = doc.z_order.clone();
    let group = doc.group_shapes(&[ids[2], ids[1]]).unwrap();
    let children = doc.ungroup_shape(group).unwrap();
    assert_eq!(children, vec![ids[1], ids[2]]);
    assert_eq!(doc.z_order, before);
    assert_eq!(doc.len(), 4);
    for id in &ids {
        assert_eq!(doc.get_shape(*id).unwrap().id(), *id);
    }
}

#[test]
fn add_copies_selects_fresh_copies() {
    let mut c: Canvas<&'static str> = Canvas::new();
    let a = rect("a");
    let a_id = a.id();
    c.document.add_shape(a);
    c.select(a_id);
    let copy = c.document.get_shape(a_id).unwrap().clone();
    let ids = c.add_copies(vec![copy]);
    assert_eq!(ids.len(), 1);
    assert_ne!(ids[0], a_id);
    assert_eq!(c.selection, ids);
    assert_eq!(c.document.z_order, vec![a_id, ids[0]]);
    assert!(c.document.undo());
    assert_eq!(c.document.len(), 1);
}
