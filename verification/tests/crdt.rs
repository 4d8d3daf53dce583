use drafftink::crdt::CrdtDocument;

/// Add a shape the way the application does, with no fields written.
fn add(doc: &mut CrdtDocument, id: &str) {
    doc.add_shape_record(id).expect("Failed to add shape");
    doc.finish_add_shape(id).expect("Failed to add shape");
}

#[test]
fn test_crdt_document_creation() {
    let doc = CrdtDocument::new();
    assert!(doc.shape_count() == 0);
}

#[test]
fn test_add_shape_to_crdt() {
    let mut doc = CrdtDocument::new();
    let id = "8e6b2c10-0000-4000-8000-000000000001";

    add(&mut doc, id);

    assert_eq!(doc.shape_count(), 1);
    assert!(doc.z_order().contains(&id.to_string()));
}

#[test]
fn mod_test_remove_shape() {
    let mut doc = CrdtDocument::new();
    let id = "shape-1";

    add(&mut doc, id);
    assert_eq!(doc.shape_count(), 1);

    doc.remove_shape(id).expect("Failed to remove shape");
    assert_eq!(doc.shape_count(), 0);
    assert!(!doc.z_order().contains(&id.to_string()));
}

#[test]
fn test_z_order_manipulation() {
    let mut doc = CrdtDocument::new();
    let id1 = "rect-1".to_string();
    let id2 = "rect-2".to_string();

    add(&mut doc, &id1);
    add(&mut doc, &id2);

    let order = doc.z_order();
    assert_eq!(order.len(), 2);
    assert_eq!(order[0], id1);
    assert_eq!(order[1], id2);

    doc.bring_to_front(&id1).expect("Failed to bring to front");
    let order = doc.z_order();
    assert_eq!(order[0], id2);
    assert_eq!(order[1], id1);

    doc.send_to_back(&id1).expect("Failed to send to back");
    let order = doc.z_order();
    assert_eq!(order[0], id1);
    assert_eq!(order[1], id2);
}

#[test]
fn test_export_import() {
    let mut doc = CrdtDocument::new();
    add(&mut doc, "rect");

    let bytes = doc.export_snapshot();

    let doc2 = CrdtDocument::from_snapshot(&bytes).expect("Failed to import");

    assert_eq!(doc2.shape_count(), 1);
}

#[test]
fn test_crdt_undo_add_shape() {
    let mut doc = CrdtDocument::new();

    add(&mut doc, "rect");

    assert_eq!(doc.shape_count(), 1);
    assert!(doc.can_undo());

    assert!(doc.undo());
    assert_eq!(doc.shape_count(), 0);
    assert!(doc.can_redo());

    assert!(doc.redo());
    assert_eq!(doc.shape_count(), 1);
}

#[test]
fn test_crdt_undo_remove_shape() {
    let mut doc = CrdtDocument::new();

    let id = "rect";
    add(&mut doc, id);

    doc.clear_undo_history();

    doc.remove_shape(id).expect("Failed to remove shape");
    assert_eq!(doc.shape_count(), 0);

    assert!(doc.undo());
    assert_eq!(doc.shape_count(), 1);
}

#[test]
fn test_crdt_undo_count() {
    let mut doc = CrdtDocument::new();

    for i in 0..5 {
        add(&mut doc, &format!("rect-{}", i));
    }

    assert!(doc.undo_count() > 0);
    assert_eq!(doc.redo_count(), 0);
}

#[test]
fn crdt_forward_backward() {
    let mut doc = CrdtDocument::new();
    for id in ["a", "b", "c"] {
        add(&mut doc, id);
    }
    assert_eq!(doc.bring_forward("a").unwrap(), true);
    assert_eq!(doc.z_order(), vec!["b", "a", "c"]);
    assert_eq!(doc.send_backward("a").unwrap(), true);
    assert_eq!(doc.z_order(), vec!["a", "b", "c"]);
    assert_eq!(doc.bring_forward("c").unwrap(), false);
    assert_eq!(doc.send_backward("a").unwrap(), false);
    assert_eq!(doc.bring_forward("zzz").unwrap(), false);
    assert_eq!(doc.z_order(), vec!["a", "b", "c"]);
}

#[test]
fn crdt_front_of_absent_id_appends() {
    let mut doc = CrdtDocument::new();
    add(&mut doc, "a");
    doc.bring_to_front("ghost").unwrap();
    assert_eq!(doc.z_order(), vec!["a", "ghost"]);
    doc.send_to_back("other").unwrap();
    assert_eq!(doc.z_order(), vec!["other", "a", "ghost"]);
    assert_eq!(doc.shape_count(), 1);
}

#[test]
fn crdt_name_and_clear() {
    let mut doc = CrdtDocument::new();
    assert_eq!(doc.name(), "");
    doc.set_name("Plan").unwrap();
    assert_eq!(doc.name(), "Plan");
    doc.set_name("Second plan").unwrap();
    assert_eq!(doc.name(), "Second plan");
    add(&mut doc, "a");
    add(&mut doc, "b");
    doc.clear().unwrap();
    assert_eq!(doc.shape_count(), 0);
    assert!(doc.z_order().is_empty());
    assert_eq!(doc.name(), "Second plan");
}

#[test]
fn crdt_replace_record_keeps_count() {
    let mut doc = CrdtDocument::new();
    add(&mut doc, "a");
    doc.replace_shape_record("a").unwrap();
    doc.commit();
    assert_eq!(doc.shape_count(), 1);
    assert_eq!(doc.z_order(), vec!["a"]);
}

#[test]
fn crdt_groups_and_checkpoints_keep_content() {
    let mut doc = CrdtDocument::default();
    doc.start_undo_group();
    add(&mut doc, "a");
    add(&mut doc, "b");
    doc.end_undo_group();
    doc.record_checkpoint();
    assert_eq!(doc.shape_count(), 2);
    assert!(doc.undo());
    assert_eq!(doc.shape_count(), 0);
}

#[test]
fn crdt_clear_of_empty_document_succeeds() {
    let mut doc = CrdtDocument::new();
    assert!(doc.clear().is_ok());
    assert_eq!(doc.shape_count(), 0);
    assert!(doc.z_order().is_empty());
    // Clearing twice: the second call finds nothing to remove.
    add(&mut doc, "a");
    doc.clear().unwrap();
    assert!(doc.clear().is_ok());
    assert_eq!(doc.shape_count(), 0);
}
