use base64::Engine;
use drafftink::canvas::CanvasDocument;
use drafftink::collab::{ClientMessage, CollaborationManager, ServerMessage, SyncEvent};
use drafftink::crdt::CrdtDocument;
use drafftink::shapes::Shape;

fn new_manager() -> CollaborationManager<u32> {
    CollaborationManager::new(0)
}

fn add_record(doc: &mut CrdtDocument, id: &str) {
    doc.add_shape_record(id).unwrap();
    doc.finish_add_shape(id).unwrap();
}

fn b64(bytes: &[u8]) -> String {
    base64::engine::general_purpose::STANDARD.encode(bytes)
}

#[test]
fn test_collaboration_disabled_by_default() {
    let manager = new_manager();
    assert!(!manager.is_enabled());
}

#[test]
fn test_export_import_snapshot() {
    let mut manager1 = new_manager();
    manager1.enable();
    add_record(manager1.crdt_mut(), "a");
    let snapshot = manager1.export_snapshot();

    let mut manager2 = new_manager();
    assert!(manager2.import_updates(&snapshot));
    assert_eq!(manager2.crdt().shape_count(), 1);
}

#[test]
fn test_remove_shape_with_sync() {
    let mut manager = new_manager();
    manager.enable();

    let mut doc = CanvasDocument::new();
    let shape = Shape::new_element("rect");
    let id = shape.id();
    doc.add_shape(shape);
    add_record(manager.crdt_mut(), &uuid::Uuid::from_u128(id).to_string());
    assert_eq!(doc.len(), 1);
    assert_eq!(manager.crdt().shape_count(), 1);

    manager.remove_shape(&mut doc, id);
    assert_eq!(doc.len(), 0);
    assert_eq!(manager.crdt().shape_count(), 0);
}

#[test]
fn collab_remove_while_disabled_leaves_crdt() {
    let mut manager = new_manager();
    let mut doc = CanvasDocument::new();
    let shape = Shape::new_element("rect");
    let id = shape.id();
    doc.add_shape(shape);
    add_record(manager.crdt_mut(), &uuid::Uuid::from_u128(id).to_string());
    assert!(manager.remove_shape(&mut doc, id).is_some());
    assert_eq!(doc.len(), 0);
    assert_eq!(manager.crdt().shape_count(), 1);
}

#[test]
fn collab_rooms_and_queue() {
    let mut manager = new_manager();
    assert!(!manager.is_in_room());
    manager.leave_room();
    assert!(!manager.has_outgoing());
    manager.join_room("r1");
    assert_eq!(manager.take_outgoing(), vec![ClientMessage::Join { room: "r1".to_string() }]);
    assert!(!manager.has_outgoing());
    manager.set_room(Some("r1".to_string()));
    assert!(manager.is_enabled());
    assert_eq!(manager.current_room(), Some("r1"));
    manager.set_awareness(7);
    let peer = manager.peer_id();
    manager.leave_room();
    assert_eq!(manager.current_room(), None);
    assert_eq!(
        manager.take_outgoing(),
        vec![ClientMessage::Awareness { peer_id: peer, state: 7 }, ClientMessage::Leave]
    );
    // Out of a room, awareness changes are kept but not sent.
    manager.set_awareness(8);
    assert_eq!(*manager.awareness(), 8);
    assert!(!manager.has_outgoing());
}

#[test]
fn collab_broadcast_sync_sends_snapshot() {
    let mut manager = new_manager();
    add_record(manager.crdt_mut(), "a");
    manager.broadcast_sync();
    assert!(!manager.has_outgoing());
    manager.set_room(Some("r".to_string()));
    manager.broadcast_sync();
    let out = manager.take_outgoing();
    assert_eq!(out.len(), 1);
    let data = match &out[0] {
        ClientMessage::Sync { data } => data.clone(),
        other => panic!("unexpected message {:?}", other),
    };
    let bytes = base64::engine::general_purpose::STANDARD.decode(data).unwrap();
    let copy = CrdtDocument::from_snapshot(&bytes).unwrap();
    assert_eq!(copy.z_order(), vec!["a"]);
}

#[test]
fn collab_handle_joined_imports_initial_state() {
    let mut source = CrdtDocument::new();
    add_record(&mut source, "a");
    let snapshot = source.export_snapshot();

    let mut manager = new_manager();
    let ev = manager.handle_server_message(ServerMessage::Joined {
        room: "r".to_string(),
        peer_count: 3,
        initial_sync: Some(b64(&snapshot)),
    });
    assert_eq!(
        ev,
        Some(SyncEvent::JoinedRoom { room: "r".to_string(), peer_count: 3, initial_sync: Some(snapshot) })
    );
    assert!(manager.is_enabled());
    assert_eq!(manager.current_room(), Some("r"));
    assert_eq!(manager.crdt().z_order(), vec!["a"]);

    // Text that is not base64: joined, but no initial state.
    let mut other = new_manager();
    let ev = other.handle_server_message(ServerMessage::Joined {
        room: "s".to_string(),
        peer_count: 1,
        initial_sync: Some("not base64!".to_string()),
    });
    assert_eq!(ev, Some(SyncEvent::JoinedRoom { room: "s".to_string(), peer_count: 1, initial_sync: None }));
    assert_eq!(other.crdt().shape_count(), 0);
}

#[test]
fn collab_handle_sync_and_pass_through() {
    let mut source = CrdtDocument::new();
    add_record(&mut source, "b");
    let snapshot = source.export_snapshot();

    let mut manager = new_manager();
    let ev = manager.handle_server_message(ServerMessage::Sync { from: "p".to_string(), data: b64(&snapshot) });
    assert_eq!(ev, Some(SyncEvent::SyncReceived { from: "p".to_string(), data: snapshot }));
    assert_eq!(manager.crdt().z_order(), vec!["b"]);

    let ev = manager.handle_server_message(ServerMessage::Sync { from: "p".to_string(), data: "%%".to_string() });
    assert_eq!(ev, None);
    let ev = manager.handle_server_message(ServerMessage::Sync { from: "p".to_string(), data: b64(&[1, 2, 3]) });
    assert_eq!(ev, None);

    assert_eq!(
        manager.handle_server_message(ServerMessage::PeerJoined { peer_id: "q".to_string() }),
        Some(SyncEvent::PeerJoined { peer_id: "q".to_string() })
    );
    assert_eq!(
        manager.handle_server_message(ServerMessage::PeerLeft { peer_id: "q".to_string() }),
        Some(SyncEvent::PeerLeft { peer_id: "q".to_string() })
    );
    assert_eq!(
        manager.handle_server_message(ServerMessage::Awareness { from: "q".to_string(), peer_id: 9, state: 5 }),
        Some(SyncEvent::AwarenessReceived { from: "q".to_string(), peer_id: 9, state: 5 })
    );
    assert_eq!(
        manager.handle_server_message(ServerMessage::Error { message: "boom".to_string() }),
        Some(SyncEvent::Error { message: "boom".to_string() })
    );
    assert!(manager.current_room().is_none());
}

#[test]
fn collab_undo_disabled_does_nothing() {
    let mut manager = new_manager();
    add_record(manager.crdt_mut(), "a");
    assert!(!manager.can_undo());
    assert!(!manager.undo());
    assert!(!manager.redo());
    assert_eq!(manager.crdt().shape_count(), 1);
}

#[test]
fn crdt_export_updates_since_version() {
    let mut a = CrdtDocument::new();
    add_record(&mut a, "x");
    let v = a.version();
    let mut b = CrdtDocument::from_snapshot(&a.export_snapshot()).unwrap();
    add_record(&mut a, "y");
    let updates = a.export_updates(&v);
    assert!(!updates.is_empty());
    assert!(b.import(&updates).is_ok());
    assert_eq!(b.z_order(), vec!["x", "y"]);
}

#[test]
fn crdt_snapshot_round_trip_keeps_contents() {
    let mut a = CrdtDocument::new();
    add_record(&mut a, "x");
    add_record(&mut a, "y");
    a.set_name("plan").unwrap();
    assert!(!a.is_detached());
    let copy = CrdtDocument::from_snapshot(&a.export_snapshot()).unwrap();
    assert_eq!(copy.z_order(), a.z_order());
    assert_eq!(copy.shape_count(), 2);
    assert_eq!(copy.name(), "plan");
    assert!(CrdtDocument::from_snapshot(&[1, 2, 3]).is_err());
}

#[test]
fn test_sync_to_crdt() {
    let mut manager = new_manager();
    manager.enable();

    let mut doc = CanvasDocument::new();
    let shape = Shape::new_element("rect");
    let id = shape.id();
    doc.add_shape(shape);

    let records = manager.sync_to_crdt(&doc).unwrap();
    assert_eq!(records.len(), 1);
    assert_eq!(records[0].0, id);
    manager.crdt().commit();
    assert_eq!(manager.crdt().z_order(), vec![uuid::Uuid::from_u128(id).to_string()]);
    assert_eq!(manager.crdt().shape_count(), 1);
    assert_eq!(manager.crdt().name(), "Untitled");
}

#[test]
fn test_sync_from_crdt() {
    let mut manager = new_manager();
    add_record(manager.crdt_mut(), "a");

    let mut doc: CanvasDocument<&str> = CanvasDocument::new();
    let old = Shape::new_element("old");
    doc.add_shape(old);
    let ids = manager.begin_sync_from_crdt(&mut doc);
    assert_eq!(ids, vec!["a".to_string()]);
    assert_eq!(doc.len(), 0);
    // The CRDT name is empty: the local name stays.
    assert_eq!(doc.name, "Untitled");
    for _ in ids {
        doc.add_shape(Shape::new_element("read back"));
    }
    assert_eq!(doc.len(), 1);
    assert_eq!(doc.z_order.len(), 1);
}

#[test]
fn collab_sync_to_crdt_disabled_does_nothing() {
    let mut manager = new_manager();
    add_record(manager.crdt_mut(), "a");
    let doc: CanvasDocument<&str> = CanvasDocument::new();
    assert!(manager.sync_to_crdt(&doc).is_none());
    assert_eq!(manager.crdt().shape_count(), 1);
}
