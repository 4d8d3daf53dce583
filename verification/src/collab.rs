//! Collaboration: the bridge between the local document and the collaborative
//! (CRDT) document, the room a client is in, the queue of messages to send to
//! the relay server and the handling of the messages it sends back.
//!
//! Messages are values here; turning them into and out of JSON is the job of
//! the caller. The awareness state that peers share (cursor, user name and
//! colour) is carried through unread, as the parameter `A`.
use vstd::prelude::*;
use crate::canvas::{CanvasDocument, DocState, DocView, empty_state, with_content};
use loro::LoroMap;
use crate::zorder::remove_all;
use crate::actions::EditAction;
use crate::crdt::schema::{
    CrdtDocument, CrdtView, can_move_backward, can_move_forward, decodes_as_version, entry_texts,
    first_entry, imported_view, peer_id_of, snapshot_view, swapped, without_first,
};
use crate::shapes::{
    Shape, ShapeId, base64_decoded, decode_base64, encode_base64, shape_id_to_string,
    uuid_hyphenated,
};

verus! {

/// A message from the relay server.
#[derive(Debug, Clone, PartialEq, Eq)]
pub enum ServerMessage<A> {
    /// The server confirmed that we joined a room; it may send the room's state.
    Joined { room: String, peer_count: usize, initial_sync: Option<String> },
    /// Another peer joined the room.
    PeerJoined { peer_id: String },
    /// A peer left the room.
    PeerLeft { peer_id: String },
    /// A peer sent CRDT data (base64 text).
    Sync { from: String, data: String },
    /// A peer sent its awareness state.
    Awareness { from: String, peer_id: u64, state: A },
    /// The server reported an error.
    Error { message: String },
}

/// A message to the relay server.
#[derive(Debug, Clone, PartialEq, Eq)]
pub enum ClientMessage<A> {
    /// Ask to join a room.
    Join { room: String },
    /// Leave the current room.
    Leave,
    /// Send CRDT data (base64 text).
    Sync { data: String },
    /// Send our awareness state.
    Awareness { peer_id: u64, state: A },
}

/// What happened on the connection, for the application to act on.
#[derive(Debug, Clone, PartialEq, Eq)]
pub enum SyncEvent<A> {
    /// The connection was established.
    Connected,
    /// The connection was lost.
    Disconnected,
    /// We joined a room; the initial state, when it came and was imported.
    JoinedRoom { room: String, peer_count: usize, initial_sync: Option<Vec<u8>> },
    /// Another peer joined.
    PeerJoined { peer_id: String },
    /// A peer left.
    PeerLeft { peer_id: String },
    /// CRDT data from a peer was imported.
    SyncReceived { from: String, data: Vec<u8> },
    /// A peer's awareness state.
    AwarenessReceived { from: String, peer_id: u64, state: A },
    /// The server reported an error.
    Error { message: String },
}

/// What importing base64 `text` does: it is decoded, and when that succeeds
/// the bytes are imported; `data` is the decoded bytes exactly when the import
/// succeeded. A text that does not decode leaves the document as it was.
pub open spec fn import_outcome(
    before: CrdtDocument,
    after: CrdtDocument,
    text: Seq<char>,
    data: Option<Vec<u8>>,
) -> bool {
    match base64_decoded(text) {
        None => data is None && after == before,
        Some(bytes) => match imported_view(before.loro(), bytes) {
            Some(v) => data matches Some(d) && d@ == bytes && after@ == v,
            None => data is None,
        },
    }
}

/// `after` is `before` with one more message at the end.
pub open spec fn queued_one_more<A>(before: Seq<ClientMessage<A>>, after: Seq<ClientMessage<A>>) -> bool {
    after.len() == before.len() + 1 && after.drop_last() == before
}

/// `msg` sends base64 text that decodes to a snapshot of `doc`: one that,
/// when it is not empty and `doc` is attached, carries `doc`'s contents.
pub open spec fn carries_snapshot_of<A>(msg: ClientMessage<A>, doc: CrdtDocument) -> bool {
    &&& msg matches ClientMessage::Sync { data }
    &&& base64_decoded(data@) matches Some(bytes)
    &&& !doc.detached() && bytes.len() > 0 ==> snapshot_view(bytes) == Some(doc@)
}

/// `msg` sends peer `peer`'s awareness, a clone of `state`.
pub open spec fn carries_awareness<A: Clone>(msg: ClientMessage<A>, peer: u64, state: A) -> bool {
    msg matches ClientMessage::Awareness { peer_id, state: s } && peer_id == peer && cloned(state, s)
}

/// `after` is `before` without the shape `key`: its key and its first
/// z-order entry are gone, and the name is kept.
pub open spec fn removed_from(before: CrdtView, after: CrdtView, key: Seq<char>) -> bool {
    &&& after.shape_keys == before.shape_keys.remove(key)
    &&& after.z_order == without_first(before.z_order, key)
    &&& after.name == before.name
}

/// The identifiers of the local shapes that the CRDT document gets, in
/// z-order: the z-order entries that have a shape.
pub open spec fn synced_ids<P>(c: DocState<P>) -> Seq<ShapeId> {
    c.z_order.filter(|id: ShapeId| c.shapes.contains_key(id))
}

/// What the CRDT document holds after syncing a local document into it: its
/// name, and a record and a z-order entry for each of its shapes, in z-order.
pub open spec fn synced_view<P>(d: DocView<P>) -> CrdtView {
    CrdtView {
        z_order: synced_ids(d.content).map_values(|id: ShapeId| Some(uuid_hyphenated(id))),
        shape_keys: synced_ids(d.content).map_values(|id: ShapeId| uuid_hyphenated(id)).to_set(),
        name: d.name,
    }
}

/// The CRDT z-order after bringing a shape to the front.
pub open spec fn crdt_front(z: Seq<Option<Seq<char>>>, key: Seq<char>) -> Seq<Option<Seq<char>>> {
    without_first(z, key).push(Some(key))
}

/// The CRDT z-order after sending a shape to the back.
pub open spec fn crdt_back(z: Seq<Option<Seq<char>>>, key: Seq<char>) -> Seq<Option<Seq<char>>> {
    seq![Some(key)] + without_first(z, key)
}

/// The CRDT z-order after moving a shape one layer forward (unchanged when
/// it cannot move).
pub open spec fn crdt_forward(z: Seq<Option<Seq<char>>>, key: Seq<char>) -> Seq<Option<Seq<char>>> {
    if can_move_forward(z, key) {
        swapped(z, first_entry(z, key))
    } else {
        z
    }
}

/// The CRDT z-order after moving a shape one layer backward (unchanged when
/// it cannot move).
pub open spec fn crdt_backward(z: Seq<Option<Seq<char>>>, key: Seq<char>) -> Seq<Option<Seq<char>>> {
    if can_move_backward(z, key) {
        swapped(z, first_entry(z, key) - 1)
    } else {
        z
    }
}

/// The CRDT z-order after a z-order move of the shapes `ids`, done as the
/// local document does it: to the front in order; to the back, and one layer
/// forward, last first; one layer backward in order.
pub open spec fn crdt_reorder(z: Seq<Option<Seq<char>>>, a: EditAction, ids: Seq<ShapeId>) -> Seq<Option<Seq<char>>>
    decreases ids.len(),
{
    if ids.len() == 0 {
        z
    } else {
        let k = uuid_hyphenated(ids.last());
        match a {
            EditAction::BringToFront => crdt_front(crdt_reorder(z, a, ids.drop_last()), k),
            EditAction::SendToBack => crdt_reorder(crdt_back(z, k), a, ids.drop_last()),
            EditAction::BringForward => crdt_reorder(crdt_forward(z, k), a, ids.drop_last()),
            EditAction::SendBackward => crdt_backward(crdt_reorder(z, a, ids.drop_last()), k),
            _ => z,
        }
    }
}

/// Manages collaboration state and synchronization between local and CRDT documents.
pub struct CollaborationManager<A> {
    /// The CRDT document for synchronization.
    crdt: CrdtDocument,
    /// Whether collaboration is currently enabled.
    enabled: bool,
    /// Peer ID for this client (from Loro).
    peer_id: u64,
    /// Current room ID (if connected).
    current_room: Option<String>,
    /// Local awareness state (cursor, user info).
    awareness: A,
    /// Pending outgoing messages.
    outgoing: Vec<ClientMessage<A>>,
}

impl<A: Clone> CollaborationManager<A> {
    /// The CRDT document.
    pub closed spec fn document(self) -> CrdtDocument {
        self.crdt
    }

    /// Whether collaboration is enabled.
    pub closed spec fn is_on(self) -> bool {
        self.enabled
    }

    /// This client's peer identifier.
    pub closed spec fn peer(self) -> u64 {
        self.peer_id
    }

    /// The room we are in, if any.
    pub closed spec fn room(self) -> Option<Seq<char>> {
        match self.current_room {
            Some(r) => Some(r@),
            None => None,
        }
    }

    /// The local awareness state.
    pub closed spec fn local_awareness(self) -> A {
        self.awareness
    }

    /// The messages waiting to be sent, oldest first.
    pub closed spec fn queued(self) -> Seq<ClientMessage<A>> {
        self.outgoing@
    }

    /// Create a new collaboration manager with a new, empty CRDT document:
    /// disabled, in no room, nothing queued.
    pub fn new(awareness: A) -> (m: Self)
        ensures
            m.document()@ == (CrdtView {
                z_order: Seq::empty(),
                shape_keys: Set::empty(),
                name: Seq::empty(),
            }),
            !m.document().detached(),
            !m.is_on(),
            m.room() is None,
            m.local_awareness() == awareness,
            m.queued() == Seq::<ClientMessage<A>>::empty(),
    {
        Self::from_crdt(CrdtDocument::new(), awareness)
    }

    /// Create from an existing CRDT document (e.g., loaded from storage or
    /// network): disabled, in no room, nothing queued.
    pub fn from_crdt(crdt: CrdtDocument, awareness: A) -> (m: Self)
        ensures
            m.document() == crdt,
            !m.is_on(),
            m.room() is None,
            m.local_awareness() == awareness,
            m.queued() == Seq::<ClientMessage<A>>::empty(),
    {
        let peer_id = peer_id_of(crdt.loro_doc());
        CollaborationManager {
            crdt,
            enabled: false,
            peer_id,
            current_room: None,
            awareness,
            outgoing: Vec::new(),
        }
    }

    /// Get the peer ID for this client.
    pub fn peer_id(&self) -> (p: u64)
        ensures
            p == self.peer(),
    {
        self.peer_id
    }

    /// Check if collaboration is enabled.
    pub fn is_enabled(&self) -> (b: bool)
        ensures
            b == self.is_on(),
    {
        self.enabled
    }

    /// Enable collaboration.
    pub fn enable(&mut self)
        ensures
            final(self).is_on(),
            final(self).document() == old(self).document(),
            final(self).room() == old(self).room(),
            final(self).queued() == old(self).queued(),
            final(self).peer() == old(self).peer(),
            final(self).local_awareness() == old(self).local_awareness(),
    {
        self.enabled = true;
    }

    /// Disable collaboration.
    pub fn disable(&mut self)
        ensures
            !final(self).is_on(),
            final(self).document() == old(self).document(),
            final(self).room() == old(self).room(),
            final(self).queued() == old(self).queued(),
            final(self).peer() == old(self).peer(),
            final(self).local_awareness() == old(self).local_awareness(),
    {
        self.enabled = false;
    }

    /// Get a reference to the CRDT document.
    pub fn crdt(&self) -> (d: &CrdtDocument)
        ensures
            *d == self.document(),
    {
        &self.crdt
    }

    /// Get a mutable reference to the CRDT document.
    pub fn crdt_mut(&mut self) -> (d: &mut CrdtDocument)
        ensures
            *d == old(self).document(),
            final(self).document() == *final(d),
            final(self).is_on() == old(self).is_on(),
            final(self).room() == old(self).room(),
            final(self).queued() == old(self).queued(),
            final(self).peer() == old(self).peer(),
            final(self).local_awareness() == old(self).local_awareness(),
    {
        &mut self.crdt
    }

    /// Remove a shape from the local document, and from the CRDT document
    /// when collaboration is enabled and the shape was there.
    pub fn remove_shape<P>(&mut self, doc: &mut CanvasDocument<P>, id: ShapeId) -> (r: Option<
        Shape<P>,
    >)
        ensures
            r == (if old(doc)@.content.shapes.contains_key(id) {
                Some(old(doc)@.content.shapes[id])
            } else {
                None
            }),
            final(doc)@ == with_content(
                old(doc)@,
                DocState {
                    shapes: old(doc)@.content.shapes.remove(id),
                    z_order: remove_all(old(doc)@.content.z_order, id),
                },
            ),
            !(old(self).is_on() && r is Some) ==> final(self).document() == old(self).document(),
            old(self).is_on() && r is Some && !old(self).document().detached() ==> removed_from(
                old(self).document()@,
                final(self).document()@,
                uuid_hyphenated(id),
            ),
            final(self).document()@.name == old(self).document()@.name,
            final(self).is_on() == old(self).is_on(),
            final(self).room() == old(self).room(),
            final(self).queued() == old(self).queued(),
    {
        let result = doc.remove_shape(id);
        if self.enabled && result.is_some() {
            let key = shape_id_to_string(id);
            let _ = self.crdt.remove_shape(key.as_str());
        }
        result
    }

    /// Export the full CRDT state for initial sync (empty when encoding fails).
    pub fn export_snapshot(&self) -> (bytes: Vec<u8>)
        ensures
            !self.document().detached() && bytes@.len() > 0 ==> snapshot_view(bytes@) == Some(
                self.document()@,
            ),
    {
        self.crdt.export_snapshot()
    }

    /// Export incremental updates since a version (the bytes of an encoded
    /// version vector).
    pub fn export_updates(&self, since: &[u8]) -> (bytes: Vec<u8>)
        ensures
            !decodes_as_version(since@) ==> bytes@.len() == 0,
    {
        self.crdt.export_updates(since)
    }

    /// Import updates from a remote peer; whether the import succeeded.
    pub fn import_updates(&mut self, bytes: &[u8]) -> (ok: bool)
        ensures
            ok == (imported_view(old(self).document().loro(), bytes@) is Some),
            ok ==> imported_view(old(self).document().loro(), bytes@) == Some(
                final(self).document()@,
            ),
            final(self).is_on() == old(self).is_on(),
            final(self).room() == old(self).room(),
            final(self).queued() == old(self).queued(),
    {
        self.crdt.import(bytes).is_ok()
    }

    /// The current version of the CRDT history (an encoded version vector).
    pub fn version(&self) -> (v: Vec<u8>)
        ensures
            decodes_as_version(v@),
    {
        self.crdt.version()
    }

    /// Undo the last local change; nothing happens while collaboration is disabled.
    pub fn undo(&mut self) -> (done: bool)
        ensures
            !old(self).is_on() ==> !done && *final(self) == *old(self),
            old(self).is_on() && !done ==> final(self).document()@ == old(self).document()@,
            final(self).is_on() == old(self).is_on(),
            final(self).room() == old(self).room(),
            final(self).queued() == old(self).queued(),
    {
        if self.enabled {
            self.crdt.undo()
        } else {
            false
        }
    }

    /// Redo the last undone change; nothing happens while collaboration is disabled.
    pub fn redo(&mut self) -> (done: bool)
        ensures
            !old(self).is_on() ==> !done && *final(self) == *old(self),
            old(self).is_on() && !done ==> final(self).document()@ == old(self).document()@,
            final(self).is_on() == old(self).is_on(),
            final(self).room() == old(self).room(),
            final(self).queued() == old(self).queued(),
    {
        if self.enabled {
            self.crdt.redo()
        } else {
            false
        }
    }

    /// Check if undo is available (never while collaboration is disabled).
    pub fn can_undo(&self) -> (b: bool)
        ensures
            !self.is_on() ==> !b,
    {
        if self.enabled {
            self.crdt.can_undo()
        } else {
            false
        }
    }

    /// Check if redo is available (never while collaboration is disabled).
    pub fn can_redo(&self) -> (b: bool)
        ensures
            !self.is_on() ==> !b,
    {
        if self.enabled {
            self.crdt.can_redo()
        } else {
            false
        }
    }

    /// Get the current room ID.
    pub fn current_room(&self) -> (r: Option<&str>)
        ensures
            match r {
                Some(s) => self.room() == Some(s@),
                None => self.room() is None,
            },
    {
        match &self.current_room {
            Some(room) => Some(room.as_str()),
            None => None,
        }
    }

    /// Check if we're in a room.
    pub fn is_in_room(&self) -> (b: bool)
        ensures
            b == (self.room() is Some),
    {
        self.current_room.is_some()
    }

    /// Set the current room (called when the server confirms a join); being in
    /// a room enables collaboration.
    pub fn set_room(&mut self, room: Option<String>)
        ensures
            final(self).room() == (match room {
                Some(r) => Some(r@),
                None => None::<Seq<char>>,
            }),
            final(self).is_on() == (old(self).is_on() || room is Some),
            final(self).document() == old(self).document(),
            final(self).queued() == old(self).queued(),
            final(self).peer() == old(self).peer(),
            final(self).local_awareness() == old(self).local_awareness(),
    {
        let joined = room.is_some();
        self.current_room = room;
        if joined {
            self.enabled = true;
        }
    }

    /// Request to join a room: queues the join message.
    pub fn join_room(&mut self, room: &str)
        ensures
            final(self).queued().len() == old(self).queued().len() + 1,
            final(self).queued().drop_last() == old(self).queued(),
            final(self).queued().last() matches ClientMessage::Join { room: r } && r@ == room@,
            final(self).room() == old(self).room(),
            final(self).is_on() == old(self).is_on(),
            final(self).document() == old(self).document(),
            final(self).peer() == old(self).peer(),
            final(self).local_awareness() == old(self).local_awareness(),
    {
        self.outgoing.push(ClientMessage::Join { room: String::from_str(room) });
    }

    /// Request to leave the current room: when in one, queues the leave
    /// message and forgets the room.
    pub fn leave_room(&mut self)
        ensures
            final(self).room() is None,
            old(self).room() is Some ==> final(self).queued() == old(self).queued().push(
                ClientMessage::Leave,
            ),
            old(self).room() is None ==> final(self).queued() == old(self).queued(),
            final(self).is_on() == old(self).is_on(),
            final(self).document() == old(self).document(),
            final(self).peer() == old(self).peer(),
            final(self).local_awareness() == old(self).local_awareness(),
    {
        if self.current_room.is_some() {
            self.outgoing.push(ClientMessage::Leave);
            self.current_room = None;
        }
    }

    /// Take pending outgoing messages (drains the queue).
    pub fn take_outgoing(&mut self) -> (msgs: Vec<ClientMessage<A>>)
        ensures
            msgs@ == old(self).queued(),
            final(self).queued() == Seq::<ClientMessage<A>>::empty(),
            final(self).room() == old(self).room(),
            final(self).is_on() == old(self).is_on(),
            final(self).document() == old(self).document(),
            final(self).peer() == old(self).peer(),
            final(self).local_awareness() == old(self).local_awareness(),
    {
        let mut msgs: Vec<ClientMessage<A>> = Vec::new();
        std::mem::swap(&mut msgs, &mut self.outgoing);
        msgs
    }

    /// Check if there are pending outgoing messages.
    pub fn has_outgoing(&self) -> (b: bool)
        ensures
            b == (self.queued().len() > 0),
    {
        self.outgoing.len() > 0
    }

    /// Get the local awareness state.
    pub fn awareness(&self) -> (a: &A)
        ensures
            *a == self.local_awareness(),
    {
        &self.awareness
    }

    /// Replace the local awareness state (cursor, user info); when in a room,
    /// a copy of it is queued for the other peers.
    pub fn set_awareness(&mut self, state: A)
        ensures
            final(self).local_awareness() == state,
            old(self).room() is Some ==> queued_one_more(old(self).queued(), final(self).queued())
                && carries_awareness(final(self).queued().last(), old(self).peer(), state),
            old(self).room() is None ==> final(self).queued() == old(self).queued(),
            final(self).room() == old(self).room(),
            final(self).is_on() == old(self).is_on(),
            final(self).document() == old(self).document(),
            final(self).peer() == old(self).peer(),
    {
        self.awareness = state;
        self.queue_awareness();
    }

    /// Queue an awareness broadcast when in a room.
    fn queue_awareness(&mut self)
        ensures
            old(self).room() is Some ==> queued_one_more(old(self).queued(), final(self).queued())
                && carries_awareness(
                final(self).queued().last(),
                old(self).peer(),
                old(self).local_awareness(),
            ),
            old(self).room() is None ==> final(self).queued() == old(self).queued(),
            final(self).local_awareness() == old(self).local_awareness(),
            final(self).room() == old(self).room(),
            final(self).is_on() == old(self).is_on(),
            final(self).document() == old(self).document(),
            final(self).peer() == old(self).peer(),
    {
        if self.current_room.is_some() {
            let state = self.awareness.clone();
            self.outgoing.push(ClientMessage::Awareness { peer_id: self.peer_id, state });
            proof {
                assert(self.outgoing@.drop_last() =~= old(self).outgoing@);
            }
        }
    }

    /// When in a room with collaboration enabled, queue the CRDT snapshot (as
    /// base64 text) for the other peers.
    pub fn broadcast_sync(&mut self)
        ensures
            old(self).room() is Some && old(self).is_on() ==> queued_one_more(
                old(self).queued(),
                final(self).queued(),
            ) && carries_snapshot_of(final(self).queued().last(), old(self).document()),
            !(old(self).room() is Some && old(self).is_on()) ==> final(self).queued() == old(
                self,
            ).queued(),
            final(self).room() == old(self).room(),
            final(self).is_on() == old(self).is_on(),
            final(self).document() == old(self).document(),
            final(self).peer() == old(self).peer(),
            final(self).local_awareness() == old(self).local_awareness(),
    {
        if self.current_room.is_some() && self.enabled {
            let snapshot = self.crdt.export_snapshot();
            let data = encode_base64(snapshot.as_slice());
            self.outgoing.push(ClientMessage::Sync { data });
            proof {
                assert(self.outgoing@.drop_last() =~= old(self).outgoing@);
            }
        }
    }

    /// Handle a message from the server, saying what happened.
    ///
    /// Joining a room records the room, enables collaboration and imports
    /// the room's initial state when it is sent; the event carries those bytes
    /// only when they decoded and were imported. A peer's sync data is decoded
    /// and imported, and reported only when both succeeded. The other messages
    /// are reported as they are.
    pub fn handle_server_message(&mut self, msg: ServerMessage<A>) -> (ev: Option<SyncEvent<A>>)
        ensures
            final(self).queued() == old(self).queued(),
            final(self).peer() == old(self).peer(),
            final(self).local_awareness() == old(self).local_awareness(),
            match msg {
                ServerMessage::Joined { room, peer_count, initial_sync } => {
                    &&& final(self).room() == Some(room@)
                    &&& final(self).is_on()
                    &&& ev matches Some(SyncEvent::JoinedRoom { room: r, peer_count: n, initial_sync: data })
                    &&& r == room
                    &&& n == peer_count
                    &&& match initial_sync {
                        None => data is None && final(self).document() == old(self).document(),
                        Some(text) => import_outcome(
                            old(self).document(),
                            final(self).document(),
                            text@,
                            data,
                        ),
                    }
                },
                ServerMessage::Sync { from, data: text } => {
                    &&& final(self).room() == old(self).room()
                    &&& final(self).is_on() == old(self).is_on()
                    &&& match ev {
                        Some(SyncEvent::SyncReceived { from: f, data: d }) => f == from
                            && import_outcome(
                            old(self).document(),
                            final(self).document(),
                            text@,
                            Some(d),
                        ),
                        None => import_outcome(
                            old(self).document(),
                            final(self).document(),
                            text@,
                            None,
                        ),
                        _ => false,
                    }
                },
                ServerMessage::PeerJoined { peer_id } => ev == Some(
                    SyncEvent::<A>::PeerJoined { peer_id },
                ) && *final(self) == *old(self),
                ServerMessage::PeerLeft { peer_id } => ev == Some(SyncEvent::<A>::PeerLeft { peer_id })
                    && *final(self) == *old(self),
                ServerMessage::Awareness { from, peer_id, state } => ev == Some(
                    SyncEvent::AwarenessReceived { from, peer_id, state },
                ) && *final(self) == *old(self),
                ServerMessage::Error { message } => ev == Some(SyncEvent::<A>::Error { message })
                    && *final(self) == *old(self),
            },
    {
        match msg {
            ServerMessage::Joined { room, peer_count, initial_sync } => {
                self.current_room = Some(room.clone());
                self.enabled = true;
                let initial_data = match initial_sync {
                    Some(text) => self.import_text(text.as_str()),
                    None => None,
                };
                Some(SyncEvent::JoinedRoom { room, peer_count, initial_sync: initial_data })
            },
            ServerMessage::PeerJoined { peer_id } => Some(SyncEvent::PeerJoined { peer_id }),
            ServerMessage::PeerLeft { peer_id } => Some(SyncEvent::PeerLeft { peer_id }),
            ServerMessage::Sync { from, data } => {
                match self.import_text(data.as_str()) {
                    Some(bytes) => Some(SyncEvent::SyncReceived { from, data: bytes }),
                    None => None,
                }
            },
            ServerMessage::Awareness { from, peer_id, state } => {
                Some(SyncEvent::AwarenessReceived { from, peer_id, state })
            },
            ServerMessage::Error { message } => Some(SyncEvent::Error { message }),
        }
    }

    /// Decode base64 text and import the bytes into the CRDT document; the
    /// bytes when both succeeded.
    fn import_text(&mut self, text: &str) -> (data: Option<Vec<u8>>)
        ensures
            import_outcome(old(self).document(), final(self).document(), text@, data),
            final(self).queued() == old(self).queued(),
            final(self).peer() == old(self).peer(),
            final(self).local_awareness() == old(self).local_awareness(),
            final(self).room() == old(self).room(),
            final(self).is_on() == old(self).is_on(),
    {
        match decode_base64(text) {
            Some(bytes) => {
                if self.crdt.import(bytes.as_slice()).is_ok() {
                    Some(bytes)
                } else {
                    None
                }
            },
            None => None,
        }
    }

    /// Sync the local document to the CRDT document (after local operations),
    /// when collaboration is enabled: the CRDT document is cleared and takes
    /// the local name, and each local shape, in z-order, gets its record and
    /// its place on top of the CRDT z-order. The records' maps are returned,
    /// with the shapes' identifiers, for the caller to write the shapes'
    /// fields into and then [`CrdtDocument::commit`]. `None` when
    /// collaboration is disabled (nothing is done).
    pub fn sync_to_crdt<P>(&mut self, doc: &CanvasDocument<P>) -> (records: Option<Vec<(ShapeId, LoroMap)>>)
        ensures
            records is None <==> !old(self).is_on(),
            records is None ==> *final(self) == *old(self),
            !old(self).document().detached() ==> (records matches Some(v) ==> v@.map_values(
                |p: (ShapeId, LoroMap)| p.0,
            ) == synced_ids(doc@.content) && final(self).document()@ == synced_view(doc@)),
            final(self).document().detached() == old(self).document().detached(),
            final(self).is_on() == old(self).is_on(),
            final(self).room() == old(self).room(),
            final(self).queued() == old(self).queued(),
    {
        if !self.enabled {
            return None;
        }
        let ghost attached = !self.crdt.detached();
        let _ = self.crdt.clear();
        proof {
            if attached {
                assert(self.crdt@.z_order =~= Seq::<Option<Seq<char>>>::empty());
                assert(self.crdt@.shape_keys =~= Set::<Seq<char>>::empty());
            }
        }
        let _ = self.crdt.set_name(doc.name_text());
        let z = doc.z_order_ids();
        let n = z.len();
        let mut records: Vec<(ShapeId, LoroMap)> = Vec::new();
        proof {
            if attached {
                let c0 = DocState { z_order: z@.take(0), ..doc@.content };
                assert(z@.take(0) =~= Seq::<ShapeId>::empty());
                assert(synced_ids(c0) =~= Seq::<ShapeId>::empty());
                assert(synced_view(DocView { content: c0, ..doc@ }).z_order =~= self.crdt@.z_order);
                assert(synced_view(DocView { content: c0, ..doc@ }).shape_keys =~= self.crdt@.shape_keys);
                assert(records@.map_values(|p: (ShapeId, LoroMap)| p.0) =~= synced_ids(c0));
            }
        }
        let mut i: usize = 0;
        while i < n
            invariant
                n == z@.len(),
                z@ == doc@.content.z_order,
                i <= n,
                attached == !self.crdt.detached(),
                self.enabled == old(self).enabled,
                self.current_room == old(self).current_room,
                self.outgoing == old(self).outgoing,
                attached ==> records@.map_values(|p: (ShapeId, LoroMap)| p.0) == z@.take(i as int).filter(
                    |id: ShapeId| doc@.content.shapes.contains_key(id),
                ),
                attached ==> self.crdt@ == synced_view(DocView {
                    content: DocState { z_order: z@.take(i as int), ..doc@.content },
                    ..doc@
                }),
            decreases n - i,
        {
            let ghost before = records@;
            proof {
                assert(z@.take(i + 1) =~= z@.take(i as int).push(z@[i as int]));
                z@.take(i as int).lemma_filter_push(
                    z@[i as int],
                    |id: ShapeId| doc@.content.shapes.contains_key(id),
                );
            }
            let id = z[i];
            if doc.get_shape(id).is_some() {
                let key = shape_id_to_string(id);
                match self.crdt.add_shape_record(key.as_str()) {
                    Ok(map) => {
                        let _ = self.crdt.finish_add_shape(key.as_str());
                        records.push((id, map));
                    },
                    Err(_) => {},
                }
                proof {
                    if attached {
                        assert(records@.map_values(|p: (ShapeId, LoroMap)| p.0) =~= before.map_values(
                            |p: (ShapeId, LoroMap)| p.0,
                        ).push(id));
                    }
                }
            }
            proof {
                if attached {
                    let c0 = DocState { z_order: z@.take(i as int), ..doc@.content };
                    let c1 = DocState { z_order: z@.take(i + 1), ..doc@.content };
                    assert(synced_ids(c1) == synced_ids(c0) + if doc@.content.shapes.contains_key(id) {
                        seq![id]
                    } else {
                        Seq::<ShapeId>::empty()
                    });
                    let f = |id: ShapeId| uuid_hyphenated(id);
                    assert(synced_view(DocView { content: c1, ..doc@ }).z_order =~= self.crdt@.z_order);
                    if doc@.content.shapes.contains_key(id) {
                        assert(synced_ids(c1).map_values(f) =~= synced_ids(c0).map_values(f).push(
                            uuid_hyphenated(id),
                        ));
                        synced_ids(c0).map_values(f).lemma_push_to_set_commute(uuid_hyphenated(id));
                    } else {
                        assert(synced_ids(c1) =~= synced_ids(c0));
                    }
                    assert(synced_view(DocView { content: c1, ..doc@ }).shape_keys =~= self.crdt@.shape_keys);
                }
            }
            i = i + 1;
        }
        proof {
            assert(z@.take(n as int) =~= z@);
            assert(DocView { content: DocState { z_order: z@, ..doc@.content }, ..doc@ } == doc@);
        }
        Some(records)
    }

    /// Start syncing the CRDT document to the local document (after remote
    /// updates): the local shapes and z-order are cleared, the local name
    /// becomes the CRDT name unless that is empty, and the CRDT z-order is
    /// returned for the caller to read each shape's fields and add it.
    pub fn begin_sync_from_crdt<P>(&self, doc: &mut CanvasDocument<P>) -> (ids: Vec<String>)
        ensures
            ids@.map_values(|s: String| s@) == entry_texts(self.document()@.z_order),
            final(doc)@.content == empty_state::<P>(),
            final(doc)@.name == if self.document()@.name.len() > 0 {
                self.document()@.name
            } else {
                old(doc)@.name
            },
            final(doc)@.id == old(doc)@.id,
            final(doc)@.undo == old(doc)@.undo,
            final(doc)@.redo == old(doc)@.redo,
    {
        doc.clear();
        let name = self.crdt.name();
        if name.as_str().unicode_len() > 0 {
            doc.set_name(name);
        }
        self.crdt.z_order()
    }

    /// Mirror a z-order move of the shapes `ids` into the CRDT document (see
    /// [`crdt_reorder`] for the order in which they are moved).
    pub fn mirror_reorder(&mut self, a: EditAction, ids: &Vec<ShapeId>)
        requires
            a == EditAction::BringToFront || a == EditAction::SendToBack || a == EditAction::BringForward
                || a == EditAction::SendBackward,
        ensures
            !old(self).document().detached() ==> final(self).document()@.z_order == crdt_reorder(
                old(self).document()@.z_order,
                a,
                ids@,
            ),
            final(self).document()@.shape_keys == old(self).document()@.shape_keys,
            final(self).document()@.name == old(self).document()@.name,
            final(self).document().detached() == old(self).document().detached(),
            final(self).is_on() == old(self).is_on(),
            final(self).room() == old(self).room(),
            final(self).queued() == old(self).queued(),
    {
        let ghost attached = !self.crdt.detached();
        let ghost z0 = self.crdt@.z_order;
        let n = ids.len();
        if a == EditAction::BringToFront || a == EditAction::SendBackward {
            let mut i: usize = 0;
            proof {
                assert(ids@.take(0) =~= Seq::<ShapeId>::empty());
            }
            while i < n
                invariant
                    n == ids@.len(),
                    i <= n,
                    a == EditAction::BringToFront || a == EditAction::SendBackward,
                    attached == !self.crdt.detached(),
                    attached ==> self.crdt@.z_order == crdt_reorder(z0, a, ids@.take(i as int)),
                    self.crdt@.shape_keys == old(self).crdt@.shape_keys,
                    self.crdt@.name == old(self).crdt@.name,
                    self.enabled == old(self).enabled,
                    self.current_room == old(self).current_room,
                    self.outgoing == old(self).outgoing,
                decreases n - i,
            {
                proof {
                    assert(ids@.take(i + 1).drop_last() =~= ids@.take(i as int));
                }
                let key = shape_id_to_string(ids[i]);
                if a == EditAction::BringToFront {
                    let _ = self.crdt.bring_to_front(key.as_str());
                } else {
                    let _ = self.crdt.send_backward(key.as_str());
                }
                i = i + 1;
            }
            proof {
                assert(ids@.take(n as int) =~= ids@);
            }
        } else {
            let mut i: usize = n;
            proof {
                assert(ids@.take(n as int) =~= ids@);
            }
            while i > 0
                invariant
                    n == ids@.len(),
                    i <= n,
                    a == EditAction::SendToBack || a == EditAction::BringForward,
                    attached == !self.crdt.detached(),
                    attached ==> crdt_reorder(self.crdt@.z_order, a, ids@.take(i as int)) == crdt_reorder(
                        z0,
                        a,
                        ids@,
                    ),
                    self.crdt@.shape_keys == old(self).crdt@.shape_keys,
                    self.crdt@.name == old(self).crdt@.name,
                    self.enabled == old(self).enabled,
                    self.current_room == old(self).current_room,
                    self.outgoing == old(self).outgoing,
                decreases i,
            {
                proof {
                    assert(ids@.take(i as int).drop_last() =~= ids@.take(i - 1));
                }
                let key = shape_id_to_string(ids[i - 1]);
                if a == EditAction::SendToBack {
                    let _ = self.crdt.send_to_back(key.as_str());
                } else {
                    let _ = self.crdt.bring_forward(key.as_str());
                }
                i = i - 1;
            }
            proof {
                assert(ids@.take(0) =~= Seq::<ShapeId>::empty());
            }
        }
    }
}

} // verus!
