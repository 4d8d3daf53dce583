//! The collaborative (CRDT) document: a Loro document holding the shapes map,
//! the z-order list of shape identifiers and the document name, with local
//! undo/redo. What a shape's map holds (its geometry) is written and read by
//! the caller; this module keeps the structure: which shapes exist, their
//! stacking order and the name.
use vstd::prelude::*;
use loro::{LoroDoc, LoroEncodeError, LoroError, LoroMap, LoroValue, UndoManager, ValueOrContainer};

verus! {

/// Key for the shapes map in the document.
pub const SHAPES_KEY: &'static str = "shapes";

/// Key for the z-order list in the document.
pub const Z_ORDER_KEY: &'static str = "z_order";

/// Key for the document name.
pub const NAME_KEY: &'static str = "name";

#[verifier::external_type_specification]
#[verifier::external_body]
pub struct ExLoroDoc(LoroDoc);

#[verifier::external_type_specification]
#[verifier::external_body]
pub struct ExLoroError(LoroError);

#[verifier::external_type_specification]
#[verifier::external_body]
pub struct ExLoroEncodeError(LoroEncodeError);

#[verifier::external_type_specification]
#[verifier::external_body]
pub struct ExLoroMap(LoroMap);

#[verifier::external_type_specification]
#[verifier::external_body]
pub struct ExUndoManager(UndoManager);

// ---------------------------------------------------------------------------
// What the Loro document holds
// ---------------------------------------------------------------------------

/// The entries of the document's z-order list, in order: the text of each
/// entry that is a string, `None` for any other entry.
pub uninterp spec fn z_order_entries(doc: LoroDoc) -> Seq<Option<Seq<char>>>;

/// The keys of the document's shapes map.
pub uninterp spec fn shape_keys(doc: LoroDoc) -> Set<Seq<char>>;

/// The text of the document's name.
pub uninterp spec fn doc_name(doc: LoroDoc) -> Seq<char>;

/// Whether `VersionVector::decode` accepts the bytes (it accepts every
/// output of `VersionVector::encode`).
pub uninterp spec fn decodes_as_version(bytes: Seq<u8>) -> bool;

/// What `LoroDoc::is_detached` answers: whether the document's state is
/// checked out at a version other than the latest one.
pub uninterp spec fn doc_detached(doc: LoroDoc) -> bool;

/// What `LoroDoc::import` of `bytes` makes of `doc`: its contents afterwards
/// when the import succeeds, `None` when it fails.
pub uninterp spec fn imported_view(doc: LoroDoc, bytes: Seq<u8>) -> Option<CrdtView>;

/// What `LoroDoc::import` of `bytes` makes of a new, empty document: the
/// contents the bytes carry, `None` when they cannot be imported.
pub uninterp spec fn snapshot_view(bytes: Seq<u8>) -> Option<CrdtView>;

/// The contents of a Loro document, as the contracts see them.
pub open spec fn contents(doc: LoroDoc) -> CrdtView {
    CrdtView { z_order: z_order_entries(doc), shape_keys: shape_keys(doc), name: doc_name(doc) }
}

/// `LoroDoc::new`: a new, attached document, whose containers are all empty;
/// importing bytes into it gives what the bytes carry.
#[verifier::external_body]
fn new_loro_doc() -> (d: LoroDoc)
    ensures
        z_order_entries(d) == Seq::<Option<Seq<char>>>::empty(),
        shape_keys(d) == Set::<Seq<char>>::empty(),
        doc_name(d) == Seq::<char>::empty(),
        !doc_detached(d),
        forall|b: Seq<u8>| #[trigger] imported_view(d, b) == snapshot_view(b),
{
    LoroDoc::new()
}

/// `LoroDoc::import`: merges encoded updates or a snapshot into the document.
/// Whether it succeeds and what the document holds afterwards are named by
/// [`imported_view`]. Whether the document stays detached is not stated.
#[verifier::external_body]
fn import_into(doc: &mut LoroDoc, bytes: &[u8]) -> (r: Result<(), LoroError>)
    ensures
        (r is Ok) == (imported_view(*old(doc), bytes@) is Some),
        r is Ok ==> imported_view(*old(doc), bytes@) == Some(contents(*final(doc))),
{
    doc.import(bytes).map(|_| ())
}

/// `LoroDoc::export`, in snapshot mode: the encoded state of the document.
/// Imported into a new document, a snapshot of an attached document gives its
/// contents. A detached document exports its latest version rather than the
/// checked-out state, so nothing is stated for it. Like every vector, the
/// bytes take at most `isize::MAX` bytes.
#[verifier::external_body]
fn export_snapshot_of(doc: &LoroDoc) -> (r: Result<Vec<u8>, LoroEncodeError>)
    ensures
        !doc_detached(*doc) ==> (r matches Ok(b) ==> snapshot_view(b@) == Some(contents(*doc))),
        r matches Ok(b) ==> b@.len() <= isize::MAX,
{
    doc.export(loro::ExportMode::Snapshot)
}



/// `LoroDoc::oplog_vv`, given as the bytes of `VersionVector::encode`: the
/// version of the document's history. It depends on the history (and the
/// random peer identifiers in it), not only on the contents; nothing is stated.
#[verifier::external_body]
fn encoded_version(doc: &LoroDoc) -> (v: Vec<u8>)
    ensures
        decodes_as_version(v@),
{
    doc.oplog_vv().encode()
}

/// `LoroDoc::export` of the updates since the version that `since` holds (read
/// with `VersionVector::decode`): `None` when that version cannot be read or
/// the export fails. The bytes depend on the history; nothing is stated.
#[verifier::external_body]
fn export_updates_of(doc: &LoroDoc, since: &[u8]) -> (r: Option<Vec<u8>>)
    ensures
        !decodes_as_version(since@) ==> r is None,
{
    match loro::VersionVector::decode(since) {
        Ok(vv) => doc.export(loro::ExportMode::updates(&vv)).ok(),
        Err(_) => None,
    }
}

/// `LoroDoc::peer_id`: the random identifier of this peer; nothing is stated.
#[verifier::external_body]
pub(crate) fn peer_id_of(doc: &LoroDoc) -> (p: u64) {
    doc.peer_id()
}

/// `LoroDoc::is_detached`.
#[verifier::external_body]
fn detached_of(doc: &LoroDoc) -> (b: bool)
    ensures
        b == doc_detached(*doc),
{
    doc.is_detached()
}

/// `LoroDoc::commit`: closes the pending transaction. The state of the
/// containers is already that of the operations applied, so it stays as it is.
#[verifier::external_body]
fn commit(doc: &LoroDoc) {
    doc.commit()
}

// The edits below go through Loro's transaction (`with_txn`), which starts
// one whenever the document can be edited; an attached document always can,
// so on it they succeed (given positions in range). A detached document
// refuses edits unless detached editing was turned on.

/// `LoroList::len` on the z-order list.
#[verifier::external_body]
fn z_order_len(doc: &LoroDoc) -> (n: usize)
    ensures
        n == z_order_entries(*doc).len(),
{
    doc.get_list(Z_ORDER_KEY).len()
}

/// `LoroList::get` on the z-order list: the entry's text when it is a string.
#[verifier::external_body]
fn z_order_text_at(doc: &LoroDoc, i: usize) -> (r: Option<String>)
    requires
        i < z_order_entries(*doc).len(),
    ensures
        match r {
            Some(s) => z_order_entries(*doc)[i as int] == Some(s@),
            None => z_order_entries(*doc)[i as int] is None,
        },
{
    match doc.get_list(Z_ORDER_KEY).get(i) {
        Some(ValueOrContainer::Value(LoroValue::String(s))) => Some(s.to_string()),
        _ => None,
    }
}

/// `LoroList::delete` on the z-order list: on success the `n` entries from
/// `pos` are gone. Other containers are not touched.
#[verifier::external_body]
fn z_order_delete(doc: &mut LoroDoc, pos: usize, n: usize) -> (r: Result<(), LoroError>)
    requires
        pos + n <= z_order_entries(*old(doc)).len(),
    ensures
        r is Ok ==> z_order_entries(*final(doc)) == z_order_entries(*old(doc)).subrange(0, pos as int)
            + z_order_entries(*old(doc)).subrange(pos + n, z_order_entries(*old(doc)).len() as int),
        shape_keys(*final(doc)) == shape_keys(*old(doc)),
        doc_name(*final(doc)) == doc_name(*old(doc)),
        doc_detached(*final(doc)) == doc_detached(*old(doc)),
        !doc_detached(*old(doc)) ==> r is Ok,
{
    doc.get_list(Z_ORDER_KEY).delete(pos, n)
}

/// `LoroList::insert` of a string on the z-order list: on success it is the
/// entry at `pos`. Other containers are not touched.
#[verifier::external_body]
fn z_order_insert(doc: &mut LoroDoc, pos: usize, id: &str) -> (r: Result<(), LoroError>)
    requires
        pos <= z_order_entries(*old(doc)).len(),
    ensures
        r is Ok ==> z_order_entries(*final(doc)) == z_order_entries(*old(doc)).insert(
            pos as int,
            Some(id@),
        ),
        shape_keys(*final(doc)) == shape_keys(*old(doc)),
        doc_name(*final(doc)) == doc_name(*old(doc)),
        doc_detached(*final(doc)) == doc_detached(*old(doc)),
        !doc_detached(*old(doc)) ==> r is Ok,
{
    doc.get_list(Z_ORDER_KEY).insert(pos, LoroValue::String(id.to_string().into()))
}

/// `LoroList::push` of a string on the z-order list: on success it is the
/// last entry. Other containers are not touched.
#[verifier::external_body]
fn z_order_push(doc: &mut LoroDoc, id: &str) -> (r: Result<(), LoroError>)
    ensures
        r is Ok ==> z_order_entries(*final(doc)) == z_order_entries(*old(doc)).push(Some(id@)),
        shape_keys(*final(doc)) == shape_keys(*old(doc)),
        doc_name(*final(doc)) == doc_name(*old(doc)),
        doc_detached(*final(doc)) == doc_detached(*old(doc)),
        !doc_detached(*old(doc)) ==> r is Ok,
{
    doc.get_list(Z_ORDER_KEY).push(LoroValue::String(id.to_string().into()))
}

/// `LoroMap::len` on the shapes map: the number of keys.
#[verifier::external_body]
fn shapes_len(doc: &LoroDoc) -> (n: usize)
    ensures
        n == shape_keys(*doc).len(),
{
    doc.get_map(SHAPES_KEY).len()
}

/// `LoroMap::keys` on the shapes map, each key as a string, without repetition.
#[verifier::external_body]
fn shapes_key_list(doc: &LoroDoc) -> (keys: Vec<String>)
    ensures
        keys@.map_values(|k: String| k@).to_set() == shape_keys(*doc),
        keys@.map_values(|k: String| k@).no_duplicates(),
{
    doc.get_map(SHAPES_KEY).keys().map(|k| k.to_string()).collect()
}

/// `LoroMap::delete` on the shapes map: on success the key is gone. Other
/// containers are not touched.
#[verifier::external_body]
fn shapes_delete(doc: &mut LoroDoc, key: &str) -> (r: Result<(), LoroError>)
    ensures
        r is Ok ==> shape_keys(*final(doc)) == shape_keys(*old(doc)).remove(key@),
        z_order_entries(*final(doc)) == z_order_entries(*old(doc)),
        doc_name(*final(doc)) == doc_name(*old(doc)),
        doc_detached(*final(doc)) == doc_detached(*old(doc)),
        !doc_detached(*old(doc)) ==> r is Ok,
{
    doc.get_map(SHAPES_KEY).delete(key)
}

/// `LoroMap::insert_container` of a new map on the shapes map: on success the
/// key holds the returned (empty) map. Other containers are not touched.
#[verifier::external_body]
fn shapes_insert_map(doc: &mut LoroDoc, key: &str) -> (r: Result<LoroMap, LoroError>)
    ensures
        r is Ok ==> shape_keys(*final(doc)) == shape_keys(*old(doc)).insert(key@),
        z_order_entries(*final(doc)) == z_order_entries(*old(doc)),
        doc_name(*final(doc)) == doc_name(*old(doc)),
        doc_detached(*final(doc)) == doc_detached(*old(doc)),
        !doc_detached(*old(doc)) ==> r is Ok,
{
    doc.get_map(SHAPES_KEY).insert_container(key, LoroMap::new())
}

/// `LoroText::to_string` on the name text.
#[verifier::external_body]
fn name_text(doc: &LoroDoc) -> (s: String)
    ensures
        s@ == doc_name(*doc),
{
    doc.get_text(NAME_KEY).to_string()
}

/// `LoroText::len_unicode` on the name text: its number of characters.
#[verifier::external_body]
fn name_len(doc: &LoroDoc) -> (n: usize)
    ensures
        n == doc_name(*doc).len(),
{
    doc.get_text(NAME_KEY).len_unicode()
}

/// `LoroText::delete` on the name text: on success the `n` characters from
/// `pos` are gone. Other containers are not touched.
#[verifier::external_body]
fn name_delete(doc: &mut LoroDoc, pos: usize, n: usize) -> (r: Result<(), LoroError>)
    requires
        pos + n <= doc_name(*old(doc)).len(),
    ensures
        r is Ok ==> doc_name(*final(doc)) == doc_name(*old(doc)).subrange(0, pos as int) + doc_name(
            *old(doc),
        ).subrange(pos + n, doc_name(*old(doc)).len() as int),
        z_order_entries(*final(doc)) == z_order_entries(*old(doc)),
        shape_keys(*final(doc)) == shape_keys(*old(doc)),
        doc_detached(*final(doc)) == doc_detached(*old(doc)),
        !doc_detached(*old(doc)) ==> r is Ok,
{
    doc.get_text(NAME_KEY).delete(pos, n)
}

/// `LoroText::insert` on the name text: on success `s` stands at `pos`. Other
/// containers are not touched.
#[verifier::external_body]
fn name_insert(doc: &mut LoroDoc, pos: usize, s: &str) -> (r: Result<(), LoroError>)
    requires
        pos <= doc_name(*old(doc)).len(),
    ensures
        r is Ok ==> doc_name(*final(doc)) == doc_name(*old(doc)).subrange(0, pos as int) + s@
            + doc_name(*old(doc)).subrange(pos as int, doc_name(*old(doc)).len() as int),
        z_order_entries(*final(doc)) == z_order_entries(*old(doc)),
        shape_keys(*final(doc)) == shape_keys(*old(doc)),
        doc_detached(*final(doc)) == doc_detached(*old(doc)),
        !doc_detached(*old(doc)) ==> r is Ok,
{
    doc.get_text(NAME_KEY).insert(pos, s)
}

/// `UndoManager::new`: undo/redo of the local changes to `doc`. The manager's
/// history is shared state that every local commit updates; nothing is stated.
#[verifier::external_body]
fn new_undo_manager(doc: &LoroDoc) -> (u: UndoManager) {
    UndoManager::new(doc)
}

/// `UndoManager::set_max_undo_steps`.
#[verifier::external_body]
fn set_max_undo_steps(u: &mut UndoManager, n: usize) {
    u.set_max_undo_steps(n)
}

/// `UndoManager::set_merge_interval`: local edits closer in time than this
/// many milliseconds form one undo step.
#[verifier::external_body]
fn set_merge_interval(u: &mut UndoManager, ms: i64) {
    u.set_merge_interval(ms)
}

/// `UndoManager::undo`: reverts the last local change to the document. Loro
/// returns `false` when no local operation was generated, and then the
/// contents are as they were; an error rolls the attempt back, leaving the
/// contents as they were too. Otherwise what the document holds afterwards
/// depends on the undo history, which merges steps by time, and is not stated.
#[verifier::external_body]
fn undo_step(d: &mut CrdtDocument) -> (r: Result<bool, LoroError>)
    ensures
        r == Ok::<bool, LoroError>(false) ==> final(d)@ == old(d)@,
        r is Err ==> final(d)@ == old(d)@,
{
    d.undo_manager.undo()
}

/// `UndoManager::redo`: reapplies the last undone change. As for `undo`, a
/// `false` from Loro means no local operation was generated and an error is
/// rolled back, and then the contents are as they were; otherwise nothing is
/// stated.
#[verifier::external_body]
fn redo_step(d: &mut CrdtDocument) -> (r: Result<bool, LoroError>)
    ensures
        r == Ok::<bool, LoroError>(false) ==> final(d)@ == old(d)@,
        r is Err ==> final(d)@ == old(d)@,
{
    d.undo_manager.redo()
}

/// `UndoManager::can_undo`. The answer depends on the shared undo history,
/// which local commits change behind the manager's value; nothing is stated.
#[verifier::external_body]
fn manager_can_undo(u: &UndoManager) -> (b: bool) {
    u.can_undo()
}

/// `UndoManager::can_redo`; as for `can_undo`, nothing is stated.
#[verifier::external_body]
fn manager_can_redo(u: &UndoManager) -> (b: bool) {
    u.can_redo()
}

/// `UndoManager::undo_count`; as for `can_undo`, nothing is stated.
#[verifier::external_body]
fn manager_undo_count(u: &UndoManager) -> (n: usize) {
    u.undo_count()
}

/// `UndoManager::redo_count`; as for `can_undo`, nothing is stated.
#[verifier::external_body]
fn manager_redo_count(u: &UndoManager) -> (n: usize) {
    u.redo_count()
}

/// `UndoManager::record_new_checkpoint`.
#[verifier::external_body]
fn manager_record_checkpoint(u: &mut UndoManager) -> (r: Result<(), LoroError>) {
    u.record_new_checkpoint()
}

/// `UndoManager::group_start`.
#[verifier::external_body]
fn manager_group_start(u: &mut UndoManager) -> (r: Result<(), LoroError>) {
    u.group_start()
}

/// `UndoManager::group_end`.
#[verifier::external_body]
fn manager_group_end(u: &mut UndoManager) {
    u.group_end()
}

/// `UndoManager::clear`: forgets the undo and redo history.
#[verifier::external_body]
fn manager_clear(u: &UndoManager) {
    u.clear()
}

// ---------------------------------------------------------------------------
// The z-order as entries
// ---------------------------------------------------------------------------

/// `i` is the position of the first entry holding `id`.
pub open spec fn is_first_entry(s: Seq<Option<Seq<char>>>, id: Seq<char>, i: int) -> bool {
    &&& 0 <= i < s.len()
    &&& s[i] == Some(id)
    &&& forall|j: int| 0 <= j < i ==> s[j] != Some(id)
}

/// Whether some entry holds `id`.
pub open spec fn holds_entry(s: Seq<Option<Seq<char>>>, id: Seq<char>) -> bool {
    exists|i: int| 0 <= i < s.len() && s[i] == Some(id)
}

/// The position of the first entry holding `id` (meaningful when there is one).
pub open spec fn first_entry(s: Seq<Option<Seq<char>>>, id: Seq<char>) -> int {
    choose|i: int| is_first_entry(s, id, i)
}

/// The entries without the first one holding `id`.
pub open spec fn without_first(s: Seq<Option<Seq<char>>>, id: Seq<char>) -> Seq<Option<Seq<char>>> {
    if holds_entry(s, id) {
        s.remove(first_entry(s, id))
    } else {
        s
    }
}

/// The texts of the entries that are strings, in order.
pub open spec fn entry_texts(s: Seq<Option<Seq<char>>>) -> Seq<Seq<char>>
    decreases s.len(),
{
    if s.len() == 0 {
        Seq::empty()
    } else {
        let init = entry_texts(s.drop_last());
        match s.last() {
            Some(t) => init.push(t),
            None => init,
        }
    }
}

/// Whether the first entry holding `id` has a string entry after it.
pub open spec fn can_move_forward(s: Seq<Option<Seq<char>>>, id: Seq<char>) -> bool {
    holds_entry(s, id) && first_entry(s, id) + 1 < s.len() && s[first_entry(s, id) + 1] is Some
}

/// Whether the first entry holding `id` has a string entry before it.
pub open spec fn can_move_backward(s: Seq<Option<Seq<char>>>, id: Seq<char>) -> bool {
    holds_entry(s, id) && first_entry(s, id) > 0 && s[first_entry(s, id) - 1] is Some
}

/// The entries with those at `i` and `i + 1` exchanged.
pub open spec fn swapped(s: Seq<Option<Seq<char>>>, i: int) -> Seq<Option<Seq<char>>> {
    s.update(i, s[i + 1]).update(i + 1, s[i])
}

/// There is one first position of an entry.
pub proof fn lemma_first_entry(s: Seq<Option<Seq<char>>>, id: Seq<char>, i: int)
    requires
        is_first_entry(s, id, i),
    ensures
        holds_entry(s, id),
        first_entry(s, id) == i,
{
    let k = first_entry(s, id);
    assert(is_first_entry(s, id, k));
    if k < i {
        assert(s[k] != Some(id));
    }
    if i < k {
        assert(s[i] != Some(id));
    }
}

/// Moving a shape one layer forward past another shape and then one layer
/// backward gives back the z-order it had.
pub proof fn lemma_backward_undoes_forward(s: Seq<Option<Seq<char>>>, id: Seq<char>)
    requires
        can_move_forward(s, id),
        s[first_entry(s, id) + 1] != Some(id),
    ensures
        can_move_backward(swapped(s, first_entry(s, id)), id),
        first_entry(swapped(s, first_entry(s, id)), id) == first_entry(s, id) + 1,
        swapped(swapped(s, first_entry(s, id)), first_entry(swapped(s, first_entry(s, id)), id) - 1)
            == s,
{
    lemma_first_entry_exists(s, id);
    let i = first_entry(s, id);
    let t = swapped(s, i);
    assert(is_first_entry(t, id, i + 1)) by {
        assert forall|j: int| 0 <= j < i + 1 implies t[j] != Some(id) by {
            if j < i {
                assert(t[j] == s[j]);
            }
        }
    }
    lemma_first_entry(t, id, i + 1);
    assert(swapped(t, i) =~= s);
}

/// Moving a shape one layer backward past another shape and then one layer
/// forward gives back the z-order it had.
pub proof fn lemma_forward_undoes_backward(s: Seq<Option<Seq<char>>>, id: Seq<char>)
    requires
        can_move_backward(s, id),
    ensures
        can_move_forward(swapped(s, first_entry(s, id) - 1), id),
        first_entry(swapped(s, first_entry(s, id) - 1), id) == first_entry(s, id) - 1,
        swapped(swapped(s, first_entry(s, id) - 1), first_entry(s, id) - 1) == s,
{
    lemma_first_entry_exists(s, id);
    let i = first_entry(s, id);
    let t = swapped(s, i - 1);
    assert(is_first_entry(t, id, i - 1)) by {
        assert forall|j: int| 0 <= j < i - 1 implies t[j] != Some(id) by {
            assert(t[j] == s[j]);
        }
    }
    lemma_first_entry(t, id, i - 1);
    assert(swapped(t, i - 1) =~= s);
}

/// When some entry holds `id`, there is a first one.
proof fn lemma_first_entry_exists(s: Seq<Option<Seq<char>>>, id: Seq<char>)
    requires
        holds_entry(s, id),
    ensures
        is_first_entry(s, id, first_entry(s, id)),
    decreases s.len(),
{
    let init = s.drop_last();
    if holds_entry(init, id) {
        lemma_first_entry_exists(init, id);
        let k = first_entry(init, id);
        assert(s[k] == init[k]);
        assert forall|j: int| 0 <= j < k implies s[j] != Some(id) by {
            assert(s[j] == init[j]);
        }
        assert(is_first_entry(s, id, k));
        lemma_first_entry(s, id, k);
    } else {
        let i = choose|i: int| 0 <= i < s.len() && s[i] == Some(id);
        if i < s.len() - 1 {
            assert(init[i] == Some(id));
        }
        assert forall|j: int| 0 <= j < s.len() - 1 implies s[j] != Some(id) by {
            if s[j] == Some(id) {
                assert(init[j] == Some(id));
            }
        }
        assert(is_first_entry(s, id, s.len() - 1));
        lemma_first_entry(s, id, s.len() - 1);
    }
}

/// After bringing a shape to the front it is the top entry, and after sending
/// it to the back the bottom one; the other entries stay, one entry holding
/// the shape fewer when it was there.
pub proof fn lemma_front_and_back_positions(s: Seq<Option<Seq<char>>>, id: Seq<char>)
    ensures
        without_first(s, id).push(Some(id)).last() == Some(id),
        (seq![Some(id)] + without_first(s, id))[0] == Some(id),
        without_first(s, id).len() == if holds_entry(s, id) {
            s.len() - 1
        } else {
            s.len() as int
        },
{
    if holds_entry(s, id) {
        lemma_first_entry_exists(s, id);
    }
}

/// Position of the first z-order entry holding `id`, if any.
fn find_entry(doc: &LoroDoc, id: &str) -> (r: Option<usize>)
    ensures
        match r {
            Some(i) => is_first_entry(z_order_entries(*doc), id@, i as int) && first_entry(
                z_order_entries(*doc),
                id@,
            ) == i && holds_entry(z_order_entries(*doc), id@),
            None => !holds_entry(z_order_entries(*doc), id@),
        },
{
    let n = z_order_len(doc);
    let ghost s = z_order_entries(*doc);
    let mut i: usize = 0;
    while i < n
        invariant
            n == s.len(),
            s == z_order_entries(*doc),
            i <= n,
            forall|j: int| 0 <= j < i ==> s[j] != Some(id@),
        decreases n - i,
    {
        match z_order_text_at(doc, i) {
            Some(t) => {
                if crate::text_util::str_equals(t.as_str(), id) {
                    proof {
                        lemma_first_entry(s, id@, i as int);
                    }
                    return Some(i);
                }
            },
            None => {},
        }
        i = i + 1;
    }
    None
}

/// Remove the first z-order entry holding `id`, if any.
fn remove_first_entry(doc: &mut LoroDoc, id: &str) -> (r: Result<(), LoroError>)
    ensures
        !doc_detached(*old(doc)) ==> r is Ok,
        r is Ok ==> z_order_entries(*final(doc)) == without_first(z_order_entries(*old(doc)), id@),
        shape_keys(*final(doc)) == shape_keys(*old(doc)),
        doc_name(*final(doc)) == doc_name(*old(doc)),
        !holds_entry(z_order_entries(*old(doc)), id@) ==> r is Ok && *final(doc) == *old(doc),
        doc_detached(*final(doc)) == doc_detached(*old(doc)),
{
    match find_entry(doc, id) {
        Some(i) => {
            let ghost s = z_order_entries(*doc);
            let r = z_order_delete(doc, i, 1);
            proof {
                assert(s.subrange(0, i as int) + s.subrange(i + 1, s.len() as int) =~= s.remove(
                    i as int,
                ));
            }
            r
        },
        None => Ok(()),
    }
}

// ---------------------------------------------------------------------------
// The document
// ---------------------------------------------------------------------------

/// What a CRDT document holds, as the contracts see it.
pub ghost struct CrdtView {
    /// The z-order entries (see [`z_order_entries`]).
    pub z_order: Seq<Option<Seq<char>>>,
    /// The identifiers of the shapes.
    pub shape_keys: Set<Seq<char>>,
    /// The document name.
    pub name: Seq<char>,
}

/// A CRDT-backed document for collaborative editing.
///
/// This wraps a `LoroDoc` and provides a high-level API for working with shapes.
/// It also includes an `UndoManager` for local undo/redo operations.
///
/// A `LoroDoc` is a shared handle: the undo manager holds a clone of it, and
/// Loro's own methods act through `&`. The contents named above stay tied to
/// the document's value because every change of them goes through a wrapper
/// that takes the document (or this struct, for undo and redo) by `&mut`, and
/// because Loro applies an operation's state when the operation is made, so a
/// commit through `&` changes nothing that they read. A caller that edits the
/// document through [`Self::loro_doc`] leaves these contracts behind.
pub struct CrdtDocument {
    /// The underlying Loro document.
    doc: LoroDoc,
    /// Undo manager for local undo/redo.
    undo_manager: UndoManager,
}

impl View for CrdtDocument {
    type V = CrdtView;

    closed spec fn view(&self) -> CrdtView {
        contents(self.doc)
    }
}

impl CrdtDocument {
    /// The underlying Loro document.
    pub closed spec fn loro(self) -> LoroDoc {
        self.doc
    }

    /// Whether the underlying document is detached (checked out at an older
    /// version).
    pub closed spec fn detached(self) -> bool {
        doc_detached(self.doc)
    }

    /// Whether the underlying document is detached; a snapshot of a detached
    /// document carries its latest version, not the checked-out state.
    pub fn is_detached(&self) -> (b: bool)
        ensures
            b == self.detached(),
    {
        detached_of(&self.doc)
    }

    /// The undo manager, with its usual settings: at most 100 undo steps, and
    /// edits within 300 ms merged into one step.
    fn undo_manager_for(doc: &LoroDoc) -> (u: UndoManager) {
        let mut u = new_undo_manager(doc);
        set_max_undo_steps(&mut u, 100);
        set_merge_interval(&mut u, 300);
        u
    }

    /// Create a new empty CRDT document.
    pub fn new() -> (d: Self)
        ensures
            d@ == (CrdtView {
                z_order: Seq::empty(),
                shape_keys: Set::empty(),
                name: Seq::empty(),
            }),
            !d.detached(),
    {
        let doc = new_loro_doc();
        let undo_manager = Self::undo_manager_for(&doc);
        CrdtDocument { doc, undo_manager }
    }

    /// Create a CRDT document from a snapshot (or updates), failing when the
    /// bytes cannot be imported.
    pub fn from_snapshot(bytes: &[u8]) -> (r: Result<Self, LoroError>)
        ensures
            (r is Ok) == (snapshot_view(bytes@) is Some),
            r matches Ok(d) ==> snapshot_view(bytes@) == Some(d@),
    {
        let mut doc = new_loro_doc();
        match import_into(&mut doc, bytes) {
            Ok(()) => {
                let undo_manager = Self::undo_manager_for(&doc);
                Ok(CrdtDocument { doc, undo_manager })
            },
            Err(e) => Err(e),
        }
    }

    /// Get the underlying LoroDoc.
    pub fn loro_doc(&self) -> (d: &LoroDoc)
        ensures
            *d == self.loro(),
    {
        &self.doc
    }

    /// Get a mutable reference to the underlying LoroDoc.
    pub fn loro_doc_mut(&mut self) -> (d: &mut LoroDoc)
        ensures
            *d == old(self).loro(),
            final(self).loro() == *final(d),
    {
        &mut self.doc
    }

    /// Get the number of shapes in the document.
    pub fn shape_count(&self) -> (n: usize)
        ensures
            n == self@.shape_keys.len(),
    {
        shapes_len(&self.doc)
    }

    /// Get the z-order as a list of shape IDs (the string entries, in order).
    pub fn z_order(&self) -> (ids: Vec<String>)
        ensures
            ids@.map_values(|s: String| s@) == entry_texts(self@.z_order),
    {
        let n = z_order_len(&self.doc);
        let ghost s = z_order_entries(self.doc);
        let mut result: Vec<String> = Vec::new();
        let mut i: usize = 0;
        while i < n
            invariant
                n == s.len(),
                s == z_order_entries(self.doc),
                i <= n,
                result@.map_values(|t: String| t@) == entry_texts(s.take(i as int)),
            decreases n - i,
        {
            let ghost before = result@;
            proof {
                assert(s.take(i + 1).drop_last() =~= s.take(i as int));
            }
            match z_order_text_at(&self.doc, i) {
                Some(t) => {
                    result.push(t);
                    proof {
                        assert(result@.map_values(|t: String| t@) =~= before.map_values(
                            |t: String| t@,
                        ).push(s[i as int]->0));
                    }
                },
                None => {},
            }
            i = i + 1;
        }
        proof {
            assert(s.take(n as int) =~= s);
        }
        result
    }

    /// Start adding a shape: its identifier gets a new, empty map in the shapes
    /// map, which is returned for the caller to write the shape's fields into;
    /// [`Self::finish_add_shape`] then puts it in the z-order.
    pub fn add_shape_record(&mut self, id: &str) -> (r: Result<LoroMap, LoroError>)
        ensures
            !old(self).detached() ==> r is Ok,
            final(self).detached() == old(self).detached(),
            final(self)@.z_order == old(self)@.z_order,
            final(self)@.name == old(self)@.name,
            r is Ok ==> final(self)@.shape_keys == old(self)@.shape_keys.insert(id@),
    {
        shapes_insert_map(&mut self.doc, id)
    }

    /// Finish adding a shape: its identifier goes on top of the z-order and the
    /// transaction is committed.
    pub fn finish_add_shape(&mut self, id: &str) -> (r: Result<(), LoroError>)
        ensures
            !old(self).detached() ==> r is Ok,
            final(self).detached() == old(self).detached(),
            final(self)@.shape_keys == old(self)@.shape_keys,
            final(self)@.name == old(self)@.name,
            r is Ok ==> final(self)@.z_order == old(self)@.z_order.push(Some(id@)),
    {
        let r = z_order_push(&mut self.doc, id);
        if r.is_ok() {
            commit(&self.doc);
        }
        r
    }

    /// Start updating a shape: its old data is removed and it gets a new,
    /// empty map, returned for the caller to write the shape's fields into,
    /// then commit.
    pub fn replace_shape_record(&mut self, id: &str) -> (r: Result<LoroMap, LoroError>)
        ensures
            !old(self).detached() ==> r is Ok,
            final(self).detached() == old(self).detached(),
            final(self)@.z_order == old(self)@.z_order,
            final(self)@.name == old(self)@.name,
            r is Ok ==> final(self)@.shape_keys == old(self)@.shape_keys.insert(id@),
    {
        match shapes_delete(&mut self.doc, id) {
            Ok(()) => {
                let ghost removed = shape_keys(self.doc);
                let r = shapes_insert_map(&mut self.doc, id);
                proof {
                    assert(removed.insert(id@) =~= old(self)@.shape_keys.insert(id@));
                }
                r
            },
            Err(e) => Err(e),
        }
    }

    /// Commit the pending changes (after writing a shape's fields).
    pub fn commit(&self) {
        commit(&self.doc)
    }

    /// Remove a shape from the document: its entry in the shapes map and its
    /// first entry in the z-order.
    pub fn remove_shape(&mut self, id: &str) -> (r: Result<(), LoroError>)
        ensures
            !old(self).detached() ==> r is Ok,
            final(self).detached() == old(self).detached(),
            final(self)@.name == old(self)@.name,
            r is Ok ==> final(self)@.shape_keys == old(self)@.shape_keys.remove(id@)
                && final(self)@.z_order == without_first(old(self)@.z_order, id@),
    {
        match shapes_delete(&mut self.doc, id) {
            Ok(()) => {},
            Err(e) => {
                return Err(e);
            },
        }
        let r = remove_first_entry(&mut self.doc, id);
        if r.is_ok() {
            commit(&self.doc);
        }
        r
    }

    /// Bring a shape to the front: its first z-order entry is removed and the
    /// identifier is appended at the top (also when it was not there).
    pub fn bring_to_front(&mut self, id: &str) -> (r: Result<(), LoroError>)
        ensures
            !old(self).detached() ==> r is Ok,
            final(self).detached() == old(self).detached(),
            final(self)@.shape_keys == old(self)@.shape_keys,
            final(self)@.name == old(self)@.name,
            r is Ok ==> final(self)@.z_order == without_first(old(self)@.z_order, id@).push(
                Some(id@),
            ),
    {
        match remove_first_entry(&mut self.doc, id) {
            Ok(()) => {},
            Err(e) => {
                return Err(e);
            },
        }
        let r = z_order_push(&mut self.doc, id);
        if r.is_ok() {
            commit(&self.doc);
        }
        r
    }

    /// Send a shape to the back: its first z-order entry is removed and the
    /// identifier is put at the bottom (also when it was not there).
    pub fn send_to_back(&mut self, id: &str) -> (r: Result<(), LoroError>)
        ensures
            !old(self).detached() ==> r is Ok,
            final(self).detached() == old(self).detached(),
            final(self)@.shape_keys == old(self)@.shape_keys,
            final(self)@.name == old(self)@.name,
            r is Ok ==> final(self)@.z_order == seq![Some(id@)] + without_first(
                old(self)@.z_order,
                id@,
            ),
    {
        match remove_first_entry(&mut self.doc, id) {
            Ok(()) => {},
            Err(e) => {
                return Err(e);
            },
        }
        let r = z_order_insert(&mut self.doc, 0, id);
        if r.is_ok() {
            commit(&self.doc);
            proof {
                assert(old(self)@.z_order.len() >= 0);
                assert(without_first(old(self)@.z_order, id@).insert(0, Some(id@)) =~= seq![
                    Some(id@),
                ] + without_first(old(self)@.z_order, id@));
            }
        }
        r
    }

    /// Exchange the z-order entries at `i` and `i + 1`, which hold `id` and
    /// `other`, by deleting both and inserting them back the other way round.
    fn swap_entries(&mut self, i: usize, id: &str, other: &str) -> (r: Result<(), LoroError>)
        requires
            i + 1 < old(self)@.z_order.len(),
            old(self)@.z_order[i as int] == Some(id@),
            old(self)@.z_order[i + 1] == Some(other@),
        ensures
            !old(self).detached() ==> r is Ok,
            final(self).detached() == old(self).detached(),
            final(self)@.shape_keys == old(self)@.shape_keys,
            final(self)@.name == old(self)@.name,
            r is Ok ==> final(self)@.z_order == swapped(old(self)@.z_order, i as int),
    {
        let ghost s = z_order_entries(self.doc);
        match z_order_delete(&mut self.doc, i, 2) {
            Ok(()) => {},
            Err(e) => {
                return Err(e);
            },
        }
        let ghost s1 = z_order_entries(self.doc);
        match z_order_insert(&mut self.doc, i, id) {
            Ok(()) => {},
            Err(e) => {
                return Err(e);
            },
        }
        let ghost s2 = z_order_entries(self.doc);
        let r = z_order_insert(&mut self.doc, i, other);
        if r.is_ok() {
            commit(&self.doc);
            proof {
                assert(s2 =~= s.subrange(0, i as int) + seq![Some(id@)] + s.subrange(
                    i + 2,
                    s.len() as int,
                ));
                assert(z_order_entries(self.doc) =~= swapped(s, i as int));
            }
        }
        r
    }

    /// Move a shape one layer forward (towards the front), exchanging its first
    /// z-order entry with the next one. Returns whether it moved: it stays when
    /// it is absent, at the top, or the next entry is not a string.
    pub fn bring_forward(&mut self, id: &str) -> (r: Result<bool, LoroError>)
        ensures
            !old(self).detached() ==> r is Ok,
            final(self).detached() == old(self).detached(),
            final(self)@.shape_keys == old(self)@.shape_keys,
            final(self)@.name == old(self)@.name,
            !can_move_forward(old(self)@.z_order, id@) ==> r == Ok::<bool, LoroError>(false)
                && final(self)@ == old(self)@,
            can_move_forward(old(self)@.z_order, id@) ==> (r is Ok ==> r == Ok::<bool, LoroError>(
                true,
            ) && final(self)@.z_order == swapped(
                old(self)@.z_order,
                first_entry(old(self)@.z_order, id@),
            )),
    {
        let len = z_order_len(&self.doc);
        match find_entry(&self.doc, id) {
            Some(i) => {
                if i + 1 < len {
                    match z_order_text_at(&self.doc, i + 1) {
                        Some(next) => {
                            return match self.swap_entries(i, id, next.as_str()) {
                                Ok(()) => Ok(true),
                                Err(e) => Err(e),
                            };
                        },
                        None => {},
                    }
                }
            },
            None => {},
        }
        Ok(false)
    }

    /// Move a shape one layer backward (towards the back), exchanging its first
    /// z-order entry with the previous one. Returns whether it moved: it stays
    /// when it is absent, at the bottom, or the previous entry is not a string.
    pub fn send_backward(&mut self, id: &str) -> (r: Result<bool, LoroError>)
        ensures
            !old(self).detached() ==> r is Ok,
            final(self).detached() == old(self).detached(),
            final(self)@.shape_keys == old(self)@.shape_keys,
            final(self)@.name == old(self)@.name,
            !can_move_backward(old(self)@.z_order, id@) ==> r == Ok::<bool, LoroError>(false)
                && final(self)@ == old(self)@,
            can_move_backward(old(self)@.z_order, id@) ==> (r is Ok ==> r == Ok::<bool, LoroError>(
                true,
            ) && final(self)@.z_order == swapped(
                old(self)@.z_order,
                first_entry(old(self)@.z_order, id@) - 1,
            )),
    {
        match find_entry(&self.doc, id) {
            Some(i) => {
                if i > 0 {
                    match z_order_text_at(&self.doc, i - 1) {
                        Some(prev) => {
                            return match self.swap_entries(i - 1, prev.as_str(), id) {
                                Ok(()) => Ok(true),
                                Err(e) => Err(e),
                            };
                        },
                        None => {},
                    }
                }
            },
            None => {},
        }
        Ok(false)
    }

    /// Export the document as a snapshot (full state); empty when encoding fails.
    /// A new document made from a non-empty snapshot of an attached document
    /// holds the same contents.
    pub fn export_snapshot(&self) -> (bytes: Vec<u8>)
        ensures
            !self.detached() && bytes@.len() > 0 ==> snapshot_view(bytes@) == Some(self@),
            bytes@.len() <= isize::MAX,
    {
        match export_snapshot_of(&self.doc) {
            Ok(b) => b,
            Err(_) => Vec::new(),
        }
    }


    /// Export the updates made since a version (the bytes of an encoded
    /// version vector, as [`Self::version`] gives them); empty when the
    /// version cannot be read or encoding fails.
    pub fn export_updates(&self, since: &[u8]) -> (bytes: Vec<u8>)
        ensures
            !decodes_as_version(since@) ==> bytes@.len() == 0,
    {
        match export_updates_of(&self.doc, since) {
            Some(b) => b,
            None => Vec::new(),
        }
    }

    /// The current version of the document's history, as the bytes of an
    /// encoded version vector.
    pub fn version(&self) -> (v: Vec<u8>)
        ensures
            decodes_as_version(v@),
    {
        encoded_version(&self.doc)
    }

    /// Import updates from another document.
    pub fn import(&mut self, bytes: &[u8]) -> (r: Result<(), LoroError>)
        ensures
            (r is Ok) == (imported_view(old(self).loro(), bytes@) is Some),
            r is Ok ==> imported_view(old(self).loro(), bytes@) == Some(final(self)@),
    {
        import_into(&mut self.doc, bytes)
    }


    /// Get the document name.
    pub fn name(&self) -> (s: String)
        ensures
            s@ == self@.name,
    {
        name_text(&self.doc)
    }

    /// Set the document name: the old text is deleted and the new one inserted.
    pub fn set_name(&mut self, name: &str) -> (r: Result<(), LoroError>)
        ensures
            !old(self).detached() ==> r is Ok,
            final(self).detached() == old(self).detached(),
            final(self)@.z_order == old(self)@.z_order,
            final(self)@.shape_keys == old(self)@.shape_keys,
            r is Ok ==> final(self)@.name == name@,
    {
        let len = name_len(&self.doc);
        if len > 0 {
            match name_delete(&mut self.doc, 0, len) {
                Ok(()) => {},
                Err(e) => {
                    return Err(e);
                },
            }
        }
        let ghost emptied = doc_name(self.doc);
        proof {
            assert(emptied.len() == 0);
        }
        let r = name_insert(&mut self.doc, 0, name);
        if r.is_ok() {
            commit(&self.doc);
            proof {
                assert(doc_name(self.doc) =~= name@);
            }
        }
        r
    }

    /// Clear all shapes from the document: the z-order and every key of the
    /// shapes map.
    pub fn clear(&mut self) -> (r: Result<(), LoroError>)
        ensures
            !old(self).detached() ==> r is Ok,
            final(self).detached() == old(self).detached(),
            final(self)@.name == old(self)@.name,
            r is Ok ==> final(self)@.z_order.len() == 0 && final(self)@.shape_keys.is_empty(),
            old(self)@.z_order.len() == 0 && old(self)@.shape_keys.is_empty() ==> r is Ok,
    {
        let len = z_order_len(&self.doc);
        if len > 0 {
            match z_order_delete(&mut self.doc, 0, len) {
                Ok(()) => {},
                Err(e) => {
                    return Err(e);
                },
            }
        }
        let keys = shapes_key_list(&self.doc);
        let ghost all = keys@.map_values(|k: String| k@);
        let n = keys.len();
        let mut i: usize = 0;
        proof {
            assert(all.skip(0) =~= all);
            if n > 0 && z_order_entries(old(self).doc).len() == 0 && shape_keys(old(self).doc).is_empty() {
                assert(all.to_set().contains(all[0]));
            }
        }
        assert(z_order_entries(old(self).doc).len() == 0 && shape_keys(old(self).doc).is_empty()
            ==> n == 0);
        while i < n
            invariant
                n == keys@.len(),
                all == keys@.map_values(|k: String| k@),
                all.no_duplicates(),
                i <= n,
                z_order_entries(self.doc).len() == 0,
                doc_name(self.doc) == doc_name(old(self).doc),
                doc_detached(self.doc) == doc_detached(old(self).doc),
                shape_keys(self.doc) == all.skip(i as int).to_set(),
                z_order_entries(old(self).doc).len() == 0 && shape_keys(old(self).doc).is_empty()
                    ==> n == 0,
            decreases n - i,
        {
            let ghost before = shape_keys(self.doc);
            match shapes_delete(&mut self.doc, keys[i].as_str()) {
                Ok(()) => {},
                Err(e) => {
                    return Err(e);
                },
            }
            proof {
                let rest = all.skip(i as int);
                let later = all.skip(i + 1);
                let k0 = all[i as int];
                assert(rest[0] == k0);
                assert(rest.drop_first() =~= later);
                assert forall|k: Seq<char>| before.remove(k0).contains(k) <==> later.to_set().contains(k) by {
                    if rest.contains(k) && k != k0 {
                        let j = choose|j: int| 0 <= j < rest.len() && #[trigger] rest[j] == k;
                        assert(j != 0);
                        assert(later[j - 1] == k);
                    }
                    if later.contains(k) {
                        let j = choose|j: int| 0 <= j < later.len() && #[trigger] later[j] == k;
                        assert(rest[j + 1] == k);
                        assert(all[i + 1 + j] == k);
                        assert(k != k0);
                    }
                }
                assert(before.remove(k0) =~= later.to_set());
            }
            i = i + 1;
        }
        commit(&self.doc);
        proof {
            assert(all.skip(n as int).to_set() =~= Set::<Seq<char>>::empty());
        }
        Ok(())
    }

    /// Undo the last change made by this peer.
    /// Returns true if undo was performed, false if nothing to undo (or it failed).
    pub fn undo(&mut self) -> (done: bool)
        ensures
            !done ==> final(self)@ == old(self)@,
    {
        match undo_step(self) {
            Ok(b) => b,
            Err(_) => false,
        }
    }

    /// Redo the last undone change.
    /// Returns true if redo was performed, false if nothing to redo (or it failed).
    pub fn redo(&mut self) -> (done: bool)
        ensures
            !done ==> final(self)@ == old(self)@,
    {
        match redo_step(self) {
            Ok(b) => b,
            Err(_) => false,
        }
    }

    /// Check if undo is available.
    pub fn can_undo(&self) -> (b: bool) {
        manager_can_undo(&self.undo_manager)
    }

    /// Check if redo is available.
    pub fn can_redo(&self) -> (b: bool) {
        manager_can_redo(&self.undo_manager)
    }

    /// Get the number of available undo steps.
    pub fn undo_count(&self) -> (n: usize) {
        manager_undo_count(&self.undo_manager)
    }

    /// Get the number of available redo steps.
    pub fn redo_count(&self) -> (n: usize) {
        manager_redo_count(&self.undo_manager)
    }

    /// Record a new checkpoint for undo grouping.
    /// All changes between checkpoints are grouped into a single undo step.
    pub fn record_checkpoint(&mut self)
        ensures
            final(self).detached() == old(self).detached(),
            final(self)@ == old(self)@,
    {
        let _ = manager_record_checkpoint(&mut self.undo_manager);
    }

    /// Start a new undo group. All changes until `end_undo_group` will be undone together.
    pub fn start_undo_group(&mut self)
        ensures
            final(self).detached() == old(self).detached(),
            final(self)@ == old(self)@,
    {
        let _ = manager_group_start(&mut self.undo_manager);
    }

    /// End the current undo group.
    pub fn end_undo_group(&mut self)
        ensures
            final(self).detached() == old(self).detached(),
            final(self)@ == old(self)@,
    {
        manager_group_end(&mut self.undo_manager);
    }

    /// Clear undo/redo history.
    pub fn clear_undo_history(&self) {
        manager_clear(&self.undo_manager)
    }
}

impl Clone for CrdtDocument {
    /// A new document with the same contents and a fresh undo history, made
    /// from a snapshot; an empty document when the snapshot cannot be made or
    /// read back. (When the export fails, the empty bytes are read as Loro
    /// reads them.)
    fn clone(&self) -> (d: Self)
        ensures
            !self.detached() ==> d@ == self@ || d@ == (CrdtView {
                z_order: Seq::empty(),
                shape_keys: Set::empty(),
                name: Seq::empty(),
            }) || snapshot_view(Seq::<u8>::empty()) == Some(d@),
    {
        let bytes = self.export_snapshot();
        proof {
            if bytes@.len() == 0 {
                assert(bytes@ =~= Seq::<u8>::empty());
            }
        }
        match Self::from_snapshot(bytes.as_slice()) {
            Ok(d) => d,
            Err(_) => Self::new(),
        }
    }
}

impl Default for CrdtDocument {
    /// A new empty document.
    fn default() -> (d: Self)
        ensures
            d@ == (CrdtView {
                z_order: Seq::empty(),
                shape_keys: Set::empty(),
                name: Seq::empty(),
            }),
    {
        Self::new()
    }
}

} // verus!
