//! The document edits that the user interface's buttons and menus ask for:
//! undo, redo, clearing, and moving the selected shapes in the z-order.
//! Each is recorded for undo when it changes something, and says whether it
//! did, so that the caller can share the change with collaborators.
use vstd::prelude::*;
use crate::canvas::{Canvas, DocState, DocView, empty_state, push_undo_spec, redo_spec, undo_spec, with_content};
use crate::shapes::{ShapeId, lemma_uuid_hyphenated_injective, uuid_hyphenated};
use crate::collab::{CollaborationManager, crdt_back, crdt_backward, crdt_forward, crdt_front, crdt_reorder};
use crate::crdt::schema::{
    can_move_backward, can_move_forward, first_entry, holds_entry, is_first_entry, lemma_first_entry,
    swapped, without_first,
};
use crate::zorder::{
    bring_forward_spec, bring_to_front_spec, can_bring_forward, can_send_backward, first_index, is_first_index,
    lemma_first_index, lemma_first_index_unique, lemma_front_back_reorder, lemma_remove_all_absent,
    remove_all, send_backward_spec, send_to_back_spec,
};

verus! {

/// A document edit asked for by the user interface.
#[derive(Debug, Clone, Copy, PartialEq, Eq, Structural)]
pub enum EditAction {
    /// Undo the last change.
    Undo,
    /// Redo the last undone change.
    Redo,
    /// Remove all shapes.
    ClearDocument,
    /// Bring the selected shapes to the front, keeping their order.
    BringToFront,
    /// Send the selected shapes to the back, keeping their order.
    SendToBack,
    /// Move the selected shapes one layer forward.
    BringForward,
    /// Move the selected shapes one layer backward.
    SendBackward,
}

/// The z-order after bringing each of `ids` to the front, in order.
pub open spec fn front_all(z: Seq<ShapeId>, ids: Seq<ShapeId>) -> Seq<ShapeId>
    decreases ids.len(),
{
    if ids.len() == 0 {
        z
    } else {
        bring_to_front_spec(front_all(z, ids.drop_last()), ids.last())
    }
}

/// The z-order after sending each of `ids` to the back, last first (so that
/// they keep their order at the back).
pub open spec fn back_all(z: Seq<ShapeId>, ids: Seq<ShapeId>) -> Seq<ShapeId>
    decreases ids.len(),
{
    if ids.len() == 0 {
        z
    } else {
        back_all(send_to_back_spec(z, ids.last()), ids.drop_last())
    }
}

/// The z-order after moving each of `ids` one layer forward, last first.
pub open spec fn forward_all(z: Seq<ShapeId>, ids: Seq<ShapeId>) -> Seq<ShapeId>
    decreases ids.len(),
{
    if ids.len() == 0 {
        z
    } else {
        forward_all(bring_forward_spec(z, ids.last()), ids.drop_last())
    }
}

/// The z-order after moving each of `ids` one layer backward, in order.
pub open spec fn backward_all(z: Seq<ShapeId>, ids: Seq<ShapeId>) -> Seq<ShapeId>
    decreases ids.len(),
{
    if ids.len() == 0 {
        z
    } else {
        send_backward_spec(backward_all(z, ids.drop_last()), ids.last())
    }
}

/// The entries of the z-order that are selected, back to front.
pub open spec fn selected_in_order(z: Seq<ShapeId>, sel: Seq<ShapeId>) -> Seq<ShapeId> {
    z.filter(|x: ShapeId| sel.contains(x))
}

/// The document after a z-order move of the selection: recorded for undo,
/// with the z-order `z`.
pub open spec fn reordered<P>(v: DocView<P>, z: Seq<ShapeId>) -> DocView<P> {
    with_content(push_undo_spec(v), DocState { z_order: z, ..v.content })
}

/// What an edit does to the document and the selection, and whether it
/// changed something.
pub open spec fn edit_result<P>(v: DocView<P>, sel: Seq<ShapeId>, a: EditAction) -> (DocView<P>, Seq<ShapeId>, bool) {
    match a {
        EditAction::Undo => if v.undo.len() > 0 {
            (undo_spec(v), Seq::empty(), true)
        } else {
            (v, sel, false)
        },
        EditAction::Redo => if v.redo.len() > 0 {
            (redo_spec(v), Seq::empty(), true)
        } else {
            (v, sel, false)
        },
        EditAction::ClearDocument => if v.content.shapes.len() > 0 {
            (with_content(push_undo_spec(v), empty_state::<P>()), Seq::empty(), true)
        } else {
            (v, sel, false)
        },
        _ => if sel.len() == 0 {
            (v, sel, false)
        } else {
            let z = v.content.z_order;
            let order = selected_in_order(z, sel);
            let z2 = match a {
                EditAction::BringToFront => front_all(z, sel),
                EditAction::SendToBack => back_all(z, sel),
                EditAction::BringForward => forward_all(z, order),
                _ => backward_all(z, order),
            };
            (reordered(v, z2), sel, true)
        },
    }
}

/// Perform an edit asked for by the user interface; whether it changed the
/// document (then the caller shares it with collaborators).
pub fn apply_edit<P: Clone>(canvas: &mut Canvas<P>, a: EditAction) -> (changed: bool)
    ensures
        (final(canvas).document@, final(canvas).selection@, changed) == edit_result(
            old(canvas).document@,
            old(canvas).selection@,
            a,
        ),
{
    match a {
        EditAction::Undo => {
            let done = canvas.document.undo();
            if done {
                canvas.clear_selection();
                proof {
                    assert(canvas.selection@ =~= Seq::<ShapeId>::empty());
                }
            }
            done
        },
        EditAction::Redo => {
            let done = canvas.document.redo();
            if done {
                canvas.clear_selection();
                proof {
                    assert(canvas.selection@ =~= Seq::<ShapeId>::empty());
                }
            }
            done
        },
        EditAction::ClearDocument => {
            if canvas.document.is_empty() {
                return false;
            }
            canvas.document.push_undo();
            canvas.document.clear();
            canvas.clear_selection();
            proof {
                assert(canvas.selection@ =~= Seq::<ShapeId>::empty());
            }
            true
        },
        _ => {
            if canvas.selection.len() == 0 {
                return false;
            }
            canvas.document.push_undo();
            let sel = canvas.selection.clone();
            match a {
                EditAction::BringToFront => front_each(canvas, &sel),
                EditAction::SendToBack => back_each(canvas, &sel),
                EditAction::BringForward => {
                    let order = selected_by_z_order(canvas);
                    forward_each(canvas, &order);
                },
                _ => {
                    let order = selected_by_z_order(canvas);
                    backward_each(canvas, &order);
                },
            }
            true
        },
    }
}

/// Whether an edit moves the selection in the z-order.
pub open spec fn is_reorder(a: EditAction) -> bool {
    a == EditAction::BringToFront || a == EditAction::SendToBack || a == EditAction::BringForward
        || a == EditAction::SendBackward
}

/// The shapes a z-order move works through: the selection itself for the
/// moves to the front and back, the selected entries of the z-order (back to
/// front) for the moves by one layer.
pub open spec fn reorder_ids(z: Seq<ShapeId>, sel: Seq<ShapeId>, a: EditAction) -> Seq<ShapeId> {
    if a == EditAction::BringToFront || a == EditAction::SendToBack {
        sel
    } else {
        selected_in_order(z, sel)
    }
}

/// The entries a CRDT z-order holds for a local z-order: the key of each
/// shape, in the same order.
pub open spec fn z_order_keys(z: Seq<ShapeId>) -> Seq<Option<Seq<char>>> {
    z.map_values(|id: ShapeId| Some(uuid_hyphenated(id)))
}

/// The keys of a z-order hold a shape's key exactly when the z-order holds the
/// shape, first where the shape first occurs.
proof fn lemma_keys_first_entry(z: Seq<ShapeId>, id: ShapeId)
    ensures
        holds_entry(z_order_keys(z), uuid_hyphenated(id)) <==> z.contains(id),
        z.contains(id) ==> first_entry(z_order_keys(z), uuid_hyphenated(id)) == first_index(z, id),
{
    let k = z_order_keys(z);
    let key = uuid_hyphenated(id);
    if holds_entry(k, key) {
        let j = choose|j: int| 0 <= j < k.len() && k[j] == Some(key);
        lemma_uuid_hyphenated_injective(z[j], id);
        assert(z[j] == id);
    }
    if z.contains(id) {
        lemma_first_index(z, id);
        let p = first_index(z, id);
        assert forall|j: int| 0 <= j < p implies k[j] != Some(key) by {
            if k[j] == Some(key) {
                lemma_uuid_hyphenated_injective(z[j], id);
            }
        }
        assert(is_first_entry(k, key, p));
        lemma_first_entry(k, key, p);
    }
}

/// In a z-order without repetitions, removing every occurrence of a shape
/// removes its one entry.
proof fn lemma_remove_all_once(z: Seq<ShapeId>, id: ShapeId)
    requires
        z.no_duplicates(),
        z.contains(id),
    ensures
        remove_all(z, id) == z.remove(first_index(z, id)),
    decreases z.len(),
{
    lemma_first_index(z, id);
    let p = first_index(z, id);
    let t = z.drop_last();
    if z.last() == id {
        assert(p == z.len() - 1);
        assert(!t.contains(id)) by {
            if t.contains(id) {
                let j = choose|j: int| 0 <= j < t.len() && t[j] == id;
                assert(z[j] == z[z.len() - 1]);
            }
        }
        lemma_remove_all_absent(t, id);
        assert(z.remove(p) =~= t);
    } else {
        assert(t.no_duplicates());
        assert(t[p] == id);
        assert(t.contains(id));
        assert(is_first_index(t, id, p));
        lemma_first_index_unique(t, id, p);
        lemma_remove_all_once(t, id);
        assert(z.remove(p) =~= t.remove(p).push(z.last()));
    }
}

/// A z-order without repetitions with one entry added that it lacks has no
/// repetitions, at the front or at the back.
proof fn lemma_add_absent(z: Seq<ShapeId>, id: ShapeId)
    requires
        z.no_duplicates(),
        !z.contains(id),
    ensures
        z.push(id).no_duplicates(),
        (seq![id] + z).no_duplicates(),
{
    let f = z.push(id);
    assert forall|i: int, j: int| 0 <= i < f.len() && 0 <= j < f.len() && i != j implies f[i] != f[j] by {
        if i == z.len() {
            assert(f[j] == z[j]);
        } else if j == z.len() {
            assert(f[i] == z[i]);
        } else {
            assert(f[i] == z[i] && f[j] == z[j]);
        }
    }
    let b = seq![id] + z;
    assert forall|i: int, j: int| 0 <= i < b.len() && 0 <= j < b.len() && i != j implies b[i] != b[j] by {
        if i == 0 {
            assert(b[j] == z[j - 1]);
        } else if j == 0 {
            assert(b[i] == z[i - 1]);
        } else {
            assert(b[i] == z[i - 1] && b[j] == z[j - 1]);
        }
    }
}

/// Trading the places of two neighbouring entries keeps a z-order free of
/// repetitions.
proof fn lemma_swap_no_duplicates(z: Seq<ShapeId>, p: int)
    requires
        z.no_duplicates(),
        0 <= p,
        p + 1 < z.len(),
    ensures
        z.update(p, z[p + 1]).update(p + 1, z[p]).no_duplicates(),
{
    let w = z.update(p, z[p + 1]).update(p + 1, z[p]);
    assert forall|i: int, j: int| 0 <= i < w.len() && 0 <= j < w.len() && i != j implies w[i] != w[j] by {
        let si = if i == p {
            p + 1
        } else if i == p + 1 {
            p
        } else {
            i
        };
        let sj = if j == p {
            p + 1
        } else if j == p + 1 {
            p
        } else {
            j
        };
        assert(w[i] == z[si]);
        assert(w[j] == z[sj]);
    }
}

/// Each move of one shape, done on a z-order without repetitions and on its
/// keys alike, leaves the keys of the moved z-order, which has no repetitions.
proof fn lemma_keys_step(z: Seq<ShapeId>, id: ShapeId)
    requires
        z.no_duplicates(),
    ensures
        crdt_front(z_order_keys(z), uuid_hyphenated(id)) == z_order_keys(bring_to_front_spec(z, id)),
        crdt_back(z_order_keys(z), uuid_hyphenated(id)) == z_order_keys(send_to_back_spec(z, id)),
        crdt_forward(z_order_keys(z), uuid_hyphenated(id)) == z_order_keys(bring_forward_spec(z, id)),
        crdt_backward(z_order_keys(z), uuid_hyphenated(id)) == z_order_keys(send_backward_spec(z, id)),
        bring_to_front_spec(z, id).no_duplicates(),
        send_to_back_spec(z, id).no_duplicates(),
        bring_forward_spec(z, id).no_duplicates(),
        send_backward_spec(z, id).no_duplicates(),
{
    let k = z_order_keys(z);
    let key = uuid_hyphenated(id);
    lemma_keys_first_entry(z, id);
    if z.contains(id) {
        lemma_first_index(z, id);
        let p = first_index(z, id);
        lemma_remove_all_once(z, id);
        assert(without_first(k, key) == k.remove(p));
        assert(z_order_keys(remove_all(z, id)) =~= k.remove(p));
        lemma_front_back_reorder(z, id);
        assert(z_order_keys(bring_to_front_spec(z, id)) =~= k.remove(p).push(Some(key)));
        assert(z_order_keys(send_to_back_spec(z, id)) =~= seq![Some(key)] + k.remove(p));
        assert(can_move_forward(k, key) == can_bring_forward(z, id));
        if can_bring_forward(z, id) {
            assert(z_order_keys(bring_forward_spec(z, id)) =~= swapped(k, p));
            lemma_swap_no_duplicates(z, p);
        }
        assert(can_move_backward(k, key) == can_send_backward(z, id));
        if can_send_backward(z, id) {
            assert(z_order_keys(send_backward_spec(z, id)) =~= swapped(k, p - 1));
            lemma_swap_no_duplicates(z, p - 1);
            assert(z.update(p, z[p - 1]).update(p - 1, z[p]) =~= z.update(p - 1, z[p]).update(p, z[p - 1]));
        }
    } else {
        lemma_remove_all_absent(z, id);
        lemma_add_absent(z, id);
        assert(z_order_keys(bring_to_front_spec(z, id)) =~= k.push(Some(key)));
        assert(z_order_keys(send_to_back_spec(z, id)) =~= seq![Some(key)] + k);
    }
}

/// Bringing shapes to the front one by one, on a z-order and on its keys.
proof fn lemma_keys_front_all(z: Seq<ShapeId>, ids: Seq<ShapeId>)
    requires
        z.no_duplicates(),
    ensures
        crdt_reorder(z_order_keys(z), EditAction::BringToFront, ids) == z_order_keys(front_all(z, ids)),
        front_all(z, ids).no_duplicates(),
    decreases ids.len(),
{
    if ids.len() > 0 {
        lemma_keys_front_all(z, ids.drop_last());
        lemma_keys_step(front_all(z, ids.drop_last()), ids.last());
    }
}

/// Sending shapes to the back one by one, last first, on a z-order and on its keys.
proof fn lemma_keys_back_all(z: Seq<ShapeId>, ids: Seq<ShapeId>)
    requires
        z.no_duplicates(),
    ensures
        crdt_reorder(z_order_keys(z), EditAction::SendToBack, ids) == z_order_keys(back_all(z, ids)),
        back_all(z, ids).no_duplicates(),
    decreases ids.len(),
{
    if ids.len() > 0 {
        lemma_keys_step(z, ids.last());
        lemma_keys_back_all(send_to_back_spec(z, ids.last()), ids.drop_last());
    }
}

/// Moving shapes one layer forward one by one, last first, on a z-order and on its keys.
proof fn lemma_keys_forward_all(z: Seq<ShapeId>, ids: Seq<ShapeId>)
    requires
        z.no_duplicates(),
    ensures
        crdt_reorder(z_order_keys(z), EditAction::BringForward, ids) == z_order_keys(forward_all(z, ids)),
        forward_all(z, ids).no_duplicates(),
    decreases ids.len(),
{
    if ids.len() > 0 {
        lemma_keys_step(z, ids.last());
        lemma_keys_forward_all(bring_forward_spec(z, ids.last()), ids.drop_last());
    }
}

/// Moving shapes one layer backward one by one, on a z-order and on its keys.
proof fn lemma_keys_backward_all(z: Seq<ShapeId>, ids: Seq<ShapeId>)
    requires
        z.no_duplicates(),
    ensures
        crdt_reorder(z_order_keys(z), EditAction::SendBackward, ids) == z_order_keys(backward_all(z, ids)),
        backward_all(z, ids).no_duplicates(),
    decreases ids.len(),
{
    if ids.len() > 0 {
        lemma_keys_backward_all(z, ids.drop_last());
        lemma_keys_step(backward_all(z, ids.drop_last()), ids.last());
    }
}

/// A z-order move of the selection, mirrored into a CRDT z-order that lists
/// the keys of the local z-order in the same order, leaves the CRDT z-order
/// listing the keys of the local z-order after the move: peers see the shapes
/// in the order the local user sees them.
pub proof fn lemma_mirrored_reorder_matches_local<P>(v: DocView<P>, sel: Seq<ShapeId>, a: EditAction)
    requires
        is_reorder(a),
        v.content.z_order.no_duplicates(),
    ensures
        crdt_reorder(z_order_keys(v.content.z_order), a, reorder_ids(v.content.z_order, sel, a))
            == z_order_keys(edit_result(v, sel, a).0.content.z_order),
{
    let z = v.content.z_order;
    let order = selected_in_order(z, sel);
    if sel.len() == 0 {
        let pred = |x: ShapeId| sel.contains(x);
        z.lemma_all_neg_filter_empty(pred);
        assert(order.len() == 0);
        assert(reorder_ids(z, sel, a).len() == 0);
    } else {
        match a {
            EditAction::BringToFront => lemma_keys_front_all(z, sel),
            EditAction::SendToBack => lemma_keys_back_all(z, sel),
            EditAction::BringForward => lemma_keys_forward_all(z, order),
            _ => lemma_keys_backward_all(z, order),
        }
    }
}

/// Perform an edit asked for by the user interface, and, when it moved the
/// selection in the z-order while in a room, mirror that move into the
/// collaborative document. Whether the edit changed the document (the caller
/// then shares the other changes with the room).
pub fn apply_shared_edit<P: Clone, A: Clone>(
    canvas: &mut Canvas<P>,
    manager: &mut CollaborationManager<A>,
    a: EditAction,
) -> (changed: bool)
    ensures
        (final(canvas).document@, final(canvas).selection@, changed) == edit_result(
            old(canvas).document@,
            old(canvas).selection@,
            a,
        ),
        !(changed && is_reorder(a) && old(manager).room() is Some) ==> *final(manager) == *old(manager),
        changed && is_reorder(a) && old(manager).room() is Some && !old(manager).document().detached()
            ==> final(manager).document()@.z_order == crdt_reorder(
            old(manager).document()@.z_order,
            a,
            reorder_ids(old(canvas).document@.content.z_order, old(canvas).selection@, a),
        ),
        final(manager).document()@.shape_keys == old(manager).document()@.shape_keys,
        final(manager).document()@.name == old(manager).document()@.name,
        final(manager).room() == old(manager).room(),
        final(manager).is_on() == old(manager).is_on(),
        final(manager).queued() == old(manager).queued(),
{
    let sel = canvas.selection.clone();
    let order = selected_by_z_order(canvas);
    let changed = apply_edit(canvas, a);
    let reorder = match a {
        EditAction::BringToFront | EditAction::SendToBack | EditAction::BringForward | EditAction::SendBackward => true,
        _ => false,
    };
    if changed && reorder && manager.is_in_room() {
        match a {
            EditAction::BringToFront | EditAction::SendToBack => manager.mirror_reorder(a, &sel),
            _ => manager.mirror_reorder(a, &order),
        }
    }
    changed
}

/// The selected entries of the z-order, back to front.
fn selected_by_z_order<P>(canvas: &Canvas<P>) -> (r: Vec<ShapeId>)
    ensures
        r@ == selected_in_order(canvas.document@.content.z_order, canvas.selection@),
{
    let z = canvas.document.z_order_ids();
    let n = z.len();
    let mut r: Vec<ShapeId> = Vec::new();
    let mut i: usize = 0;
    while i < n
        invariant
            n == z@.len(),
            i <= n,
            r@ == selected_in_order(z@.take(i as int), canvas.selection@),
        decreases n - i,
    {
        proof {
            assert(z@.take(i + 1).drop_last() =~= z@.take(i as int));
            z@.take(i as int).lemma_filter_push(z@[i as int], |x: ShapeId| canvas.selection@.contains(x));
            assert(z@.take(i as int).push(z@[i as int]) =~= z@.take(i + 1));
        }
        if canvas.is_selected(z[i]) {
            r.push(z[i]);
        }
        i = i + 1;
    }
    proof {
        assert(z@.take(n as int) =~= z@);
    }
    r
}

/// Bring each identifier to the front, in order.
fn front_each<P>(canvas: &mut Canvas<P>, ids: &Vec<ShapeId>)
    ensures
        final(canvas).selection == old(canvas).selection,
        final(canvas).document@ == with_content(
            old(canvas).document@,
            DocState {
                z_order: front_all(old(canvas).document@.content.z_order, ids@),
                ..old(canvas).document@.content
            },
        ),
{
    let n = ids.len();
    let mut i: usize = 0;
    proof {
        assert(ids@.take(0) =~= Seq::<ShapeId>::empty());
    }
    while i < n
        invariant
            n == ids@.len(),
            i <= n,
            canvas.selection == old(canvas).selection,
            canvas.document@ == with_content(
                old(canvas).document@,
                DocState {
                    z_order: front_all(old(canvas).document@.content.z_order, ids@.take(i as int)),
                    ..old(canvas).document@.content
                },
            ),
        decreases n - i,
    {
        proof {
            assert(ids@.take(i + 1).drop_last() =~= ids@.take(i as int));
        }
        canvas.document.bring_to_front(ids[i]);
        i = i + 1;
    }
    proof {
        assert(ids@.take(n as int) =~= ids@);
    }
}

/// Move each identifier one layer backward, in order.
fn backward_each<P>(canvas: &mut Canvas<P>, ids: &Vec<ShapeId>)
    ensures
        final(canvas).selection == old(canvas).selection,
        final(canvas).document@ == with_content(
            old(canvas).document@,
            DocState {
                z_order: backward_all(old(canvas).document@.content.z_order, ids@),
                ..old(canvas).document@.content
            },
        ),
{
    let n = ids.len();
    let mut i: usize = 0;
    proof {
        assert(ids@.take(0) =~= Seq::<ShapeId>::empty());
    }
    while i < n
        invariant
            n == ids@.len(),
            i <= n,
            canvas.selection == old(canvas).selection,
            canvas.document@ == with_content(
                old(canvas).document@,
                DocState {
                    z_order: backward_all(old(canvas).document@.content.z_order, ids@.take(i as int)),
                    ..old(canvas).document@.content
                },
            ),
        decreases n - i,
    {
        proof {
            assert(ids@.take(i + 1).drop_last() =~= ids@.take(i as int));
        }
        canvas.document.send_backward(ids[i]);
        i = i + 1;
    }
    proof {
        assert(ids@.take(n as int) =~= ids@);
    }
}

/// Send each identifier to the back, last first.
fn back_each<P>(canvas: &mut Canvas<P>, ids: &Vec<ShapeId>)
    ensures
        final(canvas).selection == old(canvas).selection,
        final(canvas).document@ == with_content(
            old(canvas).document@,
            DocState {
                z_order: back_all(old(canvas).document@.content.z_order, ids@),
                ..old(canvas).document@.content
            },
        ),
{
    let mut i: usize = ids.len();
    proof {
        assert(ids@.take(ids@.len() as int) =~= ids@);
    }
    while i > 0
        invariant
            i <= ids@.len(),
            canvas.selection == old(canvas).selection,
            back_all(canvas.document@.content.z_order, ids@.take(i as int)) == back_all(
                old(canvas).document@.content.z_order,
                ids@,
            ),
            canvas.document@ == with_content(
                old(canvas).document@,
                DocState { z_order: canvas.document@.content.z_order, ..old(canvas).document@.content },
            ),
        decreases i,
    {
        proof {
            assert(ids@.take(i as int).drop_last() =~= ids@.take(i - 1));
        }
        canvas.document.send_to_back(ids[i - 1]);
        i = i - 1;
    }
    proof {
        assert(ids@.take(0) =~= Seq::<ShapeId>::empty());
    }
}

/// Move each identifier one layer forward, last first.
fn forward_each<P>(canvas: &mut Canvas<P>, ids: &Vec<ShapeId>)
    ensures
        final(canvas).selection == old(canvas).selection,
        final(canvas).document@ == with_content(
            old(canvas).document@,
            DocState {
                z_order: forward_all(old(canvas).document@.content.z_order, ids@),
                ..old(canvas).document@.content
            },
        ),
{
    let mut i: usize = ids.len();
    proof {
        assert(ids@.take(ids@.len() as int) =~= ids@);
    }
    while i > 0
        invariant
            i <= ids@.len(),
            canvas.selection == old(canvas).selection,
            forward_all(canvas.document@.content.z_order, ids@.take(i as int)) == forward_all(
                old(canvas).document@.content.z_order,
                ids@,
            ),
            canvas.document@ == with_content(
                old(canvas).document@,
                DocState { z_order: canvas.document@.content.z_order, ..old(canvas).document@.content },
            ),
        decreases i,
    {
        proof {
            assert(ids@.take(i as int).drop_last() =~= ids@.take(i - 1));
        }
        canvas.document.bring_forward(ids[i - 1]);
        i = i - 1;
    }
    proof {
        assert(ids@.take(0) =~= Seq::<ShapeId>::empty());
    }
}

} // verus!
