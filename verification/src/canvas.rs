//! Canvas document: shapes, z-order and undo/redo history.
use vstd::prelude::*;
use std::collections::HashMap;
use crate::shapes::{with_id, new_shape_id, shape_id_to_string, uuid_hyphenated, is_v4_uuid, shape_cloned, shapes_cloned, Group, Shape, ShapeId};
use crate::zorder::{lemma_remove_all_prefix, remove_all, remove_all_in, contains_id, vec_without_all, first_index, lemma_first_index, vec_without, position_of, lemma_first_index_unique, bring_to_front_spec, send_to_back_spec, can_bring_forward, bring_forward_spec, can_send_backward, send_backward_spec};

verus! {

broadcast use vstd::std_specs::hash::group_hash_axioms;

/// Maximum number of undo states to keep.
pub const MAX_UNDO_HISTORY: usize = 50;

/// The content of a document as the contracts see it: shapes by identifier and
/// the z-order (back to front).
pub ghost struct DocState<P> {
    pub shapes: Map<ShapeId, Shape<P>>,
    pub z_order: Seq<ShapeId>,
}

/// A document as the contracts see it.
pub ghost struct DocView<P> {
    pub id: Seq<char>,
    pub name: Seq<char>,
    pub content: DocState<P>,
    /// Saved states, oldest first; the last one is restored by `undo`.
    pub undo: Seq<DocState<P>>,
    /// Undone states, the last one is restored by `redo`.
    pub redo: Seq<DocState<P>>,
}

/// A snapshot of document state for undo/redo.
struct DocumentSnapshot<P> {
    shapes: HashMap<ShapeId, Shape<P>>,
    z_order: Vec<ShapeId>,
}

impl<P> View for DocumentSnapshot<P> {
    type V = DocState<P>;

    closed spec fn view(&self) -> DocState<P> {
        DocState { shapes: self.shapes@, z_order: self.z_order@ }
    }
}

/// A canvas document containing all shapes and state.
pub struct CanvasDocument<P> {
    /// Unique document identifier.
    pub id: String,
    /// Document name.
    pub name: String,
    /// All shapes in the document, keyed by ID.
    pub shapes: HashMap<ShapeId, Shape<P>>,
    /// Z-order of shapes (back to front).
    pub z_order: Vec<ShapeId>,
    /// Undo history stack.
    undo_stack: Vec<DocumentSnapshot<P>>,
    /// Redo history stack.
    redo_stack: Vec<DocumentSnapshot<P>>,
}

/// The states held by a stack of snapshots.
spec fn snapshot_states<P>(s: Seq<DocumentSnapshot<P>>) -> Seq<DocState<P>> {
    s.map_values(|x: DocumentSnapshot<P>| x@)
}

impl<P> View for CanvasDocument<P> {
    type V = DocView<P>;

    closed spec fn view(&self) -> DocView<P> {
        DocView {
            id: self.id@,
            name: self.name@,
            content: DocState { shapes: self.shapes@, z_order: self.z_order@ },
            undo: snapshot_states(self.undo_stack@),
            redo: snapshot_states(self.redo_stack@),
        }
    }
}

/// A document holds finitely many shapes.
pub proof fn lemma_document_shapes_finite<P>(d: &CanvasDocument<P>)
    ensures
        d@.content.shapes.dom().finite(),
{
    vstd::std_specs::hash::axiom_hashmap_view_finite_dom(d.shapes);
}

/// The copies of `shapes` under the identifiers `ids`, in order.
pub open spec fn copies_with_ids<P>(shapes: Seq<Shape<P>>, ids: Seq<ShapeId>) -> Seq<Shape<P>> {
    Seq::new(shapes.len(), |i: int| with_id(shapes[i], ids[i]))
}

/// The same document with its content replaced and its history kept.
pub open spec fn with_content<P>(v: DocView<P>, c: DocState<P>) -> DocView<P> {
    DocView { content: c, ..v }
}

/// Saving the current content for undo: it is appended to the undo history,
/// the oldest entry is dropped beyond [`MAX_UNDO_HISTORY`], and the redo history is cleared.
pub open spec fn push_undo_spec<P>(v: DocView<P>) -> DocView<P> {
    let u = v.undo.push(v.content);
    DocView {
        undo: if u.len() > MAX_UNDO_HISTORY {
            u.drop_first()
        } else {
            u
        },
        redo: seq![],
        ..v
    }
}

/// Undo: the last saved state becomes the content and the current content is
/// saved for redo; nothing changes when there is nothing to undo.
pub open spec fn undo_spec<P>(v: DocView<P>) -> DocView<P> {
    if v.undo.len() == 0 {
        v
    } else {
        DocView {
            content: v.undo.last(),
            undo: v.undo.drop_last(),
            redo: v.redo.push(v.content),
            ..v
        }
    }
}

/// Redo: the last undone state becomes the content and the current content is
/// saved for undo; nothing changes when there is nothing to redo.
pub open spec fn redo_spec<P>(v: DocView<P>) -> DocView<P> {
    if v.redo.len() == 0 {
        v
    } else {
        DocView {
            content: v.redo.last(),
            redo: v.redo.drop_last(),
            undo: v.undo.push(v.content),
            ..v
        }
    }
}

/// The shapes of a content in z-order (back to front); identifiers of the
/// z-order that have no shape are skipped.
pub open spec fn ordered_shapes<P>(c: DocState<P>) -> Seq<Shape<P>>
    decreases c.z_order.len(),
{
    if c.z_order.len() == 0 {
        seq![]
    } else {
        ordered_shapes(DocState { z_order: c.z_order.drop_last(), ..c }) + if c.shapes.contains_key(
            c.z_order.last(),
        ) {
            seq![c.shapes[c.z_order.last()]]
        } else {
            seq![]
        }
    }
}

/// Positions, in increasing order, among the first `n` z-order entries, of the
/// entries that are requested in `ids` and have a shape.
pub open spec fn grouped_positions<P>(c: DocState<P>, ids: Seq<ShapeId>, n: nat) -> Seq<int>
    decreases n,
{
    if n == 0 {
        seq![]
    } else {
        let i = n - 1;
        grouped_positions(c, ids, (n - 1) as nat) + if ids.contains(c.z_order[i])
            && c.shapes.contains_key(c.z_order[i]) {
            seq![i]
        } else {
            seq![]
        }
    }
}

/// Positions in the z-order of the shapes that grouping `ids` gathers, back to front.
pub open spec fn group_members<P>(c: DocState<P>, ids: Seq<ShapeId>) -> Seq<int> {
    grouped_positions(c, ids, c.z_order.len())
}

/// Grouping `ids` happens: at least two identifiers are given and at least two
/// z-order entries among them have a shape.
pub open spec fn can_group<P>(c: DocState<P>, ids: Seq<ShapeId>) -> bool {
    ids.len() >= 2 && group_members(c, ids).len() >= 2
}

/// Where the group is inserted in the z-order once the members are removed:
/// at the frontmost member's position less the number of identifiers given
/// minus one (not below zero), and not past the end.
pub open spec fn group_insert_position<P>(c: DocState<P>, ids: Seq<ShapeId>) -> int {
    let max_idx = group_members(c, ids).last();
    let p = if max_idx >= ids.len() - 1 {
        max_idx - (ids.len() - 1)
    } else {
        0
    };
    let rest = remove_all_in(c.z_order, ids);
    if p <= rest.len() {
        p
    } else {
        rest.len() as int
    }
}

/// The z-order after grouping `ids` into the group `gid`.
pub open spec fn grouped_z_order<P>(c: DocState<P>, ids: Seq<ShapeId>, gid: ShapeId) -> Seq<ShapeId> {
    remove_all_in(c.z_order, ids).insert(group_insert_position(c, ids), gid)
}

/// `g` is the group `gid` gathering copies of the members of `ids`, back to front.
pub open spec fn is_group_of<P: Clone>(c: DocState<P>, ids: Seq<ShapeId>, gid: ShapeId, g: Shape<P>) -> bool {
    let pos = group_members(c, ids);
    &&& g is Group
    &&& g->Group_0.id == gid
    &&& g->Group_0.children.len() == pos.len()
    &&& forall|k: int|
        0 <= k < pos.len() ==> #[trigger] shape_cloned(
            c.shapes[c.z_order[pos[k]]],
            g->Group_0.children@[k],
        )
}

/// `n` is the content after grouping `ids` of `c` into the new group `gid`:
/// the identifiers given leave the shapes and the z-order, and the group of
/// copies of the members stands at [`group_insert_position`].
pub open spec fn grouped_content<P: Clone>(
    c: DocState<P>,
    ids: Seq<ShapeId>,
    gid: ShapeId,
    n: DocState<P>,
) -> bool {
    &&& is_v4_uuid(gid)
    &&& n.z_order == grouped_z_order(c, ids, gid)
    &&& n.shapes.contains_key(gid)
    &&& is_group_of(c, ids, gid, n.shapes[gid])
    &&& n.shapes.remove(gid) == c.shapes.remove_keys(ids.to_set()).remove(gid)
}

/// The identifiers of a list of shapes.
pub open spec fn ids_of<P>(cs: Seq<Shape<P>>) -> Seq<ShapeId> {
    cs.map_values(|s: Shape<P>| s.spec_id())
}

/// `m` with the shapes `cs` inserted under their identifiers, in order
/// (a later shape with the same identifier replaces an earlier one).
pub open spec fn insert_shapes<P>(m: Map<ShapeId, Shape<P>>, cs: Seq<Shape<P>>) -> Map<ShapeId, Shape<P>>
    decreases cs.len(),
{
    if cs.len() == 0 {
        m
    } else {
        insert_shapes(m, cs.drop_last()).insert(cs.last().spec_id(), cs.last())
    }
}

/// Ungrouping `gid` happens: it names a group of the document that is in the z-order.
pub open spec fn can_ungroup<P>(c: DocState<P>, gid: ShapeId) -> bool {
    &&& c.shapes.contains_key(gid)
    &&& c.shapes[gid] is Group
    &&& c.z_order.contains(gid)
}

/// The content after ungrouping `gid`: the group leaves the document and its
/// children take its place in the z-order, in their order.
pub open spec fn ungroup_spec<P>(c: DocState<P>, gid: ShapeId) -> DocState<P> {
    let children = c.shapes[gid]->Group_0.children@;
    let p = first_index(c.z_order, gid);
    let rest = remove_all(c.z_order, gid);
    DocState {
        shapes: insert_shapes(c.shapes.remove(gid), children),
        z_order: rest.take(p) + ids_of(children) + rest.skip(p),
    }
}

/// The shapes that exporting `sel` copies: those of the selected identifiers
/// that have a shape, in selection order.
pub open spec fn exported_sources<P>(shapes: Map<ShapeId, Shape<P>>, sel: Seq<ShapeId>) -> Seq<Shape<P>>
    decreases sel.len(),
{
    if sel.len() == 0 {
        seq![]
    } else {
        exported_sources(shapes, sel.drop_last()) + if shapes.contains_key(sel.last()) {
            seq![shapes[sel.last()]]
        } else {
            seq![]
        }
    }
}

/// `HashMap::get_mut`: a mutable reference to the shape stored under `key`,
/// if any; what is written through it becomes that key's value.
#[verifier::external_body]
fn shape_map_get_mut<'a, P>(m: &'a mut HashMap<ShapeId, Shape<P>>, key: ShapeId) -> (r: Option<
    &'a mut Shape<P>,
>)
    ensures
        match r {
            Some(v) => old(m)@.contains_key(key) && *v == old(m)@[key] && final(m)@ == old(
                m,
            )@.insert(key, *final(v)),
            None => !old(m)@.contains_key(key) && final(m)@ == old(m)@,
        },
{
    m.get_mut(&key)
}

/// The empty content.
pub open spec fn empty_state<P>() -> DocState<P> {
    DocState { shapes: Map::empty(), z_order: seq![] }
}

impl<P> CanvasDocument<P> {
    /// Create a new empty document named "Untitled", with a fresh random identifier.
    pub fn new() -> (d: Self)
        ensures
            d@.content == empty_state::<P>(),
            d@.undo.len() == 0,
            d@.redo.len() == 0,
            d@.name == "Untitled"@,
            exists|u: u128| is_v4_uuid(u) && d@.id == uuid_hyphenated(u),
    {
        let u = new_shape_id();
        let d = CanvasDocument {
            id: shape_id_to_string(u),
            name: String::from_str("Untitled"),
            shapes: HashMap::new(),
            z_order: Vec::new(),
            undo_stack: Vec::new(),
            redo_stack: Vec::new(),
        };
        proof {
            assert(d@.content == empty_state::<P>());
            assert(snapshot_states(d.undo_stack@).len() == 0);
        }
        d
    }

    /// The z-order of the shapes (back to front), as the view holds it.
    pub fn z_order_ids(&self) -> (z: &Vec<ShapeId>)
        ensures
            z@ == self@.content.z_order,
    {
        &self.z_order
    }

    /// Rename the document.
    pub fn set_name(&mut self, name: String)
        ensures
            final(self)@ == (DocView { name: name@, ..old(self)@ }),
    {
        self.name = name;
    }

    /// The document name, as the view holds it.
    pub fn name_text(&self) -> (n: &str)
        ensures
            n@ == self@.name,
    {
        self.name.as_str()
    }

    /// Check if undo is available.
    pub fn can_undo(&self) -> (b: bool)
        ensures
            b == (self@.undo.len() > 0),
    {
        self.undo_stack.len() > 0
    }

    /// Check if redo is available.
    pub fn can_redo(&self) -> (b: bool)
        ensures
            b == (self@.redo.len() > 0),
    {
        self.redo_stack.len() > 0
    }
}

impl<P> CanvasDocument<P> {
    /// Add a shape to the document, on top of the z-order.
    pub fn add_shape(&mut self, shape: Shape<P>)
        ensures
            final(self)@ == with_content(
                old(self)@,
                DocState {
                    shapes: old(self)@.content.shapes.insert(shape.spec_id(), shape),
                    z_order: old(self)@.content.z_order.push(shape.spec_id()),
                },
            ),
    {
        let id = shape.id();
        self.z_order.push(id);
        self.shapes.insert(id, shape);
    }

    /// Remove a shape from the document; returns it if it was there.
    pub fn remove_shape(&mut self, id: ShapeId) -> (r: Option<Shape<P>>)
        ensures
            r == (if old(self)@.content.shapes.contains_key(id) {
                Some(old(self)@.content.shapes[id])
            } else {
                None
            }),
            final(self)@ == with_content(
                old(self)@,
                DocState {
                    shapes: old(self)@.content.shapes.remove(id),
                    z_order: remove_all(old(self)@.content.z_order, id),
                },
            ),
    {
        self.z_order = vec_without(&self.z_order, id);
        self.shapes.remove(&id)
    }

    /// Clear all shapes from the document (the history is kept).
    pub fn clear(&mut self)
        ensures
            final(self)@ == with_content(old(self)@, empty_state::<P>()),
    {
        self.shapes.clear();
        self.z_order.clear();
        proof {
            assert(self@.content == empty_state::<P>());
        }
    }

    /// Get a shape by ID.
    pub fn get_shape(&self, id: ShapeId) -> (r: Option<&Shape<P>>)
        ensures
            r == (if self@.content.shapes.contains_key(id) {
                Some(&self@.content.shapes[id])
            } else {
                None
            }),
    {
        self.shapes.get(&id)
    }

    /// Get a mutable reference to a shape by ID; what the caller writes through
    /// it becomes the shape stored under that ID (the z-order and the history
    /// stay as they are).
    pub fn get_shape_mut(&mut self, id: ShapeId) -> (r: Option<&mut Shape<P>>)
        ensures
            match r {
                Some(s) => {
                    &&& old(self)@.content.shapes.contains_key(id)
                    &&& *s == old(self)@.content.shapes[id]
                    &&& final(self)@ == with_content(
                        old(self)@,
                        DocState {
                            shapes: old(self)@.content.shapes.insert(id, *final(s)),
                            z_order: old(self)@.content.z_order,
                        },
                    )
                },
                None => !old(self)@.content.shapes.contains_key(id) && final(self)@ == old(self)@,
            },
    {
        shape_map_get_mut(&mut self.shapes, id)
    }

    /// Replace the shape stored under `id`, if there is one; whether it was.
    pub fn replace_shape(&mut self, id: ShapeId, shape: Shape<P>) -> (done: bool)
        ensures
            done == old(self)@.content.shapes.contains_key(id),
            final(self)@ == if done {
                with_content(
                    old(self)@,
                    DocState {
                        shapes: old(self)@.content.shapes.insert(id, shape),
                        z_order: old(self)@.content.z_order,
                    },
                )
            } else {
                old(self)@
            },
    {
        match self.get_shape_mut(id) {
            Some(s) => {
                *s = shape;
                true
            },
            None => false,
        }
    }

    /// Get shapes in z-order (back to front), skipping identifiers without a shape.
    pub fn shapes_ordered(&self) -> (r: Vec<&Shape<P>>)
        ensures
            r@.map_values(|x: &Shape<P>| *x) == ordered_shapes(self@.content),
    {
        let mut out: Vec<&Shape<P>> = Vec::new();
        let n = self.z_order.len();
        let mut i: usize = 0;
        while i < n
            invariant
                n == self.z_order.len(),
                i <= n,
                out@.map_values(|x: &Shape<P>| *x) == ordered_shapes(
                    DocState { shapes: self.shapes@, z_order: self.z_order@.take(i as int) },
                ),
            decreases n - i,
        {
            proof {
                assert(self.z_order@.take(i + 1).drop_last() =~= self.z_order@.take(i as int));
            }
            let ghost before = out@;
            match self.shapes.get(&self.z_order[i]) {
                Some(s) => {
                    out.push(s);
                    proof {
                        assert(out@.map_values(|x: &Shape<P>| *x) =~= before.map_values(
                            |x: &Shape<P>| *x,
                        ).push(*s));
                    }
                },
                None => {},
            }
            i = i + 1;
        }
        proof {
            assert(self.z_order@.take(n as int) =~= self.z_order@);
        }
        out
    }

    /// Bring a shape to the front (topmost).
    pub fn bring_to_front(&mut self, id: ShapeId)
        ensures
            final(self)@ == with_content(
                old(self)@,
                DocState {
                    z_order: bring_to_front_spec(old(self)@.content.z_order, id),
                    ..old(self)@.content
                },
            ),
    {
        let mut z = vec_without(&self.z_order, id);
        z.push(id);
        self.z_order = z;
    }

    /// Send a shape to the back (bottommost).
    pub fn send_to_back(&mut self, id: ShapeId)
        ensures
            final(self)@ == with_content(
                old(self)@,
                DocState {
                    z_order: send_to_back_spec(old(self)@.content.z_order, id),
                    ..old(self)@.content
                },
            ),
    {
        let mut z = vec_without(&self.z_order, id);
        z.insert(0, id);
        proof {
            assert(z@ =~= send_to_back_spec(old(self)@.content.z_order, id));
        }
        self.z_order = z;
    }

    /// Move a shape one layer forward (towards front).
    /// Returns true if the shape was moved, false if absent or already at front.
    pub fn bring_forward(&mut self, id: ShapeId) -> (moved: bool)
        ensures
            moved == can_bring_forward(old(self)@.content.z_order, id),
            final(self)@ == with_content(
                old(self)@,
                DocState {
                    z_order: bring_forward_spec(old(self)@.content.z_order, id),
                    ..old(self)@.content
                },
            ),
    {
        match position_of(&self.z_order, id) {
            Some(pos) => {
                proof {
                    lemma_first_index_unique(self.z_order@, id, pos as int);
                }
                if pos < self.z_order.len() - 1 {
                    let a = self.z_order[pos];
                    let b = self.z_order[pos + 1];
                    self.z_order.set(pos, b);
                    self.z_order.set(pos + 1, a);
                    true
                } else {
                    false
                }
            },
            None => false,
        }
    }

    /// Move a shape one layer backward (towards back).
    /// Returns true if the shape was moved, false if absent or already at back.
    pub fn send_backward(&mut self, id: ShapeId) -> (moved: bool)
        ensures
            moved == can_send_backward(old(self)@.content.z_order, id),
            final(self)@ == with_content(
                old(self)@,
                DocState {
                    z_order: send_backward_spec(old(self)@.content.z_order, id),
                    ..old(self)@.content
                },
            ),
    {
        match position_of(&self.z_order, id) {
            Some(pos) => {
                proof {
                    lemma_first_index_unique(self.z_order@, id, pos as int);
                }
                if pos > 0 {
                    let a = self.z_order[pos];
                    let b = self.z_order[pos - 1];
                    self.z_order.set(pos, b);
                    self.z_order.set(pos - 1, a);
                    true
                } else {
                    false
                }
            },
            None => false,
        }
    }

    /// Ungroup a group shape, returning its children to the document in its place.
    /// Returns the IDs of the ungrouped children, or None if `group_id` is not a
    /// group of the document present in the z-order.
    pub fn ungroup_shape(&mut self, group_id: ShapeId) -> (r: Option<Vec<ShapeId>>)
        ensures
            r is Some <==> can_ungroup(old(self)@.content, group_id),
            match r {
                None => final(self)@ == old(self)@,
                Some(ids) => {
                    &&& ids@ == ids_of(old(self)@.content.shapes[group_id]->Group_0.children@)
                    &&& final(self)@ == with_content(
                        old(self)@,
                        ungroup_spec(old(self)@.content, group_id),
                    )
                },
            },
    {
        let ghost c = self@.content;
        let is_group = match self.shapes.get(&group_id) {
            Some(Shape::Group(_)) => true,
            _ => false,
        };
        if !is_group {
            return None;
        }
        let z_pos = match position_of(&self.z_order, group_id) {
            Some(p) => p,
            None => {
                return None;
            },
        };
        proof {
            lemma_first_index_unique(c.z_order, group_id, z_pos as int);
            assert(!c.z_order.take(z_pos as int).contains(group_id)) by {
                if c.z_order.take(z_pos as int).contains(group_id) {
                    let j = choose|j: int| 0 <= j < z_pos && c.z_order.take(z_pos as int)[j] == group_id;
                    assert(c.z_order[j] == group_id);
                }
            }
            lemma_remove_all_prefix(c.z_order, group_id, z_pos as int);
        }
        let removed = self.shapes.remove(&group_id);
        let mut rest: Vec<Shape<P>> = match removed {
            Some(Shape::Group(g)) => g.children,
            _ => {
                proof {
                    assert(false);
                }
                Vec::new()
            },
        };
        let ghost children = rest@;
        let ghost z1 = remove_all(c.z_order, group_id);
        self.z_order = vec_without(&self.z_order, group_id);
        let mut child_ids: Vec<ShapeId> = Vec::new();
        let n = rest.len();
        let mut i: usize = 0;
        while i < n
            invariant
                n == children.len(),
                i <= n,
                rest@ == children.skip(i as int),
                z_pos <= z1.len(),
                child_ids@ == ids_of(children.take(i as int)),
                self.z_order@ == z1.take(z_pos as int) + child_ids@ + z1.skip(z_pos as int),
                self.shapes@ == insert_shapes(c.shapes.remove(group_id), children.take(i as int)),
                self@ == with_content(old(self)@, self@.content),
            decreases n - i,
        {
            let child = rest.remove(0);
            let child_id = child.id();
            proof {
                assert(child == children[i as int]);
                assert(children.take(i + 1).drop_last() =~= children.take(i as int));
                assert(ids_of(children.take(i + 1)) =~= ids_of(children.take(i as int)).push(child_id));
                assert(rest@ =~= children.skip(i + 1));
            }
            proof {
                assert(child_ids@.len() == i) by {
                    assert(ids_of(children.take(i as int)).len() == i);
                }
                assert(self.z_order@.len() == z_pos + i + (z1.len() - z_pos));
            }
            let zl = self.z_order.len();
            assert(z_pos + i <= zl);
            self.shapes.insert(child_id, child);
            self.z_order.insert(z_pos + i, child_id);
            child_ids.push(child_id);
            proof {
                assert(self.z_order@ =~= z1.take(z_pos as int) + child_ids@ + z1.skip(z_pos as int));
            }
            i = i + 1;
        }
        proof {
            assert(children.take(n as int) =~= children);
        }
        Some(child_ids)
    }

    /// Check if the document is empty.
    pub fn is_empty(&self) -> (b: bool)
        ensures
            b == (self@.content.shapes.len() == 0),
    {
        self.shapes.len() == 0
    }

    /// Get the number of shapes.
    pub fn len(&self) -> (n: usize)
        ensures
            n == self@.content.shapes.len(),
            self@.content.shapes.dom().finite(),
    {
        proof {
            lemma_document_shapes_finite(self);
        }
        self.shapes.len()
    }
}

impl<P: Clone> CanvasDocument<P> {
    /// Group the given shapes into a single new group.
    ///
    /// Returns the new group's ID, or None if fewer than 2 identifiers were given
    /// or fewer than 2 of them are shapes in the z-order. The members are gathered
    /// in z-order, every given identifier leaves the document, and the group
    /// takes the place of the frontmost member (see [`group_insert_position`]).
    pub fn group_shapes(&mut self, shape_ids: &[ShapeId]) -> (r: Option<ShapeId>)
        ensures
            r is Some <==> can_group(old(self)@.content, shape_ids@),
            match r {
                None => final(self)@ == old(self)@,
                Some(gid) => {
                    &&& final(self)@ == with_content(old(self)@, final(self)@.content)
                    &&& grouped_content(old(self)@.content, shape_ids@, gid, final(self)@.content)
                },
            },
    {
        if shape_ids.len() < 2 {
            return None;
        }
        let ghost c = self@.content;
        let mut children: Vec<Shape<P>> = Vec::new();
        let mut max_z_idx: usize = 0;
        let n = self.z_order.len();
        let mut i: usize = 0;
        while i < n
            invariant
                n == self.z_order.len(),
                i <= n,
                c == self@.content,
                self@ == old(self)@,
                children.len() == grouped_positions(c, shape_ids@, i as nat).len(),
                children.len() > 0 ==> max_z_idx == grouped_positions(c, shape_ids@, i as nat).last(),
                forall|k: int|
                    0 <= k < children.len() ==> #[trigger] shape_cloned(
                        c.shapes[c.z_order[grouped_positions(c, shape_ids@, i as nat)[k]]],
                        children@[k],
                    ),
                forall|k: int|
                    0 <= k < grouped_positions(c, shape_ids@, i as nat).len() ==> 0
                        <= #[trigger] grouped_positions(c, shape_ids@, i as nat)[k] < i,
            decreases n - i,
        {
            let zid = self.z_order[i];
            let ghost before = grouped_positions(c, shape_ids@, i as nat);
            if contains_id(shape_ids, zid) {
                match self.shapes.get(&zid) {
                    Some(shape) => {
                        let copy = shape.clone();
                        children.push(copy);
                        max_z_idx = i;
                        proof {
                            let after = grouped_positions(c, shape_ids@, (i + 1) as nat);
                            assert(after == before.push(i as int));
                            assert forall|k: int| 0 <= k < children.len() implies #[trigger] shape_cloned(
                                c.shapes[c.z_order[after[k]]],
                                children@[k],
                            ) by {
                                if k < before.len() {
                                    assert(after[k] == before[k]);
                                }
                            }
                        }
                    },
                    None => {
                        proof {
                            assert(grouped_positions(c, shape_ids@, (i + 1) as nat) == before);
                        }
                    },
                }
            } else {
                proof {
                    assert(grouped_positions(c, shape_ids@, (i + 1) as nat) == before);
                }
            }
            i = i + 1;
        }
        if children.len() < 2 {
            return None;
        }
        let group = Group::new(children);
        let gid = group.id;
        let ghost g_shape = Shape::Group(group);
        proof {
            assert(is_group_of(c, shape_ids@, gid, g_shape));
        }
        let m = shape_ids.len();
        let mut k: usize = 0;
        while k < m
            invariant
                m == shape_ids@.len(),
                k <= m,
                self.shapes@ == c.shapes.remove_keys(shape_ids@.take(k as int).to_set()),
                self.z_order@ == c.z_order,
                self@ == with_content(old(self)@, self@.content),
            decreases m - k,
        {
            proof {
                let t1 = shape_ids@.take(k + 1);
                let t0 = shape_ids@.take(k as int);
                assert forall|a: ShapeId| t1.contains(a) <==> (t0.contains(a) || a == shape_ids@[k as int]) by {
                    if t1.contains(a) {
                        let j = choose|j: int| 0 <= j < t1.len() && t1[j] == a;
                        if j < k {
                            assert(t0[j] == a);
                        }
                    }
                    if t0.contains(a) {
                        let j = choose|j: int| 0 <= j < t0.len() && t0[j] == a;
                        assert(t1[j] == a);
                    }
                    if a == shape_ids@[k as int] {
                        assert(t1[k as int] == a);
                    }
                }
                assert(t1.to_set() =~= t0.to_set().insert(shape_ids@[k as int]));
                assert(c.shapes.remove_keys(shape_ids@.take(k + 1).to_set()) =~= c.shapes.remove_keys(
                    shape_ids@.take(k as int).to_set(),
                ).remove(shape_ids@[k as int]));
            }
            self.shapes.remove(&shape_ids[k]);
            k = k + 1;
        }
        proof {
            assert(shape_ids@.take(m as int) =~= shape_ids@);
        }
        self.z_order = vec_without_all(&self.z_order, shape_ids);
        self.shapes.insert(gid, Shape::Group(group));
        let shift = shape_ids.len() - 1;
        let mut insert_pos: usize = if max_z_idx >= shift {
            max_z_idx - shift
        } else {
            0
        };
        if insert_pos > self.z_order.len() {
            insert_pos = self.z_order.len();
        }
        self.z_order.insert(insert_pos, gid);
        proof {
            assert(self@.content.shapes.remove(gid) =~= c.shapes.remove_keys(shape_ids@.to_set()).remove(gid));
        }
        Some(gid)
    }

    /// Export the selected shapes to a new document: a copy of each selected
    /// shape is added, in selection order; identifiers without a shape are skipped.
    pub fn export_selection(&self, selection: &[ShapeId]) -> (d: Self)
        ensures
            d@.undo.len() == 0,
            d@.redo.len() == 0,
            d@.name == "Untitled"@,
            exists|u: u128| is_v4_uuid(u) && d@.id == uuid_hyphenated(u),
            exists|copies: Seq<Shape<P>>|
                {
                    &&& shapes_cloned(exported_sources(self@.content.shapes, selection@), copies)
                    &&& d@.content.z_order == ids_of(copies)
                    &&& d@.content.shapes == insert_shapes(Map::empty(), copies)
                },
    {
        let mut doc = Self::new();
        let ghost src = self@.content.shapes;
        let ghost mut copies: Seq<Shape<P>> = seq![];
        let n = selection.len();
        let mut i: usize = 0;
        while i < n
            invariant
                n == selection@.len(),
                i <= n,
                src == self@.content.shapes,
                doc@.undo.len() == 0,
                doc@.redo.len() == 0,
                doc@.name == "Untitled"@,
                exists|u: u128| is_v4_uuid(u) && doc@.id == uuid_hyphenated(u),
                shapes_cloned(exported_sources(src, selection@.take(i as int)), copies),
                doc@.content.z_order == ids_of(copies),
                doc@.content.shapes == insert_shapes(Map::empty(), copies),
            decreases n - i,
        {
            proof {
                assert(selection@.take(i + 1).drop_last() =~= selection@.take(i as int));
            }
            match self.shapes.get(&selection[i]) {
                Some(shape) => {
                    let copy = shape.clone();
                    proof {
                        lemma_cloned_same_id(*shape, copy);
                        let old_copies = copies;
                        copies = copies.push(copy);
                        assert(copies.drop_last() =~= old_copies);
                        assert(ids_of(copies) =~= ids_of(old_copies).push(copy.spec_id()));
                        let es = exported_sources(src, selection@.take(i + 1));
                        assert(es.drop_last() =~= exported_sources(src, selection@.take(i as int)));
                        assert(es.last() == *shape);
                        assert(shape_cloned(*shape, copy));
                        assert(shapes_cloned(es, copies));
                    }
                    doc.add_shape(copy);
                },
                None => {
                    proof {
                        assert(exported_sources(src, selection@.take(i + 1)) =~= exported_sources(
                            src,
                            selection@.take(i as int),
                        ));
                    }
                },
            }
            i = i + 1;
        }
        proof {
            assert(selection@.take(n as int) =~= selection@);
        }
        doc
    }

    /// Take a snapshot of the current document state for undo.
    fn snapshot(&self) -> (s: DocumentSnapshot<P>)
        ensures
            s@ == self@.content,
    {
        let z = self.z_order.clone();
        proof {
            assert(z@ =~= self.z_order@);
        }
        DocumentSnapshot { shapes: self.shapes.clone(), z_order: z }
    }

    /// Push current state to undo stack (call before making changes).
    pub fn push_undo(&mut self)
        ensures
            final(self)@ == push_undo_spec(old(self)@),
    {
        let snapshot = self.snapshot();
        self.undo_stack.push(snapshot);
        self.redo_stack.clear();
        if self.undo_stack.len() > MAX_UNDO_HISTORY {
            self.undo_stack.remove(0);
        }
        proof {
            let u = old(self)@.undo.push(old(self)@.content);
            if u.len() > MAX_UNDO_HISTORY {
                assert(snapshot_states(self.undo_stack@) =~= u.drop_first());
            } else {
                assert(snapshot_states(self.undo_stack@) =~= u);
            }
            assert(snapshot_states(self.redo_stack@) =~= seq![]);
        }
    }

    /// Undo the last change.
    /// Returns true if undo was performed, false if nothing to undo.
    pub fn undo(&mut self) -> (done: bool)
        ensures
            done == (old(self)@.undo.len() > 0),
            final(self)@ == undo_spec(old(self)@),
    {
        if let Some(snapshot) = self.undo_stack.pop() {
            let current = self.snapshot();
            self.redo_stack.push(current);
            self.shapes = snapshot.shapes;
            self.z_order = snapshot.z_order;
            proof {
                assert(snapshot_states(self.undo_stack@) =~= old(self)@.undo.drop_last());
                assert(snapshot_states(self.redo_stack@) =~= old(self)@.redo.push(old(self)@.content));
            }
            true
        } else {
            false
        }
    }

    /// Redo the last undone change.
    /// Returns true if redo was performed, false if nothing to redo.
    pub fn redo(&mut self) -> (done: bool)
        ensures
            done == (old(self)@.redo.len() > 0),
            final(self)@ == redo_spec(old(self)@),
    {
        if let Some(snapshot) = self.redo_stack.pop() {
            let current = self.snapshot();
            self.undo_stack.push(current);
            self.shapes = snapshot.shapes;
            self.z_order = snapshot.z_order;
            proof {
                assert(snapshot_states(self.redo_stack@) =~= old(self)@.redo.drop_last());
                assert(snapshot_states(self.undo_stack@) =~= old(self)@.undo.push(old(self)@.content));
            }
            true
        } else {
            false
        }
    }
}


/// Undo after saving a state restores that state, whatever was changed in between.
pub proof fn lemma_undo_restores_saved_state<P>(v: DocView<P>, edited: DocState<P>)
    ensures
        undo_spec(with_content(push_undo_spec(v), edited)).content == v.content,
        undo_spec(with_content(push_undo_spec(v), edited)).redo == seq![edited],
{
}

/// Redo right after an undo gives back the document exactly, history included.
pub proof fn lemma_redo_after_undo<P>(v: DocView<P>)
    requires
        v.undo.len() > 0,
    ensures
        redo_spec(undo_spec(v)) == v,
{
    assert(v.undo.drop_last().push(v.undo.last()) =~= v.undo);
    assert(v.redo.push(v.content).drop_last() =~= v.redo);
}

/// Undo right after a redo gives back the document exactly, history included.
pub proof fn lemma_undo_after_redo<P>(v: DocView<P>)
    requires
        v.redo.len() > 0,
    ensures
        undo_spec(redo_spec(v)) == v,
{
    assert(v.redo.drop_last().push(v.redo.last()) =~= v.redo);
    assert(v.undo.push(v.content).drop_last() =~= v.undo);
}

/// The history holds at most [`MAX_UNDO_HISTORY`] states in all.
pub open spec fn history_bounded<P>(v: DocView<P>) -> bool {
    v.undo.len() + v.redo.len() <= MAX_UNDO_HISTORY
}

/// Saving, undoing and redoing keep the history within its bound, and a new
/// document starts within it.
pub proof fn lemma_history_stays_bounded<P>(v: DocView<P>, edited: DocState<P>)
    requires
        history_bounded(v),
    ensures
        history_bounded(push_undo_spec(v)),
        push_undo_spec(v).redo.len() == 0,
        history_bounded(undo_spec(v)),
        history_bounded(redo_spec(v)),
        history_bounded(with_content(v, edited)),
{
}


/// Every shape is stored under its own identifier.
pub open spec fn keys_match_ids<P>(c: DocState<P>) -> bool {
    forall|k: ShapeId| #[trigger] c.shapes.contains_key(k) ==> c.shapes[k].spec_id() == k
}

/// Inserting shapes under their identifiers keeps every shape stored under its own identifier.
proof fn lemma_insert_shapes_keys_match<P>(m: Map<ShapeId, Shape<P>>, cs: Seq<Shape<P>>)
    requires
        forall|k: ShapeId| #[trigger] m.contains_key(k) ==> m[k].spec_id() == k,
    ensures
        forall|k: ShapeId| #[trigger] insert_shapes(m, cs).contains_key(k) ==> insert_shapes(m, cs)[k].spec_id() == k,
    decreases cs.len(),
{
    if cs.len() > 0 {
        lemma_insert_shapes_keys_match(m, cs.drop_last());
        let prev = insert_shapes(m, cs.drop_last());
        let last = cs.last();
        assert(insert_shapes(m, cs) == prev.insert(last.spec_id(), last));
        assert forall|k: ShapeId| #[trigger] insert_shapes(m, cs).contains_key(k) implies insert_shapes(m, cs)[k].spec_id() == k by {
            if k != last.spec_id() {
                assert(prev.contains_key(k));
            }
        }
    }
}

/// Every edit of the content keeps each shape stored under its own
/// identifier: adding, removing, grouping and ungrouping shapes.
pub proof fn lemma_edits_keep_keys_match_ids<P: Clone>(
    c: DocState<P>,
    shape: Shape<P>,
    id: ShapeId,
    ids: Seq<ShapeId>,
    gid: ShapeId,
    grouped: DocState<P>,
)
    requires
        keys_match_ids(c),
    ensures
        keys_match_ids(DocState { shapes: c.shapes.insert(shape.spec_id(), shape), z_order: c.z_order.push(shape.spec_id()) }),
        keys_match_ids(DocState { shapes: c.shapes.remove(id), z_order: remove_all(c.z_order, id) }),
        grouped_content(c, ids, gid, grouped) ==> keys_match_ids(grouped),
        can_ungroup(c, gid) ==> keys_match_ids(ungroup_spec(c, gid)),
{
    if grouped_content(c, ids, gid, grouped) {
        assert forall|k: ShapeId| #[trigger] grouped.shapes.contains_key(k) implies grouped.shapes[k].spec_id() == k by {
            if k != gid {
                assert(grouped.shapes.remove(gid).contains_key(k));
                assert(c.shapes.remove_keys(ids.to_set()).remove(gid).contains_key(k));
                assert(grouped.shapes[k] == grouped.shapes.remove(gid)[k]);
            }
        }
    }
    if can_ungroup(c, gid) {
        lemma_insert_shapes_keys_match(c.shapes.remove(gid), c.shapes[gid]->Group_0.children@);
    }
}

/// A copy has the identifier of the shape it copies.
pub proof fn lemma_cloned_same_id<P: Clone>(a: Shape<P>, b: Shape<P>)
    requires
        shape_cloned(a, b),
    ensures
        a.spec_id() == b.spec_id(),
{
}

/// A group just made from `ids` can be ungrouped, and ungrouping it gives back
/// the identifiers of its members in their former z-order.
pub proof fn lemma_ungroup_fresh_group<P: Clone>(
    c: DocState<P>,
    ids: Seq<ShapeId>,
    gid: ShapeId,
    g: Shape<P>,
)
    requires
        keys_match_ids(c),
        can_group(c, ids),
        is_group_of(c, ids, gid, g),
    ensures
        ({
            let n = DocState {
                shapes: c.shapes.remove_keys(ids.to_set()).insert(gid, g),
                z_order: grouped_z_order(c, ids, gid),
            };
            &&& can_ungroup(n, gid)
            &&& ids_of(n.shapes[gid]->Group_0.children@) == group_members(c, ids).map_values(
                |i: int| c.z_order[i],
            )
        }),
{
    let n = DocState {
        shapes: c.shapes.remove_keys(ids.to_set()).insert(gid, g),
        z_order: grouped_z_order(c, ids, gid),
    };
    let p = group_insert_position(c, ids);
    assert(n.z_order[p] == gid);
    assert(n.z_order.contains(gid));
    let pos = group_members(c, ids);
    lemma_grouped_positions_valid(c, ids, c.z_order.len());
    let children = g->Group_0.children@;
    assert forall|k: int| 0 <= k < pos.len() implies ids_of(children)[k] == pos.map_values(
        |i: int| c.z_order[i],
    )[k] by {
        assert(shape_cloned(c.shapes[c.z_order[pos[k]]], children[k]));
        lemma_cloned_same_id(c.shapes[c.z_order[pos[k]]], children[k]);
        assert(c.shapes.contains_key(c.z_order[pos[k]]));
    }
    assert(ids_of(children) =~= pos.map_values(|i: int| c.z_order[i]));
}

/// The gathered positions are valid z-order positions whose entries are
/// requested and have a shape.
pub proof fn lemma_grouped_positions_valid<P>(c: DocState<P>, ids: Seq<ShapeId>, n: nat)
    requires
        n <= c.z_order.len(),
    ensures
        forall|k: int|
            0 <= k < grouped_positions(c, ids, n).len() ==> {
                let i = #[trigger] grouped_positions(c, ids, n)[k];
                &&& 0 <= i < n
                &&& ids.contains(c.z_order[i])
                &&& c.shapes.contains_key(c.z_order[i])
            },
    decreases n,
{
    if n > 0 {
        lemma_grouped_positions_valid(c, ids, (n - 1) as nat);
        let before = grouped_positions(c, ids, (n - 1) as nat);
        assert forall|k: int| 0 <= k < grouped_positions(c, ids, n).len() implies {
            let i = #[trigger] grouped_positions(c, ids, n)[k];
            &&& 0 <= i < n
            &&& ids.contains(c.z_order[i])
            &&& c.shapes.contains_key(c.z_order[i])
        } by {
            if k < before.len() {
                assert(grouped_positions(c, ids, n)[k] == before[k]);
            }
        }
    }
}


/// The editing state of a canvas that this crate holds: the document and the
/// current selection. (View, tools and widget state live with the geometry.)
pub struct Canvas<P> {
    /// The document being edited.
    pub document: CanvasDocument<P>,
    /// Currently selected shape IDs, in selection order.
    pub selection: Vec<ShapeId>,
}

/// `sel` with the identifiers of `new_ids` appended, each unless already present.
pub open spec fn append_new(sel: Seq<ShapeId>, new_ids: Seq<ShapeId>) -> Seq<ShapeId>
    decreases new_ids.len(),
{
    if new_ids.len() == 0 {
        sel
    } else {
        let s0 = append_new(sel, new_ids.drop_last());
        if s0.contains(new_ids.last()) {
            s0
        } else {
            s0.push(new_ids.last())
        }
    }
}

/// The selected identifiers that are groups of the document, in selection order.
pub open spec fn selected_groups<P>(c: DocState<P>, sel: Seq<ShapeId>) -> Seq<ShapeId>
    decreases sel.len(),
{
    if sel.len() == 0 {
        seq![]
    } else {
        selected_groups(c, sel.drop_last()) + if c.shapes.contains_key(sel.last())
            && c.shapes[sel.last()] is Group {
            seq![sel.last()]
        } else {
            seq![]
        }
    }
}

/// State carried while ungrouping the selected groups one after the other:
/// the content, the selection, and the children released so far.
pub ghost struct UngroupState<P> {
    pub content: DocState<P>,
    pub selection: Seq<ShapeId>,
    pub children: Seq<ShapeId>,
}

/// Ungrouping one selected group: it leaves the selection; if it can be
/// ungrouped, its children join the selection and the released children.
pub open spec fn ungroup_step<P>(st: UngroupState<P>, gid: ShapeId) -> UngroupState<P> {
    let sel1 = remove_all(st.selection, gid);
    if can_ungroup(st.content, gid) {
        let kids = ids_of(st.content.shapes[gid]->Group_0.children@);
        UngroupState {
            content: ungroup_spec(st.content, gid),
            selection: append_new(sel1, kids),
            children: st.children + kids,
        }
    } else {
        UngroupState { selection: sel1, ..st }
    }
}

/// Ungrouping the groups `gs` one after the other.
pub open spec fn ungroup_all<P>(st: UngroupState<P>, gs: Seq<ShapeId>) -> UngroupState<P>
    decreases gs.len(),
{
    if gs.len() == 0 {
        st
    } else {
        ungroup_step(ungroup_all(st, gs.drop_last()), gs.last())
    }
}

impl<P> Canvas<P> {
    /// Create a canvas with an empty document and no selection.
    pub fn new() -> (c: Self)
        ensures
            c.document@.content == empty_state::<P>(),
            c.document@.undo.len() == 0,
            c.document@.redo.len() == 0,
            c.document@.name == "Untitled"@,
            c.selection@.len() == 0,
    {
        Canvas { document: CanvasDocument::new(), selection: Vec::new() }
    }

    /// Create a canvas with an existing document.
    pub fn with_document(document: CanvasDocument<P>) -> (c: Self)
        ensures
            c.document == document,
            c.selection@.len() == 0,
    {
        Canvas { document, selection: Vec::new() }
    }

    /// Add to selection (unless already selected).
    pub fn add_to_selection(&mut self, id: ShapeId)
        ensures
            final(self).document == old(self).document,
            final(self).selection@ == append_new(old(self).selection@, seq![id]),
    {
        proof {
            lemma_append_new_one(self.selection@, id);
        }
        if !contains_id(self.selection.as_slice(), id) {
            self.selection.push(id);
        }
    }

    /// Clear selection.
    pub fn clear_selection(&mut self)
        ensures
            final(self).document == old(self).document,
            final(self).selection@.len() == 0,
    {
        self.selection.clear();
    }

    /// Add copies of shapes (pasted or duplicated, already placed) under fresh
    /// identifiers: the state before is recorded for undo, the copies go on
    /// top in order, and they become the selection. Their identifiers are
    /// returned.
    pub fn add_copies(&mut self, shapes: Vec<Shape<P>>) -> (ids: Vec<ShapeId>)
        where P: Clone,
        ensures
            ids@.len() == shapes@.len(),
            forall|i: int| 0 <= i < ids@.len() ==> is_v4_uuid(#[trigger] ids@[i]),
            final(self).document@ == with_content(
                push_undo_spec(old(self).document@),
                DocState {
                    shapes: insert_shapes(
                        old(self).document@.content.shapes,
                        copies_with_ids(shapes@, ids@),
                    ),
                    z_order: old(self).document@.content.z_order + ids@,
                },
            ),
            final(self).selection@ == append_new(Seq::empty(), ids@),
    {
        self.document.push_undo();
        let ghost pushed = self.document@;
        self.clear_selection();
        proof {
            assert(self.selection@ =~= Seq::<ShapeId>::empty());
        }
        let n = shapes.len();
        let ghost all = shapes@;
        let mut rest = shapes;
        let mut ids: Vec<ShapeId> = Vec::new();
        proof {
            assert(all.skip(0) =~= all);
            assert(copies_with_ids(all.take(0), ids@) =~= Seq::<Shape<P>>::empty());
            assert(pushed.content.z_order + ids@ =~= pushed.content.z_order);
        }
        while rest.len() > 0
            invariant
                all.len() == n,
                ids@.len() <= n,
                rest@ == all.skip(ids@.len() as int),
                forall|i: int| 0 <= i < ids@.len() ==> is_v4_uuid(#[trigger] ids@[i]),
                self.document@ == with_content(
                    pushed,
                    DocState {
                        shapes: insert_shapes(
                            pushed.content.shapes,
                            copies_with_ids(all.take(ids@.len() as int), ids@),
                        ),
                        z_order: pushed.content.z_order + ids@,
                    },
                ),
                self.selection@ == append_new(Seq::empty(), ids@),
            decreases rest.len(),
        {
            let ghost k = ids@.len();
            let ghost ids0 = ids@;
            let mut shape = rest.remove(0);
            proof {
                assert(shape == all[k as int]);
                assert(rest@ =~= all.skip(k as int + 1));
            }
            shape.regenerate_id();
            let id = shape.id();
            self.document.add_shape(shape);
            ids.push(id);
            proof {
                let c0 = copies_with_ids(all.take(k as int), ids0);
                let c1 = copies_with_ids(all.take(k as int + 1), ids@);
                assert(c1.drop_last() =~= c0);
                assert(c1.last() == with_id(all[k as int], id));
                assert(pushed.content.z_order + ids@ =~= (pushed.content.z_order + ids0).push(id));
                lemma_append_new_one(self.selection@, id);
                assert(ids@.drop_last() =~= ids0);
            }
            self.add_to_selection(id);
        }
        proof {
            assert(all.take(n as int) =~= all);
        }
        ids
    }

    /// Select a shape (clears previous selection).
    pub fn select(&mut self, id: ShapeId)
        ensures
            final(self).document == old(self).document,
            final(self).selection@ == seq![id],
    {
        self.clear_selection();
        proof {
            assert(self.selection@ =~= Seq::<ShapeId>::empty());
        }
        self.add_to_selection(id);
        proof {
            lemma_append_new_one(Seq::<ShapeId>::empty(), id);
            assert(Seq::<ShapeId>::empty().push(id) =~= seq![id]);
        }
    }

    /// Select all shapes, in z-order.
    pub fn select_all(&mut self)
        ensures
            final(self).document == old(self).document,
            final(self).selection@ == old(self).document@.content.z_order,
    {
        self.clear_selection();
        let n = self.document.z_order.len();
        let mut i: usize = 0;
        while i < n
            invariant
                n == self.document.z_order.len(),
                i <= n,
                self.document == old(self).document,
                self.selection@ == self.document.z_order@.take(i as int),
            decreases n - i,
        {
            let id = self.document.z_order[i];
            self.selection.push(id);
            proof {
                assert(self.selection@ =~= self.document.z_order@.take(i + 1));
            }
            i = i + 1;
        }
        proof {
            assert(self.document.z_order@.take(n as int) =~= self.document.z_order@);
            assert(self.document@.content.z_order == self.document.z_order@);
        }
    }

    /// Check if a shape is selected.
    pub fn is_selected(&self, id: ShapeId) -> (b: bool)
        ensures
            b == self.selection@.contains(id),
    {
        contains_id(self.selection.as_slice(), id)
    }

    /// Delete selected shapes; the selection becomes empty.
    pub fn delete_selected(&mut self)
        ensures
            final(self).selection@.len() == 0,
            final(self).document@ == with_content(
                old(self).document@,
                DocState {
                    shapes: old(self).document@.content.shapes.remove_keys(
                        old(self).selection@.to_set(),
                    ),
                    z_order: remove_all_in(
                        old(self).document@.content.z_order,
                        old(self).selection@,
                    ),
                },
            ),
    {
        let ghost c = self.document@.content;
        let ghost sel = self.selection@;
        proof {
            assert(sel.take(0).to_set() =~= Set::<ShapeId>::empty());
            assert(c.shapes.remove_keys(Set::<ShapeId>::empty()) =~= c.shapes);
            lemma_remove_all_in_none(c.z_order, sel.take(0));
        }
        let n = self.selection.len();
        let mut i: usize = 0;
        while i < n
            invariant
                n == sel.len(),
                i <= n,
                self.selection@ == sel,
                self.document@ == with_content(
                    old(self).document@,
                    DocState {
                        shapes: c.shapes.remove_keys(sel.take(i as int).to_set()),
                        z_order: remove_all_in(c.z_order, sel.take(i as int)),
                    },
                ),
            decreases n - i,
        {
            let id = self.selection[i];
            self.document.remove_shape(id);
            proof {
                lemma_take_to_set_step(sel, i as int);
                let t0 = sel.take(i as int);
                let t1 = sel.take(i + 1);
                assert(c.shapes.remove_keys(t1.to_set()) =~= c.shapes.remove_keys(t0.to_set()).remove(id));
                lemma_remove_all_in_step(c.z_order, t0, id);
                assert(t1 =~= t0.push(id));
            }
            i = i + 1;
        }
        proof {
            assert(sel.take(n as int) =~= sel);
        }
        self.selection.clear();
    }

    /// Remove a shape from the canvas and from the selection.
    pub fn remove_shape(&mut self, id: ShapeId)
        ensures
            final(self).selection@ == remove_all(old(self).selection@, id),
            final(self).document@ == with_content(
                old(self).document@,
                DocState {
                    shapes: old(self).document@.content.shapes.remove(id),
                    z_order: remove_all(old(self).document@.content.z_order, id),
                },
            ),
    {
        self.selection = vec_without(&self.selection, id);
        self.document.remove_shape(id);
    }
}

/// Appending a single identifier adds it unless it is already there.
pub proof fn lemma_append_new_one(sel: Seq<ShapeId>, id: ShapeId)
    ensures
        append_new(sel, seq![id]) == if sel.contains(id) {
            sel
        } else {
            sel.push(id)
        },
{
    assert(seq![id].drop_last() =~= Seq::<ShapeId>::empty());
    assert(append_new(sel, Seq::<ShapeId>::empty()) == sel);
}

/// Removing the entries of a list that has none removes nothing.
pub proof fn lemma_remove_all_in_none(z: Seq<ShapeId>, ids: Seq<ShapeId>)
    requires
        ids.len() == 0,
    ensures
        remove_all_in(z, ids) == z,
    decreases z.len(),
{
    if z.len() > 0 {
        lemma_remove_all_in_none(z.drop_last(), ids);
        assert(!ids.contains(z.last()));
        assert(z.drop_last().push(z.last()) =~= z);
    }
}

/// One more identifier in a prefix adds it to the prefix's set.
pub proof fn lemma_take_to_set_step(s: Seq<ShapeId>, i: int)
    requires
        0 <= i < s.len(),
    ensures
        s.take(i + 1).to_set() == s.take(i).to_set().insert(s[i]),
{
    let t1 = s.take(i + 1);
    let t0 = s.take(i);
    assert forall|a: ShapeId| t1.contains(a) <==> (t0.contains(a) || a == s[i]) by {
        if t1.contains(a) {
            let j = choose|j: int| 0 <= j < t1.len() && t1[j] == a;
            if j < i {
                assert(t0[j] == a);
            }
        }
        if t0.contains(a) {
            let j = choose|j: int| 0 <= j < t0.len() && t0[j] == a;
            assert(t1[j] == a);
        }
        if a == s[i] {
            assert(t1[i] == a);
        }
    }
    assert(t1.to_set() =~= t0.to_set().insert(s[i]));
}

/// Removing the entries of `ids` and then every `x` is removing the entries of `ids` and `x`.
pub proof fn lemma_remove_all_in_step(z: Seq<ShapeId>, ids: Seq<ShapeId>, x: ShapeId)
    ensures
        remove_all(remove_all_in(z, ids), x) == remove_all_in(z, ids.push(x)),
    decreases z.len(),
{
    if z.len() > 0 {
        lemma_remove_all_in_step(z.drop_last(), ids, x);
        let a = remove_all_in(z.drop_last(), ids);
        let tail = if ids.contains(z.last()) {
            seq![]
        } else {
            seq![z.last()]
        };
        let r = a + tail;
        assert(remove_all_in(z, ids) == r);
        assert(ids.push(x).contains(z.last()) <==> (ids.contains(z.last()) || z.last() == x)) by {
            if ids.push(x).contains(z.last()) {
                let j = choose|j: int| 0 <= j < ids.push(x).len() && ids.push(x)[j] == z.last();
                if j < ids.len() {
                    assert(ids[j] == z.last());
                }
            }
            if ids.contains(z.last()) {
                let j = choose|j: int| 0 <= j < ids.len() && ids[j] == z.last();
                assert(ids.push(x)[j] == z.last());
            }
            if z.last() == x {
                assert(ids.push(x)[ids.len() as int] == x);
            }
        }
        if tail.len() == 0 {
            assert(r =~= a);
        } else {
            assert(r.drop_last() =~= a);
            assert(r.last() == z.last());
        }
    }
}


impl<P: Clone> Canvas<P> {
    /// Group the currently selected shapes (saving the document for undo first).
    /// Returns the new group's ID, which becomes the selection, or None if fewer
    /// than 2 shapes were selected or could be grouped.
    pub fn group_selected(&mut self) -> (r: Option<ShapeId>)
        ensures
            old(self).selection@.len() < 2 ==> r is None && final(self).document@ == old(
                self,
            ).document@ && final(self).selection@ == old(self).selection@,
            old(self).selection@.len() >= 2 ==> {
                let v1 = push_undo_spec(old(self).document@);
                &&& r is Some <==> can_group(old(self).document@.content, old(self).selection@)
                &&& match r {
                    None => final(self).document@ == v1 && final(self).selection@ == old(
                        self,
                    ).selection@,
                    Some(gid) => {
                        &&& final(self).selection@ == seq![gid]
                        &&& final(self).document@ == with_content(v1, final(self).document@.content)
                        &&& grouped_content(
                            old(self).document@.content,
                            old(self).selection@,
                            gid,
                            final(self).document@.content,
                        )
                    },
                }
            },
    {
        if self.selection.len() < 2 {
            return None;
        }
        let shape_ids = self.selection.clone();
        proof {
            assert(shape_ids@ =~= self.selection@);
        }
        self.document.push_undo();
        match self.document.group_shapes(shape_ids.as_slice()) {
            Some(group_id) => {
                self.selection.clear();
                self.selection.push(group_id);
                proof {
                    assert(self.selection@ =~= seq![group_id]);
                }
                Some(group_id)
            },
            None => None,
        }
    }

    /// Ungroup the currently selected groups (saving the document for undo first
    /// when there is one). Each group leaves the selection and its children join it.
    /// Returns the IDs of all ungrouped children.
    pub fn ungroup_selected(&mut self) -> (r: Vec<ShapeId>)
        ensures
            ({
                let groups = selected_groups(old(self).document@.content, old(self).selection@);
                let v1 = push_undo_spec(old(self).document@);
                let st = ungroup_all(
                    UngroupState {
                        content: v1.content,
                        selection: old(self).selection@,
                        children: seq![],
                    },
                    groups,
                );
                if groups.len() == 0 {
                    &&& r@.len() == 0
                    &&& final(self).document@ == old(self).document@
                    &&& final(self).selection@ == old(self).selection@
                } else {
                    &&& r@ == st.children
                    &&& final(self).selection@ == st.selection
                    &&& final(self).document@ == with_content(v1, st.content)
                }
            }),
    {
        let ghost c0 = self.document@.content;
        let ghost sel0 = self.selection@;
        let mut groups: Vec<ShapeId> = Vec::new();
        let n = self.selection.len();
        let mut i: usize = 0;
        while i < n
            invariant
                n == sel0.len(),
                i <= n,
                self.selection@ == sel0,
                self.document@ == old(self).document@,
                c0 == self.document@.content,
                groups@ == selected_groups(c0, sel0.take(i as int)),
            decreases n - i,
        {
            proof {
                assert(sel0.take(i + 1).drop_last() =~= sel0.take(i as int));
            }
            let id = self.selection[i];
            let is_group = match self.document.get_shape(id) {
                Some(shape) => shape.is_group(),
                None => false,
            };
            if is_group {
                groups.push(id);
            }
            proof {
                if !is_group {
                    assert(selected_groups(c0, sel0.take(i + 1)) =~= selected_groups(
                        c0,
                        sel0.take(i as int),
                    ));
                }
            }
            i = i + 1;
        }
        proof {
            assert(sel0.take(n as int) =~= sel0);
        }
        let mut all_children: Vec<ShapeId> = Vec::new();
        if groups.len() == 0 {
            return all_children;
        }
        self.document.push_undo();
        let ghost v1 = self.document@;
        let ghost st0 = UngroupState { content: v1.content, selection: sel0, children: seq![] };
        let m = groups.len();
        let mut k: usize = 0;
        while k < m
            invariant
                m == groups@.len(),
                k <= m,
                ({
                    let st = ungroup_all(st0, groups@.take(k as int));
                    &&& self.document@ == with_content(v1, st.content)
                    &&& self.selection@ == st.selection
                    &&& all_children@ == st.children
                }),
            decreases m - k,
        {
            proof {
                assert(groups@.take(k + 1).drop_last() =~= groups@.take(k as int));
            }
            let group_id = groups[k];
            self.selection = vec_without(&self.selection, group_id);
            let ghost sel1 = self.selection@;
            match self.document.ungroup_shape(group_id) {
                Some(children) => {
                    let ghost doc_after = self.document@;
                    let ghost children_before = all_children@;
                    let cn = children.len();
                    let mut j: usize = 0;
                    while j < cn
                        invariant
                            cn == children@.len(),
                            j <= cn,
                            self.document@ == doc_after,
                            all_children@ == children_before,
                            self.selection@ == append_new(sel1, children@.take(j as int)),
                        decreases cn - j,
                    {
                        proof {
                            assert(children@.take(j + 1).drop_last() =~= children@.take(j as int));
                        }
                        let child_id = children[j];
                        if !contains_id(self.selection.as_slice(), child_id) {
                            self.selection.push(child_id);
                        }
                        j = j + 1;
                    }
                    proof {
                        assert(children@.take(cn as int) =~= children@);
                    }
                    let ghost before = all_children@;
                    let ghost sel_after = self.selection@;
                    let mut j2: usize = 0;
                    while j2 < cn
                        invariant
                            cn == children@.len(),
                            j2 <= cn,
                            self.document@ == doc_after,
                            self.selection@ == sel_after,
                            all_children@ == before + children@.take(j2 as int),
                        decreases cn - j2,
                    {
                        all_children.push(children[j2]);
                        proof {
                            assert(all_children@ =~= before + children@.take(j2 + 1));
                        }
                        j2 = j2 + 1;
                    }
                    proof {
                        assert(children@.take(cn as int) =~= children@);
                    }
                },
                None => {},
            }
            k = k + 1;
        }
        proof {
            assert(groups@.take(m as int) =~= groups@);
        }
        all_children
    }
}

impl<P> Default for CanvasDocument<P> {
    /// A new empty document.
    fn default() -> (d: Self)
        ensures
            d@.content == empty_state::<P>(),
            d@.undo.len() == 0,
            d@.redo.len() == 0,
            d@.name == "Untitled"@,
    {
        Self::new()
    }
}

impl<P> Default for Canvas<P> {
    /// A canvas with a new empty document and no selection.
    fn default() -> (c: Self)
        ensures
            c.document@.content == empty_state::<P>(),
            c.selection@.len() == 0,
    {
        Self::new()
    }
}


/// The z-order entries that `ids` names are exactly those at positions
/// `m .. m + k`, and each of those has a shape.
pub open spec fn is_block<P>(c: DocState<P>, ids: Seq<ShapeId>, m: int, k: int) -> bool {
    &&& 0 <= m
    &&& 0 <= k
    &&& m + k <= c.z_order.len()
    &&& forall|i: int|
        0 <= i < c.z_order.len() ==> (ids.contains(#[trigger] c.z_order[i]) <==> m <= i < m + k)
    &&& forall|i: int| m <= i < m + k ==> c.shapes.contains_key(#[trigger] c.z_order[i])
}

/// Over a block, the gathered positions are those of the block met so far.
proof fn lemma_block_positions<P>(c: DocState<P>, ids: Seq<ShapeId>, m: int, k: int, n: nat)
    requires
        is_block(c, ids, m, k),
        n <= c.z_order.len(),
    ensures
        grouped_positions(c, ids, n) == Seq::new(
            (if n <= m {
                0
            } else if n <= m + k {
                n - m
            } else {
                k
            }) as nat,
            |j: int| m + j,
        ),
    decreases n,
{
    if n > 0 {
        lemma_block_positions(c, ids, m, k, (n - 1) as nat);
        let i = n - 1;
        assert(ids.contains(c.z_order[i]) <==> m <= i < m + k);
        assert(grouped_positions(c, ids, n) =~= Seq::new(
            (if n <= m {
                0
            } else if n <= m + k {
                n - m
            } else {
                k
            }) as nat,
            |j: int| m + j,
        ));
    } else {
        assert(grouped_positions(c, ids, n) =~= Seq::<int>::empty());
    }
}

/// Removing the entries of a block from a prefix of the z-order.
proof fn lemma_block_removed(z: Seq<ShapeId>, ids: Seq<ShapeId>, m: int, k: int, n: int)
    requires
        0 <= m,
        0 <= k,
        m + k <= z.len(),
        0 <= n <= z.len(),
        forall|i: int| 0 <= i < z.len() ==> (ids.contains(#[trigger] z[i]) <==> m <= i < m + k),
    ensures
        remove_all_in(z.take(n), ids) == if n <= m {
            z.take(n)
        } else if n <= m + k {
            z.take(m)
        } else {
            z.take(m) + z.subrange(m + k, n)
        },
    decreases n,
{
    if n > 0 {
        lemma_block_removed(z, ids, m, k, n - 1);
        assert(z.take(n).drop_last() =~= z.take(n - 1));
        assert(z.take(n).last() == z[n - 1]);
        assert(ids.contains(z[n - 1]) <==> m <= n - 1 < m + k);
        if n <= m {
            assert(z.take(n - 1).push(z[n - 1]) =~= z.take(n));
        } else if n > m + k {
            assert(z.take(m) + z.subrange(m + k, n - 1) + seq![z[n - 1]] =~= z.take(m) + z.subrange(
                m + k,
                n,
            ));
            if n - 1 == m + k {
                assert(z.take(m) + z.subrange(m + k, n - 1) =~= z.take(m));
            }
        }
    } else {
        assert(z.take(0) =~= Seq::<ShapeId>::empty());
    }
}

/// Taking out an entry put in at `p` gives back the sequence.
proof fn lemma_remove_inserted(s: Seq<ShapeId>, p: int, x: ShapeId)
    requires
        0 <= p <= s.len(),
        !s.contains(x),
    ensures
        remove_all(s.insert(p, x), x) == s,
    decreases s.len(),
{
    if p == s.len() {
        assert(s.insert(p, x).drop_last() =~= s);
        crate::zorder::lemma_remove_all_absent(s, x);
    } else {
        let t = s.drop_last();
        assert(s.insert(p, x).drop_last() =~= t.insert(p, x));
        assert(!t.contains(x)) by {
            if t.contains(x) {
                let j = choose|j: int| 0 <= j < t.len() && t[j] == x;
                assert(s[j] == x);
            }
        }
        lemma_remove_inserted(t, p, x);
        assert(s.insert(p, x).last() == s.last());
        assert(s.last() != x) by {
            assert(s[s.len() - 1] == s.last());
        }
        assert(t.push(s.last()) =~= s);
    }
}

/// What inserting shapes with distinct identifiers under their identifiers gives.
proof fn lemma_insert_distinct_shapes<P>(m: Map<ShapeId, Shape<P>>, cs: Seq<Shape<P>>)
    requires
        ids_of(cs).no_duplicates(),
    ensures
        forall|k: ShapeId|
            #[trigger] insert_shapes(m, cs).contains_key(k) <==> (m.contains_key(k) || ids_of(
                cs,
            ).contains(k)),
        forall|j: int|
            0 <= j < cs.len() ==> insert_shapes(m, cs)[#[trigger] cs[j].spec_id()] == cs[j],
        forall|k: ShapeId|
            !ids_of(cs).contains(k) && m.contains_key(k) ==> #[trigger] insert_shapes(m, cs)[k]
                == m[k],
    decreases cs.len(),
{
    if cs.len() > 0 {
        let init = cs.drop_last();
        assert(ids_of(init) =~= ids_of(cs).drop_last());
        assert(ids_of(init).no_duplicates()) by {
            assert forall|a: int, b: int|
                0 <= a < ids_of(init).len() && 0 <= b < ids_of(init).len() && a != b implies ids_of(
                init,
            )[a] != ids_of(init)[b] by {
                assert(ids_of(cs)[a] != ids_of(cs)[b]);
            }
        }
        lemma_insert_distinct_shapes(m, init);
        let last_id = cs.last().spec_id();
        assert(ids_of(cs)[cs.len() - 1] == last_id);
        assert(insert_shapes(m, cs) == insert_shapes(m, init).insert(last_id, cs.last()));
        assert forall|k: ShapeId|
            #[trigger] insert_shapes(m, cs).contains_key(k) <==> (m.contains_key(k) || ids_of(
                cs,
            ).contains(k)) by {
            assert(insert_shapes(m, init).contains_key(k) <==> (m.contains_key(k) || ids_of(
                init,
            ).contains(k)));
            if ids_of(cs).contains(k) && k != last_id {
                let j = choose|j: int| 0 <= j < ids_of(cs).len() && ids_of(cs)[j] == k;
                assert(j != cs.len() - 1);
                assert(ids_of(init)[j] == k);
            }
            if ids_of(init).contains(k) {
                let j = choose|j: int| 0 <= j < ids_of(init).len() && ids_of(init)[j] == k;
                assert(ids_of(cs)[j] == k);
            }
        }
        assert forall|j: int|
            0 <= j < cs.len() implies insert_shapes(m, cs)[#[trigger] cs[j].spec_id()] == cs[j] by {
            if j < cs.len() - 1 {
                assert(init[j] == cs[j]);
                assert(ids_of(cs)[j] != ids_of(cs)[cs.len() - 1]);
            }
        }
        assert forall|k: ShapeId|
            !ids_of(cs).contains(k) && m.contains_key(k) implies #[trigger] insert_shapes(m, cs)[k]
            == m[k] by {
            assert(!ids_of(init).contains(k) && m.contains_key(k) ==> insert_shapes(m, init)[k]
                == m[k]);
            if ids_of(init).contains(k) {
                let j = choose|j: int| 0 <= j < ids_of(init).len() && ids_of(init)[j] == k;
                assert(ids_of(cs)[j] == k);
            }
            assert(k != last_id);
        }
    }
}

/// Grouping shapes that stand together in the z-order into a new group and
/// then ungrouping that group restores the document: the z-order is the same,
/// the same identifiers have shapes, the shapes not grouped are unchanged and
/// each grouped shape is back as a copy of itself (its payload cloned).
pub proof fn lemma_ungroup_undoes_group<P: Clone>(
    c: DocState<P>,
    ids: Seq<ShapeId>,
    m: int,
    gid: ShapeId,
    n: DocState<P>,
)
    requires
        keys_match_ids(c),
        ids.len() >= 2,
        ids.no_duplicates(),
        is_block(c, ids, m, ids.len() as int),
        forall|j: int| 0 <= j < ids.len() ==> c.z_order.contains(#[trigger] ids[j]),
        forall|a: int, b: int|
            0 <= a < c.z_order.len() && 0 <= b < c.z_order.len() && c.z_order[a] == c.z_order[b]
                && ids.contains(c.z_order[a]) ==> a == b,
        !c.shapes.contains_key(gid),
        !c.z_order.contains(gid),
        grouped_content(c, ids, gid, n),
    ensures
        can_ungroup(n, gid),
        ungroup_spec(n, gid).z_order == c.z_order,
        ungroup_spec(n, gid).shapes.dom() == c.shapes.dom(),
        forall|id: ShapeId|
            c.shapes.contains_key(id) && !ids.contains(id) ==> #[trigger] ungroup_spec(
                n,
                gid,
            ).shapes[id] == c.shapes[id],
        forall|id: ShapeId|
            ids.contains(id) ==> shape_cloned(c.shapes[id], #[trigger] ungroup_spec(n, gid).shapes[id]),
{
    let z = c.z_order;
    let k = ids.len() as int;
    lemma_block_positions(c, ids, m, k, z.len());
    let pos = group_members(c, ids);
    assert(pos == Seq::new(k as nat, |j: int| m + j));
    assert(pos.last() == m + k - 1);
    lemma_block_removed(z, ids, m, k, z.len() as int);
    assert(z.take(z.len() as int) =~= z);
    let rest = remove_all_in(z, ids);
    assert(rest =~= z.take(m) + z.subrange(m + k, z.len() as int));
    assert(group_insert_position(c, ids) == m);
    assert(n.z_order == rest.insert(m, gid));
    assert(!rest.contains(gid)) by {
        if rest.contains(gid) {
            let j = choose|j: int| 0 <= j < rest.len() && rest[j] == gid;
            if j < m {
                assert(z[j] == gid);
            } else {
                assert(z[j + k] == gid);
            }
        }
    }
    assert(crate::zorder::is_first_index(n.z_order, gid, m));
    lemma_first_index_unique(n.z_order, gid, m);
    lemma_remove_inserted(rest, m, gid);
    // the group and its children
    let g = n.shapes[gid];
    let children = g->Group_0.children@;
    assert(can_ungroup(n, gid)) by {
        assert(n.z_order[m] == gid);
    }
    assert forall|j: int| 0 <= j < k implies #[trigger] ids_of(children)[j] == z[m + j] by {
        assert(pos[j] == m + j);
        assert(shape_cloned(c.shapes[z[pos[j]]], children[j]));
        lemma_cloned_same_id(c.shapes[z[m + j]], children[j]);
    }
    assert(ids_of(children) =~= z.subrange(m, m + k));
    let u = ungroup_spec(n, gid);
    assert(u.z_order =~= z);
    // the shapes
    assert(ids_of(children).no_duplicates()) by {
        assert forall|a: int, b: int|
            0 <= a < k && 0 <= b < k && a != b implies ids_of(children)[a] != ids_of(children)[b] by {
            assert(ids.contains(z[m + a]));
        }
    }
    let base = n.shapes.remove(gid);
    assert(base =~= c.shapes.remove_keys(ids.to_set()));
    lemma_insert_distinct_shapes(base, children);
    assert(u.shapes == insert_shapes(base, children));
    assert forall|id: ShapeId| ids.contains(id) implies ids_of(children).contains(id) by {
        let j = choose|j: int| 0 <= j < ids.len() && ids[j] == id;
        assert(z.contains(ids[j]));
        let i = choose|i: int| 0 <= i < z.len() && z[i] == id;
        assert(ids_of(children)[i - m] == id);
    }
    assert forall|id: ShapeId| ids_of(children).contains(id) implies ids.contains(id) by {
        let j = choose|j: int| 0 <= j < ids_of(children).len() && ids_of(children)[j] == id;
        assert(z[m + j] == id);
    }
    assert forall|key: ShapeId| #[trigger] u.shapes.contains_key(key) <==> c.shapes.contains_key(key) by {
        if ids_of(children).contains(key) {
            let j = choose|j: int| 0 <= j < ids_of(children).len() && ids_of(children)[j] == key;
            assert(z[m + j] == key);
        }
    }
    assert(u.shapes.dom() =~= c.shapes.dom());
    assert forall|id: ShapeId| ids.contains(id) implies shape_cloned(
        c.shapes[id],
        #[trigger] u.shapes[id],
    ) by {
        let j = choose|j: int| 0 <= j < ids.len() && ids[j] == id;
        assert(z.contains(ids[j]));
        let i = choose|i: int| 0 <= i < z.len() && z[i] == id;
        let t = i - m;
        assert(ids_of(children)[t] == id);
        assert(children[t].spec_id() == id);
        assert(u.shapes[children[t].spec_id()] == children[t]);
        assert(pos[t] == i);
    }
}

/// Grouping `k` distinct shapes of a document into a group under an
/// identifier it does not hold leaves one shape for the `k`: the number of
/// shapes drops by `k - 1`.
pub proof fn lemma_group_count<P: Clone>(c: DocState<P>, ids: Seq<ShapeId>, gid: ShapeId, n: DocState<P>)
    requires
        c.shapes.dom().finite(),
        ids.no_duplicates(),
        forall|j: int| 0 <= j < ids.len() ==> c.shapes.contains_key(#[trigger] ids[j]),
        !c.shapes.contains_key(gid),
        grouped_content(c, ids, gid, n),
    ensures
        n.shapes.dom().finite(),
        n.shapes.len() == c.shapes.len() - ids.len() + 1,
{
    let keys = ids.to_set();
    let r = c.shapes.remove_keys(keys);
    ids.unique_seq_to_set();
    assert(r.dom() =~= c.shapes.dom().difference(keys));
    assert(c.shapes.dom().intersect(keys) =~= keys) by {
        assert forall|k: ShapeId| keys.contains(k) implies c.shapes.dom().contains(k) by {
            let j = choose|j: int| 0 <= j < ids.len() && ids[j] == k;
            assert(c.shapes.contains_key(ids[j]));
        }
    }
    vstd::set_lib::lemma_set_difference_len(c.shapes.dom(), keys);
    assert(r.remove(gid) =~= r);
    assert(n.shapes =~= r.insert(gid, n.shapes[gid]));
    assert(!r.dom().contains(gid));
}

} // verus!
