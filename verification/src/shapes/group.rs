//! Shapes as the document sees them, and groups of shapes.
use vstd::prelude::*;
use super::{new_shape_id, is_v4_uuid, ShapeId};

verus! {

/// A shape of the document.
///
/// The drawable element kinds (rectangles, ellipses, lines, arrows, freehand
/// strokes, texts, images, formulas) carry geometry that this crate does not
/// hold; they travel here as the payload `P`, together with their identifier.
/// Groups are represented here, since grouping is part of the document logic.
#[derive(Debug)]
pub enum Shape<P> {
    /// A single drawable element with its identifier.
    Element { id: ShapeId, data: P },
    /// A group of shapes, possibly nested.
    Group(Group<P>),
}

/// A group of shapes that can be manipulated as a single unit.
/// Groups can contain other groups, enabling nested hierarchies.
#[derive(Debug)]
pub struct Group<P> {
    /// Identifier of the group.
    pub id: ShapeId,
    /// Child shapes in this group.
    pub children: Vec<Shape<P>>,
}

impl<P> Shape<P> {
    /// The identifier of a shape.
    pub open spec fn spec_id(self) -> ShapeId {
        match self {
            Shape::Element { id, .. } => id,
            Shape::Group(g) => g.spec_id(),
        }
    }

    /// A new drawable element with a fresh random identifier.
    pub fn new_element(data: P) -> (s: Self)
        ensures
            s matches Shape::Element { id, data: d } && d == data && is_v4_uuid(id),
    {
        Shape::Element { id: new_shape_id(), data }
    }

    /// Get the identifier.
    pub fn id(&self) -> (id: ShapeId)
        ensures
            id == self.spec_id(),
    {
        match self {
            Shape::Element { id, .. } => *id,
            Shape::Group(g) => g.id,
        }
    }

    /// Check if this shape is a group.
    pub fn is_group(&self) -> (b: bool)
        ensures
            b == (self is Group),
    {
        match self {
            Shape::Group(_) => true,
            _ => false,
        }
    }

    /// Get the group if this shape is a group.
    pub fn as_group(&self) -> (g: Option<&Group<P>>)
        ensures
            match *self {
                Shape::Group(grp) => g == Some(&grp),
                _ => g is None,
            },
    {
        match self {
            Shape::Group(g) => Some(g),
            _ => None,
        }
    }

    /// Get mutable access to the group if this shape is a group.
    pub fn as_group_mut(&mut self) -> (g: Option<&mut Group<P>>)
        ensures
            match g {
                Some(gr) => *old(self) == Shape::Group(*gr) && *final(self) == Shape::Group(*final(gr)),
                None => !(*old(self) is Group) && *final(self) == *old(self),
            },
    {
        match self {
            Shape::Group(g) => Some(g),
            _ => None,
        }
    }

    /// Replace the shape's identifier with a fresh one
    /// (used when duplicating or pasting shapes).
    pub fn regenerate_id(&mut self)
        ensures
            is_v4_uuid(final(self).spec_id()),
            *final(self) == with_id(*old(self), final(self).spec_id()),
            match (*old(self), *final(self)) {
                (Shape::Element { data: d0, .. }, Shape::Element { data: d1, .. }) => d0 == d1,
                (Shape::Group(g0), Shape::Group(g1)) => g0.children == g1.children,
                _ => false,
            },
    {
        let new_id = new_shape_id();
        match self {
            Shape::Element { id, .. } => {
                *id = new_id;
            },
            Shape::Group(g) => {
                g.id = new_id;
            },
        }
    }
}

/// The same shape under another identifier.
pub open spec fn with_id<P>(s: Shape<P>, id: ShapeId) -> Shape<P> {
    match s {
        Shape::Element { data, .. } => Shape::Element { id, data },
        Shape::Group(g) => Shape::Group(Group { id, children: g.children }),
    }
}

/// The identifiers of a list of sibling shapes and, for each group among them,
/// of everything nested inside it, in document order (a group before its children).
pub open spec fn nested_ids<P>(children: Seq<Shape<P>>) -> Seq<ShapeId>
    decreases children,
{
    if children.len() == 0 {
        seq![]
    } else {
        let first = children[0];
        proof {
            assert(decreases_to!(children => first));
            assert(decreases_to!(children => children.drop_first()));
        }
        let own = match first {
            Shape::Group(g) => {
                proof {
                    assert(decreases_to!(first => g));
                    assert(decreases_to!(g => g.children));
                    assert(decreases_to!(g.children => g.children@));
                }
                seq![g.spec_id()] + nested_ids(g.children@)
            },
            Shape::Element { id, .. } => seq![id],
        };
        own + nested_ids(children.drop_first())
    }
}

/// The first shape with identifier `id` met when walking a list of sibling
/// shapes in document order, looking inside each group right after the group
/// itself.
pub open spec fn find_in<P>(children: Seq<Shape<P>>, id: ShapeId) -> Option<Shape<P>>
    decreases children,
{
    if children.len() == 0 {
        None
    } else {
        let first = children[0];
        proof {
            assert(decreases_to!(children => first));
            assert(decreases_to!(children => children.drop_first()));
        }
        if first.spec_id() == id {
            Some(first)
        } else {
            let inside = match first {
                Shape::Group(g) => {
                    proof {
                        assert(decreases_to!(first => g));
                        assert(decreases_to!(g => g.children));
                        assert(decreases_to!(g.children => g.children@));
                    }
                    find_in(g.children@, id)
                },
                Shape::Element { .. } => None,
            };
            if inside is Some {
                inside
            } else {
                find_in(children.drop_first(), id)
            }
        }
    }
}

/// `b` is `a` with the shape that [`find_in`] finds for `id` replaced by `x`
/// (inside the groups that contain it, which keep their identifiers).
pub open spec fn replaced_found<P>(a: Seq<Shape<P>>, b: Seq<Shape<P>>, id: ShapeId, x: Shape<P>) -> bool
    decreases a,
{
    if a.len() == 0 {
        b.len() == 0
    } else {
        let first = a[0];
        proof {
            assert(decreases_to!(a => first));
            assert(decreases_to!(a => a.drop_first()));
        }
        &&& b.len() == a.len()
        &&& if first.spec_id() == id {
            b[0] == x && b.drop_first() == a.drop_first()
        } else {
            match first {
                Shape::Group(g) => {
                    proof {
                        assert(decreases_to!(first => g));
                        assert(decreases_to!(g => g.children));
                        assert(decreases_to!(g.children => g.children@));
                    }
                    if find_in(g.children@, id) is Some {
                        &&& b[0] is Group
                        &&& b[0]->Group_0.id == g.id
                        &&& replaced_found(g.children@, b[0]->Group_0.children@, id, x)
                        &&& b.drop_first() == a.drop_first()
                    } else {
                        b[0] == first && replaced_found(a.drop_first(), b.drop_first(), id, x)
                    }
                },
                Shape::Element { .. } => b[0] == first && replaced_found(
                    a.drop_first(),
                    b.drop_first(),
                    id,
                    x,
                ),
            }
        }
    }
}

/// The search for `id` passes over `s` without stopping: it is not the shape
/// and, if a group, holds no shape with that identifier.
pub open spec fn passed_over<P>(s: Shape<P>, id: ShapeId) -> bool {
    s.spec_id() != id && (s is Group ==> find_in(s->Group_0.children@, id) is None)
}

/// The search for `id` stops at position `i` of `a` when every earlier sibling
/// is passed over and the one at `i` is the shape or holds it.
proof fn lemma_search_stops_at<P>(a: Seq<Shape<P>>, id: ShapeId, i: int)
    requires
        0 <= i < a.len(),
        forall|j: int| 0 <= j < i ==> passed_over(#[trigger] a[j], id),
        a[i].spec_id() == id || (a[i] is Group && find_in(a[i]->Group_0.children@, id) is Some),
    ensures
        find_in(a, id) == if a[i].spec_id() == id {
            Some(a[i])
        } else {
            find_in(a[i]->Group_0.children@, id)
        },
    decreases i,
{
    if i > 0 {
        assert(passed_over(a[0], id));
        assert forall|j: int| 0 <= j < i - 1 implies passed_over(#[trigger] a.drop_first()[j], id) by {
            assert(a.drop_first()[j] == a[j + 1]);
        }
        lemma_search_stops_at(a.drop_first(), id, i - 1);
    }
}

/// The search for `id` stops at position `i` of `a` when every earlier sibling
/// is passed over and the one at `i` is the shape or holds it; then it finds
/// that shape or what the search inside it finds, and replacing it there is
/// a [`replaced_found`].
proof fn lemma_found_at<P>(a: Seq<Shape<P>>, b: Seq<Shape<P>>, id: ShapeId, x: Shape<P>, i: int)
    requires
        0 <= i < a.len(),
        b.len() == a.len(),
        forall|j: int| 0 <= j < i ==> passed_over(#[trigger] a[j], id) && b[j] == a[j],
        forall|j: int| i < j < a.len() ==> #[trigger] b[j] == a[j],
        (a[i].spec_id() == id && b[i] == x) || (a[i].spec_id() != id && a[i] is Group && find_in(
            a[i]->Group_0.children@,
            id,
        ) is Some && b[i] is Group && b[i]->Group_0.id == a[i]->Group_0.id && replaced_found(
            a[i]->Group_0.children@,
            b[i]->Group_0.children@,
            id,
            x,
        )),
    ensures
        replaced_found(a, b, id, x),
        find_in(a, id) == if a[i].spec_id() == id {
            Some(a[i])
        } else {
            find_in(a[i]->Group_0.children@, id)
        },
    decreases i,
{
    if i == 0 {
        assert forall|j: int| 0 <= j < a.drop_first().len() implies b.drop_first()[j] == a.drop_first()[j] by {
            assert(b[j + 1] == a[j + 1]);
        }
        assert(b.drop_first() =~= a.drop_first());
    } else {
        assert(b[0] == a[0]);
        assert(passed_over(a[0], id));
        lemma_found_at(a.drop_first(), b.drop_first(), id, x, i - 1);
        assert(a.drop_first()[i - 1] == a[i]);
        assert(b.drop_first()[i - 1] == b[i]);
    }
}

/// A search among sibling shapes succeeds exactly for the identifiers nested in
/// them, and what it finds has the identifier searched for.
pub proof fn lemma_find_in_nested_ids<P>(children: Seq<Shape<P>>, id: ShapeId)
    ensures
        find_in(children, id) is Some <==> nested_ids(children).contains(id),
        find_in(children, id) matches Some(s) ==> s.spec_id() == id,
    decreases children,
{
    if children.len() > 0 {
        let first = children[0];
        assert(decreases_to!(children => first));
        assert(decreases_to!(children => children.drop_first()));
        lemma_find_in_nested_ids(children.drop_first(), id);
        let rest = nested_ids(children.drop_first());
        match first {
            Shape::Group(g) => {
                assert(decreases_to!(first => g));
                assert(decreases_to!(g => g.children));
                assert(decreases_to!(g.children => g.children@));
                lemma_find_in_nested_ids(g.children@, id);
                let own = seq![g.spec_id()] + nested_ids(g.children@);
                assert(nested_ids(children) == own + rest);
                if nested_ids(g.children@).contains(id) {
                    let k = choose|k: int| 0 <= k < nested_ids(g.children@).len() && nested_ids(g.children@)[k] == id;
                    assert((own + rest)[k + 1] == id);
                }
                if rest.contains(id) {
                    let k = choose|k: int| 0 <= k < rest.len() && rest[k] == id;
                    assert((own + rest)[own.len() + k] == id);
                }
                if (own + rest).contains(id) {
                    let k = choose|k: int| 0 <= k < (own + rest).len() && (own + rest)[k] == id;
                    if k == 0 {
                    } else if k < own.len() {
                        assert(nested_ids(g.children@)[k - 1] == id);
                    } else {
                        assert(rest[k - own.len()] == id);
                    }
                }
                assert((own + rest)[0] == g.spec_id());
            },
            Shape::Element { id: eid, .. } => {
                let own = seq![eid];
                assert(nested_ids(children) == own + rest);
                if rest.contains(id) {
                    let k = choose|k: int| 0 <= k < rest.len() && rest[k] == id;
                    assert((own + rest)[1 + k] == id);
                }
                if (own + rest).contains(id) {
                    let k = choose|k: int| 0 <= k < (own + rest).len() && (own + rest)[k] == id;
                    if k > 0 {
                        assert(rest[k - 1] == id);
                    }
                }
                assert((own + rest)[0] == eid);
            },
        }
    }
}

impl<P> Group<P> {
    /// The identifier of this group.
    pub open spec fn spec_id(self) -> ShapeId {
        self.id
    }

    /// Create a new group, with a fresh identifier, from a list of shapes.
    pub fn new(children: Vec<Shape<P>>) -> (g: Self)
        ensures
            g.children == children,
            is_v4_uuid(g.spec_id()),
    {
        Group { id: new_shape_id(), children }
    }

    /// Create a new group with a given identifier.
    pub fn with_id(id: ShapeId, children: Vec<Shape<P>>) -> (g: Self)
        ensures
            g.spec_id() == id,
            g.children == children,
    {
        Group { id, children }
    }

    /// Get the identifier.
    pub fn id(&self) -> (id: ShapeId)
        ensures
            id == self.spec_id(),
    {
        self.id
    }

    /// Get the children of this group.
    pub fn children(&self) -> (c: &[Shape<P>])
        ensures
            c@ == self.children@,
    {
        self.children.as_slice()
    }

    /// Get mutable access to children; the group keeps its identifier.
    pub fn children_mut(&mut self) -> (c: &mut Vec<Shape<P>>)
        ensures
            *c == old(self).children,
            final(self).id == old(self).id,
            final(self).children == *final(c),
    {
        &mut self.children
    }

    /// Dissolve this group and return its children.
    pub fn ungroup(self) -> (c: Vec<Shape<P>>)
        ensures
            c == self.children,
    {
        self.children
    }

    /// All identifiers of this group: its own, then those of its children
    /// and of everything nested in them, in document order.
    pub open spec fn spec_all_shape_ids(self) -> Seq<ShapeId> {
        seq![self.spec_id()] + nested_ids(self.children@)
    }

    /// Get all shape IDs in this group (including nested groups): its own,
    /// then those of its children and of everything nested in them.
    pub fn all_shape_ids(&self) -> (ids: Vec<ShapeId>)
        ensures
            ids@ == self.spec_all_shape_ids(),
    {
        let mut ids: Vec<ShapeId> = Vec::new();
        ids.push(self.id);
        push_nested_ids(&self.children, &mut ids);
        ids
    }

    /// Find a shape by ID within this group (including nested groups): the
    /// first one met in document order.
    pub fn find_shape(&self, id: ShapeId) -> (r: Option<&Shape<P>>)
        ensures
            match r {
                Some(s) => find_in(self.children@, id) == Some(*s),
                None => find_in(self.children@, id) is None,
            },
    {
        find_in_children(&self.children, id)
    }

    /// Find a shape by ID within this group (including nested groups), for
    /// changing it in place: the first one met in document order. What the
    /// caller writes through the result replaces that shape; the group keeps
    /// its identifier.
    pub fn find_shape_mut(&mut self, id: ShapeId) -> (r: Option<&mut Shape<P>>)
        ensures
            final(self).id == old(self).id,
            match r {
                Some(s) => find_in(old(self).children@, id) == Some(*s) && replaced_found(
                    old(self).children@,
                    final(self).children@,
                    id,
                    *final(s),
                ),
                None => find_in(old(self).children@, id) is None && final(self).children@ == old(
                    self,
                ).children@,
            },
    {
        find_in_children_mut(&mut self.children, id)
    }
}


/// Append the identifiers nested in `children` to `out`.
fn push_nested_ids<P>(children: &Vec<Shape<P>>, out: &mut Vec<ShapeId>)
    ensures
        final(out)@ == old(out)@ + nested_ids(children@),
    decreases children@,
{
    let n = children.len();
    let mut i: usize = 0;
    proof {
        assert(children@.subrange(0, n as int) =~= children@);
    }
    while i < n
        invariant
            n == children@.len(),
            i <= n,
            old(out)@ + nested_ids(children@) == out@ + nested_ids(children@.subrange(i as int, n as int)),
        decreases n - i,
    {
        let ghost t = children@.subrange(i as int, n as int);
        proof {
            assert(t[0] == children@[i as int]);
            assert(t.drop_first() =~= children@.subrange(i + 1, n as int));
        }
        let ghost before = out@;
        match &children[i] {
            Shape::Group(g) => {
                proof {
                    assert(decreases_to!(children@ => children@[i as int]));
                    assert(decreases_to!(children@[i as int] => children@[i as int]->Group_0));
                    assert(decreases_to!(children@[i as int]->Group_0 => g.children));
                    assert(decreases_to!(g.children => g.children@));
                }
                out.push(g.id);
                push_nested_ids(&g.children, out);
                proof {
                    assert(out@ =~= before + (seq![g.spec_id()] + nested_ids(g.children@)));
                }
            },
            Shape::Element { id, .. } => {
                out.push(*id);
                proof {
                    assert(out@ =~= before + seq![*id]);
                }
            },
        }
        proof {
            let own = match t[0] {
                Shape::Group(g) => seq![g.spec_id()] + nested_ids(g.children@),
                Shape::Element { id, .. } => seq![id],
            };
            assert(nested_ids(t) == own + nested_ids(t.drop_first()));
            assert(out@ == before + own);
            assert(before + (own + nested_ids(t.drop_first())) =~= (before + own) + nested_ids(t.drop_first()));
        }
        i = i + 1;
    }
    proof {
        assert(children@.subrange(n as int, n as int) =~= Seq::<Shape<P>>::empty());
        assert(out@ + Seq::<ShapeId>::empty() =~= out@);
    }
}

/// The first shape with identifier `id` among `children` and their nested
/// shapes, in document order.
fn find_in_children<P>(children: &Vec<Shape<P>>, id: ShapeId) -> (r: Option<&Shape<P>>)
    ensures
        match r {
            Some(s) => find_in(children@, id) == Some(*s),
            None => find_in(children@, id) is None,
        },
    decreases children@,
{
    let n = children.len();
    let mut i: usize = 0;
    proof {
        assert(children@.subrange(0, n as int) =~= children@);
    }
    while i < n
        invariant
            n == children@.len(),
            i <= n,
            find_in(children@, id) == find_in(children@.subrange(i as int, n as int), id),
        decreases n - i,
    {
        let ghost t = children@.subrange(i as int, n as int);
        proof {
            assert(t[0] == children@[i as int]);
            assert(t.drop_first() =~= children@.subrange(i + 1, n as int));
        }
        let child = &children[i];
        if child.id() == id {
            return Some(child);
        }
        match child {
            Shape::Group(g) => {
                proof {
                    assert(decreases_to!(children@ => children@[i as int]));
                    assert(decreases_to!(children@[i as int] => children@[i as int]->Group_0));
                    assert(decreases_to!(children@[i as int]->Group_0 => g.children));
                    assert(decreases_to!(g.children => g.children@));
                }
                let found = find_in_children(&g.children, id);
                if found.is_some() {
                    return found;
                }
            },
            Shape::Element { .. } => {},
        }
        i = i + 1;
    }
    proof {
        assert(children@.subrange(n as int, n as int).len() == 0);
    }
    None
}

/// Where the search for `id` stops among `children`: the position of the first
/// child that is the shape or holds it, and whether it is the shape itself.
fn locate<P>(children: &Vec<Shape<P>>, id: ShapeId) -> (r: Option<(usize, bool)>)
    ensures
        match r {
            None => find_in(children@, id) is None,
            Some((i, direct)) => {
                &&& i < children@.len()
                &&& forall|j: int| 0 <= j < i ==> passed_over(#[trigger] children@[j], id)
                &&& direct == (children@[i as int].spec_id() == id)
                &&& !direct ==> children@[i as int] is Group && find_in(
                    children@[i as int]->Group_0.children@,
                    id,
                ) is Some
            },
        },
{
    let n = children.len();
    let mut i: usize = 0;
    proof {
        assert(children@.subrange(0, n as int) =~= children@);
    }
    while i < n
        invariant
            n == children@.len(),
            i <= n,
            forall|j: int| 0 <= j < i ==> passed_over(#[trigger] children@[j], id),
            find_in(children@, id) == find_in(children@.subrange(i as int, n as int), id),
        decreases n - i,
    {
        let ghost t = children@.subrange(i as int, n as int);
        proof {
            assert(t[0] == children@[i as int]);
            assert(t.drop_first() =~= children@.subrange(i + 1, n as int));
        }
        let child = &children[i];
        if child.id() == id {
            return Some((i, true));
        }
        match child {
            Shape::Group(g) => {
                if find_in_children(&g.children, id).is_some() {
                    return Some((i, false));
                }
            },
            Shape::Element { .. } => {},
        }
        i = i + 1;
    }
    proof {
        assert(children@.subrange(n as int, n as int).len() == 0);
    }
    None
}

/// The first shape with identifier `id` among `children` and their nested
/// shapes, for changing it in place.
fn find_in_children_mut<P>(children: &mut Vec<Shape<P>>, id: ShapeId) -> (r: Option<&mut Shape<P>>)
    ensures
        match r {
            Some(s) => find_in(old(children)@, id) == Some(*s) && replaced_found(
                old(children)@,
                final(children)@,
                id,
                *final(s),
            ),
            None => find_in(old(children)@, id) is None && final(children)@ == old(children)@,
        },
    decreases old(children)@,
{
    match locate(children, id) {
        None => None,
        Some((i, true)) => {
            let ghost a = children@;
            let s = &mut children[i];
            proof {
                lemma_found_at(a, a.update(i as int, *final(s)), id, *final(s), i as int);
            }
            Some(s)
        },
        Some((i, false)) => {
            let ghost a = children@;
            match &mut children[i] {
                Shape::Group(g) => {
                    proof {
                        assert(decreases_to!(a => a[i as int]));
                        assert(decreases_to!(a[i as int] => a[i as int]->Group_0));
                        assert(decreases_to!(a[i as int]->Group_0 => a[i as int]->Group_0.children));
                        assert(decreases_to!(a[i as int]->Group_0.children => a[i as int]->Group_0.children@));
                    }
                    let ghost fg = *final(g);
                    let ghost inner_a = g.children@;
                    proof {
                        lemma_search_stops_at(a, id, i as int);
                    }
                    let r = find_in_children_mut(&mut g.children, id);
                    proof {
                        assert forall|x: Shape<P>| #[trigger] replaced_found(inner_a, fg.children@, id, x)
                            implies replaced_found(a, a.update(i as int, Shape::Group(fg)), id, x) by {
                            lemma_found_at(a, a.update(i as int, Shape::Group(fg)), id, x, i as int);
                        }
                        if r is Some {
                            assert(find_in(a, id) == Some(*(r->0)));
                            assert(replaced_found(inner_a, fg.children@, id, *final(r->0)));
                        }
                    }
                    r
                },
                Shape::Element { .. } => None,
            }
        },
    }
}

/// `b` is a copy of `a`: the same tree of groups and elements with the same
/// identifiers, each element's payload being a clone of the copied one's.
pub open spec fn shape_cloned<P: Clone>(a: Shape<P>, b: Shape<P>) -> bool
    decreases a, 1int,
{
    match (a, b) {
        (Shape::Element { id: ia, data: da }, Shape::Element { id: ib, data: db }) => ia == ib
            && cloned(da, db),
        (Shape::Group(ga), Shape::Group(gb)) => ga.id == gb.id && shapes_cloned(
            ga.children@,
            gb.children@,
        ),
        _ => false,
    }
}

/// `s2` is, element by element, a copy of `s1` in the sense of [`shape_cloned`].
pub open spec fn shapes_cloned<P: Clone>(s1: Seq<Shape<P>>, s2: Seq<Shape<P>>) -> bool
    decreases s1, 0int,
{
    if s1.len() == 0 {
        s2.len() == 0
    } else {
        s2.len() == s1.len() && shapes_cloned(s1.drop_last(), s2.drop_last()) && shape_cloned(
            s1.last(),
            s2.last(),
        )
    }
}

/// Copy a shape tree, cloning each element's payload.
fn clone_shape<P: Clone>(s: &Shape<P>) -> (c: Shape<P>)
    ensures
        shape_cloned(*s, c),
    decreases s,
{
    match s {
        Shape::Element { id, data } => {
            let d = data.clone();
            assert(cloned(*data, d));
            let c = Shape::Element { id: *id, data: d };
            assert(shape_cloned(*s, c));
            c
        },
        Shape::Group(g) => {
            let mut children: Vec<Shape<P>> = Vec::new();
            let n = g.children.len();
            let mut i: usize = 0;
            while i < n
                invariant
                    n == g.children.len(),
                    *s == Shape::Group(*g),
                    i <= n,
                    children.len() == i,
                    shapes_cloned(g.children@.take(i as int), children@),
                decreases n - i,
            {
                proof {
                    let gs = (*s)->Group_0;
                    assert(decreases_to!(*s => (*s)->Group_0));
                    assert(decreases_to!(gs => gs.children));
                    assert(decreases_to!(gs.children => gs.children@));
                    assert(decreases_to!(gs.children@ => gs.children@[i as int]));
                }
                let c = clone_shape(&g.children[i]);
                let ghost before = children@;
                children.push(c);
                proof {
                    assert(g.children@.take(i + 1).drop_last() == g.children@.take(i as int));
                    assert(children@.drop_last() == before);
                }
                i = i + 1;
            }
            assert(g.children@.take(n as int) == g.children@);
            Shape::Group(Group { id: g.id, children })
        },
    }
}

impl<P: Clone> Clone for Shape<P> {
    fn clone(&self) -> (c: Self)
        ensures
            shape_cloned(*self, c),
    {
        clone_shape(self)
    }
}

} // verus!
