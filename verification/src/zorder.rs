//! Sequence operations behind the z-order of a document.
use vstd::prelude::*;
use crate::shapes::ShapeId;

verus! {

/// `s` with every occurrence of `x` removed, other entries kept in order.
pub open spec fn remove_all(s: Seq<ShapeId>, x: ShapeId) -> Seq<ShapeId>
    decreases s.len(),
{
    if s.len() == 0 {
        seq![]
    } else {
        remove_all(s.drop_last(), x) + if s.last() == x {
            seq![]
        } else {
            seq![s.last()]
        }
    }
}

/// `i` is the position of the first occurrence of `x` in `s`.
pub open spec fn is_first_index(s: Seq<ShapeId>, x: ShapeId, i: int) -> bool {
    &&& 0 <= i < s.len()
    &&& s[i] == x
    &&& forall|j: int| 0 <= j < i ==> s[j] != x
}

/// The position of the first occurrence of `x` in `s` (meaningful when `s` contains `x`).
pub open spec fn first_index(s: Seq<ShapeId>, x: ShapeId) -> int {
    choose|i: int| is_first_index(s, x, i)
}

/// A sequence that contains `x` has a first occurrence of it, and `first_index` is it.
pub proof fn lemma_first_index(s: Seq<ShapeId>, x: ShapeId)
    requires
        s.contains(x),
    ensures
        is_first_index(s, x, first_index(s, x)),
    decreases s.len(),
{
    if s.last() == x && !s.drop_last().contains(x) {
        let i = s.len() - 1;
        assert forall|j: int| 0 <= j < i implies s[j] != x by {
            assert(s.drop_last()[j] == s[j]);
        }
        assert(is_first_index(s, x, i));
    } else {
        let t = s.drop_last();
        if !t.contains(x) {
            let k = choose|k: int| 0 <= k < s.len() && s[k] == x;
            if k < s.len() - 1 {
                assert(t[k] == x);
            }
            assert(false);
        }
        lemma_first_index(t, x);
        let i = first_index(t, x);
        assert forall|j: int| 0 <= j < i implies s[j] != x by {
            assert(t[j] == s[j]);
        }
        assert(is_first_index(s, x, i));
    }
}

/// The first occurrence is unique: any first index is `first_index`.
pub proof fn lemma_first_index_unique(s: Seq<ShapeId>, x: ShapeId, i: int)
    requires
        is_first_index(s, x, i),
    ensures
        first_index(s, x) == i,
{
    assert(s.contains(x));
    lemma_first_index(s, x);
    let k = first_index(s, x);
    if k < i {
        assert(s[k] != x);
    }
    if i < k {
        assert(s[i] != x);
    }
}

/// What remains after removing `x` contains exactly the other entries.
pub proof fn lemma_remove_all_contains(s: Seq<ShapeId>, x: ShapeId, y: ShapeId)
    ensures
        remove_all(s, x).contains(y) <==> (s.contains(y) && y != x),
    decreases s.len(),
{
    if s.len() > 0 {
        let t = s.drop_last();
        lemma_remove_all_contains(t, x, y);
        let tail = if s.last() == x {
            seq![]
        } else {
            seq![s.last()]
        };
        let r = remove_all(s, x);
        assert(r == remove_all(t, x) + tail);
        if r.contains(y) {
            let k = choose|k: int| 0 <= k < r.len() && r[k] == y;
            if k < remove_all(t, x).len() {
                assert(remove_all(t, x)[k] == y);
                let k2 = choose|k2: int| 0 <= k2 < t.len() && t[k2] == y;
                assert(s[k2] == y);
            } else {
                assert(tail[k - remove_all(t, x).len()] == y);
                assert(s[s.len() - 1] == y);
            }
        }
        if s.contains(y) && y != x {
            let k = choose|k: int| 0 <= k < s.len() && s[k] == y;
            if k < s.len() - 1 {
                assert(t[k] == y);
                let k2 = choose|k2: int| 0 <= k2 < remove_all(t, x).len() && remove_all(t, x)[k2] == y;
                assert(r[k2] == y);
            } else {
                assert(r[r.len() - 1] == y);
            }
        }
    }
}

/// Removing an entry that does not occur changes nothing.
pub proof fn lemma_remove_all_absent(s: Seq<ShapeId>, x: ShapeId)
    requires
        !s.contains(x),
    ensures
        remove_all(s, x) == s,
    decreases s.len(),
{
    if s.len() > 0 {
        let t = s.drop_last();
        assert(!t.contains(x)) by {
            if t.contains(x) {
                let k = choose|k: int| 0 <= k < t.len() && t[k] == x;
                assert(s[k] == x);
            }
        }
        lemma_remove_all_absent(t, x);
        assert(s[s.len() - 1] != x);
        assert(t.push(s.last()) =~= s);
    }
}

/// Removing `x` keeps the entries before its first occurrence untouched.
pub proof fn lemma_remove_all_prefix(s: Seq<ShapeId>, x: ShapeId, p: int)
    requires
        0 <= p <= s.len(),
        !s.take(p).contains(x),
    ensures
        remove_all(s, x).len() >= p,
        remove_all(s, x).take(p) == s.take(p),
    decreases s.len(),
{
    if s.len() > p {
        let t = s.drop_last();
        assert(t.take(p) =~= s.take(p));
        lemma_remove_all_prefix(t, x, p);
        assert(remove_all(s, x).take(p) =~= remove_all(t, x).take(p));
    } else {
        assert(s.take(p) =~= s);
        lemma_remove_all_absent(s, x);
    }
}

/// Removing one entry that occurs once from a list without repetitions
/// leaves a list without repetitions, one entry shorter.
pub proof fn lemma_remove_all_no_duplicates(s: Seq<ShapeId>, x: ShapeId)
    requires
        s.no_duplicates(),
    ensures
        remove_all(s, x).no_duplicates(),
        remove_all(s, x).len() == if s.contains(x) {
            s.len() - 1
        } else {
            s.len() as int
        },
    decreases s.len(),
{
    if s.len() > 0 {
        let t = s.drop_last();
        assert(t.no_duplicates());
        lemma_remove_all_no_duplicates(t, x);
        lemma_remove_all_contains(t, x, s.last());
        assert(!t.contains(s.last())) by {
            if t.contains(s.last()) {
                let k = choose|k: int| 0 <= k < t.len() && t[k] == s.last();
                assert(s[k] == s[s.len() - 1]);
            }
        }
        let r = remove_all(s, x);
        if s.last() != x {
            assert forall|i: int, j: int| 0 <= i < r.len() && 0 <= j < r.len() && i != j implies r[i]
                != r[j] by {
                if i == r.len() - 1 {
                    assert(remove_all(t, x).contains(r[j]));
                } else if j == r.len() - 1 {
                    assert(remove_all(t, x).contains(r[i]));
                }
            }
        } else {
            assert(r =~= remove_all(t, x));
        }
        if s.contains(x) && s.last() != x {
            let k = choose|k: int| 0 <= k < s.len() && s[k] == x;
            assert(t[k] == x);
        }
        if !s.contains(x) {
            assert(s[s.len() - 1] != x);
            if t.contains(x) {
                let k = choose|k: int| 0 <= k < t.len() && t[k] == x;
                assert(s[k] == x);
            }
        }
    }
}

/// The list without the entries equal to `id`.
pub fn vec_without(z: &Vec<ShapeId>, id: ShapeId) -> (r: Vec<ShapeId>)
    ensures
        r@ == remove_all(z@, id),
{
    let mut out: Vec<ShapeId> = Vec::new();
    let n = z.len();
    let mut i: usize = 0;
    while i < n
        invariant
            n == z.len(),
            i <= n,
            out@ == remove_all(z@.take(i as int), id),
        decreases n - i,
    {
        proof {
            assert(z@.take(i + 1).drop_last() =~= z@.take(i as int));
        }
        if z[i] != id {
            out.push(z[i]);
        }
        i = i + 1;
    }
    proof {
        assert(z@.take(n as int) =~= z@);
    }
    out
}

/// The position of the first occurrence of `id` in `z`, if any.
pub fn position_of(z: &Vec<ShapeId>, id: ShapeId) -> (r: Option<usize>)
    ensures
        match r {
            Some(p) => is_first_index(z@, id, p as int),
            None => !z@.contains(id),
        },
{
    let n = z.len();
    let mut i: usize = 0;
    while i < n
        invariant
            n == z.len(),
            i <= n,
            forall|j: int| 0 <= j < i ==> z@[j] != id,
        decreases n - i,
    {
        if z[i] == id {
            return Some(i);
        }
        i = i + 1;
    }
    None
}

/// The z-order after bringing `id` to the front: every occurrence removed, then `id` appended.
pub open spec fn bring_to_front_spec(z: Seq<ShapeId>, id: ShapeId) -> Seq<ShapeId> {
    remove_all(z, id).push(id)
}

/// The z-order after sending `id` to the back: every occurrence removed, then `id` put first.
pub open spec fn send_to_back_spec(z: Seq<ShapeId>, id: ShapeId) -> Seq<ShapeId> {
    seq![id] + remove_all(z, id)
}

/// `id` occurs and its first occurrence is not the frontmost entry.
pub open spec fn can_bring_forward(z: Seq<ShapeId>, id: ShapeId) -> bool {
    z.contains(id) && first_index(z, id) < z.len() - 1
}

/// The z-order after moving `id` one layer forward: its first occurrence trades
/// places with the entry after it, when there is one.
pub open spec fn bring_forward_spec(z: Seq<ShapeId>, id: ShapeId) -> Seq<ShapeId> {
    if can_bring_forward(z, id) {
        let p = first_index(z, id);
        z.update(p, z[p + 1]).update(p + 1, z[p])
    } else {
        z
    }
}

/// `id` occurs and its first occurrence is not the backmost entry.
pub open spec fn can_send_backward(z: Seq<ShapeId>, id: ShapeId) -> bool {
    z.contains(id) && first_index(z, id) > 0
}

/// The z-order after moving `id` one layer backward: its first occurrence trades
/// places with the entry before it, when there is one.
pub open spec fn send_backward_spec(z: Seq<ShapeId>, id: ShapeId) -> Seq<ShapeId> {
    if can_send_backward(z, id) {
        let p = first_index(z, id);
        z.update(p, z[p - 1]).update(p - 1, z[p])
    } else {
        z
    }
}

/// Bringing a shape forward and then sending it backward restores the z-order,
/// for a z-order without repeated entries.
pub proof fn lemma_send_backward_undoes_bring_forward(z: Seq<ShapeId>, id: ShapeId)
    requires
        z.no_duplicates(),
        can_bring_forward(z, id),
    ensures
        can_send_backward(bring_forward_spec(z, id), id),
        send_backward_spec(bring_forward_spec(z, id), id) == z,
{
    lemma_first_index(z, id);
    let p = first_index(z, id);
    let z1 = bring_forward_spec(z, id);
    assert(z[p + 1] != id);
    assert(is_first_index(z1, id, p + 1)) by {
        assert forall|j: int| 0 <= j < p + 1 implies z1[j] != id by {
            if j == p {
                assert(z1[j] == z[p + 1]);
            }
        }
    }
    lemma_first_index_unique(z1, id, p + 1);
    assert(z1.contains(id)) by {
        assert(z1[p + 1] == id);
    }
    assert(send_backward_spec(z1, id) =~= z);
}

/// Sending a shape backward and then bringing it forward restores the z-order,
/// for a z-order without repeated entries.
pub proof fn lemma_bring_forward_undoes_send_backward(z: Seq<ShapeId>, id: ShapeId)
    requires
        z.no_duplicates(),
        can_send_backward(z, id),
    ensures
        can_bring_forward(send_backward_spec(z, id), id),
        bring_forward_spec(send_backward_spec(z, id), id) == z,
{
    lemma_first_index(z, id);
    let p = first_index(z, id);
    let z1 = send_backward_spec(z, id);
    assert(z[p - 1] != id);
    assert(is_first_index(z1, id, p - 1));
    lemma_first_index_unique(z1, id, p - 1);
    assert(z1.contains(id)) by {
        assert(z1[p - 1] == id);
    }
    assert(bring_forward_spec(z1, id) =~= z);
}

/// Bringing a present shape to the front, or sending it to the back, of a z-order
/// without repetitions reorders it: same length, same entries, no repetitions,
/// and the shape ends up last (front) or first (back).
pub proof fn lemma_front_back_reorder(z: Seq<ShapeId>, id: ShapeId)
    requires
        z.no_duplicates(),
        z.contains(id),
    ensures
        bring_to_front_spec(z, id).len() == z.len(),
        send_to_back_spec(z, id).len() == z.len(),
        bring_to_front_spec(z, id).no_duplicates(),
        send_to_back_spec(z, id).no_duplicates(),
        bring_to_front_spec(z, id).last() == id,
        send_to_back_spec(z, id)[0] == id,
        forall|y: ShapeId|
            bring_to_front_spec(z, id).contains(y) <==> z.contains(y),
        forall|y: ShapeId|
            send_to_back_spec(z, id).contains(y) <==> z.contains(y),
{
    lemma_remove_all_no_duplicates(z, id);
    let r = remove_all(z, id);
    lemma_remove_all_contains(z, id, id);
    assert forall|y: ShapeId| bring_to_front_spec(z, id).contains(y) <==> z.contains(y) by {
        lemma_remove_all_contains(z, id, y);
        let f = bring_to_front_spec(z, id);
        if f.contains(y) && y != id {
            let k = choose|k: int| 0 <= k < f.len() && f[k] == y;
            assert(r[k] == y);
        }
        if z.contains(y) && y != id {
            let k = choose|k: int| 0 <= k < r.len() && r[k] == y;
            assert(f[k] == y);
        }
        if y == id {
            assert(f[f.len() - 1] == id);
        }
    }
    assert forall|y: ShapeId| send_to_back_spec(z, id).contains(y) <==> z.contains(y) by {
        lemma_remove_all_contains(z, id, y);
        let b = send_to_back_spec(z, id);
        if b.contains(y) && y != id {
            let k = choose|k: int| 0 <= k < b.len() && b[k] == y;
            assert(r[k - 1] == y);
        }
        if z.contains(y) && y != id {
            let k = choose|k: int| 0 <= k < r.len() && r[k] == y;
            assert(b[k + 1] == y);
        }
        if y == id {
            assert(b[0] == id);
        }
    }
    let f = bring_to_front_spec(z, id);
    assert forall|i: int, j: int| 0 <= i < f.len() && 0 <= j < f.len() && i != j implies f[i]
        != f[j] by {
        if i == f.len() - 1 {
            assert(r.contains(f[j]));
        } else if j == f.len() - 1 {
            assert(r.contains(f[i]));
        }
    }
    let b = send_to_back_spec(z, id);
    assert forall|i: int, j: int| 0 <= i < b.len() && 0 <= j < b.len() && i != j implies b[i]
        != b[j] by {
        if i == 0 {
            assert(r.contains(b[j]));
            assert(b[j] == r[j - 1]);
        } else if j == 0 {
            assert(r.contains(b[i]));
            assert(b[i] == r[i - 1]);
        } else {
            assert(b[i] == r[i - 1]);
            assert(b[j] == r[j - 1]);
        }
    }
}

} // verus!
verus! {

/// `s` without the entries that occur in `ids`, other entries kept in order.
pub open spec fn remove_all_in(s: Seq<ShapeId>, ids: Seq<ShapeId>) -> Seq<ShapeId>
    decreases s.len(),
{
    if s.len() == 0 {
        seq![]
    } else {
        remove_all_in(s.drop_last(), ids) + if ids.contains(s.last()) {
            seq![]
        } else {
            seq![s.last()]
        }
    }
}

/// Whether `x` occurs in `ids`.
pub fn contains_id(ids: &[ShapeId], x: ShapeId) -> (b: bool)
    ensures
        b == ids@.contains(x),
{
    let n = ids.len();
    let mut i: usize = 0;
    while i < n
        invariant
            n == ids@.len(),
            i <= n,
            forall|j: int| 0 <= j < i ==> ids@[j] != x,
        decreases n - i,
    {
        if ids[i] == x {
            assert(ids@[i as int] == x);
            return true;
        }
        i = i + 1;
    }
    false
}

/// The list without the entries that occur in `ids`.
pub fn vec_without_all(z: &Vec<ShapeId>, ids: &[ShapeId]) -> (r: Vec<ShapeId>)
    ensures
        r@ == remove_all_in(z@, ids@),
{
    let mut out: Vec<ShapeId> = Vec::new();
    let n = z.len();
    let mut i: usize = 0;
    while i < n
        invariant
            n == z.len(),
            i <= n,
            out@ == remove_all_in(z@.take(i as int), ids@),
        decreases n - i,
    {
        proof {
            assert(z@.take(i + 1).drop_last() =~= z@.take(i as int));
        }
        if !contains_id(ids, z[i]) {
            out.push(z[i]);
        }
        i = i + 1;
    }
    proof {
        assert(z@.take(n as int) =~= z@);
    }
    out
}

} // verus!
