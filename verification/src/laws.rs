//! The library's laws: properties that hold across several operations,
//! stated over the same spec-level models the contracts use and proved
//! once and for all.

use vstd::prelude::*;

use crate::codec::{encodable, lemma_decode_encode, spec_decode, spec_encode};
use crate::model::{spec_apply_update, spec_set_completed, TodoView};
use crate::store::{empty_store, sorted_desc, spec_key};

verus! {

/// Round trip: for any encodable todo value, writing its record under its
/// key leaves a store whose entry for that key decodes to the very same
/// value, field for field.
pub proof fn lemma_insert_then_get_round_trip(m: Map<Seq<u8>, Seq<u8>>, t: TodoView)
    requires
        encodable(t),
    ensures
        m.insert(spec_key(t.id), spec_encode(t)).contains_key(spec_key(t.id)),
        spec_decode(m.insert(spec_key(t.id), spec_encode(t))[spec_key(t.id)]) == Some(t),
{
    lemma_decode_encode(t);
}

/// Idempotent delete-then-get: once a key is removed the store holds
/// nothing under it, so a read reports it missing, and removing it again
/// changes nothing and finds nothing to remove.
pub proof fn lemma_delete_then_get(m: Map<Seq<u8>, Seq<u8>>, id: u128)
    ensures
        !m.remove(spec_key(id)).contains_key(spec_key(id)),
        m.remove(spec_key(id)).remove(spec_key(id)) == m.remove(spec_key(id)),
{
    assert(m.remove(spec_key(id)).remove(spec_key(id)) =~= m.remove(spec_key(id)));
}

/// Ordering: a listing of exactly three records with strictly increasing
/// creation times, sorted newest first, is exactly newest, middle,
/// oldest.
pub proof fn lemma_three_newest_first(ts: Seq<TodoView>, a: TodoView, b: TodoView, c: TodoView)
    requires
        sorted_desc(ts),
        ts.len() == 3,
        ts.contains(a),
        ts.contains(b),
        ts.contains(c),
        a.created_at < b.created_at,
        b.created_at < c.created_at,
    ensures
        ts =~= seq![c, b, a],
{
    let ia = choose|i: int| 0 <= i < ts.len() && ts[i] == a;
    let ib = choose|i: int| 0 <= i < ts.len() && ts[i] == b;
    let ic = choose|i: int| 0 <= i < ts.len() && ts[i] == c;
    assert(ts[ia] == a && ts[ib] == b && ts[ic] == c);
    assert(ia != ib && ib != ic && ia != ic);
    assert(ts[0].created_at >= ts[1].created_at);
    assert(ts[1].created_at >= ts[2].created_at);
    assert(ts[0].created_at >= ts[2].created_at);
    assert(ic == 0 && ib == 1 && ia == 2);
}

/// Partial update preserves untouched fields: an update carrying only a
/// new title sets the title and the update time and leaves every other
/// field exactly as it was.
pub proof fn lemma_partial_update_preserves_fields(t: TodoView, title: Seq<char>, now: i64)
    ensures
        spec_apply_update(t, Some(title), None, None, None, now) == (TodoView {
            title,
            updated_at: now,
            ..t
        }),
{
}

/// Completion toggling always refreshes the update time: marking
/// completed twice in a row stamps each call's own time, so the stamps
/// never decrease, and strictly grow whenever the clock moved at all.
pub proof fn lemma_completion_always_refreshes(t: TodoView, t1: i64, t2: i64)
    requires
        t.created_at <= t1,
        t1 <= t2,
    ensures
        ({
            let u1 = spec_set_completed(t, true, t1);
            let u2 = spec_set_completed(u1, true, t2);
            &&& u1.completed
            &&& u2.completed
            &&& u1.updated_at == t1
            &&& u2.updated_at == t2
            &&& u1.updated_at <= u2.updated_at
            &&& (t1 < t2 ==> u1.updated_at < u2.updated_at)
        }),
{
}

/// Clearing empties the listing: the cleared store holds no records, so
/// any listing of it (one record per stored entry) holds nothing.
pub proof fn lemma_clear_then_list_empty(ts: Seq<TodoView>)
    requires
        ts.len() == empty_store().dom().len(),
    ensures
        ts =~= Seq::<TodoView>::empty(),
{
    assert(empty_store().dom() =~= Set::<Seq<u8>>::empty());
}

} // verus!
