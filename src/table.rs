use vstd::prelude::*;

use crate::model::Keyed;

verus! {

/// No two rows share a primary key.
pub open spec fn ids_unique<T: Keyed>(rows: Seq<T>) -> bool {
    forall|i: int, j: int|
        0 <= i < rows.len() && 0 <= j < rows.len() && i != j ==> #[trigger] rows[i].key()
            != #[trigger] rows[j].key()
}

/// Every key is positive and below `bound`, the next key to hand out.
pub open spec fn ids_below<T: Keyed>(rows: Seq<T>, bound: int) -> bool {
    forall|i: int| 0 <= i < rows.len() ==> 1 <= #[trigger] rows[i].key() < bound
}

pub open spec fn has_id<T: Keyed>(rows: Seq<T>, id: i32) -> bool {
    exists|i: int| 0 <= i < rows.len() && #[trigger] rows[i].key() == id
}

/// Where the row with key `id` stands (meaningful when `has_id`).
pub open spec fn index_of<T: Keyed>(rows: Seq<T>, id: i32) -> int {
    choose|i: int| 0 <= i < rows.len() && #[trigger] rows[i].key() == id
}

/// The row with key `id` (meaningful when `has_id`).
pub open spec fn row_of<T: Keyed>(rows: Seq<T>, id: i32) -> T {
    rows[index_of(rows, id)]
}

pub proof fn lemma_index_of<T: Keyed>(rows: Seq<T>, i: int, id: i32)
    requires
        ids_unique(rows),
        0 <= i < rows.len(),
        rows[i].key() == id,
    ensures
        has_id(rows, id),
        index_of(rows, id) == i,
        row_of(rows, id) == rows[i],
{
    assert(has_id(rows, id));
}

pub proof fn lemma_index_of_found<T: Keyed>(rows: Seq<T>, id: i32)
    requires
        has_id(rows, id),
    ensures
        0 <= index_of(rows, id) < rows.len(),
        rows[index_of(rows, id)].key() == id,
        row_of(rows, id).key() == id,
{
}

/// Pushing a row with a fresh key keeps keys unique and bounded.
pub proof fn lemma_push_fresh<T: Keyed>(rows: Seq<T>, r: T, bound: int)
    requires
        ids_unique(rows),
        ids_below(rows, bound),
        r.key() == bound,
        1 <= bound,
    ensures
        ids_unique(rows.push(r)),
        ids_below(rows.push(r), bound + 1),
        has_id(rows.push(r), r.key()),
        index_of(rows.push(r), r.key()) == rows.len(),
        forall|id: i32| id != r.key() ==> (has_id(rows.push(r), id) == has_id(rows, id)),
        forall|id: i32|
            id != r.key() && has_id(rows, id) ==> row_of(rows.push(r), id) == row_of(rows, id),
{
    let s = rows.push(r);
    assert forall|i: int| 0 <= i < s.len() implies 1 <= #[trigger] s[i].key() < bound + 1 by {
        if i < rows.len() {
            assert(s[i] == rows[i]);
        }
    }
    assert forall|i: int, j: int|
        0 <= i < s.len() && 0 <= j < s.len() && i != j implies #[trigger] s[i].key()
        != #[trigger] s[j].key() by {
        if i < rows.len() {
            assert(s[i] == rows[i]);
            assert(rows[i].key() < bound);
        }
        if j < rows.len() {
            assert(s[j] == rows[j]);
            assert(rows[j].key() < bound);
        }
    }
    lemma_index_of(s, rows.len() as int, r.key());
    assert forall|id: i32| id != r.key() implies (has_id(s, id) == has_id(rows, id)) by {
        if has_id(rows, id) {
            let i = index_of(rows, id);
            assert(s[i] == rows[i]);
        }
        if has_id(s, id) {
            let i = index_of(s, id);
            assert(s[i] == rows[i]);
        }
    }
    assert forall|id: i32| id != r.key() && has_id(rows, id) implies row_of(s, id) == row_of(
        rows,
        id,
    ) by {
        let i = index_of(rows, id);
        assert(s[i] == rows[i]);
        lemma_index_of(s, i, id);
    }
}

/// Finds where the row with key `id` stands.
pub fn find_row<T: Keyed>(rows: &Vec<T>, id: i32) -> (r: Option<usize>)
    requires
        ids_unique(rows@),
    ensures
        r.is_some() <==> has_id(rows@, id),
        r.is_some() ==> r.unwrap() as int == index_of(rows@, id) && r.unwrap() < rows@.len(),
{
    let mut i: usize = 0;
    while i < rows.len()
        invariant
            0 <= i <= rows@.len(),
            ids_unique(rows@),
            forall|k: int| 0 <= k < i ==> #[trigger] rows@[k].key() != id,
        decreases rows@.len() - i,
    {
        if rows[i].id() == id {
            proof {
                lemma_index_of(rows@, i as int, id);
            }
            return Some(i);
        }
        i = i + 1;
    }
    None
}

/// Removes the row with key `id`, if there is one, and says how many rows
/// went.
pub fn remove_row<T: Keyed>(rows: &mut Vec<T>, id: i32) -> (count: i32)
    requires
        ids_unique(old(rows)@),
    ensures
        has_id(old(rows)@, id) ==> count == 1 && final(rows)@ == old(rows)@.remove(
            index_of(old(rows)@, id),
        ),
        !has_id(old(rows)@, id) ==> count == 0 && final(rows)@ == old(rows)@,
{
    match find_row(rows, id) {
        Some(i) => {
            rows.remove(i);
            1
        },
        None => 0,
    }
}

/// Removing a row keeps the others, keeps keys unique and bounded, and the
/// removed key is gone.
pub proof fn lemma_remove<T: Keyed>(rows: Seq<T>, id: i32, bound: int)
    requires
        ids_unique(rows),
        ids_below(rows, bound),
        has_id(rows, id),
    ensures
        ids_unique(rows.remove(index_of(rows, id))),
        ids_below(rows.remove(index_of(rows, id)), bound),
        !has_id(rows.remove(index_of(rows, id)), id),
        forall|other: i32|
            other != id ==> (has_id(rows.remove(index_of(rows, id)), other) == has_id(
                rows,
                other,
            )),
        forall|other: i32|
            other != id && has_id(rows, other) ==> row_of(rows.remove(index_of(rows, id)), other)
                == row_of(rows, other),
{
    let k = index_of(rows, id);
    let s = rows.remove(k);
    assert forall|i: int| 0 <= i < s.len() implies #[trigger] s[i] == (if i < k {
        rows[i]
    } else {
        rows[i + 1]
    }) by {}
    assert forall|i: int| 0 <= i < s.len() implies 1 <= #[trigger] s[i].key() < bound by {
        if i < k {
            assert(s[i] == rows[i]);
        } else {
            assert(s[i] == rows[i + 1]);
        }
    }
    assert forall|i: int, j: int|
        0 <= i < s.len() && 0 <= j < s.len() && i != j implies #[trigger] s[i].key()
        != #[trigger] s[j].key() by {
        let ii = if i < k { i } else { i + 1 };
        let jj = if j < k { j } else { j + 1 };
        assert(s[i] == rows[ii]);
        assert(s[j] == rows[jj]);
    }
    assert(!has_id(s, id)) by {
        if has_id(s, id) {
            let i = index_of(s, id);
            let ii = if i < k { i } else { i + 1 };
            assert(s[i] == rows[ii]);
        }
    }
    assert forall|other: i32| other != id implies (has_id(s, other) == has_id(rows, other)) by {
        if has_id(s, other) {
            let i = index_of(s, other);
            let ii = if i < k { i } else { i + 1 };
            assert(s[i] == rows[ii]);
        }
        if has_id(rows, other) {
            let i = index_of(rows, other);
            assert(i != k);
            let si = if i < k { i } else { i - 1 };
            assert(s[si] == rows[i]);
        }
    }
    assert forall|other: i32| other != id && has_id(rows, other) implies row_of(s, other) == row_of(
        rows,
        other,
    ) by {
        let i = index_of(rows, other);
        assert(i != k);
        let si = if i < k { i } else { i - 1 };
        assert(s[si] == rows[i]);
        lemma_index_of(s, si, other);
    }
}

/// Replacing a row by one with the same key keeps keys unique and bounded.
pub proof fn lemma_update_same_key<T: Keyed>(rows: Seq<T>, i: int, r: T, bound: int)
    requires
        ids_unique(rows),
        ids_below(rows, bound),
        0 <= i < rows.len(),
        r.key() == rows[i].key(),
    ensures
        ids_unique(rows.update(i, r)),
        ids_below(rows.update(i, r), bound),
        forall|id: i32| has_id(rows.update(i, r), id) == has_id(rows, id),
{
    let s = rows.update(i, r);
    assert forall|id: i32| has_id(s, id) == has_id(rows, id) by {
        if has_id(s, id) {
            let a = index_of(s, id);
            assert(s[a].key() == rows[a].key());
        }
        if has_id(rows, id) {
            let a = index_of(rows, id);
            assert(s[a].key() == rows[a].key());
        }
    }
    assert forall|a: int, b: int|
        0 <= a < s.len() && 0 <= b < s.len() && a != b implies #[trigger] s[a].key()
        != #[trigger] s[b].key() by {
        assert(s[a].key() == rows[a].key());
        assert(s[b].key() == rows[b].key());
    }
    assert forall|a: int| 0 <= a < s.len() implies 1 <= #[trigger] s[a].key() < bound by {
        assert(s[a].key() == rows[a].key());
    }
}

} // verus!
