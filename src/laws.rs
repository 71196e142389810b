use vstd::prelude::*;

use crate::ops::{
    added, first_index, has_id, id_differs, is_done, is_first, is_pending, status_set,
    text_set, with_status, without_id,
};
use crate::text::{all_white, complete_word, lemma_trim_all_white, todo_word, trimmed};
use crate::todo::TodoView;
use crate::view::list_view;

verus! {

broadcast use vstd::seq_lib::group_to_multiset_ensures;

/// The ids of `c` are pairwise distinct.
pub open spec fn unique_ids(c: Seq<TodoView>) -> bool {
    forall|i: int, j: int| 0 <= i < c.len() && 0 <= j < c.len() && i != j ==> #[trigger] c[i].id != #[trigger] c[j].id
}

/// A record that a filter keeps stands in its result after the kept records
/// that come before it.
proof fn lemma_filter_position(c: Seq<TodoView>, p: spec_fn(TodoView) -> bool, i: int)
    requires
        0 <= i < c.len(),
        p(c[i]),
    ensures
        c.subrange(0, i).filter(p).len() < c.filter(p).len(),
        c.filter(p)[c.subrange(0, i).filter(p).len() as int] == c[i],
{
    let a = c.subrange(0, i);
    let b = c.subrange(i + 1, c.len() as int);
    assert(c =~= a + (seq![c[i]] + b));
    Seq::filter_distributes_over_add(a, seq![c[i]] + b, p);
    b.lemma_filter_prepend(c[i], p);
}

/// The list view splits the collection: the two parts together hold each
/// record of it exactly as often as the collection does, every record in
/// `done` is done, every record in `todo` is not, the lengths add up to the
/// total, and each record stands in its part after exactly the records of
/// that part that come before it in the collection, so order is kept.
pub proof fn lemma_partition(c: Seq<TodoView>, show_active: bool, show_complete: bool)
    ensures
        ({
            let v = list_view(c, show_active, show_complete);
            &&& v.done.len() + v.todo.len() == v.total
            &&& v.total == c.len()
            &&& c.to_multiset() == v.done.to_multiset().add(v.todo.to_multiset())
            &&& forall|i: int| 0 <= i < v.done.len() ==> (#[trigger] v.done[i]).completed
            &&& forall|i: int| 0 <= i < v.todo.len() ==> !(#[trigger] v.todo[i]).completed
        }),
        forall|i: int|
            0 <= i < c.len() && (#[trigger] c[i]).completed ==> {
                let k = c.subrange(0, i).filter(is_done()).len() as int;
                k < list_view(c, show_active, show_complete).done.len() && list_view(
                    c,
                    show_active,
                    show_complete,
                ).done[k] == c[i]
            },
        forall|i: int|
            0 <= i < c.len() && !(#[trigger] c[i]).completed ==> {
                let k = c.subrange(0, i).filter(is_pending()).len() as int;
                k < list_view(c, show_active, show_complete).todo.len() && list_view(
                    c,
                    show_active,
                    show_complete,
                ).todo[k] == c[i]
            },
    decreases c.len(),
{
    reveal(Seq::filter);
    let v = list_view(c, show_active, show_complete);
    if c.len() == 0 {
        assert(c.to_multiset() =~= v.done.to_multiset().add(v.todo.to_multiset()));
    } else {
        let p = c.drop_last();
        lemma_partition(p, show_active, show_complete);
        assert(c =~= p.push(c.last()));
        assert(c.to_multiset() =~= v.done.to_multiset().add(v.todo.to_multiset()));
    }
    assert forall|i: int| 0 <= i < c.len() && (#[trigger] c[i]).completed implies ({
        let k = c.subrange(0, i).filter(is_done()).len() as int;
        k < v.done.len() && v.done[k] == c[i]
    }) by {
        lemma_filter_position(c, is_done(), i);
    }
    assert forall|i: int| 0 <= i < c.len() && !(#[trigger] c[i]).completed implies ({
        let k = c.subrange(0, i).filter(is_pending()).len() as int;
        k < v.todo.len() && v.todo[k] == c[i]
    }) by {
        lemma_filter_position(c, is_pending(), i);
    }
    assert forall|i: int| 0 <= i < v.done.len() implies (#[trigger] v.done[i]).completed by {
        c.lemma_filter_pred(is_done(), i);
    }
    assert forall|i: int| 0 <= i < v.todo.len() implies !(#[trigger] v.todo[i]).completed by {
        c.lemma_filter_pred(is_pending(), i);
    }
}

/// The display hints never change what the two parts hold.
pub proof fn lemma_hints_keep_parts(c: Seq<TodoView>, a1: bool, c1: bool, a2: bool, c2: bool)
    ensures
        list_view(c, a1, c1).done == list_view(c, a2, c2).done,
        list_view(c, a1, c1).todo == list_view(c, a2, c2).todo,
        list_view(c, a1, c1).total == list_view(c, a2, c2).total,
{
}

/// Adding text that is empty or all whitespace leaves the collection as it
/// was.
pub proof fn lemma_add_blank(c: Seq<TodoView>, text: Seq<char>)
    requires
        all_white(text),
    ensures
        added(c, text) == c,
{
    lemma_trim_all_white(text);
}

/// Adding text with something besides whitespace appends exactly one record:
/// the trimmed text, not done, numbered one past the old length.
pub proof fn lemma_add_appends(c: Seq<TodoView>, text: Seq<char>)
    requires
        trimmed(text).len() > 0,
    ensures
        added(c, text).len() == c.len() + 1,
        added(c, text).subrange(0, c.len() as int) == c,
        added(c, text).last() == (TodoView { id: c.len() + 1, text: trimmed(text), completed: false }),
{
    assert(added(c, text).subrange(0, c.len() as int) =~= c);
}

/// A filter that keeps every record is the collection itself.
proof fn lemma_filter_keeps_all(c: Seq<TodoView>, id: nat)
    requires
        !has_id(c, id),
    ensures
        without_id(c, id) == c,
    decreases c.len(),
{
    reveal(Seq::filter);
    if c.len() > 0 {
        let p = c.drop_last();
        assert(!has_id(p, id)) by {
            if has_id(p, id) {
                let j = choose|j: int| 0 <= j < p.len() && #[trigger] p[j].id == id;
                assert(c[j].id == id);
            }
        }
        lemma_filter_keeps_all(p, id);
        assert(c.last().id != id) by {
            assert(c[c.len() - 1].id != id);
        }
        assert(c =~= p.push(c.last()));
    }
}

/// Deleting an id that no record has changes nothing.
pub proof fn lemma_delete_missing(c: Seq<TodoView>, id: nat)
    requires
        !has_id(c, id),
    ensures
        without_id(c, id) == c,
{
    lemma_filter_keeps_all(c, id);
}

/// Where ids are distinct, deleting the id of the record at `i` removes that
/// record and keeps every other one, in order.
pub proof fn lemma_delete_present(c: Seq<TodoView>, i: int)
    requires
        unique_ids(c),
        0 <= i < c.len(),
    ensures
        without_id(c, c[i].id) == c.remove(i),
    decreases c.len(),
{
    reveal(Seq::filter);
    let id = c[i].id;
    let p = c.drop_last();
    assert(unique_ids(p));
    if i == c.len() - 1 {
        assert(!has_id(p, id)) by {
            if has_id(p, id) {
                let j = choose|j: int| 0 <= j < p.len() && #[trigger] p[j].id == id;
                assert(c[j].id == c[i].id);
            }
        }
        lemma_filter_keeps_all(p, id);
        assert(c.remove(i) =~= p);
    } else {
        lemma_delete_present(p, i);
        assert(p[i] == c[i]);
        assert(c.last().id != id) by {
            assert(c[c.len() - 1].id != c[i].id);
        }
        assert(c.remove(i) =~= p.remove(i).push(c.last()));
    }
}

/// Setting a record's text to empty or all-whitespace text is deleting its id.
pub proof fn lemma_blank_text_deletes(c: Seq<TodoView>, id: nat, text: Seq<char>)
    requires
        all_white(text),
    ensures
        text_set(c, id, text) == without_id(c, id),
{
    lemma_trim_all_white(text);
}

/// Where some record has `id`, `first_index` is the first such position.
pub proof fn lemma_first_index(c: Seq<TodoView>, id: nat)
    requires
        has_id(c, id),
    ensures
        is_first(c, id, first_index(c, id)),
    decreases c.len(),
{
    let p = c.drop_last();
    if has_id(p, id) {
        lemma_first_index(p, id);
        let k = first_index(p, id);
        assert forall|j: int| 0 <= j < k implies #[trigger] c[j].id != id by {
            assert(c[j] == p[j]);
        }
        assert(c[k] == p[k]);
        assert(is_first(c, id, k));
    } else {
        let k = c.len() - 1;
        assert forall|j: int| 0 <= j < k implies #[trigger] c[j].id != id by {
            if c[j].id == id {
                assert(p[j].id == id);
            }
        }
        let w = choose|j: int| 0 <= j < c.len() && #[trigger] c[j].id == id;
        assert(w == k);
        assert(is_first(c, id, k));
    }
}

/// Status `complete` with no new text marks the first record with `id` done
/// and keeps its text, its id and every other record.
pub proof fn lemma_status_complete(c: Seq<TodoView>, id: nat)
    requires
        has_id(c, id),
    ensures
        ({
            let r = status_set(c, id, Some(complete_word()), None);
            let i = first_index(c, id);
            &&& r.len() == c.len()
            &&& r[i].completed
            &&& r[i].text == c[i].text
            &&& r[i].id == id
            &&& forall|j: int| 0 <= j < c.len() && j != i ==> r[j] == c[j]
        }),
{
    lemma_first_index(c, id);
}

/// A status other than `complete` or `todo`, with no new text, changes
/// nothing.
pub proof fn lemma_status_other(c: Seq<TodoView>, id: nat, status: Seq<char>)
    requires
        status != complete_word(),
        status != todo_word(),
    ensures
        status_set(c, id, Some(status), None) == c,
{
    if has_id(c, id) {
        lemma_first_index(c, id);
        let i = first_index(c, id);
        assert(with_status(c[i], Some(status), None) == c[i]);
        assert(c.update(i, c[i]) =~= c);
    }
}

} // verus!
