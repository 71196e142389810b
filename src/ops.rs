use vstd::prelude::*;

use crate::text::{complete_word, is_complete_word, is_todo_word, todo_word, trim_text, trimmed};
use crate::todo::{lemma_model_push, lemma_model_remove_first, lemma_model_replace, model, Todo, TodoView};

verus! {

/// Keeps the records whose id is not `id`.
pub open spec fn id_differs(id: nat) -> spec_fn(TodoView) -> bool {
    |t: TodoView| t.id != id
}

/// Keeps the records that are done.
pub open spec fn is_done() -> spec_fn(TodoView) -> bool {
    |t: TodoView| t.completed
}

/// Keeps the records that are not done.
pub open spec fn is_pending() -> spec_fn(TodoView) -> bool {
    |t: TodoView| !t.completed
}

/// The collection after adding `text`: nothing changes when the trimmed text
/// is empty, else one record is appended, numbered one past the old length.
pub open spec fn added(c: Seq<TodoView>, text: Seq<char>) -> Seq<TodoView> {
    let t = trimmed(text);
    if t.len() == 0 {
        c
    } else {
        c.push(TodoView { id: c.len() + 1, text: t, completed: false })
    }
}

/// The collection without the records numbered `id`.
pub open spec fn without_id(c: Seq<TodoView>, id: nat) -> Seq<TodoView> {
    c.filter(id_differs(id))
}

/// The collection without the records that are done.
pub open spec fn without_completed(c: Seq<TodoView>) -> Seq<TodoView> {
    c.filter(is_pending())
}

/// Some record of `c` is numbered `id`.
pub open spec fn has_id(c: Seq<TodoView>, id: nat) -> bool {
    exists|i: int| 0 <= i < c.len() && #[trigger] c[i].id == id
}

/// `i` is the position of the first record numbered `id`.
pub open spec fn is_first(c: Seq<TodoView>, id: nat, i: int) -> bool {
    &&& 0 <= i < c.len()
    &&& c[i].id == id
    &&& forall|j: int| 0 <= j < i ==> #[trigger] c[j].id != id
}

/// The position of the first record numbered `id` (meaningful where `has_id`).
pub open spec fn first_index(c: Seq<TodoView>, id: nat) -> int {
    choose|i: int| is_first(c, id, i)
}

/// The view of an optional string.
pub open spec fn opt_view(o: Option<String>) -> Option<Seq<char>> {
    match o {
        Some(s) => Some(s@),
        None => None,
    }
}

/// One record after a status update: `complete` marks it done, `todo` marks it
/// not done, any other status keeps the mark; new text, when given, replaces
/// the text as it is.
pub open spec fn with_status(t: TodoView, status: Option<Seq<char>>, text: Option<Seq<char>>) -> TodoView {
    TodoView {
        id: t.id,
        text: match text {
            Some(x) => x,
            None => t.text,
        },
        completed: if status == Some(complete_word()) {
            true
        } else if status == Some(todo_word()) {
            false
        } else {
            t.completed
        },
    }
}

/// The collection after a status update of the first record numbered `id`.
pub open spec fn status_set(
    c: Seq<TodoView>,
    id: nat,
    status: Option<Seq<char>>,
    text: Option<Seq<char>>,
) -> Seq<TodoView> {
    if has_id(c, id) {
        let i = first_index(c, id);
        c.update(i, with_status(c[i], status, text))
    } else {
        c
    }
}

/// The collection after the text of the first record numbered `id` is set to
/// `text`, trimmed; an empty trimmed text removes the records numbered `id`.
pub open spec fn text_set(c: Seq<TodoView>, id: nat, text: Seq<char>) -> Seq<TodoView> {
    let t = trimmed(text);
    if t.len() == 0 {
        without_id(c, id)
    } else if has_id(c, id) {
        let i = first_index(c, id);
        c.update(i, TodoView { text: t, ..c[i] })
    } else {
        c
    }
}

/// One record, marked done.
pub open spec fn marked_done(t: TodoView) -> TodoView {
    TodoView { completed: true, ..t }
}

/// The collection after a bulk update: `complete` marks every record done;
/// any other status, or none, changes nothing.
pub open spec fn all_set(c: Seq<TodoView>, status: Option<Seq<char>>) -> Seq<TodoView> {
    if status == Some(complete_word()) {
        c.map_values(|t: TodoView| marked_done(t))
    } else {
        c
    }
}

/// The filter of a prefix one record longer.
pub proof fn lemma_filter_step(s: Seq<TodoView>, k: int, p: spec_fn(TodoView) -> bool)
    requires
        0 <= k < s.len(),
    ensures
        s.subrange(0, k + 1).filter(p) == (if p(s[k]) {
            s.subrange(0, k).filter(p).push(s[k])
        } else {
            s.subrange(0, k).filter(p)
        }),
{
    reveal(Seq::filter);
    assert(s.subrange(0, k + 1).drop_last() =~= s.subrange(0, k));
}

/// Removes every record numbered `id`; a missing id changes nothing.
pub fn delete_todo(todos: &mut Vec<Todo>, id: usize)
    ensures
        model(final(todos)@) == without_id(model(old(todos)@), id as nat),
{
    let ghost orig = model(todos@);
    let n = todos.len();
    let mut k: usize = 0;
    while k < n
        invariant
            0 <= k <= n,
            n == orig.len(),
            model(todos@) == orig.subrange(k as int, n as int) + without_id(
                orig.subrange(0, k as int),
                id as nat,
            ),
        decreases n - k,
    {
        proof {
            assert(todos@.len() == model(todos@).len());
        }
        let ghost before = todos@;
        let t = todos.remove(0);
        proof {
            lemma_model_remove_first(before);
            lemma_filter_step(orig, k as int, id_differs(id as nat));
            assert(orig.subrange(k as int, n as int).drop_first() =~= orig.subrange(
                k as int + 1,
                n as int,
            ));
            assert(model(todos@) =~= orig.subrange(k as int + 1, n as int) + without_id(
                orig.subrange(0, k as int),
                id as nat,
            ));
        }
        if t.id != id {
            proof {
                lemma_model_push(todos@, t);
            }
            todos.push(t);
            proof {
                assert(model(todos@) =~= orig.subrange(k as int + 1, n as int) + without_id(
                    orig.subrange(0, k as int + 1),
                    id as nat,
                ));
            }
        }
        k = k + 1;
    }
    proof {
        assert(orig.subrange(0, n as int) =~= orig);
        assert(model(todos@) =~= without_id(orig, id as nat));
    }
}

/// Removes every record that is done.
pub fn delete_completed_todos(todos: &mut Vec<Todo>)
    ensures
        model(final(todos)@) == without_completed(model(old(todos)@)),
{
    let ghost orig = model(todos@);
    let n = todos.len();
    let mut k: usize = 0;
    while k < n
        invariant
            0 <= k <= n,
            n == orig.len(),
            model(todos@) == orig.subrange(k as int, n as int) + without_completed(
                orig.subrange(0, k as int),
            ),
        decreases n - k,
    {
        proof {
            assert(todos@.len() == model(todos@).len());
        }
        let ghost before = todos@;
        let t = todos.remove(0);
        proof {
            lemma_model_remove_first(before);
            lemma_filter_step(orig, k as int, is_pending());
            assert(orig.subrange(k as int, n as int).drop_first() =~= orig.subrange(
                k as int + 1,
                n as int,
            ));
            assert(model(todos@) =~= orig.subrange(k as int + 1, n as int) + without_completed(
                orig.subrange(0, k as int),
            ));
        }
        if !t.completed {
            proof {
                lemma_model_push(todos@, t);
            }
            todos.push(t);
            proof {
                assert(model(todos@) =~= orig.subrange(k as int + 1, n as int) + without_completed(
                    orig.subrange(0, k as int + 1),
                ));
            }
        }
        k = k + 1;
    }
    proof {
        assert(orig.subrange(0, n as int) =~= orig);
        assert(model(todos@) =~= without_completed(orig));
    }
}

/// Marks every record done when `status` is `complete`; otherwise changes
/// nothing.
pub fn update_todos(todos: &mut Vec<Todo>, status: &Option<String>)
    ensures
        model(final(todos)@) == all_set(model(old(todos)@), opt_view(*status)),
{
    let ghost orig = model(todos@);
    let go = match status {
        Some(s) => is_complete_word(s),
        None => false,
    };
    if !go {
        return;
    }
    let n = todos.len();
    let mut k: usize = 0;
    while k < n
        invariant
            0 <= k <= n,
            n == orig.len(),
            model(todos@) == orig.subrange(k as int, n as int) + orig.subrange(
                0,
                k as int,
            ).map_values(|t: TodoView| marked_done(t)),
        decreases n - k,
    {
        proof {
            assert(todos@.len() == model(todos@).len());
        }
        let ghost before = todos@;
        let mut t = todos.remove(0);
        proof {
            lemma_model_remove_first(before);
        }
        t.completed = true;
        proof {
            lemma_model_push(todos@, t);
        }
        todos.push(t);
        proof {
            assert(orig.subrange(k as int, n as int).drop_first() =~= orig.subrange(
                k as int + 1,
                n as int,
            ));
            assert(model(todos@) =~= orig.subrange(k as int + 1, n as int) + orig.subrange(
                0,
                k as int + 1,
            ).map_values(|t: TodoView| marked_done(t)));
        }
        k = k + 1;
    }
    proof {
        assert(orig.subrange(0, n as int) =~= orig);
        assert(model(todos@) =~= all_set(orig, opt_view(*status)));
    }
}

/// Adds a record for `text`, trimmed, numbered one past the current length and
/// not done; text that is empty once trimmed adds nothing.
pub fn add_todo(todos: &mut Vec<Todo>, text: &str)
    requires
        old(todos).len() < usize::MAX,
    ensures
        model(final(todos)@) == added(model(old(todos)@), text@),
{
    let t = trim_text(text);
    if t.as_str().is_empty() {
        return;
    }
    let id = todos.len() + 1;
    let rec = Todo { id, text: t, completed: false };
    proof {
        lemma_model_push(todos@, rec);
    }
    todos.push(rec);
}

/// The position of the first record numbered `id`, if there is one.
fn position_of(todos: &Vec<Todo>, id: usize) -> (r: Option<usize>)
    ensures
        r.is_some() == has_id(model(todos@), id as nat),
        r.is_some() ==> r.unwrap() == first_index(model(todos@), id as nat) && is_first(
            model(todos@),
            id as nat,
            r.unwrap() as int,
        ),
{
    let ghost c = model(todos@);
    let mut i: usize = 0;
    while i < todos.len()
        invariant
            0 <= i <= todos.len(),
            c == model(todos@),
            forall|j: int| 0 <= j < i ==> #[trigger] c[j].id != id as nat,
        decreases todos.len() - i,
    {
        if todos[i].id == id {
            proof {
                assert(c[i as int] == todos@[i as int]@);
                assert(is_first(c, id as nat, i as int));
                let k = first_index(c, id as nat);
                assert(is_first(c, id as nat, k));
                if k < i {
                    assert(c[k].id != id as nat);
                }
                if k > i {
                    assert(c[i as int].id != id as nat);
                }
            }
            return Some(i);
        }
        proof {
            assert(c[i as int] == todos@[i as int]@);
        }
        i = i + 1;
    }
    proof {
        if has_id(c, id as nat) {
            let j = choose|j: int| 0 <= j < c.len() && #[trigger] c[j].id == id as nat;
            assert(c[j].id != id as nat);
        }
    }
    None
}

/// Updates the first record numbered `id`: status `complete` marks it done,
/// `todo` marks it not done, any other status keeps the mark, and `text`, when
/// given, replaces its text as it is. A missing id changes nothing.
pub fn update_todo(todos: &mut Vec<Todo>, id: usize, status: &Option<String>, text: Option<String>)
    ensures
        model(final(todos)@) == status_set(
            model(old(todos)@),
            id as nat,
            opt_view(*status),
            opt_view(text),
        ),
{
    let pos = position_of(todos, id);
    match pos {
        None => {},
        Some(i) => {
            let ghost before = todos@;
            let mut t = todos.remove(i);
            match status {
                Some(s) => {
                    if is_complete_word(s) {
                        t.completed = true;
                    } else if is_todo_word(s) {
                        t.completed = false;
                    }
                },
                None => {},
            }
            match text {
                Some(x) => {
                    t.text = x;
                },
                None => {},
            }
            proof {
                reveal_strlit("complete");
                assert(complete_word() != todo_word());
                assert(t@ == with_status(before[i as int]@, opt_view(*status), opt_view(text)));
                lemma_model_replace(before, i as int, t);
            }
            todos.insert(i, t);
        },
    }
}

/// Sets the text of the first record numbered `id` to `text`, trimmed. Text
/// that is empty once trimmed removes the records numbered `id` instead. A
/// missing id changes nothing.
pub fn update_todo_text(todos: &mut Vec<Todo>, id: usize, text: &str)
    ensures
        model(final(todos)@) == text_set(model(old(todos)@), id as nat, text@),
{
    let t = trim_text(text);
    if t.as_str().is_empty() {
        delete_todo(todos, id);
        return;
    }
    let pos = position_of(todos, id);
    match pos {
        None => {},
        Some(i) => {
            let ghost before = todos@;
            let mut rec = todos.remove(i);
            rec.text = t;
            proof {
                lemma_model_replace(before, i as int, rec);
            }
            todos.insert(i, rec);
            proof {
                assert(model(todos@) =~= text_set(model(before), id as nat, text@));
            }
        },
    }
}

/// A copy of the first record numbered `id`, if there is one.
pub fn find_todo(todos: &Vec<Todo>, id: usize) -> (r: Option<Todo>)
    ensures
        r.is_some() == has_id(model(todos@), id as nat),
        r.is_some() ==> r.unwrap()@ == model(todos@)[first_index(model(todos@), id as nat)],
{
    match position_of(todos, id) {
        None => None,
        Some(i) => {
            let t = &todos[i];
            proof {
                assert(model(todos@)[i as int] == todos@[i as int]@);
            }
            Some(Todo { id: t.id, text: t.text.clone(), completed: t.completed })
        },
    }
}

/// One change to the collection, as a request asks for it.
#[allow(inconsistent_fields)]
pub enum Action {
    /// Add a record for this text.
    Add { text: String },
    /// Remove the records with this id.
    Delete { id: usize },
    /// Remove the records that are done.
    DeleteCompleted,
    /// Update the status, and maybe the text, of the record with this id.
    SetStatus { id: usize, status: Option<String>, text: Option<String> },
    /// Set the text of the record with this id.
    SetText { id: usize, text: String },
    /// Mark every record done when the status is `complete`.
    SetAll { status: Option<String> },
}

/// The collection after `a`.
pub open spec fn applied(c: Seq<TodoView>, a: Action) -> Seq<TodoView> {
    match a {
        Action::Add { text } => added(c, text@),
        Action::Delete { id } => without_id(c, id as nat),
        Action::DeleteCompleted => without_completed(c),
        Action::SetStatus { id, status, text } => status_set(
            c,
            id as nat,
            opt_view(status),
            opt_view(text),
        ),
        Action::SetText { id, text } => text_set(c, id as nat, text@),
        Action::SetAll { status } => all_set(c, opt_view(status)),
    }
}

/// Applies exactly one change to the collection.
pub fn apply(todos: &mut Vec<Todo>, action: Action)
    requires
        action is Add ==> old(todos).len() < usize::MAX,
    ensures
        model(final(todos)@) == applied(model(old(todos)@), action),
{
    match action {
        Action::Add { text } => add_todo(todos, text.as_str()),
        Action::Delete { id } => delete_todo(todos, id),
        Action::DeleteCompleted => delete_completed_todos(todos),
        Action::SetStatus { id, status, text } => update_todo(todos, id, &status, text),
        Action::SetText { id, text } => update_todo_text(todos, id, text.as_str()),
        Action::SetAll { status } => update_todos(todos, &status),
    }
}

} // verus!
