use vstd::prelude::*;

use crate::ops::{find_todo, first_index, has_id, is_done, is_pending, lemma_filter_step};
use crate::todo::{lemma_model_push, lemma_model_remove_first, model, Todo, TodoView};

verus! {

/// The page frame: which sections of the list are shown.
pub struct Index {
    pub show_active: bool,
    pub show_complete: bool,
}

impl Index {
    /// The frame that shows both sections.
    pub fn all() -> (r: Index)
        ensures
            r.show_active && r.show_complete,
    {
        Index { show_active: true, show_complete: true }
    }

    /// The frame that shows the records not done.
    pub fn active() -> (r: Index)
        ensures
            r.show_active && !r.show_complete,
    {
        Index { show_active: true, show_complete: false }
    }

    /// The frame that shows the records done.
    pub fn completed() -> (r: Index)
        ensures
            !r.show_active && r.show_complete,
    {
        Index { show_active: false, show_complete: true }
    }
}

/// The list split into records not done (`todo`) and done (`done`), with the
/// two display hints and the number of records.
pub struct Todos {
    pub todo: Vec<Todo>,
    pub done: Vec<Todo>,
    pub show_active: bool,
    pub show_complete: bool,
    pub total: usize,
}

/// What a `Todos` holds, as mathematical values.
pub struct TodosView {
    pub todo: Seq<TodoView>,
    pub done: Seq<TodoView>,
    pub show_active: bool,
    pub show_complete: bool,
    pub total: nat,
}

impl View for Todos {
    type V = TodosView;

    open spec fn view(&self) -> TodosView {
        TodosView {
            todo: model(self.todo@),
            done: model(self.done@),
            show_active: self.show_active,
            show_complete: self.show_complete,
            total: self.total as nat,
        }
    }
}

/// The list view of `c`: both partitions in the order of `c`, whatever
/// the hints say.
pub open spec fn list_view(c: Seq<TodoView>, show_active: bool, show_complete: bool) -> TodosView {
    TodosView {
        todo: c.filter(is_pending()),
        done: c.filter(is_done()),
        show_active,
        show_complete,
        total: c.len(),
    }
}

/// The display hints that a request asked for; an absent hint is `true`.
pub struct TodosQuery {
    pub active: Option<bool>,
    pub complete: Option<bool>,
}

/// A hint, defaulting to shown.
pub open spec fn hint(o: Option<bool>) -> bool {
    match o {
        Some(b) => b,
        None => true,
    }
}

impl Todos {
    /// Splits `todos` into records done and not done, each in the order of
    /// `todos`, and keeps the hints.
    pub fn new(todos: Vec<Todo>, show_active: bool, show_complete: bool) -> (r: Todos)
        ensures
            r@ == list_view(model(todos@), show_active, show_complete),
    {
        let ghost orig = model(todos@);
        let mut rest = todos;
        let total = rest.len();
        let mut done: Vec<Todo> = Vec::new();
        let mut todo: Vec<Todo> = Vec::new();
        let mut k: usize = 0;
        while k < total
            invariant
                0 <= k <= total,
                total == orig.len(),
                model(rest@) == orig.subrange(k as int, total as int),
                model(done@) == orig.subrange(0, k as int).filter(is_done()),
                model(todo@) == orig.subrange(0, k as int).filter(is_pending()),
            decreases total - k,
        {
            proof {
                assert(rest@.len() == model(rest@).len());
            }
            let ghost before = rest@;
            let t = rest.remove(0);
            proof {
                lemma_model_remove_first(before);
                lemma_filter_step(orig, k as int, is_done());
                lemma_filter_step(orig, k as int, is_pending());
                assert(orig.subrange(k as int, total as int).drop_first() =~= orig.subrange(
                    k as int + 1,
                    total as int,
                ));
            }
            if t.completed {
                proof {
                    lemma_model_push(done@, t);
                }
                done.push(t);
            } else {
                proof {
                    lemma_model_push(todo@, t);
                }
                todo.push(t);
            }
            k = k + 1;
        }
        proof {
            assert(orig.subrange(0, total as int) =~= orig);
        }
        Todos { todo, done, show_active, show_complete, total }
    }

    /// The list view for a request's hints, each absent one taken as shown.
    pub fn from_query(todos: Vec<Todo>, query: &TodosQuery) -> (r: Todos)
        ensures
            r@ == list_view(model(todos@), hint(query.active), hint(query.complete)),
    {
        let show_active = match query.active {
            Some(b) => b,
            None => true,
        };
        let show_complete = match query.complete {
            Some(b) => b,
            None => true,
        };
        Todos::new(todos, show_active, show_complete)
    }
}

/// The form for editing one record.
pub struct EditTodo {
    pub todo: Todo,
}

impl EditTodo {
    /// The form for the first record numbered `id`, or `None` where no record
    /// has that id.
    pub fn find(todos: &Vec<Todo>, id: usize) -> (r: Option<EditTodo>)
        ensures
            r.is_some() == has_id(model(todos@), id as nat),
            r.is_some() ==> r.unwrap().todo@ == model(todos@)[first_index(
                model(todos@),
                id as nat,
            )],
    {
        match find_todo(todos, id) {
            Some(t) => Some(EditTodo { todo: t }),
            None => None,
        }
    }
}

} // verus!
