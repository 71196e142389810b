use vstd::prelude::*;

verus! {

/// One entry of the list.
#[derive(Debug, Clone)]
pub struct Todo {
    pub id: usize,
    pub text: String,
    pub completed: bool,
}

/// What a `Todo` holds, as mathematical values.
pub struct TodoView {
    pub id: nat,
    pub text: Seq<char>,
    pub completed: bool,
}

impl View for Todo {
    type V = TodoView;

    open spec fn view(&self) -> TodoView {
        TodoView { id: self.id as nat, text: self.text@, completed: self.completed }
    }
}

/// The model of a whole collection: each record's view, in order.
pub open spec fn model(s: Seq<Todo>) -> Seq<TodoView> {
    s.map_values(|t: Todo| t@)
}

impl Todo {
    /// A record with the given fields.
    pub fn new(id: usize, text: String, completed: bool) -> (r: Todo)
        ensures
            r.id == id,
            r.text == text,
            r.completed == completed,
    {
        Todo { id, text, completed }
    }
}

/// Views of records that move, unchanged, to the end of a collection.
pub proof fn lemma_model_push(s: Seq<Todo>, t: Todo)
    ensures
        model(s.push(t)) == model(s).push(t@),
{
    assert(model(s.push(t)) =~= model(s).push(t@));
}

/// Views of a collection whose first record is taken out.
pub proof fn lemma_model_remove_first(s: Seq<Todo>)
    requires
        s.len() > 0,
    ensures
        model(s.remove(0)) == model(s).drop_first(),
        model(s)[0] == s[0]@,
{
    assert(model(s.remove(0)) =~= model(s).drop_first());
}

/// Views of a collection in which one record is replaced.
pub proof fn lemma_model_replace(s: Seq<Todo>, i: int, t: Todo)
    requires
        0 <= i < s.len(),
    ensures
        model(s.remove(i).insert(i, t)) == model(s).update(i, t@),
{
    assert(model(s.remove(i).insert(i, t)) =~= model(s).update(i, t@));
}

} // verus!
