use todo_list::ops::{
    add_todo, apply, delete_completed_todos, delete_todo, find_todo, update_todo,
    update_todo_text, update_todos, Action,
};
use todo_list::text::{is_complete_word, is_todo_word};
use todo_list::todo::Todo;
use todo_list::view::{EditTodo, Index, Todos, TodosQuery};

fn rec(id: usize, text: &str, completed: bool) -> Todo {
    Todo::new(id, text.to_string(), completed)
}

fn fields(todos: &[Todo]) -> Vec<(usize, String, bool)> {
    todos.iter().map(|t| (t.id, t.text.clone(), t.completed)).collect()
}

fn expect(todos: &[Todo], want: &[(usize, &str, bool)]) {
    let want: Vec<(usize, String, bool)> =
        want.iter().map(|(i, s, c)| (*i, s.to_string(), *c)).collect();
    assert_eq!(fields(todos), want);
}

fn sample() -> Vec<Todo> {
    vec![rec(1, "a", false), rec(2, "b", true), rec(3, "c", false), rec(4, "d", true)]
}

#[test]
fn partition_splits_in_order() {
    let v = Todos::new(sample(), true, true);
    assert_eq!(v.total, 4);
    expect(&v.todo, &[(1, "a", false), (3, "c", false)]);
    expect(&v.done, &[(2, "b", true), (4, "d", true)]);
    assert_eq!(v.todo.len() + v.done.len(), v.total);
}

#[test]
fn partition_of_empty() {
    let v = Todos::new(Vec::new(), true, true);
    assert_eq!(v.total, 0);
    assert!(v.todo.is_empty());
    assert!(v.done.is_empty());
}

#[test]
fn hints_do_not_change_parts() {
    let a = Todos::new(sample(), false, true);
    let b = Todos::new(sample(), true, true);
    assert_eq!(fields(&a.done), fields(&b.done));
    assert_eq!(fields(&a.todo), fields(&b.todo));
    assert_eq!(a.total, b.total);
    assert!(!a.show_active);
    assert!(a.show_complete);
}

#[test]
fn query_hints_default_to_shown() {
    let v = Todos::from_query(sample(), &TodosQuery { active: None, complete: None });
    assert!(v.show_active && v.show_complete);
    let w = Todos::from_query(sample(), &TodosQuery { active: Some(false), complete: None });
    assert!(!w.show_active && w.show_complete);
    let x = Todos::from_query(sample(), &TodosQuery { active: None, complete: Some(false) });
    assert!(x.show_active && !x.show_complete);
    expect(&x.done, &[(2, "b", true), (4, "d", true)]);
}

#[test]
fn index_frames() {
    let a = Index::all();
    assert!(a.show_active && a.show_complete);
    let b = Index::active();
    assert!(b.show_active && !b.show_complete);
    let c = Index::completed();
    assert!(!c.show_active && c.show_complete);
}

#[test]
fn add_empty_is_noop() {
    let mut t = sample();
    add_todo(&mut t, "");
    expect(&t, &[(1, "a", false), (2, "b", true), (3, "c", false), (4, "d", true)]);
}

#[test]
fn add_spaces_is_noop() {
    let mut t = sample();
    add_todo(&mut t, "   ");
    assert_eq!(t.len(), 4);
    add_todo(&mut t, " \t\n ");
    expect(&t, &[(1, "a", false), (2, "b", true), (3, "c", false), (4, "d", true)]);
}

#[test]
fn add_buy_milk() {
    let mut t = sample();
    add_todo(&mut t, "buy milk");
    assert_eq!(t.len(), 5);
    expect(&t[4..], &[(5, "buy milk", false)]);
}

#[test]
fn add_trims_text() {
    let mut t = Vec::new();
    add_todo(&mut t, "  walk the dog \n");
    expect(&t, &[(1, "walk the dog", false)]);
}

#[test]
fn delete_missing_is_noop() {
    let mut t = sample();
    delete_todo(&mut t, 9);
    expect(&t, &[(1, "a", false), (2, "b", true), (3, "c", false), (4, "d", true)]);
}

#[test]
fn delete_present_removes_one() {
    let mut t = sample();
    delete_todo(&mut t, 2);
    expect(&t, &[(1, "a", false), (3, "c", false), (4, "d", true)]);
}

#[test]
fn delete_on_empty() {
    let mut t: Vec<Todo> = Vec::new();
    delete_todo(&mut t, 1);
    delete_completed_todos(&mut t);
    assert!(t.is_empty());
}

#[test]
fn delete_completed_keeps_pending() {
    let mut t = sample();
    delete_completed_todos(&mut t);
    expect(&t, &[(1, "a", false), (3, "c", false)]);
}

#[test]
fn empty_text_edit_is_delete() {
    let mut a = sample();
    let mut b = sample();
    update_todo_text(&mut a, 3, "");
    delete_todo(&mut b, 3);
    assert_eq!(fields(&a), fields(&b));
    expect(&a, &[(1, "a", false), (2, "b", true), (4, "d", true)]);
}

#[test]
fn blank_text_edit_is_delete() {
    let mut a = sample();
    update_todo_text(&mut a, 1, "    ");
    expect(&a, &[(2, "b", true), (3, "c", false), (4, "d", true)]);
}

#[test]
fn text_edit_trims_and_touches_first_only() {
    let mut t = vec![rec(1, "a", false), rec(2, "b", true), rec(2, "x", false)];
    update_todo_text(&mut t, 2, "  new  ");
    expect(&t, &[(1, "a", false), (2, "new", true), (2, "x", false)]);
    update_todo_text(&mut t, 7, "other");
    expect(&t, &[(1, "a", false), (2, "new", true), (2, "x", false)]);
}

#[test]
fn status_complete_keeps_text() {
    let mut t = sample();
    update_todo(&mut t, 1, &Some("complete".to_string()), None);
    expect(&t, &[(1, "a", true), (2, "b", true), (3, "c", false), (4, "d", true)]);
}

#[test]
fn status_todo_clears_mark() {
    let mut t = sample();
    update_todo(&mut t, 2, &Some("todo".to_string()), None);
    expect(&t, &[(1, "a", false), (2, "b", false), (3, "c", false), (4, "d", true)]);
}

#[test]
fn status_bogus_keeps_mark() {
    let mut t = sample();
    update_todo(&mut t, 2, &Some("bogus".to_string()), None);
    update_todo(&mut t, 3, &None, None);
    expect(&t, &[(1, "a", false), (2, "b", true), (3, "c", false), (4, "d", true)]);
}

#[test]
fn status_with_text_sets_both() {
    let mut t = sample();
    update_todo(&mut t, 3, &Some("complete".to_string()), Some("  kept as is ".to_string()));
    expect(&t, &[(1, "a", false), (2, "b", true), (3, "  kept as is ", true), (4, "d", true)]);
}

#[test]
fn status_missing_id_is_noop() {
    let mut t = sample();
    update_todo(&mut t, 42, &Some("complete".to_string()), Some("z".to_string()));
    expect(&t, &[(1, "a", false), (2, "b", true), (3, "c", false), (4, "d", true)]);
}

#[test]
fn bulk_complete_marks_all() {
    let mut t = sample();
    update_todos(&mut t, &Some("complete".to_string()));
    expect(&t, &[(1, "a", true), (2, "b", true), (3, "c", true), (4, "d", true)]);
}

#[test]
fn bulk_other_status_is_noop() {
    let mut t = sample();
    update_todos(&mut t, &Some("todo".to_string()));
    update_todos(&mut t, &None);
    expect(&t, &[(1, "a", false), (2, "b", true), (3, "c", false), (4, "d", true)]);
}

#[test]
fn delete_completed_then_add() {
    let mut t = vec![rec(1, "a", false), rec(2, "b", true)];
    delete_completed_todos(&mut t);
    expect(&t, &[(1, "a", false)]);
    add_todo(&mut t, "c");
    expect(&t, &[(1, "a", false), (2, "c", false)]);
}

#[test]
fn find_first_match() {
    let t = vec![rec(1, "a", false), rec(2, "b", true), rec(2, "x", false)];
    let f = find_todo(&t, 2).unwrap();
    assert_eq!((f.id, f.text.as_str(), f.completed), (2, "b", true));
    assert!(find_todo(&t, 5).is_none());
}

#[test]
fn edit_form_lookup() {
    let t = sample();
    let e = EditTodo::find(&t, 4).unwrap();
    assert_eq!((e.todo.id, e.todo.text.as_str(), e.todo.completed), (4, "d", true));
    assert!(EditTodo::find(&t, 0).is_none());
}

#[test]
fn apply_runs_each_action() {
    let mut t = sample();
    apply(&mut t, Action::Add { text: " e ".to_string() });
    expect(&t[4..], &[(5, "e", false)]);
    apply(&mut t, Action::Delete { id: 1 });
    apply(&mut t, Action::DeleteCompleted);
    expect(&t, &[(3, "c", false), (5, "e", false)]);
    apply(&mut t, Action::SetStatus { id: 5, status: Some("complete".to_string()), text: None });
    apply(&mut t, Action::SetText { id: 3, text: "cc".to_string() });
    expect(&t, &[(3, "cc", false), (5, "e", true)]);
    apply(&mut t, Action::SetAll { status: Some("complete".to_string()) });
    expect(&t, &[(3, "cc", true), (5, "e", true)]);
}

#[test]
fn status_words() {
    assert!(is_complete_word(&"complete".to_string()));
    assert!(!is_complete_word(&"Complete".to_string()));
    assert!(is_todo_word(&"todo".to_string()));
    assert!(!is_todo_word(&"todos".to_string()));
}
