use vstd::prelude::*;
use crate::error::ErrorView;
use crate::label::{
    create_label_post, has_label_name, lemma_place_of_id, lemma_place_of_name, place_of_name,
    LabelView,
};
use crate::label_memory::LabelStoreView;
use crate::todo::{
    create_todo_post, delete_todo_post, descending_ids, find_todo_post, first_with_id, has_id,
    lemma_first_with_id, update_todo_post, CreateView, TodoView, UpdateView,
};
use crate::todo_memory::TodoStoreView;

verus! {

/// A task made without labels is found right after, open and without labels.
/// Making it succeeds whenever an id is left.
pub proof fn law_create_without_labels(store: TodoStoreView, payload: CreateView)
    requires
        store.valid(),
        payload.labels.len() == 0,
    ensures
        store.last_id < i32::MAX ==> store.create_outcome(payload) is Ok,
        store.create_outcome(payload) matches Ok(todo) ==> {
            &&& store.after_create(payload).find_outcome(todo.id) == Ok::<TodoView, ErrorView>(todo)
            &&& todo.labels == Seq::<LabelView>::empty()
            &&& !todo.completed
        },
{
    store.lemma_create(payload);
    if store.create_outcome(payload) is Ok {
        assert(store.create_outcome(payload)->Ok_0.labels =~= Seq::empty());
    }
}

/// A task made with labels is found right after as it was made, with one
/// label for each id of the payload, in the payload's order.
pub proof fn law_create_with_labels(store: TodoStoreView, payload: CreateView)
    requires
        store.valid(),
    ensures
        store.create_outcome(payload) matches Ok(todo) ==> {
            &&& store.after_create(payload).find_outcome(todo.id) == Ok::<TodoView, ErrorView>(todo)
            &&& todo.labels.len() == payload.labels.len()
            &&& forall|j: int|
                0 <= j < payload.labels.len() ==> (#[trigger] todo.labels[j]).id
                    == payload.labels[j]
        },
{
    store.lemma_create(payload);
    if store.create_outcome(payload) is Ok {
        let todo = store.create_outcome(payload)->Ok_0;
        assert forall|j: int| 0 <= j < payload.labels.len() implies (#[trigger] todo.labels[j]).id
            == payload.labels[j] by {
            lemma_place_of_id(store.labels, payload.labels[j]);
        }
    }
}

/// Reading does not depend on how often one reads: two answers of `find` for
/// one id on one store are the same.
pub proof fn law_find_repeats(
    store: TodoStoreView,
    id: i32,
    first: Result<TodoView, ErrorView>,
    second: Result<TodoView, ErrorView>,
)
    requires
        first == store.find_outcome(id),
        second == store.find_outcome(id),
    ensures
        first == second,
{
}

/// An update with an empty list of label ids leaves the task without labels.
pub proof fn law_update_clears_labels(store: TodoStoreView, id: i32, payload: UpdateView)
    requires
        store.valid(),
        payload.labels == Some(Seq::<i32>::empty()),
    ensures
        has_id(store.todos(), id) <==> store.update_outcome(id, payload) is Ok,
        store.update_outcome(id, payload) matches Ok(todo) ==> {
            &&& store.after_update(id, payload).find_outcome(id) == Ok::<TodoView, ErrorView>(todo)
            &&& todo.labels == Seq::<LabelView>::empty()
        },
{
    store.lemma_update(id, payload);
    if store.update_outcome(id, payload) is Ok {
        assert(store.update_outcome(id, payload)->Ok_0.labels =~= Seq::empty());
    }
}

/// An update without label ids leaves the labels of the task as they were.
pub proof fn law_update_keeps_labels(store: TodoStoreView, id: i32, payload: UpdateView)
    requires
        store.valid(),
        payload.labels is None,
    ensures
        has_id(store.todos(), id) <==> store.update_outcome(id, payload) is Ok,
        store.update_outcome(id, payload) matches Ok(todo) ==> {
            &&& store.after_update(id, payload).find_outcome(id) == Ok::<TodoView, ErrorView>(todo)
            &&& store.find_outcome(id) matches Ok(current) && todo.labels == current.labels
        },
{
    store.lemma_update(id, payload);
}

/// After `delete` of an id, `find` of that id fails with `NotFound` of it,
/// whether the delete found a task or not.
pub proof fn law_delete_then_find(store: TodoStoreView, id: i32)
    requires
        store.valid(),
    ensures
        store.after_delete(id).find_outcome(id) == Err::<TodoView, ErrorView>(
            ErrorView::NotFound(id),
        ),
{
    store.lemma_delete(id);
}

/// `delete` of an id that no task has fails with `NotFound` of it and
/// changes nothing; `delete` of an id that a task has succeeds.
pub proof fn law_delete_missing(store: TodoStoreView, id: i32)
    requires
        store.valid(),
    ensures
        !has_id(store.todos(), id) ==> store.delete_outcome(id) == Err::<(), ErrorView>(
            ErrorView::NotFound(id),
        ) && store.after_delete(id) == store,
        has_id(store.todos(), id) ==> store.delete_outcome(id) is Ok,
{
}

/// Two tasks made one after the other have different ids, whatever was
/// deleted before: the second id is above the first.
pub proof fn law_created_ids_differ(store: TodoStoreView, first: CreateView, second: CreateView)
    requires
        store.valid(),
    ensures
        store.create_outcome(first) matches Ok(one) ==> (store.after_create(
            first,
        ).create_outcome(second) matches Ok(other) ==> one.id < other.id),
{
}

/// An id that `create` gives is above the last id given, and `delete` never
/// lowers the last id given: no id is given twice in the life of a store.
pub proof fn law_ids_are_not_reused(store: TodoStoreView, payload: CreateView, id: i32)
    requires
        store.valid(),
    ensures
        store.create_outcome(payload) matches Ok(todo) ==> store.last_id < todo.id
            && store.after_create(payload).last_id == todo.id,
        store.after_delete(id).last_id == store.last_id,
        store.last_id <= store.after_create(payload).last_id,
{
}

/// In any task store that keeps what it promises, a `find` that answers
/// after a successful `create` gives the task that the create returned: open,
/// with one label for each id of the payload, and with none where the
/// payload has none.
pub proof fn law_any_store_create_then_find(
    before: Seq<TodoView>,
    catalogue: Seq<LabelView>,
    payload: CreateView,
    todo: TodoView,
    after: Seq<TodoView>,
    found: Result<TodoView, ErrorView>,
)
    requires
        create_todo_post(before, catalogue, payload, Ok(todo), after),
        find_todo_post(after, todo.id, found),
        !(found matches Err(ErrorView::Unexpected(_))),
    ensures
        found == Ok::<TodoView, ErrorView>(todo),
        !todo.completed,
        todo.labels.len() == payload.labels.len(),
        payload.labels.len() == 0 ==> todo.labels == Seq::<LabelView>::empty(),
{
    lemma_first_with_id(after, todo.id);
    assert(after[0].id == todo.id);
    if payload.labels.len() == 0 {
        assert(todo.labels =~= Seq::empty());
    }
}

/// In any task store that keeps what it promises, a `find` that answers
/// after a successful `delete` of the same id answers `NotFound` of that id.
pub proof fn law_any_store_delete_then_find(
    before: Seq<TodoView>,
    id: i32,
    after: Seq<TodoView>,
    found: Result<TodoView, ErrorView>,
)
    requires
        descending_ids(before),
        delete_todo_post(before, id, Ok(()), after),
        find_todo_post(after, id, found),
        !(found matches Err(ErrorView::Unexpected(_))),
    ensures
        found == Err::<TodoView, ErrorView>(ErrorView::NotFound(id)),
{
    let k = first_with_id(before, id);
    lemma_first_with_id(before, id);
    if has_id(after, id) {
        let w = choose|w: int| 0 <= w < after.len() && #[trigger] after[w].id == id;
        let a = if w < k { w } else { w + 1 };
        assert(after[w] == before[a]);
        assert(before[a].id == before[k].id);
    }
}

/// In any task store that keeps what it promises, a `find` that answers
/// after a successful `update` of the same id gives the task that the update
/// returned.
pub proof fn law_any_store_update_then_find(
    before: Seq<TodoView>,
    catalogue: Seq<LabelView>,
    id: i32,
    payload: UpdateView,
    todo: TodoView,
    after: Seq<TodoView>,
    found: Result<TodoView, ErrorView>,
)
    requires
        update_todo_post(before, catalogue, id, payload, Ok(todo), after),
        find_todo_post(after, id, found),
        !(found matches Err(ErrorView::Unexpected(_))),
    ensures
        found == Ok::<TodoView, ErrorView>(todo),
        payload.labels == Some(Seq::<i32>::empty()) ==> todo.labels == Seq::<LabelView>::empty(),
        payload.labels is None ==> todo.labels == before[first_with_id(before, id)].labels,
{
    let k = first_with_id(before, id);
    lemma_first_with_id(before, id);
    lemma_first_with_id(after, id);
    assert(after[k].id == id);
    let p = first_with_id(after, id);
    if p < k {
        assert(after[p] == before[p]);
    }
    if payload.labels == Some(Seq::<i32>::empty()) {
        assert(todo.labels =~= Seq::empty());
    }
}

/// The in-memory label store gives the same label, under the same id, when
/// `create` is called a second time with the same name, and the second call
/// changes nothing.
pub proof fn law_label_create_twice(store: LabelStoreView, name: Seq<char>)
    requires
        store.valid(),
    ensures
        store.create_outcome(name) matches Ok(label) ==> {
            &&& store.after_create(name).create_outcome(name) == Ok::<LabelView, ErrorView>(label)
            &&& store.after_create(name).after_create(name) == store.after_create(name)
        },
{
    lemma_place_of_name(store.labels, name);
    if store.create_outcome(name) is Ok {
        let after = store.after_create(name);
        lemma_place_of_name(after.labels, name);
        if !has_label_name(store.labels, name) {
            let n = store.labels.len() as int;
            assert(after.labels[n].name == name);
            let p = place_of_name(after.labels, name);
            if p < n {
                assert(after.labels[p] == store.labels[p]);
            }
        }
    }
}

/// In any label store that keeps what it promises, a second `create` with
/// the name of a label just made gives that label again or fails with
/// `Duplicate` of its id, unless the storage itself fails; and it changes
/// nothing. Which of the two it is depends on the kind of store.
pub proof fn law_any_store_label_create_twice(
    before: Seq<LabelView>,
    name: Seq<char>,
    label: LabelView,
    between: Seq<LabelView>,
    second: Result<LabelView, ErrorView>,
    after: Seq<LabelView>,
)
    requires
        forall|i: int, j: int| 0 <= i < j < before.len() ==> before[i].name != before[j].name,
        create_label_post(before, name, Ok(label), between),
        create_label_post(between, name, second, after),
    ensures
        after == between,
        match second {
            Ok(again) => again == label,
            Err(ErrorView::Duplicate(id)) => id == label.id,
            Err(ErrorView::Unexpected(_)) => true,
            Err(ErrorView::NotFound(_)) => false,
        },
{
    lemma_place_of_name(before, name);
    lemma_place_of_name(between, name);
    if !has_label_name(before, name) {
        let n = before.len() as int;
        assert(between[n].name == name);
        let p = place_of_name(between, name);
        if p < n {
            assert(between[p] == before[p]);
        }
    }
}

} // verus!
