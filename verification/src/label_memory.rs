use vstd::prelude::*;
use crate::error::{unit_outcome, ErrorView, RepositoryError};
use crate::label::{
    ascending_ids, clone_labels, find_label_id, find_label_name, has_label_id, has_label_name,
    label_outcome, label_views, lemma_place_of_id, lemma_place_of_name, place_of_id,
    place_of_name, Label, LabelRepository, LabelView,
};

verus! {

/// The label store that lives in memory: its labels by ascending id, and the
/// highest id that it has given out so far.
pub struct LabelRepositoryForMemory {
    labels: Vec<Label>,
    last_id: i32,
}

/// The mathematical value of a [`LabelRepositoryForMemory`].
pub struct LabelStoreView {
    pub labels: Seq<LabelView>,
    pub last_id: i32,
}

/// The message of the failure to make a label when every id has been given.
pub open spec fn no_label_id_left() -> Seq<char> {
    "no label id is left"@
}

impl LabelStoreView {
    /// The ids ascend, each lies between one and the last id given, and no two
    /// labels share a name.
    pub open spec fn valid(self) -> bool {
        &&& ascending_ids(self.labels)
        &&& forall|k: int|
            0 <= k < self.labels.len() ==> 1 <= (#[trigger] self.labels[k]).id <= self.last_id
        &&& forall|i: int, j: int|
            0 <= i < j < self.labels.len() ==> self.labels[i].name != self.labels[j].name
        &&& 0 <= self.last_id
    }

    /// What `create` gives on this store: the label of that name if there is
    /// one, else a failure if no id is left, else a new label under the id
    /// after the last one given.
    pub open spec fn create_outcome(self, name: Seq<char>) -> Result<LabelView, ErrorView> {
        if has_label_name(self.labels, name) {
            Ok(self.labels[place_of_name(self.labels, name)])
        } else if self.last_id == i32::MAX {
            Err(ErrorView::Unexpected(no_label_id_left()))
        } else {
            Ok(LabelView { id: (self.last_id + 1) as i32, name })
        }
    }

    /// The store after `create`: one label more where a new one was made,
    /// unchanged otherwise.
    pub open spec fn after_create(self, name: Seq<char>) -> LabelStoreView {
        if has_label_name(self.labels, name) || self.last_id == i32::MAX {
            self
        } else {
            let id = (self.last_id + 1) as i32;
            LabelStoreView { labels: self.labels.push(LabelView { id, name }), last_id: id }
        }
    }

    /// What `delete` gives on this store.
    pub open spec fn delete_outcome(self, id: i32) -> Result<(), ErrorView> {
        if has_label_id(self.labels, id) {
            Ok(())
        } else {
            Err(ErrorView::NotFound(id))
        }
    }

    /// The store after `delete`: without the label of that id, if it had one.
    pub open spec fn after_delete(self, id: i32) -> LabelStoreView {
        if has_label_id(self.labels, id) {
            LabelStoreView { labels: self.labels.remove(place_of_id(self.labels, id)), ..self }
        } else {
            self
        }
    }
}

impl View for LabelRepositoryForMemory {
    type V = LabelStoreView;

    closed spec fn view(&self) -> LabelStoreView {
        LabelStoreView { labels: label_views(self.labels@), last_id: self.last_id }
    }
}

impl LabelRepositoryForMemory {
    /// A store without labels, which has given out no id.
    pub fn new() -> (store: Self)
        ensures
            store@.valid(),
            store@ == (LabelStoreView { labels: Seq::empty(), last_id: 0 }),
    {
        let store = LabelRepositoryForMemory { labels: Vec::new(), last_id: 0 };
        proof {
            assert(label_views(store.labels@) =~= Seq::empty());
        }
        store
    }
}

impl LabelRepository for LabelRepositoryForMemory {
    open spec fn labels(&self) -> Seq<LabelView> {
        self@.labels
    }

    open spec fn valid(&self) -> bool {
        self@.valid()
    }

    proof fn lemma_ids_ascend(&self) {
    }

    /// Never fails on a name that is taken: it hands back the label of that
    /// name. It fails only when every id has been given.
    fn create(&mut self, name: String) -> (outcome: Result<Label, RepositoryError>)
        ensures
            label_outcome(outcome) == old(self)@.create_outcome(name@),
            final(self)@ == old(self)@.after_create(name@),
    {
        let ghost before = self@;
        proof {
            lemma_place_of_name(before.labels, name@);
        }
        let k = find_label_name(&self.labels, &name);
        if k < self.labels.len() {
            return Ok(self.labels[k].clone());
        }
        if self.last_id == i32::MAX {
            return Err(RepositoryError::Unexpected("no label id is left".to_owned()));
        }
        let id: i32 = self.last_id + 1;
        let label = Label { id, name };
        let copy = label.clone();
        self.labels.push(label);
        self.last_id = id;
        proof {
            let added = LabelView { id, name: name@ };
            assert(self@.labels =~= before.labels.push(added));
            lemma_place_of_id(before.labels, id);
            assert forall|i: int, j: int| 0 <= i < j < self@.labels.len() implies self@.labels[i].id
                < self@.labels[j].id by {
                if j == before.labels.len() {
                    assert(before.labels[i].id <= before.last_id);
                }
            }
            assert forall|i: int, j: int| 0 <= i < j < self@.labels.len() implies self@.labels[i].name
                != self@.labels[j].name by {
                if j == before.labels.len() {
                    assert(before.labels[i].name != name@);
                }
            }
        }
        Ok(copy)
    }

    /// Never fails.
    fn all(&self) -> (outcome: Result<Vec<Label>, RepositoryError>)
        ensures
            outcome is Ok,
    {
        Ok(clone_labels(&self.labels))
    }

    /// Fails exactly when no label has the id.
    fn delete(&mut self, id: i32) -> (outcome: Result<(), RepositoryError>)
        ensures
            unit_outcome(outcome) == old(self)@.delete_outcome(id),
            final(self)@ == old(self)@.after_delete(id),
    {
        let ghost before = self@;
        proof {
            lemma_place_of_id(before.labels, id);
        }
        let k = find_label_id(&self.labels, id);
        if k == self.labels.len() {
            return Err(RepositoryError::NotFound(id));
        }
        let ghost stored = self.labels@;
        self.labels.remove(k);
        proof {
            assert(label_views(stored.remove(k as int)) =~= label_views(stored).remove(k as int));
            let after = self@.labels;
            assert forall|i: int| 0 <= i < after.len() implies 1 <= (#[trigger] after[i]).id
                <= self@.last_id by {
                if i < k {
                    assert(after[i] == before.labels[i]);
                } else {
                    assert(after[i] == before.labels[i + 1]);
                }
            }
            assert forall|i: int, j: int| 0 <= i < j < after.len() implies after[i].id
                < after[j].id && after[i].name != after[j].name by {
                let a = if i < k { i } else { i + 1 };
                let b = if j < k { j } else { j + 1 };
                assert(after[i] == before.labels[a]);
                assert(after[j] == before.labels[b]);
            }
        }
        Ok(())
    }
}

} // verus!
