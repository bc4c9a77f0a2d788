use vstd::prelude::*;
use crate::error::{unit_outcome, ErrorView, RepositoryError};

verus! {

/// A label: a name under an id.
#[derive(Debug, PartialEq, Eq)]
pub struct Label {
    pub id: i32,
    pub name: String,
}

/// The mathematical value of a [`Label`].
pub struct LabelView {
    pub id: i32,
    pub name: Seq<char>,
}

impl View for Label {
    type V = LabelView;

    open spec fn view(&self) -> LabelView {
        LabelView { id: self.id, name: self.name@ }
    }
}

impl Clone for Label {
    fn clone(&self) -> (copy: Self)
        ensures
            copy@ == self@,
    {
        Label { id: self.id, name: self.name.clone() }
    }
}

impl Label {
    /// The label of this name under this id.
    pub fn new(id: i32, name: String) -> (label: Label)
        ensures
            label@ == (LabelView { id, name: name@ }),
    {
        Label { id, name }
    }
}

/// A new name for the label of an id.
#[derive(Debug, PartialEq, Eq)]
pub struct UpdateLabel {
    pub id: i32,
    pub name: String,
}

impl View for UpdateLabel {
    type V = LabelView;

    open spec fn view(&self) -> LabelView {
        LabelView { id: self.id, name: self.name@ }
    }
}

impl Clone for UpdateLabel {
    fn clone(&self) -> (copy: Self)
        ensures
            copy@ == self@,
    {
        UpdateLabel { id: self.id, name: self.name.clone() }
    }
}

/// The values of a sequence of labels, in order.
pub open spec fn label_views(labels: Seq<Label>) -> Seq<LabelView> {
    labels.map_values(|label: Label| label@)
}

/// A copy of `labels`, label by label.
pub fn clone_labels(labels: &Vec<Label>) -> (copy: Vec<Label>)
    ensures
        label_views(copy@) == label_views(labels@),
{
    let mut copy: Vec<Label> = Vec::new();
    let mut i: usize = 0;
    while i < labels.len()
        invariant
            i <= labels.len(),
            label_views(copy@) == label_views(labels@.take(i as int)),
        decreases labels.len() - i,
    {
        let ghost before = copy@;
        let label = labels[i].clone();
        copy.push(label);
        proof {
            assert(labels@.take(i + 1) =~= labels@.take(i as int).push(labels@[i as int]));
            assert(label_views(before.push(label)) =~= label_views(before).push(label@));
            assert(label_views(labels@.take(i + 1)) =~= label_views(labels@.take(i as int)).push(
                labels@[i as int]@,
            ));
        }
        i += 1;
    }
    proof {
        assert(labels@.take(i as int) =~= labels@);
    }
    copy
}

/// Whether the ids of `labels` grow strictly from each label to the next.
pub open spec fn ascending_ids(labels: Seq<LabelView>) -> bool {
    forall|i: int, j: int| 0 <= i < j < labels.len() ==> labels[i].id < labels[j].id
}

/// The place of the first label of this id in `labels`, or the length of
/// `labels` if there is none.
pub open spec fn place_of_id(labels: Seq<LabelView>, id: i32) -> int
    decreases labels.len(),
{
    if labels.len() == 0 {
        0
    } else if labels[0].id == id {
        0
    } else {
        1 + place_of_id(labels.drop_first(), id)
    }
}

/// The place of the first label of this name in `labels`, or the length of
/// `labels` if there is none.
pub open spec fn place_of_name(labels: Seq<LabelView>, name: Seq<char>) -> int
    decreases labels.len(),
{
    if labels.len() == 0 {
        0
    } else if labels[0].name == name {
        0
    } else {
        1 + place_of_name(labels.drop_first(), name)
    }
}

/// Whether a label of this id stands in `labels`.
pub open spec fn has_label_id(labels: Seq<LabelView>, id: i32) -> bool {
    place_of_id(labels, id) < labels.len()
}

/// Whether a label of this name stands in `labels`.
pub open spec fn has_label_name(labels: Seq<LabelView>, name: Seq<char>) -> bool {
    place_of_name(labels, name) < labels.len()
}

/// The place of an id is within `labels` exactly when some label has the id;
/// the label at that place has it, and none before it has.
pub proof fn lemma_place_of_id(labels: Seq<LabelView>, id: i32)
    ensures
        0 <= place_of_id(labels, id) <= labels.len(),
        has_label_id(labels, id) <==> exists|k: int|
            0 <= k < labels.len() && #[trigger] labels[k].id == id,
        has_label_id(labels, id) ==> labels[place_of_id(labels, id)].id == id,
        forall|k: int| 0 <= k < place_of_id(labels, id) ==> (#[trigger] labels[k]).id != id,
    decreases labels.len(),
{
    if labels.len() == 0 {
    } else if labels[0].id == id {
    } else {
        let rest = labels.drop_first();
        lemma_place_of_id(rest, id);
        let k = place_of_id(rest, id);
        if exists|w: int| 0 <= w < labels.len() && #[trigger] labels[w].id == id {
            let w = choose|w: int| 0 <= w < labels.len() && #[trigger] labels[w].id == id;
            assert(rest[w - 1].id == id);
        }
        if k < rest.len() {
            assert(labels[k + 1].id == id);
        }
        assert forall|j: int| 0 <= j < 1 + k implies (#[trigger] labels[j]).id != id by {
            if j > 0 {
                assert(rest[j - 1].id != id);
            }
        }
    }
}

/// The place of a name is within `labels` exactly when some label has the
/// name; the label at that place has it, and none before it has.
pub proof fn lemma_place_of_name(labels: Seq<LabelView>, name: Seq<char>)
    ensures
        0 <= place_of_name(labels, name) <= labels.len(),
        has_label_name(labels, name) <==> exists|k: int|
            0 <= k < labels.len() && #[trigger] labels[k].name == name,
        has_label_name(labels, name) ==> labels[place_of_name(labels, name)].name == name,
        forall|k: int| 0 <= k < place_of_name(labels, name) ==> (#[trigger] labels[k]).name != name,
    decreases labels.len(),
{
    if labels.len() == 0 {
    } else if labels[0].name == name {
    } else {
        let rest = labels.drop_first();
        lemma_place_of_name(rest, name);
        let k = place_of_name(rest, name);
        if exists|w: int| 0 <= w < labels.len() && #[trigger] labels[w].name == name {
            let w = choose|w: int| 0 <= w < labels.len() && #[trigger] labels[w].name == name;
            assert(rest[w - 1].name == name);
        }
        if k < rest.len() {
            assert(labels[k + 1].name == name);
        }
        assert forall|j: int| 0 <= j < 1 + k implies (#[trigger] labels[j]).name != name by {
            if j > 0 {
                assert(rest[j - 1].name != name);
            }
        }
    }
}

/// The place of the first label of this id in `labels`, or the length of
/// `labels` if there is none.
pub fn find_label_id(labels: &Vec<Label>, id: i32) -> (place: usize)
    ensures
        place == place_of_id(label_views(labels@), id),
        place <= labels.len(),
{
    let ghost views = label_views(labels@);
    let mut k: usize = 0;
    while k < labels.len()
        invariant
            k <= labels.len(),
            views == label_views(labels@),
            forall|j: int| 0 <= j < k ==> (#[trigger] views[j]).id != id,
        decreases labels.len() - k,
    {
        if labels[k].id == id {
            proof {
                lemma_place_of_id(views, id);
                assert(views[k as int].id == id);
            }
            return k;
        }
        k += 1;
    }
    proof {
        lemma_place_of_id(views, id);
    }
    k
}

/// The place of the first label of this name in `labels`, or the length of
/// `labels` if there is none.
pub fn find_label_name(labels: &Vec<Label>, name: &String) -> (place: usize)
    ensures
        place == place_of_name(label_views(labels@), name@),
        place <= labels.len(),
{
    let ghost views = label_views(labels@);
    let mut k: usize = 0;
    while k < labels.len()
        invariant
            k <= labels.len(),
            views == label_views(labels@),
            forall|j: int| 0 <= j < k ==> (#[trigger] views[j]).name != name@,
        decreases labels.len() - k,
    {
        if labels[k].name == *name {
            proof {
                lemma_place_of_name(views, name@);
                assert(views[k as int].name == name@);
            }
            return k;
        }
        k += 1;
    }
    proof {
        lemma_place_of_name(views, name@);
    }
    k
}

/// What every label store promises of `create`, whichever variant it is.
///
/// The variants differ on a name that is taken. One kind of store hands the
/// label of that name back as a success; the other fails with `Duplicate` and
/// the id of that label. A caller that must work with both cannot rely on
/// either. In both, the store holds one label of that name afterwards, and a
/// failure changes nothing.
pub open spec fn create_label_post(
    before: Seq<LabelView>,
    name: Seq<char>,
    outcome: Result<LabelView, ErrorView>,
    after: Seq<LabelView>,
) -> bool {
    match outcome {
        Ok(label) => {
            &&& label.name == name
            &&& if has_label_name(before, name) {
                label == before[place_of_name(before, name)] && after == before
            } else {
                !has_label_id(before, label.id) && after == before.push(label)
            }
        },
        Err(ErrorView::Duplicate(id)) => {
            &&& has_label_name(before, name)
            &&& id == before[place_of_name(before, name)].id
            &&& after == before
        },
        Err(ErrorView::Unexpected(_)) => after == before,
        Err(ErrorView::NotFound(_)) => false,
    }
}

/// What every label store promises of `delete`: the label of that id leaves
/// and the others stay in their order; where no label has the id, the failure
/// is `NotFound` of that id; any failure changes nothing.
pub open spec fn delete_label_post(
    before: Seq<LabelView>,
    id: i32,
    outcome: Result<(), ErrorView>,
    after: Seq<LabelView>,
) -> bool {
    match outcome {
        Ok(_) => has_label_id(before, id) && after == before.remove(place_of_id(before, id)),
        Err(ErrorView::NotFound(missing)) => {
            missing == id && !has_label_id(before, id) && after == before
        },
        Err(ErrorView::Unexpected(_)) => after == before,
        Err(ErrorView::Duplicate(_)) => false,
    }
}

/// The value of the outcome of an operation that gives a label.
pub open spec fn label_outcome(outcome: Result<Label, RepositoryError>) -> Result<
    LabelView,
    ErrorView,
> {
    match outcome {
        Ok(label) => Ok(label@),
        Err(error) => Err(error@),
    }
}

/// A store of labels. Labels are made and removed, never changed.
pub trait LabelRepository: Sized {
    /// The labels in the store, by ascending id.
    spec fn labels(&self) -> Seq<LabelView>;

    /// What the store keeps true of itself between operations.
    spec fn valid(&self) -> bool;

    /// In a valid store the ids ascend, so no two labels share one.
    proof fn lemma_ids_ascend(&self)
        requires
            self.valid(),
        ensures
            ascending_ids(self.labels()),
    ;

    /// Makes a label of this name, under an id that no label of the store
    /// has. On a name that is taken see [`create_label_post`].
    fn create(&mut self, name: String) -> (outcome: Result<Label, RepositoryError>)
        requires
            old(self).valid(),
        ensures
            final(self).valid(),
            create_label_post(
                old(self).labels(),
                name@,
                label_outcome(outcome),
                final(self).labels(),
            ),
    ;

    /// Every label, by ascending id.
    fn all(&self) -> (outcome: Result<Vec<Label>, RepositoryError>)
        requires
            self.valid(),
        ensures
            match outcome {
                Ok(labels) => label_views(labels@) == self.labels(),
                Err(error) => error@ is Unexpected,
            },
    ;

    /// Removes the label of this id. Tasks that carry the label are not
    /// touched.
    fn delete(&mut self, id: i32) -> (outcome: Result<(), RepositoryError>)
        requires
            old(self).valid(),
        ensures
            final(self).valid(),
            delete_label_post(old(self).labels(), id, unit_outcome(outcome), final(self).labels()),
    ;
}

} // verus!
