use vstd::prelude::*;
use crate::error::{unit_outcome, ErrorView, RepositoryError};
use crate::label::{label_views, Label, LabelView};
use crate::statement::{answer_does_not_fit, Answer, AnswerView, Statement, StatementView};
use crate::todo_work::{Step, StepView};

verus! {

/// The work of making a label on a relational store: look for a label of the
/// name, and insert one only where there is none. Each value names the
/// statement that was asked last.
pub enum CreateLabelWork {
    Looking { name: String },
    Inserting,
}

/// The mathematical value of a [`CreateLabelWork`].
pub enum CreateLabelView {
    Looking { name: Seq<char> },
    Inserting,
}

impl View for CreateLabelWork {
    type V = CreateLabelView;

    open spec fn view(&self) -> CreateLabelView {
        match self {
            CreateLabelWork::Looking { name } => CreateLabelView::Looking { name: name@ },
            CreateLabelWork::Inserting => CreateLabelView::Inserting,
        }
    }
}

impl CreateLabelView {
    /// The step that follows the engine's answer to the statement asked last.
    /// A label of the name that is there already ends the work with
    /// `Duplicate` of its id, and nothing is inserted. This is where the
    /// relational store differs from the store in memory, which hands that
    /// label back.
    pub open spec fn next(self, answer: AnswerView) -> StepView<CreateLabelView, LabelView> {
        match self {
            CreateLabelView::Looking { name } => match answer {
                AnswerView::Labels { labels } => if labels.len() > 0 {
                    StepView::Finish(Err(ErrorView::Duplicate(labels[0].id)))
                } else {
                    StepView::Ask(CreateLabelView::Inserting, StatementView::InsertLabel { name })
                },
                other => StepView::Finish(Err(other.plain_error())),
            },
            CreateLabelView::Inserting => match answer {
                AnswerView::Labels { labels } => if labels.len() > 0 {
                    StepView::Finish(Ok(labels[0]))
                } else {
                    StepView::Finish(Err(ErrorView::Unexpected(answer_does_not_fit())))
                },
                other => StepView::Finish(Err(other.plain_error())),
            },
        }
    }
}

impl CreateLabelWork {
    /// The work for this name, and its first statement: the search for a
    /// label of the name.
    pub fn start(name: String) -> (first: (CreateLabelWork, Statement))
        ensures
            first.0@ == (CreateLabelView::Looking { name: name@ }),
            first.1@ == (StatementView::SelectLabelByName { name: name@ }),
    {
        let wanted = name.clone();
        (CreateLabelWork::Looking { name }, Statement::SelectLabelByName { name: wanted })
    }

    /// Takes the engine's answer to the statement asked last and says what
    /// comes next.
    pub fn step(self, answer: Answer) -> (step: Step<CreateLabelWork, Label>)
        ensures
            step@ == self@.next(answer@),
    {
        match self {
            CreateLabelWork::Looking { name } => match answer {
                Answer::Labels { labels } => {
                    if labels.len() > 0 {
                        Step::Finish(Err(RepositoryError::Duplicate(labels[0].id)))
                    } else {
                        Step::Ask(CreateLabelWork::Inserting, Statement::InsertLabel { name })
                    }
                },
                other => Step::Finish(Err(other.into_plain_error())),
            },
            CreateLabelWork::Inserting => match answer {
                Answer::Labels { labels } => {
                    let mut labels = labels;
                    if labels.len() > 0 {
                        let label = labels.remove(0);
                        Step::Finish(Ok(label))
                    } else {
                        Step::Finish(
                            Err(
                                RepositoryError::Unexpected(
                                    "the answer does not fit the statement".to_owned(),
                                ),
                            ),
                        )
                    }
                },
                other => Step::Finish(Err(other.into_plain_error())),
            },
        }
    }
}

/// What `delete` of the label `id` makes of the engine's answer to
/// `DeleteLabel`: a removal that touched no row is `NotFound(id)`.
pub open spec fn delete_label_outcome(id: i32, answer: AnswerView) -> Result<(), ErrorView> {
    match answer {
        AnswerView::Done { affected } => if affected == 0 {
            Err(ErrorView::NotFound(id))
        } else {
            Ok(())
        },
        other => Err(other.error(id)),
    }
}

/// The outcome of `delete` on a relational label store, from the engine's
/// answer to `DeleteLabel` of that id.
pub fn label_deleted(id: i32, answer: Answer) -> (outcome: Result<(), RepositoryError>)
    ensures
        unit_outcome(outcome) == delete_label_outcome(id, answer@),
{
    match answer {
        Answer::Done { affected } => {
            if affected == 0 {
                Err(RepositoryError::NotFound(id))
            } else {
                Ok(())
            }
        },
        other => Err(other.into_error(id)),
    }
}

/// What `all` makes of the engine's answer to `SelectLabels`: the labels as
/// they came.
pub open spec fn list_labels_outcome(answer: AnswerView) -> Result<Seq<LabelView>, ErrorView> {
    match answer {
        AnswerView::Labels { labels } => Ok(labels),
        other => Err(other.plain_error()),
    }
}

/// The outcome of `all` on a relational label store, from the engine's
/// answer to `SelectLabels`.
pub fn labels_listed(answer: Answer) -> (outcome: Result<Vec<Label>, RepositoryError>)
    ensures
        match outcome {
            Ok(labels) => Ok::<Seq<LabelView>, ErrorView>(label_views(labels@)),
            Err(error) => Err(error@),
        } == list_labels_outcome(answer@),
{
    match answer {
        Answer::Labels { labels } => Ok(labels),
        other => Err(other.into_plain_error()),
    }
}

} // verus!
