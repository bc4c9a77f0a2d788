use vstd::prelude::*;

verus! {

/// What a store operation can fail with.
#[derive(Debug, PartialEq, Eq)]
pub enum RepositoryError {
    /// No task or label has this id.
    NotFound(i32),
    /// A label of the same name exists already, under this id.
    Duplicate(i32),
    /// The storage failed in a way that the layer does not classify.
    Unexpected(String),
}

/// The mathematical value of a [`RepositoryError`].
pub enum ErrorView {
    NotFound(i32),
    Duplicate(i32),
    Unexpected(Seq<char>),
}

impl View for RepositoryError {
    type V = ErrorView;

    open spec fn view(&self) -> ErrorView {
        match self {
            RepositoryError::NotFound(id) => ErrorView::NotFound(*id),
            RepositoryError::Duplicate(id) => ErrorView::Duplicate(*id),
            RepositoryError::Unexpected(message) => ErrorView::Unexpected(message@),
        }
    }
}

impl Clone for RepositoryError {
    fn clone(&self) -> (copy: Self)
        ensures
            copy@ == self@,
    {
        match self {
            RepositoryError::NotFound(id) => RepositoryError::NotFound(*id),
            RepositoryError::Duplicate(id) => RepositoryError::Duplicate(*id),
            RepositoryError::Unexpected(message) => RepositoryError::Unexpected(message.clone()),
        }
    }
}

impl RepositoryError {
    /// Classifies a failure of the storage engine met while working on `id`:
    /// a statement that found no row is `NotFound(id)`, anything else is
    /// `Unexpected` with the engine's message.
    pub fn from_storage(id: i32, row_not_found: bool, message: String) -> (error: RepositoryError)
        ensures
            row_not_found ==> error@ == ErrorView::NotFound(id),
            !row_not_found ==> error@ == ErrorView::Unexpected(message@),
    {
        if row_not_found {
            RepositoryError::NotFound(id)
        } else {
            RepositoryError::Unexpected(message)
        }
    }
}

/// The value of the outcome of an operation that gives nothing.
pub open spec fn unit_outcome(outcome: Result<(), RepositoryError>) -> Result<(), ErrorView> {
    match outcome {
        Ok(_) => Ok(()),
        Err(error) => Err(error@),
    }
}

} // verus!
