use vstd::prelude::*;
use vstd::view::View as _;

verus! {

/// A workspace slot inside a project; `position` orders the views of one project.
#[derive(Debug, Clone)]
pub struct View {
    pub id: i64,
    pub name: String,
    pub project_id: i64,
    pub position: i64,
}

impl PartialEq for View {
    fn eq(&self, o: &View) -> (r: bool) {
        self.id == o.id && self.project_id == o.project_id && self.position == o.position
            && self.name == o.name
    }
}

impl vstd::std_specs::cmp::PartialEqSpecImpl for View {
    open spec fn obeys_eq_spec() -> bool {
        true
    }

    open spec fn eq_spec(&self, o: &View) -> bool {
        same_view(*self, *o)
    }
}

/// The two values hold the same view.
pub open spec fn same_view(a: View, b: View) -> bool {
    &&& a.id == b.id
    &&& a.name@ == b.name@
    &&& a.project_id == b.project_id
    &&& a.position == b.position
}

/// A named group of views with one of them marked active.
#[derive(Debug, Clone)]
pub struct Project {
    pub active_view_id: i64,
    pub id: i64,
    pub name: String,
}

impl Project {
    /// The project's name.
    pub fn name(&self) -> (r: &str)
        ensures
            r@ == self.name@,
    {
        self.name.as_str()
    }
}

/// A single key bound to one view for quick recall.
#[derive(Debug, Clone)]
pub struct Pin {
    pub id: i64,
    pub key: String,
    pub view_id: i64,
}

/// Why an operation of the repository failed.
#[derive(Debug, Clone, Copy, PartialEq, Eq, Structural)]
pub enum RepoError {
    /// The project no longer exists.
    ProjectNotFound,
    /// The project's active view cannot be resolved.
    NoActiveView,
    /// The view belongs to another project.
    ViewNotInProject,
    /// A project of that name already exists.
    DuplicateName,
    /// The store refused a write that would break one of its constraints, or
    /// held a row of the wrong shape.
    ConstraintViolation,
    /// A project or view name that holds the separator.
    ReservedCharacter,
    /// The store could not be reached, or stayed locked past the wait.
    StoreUnavailable,
}

/// SQLite's extended result code for a violated `UNIQUE` constraint.
pub const SQLITE_CONSTRAINT_UNIQUE: i32 = 2067;

/// SQLite's primary result code for a violated constraint.
pub const SQLITE_CONSTRAINT: i32 = 19;

/// The error that a store failure with SQLite extended result code `code`
/// stands for; `None` is a failure that did not come from SQLite itself.
pub open spec fn error_for_code(code: Option<i32>) -> RepoError {
    match code {
        Some(c) => if c == SQLITE_CONSTRAINT_UNIQUE {
            RepoError::DuplicateName
        } else if c & 0xff == SQLITE_CONSTRAINT {
            RepoError::ConstraintViolation
        } else {
            RepoError::StoreUnavailable
        },
        None => RepoError::ConstraintViolation,
    }
}

/// Classifies a store failure by its SQLite extended result code.
pub fn classify_store_error(code: Option<i32>) -> (r: RepoError)
    ensures
        r == error_for_code(code),
{
    match code {
        Some(c) => if c == SQLITE_CONSTRAINT_UNIQUE {
            RepoError::DuplicateName
        } else if c & 0xff == SQLITE_CONSTRAINT {
            RepoError::ConstraintViolation
        } else {
            RepoError::StoreUnavailable
        },
        None => RepoError::ConstraintViolation,
    }
}

} // verus!
