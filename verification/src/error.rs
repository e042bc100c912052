//! Error taxonomy: an invalid struct name rejected before inference starts,
//! and a type conflict between two occurrences of one slot, which aborts the
//! whole generation (no partial output is ever produced).

use vstd::prelude::*;

verus! {

/// The coarse classification of an inferred shape, used to report conflicts.
#[derive(Clone, Copy, Debug, PartialEq, Eq, Structural)]
pub enum Kind {
    Unknown,
    Unit,
    Bool,
    Char,
    Text,
    Float,
    Integer,
    Optional,
    Sequence,
    Record,
}

/// Mathematical form of a type conflict: the slot's field path (sequence
/// elements are marked `[]`) and the two irreconcilable kinds.
pub struct ConflictModel {
    pub path: Seq<Seq<char>>,
    pub left: Kind,
    pub right: Kind,
}

/// Two occurrences of the same slot produced incompatible, non-widenable
/// shapes; fatal for the whole run.
#[derive(Debug)]
pub struct Conflict {
    pub path: Vec<String>,
    pub left: Kind,
    pub right: Kind,
}

impl Conflict {
    pub open spec fn model(self) -> ConflictModel {
        ConflictModel {
            path: Seq::new(self.path@.len(), |i: int| self.path@[i]@),
            left: self.left,
            right: self.right,
        }
    }
}

/// Failure of option validation: the struct name is not a legal identifier.
#[derive(Debug)]
pub enum OptionsError {
    InvalidStructName(String),
}

pub enum GenErrorModel {
    InvalidStructName(Seq<char>),
    TypeConflict(ConflictModel),
}

/// A failed generation request: either the options were rejected up front,
/// or inference found a type conflict. Nothing was emitted.
#[derive(Debug)]
pub enum GenError {
    InvalidStructName(String),
    TypeConflict(Conflict),
}

impl GenError {
    pub open spec fn model(self) -> GenErrorModel {
        match self {
            GenError::InvalidStructName(s) => GenErrorModel::InvalidStructName(s@),
            GenError::TypeConflict(c) => GenErrorModel::TypeConflict(c.model()),
        }
    }
}

} // verus!
