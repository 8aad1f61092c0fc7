//! The failures that resolution and link planning can report.

use vstd::prelude::*;

verus! {

/// What kind of entry stands in the way at a target path.
#[derive(Debug, Clone, PartialEq, Eq)]
pub enum EntryKind {
    Directory,
    RegularFile,
    /// Neither a directory, a regular file nor a symbolic link; the text
    /// names what it is instead.
    Other(String),
}

/// What an entry kind stands for.
pub enum EntryKindModel {
    Directory,
    RegularFile,
    Other(Seq<char>),
}

impl View for EntryKind {
    type V = EntryKindModel;

    open spec fn view(&self) -> EntryKindModel {
        match self {
            EntryKind::Directory => EntryKindModel::Directory,
            EntryKind::RegularFile => EntryKindModel::RegularFile,
            EntryKind::Other(k) => EntryKindModel::Other(k@),
        }
    }
}

/// Why resolution or a decision about a link was given up.
#[derive(Debug, Clone, PartialEq, Eq)]
pub enum StowError {
    /// A node of the configuration tree has the wrong shape; the text is the
    /// source path accumulated down to that node.
    Malformed(String),
    /// A variable declaration without `=`; the text is the declaration.
    InvalidVariableSyntax(String),
    /// A `${NAME}` whose name has no binding.
    UndefinedVariable(String),
    /// A `${NAME}` met deeper than any chain of distinct variables can reach.
    CyclicVariable(String),
    /// A filter pattern that is no regular expression.
    InvalidPattern(String),
    /// The source of a link does not exist.
    SourceMissing(String),
    /// The target has no parent directory in which a link could be made.
    NoParentDirectory(String),
    /// A path that had to be compared could not be resolved.
    Unresolvable(String),
    /// The target exists and is no symbolic link.
    ExistingDifferentType(EntryKind),
    /// The target is a symbolic link to something other than the source.
    ExistingSymlinkMismatch { expected: String, actual: String },
    /// The target does not correspond to the source, so it is not removed.
    TargetMismatch,
    /// There is nothing at the target to remove.
    NotLinked,
    /// More than one of stowing, unstowing and restowing was asked for.
    ConflictingActions,
}

/// What a failure stands for: the same cases, with every text as a
/// sequence of characters.
pub enum Fault {
    Malformed(Seq<char>),
    InvalidVariableSyntax(Seq<char>),
    UndefinedVariable(Seq<char>),
    CyclicVariable(Seq<char>),
    InvalidPattern(Seq<char>),
    SourceMissing(Seq<char>),
    NoParentDirectory(Seq<char>),
    Unresolvable(Seq<char>),
    ExistingDifferentType(EntryKindModel),
    ExistingSymlinkMismatch { expected: Seq<char>, actual: Seq<char> },
    TargetMismatch,
    NotLinked,
    ConflictingActions,
}

impl View for StowError {
    type V = Fault;

    open spec fn view(&self) -> Fault {
        match self {
            StowError::Malformed(s) => Fault::Malformed(s@),
            StowError::InvalidVariableSyntax(s) => Fault::InvalidVariableSyntax(s@),
            StowError::UndefinedVariable(s) => Fault::UndefinedVariable(s@),
            StowError::CyclicVariable(s) => Fault::CyclicVariable(s@),
            StowError::InvalidPattern(s) => Fault::InvalidPattern(s@),
            StowError::SourceMissing(s) => Fault::SourceMissing(s@),
            StowError::NoParentDirectory(s) => Fault::NoParentDirectory(s@),
            StowError::Unresolvable(s) => Fault::Unresolvable(s@),
            StowError::ExistingDifferentType(k) => Fault::ExistingDifferentType(k@),
            StowError::ExistingSymlinkMismatch { expected, actual } => Fault::ExistingSymlinkMismatch {
                expected: expected@,
                actual: actual@,
            },
            StowError::TargetMismatch => Fault::TargetMismatch,
            StowError::NotLinked => Fault::NotLinked,
            StowError::ConflictingActions => Fault::ConflictingActions,
        }
    }
}

} // verus!
