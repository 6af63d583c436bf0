//! What an operation asks for besides git commands, and what it ends in.
use std::path::PathBuf;

use vstd::prelude::*;

use crate::command;
use crate::error::{GitError, GitErrorView, IoFailure, IoFailureView};
use crate::reference::Oid;

verus! {

/// The name of the file that describes a package.
pub const DESCRIPTION_FILENAME: &'static str = "DESCRIPTION";

/// The description file of a repository: `name`, in `directory` where there is one, below `root`.
#[derive(Debug, Clone, Copy, PartialEq, Eq)]
pub struct DescriptionFile<'a> {
    pub root: &'a PathBuf,
    pub directory: Option<&'a PathBuf>,
    pub name: &'static str,
}

pub struct DescriptionFileView {
    pub root: PathBuf,
    pub directory: Option<PathBuf>,
    pub name: Seq<char>,
}

impl<'a> View for DescriptionFile<'a> {
    type V = DescriptionFileView;

    open spec fn view(&self) -> DescriptionFileView {
        DescriptionFileView {
            root: *self.root,
            directory: command::place(self.directory),
            name: self.name@,
        }
    }
}

impl DescriptionFileView {
    /// The description file below `root`, in `directory` where there is one.
    pub open spec fn below(root: PathBuf, directory: Option<PathBuf>) -> DescriptionFileView {
        DescriptionFileView { root, directory, name: DESCRIPTION_FILENAME@ }
    }
}

/// A question about the world.
#[derive(Debug, Clone, Copy, PartialEq, Eq)]
pub enum Condition<'a> {
    /// Is there a directory at this path?
    IsDir(&'a PathBuf),
    /// Is there such a file?
    Exists(DescriptionFile<'a>),
    /// Has the user switched off the update of submodules, by the environment variable that is
    /// there for it?
    SubmodulesDisabled,
}

pub enum ConditionView {
    IsDir(PathBuf),
    Exists(DescriptionFileView),
    SubmodulesDisabled,
}

impl<'a> View for Condition<'a> {
    type V = ConditionView;

    open spec fn view(&self) -> ConditionView {
        match self {
            Condition::IsDir(path) => ConditionView::IsDir(**path),
            Condition::Exists(file) => ConditionView::Exists(file@),
            Condition::SubmodulesDisabled => ConditionView::SubmodulesDisabled,
        }
    }
}

/// A change to the file system.
#[derive(Debug, Clone, Copy, PartialEq, Eq)]
pub enum DirAction<'a> {
    /// Create the directory and all that is missing of its parents.
    Create(&'a PathBuf),
    /// Remove the directory with all that it holds.
    Remove(&'a PathBuf),
}

pub enum DirActionView {
    Create(PathBuf),
    Remove(PathBuf),
}

impl<'a> View for DirAction<'a> {
    type V = DirActionView;

    open spec fn view(&self) -> DirActionView {
        match self {
            DirAction::Create(path) => DirActionView::Create(**path),
            DirAction::Remove(path) => DirActionView::Remove(**path),
        }
    }
}

/// A text that outside work came back with, or its failure.
pub type Answer = Result<Seq<char>, IoFailureView>;

/// Outside work that comes back with nothing, or with its failure.
pub type Effect = Result<(), IoFailureView>;

pub open spec fn answer(reply: Result<String, IoFailure>) -> Answer {
    match reply {
        Ok(text) => Ok(text@),
        Err(failure) => Err(failure@),
    }
}

pub open spec fn effect(reply: Result<(), IoFailure>) -> Effect {
    match reply {
        Ok(_) => Ok(()),
        Err(failure) => Err(failure@),
    }
}

/// What an operation ends in.
#[derive(Debug)]
pub enum Outcome {
    /// The work is done.
    Done,
    /// The commit that was asked for.
    Oid(Oid),
    /// There is no such commit.
    Missing,
    /// The text that was asked for.
    Text(String),
    /// The operation failed.
    Failed(GitError),
}

pub enum OutcomeView {
    Done,
    Oid(Seq<char>),
    Missing,
    Text(Seq<char>),
    Failed(GitErrorView),
}

impl View for Outcome {
    type V = OutcomeView;

    open spec fn view(&self) -> OutcomeView {
        match self {
            Outcome::Done => OutcomeView::Done,
            Outcome::Oid(oid) => OutcomeView::Oid(oid@),
            Outcome::Missing => OutcomeView::Missing,
            Outcome::Text(text) => OutcomeView::Text(text@),
            Outcome::Failed(error) => OutcomeView::Failed(error@),
        }
    }
}

} // verus!
