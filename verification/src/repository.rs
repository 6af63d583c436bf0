//! A git repository on disk, and what can be asked of it.
use std::path::PathBuf;

use vstd::prelude::*;

use crate::operation::{self, Operation};
use crate::reference::{GitReference, Oid};
use crate::script;

verus! {

/// The default branch of the repository at `url`.
pub fn resolve_default_branch_for_url<'a>(url: &'a str) -> (op: Operation<'a>)
    ensures
        op@ == script::resolve_default_branch(None, url@),
{
    Operation::resolve_default_branch(None, url)
}

/// The default branch of the remote `origin` of the repository in `repo_path`.
pub fn resolve_default_branch_in_repo<'a>(repo_path: &'a PathBuf) -> (op: Operation<'a>)
    ensures
        op@ == script::resolve_default_branch(Some(*repo_path), "origin"@),
{
    Operation::resolve_default_branch(Some(repo_path), "origin")
}

/// The repository in the directory `path`.
#[derive(Debug)]
pub struct GitRepository {
    pub path: PathBuf,
}

impl GitRepository {
    /// Opens the repository in the directory `path`. Where there is none, the directory is removed,
    /// and made anew as by [`GitRepository::init`].
    pub fn open<'a>(path: &'a PathBuf, url: &'a str) -> (op: Operation<'a>)
        ensures
            op@ == script::open(*path, url@),
    {
        Operation::open(path, url)
    }

    /// Initializes a repository in the directory `path`, with `url` as its remote `origin`. It is
    /// not cloned, so that exactly what is needed can be fetched.
    pub fn init<'a>(path: &'a PathBuf, url: &'a str) -> (op: Operation<'a>)
        ensures
            op@ == script::init(*path, url@),
    {
        Operation::init(path, url)
    }

    /// The repository in the directory `path`, once it is open or initialized.
    pub fn new(path: PathBuf) -> (repo: GitRepository)
        ensures
            repo.path == path,
    {
        GitRepository { path }
    }

    /// Removes the repository's directory, where it is there.
    pub fn rm_folder<'a>(&'a self) -> (op: Operation<'a>)
        ensures
            op@ == script::rm_folder(self.path),
    {
        Operation::rm_folder(&self.path)
    }

    /// Fetches `reference` from the remote at `url`. The refspecs that may select it there are tried
    /// in order.
    pub fn fetch<'a>(
        &'a self,
        url: &'a str,
        reference: &GitReference<'a>,
        refspecs: Vec<String>,
    ) -> (op: Operation<'a>)
        requires
            refspecs@.len() > 0,
        ensures
            op@ == script::fetch(Some(self.path), url@, reference@, operation::texts(refspecs@)),
    {
        Operation::fetch(Some(&self.path), url, *reference, refspecs)
    }

    /// Checks out the commit `oid`, unless `HEAD` is there already.
    pub fn checkout<'a>(&'a self, oid: &Oid) -> (op: Operation<'a>)
        ensures
            op@ == script::checkout(Some(self.path), oid@, script::done()),
    {
        Operation::checkout(Some(&self.path), oid.as_str())
    }

    /// Checks out the remote's branch of that name.
    pub fn checkout_branch<'a>(&'a self, branch_name: &str) -> (op: Operation<'a>)
        ensures
            op@ == script::checkout_branch(Some(self.path), branch_name@, script::done()),
    {
        Operation::checkout_branch(Some(&self.path), branch_name)
    }

    /// The text of the description file, in `directory` where there is one, at a `reference` that
    /// the local repository has.
    pub fn get_description_file_content<'a>(
        &'a self,
        reference: &GitReference<'a>,
        directory: Option<&'a PathBuf>,
    ) -> (op: Operation<'a>)
        ensures
            op@ == script::get_description_file_content(
                self.path,
                reference@,
                crate::command::place(directory),
            ),
    {
        Operation::get_description_file_content(&self.path, *reference, directory)
    }

    /// Fetches `reference` as [`GitRepository::fetch`] does, with only the description files in the
    /// working tree.
    pub fn sparse_checkout<'a>(
        &'a self,
        url: &'a str,
        reference: &GitReference<'a>,
        refspecs: Vec<String>,
    ) -> (op: Operation<'a>)
        requires
            refspecs@.len() > 0,
        ensures
            op@ == script::sparse_checkout(
                Some(self.path),
                url@,
                reference@,
                operation::texts(refspecs@),
            ),
    {
        Operation::sparse_checkout(Some(&self.path), url, *reference, refspecs)
    }

    /// Brings all files back into the working tree.
    pub fn disable_sparse_checkout<'a>(&'a self) -> (op: Operation<'a>)
        ensures
            op@ == script::disable_sparse_checkout(Some(self.path)),
    {
        Operation::disable_sparse_checkout(Some(&self.path))
    }

    /// The commit that a branch or tag names: what `git rev-parse` prints for it. An annotated tag,
    /// which is an object of its own, is followed to the commit that it points at. A full hash stands
    /// for itself, whether or not the repository has such an object.
    pub fn rev_parse<'a>(&'a self, reference: &'a str) -> (op: Operation<'a>)
        ensures
            op@ == script::rev_parse(Some(self.path), reference@),
    {
        Operation::rev_parse(Some(&self.path), reference)
    }

    /// As [`GitRepository::rev_parse`], with no word on why there is no such commit.
    pub fn ref_as_oid<'a>(&'a self, reference: &'a str) -> (op: Operation<'a>)
        ensures
            op@ == script::ref_as_oid(Some(self.path), reference@),
    {
        Operation::ref_as_oid(Some(&self.path), reference)
    }
}

} // verus!
