//! What an operation can fail with.
use vstd::prelude::*;
use vstd::string::*;

verus! {

/// `std::io::Error`, carried through unread.
#[verifier::external_type_specification]
#[verifier::external_body]
pub struct ExIoError(std::io::Error);

/// A failure of outside work: of a git command, or of a change to the file system.
#[derive(Debug)]
pub struct IoFailure {
    /// The failure in words.
    pub message: String,
    /// The failure itself.
    pub source: std::io::Error,
}

pub struct IoFailureView {
    pub message: Seq<char>,
    pub source: std::io::Error,
}

impl View for IoFailure {
    type V = IoFailureView;

    open spec fn view(&self) -> IoFailureView {
        IoFailureView { message: self.message@, source: self.source }
    }
}

/// The error of an operation.
#[derive(Debug)]
pub enum GitError {
    /// Outside work failed, and its failure is reported as it is.
    Io(IoFailure),
    /// Any other failure, in words.
    Other(String),
    /// Something that was asked for is not there, in words.
    NotFound(String),
}

pub enum GitErrorView {
    Io(IoFailureView),
    Other(Seq<char>),
    NotFound(Seq<char>),
}

impl View for GitError {
    type V = GitErrorView;

    open spec fn view(&self) -> GitErrorView {
        match self {
            GitError::Io(failure) => GitErrorView::Io(failure@),
            GitError::Other(message) => GitErrorView::Other(message@),
            GitError::NotFound(message) => GitErrorView::NotFound(message@),
        }
    }
}

impl GitErrorView {
    /// A reference that git cannot resolve.
    pub open spec fn unresolved(reference: Seq<char>) -> GitErrorView {
        GitErrorView::Other("Reference "@ + reference + " not found"@)
    }

    /// A commit that git cannot check out.
    pub open spec fn checkout(oid: Seq<char>, cause: IoFailureView) -> GitErrorView {
        GitErrorView::Other("Failed to checkout `"@ + oid + "`: "@ + cause.message)
    }

    /// A branch that git cannot check out.
    pub open spec fn checkout_branch(branch: Seq<char>, cause: IoFailureView) -> GitErrorView {
        GitErrorView::Other("Failed to checkout branch `"@ + branch + "`: "@ + cause.message)
    }

    /// Submodules that git cannot update.
    pub open spec fn submodules(cause: IoFailureView) -> GitErrorView {
        GitErrorView::Other("Failed to update submodules: "@ + cause.message)
    }

    /// An output of `git ls-remote --symref` that names no branch.
    pub open spec fn default_branch(target: Seq<char>, output: Seq<char>) -> GitErrorView {
        GitErrorView::Other(
            "Could not determine default branch for `"@ + target
                + "` from `git ls-remote --symref` output:\n"@ + output,
        )
    }

    /// A repository that has no description file where it is looked for.
    pub open spec fn no_description() -> GitErrorView {
        GitErrorView::NotFound("DESCRIPTION file not found"@)
    }

    /// A reference that the local repository does not have.
    pub open spec fn no_reference() -> GitErrorView {
        GitErrorView::NotFound("Not found"@)
    }
}

impl GitError {
    pub(crate) fn unresolved(reference: &str) -> (e: GitError)
        ensures
            e@ == GitErrorView::unresolved(reference@),
    {
        GitError::Other("Reference ".to_owned().concat(reference).concat(" not found"))
    }

    pub(crate) fn checkout(oid: &str, cause: &IoFailure) -> (e: GitError)
        ensures
            e@ == GitErrorView::checkout(oid@, cause@),
    {
        GitError::Other(
            "Failed to checkout `".to_owned().concat(oid).concat("`: ").concat(
                cause.message.as_str(),
            ),
        )
    }

    pub(crate) fn checkout_branch(branch: &str, cause: &IoFailure) -> (e: GitError)
        ensures
            e@ == GitErrorView::checkout_branch(branch@, cause@),
    {
        GitError::Other(
            "Failed to checkout branch `".to_owned().concat(branch).concat("`: ").concat(
                cause.message.as_str(),
            ),
        )
    }

    pub(crate) fn submodules(cause: &IoFailure) -> (e: GitError)
        ensures
            e@ == GitErrorView::submodules(cause@),
    {
        GitError::Other("Failed to update submodules: ".to_owned().concat(cause.message.as_str()))
    }

    pub(crate) fn default_branch(target: &str, output: &str) -> (e: GitError)
        ensures
            e@ == GitErrorView::default_branch(target@, output@),
    {
        GitError::Other(
            "Could not determine default branch for `".to_owned().concat(target).concat(
                "` from `git ls-remote --symref` output:\n",
            ).concat(output),
        )
    }

    pub(crate) fn no_description() -> (e: GitError)
        ensures
            e@ == GitErrorView::no_description(),
    {
        GitError::NotFound("DESCRIPTION file not found".to_owned())
    }

    pub(crate) fn no_reference() -> (e: GitError)
        ensures
            e@ == GitErrorView::no_reference(),
    {
        GitError::NotFound("Not found".to_owned())
    }
}

} // verus!
