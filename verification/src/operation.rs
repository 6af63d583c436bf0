//! The operations, one piece of outside work at a time.
//!
//! An [`Operation`] either is finished, or waits for outside work: it says what is to be done, and
//! goes on when it is told what came back. Its view is the script of what is still to happen.
use std::path::PathBuf;

use vstd::prelude::*;
use vstd::string::*;

use crate::command::{self, CommandView, GitCommand};
use crate::error::{GitError, GitErrorView, IoFailure};
use crate::reference::{GitReference, Oid, ReferenceView};
use crate::request::{
    self, Answer, Condition, ConditionView, DescriptionFile, DescriptionFileView, DirAction,
    DirActionView, Effect, Outcome, DESCRIPTION_FILENAME,
};
use crate::script::{self, Script};
use crate::symref;
use crate::text;

verus! {

/// An operation under way.
pub enum Operation<'a> {
    /// Waits for a git command.
    Git(GitStep<'a>),
    /// Waits for the text of a file.
    Read(ReadStep<'a>),
    /// Waits for a change to the file system.
    Act(ActStep<'a>),
    /// Waits for the answer to a question.
    Check(CheckStep<'a>),
    /// Waits for a line to be printed.
    Print(PrintStep<'a>),
    /// Waits for nothing.
    Finished(Outcome),
}

impl<'a> View for Operation<'a> {
    type V = Script;

    open spec fn view(&self) -> Script {
        match self {
            Operation::Git(step) => step@,
            Operation::Read(step) => step@,
            Operation::Act(step) => step@,
            Operation::Check(step) => step@,
            Operation::Print(step) => step@,
            Operation::Finished(outcome) => Script::End(outcome@),
        }
    }
}

/// What follows the checkout of a commit or a branch.
enum Next<'a> {
    Done,
    Update(GitReference<'a>),
    Describe(DescriptionFile<'a>),
}

impl<'a> Next<'a> {
    spec fn script(self, dir: Option<PathBuf>) -> Script {
        match self {
            Next::Done => script::done(),
            Next::Update(reference) => script::force_update_local_reference(dir, reference@),
            Next::Describe(file) => script::read_description(file@),
        }
    }
}

/// The texts of `strings`.
pub open spec fn texts(strings: Seq<String>) -> Seq<Seq<char>> {
    strings.map_values(|s: String| s@)
}

/// The command that a [`GitStep`] waits for.
#[allow(inconsistent_fields)]
enum GitState<'a> {
    RevParse { reference: &'a str },
    RefAsOid { reference: &'a str },
    DefaultBranch { target: &'a str },
    CheckoutProbe { oid: String, next: Next<'a> },
    Checkout { oid: String, next: Next<'a> },
    CheckoutBranch { branch: String, next: Next<'a> },
    CheckoutHead { next: Next<'a> },
    SubmoduleUpdate { next: Next<'a> },
    CommitLookup { url: &'a str, commit: &'a str, refspecs: Vec<String> },
    CommitPresent { url: &'a str, commit: &'a str, refspecs: Vec<String>, oid: String },
    LoneRefspec { url: &'a str, reference: GitReference<'a>, refspec: String },
    Refspec { url: &'a str, reference: GitReference<'a>, refspec: String, left: Vec<String> },
    Settle { reference: GitReference<'a> },
    EstablishBranch { name: &'a str },
    EstablishTag { name: &'a str },
    ShowCurrent { branch: &'a str },
    Reset { branch: &'a str },
    ForceBranch { branch: &'a str },
    ForceTag { tag: &'a str },
    SparseInit { url: &'a str, reference: GitReference<'a>, refspecs: Vec<String> },
    SparseFilter { url: &'a str, reference: GitReference<'a>, refspecs: Vec<String> },
    SparseDisable,
    Describe { path: &'a PathBuf, reference: GitReference<'a>, directory: Option<&'a PathBuf> },
    Probe { path: &'a PathBuf, url: &'a str },
    Init { path: &'a PathBuf, url: &'a str },
    RemoteAdd { path: &'a PathBuf, url: &'a str },
}

/// An operation that waits for a git command.
pub struct GitStep<'a> {
    dir: Option<&'a PathBuf>,
    state: GitState<'a>,
}

impl<'a> GitStep<'a> {
    spec fn script(&self) -> Script {
        let dir = command::place(self.dir);
        match self.state {
            GitState::RevParse { reference } => script::rev_parse(dir, reference@),
            GitState::RefAsOid { reference } => script::ref_as_oid(dir, reference@),
            GitState::DefaultBranch { target } => script::resolve_default_branch(dir, target@),
            GitState::CheckoutProbe { oid, next } => script::checkout(dir, oid@, next.script(dir)),
            GitState::Checkout { oid, next } => script::run_checkout(
                dir,
                oid@,
                next.script(dir),
            ),
            GitState::CheckoutBranch { branch, next } => script::checkout_branch(
                dir,
                branch@,
                next.script(dir),
            ),
            GitState::CheckoutHead { next } => script::checkout_head(dir, next.script(dir)),
            GitState::SubmoduleUpdate { next } => script::run_submodule_update(
                dir,
                next.script(dir),
            ),
            GitState::CommitLookup { url, commit, refspecs } => script::fetch(
                dir,
                url@,
                ReferenceView::Commit(commit@),
                texts(refspecs@),
            ),
            GitState::CommitPresent { url, commit, refspecs, oid } => script::fetch_absent(
                dir,
                url@,
                ReferenceView::Commit(commit@),
                texts(refspecs@),
                oid@,
            ),
            GitState::LoneRefspec { url, reference, refspec } => script::run(
                CommandView::fetch(dir, url@, refspec@),
                script::settle(dir, reference@),
            ),
            GitState::Refspec { url, reference, refspec, left } => script::try_refspecs(
                dir,
                url@,
                reference@,
                seq![refspec@] + texts(left@),
            ),
            GitState::Settle { reference } => script::settle(dir, reference@),
            GitState::EstablishBranch { name } => script::establish_branch(dir, name@),
            GitState::EstablishTag { name } => script::establish_tag(dir, name@),
            GitState::ShowCurrent { branch } => script::force_update_local_reference(
                dir,
                ReferenceView::Branch(branch@),
            ),
            GitState::Reset { branch } => script::run(
                CommandView::reset(dir, branch@),
                script::done(),
            ),
            GitState::ForceBranch { branch } => script::run(
                CommandView::force_branch(dir, branch@),
                script::done(),
            ),
            GitState::ForceTag { tag } => script::run(
                CommandView::force_tag(dir, tag@),
                script::done(),
            ),
            GitState::SparseInit { url, reference, refspecs } => script::sparse_checkout(
                dir,
                url@,
                reference@,
                texts(refspecs@),
            ),
            GitState::SparseFilter { url, reference, refspecs } => script::run(
                CommandView::sparse_set(dir),
                script::fetch(dir, url@, reference@, texts(refspecs@)),
            ),
            GitState::SparseDisable => script::disable_sparse_checkout(dir),
            GitState::Describe { path, reference, directory } =>
                script::get_description_file_content(*path, reference@, command::place(directory)),
            GitState::Probe { path, url } => script::open(*path, url@),
            GitState::Init { path, url } => script::init_in_place(*path, url@),
            GitState::RemoteAdd { path, url } => script::run(
                CommandView::remote_add(Some(*path), url@),
                script::done(),
            ),
        }
    }

    /// The command that is waited for.
    pub closed spec fn asked(&self) -> CommandView {
        self.script()->Git_0
    }

    /// What is left of the operation, by what comes back.
    pub closed spec fn rest(&self) -> spec_fn(Answer) -> Script {
        self.script()->Git_1
    }
}

impl<'a> View for GitStep<'a> {
    type V = Script;

    open spec fn view(&self) -> Script {
        Script::Git(self.asked(), self.rest())
    }
}

impl<'a> GitStep<'a> {
    /// The command to run.
    pub fn command(&self) -> (c: GitCommand<'a>)
        ensures
            c@ == self.asked(),
    {
        let dir = self.dir;
        match &self.state {
            GitState::RevParse { reference } => GitCommand::rev_parse_commit(dir, reference),
            GitState::RefAsOid { reference } => GitCommand::rev_parse_commit(dir, reference),
            GitState::DefaultBranch { target } => GitCommand::ls_remote(dir, target),
            GitState::CheckoutProbe { .. } => GitCommand::rev_parse(dir, "HEAD"),
            GitState::Checkout { oid, .. } => GitCommand::checkout(dir, oid.as_str()),
            GitState::CheckoutBranch { branch, .. } => GitCommand::checkout_branch(
                dir,
                branch.as_str(),
            ),
            GitState::CheckoutHead { .. } => GitCommand::ls_remote(dir, "origin"),
            GitState::SubmoduleUpdate { .. } => GitCommand::submodule_update(dir),
            GitState::CommitLookup { commit, .. } => GitCommand::rev_parse(dir, commit),
            GitState::CommitPresent { oid, .. } => GitCommand::cat_file(dir, oid.as_str()),
            GitState::LoneRefspec { url, refspec, .. } => GitCommand::fetch(
                dir,
                url,
                refspec.as_str(),
            ),
            GitState::Refspec { url, refspec, .. } => GitCommand::fetch(dir, url, refspec.as_str()),
            GitState::Settle { reference } => GitCommand::rev_parse(dir, reference.reference()),
            GitState::EstablishBranch { name } => GitCommand::rev_parse(
                dir,
                "origin/".to_owned().concat(name).as_str(),
            ),
            GitState::EstablishTag { name } => GitCommand::rev_parse(
                dir,
                "origin/tags/".to_owned().concat(name).as_str(),
            ),
            GitState::ShowCurrent { .. } => GitCommand::show_current(dir),
            GitState::Reset { branch } => GitCommand::reset(dir, branch),
            GitState::ForceBranch { branch } => GitCommand::force_branch(dir, branch),
            GitState::ForceTag { tag } => GitCommand::force_tag(dir, tag),
            GitState::SparseInit { .. } => GitCommand::sparse_init(dir),
            GitState::SparseFilter { .. } => GitCommand::sparse_set(dir),
            GitState::SparseDisable => GitCommand::sparse_disable(dir),
            GitState::Describe { path, reference, .. } => GitCommand::rev_parse(
                Some(*path),
                reference.reference(),
            ),
            GitState::Probe { path, .. } => GitCommand::probe(Some(*path)),
            GitState::Init { path, .. } => GitCommand::init(Some(*path)),
            GitState::RemoteAdd { path, url } => GitCommand::remote_add(Some(*path), url),
        }
    }

    /// The operation once the command has come back with `reply`: what it printed, or its failure.
    pub fn resume(self, reply: Result<String, IoFailure>) -> (op: Operation<'a>)
        ensures
            op@ == (self.rest())(request::answer(reply)),
    {
        let dir = self.dir;
        match self.state {
            GitState::RevParse { reference } => match reply {
                Ok(oid) => Operation::Finished(Outcome::Oid(Oid::new(oid))),
                Err(_) => Operation::fail(GitError::unresolved(reference)),
            },
            GitState::RefAsOid { .. } => match reply {
                Ok(oid) => Operation::Finished(Outcome::Oid(Oid::new(oid))),
                Err(_) => Operation::Finished(Outcome::Missing),
            },
            GitState::DefaultBranch { target } => match reply {
                Ok(output) => match symref::parse_default_branch(output.as_str()) {
                    Some(branch) => Operation::Finished(Outcome::Text(branch)),
                    None => Operation::fail(GitError::default_branch(target, output.as_str())),
                },
                Err(e) => Operation::fail(GitError::Io(e)),
            },
            GitState::CheckoutProbe { oid, next } => match reply {
                Ok(head) if head == oid => Operation::proceed(dir, next),
                _ => Operation::Git(GitStep { dir, state: GitState::Checkout { oid, next } }),
            },
            GitState::Checkout { oid, next } => match reply {
                Ok(_) => Operation::update_submodules(dir, next),
                Err(e) => Operation::fail(GitError::checkout(oid.as_str(), &e)),
            },
            GitState::CheckoutBranch { branch, next } => match reply {
                Ok(_) => Operation::update_submodules(dir, next),
                Err(e) => Operation::fail(GitError::checkout_branch(branch.as_str(), &e)),
            },
            GitState::CheckoutHead { next } => match reply {
                Ok(output) => match symref::parse_default_branch(output.as_str()) {
                    Some(branch) => Operation::Git(
                        GitStep { dir, state: GitState::CheckoutBranch { branch, next } },
                    ),
                    None => Operation::fail(GitError::default_branch("origin", output.as_str())),
                },
                Err(e) => Operation::fail(GitError::Io(e)),
            },
            GitState::SubmoduleUpdate { next } => match reply {
                Ok(_) => Operation::proceed(dir, next),
                Err(e) => Operation::fail(GitError::submodules(&e)),
            },
            GitState::CommitLookup { url, commit, refspecs } => match reply {
                Ok(oid) => Operation::Git(
                    GitStep { dir, state: GitState::CommitPresent { url, commit, refspecs, oid } },
                ),
                Err(_) => Operation::fetch_refspecs(
                    dir,
                    url,
                    GitReference::Commit(commit),
                    refspecs,
                ),
            },
            GitState::CommitPresent { url, commit, refspecs, .. } => match reply {
                Ok(_) => Operation::Finished(Outcome::Done),
                Err(_) => Operation::fetch_refspecs(
                    dir,
                    url,
                    GitReference::Commit(commit),
                    refspecs,
                ),
            },
            GitState::LoneRefspec { reference, .. } => match reply {
                Ok(_) => Operation::settle(dir, reference),
                Err(e) => Operation::fail(GitError::Io(e)),
            },
            GitState::Refspec { url, reference, refspec, left } => match reply {
                Ok(_) => Operation::settle(dir, reference),
                Err(failure) => {
                    assert((seq![refspec@] + texts(left@)).drop_first() =~= texts(left@));
                    Operation::Print(PrintStep { dir, url, reference, refspec, left, failure })
                },
            },
            GitState::Settle { reference } => match reply {
                Ok(_) => Operation::force_update_local_reference(dir, reference),
                Err(_) => Operation::establish(dir, reference),
            },
            GitState::EstablishBranch { name } => match reply {
                Ok(_) => Operation::checkout_branch(dir, name),
                Err(_) => Operation::Git(GitStep { dir, state: GitState::EstablishTag { name } }),
            },
            GitState::EstablishTag { .. } => match reply {
                Ok(oid) => Operation::Git(
                    GitStep { dir, state: GitState::CheckoutProbe { oid, next: Next::Done } },
                ),
                Err(_) => Operation::Finished(Outcome::Done),
            },
            GitState::ShowCurrent { branch } => {
                let is_current = match &reply {
                    Ok(current) => text::same_text(text::trim_text(current.as_str()), branch),
                    Err(_) => false,
                };
                if is_current {
                    Operation::Git(GitStep { dir, state: GitState::Reset { branch } })
                } else {
                    Operation::Git(GitStep { dir, state: GitState::ForceBranch { branch } })
                }
            },
            GitState::Reset { .. } | GitState::ForceBranch { .. } | GitState::ForceTag { .. }
            | GitState::SparseDisable | GitState::RemoteAdd { .. } => match reply {
                Ok(_) => Operation::Finished(Outcome::Done),
                Err(e) => Operation::fail(GitError::Io(e)),
            },
            GitState::SparseInit { url, reference, refspecs } => match reply {
                Ok(_) => Operation::Git(
                    GitStep { dir, state: GitState::SparseFilter { url, reference, refspecs } },
                ),
                Err(e) => Operation::fail(GitError::Io(e)),
            },
            GitState::SparseFilter { url, reference, refspecs } => match reply {
                Ok(_) => Operation::fetch(dir, url, reference, refspecs),
                Err(e) => Operation::fail(GitError::Io(e)),
            },
            GitState::Describe { path, directory, .. } => match reply {
                Ok(oid) => Operation::Git(
                    GitStep {
                        dir: Some(path),
                        state: GitState::CheckoutProbe {
                            oid,
                            next: Next::Describe(
                                DescriptionFile { root: path, directory, name: DESCRIPTION_FILENAME },
                            ),
                        },
                    },
                ),
                Err(_) => Operation::fail(GitError::no_reference()),
            },
            GitState::Probe { path, url } => match reply {
                Ok(_) => Operation::Finished(Outcome::Done),
                Err(_) => Operation::Act(ActStep { state: ActState::Replace { path, url } }),
            },
            GitState::Init { path, url } => match reply {
                Ok(_) => Operation::Git(
                    GitStep { dir, state: GitState::RemoteAdd { path, url } },
                ),
                Err(e) => Operation::fail(GitError::Io(e)),
            },
        }
    }
}

/// An operation that waits for the text of a file.
pub struct ReadStep<'a> {
    file: DescriptionFile<'a>,
}

impl<'a> ReadStep<'a> {
    spec fn script(&self) -> Script {
        script::read_file(self.file@)
    }

    /// The file that is waited for.
    pub closed spec fn asked(&self) -> DescriptionFileView {
        self.script()->Read_0
    }

    /// What is left of the operation, by what comes back.
    pub closed spec fn rest(&self) -> spec_fn(Answer) -> Script {
        self.script()->Read_1
    }
}

impl<'a> View for ReadStep<'a> {
    type V = Script;

    open spec fn view(&self) -> Script {
        Script::Read(self.asked(), self.rest())
    }
}

impl<'a> ReadStep<'a> {
    /// The file to read.
    pub fn file(&self) -> (file: DescriptionFile<'a>)
        ensures
            file@ == self.asked(),
    {
        self.file
    }

    /// The operation once the reading has come back with `reply`: the text, or the failure.
    pub fn resume(self, reply: Result<String, IoFailure>) -> (op: Operation<'a>)
        ensures
            op@ == (self.rest())(request::answer(reply)),
    {
        match reply {
            Ok(content) => Operation::Finished(Outcome::Text(content)),
            Err(e) => Operation::fail(GitError::Io(e)),
        }
    }
}

/// The change that an [`ActStep`] waits for.
enum ActState<'a> {
    Create { path: &'a PathBuf, url: &'a str },
    Replace { path: &'a PathBuf, url: &'a str },
    Remove { path: &'a PathBuf },
}

/// An operation that waits for a change to the file system.
pub struct ActStep<'a> {
    state: ActState<'a>,
}

impl<'a> ActStep<'a> {
    spec fn script(&self) -> Script {
        match self.state {
            ActState::Create { path, url } => script::act(
                DirActionView::Create(*path),
                script::init_in_place(*path, url@),
            ),
            ActState::Replace { path, url } => script::act(
                DirActionView::Remove(*path),
                script::init(*path, url@),
            ),
            ActState::Remove { path } => script::act(DirActionView::Remove(*path), script::done()),
        }
    }

    /// The change that is waited for.
    pub closed spec fn asked(&self) -> DirActionView {
        self.script()->Act_0
    }

    /// What is left of the operation, by what comes back.
    pub closed spec fn rest(&self) -> spec_fn(Effect) -> Script {
        self.script()->Act_1
    }
}

impl<'a> View for ActStep<'a> {
    type V = Script;

    open spec fn view(&self) -> Script {
        Script::Act(self.asked(), self.rest())
    }
}

impl<'a> ActStep<'a> {
    /// The change to make.
    pub fn action(&self) -> (action: DirAction<'a>)
        ensures
            action@ == self.asked(),
    {
        match &self.state {
            ActState::Create { path, .. } => DirAction::Create(*path),
            ActState::Replace { path, .. } => DirAction::Remove(*path),
            ActState::Remove { path } => DirAction::Remove(*path),
        }
    }

    /// The operation once the change has come back with `reply`: that it is made, or its failure.
    pub fn resume(self, reply: Result<(), IoFailure>) -> (op: Operation<'a>)
        ensures
            op@ == (self.rest())(request::effect(reply)),
    {
        match reply {
            Ok(_) => match self.state {
                ActState::Create { path, url } => Operation::init_in_place(path, url),
                ActState::Replace { path, url } => Operation::init(path, url),
                ActState::Remove { .. } => Operation::Finished(Outcome::Done),
            },
            Err(e) => Operation::fail(GitError::Io(e)),
        }
    }
}

/// The question that a [`CheckStep`] waits for the answer to.
enum CheckState<'a> {
    Submodules { dir: Option<&'a PathBuf>, next: Next<'a> },
    Exists { file: DescriptionFile<'a> },
    InitDir { path: &'a PathBuf, url: &'a str },
    RmDir { path: &'a PathBuf },
}

/// An operation that waits for the answer to a question.
pub struct CheckStep<'a> {
    state: CheckState<'a>,
}

impl<'a> CheckStep<'a> {
    spec fn script(&self) -> Script {
        match self.state {
            CheckState::Submodules { dir, next } => script::update_submodules(
                command::place(dir),
                next.script(command::place(dir)),
            ),
            CheckState::Exists { file } => script::read_description(file@),
            CheckState::InitDir { path, url } => script::init(*path, url@),
            CheckState::RmDir { path } => script::rm_folder(*path),
        }
    }

    /// The question whose answer is waited for.
    pub closed spec fn asked(&self) -> ConditionView {
        self.script()->Check_0
    }

    /// What is left of the operation, by what comes back.
    pub closed spec fn rest(&self) -> spec_fn(bool) -> Script {
        self.script()->Check_1
    }
}

impl<'a> View for CheckStep<'a> {
    type V = Script;

    open spec fn view(&self) -> Script {
        Script::Check(self.asked(), self.rest())
    }
}

impl<'a> CheckStep<'a> {
    /// The question.
    pub fn condition(&self) -> (condition: Condition<'a>)
        ensures
            condition@ == self.asked(),
    {
        match &self.state {
            CheckState::Submodules { .. } => Condition::SubmodulesDisabled,
            CheckState::Exists { file } => Condition::Exists(*file),
            CheckState::InitDir { path, .. } => Condition::IsDir(*path),
            CheckState::RmDir { path } => Condition::IsDir(*path),
        }
    }

    /// The operation once the answer is `reply`.
    pub fn resume(self, reply: bool) -> (op: Operation<'a>)
        ensures
            op@ == (self.rest())(reply),
    {
        match self.state {
            CheckState::Submodules { dir, next } => if reply {
                Operation::proceed(dir, next)
            } else {
                Operation::Git(GitStep { dir, state: GitState::SubmoduleUpdate { next } })
            },
            CheckState::Exists { file } => if reply {
                Operation::Read(ReadStep { file })
            } else {
                Operation::fail(GitError::no_description())
            },
            CheckState::InitDir { path, url } => if reply {
                Operation::init_in_place(path, url)
            } else {
                Operation::Act(ActStep { state: ActState::Create { path, url } })
            },
            CheckState::RmDir { path } => if reply {
                Operation::Act(ActStep { state: ActState::Remove { path } })
            } else {
                Operation::Finished(Outcome::Done)
            },
        }
    }
}

/// An operation that waits for a line to be printed: that `refspec` could not be fetched. Those that
/// are `left` are tried after it.
pub struct PrintStep<'a> {
    dir: Option<&'a PathBuf>,
    url: &'a str,
    reference: GitReference<'a>,
    refspec: String,
    left: Vec<String>,
    failure: IoFailure,
}

impl<'a> PrintStep<'a> {
    spec fn script(&self) -> Script {
        Script::Print(
            script::failed_line(self.refspec@),
            Box::new(
                if self.left@.len() == 0 {
                    script::fail(GitErrorView::Io(self.failure@))
                } else {
                    script::try_refspecs(
                        command::place(self.dir),
                        self.url@,
                        self.reference@,
                        texts(self.left@),
                    )
                },
            ),
        )
    }

    /// The line that is waited for.
    pub closed spec fn asked(&self) -> Seq<char> {
        self.script()->Print_0
    }

    /// What is left of the operation.
    pub closed spec fn rest(&self) -> Box<Script> {
        self.script()->Print_1
    }
}

impl<'a> View for PrintStep<'a> {
    type V = Script;

    open spec fn view(&self) -> Script {
        Script::Print(self.asked(), self.rest())
    }
}

impl<'a> PrintStep<'a> {
    /// The line to print.
    pub fn line(&self) -> (line: String)
        ensures
            line@ == self.asked(),
    {
        "Failed to fetch ".to_owned().concat(self.refspec.as_str())
    }

    /// The operation once the line is printed.
    pub fn resume(self) -> (op: Operation<'a>)
        ensures
            op@ == *self.rest(),
    {
        if self.left.len() == 0 {
            Operation::fail(GitError::Io(self.failure))
        } else {
            Operation::try_refspecs(self.dir, self.url, self.reference, self.left)
        }
    }
}

impl<'a> Operation<'a> {
    fn fail(error: GitError) -> (op: Self)
        ensures
            op@ == script::fail(error@),
    {
        Operation::Finished(Outcome::Failed(error))
    }

    fn proceed(dir: Option<&'a PathBuf>, next: Next<'a>) -> (op: Self)
        ensures
            op@ == next.script(command::place(dir)),
    {
        match next {
            Next::Done => Operation::Finished(Outcome::Done),
            Next::Update(reference) => Operation::force_update_local_reference(dir, reference),
            Next::Describe(file) => Operation::Check(
                CheckStep { state: CheckState::Exists { file } },
            ),
        }
    }

    fn update_submodules(dir: Option<&'a PathBuf>, next: Next<'a>) -> (op: Self)
        ensures
            op@ == script::update_submodules(
                command::place(dir),
                next.script(command::place(dir)),
            ),
    {
        Operation::Check(CheckStep { state: CheckState::Submodules { dir, next } })
    }

    fn force_update_local_reference(
        dir: Option<&'a PathBuf>,
        reference: GitReference<'a>,
    ) -> (op: Self)
        ensures
            op@ == script::force_update_local_reference(command::place(dir), reference@),
    {
        match reference {
            GitReference::Branch(branch) => Operation::Git(
                GitStep { dir, state: GitState::ShowCurrent { branch } },
            ),
            GitReference::Tag(tag) => Operation::Git(
                GitStep { dir, state: GitState::ForceTag { tag } },
            ),
            _ => Operation::Finished(Outcome::Done),
        }
    }

    fn settle(dir: Option<&'a PathBuf>, reference: GitReference<'a>) -> (op: Self)
        ensures
            op@ == script::settle(command::place(dir), reference@),
    {
        Operation::Git(GitStep { dir, state: GitState::Settle { reference } })
    }

    fn establish(dir: Option<&'a PathBuf>, reference: GitReference<'a>) -> (op: Self)
        ensures
            op@ == script::establish(command::place(dir), reference@),
    {
        let next = Next::Update(reference);
        match reference {
            GitReference::Branch(branch) => Operation::Git(
                GitStep {
                    dir,
                    state: GitState::CheckoutBranch { branch: branch.to_owned(), next },
                },
            ),
            GitReference::Unknown(name) => if text::same_text(name, "HEAD") {
                Operation::Git(GitStep { dir, state: GitState::CheckoutHead { next } })
            } else {
                Operation::Git(GitStep { dir, state: GitState::EstablishBranch { name } })
            },
            _ => Operation::force_update_local_reference(dir, reference),
        }
    }

    fn try_refspecs(
        dir: Option<&'a PathBuf>,
        url: &'a str,
        reference: GitReference<'a>,
        refspecs: Vec<String>,
    ) -> (op: Self)
        ensures
            op@ == script::try_refspecs(command::place(dir), url@, reference@, texts(refspecs@)),
    {
        if refspecs.len() == 0 {
            Operation::Finished(Outcome::Done)
        } else {
            let mut left = refspecs;
            let refspec = left.remove(0);
            assert(seq![refspec@] + texts(left@) =~= texts(refspecs@));
            Operation::Git(
                GitStep { dir, state: GitState::Refspec { url, reference, refspec, left } },
            )
        }
    }

    fn fetch_refspecs(
        dir: Option<&'a PathBuf>,
        url: &'a str,
        reference: GitReference<'a>,
        refspecs: Vec<String>,
    ) -> (op: Self)
        ensures
            op@ == script::fetch_refspecs(command::place(dir), url@, reference@, texts(refspecs@)),
    {
        if refspecs.len() == 1 {
            let mut refspecs = refspecs;
            let refspec = refspecs.remove(0);
            Operation::Git(
                GitStep { dir, state: GitState::LoneRefspec { url, reference, refspec } },
            )
        } else {
            Operation::try_refspecs(dir, url, reference, refspecs)
        }
    }

    pub(crate) fn fetch(
        dir: Option<&'a PathBuf>,
        url: &'a str,
        reference: GitReference<'a>,
        refspecs: Vec<String>,
    ) -> (op: Self)
        ensures
            op@ == script::fetch(command::place(dir), url@, reference@, texts(refspecs@)),
    {
        match reference {
            GitReference::Commit(commit) => Operation::Git(
                GitStep { dir, state: GitState::CommitLookup { url, commit, refspecs } },
            ),
            _ => Operation::fetch_refspecs(dir, url, reference, refspecs),
        }
    }

    pub(crate) fn sparse_checkout(
        dir: Option<&'a PathBuf>,
        url: &'a str,
        reference: GitReference<'a>,
        refspecs: Vec<String>,
    ) -> (op: Self)
        ensures
            op@ == script::sparse_checkout(command::place(dir), url@, reference@, texts(refspecs@)),
    {
        Operation::Git(GitStep { dir, state: GitState::SparseInit { url, reference, refspecs } })
    }

    pub(crate) fn disable_sparse_checkout(dir: Option<&'a PathBuf>) -> (op: Self)
        ensures
            op@ == script::disable_sparse_checkout(command::place(dir)),
    {
        Operation::Git(GitStep { dir, state: GitState::SparseDisable })
    }

    pub(crate) fn rev_parse(dir: Option<&'a PathBuf>, reference: &'a str) -> (op: Self)
        ensures
            op@ == script::rev_parse(command::place(dir), reference@),
    {
        Operation::Git(GitStep { dir, state: GitState::RevParse { reference } })
    }

    pub(crate) fn ref_as_oid(dir: Option<&'a PathBuf>, reference: &'a str) -> (op: Self)
        ensures
            op@ == script::ref_as_oid(command::place(dir), reference@),
    {
        Operation::Git(GitStep { dir, state: GitState::RefAsOid { reference } })
    }

    pub(crate) fn resolve_default_branch(dir: Option<&'a PathBuf>, target: &'a str) -> (op: Self)
        ensures
            op@ == script::resolve_default_branch(command::place(dir), target@),
    {
        Operation::Git(GitStep { dir, state: GitState::DefaultBranch { target } })
    }

    pub(crate) fn checkout(dir: Option<&'a PathBuf>, oid: &str) -> (op: Self)
        ensures
            op@ == script::checkout(command::place(dir), oid@, script::done()),
    {
        Operation::Git(
            GitStep {
                dir,
                state: GitState::CheckoutProbe { oid: oid.to_owned(), next: Next::Done },
            },
        )
    }

    pub(crate) fn checkout_branch(dir: Option<&'a PathBuf>, branch: &str) -> (op: Self)
        ensures
            op@ == script::checkout_branch(command::place(dir), branch@, script::done()),
    {
        Operation::Git(
            GitStep {
                dir,
                state: GitState::CheckoutBranch { branch: branch.to_owned(), next: Next::Done },
            },
        )
    }

    pub(crate) fn get_description_file_content(
        path: &'a PathBuf,
        reference: GitReference<'a>,
        directory: Option<&'a PathBuf>,
    ) -> (op: Self)
        ensures
            op@ == script::get_description_file_content(
                *path,
                reference@,
                command::place(directory),
            ),
    {
        Operation::Git(
            GitStep {
                dir: Some(path),
                state: GitState::Describe { path, reference, directory },
            },
        )
    }

    fn init_in_place(path: &'a PathBuf, url: &'a str) -> (op: Self)
        ensures
            op@ == script::init_in_place(*path, url@),
    {
        Operation::Git(GitStep { dir: Some(path), state: GitState::Init { path, url } })
    }

    pub(crate) fn init(path: &'a PathBuf, url: &'a str) -> (op: Self)
        ensures
            op@ == script::init(*path, url@),
    {
        Operation::Check(CheckStep { state: CheckState::InitDir { path, url } })
    }

    pub(crate) fn open(path: &'a PathBuf, url: &'a str) -> (op: Self)
        ensures
            op@ == script::open(*path, url@),
    {
        Operation::Git(GitStep { dir: Some(path), state: GitState::Probe { path, url } })
    }

    pub(crate) fn rm_folder(path: &'a PathBuf) -> (op: Self)
        ensures
            op@ == script::rm_folder(*path),
    {
        Operation::Check(CheckStep { state: CheckState::RmDir { path } })
    }
}

} // verus!
