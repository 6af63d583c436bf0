//! The git commands that an operation can ask for.
use std::path::PathBuf;

use vstd::prelude::*;
use vstd::string::*;

use crate::reference;

verus! {

/// `std::path::PathBuf`, carried through unread.
#[verifier::external_type_specification]
#[verifier::external_body]
pub struct ExPathBuf(std::path::PathBuf);

/// A change to the environment that a command runs in.
#[derive(Debug, PartialEq, Eq)]
pub enum EnvChange {
    /// The variable has this value.
    Assign(String, String),
    /// The variable is not there.
    Remove(String),
}

pub enum EnvChangeView {
    Assign(Seq<char>, Seq<char>),
    Remove(Seq<char>),
}

impl View for EnvChange {
    type V = EnvChangeView;

    open spec fn view(&self) -> EnvChangeView {
        match self {
            EnvChange::Assign(name, value) => EnvChangeView::Assign(name@, value@),
            EnvChange::Remove(name) => EnvChangeView::Remove(name@),
        }
    }
}

/// A call of the program `git`.
#[derive(Debug, PartialEq, Eq)]
pub struct GitCommand<'a> {
    /// The arguments, in order.
    pub args: Vec<String>,
    /// The directory that the command runs in: that of the caller where there is none.
    pub dir: Option<&'a PathBuf>,
    /// How its environment differs from the caller's.
    pub env: Vec<EnvChange>,
}

#[verifier::ext_equal]
pub struct CommandView {
    pub args: Seq<Seq<char>>,
    pub dir: Option<PathBuf>,
    pub env: Seq<EnvChangeView>,
}

/// The directory that a command runs in, as a value.
pub open spec fn place(dir: Option<&PathBuf>) -> Option<PathBuf> {
    match dir {
        Some(path) => Some(*path),
        None => None,
    }
}

impl<'a> View for GitCommand<'a> {
    type V = CommandView;

    open spec fn view(&self) -> CommandView {
        CommandView {
            args: self.args@.map_values(|arg: String| arg@),
            dir: place(self.dir),
            env: self.env@.map_values(|change: EnvChange| change@),
        }
    }
}

impl CommandView {
    /// A command that runs in the caller's environment.
    pub open spec fn plain(dir: Option<PathBuf>, args: Seq<Seq<char>>) -> CommandView {
        CommandView { args, dir, env: Seq::empty() }
    }

    /// Whether the directory is a git repository at all.
    pub open spec fn probe(dir: Option<PathBuf>) -> CommandView {
        CommandView::plain(dir, seq!["rev-parse"@])
    }

    /// The object that git resolves `reference` to.
    pub open spec fn rev_parse(dir: Option<PathBuf>, reference: Seq<char>) -> CommandView {
        CommandView::plain(dir, seq!["rev-parse"@, reference])
    }

    /// The commit that git resolves `reference` to.
    pub open spec fn rev_parse_commit(dir: Option<PathBuf>, reference: Seq<char>) -> CommandView {
        CommandView::rev_parse(dir, reference::commit_name(reference))
    }

    /// A new, empty repository.
    pub open spec fn init(dir: Option<PathBuf>) -> CommandView {
        CommandView::plain(dir, seq!["init"@])
    }

    /// The remote that is fetched from, under the name `origin`.
    pub open spec fn remote_add(dir: Option<PathBuf>, url: Seq<char>) -> CommandView {
        CommandView::plain(dir, seq!["remote"@, "add"@, "origin"@, url])
    }

    /// Whether the object `oid` is in the local store.
    pub open spec fn cat_file(dir: Option<PathBuf>, oid: Seq<char>) -> CommandView {
        CommandView::plain(dir, seq!["cat-file"@, "-e"@, oid])
    }

    /// The working tree at the commit `oid`.
    pub open spec fn checkout(dir: Option<PathBuf>, oid: Seq<char>) -> CommandView {
        CommandView::plain(dir, seq!["checkout"@, oid])
    }

    /// The working tree at the remote's `branch`, with a local branch of that name.
    pub open spec fn checkout_branch(dir: Option<PathBuf>, branch: Seq<char>) -> CommandView {
        CommandView::plain(dir, seq!["checkout"@, "-B"@, branch, "origin/"@ + branch])
    }

    /// The submodules at the commits that the working tree names.
    pub open spec fn submodule_update(dir: Option<PathBuf>) -> CommandView {
        CommandView::plain(dir, seq!["submodule"@, "update"@, "--init"@, "--recursive"@])
    }

    /// A working tree that holds only some files.
    pub open spec fn sparse_init(dir: Option<PathBuf>) -> CommandView {
        CommandView::plain(dir, seq!["sparse-checkout"@, "init"@])
    }

    /// A working tree that holds only the description files.
    pub open spec fn sparse_set(dir: Option<PathBuf>) -> CommandView {
        CommandView::plain(dir, seq!["sparse-checkout"@, "set"@, "--no-cone"@, "**/DESCRIPTION"@])
    }

    /// A working tree that holds all files again.
    pub open spec fn sparse_disable(dir: Option<PathBuf>) -> CommandView {
        CommandView::plain(dir, seq!["sparse-checkout"@, "disable"@])
    }

    /// The branch that is checked out.
    pub open spec fn show_current(dir: Option<PathBuf>) -> CommandView {
        CommandView::plain(dir, seq!["branch"@, "--show-current"@])
    }

    /// The branch that is checked out, moved to where the remote's `branch` is.
    pub open spec fn reset(dir: Option<PathBuf>, branch: Seq<char>) -> CommandView {
        CommandView::plain(dir, seq!["reset"@, "--hard"@, "origin/"@ + branch])
    }

    /// The local `branch`, moved to where the remote's is.
    pub open spec fn force_branch(dir: Option<PathBuf>, branch: Seq<char>) -> CommandView {
        CommandView::plain(dir, seq!["branch"@, "-f"@, branch, "origin/"@ + branch])
    }

    /// The local `tag`, moved to where the remote's is.
    pub open spec fn force_tag(dir: Option<PathBuf>, tag: Seq<char>) -> CommandView {
        CommandView::plain(dir, seq!["tag"@, "-f"@, tag, "origin/tags/"@ + tag])
    }

    /// The branch that `HEAD` of `target` stands for.
    pub open spec fn ls_remote(dir: Option<PathBuf>, target: Seq<char>) -> CommandView {
        CommandView::plain(dir, seq!["ls-remote"@, "--symref"@, target, "HEAD"@])
    }

    /// What `refspec` selects of the repository at `url`. It never prompts, and it works on the
    /// repository of its directory even where the caller is itself run by git, which then has
    /// `GIT_DIR` point elsewhere.
    pub open spec fn fetch(dir: Option<PathBuf>, url: Seq<char>, refspec: Seq<char>) -> CommandView {
        CommandView {
            args: seq!["fetch"@, "--tags"@, "--force"@, "--update-head-ok"@, url, refspec],
            dir,
            env: seq![
                EnvChangeView::Assign("GIT_TERMINAL_PROMPT"@, "0"@),
                EnvChangeView::Remove("GIT_DIR"@),
            ],
        }
    }
}

impl<'a> GitCommand<'a> {
    fn new(dir: Option<&'a PathBuf>) -> (c: Self)
        ensures
            c@ == CommandView::plain(place(dir), Seq::empty()),
    {
        GitCommand { args: Vec::new(), dir, env: Vec::new() }
    }

    fn arg(self, arg: &str) -> (c: Self)
        ensures
            c@ == (CommandView { args: self@.args.push(arg@), ..self@ }),
    {
        let mut c = self;
        c.args.push(arg.to_owned());
        assert(c@.args =~= self@.args.push(arg@));
        c
    }

    fn env(self, change: EnvChange) -> (c: Self)
        ensures
            c@ == (CommandView { env: self@.env.push(change@), ..self@ }),
    {
        let mut c = self;
        c.env.push(change);
        assert(c@.env =~= self@.env.push(change@));
        c
    }

    pub(crate) fn probe(dir: Option<&'a PathBuf>) -> (c: Self)
        ensures
            c@ == CommandView::probe(place(dir)),
    {
        GitCommand::new(dir).arg("rev-parse")
    }

    pub(crate) fn rev_parse(dir: Option<&'a PathBuf>, reference: &str) -> (c: Self)
        ensures
            c@ == CommandView::rev_parse(place(dir), reference@),
    {
        GitCommand::new(dir).arg("rev-parse").arg(reference)
    }

    pub(crate) fn rev_parse_commit(dir: Option<&'a PathBuf>, reference: &str) -> (c: Self)
        ensures
            c@ == CommandView::rev_parse_commit(place(dir), reference@),
    {
        GitCommand::rev_parse(dir, reference::name_of_commit(reference).as_str())
    }

    pub(crate) fn init(dir: Option<&'a PathBuf>) -> (c: Self)
        ensures
            c@ == CommandView::init(place(dir)),
    {
        GitCommand::new(dir).arg("init")
    }

    pub(crate) fn remote_add(dir: Option<&'a PathBuf>, url: &str) -> (c: Self)
        ensures
            c@ == CommandView::remote_add(place(dir), url@),
    {
        GitCommand::new(dir).arg("remote").arg("add").arg("origin").arg(url)
    }

    pub(crate) fn cat_file(dir: Option<&'a PathBuf>, oid: &str) -> (c: Self)
        ensures
            c@ == CommandView::cat_file(place(dir), oid@),
    {
        GitCommand::new(dir).arg("cat-file").arg("-e").arg(oid)
    }

    pub(crate) fn checkout(dir: Option<&'a PathBuf>, oid: &str) -> (c: Self)
        ensures
            c@ == CommandView::checkout(place(dir), oid@),
    {
        GitCommand::new(dir).arg("checkout").arg(oid)
    }

    pub(crate) fn checkout_branch(dir: Option<&'a PathBuf>, branch: &str) -> (c: Self)
        ensures
            c@ == CommandView::checkout_branch(place(dir), branch@),
    {
        GitCommand::new(dir).arg("checkout").arg("-B").arg(branch).arg("origin/".to_owned().concat(branch).as_str())
    }

    pub(crate) fn submodule_update(dir: Option<&'a PathBuf>) -> (c: Self)
        ensures
            c@ == CommandView::submodule_update(place(dir)),
    {
        GitCommand::new(dir).arg("submodule").arg("update").arg("--init").arg("--recursive")
    }

    pub(crate) fn sparse_init(dir: Option<&'a PathBuf>) -> (c: Self)
        ensures
            c@ == CommandView::sparse_init(place(dir)),
    {
        GitCommand::new(dir).arg("sparse-checkout").arg("init")
    }

    pub(crate) fn sparse_set(dir: Option<&'a PathBuf>) -> (c: Self)
        ensures
            c@ == CommandView::sparse_set(place(dir)),
    {
        GitCommand::new(dir).arg("sparse-checkout").arg("set").arg("--no-cone").arg("**/DESCRIPTION")
    }

    pub(crate) fn sparse_disable(dir: Option<&'a PathBuf>) -> (c: Self)
        ensures
            c@ == CommandView::sparse_disable(place(dir)),
    {
        GitCommand::new(dir).arg("sparse-checkout").arg("disable")
    }

    pub(crate) fn show_current(dir: Option<&'a PathBuf>) -> (c: Self)
        ensures
            c@ == CommandView::show_current(place(dir)),
    {
        GitCommand::new(dir).arg("branch").arg("--show-current")
    }

    pub(crate) fn reset(dir: Option<&'a PathBuf>, branch: &str) -> (c: Self)
        ensures
            c@ == CommandView::reset(place(dir), branch@),
    {
        GitCommand::new(dir).arg("reset").arg("--hard").arg("origin/".to_owned().concat(branch).as_str())
    }

    pub(crate) fn force_branch(dir: Option<&'a PathBuf>, branch: &str) -> (c: Self)
        ensures
            c@ == CommandView::force_branch(place(dir), branch@),
    {
        GitCommand::new(dir).arg("branch").arg("-f").arg(branch).arg("origin/".to_owned().concat(branch).as_str())
    }

    pub(crate) fn force_tag(dir: Option<&'a PathBuf>, tag: &str) -> (c: Self)
        ensures
            c@ == CommandView::force_tag(place(dir), tag@),
    {
        GitCommand::new(dir).arg("tag").arg("-f").arg(tag).arg("origin/tags/".to_owned().concat(tag).as_str())
    }

    pub(crate) fn ls_remote(dir: Option<&'a PathBuf>, target: &str) -> (c: Self)
        ensures
            c@ == CommandView::ls_remote(place(dir), target@),
    {
        GitCommand::new(dir).arg("ls-remote").arg("--symref").arg(target).arg("HEAD")
    }

    pub(crate) fn fetch(dir: Option<&'a PathBuf>, url: &str, refspec: &str) -> (c: Self)
        ensures
            c@ == CommandView::fetch(place(dir), url@, refspec@),
    {
        GitCommand::new(dir).arg("fetch").arg("--tags").arg("--force").arg("--update-head-ok").arg(
            url,
        ).arg(refspec).env(
            EnvChange::Assign("GIT_TERMINAL_PROMPT".to_owned(), "0".to_owned()),
        ).env(EnvChange::Remove("GIT_DIR".to_owned()))
    }
}

} // verus!
