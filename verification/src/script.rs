//! The operations as scripts.
//!
//! A script is either over, or it asks for one piece of outside work and goes on in a way that
//! depends on what came back. So it says which work an operation asks for, in which order, and
//! what it ends in, for all that the world can answer.
use std::path::PathBuf;

use vstd::prelude::*;

use crate::command::CommandView;
use crate::error::{GitErrorView, IoFailureView};
use crate::reference::ReferenceView;
use crate::request::{
    Answer, ConditionView, DescriptionFileView, DirActionView, Effect, OutcomeView,
};
use crate::{symref, text};

verus! {

pub enum Script {
    /// The operation is over.
    End(OutcomeView),
    /// Run a git command.
    Git(CommandView, spec_fn(Answer) -> Script),
    /// Read a file.
    Read(DescriptionFileView, spec_fn(Answer) -> Script),
    /// Change the file system.
    Act(DirActionView, spec_fn(Effect) -> Script),
    /// Answer a question.
    Check(ConditionView, spec_fn(bool) -> Script),
    /// Print a line to the user.
    Print(Seq<char>, Box<Script>),
}

/// The end in success.
pub open spec fn done() -> Script {
    Script::End(OutcomeView::Done)
}

/// The end in failure.
pub open spec fn fail(error: GitErrorView) -> Script {
    Script::End(OutcomeView::Failed(error))
}

/// A command whose failure is the operation's, and whose success is followed by `next`.
pub open spec fn run(command: CommandView, next: Script) -> Script {
    Script::Git(
        command,
        |r: Answer|
            match r {
                Ok(_) => next,
                Err(e) => fail(GitErrorView::Io(e)),
            },
    )
}

/// A change to the file system whose failure is the operation's, and whose success is followed by
/// `next`.
pub open spec fn act(action: DirActionView, next: Script) -> Script {
    Script::Act(
        action,
        |r: Effect|
            match r {
                Ok(_) => next,
                Err(e) => fail(GitErrorView::Io(e)),
            },
    )
}

/// The commit that `reference` names.
pub open spec fn rev_parse(dir: Option<PathBuf>, reference: Seq<char>) -> Script {
    Script::Git(
        CommandView::rev_parse_commit(dir, reference),
        |r: Answer|
            match r {
                Ok(oid) => Script::End(OutcomeView::Oid(oid)),
                Err(_) => fail(GitErrorView::unresolved(reference)),
            },
    )
}

/// The commit that `reference` names, if it names one.
pub open spec fn ref_as_oid(dir: Option<PathBuf>, reference: Seq<char>) -> Script {
    Script::Git(
        CommandView::rev_parse_commit(dir, reference),
        |r: Answer|
            match r {
                Ok(oid) => Script::End(OutcomeView::Oid(oid)),
                Err(_) => Script::End(OutcomeView::Missing),
            },
    )
}

/// The default branch of `target`.
pub open spec fn resolve_default_branch(dir: Option<PathBuf>, target: Seq<char>) -> Script {
    Script::Git(
        CommandView::ls_remote(dir, target),
        |r: Answer|
            match r {
                Ok(output) => match symref::default_branch(output) {
                    Some(branch) => Script::End(OutcomeView::Text(branch)),
                    None => fail(GitErrorView::default_branch(target, output)),
                },
                Err(e) => fail(GitErrorView::Io(e)),
            },
    )
}

/// The submodules brought up to date, unless the user has switched that off.
pub open spec fn update_submodules(dir: Option<PathBuf>, next: Script) -> Script {
    Script::Check(
        ConditionView::SubmodulesDisabled,
        |disabled: bool|
            if disabled {
                next
            } else {
                run_submodule_update(dir, next)
            },
    )
}

pub open spec fn run_submodule_update(dir: Option<PathBuf>, next: Script) -> Script {
    Script::Git(
        CommandView::submodule_update(dir),
        |r: Answer|
            match r {
                Ok(_) => next,
                Err(e) => fail(GitErrorView::submodules(e)),
            },
    )
}

/// The working tree at the commit `oid`. There is nothing to do where `HEAD` is that commit.
pub open spec fn checkout(dir: Option<PathBuf>, oid: Seq<char>, next: Script) -> Script {
    Script::Git(
        CommandView::rev_parse(dir, "HEAD"@),
        |r: Answer|
            if r == Ok::<Seq<char>, IoFailureView>(oid) {
                next
            } else {
                run_checkout(dir, oid, next)
            },
    )
}

pub open spec fn run_checkout(dir: Option<PathBuf>, oid: Seq<char>, next: Script) -> Script {
    Script::Git(
        CommandView::checkout(dir, oid),
        |r: Answer|
            match r {
                Ok(_) => update_submodules(dir, next),
                Err(e) => fail(GitErrorView::checkout(oid, e)),
            },
    )
}

/// The working tree at the remote's `branch`.
pub open spec fn checkout_branch(dir: Option<PathBuf>, branch: Seq<char>, next: Script) -> Script {
    Script::Git(
        CommandView::checkout_branch(dir, branch),
        |r: Answer|
            match r {
                Ok(_) => update_submodules(dir, next),
                Err(e) => fail(GitErrorView::checkout_branch(branch, e)),
            },
    )
}

/// The working tree at the default branch of `origin`.
pub open spec fn checkout_head(dir: Option<PathBuf>, next: Script) -> Script {
    Script::Git(
        CommandView::ls_remote(dir, "origin"@),
        |r: Answer|
            match r {
                Ok(output) => match symref::default_branch(output) {
                    Some(branch) => checkout_branch(dir, branch, next),
                    None => fail(GitErrorView::default_branch("origin"@, output)),
                },
                Err(e) => fail(GitErrorView::Io(e)),
            },
    )
}

/// The local branch or tag moved to where the remote's is. Commits stay where they are.
pub open spec fn force_update_local_reference(
    dir: Option<PathBuf>,
    reference: ReferenceView,
) -> Script {
    match reference {
        ReferenceView::Branch(branch) => Script::Git(
            CommandView::show_current(dir),
            |r: Answer|
                if r matches Ok(current) && text::trim(current) == branch {
                    run(CommandView::reset(dir, branch), done())
                } else {
                    run(CommandView::force_branch(dir, branch), done())
                },
        ),
        ReferenceView::Tag(tag) => run(CommandView::force_tag(dir, tag), done()),
        _ => done(),
    }
}

/// What is left of a fetch once the remote's objects are here.
pub open spec fn settle(dir: Option<PathBuf>, reference: ReferenceView) -> Script {
    Script::Git(
        CommandView::rev_parse(dir, reference.name()),
        |r: Answer|
            if r is Ok {
                force_update_local_reference(dir, reference)
            } else {
                establish(dir, reference)
            },
    )
}

/// A reference that was fetched and has no local counterpart yet gets one.
pub open spec fn establish(dir: Option<PathBuf>, reference: ReferenceView) -> Script {
    let update = force_update_local_reference(dir, reference);
    match reference {
        ReferenceView::Branch(branch) => checkout_branch(dir, branch, update),
        ReferenceView::Unknown(name) => if name == "HEAD"@ {
            checkout_head(dir, update)
        } else {
            establish_branch(dir, name)
        },
        _ => update,
    }
}

/// A name that may be that of a branch, or else of a tag, of the remote.
pub open spec fn establish_branch(dir: Option<PathBuf>, name: Seq<char>) -> Script {
    Script::Git(
        CommandView::rev_parse(dir, "origin/"@ + name),
        |r: Answer|
            if r is Ok {
                checkout_branch(dir, name, done())
            } else {
                establish_tag(dir, name)
            },
    )
}

pub open spec fn establish_tag(dir: Option<PathBuf>, name: Seq<char>) -> Script {
    Script::Git(
        CommandView::rev_parse(dir, "origin/tags/"@ + name),
        |r: Answer|
            match r {
                Ok(oid) => checkout(dir, oid, done()),
                Err(_) => done(),
            },
    )
}

/// The line that tells the user of a refspec that could not be fetched.
pub open spec fn failed_line(refspec: Seq<char>) -> Seq<char> {
    "Failed to fetch "@ + refspec
}

/// The refspecs are tried in order until one can be fetched. Where none can, the failure is that of
/// the last.
pub open spec fn try_refspecs(
    dir: Option<PathBuf>,
    url: Seq<char>,
    reference: ReferenceView,
    refspecs: Seq<Seq<char>>,
) -> Script
    decreases refspecs.len(),
{
    if refspecs.len() == 0 {
        done()
    } else {
        Script::Git(
            CommandView::fetch(dir, url, refspecs[0]),
            |r: Answer|
                match r {
                    Ok(_) => settle(dir, reference),
                    Err(e) => Script::Print(
                        failed_line(refspecs[0]),
                        Box::new(
                            if refspecs.len() == 1 {
                                fail(GitErrorView::Io(e))
                            } else {
                                try_refspecs(dir, url, reference, refspecs.drop_first())
                            },
                        ),
                    ),
                },
        )
    }
}

/// The objects of the remote. The failure of a lone refspec is not printed.
pub open spec fn fetch_refspecs(
    dir: Option<PathBuf>,
    url: Seq<char>,
    reference: ReferenceView,
    refspecs: Seq<Seq<char>>,
) -> Script {
    if refspecs.len() == 1 {
        run(CommandView::fetch(dir, url, refspecs[0]), settle(dir, reference))
    } else {
        try_refspecs(dir, url, reference, refspecs)
    }
}

/// What `reference` names, brought from the remote at `url`. A commit that is here already is not
/// fetched: it cannot have changed, as a branch or a tag can.
pub open spec fn fetch(
    dir: Option<PathBuf>,
    url: Seq<char>,
    reference: ReferenceView,
    refspecs: Seq<Seq<char>>,
) -> Script {
    match reference {
        ReferenceView::Commit(commit) => Script::Git(
            CommandView::rev_parse(dir, commit),
            |r: Answer|
                match r {
                    Ok(oid) => fetch_absent(dir, url, reference, refspecs, oid),
                    Err(_) => fetch_refspecs(dir, url, reference, refspecs),
                },
        ),
        _ => fetch_refspecs(dir, url, reference, refspecs),
    }
}

/// A fetch that the local store may make needless, by holding `oid`.
pub open spec fn fetch_absent(
    dir: Option<PathBuf>,
    url: Seq<char>,
    reference: ReferenceView,
    refspecs: Seq<Seq<char>>,
    oid: Seq<char>,
) -> Script {
    Script::Git(
        CommandView::cat_file(dir, oid),
        |r: Answer|
            if r is Ok {
                done()
            } else {
                fetch_refspecs(dir, url, reference, refspecs)
            },
    )
}

/// A fetch into a working tree that holds only description files.
pub open spec fn sparse_checkout(
    dir: Option<PathBuf>,
    url: Seq<char>,
    reference: ReferenceView,
    refspecs: Seq<Seq<char>>,
) -> Script {
    run(
        CommandView::sparse_init(dir),
        run(CommandView::sparse_set(dir), fetch(dir, url, reference, refspecs)),
    )
}

/// A working tree that holds all files again.
pub open spec fn disable_sparse_checkout(dir: Option<PathBuf>) -> Script {
    run(CommandView::sparse_disable(dir), done())
}

/// The text of the description file at `reference`.
pub open spec fn get_description_file_content(
    path: PathBuf,
    reference: ReferenceView,
    directory: Option<PathBuf>,
) -> Script {
    Script::Git(
        CommandView::rev_parse(Some(path), reference.name()),
        |r: Answer|
            match r {
                Ok(oid) => checkout(
                    Some(path),
                    oid,
                    read_description(DescriptionFileView::below(path, directory)),
                ),
                Err(_) => fail(GitErrorView::no_reference()),
            },
    )
}

/// The text of a description file, where there is such a file.
pub open spec fn read_description(file: DescriptionFileView) -> Script {
    Script::Check(
        ConditionView::Exists(file),
        |exists: bool|
            if exists {
                read_file(file)
            } else {
                fail(GitErrorView::no_description())
            },
    )
}

pub open spec fn read_file(file: DescriptionFileView) -> Script {
    Script::Read(
        file,
        |r: Answer|
            match r {
                Ok(content) => Script::End(OutcomeView::Text(content)),
                Err(e) => fail(GitErrorView::Io(e)),
            },
    )
}

/// A new repository in the directory `path`, with `url` as its remote.
pub open spec fn init(path: PathBuf, url: Seq<char>) -> Script {
    Script::Check(
        ConditionView::IsDir(path),
        |is_dir: bool|
            if is_dir {
                init_in_place(path, url)
            } else {
                act(DirActionView::Create(path), init_in_place(path, url))
            },
    )
}

pub open spec fn init_in_place(path: PathBuf, url: Seq<char>) -> Script {
    run(
        CommandView::init(Some(path)),
        run(CommandView::remote_add(Some(path), url), done()),
    )
}

/// The repository at `path`. What is no repository is removed and made anew.
pub open spec fn open(path: PathBuf, url: Seq<char>) -> Script {
    Script::Git(
        CommandView::probe(Some(path)),
        |r: Answer|
            if r is Ok {
                done()
            } else {
                act(DirActionView::Remove(path), init(path, url))
            },
    )
}

/// The directory `path` removed, where it is there.
pub open spec fn rm_folder(path: PathBuf) -> Script {
    Script::Check(
        ConditionView::IsDir(path),
        |is_dir: bool|
            if is_dir {
                act(DirActionView::Remove(path), done())
            } else {
                done()
            },
    )
}

} // verus!
