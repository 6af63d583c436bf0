//! What a caller sees of each public function: the very words that git is given, the questions that are
//! asked, and what each reply comes to. A law on a function goes by what the function itself promises of
//! its result, and says in full what the runs of that result are.
use std::path::PathBuf;

use vstd::prelude::*;

use crate::command::{self, CommandView, EnvChange, EnvChangeView, GitCommand};
use crate::error::{GitError, GitErrorView, IoFailure, IoFailureView};
use crate::confinement;
use crate::laws;
use crate::operation::{self, ActStep, CheckStep, GitStep, Operation, PrintStep, ReadStep};
use crate::executor::GitExecutor;
use crate::reference::{self, GitReference, Oid, ReferenceView};
use crate::repository::{self, GitRepository};
use crate::request::{
    Condition, ConditionView, DescriptionFile, DescriptionFileView, DirAction, DirActionView,
    Outcome, OutcomeView,
};
use crate::script::{self, Script};
use crate::symref;
use crate::text;
use crate::trace::{self, Exchange, RequestView};

verus! {

/// A step that waits for git hands out, word for word, the arguments, the directory and the changes to
/// the environment that its script asks for. Nothing is added, left out or reordered.
pub proof fn law_command_is_handed_out(step: GitStep, command: GitCommand)
    requires
        call_ensures(GitStep::command, (&step,), command),
    ensures
        Operation::Git(step)@ matches Script::Git(asked, _) && {
            &&& command.args@.len() == asked.args.len()
            &&& forall|i: int|
                0 <= i < asked.args.len() ==> (#[trigger] command.args@[i])@ == asked.args[i]
            &&& match command.dir {
                Some(path) => asked.dir == Some(*path),
                None => asked.dir is None,
            }
            &&& command.env@.len() == asked.env.len()
            &&& forall|i: int|
                0 <= i < asked.env.len() ==> asked.env[i] == match #[trigger] command.env@[i] {
                    EnvChange::Assign(name, value) => EnvChangeView::Assign(name@, value@),
                    EnvChange::Remove(name) => EnvChangeView::Remove(name@),
                }
        },
{
}

/// A step that waits for git goes on as its script does for the very text, or failure, that came back.
pub proof fn law_reply_of_git_is_handed_in(
    step: GitStep,
    reply: Result<String, IoFailure>,
    op: Operation,
)
    requires
        call_ensures(GitStep::resume, (step, reply), op),
    ensures
        Operation::Git(step)@ matches Script::Git(_, rest) && op@ == rest(
            match reply {
                Ok(text) => Ok(text@),
                Err(e) => Err(IoFailureView { message: e.message@, source: e.source }),
            },
        ),
{
}

/// A step that waits for a file hands out the place of the file that its script asks for.
pub proof fn law_file_is_handed_out(step: ReadStep, file: DescriptionFile)
    requires
        call_ensures(ReadStep::file, (&step,), file),
    ensures
        Operation::Read(step)@ matches Script::Read(asked, _) && {
            &&& asked.root == *file.root
            &&& match file.directory {
                Some(directory) => asked.directory == Some(*directory),
                None => asked.directory is None,
            }
            &&& asked.name == file.name@
        },
{
}

/// A step that waits for a file goes on as its script does for the very text, or failure, that came
/// back.
pub proof fn law_reply_of_a_reading_is_handed_in(
    step: ReadStep,
    reply: Result<String, IoFailure>,
    op: Operation,
)
    requires
        call_ensures(ReadStep::resume, (step, reply), op),
    ensures
        Operation::Read(step)@ matches Script::Read(_, rest) && op@ == rest(
            match reply {
                Ok(text) => Ok(text@),
                Err(e) => Err(IoFailureView { message: e.message@, source: e.source }),
            },
        ),
{
}

/// A step that waits for a change to the file system hands out the change that its script asks for.
pub proof fn law_action_is_handed_out(step: ActStep, action: DirAction)
    requires
        call_ensures(ActStep::action, (&step,), action),
    ensures
        Operation::Act(step)@ matches Script::Act(asked, _) && asked == match action {
            DirAction::Create(path) => DirActionView::Create(*path),
            DirAction::Remove(path) => DirActionView::Remove(*path),
        },
{
}

/// A step that waits for a change to the file system goes on as its script does for what came back.
pub proof fn law_effect_is_handed_in(step: ActStep, reply: Result<(), IoFailure>, op: Operation)
    requires
        call_ensures(ActStep::resume, (step, reply), op),
    ensures
        Operation::Act(step)@ matches Script::Act(_, rest) && op@ == rest(
            match reply {
                Ok(_) => Ok(()),
                Err(e) => Err(IoFailureView { message: e.message@, source: e.source }),
            },
        ),
{
}

/// A step that waits for an answer hands out the question that its script asks.
pub proof fn law_question_is_handed_out(step: CheckStep, condition: Condition)
    requires
        call_ensures(CheckStep::condition, (&step,), condition),
    ensures
        Operation::Check(step)@ matches Script::Check(asked, _) && match condition {
            Condition::IsDir(path) => asked == ConditionView::IsDir(*path),
            Condition::Exists(file) => asked matches ConditionView::Exists(view) && {
                &&& view.root == *file.root
                &&& match file.directory {
                    Some(directory) => view.directory == Some(*directory),
                    None => view.directory is None,
                }
                &&& view.name == file.name@
            },
            Condition::SubmodulesDisabled => asked == ConditionView::SubmodulesDisabled,
        },
{
}

/// A step that waits for an answer goes on as its script does for that answer.
pub proof fn law_answer_is_handed_in(step: CheckStep, reply: bool, op: Operation)
    requires
        call_ensures(CheckStep::resume, (step, reply), op),
    ensures
        Operation::Check(step)@ matches Script::Check(_, rest) && op@ == rest(reply),
{
}

/// A step that waits for a line to be printed hands out the line of its script, and goes on as its
/// script does.
pub proof fn law_line_is_handed_out(step: PrintStep, line: String, op: Operation)
    ensures
        call_ensures(PrintStep::line, (&step,), line) ==> (Operation::Print(
            step,
        )@ matches Script::Print(asked, _) && asked == line@),
        call_ensures(PrintStep::resume, (step,), op) ==> (Operation::Print(
            step,
        )@ matches Script::Print(_, rest) && op@ == *rest),
{
}

/// An operation is finished where its script is over, and its outcome is the script's, with all that it
/// holds.
pub proof fn law_outcome_is_handed_out(op: Operation)
    ensures
        op@ matches Script::End(end) ==> (op matches Operation::Finished(outcome) && end
            == match outcome {
            Outcome::Done => OutcomeView::Done,
            Outcome::Oid(oid) => OutcomeView::Oid(oid@),
            Outcome::Missing => OutcomeView::Missing,
            Outcome::Text(text) => OutcomeView::Text(text@),
            Outcome::Failed(GitError::Io(e)) => OutcomeView::Failed(
                GitErrorView::Io(IoFailureView { message: e.message@, source: e.source }),
            ),
            Outcome::Failed(GitError::Other(message)) => OutcomeView::Failed(
                GitErrorView::Other(message@),
            ),
            Outcome::Failed(GitError::NotFound(message)) => OutcomeView::Failed(
                GitErrorView::NotFound(message@),
            ),
        }),
        op is Finished <==> op@ is End,
        op is Git <==> op@ is Git,
        op is Read <==> op@ is Read,
        op is Act <==> op@ is Act,
        op is Check <==> op@ is Check,
        op is Print <==> op@ is Print,
{
}

/// What a run is: each exchange is the one that the script asks for, what is left depends on what came
/// back, and the run is over where the script is.
pub proof fn law_runs(s: Script, trace: Seq<Exchange>, outcome: OutcomeView)
    ensures
        trace::runs(s, trace, outcome) <==> match s {
            Script::End(end) => trace.len() == 0 && end == outcome,
            Script::Git(asked, rest) => trace.len() > 0 && (trace[0] matches Exchange::Git(
                command,
                reply,
            ) && command == asked && trace::runs(rest(reply), trace.skip(1), outcome)),
            Script::Read(asked, rest) => trace.len() > 0 && (trace[0] matches Exchange::Read(
                file,
                reply,
            ) && file == asked && trace::runs(rest(reply), trace.skip(1), outcome)),
            Script::Act(asked, rest) => trace.len() > 0 && (trace[0] matches Exchange::Act(
                action,
                reply,
            ) && action == asked && trace::runs(rest(reply), trace.skip(1), outcome)),
            Script::Check(asked, rest) => trace.len() > 0 && (trace[0] matches Exchange::Check(
                condition,
                reply,
            ) && condition == asked && trace::runs(rest(reply), trace.skip(1), outcome)),
            Script::Print(asked, rest) => trace.len() > 0 && (trace[0] matches Exchange::Print(
                line,
            ) && line == asked && trace::runs(*rest, trace.skip(1), outcome)),
        },
{
    if trace.len() > 0 {
        assert(trace.drop_first() =~= trace.skip(1));
    }
}

/// The name of a reference is the very text that was given, of whatever kind it is.
pub proof fn law_reference_is_its_own_name(reference: &GitReference, name: &str)
    requires
        call_ensures(GitReference::reference, (reference,), name),
    ensures
        match *reference {
            GitReference::Branch(text) => name@ == text@,
            GitReference::Tag(text) => name@ == text@,
            GitReference::Commit(text) => name@ == text@,
            GitReference::Unknown(text) => name@ == text@,
        },
{
}

/// The name of an object is read back as it was given.
pub proof fn law_oid_is_read_back(sha: String, oid: Oid, name: &str)
    requires
        call_ensures(Oid::new, (sha,), oid),
        call_ensures(Oid::as_str, (&oid,), name),
    ensures
        name@ == sha@,
        oid@ == sha@,
{
}

/// An object goes by the name that it is shown by.
pub proof fn law_oid_is_its_name(oid: Oid, name: &str)
    requires
        call_ensures(Oid::as_str, (&oid,), name),
    ensures
        name@ == oid@,
{
}

/// A repository is in the directory that it was given.
pub proof fn law_repository_is_where_it_was_put(path: PathBuf, repo: GitRepository)
    requires
        call_ensures(GitRepository::new, (path,), repo),
    ensures
        repo.path == path,
{
}

/// The default branch of the repository at a URL is asked for by that URL, in the caller's directory. The
/// operation ends in the name that stands first in the output, or in failure: that of the command, or one
/// that shows the URL and the whole output.
pub proof fn law_default_branch_for_url(
    url: &str,
    op: Operation,
    trace: Seq<Exchange>,
    outcome: OutcomeView,
)
    requires
        call_ensures(repository::resolve_default_branch_for_url, (url,), op),
        trace::runs(op@, trace, outcome),
    ensures
        trace.len() == 1,
        trace[0] matches Exchange::Git(command, reply) && {
            &&& command.args == seq!["ls-remote"@, "--symref"@, url@, "HEAD"@]
            &&& command.dir is None
            &&& command.env.len() == 0
            &&& match reply {
                Ok(output) => match outcome {
                    OutcomeView::Text(branch) => exists|p: int, a: int, b: int| #[trigger]
                        symref::branch_at(output, p, a, b) && branch == output.subrange(a, b)
                            && forall|q: int, c: int, d: int| #[trigger]
                            symref::branch_at(output, q, c, d) ==> p <= q,
                    _ => outcome == OutcomeView::Failed(
                        GitErrorView::Other(
                            "Could not determine default branch for `"@ + url@
                                + "` from `git ls-remote --symref` output:\n"@ + output,
                        ),
                    ) && forall|p: int, a: int, b: int|
                        !(#[trigger] symref::branch_at(output, p, a, b)),
                },
                Err(e) => outcome == OutcomeView::Failed(GitErrorView::Io(e)),
            }
        },
{
    laws::lemma_first(op@, trace, outcome);
    laws::lemma_over(trace::after(op@, trace[0])->0, trace.skip(1), outcome);
    if let Ok(output) = trace[0]->Git_1 {
        symref::law_default_branch_is_where_it_stands(output);
    }
}

/// The default branch of a repository is asked for by its remote `origin`, in its own directory.
pub proof fn law_default_branch_in_repo(
    path: &PathBuf,
    op: Operation,
    trace: Seq<Exchange>,
    outcome: OutcomeView,
)
    requires
        call_ensures(repository::resolve_default_branch_in_repo, (path,), op),
        trace::runs(op@, trace, outcome),
    ensures
        trace.len() == 1,
        trace[0] matches Exchange::Git(command, reply) && {
            &&& command.args == seq!["ls-remote"@, "--symref"@, "origin"@, "HEAD"@]
            &&& command.dir == Some(*path)
            &&& command.env.len() == 0
            &&& match reply {
                Ok(output) => match outcome {
                    OutcomeView::Text(branch) => exists|p: int, a: int, b: int| #[trigger]
                        symref::branch_at(output, p, a, b) && branch == output.subrange(a, b)
                            && forall|q: int, c: int, d: int| #[trigger]
                            symref::branch_at(output, q, c, d) ==> p <= q,
                    _ => outcome == OutcomeView::Failed(
                        GitErrorView::Other(
                            "Could not determine default branch for `"@ + "origin"@
                                + "` from `git ls-remote --symref` output:\n"@ + output,
                        ),
                    ) && forall|p: int, a: int, b: int|
                        !(#[trigger] symref::branch_at(output, p, a, b)),
                },
                Err(e) => outcome == OutcomeView::Failed(GitErrorView::Io(e)),
            }
        },
{
    laws::lemma_first(op@, trace, outcome);
    laws::lemma_over(trace::after(op@, trace[0])->0, trace.skip(1), outcome);
    if let Ok(output) = trace[0]->Git_1 {
        symref::law_default_branch_is_where_it_stands(output);
    }
}

/// A branch or tag is looked up as the commit that it leads to, and a full hash as itself. What git
/// prints is the commit. Where git fails, the failure names the reference as it was given.
pub proof fn law_rev_parse(
    repo: &GitRepository,
    reference: &str,
    op: Operation,
    trace: Seq<Exchange>,
    outcome: OutcomeView,
)
    requires
        call_ensures(GitRepository::rev_parse, (repo, reference), op),
        trace::runs(op@, trace, outcome),
    ensures
        ({
            let name = reference@;
            let is_hash = (name.len() == 40 || name.len() == 64) && forall|i: int|
                0 <= i < name.len() ==> ('0' <= #[trigger] name[i] <= '9' || 'a' <= name[i] <= 'f'
                    || 'A' <= name[i] <= 'F');
            &&& trace.len() == 1
            &&& trace[0] matches Exchange::Git(command, reply) && {
                &&& is_hash ==> command.args == seq!["rev-parse"@, name]
                &&& !is_hash ==> command.args == seq!["rev-parse"@, name + "^{commit}"@]
                &&& command.dir == Some(repo.path)
                &&& command.env.len() == 0
                &&& outcome == match reply {
                    Ok(oid) => OutcomeView::Oid(oid),
                    Err(_) => OutcomeView::Failed(
                        GitErrorView::Other("Reference "@ + name + " not found"@),
                    ),
                }
            }
        }),
{
    laws::lemma_first(op@, trace, outcome);
    laws::lemma_over(trace::after(op@, trace[0])->0, trace.skip(1), outcome);
}

/// The two ways to look a reference up ask for the same command and find the same commit. The one ends
/// in nothing where the other fails.
pub proof fn law_ref_as_oid(
    repo: &GitRepository,
    reference: &str,
    op: Operation,
    other: Operation,
    trace: Seq<Exchange>,
    outcome: OutcomeView,
)
    requires
        call_ensures(GitRepository::ref_as_oid, (repo, reference), op),
        call_ensures(GitRepository::rev_parse, (repo, reference), other),
        trace::runs(op@, trace, outcome),
    ensures
        trace.len() == 1,
        trace[0] matches Exchange::Git(command, reply) && {
            &&& other@ matches Script::Git(asked, _) && asked == command
            &&& match reply {
                Ok(oid) => outcome == OutcomeView::Oid(oid) && trace::runs(other@, trace, outcome),
                Err(_) => outcome == OutcomeView::Missing,
            }
        },
{
    laws::lemma_first(op@, trace, outcome);
    laws::lemma_over(trace::after(op@, trace[0])->0, trace.skip(1), outcome);
    if trace[0]->Git_1 is Ok {
        assert(trace.drop_first() =~= trace.skip(1));
    }
}

/// All files are brought back by one command, and the operation fails as that does.
pub proof fn law_disable_sparse_checkout(
    repo: &GitRepository,
    op: Operation,
    trace: Seq<Exchange>,
    outcome: OutcomeView,
)
    requires
        call_ensures(GitRepository::disable_sparse_checkout, (repo,), op),
        trace::runs(op@, trace, outcome),
    ensures
        trace.len() == 1,
        trace[0] matches Exchange::Git(command, reply) && {
            &&& command.args == seq!["sparse-checkout"@, "disable"@]
            &&& command.dir == Some(repo.path)
            &&& command.env.len() == 0
            &&& outcome == match reply {
                Ok(_) => OutcomeView::Done,
                Err(e) => OutcomeView::Failed(GitErrorView::Io(e)),
            }
        },
{
    laws::lemma_first(op@, trace, outcome);
    laws::lemma_over(trace::after(op@, trace[0])->0, trace.skip(1), outcome);
}

/// The repository's directory, and no other, is looked for and removed where it is there.
pub proof fn law_rm_folder(
    repo: &GitRepository,
    op: Operation,
    trace: Seq<Exchange>,
    outcome: OutcomeView,
)
    requires
        call_ensures(GitRepository::rm_folder, (repo,), op),
        trace::runs(op@, trace, outcome),
    ensures
        trace.len() >= 1,
        trace[0] matches Exchange::Check(condition, is_dir) && {
            &&& condition == ConditionView::IsDir(repo.path)
            &&& !is_dir ==> trace.len() == 1 && outcome == OutcomeView::Done
            &&& is_dir ==> trace.len() == 2 && (trace[1] matches Exchange::Act(action, reply)
                && action == DirActionView::Remove(repo.path) && outcome == match reply {
                Ok(_) => OutcomeView::Done,
                Err(e) => OutcomeView::Failed(GitErrorView::Io(e)),
            })
        },
{
    laws::lemma_first(op@, trace, outcome);
    let rest = trace::after(op@, trace[0])->0;
    if trace[0]->Check_1 {
        laws::lemma_first(rest, trace.skip(1), outcome);
        laws::lemma_over(trace::after(rest, trace[1])->0, trace.skip(1).skip(1), outcome);
    } else {
        laws::lemma_over(rest, trace.skip(1), outcome);
    }
}

/// An initialization creates the directory where it is not there, makes the repository in it, and gives
/// it the very `url` as its remote `origin`. The first of these to fail ends it, in its own failure.
pub proof fn law_init(
    path: &PathBuf,
    url: &str,
    op: Operation,
    trace: Seq<Exchange>,
    outcome: OutcomeView,
)
    requires
        call_ensures(GitRepository::init, (path, url), op),
        trace::runs(op@, trace, outcome),
    ensures
        trace.len() >= 1,
        trace[0] matches Exchange::Check(condition, is_dir) && {
            let k = if is_dir {
                1int
            } else {
                2
            };
            &&& condition == ConditionView::IsDir(*path)
            &&& !is_dir ==> trace.len() >= 2 && (trace[1] matches Exchange::Act(action, reply)
                && action == DirActionView::Create(*path) && (reply matches Err(e) ==> trace.len()
                == 2 && outcome == OutcomeView::Failed(GitErrorView::Io(e))))
            &&& is_dir || trace[1]->Act_1 is Ok ==> trace.len() > k && (
            trace[k] matches Exchange::Git(command, reply) && {
                &&& command.args == seq!["init"@]
                &&& command.dir == Some(*path)
                &&& command.env.len() == 0
                &&& reply matches Err(e) ==> trace.len() == k + 1 && outcome
                    == OutcomeView::Failed(GitErrorView::Io(e))
                &&& reply is Ok ==> trace.len() == k + 2 && (
                trace[k + 1] matches Exchange::Git(command, reply) && {
                    &&& command.args == seq!["remote"@, "add"@, "origin"@, url@]
                    &&& command.dir == Some(*path)
                    &&& command.env.len() == 0
                    &&& outcome == match reply {
                        Ok(_) => OutcomeView::Done,
                        Err(e) => OutcomeView::Failed(GitErrorView::Io(e)),
                    }
                })
            })
        },
{
    laws::law_init_stops_at_a_failure(*path, url@, trace, outcome);
    let steps = laws::init_steps(*path, url@, trace[0]->Check_1);
    let k = if trace[0]->Check_1 {
        1int
    } else {
        2
    };
    assert(trace[0].request() == steps[0]);
    if trace.len() > 1 {
        assert(trace[1].request() == steps[1]);
        assert(trace[0].failure() is None);
    }
    if trace.len() > 2 {
        assert(trace[2].request() == steps[2]);
        assert(trace[1].failure() is None);
    }
    if trace.len() > 3 {
        assert(trace[3].request() == steps[3]);
        assert(trace[2].failure() is None);
    }
}

/// What is a repository is opened as it is. What is none is removed, and then opening it goes on as
/// initializing it does.
pub proof fn law_open(
    path: &PathBuf,
    url: &str,
    op: Operation,
    init: Operation,
    trace: Seq<Exchange>,
    outcome: OutcomeView,
)
    requires
        call_ensures(GitRepository::open, (path, url), op),
        call_ensures(GitRepository::init, (path, url), init),
        trace::runs(op@, trace, outcome),
    ensures
        trace.len() >= 1,
        trace[0] matches Exchange::Git(command, reply) && {
            &&& command.args == seq!["rev-parse"@]
            &&& command.dir == Some(*path)
            &&& command.env.len() == 0
            &&& reply is Ok ==> trace.len() == 1 && outcome == OutcomeView::Done
            &&& reply is Err ==> trace.len() >= 2 && (trace[1] matches Exchange::Act(action, reply)
                && action == DirActionView::Remove(*path) && match reply {
                Ok(_) => trace::runs(init@, trace.skip(2), outcome),
                Err(e) => trace.len() == 2 && outcome == OutcomeView::Failed(GitErrorView::Io(e)),
            })
        },
{
    laws::lemma_first(op@, trace, outcome);
    let rest = trace::after(op@, trace[0])->0;
    if trace[0]->Git_1 is Ok {
        laws::lemma_over(rest, trace.skip(1), outcome);
    } else {
        laws::lemma_first(rest, trace.skip(1), outcome);
        assert(trace.skip(1).skip(1) =~= trace.skip(2));
        if trace[1]->Act_1 is Err {
            laws::lemma_over(trace::after(rest, trace[1])->0, trace.skip(2), outcome);
        }
    }
}

/// A checkout of a commit does nothing where `HEAD` is at it. Else it checks out that very commit, and
/// updates the submodules unless that is switched off. What fails ends it, with a message that names the
/// commit, or the submodules.
pub proof fn law_checkout(
    repo: &GitRepository,
    oid: &Oid,
    op: Operation,
    trace: Seq<Exchange>,
    outcome: OutcomeView,
)
    requires
        call_ensures(GitRepository::checkout, (repo, oid), op),
        trace::runs(op@, trace, outcome),
    ensures
        trace.len() >= 1,
        trace[0] matches Exchange::Git(command, reply) && {
            &&& command.args == seq!["rev-parse"@, "HEAD"@]
            &&& command.dir == Some(repo.path)
            &&& command.env.len() == 0
            &&& if reply matches Ok(head) && head == oid@ {
                trace.len() == 1 && outcome == OutcomeView::Done
            } else {
                trace.len() >= 2 && (trace[1] matches Exchange::Git(command, reply) && {
                    &&& command.args == seq!["checkout"@, oid@]
                    &&& command.dir == Some(repo.path)
                    &&& command.env.len() == 0
                    &&& reply matches Err(e) ==> trace.len() == 2 && outcome
                        == OutcomeView::Failed(
                        GitErrorView::Other("Failed to checkout `"@ + oid@ + "`: "@ + e.message),
                    )
                    &&& reply is Ok ==> trace.len() >= 3 && (trace[2] matches Exchange::Check(
                        condition,
                        disabled,
                    ) && {
                        &&& condition == ConditionView::SubmodulesDisabled
                        &&& disabled ==> trace.len() == 3 && outcome == OutcomeView::Done
                        &&& !disabled ==> trace.len() == 4 && (trace[3] matches Exchange::Git(
                            command,
                            reply,
                        ) && {
                            &&& command.args == seq![
                                "submodule"@,
                                "update"@,
                                "--init"@,
                                "--recursive"@,
                            ]
                            &&& command.dir == Some(repo.path)
                            &&& command.env.len() == 0
                            &&& outcome == match reply {
                                Ok(_) => OutcomeView::Done,
                                Err(e) => OutcomeView::Failed(
                                    GitErrorView::Other(
                                        "Failed to update submodules: "@ + e.message,
                                    ),
                                ),
                            }
                        })
                    })
                })
            }
        },
{
    laws::law_checkout_ends(Some(repo.path), oid@, trace, outcome);
}

/// A checkout of a branch, whatever its name, puts the local branch of that name where `origin` has it,
/// and updates the submodules unless that is switched off. What fails ends it, with a message that names
/// the branch, or the submodules.
pub proof fn law_checkout_branch(
    repo: &GitRepository,
    branch: &str,
    op: Operation,
    trace: Seq<Exchange>,
    outcome: OutcomeView,
)
    requires
        call_ensures(GitRepository::checkout_branch, (repo, branch), op),
        trace::runs(op@, trace, outcome),
    ensures
        trace.len() >= 1,
        trace[0] matches Exchange::Git(command, reply) && {
            &&& command.args == seq!["checkout"@, "-B"@, branch@, "origin/"@ + branch@]
            &&& command.dir == Some(repo.path)
            &&& command.env.len() == 0
            &&& reply matches Err(e) ==> trace.len() == 1 && outcome == OutcomeView::Failed(
                GitErrorView::Other("Failed to checkout branch `"@ + branch@ + "`: "@ + e.message),
            )
            &&& reply is Ok ==> trace.len() >= 2 && (trace[1] matches Exchange::Check(
                condition,
                disabled,
            ) && {
                &&& condition == ConditionView::SubmodulesDisabled
                &&& disabled ==> trace.len() == 2 && outcome == OutcomeView::Done
                &&& !disabled ==> trace.len() == 3 && (trace[2] matches Exchange::Git(
                    command,
                    reply,
                ) && {
                    &&& command.args == seq!["submodule"@, "update"@, "--init"@, "--recursive"@]
                    &&& command.dir == Some(repo.path)
                    &&& command.env.len() == 0
                    &&& outcome == match reply {
                        Ok(_) => OutcomeView::Done,
                        Err(e) => OutcomeView::Failed(
                            GitErrorView::Other("Failed to update submodules: "@ + e.message),
                        ),
                    }
                })
            })
        },
{
    laws::law_checkout_branch_ends(Some(repo.path), branch@, trace, outcome);
}

/// The description is read at the very reference that was given, of whatever kind it is: git is asked for
/// that name, what it prints is checked out, and then the file `DESCRIPTION` is looked for and read, in
/// the directory that was given below the repository. What fails ends it, in its own failure.
pub proof fn law_get_description_file_content(
    repo: &GitRepository,
    reference: &GitReference,
    directory: Option<&PathBuf>,
    op: Operation,
    trace: Seq<Exchange>,
    outcome: OutcomeView,
)
    requires
        call_ensures(
            GitRepository::get_description_file_content,
            (repo, reference, directory),
            op,
        ),
        trace::runs(op@, trace, outcome),
    ensures
        ({
            let dir = Some(repo.path);
            let n = trace.len();
            let name = match *reference {
                GitReference::Branch(text) => text@,
                GitReference::Tag(text) => text@,
                GitReference::Commit(text) => text@,
                GitReference::Unknown(text) => text@,
            };
            let file = DescriptionFileView {
                root: repo.path,
                directory: match directory {
                    Some(path) => Some(*path),
                    None => None,
                },
                name: "DESCRIPTION"@,
            };
            &&& n >= 1
            &&& trace[0] is Git
            &&& trace[0]->Git_0 == CommandView {
                args: seq!["rev-parse"@, name],
                dir,
                env: Seq::empty(),
            }
            &&& trace[0]->Git_1 is Err ==> n == 1 && outcome == OutcomeView::Failed(
                GitErrorView::NotFound("Not found"@),
            )
            &&& trace[0]->Git_1 matches Ok(oid) ==> {
                let at_head = trace[1]->Git_1 matches Ok(head) && head == oid;
                let checked_out = trace[2]->Git_1 is Ok;
                let disabled = trace[3]->Check_1;
                let updated = trace[4]->Git_1 is Ok;
                let m = if at_head {
                    2int
                } else if disabled {
                    4
                } else {
                    5
                };
                &&& n >= 2
                &&& trace[1] is Git
                &&& trace[1]->Git_0 == CommandView {
                    args: seq!["rev-parse"@, "HEAD"@],
                    dir,
                    env: Seq::empty(),
                }
                &&& !at_head ==> {
                    &&& n >= 3
                    &&& trace[2] is Git
                    &&& trace[2]->Git_0 == CommandView {
                        args: seq!["checkout"@, oid],
                        dir,
                        env: Seq::empty(),
                    }
                    &&& trace[2]->Git_1 matches Err(e) ==> n == 3 && outcome
                        == OutcomeView::Failed(
                        GitErrorView::Other("Failed to checkout `"@ + oid + "`: "@ + e.message),
                    )
                    &&& checked_out ==> {
                        &&& n >= 4
                        &&& trace[3] is Check
                        &&& trace[3]->Check_0 == ConditionView::SubmodulesDisabled
                        &&& !disabled ==> {
                            &&& n >= 5
                            &&& trace[4] is Git
                            &&& trace[4]->Git_0 == CommandView {
                                args: seq!["submodule"@, "update"@, "--init"@, "--recursive"@],
                                dir,
                                env: Seq::empty(),
                            }
                            &&& trace[4]->Git_1 matches Err(e) ==> n == 5 && outcome
                                == OutcomeView::Failed(
                                GitErrorView::Other("Failed to update submodules: "@ + e.message),
                            )
                        }
                    }
                }
                &&& at_head || checked_out && (disabled || updated) ==> {
                    &&& n > m
                    &&& trace[m] is Check
                    &&& trace[m]->Check_0 == ConditionView::Exists(file)
                    &&& !trace[m]->Check_1 ==> n == m + 1 && outcome == OutcomeView::Failed(
                        GitErrorView::NotFound("DESCRIPTION file not found"@),
                    )
                    &&& trace[m]->Check_1 ==> {
                        &&& n == m + 2
                        &&& trace[m + 1] is Read
                        &&& trace[m + 1]->Read_0 == file
                        &&& outcome == match trace[m + 1]->Read_1 {
                            Ok(content) => OutcomeView::Text(content),
                            Err(e) => OutcomeView::Failed(GitErrorView::Io(e)),
                        }
                    }
                }
            }
        }),
{
    laws::lemma_first(op@, trace, outcome);
    let rest = trace::after(op@, trace[0])->0;
    let path = repo.path;
    let file = DescriptionFileView::below(path, command::place(directory));
    let read = script::read_description(file);
    match trace[0]->Git_1 {
        Ok(oid) => {
            let m = lemma_checkout_by_steps(Some(path), oid, read, trace, 1, outcome);
            if m >= 0 {
                laws::lemma_first(read, trace.skip(m), outcome);
                let found = trace::after(read, trace[m])->0;
                assert(trace.skip(m).skip(1) =~= trace.skip(m + 1));
                if trace[m]->Check_1 {
                    laws::lemma_first(found, trace.skip(m + 1), outcome);
                    let last = trace::after(found, trace[m + 1])->0;
                    laws::lemma_over(last, trace.skip(m + 1).skip(1), outcome);
                } else {
                    laws::lemma_over(found, trace.skip(m + 1), outcome);
                }
            }
        },
        Err(_) => {
            laws::lemma_over(rest, trace.skip(1), outcome);
        },
    }
}

/// How the checkout of a commit goes that begins at `k`, up to where `next` begins, or to a failure.
proof fn lemma_checkout_by_steps(
    dir: Option<PathBuf>,
    oid: Seq<char>,
    next: Script,
    trace: Seq<Exchange>,
    k: int,
    outcome: OutcomeView,
) -> (m: int)
    requires
        0 <= k <= trace.len(),
        trace::runs(script::checkout(dir, oid, next), trace.skip(k), outcome),
    ensures
        ({
            let n = trace.len();
            let at_head = trace[k]->Git_1 matches Ok(head) && head == oid;
            let checked_out = trace[k + 1]->Git_1 is Ok;
            let disabled = trace[k + 2]->Check_1;
            let updated = trace[k + 3]->Git_1 is Ok;
            &&& n > k
            &&& trace[k].request() == RequestView::Git(CommandView::rev_parse(dir, "HEAD"@))
            &&& !at_head ==> {
                &&& n > k + 1
                &&& trace[k + 1].request() == RequestView::Git(CommandView::checkout(dir, oid))
                &&& trace[k + 1]->Git_1 matches Err(e) ==> n == k + 2 && outcome
                    == OutcomeView::Failed(GitErrorView::checkout(oid, e))
                &&& checked_out ==> {
                    &&& n > k + 2
                    &&& trace[k + 2].request() == RequestView::Check(
                        ConditionView::SubmodulesDisabled,
                    )
                    &&& !disabled ==> {
                        &&& n > k + 3
                        &&& trace[k + 3].request() == RequestView::Git(
                            CommandView::submodule_update(dir),
                        )
                        &&& trace[k + 3]->Git_1 matches Err(e) ==> n == k + 4 && outcome
                            == OutcomeView::Failed(GitErrorView::submodules(e))
                    }
                }
            }
            &&& if at_head {
                m == k + 1
            } else if checked_out && disabled {
                m == k + 3
            } else if checked_out && updated {
                m == k + 4
            } else {
                m == -1
            }
            &&& m >= 0 ==> m <= n && trace::runs(next, trace.skip(m), outcome)
        }),
{
    let s = script::checkout(dir, oid, next);
    laws::lemma_first(s, trace.skip(k), outcome);
    let rest = trace::after(s, trace[k])->0;
    assert(trace.skip(k).skip(1) =~= trace.skip(k + 1));
    if trace[k]->Git_1 matches Ok(head) && head == oid {
        k + 1
    } else {
        laws::lemma_first(rest, trace.skip(k + 1), outcome);
        let then = trace::after(rest, trace[k + 1])->0;
        assert(trace.skip(k + 1).skip(1) =~= trace.skip(k + 2));
        if trace[k + 1]->Git_1 is Ok {
            lemma_submodules_by_steps(dir, next, trace, k + 2, outcome)
        } else {
            laws::lemma_over(then, trace.skip(k + 2), outcome);
            -1
        }
    }
}

/// How the update of the submodules goes that begins at `k`, up to where `next` begins, or to a failure.
proof fn lemma_submodules_by_steps(
    dir: Option<PathBuf>,
    next: Script,
    trace: Seq<Exchange>,
    k: int,
    outcome: OutcomeView,
) -> (m: int)
    requires
        0 <= k <= trace.len(),
        trace::runs(script::update_submodules(dir, next), trace.skip(k), outcome),
    ensures
        ({
            let n = trace.len();
            let disabled = trace[k]->Check_1;
            let updated = trace[k + 1]->Git_1 is Ok;
            &&& n > k
            &&& trace[k].request() == RequestView::Check(ConditionView::SubmodulesDisabled)
            &&& !disabled ==> {
                &&& n > k + 1
                &&& trace[k + 1].request() == RequestView::Git(CommandView::submodule_update(dir))
                &&& trace[k + 1]->Git_1 matches Err(e) ==> n == k + 2 && outcome
                    == OutcomeView::Failed(GitErrorView::submodules(e))
            }
            &&& if disabled {
                m == k + 1
            } else if updated {
                m == k + 2
            } else {
                m == -1
            }
            &&& m >= 0 ==> m <= n && trace::runs(next, trace.skip(m), outcome)
        }),
{
    let s = script::update_submodules(dir, next);
    laws::lemma_first(s, trace.skip(k), outcome);
    let rest = trace::after(s, trace[k])->0;
    assert(trace.skip(k).skip(1) =~= trace.skip(k + 1));
    if trace[k]->Check_1 {
        k + 1
    } else {
        laws::lemma_first(rest, trace.skip(k + 1), outcome);
        assert(trace.skip(k + 1).skip(1) =~= trace.skip(k + 2));
        if trace[k + 1]->Git_1 is Ok {
            k + 2
        } else {
            laws::lemma_over(trace::after(rest, trace[k + 1])->0, trace.skip(k + 2), outcome);
            -1
        }
    }
}

/// The first `k` refspecs were tried, in order and in vain, from `l` on, and the user was told of each.
/// None of the commands prompts, and each works on the repository of its directory.
pub open spec fn tried_in_vain(
    dir: Option<PathBuf>,
    url: Seq<char>,
    refspecs: Seq<Seq<char>>,
    trace: Seq<Exchange>,
    l: int,
    k: int,
) -> bool {
    forall|i: int|
        0 <= i < k ==> {
            let refspec = #[trigger] refspecs[i];
            &&& trace[l + 2 * i] is Git
            &&& trace[l + 2 * i]->Git_1 is Err
            &&& trace[l + 2 * i]->Git_0 == CommandView {
                args: seq!["fetch"@, "--tags"@, "--force"@, "--update-head-ok"@, url, refspec],
                dir,
                env: seq![
                    EnvChangeView::Assign("GIT_TERMINAL_PROMPT"@, "0"@),
                    EnvChangeView::Remove("GIT_DIR"@),
                ],
            }
            &&& trace[l + 2 * i + 1] == Exchange::Print("Failed to fetch "@ + refspec)
        }
}

/// A fetch of a commit asks git for that very commit, and then whether the local store holds the object
/// that git named: a name alone, be it a full hash, says nothing of that. What the store holds is not
/// fetched. What it does not hold, or git cannot name, is.
pub proof fn law_fetch_of_a_commit(
    repo: &GitRepository,
    url: &str,
    reference: &GitReference,
    refspecs: Vec<String>,
    op: Operation,
    trace: Seq<Exchange>,
    outcome: OutcomeView,
)
    requires
        call_ensures(GitRepository::fetch, (repo, url, reference, refspecs), op),
        refspecs@.len() > 0,
        trace::runs(op@, trace, outcome),
    ensures
        *reference matches GitReference::Commit(commit) ==> {
            let dir = Some(repo.path);
            let fetch = (CommandView {
                args: seq![
                    "fetch"@,
                    "--tags"@,
                    "--force"@,
                    "--update-head-ok"@,
                    url@,
                    refspecs@[0]@,
                ],
                dir,
                env: seq![
                    EnvChangeView::Assign("GIT_TERMINAL_PROMPT"@, "0"@),
                    EnvChangeView::Remove("GIT_DIR"@),
                ],
            });
            &&& trace.len() >= 2
            &&& trace[0] is Git
            &&& trace[0]->Git_0 == (CommandView {
                args: seq!["rev-parse"@, commit@],
                dir,
                env: Seq::empty(),
            })
            &&& trace[1] is Git
            &&& trace[0]->Git_1 is Err ==> trace[1]->Git_0 == fetch
            &&& trace[0]->Git_1 matches Ok(oid) ==> {
                &&& trace[1]->Git_0 == (CommandView {
                    args: seq!["cat-file"@, "-e"@, oid],
                    dir,
                    env: Seq::empty(),
                })
                &&& trace[1]->Git_1 is Ok ==> trace.len() == 2 && outcome == OutcomeView::Done
                &&& trace[1]->Git_1 is Err ==> trace.len() >= 3 && trace[2] is Git
                    && trace[2]->Git_0 == fetch
            }
        },
{
    let dir = Some(repo.path);
    let specs = operation::texts(refspecs@);
    assert(specs[0] == refspecs@[0]@);
    if let GitReference::Commit(commit) = *reference {
        laws::lemma_first(op@, trace, outcome);
        let rest = trace::after(op@, trace[0])->0;
        laws::lemma_first(rest, trace.skip(1), outcome);
        assert(trace.skip(1).skip(1) =~= trace.skip(2));
        if let Ok(oid) = trace[0]->Git_1 {
            let last = trace::after(rest, trace[1])->0;
            if trace[1]->Git_1 is Ok {
                laws::lemma_over(last, trace.skip(2), outcome);
            } else {
                laws::lemma_first(last, trace.skip(2), outcome);
            }
        }
    }
}

/// From where the lookup of a commit was in vain, and from the beginning for all else, the refspecs are
/// tried in order, each by the very text that was given, up to the first that git can fetch. Where git
/// can fetch none of several, the failure is that of the last. A lone one fails without a line printed.
pub proof fn law_fetch_tries_the_refspecs(
    repo: &GitRepository,
    url: &str,
    reference: &GitReference,
    refspecs: Vec<String>,
    op: Operation,
    trace: Seq<Exchange>,
    outcome: OutcomeView,
    specs: Seq<Seq<char>>,
    dir: Option<PathBuf>,
    l: int,
)
    requires
        call_ensures(GitRepository::fetch, (repo, url, reference, refspecs), op),
        refspecs@.len() > 0,
        trace::runs(op@, trace, outcome),
        specs.len() == refspecs@.len(),
        forall|i: int| 0 <= i < specs.len() ==> #[trigger] specs[i] == refspecs@[i]@,
        dir == Some(repo.path),
        match *reference {
            GitReference::Commit(_) => if trace[0]->Git_1 is Ok {
                l == 2 && trace[1]->Git_1 is Err
            } else {
                l == 1
            },
            _ => l == 0,
        },
    ensures
        exists|k: int|
            0 <= k <= specs.len() && #[trigger] tried_in_vain(dir, url@, specs, trace, l, k) && if k
                == specs.len() {
                &&& k > 1
                &&& trace.len() == l + 2 * k
                &&& trace[l + 2 * k - 2]->Git_1 matches Err(e) && outcome == OutcomeView::Failed(
                    GitErrorView::Io(e),
                )
            } else {
                &&& trace.len() > l + 2 * k
                &&& trace[l + 2 * k] is Git
                &&& trace[l + 2 * k]->Git_0 == (CommandView {
                    args: seq![
                        "fetch"@,
                        "--tags"@,
                        "--force"@,
                        "--update-head-ok"@,
                        url@,
                        specs[k],
                    ],
                    dir,
                    env: seq![
                        EnvChangeView::Assign("GIT_TERMINAL_PROMPT"@, "0"@),
                        EnvChangeView::Remove("GIT_DIR"@),
                    ],
                })
                &&& trace[l + 2 * k]->Git_1 matches Err(e) ==> specs.len() == 1 && trace.len() == l
                    + 1 && outcome == OutcomeView::Failed(GitErrorView::Io(e))
            },
{
    assert(operation::texts(refspecs@) =~= specs);
    let (_, k) = lemma_attempts(dir, url@, reference@, specs, trace, outcome);
    assert(tried_in_vain(dir, url@, specs, trace, l, k));
}

/// Where the refspecs are tried, and how far: the place of the first, and how many were tried in vain.
proof fn lemma_attempts(
    dir: Option<PathBuf>,
    url: Seq<char>,
    reference: ReferenceView,
    refspecs: Seq<Seq<char>>,
    trace: Seq<Exchange>,
    outcome: OutcomeView,
) -> (r: (int, int))
    requires
        refspecs.len() > 0,
        trace::runs(script::fetch(dir, url, reference, refspecs), trace, outcome),
    ensures
        ({
            let n = refspecs.len() as int;
            let (l, k) = r;
            let named = trace[0]->Git_1 is Ok;
            &&& l == (if reference is Commit && named {
                2int
            } else if reference is Commit {
                1
            } else {
                0
            })
            &&& reference is Commit ==> trace.len() > 0 && trace[0].request() == RequestView::Git(
                CommandView::rev_parse(dir, reference.name()),
            )
            &&& reference is Commit && named ==> trace.len() > 1 && trace[1].request()
                == RequestView::Git(CommandView::cat_file(dir, trace[0]->Git_1->Ok_0))
            &&& if reference is Commit && named && trace[1]->Git_1 is Ok {
                trace.len() == 2 && k == -1
            } else {
                &&& 0 <= k <= n
                &&& l + 2 * k <= trace.len()
                &&& tried_in_vain(dir, url, refspecs, trace, l, k)
                &&& k == n ==> n > 1 && trace.len() == l + 2 * n && (
                trace[l + 2 * n - 2]->Git_1 matches Err(e) && outcome == OutcomeView::Failed(
                    GitErrorView::Io(e),
                ))
                &&& k < n ==> {
                    &&& trace.len() > l + 2 * k
                    &&& trace[l + 2 * k].request() == RequestView::Git(
                        CommandView::fetch(dir, url, refspecs[k]),
                    )
                    &&& trace[l + 2 * k]->Git_1 matches Err(e) ==> n == 1 && k == 0 && trace.len()
                        == l + 1 && outcome == OutcomeView::Failed(GitErrorView::Io(e))
                    &&& trace[l + 2 * k]->Git_1 is Ok ==> trace::runs(
                        script::settle(dir, reference),
                        trace.skip(l + 2 * k + 1),
                        outcome,
                    )
                }
            }
        }),
{
    let s = script::fetch(dir, url, reference, refspecs);
    if reference is Commit {
        laws::lemma_first(s, trace, outcome);
        let rest = trace::after(s, trace[0])->0;
        if trace[0]->Git_1 is Ok {
            laws::lemma_first(rest, trace.skip(1), outcome);
            assert(trace.skip(1).skip(1) =~= trace.skip(2));
            if trace[1]->Git_1 is Ok {
                laws::lemma_over(script::done(), trace.skip(2), outcome);
                (2, -1)
            } else {
                (2, lemma_refspecs(dir, url, reference, refspecs, trace, 2, outcome))
            }
        } else {
            (1, lemma_refspecs(dir, url, reference, refspecs, trace, 1, outcome))
        }
    } else {
        assert(trace.skip(0) =~= trace);
        (0, lemma_refspecs(dir, url, reference, refspecs, trace, 0, outcome))
    }
}

proof fn lemma_refspecs(
    dir: Option<PathBuf>,
    url: Seq<char>,
    reference: ReferenceView,
    refspecs: Seq<Seq<char>>,
    trace: Seq<Exchange>,
    l: int,
    outcome: OutcomeView,
) -> (k: int)
    requires
        refspecs.len() > 0,
        0 <= l <= trace.len(),
        trace::runs(
            script::fetch_refspecs(dir, url, reference, refspecs),
            trace.skip(l),
            outcome,
        ),
    ensures
        ({
            let n = refspecs.len() as int;
            &&& 0 <= k <= n
            &&& l + 2 * k <= trace.len()
            &&& tried_in_vain(dir, url, refspecs, trace, l, k)
            &&& k == n ==> n > 1 && trace.len() == l + 2 * n && (
            trace[l + 2 * n - 2]->Git_1 matches Err(e) && outcome == OutcomeView::Failed(
                GitErrorView::Io(e),
            ))
            &&& k < n ==> {
                &&& trace.len() > l + 2 * k
                &&& trace[l + 2 * k].request() == RequestView::Git(
                    CommandView::fetch(dir, url, refspecs[k]),
                )
                &&& trace[l + 2 * k]->Git_1 matches Err(e) ==> n == 1 && k == 0 && trace.len() == l
                    + 1 && outcome == OutcomeView::Failed(GitErrorView::Io(e))
                &&& trace[l + 2 * k]->Git_1 is Ok ==> trace::runs(
                    script::settle(dir, reference),
                    trace.skip(l + 2 * k + 1),
                    outcome,
                )
            }
        }),
{
    if refspecs.len() == 1 {
        let s = script::fetch_refspecs(dir, url, reference, refspecs);
        laws::lemma_first(s, trace.skip(l), outcome);
        assert(trace.skip(l).skip(1) =~= trace.skip(l + 1));
        if trace[l]->Git_1 is Err {
            laws::lemma_over(trace::after(s, trace[l])->0, trace.skip(l + 1), outcome);
        }
        0
    } else {
        lemma_try_refspecs(dir, url, reference, refspecs, trace, l, outcome)
    }
}

proof fn lemma_try_refspecs(
    dir: Option<PathBuf>,
    url: Seq<char>,
    reference: ReferenceView,
    refspecs: Seq<Seq<char>>,
    trace: Seq<Exchange>,
    l: int,
    outcome: OutcomeView,
) -> (k: int)
    requires
        refspecs.len() > 0,
        0 <= l <= trace.len(),
        trace::runs(
            script::try_refspecs(dir, url, reference, refspecs),
            trace.skip(l),
            outcome,
        ),
    ensures
        ({
            let n = refspecs.len() as int;
            &&& 0 <= k <= n
            &&& l + 2 * k <= trace.len()
            &&& tried_in_vain(dir, url, refspecs, trace, l, k)
            &&& k == n ==> trace.len() == l + 2 * n && (
            trace[l + 2 * n - 2]->Git_1 matches Err(e) && outcome == OutcomeView::Failed(
                GitErrorView::Io(e),
            ))
            &&& k < n ==> {
                &&& trace.len() > l + 2 * k
                &&& trace[l + 2 * k].request() == RequestView::Git(
                    CommandView::fetch(dir, url, refspecs[k]),
                )
                &&& trace[l + 2 * k]->Git_1 is Ok
                &&& trace::runs(
                    script::settle(dir, reference),
                    trace.skip(l + 2 * k + 1),
                    outcome,
                )
            }
        }),
    decreases refspecs.len(),
{
    let s = script::try_refspecs(dir, url, reference, refspecs);
    laws::lemma_first(s, trace.skip(l), outcome);
    let rest = trace::after(s, trace[l])->0;
    assert(trace.skip(l).skip(1) =~= trace.skip(l + 1));
    if trace[l]->Git_1 is Ok {
        0
    } else {
        laws::lemma_first(rest, trace.skip(l + 1), outcome);
        let then = trace::after(rest, trace[l + 1])->0;
        assert(trace.skip(l + 1).skip(1) =~= trace.skip(l + 2));
        if refspecs.len() == 1 {
            laws::lemma_over(then, trace.skip(l + 2), outcome);
            1
        } else {
            let others = refspecs.drop_first();
            let k = lemma_try_refspecs(dir, url, reference, others, trace, l + 2, outcome);
            assert forall|i: int| 0 <= i < k + 1 implies {
                let refspec = #[trigger] refspecs[i];
                &&& trace[l + 2 * i] is Git
                &&& trace[l + 2 * i]->Git_1 is Err
                &&& trace[l + 2 * i]->Git_0 == CommandView::fetch(dir, url, refspec)
                &&& trace[l + 2 * i + 1] == Exchange::Print(script::failed_line(refspec))
            } by {
                if i > 0 {
                    assert(others[i - 1] == refspecs[i]);
                }
            }
            k + 1
        }
    }
}

/// The exchange is a fetch that succeeded.
pub open spec fn fetched(x: Exchange) -> bool {
    x matches Exchange::Git(command, reply) && command.args[0] == "fetch"@ && reply is Ok
}

/// A run of a fetch has at most one fetch that succeeded, and what comes after it settles the reference.
proof fn lemma_fetched_at(
    dir: Option<PathBuf>,
    url: Seq<char>,
    reference: ReferenceView,
    refspecs: Seq<Seq<char>>,
    trace: Seq<Exchange>,
    outcome: OutcomeView,
    j: int,
)
    requires
        refspecs.len() > 0,
        trace::runs(script::fetch(dir, url, reference, refspecs), trace, outcome),
        0 <= j < trace.len(),
        fetched(trace[j]),
    ensures
        trace::runs(script::settle(dir, reference), trace.skip(j + 1), outcome),
{
    laws::lemma_first_words();
    let (l, k) = lemma_attempts(dir, url, reference, refspecs, trace, outcome);
    let n = refspecs.len() as int;
    assert(k >= 0 && j >= l);
    if j < l + 2 * k {
        let i = (j - l) / 2;
        assert(j == l + 2 * i || j == l + 2 * i + 1);
        assert(trace[l + 2 * i]->Git_0.args[5] == refspecs[i]);
        assert(false);
    } else if j > l + 2 * k {
        let p = l + 2 * k;
        assert(k < n);
        let tail = trace.skip(p + 1);
        let asks = |r: RequestView| confinement::settle_request(dir, reference, r);
        let ends = |o: OutcomeView| o is Done;
        let s = script::settle(dir, reference);
        confinement::lemma_settle(dir, reference, asks, ends);
        trace::lemma_obeys_runs(s, 7, asks, ends, tail, outcome);
        assert(tail[j - p - 1] == trace[j]);
        assert(asks(tail[j - p - 1].request()));
    }
}

/// Once a branch is fetched, whatever its name, the local branch of that name is brought to where `origin`
/// has it: it is checked out where git does not know it yet, and then reset if it is the one that is
/// checked out, or else moved by force. What fails ends it, in its own failure.
pub proof fn law_fetched_branch(
    repo: &GitRepository,
    url: &str,
    branch: &str,
    refspecs: Vec<String>,
    op: Operation,
    trace: Seq<Exchange>,
    outcome: OutcomeView,
    j: int,
)
    requires
        call_ensures(
            GitRepository::fetch,
            (repo, url, &GitReference::Branch(branch), refspecs),
            op,
        ),
        refspecs@.len() > 0,
        trace::runs(op@, trace, outcome),
        0 <= j < trace.len(),
        fetched(trace[j]),
    ensures
        ({
            let dir = Some(repo.path);
            let n = trace.len();
            let known = trace[j + 1]->Git_1 is Ok;
            let checked_out = trace[j + 2]->Git_1 is Ok;
            let disabled = trace[j + 3]->Check_1;
            let updated = trace[j + 4]->Git_1 is Ok;
            let m = if known {
                j + 2
            } else if disabled {
                j + 4
            } else {
                j + 5
            };
            &&& n > j + 1
            &&& trace[j + 1] is Git
            &&& trace[j + 1]->Git_0 == CommandView {
                args: seq!["rev-parse"@, branch@],
                dir,
                env: Seq::empty(),
            }
            &&& !known ==> {
                &&& n > j + 2
                &&& trace[j + 2] is Git
                &&& trace[j + 2]->Git_0 == CommandView {
                    args: seq!["checkout"@, "-B"@, branch@, "origin/"@ + branch@],
                    dir,
                    env: Seq::empty(),
                }
                &&& trace[j + 2]->Git_1 matches Err(e) ==> n == j + 3 && outcome
                    == OutcomeView::Failed(
                    GitErrorView::Other(
                        "Failed to checkout branch `"@ + branch@ + "`: "@ + e.message,
                    ),
                )
                &&& checked_out ==> {
                    &&& n > j + 3
                    &&& trace[j + 3] is Check
                    &&& trace[j + 3]->Check_0 == ConditionView::SubmodulesDisabled
                    &&& !disabled ==> {
                        &&& n > j + 4
                        &&& trace[j + 4] is Git
                        &&& trace[j + 4]->Git_0 == CommandView {
                            args: seq!["submodule"@, "update"@, "--init"@, "--recursive"@],
                            dir,
                            env: Seq::empty(),
                        }
                        &&& trace[j + 4]->Git_1 matches Err(e) ==> n == j + 5 && outcome
                            == OutcomeView::Failed(
                            GitErrorView::Other("Failed to update submodules: "@ + e.message),
                        )
                    }
                }
            }
            &&& known || checked_out && (disabled || updated) ==> {
                &&& n == m + 2
                &&& trace[m] is Git
                &&& trace[m]->Git_0 == CommandView {
                    args: seq!["branch"@, "--show-current"@],
                    dir,
                    env: Seq::empty(),
                }
                &&& trace[m + 1] is Git
                &&& trace[m + 1]->Git_0 == CommandView {
                    args: if trace[m]->Git_1 matches Ok(current) && text::trimmed(
                        current,
                        branch@,
                    ) {
                        seq!["reset"@, "--hard"@, "origin/"@ + branch@]
                    } else {
                        seq!["branch"@, "-f"@, branch@, "origin/"@ + branch@]
                    },
                    dir,
                    env: Seq::empty(),
                }
                &&& outcome == match trace[m + 1]->Git_1 {
                    Ok(_) => OutcomeView::Done,
                    Err(e) => OutcomeView::Failed(GitErrorView::Io(e)),
                }
            }
        }),
{
    let dir = Some(repo.path);
    let reference = ReferenceView::Branch(branch@);
    let specs = operation::texts(refspecs@);
    lemma_fetched_at(dir, url@, reference, specs, trace, outcome, j);
    let s = script::settle(dir, reference);
    let update = script::force_update_local_reference(dir, reference);
    laws::lemma_first(s, trace.skip(j + 1), outcome);
    let rest = trace::after(s, trace[j + 1])->0;
    assert(trace.skip(j + 1).skip(1) =~= trace.skip(j + 2));
    let m = if trace[j + 1]->Git_1 is Ok {
        j + 2
    } else {
        laws::lemma_first(rest, trace.skip(j + 2), outcome);
        assert(trace.skip(j + 2).skip(1) =~= trace.skip(j + 3));
        if trace[j + 2]->Git_1 is Ok {
            lemma_submodules_by_steps(dir, update, trace, j + 3, outcome)
        } else {
            laws::lemma_over(trace::after(rest, trace[j + 2])->0, trace.skip(j + 3), outcome);
            -1
        }
    };
    if m >= 0 {
        laws::law_local_reference_is_moved(dir, reference, trace.skip(m), outcome);
        if let Ok(current) = trace[m]->Git_1 {
            text::lemma_trimmed_is_trim(current, branch@);
        }
        assert(trace.skip(m)[0] == trace[m] && trace.skip(m)[1] == trace[m + 1]);
    }
}

/// Once a tag is fetched, whatever its name, the local tag of that name is moved to where `origin` has it.
pub proof fn law_fetched_tag(
    repo: &GitRepository,
    url: &str,
    tag: &str,
    refspecs: Vec<String>,
    op: Operation,
    trace: Seq<Exchange>,
    outcome: OutcomeView,
    j: int,
)
    requires
        call_ensures(GitRepository::fetch, (repo, url, &GitReference::Tag(tag), refspecs), op),
        refspecs@.len() > 0,
        trace::runs(op@, trace, outcome),
        0 <= j < trace.len(),
        fetched(trace[j]),
    ensures
        ({
            let dir = Some(repo.path);
            &&& trace.len() == j + 3
            &&& trace[j + 1] is Git
            &&& trace[j + 1]->Git_0 == CommandView {
                args: seq!["rev-parse"@, tag@],
                dir,
                env: Seq::empty(),
            }
            &&& trace[j + 2] is Git
            &&& trace[j + 2]->Git_0 == CommandView {
                args: seq!["tag"@, "-f"@, tag@, "origin/tags/"@ + tag@],
                dir,
                env: Seq::empty(),
            }
            &&& outcome == match trace[j + 2]->Git_1 {
                Ok(_) => OutcomeView::Done,
                Err(e) => OutcomeView::Failed(GitErrorView::Io(e)),
            }
        }),
{
    let dir = Some(repo.path);
    let reference = ReferenceView::Tag(tag@);
    let specs = operation::texts(refspecs@);
    lemma_fetched_at(dir, url@, reference, specs, trace, outcome, j);
    let s = script::settle(dir, reference);
    laws::lemma_first(s, trace.skip(j + 1), outcome);
    assert(trace.skip(j + 1).skip(1) =~= trace.skip(j + 2));
    laws::law_local_reference_is_moved(dir, reference, trace.skip(j + 2), outcome);
    assert(trace.skip(j + 2)[0] == trace[j + 2]);
}

/// Once a commit is fetched, git is asked for it once more, and that is all: it cannot have moved.
pub proof fn law_fetched_commit(
    repo: &GitRepository,
    url: &str,
    commit: &str,
    refspecs: Vec<String>,
    op: Operation,
    trace: Seq<Exchange>,
    outcome: OutcomeView,
    j: int,
)
    requires
        call_ensures(
            GitRepository::fetch,
            (repo, url, &GitReference::Commit(commit), refspecs),
            op,
        ),
        refspecs@.len() > 0,
        trace::runs(op@, trace, outcome),
        0 <= j < trace.len(),
        fetched(trace[j]),
    ensures
        trace.len() == j + 2,
        trace[j + 1] is Git,
        trace[j + 1]->Git_0 == (CommandView {
            args: seq!["rev-parse"@, commit@],
            dir: Some(repo.path),
            env: Seq::empty(),
        }),
        outcome == OutcomeView::Done,
{
    let dir = Some(repo.path);
    let specs = operation::texts(refspecs@);
    let reference = ReferenceView::Commit(commit@);
    lemma_fetched_at(dir, url@, reference, specs, trace, outcome, j);
    laws::law_fetched_commit_stays(dir, commit@, trace.skip(j + 1), outcome);
}

/// Once a name of unknown kind is fetched, git is asked for it. What git does not know is looked for
/// among the branches of `origin`, and then among its tags. A branch is checked out as one, and of a tag
/// what it names; what is neither is left alone.
pub proof fn law_fetched_unknown_name(
    repo: &GitRepository,
    url: &str,
    name: &str,
    refspecs: Vec<String>,
    op: Operation,
    trace: Seq<Exchange>,
    outcome: OutcomeView,
    j: int,
)
    requires
        call_ensures(GitRepository::fetch, (repo, url, &GitReference::Unknown(name), refspecs), op),
        refspecs@.len() > 0,
        name@ != "HEAD"@,
        trace::runs(op@, trace, outcome),
        0 <= j < trace.len(),
        fetched(trace[j]),
    ensures
        ({
            let dir = Some(repo.path);
            let n = trace.len();
            &&& n > j + 1
            &&& trace[j + 1] is Git
            &&& trace[j + 1]->Git_0 == CommandView {
                args: seq!["rev-parse"@, name@],
                dir,
                env: Seq::empty(),
            }
            &&& trace[j + 1]->Git_1 is Ok ==> n == j + 2 && outcome == OutcomeView::Done
            &&& trace[j + 1]->Git_1 is Err ==> {
                &&& n > j + 2
                &&& trace[j + 2] is Git
                &&& trace[j + 2]->Git_0 == CommandView {
                    args: seq!["rev-parse"@, "origin/"@ + name@],
                    dir,
                    env: Seq::empty(),
                }
                &&& trace[j + 2]->Git_1 is Ok ==> branch_checked_out(
                    dir,
                    name@,
                    trace,
                    j + 3,
                    outcome,
                )
                &&& trace[j + 2]->Git_1 is Err ==> {
                    &&& n > j + 3
                    &&& trace[j + 3] is Git
                    &&& trace[j + 3]->Git_0 == CommandView {
                        args: seq!["rev-parse"@, "origin/tags/"@ + name@],
                        dir,
                        env: Seq::empty(),
                    }
                    &&& trace[j + 3]->Git_1 matches Ok(oid) ==> commit_checked_out(
                        dir,
                        oid,
                        trace,
                        j + 4,
                        outcome,
                    )
                    &&& trace[j + 3]->Git_1 is Err ==> n == j + 4 && outcome == OutcomeView::Done
                }
            }
        }),
{
    let dir = Some(repo.path);
    let specs = operation::texts(refspecs@);
    let reference = ReferenceView::Unknown(name@);
    lemma_fetched_at(dir, url@, reference, specs, trace, outcome, j);
    let tail = trace.skip(j + 1);
    laws::law_unknown_name_is_checked_out(dir, name@, tail, outcome);
    assert(tail[0] == trace[j + 1]);
    if trace[j + 1]->Git_1 is Err {
        assert(tail[1] == trace[j + 2]);
        if trace[j + 2]->Git_1 is Ok {
            assert(tail.skip(2) =~= trace.skip(j + 3));
            lemma_branch_checked_out(dir, name@, trace, j + 3, outcome);
        } else {
            assert(tail[2] == trace[j + 3]);
            if let Ok(oid) = trace[j + 3]->Git_1 {
                assert(tail.skip(3) =~= trace.skip(j + 4));
                lemma_commit_checked_out(dir, oid, trace, j + 4, outcome);
            }
        }
    }
}

/// Once `HEAD` is fetched, git is asked for it. Where git does not know it, it is the default branch of
/// `origin`, which is found as the lookup of a repository's default branch finds it, and checked out.
/// Where that lookup fails, its failure is the end, and nothing is checked out.
pub proof fn law_fetched_head(
    repo: &GitRepository,
    url: &str,
    name: &str,
    refspecs: Vec<String>,
    op: Operation,
    lookup: Operation,
    trace: Seq<Exchange>,
    outcome: OutcomeView,
    j: int,
)
    requires
        call_ensures(GitRepository::fetch, (repo, url, &GitReference::Unknown(name), refspecs), op),
        call_ensures(repository::resolve_default_branch_in_repo, (&repo.path,), lookup),
        refspecs@.len() > 0,
        name@ == "HEAD"@,
        trace::runs(op@, trace, outcome),
        0 <= j < trace.len(),
        fetched(trace[j]),
    ensures
        ({
            let dir = Some(repo.path);
            let n = trace.len();
            &&& n > j + 1
            &&& trace[j + 1] is Git
            &&& trace[j + 1]->Git_0 == CommandView {
                args: seq!["rev-parse"@, "HEAD"@],
                dir,
                env: Seq::empty(),
            }
            &&& trace[j + 1]->Git_1 is Ok ==> n == j + 2 && outcome == OutcomeView::Done
            &&& trace[j + 1]->Git_1 is Err ==> {
                &&& n > j + 2
                &&& exists|end: OutcomeView| #[trigger]
                    trace::runs(lookup@, seq![trace[j + 2]], end) && match end {
                        OutcomeView::Text(branch) => branch_checked_out(
                            dir,
                            branch,
                            trace,
                            j + 3,
                            outcome,
                        ),
                        _ => end is Failed && n == j + 3 && outcome == end,
                    }
            }
        }),
{
    let dir = Some(repo.path);
    let specs = operation::texts(refspecs@);
    let reference = ReferenceView::Unknown("HEAD"@);
    lemma_fetched_at(dir, url@, reference, specs, trace, outcome, j);
    let tail = trace.skip(j + 1);
    laws::law_head_is_the_default_branch(dir, tail, outcome);
    assert(tail[0] == trace[j + 1]);
    if trace[j + 1]->Git_1 is Err {
        let x = trace[j + 2];
        assert(tail[1] == x);
        assert(tail.skip(2) =~= trace.skip(j + 3));
        let over = trace::after(lookup@, x)->0;
        let end = over->End_0;
        assert(over is End);
        assert(seq![x].drop_first() =~= Seq::empty());
        assert(trace::runs(over, Seq::empty(), end));
        assert(trace::runs(lookup@, seq![x], end));
        if let Ok(output) = x->Git_1 {
            if let Some(branch) = symref::default_branch(output) {
                lemma_branch_checked_out(dir, branch, trace, j + 3, outcome);
            }
        }
    }
}

/// From `k` on, the trace is a checkout of `branch` as `origin` has it, and ends in `outcome`.
pub open spec fn branch_checked_out(
    dir: Option<PathBuf>,
    branch: Seq<char>,
    trace: Seq<Exchange>,
    k: int,
    outcome: OutcomeView,
) -> bool {
    let n = trace.len();
    &&& n > k
    &&& trace[k] is Git
    &&& trace[k]->Git_0 == CommandView {
        args: seq!["checkout"@, "-B"@, branch, "origin/"@ + branch],
        dir,
        env: Seq::empty(),
    }
    &&& trace[k]->Git_1 matches Err(e) ==> n == k + 1 && outcome == OutcomeView::Failed(
        GitErrorView::Other("Failed to checkout branch `"@ + branch + "`: "@ + e.message),
    )
    &&& trace[k]->Git_1 is Ok ==> submodules_seen_to(dir, trace, k + 1, outcome)
}

/// From `k` on, the trace is a checkout of the commit `oid`, unless `HEAD` is at it, and ends in
/// `outcome`.
pub open spec fn commit_checked_out(
    dir: Option<PathBuf>,
    oid: Seq<char>,
    trace: Seq<Exchange>,
    k: int,
    outcome: OutcomeView,
) -> bool {
    let n = trace.len();
    let at_head = trace[k]->Git_1 matches Ok(head) && head == oid;
    &&& n > k
    &&& trace[k] is Git
    &&& trace[k]->Git_0 == CommandView {
        args: seq!["rev-parse"@, "HEAD"@],
        dir,
        env: Seq::empty(),
    }
    &&& at_head ==> n == k + 1 && outcome == OutcomeView::Done
    &&& !at_head ==> {
        &&& n > k + 1
        &&& trace[k + 1] is Git
        &&& trace[k + 1]->Git_0 == CommandView {
            args: seq!["checkout"@, oid],
            dir,
            env: Seq::empty(),
        }
        &&& trace[k + 1]->Git_1 matches Err(e) ==> n == k + 2 && outcome == OutcomeView::Failed(
            GitErrorView::Other("Failed to checkout `"@ + oid + "`: "@ + e.message),
        )
        &&& trace[k + 1]->Git_1 is Ok ==> submodules_seen_to(dir, trace, k + 2, outcome)
    }
}

/// From `k` on, the trace is an update of the submodules, unless that is switched off, and ends in
/// `outcome`.
pub open spec fn submodules_seen_to(
    dir: Option<PathBuf>,
    trace: Seq<Exchange>,
    k: int,
    outcome: OutcomeView,
) -> bool {
    let n = trace.len();
    &&& n > k
    &&& trace[k] is Check
    &&& trace[k]->Check_0 == ConditionView::SubmodulesDisabled
    &&& trace[k]->Check_1 ==> n == k + 1 && outcome == OutcomeView::Done
    &&& !trace[k]->Check_1 ==> {
        &&& n == k + 2
        &&& trace[k + 1] is Git
        &&& trace[k + 1]->Git_0 == CommandView {
            args: seq!["submodule"@, "update"@, "--init"@, "--recursive"@],
            dir,
            env: Seq::empty(),
        }
        &&& outcome == match trace[k + 1]->Git_1 {
            Ok(_) => OutcomeView::Done,
            Err(e) => OutcomeView::Failed(
                GitErrorView::Other("Failed to update submodules: "@ + e.message),
            ),
        }
    }
}

proof fn lemma_branch_checked_out(
    dir: Option<PathBuf>,
    branch: Seq<char>,
    trace: Seq<Exchange>,
    k: int,
    outcome: OutcomeView,
)
    requires
        0 <= k <= trace.len(),
        trace::runs(
            script::checkout_branch(dir, branch, script::done()),
            trace.skip(k),
            outcome,
        ),
    ensures
        branch_checked_out(dir, branch, trace, k, outcome),
{
    let s = script::checkout_branch(dir, branch, script::done());
    laws::lemma_first(s, trace.skip(k), outcome);
    assert(trace.skip(k).skip(1) =~= trace.skip(k + 1));
    if trace[k]->Git_1 is Ok {
        let m = lemma_submodules_by_steps(dir, script::done(), trace, k + 1, outcome);
        if m >= 0 {
            laws::lemma_over(script::done(), trace.skip(m), outcome);
        }
    } else {
        laws::lemma_over(trace::after(s, trace[k])->0, trace.skip(k + 1), outcome);
    }
}

proof fn lemma_commit_checked_out(
    dir: Option<PathBuf>,
    oid: Seq<char>,
    trace: Seq<Exchange>,
    k: int,
    outcome: OutcomeView,
)
    requires
        0 <= k <= trace.len(),
        trace::runs(script::checkout(dir, oid, script::done()), trace.skip(k), outcome),
    ensures
        commit_checked_out(dir, oid, trace, k, outcome),
{
    let m = lemma_checkout_by_steps(dir, oid, script::done(), trace, k, outcome);
    if m >= 0 {
        laws::lemma_over(script::done(), trace.skip(m), outcome);
    }
}

/// A fetch into a sparse working tree makes the tree sparse, with the description files of all
/// directories in it, and then goes on as a fetch of the same from the same does. What fails before that
/// ends it, in its own failure.
pub proof fn law_sparse_checkout(
    repo: &GitRepository,
    url: &str,
    reference: &GitReference,
    refspecs: Vec<String>,
    op: Operation,
    fetch: Operation,
    trace: Seq<Exchange>,
    outcome: OutcomeView,
)
    requires
        call_ensures(GitRepository::sparse_checkout, (repo, url, reference, refspecs), op),
        call_ensures(GitRepository::fetch, (repo, url, reference, refspecs), fetch),
        trace::runs(op@, trace, outcome),
    ensures
        ({
            let dir = Some(repo.path);
            &&& trace.len() >= 1
            &&& trace[0] is Git
            &&& trace[0]->Git_0 == CommandView {
                args: seq!["sparse-checkout"@, "init"@],
                dir,
                env: Seq::empty(),
            }
            &&& trace[0]->Git_1 matches Err(e) ==> trace.len() == 1 && outcome
                == OutcomeView::Failed(GitErrorView::Io(e))
            &&& trace[0]->Git_1 is Ok ==> {
                &&& trace.len() >= 2
                &&& trace[1] is Git
                &&& trace[1]->Git_0 == CommandView {
                    args: seq!["sparse-checkout"@, "set"@, "--no-cone"@, "**/DESCRIPTION"@],
                    dir,
                    env: Seq::empty(),
                }
                &&& trace[1]->Git_1 matches Err(e) ==> trace.len() == 2 && outcome
                    == OutcomeView::Failed(GitErrorView::Io(e))
                &&& trace[1]->Git_1 is Ok ==> trace::runs(fetch@, trace.skip(2), outcome)
            }
        }),
{
    let specs = operation::texts(refspecs@);
    laws::law_sparse_checkout_stops_at_a_failure(
        Some(repo.path),
        url@,
        reference@,
        specs,
        trace,
        outcome,
    );
}

/// Every function takes every input, but for a fetch, which takes at least one refspec.
pub proof fn law_every_input_is_taken(
    repo: &GitRepository,
    path: &PathBuf,
    text: &str,
    oid: &Oid,
    reference: &GitReference,
    refspecs: Vec<String>,
)
    ensures
        call_requires(repository::resolve_default_branch_for_url, (text,)),
        call_requires(repository::resolve_default_branch_in_repo, (path,)),
        call_requires(GitRepository::open, (path, text)),
        call_requires(GitRepository::init, (path, text)),
        call_requires(GitRepository::new, (*path,)),
        call_requires(GitRepository::rm_folder, (repo,)),
        refspecs@.len() > 0 ==> call_requires(
            GitRepository::fetch,
            (repo, text, reference, refspecs),
        ),
        refspecs@.len() > 0 ==> call_requires(
            GitRepository::sparse_checkout,
            (repo, text, reference, refspecs),
        ),
        call_requires(GitRepository::checkout, (repo, oid)),
        call_requires(GitRepository::checkout_branch, (repo, text)),
        call_requires(
            GitRepository::get_description_file_content,
            (repo, reference, Some(path)),
        ),
        call_requires(GitRepository::get_description_file_content, (repo, reference, None)),
        call_requires(GitRepository::disable_sparse_checkout, (repo,)),
        call_requires(GitRepository::rev_parse, (repo, text)),
        call_requires(GitRepository::ref_as_oid, (repo, text)),
{
}

/// Every step can be asked what it waits for, and takes every reply.
pub proof fn law_every_reply_is_taken(
    git: GitStep,
    read: ReadStep,
    act: ActStep,
    check: CheckStep,
    print: PrintStep,
    text: Result<String, IoFailure>,
    effect: Result<(), IoFailure>,
    answer: bool,
)
    ensures
        call_requires(GitStep::command, (&git,)),
        call_requires(GitStep::resume, (git, text)),
        call_requires(ReadStep::file, (&read,)),
        call_requires(ReadStep::resume, (read, text)),
        call_requires(ActStep::action, (&act,)),
        call_requires(ActStep::resume, (act, effect)),
        call_requires(CheckStep::condition, (&check,)),
        call_requires(CheckStep::resume, (check, answer)),
        call_requires(PrintStep::line, (&print,)),
        call_requires(PrintStep::resume, (print,)),
{
}

/// Every text and every reference is taken, and every end of a process.
pub proof fn law_every_text_is_taken(
    a: &str,
    b: &str,
    c: char,
    sha: String,
    oid: &Oid,
    reference: &GitReference,
    git: &GitExecutor,
    success: bool,
    stdout: &[u8],
    stderr: &[u8],
)
    ensures
        call_requires(GitReference::reference, (reference,)),
        call_requires(Oid::new, (sha,)),
        call_requires(Oid::as_str, (oid,)),
        call_requires(reference::text_is_full_hash, (a,)),
        call_requires(reference::name_of_commit, (a,)),
        call_requires(symref::parse_default_branch, (a,)),
        call_requires(text::char_is_white_space, (c,)),
        call_requires(text::chars_of, (a,)),
        call_requires(text::same_text, (a, b)),
        call_requires(text::trim_text, (a,)),
        call_requires(GitExecutor::reply, (git, success, stdout, stderr)),
        call_requires(GitExecutor::output, (git, a)),
{
}

} // verus!
