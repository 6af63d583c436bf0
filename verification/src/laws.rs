//! What holds of every run of an operation.
use std::path::PathBuf;

use vstd::prelude::*;

use crate::command::{CommandView, EnvChangeView};
use crate::confinement;
use crate::error::{GitErrorView, IoFailureView};
use crate::reference::{self, ReferenceView};
use crate::request::{ConditionView, DescriptionFileView, DirActionView, OutcomeView};
use crate::script::{self, Script};
use crate::symref;
use crate::text;
use crate::trace::{self, Exchange, RequestView};

verus! {

/// What comes back decides what an operation ends in.
pub proof fn law_outcome_is_determined(
    s: Script,
    trace: Seq<Exchange>,
    first: OutcomeView,
    second: OutcomeView,
)
    requires
        trace::runs(s, trace, first),
        trace::runs(s, trace, second),
    ensures
        first == second,
    decreases trace.len(),
{
    if trace.len() > 0 {
        law_outcome_is_determined(
            trace::after(s, trace[0])->0,
            trace.drop_first(),
            first,
            second,
        );
    }
}

/// An exchange that a script asks for, and a run of what is left after it, make a run.
proof fn lemma_prepend(s: Script, x: Exchange, tail: Seq<Exchange>, outcome: OutcomeView)
    requires
        trace::after(s, x) matches Some(rest) && trace::runs(rest, tail, outcome),
    ensures
        trace::runs(s, seq![x] + tail, outcome),
{
    assert((seq![x] + tail).drop_first() =~= tail);
}

/// A run of a script that is not over begins with an exchange that it asks for, and goes on with a
/// run of what is left.
pub(crate) proof fn lemma_first(s: Script, trace: Seq<Exchange>, outcome: OutcomeView)
    requires
        trace::runs(s, trace, outcome),
        !(s is End),
    ensures
        trace.len() > 0,
        trace::after(s, trace[0]) matches Some(rest) && trace::runs(rest, trace.skip(1), outcome),
{
    assert(trace.drop_first() =~= trace.skip(1));
}

/// The runs that begin with an exchange are those of what is left after it.
proof fn lemma_step(s: Script, x: Exchange, tail: Seq<Exchange>, outcome: OutcomeView)
    ensures
        trace::runs(s, seq![x] + tail, outcome) <==> (trace::after(s, x) matches Some(rest)
            && trace::runs(rest, tail, outcome)),
{
    assert((seq![x] + tail).drop_first() =~= tail);
}

/// A script that is over asks for nothing more.
pub(crate) proof fn lemma_over(s: Script, trace: Seq<Exchange>, outcome: OutcomeView)
    requires
        trace::runs(s, trace, outcome),
        s is End,
    ensures
        trace.len() == 0,
        s == Script::End(outcome),
{
}

/// The exchange is the run of `command`, and it succeeded.
pub open spec fn succeeded(x: Exchange, command: CommandView) -> bool {
    x matches Exchange::Git(c, reply) && c == command && reply is Ok
}

/// The exchange is the run of `command`, and it failed.
pub open spec fn failed(x: Exchange, command: CommandView) -> bool {
    x matches Exchange::Git(c, reply) && c == command && reply is Err
}

/// A commit that the local store holds is not fetched: the two commands that find it there are all
/// that a fetch of it asks for.
pub proof fn law_present_commit_is_not_fetched(
    dir: Option<PathBuf>,
    url: Seq<char>,
    commit: Seq<char>,
    refspecs: Seq<Seq<char>>,
    oid: Seq<char>,
    found: Seq<char>,
    trace: Seq<Exchange>,
    outcome: OutcomeView,
)
    requires
        trace::runs(
            script::fetch(dir, url, ReferenceView::Commit(commit), refspecs),
            trace,
            outcome,
        ),
        trace.len() >= 2,
        trace[0] == Exchange::Git(CommandView::rev_parse(dir, commit), Ok(oid)),
        trace[1] == Exchange::Git(CommandView::cat_file(dir, oid), Ok(found)),
    ensures
        trace.len() == 2,
        outcome == OutcomeView::Done,
{
    let s = script::fetch(dir, url, ReferenceView::Commit(commit), refspecs);
    lemma_first(s, trace, outcome);
    let absent = trace::after(s, trace[0])->0;
    lemma_first(absent, trace.skip(1), outcome);
    lemma_over(trace::after(absent, trace[1])->0, trace.skip(1).skip(1), outcome);
}

/// What a fetch looks for locally, in vain: a commit that git cannot resolve, or whose object the
/// local store does not hold. Nothing else is looked for.
pub open spec fn not_found_locally(
    dir: Option<PathBuf>,
    reference: ReferenceView,
    lookup: Seq<Exchange>,
) -> bool {
    match reference {
        ReferenceView::Commit(commit) => {
            let parse = CommandView::rev_parse(dir, commit);
            ||| lookup.len() == 1 && failed(lookup[0], parse)
            ||| {
                &&& lookup.len() == 2
                &&& succeeded(lookup[0], parse)
                &&& failed(lookup[1], CommandView::cat_file(dir, (lookup[0]->Git_1)->Ok_0))
            }
        },
        _ => lookup.len() == 0,
    }
}

/// The fetch ends where it has found its commit locally.
pub open spec fn found_locally(
    dir: Option<PathBuf>,
    reference: ReferenceView,
    trace: Seq<Exchange>,
) -> bool {
    &&& reference matches ReferenceView::Commit(commit)
    &&& trace.len() == 2
    &&& succeeded(trace[0], CommandView::rev_parse(dir, commit))
    &&& succeeded(trace[1], CommandView::cat_file(dir, (trace[0]->Git_1)->Ok_0))
}

/// What is not found locally is fetched: after the lookup, whatever came back of it, the runs are
/// those of a fetch that looked for nothing.
pub proof fn law_what_is_not_found_locally_is_fetched(
    dir: Option<PathBuf>,
    url: Seq<char>,
    reference: ReferenceView,
    refspecs: Seq<Seq<char>>,
    lookup: Seq<Exchange>,
    trace: Seq<Exchange>,
    outcome: OutcomeView,
)
    requires
        not_found_locally(dir, reference, lookup),
    ensures
        trace::runs(script::fetch(dir, url, reference, refspecs), lookup + trace, outcome)
            <==> trace::runs(
            script::fetch_refspecs(dir, url, reference, refspecs),
            trace,
            outcome,
        ),
{
    let s = script::fetch(dir, url, reference, refspecs);
    let whole = lookup + trace;
    if lookup.len() == 0 {
        assert(whole =~= trace);
    } else if lookup.len() == 1 {
        assert(whole[0] == lookup[0]);
        assert(whole.drop_first() =~= trace);
    } else {
        assert(whole[0] == lookup[0]);
        let rest = whole.drop_first();
        assert(rest[0] == lookup[1]);
        assert(rest.drop_first() =~= trace);
        let oid = (lookup[0]->Git_1)->Ok_0;
        let absent = script::fetch_absent(dir, url, reference, refspecs, oid);
        assert(trace::runs(s, whole, outcome) <==> trace::runs(absent, rest, outcome));
    }
}

/// Every run of a fetch ends where the commit is found locally, or begins with a lookup in vain and
/// goes on with the refspecs.
pub proof fn law_fetch_looks_first(
    dir: Option<PathBuf>,
    url: Seq<char>,
    reference: ReferenceView,
    refspecs: Seq<Seq<char>>,
    trace: Seq<Exchange>,
    outcome: OutcomeView,
)
    requires
        trace::runs(script::fetch(dir, url, reference, refspecs), trace, outcome),
    ensures
        found_locally(dir, reference, trace) && outcome == OutcomeView::Done || exists|i: int|
            0 <= i <= trace.len() && not_found_locally(dir, reference, #[trigger] trace.take(i))
                && trace::runs(
                script::fetch_refspecs(dir, url, reference, refspecs),
                trace.skip(i),
                outcome,
            ),
{
    let _ = lemma_looks_first(dir, url, reference, refspecs, trace, outcome);
}

proof fn lemma_looks_first(
    dir: Option<PathBuf>,
    url: Seq<char>,
    reference: ReferenceView,
    refspecs: Seq<Seq<char>>,
    trace: Seq<Exchange>,
    outcome: OutcomeView,
) -> (i: int)
    requires
        trace::runs(script::fetch(dir, url, reference, refspecs), trace, outcome),
    ensures
        found_locally(dir, reference, trace) && outcome == OutcomeView::Done || (0 <= i
            <= trace.len() && not_found_locally(dir, reference, trace.take(i)) && trace::runs(
            script::fetch_refspecs(dir, url, reference, refspecs),
            trace.skip(i),
            outcome,
        )),
{
    let s = script::fetch(dir, url, reference, refspecs);
    if reference is Commit {
        lemma_first(s, trace, outcome);
        let rest = trace::after(s, trace[0])->0;
        if trace[0]->Git_1 is Err {
            assert(trace.take(1)[0] == trace[0]);
            1
        } else {
            let tail = trace.skip(1);
            lemma_first(rest, tail, outcome);
            if tail[0]->Git_1 is Ok {
                lemma_over(script::done(), tail.skip(1), outcome);
            }
            assert(trace.take(2)[0] == trace[0] && trace.take(2)[1] == tail[0]);
            assert(tail.skip(1) =~= trace.skip(2));
            2
        }
    } else {
        assert(trace.skip(0) =~= trace);
        0
    }
}

/// A checkout of the commit that `HEAD` is at asks for nothing but where `HEAD` is.
pub proof fn law_checkout_of_head_does_nothing(
    dir: Option<PathBuf>,
    oid: Seq<char>,
    trace: Seq<Exchange>,
    outcome: OutcomeView,
)
    requires
        trace::runs(script::checkout(dir, oid, script::done()), trace, outcome),
        trace.len() >= 1,
        trace[0] == Exchange::Git(CommandView::rev_parse(dir, "HEAD"@), Ok(oid)),
    ensures
        trace.len() == 1,
        outcome == OutcomeView::Done,
{
    let s = script::checkout(dir, oid, script::done());
    lemma_first(s, trace, outcome);
    lemma_over(trace::after(s, trace[0])->0, trace.skip(1), outcome);
}

/// The submodules are seen to: nothing is done where their update is switched off, and else it
/// succeeds.
pub open spec fn submodules_updated(dir: Option<PathBuf>, trace: Seq<Exchange>) -> bool {
    ||| trace == seq![Exchange::Check(ConditionView::SubmodulesDisabled, true)]
    ||| {
        &&& trace.len() == 2
        &&& trace[0] == Exchange::Check(ConditionView::SubmodulesDisabled, false)
        &&& succeeded(trace[1], CommandView::submodule_update(dir))
    }
}

proof fn lemma_submodules_done(
    dir: Option<PathBuf>,
    next: Script,
    trace: Seq<Exchange>,
    outcome: OutcomeView,
) -> (i: int)
    requires
        trace::runs(script::update_submodules(dir, next), trace, outcome),
        !(outcome is Failed),
    ensures
        1 <= i <= 2,
        i <= trace.len(),
        submodules_updated(dir, trace.take(i)),
        trace::runs(next, trace.skip(i), outcome),
{
    let s = script::update_submodules(dir, next);
    lemma_first(s, trace, outcome);
    let rest = trace::after(s, trace[0])->0;
    if trace[0]->Check_1 {
        assert(trace.take(1) =~= seq![Exchange::Check(ConditionView::SubmodulesDisabled, true)]);
        1
    } else {
        lemma_first(rest, trace.skip(1), outcome);
        let out = trace[1]->Git_1;
        match out {
            Ok(_) => {
                assert(trace.skip(1).skip(1) =~= trace.skip(2));
            },
            Err(e) => {
                lemma_over(script::fail(GitErrorView::submodules(e)), trace.skip(1).skip(1), outcome);
            },
        }
        2
    }
}

/// A checkout that succeeds has found `HEAD` at the commit, or has checked it out and seen to the
/// submodules.
pub proof fn law_checkout_done(dir: Option<PathBuf>, oid: Seq<char>, trace: Seq<Exchange>)
    requires
        trace::runs(script::checkout(dir, oid, script::done()), trace, OutcomeView::Done),
    ensures
        trace == seq![Exchange::Git(CommandView::rev_parse(dir, "HEAD"@), Ok(oid))] || (trace.len()
            >= 3 && succeeded(trace[1], CommandView::checkout(dir, oid)) && submodules_updated(
            dir,
            trace.skip(2),
        )),
{
    let outcome = OutcomeView::Done;
    let s = script::checkout(dir, oid, script::done());
    lemma_first(s, trace, outcome);
    let rest = trace::after(s, trace[0])->0;
    if trace[0]->Git_1 == Ok::<Seq<char>, IoFailureView>(oid) {
        lemma_over(rest, trace.skip(1), outcome);
        assert(trace =~= seq![Exchange::Git(CommandView::rev_parse(dir, "HEAD"@), Ok(oid))]);
    } else {
        lemma_first(rest, trace.skip(1), outcome);
        match trace[1]->Git_1 {
            Ok(_) => {
                let tail = trace.skip(1).skip(1);
                let i = lemma_submodules_done(dir, script::done(), tail, outcome);
                lemma_over(script::done(), tail.skip(i), outcome);
                assert(tail.take(i) =~= trace.skip(2));
            },
            Err(e) => {
                lemma_over(
                    script::fail(GitErrorView::checkout(oid, e)),
                    trace.skip(1).skip(1),
                    outcome,
                );
            },
        }
    }
}

/// A checkout of a branch that succeeds has put the local branch where the remote's is, and has seen
/// to the submodules.
pub proof fn law_checkout_branch_done(
    dir: Option<PathBuf>,
    branch: Seq<char>,
    trace: Seq<Exchange>,
)
    requires
        trace::runs(
            script::checkout_branch(dir, branch, script::done()),
            trace,
            OutcomeView::Done,
        ),
    ensures
        trace.len() >= 2,
        succeeded(trace[0], CommandView::checkout_branch(dir, branch)),
        submodules_updated(dir, trace.skip(1)),
{
    let outcome = OutcomeView::Done;
    let s = script::checkout_branch(dir, branch, script::done());
    lemma_first(s, trace, outcome);
    match trace[0]->Git_1 {
        Ok(_) => {
            let i = lemma_submodules_done(dir, script::done(), trace.skip(1), outcome);
            lemma_over(script::done(), trace.skip(1).skip(i), outcome);
            assert(trace.skip(1).take(i) =~= trace.skip(1));
        },
        Err(e) => {
            lemma_over(
                script::fail(GitErrorView::checkout_branch(branch, e)),
                trace.skip(1),
                outcome,
            );
        },
    }
}

/// How an update of the submodules ends: in success where it is switched off or git makes it, and else
/// in its own failure.
pub open spec fn submodules_end(
    dir: Option<PathBuf>,
    trace: Seq<Exchange>,
    outcome: OutcomeView,
) -> bool {
    &&& trace.len() >= 1
    &&& trace[0].request() == RequestView::Check(ConditionView::SubmodulesDisabled)
    &&& if trace[0]->Check_1 {
        trace.len() == 1 && outcome == OutcomeView::Done
    } else {
        &&& trace.len() == 2
        &&& trace[1].request() == RequestView::Git(CommandView::submodule_update(dir))
        &&& outcome == (match trace[1]->Git_1 {
            Ok(_) => OutcomeView::Done,
            Err(e) => OutcomeView::Failed(GitErrorView::submodules(e)),
        })
    }
}

proof fn lemma_submodules_end(dir: Option<PathBuf>, trace: Seq<Exchange>, outcome: OutcomeView)
    requires
        trace::runs(script::update_submodules(dir, script::done()), trace, outcome),
    ensures
        submodules_end(dir, trace, outcome),
{
    let s = script::update_submodules(dir, script::done());
    lemma_first(s, trace, outcome);
    let rest = trace::after(s, trace[0])->0;
    if trace[0]->Check_1 {
        lemma_over(rest, trace.skip(1), outcome);
    } else {
        lemma_first(rest, trace.skip(1), outcome);
        lemma_over(trace::after(rest, trace[1])->0, trace.skip(1).skip(1), outcome);
    }
}

/// How every checkout of a commit ends. Where `HEAD` is at the commit there is nothing to do. Where git
/// cannot check it out, that is the failure, and the submodules are left alone. Else it ends as their
/// update does.
pub proof fn law_checkout_ends(
    dir: Option<PathBuf>,
    oid: Seq<char>,
    trace: Seq<Exchange>,
    outcome: OutcomeView,
)
    requires
        trace::runs(script::checkout(dir, oid, script::done()), trace, outcome),
    ensures
        trace.len() >= 1,
        trace[0].request() == RequestView::Git(CommandView::rev_parse(dir, "HEAD"@)),
        trace[0]->Git_1 == Ok::<Seq<char>, IoFailureView>(oid) ==> trace.len() == 1 && outcome
            == OutcomeView::Done,
        trace[0]->Git_1 != Ok::<Seq<char>, IoFailureView>(oid) ==> {
            &&& trace.len() >= 2
            &&& trace[1].request() == RequestView::Git(CommandView::checkout(dir, oid))
            &&& match trace[1]->Git_1 {
                Ok(_) => submodules_end(dir, trace.skip(2), outcome),
                Err(e) => trace.len() == 2 && outcome == OutcomeView::Failed(
                    GitErrorView::checkout(oid, e),
                ),
            }
        },
{
    let s = script::checkout(dir, oid, script::done());
    lemma_first(s, trace, outcome);
    let rest = trace::after(s, trace[0])->0;
    if trace[0]->Git_1 == Ok::<Seq<char>, IoFailureView>(oid) {
        lemma_over(rest, trace.skip(1), outcome);
    } else {
        lemma_first(rest, trace.skip(1), outcome);
        assert(trace.skip(1).skip(1) =~= trace.skip(2));
        if trace[1]->Git_1 is Ok {
            lemma_submodules_end(dir, trace.skip(2), outcome);
        } else {
            lemma_over(trace::after(rest, trace[1])->0, trace.skip(2), outcome);
        }
    }
}

/// How every checkout of a branch ends. Where git cannot check it out, that is the failure, and the
/// submodules are left alone. Else it ends as their update does.
pub proof fn law_checkout_branch_ends(
    dir: Option<PathBuf>,
    branch: Seq<char>,
    trace: Seq<Exchange>,
    outcome: OutcomeView,
)
    requires
        trace::runs(script::checkout_branch(dir, branch, script::done()), trace, outcome),
    ensures
        trace.len() >= 1,
        trace[0].request() == RequestView::Git(CommandView::checkout_branch(dir, branch)),
        match trace[0]->Git_1 {
            Ok(_) => submodules_end(dir, trace.skip(1), outcome),
            Err(e) => trace.len() == 1 && outcome == OutcomeView::Failed(
                GitErrorView::checkout_branch(branch, e),
            ),
        },
{
    let s = script::checkout_branch(dir, branch, script::done());
    lemma_first(s, trace, outcome);
    if trace[0]->Git_1 is Ok {
        lemma_submodules_end(dir, trace.skip(1), outcome);
    } else {
        lemma_over(trace::after(s, trace[0])->0, trace.skip(1), outcome);
    }
}

/// The run `part` of one script is behind a run of a longer one, and `tail` is to come. A failure of the
/// first ends both. Else the second goes on with `next`.
spec fn goes_on(
    longer: Script,
    part: Seq<Exchange>,
    end: OutcomeView,
    next: Script,
    tail: Seq<Exchange>,
    outcome: OutcomeView,
) -> bool {
    trace::runs(longer, part + tail, outcome) <==> if end is Failed {
        tail.len() == 0 && outcome == end
    } else {
        trace::runs(next, tail, outcome)
    }
}

proof fn lemma_submodules_go_on(
    dir: Option<PathBuf>,
    part: Seq<Exchange>,
    end: OutcomeView,
    next: Script,
    tail: Seq<Exchange>,
    outcome: OutcomeView,
)
    requires
        trace::runs(script::update_submodules(dir, script::done()), part, end),
    ensures
        goes_on(script::update_submodules(dir, next), part, end, next, tail, outcome),
{
    let s = script::update_submodules(dir, next);
    lemma_submodules_end(dir, part, end);
    let left = part.skip(1);
    assert(part + tail =~= seq![part[0]] + (left + tail));
    lemma_step(s, part[0], left + tail, outcome);
    if part[0]->Check_1 {
        assert(left + tail =~= tail);
    } else {
        assert(left + tail =~= seq![part[1]] + tail);
        lemma_step(script::run_submodule_update(dir, next), part[1], tail, outcome);
    }
}

proof fn lemma_checkout_goes_on(
    dir: Option<PathBuf>,
    oid: Seq<char>,
    part: Seq<Exchange>,
    end: OutcomeView,
    next: Script,
    tail: Seq<Exchange>,
    outcome: OutcomeView,
)
    requires
        trace::runs(script::checkout(dir, oid, script::done()), part, end),
    ensures
        goes_on(script::checkout(dir, oid, next), part, end, next, tail, outcome),
{
    let alone = script::checkout(dir, oid, script::done());
    let s = script::checkout(dir, oid, next);
    law_checkout_ends(dir, oid, part, end);
    lemma_first(alone, part, end);
    let left = part.skip(1);
    assert(part + tail =~= seq![part[0]] + (left + tail));
    lemma_step(s, part[0], left + tail, outcome);
    if part[0]->Git_1 == Ok::<Seq<char>, IoFailureView>(oid) {
        assert(left + tail =~= tail);
    } else {
        lemma_first(trace::after(alone, part[0])->0, left, end);
        let last = left.skip(1);
        assert(left + tail =~= seq![part[1]] + (last + tail));
        lemma_step(script::run_checkout(dir, oid, next), part[1], last + tail, outcome);
        if part[1]->Git_1 is Ok {
            lemma_submodules_go_on(dir, last, end, next, tail, outcome);
        } else {
            assert(last + tail =~= tail);
        }
    }
}

proof fn lemma_checkout_branch_goes_on(
    dir: Option<PathBuf>,
    branch: Seq<char>,
    part: Seq<Exchange>,
    end: OutcomeView,
    next: Script,
    tail: Seq<Exchange>,
    outcome: OutcomeView,
)
    requires
        trace::runs(script::checkout_branch(dir, branch, script::done()), part, end),
    ensures
        goes_on(script::checkout_branch(dir, branch, next), part, end, next, tail, outcome),
{
    let alone = script::checkout_branch(dir, branch, script::done());
    law_checkout_branch_ends(dir, branch, part, end);
    lemma_first(alone, part, end);
    let left = part.skip(1);
    assert(part + tail =~= seq![part[0]] + (left + tail));
    lemma_step(script::checkout_branch(dir, branch, next), part[0], left + tail, outcome);
    if part[0]->Git_1 is Ok {
        lemma_submodules_go_on(dir, left, end, next, tail, outcome);
    } else {
        assert(left + tail =~= tail);
    }
}

/// The local branch is moved to where the remote's is: by a reset where it is the one checked out,
/// and by force where it is not.
pub open spec fn branch_moved(
    dir: Option<PathBuf>,
    branch: Seq<char>,
    trace: Seq<Exchange>,
) -> bool {
    &&& trace.len() == 2
    &&& trace[0] matches Exchange::Git(c, reply) && c == CommandView::show_current(dir) && (
    if reply matches Ok(current) && text::trim(current) == branch {
        succeeded(trace[1], CommandView::reset(dir, branch))
    } else {
        succeeded(trace[1], CommandView::force_branch(dir, branch))
    })
}

/// The local counterpart of `reference` is moved to where the remote's is, where it has one that
/// can move.
pub open spec fn moved(
    dir: Option<PathBuf>,
    reference: ReferenceView,
    trace: Seq<Exchange>,
) -> bool {
    match reference {
        ReferenceView::Branch(branch) => branch_moved(dir, branch, trace),
        ReferenceView::Tag(tag) => trace.len() == 1 && succeeded(
            trace[0],
            CommandView::force_tag(dir, tag),
        ),
        _ => trace.len() == 0,
    }
}

proof fn lemma_run_done(
    command: CommandView,
    next: Script,
    trace: Seq<Exchange>,
    outcome: OutcomeView,
)
    requires
        trace::runs(script::run(command, next), trace, outcome),
        !(outcome is Failed),
    ensures
        trace.len() > 0,
        succeeded(trace[0], command),
        trace::runs(next, trace.skip(1), outcome),
{
    lemma_first(script::run(command, next), trace, outcome);
    if let Err(e) = trace[0]->Git_1 {
        lemma_over(script::fail(GitErrorView::Io(e)), trace.skip(1), outcome);
    }
}

proof fn lemma_force_update_done(
    dir: Option<PathBuf>,
    reference: ReferenceView,
    trace: Seq<Exchange>,
)
    requires
        trace::runs(
            script::force_update_local_reference(dir, reference),
            trace,
            OutcomeView::Done,
        ),
    ensures
        moved(dir, reference, trace),
{
    let outcome = OutcomeView::Done;
    let s = script::force_update_local_reference(dir, reference);
    match reference {
        ReferenceView::Branch(branch) => {
            lemma_first(s, trace, outcome);
            let command = if trace[0]->Git_1 matches Ok(current) && text::trim(current) == branch {
                CommandView::reset(dir, branch)
            } else {
                CommandView::force_branch(dir, branch)
            };
            lemma_run_done(command, script::done(), trace.skip(1), outcome);
            lemma_over(script::done(), trace.skip(1).skip(1), outcome);
        },
        ReferenceView::Tag(tag) => {
            lemma_run_done(CommandView::force_tag(dir, tag), script::done(), trace, outcome);
            lemma_over(script::done(), trace.skip(1), outcome);
        },
        _ => {
            lemma_over(s, trace, outcome);
        },
    }
}

/// How every update of a local reference ends. The local branch or tag is moved by the one command that
/// fits it, and the update fails as that command did. Nothing is asked for to move a commit, or a name
/// of unknown kind.
pub proof fn law_local_reference_is_moved(
    dir: Option<PathBuf>,
    reference: ReferenceView,
    trace: Seq<Exchange>,
    outcome: OutcomeView,
)
    requires
        trace::runs(script::force_update_local_reference(dir, reference), trace, outcome),
    ensures
        match reference {
            ReferenceView::Branch(branch) => {
                &&& trace.len() == 2
                &&& trace[0].request() == RequestView::Git(CommandView::show_current(dir))
                &&& trace[1].request() == RequestView::Git(
                    if trace[0]->Git_1 matches Ok(current) && text::trim(current) == branch {
                        CommandView::reset(dir, branch)
                    } else {
                        CommandView::force_branch(dir, branch)
                    },
                )
            },
            ReferenceView::Tag(tag) => {
                &&& trace.len() == 1
                &&& trace[0].request() == RequestView::Git(CommandView::force_tag(dir, tag))
            },
            _ => trace.len() == 0,
        },
        outcome == (if trace.len() > 0 && trace.last().failure() is Some {
            OutcomeView::Failed(GitErrorView::Io(trace.last().failure()->0))
        } else {
            OutcomeView::Done
        }),
{
    let s = script::force_update_local_reference(dir, reference);
    if reference is Branch {
        lemma_first(s, trace, outcome);
        let rest = trace::after(s, trace[0])->0;
        lemma_first(rest, trace.skip(1), outcome);
        lemma_over(trace::after(rest, trace[1])->0, trace.skip(1).skip(1), outcome);
    } else if reference is Tag {
        lemma_first(s, trace, outcome);
        lemma_over(trace::after(s, trace[0])->0, trace.skip(1), outcome);
    } else {
        lemma_over(s, trace, outcome);
    }
}

/// A fetched branch that has no local counterpart is checked out before it is moved. A checkout that
/// fails ends the operation in its own failure, and nothing is moved.
pub proof fn law_new_branch_is_checked_out(
    dir: Option<PathBuf>,
    branch: Seq<char>,
    failure: IoFailureView,
    checkout: Seq<Exchange>,
    end: OutcomeView,
    tail: Seq<Exchange>,
    outcome: OutcomeView,
)
    requires
        trace::runs(script::checkout_branch(dir, branch, script::done()), checkout, end),
    ensures
        ({
            let unknown = Exchange::Git(CommandView::rev_parse(dir, branch), Err(failure));
            let reference = ReferenceView::Branch(branch);
            trace::runs(
                script::settle(dir, reference),
                seq![unknown] + (checkout + tail),
                outcome,
            ) <==> if end is Failed {
                tail.len() == 0 && outcome == end
            } else {
                trace::runs(script::force_update_local_reference(dir, reference), tail, outcome)
            }
        }),
{
    let unknown = Exchange::Git(CommandView::rev_parse(dir, branch), Err(failure));
    let reference = ReferenceView::Branch(branch);
    let update = script::force_update_local_reference(dir, reference);
    lemma_step(script::settle(dir, reference), unknown, checkout + tail, outcome);
    lemma_checkout_branch_goes_on(dir, branch, checkout, end, update, tail, outcome);
}

/// A fetched reference that git can resolve locally, and a tag or commit in any case, needs no checkout:
/// what is left is to move its local counterpart.
pub proof fn law_other_references_need_no_checkout(
    dir: Option<PathBuf>,
    reference: ReferenceView,
    reply: Result<Seq<char>, IoFailureView>,
    tail: Seq<Exchange>,
    outcome: OutcomeView,
)
    requires
        reply is Ok || reference is Tag || reference is Commit,
    ensures
        trace::runs(
            script::settle(dir, reference),
            seq![Exchange::Git(CommandView::rev_parse(dir, reference.name()), reply)] + tail,
            outcome,
        ) <==> trace::runs(script::force_update_local_reference(dir, reference), tail, outcome),
{
    let lookup = Exchange::Git(CommandView::rev_parse(dir, reference.name()), reply);
    lemma_step(script::settle(dir, reference), lookup, tail, outcome);
}

proof fn lemma_establish_branch_done(
    dir: Option<PathBuf>,
    branch: Seq<char>,
    next: Script,
    trace: Seq<Exchange>,
    outcome: OutcomeView,
) -> (i: int)
    requires
        trace::runs(script::checkout_branch(dir, branch, next), trace, outcome),
        !(outcome is Failed),
    ensures
        1 <= i <= trace.len(),
        trace::runs(next, trace.skip(i), outcome),
{
    lemma_first(script::checkout_branch(dir, branch, next), trace, outcome);
    if let Err(e) = trace[0]->Git_1 {
        lemma_over(
            script::fail(GitErrorView::checkout_branch(branch, e)),
            trace.skip(1),
            outcome,
        );
        1
    } else {
        let i = lemma_submodules_done(dir, next, trace.skip(1), outcome);
        assert(trace.skip(1).skip(i) =~= trace.skip(i + 1));
        i + 1
    }
}

proof fn lemma_settle_done(
    dir: Option<PathBuf>,
    reference: ReferenceView,
    trace: Seq<Exchange>,
) -> (i: int)
    requires
        reference is Branch || reference is Tag,
        trace::runs(script::settle(dir, reference), trace, OutcomeView::Done),
    ensures
        1 <= i <= trace.len(),
        moved(dir, reference, trace.skip(i)),
{
    let outcome = OutcomeView::Done;
    let s = script::settle(dir, reference);
    let update = script::force_update_local_reference(dir, reference);
    lemma_first(s, trace, outcome);
    if trace[0]->Git_1 is Err && reference is Branch {
        let branch = reference->Branch_0;
        let i = lemma_establish_branch_done(dir, branch, update, trace.skip(1), outcome);
        assert(trace.skip(1).skip(i) =~= trace.skip(i + 1));
        lemma_force_update_done(dir, reference, trace.skip(i + 1));
        i + 1
    } else {
        lemma_force_update_done(dir, reference, trace.skip(1));
        1
    }
}

proof fn lemma_try_refspecs_done(
    dir: Option<PathBuf>,
    url: Seq<char>,
    reference: ReferenceView,
    refspecs: Seq<Seq<char>>,
    trace: Seq<Exchange>,
) -> (r: (int, int))
    requires
        refspecs.len() > 0,
        trace::runs(
            script::try_refspecs(dir, url, reference, refspecs),
            trace,
            OutcomeView::Done,
        ),
    ensures
        0 <= r.0 < trace.len(),
        0 <= r.1 < refspecs.len(),
        succeeded(trace[r.0], CommandView::fetch(dir, url, refspecs[r.1])),
        trace::runs(script::settle(dir, reference), trace.skip(r.0 + 1), OutcomeView::Done),
    decreases refspecs.len(),
{
    let outcome = OutcomeView::Done;
    let s = script::try_refspecs(dir, url, reference, refspecs);
    lemma_first(s, trace, outcome);
    let rest = trace::after(s, trace[0])->0;
    if trace[0]->Git_1 is Ok {
        (0, 0)
    } else {
        let tail = trace.skip(1);
        lemma_first(rest, tail, outcome);
        if refspecs.len() == 1 {
            lemma_over(trace::after(rest, tail[0])->0, tail.skip(1), outcome);
            (0, 0)
        } else {
            let others = refspecs.drop_first();
            assert(tail.skip(1) =~= trace.skip(2));
            let (j, k) = lemma_try_refspecs_done(dir, url, reference, others, trace.skip(2));
            assert(trace.skip(2).skip(j + 1) =~= trace.skip(j + 3));
            (j + 2, k + 1)
        }
    }
}

proof fn lemma_fetch_refspecs_done(
    dir: Option<PathBuf>,
    url: Seq<char>,
    reference: ReferenceView,
    refspecs: Seq<Seq<char>>,
    trace: Seq<Exchange>,
) -> (r: (int, int))
    requires
        refspecs.len() > 0,
        trace::runs(
            script::fetch_refspecs(dir, url, reference, refspecs),
            trace,
            OutcomeView::Done,
        ),
    ensures
        0 <= r.0 < trace.len(),
        0 <= r.1 < refspecs.len(),
        succeeded(trace[r.0], CommandView::fetch(dir, url, refspecs[r.1])),
        trace::runs(script::settle(dir, reference), trace.skip(r.0 + 1), OutcomeView::Done),
{
    if refspecs.len() == 1 {
        lemma_run_done(
            CommandView::fetch(dir, url, refspecs[0]),
            script::settle(dir, reference),
            trace,
            OutcomeView::Done,
        );
        (0, 0)
    } else {
        lemma_try_refspecs_done(dir, url, reference, refspecs, trace)
    }
}

/// A fetch of a branch that succeeds has fetched one of its refspecs, and after that, as its last
/// act, has moved the local branch to where the remote's is. So the local branch is the remote's of
/// now, whatever was fetched or checked out before.
pub proof fn law_fetched_branch_is_the_remotes(
    dir: Option<PathBuf>,
    url: Seq<char>,
    branch: Seq<char>,
    refspecs: Seq<Seq<char>>,
    trace: Seq<Exchange>,
)
    requires
        refspecs.len() > 0,
        trace::runs(
            script::fetch(dir, url, ReferenceView::Branch(branch), refspecs),
            trace,
            OutcomeView::Done,
        ),
    ensures
        trace.len() >= 2,
        branch_moved(dir, branch, trace.skip(trace.len() - 2)),
        exists|j: int, k: int|
            0 <= j < trace.len() - 2 && 0 <= k < refspecs.len() && #[trigger] succeeded(
                trace[j],
                CommandView::fetch(dir, url, refspecs[k]),
            ),
{
    let reference = ReferenceView::Branch(branch);
    let (j, k) = lemma_fetch_refspecs_done(dir, url, reference, refspecs, trace);
    let tail = trace.skip(j + 1);
    let i = lemma_settle_done(dir, reference, tail);
    assert(tail.skip(i) =~= trace.skip(trace.len() - 2));
    assert(succeeded(trace[j], CommandView::fetch(dir, url, refspecs[k])));
}

/// A fetch of a tag that succeeds has fetched one of its refspecs, and after that, as its last act,
/// has moved the local tag to where the remote's is.
pub proof fn law_fetched_tag_is_the_remotes(
    dir: Option<PathBuf>,
    url: Seq<char>,
    tag: Seq<char>,
    refspecs: Seq<Seq<char>>,
    trace: Seq<Exchange>,
)
    requires
        refspecs.len() > 0,
        trace::runs(
            script::fetch(dir, url, ReferenceView::Tag(tag), refspecs),
            trace,
            OutcomeView::Done,
        ),
    ensures
        trace.len() >= 1,
        succeeded(trace.last(), CommandView::force_tag(dir, tag)),
        exists|j: int, k: int|
            0 <= j < trace.len() - 1 && 0 <= k < refspecs.len() && #[trigger] succeeded(
                trace[j],
                CommandView::fetch(dir, url, refspecs[k]),
            ),
{
    let reference = ReferenceView::Tag(tag);
    let (j, k) = lemma_fetch_refspecs_done(dir, url, reference, refspecs, trace);
    let tail = trace.skip(j + 1);
    let i = lemma_settle_done(dir, reference, tail);
    assert(tail.skip(i)[0] == trace.last());
    assert(succeeded(trace[j], CommandView::fetch(dir, url, refspecs[k])));
}

/// A fetch that succeeds has found its commit locally, or has fetched one of its refspecs.
pub proof fn law_what_is_fetched_is_here(
    dir: Option<PathBuf>,
    url: Seq<char>,
    reference: ReferenceView,
    refspecs: Seq<Seq<char>>,
    trace: Seq<Exchange>,
)
    requires
        refspecs.len() > 0,
        trace::runs(script::fetch(dir, url, reference, refspecs), trace, OutcomeView::Done),
    ensures
        found_locally(dir, reference, trace) || exists|j: int, k: int|
            0 <= j < trace.len() && 0 <= k < refspecs.len() && #[trigger] succeeded(
                trace[j],
                CommandView::fetch(dir, url, refspecs[k]),
            ),
{
    let i = lemma_looks_first(dir, url, reference, refspecs, trace, OutcomeView::Done);
    if !found_locally(dir, reference, trace) {
        let tail = trace.skip(i);
        let (j, k) = lemma_fetch_refspecs_done(dir, url, reference, refspecs, tail);
        assert(tail[j] == trace[i + j]);
        assert(succeeded(trace[i + j], CommandView::fetch(dir, url, refspecs[k])));
    }
}

/// A commit that has been fetched stays where it is: git is asked for it once more, and that is all.
pub proof fn law_fetched_commit_stays(
    dir: Option<PathBuf>,
    commit: Seq<char>,
    trace: Seq<Exchange>,
    outcome: OutcomeView,
)
    requires
        trace::runs(script::settle(dir, ReferenceView::Commit(commit)), trace, outcome),
    ensures
        trace.len() == 1,
        trace[0].request() == RequestView::Git(CommandView::rev_parse(dir, commit)),
        outcome == OutcomeView::Done,
{
    let s = script::settle(dir, ReferenceView::Commit(commit));
    lemma_first(s, trace, outcome);
    lemma_over(trace::after(s, trace[0])->0, trace.skip(1), outcome);
}

/// The refspecs that were tried in vain, and what was printed of each.
pub open spec fn failed_attempts(
    dir: Option<PathBuf>,
    url: Seq<char>,
    refspecs: Seq<Seq<char>>,
    failures: Seq<IoFailureView>,
) -> Seq<Exchange>
    decreases failures.len(),
{
    if failures.len() == 0 || refspecs.len() == 0 {
        Seq::empty()
    } else {
        seq![
            Exchange::Git(CommandView::fetch(dir, url, refspecs[0]), Err(failures[0])),
            Exchange::Print(script::failed_line(refspecs[0])),
        ] + failed_attempts(dir, url, refspecs.drop_first(), failures.drop_first())
    }
}

proof fn lemma_failed_attempts(
    dir: Option<PathBuf>,
    url: Seq<char>,
    reference: ReferenceView,
    refspecs: Seq<Seq<char>>,
    failures: Seq<IoFailureView>,
    tail: Seq<Exchange>,
    outcome: OutcomeView,
)
    requires
        0 < refspecs.len(),
        failures.len() <= refspecs.len(),
        failures.len() < refspecs.len() ==> trace::runs(
            script::try_refspecs(dir, url, reference, refspecs.skip(failures.len() as int)),
            tail,
            outcome,
        ),
        failures.len() == refspecs.len() ==> tail.len() == 0 && outcome == OutcomeView::Failed(
            GitErrorView::Io(failures.last()),
        ),
    ensures
        trace::runs(
            script::try_refspecs(dir, url, reference, refspecs),
            failed_attempts(dir, url, refspecs, failures) + tail,
            outcome,
        ),
    decreases failures.len(),
{
    if failures.len() == 0 {
        assert(refspecs.skip(0) =~= refspecs);
        assert(failed_attempts(dir, url, refspecs, failures) + tail =~= tail);
    } else {
        let s = script::try_refspecs(dir, url, reference, refspecs);
        let others = refspecs.drop_first();
        let later = failures.drop_first();
        let attempt = Exchange::Git(CommandView::fetch(dir, url, refspecs[0]), Err(failures[0]));
        let line = Exchange::Print(script::failed_line(refspecs[0]));
        let rest = failed_attempts(dir, url, others, later) + tail;
        let printed = trace::after(s, attempt)->0;
        if refspecs.len() > 1 {
            assert(others.skip(later.len() as int) =~= refspecs.skip(failures.len() as int));
            lemma_failed_attempts(dir, url, reference, others, later, tail, outcome);
        } else {
            assert(rest =~= Seq::empty());
        }
        lemma_prepend(printed, line, rest, outcome);
        lemma_prepend(s, attempt, seq![line] + rest, outcome);
        assert(seq![attempt] + (seq![line] + rest) =~= failed_attempts(
            dir,
            url,
            refspecs,
            failures,
        ) + tail);
    }
}

/// The refspecs are tried in order, up to the first that can be fetched. None of the others is tried,
/// and the failures before it count for nothing. So it is of every reference, after the `lookup` of a
/// commit that is not found locally.
pub proof fn law_first_refspec_that_can_be_fetched(
    dir: Option<PathBuf>,
    url: Seq<char>,
    reference: ReferenceView,
    refspecs: Seq<Seq<char>>,
    lookup: Seq<Exchange>,
    failures: Seq<IoFailureView>,
    output: Seq<char>,
    tail: Seq<Exchange>,
    outcome: OutcomeView,
)
    requires
        failures.len() < refspecs.len(),
        not_found_locally(dir, reference, lookup),
        trace::runs(script::settle(dir, reference), tail, outcome),
    ensures
        ({
            let attempts = failed_attempts(dir, url, refspecs, failures) + (seq![
                Exchange::Git(
                    CommandView::fetch(dir, url, refspecs[failures.len() as int]),
                    Ok(output),
                ),
            ] + tail);
            &&& trace::runs(
                script::fetch_refspecs(dir, url, reference, refspecs),
                attempts,
                outcome,
            )
            &&& trace::runs(
                script::fetch(dir, url, reference, refspecs),
                lookup + attempts,
                outcome,
            )
        }),
{
    let left = refspecs.skip(failures.len() as int);
    let hit = Exchange::Git(
        CommandView::fetch(dir, url, refspecs[failures.len() as int]),
        Ok(output),
    );
    let attempts = failed_attempts(dir, url, refspecs, failures) + (seq![hit] + tail);
    if refspecs.len() == 1 {
        lemma_prepend(
            script::fetch_refspecs(dir, url, reference, refspecs),
            hit,
            tail,
            outcome,
        );
        assert(attempts =~= seq![hit] + tail);
    } else {
        lemma_prepend(script::try_refspecs(dir, url, reference, left), hit, tail, outcome);
        lemma_failed_attempts(dir, url, reference, refspecs, failures, seq![hit] + tail, outcome);
    }
    law_what_is_not_found_locally_is_fetched(
        dir,
        url,
        reference,
        refspecs,
        lookup,
        attempts,
        outcome,
    );
}

/// Where none of several refspecs can be fetched, the fetch fails as the last of them did. So it is
/// of every reference, after the `lookup` of a commit that is not found locally.
pub proof fn law_no_refspec_can_be_fetched(
    dir: Option<PathBuf>,
    url: Seq<char>,
    reference: ReferenceView,
    refspecs: Seq<Seq<char>>,
    lookup: Seq<Exchange>,
    failures: Seq<IoFailureView>,
)
    requires
        refspecs.len() > 1,
        failures.len() == refspecs.len(),
        not_found_locally(dir, reference, lookup),
    ensures
        trace::runs(
            script::fetch_refspecs(dir, url, reference, refspecs),
            failed_attempts(dir, url, refspecs, failures),
            OutcomeView::Failed(GitErrorView::Io(failures.last())),
        ),
        trace::runs(
            script::fetch(dir, url, reference, refspecs),
            lookup + failed_attempts(dir, url, refspecs, failures),
            OutcomeView::Failed(GitErrorView::Io(failures.last())),
        ),
{
    let outcome = OutcomeView::Failed(GitErrorView::Io(failures.last()));
    let attempts = failed_attempts(dir, url, refspecs, failures);
    lemma_failed_attempts(dir, url, reference, refspecs, failures, Seq::empty(), outcome);
    assert(attempts + Seq::<Exchange>::empty() =~= attempts);
    law_what_is_not_found_locally_is_fetched(
        dir,
        url,
        reference,
        refspecs,
        lookup,
        attempts,
        outcome,
    );
}

/// Where a lone refspec cannot be fetched, the fetch fails as it did, and nothing is printed. So it
/// is of every reference, after the `lookup` of a commit that is not found locally.
pub proof fn law_lone_refspec_cannot_be_fetched(
    dir: Option<PathBuf>,
    url: Seq<char>,
    reference: ReferenceView,
    refspec: Seq<char>,
    lookup: Seq<Exchange>,
    failure: IoFailureView,
)
    requires
        not_found_locally(dir, reference, lookup),
    ensures
        ({
            let attempt = seq![Exchange::Git(CommandView::fetch(dir, url, refspec), Err(failure))];
            let outcome = OutcomeView::Failed(GitErrorView::Io(failure));
            &&& trace::runs(
                script::fetch_refspecs(dir, url, reference, seq![refspec]),
                attempt,
                outcome,
            )
            &&& trace::runs(
                script::fetch(dir, url, reference, seq![refspec]),
                lookup + attempt,
                outcome,
            )
        }),
{
    let s = script::fetch_refspecs(dir, url, reference, seq![refspec]);
    let attempt = Exchange::Git(CommandView::fetch(dir, url, refspec), Err(failure));
    let outcome = OutcomeView::Failed(GitErrorView::Io(failure));
    lemma_prepend(s, attempt, Seq::empty(), outcome);
    assert(seq![attempt] + Seq::<Exchange>::empty() =~= seq![attempt]);
    law_what_is_not_found_locally_is_fetched(
        dir,
        url,
        reference,
        seq![refspec],
        lookup,
        seq![attempt],
        outcome,
    );
}

/// A fetched name of unknown kind that git cannot resolve locally is looked for among the remote's
/// branches, and checked out if it is one; else among its tags, and what it names there checked out.
/// The operation ends as that checkout does. What is neither is left alone.
pub proof fn law_unknown_name_is_checked_out(
    dir: Option<PathBuf>,
    name: Seq<char>,
    trace: Seq<Exchange>,
    outcome: OutcomeView,
)
    requires
        name != "HEAD"@,
        trace::runs(script::settle(dir, ReferenceView::Unknown(name)), trace, outcome),
    ensures
        trace.len() >= 1,
        trace[0].request() == RequestView::Git(CommandView::rev_parse(dir, name)),
        trace[0]->Git_1 is Ok ==> trace.len() == 1 && outcome == OutcomeView::Done,
        trace[0]->Git_1 is Err ==> {
            &&& trace.len() >= 2
            &&& trace[1].request() == RequestView::Git(
                CommandView::rev_parse(dir, "origin/"@ + name),
            )
            &&& trace[1]->Git_1 is Ok ==> trace::runs(
                script::checkout_branch(dir, name, script::done()),
                trace.skip(2),
                outcome,
            )
            &&& trace[1]->Git_1 is Err ==> {
                &&& trace.len() >= 3
                &&& trace[2].request() == RequestView::Git(
                    CommandView::rev_parse(dir, "origin/tags/"@ + name),
                )
                &&& trace[2]->Git_1 matches Ok(oid) ==> trace::runs(
                    script::checkout(dir, oid, script::done()),
                    trace.skip(3),
                    outcome,
                )
                &&& trace[2]->Git_1 is Err ==> trace.len() == 3 && outcome == OutcomeView::Done
            }
        },
{
    let s = script::settle(dir, ReferenceView::Unknown(name));
    lemma_first(s, trace, outcome);
    let rest = trace::after(s, trace[0])->0;
    if trace[0]->Git_1 is Ok {
        lemma_over(rest, trace.skip(1), outcome);
    } else {
        lemma_first(rest, trace.skip(1), outcome);
        assert(trace.skip(1).skip(1) =~= trace.skip(2));
        if trace[1]->Git_1 is Err {
            let tag = script::establish_tag(dir, name);
            lemma_first(tag, trace.skip(2), outcome);
            assert(trace.skip(2).skip(1) =~= trace.skip(3));
            if trace[2]->Git_1 is Err {
                lemma_over(script::done(), trace.skip(3), outcome);
            }
        }
    }
}

/// A fetched `HEAD` that git cannot resolve locally is the default branch of `origin`, and that is
/// checked out: the operation ends as that checkout does. Where the default branch cannot be found,
/// that is the failure, and nothing is checked out.
pub proof fn law_head_is_the_default_branch(
    dir: Option<PathBuf>,
    trace: Seq<Exchange>,
    outcome: OutcomeView,
)
    requires
        trace::runs(script::settle(dir, ReferenceView::Unknown("HEAD"@)), trace, outcome),
    ensures
        trace.len() >= 1,
        trace[0].request() == RequestView::Git(CommandView::rev_parse(dir, "HEAD"@)),
        trace[0]->Git_1 is Ok ==> trace.len() == 1 && outcome == OutcomeView::Done,
        trace[0]->Git_1 is Err ==> {
            &&& trace.len() >= 2
            &&& trace[1].request() == RequestView::Git(CommandView::ls_remote(dir, "origin"@))
            &&& match trace[1]->Git_1 {
                Ok(output) => match symref::default_branch(output) {
                    Some(branch) => trace::runs(
                        script::checkout_branch(dir, branch, script::done()),
                        trace.skip(2),
                        outcome,
                    ),
                    None => trace.len() == 2 && outcome == OutcomeView::Failed(
                        GitErrorView::default_branch("origin"@, output),
                    ),
                },
                Err(e) => trace.len() == 2 && outcome == OutcomeView::Failed(GitErrorView::Io(e)),
            }
        },
{
    let s = script::settle(dir, ReferenceView::Unknown("HEAD"@));
    lemma_first(s, trace, outcome);
    let rest = trace::after(s, trace[0])->0;
    if trace[0]->Git_1 is Ok {
        lemma_over(rest, trace.skip(1), outcome);
    } else {
        lemma_first(rest, trace.skip(1), outcome);
        assert(trace.skip(1).skip(1) =~= trace.skip(2));
        let found = trace::after(rest, trace[1])->0;
        if found is End {
            lemma_over(found, trace.skip(2), outcome);
        }
    }
}

/// Opening what is a repository asks for nothing but whether it is one.
pub proof fn law_open_keeps_a_repository(
    path: PathBuf,
    url: Seq<char>,
    output: Seq<char>,
    trace: Seq<Exchange>,
    outcome: OutcomeView,
)
    requires
        trace::runs(script::open(path, url), trace, outcome),
        trace.len() >= 1,
        trace[0] == Exchange::Git(CommandView::probe(Some(path)), Ok(output)),
    ensures
        trace.len() == 1,
        outcome == OutcomeView::Done,
{
    let s = script::open(path, url);
    lemma_first(s, trace, outcome);
    lemma_over(script::done(), trace.skip(1), outcome);
}

/// Opening what is no repository removes it, and goes on as an initialization. Where it cannot be
/// removed, that is the failure.
pub proof fn law_open_replaces_what_is_no_repository(
    path: PathBuf,
    url: Seq<char>,
    failure: IoFailureView,
    trace: Seq<Exchange>,
    outcome: OutcomeView,
)
    requires
        trace::runs(script::open(path, url), trace, outcome),
        trace.len() >= 1,
        trace[0] == Exchange::Git(CommandView::probe(Some(path)), Err(failure)),
    ensures
        trace.len() >= 2,
        trace[1].request() == RequestView::Act(DirActionView::Remove(path)),
        trace[1]->Act_1 is Ok ==> trace::runs(script::init(path, url), trace.skip(2), outcome),
        trace[1]->Act_1 matches Err(e) ==> trace.len() == 2 && outcome == OutcomeView::Failed(
            GitErrorView::Io(e),
        ),
{
    let s = script::open(path, url);
    lemma_first(s, trace, outcome);
    let replace = trace::after(s, trace[0])->0;
    lemma_first(replace, trace.skip(1), outcome);
    assert(trace.skip(1).skip(1) =~= trace.skip(2));
    let rest = trace::after(replace, trace[1])->0;
    if let Err(e) = trace[1]->Act_1 {
        lemma_over(rest, trace.skip(2), outcome);
    }
}

/// An initialization that succeeds has made the repository and its remote, in a directory that was
/// there or has been created.
pub proof fn law_init_done(path: PathBuf, url: Seq<char>, trace: Seq<Exchange>)
    requires
        trace::runs(script::init(path, url), trace, OutcomeView::Done),
    ensures
        ({
            let n = trace.len();
            &&& n == 3 || n == 4
            &&& trace[0] == Exchange::Check(ConditionView::IsDir(path), n == 3)
            &&& n == 4 ==> trace[1].request() == RequestView::Act(DirActionView::Create(path))
                && trace[1]->Act_1 is Ok
            &&& succeeded(trace[n - 2], CommandView::init(Some(path)))
            &&& succeeded(trace[n - 1], CommandView::remote_add(Some(path), url))
        }),
{
    let outcome = OutcomeView::Done;
    let s = script::init(path, url);
    let remote = script::run(CommandView::remote_add(Some(path), url), script::done());
    lemma_first(s, trace, outcome);
    let rest = trace::after(s, trace[0])->0;
    let here = if trace[0]->Check_1 {
        trace.skip(1)
    } else {
        lemma_first(rest, trace.skip(1), outcome);
        if let Err(e) = trace[1]->Act_1 {
            lemma_over(script::fail(GitErrorView::Io(e)), trace.skip(1).skip(1), outcome);
        }
        trace.skip(1).skip(1)
    };
    lemma_run_done(CommandView::init(Some(path)), remote, here, outcome);
    lemma_run_done(
        CommandView::remote_add(Some(path), url),
        script::done(),
        here.skip(1),
        outcome,
    );
    lemma_over(script::done(), here.skip(1).skip(1), outcome);
    assert(here[0] == trace[trace.len() - 2] && here.skip(1)[0] == trace[trace.len() - 1]);
}

/// What an initialization asks for, in order, where nothing fails.
pub open spec fn init_steps(path: PathBuf, url: Seq<char>, is_dir: bool) -> Seq<RequestView> {
    let check = seq![RequestView::Check(ConditionView::IsDir(path))];
    let make = seq![
        RequestView::Git(CommandView::init(Some(path))),
        RequestView::Git(CommandView::remote_add(Some(path), url)),
    ];
    if is_dir {
        check + make
    } else {
        check + seq![RequestView::Act(DirActionView::Create(path))] + make
    }
}

/// The run asks for `steps` in order, up to the first that fails. That one ends it, in the very
/// failure that came back. Where none fails, all are asked for, and the run ends in success.
pub open spec fn stops_at_a_failure(
    steps: Seq<RequestView>,
    trace: Seq<Exchange>,
    outcome: OutcomeView,
) -> bool {
    &&& 0 < trace.len() <= steps.len()
    &&& forall|i: int| 0 <= i < trace.len() ==> (#[trigger] trace[i]).request() == steps[i]
    &&& forall|i: int| 0 <= i < trace.len() - 1 ==> (#[trigger] trace[i]).failure() is None
    &&& match trace.last().failure() {
        Some(e) => outcome == OutcomeView::Failed(GitErrorView::Io(e)),
        None => trace.len() == steps.len() && outcome == OutcomeView::Done,
    }
}

/// The first step of an initialization to fail ends it, with its own failure, and no later step is
/// asked for. So it is of every run.
pub proof fn law_init_stops_at_a_failure(
    path: PathBuf,
    url: Seq<char>,
    trace: Seq<Exchange>,
    outcome: OutcomeView,
)
    requires
        trace::runs(script::init(path, url), trace, outcome),
    ensures
        trace.len() >= 1,
        stops_at_a_failure(init_steps(path, url, trace[0]->Check_1), trace, outcome),
{
    let s = script::init(path, url);
    lemma_first(s, trace, outcome);
    let rest = trace::after(s, trace[0])->0;
    if trace[0]->Check_1 {
        lemma_init_in_place(path, url, trace, 1, outcome);
    } else {
        lemma_first(rest, trace.skip(1), outcome);
        assert(trace.skip(1).skip(1) =~= trace.skip(2));
        match trace[1]->Act_1 {
            Ok(_) => {
                lemma_init_in_place(path, url, trace, 2, outcome);
            },
            Err(_) => {
                lemma_over(trace::after(rest, trace[1])->0, trace.skip(2), outcome);
            },
        }
    }
}

/// How a run goes on that has `k` exchanges behind it, and the repository and its remote to make.
proof fn lemma_init_in_place(
    path: PathBuf,
    url: Seq<char>,
    trace: Seq<Exchange>,
    k: int,
    outcome: OutcomeView,
)
    requires
        0 <= k <= trace.len(),
        trace::runs(script::init_in_place(path, url), trace.skip(k), outcome),
    ensures
        k < trace.len(),
        trace[k].request() == RequestView::Git(CommandView::init(Some(path))),
        trace[k]->Git_1 matches Err(e) ==> trace.len() == k + 1 && outcome == OutcomeView::Failed(
            GitErrorView::Io(e),
        ),
        trace[k]->Git_1 is Ok ==> {
            &&& trace.len() == k + 2
            &&& trace[k + 1].request() == RequestView::Git(
                CommandView::remote_add(Some(path), url),
            )
            &&& outcome == (match trace[k + 1]->Git_1 {
                Ok(_) => OutcomeView::Done,
                Err(e) => OutcomeView::Failed(GitErrorView::Io(e)),
            })
        },
{
    let s = script::init_in_place(path, url);
    let tail = trace.skip(k);
    lemma_first(s, tail, outcome);
    let rest = trace::after(s, tail[0])->0;
    if tail[0]->Git_1 is Ok {
        lemma_first(rest, tail.skip(1), outcome);
        assert(tail.skip(1)[0] == trace[k + 1]);
        lemma_over(trace::after(rest, trace[k + 1])->0, tail.skip(1).skip(1), outcome);
    } else {
        lemma_over(rest, tail.skip(1), outcome);
    }
}

/// A fetch into a sparse working tree is a fetch once the tree is made sparse.
pub proof fn law_sparse_checkout_fetches(
    dir: Option<PathBuf>,
    url: Seq<char>,
    reference: ReferenceView,
    refspecs: Seq<Seq<char>>,
    trace: Seq<Exchange>,
    outcome: OutcomeView,
)
    requires
        trace.len() >= 2,
        succeeded(trace[0], CommandView::sparse_init(dir)),
        succeeded(trace[1], CommandView::sparse_set(dir)),
    ensures
        trace::runs(script::sparse_checkout(dir, url, reference, refspecs), trace, outcome)
            <==> trace::runs(script::fetch(dir, url, reference, refspecs), trace.skip(2), outcome),
{
    let s = script::sparse_checkout(dir, url, reference, refspecs);
    let filter = trace::after(s, trace[0])->0;
    assert(trace.drop_first() =~= trace.skip(1));
    assert(trace.skip(1).drop_first() =~= trace.skip(2));
    assert(trace::runs(s, trace, outcome) <==> trace::runs(filter, trace.skip(1), outcome));
    assert(trace.skip(1)[0] == trace[1]);
}

/// A fetch into a sparse working tree fails as the first command that makes the tree sparse and fails,
/// and then nothing is fetched.
pub proof fn law_sparse_checkout_stops_at_a_failure(
    dir: Option<PathBuf>,
    url: Seq<char>,
    reference: ReferenceView,
    refspecs: Seq<Seq<char>>,
    trace: Seq<Exchange>,
    outcome: OutcomeView,
)
    requires
        trace::runs(script::sparse_checkout(dir, url, reference, refspecs), trace, outcome),
    ensures
        trace.len() >= 1,
        trace[0].request() == RequestView::Git(CommandView::sparse_init(dir)),
        trace[0]->Git_1 matches Err(e) ==> trace.len() == 1 && outcome == OutcomeView::Failed(
            GitErrorView::Io(e),
        ),
        trace[0]->Git_1 is Ok ==> {
            &&& trace.len() >= 2
            &&& trace[1].request() == RequestView::Git(CommandView::sparse_set(dir))
            &&& match trace[1]->Git_1 {
                Ok(_) => trace::runs(
                    script::fetch(dir, url, reference, refspecs),
                    trace.skip(2),
                    outcome,
                ),
                Err(e) => trace.len() == 2 && outcome == OutcomeView::Failed(GitErrorView::Io(e)),
            }
        },
{
    let s = script::sparse_checkout(dir, url, reference, refspecs);
    lemma_first(s, trace, outcome);
    let filter = trace::after(s, trace[0])->0;
    if trace[0]->Git_1 is Ok {
        lemma_first(filter, trace.skip(1), outcome);
        assert(trace.skip(1).skip(1) =~= trace.skip(2));
        if trace[1]->Git_1 is Err {
            lemma_over(trace::after(filter, trace[1])->0, trace.skip(2), outcome);
        }
    } else {
        lemma_over(filter, trace.skip(1), outcome);
    }
}

/// The text that comes back is that of the description file, read after a checkout of what the
/// reference names.
pub proof fn law_description_is_read_at_the_reference(
    path: PathBuf,
    reference: ReferenceView,
    directory: Option<PathBuf>,
    trace: Seq<Exchange>,
    content: Seq<char>,
)
    requires
        trace::runs(
            script::get_description_file_content(path, reference, directory),
            trace,
            OutcomeView::Text(content),
        ),
    ensures
        ({
            let n = trace.len();
            let file = DescriptionFileView::below(path, directory);
            &&& n >= 4
            &&& trace[0].request() == RequestView::Git(
                CommandView::rev_parse(Some(path), reference.name()),
            )
            &&& trace[0]->Git_1 matches Ok(oid) && trace::runs(
                script::checkout(Some(path), oid, script::done()),
                trace.subrange(1, n - 2),
                OutcomeView::Done,
            )
            &&& trace[n - 2] == Exchange::Check(ConditionView::Exists(file), true)
            &&& trace[n - 1] == Exchange::Read(file, Ok(content))
        }),
{
    let outcome = OutcomeView::Text(content);
    let file = DescriptionFileView::below(path, directory);
    let read = script::read_description(file);
    let s = script::get_description_file_content(path, reference, directory);
    lemma_first(s, trace, outcome);
    let rest = trace::after(s, trace[0])->0;
    let tail = trace.skip(1);
    match trace[0]->Git_1 {
        Ok(oid) => {
            let i = lemma_checkout_splits(Some(path), oid, read, tail, outcome);
            let end = tail.skip(i);
            lemma_first(read, end, outcome);
            let found = trace::after(read, end[0])->0;
            if end[0]->Check_1 {
                lemma_first(found, end.skip(1), outcome);
                let last = trace::after(found, end.skip(1)[0])->0;
                lemma_over(last, end.skip(1).skip(1), outcome);
                assert(tail.take(i) =~= trace.subrange(1, trace.len() - 2));
            } else {
                lemma_over(found, end.skip(1), outcome);
            }
        },
        Err(_) => {
            lemma_over(rest, tail, outcome);
        },
    }
}

/// A run of a checkout with something after it is a run of the checkout alone, and then of what
/// follows.
proof fn lemma_checkout_splits(
    dir: Option<PathBuf>,
    oid: Seq<char>,
    next: Script,
    trace: Seq<Exchange>,
    outcome: OutcomeView,
) -> (i: int)
    requires
        trace::runs(script::checkout(dir, oid, next), trace, outcome),
        !(outcome is Failed),
    ensures
        1 <= i <= trace.len(),
        trace::runs(script::checkout(dir, oid, script::done()), trace.take(i), OutcomeView::Done),
        trace::runs(next, trace.skip(i), outcome),
{
    let s = script::checkout(dir, oid, next);
    let alone = script::checkout(dir, oid, script::done());
    lemma_first(s, trace, outcome);
    let rest = trace::after(s, trace[0])->0;
    if trace[0]->Git_1 == Ok::<Seq<char>, IoFailureView>(oid) {
        lemma_prepend(alone, trace[0], Seq::empty(), OutcomeView::Done);
        assert(trace.take(1) =~= seq![trace[0]] + Seq::<Exchange>::empty());
        1
    } else {
        let tail = trace.skip(1);
        lemma_first(rest, tail, outcome);
        match tail[0]->Git_1 {
            Ok(_) => {
                let end = tail.skip(1);
                let i = lemma_submodules_done(dir, next, end, outcome);
                let part = end.take(i);
                let submodules = script::update_submodules(dir, script::done());
                if i == 1 {
                    lemma_prepend(submodules, part[0], Seq::empty(), OutcomeView::Done);
                    assert(part =~= seq![part[0]] + Seq::<Exchange>::empty());
                } else {
                    let update = script::run_submodule_update(dir, script::done());
                    assert(part.len() == 2);
                    assert(succeeded(part[1], CommandView::submodule_update(dir)));
                    lemma_prepend(update, part[1], Seq::empty(), OutcomeView::Done);
                    lemma_prepend(
                        submodules,
                        part[0],
                        seq![part[1]] + Seq::empty(),
                        OutcomeView::Done,
                    );
                    assert(part =~= seq![part[0]] + (seq![part[1]] + Seq::<Exchange>::empty()));
                }
                let run = script::run_checkout(dir, oid, script::done());
                lemma_prepend(run, tail[0], part, OutcomeView::Done);
                lemma_prepend(alone, trace[0], seq![tail[0]] + part, OutcomeView::Done);
                assert(trace.take(i + 2) =~= seq![trace[0]] + (seq![tail[0]] + part));
                assert(trace.skip(i + 2) =~= end.skip(i));
                i + 2
            },
            Err(e) => {
                lemma_over(
                    script::fail(GitErrorView::checkout(oid, e)),
                    tail.skip(1),
                    outcome,
                );
                1
            },
        }
    }
}

/// A reference that the local repository does not have has no description file, and nothing is
/// checked out to look for it.
pub proof fn law_description_of_an_unknown_reference(
    path: PathBuf,
    reference: ReferenceView,
    directory: Option<PathBuf>,
    failure: IoFailureView,
    trace: Seq<Exchange>,
    outcome: OutcomeView,
)
    requires
        trace::runs(
            script::get_description_file_content(path, reference, directory),
            trace,
            outcome,
        ),
        trace.len() >= 1,
        trace[0] == Exchange::Git(
            CommandView::rev_parse(Some(path), reference.name()),
            Err(failure),
        ),
    ensures
        trace.len() == 1,
        outcome == OutcomeView::Failed(GitErrorView::no_reference()),
{
    let s = script::get_description_file_content(path, reference, directory);
    lemma_first(s, trace, outcome);
    lemma_over(trace::after(s, trace[0])->0, trace.skip(1), outcome);
}

/// No file is asked for: neither whether it is there, nor what it holds.
pub open spec fn asks_for_no_file(trace: Seq<Exchange>) -> bool {
    forall|i: int|
        0 <= i < trace.len() ==> !((#[trigger] trace[i]) is Read) && !(trace[i] matches Exchange::Check(
            condition,
            _,
        ) && condition is Exists)
}

/// Once its reference is checked out, what is left of reading a description file is to look for the file
/// and read it.
pub proof fn law_description_follows_the_checkout(
    path: PathBuf,
    reference: ReferenceView,
    directory: Option<PathBuf>,
    oid: Seq<char>,
    checkout: Seq<Exchange>,
    tail: Seq<Exchange>,
    outcome: OutcomeView,
)
    requires
        trace::runs(
            script::checkout(Some(path), oid, script::done()),
            checkout,
            OutcomeView::Done,
        ),
    ensures
        ({
            let known = Exchange::Git(
                CommandView::rev_parse(Some(path), reference.name()),
                Ok(oid),
            );
            let file = DescriptionFileView::below(path, directory);
            trace::runs(
                script::get_description_file_content(path, reference, directory),
                seq![known] + (checkout + tail),
                outcome,
            ) <==> trace::runs(script::read_description(file), tail, outcome)
        }),
{
    let known = Exchange::Git(CommandView::rev_parse(Some(path), reference.name()), Ok(oid));
    let read = script::read_description(DescriptionFileView::below(path, directory));
    let s = script::get_description_file_content(path, reference, directory);
    lemma_step(s, known, checkout + tail, outcome);
    let end = OutcomeView::Done;
    lemma_checkout_goes_on(Some(path), oid, checkout, end, read, tail, outcome);
}

/// A checkout that fails is the failure of reading the description file at its reference: nothing comes
/// after it, and no file is asked for.
pub proof fn law_description_needs_the_checkout(
    path: PathBuf,
    reference: ReferenceView,
    directory: Option<PathBuf>,
    oid: Seq<char>,
    checkout: Seq<Exchange>,
    error: GitErrorView,
    tail: Seq<Exchange>,
    outcome: OutcomeView,
)
    requires
        trace::runs(
            script::checkout(Some(path), oid, script::done()),
            checkout,
            OutcomeView::Failed(error),
        ),
    ensures
        ({
            let known = Exchange::Git(
                CommandView::rev_parse(Some(path), reference.name()),
                Ok(oid),
            );
            &&& trace::runs(
                script::get_description_file_content(path, reference, directory),
                seq![known] + (checkout + tail),
                outcome,
            ) <==> tail.len() == 0 && outcome == OutcomeView::Failed(error)
            &&& asks_for_no_file(seq![known] + checkout)
        }),
{
    let known = Exchange::Git(CommandView::rev_parse(Some(path), reference.name()), Ok(oid));
    let read = script::read_description(DescriptionFileView::below(path, directory));
    let s = script::get_description_file_content(path, reference, directory);
    let end = OutcomeView::Failed(error);
    lemma_step(s, known, checkout + tail, outcome);
    lemma_checkout_goes_on(Some(path), oid, checkout, end, read, tail, outcome);
    confinement::law_checkout_is_confined(Some(path), oid, checkout, end);
    let trace = seq![known] + checkout;
    assert forall|i: int| 0 <= i < trace.len() implies !((#[trigger] trace[i]) is Read) && !(
    trace[i] matches Exchange::Check(condition, _) && condition is Exists) by {
        if i > 0 {
            assert(trace[i] == checkout[i - 1]);
            assert(confinement::checkout_request(Some(path), oid, checkout[i - 1].request()));
        }
    }
}

/// A description file that is not there once its reference is checked out is reported as not found, and
/// nothing is read.
pub proof fn law_description_that_is_missing(
    path: PathBuf,
    reference: ReferenceView,
    directory: Option<PathBuf>,
    oid: Seq<char>,
    checkout: Seq<Exchange>,
    tail: Seq<Exchange>,
    outcome: OutcomeView,
)
    requires
        trace::runs(
            script::checkout(Some(path), oid, script::done()),
            checkout,
            OutcomeView::Done,
        ),
    ensures
        ({
            let known = Exchange::Git(
                CommandView::rev_parse(Some(path), reference.name()),
                Ok(oid),
            );
            let file = DescriptionFileView::below(path, directory);
            let missing = Exchange::Check(ConditionView::Exists(file), false);
            trace::runs(
                script::get_description_file_content(path, reference, directory),
                seq![known] + (checkout + (seq![missing] + tail)),
                outcome,
            ) <==> tail.len() == 0 && outcome == OutcomeView::Failed(GitErrorView::no_description())
        }),
{
    let file = DescriptionFileView::below(path, directory);
    let missing = Exchange::Check(ConditionView::Exists(file), false);
    let rest = seq![missing] + tail;
    law_description_follows_the_checkout(
        path,
        reference,
        directory,
        oid,
        checkout,
        rest,
        outcome,
    );
    lemma_step(script::read_description(file), missing, tail, outcome);
}

/// A description file that is there once its reference is checked out is read, and what comes back of
/// that is the end: its text, or the failure to read it.
pub proof fn law_description_that_is_there(
    path: PathBuf,
    reference: ReferenceView,
    directory: Option<PathBuf>,
    oid: Seq<char>,
    checkout: Seq<Exchange>,
    reply: Result<Seq<char>, IoFailureView>,
    tail: Seq<Exchange>,
    outcome: OutcomeView,
)
    requires
        trace::runs(
            script::checkout(Some(path), oid, script::done()),
            checkout,
            OutcomeView::Done,
        ),
    ensures
        ({
            let known = Exchange::Git(
                CommandView::rev_parse(Some(path), reference.name()),
                Ok(oid),
            );
            let file = DescriptionFileView::below(path, directory);
            let there = Exchange::Check(ConditionView::Exists(file), true);
            let read = Exchange::Read(file, reply);
            trace::runs(
                script::get_description_file_content(path, reference, directory),
                seq![known] + (checkout + (seq![there] + (seq![read] + tail))),
                outcome,
            ) <==> tail.len() == 0 && outcome == (match reply {
                Ok(content) => OutcomeView::Text(content),
                Err(e) => OutcomeView::Failed(GitErrorView::Io(e)),
            })
        }),
{
    let file = DescriptionFileView::below(path, directory);
    let there = Exchange::Check(ConditionView::Exists(file), true);
    let read = Exchange::Read(file, reply);
    let rest = seq![there] + (seq![read] + tail);
    law_description_follows_the_checkout(
        path,
        reference,
        directory,
        oid,
        checkout,
        rest,
        outcome,
    );
    lemma_step(script::read_description(file), there, seq![read] + tail, outcome);
    lemma_step(script::read_file(file), read, tail, outcome);
}

/// A branch or tag is parsed to a commit: git is asked for the commit that the name leads to, and the
/// one that it prints is the end.
pub proof fn law_name_is_parsed_to_a_commit(
    dir: Option<PathBuf>,
    name: Seq<char>,
    reply: Result<Seq<char>, IoFailureView>,
)
    requires
        !reference::is_full_hash(name),
    ensures
        ({
            let ask = CommandView::plain(dir, seq!["rev-parse"@, name + "^{commit}"@]);
            trace::runs(
                script::rev_parse(dir, name),
                seq![Exchange::Git(ask, reply)],
                match reply {
                    Ok(commit) => OutcomeView::Oid(commit),
                    Err(_) => OutcomeView::Failed(GitErrorView::unresolved(name)),
                },
            )
        }),
{
    reveal_with_fuel(trace::runs, 2);
}

/// A full hash is handed to git as it is, so that nothing asks whether there is such an object.
pub proof fn law_full_hash_is_not_checked(
    dir: Option<PathBuf>,
    hash: Seq<char>,
    reply: Result<Seq<char>, IoFailureView>,
)
    requires
        reference::is_full_hash(hash),
    ensures
        ({
            let ask = CommandView::plain(dir, seq!["rev-parse"@, hash]);
            trace::runs(
                script::rev_parse(dir, hash),
                seq![Exchange::Git(ask, reply)],
                match reply {
                    Ok(oid) => OutcomeView::Oid(oid),
                    Err(_) => OutcomeView::Failed(GitErrorView::unresolved(hash)),
                },
            )
        }),
{
    reveal_with_fuel(trace::runs, 2);
}

/// The two ways to resolve a reference ask for the same command, and agree on what it names.
pub proof fn law_ref_as_oid_agrees(
    dir: Option<PathBuf>,
    reference: Seq<char>,
    trace: Seq<Exchange>,
    oid: Seq<char>,
)
    ensures
        trace::runs(script::rev_parse(dir, reference), trace, OutcomeView::Oid(oid))
            <==> trace::runs(script::ref_as_oid(dir, reference), trace, OutcomeView::Oid(oid)),
        trace::runs(
            script::rev_parse(dir, reference),
            trace,
            OutcomeView::Failed(GitErrorView::unresolved(reference)),
        ) <==> trace::runs(script::ref_as_oid(dir, reference), trace, OutcomeView::Missing),
{
    reveal_with_fuel(trace::runs, 2);
}

/// The command moves a branch or a tag by force.
pub open spec fn forces_a_reference(command: CommandView) -> bool {
    let args = command.args;
    ||| args[0] == "reset"@
    ||| args[0] == "tag"@
    ||| args[0] == "branch"@ && args[1] == "-f"@
}

/// A fetch of a commit, or of a name of unknown kind, moves no branch and no tag by force.
pub proof fn law_other_references_are_not_forced(
    dir: Option<PathBuf>,
    url: Seq<char>,
    reference: ReferenceView,
    refspecs: Seq<Seq<char>>,
    trace: Seq<Exchange>,
    outcome: OutcomeView,
)
    requires
        reference is Commit || reference is Unknown,
        refspecs.len() > 0,
        trace::runs(script::fetch(dir, url, reference, refspecs), trace, outcome),
    ensures
        forall|i: int|
            0 <= i < trace.len() ==> ((#[trigger] trace[i]) matches Exchange::Git(c, _)
                ==> !forces_a_reference(c)),
{
    confinement::law_fetch_is_confined(dir, url, reference, refspecs, trace, outcome);
    lemma_first_words();
}

/// A command that fetches never prompts, and works on the repository of its directory.
pub open spec fn is_quiet(command: CommandView) -> bool {
    &&& command.env.contains(EnvChangeView::Assign("GIT_TERMINAL_PROMPT"@, "0"@))
    &&& command.env.contains(EnvChangeView::Remove("GIT_DIR"@))
}

/// Each command of a fetch that fetches, and no other, is quiet as [`is_quiet`] says.
pub proof fn law_fetch_never_prompts(
    dir: Option<PathBuf>,
    url: Seq<char>,
    reference: ReferenceView,
    refspecs: Seq<Seq<char>>,
    trace: Seq<Exchange>,
    outcome: OutcomeView,
)
    requires
        refspecs.len() > 0,
        trace::runs(script::fetch(dir, url, reference, refspecs), trace, outcome),
    ensures
        forall|i: int|
            0 <= i < trace.len() ==> ((#[trigger] trace[i]) matches Exchange::Git(c, _) ==> (
            c.args[0] == "fetch"@ <==> is_quiet(c))),
{
    confinement::law_fetch_is_confined(dir, url, reference, refspecs, trace, outcome);
    lemma_first_words();
    assert forall|i: int| 0 <= i < trace.len() && (#[trigger] trace[i]) is Git implies (
    trace[i]->Git_0.args[0] == "fetch"@ <==> is_quiet(trace[i]->Git_0)) by {
        let c = trace[i]->Git_0;
        if c.args[0] == "fetch"@ {
            assert(c.env[0] == EnvChangeView::Assign("GIT_TERMINAL_PROMPT"@, "0"@));
            assert(c.env[1] == EnvChangeView::Remove("GIT_DIR"@));
        }
    }
}

/// The words that git's subcommands begin with differ.
pub(crate) proof fn lemma_first_words()
    ensures
        "rev-parse"@ != "reset"@ && "rev-parse"@ != "tag"@ && "rev-parse"@ != "branch"@
            && "rev-parse"@ != "fetch"@,
        "cat-file"@ != "reset"@ && "cat-file"@ != "tag"@ && "cat-file"@ != "branch"@ && "cat-file"@
            != "fetch"@,
        "checkout"@ != "reset"@ && "checkout"@ != "tag"@ && "checkout"@ != "branch"@ && "checkout"@
            != "fetch"@,
        "submodule"@ != "reset"@ && "submodule"@ != "tag"@ && "submodule"@ != "branch"@
            && "submodule"@ != "fetch"@,
        "ls-remote"@ != "reset"@ && "ls-remote"@ != "tag"@ && "ls-remote"@ != "branch"@
            && "ls-remote"@ != "fetch"@,
        "fetch"@ != "reset"@ && "fetch"@ != "tag"@ && "fetch"@ != "branch"@,
{
    reveal_strlit("rev-parse");
    reveal_strlit("cat-file");
    reveal_strlit("checkout");
    reveal_strlit("submodule");
    reveal_strlit("ls-remote");
    reveal_strlit("fetch");
    reveal_strlit("reset");
    reveal_strlit("tag");
    reveal_strlit("branch");
    assert("rev-parse"@.len() == 9 && "submodule"@.len() == 9 && "ls-remote"@.len() == 9);
    assert("cat-file"@.len() == 8 && "checkout"@.len() == 8 && "branch"@.len() == 6);
    assert("fetch"@.len() == 5 && "reset"@.len() == 5 && "tag"@.len() == 3);
    assert("fetch"@[0] == 'f' && "reset"@[0] == 'r');
}

} // verus!
