//! Runs of an operation: what it asked for, and what came back.
use vstd::prelude::*;

use crate::command::CommandView;
use crate::error::IoFailureView;
use crate::request::{
    Answer, ConditionView, DescriptionFileView, DirActionView, Effect, OutcomeView,
};
use crate::script::Script;

verus! {

/// A piece of outside work.
pub enum RequestView {
    Git(CommandView),
    Read(DescriptionFileView),
    Act(DirActionView),
    Check(ConditionView),
    Print(Seq<char>),
}

/// A piece of outside work, with what came back.
pub enum Exchange {
    Git(CommandView, Answer),
    Read(DescriptionFileView, Answer),
    Act(DirActionView, Effect),
    Check(ConditionView, bool),
    Print(Seq<char>),
}

impl Exchange {
    /// The work that was asked for.
    pub open spec fn request(self) -> RequestView {
        match self {
            Exchange::Git(command, _) => RequestView::Git(command),
            Exchange::Read(file, _) => RequestView::Read(file),
            Exchange::Act(action, _) => RequestView::Act(action),
            Exchange::Check(condition, _) => RequestView::Check(condition),
            Exchange::Print(line) => RequestView::Print(line),
        }
    }

    /// The failure that came back, if one did.
    pub open spec fn failure(self) -> Option<IoFailureView> {
        match self {
            Exchange::Git(_, Err(e)) => Some(e),
            Exchange::Read(_, Err(e)) => Some(e),
            Exchange::Act(_, Err(e)) => Some(e),
            _ => None,
        }
    }
}

/// The script that is left of `s` after the exchange `x`, if it is one that `s` asks for.
pub open spec fn after(s: Script, x: Exchange) -> Option<Script> {
    match (s, x) {
        (Script::Git(asked, rest), Exchange::Git(command, reply)) => if asked == command {
            Some(rest(reply))
        } else {
            None
        },
        (Script::Read(asked, rest), Exchange::Read(file, reply)) => if asked == file {
            Some(rest(reply))
        } else {
            None
        },
        (Script::Act(asked, rest), Exchange::Act(action, reply)) => if asked == action {
            Some(rest(reply))
        } else {
            None
        },
        (Script::Check(asked, rest), Exchange::Check(condition, reply)) => if asked == condition {
            Some(rest(reply))
        } else {
            None
        },
        (Script::Print(asked, rest), Exchange::Print(line)) => if asked == line {
            Some(*rest)
        } else {
            None
        },
        _ => None,
    }
}

/// `trace` is a run of `s`, from its beginning to its end in `outcome`.
pub open spec fn runs(s: Script, trace: Seq<Exchange>, outcome: OutcomeView) -> bool
    decreases trace.len(),
{
    if trace.len() == 0 {
        s == Script::End(outcome)
    } else {
        after(s, trace[0]) matches Some(rest) && runs(rest, trace.drop_first(), outcome)
    }
}

/// `s` asks for at most `n` pieces of outside work, each of which `asks` admits, and ends in a
/// failure or in an outcome that `ends` admits.
pub open spec fn obeys(
    s: Script,
    n: nat,
    asks: spec_fn(RequestView) -> bool,
    ends: spec_fn(OutcomeView) -> bool,
) -> bool
    decreases n,
{
    match s {
        Script::End(outcome) => outcome is Failed || ends(outcome),
        Script::Git(command, rest) => n > 0 && asks(RequestView::Git(command)) && forall|r: Answer|
            obeys(#[trigger] rest(r), (n - 1) as nat, asks, ends),
        Script::Read(file, rest) => n > 0 && asks(RequestView::Read(file)) && forall|r: Answer|
            obeys(#[trigger] rest(r), (n - 1) as nat, asks, ends),
        Script::Act(action, rest) => n > 0 && asks(RequestView::Act(action)) && forall|r: Effect|
            obeys(#[trigger] rest(r), (n - 1) as nat, asks, ends),
        Script::Check(condition, rest) => n > 0 && asks(RequestView::Check(condition))
            && forall|r: bool| obeys(#[trigger] rest(r), (n - 1) as nat, asks, ends),
        Script::Print(line, rest) => n > 0 && asks(RequestView::Print(line)) && obeys(
            *rest,
            (n - 1) as nat,
            asks,
            ends,
        ),
    }
}

pub proof fn lemma_obeys_more(
    s: Script,
    n: nat,
    m: nat,
    asks: spec_fn(RequestView) -> bool,
    ends: spec_fn(OutcomeView) -> bool,
)
    requires
        obeys(s, n, asks, ends),
        n <= m,
    ensures
        obeys(s, m, asks, ends),
    decreases n,
{
    match s {
        Script::End(_) => {},
        Script::Git(_, rest) => {
            assert forall|r: Answer| obeys(#[trigger] rest(r), (m - 1) as nat, asks, ends) by {
                assert(obeys(rest(r), (n - 1) as nat, asks, ends));
                lemma_obeys_more(rest(r), (n - 1) as nat, (m - 1) as nat, asks, ends);
            }
        },
        Script::Read(_, rest) => {
            assert forall|r: Answer| obeys(#[trigger] rest(r), (m - 1) as nat, asks, ends) by {
                assert(obeys(rest(r), (n - 1) as nat, asks, ends));
                lemma_obeys_more(rest(r), (n - 1) as nat, (m - 1) as nat, asks, ends);
            }
        },
        Script::Act(_, rest) => {
            assert forall|r: Effect| obeys(#[trigger] rest(r), (m - 1) as nat, asks, ends) by {
                assert(obeys(rest(r), (n - 1) as nat, asks, ends));
                lemma_obeys_more(rest(r), (n - 1) as nat, (m - 1) as nat, asks, ends);
            }
        },
        Script::Check(_, rest) => {
            assert forall|r: bool| obeys(#[trigger] rest(r), (m - 1) as nat, asks, ends) by {
                assert(obeys(rest(r), (n - 1) as nat, asks, ends));
                lemma_obeys_more(rest(r), (n - 1) as nat, (m - 1) as nat, asks, ends);
            }
        },
        Script::Print(_, rest) => {
            lemma_obeys_more(*rest, (n - 1) as nat, (m - 1) as nat, asks, ends);
        },
    }
}

/// What every script of an operation obeys, every run of it does.
pub proof fn lemma_obeys_runs(
    s: Script,
    n: nat,
    asks: spec_fn(RequestView) -> bool,
    ends: spec_fn(OutcomeView) -> bool,
    trace: Seq<Exchange>,
    outcome: OutcomeView,
)
    requires
        obeys(s, n, asks, ends),
        runs(s, trace, outcome),
    ensures
        trace.len() <= n,
        forall|i: int| 0 <= i < trace.len() ==> asks(#[trigger] trace[i].request()),
        outcome is Failed || ends(outcome),
    decreases trace.len(),
{
    if trace.len() > 0 {
        let rest = after(s, trace[0])->0;
        match (s, trace[0]) {
            (Script::Git(_, k), Exchange::Git(_, r)) => {
                assert(obeys(k(r), (n - 1) as nat, asks, ends));
            },
            (Script::Read(_, k), Exchange::Read(_, r)) => {
                assert(obeys(k(r), (n - 1) as nat, asks, ends));
            },
            (Script::Act(_, k), Exchange::Act(_, r)) => {
                assert(obeys(k(r), (n - 1) as nat, asks, ends));
            },
            (Script::Check(_, k), Exchange::Check(_, r)) => {
                assert(obeys(k(r), (n - 1) as nat, asks, ends));
            },
            _ => {},
        }
        lemma_obeys_runs(rest, (n - 1) as nat, asks, ends, trace.drop_first(), outcome);
        assert forall|i: int| 0 <= i < trace.len() implies asks(#[trigger] trace[i].request()) by {
            if i > 0 {
                assert(trace[i] == trace.drop_first()[i - 1]);
                assert(asks(trace.drop_first()[i - 1].request()));
            }
        }
    }
}

} // verus!
