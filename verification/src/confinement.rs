//! What the operations can ask for, and how much of it.
use std::path::PathBuf;

use vstd::prelude::*;

use crate::command::CommandView;
use crate::error::GitErrorView;
use crate::reference::ReferenceView;
use crate::request::{Answer, ConditionView, DescriptionFileView, DirActionView, OutcomeView};
use crate::script::{self, Script};
use crate::symref;
use crate::trace::{self, Exchange, RequestView};

verus! {

/// What an update of the submodules can ask for.
pub open spec fn submodule_request(dir: Option<PathBuf>, r: RequestView) -> bool {
    ||| r == RequestView::Check(ConditionView::SubmodulesDisabled)
    ||| r == RequestView::Git(CommandView::submodule_update(dir))
}

/// What the checkout of the commit `oid` can ask for.
pub open spec fn checkout_request(dir: Option<PathBuf>, oid: Seq<char>, r: RequestView) -> bool {
    ||| r == RequestView::Git(CommandView::rev_parse(dir, "HEAD"@))
    ||| r == RequestView::Git(CommandView::checkout(dir, oid))
    ||| submodule_request(dir, r)
}

/// What the checkout of `branch` can ask for.
pub open spec fn checkout_branch_request(
    dir: Option<PathBuf>,
    branch: Seq<char>,
    r: RequestView,
) -> bool {
    ||| r == RequestView::Git(CommandView::checkout_branch(dir, branch))
    ||| submodule_request(dir, r)
}

/// What bringing a local reference up to date can ask for.
pub open spec fn update_request(
    dir: Option<PathBuf>,
    reference: ReferenceView,
    r: RequestView,
) -> bool {
    match reference {
        ReferenceView::Branch(branch) => {
            ||| r == RequestView::Git(CommandView::show_current(dir))
            ||| r == RequestView::Git(CommandView::reset(dir, branch))
            ||| r == RequestView::Git(CommandView::force_branch(dir, branch))
        },
        ReferenceView::Tag(tag) => r == RequestView::Git(CommandView::force_tag(dir, tag)),
        _ => false,
    }
}

/// What giving a fetched reference its local counterpart can ask for.
pub open spec fn establish_request(
    dir: Option<PathBuf>,
    reference: ReferenceView,
    r: RequestView,
) -> bool {
    match reference {
        ReferenceView::Branch(branch) => checkout_branch_request(dir, branch, r),
        ReferenceView::Unknown(name) => if name == "HEAD"@ {
            ||| r == RequestView::Git(CommandView::ls_remote(dir, "origin"@))
            ||| exists|branch: Seq<char>| #[trigger] checkout_branch_request(dir, branch, r)
        } else {
            ||| r == RequestView::Git(CommandView::rev_parse(dir, "origin/"@ + name))
            ||| r == RequestView::Git(CommandView::rev_parse(dir, "origin/tags/"@ + name))
            ||| checkout_branch_request(dir, name, r)
            ||| exists|oid: Seq<char>| #[trigger] checkout_request(dir, oid, r)
        },
        _ => false,
    }
}

/// What a fetch can ask for.
pub open spec fn fetch_request(
    dir: Option<PathBuf>,
    url: Seq<char>,
    reference: ReferenceView,
    refspecs: Seq<Seq<char>>,
    r: RequestView,
) -> bool {
    ||| r == RequestView::Git(CommandView::rev_parse(dir, reference.name()))
    ||| reference is Commit && exists|oid: Seq<char>|
        r == RequestView::Git(#[trigger] CommandView::cat_file(dir, oid))
    ||| exists|i: int|
        0 <= i < refspecs.len() && r == RequestView::Git(
            CommandView::fetch(dir, url, #[trigger] refspecs[i]),
        )
    ||| refspecs.len() > 1 && exists|i: int|
        0 <= i < refspecs.len() && r == RequestView::Print(
            script::failed_line(#[trigger] refspecs[i]),
        )
    ||| establish_request(dir, reference, r)
    ||| update_request(dir, reference, r)
}

/// What reading the description file can ask for.
pub open spec fn description_request(
    path: PathBuf,
    reference: ReferenceView,
    directory: Option<PathBuf>,
    r: RequestView,
) -> bool {
    let file = DescriptionFileView::below(path, directory);
    ||| r == RequestView::Git(CommandView::rev_parse(Some(path), reference.name()))
    ||| exists|oid: Seq<char>| #[trigger] checkout_request(Some(path), oid, r)
    ||| r == RequestView::Check(ConditionView::Exists(file))
    ||| r == RequestView::Read(file)
}

/// What the initialization of a repository can ask for.
pub open spec fn init_request(path: PathBuf, url: Seq<char>, r: RequestView) -> bool {
    ||| r == RequestView::Check(ConditionView::IsDir(path))
    ||| r == RequestView::Act(DirActionView::Create(path))
    ||| r == RequestView::Git(CommandView::init(Some(path)))
    ||| r == RequestView::Git(CommandView::remote_add(Some(path), url))
}

/// What a fetch into a sparse working tree can ask for.
pub open spec fn sparse_checkout_request(
    dir: Option<PathBuf>,
    url: Seq<char>,
    reference: ReferenceView,
    refspecs: Seq<Seq<char>>,
    r: RequestView,
) -> bool {
    ||| r == RequestView::Git(CommandView::sparse_init(dir))
    ||| r == RequestView::Git(CommandView::sparse_set(dir))
    ||| fetch_request(dir, url, reference, refspecs, r)
}

/// What opening a repository can ask for.
pub open spec fn open_request(path: PathBuf, url: Seq<char>, r: RequestView) -> bool {
    ||| r == RequestView::Git(CommandView::probe(Some(path)))
    ||| r == RequestView::Act(DirActionView::Remove(path))
    ||| init_request(path, url, r)
}

/// All commands of the run are run in the directory `dir`.
pub open spec fn in_place(dir: Option<PathBuf>, trace: Seq<Exchange>) -> bool {
    forall|i: int|
        0 <= i < trace.len() ==> ((#[trigger] trace[i]) matches Exchange::Git(c, _) ==> c.dir == dir)
}

/// The run creates and removes no directory.
pub open spec fn leaves_directories(trace: Seq<Exchange>) -> bool {
    forall|i: int| 0 <= i < trace.len() ==> !((#[trigger] trace[i]) is Act)
}

proof fn lemma_update_submodules(
    dir: Option<PathBuf>,
    next: Script,
    n: nat,
    asks: spec_fn(RequestView) -> bool,
    ends: spec_fn(OutcomeView) -> bool,
)
    requires
        trace::obeys(next, n, asks, ends),
        forall|r: RequestView| submodule_request(dir, r) ==> #[trigger] asks(r),
    ensures
        trace::obeys(script::update_submodules(dir, next), n + 2, asks, ends),
{
    reveal_with_fuel(trace::obeys, 2);
    trace::lemma_obeys_more(next, n, n + 1, asks, ends);
    assert(trace::obeys(script::run_submodule_update(dir, next), n + 1, asks, ends));
}

proof fn lemma_checkout(
    dir: Option<PathBuf>,
    oid: Seq<char>,
    next: Script,
    n: nat,
    asks: spec_fn(RequestView) -> bool,
    ends: spec_fn(OutcomeView) -> bool,
)
    requires
        trace::obeys(next, n, asks, ends),
        forall|r: RequestView| checkout_request(dir, oid, r) ==> #[trigger] asks(r),
    ensures
        trace::obeys(script::checkout(dir, oid, next), n + 4, asks, ends),
{
    reveal_with_fuel(trace::obeys, 2);
    trace::lemma_obeys_more(next, n, n + 3, asks, ends);
    lemma_update_submodules(dir, next, n, asks, ends);
    assert(trace::obeys(script::run_checkout(dir, oid, next), n + 3, asks, ends));
}

proof fn lemma_checkout_branch(
    dir: Option<PathBuf>,
    branch: Seq<char>,
    next: Script,
    n: nat,
    asks: spec_fn(RequestView) -> bool,
    ends: spec_fn(OutcomeView) -> bool,
)
    requires
        trace::obeys(next, n, asks, ends),
        forall|r: RequestView| checkout_branch_request(dir, branch, r) ==> #[trigger] asks(r),
    ensures
        trace::obeys(script::checkout_branch(dir, branch, next), n + 3, asks, ends),
{
    reveal_with_fuel(trace::obeys, 2);
    lemma_update_submodules(dir, next, n, asks, ends);
}

proof fn lemma_force_update(
    dir: Option<PathBuf>,
    reference: ReferenceView,
    asks: spec_fn(RequestView) -> bool,
    ends: spec_fn(OutcomeView) -> bool,
)
    requires
        forall|r: RequestView| update_request(dir, reference, r) ==> #[trigger] asks(r),
        ends(OutcomeView::Done),
    ensures
        trace::obeys(script::force_update_local_reference(dir, reference), 2, asks, ends),
        reference is Commit || reference is Unknown ==> trace::obeys(
            script::force_update_local_reference(dir, reference),
            0,
            asks,
            ends,
        ),
{
    reveal_with_fuel(trace::obeys, 2);
    if let ReferenceView::Branch(branch) = reference {
        let reset = script::run(CommandView::reset(dir, branch), script::done());
        let force = script::run(CommandView::force_branch(dir, branch), script::done());
        assert(trace::obeys(reset, 1, asks, ends));
        assert(trace::obeys(force, 1, asks, ends));
    }
}

proof fn lemma_establish_unknown(
    dir: Option<PathBuf>,
    name: Seq<char>,
    asks: spec_fn(RequestView) -> bool,
    ends: spec_fn(OutcomeView) -> bool,
)
    requires
        forall|r: RequestView|
            establish_request(dir, ReferenceView::Unknown(name), r) ==> #[trigger] asks(r),
        ends(OutcomeView::Done),
    ensures
        trace::obeys(script::establish(dir, ReferenceView::Unknown(name)), 6, asks, ends),
{
    reveal_with_fuel(trace::obeys, 2);
    let done = script::done();
    assert(trace::obeys(done, 0, asks, ends));
    if name == "HEAD"@ {
        let head = script::checkout_head(dir, done);
        assert forall|r: Answer| trace::obeys(#[trigger] (head->Git_1)(r), 3, asks, ends) by {
            if let Ok(output) = r {
                if let Some(branch) = symref::default_branch(output) {
                    lemma_checkout_branch(dir, branch, done, 0, asks, ends);
                }
            }
        }
        assert(trace::obeys(head, 4, asks, ends));
        trace::lemma_obeys_more(head, 4, 6, asks, ends);
    } else {
        let tag = script::establish_tag(dir, name);
        assert forall|r: Answer| trace::obeys(#[trigger] (tag->Git_1)(r), 4, asks, ends) by {
            if let Ok(oid) = r {
                lemma_checkout(dir, oid, done, 0, asks, ends);
            }
        }
        assert(trace::obeys(tag, 5, asks, ends));
        lemma_checkout_branch(dir, name, done, 0, asks, ends);
        trace::lemma_obeys_more(script::checkout_branch(dir, name, done), 3, 5, asks, ends);
        let branch = script::establish_branch(dir, name);
        assert(trace::obeys(branch, 6, asks, ends));
    }
}

/// What a fetch can ask for once the remote's objects are here.
pub open spec fn settle_request(dir: Option<PathBuf>, reference: ReferenceView, r: RequestView) -> bool {
    ||| r == RequestView::Git(CommandView::rev_parse(dir, reference.name()))
    ||| establish_request(dir, reference, r)
    ||| update_request(dir, reference, r)
}

pub(crate) proof fn lemma_settle(
    dir: Option<PathBuf>,
    reference: ReferenceView,
    asks: spec_fn(RequestView) -> bool,
    ends: spec_fn(OutcomeView) -> bool,
)
    requires
        forall|r: RequestView| settle_request(dir, reference, r) ==> #[trigger] asks(r),
        ends(OutcomeView::Done),
    ensures
        trace::obeys(script::settle(dir, reference), 7, asks, ends),
{
    let update = script::force_update_local_reference(dir, reference);
    lemma_force_update(dir, reference, asks, ends);
    trace::lemma_obeys_more(update, 2, 6, asks, ends);
    match reference {
        ReferenceView::Branch(branch) => {
            lemma_checkout_branch(dir, branch, update, 2, asks, ends);
            trace::lemma_obeys_more(
                script::checkout_branch(dir, branch, update),
                5,
                6,
                asks,
                ends,
            );
        },
        ReferenceView::Unknown(name) => {
            lemma_establish_unknown(dir, name, asks, ends);
        },
        _ => {},
    }
    assert(trace::obeys(script::establish(dir, reference), 6, asks, ends));
}

proof fn lemma_try_refspecs(
    dir: Option<PathBuf>,
    url: Seq<char>,
    reference: ReferenceView,
    refspecs: Seq<Seq<char>>,
    asks: spec_fn(RequestView) -> bool,
    ends: spec_fn(OutcomeView) -> bool,
)
    requires
        forall|r: RequestView| settle_request(dir, reference, r) ==> #[trigger] asks(r),
        forall|i: int|
            0 <= i < refspecs.len() ==> asks(
                RequestView::Git(CommandView::fetch(dir, url, #[trigger] refspecs[i])),
            ),
        forall|i: int|
            0 <= i < refspecs.len() ==> asks(
                RequestView::Print(script::failed_line(#[trigger] refspecs[i])),
            ),
        ends(OutcomeView::Done),
    ensures
        trace::obeys(
            script::try_refspecs(dir, url, reference, refspecs),
            2 * refspecs.len() + 7,
            asks,
            ends,
        ),
    decreases refspecs.len(),
{
    if refspecs.len() > 0 {
        let n = (2 * refspecs.len() + 6) as nat;
        let s = script::try_refspecs(dir, url, reference, refspecs);
        let others = refspecs.drop_first();
        assert forall|i: int| 0 <= i < others.len() implies asks(
            RequestView::Git(CommandView::fetch(dir, url, #[trigger] others[i])),
        ) by {
            assert(others[i] == refspecs[i + 1]);
        }
        assert forall|i: int| 0 <= i < others.len() implies asks(
            RequestView::Print(script::failed_line(#[trigger] others[i])),
        ) by {
            assert(others[i] == refspecs[i + 1]);
        }
        lemma_try_refspecs(dir, url, reference, others, asks, ends);
        lemma_settle(dir, reference, asks, ends);
        trace::lemma_obeys_more(script::settle(dir, reference), 7, n, asks, ends);
        assert(asks(RequestView::Print(script::failed_line(refspecs[0]))));
        assert(asks(RequestView::Git(CommandView::fetch(dir, url, refspecs[0]))));
        assert forall|r: Answer| trace::obeys(#[trigger] (s->Git_1)(r), n, asks, ends) by {
            reveal_with_fuel(trace::obeys, 2);
        }
    }
}

proof fn lemma_fetch(
    dir: Option<PathBuf>,
    url: Seq<char>,
    reference: ReferenceView,
    refspecs: Seq<Seq<char>>,
    asks: spec_fn(RequestView) -> bool,
    ends: spec_fn(OutcomeView) -> bool,
)
    requires
        refspecs.len() > 0,
        forall|r: RequestView|
            fetch_request(dir, url, reference, refspecs, r) ==> #[trigger] asks(r),
        ends(OutcomeView::Done),
    ensures
        trace::obeys(
            script::fetch(dir, url, reference, refspecs),
            2 * refspecs.len() + 9,
            asks,
            ends,
        ),
{
    let n = (2 * refspecs.len() + 7) as nat;
    let inner = script::fetch_refspecs(dir, url, reference, refspecs);
    if refspecs.len() == 1 {
        reveal_with_fuel(trace::obeys, 2);
        lemma_settle(dir, reference, asks, ends);
        assert(fetch_request(
            dir,
            url,
            reference,
            refspecs,
            RequestView::Git(CommandView::fetch(dir, url, refspecs[0])),
        ));
        trace::lemma_obeys_more(script::settle(dir, reference), 7, 8, asks, ends);
    } else {
        lemma_try_refspecs(dir, url, reference, refspecs, asks, ends);
    }
    assert(trace::obeys(inner, n, asks, ends));
    trace::lemma_obeys_more(inner, n, n + 1, asks, ends);
    trace::lemma_obeys_more(inner, n, n + 2, asks, ends);
    let s = script::fetch(dir, url, reference, refspecs);
    if let ReferenceView::Commit(commit) = reference {
        assert forall|r: Answer| trace::obeys(#[trigger] (s->Git_1)(r), n + 1, asks, ends) by {
            if let Ok(oid) = r {
                let absent = script::fetch_absent(dir, url, reference, refspecs, oid);
                assert(asks(RequestView::Git(CommandView::cat_file(dir, oid))));
                assert forall|q: Answer|
                    trace::obeys(#[trigger] (absent->Git_1)(q), n, asks, ends) by {}
                assert(trace::obeys(absent, n + 1, asks, ends));
            }
        }
        assert(trace::obeys(s, n + 2, asks, ends));
    }
}

/// A fetch asks only for what [`fetch_request`] names, for little more than its refspecs, and ends
/// in success or failure.
pub proof fn law_fetch_is_confined(
    dir: Option<PathBuf>,
    url: Seq<char>,
    reference: ReferenceView,
    refspecs: Seq<Seq<char>>,
    trace: Seq<Exchange>,
    outcome: OutcomeView,
)
    requires
        refspecs.len() > 0,
        trace::runs(script::fetch(dir, url, reference, refspecs), trace, outcome),
    ensures
        forall|i: int|
            0 <= i < trace.len() ==> fetch_request(
                dir,
                url,
                reference,
                refspecs,
                (#[trigger] trace[i]).request(),
            ),
        in_place(dir, trace),
        leaves_directories(trace),
        trace.len() <= 2 * refspecs.len() + 9,
        outcome is Done || outcome is Failed,
{
    let asks = |r: RequestView| fetch_request(dir, url, reference, refspecs, r);
    let ends = |o: OutcomeView| o is Done;
    lemma_fetch(dir, url, reference, refspecs, asks, ends);
    trace::lemma_obeys_runs(
        script::fetch(dir, url, reference, refspecs),
        2 * refspecs.len() + 9,
        asks,
        ends,
        trace,
        outcome,
    );
    assert forall|i: int| 0 <= i < trace.len() implies fetch_request(
        dir,
        url,
        reference,
        refspecs,
        (#[trigger] trace[i]).request(),
    ) by {
        assert(asks(trace[i].request()));
    }
}

/// A fetch into a sparse working tree asks for two commands more than a fetch.
pub proof fn law_sparse_checkout_is_confined(
    dir: Option<PathBuf>,
    url: Seq<char>,
    reference: ReferenceView,
    refspecs: Seq<Seq<char>>,
    trace: Seq<Exchange>,
    outcome: OutcomeView,
)
    requires
        refspecs.len() > 0,
        trace::runs(script::sparse_checkout(dir, url, reference, refspecs), trace, outcome),
    ensures
        forall|i: int|
            0 <= i < trace.len() ==> sparse_checkout_request(
                dir,
                url,
                reference,
                refspecs,
                (#[trigger] trace[i]).request(),
            ),
        in_place(dir, trace),
        leaves_directories(trace),
        trace.len() <= 2 * refspecs.len() + 11,
        outcome is Done || outcome is Failed,
{
    let asks = |r: RequestView| sparse_checkout_request(dir, url, reference, refspecs, r);
    let ends = |o: OutcomeView| o is Done;
    let n = (2 * refspecs.len() + 9) as nat;
    let fetch = script::fetch(dir, url, reference, refspecs);
    let filter = script::run(CommandView::sparse_set(dir), fetch);
    let s = script::sparse_checkout(dir, url, reference, refspecs);
    lemma_fetch(dir, url, reference, refspecs, asks, ends);
    assert(trace::obeys(filter, n + 1, asks, ends)) by {
        reveal_with_fuel(trace::obeys, 2);
    }
    assert(trace::obeys(s, n + 2, asks, ends)) by {
        reveal_with_fuel(trace::obeys, 2);
    }
    trace::lemma_obeys_runs(s, n + 2, asks, ends, trace, outcome);
    assert forall|i: int| 0 <= i < trace.len() implies sparse_checkout_request(
        dir,
        url,
        reference,
        refspecs,
        (#[trigger] trace[i]).request(),
    ) by {
        assert(asks(trace[i].request()));
    }
}

/// The checkout of a commit asks only for what [`checkout_request`] names, and ends in success or
/// failure.
pub proof fn law_checkout_is_confined(
    dir: Option<PathBuf>,
    oid: Seq<char>,
    trace: Seq<Exchange>,
    outcome: OutcomeView,
)
    requires
        trace::runs(script::checkout(dir, oid, script::done()), trace, outcome),
    ensures
        forall|i: int|
            0 <= i < trace.len() ==> checkout_request(dir, oid, (#[trigger] trace[i]).request()),
        in_place(dir, trace),
        leaves_directories(trace),
        trace.len() <= 4,
        outcome is Done || outcome is Failed,
{
    let asks = |r: RequestView| checkout_request(dir, oid, r);
    let ends = |o: OutcomeView| o is Done;
    lemma_checkout(dir, oid, script::done(), 0, asks, ends);
    let s = script::checkout(dir, oid, script::done());
    trace::lemma_obeys_runs(s, 4, asks, ends, trace, outcome);
    assert forall|i: int| 0 <= i < trace.len() implies checkout_request(
        dir,
        oid,
        (#[trigger] trace[i]).request(),
    ) by {
        assert(asks(trace[i].request()));
    }
}

/// The checkout of a branch asks only for what [`checkout_branch_request`] names, and ends in
/// success or failure.
pub proof fn law_checkout_branch_is_confined(
    dir: Option<PathBuf>,
    branch: Seq<char>,
    trace: Seq<Exchange>,
    outcome: OutcomeView,
)
    requires
        trace::runs(script::checkout_branch(dir, branch, script::done()), trace, outcome),
    ensures
        forall|i: int|
            0 <= i < trace.len() ==> checkout_branch_request(
                dir,
                branch,
                (#[trigger] trace[i]).request(),
            ),
        in_place(dir, trace),
        leaves_directories(trace),
        trace.len() <= 3,
        outcome is Done || outcome is Failed,
{
    let asks = |r: RequestView| checkout_branch_request(dir, branch, r);
    let ends = |o: OutcomeView| o is Done;
    lemma_checkout_branch(dir, branch, script::done(), 0, asks, ends);
    let s = script::checkout_branch(dir, branch, script::done());
    trace::lemma_obeys_runs(s, 3, asks, ends, trace, outcome);
    assert forall|i: int| 0 <= i < trace.len() implies checkout_branch_request(
        dir,
        branch,
        (#[trigger] trace[i]).request(),
    ) by {
        assert(asks(trace[i].request()));
    }
}

/// Reading the description file asks only for what [`description_request`] names: nothing is
/// fetched. It ends in a text or in failure.
pub proof fn law_description_is_confined(
    path: PathBuf,
    reference: ReferenceView,
    directory: Option<PathBuf>,
    trace: Seq<Exchange>,
    outcome: OutcomeView,
)
    requires
        trace::runs(
            script::get_description_file_content(path, reference, directory),
            trace,
            outcome,
        ),
    ensures
        forall|i: int|
            0 <= i < trace.len() ==> description_request(
                path,
                reference,
                directory,
                (#[trigger] trace[i]).request(),
            ),
        in_place(Some(path), trace),
        leaves_directories(trace),
        trace.len() <= 7,
        outcome is Text || outcome is Failed,
{
    let asks = |r: RequestView| description_request(path, reference, directory, r);
    let ends = |o: OutcomeView| o is Text;
    let file = DescriptionFileView::below(path, directory);
    let read = script::read_description(file);
    let s = script::get_description_file_content(path, reference, directory);
    assert(trace::obeys(script::read_file(file), 1, asks, ends)) by {
        reveal_with_fuel(trace::obeys, 2);
    }
    assert(trace::obeys(read, 2, asks, ends)) by {
        reveal_with_fuel(trace::obeys, 2);
    }
    assert forall|r: Answer| trace::obeys(#[trigger] (s->Git_1)(r), 6, asks, ends) by {
        if let Ok(oid) = r {
            assert forall|q: RequestView| checkout_request(Some(path), oid, q) implies #[trigger] asks(
                q,
            ) by {}
            lemma_checkout(Some(path), oid, read, 2, asks, ends);
        }
    }
    assert(trace::obeys(s, 7, asks, ends));
    trace::lemma_obeys_runs(s, 7, asks, ends, trace, outcome);
    assert forall|i: int| 0 <= i < trace.len() implies description_request(
        path,
        reference,
        directory,
        (#[trigger] trace[i]).request(),
    ) by {
        assert(asks(trace[i].request()));
    }
}

proof fn lemma_init(
    path: PathBuf,
    url: Seq<char>,
    asks: spec_fn(RequestView) -> bool,
    ends: spec_fn(OutcomeView) -> bool,
)
    requires
        forall|r: RequestView| init_request(path, url, r) ==> #[trigger] asks(r),
        ends(OutcomeView::Done),
    ensures
        trace::obeys(script::init(path, url), 4, asks, ends),
{
    reveal_with_fuel(trace::obeys, 2);
    let remote = script::run(CommandView::remote_add(Some(path), url), script::done());
    let here = script::init_in_place(path, url);
    let create = script::act(DirActionView::Create(path), here);
    assert(trace::obeys(remote, 1, asks, ends));
    assert(trace::obeys(here, 2, asks, ends));
    trace::lemma_obeys_more(here, 2, 3, asks, ends);
    assert(trace::obeys(create, 3, asks, ends));
}

/// The initialization of a repository asks only for what [`init_request`] names, and ends in
/// success or failure.
pub proof fn law_init_is_confined(
    path: PathBuf,
    url: Seq<char>,
    trace: Seq<Exchange>,
    outcome: OutcomeView,
)
    requires
        trace::runs(script::init(path, url), trace, outcome),
    ensures
        forall|i: int|
            0 <= i < trace.len() ==> init_request(path, url, (#[trigger] trace[i]).request()),
        in_place(Some(path), trace),
        trace.len() <= 4,
        outcome is Done || outcome is Failed,
{
    let asks = |r: RequestView| init_request(path, url, r);
    let ends = |o: OutcomeView| o is Done;
    lemma_init(path, url, asks, ends);
    trace::lemma_obeys_runs(script::init(path, url), 4, asks, ends, trace, outcome);
    assert forall|i: int| 0 <= i < trace.len() implies init_request(
        path,
        url,
        (#[trigger] trace[i]).request(),
    ) by {
        assert(asks(trace[i].request()));
    }
}

/// Opening a repository asks only for what [`open_request`] names, and ends in success or failure.
pub proof fn law_open_is_confined(
    path: PathBuf,
    url: Seq<char>,
    trace: Seq<Exchange>,
    outcome: OutcomeView,
)
    requires
        trace::runs(script::open(path, url), trace, outcome),
    ensures
        forall|i: int|
            0 <= i < trace.len() ==> open_request(path, url, (#[trigger] trace[i]).request()),
        in_place(Some(path), trace),
        trace.len() <= 6,
        outcome is Done || outcome is Failed,
{
    let asks = |r: RequestView| open_request(path, url, r);
    let ends = |o: OutcomeView| o is Done;
    lemma_init(path, url, asks, ends);
    let replace = script::act(DirActionView::Remove(path), script::init(path, url));
    let s = script::open(path, url);
    assert(trace::obeys(replace, 5, asks, ends)) by {
        reveal_with_fuel(trace::obeys, 2);
    }
    assert(trace::obeys(s, 6, asks, ends)) by {
        reveal_with_fuel(trace::obeys, 2);
    }
    trace::lemma_obeys_runs(s, 6, asks, ends, trace, outcome);
    assert forall|i: int| 0 <= i < trace.len() implies open_request(
        path,
        url,
        (#[trigger] trace[i]).request(),
    ) by {
        assert(asks(trace[i].request()));
    }
}

/// The removal of a repository's directory looks for it, and removes it where it is there. It succeeds
/// where there is nothing to remove, or the removal does, and else fails as the removal did.
pub proof fn law_rm_folder_is_confined(path: PathBuf, trace: Seq<Exchange>, outcome: OutcomeView)
    requires
        trace::runs(script::rm_folder(path), trace, outcome),
    ensures
        trace.len() >= 1,
        trace[0].request() == RequestView::Check(ConditionView::IsDir(path)),
        !trace[0]->Check_1 ==> trace.len() == 1,
        trace[0]->Check_1 ==> trace.len() == 2 && trace[1].request() == RequestView::Act(
            DirActionView::Remove(path),
        ),
        outcome is Done <==> (!trace[0]->Check_1 || trace[1]->Act_1 is Ok),
        trace[0]->Check_1 ==> (trace[1]->Act_1 matches Err(e) ==> outcome == OutcomeView::Failed(
            GitErrorView::Io(e),
        )),
{
    reveal_with_fuel(trace::runs, 3);
}

/// The lookup of a reference asks for one command, and ends in what that found: the commit, or a
/// failure to find one, which [`script::ref_as_oid`] does not count as one.
pub proof fn law_lookup_is_confined(
    dir: Option<PathBuf>,
    reference: Seq<char>,
    trace: Seq<Exchange>,
    outcome: OutcomeView,
)
    ensures
        trace::runs(script::rev_parse(dir, reference), trace, outcome) ==> trace.len() == 1
            && trace[0].request() == RequestView::Git(
            CommandView::rev_parse_commit(dir, reference),
        ) && outcome == (match trace[0]->Git_1 {
            Ok(oid) => OutcomeView::Oid(oid),
            Err(_) => OutcomeView::Failed(GitErrorView::unresolved(reference)),
        }),
        trace::runs(script::ref_as_oid(dir, reference), trace, outcome) ==> trace.len() == 1
            && trace[0].request() == RequestView::Git(
            CommandView::rev_parse_commit(dir, reference),
        ) && outcome == (match trace[0]->Git_1 {
            Ok(oid) => OutcomeView::Oid(oid),
            Err(_) => OutcomeView::Missing,
        }),
{
    reveal_with_fuel(trace::runs, 2);
}

/// The lookup of a default branch asks for one command. It ends in the branch that the output names,
/// or fails: over an output that names none, or as the command did.
pub proof fn law_default_branch_is_confined(
    dir: Option<PathBuf>,
    target: Seq<char>,
    trace: Seq<Exchange>,
    outcome: OutcomeView,
)
    requires
        trace::runs(script::resolve_default_branch(dir, target), trace, outcome),
    ensures
        trace.len() == 1,
        trace[0].request() == RequestView::Git(CommandView::ls_remote(dir, target)),
        outcome == (match trace[0]->Git_1 {
            Ok(output) => match symref::default_branch(output) {
                Some(branch) => OutcomeView::Text(branch),
                None => OutcomeView::Failed(GitErrorView::default_branch(target, output)),
            },
            Err(e) => OutcomeView::Failed(GitErrorView::Io(e)),
        }),
{
    reveal_with_fuel(trace::runs, 2);
}

/// Bringing all files back asks for one command. It succeeds where that does, and else fails as the
/// command did.
pub proof fn law_disable_sparse_checkout_is_confined(
    dir: Option<PathBuf>,
    trace: Seq<Exchange>,
    outcome: OutcomeView,
)
    requires
        trace::runs(script::disable_sparse_checkout(dir), trace, outcome),
    ensures
        trace.len() == 1,
        trace[0].request() == RequestView::Git(CommandView::sparse_disable(dir)),
        outcome is Done <==> trace[0]->Git_1 is Ok,
        trace[0]->Git_1 matches Err(e) ==> outcome == OutcomeView::Failed(GitErrorView::Io(e)),
{
    reveal_with_fuel(trace::runs, 2);
}

} // verus!
