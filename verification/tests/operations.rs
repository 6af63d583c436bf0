use std::io;
use std::path::PathBuf;

use rv_git::command::{EnvChange, GitCommand};
use rv_git::error::{GitError, IoFailure};
use rv_git::operation::Operation;
use rv_git::reference::{name_of_commit, text_is_full_hash};
use rv_git::request::{Condition, DescriptionFile, DirAction, Outcome};
use rv_git::{
    resolve_default_branch_for_url, resolve_default_branch_in_repo, GitReference, GitRepository,
    Oid,
};

const URL: &str = "https://example.com/r.git";

/// What the world answers.
enum Reply {
    Prints(&'static str),
    Fails(&'static str),
    Made,
    Yes,
    No,
    Printed,
}

use Reply::{Fails, Made, No, Printed, Prints, Yes};

fn failure(message: &str) -> IoFailure {
    IoFailure {
        message: message.to_string(),
        source: io::Error::other(message.to_string()),
    }
}

fn text_reply(reply: &Reply) -> Result<String, IoFailure> {
    match reply {
        Prints(text) => Ok(text.to_string()),
        Fails(message) => Err(failure(message)),
        _ => panic!("a text was asked for"),
    }
}

fn file_words(file: &DescriptionFile) -> String {
    match file.directory {
        Some(directory) => format!("{}|{}|{}", file.root.display(), directory.display(), file.name),
        None => format!("{}|{}", file.root.display(), file.name),
    }
}

fn command_words(command: &GitCommand) -> String {
    let place = match command.dir {
        Some(dir) => dir.display().to_string(),
        None => "-".to_string(),
    };
    let mut words = format!("git@{place}");
    for arg in &command.args {
        words = format!("{words} {arg}");
    }
    for change in &command.env {
        words = match change {
            EnvChange::Assign(name, value) => format!("{words} [{name}={value}]"),
            EnvChange::Remove(name) => format!("{words} [-{name}]"),
        };
    }
    words
}

/// Answers an operation with `replies`, one after the other, until it is finished. Gives back what it
/// asked for, and what it ended in.
fn play(start: Operation, replies: Vec<Reply>) -> (Vec<String>, Outcome) {
    let mut asked = Vec::new();
    let mut operation = start;
    let mut replies = replies.into_iter();
    loop {
        if let Operation::Finished(outcome) = operation {
            assert!(replies.next().is_none(), "finished too early: {asked:?}");
            return (asked, outcome);
        }
        let reply = replies.next().unwrap_or_else(|| panic!("not finished: {asked:?}"));
        operation = match operation {
            Operation::Git(step) => {
                asked.push(command_words(&step.command()));
                step.resume(text_reply(&reply))
            }
            Operation::Read(step) => {
                asked.push(format!("read {}", file_words(&step.file())));
                step.resume(text_reply(&reply))
            }
            Operation::Act(step) => {
                asked.push(match step.action() {
                    DirAction::Create(path) => format!("create {}", path.display()),
                    DirAction::Remove(path) => format!("remove {}", path.display()),
                });
                step.resume(match reply {
                    Made => Ok(()),
                    Fails(message) => Err(failure(message)),
                    _ => panic!("a change was asked for"),
                })
            }
            Operation::Check(step) => {
                asked.push(match step.condition() {
                    Condition::IsDir(path) => format!("dir? {}", path.display()),
                    Condition::Exists(file) => format!("exists? {}", file_words(&file)),
                    Condition::SubmodulesDisabled => "submodules off?".to_string(),
                });
                step.resume(match reply {
                    Yes => true,
                    No => false,
                    _ => panic!("a question was asked"),
                })
            }
            Operation::Print(step) => {
                assert!(matches!(reply, Printed));
                asked.push(format!("print {}", step.line()));
                step.resume()
            }
            Operation::Finished(_) => unreachable!(),
        };
    }
}

fn repo() -> GitRepository {
    GitRepository::new(PathBuf::from("/r"))
}

fn is_done(outcome: &Outcome) -> bool {
    matches!(outcome, Outcome::Done)
}

fn io_message(outcome: Outcome) -> String {
    match outcome {
        Outcome::Failed(GitError::Io(failure)) => {
            assert_eq!(failure.source.to_string(), failure.message);
            failure.message
        }
        other => panic!("{other:?}"),
    }
}

fn other_message(outcome: Outcome) -> String {
    match outcome {
        Outcome::Failed(GitError::Other(message)) => message,
        other => panic!("{other:?}"),
    }
}

fn not_found_message(outcome: Outcome) -> String {
    match outcome {
        Outcome::Failed(GitError::NotFound(message)) => message,
        other => panic!("{other:?}"),
    }
}

fn specs(refspecs: &[&str]) -> Vec<String> {
    refspecs.iter().map(|s| s.to_string()).collect()
}

fn fetch_of(refspec: &str) -> String {
    format!(
        "git@/r fetch --tags --force --update-head-ok {URL} {refspec} \
         [GIT_TERMINAL_PROMPT=0] [-GIT_DIR]"
    )
}

#[test]
fn rev_parse_names_the_commit_or_the_reference_that_is_missing() {
    let r = repo();
    let (asked, outcome) = play(r.rev_parse("main"), vec![Prints("abc")]);
    assert_eq!(asked, ["git@/r rev-parse main^{commit}"]);
    match outcome {
        Outcome::Oid(oid) => assert_eq!(oid.as_str(), "abc"),
        other => panic!("{other:?}"),
    }
    let (_, outcome) = play(r.rev_parse("nope"), vec![Fails("fatal")]);
    assert_eq!(other_message(outcome), "Reference nope not found");
}

#[test]
fn ref_as_oid_names_the_commit_or_nothing() {
    let r = repo();
    let (asked, outcome) = play(r.ref_as_oid("main"), vec![Prints("abc")]);
    assert_eq!(asked, ["git@/r rev-parse main^{commit}"]);
    assert!(matches!(outcome, Outcome::Oid(oid) if oid.as_str() == "abc"));
    let (_, outcome) = play(r.ref_as_oid("nope"), vec![Fails("fatal")]);
    assert!(matches!(outcome, Outcome::Missing));
}

#[test]
fn full_hashes_are_not_followed() {
    let r = repo();
    let sha1 = "8823d1d2b5f4d80ed77f781e30df2eaa4c84fe9e";
    let sha256 = "8823D1D2B5F4D80ED77F781E30DF2EAA4C84FE9E8823d1d2b5f4d80ed77f781e";
    for hash in [sha1, sha256] {
        assert!(text_is_full_hash(hash));
        assert_eq!(name_of_commit(hash), hash);
        let (asked, outcome) = play(r.rev_parse(hash), vec![Prints("abc")]);
        assert_eq!(asked, [format!("git@/r rev-parse {hash}")]);
        assert!(matches!(outcome, Outcome::Oid(oid) if oid.as_str() == "abc"));
        let (asked, _) = play(r.ref_as_oid(hash), vec![Prints("abc")]);
        assert_eq!(asked, [format!("git@/r rev-parse {hash}")]);
    }
    let wrong = [
        "",
        "8823d1d",
        "8823d1d2b5f4d80ed77f781e30df2eaa4c84fe9",
        "8823d1d2b5f4d80ed77f781e30df2eaa4c84fe9e0",
        "g823d1d2b5f4d80ed77f781e30df2eaa4c84fe9e",
        "8823d1d2b5f4d80ed77f781e30df2eaa4c84fe9é",
        "8823d1d2b5f4d80ed77f781e30df2eaa4c84fe9/",
    ];
    for name in wrong {
        assert!(!text_is_full_hash(name), "{name}");
        assert_eq!(name_of_commit(name), format!("{name}^{{commit}}"));
    }
}

#[test]
fn default_branch_of_a_url_and_of_a_repository() {
    let output = "ref: refs/heads/main\tHEAD\n8823d1d2\tHEAD";
    let (asked, outcome) = play(resolve_default_branch_for_url(URL), vec![Prints(output)]);
    assert_eq!(asked, [format!("git@- ls-remote --symref {URL} HEAD")]);
    assert!(matches!(outcome, Outcome::Text(name) if name == "main"));

    let path = PathBuf::from("/r");
    let (asked, outcome) = play(resolve_default_branch_in_repo(&path), vec![Prints("8823\tHEAD")]);
    assert_eq!(asked, ["git@/r ls-remote --symref origin HEAD"]);
    assert_eq!(
        other_message(outcome),
        "Could not determine default branch for `origin` from `git ls-remote --symref` \
         output:\n8823\tHEAD"
    );

    let (_, outcome) = play(resolve_default_branch_for_url(URL), vec![Fails("offline")]);
    assert_eq!(io_message(outcome), "offline");
}

#[test]
fn checkout_of_head_does_nothing() {
    let r = repo();
    let oid = Oid::new("abc".to_string());
    let (asked, outcome) = play(r.checkout(&oid), vec![Prints("abc")]);
    assert_eq!(asked, ["git@/r rev-parse HEAD"]);
    assert!(is_done(&outcome));
}

#[test]
fn checkout_sees_to_the_submodules() {
    let r = repo();
    let oid = Oid::new("abc".to_string());
    let (asked, outcome) = play(r.checkout(&oid), vec![Prints("def"), Prints(""), No, Prints("")]);
    assert_eq!(
        asked,
        [
            "git@/r rev-parse HEAD",
            "git@/r checkout abc",
            "submodules off?",
            "git@/r submodule update --init --recursive",
        ]
    );
    assert!(is_done(&outcome));
    let (asked, outcome) = play(r.checkout(&oid), vec![Fails("no head"), Prints(""), Yes]);
    assert_eq!(asked.len(), 3);
    assert!(is_done(&outcome));
}

#[test]
fn checkout_failures() {
    let r = repo();
    let oid = Oid::new("abc".to_string());
    let (_, outcome) = play(r.checkout(&oid), vec![Prints("def"), Fails("dirty tree")]);
    assert_eq!(other_message(outcome), "Failed to checkout `abc`: dirty tree");
    let (_, outcome) = play(
        r.checkout(&oid),
        vec![Prints("def"), Prints(""), No, Fails("gone")],
    );
    assert_eq!(other_message(outcome), "Failed to update submodules: gone");
    let (_, outcome) = play(r.checkout_branch("dev"), vec![Fails("no such")]);
    assert_eq!(other_message(outcome), "Failed to checkout branch `dev`: no such");
}

#[test]
fn checkout_branch_follows_the_remote() {
    let r = repo();
    let (asked, outcome) = play(r.checkout_branch("dev"), vec![Prints(""), Yes]);
    assert_eq!(asked, ["git@/r checkout -B dev origin/dev", "submodules off?"]);
    assert!(is_done(&outcome));
}

#[test]
fn present_commit_is_not_fetched() {
    let r = repo();
    let reference = GitReference::Commit("abc");
    let (asked, outcome) = play(
        r.fetch(URL, &reference, specs(&["s"])),
        vec![Prints("abcdef"), Prints("")],
    );
    assert_eq!(asked, ["git@/r rev-parse abc", "git@/r cat-file -e abcdef"]);
    assert!(is_done(&outcome));
}

#[test]
fn absent_commit_is_fetched_and_left_where_it_is() {
    let r = repo();
    let reference = GitReference::Commit("abc");
    let (asked, outcome) = play(
        r.fetch(URL, &reference, specs(&["s"])),
        vec![Prints("abc"), Fails("absent"), Prints(""), Prints("abc")],
    );
    assert_eq!(
        asked,
        [
            "git@/r rev-parse abc".to_string(),
            "git@/r cat-file -e abc".to_string(),
            fetch_of("s"),
            "git@/r rev-parse abc".to_string(),
        ]
    );
    assert!(is_done(&outcome));
    let (asked, outcome) = play(
        r.fetch(URL, &reference, specs(&["s"])),
        vec![Fails("unknown"), Prints(""), Fails("unknown")],
    );
    assert_eq!(asked.len(), 3);
    assert!(is_done(&outcome));
}

#[test]
fn refspecs_of_a_commit_that_is_not_found_locally() {
    let r = repo();
    let reference = GitReference::Commit("abc");
    let (asked, outcome) = play(
        r.fetch(URL, &reference, specs(&["a", "b"])),
        vec![
            Prints("abc"),
            Fails("absent"),
            Fails("first"),
            Printed,
            Prints(""),
            Prints("abc"),
        ],
    );
    assert_eq!(
        asked[2..],
        [
            fetch_of("a"),
            "print Failed to fetch a".to_string(),
            fetch_of("b"),
            "git@/r rev-parse abc".to_string(),
        ]
    );
    assert!(is_done(&outcome));
    let (_, outcome) = play(
        r.fetch(URL, &reference, specs(&["a", "b"])),
        vec![Fails("unknown"), Fails("first"), Printed, Fails("second"), Printed],
    );
    assert_eq!(io_message(outcome), "second");
    let (asked, outcome) = play(
        r.fetch(URL, &reference, specs(&["a"])),
        vec![Fails("unknown"), Fails("offline")],
    );
    assert_eq!(asked.len(), 2);
    assert_eq!(io_message(outcome), "offline");
}

#[test]
fn fetch_resets_the_branch_that_is_checked_out() {
    let r = repo();
    let reference = GitReference::Branch("main");
    let (asked, outcome) = play(
        r.fetch(URL, &reference, specs(&["s"])),
        vec![Prints(""), Prints("abc"), Prints(" main\n"), Prints("")],
    );
    assert_eq!(
        asked,
        [
            fetch_of("s"),
            "git@/r rev-parse main".to_string(),
            "git@/r branch --show-current".to_string(),
            "git@/r reset --hard origin/main".to_string(),
        ]
    );
    assert!(is_done(&outcome));
}

#[test]
fn fetch_forces_a_branch_that_is_not_checked_out() {
    let r = repo();
    let reference = GitReference::Branch("main");
    for current in [Prints("dev"), Fails("detached")] {
        let (asked, outcome) = play(
            r.fetch(URL, &reference, specs(&["s"])),
            vec![Prints(""), Prints("abc"), current, Prints("")],
        );
        assert_eq!(asked[3], "git@/r branch -f main origin/main");
        assert!(is_done(&outcome));
    }
    let (_, outcome) = play(
        r.fetch(URL, &reference, specs(&["s"])),
        vec![Prints(""), Prints("abc"), Prints("dev"), Fails("locked")],
    );
    assert_eq!(io_message(outcome), "locked");
}

#[test]
fn fetch_checks_out_a_branch_that_is_new() {
    let r = repo();
    let reference = GitReference::Branch("main");
    let (asked, outcome) = play(
        r.fetch(URL, &reference, specs(&["s"])),
        vec![
            Prints(""),
            Fails("unknown"),
            Prints(""),
            No,
            Prints(""),
            Prints("main"),
            Prints(""),
        ],
    );
    assert_eq!(
        asked[2..],
        [
            "git@/r checkout -B main origin/main",
            "submodules off?",
            "git@/r submodule update --init --recursive",
            "git@/r branch --show-current",
            "git@/r reset --hard origin/main",
        ]
    );
    assert!(is_done(&outcome));
}

#[test]
fn fetch_forces_a_tag() {
    let r = repo();
    let reference = GitReference::Tag("v1.0");
    for resolved in [Prints("abc"), Fails("unknown")] {
        let (asked, outcome) = play(
            r.fetch(URL, &reference, specs(&["s"])),
            vec![Prints(""), resolved, Prints("")],
        );
        assert_eq!(asked[1], "git@/r rev-parse v1.0");
        assert_eq!(asked[2], "git@/r tag -f v1.0 origin/tags/v1.0");
        assert!(is_done(&outcome));
    }
}

#[test]
fn refspecs_are_tried_until_one_can_be_fetched() {
    let r = repo();
    let reference = GitReference::Unknown("x");
    let (asked, outcome) = play(
        r.fetch(URL, &reference, specs(&["a", "b", "c"])),
        vec![Fails("1"), Printed, Prints(""), Prints("abc")],
    );
    assert_eq!(
        asked,
        [
            fetch_of("a"),
            "print Failed to fetch a".to_string(),
            fetch_of("b"),
            "git@/r rev-parse x".to_string(),
        ]
    );
    assert!(is_done(&outcome));
}

#[test]
fn fetch_fails_as_the_last_refspec_did() {
    let r = repo();
    let reference = GitReference::Unknown("x");
    let (asked, outcome) = play(
        r.fetch(URL, &reference, specs(&["a", "b"])),
        vec![Fails("first"), Printed, Fails("second"), Printed],
    );
    assert_eq!(asked[3], "print Failed to fetch b");
    assert_eq!(io_message(outcome), "second");
}

#[test]
fn lone_refspec_fails_in_silence() {
    let r = repo();
    let reference = GitReference::Branch("main");
    let (asked, outcome) = play(r.fetch(URL, &reference, specs(&["a"])), vec![Fails("offline")]);
    assert_eq!(asked, [fetch_of("a")]);
    assert_eq!(io_message(outcome), "offline");
}

#[test]
fn unknown_name_of_a_branch() {
    let r = repo();
    let reference = GitReference::Unknown("dev");
    let (asked, outcome) = play(
        r.fetch(URL, &reference, specs(&["a", "b"])),
        vec![Prints(""), Fails("unknown"), Prints("abc"), Prints(""), Yes],
    );
    assert_eq!(
        asked[1..],
        [
            "git@/r rev-parse dev",
            "git@/r rev-parse origin/dev",
            "git@/r checkout -B dev origin/dev",
            "submodules off?",
        ]
    );
    assert!(is_done(&outcome));
}

#[test]
fn unknown_name_of_a_tag_or_of_nothing() {
    let r = repo();
    let reference = GitReference::Unknown("v1");
    let (asked, outcome) = play(
        r.fetch(URL, &reference, specs(&["a", "b"])),
        vec![
            Prints(""),
            Fails("unknown"),
            Fails("no branch"),
            Prints("abc"),
            Prints("abc"),
        ],
    );
    assert_eq!(
        asked[2..],
        [
            "git@/r rev-parse origin/v1",
            "git@/r rev-parse origin/tags/v1",
            "git@/r rev-parse HEAD",
        ]
    );
    assert!(is_done(&outcome));
    let (asked, outcome) = play(
        r.fetch(URL, &reference, specs(&["a", "b"])),
        vec![Prints(""), Fails("unknown"), Fails("no branch"), Fails("no tag")],
    );
    assert_eq!(asked.len(), 4);
    assert!(is_done(&outcome));
}

#[test]
fn unknown_head_is_the_default_branch() {
    let r = repo();
    let reference = GitReference::Unknown("HEAD");
    let (asked, outcome) = play(
        r.fetch(URL, &reference, specs(&["a", "b"])),
        vec![
            Prints(""),
            Fails("unborn"),
            Prints("ref: refs/heads/trunk\tHEAD"),
            Prints(""),
            Yes,
        ],
    );
    assert_eq!(
        asked[1..],
        [
            "git@/r rev-parse HEAD",
            "git@/r ls-remote --symref origin HEAD",
            "git@/r checkout -B trunk origin/trunk",
            "submodules off?",
        ]
    );
    assert!(is_done(&outcome));
    let (_, outcome) = play(
        r.fetch(URL, &reference, specs(&["a", "b"])),
        vec![Prints(""), Fails("unborn"), Prints("")],
    );
    assert_eq!(
        other_message(outcome),
        "Could not determine default branch for `origin` from `git ls-remote --symref` output:\n"
    );
    let (asked, outcome) = play(
        r.fetch(URL, &reference, specs(&["a", "b"])),
        vec![Prints(""), Fails("unborn"), Fails("offline")],
    );
    assert_eq!(asked.len(), 3);
    assert_eq!(io_message(outcome), "offline");
}

#[test]
fn failed_checkouts_of_what_was_fetched() {
    let r = repo();
    let (asked, outcome) = play(
        r.fetch(URL, &GitReference::Branch("dev"), specs(&["s"])),
        vec![Prints(""), Fails("unknown"), Fails("dirty tree")],
    );
    assert_eq!(asked.len(), 3);
    assert_eq!(other_message(outcome), "Failed to checkout branch `dev`: dirty tree");
    let (asked, outcome) = play(
        r.fetch(URL, &GitReference::Unknown("dev"), specs(&["a", "b"])),
        vec![Prints(""), Fails("unknown"), Prints("abc"), Prints(""), No, Fails("gone")],
    );
    assert_eq!(asked.len(), 6);
    assert_eq!(other_message(outcome), "Failed to update submodules: gone");
    let (_, outcome) = play(
        r.fetch(URL, &GitReference::Unknown("v1"), specs(&["a", "b"])),
        vec![
            Prints(""),
            Fails("unknown"),
            Fails("no branch"),
            Prints("abc"),
            Prints("def"),
            Fails("dirty tree"),
        ],
    );
    assert_eq!(other_message(outcome), "Failed to checkout `abc`: dirty tree");
    let (_, outcome) = play(
        r.fetch(URL, &GitReference::Tag("v1"), specs(&["s"])),
        vec![Prints(""), Prints("abc"), Fails("locked")],
    );
    assert_eq!(io_message(outcome), "locked");
}

#[test]
fn sparse_checkout_is_a_fetch_into_a_sparse_tree() {
    let r = repo();
    let reference = GitReference::Tag("v1");
    let (asked, outcome) = play(
        r.sparse_checkout(URL, &reference, specs(&["s"])),
        vec![Prints(""), Prints(""), Prints(""), Prints("abc"), Prints("")],
    );
    assert_eq!(
        asked,
        [
            "git@/r sparse-checkout init".to_string(),
            "git@/r sparse-checkout set --no-cone **/DESCRIPTION".to_string(),
            fetch_of("s"),
            "git@/r rev-parse v1".to_string(),
            "git@/r tag -f v1 origin/tags/v1".to_string(),
        ]
    );
    assert!(is_done(&outcome));
    let (_, outcome) = play(
        r.sparse_checkout(URL, &reference, specs(&["s"])),
        vec![Prints(""), Fails("too old")],
    );
    assert_eq!(io_message(outcome), "too old");
    let (asked, outcome) = play(
        r.sparse_checkout(URL, &reference, specs(&["s"])),
        vec![Fails("not a repository")],
    );
    assert_eq!(asked.len(), 1);
    assert_eq!(io_message(outcome), "not a repository");
    let (_, outcome) = play(r.disable_sparse_checkout(), vec![Fails("too old")]);
    assert_eq!(io_message(outcome), "too old");
    let (asked, outcome) = play(r.disable_sparse_checkout(), vec![Prints("")]);
    assert_eq!(asked, ["git@/r sparse-checkout disable"]);
    assert!(is_done(&outcome));
}

#[test]
fn description_is_read_at_the_reference() {
    let r = repo();
    let directory = PathBuf::from("pkg");
    let reference = GitReference::Branch("main");
    let (asked, outcome) = play(
        r.get_description_file_content(&reference, Some(&directory)),
        vec![Prints("abc"), Prints("abc"), Yes, Prints("Package: x")],
    );
    assert_eq!(
        asked,
        [
            "git@/r rev-parse main",
            "git@/r rev-parse HEAD",
            "exists? /r|pkg|DESCRIPTION",
            "read /r|pkg|DESCRIPTION",
        ]
    );
    assert!(matches!(outcome, Outcome::Text(text) if text == "Package: x"));
}

#[test]
fn description_that_is_not_there() {
    let r = repo();
    let reference = GitReference::Commit("abc");
    let (asked, outcome) = play(
        r.get_description_file_content(&reference, None),
        vec![Fails("unknown")],
    );
    assert_eq!(asked.len(), 1);
    assert_eq!(not_found_message(outcome), "Not found");
    let (asked, outcome) = play(
        r.get_description_file_content(&reference, None),
        vec![Prints("abc"), Prints("def"), Prints(""), Yes, No],
    );
    assert_eq!(asked[4], "exists? /r|DESCRIPTION");
    assert_eq!(not_found_message(outcome), "DESCRIPTION file not found");
    let (_, outcome) = play(
        r.get_description_file_content(&reference, None),
        vec![Prints("abc"), Prints("abc"), Yes, Fails("permission denied")],
    );
    assert_eq!(io_message(outcome), "permission denied");
    let (asked, outcome) = play(
        r.get_description_file_content(&reference, None),
        vec![Prints("abc"), Prints("def"), Fails("dirty tree")],
    );
    assert_eq!(asked[2..], ["git@/r checkout abc"]);
    assert_eq!(other_message(outcome), "Failed to checkout `abc`: dirty tree");
}

#[test]
fn open_keeps_a_repository_and_replaces_what_is_none() {
    let path = PathBuf::from("/r");
    let (asked, outcome) = play(GitRepository::open(&path, URL), vec![Prints("")]);
    assert_eq!(asked, ["git@/r rev-parse"]);
    assert!(is_done(&outcome));
    let (asked, outcome) = play(
        GitRepository::open(&path, URL),
        vec![Fails("not a git repository"), Made, No, Made, Prints(""), Prints("")],
    );
    assert_eq!(
        asked,
        [
            "git@/r rev-parse".to_string(),
            "remove /r".to_string(),
            "dir? /r".to_string(),
            "create /r".to_string(),
            "git@/r init".to_string(),
            format!("git@/r remote add origin {URL}"),
        ]
    );
    assert!(is_done(&outcome));
    let (_, outcome) = play(
        GitRepository::open(&path, URL),
        vec![Fails("not a git repository"), Fails("busy")],
    );
    assert_eq!(io_message(outcome), "busy");
}

#[test]
fn init_in_a_directory_that_is_there() {
    let path = PathBuf::from("/r");
    let (asked, outcome) = play(GitRepository::init(&path, URL), vec![Yes, Prints(""), Prints("")]);
    assert_eq!(asked.len(), 3);
    assert_eq!(asked[1], "git@/r init");
    assert!(is_done(&outcome));
    let (asked, outcome) = play(GitRepository::init(&path, URL), vec![No, Fails("read-only")]);
    assert_eq!(asked, ["dir? /r", "create /r"]);
    assert_eq!(io_message(outcome), "read-only");
    let (asked, outcome) = play(GitRepository::init(&path, URL), vec![No, Made, Fails("no git")]);
    assert_eq!(asked.len(), 3);
    assert_eq!(io_message(outcome), "no git");
    let (_, outcome) = play(
        GitRepository::init(&path, URL),
        vec![Yes, Prints(""), Fails("remote origin already exists")],
    );
    assert_eq!(io_message(outcome), "remote origin already exists");
}

#[test]
fn rm_folder_removes_what_is_there() {
    let r = repo();
    let (asked, outcome) = play(r.rm_folder(), vec![Yes, Made]);
    assert_eq!(asked, ["dir? /r", "remove /r"]);
    assert!(is_done(&outcome));
    let (asked, outcome) = play(r.rm_folder(), vec![No]);
    assert_eq!(asked.len(), 1);
    assert!(is_done(&outcome));
    let (_, outcome) = play(r.rm_folder(), vec![Yes, Fails("busy")]);
    assert_eq!(io_message(outcome), "busy");
}

#[test]
fn references_name_what_they_name() {
    assert_eq!(GitReference::Branch("b").reference(), "b");
    assert_eq!(GitReference::Tag("t").reference(), "t");
    assert_eq!(GitReference::Commit("c").reference(), "c");
    assert_eq!(GitReference::Unknown("u").reference(), "u");
}
