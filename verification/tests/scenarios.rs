//! A remote that changes between two fetches, seen through a small stand-in for git.
use std::collections::BTreeMap;
use std::io;
use std::path::PathBuf;

use rv_git::error::IoFailure;
use rv_git::operation::Operation;
use rv_git::request::{Condition, DirAction, Outcome};
use rv_git::{GitReference, GitRepository, Oid};

const REMOTE: &str = "remote";

/// An object in git's store.
enum Object {
    /// A commit, with the text of `file.txt` at it.
    Commit(&'static str),
    /// An annotated tag, with what it points at.
    Tag(usize),
}

/// A remote repository, a local one, and the local working tree.
struct World {
    objects: Vec<Object>,
    remote: BTreeMap<String, usize>,
    local: BTreeMap<String, usize>,
    /// The branch that is checked out, or the commit where none is.
    head: Option<Result<String, usize>>,
    file: Option<&'static str>,
}

fn oid(object: usize) -> String {
    format!("{object:040x}")
}

impl World {
    /// A remote with one commit, on `main`.
    fn new() -> World {
        let mut world = World {
            objects: Vec::new(),
            remote: BTreeMap::new(),
            local: BTreeMap::new(),
            head: None,
            file: None,
        };
        world.commit("initial content");
        world.push("refs/heads/main");
        world
    }

    fn commit(&mut self, content: &'static str) {
        self.objects.push(Object::Commit(content));
    }

    /// Makes an annotated tag of the newest object.
    fn annotate(&mut self) {
        self.objects.push(Object::Tag(self.objects.len() - 1));
    }

    /// Moves a reference of the remote to the newest object.
    fn push(&mut self, reference: &str) {
        self.remote.insert(reference.to_string(), self.objects.len() - 1);
    }

    /// The commit that an object leads to, and its text.
    fn peel(&self, object: usize) -> (usize, &'static str) {
        match self.objects[object] {
            Object::Commit(content) => (object, content),
            Object::Tag(target) => self.peel(target),
        }
    }

    fn resolve(&self, name: &str) -> Option<usize> {
        if let Some(name) = name.strip_suffix("^{commit}") {
            return self.resolve(name).map(|object| self.peel(object).0);
        }
        if name == "HEAD" {
            return match self.head.as_ref()? {
                Ok(branch) => self.local.get(&format!("refs/heads/{branch}")).copied(),
                Err(commit) => Some(*commit),
            };
        }
        if let Some(object) = (0..self.objects.len()).find(|o| oid(*o) == name) {
            return Some(object);
        }
        ["refs/tags", "refs/heads", "refs/remotes"]
            .iter()
            .find_map(|place| self.local.get(&format!("{place}/{name}")).copied())
    }

    fn point(&mut self, reference: String, name: &str) -> Result<(), String> {
        let commit = self.resolve(name).ok_or(format!("unknown {name}"))?;
        self.local.insert(reference, commit);
        Ok(())
    }

    fn refresh(&mut self) {
        self.file = self.resolve("HEAD").map(|commit| self.peel(commit).1);
    }

    fn fetch(&mut self, refspec: &str) -> Result<(), String> {
        let (from, to) = refspec.strip_prefix('+').unwrap().split_once(':').unwrap();
        let commit = *self.remote.get(from).ok_or(format!("no {from}"))?;
        self.local.insert(to.to_string(), commit);
        for (name, commit) in &self.remote {
            if name.starts_with("refs/tags/") {
                self.local.insert(name.clone(), *commit);
            }
        }
        Ok(())
    }

    fn git(&mut self, args: &[String]) -> Result<String, String> {
        let args: Vec<&str> = args.iter().map(|arg| arg.as_str()).collect();
        match args[..] {
            ["init"] => {}
            ["remote", "add", "origin", REMOTE] => {}
            ["submodule", "update", "--init", "--recursive"] => {}
            ["fetch", "--tags", "--force", "--update-head-ok", REMOTE, refspec] => {
                self.fetch(refspec)?
            }
            ["rev-parse", hash] if hash.len() == 40 => return Ok(hash.to_string()),
            ["rev-parse", name] => {
                return self.resolve(name).map(oid).ok_or(format!("unknown {name}"));
            }
            ["checkout", "-B", branch, at] => {
                self.point(format!("refs/heads/{branch}"), at)?;
                self.head = Some(Ok(branch.to_string()));
                self.refresh();
            }
            ["checkout", name] => {
                let object = self.resolve(name).ok_or(format!("unknown {name}"))?;
                self.head = Some(Err(self.peel(object).0));
                self.refresh();
            }
            ["branch", "--show-current"] => {
                return Ok(match &self.head {
                    Some(Ok(branch)) => branch.clone(),
                    _ => String::new(),
                });
            }
            ["branch", "-f", branch, at] => {
                if self.head == Some(Ok(branch.to_string())) {
                    return Err(format!("cannot force update the current branch {branch}"));
                }
                self.point(format!("refs/heads/{branch}"), at)?;
            }
            ["reset", "--hard", at] => {
                match self.head.clone() {
                    Some(Ok(branch)) => self.point(format!("refs/heads/{branch}"), at)?,
                    _ => return Err("not on a branch".to_string()),
                }
                self.refresh();
            }
            ["tag", "-f", tag, at] => self.point(format!("refs/tags/{tag}"), at)?,
            _ => panic!("git {args:?}"),
        }
        Ok(String::new())
    }

    fn drive(&mut self, start: Operation) -> Outcome {
        let mut operation = start;
        loop {
            operation = match operation {
                Operation::Git(step) => {
                    let reply = self.git(&step.command().args);
                    step.resume(reply.map_err(|message| IoFailure {
                        message: message.clone(),
                        source: io::Error::other(message),
                    }))
                }
                Operation::Check(step) => {
                    let reply = match step.condition() {
                        Condition::IsDir(_) => false,
                        Condition::Exists(_) => true,
                        Condition::SubmodulesDisabled => false,
                    };
                    step.resume(reply)
                }
                Operation::Act(step) => {
                    assert!(matches!(step.action(), DirAction::Create(_)));
                    step.resume(Ok(()))
                }
                Operation::Print(step) => step.resume(),
                Operation::Read(_) => panic!("nothing is read"),
                Operation::Finished(outcome) => return outcome,
            };
        }
    }

    fn done(&mut self, operation: Operation) {
        let outcome = self.drive(operation);
        assert!(matches!(outcome, Outcome::Done), "{outcome:?}");
    }

    fn ref_as_oid(&mut self, repo: &GitRepository, reference: &str) -> Oid {
        match self.drive(repo.ref_as_oid(reference)) {
            Outcome::Oid(oid) => oid,
            other => panic!("{other:?}"),
        }
    }
}

fn init(world: &mut World) -> GitRepository {
    let path = PathBuf::from("cache");
    world.done(GitRepository::init(&path, REMOTE));
    GitRepository::new(path)
}

#[test]
fn test_branch_update_after_checkout() {
    let mut world = World::new();
    let repo = init(&mut world);
    let refspecs = vec!["+refs/heads/main:refs/remotes/origin/main".to_string()];

    // First fetch
    world.done(repo.fetch(REMOTE, &GitReference::Branch("main"), refspecs.clone()));
    let initial_oid = world.ref_as_oid(&repo, "main");

    // Update remote
    world.commit("updated content");
    world.push("refs/heads/main");

    // Second fetch should get updated commit
    world.done(repo.fetch(REMOTE, &GitReference::Branch("main"), refspecs));
    let updated_oid = world.ref_as_oid(&repo, "main");
    assert_ne!(initial_oid.as_str(), updated_oid.as_str());

    // Verify checkout gives us updated content
    world.done(repo.checkout(&updated_oid));
    assert_eq!(world.file, Some("updated content"));
}

#[test]
fn test_tag_update_after_checkout() {
    let mut world = World::new();

    // Create and push initial tag
    world.push("refs/tags/v1.0");

    let repo = init(&mut world);
    let refspecs = vec!["+refs/tags/v1.0:refs/remotes/origin/tags/v1.0".to_string()];

    // First fetch
    world.done(repo.fetch(REMOTE, &GitReference::Tag("v1.0"), refspecs.clone()));
    let initial_oid = world.ref_as_oid(&repo, "v1.0");

    // Update remote and move tag
    world.commit("updated content");
    world.push("refs/heads/main");
    world.push("refs/tags/v1.0");

    // Second fetch should get updated commit
    world.done(repo.fetch(REMOTE, &GitReference::Tag("v1.0"), refspecs));
    let updated_oid = world.ref_as_oid(&repo, "v1.0");
    assert_ne!(initial_oid.as_str(), updated_oid.as_str());

    // Verify checkout gives us updated content
    world.done(repo.checkout(&updated_oid));
    assert_eq!(world.file, Some("updated content"));
}

#[test]
fn branch_update_while_another_commit_is_checked_out() {
    let mut world = World::new();
    let repo = init(&mut world);
    let refspecs = vec!["+refs/heads/main:refs/remotes/origin/main".to_string()];
    world.done(repo.fetch(REMOTE, &GitReference::Branch("main"), refspecs.clone()));
    let initial_oid = world.ref_as_oid(&repo, "main");
    world.done(repo.checkout_branch("main"));
    world.head = Some(Err(0));
    world.commit("updated content");
    world.push("refs/heads/main");
    world.done(repo.fetch(REMOTE, &GitReference::Branch("main"), refspecs));
    let updated_oid = world.ref_as_oid(&repo, "main");
    assert_ne!(initial_oid.as_str(), updated_oid.as_str());
    assert_eq!(world.resolve("HEAD"), Some(0));
}

#[test]
fn unknown_names_of_a_branch_and_of_a_tag() {
    for (name, pushed) in [("dev", "refs/heads/dev"), ("v2", "refs/tags/v2")] {
        let mut world = World::new();
        world.commit("updated content");
        world.push(pushed);
        let repo = init(&mut world);
        let refspecs = vec![
            format!("+refs/heads/{name}:refs/remotes/origin/{name}"),
            format!("+refs/tags/{name}:refs/remotes/origin/tags/{name}"),
        ];
        world.done(repo.fetch(REMOTE, &GitReference::Unknown(name), refspecs));
        let found = world.ref_as_oid(&repo, name);
        assert_eq!(found.as_str(), oid(1));
        world.done(repo.checkout(&found));
        assert_eq!(world.file, Some("updated content"));
    }
}

#[test]
fn annotated_tag_is_parsed_to_its_commit() {
    let mut world = World::new();
    world.annotate();
    world.push("refs/tags/v1.0");
    let repo = init(&mut world);
    let refspecs = vec!["+refs/tags/v1.0:refs/remotes/origin/tags/v1.0".to_string()];
    world.done(repo.fetch(REMOTE, &GitReference::Tag("v1.0"), refspecs));
    assert_eq!(world.resolve("v1.0"), Some(1));
    assert_eq!(world.ref_as_oid(&repo, "v1.0").as_str(), oid(0));
    match world.drive(repo.rev_parse("v1.0")) {
        Outcome::Oid(commit) => assert_eq!(commit.as_str(), oid(0)),
        other => panic!("{other:?}"),
    }
}

#[test]
fn full_hash_stands_for_itself() {
    let mut world = World::new();
    let repo = init(&mut world);
    let absent = oid(77);
    assert_eq!(world.ref_as_oid(&repo, &absent).as_str(), absent);
}
