//! What a caller can ask a repository for, and what git resolves it to.
use vstd::prelude::*;
use vstd::string::*;

use crate::text;

verus! {

/// A revision of a repository, as its user wrote it down.
#[derive(Debug, Clone, Copy)]
pub enum GitReference<'g> {
    /// The name of a branch.
    Branch(&'g str),
    /// The name of a tag.
    Tag(&'g str),
    /// The hash of a commit.
    Commit(&'g str),
    /// A name of which it is not known what it names.
    Unknown(&'g str),
}

pub enum ReferenceView {
    Branch(Seq<char>),
    Tag(Seq<char>),
    Commit(Seq<char>),
    Unknown(Seq<char>),
}

impl<'g> View for GitReference<'g> {
    type V = ReferenceView;

    open spec fn view(&self) -> ReferenceView {
        match self {
            GitReference::Branch(name) => ReferenceView::Branch(name@),
            GitReference::Tag(name) => ReferenceView::Tag(name@),
            GitReference::Commit(name) => ReferenceView::Commit(name@),
            GitReference::Unknown(name) => ReferenceView::Unknown(name@),
        }
    }
}

impl ReferenceView {
    /// The name or hash itself.
    pub open spec fn name(self) -> Seq<char> {
        match self {
            ReferenceView::Branch(name) => name,
            ReferenceView::Tag(name) => name,
            ReferenceView::Commit(name) => name,
            ReferenceView::Unknown(name) => name,
        }
    }
}

impl<'g> GitReference<'g> {
    /// The name or hash itself.
    pub fn reference(&self) -> (name: &'g str)
        ensures
            name@ == self@.name(),
    {
        match self {
            GitReference::Branch(name) => name,
            GitReference::Tag(name) => name,
            GitReference::Commit(name) => name,
            GitReference::Unknown(name) => name,
        }
    }
}

pub open spec fn is_hex_digit(c: char) -> bool {
    '0' <= c <= '9' || 'a' <= c <= 'f' || 'A' <= c <= 'F'
}

/// The text is an object's hash in full, by either of git's two hash functions.
pub open spec fn is_full_hash(s: Seq<char>) -> bool {
    &&& s.len() == 40 || s.len() == 64
    &&& forall|i: int| 0 <= i < s.len() ==> is_hex_digit(#[trigger] s[i])
}

/// How git is asked for the commit that `reference` names. What is not a commit itself, as an
/// annotated tag is not, is followed to the commit that it points at. A full hash is left as it is:
/// git gives it back without a look at whether there is such an object.
pub open spec fn commit_name(reference: Seq<char>) -> Seq<char> {
    if is_full_hash(reference) {
        reference
    } else {
        reference + "^{commit}"@
    }
}

/// Whether `s` is an object's hash in full, as [`is_full_hash`] has it.
pub fn text_is_full_hash(s: &str) -> (r: bool)
    ensures
        r == is_full_hash(s@),
{
    let chars = text::chars_of(s);
    if chars.len() != 40 && chars.len() != 64 {
        return false;
    }
    let mut i: usize = 0;
    while i < chars.len()
        invariant
            chars@ == s@,
            i <= chars.len(),
            forall|j: int| 0 <= j < i ==> is_hex_digit(#[trigger] s@[j]),
        decreases chars.len() - i,
    {
        let c: char = chars[i];
        if !(('0' <= c && c <= '9') || ('a' <= c && c <= 'f') || ('A' <= c && c <= 'F')) {
            assert(!is_hex_digit(s@[i as int]));
            return false;
        }
        i += 1;
    }
    true
}

/// How git is asked for the commit that `reference` names, as [`commit_name`] has it.
pub fn name_of_commit(reference: &str) -> (name: String)
    ensures
        name@ == commit_name(reference@),
{
    if text_is_full_hash(reference) {
        reference.to_owned()
    } else {
        reference.to_owned().concat("^{commit}")
    }
}

/// The name of an object in git's store.
#[derive(Debug)]
pub struct Oid(String);

impl View for Oid {
    type V = Seq<char>;

    closed spec fn view(&self) -> Seq<char> {
        self.0@
    }
}

impl Oid {
    /// The object that `sha` names.
    pub fn new(sha: String) -> (oid: Oid)
        ensures
            oid@ == sha@,
    {
        Oid(sha)
    }

    /// The name in words.
    pub fn as_str(&self) -> (sha: &str)
        ensures
            sha@ == self@,
    {
        self.0.as_str()
    }
}

/// A text is a full hash where it has the length of one and each of its characters is a digit of it.
pub proof fn law_full_hash(s: &str, r: bool)
    requires
        call_ensures(text_is_full_hash, (s,), r),
    ensures
        r <==> (s@.len() == 40 || s@.len() == 64) && forall|i: int|
            0 <= i < s@.len() ==> ('0' <= #[trigger] s@[i] <= '9' || 'a' <= s@[i] <= 'f' || 'A'
                <= s@[i] <= 'F'),
{
}

/// What git is asked for begins with the reference as it was given. Nothing follows a full hash, and all
/// else is followed by the words that lead to a commit.
pub proof fn law_name_of_commit(reference: &str, name: String, is_hash: bool)
    requires
        call_ensures(name_of_commit, (reference,), name),
        call_ensures(text_is_full_hash, (reference,), is_hash),
    ensures
        is_hash ==> name@ == reference@,
        !is_hash ==> name@ == reference@ + "^{commit}"@,
{
}

} // verus!
