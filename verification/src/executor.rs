//! What the run of a git process comes back with.
use vstd::prelude::*;
use vstd::utf8;

use crate::text;

verus! {

/// The text that `String::from_utf8_lossy` makes of `bytes`.
pub uninterp spec fn lossy_text(bytes: Seq<u8>) -> Seq<char>;

/// Calls `String::from_utf8_lossy`, and owns its result. That result depends on the bytes alone;
/// bytes that are valid UTF-8 are decoded. What stands for bytes that are not is left unsaid.
#[verifier::external_body]
fn from_utf8_lossy(bytes: &[u8]) -> (s: String)
    ensures
        s@ == lossy_text(bytes@),
        utf8::valid_utf8(bytes@) ==> s@ == utf8::decode_utf8(bytes@),
{
    String::from_utf8_lossy(bytes).into_owned()
}

/// Runs git on the machine.
#[derive(Debug, Clone)]
pub struct GitExecutor;

impl GitExecutor {
    /// What a git process that has ended comes back with: what it printed, without the white space
    /// around it, or else the message that it failed with.
    pub fn reply(&self, success: bool, stdout: &[u8], stderr: &[u8]) -> (r: Result<String, String>)
        ensures
            match r {
                Ok(output) => success && output@ == text::trim(lossy_text(stdout@)),
                Err(message) => !success && message@ == lossy_text(stderr@),
            },
            success && utf8::valid_utf8(stdout@) ==> (r matches Ok(output) && output@ == text::trim(
                utf8::decode_utf8(stdout@),
            )),
            !success && utf8::valid_utf8(stderr@) ==> (r matches Err(message) && message@
                == utf8::decode_utf8(stderr@)),
    {
        if success {
            Ok(self.output(from_utf8_lossy(stdout).as_str()))
        } else {
            Err(from_utf8_lossy(stderr))
        }
    }

    /// The output of a git process that printed `stdout`.
    pub fn output(&self, stdout: &str) -> (r: String)
        ensures
            r@ == text::trim(stdout@),
    {
        text::trim_text(stdout).to_owned()
    }
}

/// A process that succeeds comes back with what it printed, and one that fails with its message. Of what
/// was printed only the white space at the two ends is taken off, and the message is left as it is.
pub proof fn law_reply(
    git: &GitExecutor,
    success: bool,
    stdout: &[u8],
    stderr: &[u8],
    r: Result<String, String>,
)
    requires
        call_ensures(GitExecutor::reply, (git, success, stdout, stderr), r),
    ensures
        success ==> (r matches Ok(output) && text::trimmed(lossy_text(stdout@), output@)),
        !success ==> (r matches Err(message) && message@ == lossy_text(stderr@)),
        success && utf8::valid_utf8(stdout@) ==> (r matches Ok(output) && text::trimmed(
            utf8::decode_utf8(stdout@),
            output@,
        )),
        !success && utf8::valid_utf8(stderr@) ==> (r matches Err(message) && message@
            == utf8::decode_utf8(stderr@)),
{
    text::lemma_trimmed(lossy_text(stdout@));
    text::lemma_trimmed(utf8::decode_utf8(stdout@));
}

/// Only the white space at its two ends is taken off an output.
pub proof fn law_output(git: &GitExecutor, stdout: &str, r: String)
    requires
        call_ensures(GitExecutor::output, (git, stdout), r),
    ensures
        text::trimmed(stdout@, r@),
{
    text::lemma_trimmed(stdout@);
}

} // verus!
