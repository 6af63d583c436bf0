//! Reading the default branch out of what `git ls-remote --symref <target> HEAD` prints:
//!
//! ```text
//! ref: refs/heads/main    HEAD
//! 8823d1d2b5f4d80ed77f781e30df2eaa4c84fe9e        HEAD
//! ```
use vstd::prelude::*;
use vstd::string::*;

use crate::text;

verus! {

/// What a line that names the default branch begins with.
pub const SYMREF_PREFIX: &'static str = "ref: refs/heads/";

/// The branch that one line of the output names, if it names one.
pub open spec fn line_branch(line: Seq<char>) -> Option<Seq<char>> {
    match text::strip_prefix(line, SYMREF_PREFIX@) {
        Some(rest) => text::first_word(rest),
        None => None,
    }
}

/// The branch that the first line to name one names.
pub open spec fn first_branch(lines: Seq<Seq<char>>) -> Option<Seq<char>>
    decreases lines.len(),
{
    if lines.len() == 0 {
        None
    } else if line_branch(lines[0]) is Some {
        line_branch(lines[0])
    } else {
        first_branch(lines.drop_first())
    }
}

/// The default branch that the output names.
pub open spec fn default_branch(output: Seq<char>) -> Option<Seq<char>> {
    first_branch(text::lines(output))
}

/// Whether `prefix` stands in `chars` at `from`, before `to`.
fn prefix_at(chars: &Vec<char>, from: usize, to: usize, prefix: &Vec<char>) -> (r: bool)
    requires
        from <= to <= chars@.len(),
    ensures
        r == prefix@.is_prefix_of(chars@.subrange(from as int, to as int)),
{
    if prefix.len() > to - from {
        return false;
    }
    let ghost part = chars@.subrange(from as int, to as int);
    let mut i: usize = 0;
    while i < prefix.len()
        invariant
            from <= to <= chars@.len(),
            prefix@.len() <= to - from,
            part == chars@.subrange(from as int, to as int),
            i <= prefix@.len(),
            forall|j: int| 0 <= j < i ==> prefix@[j] == part[j],
        decreases prefix@.len() - i,
    {
        if prefix[i] != chars[from + i] {
            assert(part.subrange(0, prefix@.len() as int)[i as int] == part[i as int]);
            return false;
        }
        i += 1;
    }
    assert(prefix@ =~= part.subrange(0, prefix@.len() as int));
    true
}

/// The bounds of the first word that stands in `chars` between `from` and `to`.
fn word_in(chars: &Vec<char>, from: usize, to: usize) -> (r: Option<(usize, usize)>)
    requires
        from <= to <= chars@.len(),
    ensures
        match text::first_word(chars@.subrange(from as int, to as int)) {
            Some(word) => r matches Some((a, b)) && a <= b <= to && chars@.subrange(
                a as int,
                b as int,
            ) == word,
            None => r is None,
        },
{
    let ghost part = chars@.subrange(from as int, to as int);
    let mut a: usize = from;
    while a < to && text::char_is_white_space(chars[a])
        invariant
            from <= a <= to <= chars@.len(),
            text::trim_start(part) == text::trim_start(chars@.subrange(a as int, to as int)),
        decreases to - a,
    {
        assert(chars@.subrange(a as int, to as int).drop_first() =~= chars@.subrange(
            a + 1,
            to as int,
        ));
        a += 1;
    }
    if a == to {
        return None;
    }
    let mut b: usize = a;
    let ghost body = chars@.subrange(a as int, to as int);
    assert(chars@.subrange(a as int, a as int) + text::before_white_space(body) =~= text::before_white_space(
        body,
    ));
    while b < to && !text::char_is_white_space(chars[b])
        invariant
            a <= b <= to <= chars@.len(),
            text::before_white_space(body) == chars@.subrange(a as int, b as int) + text::before_white_space(
                chars@.subrange(b as int, to as int),
            ),
        decreases to - b,
    {
        let ghost left = chars@.subrange(b as int, to as int);
        assert(left.drop_first() =~= chars@.subrange(b + 1, to as int));
        assert(chars@.subrange(a as int, b as int) + seq![left[0]] =~= chars@.subrange(
            a as int,
            b + 1,
        ));
        assert(chars@.subrange(a as int, b as int) + (seq![left[0]] + text::before_white_space(
            left.drop_first(),
        )) =~= chars@.subrange(a as int, b + 1) + text::before_white_space(left.drop_first()));
        b += 1;
    }
    assert(chars@.subrange(a as int, b as int) =~= text::before_white_space(body));
    Some((a, b))
}

/// The default branch that `output` names: the first word behind [`SYMREF_PREFIX`] on the first
/// line that begins with it and has such a word. `None` where no line does.
pub fn parse_default_branch(output: &str) -> (r: Option<String>)
    ensures
        match default_branch(output@) {
            Some(branch) => r matches Some(name) && name@ == branch,
            None => r is None,
        },
{
    let chars = text::chars_of(output);
    let prefix = text::chars_of(SYMREF_PREFIX);
    let mut start: usize = 0;
    assert(chars@.skip(0) =~= chars@);
    while start < chars.len()
        invariant
            chars@ == output@,
            prefix@ == SYMREF_PREFIX@,
            start <= chars@.len(),
            default_branch(output@) == default_branch(chars@.skip(start as int)),
        decreases chars@.len() - start,
    {
        let ghost rest = chars@.skip(start as int);
        let mut end: usize = start;
        assert(rest =~= chars@.skip(end as int));
        while end < chars.len() && chars[end] != '\n'
            invariant
                start <= end <= chars@.len(),
                text::line_feed(rest) == end - start + text::line_feed(chars@.skip(end as int)),
            decreases chars@.len() - end,
        {
            assert(chars@.skip(end as int).drop_first() =~= chars@.skip(end + 1));
            end += 1;
        }
        assert(text::line_feed(rest) == end - start);
        let stop: usize = if start < end && end < chars.len() && chars[end - 1] == '\r' {
            end - 1
        } else {
            end
        };
        let ghost line = chars@.subrange(start as int, stop as int);
        assert(text::first_line(rest) =~= line);
        assert(text::lines(rest)[0] == line);
        assert(text::lines(rest).drop_first() =~= text::lines(text::after_first_line(rest)));
        if prefix_at(&chars, start, stop, &prefix) {
            let body: usize = start + prefix.len();
            assert(line.skip(prefix@.len() as int) =~= chars@.subrange(body as int, stop as int));
            if let Some((a, b)) = word_in(&chars, body, stop) {
                return Some(output.substring_char(a, b).to_owned());
            }
        }
        assert(line_branch(line) is None);
        if end == chars.len() {
            assert(text::lines(text::after_first_line(rest)) =~= Seq::empty());
            assert(first_branch(text::lines(text::after_first_line(rest))) is None);
            return None;
        }
        assert(text::after_first_line(rest) =~= chars@.skip(end + 1));
        start = end + 1;
    }
    assert(chars@.skip(start as int) =~= Seq::empty());
    None
}

/// The branch that is found is a word, with nothing to trim: a name, and not nothing.
pub proof fn law_default_branch_is_a_word(output: Seq<char>)
    ensures
        default_branch(output) matches Some(branch) ==> branch.len() > 0 && text::trim(branch)
            == branch && forall|i: int|
            0 <= i < branch.len() ==> !text::is_white_space(#[trigger] branch[i]),
{
    lemma_first_branch(text::lines(output));
    if let Some(branch) = default_branch(output) {
        let i = choose|i: int|
            0 <= i < text::lines(output).len() && line_branch(#[trigger] text::lines(output)[i])
                == Some(branch);
        let line = text::lines(output)[i];
        text::law_first_word(line.skip(SYMREF_PREFIX@.len() as int));
    }
}

proof fn lemma_first_branch(lines: Seq<Seq<char>>)
    ensures
        match first_branch(lines) {
            Some(branch) => exists|i: int|
                0 <= i < lines.len() && line_branch(#[trigger] lines[i]) == Some(branch) && forall|
                    j: int,
                |
                    0 <= j < i ==> line_branch(#[trigger] lines[j]) is None,
            None => forall|i: int|
                0 <= i < lines.len() ==> line_branch(#[trigger] lines[i]) is None,
        },
    decreases lines.len(),
{
    if lines.len() > 0 {
        let rest = lines.drop_first();
        lemma_first_branch(rest);
        if line_branch(lines[0]) is Some {
            assert(line_branch(lines[0]) == first_branch(lines));
        } else {
            match first_branch(rest) {
                Some(branch) => {
                    let i = choose|i: int|
                        0 <= i < rest.len() && line_branch(#[trigger] rest[i]) == Some(branch)
                            && forall|j: int| 0 <= j < i ==> line_branch(#[trigger] rest[j]) is None;
                    assert(lines[i + 1] == rest[i]);
                    assert forall|j: int| 0 <= j < i + 1 implies line_branch(
                        #[trigger] lines[j],
                    ) is None by {
                        if j > 0 {
                            assert(lines[j] == rest[j - 1]);
                        }
                    }
                    assert(line_branch(lines[i + 1]) == Some(branch));
                },
                None => {
                    assert forall|i: int| 0 <= i < lines.len() implies line_branch(
                        #[trigger] lines[i],
                    ) is None by {
                        if i > 0 {
                            assert(lines[i] == rest[i - 1]);
                        }
                    }
                },
            }
        }
    }
}

/// The line that names the default branch is the first that names any, and there is no default
/// branch only where no line names one.
pub proof fn law_first_line_that_names_a_branch(output: Seq<char>)
    ensures
        match default_branch(output) {
            Some(branch) => exists|i: int|
                0 <= i < text::lines(output).len() && line_branch(#[trigger] text::lines(output)[i])
                    == Some(branch) && forall|j: int|
                    0 <= j < i ==> line_branch(#[trigger] text::lines(output)[j]) is None,
            None => forall|i: int|
                0 <= i < text::lines(output).len() ==> line_branch(#[trigger] text::lines(output)[i])
                    is None,
        },
{
    lemma_first_branch(text::lines(output));
}

/// What git prints of a `HEAD` that stands for `branch` is read back as `branch`: the name behind
/// the prefix, up to white space, whatever follows.
pub proof fn law_default_branch_is_read_back(branch: Seq<char>, gap: char, rest: Seq<char>)
    requires
        branch.len() > 0,
        forall|i: int| 0 <= i < branch.len() ==> !text::is_white_space(#[trigger] branch[i]),
        text::is_white_space(gap),
    ensures
        default_branch(SYMREF_PREFIX@ + branch + seq![gap] + rest) == Some(branch),
        default_branch(SYMREF_PREFIX@ + branch) == Some(branch),
{
    lemma_read_back(branch, seq![gap] + rest);
    assert(SYMREF_PREFIX@ + branch + seq![gap] + rest =~= SYMREF_PREFIX@ + branch + (seq![gap]
        + rest));
    lemma_read_back(branch, Seq::empty());
    assert(SYMREF_PREFIX@ + branch + Seq::<char>::empty() =~= SYMREF_PREFIX@ + branch);
}

proof fn lemma_read_back(branch: Seq<char>, rest: Seq<char>)
    requires
        branch.len() > 0,
        forall|i: int| 0 <= i < branch.len() ==> !text::is_white_space(#[trigger] branch[i]),
        rest.len() > 0 ==> text::is_white_space(rest[0]),
    ensures
        default_branch(SYMREF_PREFIX@ + branch + rest) == Some(branch),
{
    reveal_strlit("ref: refs/heads/");
    let prefix = SYMREF_PREFIX@;
    let head = prefix + branch;
    let s = head + rest;
    let n = head.len();
    assert forall|i: int| 0 <= i < n implies #[trigger] s[i] != '\n' by {
        if i < prefix.len() {
            assert(s[i] == prefix[i]);
        } else {
            assert(s[i] == branch[i - prefix.len()]);
        }
    }
    text::lemma_line_feed_after(s, n);
    let end = text::line_feed(s) as int;
    let line = text::first_line(s);
    if n == end {
        assert(s[end - 1] == branch.last());
        assert(!text::is_white_space(branch.last()));
    }
    assert(n <= line.len() <= end);
    assert(line =~= s.take(line.len() as int));
    assert(prefix =~= line.subrange(0, prefix.len() as int));
    let tail = line.skip(n as int);
    assert(line.skip(prefix.len() as int) =~= branch + tail);
    if tail.len() > 0 {
        assert(tail[0] == rest[0]);
    }
    text::lemma_word_first(branch, tail);
    assert(line_branch(line) == Some(branch));
    assert(text::lines(s)[0] == line);
}

/// A line of `output` begins at `p`, with what says that a branch is named, and `a` and `b` are the
/// bounds of the first word behind that on the line.
pub open spec fn branch_at(output: Seq<char>, p: int, a: int, b: int) -> bool {
    &&& 0 <= p && p + 16 <= a < b <= output.len()
    &&& p == 0 || output[p - 1] == '\n'
    &&& output.subrange(p, p + 16) == "ref: refs/heads/"@
    &&& forall|i: int|
        p + 16 <= i < a ==> text::is_white_space(#[trigger] output[i]) && output[i] != '\n'
    &&& forall|i: int| a <= i < b ==> !text::is_white_space(#[trigger] output[i])
    &&& b == output.len() || text::is_white_space(output[b])
}

/// The default branch is the word that the first line to name a branch has behind the prefix, and there
/// is none only where no line names one. So it is of every output.
pub proof fn law_default_branch_is_where_it_stands(output: Seq<char>)
    ensures
        match default_branch(output) {
            Some(branch) => exists|p: int, a: int, b: int| #[trigger]
                branch_at(output, p, a, b) && branch == output.subrange(a, b) && forall|
                    q: int,
                    c: int,
                    d: int,
                | #[trigger]
                    branch_at(output, q, c, d) ==> p <= q,
            None => forall|p: int, a: int, b: int| !(#[trigger] branch_at(output, p, a, b)),
        },
{
    let (p, a, b) = lemma_found(output);
}

proof fn lemma_found(s: Seq<char>) -> (r: (int, int, int))
    ensures
        match default_branch(s) {
            Some(branch) => branch_at(s, r.0, r.1, r.2) && branch == s.subrange(r.1, r.2) && forall|
                q: int,
                c: int,
                d: int,
            | #[trigger]
                branch_at(s, q, c, d) ==> r.0 <= q,
            None => forall|p: int, a: int, b: int| !(#[trigger] branch_at(s, p, a, b)),
        },
    decreases s.len(),
{
    if s.len() == 0 {
        (0, 0, 0)
    } else {
        let line = text::first_line(s);
        let t = text::after_first_line(s);
        let end = text::line_feed(s) as int;
        text::lemma_line_feed_after(s, 0);
        assert(text::lines(s)[0] == line);
        assert(text::lines(s).drop_first() =~= text::lines(t));
        let (a, b) = lemma_found_on_first_line(s);
        if line_branch(line) is Some {
            (0, a, b)
        } else {
            let shift = end + 1;
            assert(default_branch(s) == default_branch(t));
            let (p, c, d) = lemma_found(t);
            if end < s.len() {
                assert forall|q: int, c: int, d: int| #[trigger]
                    branch_at(s, q, c, d) implies branch_at(t, q - shift, c - shift, d - shift) by {
                    assert(q > 0);
                    assert(q - 1 >= end);
                    lemma_shift(s, shift, q - shift, c - shift, d - shift);
                }
                if default_branch(t) is Some {
                    lemma_shift(s, shift, p, c, d);
                    assert(t.subrange(c, d) =~= s.subrange(c + shift, d + shift));
                }
                (p + shift, c + shift, d + shift)
            } else {
                assert(text::lines(t).len() == 0);
                assert forall|q: int, c: int, d: int| !(#[trigger] branch_at(s, q, c, d)) by {
                    if branch_at(s, q, c, d) {
                        assert(q > 0);
                        assert(s[q - 1] == '\n');
                    }
                }
                (0, 0, 0)
            }
        }
    }
}

/// What stands behind a line feed stands where it does, and `shift` further in the whole.
proof fn lemma_shift(s: Seq<char>, shift: int, p: int, a: int, b: int)
    requires
        0 < shift <= s.len(),
        s[shift - 1] == '\n',
        p >= 0,
    ensures
        branch_at(s.skip(shift), p, a, b) <==> branch_at(s, p + shift, a + shift, b + shift),
{
    let t = s.skip(shift);
    if p + 16 <= t.len() {
        assert(t.subrange(p, p + 16) =~= s.subrange(p + shift, p + 16 + shift));
    }
    if branch_at(t, p, a, b) {
        assert forall|i: int| p + shift + 16 <= i < a + shift implies text::is_white_space(
            #[trigger] s[i],
        ) && s[i] != '\n' by {
            assert(s[i] == t[i - shift]);
        }
        assert forall|i: int| a + shift <= i < b + shift implies !text::is_white_space(
            #[trigger] s[i],
        ) by {
            assert(s[i] == t[i - shift]);
        }
        if p > 0 {
            assert(t[p - 1] == s[p + shift - 1]);
        }
    }
    if branch_at(s, p + shift, a + shift, b + shift) {
        assert forall|i: int| p + 16 <= i < a implies text::is_white_space(#[trigger] t[i]) && t[i]
            != '\n' by {
            assert(t[i] == s[i + shift]);
        }
        assert forall|i: int| a <= i < b implies !text::is_white_space(#[trigger] t[i]) by {
            assert(t[i] == s[i + shift]);
        }
    }
}

/// The first line names the branch that stands on it, and none where none does.
proof fn lemma_found_on_first_line(s: Seq<char>) -> (r: (int, int))
    requires
        s.len() > 0,
    ensures
        match line_branch(text::first_line(s)) {
            Some(branch) => branch_at(s, 0, r.0, r.1) && branch == s.subrange(r.0, r.1),
            None => forall|a: int, b: int| !(#[trigger] branch_at(s, 0, a, b)),
        },
{
    reveal_strlit("ref: refs/heads/");
    let prefix = SYMREF_PREFIX@;
    assert(prefix == "ref: refs/heads/"@);
    let line = text::first_line(s);
    let end = text::line_feed(s) as int;
    text::lemma_line_feed_after(s, 0);
    let stop = line.len() as int;
    assert(line =~= s.take(stop));
    if prefix.is_prefix_of(line) {
        assert(s.subrange(0, 16) =~= line.subrange(0, 16));
        let rest = line.skip(16);
        let (n, m) = text::lemma_first_word_at(rest);
        let a = 16 + n;
        let b = 16 + m;
        if text::first_word(rest) is Some {
            assert forall|i: int| 16 <= i < a implies text::is_white_space(#[trigger] s[i]) && s[i]
                != '\n' by {
                assert(s[i] == rest[i - 16]);
            }
            assert forall|i: int| a <= i < b implies !text::is_white_space(#[trigger] s[i]) by {
                assert(s[i] == rest[i - 16]);
            }
            if b < stop {
                assert(s[b] == rest[m]);
            } else if stop < s.len() {
                assert(s[stop] == '\n' || s[stop] == '\r');
            }
            assert(rest.subrange(n, m) =~= s.subrange(a, b));
        } else {
            assert forall|a: int, b: int| !(#[trigger] branch_at(s, 0, a, b)) by {
                if branch_at(s, 0, a, b) {
                    lemma_on_first_line(s, a, b);
                    assert(rest[a - 16] == s[a]);
                }
            }
        }
        (a, b)
    } else {
        assert forall|a: int, b: int| !(#[trigger] branch_at(s, 0, a, b)) by {
            if branch_at(s, 0, a, b) {
                lemma_on_first_line(s, a, b);
                assert(line.subrange(0, 16) =~= s.subrange(0, 16));
            }
        }
        (0, 0)
    }
}

/// A branch that stands behind the prefix at the beginning stands on the first line.
proof fn lemma_on_first_line(s: Seq<char>, a: int, b: int)
    requires
        branch_at(s, 0, a, b),
    ensures
        b <= text::first_line(s).len(),
{
    reveal_strlit("ref: refs/heads/");
    assert forall|i: int| 0 <= i < b implies #[trigger] s[i] != '\n' by {
        if i < 16 {
            assert(s[i] == s.subrange(0, 16)[i]);
        }
    }
    text::lemma_line_feed_after(s, b as nat);
    assert(!text::is_white_space(s[b - 1]));
}

/// What is read out of an output is the branch that stands in it first, and nothing is read out only
/// where none stands in it.
pub proof fn law_parse_default_branch(output: &str, r: Option<String>)
    requires
        call_ensures(parse_default_branch, (output,), r),
    ensures
        match r {
            Some(name) => exists|p: int, a: int, b: int| #[trigger]
                branch_at(output@, p, a, b) && name@ == output@.subrange(a, b) && forall|
                    q: int,
                    c: int,
                    d: int,
                | #[trigger]
                    branch_at(output@, q, c, d) ==> p <= q,
            None => forall|p: int, a: int, b: int| !(#[trigger] branch_at(output@, p, a, b)),
        },
{
    law_default_branch_is_where_it_stands(output@);
}

} // verus!
