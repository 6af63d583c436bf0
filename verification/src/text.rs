//! The text handling that reading git's output needs: white space, words and lines.
use vstd::prelude::*;
use vstd::string::*;

verus! {

/// The characters with Unicode's `White_Space` property.
pub open spec fn is_white_space(c: char) -> bool {
    let n = c as u32;
    ||| 0x9 <= n <= 0xd
    ||| n == 0x20
    ||| n == 0x85
    ||| n == 0xa0
    ||| n == 0x1680
    ||| 0x2000 <= n <= 0x200a
    ||| n == 0x2028
    ||| n == 0x2029
    ||| n == 0x202f
    ||| n == 0x205f
    ||| n == 0x3000
}

/// `s` without its leading white space.
pub open spec fn trim_start(s: Seq<char>) -> Seq<char>
    decreases s.len(),
{
    if s.len() > 0 && is_white_space(s[0]) {
        trim_start(s.drop_first())
    } else {
        s
    }
}

/// `s` without its trailing white space.
pub open spec fn trim_end(s: Seq<char>) -> Seq<char>
    decreases s.len(),
{
    if s.len() > 0 && is_white_space(s.last()) {
        trim_end(s.drop_last())
    } else {
        s
    }
}

/// `s` without the white space at its two ends.
pub open spec fn trim(s: Seq<char>) -> Seq<char> {
    trim_end(trim_start(s))
}

/// The characters of `s` before its first white space.
pub open spec fn before_white_space(s: Seq<char>) -> Seq<char>
    decreases s.len(),
{
    if s.len() > 0 && !is_white_space(s[0]) {
        seq![s[0]] + before_white_space(s.drop_first())
    } else {
        Seq::empty()
    }
}

/// The first word of `s`, words being what white space separates.
pub open spec fn first_word(s: Seq<char>) -> Option<Seq<char>> {
    if trim_start(s).len() == 0 {
        None
    } else {
        Some(before_white_space(trim_start(s)))
    }
}

/// What follows `prefix` in `s`, where `s` begins with it.
pub open spec fn strip_prefix(s: Seq<char>, prefix: Seq<char>) -> Option<Seq<char>> {
    if prefix.is_prefix_of(s) {
        Some(s.skip(prefix.len() as int))
    } else {
        None
    }
}

/// The number of characters before the first line feed of `s`: all of them where it has none.
pub open spec fn line_feed(s: Seq<char>) -> nat
    decreases s.len(),
{
    if s.len() == 0 || s[0] == '\n' {
        0
    } else {
        1 + line_feed(s.drop_first())
    }
}

/// The first line of `s`, without the line feed, or carriage return and line feed, that ends it.
pub open spec fn first_line(s: Seq<char>) -> Seq<char> {
    let end = line_feed(s) as int;
    if 0 < end < s.len() && s[end - 1] == '\r' {
        s.take(end - 1)
    } else {
        s.take(end)
    }
}

/// What follows the first line of `s`.
pub open spec fn after_first_line(s: Seq<char>) -> Seq<char> {
    let end = line_feed(s) as int;
    if end < s.len() {
        s.skip(end + 1)
    } else {
        Seq::empty()
    }
}

/// The lines of `s`. Nothing follows a line feed that ends `s`.
pub open spec fn lines(s: Seq<char>) -> Seq<Seq<char>>
    decreases s.len(),
{
    if s.len() == 0 {
        Seq::empty()
    } else {
        seq![first_line(s)] + lines(after_first_line(s))
    }
}

/// Whether `c` is white space, as [`is_white_space`] has it.
pub fn char_is_white_space(c: char) -> (r: bool)
    ensures
        r == is_white_space(c),
{
    let n: u32 = c as u32;
    (0x9 <= n && n <= 0xd) || n == 0x20 || n == 0x85 || n == 0xa0 || n == 0x1680 || (0x2000 <= n
        && n <= 0x200a) || n == 0x2028 || n == 0x2029 || n == 0x202f || n == 0x205f || n == 0x3000
}

/// The characters of `s`, in order.
pub fn chars_of(s: &str) -> (r: Vec<char>)
    ensures
        r@ == s@,
{
    let mut r: Vec<char> = Vec::new();
    for c in it: s.chars()
        invariant
            r@ == it.seq().take(it.index()),
            it.seq() == s@,
    {
        r.push(c);
    }
    r
}

/// Whether two texts are the same.
pub fn same_text(a: &str, b: &str) -> (r: bool)
    ensures
        r == (a@ == b@),
{
    a.to_owned() == b.to_owned()
}

/// `s` without the white space at its two ends.
pub fn trim_text(s: &str) -> (r: &str)
    ensures
        r@ == trim(s@),
{
    let chars = chars_of(s);
    let mut from: usize = 0;
    assert(s@.skip(0) =~= s@);
    while from < chars.len() && char_is_white_space(chars[from])
        invariant
            chars@ == s@,
            from <= chars.len(),
            trim_start(s@) == trim_start(s@.skip(from as int)),
        decreases chars.len() - from,
    {
        assert(s@.skip(from as int).drop_first() =~= s@.skip(from + 1));
        from += 1;
    }
    let mut to: usize = chars.len();
    assert(s@.subrange(from as int, to as int) =~= s@.skip(from as int));
    while from < to && char_is_white_space(chars[to - 1])
        invariant
            chars@ == s@,
            from <= to <= chars.len(),
            trim(s@) == trim_end(s@.subrange(from as int, to as int)),
        decreases to,
    {
        assert(s@.subrange(from as int, to as int).drop_last() =~= s@.subrange(
            from as int,
            to - 1,
        ));
        to -= 1;
    }
    s.substring_char(from, to)
}

proof fn lemma_trim_start(s: Seq<char>)
    ensures
        trim_start(s).len() > 0 ==> !is_white_space(trim_start(s)[0]),
    decreases s.len(),
{
    if s.len() > 0 && is_white_space(s[0]) {
        lemma_trim_start(s.drop_first());
    }
}

proof fn lemma_trim_end(s: Seq<char>)
    ensures
        trim_end(s).is_prefix_of(s),
        trim_end(s).len() > 0 ==> !is_white_space(trim_end(s).last()),
        s.len() > 0 && !is_white_space(s[0]) ==> trim_end(s).len() > 0,
        trim_end(trim_end(s)) == trim_end(s),
    decreases s.len(),
{
    if s.len() > 0 && is_white_space(s.last()) {
        lemma_trim_end(s.drop_last());
        let r = trim_end(s);
        assert(r =~= s.drop_last().take(r.len() as int));
        assert(r =~= s.subrange(0, r.len() as int));
        if s.len() > 1 {
            assert(s.drop_last()[0] == s[0]);
        }
    } else {
        assert(s =~= s.subrange(0, s.len() as int));
    }
}

/// What is trimmed has no white space at its ends, and nothing is left to trim of it.
pub proof fn law_trim(s: Seq<char>)
    ensures
        trim(s).len() > 0 ==> !is_white_space(trim(s)[0]) && !is_white_space(trim(s).last()),
        trim(trim(s)) == trim(s),
{
    let t = trim_start(s);
    lemma_trim_start(s);
    lemma_trim_end(t);
    if trim(s).len() > 0 {
        assert(trim(s)[0] == t[0]);
    }
    assert(trim_start(trim(s)) == trim(s));
}

/// A word is not empty, and holds no white space. So nothing is left to trim of it.
pub proof fn law_first_word(s: Seq<char>)
    ensures
        first_word(s) matches Some(word) ==> word.len() > 0 && trim(word) == word && forall|i: int|
            0 <= i < word.len() ==> !is_white_space(#[trigger] word[i]),
{
    let t = trim_start(s);
    lemma_trim_start(s);
    lemma_before_white_space(t);
}

proof fn lemma_before_white_space(s: Seq<char>)
    ensures
        forall|i: int|
            0 <= i < before_white_space(s).len() ==> !is_white_space(
                #[trigger] before_white_space(s)[i],
            ),
    decreases s.len(),
{
    if s.len() > 0 && !is_white_space(s[0]) {
        lemma_before_white_space(s.drop_first());
        let rest = before_white_space(s.drop_first());
        assert forall|i: int| 0 <= i < before_white_space(s).len() implies !is_white_space(
            #[trigger] before_white_space(s)[i],
        ) by {
            if i > 0 {
                assert(before_white_space(s)[i] == rest[i - 1]);
            }
        }
    }
}

/// The first word of a text that begins with a word is that word.
pub proof fn lemma_word_first(word: Seq<char>, rest: Seq<char>)
    requires
        word.len() > 0,
        forall|i: int| 0 <= i < word.len() ==> !is_white_space(#[trigger] word[i]),
        rest.len() > 0 ==> is_white_space(rest[0]),
    ensures
        first_word(word + rest) == Some(word),
{
    assert(!is_white_space((word + rest)[0]));
    lemma_word_before(word, rest);
}

proof fn lemma_word_before(word: Seq<char>, rest: Seq<char>)
    requires
        forall|i: int| 0 <= i < word.len() ==> !is_white_space(#[trigger] word[i]),
        rest.len() > 0 ==> is_white_space(rest[0]),
    ensures
        before_white_space(word + rest) == word,
    decreases word.len(),
{
    if word.len() > 0 {
        let tail = word.drop_first();
        assert(forall|i: int| 0 <= i < tail.len() ==> #[trigger] tail[i] == word[i + 1]);
        lemma_word_before(tail, rest);
        assert((word + rest).drop_first() =~= tail + rest);
        assert(word =~= seq![word[0]] + tail);
    } else {
        assert(word + rest =~= rest);
    }
}

/// A line feed comes after all that holds none.
pub proof fn lemma_line_feed_after(s: Seq<char>, n: nat)
    requires
        n <= s.len(),
        forall|i: int| 0 <= i < n ==> #[trigger] s[i] != '\n',
    ensures
        n <= line_feed(s) <= s.len(),
        forall|i: int| 0 <= i < line_feed(s) ==> #[trigger] s[i] != '\n',
        line_feed(s) < s.len() ==> s[line_feed(s) as int] == '\n',
    decreases s.len(),
{
    if s.len() > 0 && s[0] != '\n' {
        let t = s.drop_first();
        let m = if n > 0 { (n - 1) as nat } else { 0 };
        assert forall|i: int| 0 <= i < m implies #[trigger] t[i] != '\n' by {
            assert(t[i] == s[i + 1]);
        }
        lemma_line_feed_after(t, m);
        assert forall|i: int| 0 <= i < line_feed(s) implies #[trigger] s[i] != '\n' by {
            if i > 0 {
                assert(s[i] == t[i - 1]);
            }
        }
        if line_feed(s) < s.len() {
            assert(s[line_feed(s) as int] == t[line_feed(t) as int]);
        }
    }
}

/// How much white space `s` begins with.
proof fn lemma_trim_start_at(s: Seq<char>) -> (n: int)
    ensures
        0 <= n <= s.len(),
        trim_start(s) == s.skip(n),
        forall|i: int| 0 <= i < n ==> is_white_space(#[trigger] s[i]),
        n < s.len() ==> !is_white_space(s[n]),
    decreases s.len(),
{
    if s.len() > 0 && is_white_space(s[0]) {
        let t = s.drop_first();
        let n = lemma_trim_start_at(t);
        assert(t.skip(n) =~= s.skip(n + 1));
        assert forall|i: int| 0 <= i < n + 1 implies is_white_space(#[trigger] s[i]) by {
            if i > 0 {
                assert(s[i] == t[i - 1]);
            }
        }
        if n < t.len() {
            assert(t[n] == s[n + 1]);
        }
        n + 1
    } else {
        assert(s.skip(0) =~= s);
        0
    }
}

/// How much of `s` is left before the white space that it ends with.
proof fn lemma_trim_end_at(s: Seq<char>) -> (n: int)
    ensures
        0 <= n <= s.len(),
        trim_end(s) == s.take(n),
        forall|i: int| n <= i < s.len() ==> is_white_space(#[trigger] s[i]),
        n > 0 ==> !is_white_space(s[n - 1]),
    decreases s.len(),
{
    if s.len() > 0 && is_white_space(s.last()) {
        let t = s.drop_last();
        let n = lemma_trim_end_at(t);
        assert(t.take(n) =~= s.take(n));
        assert forall|i: int| n <= i < s.len() implies is_white_space(#[trigger] s[i]) by {
            if i < t.len() {
                assert(s[i] == t[i]);
            }
        }
        n
    } else {
        assert(s.take(s.len() as int) =~= s);
        s.len() as int
    }
}

/// How much of `s` comes before its first white space.
proof fn lemma_before_white_space_at(s: Seq<char>) -> (n: int)
    ensures
        0 <= n <= s.len(),
        before_white_space(s) == s.take(n),
        forall|i: int| 0 <= i < n ==> !is_white_space(#[trigger] s[i]),
        n < s.len() ==> is_white_space(s[n]),
    decreases s.len(),
{
    if s.len() > 0 && !is_white_space(s[0]) {
        let t = s.drop_first();
        let n = lemma_before_white_space_at(t);
        assert(seq![s[0]] + t.take(n) =~= s.take(n + 1));
        assert forall|i: int| 0 <= i < n + 1 implies !is_white_space(#[trigger] s[i]) by {
            if i > 0 {
                assert(s[i] == t[i - 1]);
            }
        }
        if n < t.len() {
            assert(t[n] == s[n + 1]);
        }
        n + 1
    } else {
        assert(s.take(0) =~= Seq::empty());
        0
    }
}

/// The bounds of the first word of `s`.
pub proof fn lemma_first_word_at(s: Seq<char>) -> (r: (int, int))
    ensures
        match first_word(s) {
            Some(word) => {
                &&& 0 <= r.0 < r.1 <= s.len()
                &&& word == s.subrange(r.0, r.1)
                &&& forall|i: int| 0 <= i < r.0 ==> is_white_space(#[trigger] s[i])
                &&& forall|i: int| r.0 <= i < r.1 ==> !is_white_space(#[trigger] s[i])
                &&& r.1 < s.len() ==> is_white_space(s[r.1])
            },
            None => forall|i: int| 0 <= i < s.len() ==> is_white_space(#[trigger] s[i]),
        },
{
    let n = lemma_trim_start_at(s);
    let t = s.skip(n);
    let m = lemma_before_white_space_at(t);
    assert(t.take(m) =~= s.subrange(n, n + m));
    if n < s.len() {
        assert(t[0] == s[n]);
        assert forall|i: int| n <= i < n + m implies !is_white_space(#[trigger] s[i]) by {
            assert(s[i] == t[i - n]);
        }
        if n + m < s.len() {
            assert(s[n + m] == t[m]);
        }
    }
    (n, n + m)
}

/// The characters that count as white space, one by one.
pub proof fn law_white_space(c: char, r: bool)
    requires
        call_ensures(char_is_white_space, (c,), r),
    ensures
        r == is_white_space(c),
        r <==> (c == ' ' || '\t' <= c <= '\r' || c == '\u{85}' || c == '\u{a0}' || c == '\u{1680}'
            || '\u{2000}' <= c <= '\u{200a}' || c == '\u{2028}' || c == '\u{2029}' || c
            == '\u{202f}' || c == '\u{205f}' || c == '\u{3000}'),
{
}

/// What is trimmed off a text is white space, all of it at the two ends, and what is left neither begins
/// nor ends with white space. Nothing is changed in between.
pub proof fn law_trim_text(s: &str, r: &str)
    requires
        call_ensures(trim_text, (s,), r),
    ensures
        trimmed(s@, r@),
{
    lemma_trimmed(s@);
}

/// `r` is what is left of `s` between the white space at its two ends.
pub open spec fn trimmed(s: Seq<char>, r: Seq<char>) -> bool {
    exists|a: int, b: int|
        0 <= a <= b <= s.len() && r == #[trigger] s.subrange(a, b) && (forall|i: int|
            0 <= i < a || b <= i < s.len() ==> is_white_space(#[trigger] s[i])) && (a < b
            ==> !is_white_space(s[a]) && !is_white_space(s[b - 1]))
}

pub proof fn lemma_trimmed(s: Seq<char>)
    ensures
        trimmed(s, trim(s)),
{
    let a = lemma_trim_start_at(s);
    let t = s.skip(a);
    let n = lemma_trim_end_at(t);
    let b = a + n;
    assert(t.take(n) =~= s.subrange(a, b));
    assert forall|i: int| 0 <= i < a || b <= i < s.len() implies is_white_space(
        #[trigger] s[i],
    ) by {
        if b <= i {
            assert(s[i] == t[i - a]);
        }
    }
    if a < b {
        assert(t[n - 1] == s[b - 1]);
    }
}

/// Only one text is left of another between the white space at its two ends.
pub proof fn lemma_trimmed_is_trim(s: Seq<char>, r: Seq<char>)
    ensures
        trimmed(s, r) <==> r == trim(s),
{
    lemma_trimmed(s);
    if trimmed(s, r) {
        let (a, b) = choose|a: int, b: int|
            0 <= a <= b <= s.len() && r == #[trigger] s.subrange(a, b) && (forall|i: int|
                0 <= i < a || b <= i < s.len() ==> is_white_space(#[trigger] s[i])) && (a < b
                ==> !is_white_space(s[a]) && !is_white_space(s[b - 1]));
        let t = trim(s);
        let (c, d) = choose|c: int, d: int|
            0 <= c <= d <= s.len() && t == #[trigger] s.subrange(c, d) && (forall|i: int|
                0 <= i < c || d <= i < s.len() ==> is_white_space(#[trigger] s[i])) && (c < d
                ==> !is_white_space(s[c]) && !is_white_space(s[d - 1]));
        if a < b && c < d {
            assert(a == c && b == d);
        } else if a < b {
            assert(is_white_space(s[a]));
        } else if c < d {
            assert(is_white_space(s[c]));
        } else {
            assert(r =~= t);
        }
    }
}

/// The characters of a text are all its characters, in order; and two texts are the same where their
/// characters are.
pub proof fn law_texts(a: &str, b: &str, chars: Vec<char>, same: bool)
    ensures
        call_ensures(chars_of, (a,), chars) ==> chars@ == a@,
        call_ensures(same_text, (a, b), same) ==> (same <==> a@ == b@),
{
}

} // verus!
