//! Text as the client reads it: white space at the ends of a line does not
//! count, and a line mentions a user where it holds the user's name behind an
//! at sign.

use vstd::prelude::*;
use vstd::string::*;

verus! {

/// Whether `c` is white space: a character with the Unicode property
/// `White_Space`.
pub open spec fn is_whitespace(c: char) -> bool {
    let v = c as u32;
    ||| 0x09 <= v <= 0x0D
    ||| v == 0x20
    ||| v == 0x85
    ||| v == 0xA0
    ||| v == 0x1680
    ||| 0x2000 <= v <= 0x200A
    ||| v == 0x2028
    ||| v == 0x2029
    ||| v == 0x202F
    ||| v == 0x205F
    ||| v == 0x3000
}

/// Whether `c` is white space.
pub fn whitespace(c: char) -> (white: bool)
    ensures
        white == is_whitespace(c),
{
    let v: u32 = c as u32;
    (0x09 <= v && v <= 0x0D) || v == 0x20 || v == 0x85 || v == 0xA0 || v == 0x1680 || (0x2000 <= v
        && v <= 0x200A) || v == 0x2028 || v == 0x2029 || v == 0x202F || v == 0x205F || v == 0x3000
}

/// The characters of `text`, one by one.
pub fn chars_of(text: &str) -> (chars: Vec<char>)
    ensures
        chars@ == text@,
{
    let mut chars: Vec<char> = Vec::new();
    for c in it: text.chars()
        invariant
            it.seq() == text@,
            chars@ == it.seq().take(it.index() as int),
    {
        chars.push(c);
    }
    chars
}

/// How many characters of white space `text` begins with.
pub open spec fn leading_whitespace(text: Seq<char>) -> nat
    decreases text.len(),
{
    if text.len() > 0 && is_whitespace(text[0]) {
        1 + leading_whitespace(text.drop_first())
    } else {
        0
    }
}

/// How many characters of white space `text` ends with.
pub open spec fn trailing_whitespace(text: Seq<char>) -> nat
    decreases text.len(),
{
    if text.len() > 0 && is_whitespace(text.last()) {
        1 + trailing_whitespace(text.drop_last())
    } else {
        0
    }
}

/// `text` without the white space at its two ends. Text that is all white
/// space comes out empty.
pub open spec fn trimmed(text: Seq<char>) -> Seq<char> {
    let start = leading_whitespace(text) as int;
    let end = text.len() - trailing_whitespace(text);
    if start < end {
        text.subrange(start, end)
    } else {
        Seq::<char>::empty()
    }
}

/// Whether `pattern` stands in `text` at position `at`.
pub open spec fn occurs_at(text: Seq<char>, pattern: Seq<char>, at: int) -> bool {
    &&& 0 <= at
    &&& at + pattern.len() <= text.len()
    &&& text.subrange(at, at + pattern.len()) == pattern
}

/// Whether `pattern` stands somewhere in `text`.
pub open spec fn contains_text(text: Seq<char>, pattern: Seq<char>) -> bool {
    exists|at: int| occurs_at(text, pattern, at)
}

/// The text that mentions `username`: an at sign and the name.
pub open spec fn mention_of(username: Seq<char>) -> Seq<char> {
    seq!['@'] + username
}

/// If the first `n` characters are white space and the next one is not, or
/// there is none, then `text` begins with exactly `n` characters of white
/// space.
pub proof fn lemma_leading_whitespace(text: Seq<char>, n: int)
    requires
        0 <= n <= text.len(),
        forall|i: int| 0 <= i < n ==> is_whitespace(#[trigger] text[i]),
        n == text.len() || !is_whitespace(text[n]),
    ensures
        leading_whitespace(text) == n,
    decreases n,
{
    if n > 0 {
        let rest = text.drop_first();
        assert forall|i: int| 0 <= i < n - 1 implies is_whitespace(#[trigger] rest[i]) by {
            assert(rest[i] == text[i + 1]);
        }
        lemma_leading_whitespace(rest, n - 1);
    }
}

/// If the last `n` characters are white space and the one before them is
/// not, or there is none, then `text` ends with exactly `n` characters of
/// white space.
pub proof fn lemma_trailing_whitespace(text: Seq<char>, n: int)
    requires
        0 <= n <= text.len(),
        forall|i: int| text.len() - n <= i < text.len() ==> is_whitespace(#[trigger] text[i]),
        n == text.len() || !is_whitespace(text[text.len() - n - 1]),
    ensures
        trailing_whitespace(text) == n,
    decreases n,
{
    if n > 0 {
        let rest = text.drop_last();
        assert forall|i: int| rest.len() - (n - 1) <= i < rest.len() implies is_whitespace(
            #[trigger] rest[i],
        ) by {
            assert(rest[i] == text[i]);
        }
        lemma_trailing_whitespace(rest, n - 1);
    }
}

/// Trimmed text has no white space at either end, and trimming it again
/// changes nothing.
pub proof fn lemma_trimmed_is_trim(text: Seq<char>)
    ensures
        trimmed(text).len() > 0 ==> !is_whitespace(trimmed(text).first()) && !is_whitespace(
            trimmed(text).last(),
        ),
        trimmed(trimmed(text)) == trimmed(text),
{
    let t = trimmed(text);
    lemma_whitespace_counts(text);
    if t.len() > 0 {
        lemma_leading_whitespace(t, 0);
        lemma_trailing_whitespace(t, 0);
        assert(t.subrange(0, t.len() as int) =~= t);
    }
}

/// The white space counted at either end lies inside the text and is white
/// space, and the character next to it is not.
pub proof fn lemma_whitespace_counts(text: Seq<char>)
    ensures
        leading_whitespace(text) <= text.len(),
        trailing_whitespace(text) <= text.len(),
        leading_whitespace(text) < text.len() ==> !is_whitespace(
            text[leading_whitespace(text) as int],
        ),
        trailing_whitespace(text) < text.len() ==> !is_whitespace(
            text[text.len() - trailing_whitespace(text) - 1],
        ),
        leading_whitespace(text) == text.len() <==> trailing_whitespace(text) == text.len(),
    decreases text.len(),
{
    if text.len() > 0 {
        lemma_whitespace_counts(text.drop_first());
        lemma_whitespace_counts(text.drop_last());
        let front = text.drop_first();
        let back = text.drop_last();
        if is_whitespace(text[0]) && leading_whitespace(front) < front.len() {
            assert(front[leading_whitespace(front) as int] == text[leading_whitespace(front) as int + 1]);
        }
        if is_whitespace(text.last()) && trailing_whitespace(back) < back.len() {
            assert(back[back.len() - trailing_whitespace(back) - 1] == text[text.len()
                - trailing_whitespace(back) - 2]);
        }
        if leading_whitespace(text) == text.len() {
            lemma_all_whitespace(text, true);
        }
        if trailing_whitespace(text) == text.len() {
            lemma_all_whitespace(text, false);
        }
    }
}

/// Text that is white space as far as it is counted from one end is white
/// space throughout, and so it is as counted from the other end.
proof fn lemma_all_whitespace(text: Seq<char>, from_front: bool)
    requires
        if from_front {
            leading_whitespace(text) == text.len()
        } else {
            trailing_whitespace(text) == text.len()
        },
    ensures
        forall|i: int| 0 <= i < text.len() ==> is_whitespace(#[trigger] text[i]),
        leading_whitespace(text) == text.len(),
        trailing_whitespace(text) == text.len(),
    decreases text.len(),
{
    if text.len() > 0 {
        if from_front {
            let rest = text.drop_first();
            lemma_whitespace_bound(rest);
            lemma_all_whitespace(rest, true);
            assert forall|i: int| 0 <= i < text.len() implies is_whitespace(#[trigger] text[i]) by {
                if i > 0 {
                    assert(text[i] == rest[i - 1]);
                }
            }
        } else {
            let rest = text.drop_last();
            lemma_whitespace_bound(rest);
            lemma_all_whitespace(rest, false);
            assert forall|i: int| 0 <= i < text.len() implies is_whitespace(#[trigger] text[i]) by {
                if i < rest.len() {
                    assert(text[i] == rest[i]);
                }
            }
        }
        lemma_leading_whitespace(text, text.len() as int);
        lemma_trailing_whitespace(text, text.len() as int);
    }
}

proof fn lemma_whitespace_bound(text: Seq<char>)
    ensures
        leading_whitespace(text) <= text.len(),
        trailing_whitespace(text) <= text.len(),
    decreases text.len(),
{
    if text.len() > 0 {
        lemma_whitespace_bound(text.drop_first());
        lemma_whitespace_bound(text.drop_last());
    }
}

/// `text` without the white space at its two ends.
pub fn trim(text: &str) -> (inner: &str)
    ensures
        inner@ == trimmed(text@),
{
    let chars = chars_of(text);
    let len = chars.len();
    let mut start: usize = 0;
    while start < len && whitespace(chars[start])
        invariant
            start <= len,
            len == chars.len(),
            forall|i: int| 0 <= i < start ==> is_whitespace(#[trigger] chars@[i]),
        decreases len - start,
    {
        start += 1;
    }
    let mut end: usize = len;
    while end > start && whitespace(chars[end - 1])
        invariant
            start <= end <= len,
            len == chars.len(),
            forall|i: int| end <= i < len ==> is_whitespace(#[trigger] chars@[i]),
        decreases end,
    {
        end -= 1;
    }
    proof {
        lemma_leading_whitespace(chars@, start as int);
        if start < end {
            lemma_trailing_whitespace(chars@, len - end);
        } else {
            lemma_whitespace_bound(chars@);
        }
    }
    let inner = text.substring_char(start, end);
    assert(inner@ =~= trimmed(text@));
    inner
}

/// Whether `pattern` stands in `text` at position `at`.
fn matches_at(text: &Vec<char>, pattern: &Vec<char>, at: usize) -> (found: bool)
    requires
        at + pattern.len() <= text.len(),
    ensures
        found == occurs_at(text@, pattern@, at as int),
{
    let mut i: usize = 0;
    while i < pattern.len()
        invariant
            i <= pattern.len(),
            at + pattern.len() <= text.len(),
            forall|j: int| 0 <= j < i ==> text@[at + j] == pattern@[j],
        decreases pattern.len() - i,
    {
        if text[at + i] != pattern[i] {
            assert(text@.subrange(at as int, at + pattern.len())[i as int] != pattern@[i as int]);
            return false;
        }
        i += 1;
    }
    assert(text@.subrange(at as int, at + pattern.len()) =~= pattern@);
    true
}

/// Whether `pattern` stands somewhere in `text`.
pub fn contains(text: &str, pattern: &str) -> (found: bool)
    ensures
        found == contains_text(text@, pattern@),
{
    let haystack = chars_of(text);
    let needle = chars_of(pattern);
    if needle.len() > haystack.len() {
        return false;
    }
    let last = haystack.len() - needle.len();
    let mut at: usize = 0;
    loop
        invariant
            at <= last,
            last == haystack.len() - needle.len(),
            haystack@ == text@,
            needle@ == pattern@,
            forall|k: int| 0 <= k < at ==> !occurs_at(text@, pattern@, k),
        decreases last - at,
    {
        if matches_at(&haystack, &needle, at) {
            return true;
        }
        if at == last {
            return false;
        }
        at += 1;
    }
}

/// Whether `left` and `right` are the same text.
pub fn same_text(left: &str, right: &str) -> (same: bool)
    ensures
        same == (left@ == right@),
{
    let a = chars_of(left);
    let b = chars_of(right);
    if a.len() != b.len() {
        return false;
    }
    let found = matches_at(&a, &b, 0);
    assert(a@.subrange(0, a@.len() as int) =~= a@);
    found
}

} // verus!
