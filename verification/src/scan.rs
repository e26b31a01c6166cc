//! Cutting text into lines, words and fields.
//!
//! The functions of this module say where a text is cut; what the pieces
//! mean is decided elsewhere.

use vstd::prelude::*;

verus! {

/// Whether `c` separates the words of a command: a space, a tab, a line
/// feed, a form feed or a carriage return.
pub open spec fn is_space(c: char) -> bool {
    c == ' ' || c == '\t' || c == '\n' || c == '\x0C' || c == '\r'
}

/// The number of characters of `s` that stand before the first `c`; the
/// length of `s` where it holds no `c`.
pub open spec fn first_char(s: Seq<char>, c: char) -> nat
    decreases s.len(),
{
    if s.len() == 0 || s[0] == c {
        0
    } else {
        1 + first_char(s.skip(1), c)
    }
}

/// The number of characters of `s` that stand before its first space; the
/// length of `s` where it holds none.
pub open spec fn first_space(s: Seq<char>) -> nat
    decreases s.len(),
{
    if s.len() == 0 || is_space(s[0]) {
        0
    } else {
        1 + first_space(s.skip(1))
    }
}

/// The lines of `s`: the pieces between its line feeds, in order. A text
/// with `n` line feeds has `n + 1` lines, some of which may be empty.
pub open spec fn lines_of(s: Seq<char>) -> Seq<Seq<char>>
    decreases s.len(),
{
    let k = first_char(s, '\n') as int;
    if k >= s.len() {
        seq![s]
    } else {
        seq![s.take(k)] + lines_of(s.skip(k + 1))
    }
}

/// The words of `s`: its maximal runs of characters that are not spaces, in
/// order.
pub open spec fn words_of(s: Seq<char>) -> Seq<Seq<char>>
    decreases s.len(),
    via words_of_terminates
{
    if s.len() == 0 {
        Seq::empty()
    } else if is_space(s[0]) {
        words_of(s.skip(1))
    } else {
        let n = first_space(s) as int;
        seq![s.take(n)] + words_of(s.skip(n))
    }
}

#[via_fn]
proof fn words_of_terminates(s: Seq<char>) {
    lemma_first_space_found(s);
}

/// `first_char(s, c)` is the one position `k` such that no `c` stands
/// before `k`, and `k` is the end of `s` or holds a `c`.
pub proof fn lemma_first_char(s: Seq<char>, c: char, k: int)
    requires
        0 <= k <= s.len(),
        forall|j: int| 0 <= j < k ==> s[j] != c,
        k == s.len() || s[k] == c,
    ensures
        first_char(s, c) == k,
    decreases s.len(),
{
    if s.len() != 0 && s[0] != c {
        lemma_first_char(s.skip(1), c, k - 1);
    }
}

/// What stands at and before `first_char(s, c)`.
pub proof fn lemma_first_char_found(s: Seq<char>, c: char)
    ensures
        first_char(s, c) <= s.len(),
        forall|j: int| 0 <= j < first_char(s, c) ==> s[j] != c,
        first_char(s, c) < s.len() ==> s[first_char(s, c) as int] == c,
    decreases s.len(),
{
    if s.len() != 0 && s[0] != c {
        let rest = s.skip(1);
        lemma_first_char_found(rest, c);
        assert forall|j: int| 0 <= j < first_char(s, c) implies s[j] != c by {
            if j > 0 {
                assert(s[j] == rest[j - 1]);
            }
        }
    }
}

/// `first_space(s)` is the one position `k` such that no space stands
/// before `k`, and `k` is the end of `s` or holds a space.
pub proof fn lemma_first_space(s: Seq<char>, k: int)
    requires
        0 <= k <= s.len(),
        forall|j: int| 0 <= j < k ==> !is_space(s[j]),
        k == s.len() || is_space(s[k]),
    ensures
        first_space(s) == k,
    decreases s.len(),
{
    if s.len() != 0 && !is_space(s[0]) {
        lemma_first_space(s.skip(1), k - 1);
    }
}

/// What stands at and before `first_space(s)`.
pub proof fn lemma_first_space_found(s: Seq<char>)
    ensures
        first_space(s) <= s.len(),
        forall|j: int| 0 <= j < first_space(s) ==> !is_space(s[j]),
        first_space(s) < s.len() ==> is_space(s[first_space(s) as int]),
    decreases s.len(),
{
    if s.len() != 0 && !is_space(s[0]) {
        let rest = s.skip(1);
        lemma_first_space_found(rest);
        assert forall|j: int| 0 <= j < first_space(s) implies !is_space(s[j]) by {
            if j > 0 {
                assert(s[j] == rest[j - 1]);
            }
        }
    }
}

/// Every text has a first line, and none of its lines holds a line feed.
pub proof fn lemma_lines_not_empty(s: Seq<char>)
    ensures
        lines_of(s).len() >= 1,
        forall|i: int, j: int|
            0 <= i < lines_of(s).len() && 0 <= j < lines_of(s)[i].len() ==> lines_of(s)[i][j]
                != '\n',
    decreases s.len(),
{
    let k = first_char(s, '\n') as int;
    lemma_first_char_found(s, '\n');
    if k < s.len() {
        let rest = s.skip(k + 1);
        lemma_lines_not_empty(rest);
        assert forall|i: int, j: int|
            0 <= i < lines_of(s).len() && 0 <= j < lines_of(s)[i].len() implies lines_of(s)[i][j]
            != '\n' by {
            if i > 0 {
                assert(lines_of(s)[i] == lines_of(rest)[i - 1]);
            }
        }
    }
}

/// No word is empty, and none holds a space.
pub proof fn lemma_words_hold_no_space(s: Seq<char>)
    ensures
        forall|i: int| 0 <= i < words_of(s).len() ==> (#[trigger] words_of(s)[i]).len() > 0,
        forall|i: int, j: int|
            0 <= i < words_of(s).len() && 0 <= j < words_of(s)[i].len() ==> !is_space(
                #[trigger] words_of(s)[i][j],
            ),
    decreases s.len(),
{
    if s.len() == 0 {
    } else if is_space(s[0]) {
        lemma_words_hold_no_space(s.skip(1));
        assert(words_of(s) == words_of(s.skip(1)));
    } else {
        let n = first_space(s) as int;
        lemma_first_space_found(s);
        let rest = s.skip(n);
        let words = words_of(s);
        lemma_words_hold_no_space(rest);
        assert(words == seq![s.take(n)] + words_of(rest));
        assert(words[0] == s.take(n));
        assert forall|i: int| 0 <= i < words.len() implies (#[trigger] words[i]).len() > 0 by {
            if i > 0 {
                assert(words[i] == words_of(rest)[i - 1]);
            }
        }
        assert forall|i: int, j: int| 0 <= i < words.len() && 0 <= j < words[i].len() implies !is_space(
            #[trigger] words[i][j],
        ) by {
            if i > 0 {
                assert(words[i] == words_of(rest)[i - 1]);
            } else {
                assert(words[0][j] == s[j]);
            }
        }
    }
}

/// The texts that a vector of strings holds, in order.
pub open spec fn texts_of(strings: Seq<String>) -> Seq<Seq<char>> {
    strings.map_values(|s: String| s@)
}

/// The characters of `text`, in order.
pub fn chars_of(text: &str) -> (chars: Vec<char>)
    ensures
        chars@ == text@,
{
    let mut chars: Vec<char> = Vec::new();
    for c in it: text.chars()
        invariant
            chars@ == it.seq().take(it.index() as int),
            it.seq() == text@,
    {
        chars.push(c);
    }
    chars
}

/// The position of the first `c` at or after `from`; the length of `chars`
/// where there is none.
pub fn find_char(chars: &Vec<char>, from: usize, c: char) -> (at: usize)
    requires
        from <= chars.len(),
    ensures
        from <= at <= chars.len(),
        at - from == first_char(chars@.skip(from as int), c),
{
    let mut at: usize = from;
    while at < chars.len() && chars[at] != c
        invariant
            from <= at <= chars.len(),
            forall|j: int| from <= j < at ==> chars[j] != c,
        decreases chars.len() - at,
    {
        at += 1;
    }
    proof {
        lemma_first_char(chars@.skip(from as int), c, at - from);
    }
    at
}

/// Whether `c` is a space, as [`is_space`] defines it.
pub fn space(c: char) -> (yes: bool)
    ensures
        yes == is_space(c),
{
    c == ' ' || c == '\t' || c == '\n' || c == '\x0C' || c == '\r'
}

/// The position of the first space at or after `from`; the length of
/// `chars` where there is none.
pub fn find_space(chars: &Vec<char>, from: usize) -> (at: usize)
    requires
        from <= chars.len(),
    ensures
        from <= at <= chars.len(),
        at - from == first_space(chars@.skip(from as int)),
{
    let mut at: usize = from;
    while at < chars.len() && !space(chars[at])
        invariant
            from <= at <= chars.len(),
            forall|j: int| from <= j < at ==> !is_space(chars[j]),
        decreases chars.len() - at,
    {
        at += 1;
    }
    proof {
        lemma_first_space(chars@.skip(from as int), at - from);
    }
    at
}

/// Whether `a` and `b` hold the same characters.
pub fn same_text(a: &str, b: &str) -> (same: bool)
    ensures
        same == (a@ == b@),
{
    let left = chars_of(a);
    let right = chars_of(b);
    if left.len() != right.len() {
        return false;
    }
    let mut at: usize = 0;
    while at < left.len()
        invariant
            left@ == a@,
            right@ == b@,
            left.len() == right.len(),
            at <= left.len(),
            forall|j: int| 0 <= j < at ==> left[j] == right[j],
        decreases left.len() - at,
    {
        if left[at] != right[at] {
            return false;
        }
        at += 1;
    }
    proof {
        assert(a@ =~= b@);
    }
    true
}

/// Cuts `text` at its line feeds.
pub fn split_lines(text: &str) -> (lines: Vec<String>)
    ensures
        texts_of(lines@) == lines_of(text@),
{
    let chars = chars_of(text);
    let n = chars.len();
    let mut lines: Vec<String> = Vec::new();
    let mut start: usize = 0;
    proof {
        assert(text@.skip(0) == text@);
        assert(texts_of(lines@) + lines_of(text@) == lines_of(text@));
    }
    loop
        invariant
            chars@ == text@,
            n == chars.len(),
            start <= n,
            texts_of(lines@) + lines_of(text@.skip(start as int)) == lines_of(text@),
        decreases n - start,
    {
        let end = find_char(&chars, start, '\n');
        let line = text.substring_char(start, end).to_owned();
        let ghost before = lines@;
        let ghost rest = text@.skip(start as int);
        lines.push(line);
        proof {
            assert(rest.take(end - start) == text@.subrange(start as int, end as int));
            assert(texts_of(lines@) == texts_of(before) + seq![line@]);
        }
        if end >= n {
            proof {
                assert(rest.take(end - start) == rest);
                assert(texts_of(lines@) == lines_of(text@));
            }
            return lines;
        }
        proof {
            assert(rest.skip(end - start + 1) == text@.skip(end + 1));
            assert(texts_of(lines@) + lines_of(text@.skip(end + 1)) == texts_of(before) + (
            seq![line@] + lines_of(text@.skip(end + 1))));
        }
        start = end + 1;
    }
}

/// Cuts the part of `text` from position `from` on into its words.
pub fn split_words(text: &str, from: usize) -> (words: Vec<String>)
    requires
        from <= text@.len(),
    ensures
        texts_of(words@) == words_of(text@.skip(from as int)),
{
    let chars = chars_of(text);
    let n = chars.len();
    let mut words: Vec<String> = Vec::new();
    let mut at: usize = from;
    while at < n
        invariant
            chars@ == text@,
            n == chars.len(),
            from <= at <= n,
            texts_of(words@) + words_of(text@.skip(at as int)) == words_of(
                text@.skip(from as int),
            ),
        decreases n - at,
    {
        let ghost rest = text@.skip(at as int);
        if space(chars[at]) {
            proof {
                assert(rest.skip(1) == text@.skip(at + 1));
            }
            at += 1;
        } else {
            let end = find_space(&chars, at);
            let word = text.substring_char(at, end).to_owned();
            let ghost before = words@;
            words.push(word);
            proof {
                assert(rest.take(end - at) == text@.subrange(at as int, end as int));
                assert(rest.skip(end - at) == text@.skip(end as int));
                assert(texts_of(words@) == texts_of(before) + seq![word@]);
                assert(texts_of(words@) + words_of(text@.skip(end as int)) == texts_of(before) + (
                seq![word@] + words_of(text@.skip(end as int))));
            }
            at = end;
        }
    }
    proof {
        assert(text@.skip(at as int).len() == 0);
        assert(texts_of(words@) + Seq::<Seq<char>>::empty() == texts_of(words@));
    }
    words
}

} // verus!
