//! Text as sequences of characters: white space, words, lines, separated
//! parts, prefixes, and comparison without regard to ASCII case.
use vstd::prelude::*;

verus! {

/// The Unicode `White_Space` property.
pub open spec fn is_space(c: char) -> bool {
    let n = c as u32;
    ||| 0x09 <= n <= 0x0d
    ||| n == 0x20
    ||| n == 0x85
    ||| n == 0xa0
    ||| n == 0x1680
    ||| 0x2000 <= n <= 0x200a
    ||| n == 0x2028
    ||| n == 0x2029
    ||| n == 0x202f
    ||| n == 0x205f
    ||| n == 0x3000
}

/// The number of characters before the first `c`, or the whole length where `c` does not occur.
pub open spec fn index_of(s: Seq<char>, c: char) -> nat
    decreases s.len(),
{
    if s.len() == 0 || s[0] == c {
        0
    } else {
        1 + index_of(s.skip(1), c)
    }
}

/// The number of characters before the first white space, or the whole length where there is none.
pub open spec fn word_len(s: Seq<char>) -> nat
    decreases s.len(),
{
    if s.len() == 0 || is_space(s[0]) {
        0
    } else {
        1 + word_len(s.skip(1))
    }
}

/// The maximal runs of characters that are no white space, in order.
pub open spec fn words(s: Seq<char>) -> Seq<Seq<char>>
    decreases s.len(),
{
    if s.len() == 0 {
        seq![]
    } else if is_space(s[0]) {
        words(s.skip(1))
    } else {
        proof {
            lemma_word_len(s);
        }
        seq![s.take(word_len(s) as int)] + words(s.skip(word_len(s) as int))
    }
}

/// The parts between the occurrences of `sep`, of which there is always at least one.
pub open spec fn split(s: Seq<char>, sep: char) -> Seq<Seq<char>>
    decreases s.len(),
{
    let n = index_of(s, sep) as int;
    if n >= s.len() {
        seq![s]
    } else {
        seq![s.take(n)] + split(s.skip(n + 1), sep)
    }
}

/// `parts` with one `sep` between each two neighbours.
pub open spec fn join(parts: Seq<Seq<char>>, sep: char) -> Seq<char>
    decreases parts.len(),
{
    if parts.len() == 0 {
        seq![]
    } else if parts.len() == 1 {
        parts[0]
    } else {
        parts[0] + seq![sep] + join(parts.skip(1), sep)
    }
}

/// `line` without the carriage return at its end, if it has one.
pub open spec fn without_cr(line: Seq<char>) -> Seq<char> {
    if line.len() > 0 && line.last() == '\r' {
        line.drop_last()
    } else {
        line
    }
}

/// The lines of `s`. A line ends in a line feed, or a carriage return and a
/// line feed, neither of which belongs to it; the last line may lack that end.
pub open spec fn lines(s: Seq<char>) -> Seq<Seq<char>>
    decreases s.len(),
{
    let n = index_of(s, '\n') as int;
    if s.len() == 0 {
        seq![]
    } else if n >= s.len() {
        seq![s]
    } else {
        seq![without_cr(s.take(n))] + lines(s.skip(n + 1))
    }
}

/// `s` without the white space at both of its ends.
pub open spec fn trim(s: Seq<char>) -> Seq<char>
    decreases s.len(),
{
    if s.len() == 0 {
        s
    } else if is_space(s[0]) {
        trim(s.skip(1))
    } else if is_space(s.last()) {
        trim(s.drop_last())
    } else {
        s
    }
}

/// `s` without its leading repetitions of `prefix`.
pub open spec fn trim_start_matches(s: Seq<char>, prefix: Seq<char>) -> Seq<char>
    decreases s.len(),
{
    if prefix.len() > 0 && prefix.is_prefix_of(s) {
        trim_start_matches(s.skip(prefix.len() as int), prefix)
    } else {
        s
    }
}

/// The ASCII lower case of a character; characters other than `A` to `Z` are their own.
pub open spec fn lower_char(c: char) -> char {
    if 'A' <= c <= 'Z' {
        ((c as u8) + 32) as char
    } else {
        c
    }
}

/// `s` with `A` to `Z` in lower case.
pub open spec fn lower(s: Seq<char>) -> Seq<char> {
    Seq::new(s.len(), |i: int| lower_char(s[i]))
}

/// Whether `part` occurs in `s`.
pub open spec fn occurs_in(part: Seq<char>, s: Seq<char>) -> bool {
    exists|i: int|
        0 <= i <= s.len() - part.len() && #[trigger] s.subrange(i, i + part.len()) == part
}

/// The texts that a vector of slices holds.
pub open spec fn texts(parts: Seq<&[char]>) -> Seq<Seq<char>> {
    Seq::new(parts.len(), |i: int| parts[i]@)
}

proof fn lemma_index_of(s: Seq<char>, c: char)
    ensures
        index_of(s, c) <= s.len(),
        forall|i: int| 0 <= i < index_of(s, c) ==> s[i] != c,
        index_of(s, c) < s.len() ==> s[index_of(s, c) as int] == c,
    decreases s.len(),
{
    if s.len() > 0 && s[0] != c {
        let t = s.skip(1);
        lemma_index_of(t, c);
        assert forall|i: int| 0 <= i < index_of(s, c) implies s[i] != c by {
            if i > 0 {
                assert(t[i - 1] == s[i]);
            }
        }
    }
}

proof fn lemma_index_of_is(s: Seq<char>, c: char, n: int)
    requires
        0 <= n <= s.len(),
        forall|i: int| 0 <= i < n ==> s[i] != c,
        n < s.len() ==> s[n] == c,
    ensures
        index_of(s, c) == n,
{
    lemma_index_of(s, c);
}

/// A word ends where the first white space is, or with the text.
pub proof fn lemma_word_len(s: Seq<char>)
    ensures
        word_len(s) <= s.len(),
        forall|i: int| 0 <= i < word_len(s) ==> !is_space(s[i]),
        word_len(s) < s.len() ==> is_space(s[word_len(s) as int]),
    decreases s.len(),
{
    if s.len() > 0 && !is_space(s[0]) {
        let t = s.skip(1);
        lemma_word_len(t);
        assert forall|i: int| 0 <= i < word_len(s) implies !is_space(s[i]) by {
            if i > 0 {
                assert(t[i - 1] == s[i]);
            }
        }
    }
}

proof fn lemma_word_len_is(s: Seq<char>, n: int)
    requires
        0 <= n <= s.len(),
        forall|i: int| 0 <= i < n ==> !is_space(s[i]),
        n < s.len() ==> is_space(s[n]),
    ensures
        word_len(s) == n,
{
    lemma_word_len(s);
}

/// Joining what was split gives the text back.
pub proof fn lemma_join_of_split(s: Seq<char>, sep: char)
    ensures
        join(split(s, sep), sep) == s,
    decreases s.len(),
{
    let n = index_of(s, sep) as int;
    lemma_index_of(s, sep);
    if n < s.len() {
        let rest = s.skip(n + 1);
        lemma_join_of_split(rest, sep);
        assert(split(rest, sep).len() > 0);
        assert(split(s, sep).skip(1) == split(rest, sep));
        assert(s == s.take(n) + seq![sep] + rest);
    }
}

/// Splitting what was joined gives the parts back, where no part holds the separator.
pub proof fn lemma_split_of_join(parts: Seq<Seq<char>>, sep: char)
    requires
        parts.len() > 0,
        forall|i: int| 0 <= i < parts.len() ==> !(#[trigger] parts[i]).contains(sep),
    ensures
        split(join(parts, sep), sep) == parts,
    decreases parts.len(),
{
    let s = join(parts, sep);
    let first = parts[0];
    assert forall|i: int| 0 <= i < first.len() implies first[i] != sep by {
        assert(first.contains(first[i]));
    }
    if parts.len() == 1 {
        lemma_index_of_is(s, sep, s.len() as int);
        assert(split(s, sep) == parts);
    } else {
        let rest = parts.skip(1);
        assert forall|i: int| 0 <= i < rest.len() implies !(#[trigger] rest[i]).contains(sep) by {
            assert(rest[i] == parts[i + 1]);
        }
        lemma_split_of_join(rest, sep);
        lemma_index_of_is(s, sep, first.len() as int);
        assert(s.take(first.len() as int) == first);
        assert(s.skip(first.len() as int + 1) == join(rest, sep));
        assert(seq![first] + rest == parts);
    }
}

/// Whether `c` is white space.
pub fn is_white_space(c: char) -> (space: bool)
    ensures
        space == is_space(c),
{
    let n: u32 = c as u32;
    (0x09 <= n && n <= 0x0d) || n == 0x20 || n == 0x85 || n == 0xa0 || n == 0x1680 || (0x2000 <= n
        && n <= 0x200a) || n == 0x2028 || n == 0x2029 || n == 0x202f || n == 0x205f || n == 0x3000
}

/// The characters of a string.
pub fn chars_of(s: &str) -> (chars: Vec<char>)
    ensures
        chars@ == s@,
{
    let mut chars: Vec<char> = Vec::new();
    for c in iter: s.chars()
        invariant
            chars@ == iter.seq().take(iter.index() as int),
            iter.seq() == s@,
    {
        chars.push(c);
    }
    chars
}

/// The words of `s`: its maximal runs of characters that are no white space.
pub fn split_whitespace<'a>(s: &'a [char]) -> (parts: Vec<&'a [char]>)
    ensures
        texts(parts@) == words(s@),
{
    let mut parts: Vec<&'a [char]> = Vec::new();
    let mut start: usize = 0;
    proof {
        assert(s@.skip(0) == s@);
        assert(texts(parts@) + words(s@) == words(s@));
    }
    while start < s.len()
        invariant
            start <= s@.len(),
            words(s@) == texts(parts@) + words(s@.skip(start as int)),
        decreases s@.len() - start,
    {
        let ghost rest = s@.skip(start as int);
        if is_white_space(s[start]) {
            assert(rest.skip(1) == s@.skip(start + 1));
            start = start + 1;
        } else {
            let mut end: usize = start + 1;
            while end < s.len() && !is_white_space(s[end])
                invariant
                    start < end <= s@.len(),
                    forall|i: int| start <= i < end ==> !is_space(s@[i]),
                decreases s@.len() - end,
            {
                end = end + 1;
            }
            let ghost before = texts(parts@);
            parts.push(&s[start..end]);
            proof {
                let n = end - start;
                lemma_word_len_is(rest, n);
                assert(rest.take(n) == s@.subrange(start as int, end as int));
                assert(rest.skip(n) == s@.skip(end as int));
                assert(texts(parts@) == before.push(rest.take(n)));
                assert(before + (seq![rest.take(n)] + words(rest.skip(n))) == texts(parts@)
                    + words(s@.skip(end as int)));
            }
            start = end;
        }
    }
    assert(texts(parts@) + words(s@.skip(start as int)) == texts(parts@));
    parts
}

/// The parts of `s` between the occurrences of `sep`.
pub fn split_on<'a>(s: &'a [char], sep: char) -> (parts: Vec<&'a [char]>)
    ensures
        texts(parts@) == split(s@, sep),
{
    let mut parts: Vec<&'a [char]> = Vec::new();
    let mut start: usize = 0;
    let mut end: usize = 0;
    proof {
        assert(s@.skip(0) == s@);
        assert(texts(parts@) + split(s@, sep) == split(s@, sep));
    }
    while end < s.len()
        invariant
            start <= end <= s@.len(),
            forall|i: int| start <= i < end ==> s@[i] != sep,
            split(s@, sep) == texts(parts@) + split(s@.skip(start as int), sep),
        decreases s@.len() - end,
    {
        if s[end] == sep {
            let ghost rest = s@.skip(start as int);
            let ghost before = texts(parts@);
            parts.push(&s[start..end]);
            proof {
                let n = end - start;
                lemma_index_of_is(rest, sep, n);
                assert(rest.take(n) == s@.subrange(start as int, end as int));
                assert(rest.skip(n + 1) == s@.skip(end + 1));
                assert(texts(parts@) == before.push(rest.take(n)));
                assert(before + (seq![rest.take(n)] + split(rest.skip(n + 1), sep)) == texts(parts@)
                    + split(s@.skip(end + 1), sep));
            }
            start = end + 1;
        }
        end = end + 1;
    }
    let ghost rest = s@.skip(start as int);
    let ghost before = texts(parts@);
    parts.push(&s[start..end]);
    proof {
        lemma_index_of_is(rest, sep, rest.len() as int);
        assert(rest == s@.subrange(start as int, end as int));
        assert(texts(parts@) == before + seq![rest]);
    }
    parts
}

/// The lines of `s`, without their line ends.
pub fn lines_of<'a>(s: &'a [char]) -> (parts: Vec<&'a [char]>)
    ensures
        texts(parts@) == lines(s@),
{
    let mut parts: Vec<&'a [char]> = Vec::new();
    let mut start: usize = 0;
    let mut end: usize = 0;
    proof {
        assert(s@.skip(0) == s@);
        assert(texts(parts@) + lines(s@) == lines(s@));
    }
    while end < s.len()
        invariant
            start <= end <= s@.len(),
            forall|i: int| start <= i < end ==> s@[i] != '\n',
            lines(s@) == texts(parts@) + lines(s@.skip(start as int)),
        decreases s@.len() - end,
    {
        if s[end] == '\n' {
            let ghost rest = s@.skip(start as int);
            let ghost before = texts(parts@);
            let stop: usize = if start < end && s[end - 1] == '\r' {
                end - 1
            } else {
                end
            };
            parts.push(&s[start..stop]);
            proof {
                let n = end - start;
                lemma_index_of_is(rest, '\n', n);
                let line = without_cr(rest.take(n));
                assert(line == s@.subrange(start as int, stop as int));
                assert(rest.skip(n + 1) == s@.skip(end + 1));
                assert(texts(parts@) == before.push(line));
                assert(before + (seq![line] + lines(rest.skip(n + 1))) == texts(parts@) + lines(
                    s@.skip(end + 1),
                ));
            }
            start = end + 1;
        }
        end = end + 1;
    }
    let ghost rest = s@.skip(start as int);
    let ghost before = texts(parts@);
    if start < end {
        parts.push(&s[start..end]);
        proof {
            lemma_index_of_is(rest, '\n', rest.len() as int);
            assert(rest == s@.subrange(start as int, end as int));
            assert(texts(parts@) == before + seq![rest]);
        }
    } else {
        assert(before + lines(rest) == before);
    }
    parts
}

/// `s` without the white space at both of its ends.
pub fn trimmed<'a>(s: &'a [char]) -> (middle: &'a [char])
    ensures
        middle@ == trim(s@),
{
    let mut start: usize = 0;
    let mut end: usize = s.len();
    assert(s@.subrange(0, end as int) == s@);
    while start < end && is_white_space(s[start])
        invariant
            start <= end == s@.len(),
            trim(s@) == trim(s@.subrange(start as int, end as int)),
        decreases end - start,
    {
        assert(s@.subrange(start as int, end as int).skip(1) == s@.subrange(start + 1, end as int));
        start = start + 1;
    }
    while start < end && is_white_space(s[end - 1])
        invariant
            start <= end <= s@.len(),
            start < end ==> !is_space(s@[start as int]),
            trim(s@) == trim(s@.subrange(start as int, end as int)),
        decreases end - start,
    {
        assert(s@.subrange(start as int, end as int).drop_last() == s@.subrange(
            start as int,
            end - 1,
        ));
        end = end - 1;
    }
    &s[start..end]
}

/// Whether `s` begins with `prefix`.
pub fn starts_with(s: &[char], prefix: &[char]) -> (yes: bool)
    ensures
        yes == prefix@.is_prefix_of(s@),
{
    if prefix.len() > s.len() {
        return false;
    }
    let mut i: usize = 0;
    while i < prefix.len()
        invariant
            i <= prefix@.len() <= s@.len(),
            forall|j: int| 0 <= j < i ==> prefix@[j] == s@[j],
        decreases prefix@.len() - i,
    {
        if prefix[i] != s[i] {
            assert(s@.subrange(0, prefix@.len() as int)[i as int] == s@[i as int]);
            return false;
        }
        i = i + 1;
    }
    true
}

/// Whether `s` ends in `suffix`.
pub fn ends_with(s: &[char], suffix: &[char]) -> (yes: bool)
    ensures
        yes == suffix@.is_suffix_of(s@),
{
    if suffix.len() > s.len() {
        return false;
    }
    let from: usize = s.len() - suffix.len();
    let tail = &s[from..s.len()];
    assert(tail@.subrange(0, suffix@.len() as int) == tail@);
    starts_with(tail, suffix)
}

/// `s` without its leading repetitions of `prefix`.
pub fn without_leading<'a>(s: &'a [char], prefix: &[char]) -> (rest: &'a [char])
    ensures
        rest@ == trim_start_matches(s@, prefix@),
{
    let mut rest = s;
    while prefix.len() > 0 && starts_with(rest, prefix)
        invariant
            trim_start_matches(s@, prefix@) == trim_start_matches(rest@, prefix@),
        decreases rest@.len(),
    {
        let ghost before = rest@;
        rest = &rest[prefix.len()..rest.len()];
        assert(rest@ == before.skip(prefix@.len() as int));
    }
    rest
}

/// The ASCII lower case of a character.
pub fn lower_case(c: char) -> (l: char)
    ensures
        l == lower_char(c),
{
    if 'A' <= c && c <= 'Z' {
        ((c as u8) + 32) as char
    } else {
        c
    }
}

/// `s` with `A` to `Z` in lower case.
pub fn lower_case_of(s: &[char]) -> (l: Vec<char>)
    ensures
        l@ == lower(s@),
{
    let mut l: Vec<char> = Vec::new();
    let mut i: usize = 0;
    while i < s.len()
        invariant
            i <= s@.len(),
            l@ == lower(s@).take(i as int),
        decreases s@.len() - i,
    {
        l.push(lower_case(s[i]));
        i = i + 1;
    }
    l
}

/// Whether `a` and `b` are the same text but for ASCII case.
pub fn eq_ignore_ascii_case(a: &[char], b: &[char]) -> (same: bool)
    ensures
        same == (lower(a@) == lower(b@)),
{
    if a.len() != b.len() {
        assert(lower(a@).len() != lower(b@).len());
        return false;
    }
    let mut i: usize = 0;
    while i < a.len()
        invariant
            i <= a@.len() == b@.len(),
            forall|j: int| 0 <= j < i ==> lower_char(a@[j]) == lower_char(b@[j]),
        decreases a@.len() - i,
    {
        if lower_case(a[i]) != lower_case(b[i]) {
            assert(lower(a@)[i as int] != lower(b@)[i as int]);
            return false;
        }
        i = i + 1;
    }
    assert(lower(a@) == lower(b@));
    true
}

/// Whether `part` occurs in `s`.
pub fn contains(s: &[char], part: &[char]) -> (yes: bool)
    ensures
        yes == occurs_in(part@, s@),
{
    if part.len() > s.len() {
        return false;
    }
    let last: usize = s.len() - part.len();
    let mut i: usize = 0;
    while i <= last
        invariant
            i <= last + 1,
            last + part@.len() == s.len(),
            forall|j: int| 0 <= j < i ==> #[trigger] s@.subrange(j, j + part@.len()) != part@,
        decreases last + 1 - i,
    {
        let here = &s[i..i + part.len()];
        assert(here@.subrange(0, part@.len() as int) == here@);
        if starts_with(here, part) {
            return true;
        }
        if i == last {
            return false;
        }
        i = i + 1;
    }
    false
}

/// A text without the separator is its only part.
pub proof fn lemma_split_of_one(s: Seq<char>, sep: char)
    requires
        forall|i: int| 0 <= i < s.len() ==> s[i] != sep,
    ensures
        split(s, sep) == seq![s],
{
    lemma_index_of_is(s, sep, s.len() as int);
}

/// A separator parts a text in two: the parts are those of what is before it
/// and then those of what is after it.
pub proof fn lemma_split_of_two(s: Seq<char>, sep: char, t: Seq<char>)
    ensures
        split(s + seq![sep] + t, sep) == split(s, sep) + split(t, sep),
    decreases s.len(),
{
    let n = index_of(s, sep) as int;
    let all = s + seq![sep] + t;
    lemma_index_of(s, sep);
    if n >= s.len() {
        assert forall|i: int| 0 <= i < n implies all[i] != sep by {
            assert(all[i] == s[i]);
        }
        lemma_index_of_is(all, sep, n);
        assert(all.take(n) == s);
        assert(all.skip(n + 1) == t);
    } else {
        assert forall|i: int| 0 <= i < n implies all[i] != sep by {
            assert(all[i] == s[i]);
        }
        lemma_index_of_is(all, sep, n);
        let rest = s.skip(n + 1);
        assert(all.take(n) == s.take(n));
        assert(all.skip(n + 1) == rest + seq![sep] + t);
        lemma_split_of_two(rest, sep, t);
        assert(seq![s.take(n)] + (split(rest, sep) + split(t, sep)) == seq![s.take(n)] + split(
            rest,
            sep,
        ) + split(t, sep));
    }
}

/// A text without white space is its only word, if it is any.
pub proof fn lemma_words_of_one(s: Seq<char>)
    requires
        forall|i: int| 0 <= i < s.len() ==> !is_space(s[i]),
    ensures
        s.len() > 0 ==> words(s) == seq![s],
        s.len() == 0 ==> words(s) == Seq::<Seq<char>>::empty(),
{
    if s.len() > 0 {
        lemma_word_len_is(s, s.len() as int);
        assert(s.take(s.len() as int) == s);
        assert(words(s.skip(s.len() as int)) == Seq::<Seq<char>>::empty());
    }
}

/// White space parts a text in two: the words are those of what is before it
/// and then those of what is after it.
pub proof fn lemma_words_of_two(s: Seq<char>, c: char, t: Seq<char>)
    requires
        is_space(c),
    ensures
        words(s + seq![c] + t) == words(s) + words(t),
    decreases s.len(),
{
    let all = s + seq![c] + t;
    if s.len() == 0 {
        assert(all[0] == c);
        assert(all.skip(1) == t);
        assert(words(s) + words(t) == words(t));
    } else if is_space(s[0]) {
        assert(all[0] == s[0]);
        assert(all.skip(1) == s.skip(1) + seq![c] + t);
        lemma_words_of_two(s.skip(1), c, t);
    } else {
        let n = word_len(s) as int;
        lemma_word_len(s);
        assert(all[0] == s[0]);
        assert forall|i: int| 0 <= i < n implies !is_space(all[i]) by {
            assert(all[i] == s[i]);
        }
        if n < s.len() {
            assert(all[n] == s[n]);
        } else {
            assert(all[n] == c);
        }
        lemma_word_len_is(all, n);
        assert(all.take(n) == s.take(n));
        assert(all.skip(n) == s.skip(n) + seq![c] + t);
        lemma_words_of_two(s.skip(n), c, t);
        assert(seq![s.take(n)] + (words(s.skip(n)) + words(t)) == seq![s.take(n)] + words(
            s.skip(n),
        ) + words(t));
    }
}

/// No word is empty or holds white space.
pub proof fn lemma_words_are_words(s: Seq<char>, k: int)
    requires
        0 <= k < words(s).len(),
    ensures
        words(s)[k].len() > 0,
        forall|i: int| 0 <= i < words(s)[k].len() ==> !is_space(#[trigger] words(s)[k][i]),
    decreases s.len(),
{
    if is_space(s[0]) {
        lemma_words_are_words(s.skip(1), k);
    } else {
        let n = word_len(s) as int;
        lemma_word_len(s);
        assert(n > 0);
        if k == 0 {
            assert(words(s)[0] == s.take(n));
        } else {
            assert(words(s)[k] == words(s.skip(n))[k - 1]);
            lemma_words_are_words(s.skip(n), k - 1);
        }
    }
}

/// The words of words with a space between each two are these words.
pub proof fn lemma_words_of_join(parts: Seq<Seq<char>>)
    requires
        forall|i: int| 0 <= i < parts.len() ==> (#[trigger] parts[i]).len() > 0,
        forall|i: int, j: int|
            0 <= i < parts.len() && 0 <= j < parts[i].len() ==> !is_space(#[trigger] parts[i][j]),
    ensures
        words(join(parts, ' ')) == parts,
    decreases parts.len(),
{
    if parts.len() == 0 {
        assert(words(join(parts, ' ')) == parts);
    } else {
        assert forall|j: int| 0 <= j < parts[0].len() implies !is_space(parts[0][j]) by {}
        lemma_words_of_one(parts[0]);
        if parts.len() == 1 {
            assert(parts == seq![parts[0]]);
        } else {
            let rest = parts.skip(1);
            assert forall|i: int| 0 <= i < rest.len() implies (#[trigger] rest[i]).len() > 0 by {
                assert(rest[i] == parts[i + 1]);
            }
            assert forall|i: int, j: int|
                0 <= i < rest.len() && 0 <= j < rest[i].len() implies !is_space(
                #[trigger] rest[i][j],
            ) by {
                assert(rest[i] == parts[i + 1]);
                assert(!is_space(parts[i + 1][j]));
            }
            lemma_words_of_join(rest);
            lemma_words_of_two(parts[0], ' ', join(rest, ' '));
            assert(seq![parts[0]] + rest == parts);
        }
    }
}

/// A line feed ends a line, and a carriage return before it goes with it. The
/// lines of what follows come after it.
pub proof fn lemma_lines_of_two(line: Seq<char>, rest: Seq<char>)
    requires
        forall|i: int| 0 <= i < line.len() ==> line[i] != '\n',
    ensures
        lines(line + seq!['\r', '\n'] + rest) == seq![line] + lines(rest),
        line.len() == 0 || line.last() != '\r' ==> lines(line + seq!['\n'] + rest) == seq![line]
            + lines(rest),
{
    let long = line + seq!['\r', '\n'] + rest;
    let n = line.len() as int;
    assert forall|i: int| 0 <= i < n + 1 implies long[i] != '\n' by {
        if i < n {
            assert(long[i] == line[i]);
        }
    }
    assert(long[n + 1] == '\n');
    lemma_index_of_is(long, '\n', n + 1);
    assert(long.take(n + 1).drop_last() == line);
    assert(long.skip(n + 2) == rest);
    let short = line + seq!['\n'] + rest;
    assert forall|i: int| 0 <= i < n implies short[i] != '\n' by {
        assert(short[i] == line[i]);
    }
    assert(short[n] == '\n');
    lemma_index_of_is(short, '\n', n);
    assert(short.take(n) == line);
    assert(short.skip(n + 1) == rest);
}

/// A text without a line feed is its only line, if it is any.
pub proof fn lemma_lines_of_one(line: Seq<char>)
    requires
        forall|i: int| 0 <= i < line.len() ==> line[i] != '\n',
    ensures
        line.len() > 0 ==> lines(line) == seq![line],
        line.len() == 0 ==> lines(line) == Seq::<Seq<char>>::empty(),
{
    lemma_index_of_is(line, '\n', line.len() as int);
}

/// What is left of a text is what is between the white space at its ends.
pub proof fn lemma_trim(before: Seq<char>, middle: Seq<char>, after: Seq<char>)
    requires
        forall|i: int| 0 <= i < before.len() ==> is_space(before[i]),
        forall|i: int| 0 <= i < after.len() ==> is_space(after[i]),
        middle.len() > 0 ==> !is_space(middle[0]) && !is_space(middle.last()),
    ensures
        trim(before + middle + after) == middle,
    decreases before.len() + after.len(),
{
    let all = before + middle + after;
    if before.len() > 0 {
        assert(all[0] == before[0]);
        assert(all.skip(1) == before.skip(1) + middle + after);
        lemma_trim(before.skip(1), middle, after);
    } else if after.len() > 0 {
        if middle.len() == 0 {
            assert(all[0] == after[0]);
            assert(all.skip(1) == before + middle + after.skip(1));
            lemma_trim(before, middle, after.skip(1));
        } else {
            assert(all[0] == middle[0]);
            assert(all.last() == after.last());
            assert(all.drop_last() == before + middle + after.drop_last());
            lemma_trim(before, middle, after.drop_last());
        }
    } else {
        assert(all == middle);
    }
}

/// What is left of a text has no white space at its ends and is what the text
/// holds between white space.
pub proof fn lemma_trim_parts(s: Seq<char>) -> (parts: (Seq<char>, Seq<char>))
    ensures
        s == parts.0 + trim(s) + parts.1,
        forall|i: int| 0 <= i < parts.0.len() ==> is_space(parts.0[i]),
        forall|i: int| 0 <= i < parts.1.len() ==> is_space(parts.1[i]),
        trim(s).len() > 0 ==> !is_space(trim(s)[0]) && !is_space(trim(s).last()),
    decreases s.len(),
{
    if s.len() == 0 {
        (seq![], seq![])
    } else if is_space(s[0]) {
        let (a, b) = lemma_trim_parts(s.skip(1));
        assert(s == seq![s[0]] + s.skip(1));
        assert(s == (seq![s[0]] + a) + trim(s) + b);
        (seq![s[0]] + a, b)
    } else if is_space(s.last()) {
        let (a, b) = lemma_trim_parts(s.drop_last());
        assert(s == s.drop_last() + seq![s.last()]);
        assert(s == a + trim(s) + (b + seq![s.last()]));
        (a, b + seq![s.last()])
    } else {
        assert(s == Seq::<char>::empty() + s + Seq::<char>::empty());
        (seq![], seq![])
    }
}

/// A leading prefix is dropped, and so are those after it; a text that does
/// not begin with the prefix is left as it is.
pub proof fn lemma_trim_start_matches(prefix: Seq<char>, s: Seq<char>)
    requires
        prefix.len() > 0,
    ensures
        trim_start_matches(prefix + s, prefix) == trim_start_matches(s, prefix),
        s.len() < prefix.len() || s.subrange(0, prefix.len() as int) != prefix
            ==> trim_start_matches(s, prefix) == s,
{
    assert(prefix.is_prefix_of(prefix + s)) by {
        assert((prefix + s).subrange(0, prefix.len() as int) == prefix);
    }
    assert((prefix + s).skip(prefix.len() as int) == s);
}

/// The capital letters of ASCII are 32 below their small letters; everything
/// else is its own lower case.
pub proof fn lemma_lower(s: Seq<char>, i: int)
    requires
        0 <= i < s.len(),
    ensures
        lower(s).len() == s.len(),
        65 <= s[i] as int <= 90 ==> lower(s)[i] as int == s[i] as int + 32,
        !(65 <= s[i] as int <= 90) ==> lower(s)[i] == s[i],
{
    let c = s[i];
    if 65 <= c as int <= 90 {
        assert('A' <= c <= 'Z');
    }
}

/// Two texts are the same but for ASCII case if and only if each two of their
/// characters are the same or the two cases of one letter.
pub proof fn lemma_same_but_for_case(s: Seq<char>, t: Seq<char>)
    ensures
        lower(s) == lower(t) <==> s.len() == t.len() && forall|i: int|
            0 <= i < s.len() ==> {
                ||| #[trigger] s[i] == t[i]
                ||| 65 <= s[i] as int <= 90 && t[i] as int == s[i] as int + 32
                ||| 65 <= t[i] as int <= 90 && s[i] as int == t[i] as int + 32
            },
{
    if lower(s) == lower(t) {
        assert(lower(s).len() == s.len() && lower(t).len() == t.len());
        assert forall|i: int| 0 <= i < s.len() implies {
            ||| #[trigger] s[i] == t[i]
            ||| 65 <= s[i] as int <= 90 && t[i] as int == s[i] as int + 32
            ||| 65 <= t[i] as int <= 90 && s[i] as int == t[i] as int + 32
        } by {
            lemma_lower(s, i);
            lemma_lower(t, i);
            assert(lower(s)[i] == lower(t)[i]);
        }
    } else if s.len() == t.len() && forall|i: int|
        0 <= i < s.len() ==> {
            ||| #[trigger] s[i] == t[i]
            ||| 65 <= s[i] as int <= 90 && t[i] as int == s[i] as int + 32
            ||| 65 <= t[i] as int <= 90 && s[i] as int == t[i] as int + 32
        } {
        assert forall|i: int| 0 <= i < s.len() implies lower(s)[i] == lower(t)[i] by {
            lemma_lower(s, i);
            lemma_lower(t, i);
            assert(s[i] == s[i]);
        }
        assert(lower(s) =~= lower(t));
    }
}

/// A text occurs in what is made of it, something before it and something
/// after it.
pub proof fn lemma_occurs_in(before: Seq<char>, part: Seq<char>, after: Seq<char>)
    ensures
        occurs_in(part, before + part + after),
{
    let all = before + part + after;
    assert(all.subrange(before.len() as int, (before.len() + part.len()) as int) == part);
}

/// A text that another occurs in is made of the other, something before it and
/// something after it.
pub proof fn lemma_where_it_occurs(part: Seq<char>, s: Seq<char>) -> (around: (
    Seq<char>,
    Seq<char>,
))
    requires
        occurs_in(part, s),
    ensures
        s == around.0 + part + around.1,
{
    let i = choose|i: int|
        0 <= i <= s.len() - part.len() && #[trigger] s.subrange(i, i + part.len()) == part;
    assert(s == s.take(i) + s.subrange(i, i + part.len()) + s.skip(i + part.len()));
    (s.take(i), s.skip(i + part.len()))
}

/// The texts of slices are what the slices hold, in order.
pub proof fn lemma_texts(parts: Seq<&[char]>, i: int)
    requires
        0 <= i < parts.len(),
    ensures
        texts(parts).len() == parts.len(),
        texts(parts)[i] == parts[i]@,
{
}

/// The parts of a text, joined again, are the text.
pub proof fn lemma_split_on_gives_back(s: &[char], sep: char, parts: Vec<&[char]>)
    requires
        call_ensures(split_on, (s, sep), parts),
    ensures
        join(texts(parts@), sep) == s@,
{
    lemma_join_of_split(s@, sep);
}

/// Each part of a text has a separator, or the end of the text, on either side,
/// and no separator in it.
pub proof fn lemma_part_of_split(s: Seq<char>, sep: char, k: int) -> (around: (
    Seq<char>,
    Seq<char>,
))
    requires
        0 <= k < split(s, sep).len(),
    ensures
        s == around.0 + split(s, sep)[k] + around.1,
        around.0.len() == 0 || around.0.last() == sep,
        around.1.len() == 0 || around.1[0] == sep,
        !split(s, sep)[k].contains(sep),
    decreases s.len(),
{
    let n = index_of(s, sep) as int;
    lemma_index_of(s, sep);
    if n >= s.len() {
        assert(s == Seq::<char>::empty() + s + Seq::<char>::empty());
        (seq![], seq![])
    } else if k == 0 {
        assert(split(s, sep)[0] == s.take(n));
        assert(s == Seq::<char>::empty() + s.take(n) + s.skip(n));
        (seq![], s.skip(n))
    } else {
        let rest = s.skip(n + 1);
        let (a, b) = lemma_part_of_split(rest, sep, k - 1);
        assert(split(s, sep)[k] == split(rest, sep)[k - 1]);
        let before = s.take(n + 1) + a;
        assert(s == s.take(n + 1) + rest);
        assert(s == before + split(s, sep)[k] + b);
        assert(a.len() == 0 ==> before.last() == s[n]);
        (before, b)
    }
}

/// A text between separators, or between one and an end, is a part.
pub proof fn lemma_between_separators(
    before: Seq<char>,
    part: Seq<char>,
    after: Seq<char>,
    sep: char,
) -> (k: int)
    requires
        before.len() == 0 || before.last() == sep,
        after.len() == 0 || after[0] == sep,
        forall|i: int| 0 <= i < part.len() ==> part[i] != sep,
    ensures
        0 <= k < split(before + part + after, sep).len(),
        split(before + part + after, sep)[k] == part,
{
    let tail = part + after;
    lemma_split_of_one(part, sep);
    if after.len() > 0 {
        assert(tail == part + seq![sep] + after.skip(1));
        lemma_split_of_two(part, sep, after.skip(1));
    } else {
        assert(tail == part);
    }
    assert(split(tail, sep)[0] == part);
    assert(before + part + after == before + tail);
    if before.len() > 0 {
        let x = before.drop_last();
        assert(before + tail == x + seq![sep] + tail);
        lemma_split_of_two(x, sep, tail);
        split(x, sep).len() as int
    } else {
        assert(before + tail == tail);
        0
    }
}

/// White space is what Unicode says it is: 25 characters.
pub proof fn lemma_white_space(c: char, space: bool)
    requires
        call_ensures(is_white_space, (c,), space),
    ensures
        space <==> seq![
            '\t', '\n', '\u{b}', '\u{c}', '\r', ' ', '\u{85}', '\u{a0}', '\u{1680}', '\u{2000}',
            '\u{2001}', '\u{2002}', '\u{2003}', '\u{2004}', '\u{2005}', '\u{2006}', '\u{2007}',
            '\u{2008}', '\u{2009}', '\u{200a}', '\u{2028}', '\u{2029}', '\u{202f}', '\u{205f}',
            '\u{3000}',
        ].contains(c),
{
    let all = seq![
        '\t', '\n', '\u{b}', '\u{c}', '\r', ' ', '\u{85}', '\u{a0}', '\u{1680}', '\u{2000}',
        '\u{2001}', '\u{2002}', '\u{2003}', '\u{2004}', '\u{2005}', '\u{2006}', '\u{2007}',
        '\u{2008}', '\u{2009}', '\u{200a}', '\u{2028}', '\u{2029}', '\u{202f}', '\u{205f}',
        '\u{3000}',
    ];
    assert(all.len() == 25);
    assert(all[0] == '\t' && all[1] == '\n' && all[2] == '\u{b}' && all[3] == '\u{c}' && all[4]
        == '\r' && all[5] == ' ' && all[6] == '\u{85}' && all[7] == '\u{a0}' && all[8] == '\u{1680}');
    assert(all[9] == '\u{2000}' && all[10] == '\u{2001}' && all[11] == '\u{2002}' && all[12]
        == '\u{2003}' && all[13] == '\u{2004}' && all[14] == '\u{2005}' && all[15] == '\u{2006}'
        && all[16] == '\u{2007}' && all[17] == '\u{2008}' && all[18] == '\u{2009}' && all[19]
        == '\u{200a}');
    assert(all[20] == '\u{2028}' && all[21] == '\u{2029}' && all[22] == '\u{202f}' && all[23]
        == '\u{205f}' && all[24] == '\u{3000}');
}

/// Where white space parts a text in two, its words are those of the one and
/// then those of the other. No word is empty or holds white space.
pub proof fn lemma_words_are_found(
    s: &[char],
    words_of_s: Vec<&[char]>,
    t: &[char],
    words_of_t: Vec<&[char]>,
    both: &[char],
    c: char,
    words_of_both: Vec<&[char]>,
)
    requires
        call_ensures(split_whitespace, (s,), words_of_s),
        call_ensures(split_whitespace, (t,), words_of_t),
        call_ensures(split_whitespace, (both,), words_of_both),
        is_space(c),
        both@ == s@ + seq![c] + t@,
    ensures
        texts(words_of_both@) == texts(words_of_s@) + texts(words_of_t@),
        s@.len() > 0 && (forall|i: int| 0 <= i < s@.len() ==> !is_space(#[trigger] s@[i])) ==> texts(
            words_of_s@,
        ) == seq![s@],
        s@.len() == 0 ==> words_of_s@.len() == 0,
        forall|k: int|
            0 <= k < words_of_s@.len() ==> (#[trigger] words_of_s@[k])@.len() > 0 && forall|i: int|
                0 <= i < words_of_s@[k]@.len() ==> !is_space(words_of_s@[k]@[i]),
{
    lemma_words_of_two(s@, c, t@);
    if forall|i: int| 0 <= i < s@.len() ==> !is_space(#[trigger] s@[i]) {
        lemma_words_of_one(s@);
    }
    assert(texts(words_of_s@).len() == words_of_s@.len());
    assert forall|k: int| 0 <= k < words_of_s@.len() implies (#[trigger] words_of_s@[k])@.len() > 0
        && forall|i: int|
        0 <= i < words_of_s@[k]@.len() ==> !is_space(words_of_s@[k]@[i]) by {
        assert(texts(words_of_s@)[k] == words_of_s@[k]@);
        lemma_words_are_words(s@, k);
        assert forall|i: int| 0 <= i < words_of_s@[k]@.len() implies !is_space(
            words_of_s@[k]@[i],
        ) by {
            assert(!is_space(words(s@)[k][i]));
        }
    }
}

/// A line ends with its line feed, and the lines of what follows come after it.
pub proof fn lemma_lines_are_found(
    line: Seq<char>,
    rest: &[char],
    lines_of_rest: Vec<&[char]>,
    all: &[char],
    lines_of_all: Vec<&[char]>,
)
    requires
        call_ensures(lines_of, (rest,), lines_of_rest),
        call_ensures(lines_of, (all,), lines_of_all),
        forall|i: int| 0 <= i < line.len() ==> line[i] != '\n',
        all@ == line + seq!['\r', '\n'] + rest@ || all@ == line + seq!['\n'] + rest@ && (line.len()
            == 0 || line.last() != '\r'),
    ensures
        texts(lines_of_all@) == seq![line] + texts(lines_of_rest@),
        rest@.len() == 0 ==> lines_of_rest@.len() == 0,
        rest@.len() > 0 && !rest@.contains('\n') ==> texts(lines_of_rest@) == seq![rest@],
{
    lemma_lines_of_two(line, rest@);
    assert(texts(lines_of_rest@).len() == lines_of_rest@.len());
    if !rest@.contains('\n') {
        assert forall|i: int| 0 <= i < rest@.len() implies rest@[i] != '\n' by {
            if rest@[i] == '\n' {
                assert(rest@.contains('\n'));
            }
        }
        lemma_lines_of_one(rest@);
    }
}

/// White space at the ends of a text is trimmed, all of it and nothing else.
pub proof fn lemma_trimming(
    s: &[char],
    middle: &[char],
    before: Seq<char>,
    inner: Seq<char>,
    after: Seq<char>,
)
    requires
        call_ensures(trimmed, (s,), middle),
        s@ == before + inner + after,
        forall|i: int| 0 <= i < before.len() ==> is_space(before[i]),
        forall|i: int| 0 <= i < after.len() ==> is_space(after[i]),
        inner.len() > 0 ==> !is_space(inner[0]) && !is_space(inner.last()),
    ensures
        middle@ == inner,
{
    lemma_trim(before, inner, after);
}

/// A text begins with another if it is that other and then something, and ends
/// with one if it is something and then that one.
pub proof fn lemma_beginnings_and_ends(
    s: &[char],
    part: &[char],
    begins: bool,
    ends: bool,
    rest: Seq<char>,
)
    requires
        call_ensures(starts_with, (s, part), begins),
        call_ensures(ends_with, (s, part), ends),
    ensures
        s@ == part@ + rest ==> begins,
        s@ == rest + part@ ==> ends,
        begins ==> s@ == part@ + s@.skip(part@.len() as int),
        ends ==> s@ == s@.take(s@.len() - part@.len()) + part@,
{
    if s@ == part@ + rest {
        assert(s@.subrange(0, part@.len() as int) == part@);
    }
    if s@ == rest + part@ {
        assert(s@.subrange(rest.len() as int, s@.len() as int) == part@);
    }
}

/// A leading prefix goes, and the same again after it; a text that does not
/// begin with the prefix is left as it is.
pub proof fn lemma_leading_prefixes(
    s: &[char],
    rest: &[char],
    prefix: &[char],
    longer: &[char],
    rest_of_longer: &[char],
)
    requires
        call_ensures(without_leading, (s, prefix), rest),
        call_ensures(without_leading, (longer, prefix), rest_of_longer),
        prefix@.len() > 0,
        longer@ == prefix@ + s@,
    ensures
        rest_of_longer@ == rest@,
        s@.len() < prefix@.len() || s@.take(prefix@.len() as int) != prefix@ ==> rest@ == s@,
{
    lemma_trim_start_matches(prefix@, s@);
    if s@.len() >= prefix@.len() {
        assert(s@.take(prefix@.len() as int) == s@.subrange(0, prefix@.len() as int));
    }
}

/// Letters of ASCII change their case, and no other characters do; texts are
/// the same but for case if and only if they are the same in lower case.
pub proof fn lemma_cases(
    s: &[char],
    l: Vec<char>,
    t: &[char],
    k: Vec<char>,
    same: bool,
    i: int,
    c: char,
)
    requires
        call_ensures(lower_case_of, (s,), l),
        call_ensures(lower_case_of, (t,), k),
        call_ensures(eq_ignore_ascii_case, (s, t), same),
        0 <= i < s@.len(),
        call_ensures(lower_case, (s@[i],), c),
    ensures
        l@.len() == s@.len(),
        l@[i] == c,
        65 <= s@[i] as int <= 90 ==> c as int == s@[i] as int + 32,
        !(65 <= s@[i] as int <= 90) ==> c == s@[i],
        same <==> l@ == k@,
{
    lemma_lower(s@, i);
}

/// A text holds another if and only if it is something, the other and something
/// again.
pub proof fn lemma_containing(s: &[char], part: &[char], yes: bool) -> (around: (
    Seq<char>,
    Seq<char>,
))
    requires
        call_ensures(contains, (s, part), yes),
    ensures
        yes ==> s@ == around.0 + part@ + around.1,
        !yes ==> forall|before: Seq<char>, after: Seq<char>|
            s@ != #[trigger] (before + part@ + after),
{
    if yes {
        lemma_where_it_occurs(part@, s@)
    } else {
        assert forall|before: Seq<char>, after: Seq<char>| s@ != #[trigger] (before + part@
            + after) by {
            lemma_occurs_in(before, part@, after);
        }
        (seq![], seq![])
    }
}

} // verus!
