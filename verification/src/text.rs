//! Character-level text operations.
//!
//! Every string that the library inspects is handled as its sequence of
//! characters. The spec functions here say what an operation yields on
//! `Seq<char>`; the executable functions compute the same on `Vec<char>`.

use vstd::prelude::*;

verus! {

/// `String::push` appends one character to the end of the string.
pub assume_specification[ String::push ](s: &mut String, c: char)
    ensures
        final(s)@ == old(s)@.push(c),
;

/// The characters of `s`, in order.
pub fn to_chars(s: &str) -> (out: Vec<char>)
    ensures
        out@ == s@,
{
    let mut out: Vec<char> = Vec::new();
    for c in iter: s.chars()
        invariant
            iter.seq() == s@,
            out@ == s@.take(iter.index()),
    {
        out.push(c);
    }
    assert(s@.take(s@.len() as int) == s@);
    out
}

/// The string made of the characters of `v`, in order.
pub fn from_chars(v: &Vec<char>) -> (out: String)
    ensures
        out@ == v@,
{
    let mut out = String::new();
    let mut i: usize = 0;
    while i < v.len()
        invariant
            i <= v.len(),
            out@ == v@.take(i as int),
        decreases v.len() - i,
    {
        out.push(v[i]);
        i += 1;
    }
    assert(v@.take(v@.len() as int) == v@);
    out
}

/// A copy of the characters `s[from..to]`.
pub fn copy_range(s: &Vec<char>, from: usize, to: usize) -> (out: Vec<char>)
    requires
        from <= to <= s.len(),
    ensures
        out@ == s@.subrange(from as int, to as int),
{
    let mut out: Vec<char> = Vec::new();
    let mut i: usize = from;
    while i < to
        invariant
            from <= i <= to <= s.len(),
            out@ == s@.subrange(from as int, i as int),
        decreases to - i,
    {
        out.push(s[i]);
        i += 1;
    }
    out
}

/// Appends the characters of `tail` to `head`.
pub fn append_chars(head: &mut Vec<char>, tail: &Vec<char>)
    ensures
        final(head)@ == old(head)@ + tail@,
{
    let mut i: usize = 0;
    while i < tail.len()
        invariant
            i <= tail.len(),
            head@ == old(head)@ + tail@.take(i as int),
        decreases tail.len() - i,
    {
        head.push(tail[i]);
        i += 1;
    }
    assert(tail@.take(tail@.len() as int) == tail@);
}

/// Appends the characters of the string `tail` to `head`.
pub fn append_str(head: &mut Vec<char>, tail: &str)
    ensures
        final(head)@ == old(head)@ + tail@,
{
    for c in iter: tail.chars()
        invariant
            iter.seq() == tail@,
            head@ == old(head)@ + tail@.take(iter.index()),
    {
        head.push(c);
    }
    assert(tail@.take(tail@.len() as int) == tail@);
}

/// Whether the characters `v` spell exactly the string `word`.
pub fn is_word(v: &Vec<char>, word: &str) -> (same: bool)
    ensures
        same == (v@ == word@),
{
    let mut i: usize = 0;
    for c in iter: word.chars()
        invariant
            iter.seq() == word@,
            i == iter.index(),
            i <= v.len(),
            v@.take(i as int) == word@.take(i as int),
    {
        if i >= v.len() {
            return false;
        }
        if v[i] != c {
            return false;
        }
        assert(v@.take(i + 1) == v@.take(i as int).push(v@[i as int]));
        assert(word@.take(i + 1) == word@.take(i as int).push(word@[i as int]));
        i += 1;
    }
    assert(word@.take(word@.len() as int) == word@);
    if i == v.len() {
        assert(v@.take(v@.len() as int) == v@);
        true
    } else {
        false
    }
}

/// Where `c` first occurs in `s`; the length of `s` where it does not occur.
pub open spec fn index_of(s: Seq<char>, c: char) -> int
    decreases s.len(),
{
    if s.len() == 0 || s[0] == c {
        0
    } else {
        1 + index_of(s.drop_first(), c)
    }
}

/// `index_of` is the one position that holds `c` with no `c` before it.
pub proof fn lemma_index_of(s: Seq<char>, c: char, k: int)
    requires
        0 <= k <= s.len(),
        forall|j: int| 0 <= j < k ==> s[j] != c,
        k < s.len() ==> s[k] == c,
    ensures
        index_of(s, c) == k,
    decreases s.len(),
{
    if s.len() == 0 || s[0] == c {
    } else {
        let t = s.drop_first();
        assert forall|j: int| 0 <= j < k - 1 implies t[j] != c by {
            assert(t[j] == s[j + 1]);
        }
        lemma_index_of(t, c, k - 1);
    }
}

/// `index_of` is an index of `s` or its length.
pub proof fn lemma_index_of_bounds(s: Seq<char>, c: char)
    ensures
        0 <= index_of(s, c) <= s.len(),
        index_of(s, c) < s.len() ==> s[index_of(s, c)] == c,
        forall|j: int| 0 <= j < index_of(s, c) ==> s[j] != c,
    decreases s.len(),
{
    if s.len() == 0 || s[0] == c {
    } else {
        let t = s.drop_first();
        lemma_index_of_bounds(t, c);
        assert forall|j: int| 0 <= j < index_of(s, c) implies s[j] != c by {
            if j > 0 {
                assert(s[j] == t[j - 1]);
            }
        }
    }
}

/// Where `c` first occurs in `s`; the length of `s` where it does not occur.
pub fn find_char(s: &Vec<char>, c: char) -> (k: usize)
    ensures
        k == index_of(s@, c),
        k <= s.len(),
        forall|j: int| 0 <= j < k ==> s@[j] != c,
        k < s.len() ==> s@[k as int] == c,
{
    let mut k: usize = 0;
    while k < s.len() && s[k] != c
        invariant
            k <= s.len(),
            forall|j: int| 0 <= j < k ==> s@[j] != c,
        decreases s.len() - k,
    {
        k += 1;
    }
    proof {
        lemma_index_of(s@, c, k as int);
    }
    k
}

/// The characters that Unicode classes as white space.
pub open spec fn is_space(c: char) -> bool {
    ||| '\u{9}' <= c <= '\u{D}'
    ||| c == ' '
    ||| c == '\u{85}'
    ||| c == '\u{A0}'
    ||| c == '\u{1680}'
    ||| '\u{2000}' <= c <= '\u{200A}'
    ||| c == '\u{2028}'
    ||| c == '\u{2029}'
    ||| c == '\u{202F}'
    ||| c == '\u{205F}'
    ||| c == '\u{3000}'
}

/// Whether Unicode classes `c` as white space.
pub fn char_is_space(c: char) -> (space: bool)
    ensures
        space == is_space(c),
{
    ('\u{9}' <= c && c <= '\u{D}') || c == ' ' || c == '\u{85}' || c == '\u{A0}' || c
        == '\u{1680}' || ('\u{2000}' <= c && c <= '\u{200A}') || c == '\u{2028}' || c
        == '\u{2029}' || c == '\u{202F}' || c == '\u{205F}' || c == '\u{3000}'
}

/// `s` without its leading white space.
pub open spec fn trim_start(s: Seq<char>) -> Seq<char>
    decreases s.len(),
{
    if s.len() > 0 && is_space(s[0]) {
        trim_start(s.drop_first())
    } else {
        s
    }
}

/// `s` without its trailing white space.
pub open spec fn trim_end(s: Seq<char>) -> Seq<char>
    decreases s.len(),
{
    if s.len() > 0 && is_space(s.last()) {
        trim_end(s.drop_last())
    } else {
        s
    }
}

/// `s` without leading and trailing white space.
pub open spec fn trim(s: Seq<char>) -> Seq<char> {
    trim_end(trim_start(s))
}

/// Where the trimmed text of `s` starts and ends.
pub fn trim_bounds(s: &Vec<char>) -> (bounds: (usize, usize))
    ensures
        bounds.0 <= bounds.1 <= s.len(),
        trim(s@) == s@.subrange(bounds.0 as int, bounds.1 as int),
{
    let mut start: usize = 0;
    assert(s@.skip(0) == s@);
    while start < s.len() && char_is_space(s[start])
        invariant
            start <= s.len(),
            trim_start(s@) == trim_start(s@.skip(start as int)),
        decreases s.len() - start,
    {
        assert(s@.skip(start as int).drop_first() == s@.skip(start + 1));
        start += 1;
    }
    let mut end: usize = s.len();
    assert(s@.skip(start as int) == s@.subrange(start as int, end as int));
    while end > start && char_is_space(s[end - 1])
        invariant
            start <= end <= s.len(),
            trim(s@) == trim_end(s@.subrange(start as int, end as int)),
        decreases end,
    {
        assert(s@.subrange(start as int, end as int).drop_last() == s@.subrange(
            start as int,
            end - 1,
        ));
        end -= 1;
    }
    (start, end)
}

/// The trimmed text of `s`.
pub fn trim_chars(s: &Vec<char>) -> (out: Vec<char>)
    ensures
        out@ == trim(s@),
{
    let (start, end) = trim_bounds(s);
    copy_range(s, start, end)
}

/// `s` without the characters `c` at its start and at its end.
pub open spec fn trim_char(s: Seq<char>, c: char) -> Seq<char> {
    trim_char_end(trim_char_start(s, c), c)
}

/// `s` without the characters `c` at its start.
pub open spec fn trim_char_start(s: Seq<char>, c: char) -> Seq<char>
    decreases s.len(),
{
    if s.len() > 0 && s[0] == c {
        trim_char_start(s.drop_first(), c)
    } else {
        s
    }
}

/// `s` without the characters `c` at its end.
pub open spec fn trim_char_end(s: Seq<char>, c: char) -> Seq<char>
    decreases s.len(),
{
    if s.len() > 0 && s.last() == c {
        trim_char_end(s.drop_last(), c)
    } else {
        s
    }
}

/// `s` without the characters `c` at its start and at its end.
pub fn trim_char_chars(s: &Vec<char>, c: char) -> (out: Vec<char>)
    ensures
        out@ == trim_char(s@, c),
{
    let mut start: usize = 0;
    assert(s@.skip(0) == s@);
    while start < s.len() && s[start] == c
        invariant
            start <= s.len(),
            trim_char_start(s@, c) == trim_char_start(s@.skip(start as int), c),
        decreases s.len() - start,
    {
        assert(s@.skip(start as int).drop_first() == s@.skip(start + 1));
        start += 1;
    }
    let mut end: usize = s.len();
    assert(s@.skip(start as int) == s@.subrange(start as int, end as int));
    while end > start && s[end - 1] == c
        invariant
            start <= end <= s.len(),
            trim_char(s@, c) == trim_char_end(s@.subrange(start as int, end as int), c),
        decreases end,
    {
        assert(s@.subrange(start as int, end as int).drop_last() == s@.subrange(
            start as int,
            end - 1,
        ));
        end -= 1;
    }
    copy_range(s, start, end)
}

/// Whether `s` ends with the text `suffix`.
pub open spec fn ends_with(s: Seq<char>, suffix: Seq<char>) -> bool {
    s.len() >= suffix.len() && s.skip(s.len() - suffix.len()) == suffix
}

/// Whether `s` starts with the text `prefix`.
pub open spec fn starts_with(s: Seq<char>, prefix: Seq<char>) -> bool {
    s.len() >= prefix.len() && s.take(prefix.len() as int) == prefix
}

/// Whether the text `pattern` stands in `s` at position `at`.
pub open spec fn occurs_at(s: Seq<char>, pattern: Seq<char>, at: int) -> bool {
    0 <= at && at + pattern.len() <= s.len() && s.subrange(at, at + pattern.len()) == pattern
}

/// Whether the text `pattern` stands somewhere in `s`.
pub open spec fn contains_text(s: Seq<char>, pattern: Seq<char>) -> bool {
    exists|at: int| occurs_at(s, pattern, at)
}

/// Whether the text `pattern` stands in `s` at position `at`.
pub fn matches_at(s: &Vec<char>, pattern: &Vec<char>, at: usize) -> (found: bool)
    ensures
        found == occurs_at(s@, pattern@, at as int),
{
    if pattern.len() > s.len() || at > s.len() - pattern.len() {
        return false;
    }
    let mut i: usize = 0;
    while i < pattern.len()
        invariant
            i <= pattern.len(),
            at + pattern.len() <= s.len(),
            s@.subrange(at as int, at + i) == pattern@.take(i as int),
        decreases pattern.len() - i,
    {
        if s[at + i] != pattern[i] {
            assert(s@.subrange(at as int, at + pattern.len())[i as int] != pattern@[i as int]);
            return false;
        }
        assert(s@.subrange(at as int, at + i + 1) == s@.subrange(at as int, at + i).push(
            s@[at + i],
        ));
        assert(pattern@.take(i + 1) == pattern@.take(i as int).push(pattern@[i as int]));
        i += 1;
    }
    assert(pattern@.take(pattern@.len() as int) == pattern@);
    true
}

/// Whether `s` starts with the text `prefix`.
pub fn has_prefix(s: &Vec<char>, prefix: &Vec<char>) -> (found: bool)
    ensures
        found == starts_with(s@, prefix@),
{
    if prefix.len() > s.len() {
        return false;
    }
    assert(s@.take(prefix.len() as int) == s@.subrange(0, 0 + prefix.len()));
    matches_at(s, prefix, 0)
}

/// Whether the text `pattern` stands somewhere in `s`.
pub fn has_text(s: &Vec<char>, pattern: &Vec<char>) -> (found: bool)
    ensures
        found == contains_text(s@, pattern@),
{
    if pattern.len() > s.len() {
        return false;
    }
    if pattern.len() == 0 {
        assert(s@.subrange(0, 0) == pattern@);
        assert(occurs_at(s@, pattern@, 0));
        return true;
    }
    let last = s.len() - pattern.len();
    let mut at: usize = 0;
    while at <= last
        invariant
            at <= last + 1,
            last < s.len(),
            last == s.len() - pattern.len(),
            forall|k: int| 0 <= k < at ==> !occurs_at(s@, pattern@, k),
        decreases last + 1 - at,
    {
        if matches_at(s, pattern, at) {
            return true;
        }
        at += 1;
    }
    false
}

/// Whether the character `c` stands somewhere in `s`.
pub fn has_char(s: &Vec<char>, c: char) -> (found: bool)
    ensures
        found == s@.contains(c),
{
    let k = find_char(s, c);
    k < s.len()
}

/// How often the character `c` stands in `s`.
pub open spec fn count_char(s: Seq<char>, c: char) -> nat
    decreases s.len(),
{
    if s.len() == 0 {
        0
    } else {
        count_char(s.drop_last(), c) + if s.last() == c {
            1nat
        } else {
            0nat
        }
    }
}

/// A character that is counted occurs.
pub proof fn lemma_count_found(s: Seq<char>, c: char)
    ensures
        count_char(s, c) > 0 ==> index_of(s, c) < s.len(),
    decreases s.len(),
{
    lemma_index_of_bounds(s, c);
    if s.len() > 0 && index_of(s, c) >= s.len() {
        lemma_count_found(s.drop_last(), c);
        lemma_index_of_bounds(s.drop_last(), c);
        lemma_index_of(s.drop_last(), c, s.len() - 1);
    }
}

/// How often the character `c` stands in `s`.
pub fn count_of(s: &Vec<char>, c: char) -> (count: usize)
    ensures
        count == count_char(s@, c),
{
    let mut count: usize = 0;
    let mut i: usize = 0;
    assert(s@.take(0) == Seq::<char>::empty());
    while i < s.len()
        invariant
            i <= s.len(),
            count <= i,
            count == count_char(s@.take(i as int), c),
        decreases s.len() - i,
    {
        assert(s@.take(i + 1).drop_last() == s@.take(i as int));
        if s[i] == c {
            count += 1;
        }
        i += 1;
    }
    assert(s@.take(s@.len() as int) == s@);
    count
}

/// The lower-case form of an ASCII capital letter; any other character as
/// it is.
pub open spec fn lower_char(c: char) -> char {
    if 'A' <= c <= 'Z' {
        ((c as u8) + 32) as char
    } else {
        c
    }
}

/// `s` with its ASCII capital letters in lower case.
pub open spec fn lower(s: Seq<char>) -> Seq<char> {
    s.map_values(|c: char| lower_char(c))
}

/// `s` with its ASCII capital letters in lower case.
pub fn lower_chars(s: &Vec<char>) -> (out: Vec<char>)
    ensures
        out@ == lower(s@),
{
    let mut out: Vec<char> = Vec::new();
    let mut i: usize = 0;
    while i < s.len()
        invariant
            i <= s.len(),
            out@ == lower(s@.take(i as int)),
        decreases s.len() - i,
    {
        let c = s[i];
        let l = if 'A' <= c && c <= 'Z' {
            ((c as u8) + 32) as char
        } else {
            c
        };
        out.push(l);
        assert(lower(s@.take(i + 1)) == lower(s@.take(i as int)).push(l));
        i += 1;
    }
    assert(s@.take(s@.len() as int) == s@);
    out
}

/// What a list of character vectors holds.
pub open spec fn texts(v: Seq<Vec<char>>) -> Seq<Seq<char>> {
    Seq::new(v.len(), |i: int| v[i]@)
}

/// The pieces of `s` between the separators `sep`. A text without a
/// separator is one piece; two separators in a row hold an empty piece.
pub open spec fn split(s: Seq<char>, sep: char) -> Seq<Seq<char>>
    decreases s.len(),
{
    if s.len() == 0 {
        seq![Seq::empty()]
    } else {
        let before = split(s.drop_last(), sep);
        if s.last() == sep {
            before.push(Seq::empty())
        } else {
            before.drop_last().push(before.last().push(s.last()))
        }
    }
}

/// A split has at least one piece.
pub proof fn lemma_split_len(s: Seq<char>, sep: char)
    ensures
        split(s, sep).len() >= 1,
    decreases s.len(),
{
    if s.len() > 0 {
        lemma_split_len(s.drop_last(), sep);
    }
}

/// The pieces of `s` between the separators `sep`.
pub fn split_chars(s: &Vec<char>, sep: char) -> (out: Vec<Vec<char>>)
    ensures
        texts(out@) == split(s@, sep),
{
    let mut out: Vec<Vec<char>> = Vec::new();
    let mut piece: Vec<char> = Vec::new();
    let mut i: usize = 0;
    assert(s@.take(0) == Seq::<char>::empty());
    assert(texts(out@).push(piece@) == split(s@.take(0), sep));
    while i < s.len()
        invariant
            i <= s.len(),
            texts(out@).push(piece@) == split(s@.take(i as int), sep),
        decreases s.len() - i,
    {
        let c = s[i];
        assert(s@.take(i + 1).drop_last() == s@.take(i as int));
        let ghost before = split(s@.take(i as int), sep);
        assert(before.drop_last() == texts(out@));
        assert(before.last() == piece@);
        if c == sep {
            let ghost old_out = out@;
            out.push(piece);
            piece = Vec::new();
            assert(texts(out@) == before);
        } else {
            piece.push(c);
        }
        i += 1;
    }
    assert(s@.take(s@.len() as int) == s@);
    let ghost old_out = out@;
    out.push(piece);
    assert(texts(out@) == texts(old_out).push(piece@));
    out
}

/// The texts `pieces`, joined with `sep` between them.
pub open spec fn joined(pieces: Seq<Seq<char>>, sep: char) -> Seq<char>
    decreases pieces.len(),
{
    if pieces.len() == 0 {
        Seq::empty()
    } else if pieces.len() == 1 {
        pieces[0]
    } else {
        joined(pieces.drop_last(), sep) + seq![sep] + pieces.last()
    }
}

/// Splitting loses nothing and leaves no separator: the pieces of `s`,
/// joined with the separator again, are `s`, and no piece holds the
/// separator.
pub proof fn lemma_split_joins(s: Seq<char>, sep: char)
    ensures
        joined(split(s, sep), sep) == s,
        forall|i: int| 0 <= i < split(s, sep).len() ==> !(#[trigger] split(s, sep)[i]).contains(sep),
        split(s, sep).len() == count_char(s, sep) + 1,
    decreases s.len(),
{
    if s.len() == 0 {
        assert(joined(split(s, sep), sep) =~= s);
    } else {
        let front = s.drop_last();
        let before = split(front, sep);
        lemma_split_joins(front, sep);
        lemma_split_len(front, sep);
        let c = s.last();
        assert(front.push(c) == s);
        if c == sep {
            let after = before.push(Seq::empty());
            assert(after.drop_last() == before);
            assert(joined(after, sep) =~= joined(before, sep) + seq![sep]);
            assert(joined(after, sep) =~= s);
            assert forall|i: int| 0 <= i < after.len() implies !(#[trigger] after[i]).contains(
                sep,
            ) by {
                if i < before.len() {
                    assert(after[i] == before[i]);
                }
            }
        } else {
            let last = before.last().push(c);
            let after = before.drop_last().push(last);
            assert(after.drop_last() == before.drop_last());
            assert(!before.last().contains(sep));
            assert forall|k: int| 0 <= k < last.len() implies last[k] != sep by {
                if k < before.last().len() {
                    assert(before.last()[k] == last[k]);
                }
            }
            if before.len() == 1 {
                assert(joined(before, sep) == before[0]);
                assert(joined(after, sep) =~= s);
            } else {
                assert(joined(before, sep) == joined(before.drop_last(), sep) + seq![sep]
                    + before.last());
                assert(joined(after, sep) =~= joined(before, sep).push(c));
            }
            assert forall|i: int| 0 <= i < after.len() implies !(#[trigger] after[i]).contains(
                sep,
            ) by {
                if i < after.len() - 1 {
                    assert(after[i] == before[i]);
                }
            }
        }
    }
}

/// The part of `s` after its last separator `sep`; all of `s` without one.
pub open spec fn last_piece(s: Seq<char>, sep: char) -> Seq<char> {
    split(s, sep).last()
}

/// The part of `s` after its last separator `sep`; all of `s` without one.
pub fn last_piece_chars(s: &Vec<char>, sep: char) -> (out: Vec<char>)
    ensures
        out@ == last_piece(s@, sep),
{
    let mut start: usize = 0;
    let mut i: usize = 0;
    assert(s@.take(0) == Seq::<char>::empty());
    assert(s@.subrange(0, 0) == Seq::<char>::empty());
    while i < s.len()
        invariant
            start <= i <= s.len(),
            split(s@.take(i as int), sep).last() == s@.subrange(start as int, i as int),
        decreases s.len() - i,
    {
        assert(s@.take(i + 1).drop_last() == s@.take(i as int));
        proof {
            lemma_split_len(s@.take(i as int), sep);
        }
        if s[i] == sep {
            start = i + 1;
            assert(s@.subrange(start as int, i + 1) == Seq::<char>::empty());
        } else {
            assert(s@.subrange(start as int, i + 1) == s@.subrange(start as int, i as int).push(
                s@[i as int],
            ));
        }
        i += 1;
    }
    assert(s@.take(s@.len() as int) == s@);
    copy_range(s, start, s.len())
}

/// The pieces of `s` between its white-space characters. Two white-space
/// characters in a row hold an empty piece.
pub open spec fn split_spaces(s: Seq<char>) -> Seq<Seq<char>>
    decreases s.len(),
{
    if s.len() == 0 {
        seq![Seq::empty()]
    } else {
        let before = split_spaces(s.drop_last());
        if is_space(s.last()) {
            before.push(Seq::empty())
        } else {
            before.drop_last().push(before.last().push(s.last()))
        }
    }
}

/// The texts among `pieces` that are not empty, in order.
pub open spec fn non_empty(pieces: Seq<Seq<char>>) -> Seq<Seq<char>> {
    pieces.filter(|piece: Seq<char>| piece.len() > 0)
}

/// The words of `s`: its maximal runs of characters that are not white
/// space, in order.
pub open spec fn words(s: Seq<char>) -> Seq<Seq<char>> {
    non_empty(split_spaces(s))
}

/// A split at white space has at least one piece.
pub proof fn lemma_split_spaces_len(s: Seq<char>)
    ensures
        split_spaces(s).len() >= 1,
    decreases s.len(),
{
    if s.len() > 0 {
        lemma_split_spaces_len(s.drop_last());
    }
}

/// The texts that are not empty among `pieces` and one more piece.
pub proof fn lemma_non_empty_push(pieces: Seq<Seq<char>>, piece: Seq<char>)
    ensures
        non_empty(pieces.push(piece)) == if piece.len() > 0 {
            non_empty(pieces).push(piece)
        } else {
            non_empty(pieces)
        },
{
    reveal(Seq::filter);
    assert(pieces.push(piece).drop_last() == pieces);
}

/// The words of `s`.
pub fn split_words(s: &Vec<char>) -> (out: Vec<Vec<char>>)
    ensures
        texts(out@) == words(s@),
{
    let mut out: Vec<Vec<char>> = Vec::new();
    let mut word: Vec<char> = Vec::new();
    let mut i: usize = 0;
    assert(s@.take(0) == Seq::<char>::empty());
    assert(split_spaces(s@.take(0)).drop_last() == Seq::<Seq<char>>::empty());
    assert(texts(out@) == non_empty(Seq::<Seq<char>>::empty()));
    while i < s.len()
        invariant
            i <= s.len(),
            texts(out@) == non_empty(split_spaces(s@.take(i as int)).drop_last()),
            word@ == split_spaces(s@.take(i as int)).last(),
        decreases s.len() - i,
    {
        let c = s[i];
        let ghost before = split_spaces(s@.take(i as int));
        assert(s@.take(i + 1).drop_last() == s@.take(i as int));
        assert(s@.take(i + 1).last() == c);
        proof {
            lemma_split_spaces_len(s@.take(i as int));
            assert(before.drop_last().push(before.last()) == before);
        }
        if char_is_space(c) {
            proof {
                lemma_non_empty_push(before.drop_last(), before.last());
                assert(before.push(Seq::empty()).drop_last() == before);
            }
            if word.len() > 0 {
                let ghost old_out = out@;
                out.push(word);
                assert(texts(out@) == texts(old_out).push(out@.last()@));
            }
            word = Vec::new();
        } else {
            word.push(c);
            assert(before.drop_last().push(before.last().push(c)).drop_last()
                == before.drop_last());
        }
        i += 1;
    }
    assert(s@.take(s@.len() as int) == s@);
    proof {
        let all = split_spaces(s@);
        lemma_split_spaces_len(s@);
        assert(all.drop_last().push(all.last()) == all);
        lemma_non_empty_push(all.drop_last(), all.last());
    }
    if word.len() > 0 {
        let ghost old_out = out@;
        out.push(word);
        assert(texts(out@) == texts(old_out).push(out@.last()@));
    }
    out
}

} // verus!
