//! Character-level text operations shared by the template engine, the URI
//! helpers and the message builders.
//!
//! Every contract is stated over `Seq<char>`, the view of `str` and `String`.

use vstd::prelude::*;
use vstd::string::StringExecFns;
use vstd::string::StrSliceExecFns;

verus! {

broadcast use vstd::string::group_string_axioms;

/// `pattern` occurs in `text` starting at index `at`.
pub open spec fn matches_at(text: Seq<char>, pattern: Seq<char>, at: int) -> bool {
    &&& 0 <= at
    &&& at + pattern.len() <= text.len()
    &&& text.subrange(at, at + pattern.len()) == pattern
}

/// `pattern` occurs somewhere in `text`.
pub open spec fn contains_pattern(text: Seq<char>, pattern: Seq<char>) -> bool {
    exists|at: int| matches_at(text, pattern, at)
}

/// `text` begins with `prefix`.
pub open spec fn has_prefix(text: Seq<char>, prefix: Seq<char>) -> bool {
    matches_at(text, prefix, 0)
}

/// The character `c` occurs in `text`.
pub open spec fn has_char(text: Seq<char>, c: char) -> bool {
    exists|i: int| 0 <= i < text.len() && text[i] == c
}

/// `text` with every occurrence of `pattern` replaced by `with`, scanning from
/// the left and resuming after each replaced occurrence. An empty pattern
/// replaces nothing.
pub open spec fn replaced(text: Seq<char>, pattern: Seq<char>, with: Seq<char>) -> Seq<char>
    decreases text.len(),
{
    if pattern.len() == 0 || text.len() < pattern.len() {
        text
    } else if matches_at(text, pattern, 0) {
        with + replaced(text.skip(pattern.len() as int), pattern, with)
    } else {
        seq![text[0]] + replaced(text.skip(1), pattern, with)
    }
}

/// Index of the first occurrence of `pattern` in `text` at or after `from`,
/// if there is one.
pub open spec fn first_match_from(text: Seq<char>, pattern: Seq<char>, from: int) -> Option<int>
    decreases text.len() + 1 - from,
{
    if from < 0 || from + pattern.len() > text.len() {
        None
    } else if matches_at(text, pattern, from) {
        Some(from)
    } else {
        first_match_from(text, pattern, from + 1)
    }
}

/// The pieces of `text` between occurrences of the separator `sep`, in order.
/// A text without separator is one piece; an empty text is one empty piece.
pub open spec fn split_pieces(text: Seq<char>, sep: char) -> Seq<Seq<char>>
    decreases text.len(),
{
    if text.len() == 0 {
        seq![Seq::<char>::empty()]
    } else {
        let rest = split_pieces(text.drop_last(), sep);
        if text.last() == sep {
            rest.push(Seq::<char>::empty())
        } else {
            rest.drop_last().push(rest.last().push(text.last()))
        }
    }
}

/// The decimal digit `d` (0 to 9) as a character.
pub open spec fn digit_char(d: int) -> char {
    if d == 0 {
        '0'
    } else if d == 1 {
        '1'
    } else if d == 2 {
        '2'
    } else if d == 3 {
        '3'
    } else if d == 4 {
        '4'
    } else if d == 5 {
        '5'
    } else if d == 6 {
        '6'
    } else if d == 7 {
        '7'
    } else if d == 8 {
        '8'
    } else {
        '9'
    }
}

/// The decimal rendering of a natural number, without leading zeros.
pub open spec fn decimal_text(n: nat) -> Seq<char>
    decreases n,
{
    if n < 10 {
        seq![digit_char(n as int)]
    } else {
        decimal_text(n / 10).push(digit_char((n % 10) as int))
    }
}

/// The decimal rendering of an integer, with a leading `-` when negative.
pub open spec fn signed_decimal_text(n: int) -> Seq<char> {
    if n < 0 {
        seq!['-'] + decimal_text((-n) as nat)
    } else {
        decimal_text(n as nat)
    }
}

/// Copies the characters of `s` into a vector.
pub fn chars_of(s: &str) -> (out: Vec<char>)
    ensures
        out@ == s@,
{
    let mut out: Vec<char> = Vec::new();
    for c in it: s.chars()
        invariant
            it.seq() == s@,
            out@ == it.seq().take(it.index() as int),
    {
        out.push(c);
    }
    out
}

/// Whether two texts hold the same characters.
pub fn text_equal(a: &str, b: &str) -> (same: bool)
    ensures
        same == (a@ == b@),
{
    let left = chars_of(a);
    let right = chars_of(b);
    if left.len() != right.len() {
        return false;
    }
    let mut i: usize = 0;
    while i < left.len()
        invariant
            left@ == a@,
            right@ == b@,
            left.len() == right.len(),
            i <= left.len(),
            forall|k: int| 0 <= k < i ==> left@[k] == right@[k],
        decreases left.len() - i,
    {
        if left[i] != right[i] {
            return false;
        }
        i += 1;
    }
    assert(left@ =~= right@);
    true
}

/// Whether `pattern` occurs in `text` at index `at`.
pub fn matches_here(text: &Vec<char>, pattern: &Vec<char>, at: usize) -> (hit: bool)
    ensures
        hit == matches_at(text@, pattern@, at as int),
{
    if at > text.len() || pattern.len() > text.len() - at {
        return false;
    }
    let mut k: usize = 0;
    while k < pattern.len()
        invariant
            at + pattern.len() <= text.len(),
            k <= pattern.len(),
            forall|j: int| 0 <= j < k ==> text@[at + j] == pattern@[j],
        decreases pattern.len() - k,
    {
        if text[at + k] != pattern[k] {
            assert(text@.subrange(at as int, at + pattern.len())[k as int] == text@[at + k]);
            return false;
        }
        k += 1;
    }
    assert(text@.subrange(at as int, at + pattern.len()) =~= pattern@);
    true
}

/// Finds the first occurrence of `pattern` in `text` at or after `from`.
pub fn find_from(text: &Vec<char>, pattern: &Vec<char>, from: usize) -> (found: Option<usize>)
    ensures
        match found {
            Some(at) => first_match_from(text@, pattern@, from as int) == Some(at as int),
            None => first_match_from(text@, pattern@, from as int) is None,
        },
{
    let mut i: usize = from;
    while i <= text.len() && pattern.len() <= text.len() - i
        invariant
            from <= i,
            first_match_from(text@, pattern@, from as int) == first_match_from(
                text@,
                pattern@,
                i as int,
            ),
        decreases text.len() + 1 - i,
    {
        if matches_here(text, pattern, i) {
            return Some(i);
        }
        proof {
            if i == text.len() {
                assert(text@.subrange(i as int, i as int) =~= pattern@);
            }
        }
        i += 1;
    }
    None
}

/// Whether `text` begins with `prefix`.
pub fn starts_with(text: &str, prefix: &str) -> (hit: bool)
    ensures
        hit == has_prefix(text@, prefix@),
{
    let t = chars_of(text);
    let p = chars_of(prefix);
    matches_here(&t, &p, 0)
}

/// What `first_match_from` finds is the leftmost occurrence at or after
/// `from`, and it finds nothing only when there is none.
pub proof fn lemma_first_match(text: Seq<char>, pattern: Seq<char>, from: int)
    requires
        0 <= from,
    ensures
        match first_match_from(text, pattern, from) {
            Some(at) => {
                &&& from <= at
                &&& matches_at(text, pattern, at)
                &&& forall|j: int| from <= j < at ==> !matches_at(text, pattern, j)
            },
            None => forall|j: int| from <= j ==> !matches_at(text, pattern, j),
        },
    decreases text.len() + 1 - from,
{
    if from + pattern.len() > text.len() {
    } else if matches_at(text, pattern, from) {
    } else {
        lemma_first_match(text, pattern, from + 1);
    }
}

/// Whether `pattern` occurs in `text`.
pub fn text_contains(text: &str, pattern: &str) -> (hit: bool)
    ensures
        hit == contains_pattern(text@, pattern@),
{
    let t = chars_of(text);
    let p = chars_of(pattern);
    let found = find_from(&t, &p, 0);
    proof {
        lemma_first_match(text@, pattern@, 0);
        if found is Some {
            assert(matches_at(text@, pattern@, found->0 as int));
        }
    }
    found.is_some()
}

/// Replaces every occurrence of `pattern` in `text` by `with`, scanning from
/// the left; occurrences that the replacement itself creates are not
/// replaced again.
pub fn replace_all(text: &str, pattern: &str, with: &str) -> (out: String)
    ensures
        out@ == replaced(text@, pattern@, with@),
{
    let t = chars_of(text);
    let p = chars_of(pattern);
    if p.len() == 0 || t.len() < p.len() {
        return text.to_owned();
    }
    let n = t.len();
    let m = p.len();
    let mut out = String::new();
    let mut kept: usize = 0;
    let mut i: usize = 0;
    proof {
        assert(t@.skip(0) =~= t@);
        assert(out@ + replaced(t@, p@, with@) =~= replaced(t@, p@, with@));
        assert(t@.subrange(0, 0) + replaced(t@, p@, with@) =~= replaced(t@, p@, with@));
    }
    while n - i >= m
        invariant
            t@ == text@,
            p@ == pattern@,
            n == t.len(),
            m == p.len(),
            0 < m <= n,
            kept <= i <= n,
            out@ + replaced(t@.skip(kept as int), p@, with@) == replaced(t@, p@, with@),
            replaced(t@.skip(kept as int), p@, with@) == t@.subrange(kept as int, i as int)
                + replaced(t@.skip(i as int), p@, with@),
        decreases n - i,
    {
        let ghost rest = t@.skip(i as int);
        let ghost before = out@;
        let ghost gap = t@.subrange(kept as int, i as int);
        proof {
            assert(matches_at(rest, p@, 0) == matches_at(t@, p@, i as int)) by {
                assert(rest.subrange(0, m as int) =~= t@.subrange(i as int, i + m));
            }
        }
        if matches_here(&t, &p, i) {
            out.append(text.substring_char(kept, i));
            out.append(with);
            proof {
                let tail = replaced(t@.skip(i + m), p@, with@);
                assert(rest.skip(m as int) =~= t@.skip(i + m));
                assert(replaced(rest, p@, with@) == with@ + tail);
                assert(out@ + tail =~= before + (gap + (with@ + tail)));
                assert(t@.subrange(i + m, i + m) + tail =~= tail);
            }
            i = i + m;
            kept = i;
        } else {
            proof {
                let tail = replaced(t@.skip(i + 1), p@, with@);
                assert(rest.skip(1) =~= t@.skip(i + 1));
                assert(replaced(rest, p@, with@) == seq![rest[0]] + tail);
                assert(gap + (seq![rest[0]] + tail) =~= t@.subrange(kept as int, i + 1) + tail);
            }
            i = i + 1;
        }
    }
    out.append(text.substring_char(kept, n));
    proof {
        assert(t@.subrange(kept as int, i as int) + t@.skip(i as int) =~= t@.subrange(
            kept as int,
            n as int,
        ));
    }
    out
}

/// `value` can stand in for `pattern` without bringing `pattern` back: it
/// holds neither the first nor the last character of `pattern`, and it is
/// not a piece of `pattern` (so it is not empty).
pub open spec fn inert(value: Seq<char>, pattern: Seq<char>) -> bool {
    &&& pattern.len() > 0
    &&& !has_char(value, pattern[0])
    &&& !has_char(value, pattern.last())
    &&& !contains_pattern(pattern, value)
}

/// A text without `pattern` is left as it is.
pub proof fn lemma_replaced_without(text: Seq<char>, pattern: Seq<char>, with: Seq<char>)
    requires
        !contains_pattern(text, pattern),
    ensures
        replaced(text, pattern, with) == text,
    decreases text.len(),
{
    if pattern.len() == 0 || text.len() < pattern.len() {
    } else if matches_at(text, pattern, 0) {
    } else {
        let rest = text.skip(1);
        assert forall|at: int| !matches_at(rest, pattern, at) by {
            if matches_at(rest, pattern, at) {
                assert(rest.subrange(at, at + pattern.len()) =~= text.subrange(
                    at + 1,
                    at + 1 + pattern.len(),
                ));
                assert(matches_at(text, pattern, at + 1));
            }
        }
        lemma_replaced_without(rest, pattern, with);
        assert(seq![text[0]] + rest =~= text);
    }
}

/// A replacement passes over the beginning of a text in which the pattern
/// does not begin: where `pattern` begins at no index of `head` in
/// `head + rest`, it leaves `head` as it is and replaces in `rest`.
pub proof fn lemma_replaced_past(
    head: Seq<char>,
    rest: Seq<char>,
    pattern: Seq<char>,
    with: Seq<char>,
)
    requires
        forall|i: int| 0 <= i < head.len() ==> !matches_at(head + rest, pattern, i),
    ensures
        replaced(head + rest, pattern, with) == head + replaced(rest, pattern, with),
    decreases head.len(),
{
    let text = head + rest;
    if head.len() == 0 {
        assert(text =~= rest);
        assert(head + replaced(rest, pattern, with) =~= replaced(rest, pattern, with));
    } else if pattern.len() == 0 || text.len() < pattern.len() {
        assert(replaced(rest, pattern, with) == rest);
    } else {
        let tail = head.skip(1);
        assert(text.skip(1) =~= tail + rest);
        assert forall|i: int| 0 <= i < tail.len() implies !matches_at(tail + rest, pattern, i) by {
            if matches_at(tail + rest, pattern, i) {
                assert((tail + rest).subrange(i, i + pattern.len()) =~= text.subrange(
                    i + 1,
                    i + 1 + pattern.len(),
                ));
                assert(matches_at(text, pattern, i + 1));
            }
        }
        lemma_replaced_past(tail, rest, pattern, with);
        assert(seq![text[0]] + (tail + replaced(rest, pattern, with)) =~= head + replaced(
            rest,
            pattern,
            with,
        ));
    }
}

/// What begins a text after a replacement by an inert value began the text
/// before it: where the end of `probe` from `from` on is a prefix of the
/// replaced text, it is a prefix of the text.
pub proof fn lemma_prefix_survives(
    text: Seq<char>,
    pattern: Seq<char>,
    with: Seq<char>,
    probe: Seq<char>,
    from: int,
)
    requires
        0 <= from <= probe.len(),
        probe.len() > 0,
        !has_char(with, probe.last()),
        !contains_pattern(probe, with),
        has_prefix(replaced(text, pattern, with), probe.skip(from)),
    ensures
        has_prefix(text, probe.skip(from)),
    decreases text.len(),
{
    let tail = probe.skip(from);
    let out = replaced(text, pattern, with);
    if from == probe.len() {
        assert(text.subrange(0, 0) =~= tail);
    } else if pattern.len() == 0 || text.len() < pattern.len() {
    } else if matches_at(text, pattern, 0) {
        let rest = replaced(text.skip(pattern.len() as int), pattern, with);
        assert(out == with + rest);
        assert(out.subrange(0, tail.len() as int) == tail);
        if tail.len() >= with.len() {
            assert(probe.subrange(from, from + with.len()) =~= with) by {
                assert forall|i: int| 0 <= i < with.len() implies probe[from + i] == with[i] by {
                    assert(tail[i] == out.subrange(0, tail.len() as int)[i]);
                    assert(out[i] == with[i]);
                }
            }
            assert(matches_at(probe, with, from));
        } else {
            let last = tail.len() - 1;
            assert(tail[last] == out.subrange(0, tail.len() as int)[last]);
            assert(out[last] == with[last]);
            assert(tail[last] == probe.last());
            assert(has_char(with, probe.last()));
        }
    } else {
        let rest = text.skip(1);
        let out_rest = replaced(rest, pattern, with);
        assert(out == seq![text[0]] + out_rest);
        assert(out.subrange(0, tail.len() as int) == tail);
        assert(tail[0] == out.subrange(0, tail.len() as int)[0]);
        assert(probe.skip(from + 1) =~= tail.skip(1));
        assert(out_rest.subrange(0, tail.len() - 1) =~= tail.skip(1)) by {
            assert forall|i: int| 0 <= i < tail.len() - 1 implies out_rest[i] == tail[i + 1] by {
                assert(tail[i + 1] == out.subrange(0, tail.len() as int)[i + 1]);
            }
        }
        lemma_prefix_survives(rest, pattern, with, probe, from + 1);
        assert(rest.subrange(0, tail.len() - 1) == tail.skip(1));
        assert(text.subrange(0, tail.len() as int) =~= tail) by {
            assert forall|i: int| 0 <= i < tail.len() implies text[i] == tail[i] by {
                if i > 0 {
                    assert(rest.subrange(0, tail.len() - 1)[i - 1] == tail.skip(1)[i - 1]);
                }
            }
        }
    }
}

/// A replacement by an inert value leaves no occurrence of `probe`, where
/// `probe` is the replaced pattern itself or does not occur in the text.
pub proof fn lemma_replaced_clean(
    text: Seq<char>,
    pattern: Seq<char>,
    with: Seq<char>,
    probe: Seq<char>,
)
    requires
        inert(with, probe),
        probe == pattern || !contains_pattern(text, probe),
    ensures
        !contains_pattern(replaced(text, pattern, with), probe),
    decreases text.len(),
{
    let out = replaced(text, pattern, with);
    if pattern.len() == 0 || text.len() < pattern.len() {
        if probe == pattern {
            assert forall|at: int| !matches_at(out, probe, at) by {}
        }
    } else if matches_at(text, pattern, 0) {
        let rest = text.skip(pattern.len() as int);
        let out_rest = replaced(rest, pattern, with);
        if probe != pattern {
            assert forall|at: int| !matches_at(rest, probe, at) by {
                if matches_at(rest, probe, at) {
                    assert(rest.subrange(at, at + probe.len()) =~= text.subrange(
                        at + pattern.len(),
                        at + pattern.len() + probe.len(),
                    ));
                    assert(matches_at(text, probe, at + pattern.len()));
                }
            }
        }
        lemma_replaced_clean(rest, pattern, with, probe);
        assert forall|at: int| !matches_at(out, probe, at) by {
            if matches_at(out, probe, at) {
                if at < with.len() {
                    assert(out.subrange(at, at + probe.len())[0] == probe[0]);
                    assert(out[at] == with[at]);
                    assert(has_char(with, probe[0]));
                } else {
                    assert(out_rest.subrange(at - with.len(), at - with.len() + probe.len())
                        =~= out.subrange(at, at + probe.len()));
                    assert(matches_at(out_rest, probe, at - with.len()));
                }
            }
        }
    } else {
        let rest = text.skip(1);
        let out_rest = replaced(rest, pattern, with);
        if probe != pattern {
            assert forall|at: int| !matches_at(rest, probe, at) by {
                if matches_at(rest, probe, at) {
                    assert(rest.subrange(at, at + probe.len()) =~= text.subrange(
                        at + 1,
                        at + 1 + probe.len(),
                    ));
                    assert(matches_at(text, probe, at + 1));
                }
            }
        }
        lemma_replaced_clean(rest, pattern, with, probe);
        assert forall|at: int| !matches_at(out, probe, at) by {
            if matches_at(out, probe, at) {
                if at == 0 {
                    assert(probe.skip(0) =~= probe);
                    lemma_prefix_survives(text, pattern, with, probe, 0);
                    assert(matches_at(text, probe, 0));
                } else {
                    assert(out_rest.subrange(at - 1, at - 1 + probe.len()) =~= out.subrange(
                        at,
                        at + probe.len(),
                    ));
                    assert(matches_at(out_rest, probe, at - 1));
                }
            }
        }
    }
}

/// Index of the first text equal to `key`, if there is one.
pub open spec fn index_of_text(keys: Seq<Seq<char>>, key: Seq<char>) -> Option<int>
    decreases keys.len(),
{
    if keys.len() == 0 {
        None
    } else if keys[0] == key {
        Some(0)
    } else {
        match index_of_text(keys.drop_first(), key) {
            Some(i) => Some(i + 1),
            None => None,
        }
    }
}

/// What `index_of_text` finds is in range, equals the key, and nothing
/// before it does; it finds nothing only when no text equals the key.
pub proof fn lemma_index_of_text(keys: Seq<Seq<char>>, key: Seq<char>)
    ensures
        match index_of_text(keys, key) {
            Some(i) => {
                &&& 0 <= i < keys.len()
                &&& keys[i] == key
                &&& forall|j: int| 0 <= j < i ==> keys[j] != key
            },
            None => forall|j: int| 0 <= j < keys.len() ==> keys[j] != key,
        },
    decreases keys.len(),
{
    if keys.len() == 0 {
    } else if keys[0] == key {
    } else {
        let rest = keys.drop_first();
        lemma_index_of_text(rest, key);
        match index_of_text(rest, key) {
            Some(i) => {
                assert forall|j: int| 0 <= j < i + 1 implies keys[j] != key by {
                    if j > 0 {
                        assert(keys[j] == rest[j - 1]);
                    }
                }
            },
            None => {
                assert forall|j: int| 0 <= j < keys.len() implies keys[j] != key by {
                    if j > 0 {
                        assert(keys[j] == rest[j - 1]);
                    }
                }
            },
        }
    }
}

/// Looking up in a sequence with one more text at its end finds what was
/// found before; where nothing was found, it finds the new text if that is
/// the key.
pub proof fn lemma_index_of_pushed(keys: Seq<Seq<char>>, extra: Seq<char>, key: Seq<char>)
    ensures
        index_of_text(keys.push(extra), key) == match index_of_text(keys, key) {
            Some(i) => Some(i),
            None => if extra == key {
                Some(keys.len() as int)
            } else {
                None
            },
        },
{
    let longer = keys.push(extra);
    lemma_index_of_text(keys, key);
    lemma_index_of_text(longer, key);
    match index_of_text(keys, key) {
        Some(i) => {
            assert(longer[i] == key);
            match index_of_text(longer, key) {
                Some(j) => {
                    if j < i {
                        assert(keys[j] == longer[j]);
                    }
                },
                None => {},
            }
        },
        None => {
            match index_of_text(longer, key) {
                Some(j) => {
                    if j < keys.len() {
                        assert(keys[j] == longer[j]);
                    }
                },
                None => {
                    assert(longer[keys.len() as int] == extra);
                },
            }
        },
    }
}

/// No two texts of the sequence are equal.
pub open spec fn pairwise_distinct(keys: Seq<Seq<char>>) -> bool {
    forall|i: int, j: int| 0 <= i < j < keys.len() ==> keys[i] != keys[j]
}

/// The characters of an optional text.
pub open spec fn opt_text(o: Option<String>) -> Option<Seq<char>> {
    match o {
        Some(s) => Some(s@),
        None => None,
    }
}

/// A copy of an optional text.
pub fn clone_opt(o: &Option<String>) -> (copy: Option<String>)
    ensures
        copy == *o,
{
    match o {
        Some(s) => Some(s.clone()),
        None => None,
    }
}

/// `a` followed by `b`.
pub fn join(a: &str, b: &str) -> (out: String)
    ensures
        out@ == a@ + b@,
{
    let mut out = String::from_str(a);
    out.append(b);
    out
}

/// `a`, `b` and `c` in a row.
pub fn join3(a: &str, b: &str, c: &str) -> (out: String)
    ensures
        out@ == a@ + b@ + c@,
{
    let mut out = String::from_str(a);
    out.append(b);
    out.append(c);
    out
}

/// A character that a text does not hold, no part of it holds.
pub proof fn lemma_part_lacks(text: Seq<char>, from: int, to: int, c: char)
    requires
        0 <= from <= to <= text.len(),
        !has_char(text, c),
    ensures
        !has_char(text.subrange(from, to), c),
{
    let part = text.subrange(from, to);
    if has_char(part, c) {
        let i = choose|i: int| 0 <= i < part.len() && part[i] == c;
        assert(text[from + i] == c);
    }
}

/// A text has at least one piece, and a character that the text does not
/// hold, no piece of it holds.
pub proof fn lemma_pieces_lack(text: Seq<char>, sep: char, c: char)
    requires
        !has_char(text, c),
    ensures
        split_pieces(text, sep).len() >= 1,
        forall|k: int|
            0 <= k < split_pieces(text, sep).len() ==> !has_char(
                #[trigger] split_pieces(text, sep)[k],
                c,
            ),
    decreases text.len(),
{
    let pieces = split_pieces(text, sep);
    if text.len() > 0 {
        let shorter = text.drop_last();
        assert(!has_char(shorter, c)) by {
            if has_char(shorter, c) {
                let i = choose|i: int| 0 <= i < shorter.len() && shorter[i] == c;
                assert(text[i] == c);
            }
        }
        lemma_pieces_lack(shorter, sep, c);
        let rest = split_pieces(shorter, sep);
        assert forall|k: int| 0 <= k < pieces.len() implies !has_char(#[trigger] pieces[k], c) by {
            if k < rest.len() - 1 {
                assert(pieces[k] == rest[k]);
            } else if text.last() == sep {
                if k == rest.len() - 1 {
                    assert(pieces[k] == rest[k]);
                }
            } else {
                let grown = rest.last().push(text.last());
                assert(pieces[k] == grown);
                if has_char(grown, c) {
                    let i = choose|i: int| 0 <= i < grown.len() && grown[i] == c;
                    if i < rest.last().len() {
                        assert(rest.last()[i] == c);
                        assert(has_char(rest[rest.len() - 1], c));
                    } else {
                        assert(text[text.len() - 1] == c);
                    }
                }
            }
        }
    }
}

/// The pieces that are not empty, in order.
pub open spec fn nonempty_pieces(pieces: Seq<Seq<char>>) -> Seq<Seq<char>>
    decreases pieces.len(),
{
    if pieces.len() == 0 {
        Seq::empty()
    } else if pieces.last().len() > 0 {
        nonempty_pieces(pieces.drop_last()).push(pieces.last())
    } else {
        nonempty_pieces(pieces.drop_last())
    }
}

/// The characters of each text.
pub open spec fn texts_of(items: Seq<&str>) -> Seq<Seq<char>> {
    Seq::new(items.len(), |i: int| items[i]@)
}

/// Splits `text` at every `sep` and keeps the pieces that are not empty.
pub fn split_nonempty(text: &str, sep: char) -> (out: Vec<&str>)
    ensures
        texts_of(out@) == nonempty_pieces(split_pieces(text@, sep)),
{
    let chars = chars_of(text);
    let n = chars.len();
    let mut out: Vec<&str> = Vec::new();
    let mut start: usize = 0;
    let mut i: usize = 0;
    proof {
        assert(text@.take(0) =~= Seq::<char>::empty());
        assert(split_pieces(text@.take(0), sep) =~= seq![Seq::<char>::empty()]);
        assert(split_pieces(text@.take(0), sep).drop_last() =~= Seq::<Seq<char>>::empty());
        assert(texts_of(out@) =~= Seq::<Seq<char>>::empty());
        assert(text@.subrange(0, 0) =~= Seq::<char>::empty());
    }
    while i < n
        invariant
            chars@ == text@,
            n == chars.len(),
            start <= i <= n,
            split_pieces(text@.take(i as int), sep).len() >= 1,
            texts_of(out@) == nonempty_pieces(split_pieces(text@.take(i as int), sep).drop_last()),
            split_pieces(text@.take(i as int), sep).last() == text@.subrange(
                start as int,
                i as int,
            ),
        decreases n - i,
    {
        let ghost before = split_pieces(text@.take(i as int), sep);
        let ghost after = split_pieces(text@.take(i + 1), sep);
        proof {
            assert(text@.take(i + 1).drop_last() =~= text@.take(i as int));
            assert(text@.take(i + 1).last() == text@[i as int]);
        }
        if chars[i] == sep {
            if i > start {
                let piece = text.substring_char(start, i);
                let ghost old_out = out@;
                out.push(piece);
                proof {
                    assert(texts_of(out@) =~= texts_of(old_out).push(piece@));
                }
            }
            proof {
                assert(after == before.push(Seq::<char>::empty()));
                assert(after.drop_last() =~= before);
                assert(text@.subrange(i + 1, i + 1) =~= Seq::<char>::empty());
            }
            start = i + 1;
        } else {
            proof {
                assert(after == before.drop_last().push(before.last().push(text@[i as int])));
                assert(after.drop_last() =~= before.drop_last());
                assert(text@.subrange(start as int, i as int).push(text@[i as int])
                    =~= text@.subrange(start as int, i + 1));
            }
        }
        i += 1;
    }
    proof {
        assert(text@.take(n as int) =~= text@);
    }
    if n > start {
        let piece = text.substring_char(start, n);
        let ghost old_out = out@;
        out.push(piece);
        proof {
            assert(texts_of(out@) =~= texts_of(old_out).push(piece@));
        }
    }
    out
}

/// Splits `text` at every `sep`; empty pieces are kept.
pub fn split_text(text: &str, sep: char) -> (out: Vec<&str>)
    ensures
        texts_of(out@) == split_pieces(text@, sep),
{
    let chars = chars_of(text);
    let n = chars.len();
    let mut out: Vec<&str> = Vec::new();
    let mut start: usize = 0;
    let mut i: usize = 0;
    proof {
        assert(text@.take(0) =~= Seq::<char>::empty());
        assert(split_pieces(text@.take(0), sep) =~= seq![Seq::<char>::empty()]);
        assert(split_pieces(text@.take(0), sep).drop_last() =~= Seq::<Seq<char>>::empty());
        assert(texts_of(out@) =~= Seq::<Seq<char>>::empty());
        assert(text@.subrange(0, 0) =~= Seq::<char>::empty());
    }
    while i < n
        invariant
            chars@ == text@,
            n == chars.len(),
            start <= i <= n,
            split_pieces(text@.take(i as int), sep).len() >= 1,
            texts_of(out@) == split_pieces(text@.take(i as int), sep).drop_last(),
            split_pieces(text@.take(i as int), sep).last() == text@.subrange(
                start as int,
                i as int,
            ),
        decreases n - i,
    {
        let ghost before = split_pieces(text@.take(i as int), sep);
        let ghost after = split_pieces(text@.take(i + 1), sep);
        proof {
            assert(text@.take(i + 1).drop_last() =~= text@.take(i as int));
            assert(text@.take(i + 1).last() == text@[i as int]);
        }
        if chars[i] == sep {
            let piece = text.substring_char(start, i);
            let ghost old_out = out@;
            out.push(piece);
            proof {
                assert(texts_of(out@) =~= texts_of(old_out).push(piece@));
                assert(after == before.push(Seq::<char>::empty()));
                assert(after.drop_last() =~= before);
                assert(before =~= before.drop_last().push(before.last()));
                assert(text@.subrange(i + 1, i + 1) =~= Seq::<char>::empty());
            }
            start = i + 1;
        } else {
            proof {
                assert(after == before.drop_last().push(before.last().push(text@[i as int])));
                assert(after.drop_last() =~= before.drop_last());
                assert(text@.subrange(start as int, i as int).push(text@[i as int])
                    =~= text@.subrange(start as int, i + 1));
            }
        }
        i += 1;
    }
    let piece = text.substring_char(start, n);
    let ghost old_out = out@;
    out.push(piece);
    proof {
        let all = split_pieces(text@, sep);
        assert(text@.take(n as int) =~= text@);
        assert(texts_of(out@) =~= texts_of(old_out).push(piece@));
        assert(all =~= all.drop_last().push(all.last()));
    }
    out
}

} // verus!
