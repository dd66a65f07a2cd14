//! Cutting text into pieces.
//!
//! Every function here works on a slice of `char`s and is specified over the
//! sequence of characters it views. The `spec_*` functions say what a result
//! is; the executable functions of the same name compute it.

use vstd::prelude::*;

verus! {

/// Taken on trust of `String::push` in the standard library: it appends `c` to the end of
/// the string and leaves what the string held before as it was.
pub assume_specification[ String::push ](s: &mut String, c: char)
    ensures
        final(s)@ == old(s)@.push(c),
;

/// The characters of `s`, in order.
pub fn chars_of(s: &str) -> (v: Vec<char>)
    ensures
        v@ == s@,
{
    let mut v: Vec<char> = Vec::new();
    for c in it: s.chars()
        invariant
            it.seq() == s@,
            v@ == it.seq().take(it.index() as int),
    {
        v.push(c);
    }
    v
}

/// The string made of the characters of `s`.
pub fn string_of(s: &[char]) -> (r: String)
    ensures
        r@ == s@,
{
    let mut r = String::new();
    let mut i: usize = 0;
    while i < s.len()
        invariant
            0 <= i <= s.len(),
            r@ == s@.take(i as int),
        decreases s.len() - i,
    {
        r.push(s[i]);
        i += 1;
    }
    r
}

/// Whether `c` has the Unicode property `White_Space`.
pub open spec fn spec_is_whitespace(c: char) -> bool {
    ||| '\u{9}' <= c <= '\u{D}'
    ||| c == ' '
    ||| c == '\u{85}'
    ||| c == '\u{A0}'
    ||| c == '\u{1680}'
    ||| '\u{2000}' <= c <= '\u{200A}'
    ||| c == '\u{2028}'
    ||| c == '\u{2029}'
    ||| c == '\u{202F}'
    ||| c == '\u{205F}'
    ||| c == '\u{3000}'
}

/// Whether `c` is white space.
pub fn is_whitespace(c: char) -> (r: bool)
    ensures
        r == spec_is_whitespace(c),
{
    ('\u{9}' <= c && c <= '\u{D}') || c == ' ' || c == '\u{85}' || c == '\u{A0}' || c == '\u{1680}'
        || ('\u{2000}' <= c && c <= '\u{200A}') || c == '\u{2028}' || c == '\u{2029}' || c
        == '\u{202F}' || c == '\u{205F}' || c == '\u{3000}'
}

/// The index of the first `c` in `s`, or the length of `s` where there is none.
pub open spec fn spec_find(s: Seq<char>, c: char) -> int
    decreases s.len(),
{
    if s.len() == 0 || s[0] == c {
        0
    } else {
        1 + spec_find(s.skip(1), c)
    }
}

/// `spec_find` is the least index that holds `c`.
pub proof fn lemma_find(s: Seq<char>, c: char)
    ensures
        0 <= spec_find(s, c) <= s.len(),
        forall|j: int| 0 <= j < spec_find(s, c) ==> s[j] != c,
        spec_find(s, c) < s.len() ==> s[spec_find(s, c)] == c,
    decreases s.len(),
{
    if s.len() == 0 || s[0] == c {
    } else {
        let t = s.skip(1);
        lemma_find(t, c);
        assert forall|j: int| 0 <= j < spec_find(s, c) implies s[j] != c by {
            if j > 0 {
                assert(s[j] == t[j - 1]);
            }
        }
    }
}

/// An index before which `c` does not occur, and which holds `c` or ends `s`, is `spec_find`.
pub proof fn lemma_find_is(s: Seq<char>, c: char, i: int)
    requires
        0 <= i <= s.len(),
        forall|j: int| 0 <= j < i ==> s[j] != c,
        i < s.len() ==> s[i] == c,
    ensures
        spec_find(s, c) == i,
{
    lemma_find(s, c);
}

/// Finds the first `c` in `s`.
pub fn find(s: &[char], c: char) -> (i: usize)
    ensures
        i == spec_find(s@, c),
{
    let mut i: usize = 0;
    while i < s.len() && s[i] != c
        invariant
            0 <= i <= s.len(),
            forall|j: int| 0 <= j < i ==> s@[j] != c,
        decreases s.len() - i,
    {
        i += 1;
    }
    proof {
        lemma_find_is(s@, c, i as int);
    }
    i
}

/// `s` cut at its first `c`: what stands before it and what stands after it.
pub open spec fn spec_split_once(s: Seq<char>, c: char) -> Option<(Seq<char>, Seq<char>)> {
    let i = spec_find(s, c);
    if i < s.len() {
        Some((s.take(i), s.skip(i + 1)))
    } else {
        None
    }
}

/// Cuts `s` at its first `c`.
pub fn split_once<'a>(s: &'a [char], c: char) -> (r: Option<(&'a [char], &'a [char])>)
    ensures
        match r {
            Some((head, tail)) => spec_split_once(s@, c) == Some((head@, tail@)),
            None => spec_split_once(s@, c).is_none(),
        },
{
    let i = find(s, c);
    proof {
        lemma_find(s@, c);
    }
    if i < s.len() {
        let head = vstd::slice::slice_subrange(s, 0, i);
        let tail = vstd::slice::slice_subrange(s, i + 1, s.len());
        Some((head, tail))
    } else {
        None
    }
}

/// The pieces of `s` between occurrences of `c`. There is always at least one piece.
pub open spec fn spec_split(s: Seq<char>, c: char) -> Seq<Seq<char>>
    decreases s.len(),
{
    let i = spec_find(s, c);
    if 0 <= i < s.len() {
        seq![s.take(i)] + spec_split(s.skip(i + 1), c)
    } else {
        seq![s]
    }
}

/// Cuts `s` at each `c`.
pub fn split<'a>(s: &'a [char], c: char) -> (r: Vec<&'a [char]>)
    ensures
        r@.len() == spec_split(s@, c).len(),
        forall|k: int| 0 <= k < r@.len() ==> (#[trigger] r@[k])@ == spec_split(s@, c)[k],
{
    let mut r: Vec<&'a [char]> = Vec::new();
    let mut rest: &'a [char] = s;
    let ghost mut done: Seq<Seq<char>> = Seq::empty();
    loop
        invariant_except_break
            spec_split(s@, c) == done + spec_split(rest@, c),
        invariant
            done.len() == r@.len(),
            forall|k: int| 0 <= k < r@.len() ==> (#[trigger] r@[k])@ == done[k],
        ensures
            spec_split(s@, c) == done,
        decreases rest@.len(),
    {
        let ghost before = rest@;
        match split_once(rest, c) {
            Some((head, tail)) => {
                proof {
                    lemma_find(before, c);
                    assert(spec_split(before, c) == seq![head@] + spec_split(tail@, c));
                    assert(done + (seq![head@] + spec_split(tail@, c)) == done.push(head@)
                        + spec_split(tail@, c));
                    done = done.push(head@);
                }
                r.push(head);
                rest = tail;
            },
            None => {
                proof {
                    lemma_find(before, c);
                    assert(spec_split(before, c) == seq![before]);
                    assert(done + seq![before] == done.push(before));
                    done = done.push(before);
                }
                r.push(rest);
                break ;
            },
        }
    }
    r
}

/// `s` without the white space it starts with.
pub open spec fn spec_trim_start(s: Seq<char>) -> Seq<char>
    decreases s.len(),
{
    if s.len() > 0 && spec_is_whitespace(s[0]) {
        spec_trim_start(s.skip(1))
    } else {
        s
    }
}

/// `s` without the white space it ends with.
pub open spec fn spec_trim_end(s: Seq<char>) -> Seq<char>
    decreases s.len(),
{
    if s.len() > 0 && spec_is_whitespace(s.last()) {
        spec_trim_end(s.drop_last())
    } else {
        s
    }
}

/// `s` without the white space at either end.
pub open spec fn spec_trim(s: Seq<char>) -> Seq<char> {
    spec_trim_end(spec_trim_start(s))
}

/// Whether `s` holds white space only.
pub open spec fn spec_is_blank(s: Seq<char>) -> bool {
    forall|i: int| 0 <= i < s.len() ==> spec_is_whitespace(#[trigger] s[i])
}

/// Dropping `n` leading white-space characters leaves `spec_trim_start` as it is.
pub proof fn lemma_trim_start_skip(s: Seq<char>, n: int)
    requires
        0 <= n <= s.len(),
        forall|j: int| 0 <= j < n ==> spec_is_whitespace(#[trigger] s[j]),
    ensures
        spec_trim_start(s) == spec_trim_start(s.skip(n)),
    decreases n,
{
    if n > 0 {
        let t = s.skip(1);
        assert forall|j: int| 0 <= j < n - 1 implies spec_is_whitespace(#[trigger] t[j]) by {
            assert(t[j] == s[j + 1]);
        }
        lemma_trim_start_skip(t, n - 1);
        assert(t.skip(n - 1) == s.skip(n));
    } else {
        assert(s.skip(0) == s);
    }
}

/// Dropping trailing white space down to length `n` leaves `spec_trim_end` as it is.
pub proof fn lemma_trim_end_take(s: Seq<char>, n: int)
    requires
        0 <= n <= s.len(),
        forall|j: int| n <= j < s.len() ==> spec_is_whitespace(#[trigger] s[j]),
    ensures
        spec_trim_end(s) == spec_trim_end(s.take(n)),
    decreases s.len() - n,
{
    if n < s.len() {
        let t = s.drop_last();
        lemma_trim_end_take(t, n);
        assert(t.take(n) == s.take(n));
    } else {
        assert(s.take(n) == s);
    }
}

/// The number of white-space characters that `s` starts with.
pub fn leading_whitespace(s: &[char]) -> (n: usize)
    ensures
        n <= s@.len(),
        spec_trim_start(s@) == s@.skip(n as int),
        forall|j: int| 0 <= j < n ==> spec_is_whitespace(#[trigger] s@[j]),
        n < s@.len() ==> !spec_is_whitespace(s@[n as int]),
{
    let mut n: usize = 0;
    while n < s.len() && is_whitespace(s[n])
        invariant
            0 <= n <= s.len(),
            forall|j: int| 0 <= j < n ==> spec_is_whitespace(#[trigger] s@[j]),
        decreases s.len() - n,
    {
        n += 1;
    }
    proof {
        lemma_trim_start_skip(s@, n as int);
        let t = s@.skip(n as int);
        if t.len() > 0 {
            assert(t[0] == s@[n as int]);
        }
    }
    n
}

/// The length of `s` without the white space it ends with.
pub fn trimmed_end(s: &[char]) -> (n: usize)
    ensures
        n <= s@.len(),
        spec_trim_end(s@) == s@.take(n as int),
        forall|j: int| n <= j < s@.len() ==> spec_is_whitespace(#[trigger] s@[j]),
        n > 0 ==> !spec_is_whitespace(s@[n - 1]),
{
    let mut n: usize = s.len();
    while n > 0 && is_whitespace(s[n - 1])
        invariant
            0 <= n <= s.len(),
            forall|j: int| n <= j < s@.len() ==> spec_is_whitespace(#[trigger] s@[j]),
        decreases n,
    {
        n -= 1;
    }
    proof {
        lemma_trim_end_take(s@, n as int);
        let t = s@.take(n as int);
        if t.len() > 0 {
            assert(t.last() == s@[n - 1]);
        }
    }
    n
}

/// `s` from its first character that is no white space.
pub fn trim_start<'a>(s: &'a [char]) -> (r: &'a [char])
    ensures
        r@ == spec_trim_start(s@),
{
    let n = leading_whitespace(s);
    vstd::slice::slice_subrange(s, n, s.len())
}

/// `s` up to its last character that is no white space.
pub fn trim_end<'a>(s: &'a [char]) -> (r: &'a [char])
    ensures
        r@ == spec_trim_end(s@),
{
    let n = trimmed_end(s);
    vstd::slice::slice_subrange(s, 0, n)
}

/// `s` without the white space at either end.
pub fn trim<'a>(s: &'a [char]) -> (r: &'a [char])
    ensures
        r@ == spec_trim(s@),
{
    trim_end(trim_start(s))
}

/// Whether `s` holds white space only.
pub fn is_blank(s: &[char]) -> (r: bool)
    ensures
        r == spec_is_blank(s@),
{
    let n = leading_whitespace(s);
    n == s.len()
}

/// The number of characters that `s` starts with before its first white space.
pub open spec fn spec_word_len(s: Seq<char>) -> nat
    decreases s.len(),
{
    if s.len() == 0 || spec_is_whitespace(s[0]) {
        0
    } else {
        1 + spec_word_len(s.skip(1))
    }
}

/// `spec_word_len` is the least index that holds white space.
pub proof fn lemma_word_len(s: Seq<char>)
    ensures
        spec_word_len(s) <= s.len(),
        forall|j: int| 0 <= j < spec_word_len(s) ==> !spec_is_whitespace(#[trigger] s[j]),
        spec_word_len(s) < s.len() ==> spec_is_whitespace(s[spec_word_len(s) as int]),
    decreases s.len(),
{
    if s.len() == 0 || spec_is_whitespace(s[0]) {
    } else {
        let t = s.skip(1);
        lemma_word_len(t);
        assert forall|j: int| 0 <= j < spec_word_len(s) implies !spec_is_whitespace(
            #[trigger] s[j],
        ) by {
            if j > 0 {
                assert(s[j] == t[j - 1]);
            }
        }
    }
}

/// An index before which `s` holds no white space, and which holds white space or ends `s`,
/// is `spec_word_len`.
pub proof fn lemma_word_len_is(s: Seq<char>, n: int)
    requires
        0 <= n <= s.len(),
        forall|j: int| 0 <= j < n ==> !spec_is_whitespace(#[trigger] s[j]),
        n < s.len() ==> spec_is_whitespace(s[n]),
    ensures
        spec_word_len(s) == n,
{
    lemma_word_len(s);
}

/// The words of `s`: its longest runs of characters that are not white space, in order.
pub open spec fn spec_split_whitespace(s: Seq<char>) -> Seq<Seq<char>>
    decreases s.len(),
{
    if s.len() == 0 {
        Seq::empty()
    } else if spec_is_whitespace(s[0]) {
        spec_split_whitespace(s.skip(1))
    } else {
        let n = spec_word_len(s);
        proof {
            lemma_word_len(s);
        }
        seq![s.take(n as int)] + spec_split_whitespace(s.skip(n as int))
    }
}

/// White space at the start of `s` adds no word.
pub proof fn lemma_split_whitespace_skip(s: Seq<char>, n: int)
    requires
        0 <= n <= s.len(),
        forall|j: int| 0 <= j < n ==> spec_is_whitespace(#[trigger] s[j]),
    ensures
        spec_split_whitespace(s) == spec_split_whitespace(s.skip(n)),
    decreases n,
{
    if n > 0 {
        let t = s.skip(1);
        assert forall|j: int| 0 <= j < n - 1 implies spec_is_whitespace(#[trigger] t[j]) by {
            assert(t[j] == s[j + 1]);
        }
        lemma_split_whitespace_skip(t, n - 1);
        assert(t.skip(n - 1) == s.skip(n));
    } else {
        assert(s.skip(0) == s);
    }
}

/// Cuts `s` into its words.
pub fn split_whitespace<'a>(s: &'a [char]) -> (r: Vec<&'a [char]>)
    ensures
        r@.len() == spec_split_whitespace(s@).len(),
        forall|k: int| 0 <= k < r@.len() ==> (#[trigger] r@[k])@ == spec_split_whitespace(s@)[k],
{
    let mut r: Vec<&'a [char]> = Vec::new();
    let mut rest: &'a [char] = s;
    let ghost mut done: Seq<Seq<char>> = Seq::empty();
    loop
        invariant_except_break
            spec_split_whitespace(s@) == done + spec_split_whitespace(rest@),
        invariant
            done.len() == r@.len(),
            forall|k: int| 0 <= k < r@.len() ==> (#[trigger] r@[k])@ == done[k],
        ensures
            spec_split_whitespace(s@) == done,
        decreases rest@.len(),
    {
        let ghost before = rest@;
        let skipped = leading_whitespace(rest);
        let word = vstd::slice::slice_subrange(rest, skipped, rest.len());
        proof {
            lemma_split_whitespace_skip(before, skipped as int);
        }
        if word.len() == 0 {
            proof {
                assert(done + Seq::<Seq<char>>::empty() == done);
            }
            break ;
        }
        let mut n: usize = 0;
        while n < word.len() && !is_whitespace(word[n])
            invariant
                0 <= n <= word.len(),
                forall|j: int| 0 <= j < n ==> !spec_is_whitespace(#[trigger] word@[j]),
            decreases word.len() - n,
        {
            n += 1;
        }
        let head = vstd::slice::slice_subrange(word, 0, n);
        let tail = vstd::slice::slice_subrange(word, n, word.len());
        proof {
            lemma_word_len_is(word@, n as int);
            assert(word@[0] == before[skipped as int]);
            assert(spec_split_whitespace(word@) == seq![head@] + spec_split_whitespace(tail@));
            assert(done + (seq![head@] + spec_split_whitespace(tail@)) == done.push(head@)
                + spec_split_whitespace(tail@));
            done = done.push(head@);
        }
        r.push(head);
        rest = tail;
    }
    r
}

/// The first place at which `p` stands in `s`, or the length of `s` where it stands nowhere.
pub open spec fn spec_find_str(s: Seq<char>, p: Seq<char>) -> int
    decreases s.len(),
{
    if s.len() == 0 || p.is_prefix_of(s) {
        0
    } else {
        1 + spec_find_str(s.skip(1), p)
    }
}

/// `spec_find_str` is the least place at which `p` stands.
pub proof fn lemma_find_str(s: Seq<char>, p: Seq<char>)
    ensures
        0 <= spec_find_str(s, p) <= s.len(),
        forall|j: int| 0 <= j < spec_find_str(s, p) ==> !p.is_prefix_of(#[trigger] s.skip(j)),
        spec_find_str(s, p) < s.len() ==> p.is_prefix_of(s.skip(spec_find_str(s, p))),
    decreases s.len(),
{
    if s.len() == 0 || p.is_prefix_of(s) {
        assert(s.skip(0) == s);
    } else {
        let t = s.skip(1);
        lemma_find_str(t, p);
        assert forall|j: int| 0 <= j < spec_find_str(s, p) implies !p.is_prefix_of(
            #[trigger] s.skip(j),
        ) by {
            if j > 0 {
                assert(s.skip(j) == t.skip(j - 1));
            } else {
                assert(s.skip(0) == s);
            }
        }
        assert(s.skip(spec_find_str(s, p)) == t.skip(spec_find_str(t, p)));
    }
}

/// A place before which `p` stands nowhere, and at which it stands or `s` ends, is
/// `spec_find_str`.
pub proof fn lemma_find_str_is(s: Seq<char>, p: Seq<char>, i: int)
    requires
        0 <= i <= s.len(),
        forall|j: int| 0 <= j < i ==> !p.is_prefix_of(#[trigger] s.skip(j)),
        i < s.len() ==> p.is_prefix_of(s.skip(i)),
    ensures
        spec_find_str(s, p) == i,
{
    lemma_find_str(s, p);
}

/// Whether `s` begins with `p`.
pub fn starts_with(s: &[char], p: &[char]) -> (r: bool)
    ensures
        r == p@.is_prefix_of(s@),
{
    if p.len() > s.len() {
        return false;
    }
    let mut i: usize = 0;
    while i < p.len()
        invariant
            0 <= i <= p.len() <= s.len(),
            forall|j: int| 0 <= j < i ==> p@[j] == s@[j],
        decreases p.len() - i,
    {
        if p[i] != s[i] {
            proof {
                assert(s@.subrange(0, p@.len() as int)[i as int] == s@[i as int]);
            }
            return false;
        }
        i += 1;
    }
    proof {
        assert(p@ =~= s@.subrange(0, p@.len() as int));
    }
    true
}

/// Whether `a` and `b` hold the same characters.
pub fn equal(a: &[char], b: &[char]) -> (r: bool)
    ensures
        r == (a@ == b@),
{
    if a.len() != b.len() {
        return false;
    }
    let r = starts_with(a, b);
    proof {
        assert(a@.subrange(0, b@.len() as int) == a@);
    }
    r
}

/// Finds the first place at which `p` stands in `s`.
pub fn find_str(s: &[char], p: &[char]) -> (i: usize)
    ensures
        i == spec_find_str(s@, p@),
{
    let mut i: usize = 0;
    while i < s.len()
        invariant
            0 <= i <= s.len(),
            forall|j: int| 0 <= j < i ==> !p@.is_prefix_of(#[trigger] s@.skip(j)),
        ensures
            0 <= i <= s.len(),
            forall|j: int| 0 <= j < i ==> !p@.is_prefix_of(#[trigger] s@.skip(j)),
            i < s.len() ==> p@.is_prefix_of(s@.skip(i as int)),
        decreases s.len() - i,
    {
        let here = vstd::slice::slice_subrange(s, i, s.len());
        if starts_with(here, p) {
            break ;
        }
        i += 1;
    }
    proof {
        lemma_find_str_is(s@, p@, i as int);
    }
    i
}

/// `s` cut at the first place where `p` stands: what is before `p` and what is after it.
pub open spec fn spec_split_once_str(s: Seq<char>, p: Seq<char>) -> Option<
    (Seq<char>, Seq<char>),
> {
    let i = spec_find_str(s, p);
    if p.is_prefix_of(s.skip(i)) {
        Some((s.take(i), s.skip(i + p.len())))
    } else {
        None
    }
}

/// Cuts `s` at the first place where `p` stands.
pub fn split_once_str<'a>(s: &'a [char], p: &[char]) -> (r: Option<(&'a [char], &'a [char])>)
    ensures
        match r {
            Some((head, tail)) => spec_split_once_str(s@, p@) == Some((head@, tail@)),
            None => spec_split_once_str(s@, p@).is_none(),
        },
{
    let i = find_str(s, p);
    proof {
        lemma_find_str(s@, p@);
    }
    let here = vstd::slice::slice_subrange(s, i, s.len());
    if starts_with(here, p) {
        let head = vstd::slice::slice_subrange(s, 0, i);
        let tail = vstd::slice::slice_subrange(s, i + p.len(), s.len());
        Some((head, tail))
    } else {
        None
    }
}

/// The value of the decimal digit `c`.
pub open spec fn spec_digit(c: char) -> Option<nat> {
    if '0' <= c <= '9' {
        Some((c as int - '0' as int) as nat)
    } else {
        None
    }
}

/// The value of `c` as a decimal digit.
pub fn digit(c: char) -> (r: Option<u8>)
    ensures
        match r {
            Some(d) => spec_digit(c) == Some(d as nat) && d < 10,
            None => spec_digit(c).is_none(),
        },
{
    match c {
        '0' => Some(0),
        '1' => Some(1),
        '2' => Some(2),
        '3' => Some(3),
        '4' => Some(4),
        '5' => Some(5),
        '6' => Some(6),
        '7' => Some(7),
        '8' => Some(8),
        '9' => Some(9),
        _ => None,
    }
}

/// The number that `s` writes in decimal digits, if `s` is one digit or more and nothing else.
pub open spec fn spec_decimal_value(s: Seq<char>) -> Option<nat>
    decreases s.len(),
{
    if s.len() == 0 {
        None
    } else if s.len() == 1 {
        spec_digit(s[0])
    } else {
        match (spec_decimal_value(s.drop_last()), spec_digit(s.last())) {
            (Some(v), Some(d)) => Some(v * 10 + d),
            _ => None,
        }
    }
}

/// The number that `s` writes, as `str::parse` reads an unsigned integer with the largest
/// value `max`: an optional `+`, then decimal digits, and nothing else.
pub open spec fn spec_parse_unsigned(s: Seq<char>, max: nat) -> Option<nat> {
    let digits = if s.len() > 0 && s[0] == '+' {
        s.skip(1)
    } else {
        s
    };
    match spec_decimal_value(digits) {
        Some(v) => if v <= max {
            Some(v)
        } else {
            None
        },
        None => None,
    }
}

/// Digits that write a number still do so when the last ones are dropped, and the number
/// they write then is no larger.
pub proof fn lemma_decimal_value_prefix(s: Seq<char>, n: int)
    requires
        1 <= n <= s.len(),
        spec_decimal_value(s).is_some(),
    ensures
        spec_decimal_value(s.take(n)).is_some(),
        spec_decimal_value(s.take(n)).unwrap() <= spec_decimal_value(s).unwrap(),
    decreases s.len(),
{
    if n == s.len() {
        assert(s.take(n) == s);
    } else {
        lemma_decimal_value_prefix(s.drop_last(), n);
        assert(s.drop_last().take(n) == s.take(n));
    }
}

/// Reads `s` as an unsigned decimal number that is no larger than `max`.
pub fn parse_unsigned(s: &[char], max: u64) -> (r: Option<u64>)
    ensures
        match r {
            Some(v) => spec_parse_unsigned(s@, max as nat) == Some(v as nat),
            None => spec_parse_unsigned(s@, max as nat).is_none(),
        },
{
    let digits = if s.len() > 0 && s[0] == '+' {
        vstd::slice::slice_subrange(s, 1, s.len())
    } else {
        s
    };
    if digits.len() == 0 {
        return None;
    }
    let mut value: u64 = 0;
    let mut i: usize = 0;
    while i < digits.len()
        invariant
            0 <= i <= digits.len(),
            value <= max,
            i > 0 ==> spec_decimal_value(digits@.take(i as int)) == Some(value as nat),
            i == 0 ==> value == 0,
            digits@ == if s@.len() > 0 && s@[0] == '+' {
                s@.skip(1)
            } else {
                s@
            },
        decreases digits.len() - i,
    {
        let ghost prefix = digits@.take(i + 1);
        proof {
            assert(prefix.drop_last() == digits@.take(i as int));
            assert(prefix.last() == digits@[i as int]);
            if spec_decimal_value(digits@).is_some() {
                lemma_decimal_value_prefix(digits@, i + 1);
            }
        }
        match digit(digits[i]) {
            None => {
                return None;
            },
            Some(d) => {
                if d as u64 > max || value > (max - d as u64) / 10 {
                    return None;
                }
                value = value * 10 + d as u64;
            },
        }
        i += 1;
    }
    proof {
        assert(digits@.take(i as int) == digits@);
    }
    Some(value)
}

/// The character that writes the digit `d`.
pub open spec fn spec_digit_char(d: nat) -> char {
    ('0' as int + d) as char
}

/// The character that writes the digit `d`.
pub fn digit_char(d: u8) -> (c: char)
    requires
        d < 10,
    ensures
        c == spec_digit_char(d as nat),
        spec_digit(c) == Some(d as nat),
{
    match d {
        0 => '0',
        1 => '1',
        2 => '2',
        3 => '3',
        4 => '4',
        5 => '5',
        6 => '6',
        7 => '7',
        8 => '8',
        _ => '9',
    }
}

/// `n` written in decimal digits, without leading zeros.
pub open spec fn spec_decimal(n: nat) -> Seq<char>
    decreases n,
{
    if n < 10 {
        seq![spec_digit_char(n)]
    } else {
        spec_decimal(n / 10).push(spec_digit_char(n % 10))
    }
}

/// Reading what `spec_decimal` wrote gives the number back.
pub proof fn lemma_decimal_round_trip(n: nat)
    ensures
        spec_decimal(n).len() >= 1,
        spec_decimal(n)[0] != '+',
        spec_decimal_value(spec_decimal(n)) == Some(n),
        forall|max: nat|
            n <= max ==> #[trigger] spec_parse_unsigned(spec_decimal(n), max) == Some(n),
    decreases n,
{
    if n < 10 {
    } else {
        lemma_decimal_round_trip(n / 10);
        let s = spec_decimal(n);
        assert(s.drop_last() == spec_decimal(n / 10));
        assert(s[0] == spec_decimal(n / 10)[0]);
    }
}

/// Appends `n` in decimal digits to `out`.
pub fn push_decimal(out: &mut String, n: u64)
    ensures
        final(out)@ == old(out)@ + spec_decimal(n as nat),
    decreases n,
{
    if n >= 10 {
        push_decimal(out, n / 10);
    }
    let ghost mid = out@;
    out.push(digit_char((n % 10) as u8));
    proof {
        if n >= 10 {
            assert(mid.push(spec_digit_char((n % 10) as nat)) == old(out)@ + spec_decimal(
                n as nat,
            ));
        } else {
            assert(mid.push(spec_digit_char(n as nat)) == old(out)@ + spec_decimal(n as nat));
        }
    }
}

/// `spec_decimal` writes decimal digits only.
pub proof fn lemma_decimal_digits(n: nat)
    ensures
        forall|i: int|
            0 <= i < spec_decimal(n).len() ==> '0' <= #[trigger] spec_decimal(n)[i] <= '9',
    decreases n,
{
    let digits = spec_decimal(n);
    if n >= 10 {
        lemma_decimal_digits(n / 10);
        let front = spec_decimal(n / 10);
        assert forall|i: int| 0 <= i < digits.len() implies '0' <= #[trigger] digits[i] <= '9' by {
            if i < front.len() {
                assert(digits[i] == front[i]);
            } else {
                assert(digits[i] == spec_digit_char(n % 10));
            }
        }
    } else {
        assert(digits[0] == spec_digit_char(n));
    }
}

/// Text that starts with a character that is no white space is its own `spec_trim_start`.
pub proof fn lemma_trim_start_none(s: Seq<char>)
    requires
        s.len() > 0,
        !spec_is_whitespace(s[0]),
    ensures
        spec_trim_start(s) == s,
{
}

/// `spec_trim_end` keeps a character that is no white space, and all before it.
pub proof fn lemma_trim_end_keeps(s: Seq<char>, k: int)
    requires
        0 < k <= s.len(),
        !spec_is_whitespace(s[k - 1]),
    ensures
        k <= spec_trim_end(s).len() <= s.len(),
        spec_trim_end(s) == s.take(spec_trim_end(s).len() as int),
    decreases s.len(),
{
    if spec_is_whitespace(s.last()) {
        let t = s.drop_last();
        lemma_trim_end_keeps(t, k);
        assert(t.take(spec_trim_end(t).len() as int) == s.take(spec_trim_end(t).len() as int));
    } else {
        assert(s.take(s.len() as int) == s);
    }
}

/// What `spec_trim` leaves of text that starts with a character that is no white space: the
/// text up to some place behind its last such character.
pub proof fn lemma_trim_keeps(s: Seq<char>, k: int)
    requires
        0 < k <= s.len(),
        !spec_is_whitespace(s[0]),
        !spec_is_whitespace(s[k - 1]),
    ensures
        k <= spec_trim(s).len() <= s.len(),
        spec_trim(s) == s.take(spec_trim(s).len() as int),
{
    lemma_trim_start_none(s);
    lemma_trim_end_keeps(s, k);
}

/// Text that is not empty and has no white space at either end is its own `spec_trim`.
pub proof fn lemma_trim_none(s: Seq<char>)
    requires
        s.len() > 0,
        !spec_is_whitespace(s[0]),
        !spec_is_whitespace(s.last()),
    ensures
        spec_trim(s) == s,
{
}

/// The first word of text that starts with `word`, which holds no white space, and goes on
/// with white space or ends there, is `word`.
pub proof fn lemma_first_word(s: Seq<char>, word: Seq<char>)
    requires
        word.len() > 0,
        word.is_prefix_of(s),
        forall|i: int| 0 <= i < word.len() ==> !spec_is_whitespace(#[trigger] word[i]),
        word.len() < s.len() ==> spec_is_whitespace(s[word.len() as int]),
    ensures
        spec_split_whitespace(s) == seq![word] + spec_split_whitespace(s.skip(word.len() as int)),
{
    let n = word.len() as int;
    assert forall|j: int| 0 <= j < n implies !spec_is_whitespace(#[trigger] s[j]) by {
        assert(s[j] == word[j]);
    }
    lemma_word_len_is(s, n);
    assert(s.take(n) =~= word);
}

} // verus!
