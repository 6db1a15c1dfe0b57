//! Character sequences: searching, slicing and global replacement.

use vstd::prelude::*;

verus! {

/// `pat` stands in `s` at index `i`.
pub open spec fn occurs_at(s: Seq<char>, pat: Seq<char>, i: int) -> bool {
    0 <= i && i + pat.len() <= s.len() && s.subrange(i, i + pat.len()) == pat
}

/// `pat` stands somewhere in `s`.
pub open spec fn occurs_in(s: Seq<char>, pat: Seq<char>) -> bool {
    exists|i: int| occurs_at(s, pat, i)
}

/// The first index at which `a` stands in `s` is `k`, where `a` stands at
/// `k` and nowhere before it.
pub proof fn lemma_first_index<A>(s: Seq<A>, a: A, k: int)
    requires
        0 <= k < s.len(),
        s[k] == a,
        forall|j: int| 0 <= j < k ==> s[j] != a,
    ensures
        s.index_of_first(a) == Some(k),
{
    s.index_of_first_ensures(a);
    assert(s.contains(a));
}

/// There is no first index of `a` in `s` where `a` stands nowhere in it.
pub proof fn lemma_no_index<A>(s: Seq<A>, a: A)
    requires
        forall|j: int| 0 <= j < s.len() ==> s[j] != a,
    ensures
        s.index_of_first(a) is None,
{
    s.index_of_first_ensures(a);
}

/// The characters of `s`, in a vector.
pub fn to_chars(s: &str) -> (chars: Vec<char>)
    ensures
        chars@ == s@,
{
    let mut chars: Vec<char> = Vec::new();
    for c in it: s.chars()
        invariant
            chars@ == it.history(),
            it.seq() == s@,
    {
        chars.push(c);
    }
    chars
}

/// Whether `pat` stands in `s` at index `i`.
pub fn matches_at(s: &Vec<char>, pat: &Vec<char>, i: usize) -> (found: bool)
    ensures
        found == occurs_at(s@, pat@, i as int),
{
    if pat.len() > s.len() || i > s.len() - pat.len() {
        return false;
    }
    let mut k: usize = 0;
    while k < pat.len()
        invariant
            k <= pat.len(),
            i + pat.len() <= s.len(),
            forall|j: int| 0 <= j < k ==> s@[i + j] == pat@[j],
        decreases pat.len() - k,
    {
        if s[i + k] != pat[k] {
            assert(s@.subrange(i as int, i + pat.len())[k as int] == s@[i + k]);
            return false;
        }
        k += 1;
    }
    assert(s@.subrange(i as int, i + pat.len()) =~= pat@);
    true
}

/// Whether `pat` stands somewhere in `s`.
pub fn contains(s: &str, pat: &str) -> (found: bool)
    ensures
        found == occurs_in(s@, pat@),
{
    let chars = to_chars(s);
    let p = to_chars(pat);
    if p.len() == 0 {
        assert(s@.subrange(0, 0) == pat@);
        assert(occurs_at(s@, pat@, 0));
        return true;
    }
    if p.len() > chars.len() {
        return false;
    }
    let last = chars.len() - p.len();
    let mut i: usize = 0;
    while i <= last
        invariant
            i <= last + 1,
            last + p@.len() == chars@.len(),
            last < usize::MAX,
            chars@ == s@,
            p@ == pat@,
            forall|j: int| 0 <= j < i ==> !occurs_at(s@, pat@, j),
        decreases last + 1 - i,
    {
        if matches_at(&chars, &p, i) {
            return true;
        }
        i += 1;
    }
    false
}

/// The first index from `from` on at which `c` stands in `s`, or the length
/// of `s` where `c` stands nowhere from `from` on.
pub fn find_char(s: &Vec<char>, c: char, from: usize) -> (at: usize)
    requires
        from <= s@.len(),
    ensures
        from <= at <= s@.len(),
        match s@.skip(from as int).index_of_first(c) {
            Some(k) => at == from + k && at < s@.len(),
            None => at == s@.len(),
        },
{
    let ghost rest = s@.skip(from as int);
    let mut i: usize = from;
    while i < s.len()
        invariant
            from <= i <= s@.len(),
            rest == s@.skip(from as int),
            forall|j: int| 0 <= j < i - from ==> rest[j] != c,
        decreases s@.len() - i,
    {
        if s[i] == c {
            proof {
                lemma_first_index(rest, c, i - from);
            }
            return i;
        }
        i += 1;
    }
    proof {
        lemma_no_index(rest, c);
    }
    i
}

/// `s` with every occurrence of `pat` replaced by `to`: the occurrences are
/// taken from left to right and do not overlap, and what was put in is not
/// searched again. An empty `pat` stands before every character and at the
/// end.
pub open spec fn replace_all(s: Seq<char>, pat: Seq<char>, to: Seq<char>) -> Seq<char>
    decreases s.len(),
{
    if pat.len() == 0 {
        if s.len() == 0 {
            to
        } else {
            to + s.take(1) + replace_all(s.skip(1), pat, to)
        }
    } else if s.len() < pat.len() {
        s
    } else if s.take(pat.len() as int) == pat {
        to + replace_all(s.skip(pat.len() as int), pat, to)
    } else {
        s.take(1) + replace_all(s.skip(1), pat, to)
    }
}

/// The characters of `s` from index `start` on, at most `len` of them.
pub open spec fn substring_of(s: Seq<char>, start: int, len: int) -> Seq<char> {
    let from = if start < s.len() { start } else { s.len() as int };
    let to = if from + len < s.len() { from + len } else { s.len() as int };
    s.subrange(from, to)
}

/// The characters of `s` from index `start` on, at most `len` of them, as a
/// new string. Indices count characters, not bytes.
pub fn substring(s: &str, start: usize, len: usize) -> (out: String)
    ensures
        out@ == substring_of(s@, start as int, len as int),
{
    let n = s.unicode_len();
    let from = if start < n { start } else { n };
    let to = if len < n - from { from + len } else { n };
    s.substring_char(from, to).to_owned()
}

/// `text` with every occurrence of `pat` replaced by `to`.
pub fn replace(text: &str, pat: &str, to: &str) -> (out: String)
    ensures
        out@ == replace_all(text@, pat@, to@),
{
    let s = to_chars(text);
    let p = to_chars(pat);
    let n = s.len();
    let m = p.len();
    let mut out = String::new();
    assert(s@.skip(0) == s@);
    assert(out@ + replace_all(s@, p@, to@) == replace_all(s@, p@, to@));
    if m == 0 {
        let mut i: usize = 0;
        while i < n
            invariant
                i <= n,
                n == s@.len(),
                s@ == text@,
                p@ == pat@,
                p@.len() == 0,
                replace_all(s@, p@, to@) == out@ + replace_all(s@.skip(i as int), p@, to@),
            decreases n - i,
        {
            let ghost rest = s@.skip(i as int);
            assert(rest.take(1) == s@.subrange(i as int, i + 1));
            assert(rest.skip(1) == s@.skip(i + 1));
            out.append(to);
            out.append(text.substring_char(i, i + 1));
            i += 1;
        }
        out.append(to);
        return out;
    }
    let mut i: usize = 0;
    let mut start: usize = 0;
    assert(out@ + s@.subrange(0, 0) == out@);
    while i < n && m <= n - i
        invariant
            start <= i <= n,
            n == s@.len(),
            m == p@.len(),
            m > 0,
            s@ == text@,
            p@ == pat@,
            replace_all(s@, p@, to@) == out@ + s@.subrange(start as int, i as int) + replace_all(
                s@.skip(i as int),
                p@,
                to@,
            ),
        decreases n - i,
    {
        let ghost rest = s@.skip(i as int);
        assert(rest.take(m as int) == s@.subrange(i as int, i + m));
        if matches_at(&s, &p, i) {
            assert(rest.skip(m as int) == s@.skip(i + m));
            out.append(text.substring_char(start, i));
            out.append(to);
            i += m;
            start = i;
            assert(s@.subrange(start as int, i as int) == Seq::<char>::empty());
        } else {
            assert(rest.skip(1) == s@.skip(i + 1));
            assert(s@.subrange(start as int, i as int) + rest.take(1) == s@.subrange(
                start as int,
                i + 1,
            ));
            i += 1;
        }
    }
    assert(s@.subrange(start as int, i as int) + s@.skip(i as int) == s@.subrange(
        start as int,
        n as int,
    ));
    out.append(text.substring_char(start, n));
    out
}

} // verus!
