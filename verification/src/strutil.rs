//! Verified helpers for character-level work on strings: search, equality,
//! prefix tests, and splitting text into its non-empty lines.
use vstd::prelude::*;

verus! {

/// Index of the first occurrence of `c` in `s` at or after position `i`,
/// or `s.len()` when there is none.
pub open spec fn first_at(s: Seq<char>, c: char, i: int) -> int
    recommends
        0 <= i <= s.len(),
    decreases s.len() - i,
{
    if i < 0 || i >= s.len() {
        s.len() as int
    } else if s[i] == c {
        i
    } else {
        first_at(s, c, i + 1)
    }
}

/// `first_at` lies between `i` and `s.len()`, points at `c` when it is not
/// `s.len()`, and nothing before it (from `i` on) is `c`.
pub proof fn lemma_first_at(s: Seq<char>, c: char, i: int)
    requires
        0 <= i <= s.len(),
    ensures
        i <= first_at(s, c, i) <= s.len(),
        first_at(s, c, i) < s.len() ==> s[first_at(s, c, i)] == c,
        forall|m: int| i <= m < first_at(s, c, i) ==> s[m] != c,
    decreases s.len() - i,
{
    if i < s.len() && s[i] != c {
        lemma_first_at(s, c, i + 1);
    }
}

/// Any position that holds `c`, with no `c` between `i` and it, is exactly
/// where `first_at` lands.
pub proof fn lemma_first_at_is(s: Seq<char>, c: char, i: int, p: int)
    requires
        0 <= i <= p < s.len(),
        s[p] == c,
        forall|m: int| i <= m < p ==> s[m] != c,
    ensures
        first_at(s, c, i) == p,
    decreases p - i,
{
    if i < p {
        lemma_first_at_is(s, c, i + 1, p);
    }
}

/// Searching a suffix finds the same character, shifted by the cut point.
pub proof fn lemma_first_at_skip(s: Seq<char>, c: char, i: int, j: int)
    requires
        0 <= i <= j <= s.len(),
    ensures
        first_at(s.subrange(i, s.len() as int), c, j - i) == first_at(s, c, j) - i,
    decreases s.len() - j,
{
    if j < s.len() && s[j] != c {
        lemma_first_at_skip(s, c, i, j + 1);
    }
}

/// First index of `c` in `s` at or after `from`, or the length when absent.
pub fn find_char(s: &str, from: usize, c: char) -> (r: usize)
    requires
        from <= s@.len(),
    ensures
        r == first_at(s@, c, from as int),
        from <= r <= s@.len(),
        r < s@.len() ==> s@[r as int] == c,
        forall|m: int| from <= m < r ==> s@[m] != c,
{
    let n = s.unicode_len();
    let mut j = from;
    while j < n
        invariant
            from <= j <= n,
            n == s@.len(),
            first_at(s@, c, from as int) == first_at(s@, c, j as int),
            forall|m: int| from <= m < j ==> s@[m] != c,
        decreases n - j,
    {
        if s.get_char(j) == c {
            proof {
                lemma_first_at(s@, c, j as int);
            }
            return j;
        }
        j = j + 1;
    }
    j
}

/// Character-for-character string equality.
pub fn str_eq(a: &str, b: &str) -> (r: bool)
    ensures
        r == (a@ == b@),
{
    let na = a.unicode_len();
    let nb = b.unicode_len();
    if na != nb {
        return false;
    }
    let mut i: usize = 0;
    while i < na
        invariant
            0 <= i <= na,
            na == a@.len(),
            na == b@.len(),
            forall|m: int| 0 <= m < i ==> a@[m] == b@[m],
        decreases na - i,
    {
        if a.get_char(i) != b.get_char(i) {
            return false;
        }
        i = i + 1;
    }
    proof {
        assert(a@ =~= b@);
    }
    true
}

/// Does `s` begin with `prefix`, character for character?
pub fn str_starts_with(s: &str, prefix: &str) -> (r: bool)
    ensures
        r == prefix@.is_prefix_of(s@),
{
    let np = prefix.unicode_len();
    let ns = s.unicode_len();
    if np > ns {
        return false;
    }
    let mut i: usize = 0;
    while i < np
        invariant
            0 <= i <= np,
            np == prefix@.len(),
            ns == s@.len(),
            np <= ns,
            forall|m: int| 0 <= m < i ==> s@[m] == prefix@[m],
        decreases np - i,
    {
        if s.get_char(i) != prefix.get_char(i) {
            assert(!prefix@.is_prefix_of(s@)) by {
                assert(s@.subrange(0, np as int)[i as int] != prefix@[i as int]);
            }
            return false;
        }
        i = i + 1;
    }
    proof {
        assert(prefix@ =~= s@.subrange(0, np as int));
    }
    true
}

/// Whether some element of `v` reads exactly `s`.
pub fn contains_string(v: &Vec<String>, s: &str) -> (r: bool)
    ensures
        r == v.deep_view().contains(s@),
{
    let n = v.len();
    let mut i: usize = 0;
    while i < n
        invariant
            0 <= i <= n,
            n == v@.len(),
            forall|m: int| 0 <= m < i ==> v.deep_view()[m] != s@,
        decreases n - i,
    {
        if str_eq(v[i].as_str(), s) {
            assert(v.deep_view()[i as int] == s@);
            return true;
        }
        i = i + 1;
    }
    false
}

/// An element-by-element copy of a vector of strings.
pub fn clone_strings(v: &Vec<String>) -> (r: Vec<String>)
    ensures
        r@ == v@,
{
    let mut out: Vec<String> = Vec::new();
    let n = v.len();
    let mut i: usize = 0;
    while i < n
        invariant
            0 <= i <= n,
            n == v@.len(),
            out@ == v@.subrange(0, i as int),
        decreases n - i,
    {
        out.push(v[i].clone());
        proof {
            assert(out@ =~= v@.subrange(0, i as int + 1));
        }
        i = i + 1;
    }
    proof {
        assert(out@ =~= v@);
    }
    out
}

/// Relies on std's `String::push`: appends the given character to the end
/// of the string.
#[verifier::external_body]
pub fn push_char(s: &mut String, c: char)
    ensures
        final(s)@ == old(s)@.push(c),
{
    s.push(c);
}

/// A line with one trailing carriage return removed, as `str::lines` does.
pub open spec fn strip_cr(l: Seq<char>) -> Seq<char> {
    if l.len() > 0 && l[l.len() - 1] == '\r' {
        l.drop_last()
    } else {
        l
    }
}

/// The non-empty lines of `s` from position `i` on: text is cut at every
/// newline, each piece loses one trailing carriage return, and empty pieces
/// are dropped.
pub open spec fn ne_lines_from(s: Seq<char>, i: int) -> Seq<Seq<char>>
    recommends
        0 <= i <= s.len(),
    decreases s.len() - i,
        when 0 <= i <= s.len()
        via ne_lines_from_decreases
{
    if i >= s.len() {
        Seq::empty()
    } else {
        let j = first_at(s, '\n', i);
        let seg = strip_cr(s.subrange(i, j));
        let rest = if j >= s.len() {
            Seq::<Seq<char>>::empty()
        } else {
            ne_lines_from(s, j + 1)
        };
        if seg.len() == 0 {
            rest
        } else {
            seq![seg] + rest
        }
    }
}

#[via_fn]
proof fn ne_lines_from_decreases(s: Seq<char>, i: int) {
    lemma_first_at(s, '\n', i);
}

/// The non-empty lines of the whole of `s`.
pub open spec fn ne_lines(s: Seq<char>) -> Seq<Seq<char>> {
    ne_lines_from(s, 0)
}

/// Splitting a suffix yields the same lines as splitting from that position.
pub proof fn lemma_ne_lines_skip(s: Seq<char>, i: int)
    requires
        0 <= i <= s.len(),
    ensures
        ne_lines_from(s, i) == ne_lines(s.subrange(i, s.len() as int)),
    decreases s.len() - i,
{
    let t = s.subrange(i, s.len() as int);
    if i >= s.len() {
        assert(t.len() == 0);
    } else {
        let j = first_at(s, '\n', i);
        lemma_first_at(s, '\n', i);
        lemma_first_at_skip(s, '\n', i, i);
        assert(first_at(t, '\n', 0) == j - i);
        assert(t.subrange(0, j - i) =~= s.subrange(i, j));
        if j < s.len() {
            lemma_ne_lines_skip(s, j + 1);
            lemma_first_at_skip(s, '\n', i, j + 1);
            assert(t.subrange(j - i + 1, t.len() as int) =~= s.subrange(
                j + 1,
                s.len() as int,
            ));
            lemma_ne_lines_skip(t, j - i + 1);
        }
    }
}

/// The non-empty lines of `s`, in order.
pub fn split_nonempty_lines(s: &str) -> (r: Vec<String>)
    ensures
        r.deep_view() == ne_lines(s@),
{
    let n = s.unicode_len();
    let mut out: Vec<String> = Vec::new();
    let mut i: usize = 0;
    proof {
        assert(out.deep_view() + ne_lines_from(s@, 0) =~= ne_lines(s@));
    }
    while i < n
        invariant
            i <= n,
            n == s@.len(),
            ne_lines(s@) == out.deep_view() + ne_lines_from(s@, i as int),
        decreases n - i,
    {
        let ghost prev = out.deep_view();
        let j = find_char(s, i, '\n');
        let mut seg_end = j;
        if j > i && s.get_char(j - 1) == '\r' {
            seg_end = j - 1;
        }
        let ghost seg = strip_cr(s@.subrange(i as int, j as int));
        proof {
            if j > i && s@[j as int - 1] == '\r' {
                assert(s@.subrange(i as int, j as int).drop_last() =~= s@.subrange(
                    i as int,
                    j as int - 1,
                ));
            }
            assert(seg =~= s@.subrange(i as int, seg_end as int));
        }
        if seg_end > i {
            let piece = s.substring_char(i, seg_end).to_owned();
            out.push(piece);
            proof {
                assert(out.deep_view() =~= prev + seq![seg]);
            }
        }
        proof {
            let rest: Seq<Seq<char>> = if j as int >= s@.len() {
                Seq::empty()
            } else {
                ne_lines_from(s@, j as int + 1)
            };
            assert(ne_lines_from(s@, i as int) == if seg.len() == 0 {
                rest
            } else {
                seq![seg] + rest
            });
            if seg.len() == 0 {
                assert(out.deep_view() + rest =~= prev + rest);
            } else {
                assert(out.deep_view() + rest =~= prev + (seq![seg] + rest));
            }
        }
        if j == n {
            i = n;
        } else {
            i = j + 1;
        }
    }
    proof {
        assert(out.deep_view() + ne_lines_from(s@, n as int) =~= out.deep_view());
    }
    out
}

} // verus!
