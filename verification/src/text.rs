//! Character scanning, and the newline-delimited text format of the tagline
//! cache file.
//!
//! The cache file holds one normalized tagline per line, joined with a
//! single newline and no trailing one. `join_lines` produces the file text
//! written at a flush; `split_lines` reads it back; the round-trip law says
//! the lines survive the trip whenever none of them contains a newline.

use vstd::prelude::*;
use vstd::string::StrSliceExecFns;
use vstd::string::StringExecFns;
use crate::normalizer::lines_view;

verus! {

/// Length of the prefix of `s` before the first occurrence of `c`: the
/// index of that occurrence, or the whole length when `s` has none.
pub open spec fn first_pos(s: Seq<char>, c: char) -> int
    decreases s.len(),
{
    if s.len() == 0 {
        0
    } else if s[0] == c {
        0
    } else {
        1 + first_pos(s.skip(1), c)
    }
}

/// `first_pos` is in range, everything before it differs from `c`, and the
/// character at it — when inside — is `c`.
pub proof fn lemma_first_pos(s: Seq<char>, c: char)
    ensures
        0 <= first_pos(s, c) <= s.len(),
        forall|j: int| 0 <= j < first_pos(s, c) ==> s[j] != c,
        first_pos(s, c) < s.len() ==> s[first_pos(s, c)] == c,
    decreases s.len(),
{
    if s.len() == 0 {
    } else if s[0] == c {
    } else {
        lemma_first_pos(s.skip(1), c);
        assert forall|j: int| 0 <= j < first_pos(s, c) implies s[j] != c by {
            if j > 0 {
                assert(s.skip(1)[j - 1] == s[j]);
            }
        }
        if first_pos(s, c) < s.len() {
            assert(s.skip(1)[first_pos(s.skip(1), c)] == s[first_pos(s, c)]);
        }
    }
}

/// Any position with no `c` before it that either sits on a `c` or at the
/// end is `first_pos`.
pub proof fn lemma_first_pos_unique(s: Seq<char>, c: char, i: int)
    requires
        0 <= i <= s.len(),
        forall|j: int| 0 <= j < i ==> s[j] != c,
        i < s.len() ==> s[i] == c,
    ensures
        first_pos(s, c) == i,
    decreases s.len(),
{
    if s.len() == 0 {
    } else if i == 0 {
        lemma_first_pos(s, c);
    } else {
        assert forall|j: int| 0 <= j < i - 1 implies s.skip(1)[j] != c by {
            assert(s.skip(1)[j] == s[j + 1]);
        }
        if i < s.len() {
            assert(s.skip(1)[i - 1] == s[i]);
        }
        lemma_first_pos_unique(s.skip(1), c, i - 1);
    }
}

/// Scans `s` from position `from` for the first occurrence of `c`: returns
/// its index, or the length of `s` when the rest holds none.
pub fn find_from(s: &str, from: usize, c: char) -> (i: usize)
    requires
        from <= s@.len(),
    ensures
        from <= i <= s@.len(),
        i - from == first_pos(s@.skip(from as int), c),
{
    let n = s.unicode_len();
    let mut i = from;
    let mut found = false;
    while i < n && !found
        invariant
            from <= i <= n,
            n == s@.len(),
            forall|j: int| from <= j < i ==> s@[j] != c,
            found ==> i < n && s@[i as int] == c,
        decreases n - i, (if found {
            0int
        } else {
            1int
        }),
    {
        if s.get_char(i) == c {
            found = true;
        } else {
            i += 1;
        }
    }
    proof {
        let t = s@.skip(from as int);
        assert forall|j: int| 0 <= j < i - from implies t[j] != c by {
            assert(t[j] == s@[j + from]);
        }
        if i < n {
            assert(t[i - from] == s@[i as int]);
        }
        lemma_first_pos_unique(t, c, i - from);
    }
    i
}

/// The cache file text of a list of lines: the lines joined with a single
/// newline, with no trailing one; no lines give the empty text.
pub open spec fn join_view(ls: Seq<Seq<char>>) -> Seq<char>
    decreases ls.len(),
{
    if ls.len() == 0 {
        Seq::empty()
    } else if ls.len() == 1 {
        ls[0]
    } else {
        ls[0] + seq!['\n'] + join_view(ls.skip(1))
    }
}

/// The segments of `s` between its newlines, every separator counted; a
/// non-empty text with `k` newlines has `k + 1` segments.
pub open spec fn split_rec(s: Seq<char>) -> Seq<Seq<char>>
    decreases s.len(),
    via split_rec_decreases
{
    if first_pos(s, '\n') == s.len() {
        seq![s]
    } else {
        seq![s.take(first_pos(s, '\n'))] + split_rec(s.skip(first_pos(s, '\n') + 1))
    }
}

#[via_fn]
proof fn split_rec_decreases(s: Seq<char>) {
    lemma_first_pos(s, '\n');
}

/// The lines read from a cache file text: none for the empty text (an
/// absent or fresh cache), else its newline-separated segments.
pub open spec fn split_view(s: Seq<char>) -> Seq<Seq<char>> {
    if s.len() == 0 {
        Seq::empty()
    } else {
        split_rec(s)
    }
}

/// Appending one more line extends the joined text by a newline and that
/// line.
pub proof fn lemma_join_push(l: Seq<Seq<char>>, x: Seq<char>)
    requires
        l.len() >= 1,
    ensures
        join_view(l.push(x)) == join_view(l) + seq!['\n'] + x,
    decreases l.len(),
{
    if l.len() == 1 {
        reveal_with_fuel(join_view, 2);
        assert(l.push(x).skip(1) =~= seq![x]);
        assert(l.push(x)[0] == l[0]);
        assert(join_view(l.push(x)) =~= join_view(l) + seq!['\n'] + x);
    } else {
        lemma_join_push(l.skip(1), x);
        assert(l.push(x).skip(1) =~= l.skip(1).push(x));
        assert(l.push(x)[0] == l[0]);
        let a = l[0];
        let m = join_view(l.skip(1));
        assert(join_view(l.push(x)) == a + seq!['\n'] + (m + seq!['\n'] + x));
        assert((a + seq!['\n'] + (m + seq!['\n'] + x)) =~= (a + seq!['\n'] + m) + seq!['\n'] + x);
    }
}

proof fn lemma_split_of_join_rec(ls: Seq<Seq<char>>)
    requires
        ls.len() >= 1,
        forall|i: int| 0 <= i < ls.len() ==> !(#[trigger] ls[i]).contains('\n'),
    ensures
        split_rec(join_view(ls)) == ls,
    decreases ls.len(),
{
    assert forall|i: int, k: int|
        0 <= i < ls.len() && 0 <= k < ls[i].len() implies ls[i][k] != '\n' by {
        if ls[i][k] == '\n' {
            assert(ls[i].contains('\n'));
        }
    }
    if ls.len() == 1 {
        lemma_first_pos_unique(ls[0], '\n', ls[0].len() as int);
        assert(split_rec(join_view(ls)) =~= seq![ls[0]]);
        assert(seq![ls[0]] =~= ls);
    } else {
        let w = join_view(ls);
        let h = ls[0];
        assert(w == h + seq!['\n'] + join_view(ls.skip(1)));
        assert forall|j: int| 0 <= j < h.len() implies w[j] != '\n' by {
            assert(w[j] == h[j]);
        }
        assert(w[h.len() as int] == '\n');
        lemma_first_pos_unique(w, '\n', h.len() as int);
        assert(w.take(h.len() as int) =~= h);
        assert(w.skip(h.len() as int + 1) =~= join_view(ls.skip(1)));
        lemma_split_of_join_rec(ls.skip(1));
        assert(split_rec(w) =~= seq![h] + ls.skip(1));
        assert(seq![h] + ls.skip(1) =~= ls);
    }
}

/// Cache round trip: joining a list of lines into the cache file text and
/// splitting that text back yields the same list, provided no line contains
/// a newline and the list is not a single empty line — whose file text is
/// empty and reads back as no lines at all.
pub proof fn lemma_cache_round_trip(ls: Seq<Seq<char>>)
    requires
        forall|i: int| 0 <= i < ls.len() ==> !(#[trigger] ls[i]).contains('\n'),
        !(ls.len() == 1 && ls[0].len() == 0),
    ensures
        split_view(join_view(ls)) == ls,
{
    if ls.len() == 0 {
        assert(split_view(join_view(ls)) =~= ls);
    } else {
        if ls.len() == 1 {
            assert(join_view(ls).len() > 0);
        } else {
            assert(join_view(ls).len() >= ls[0].len() + 1);
        }
        lemma_split_of_join_rec(ls);
    }
}

/// Joins lines into the cache file text: the lines separated by single
/// newlines, no trailing one.
pub fn join_lines(lines: &Vec<String>) -> (r: String)
    ensures
        r@ == join_view(lines_view(lines@)),
{
    let mut r = String::new();
    let mut i: usize = 0;
    while i < lines.len()
        invariant
            0 <= i <= lines@.len(),
            r@ == join_view(lines_view(lines@).take(i as int)),
        decreases lines@.len() - i,
    {
        proof {
            reveal_strlit("\n");
        }
        if i > 0 {
            r.append("\n");
        }
        r.append(lines[i].as_str());
        proof {
            let lv = lines_view(lines@);
            assert(lv.take(i + 1) =~= lv.take(i as int).push(lv[i as int]));
            if i > 0 {
                lemma_join_push(lv.take(i as int), lv[i as int]);
                assert(r@ =~= join_view(lv.take(i + 1)));
            } else {
                assert(join_view(lv.take(1)) == lv[0]);
                assert(r@ =~= join_view(lv.take(1)));
            }
        }
        i += 1;
    }
    proof {
        assert(lines_view(lines@).take(lines@.len() as int) =~= lines_view(lines@));
    }
    r
}

/// Splits a cache file text back into its lines: none for the empty text,
/// else every newline-separated segment, in order.
pub fn split_lines(s: &str) -> (r: Vec<String>)
    ensures
        lines_view(r@) == split_view(s@),
{
    let mut r: Vec<String> = Vec::new();
    let n = s.unicode_len();
    if n == 0 {
        proof {
            assert(lines_view(r@) =~= split_view(s@));
        }
        return r;
    }
    let mut start: usize = 0;
    proof {
        assert(s@.skip(0) =~= s@);
        assert(lines_view(r@) =~= Seq::<Seq<char>>::empty());
        assert(split_rec(s@) =~= lines_view(r@) + split_rec(s@.skip(0)));
    }
    loop
        invariant_except_break
            split_rec(s@) =~= lines_view(r@) + split_rec(s@.skip(start as int)),
        invariant
            0 <= start <= n,
            n == s@.len(),
            n > 0,
        ensures
            lines_view(r@) =~= split_rec(s@),
        decreases n - start,
    {
        let e = find_from(s, start, '\n');
        let seg = s.substring_char(start, e);
        let ghost t = s@.skip(start as int);
        proof {
            assert(seg@ =~= t.take(e - start));
        }
        r.push(String::from_str(seg));
        if e == n {
            proof {
                assert(first_pos(t, '\n') == t.len());
                assert(split_rec(t) == seq![t]);
                assert(t.take(e - start) =~= t);
                assert(lines_view(r@) =~= split_rec(s@));
            }
            break;
        }
        proof {
            assert(first_pos(t, '\n') == e - start < t.len());
            assert(split_rec(t) == seq![t.take(e - start)] + split_rec(t.skip(e - start + 1)));
            assert(t.skip(e - start + 1) =~= s@.skip(e + 1));
            assert(split_rec(s@) =~= lines_view(r@) + split_rec(s@.skip(e + 1)));
        }
        start = e + 1;
    }
    proof {
        assert(lines_view(r@) =~= split_view(s@));
    }
    r
}

} // verus!
