//! Character-level helpers shared by the key parser, the toolchain parser and
//! the command builder: scanning to a separator, splitting and joining on a
//! separator, and comparing segments.

use vstd::prelude::*;
use vstd::string::{StrSliceExecFns, StringExecFns};

verus! {

/// Index of the first occurrence of `stop` in `s` at or after `from`, or
/// `s.len()` if there is none.
pub open spec fn token_end(s: Seq<char>, stop: char, from: int) -> int
    decreases s.len() - from,
{
    if from < 0 || from >= s.len() {
        s.len() as int
    } else if s[from] == stop {
        from
    } else {
        token_end(s, stop, from + 1)
    }
}

pub proof fn lemma_token_end(s: Seq<char>, stop: char, from: int)
    requires
        0 <= from <= s.len(),
    ensures
        from <= token_end(s, stop, from) <= s.len(),
        token_end(s, stop, from) < s.len() ==> s[token_end(s, stop, from)] == stop,
        forall|j: int| from <= j < token_end(s, stop, from) ==> s[j] != stop,
    decreases s.len() - from,
{
    if from < s.len() && s[from] != stop {
        lemma_token_end(s, stop, from + 1);
    }
}

/// If no character in `[from, e)` is `stop`, and `e` is the length of `s` or
/// carries `stop`, then `e` is exactly where the scan from `from` ends.
pub proof fn lemma_token_end_pinned(s: Seq<char>, stop: char, from: int, e: int)
    requires
        0 <= from <= e <= s.len(),
        e < s.len() ==> s[e] == stop,
        forall|j: int| from <= j < e ==> s[j] != stop,
    ensures
        token_end(s, stop, from) == e,
    decreases e - from,
{
    if from < e {
        lemma_token_end_pinned(s, stop, from + 1, e);
    }
}

/// The scan is unaffected by anything before `from` and is therefore the same
/// on the suffix: useful when a string is split in two.
pub proof fn lemma_token_end_concat(a: Seq<char>, b: Seq<char>, stop: char)
    requires
        forall|j: int| 0 <= j < a.len() ==> a[j] != stop,
    ensures
        token_end(a + seq![stop] + b, stop, 0) == a.len(),
{
    let s = a + seq![stop] + b;
    assert(s[a.len() as int] == stop);
    assert(forall|j: int| 0 <= j < a.len() ==> s[j] == a[j] && s[j] != stop);
    lemma_token_end_pinned(s, stop, 0, a.len() as int);
}

/// `s` split on `stop`, mirroring the splitter that yields empty pieces
/// between adjacent separators and one piece for a string with none.
pub open spec fn split_char(s: Seq<char>, stop: char) -> Seq<Seq<char>>
    decreases s.len(),
    via split_char_decreases
{
    if token_end(s, stop, 0) >= s.len() {
        seq![s]
    } else {
        let e = token_end(s, stop, 0);
        seq![s.subrange(0, e)] + split_char(s.subrange(e + 1, s.len() as int), stop)
    }
}

#[via_fn]
proof fn split_char_decreases(s: Seq<char>, stop: char) {
    lemma_token_end(s, stop, 0);
}

/// The pieces joined back with `stop` between them.
pub open spec fn join_char(parts: Seq<Seq<char>>, stop: char) -> Seq<char>
    decreases parts.len(),
{
    if parts.len() == 0 {
        Seq::empty()
    } else if parts.len() == 1 {
        parts[0]
    } else {
        parts[0] + seq![stop] + join_char(parts.drop_first(), stop)
    }
}

/// A piece that a round trip through `join_char`/`split_char` preserves:
/// it never contains the separator itself.
pub open spec fn clean_of(s: Seq<char>, stop: char) -> bool {
    forall|j: int| 0 <= j < s.len() ==> s[j] != stop
}

/// Splitting is the inverse of joining, as long as no piece contains the
/// separator.
pub proof fn lemma_split_join(parts: Seq<Seq<char>>, stop: char)
    requires
        parts.len() > 0,
        forall|i: int| 0 <= i < parts.len() ==> clean_of(#[trigger] parts[i], stop),
    ensures
        split_char(join_char(parts, stop), stop) == parts,
    decreases parts.len(),
{
    let s = join_char(parts, stop);
    if parts.len() == 1 {
        lemma_token_end_pinned(s, stop, 0, s.len() as int);
        assert(split_char(s, stop) =~= seq![parts[0]]);
        assert(split_char(s, stop) =~= parts);
    } else {
        let rest = join_char(parts.drop_first(), stop);
        assert(s =~= parts[0] + seq![stop] + rest);
        lemma_token_end_concat(parts[0], rest, stop);
        assert(token_end(s, stop, 0) == parts[0].len() < s.len());
        assert(s.subrange(0, parts[0].len() as int) =~= parts[0]);
        assert(s.subrange(parts[0].len() as int + 1, s.len() as int) =~= rest);
        lemma_split_join(parts.drop_first(), stop);
        assert(split_char(s, stop) =~= seq![parts[0]] + parts.drop_first());
        assert(split_char(s, stop) =~= parts);
    }
}

/// Extending a join by one more piece appends a separator and the piece.
pub proof fn lemma_join_snoc(parts: Seq<Seq<char>>, stop: char, i: int)
    requires
        1 <= i < parts.len(),
    ensures
        join_char(parts.take(i + 1), stop) == join_char(parts.take(i), stop) + seq![stop]
            + parts[i],
    decreases i,
{
    if i == 1 {
        let two = parts.take(2);
        assert(two.len() == 2 && two[0] == parts[0] && two[1] == parts[1]);
        assert(two.drop_first() =~= seq![parts[1]]);
        assert(join_char(seq![parts[1]], stop) == parts[1]);
        assert(join_char(two, stop) == parts[0] + seq![stop] + parts[1]);
        assert(parts.take(1) =~= seq![parts[0]]);
        assert(join_char(seq![parts[0]], stop) == parts[0]);
    } else {
        let rest = parts.drop_first();
        lemma_join_snoc(rest, stop, i - 1);
        assert(parts.take(i + 1).drop_first() =~= rest.take(i));
        assert(parts.take(i).drop_first() =~= rest.take(i - 1));
        assert(parts.take(i + 1)[0] == parts[0]);
        assert(parts.take(i)[0] == parts[0]);
        assert(join_char(parts.take(i + 1), stop) == parts[0] + seq![stop] + join_char(
            rest.take(i),
            stop,
        ));
        assert(join_char(parts.take(i), stop) == parts[0] + seq![stop] + join_char(
            rest.take(i - 1),
            stop,
        ));
        assert(join_char(parts.take(i + 1), stop) =~= join_char(parts.take(i), stop) + seq![stop]
            + parts[i]);
    }
}

/// Join the pieces with commas between them.
pub fn join_commas(parts: &Vec<String>) -> (r: String)
    ensures
        r@ == join_char(parts.deep_view(), ','),
{
    let ghost ps = parts.deep_view();
    if parts.len() == 0 {
        return String::new();
    }
    let mut s = parts[0].clone();
    proof {
        assert(ps.take(1) =~= seq![ps[0]]);
    }
    let n = parts.len();
    let mut i: usize = 1;
    while i < n
        invariant
            1 <= i <= n,
            n == parts.len(),
            ps == parts.deep_view(),
            s@ == join_char(ps.take(i as int), ','),
        decreases n - i,
    {
        proof {
            reveal_strlit(",");
            assert(","@ =~= seq![',']);
            lemma_join_snoc(ps, ',', i as int);
        }
        s.append(",");
        s.append(parts[i].as_str());
        i = i + 1;
    }
    proof {
        assert(ps.take(n as int) =~= ps);
    }
    s
}

/// Split on commas, mirroring [`split_char`].
pub fn split_commas(s: &str) -> (r: Vec<String>)
    ensures
        r.deep_view() == split_char(s@, ','),
{
    let n: usize = s.unicode_len();
    let mut r: Vec<String> = Vec::new();
    let mut p: usize = 0;
    proof {
        assert(r.deep_view() =~= Seq::<Seq<char>>::empty());
        assert(s@.subrange(0, n as int) =~= s@);
        assert(Seq::<Seq<char>>::empty() + split_char(s@, ',') =~= split_char(s@, ','));
    }
    loop
        invariant
            0 <= p <= n,
            n == s@.len(),
            split_char(s@, ',') == r.deep_view() + split_char(s@.subrange(p as int, n as int), ','),
        decreases n - p,
    {
        let ghost suf = s@.subrange(p as int, n as int);
        let e = scan_to(s, ',', p);
        proof {
            lemma_token_end(s@, ',', p as int);
            assert forall|j: int| 0 <= j < e - p implies suf[j] != ',' by {
                assert(suf[j] == s@[p + j]);
            }
            if e < n {
                assert(suf[e - p] == ',');
            }
            lemma_token_end_pinned(suf, ',', 0, e - p as int);
        }
        let ghost prev = r.deep_view();
        if e == n {
            r.push(s.substring_char(p, n).to_owned());
            proof {
                assert(split_char(suf, ',') == seq![suf]);
                assert(r.deep_view() =~= prev.push(suf));
                assert(r.deep_view() =~= split_char(s@, ','));
            }
            return r;
        }
        r.push(s.substring_char(p, e).to_owned());
        proof {
            assert(split_char(suf, ',') == seq![suf.subrange(0, e - p as int)] + split_char(
                suf.subrange(e - p + 1 as int, suf.len() as int),
                ',',
            ));
            assert(suf.subrange(0, e - p as int) =~= s@.subrange(p as int, e as int));
            assert(suf.subrange(e - p + 1 as int, suf.len() as int) =~= s@.subrange(
                e + 1 as int,
                n as int,
            ));
            assert(r.deep_view() =~= prev.push(s@.subrange(p as int, e as int)));
            assert(split_char(s@, ',') == r.deep_view() + split_char(
                s@.subrange(e + 1 as int, n as int),
                ',',
            ));
        }
        p = e + 1;
    }
}

/// Copy a list of strings.
pub(crate) fn clone_strings(v: &Vec<String>) -> (r: Vec<String>)
    ensures
        r.deep_view() == v.deep_view(),
{
    let mut r: Vec<String> = Vec::new();
    let mut i: usize = 0;
    let n = v.len();
    while i < n
        invariant
            0 <= i <= n,
            n == v.len(),
            r.deep_view() == v.deep_view().take(i as int),
        decreases n - i,
    {
        let ghost prev = r.deep_view();
        let item = v[i].clone();
        r.push(item);
        proof {
            assert(r.deep_view() =~= prev.push(v.deep_view()[i as int]));
            assert(r.deep_view() =~= v.deep_view().take(i + 1));
        }
        i = i + 1;
    }
    proof {
        assert(v.deep_view().take(n as int) =~= v.deep_view());
    }
    r
}

/// Copy an optional string.
pub(crate) fn clone_opt(o: &Option<String>) -> (r: Option<String>)
    ensures
        r.deep_view() == o.deep_view(),
{
    match o {
        Some(s) => Some(s.clone()),
        None => None,
    }
}

/// Appending one element extends a filtered sequence by that element when it
/// satisfies the predicate and leaves it unchanged otherwise.
pub proof fn lemma_filter_push<A>(s: Seq<A>, pred: spec_fn(A) -> bool, x: A)
    ensures
        pred(x) ==> s.push(x).filter(pred) == s.filter(pred).push(x),
        !pred(x) ==> s.push(x).filter(pred) == s.filter(pred),
{
    reveal(Seq::filter);
    assert(s.push(x).drop_last() =~= s);
    assert(s.push(x).last() == x);
}

/// First occurrence of `stop` in `s` at or after `from`, or the character
/// count of `s` if there is none.
pub fn scan_to(s: &str, stop: char, from: usize) -> (r: usize)
    requires
        from <= s@.len(),
    ensures
        r == token_end(s@, stop, from as int),
        from <= r <= s@.len(),
{
    let n: usize = s.unicode_len();
    let mut i: usize = from;
    loop
        invariant
            from <= i <= n,
            n == s@.len(),
            forall|j: int| from <= j < i ==> s@[j] != stop,
        decreases n - i,
    {
        if i == n {
            proof {
                lemma_token_end_pinned(s@, stop, from as int, i as int);
            }
            return i;
        }
        if s.get_char(i) == stop {
            proof {
                lemma_token_end_pinned(s@, stop, from as int, i as int);
            }
            return i;
        }
        i = i + 1;
    }
}

/// Whether the characters of `s` in `[from, to)` are exactly `t`.
pub fn segment_eq(s: &str, from: usize, to: usize, t: &str) -> (r: bool)
    requires
        from <= to <= s@.len(),
    ensures
        r == (s@.subrange(from as int, to as int) == t@),
{
    let tn: usize = t.unicode_len();
    if to - from != tn {
        proof {
            assert(s@.subrange(from as int, to as int).len() != t@.len());
        }
        return false;
    }
    let mut i: usize = 0;
    while i < tn
        invariant
            0 <= i <= tn,
            tn == t@.len(),
            from <= to <= s@.len(),
            to - from == tn,
            forall|j: int| 0 <= j < i ==> s@[from + j] == t@[j],
        decreases tn - i,
    {
        if s.get_char(from + i) != t.get_char(i) {
            proof {
                assert(s@.subrange(from as int, to as int)[i as int] != t@[i as int]);
            }
            return false;
        }
        i = i + 1;
    }
    proof {
        assert(s@.subrange(from as int, to as int) =~= t@);
    }
    true
}

/// Whether two strings hold the same characters.
pub fn str_eq(a: &str, b: &str) -> (r: bool)
    ensures
        r == (a@ == b@),
{
    let n: usize = a.unicode_len();
    proof {
        assert(a@.subrange(0, n as int) =~= a@);
    }
    segment_eq(a, 0, n, b)
}

} // verus!
