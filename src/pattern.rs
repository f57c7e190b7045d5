use vstd::prelude::*;

verus! {

/// Whether `n` is matched whole by the glob `p`, where `*` stands for any run of
/// characters, `?` for exactly one character, and every other character for itself.
pub open spec fn glob(p: Seq<char>, n: Seq<char>) -> bool
    decreases p.len(), n.len(),
{
    if p.len() == 0 {
        n.len() == 0
    } else if p[0] == '*' {
        glob(p.drop_first(), n) || (n.len() > 0 && glob(p, n.drop_first()))
    } else if n.len() == 0 {
        false
    } else if p[0] == '?' {
        glob(p.drop_first(), n.drop_first())
    } else {
        p[0] == n[0] && glob(p.drop_first(), n.drop_first())
    }
}

/// A host pattern: a glob, or a glob after a leading `!`, which then matches
/// exactly the names that the glob does not.
pub open spec fn pattern_accepts(p: Seq<char>, n: Seq<char>) -> bool {
    if p.len() > 0 && p[0] == '!' {
        !glob(p.drop_first(), n)
    } else {
        glob(p, n)
    }
}

pub open spec fn is_wildcard(c: char) -> bool {
    c == '*' || c == '?'
}

/// A pattern with neither `*` nor `?` in it.
pub open spec fn has_no_wildcard(p: Seq<char>) -> bool {
    forall|i: int| 0 <= i < p.len() ==> !is_wildcard(#[trigger] p[i])
}

/// Whether `p` holds `*` or `?`.
pub fn contains_wildcard(p: &Vec<char>) -> (r: bool)
    ensures
        r == !has_no_wildcard(p@),
{
    let mut i: usize = 0;
    while i < p.len()
        invariant
            i <= p.len(),
            forall|k: int| 0 <= k < i ==> !is_wildcard(#[trigger] p@[k]),
        decreases p.len() - i,
    {
        if p[i] == '*' || p[i] == '?' {
            return true;
        }
        i = i + 1;
    }
    false
}

/// `glob` on the suffixes of `p` and `n` that start at `i` and `j`.
pub open spec fn glob_at(p: Seq<char>, n: Seq<char>, i: int, j: int) -> bool {
    glob(p.subrange(i, p.len() as int), n.subrange(j, n.len() as int))
}

/// Whether the glob `p` matches the whole of `n`.
///
/// Works through the pattern from its last position to its first, keeping for
/// the current position whether its suffix matches each suffix of the name:
/// `row[k]` for the suffix at `k < n.len()`, and `end` for the empty suffix.
pub fn glob_match(p: &Vec<char>, n: &Vec<char>) -> (r: bool)
    ensures
        r == glob(p@, n@),
{
    let pl = p.len();
    let nl = n.len();
    let mut row: Vec<bool> = Vec::new();
    let mut j: usize = 0;
    while j < nl
        invariant
            j <= nl,
            row.len() == j,
            forall|k: int| 0 <= k < j ==> !row@[k],
        decreases nl - j,
    {
        row.push(false);
        j = j + 1;
    }
    let mut end = true;
    assert(p@.subrange(pl as int, pl as int).len() == 0);
    assert forall|k: int| 0 <= k < nl implies row@[k] == glob_at(p@, n@, pl as int, k) by {
        assert(n@.subrange(k, nl as int).len() > 0);
    }
    assert(n@.subrange(nl as int, nl as int).len() == 0);
    let mut i: usize = pl;
    while i > 0
        invariant
            i <= pl,
            pl == p.len(),
            nl == n.len(),
            row.len() == nl,
            forall|k: int| 0 <= k < nl ==> row@[k] == glob_at(p@, n@, i as int, k),
            end == glob_at(p@, n@, i as int, nl as int),
        decreases i,
    {
        let ii = i - 1;
        let c = p[ii];
        // `cur[k]` will hold the value for the suffix of the name at `k`: built left to
        // right for `?` and literals, which look only at the previous row, and right to
        // left for `*`, whose value at `k` depends on the value at `k + 1` of its own row.
        let mut cur: Vec<bool> = Vec::new();
        let new_end: bool;
        if c == '*' {
            proof {
                lemma_star_end(p@, n@, ii as int);
            }
            new_end = end;
            let mut rev: Vec<bool> = Vec::new();
            let mut acc: bool = end;
            let mut k: usize = nl;
            while k > 0
                invariant
                    0 <= k <= nl,
                    ii < pl,
                    pl == p.len(),
                    nl == n.len(),
                    p@[ii as int] == '*',
                    row.len() == nl,
                    forall|m: int| 0 <= m < nl ==> row@[m] == glob_at(p@, n@, ii + 1, m),
                    rev.len() == nl - k,
                    forall|m: int|
                        0 <= m < rev.len() ==> rev@[m] == glob_at(p@, n@, ii as int, nl - 1 - m),
                    acc == glob_at(p@, n@, ii as int, k as int),
                decreases k,
            {
                let km = k - 1;
                acc = row[km] || acc;
                proof {
                    lemma_star_step(p@, n@, ii as int, km as int);
                }
                rev.push(acc);
                k = km;
            }
            let mut m: usize = 0;
            while m < nl
                invariant
                    m <= nl,
                    nl == n.len(),
                    rev.len() == nl,
                    cur.len() == m,
                    forall|q: int| 0 <= q < m ==> cur@[q] == rev@[nl - 1 - q],
                decreases nl - m,
            {
                cur.push(rev[nl - 1 - m]);
                m = m + 1;
            }
        } else {
            proof {
                lemma_single_step(p@, n@, ii as int, nl as int);
            }
            new_end = false;
            let mut k: usize = 0;
            while k < nl
                invariant
                    k <= nl,
                    ii < pl,
                    pl == p.len(),
                    nl == n.len(),
                    c == p@[ii as int],
                    c != '*',
                    row.len() == nl,
                    forall|m: int| 0 <= m < nl ==> row@[m] == glob_at(p@, n@, ii + 1, m),
                    end == glob_at(p@, n@, ii + 1, nl as int),
                    cur.len() == k,
                    forall|m: int| 0 <= m < k ==> cur@[m] == glob_at(p@, n@, ii as int, m),
                decreases nl - k,
            {
                let rest = if k + 1 < nl {
                    row[k + 1]
                } else {
                    end
                };
                let v = if c == '?' {
                    rest
                } else {
                    c == n[k] && rest
                };
                proof {
                    lemma_single_step(p@, n@, ii as int, k as int);
                }
                cur.push(v);
                k = k + 1;
            }
        }
        row = cur;
        end = new_end;
        i = ii;
    }
    assert(p@.subrange(0, pl as int) == p@);
    assert(n@.subrange(0, nl as int) == n@);
    if nl == 0 {
        end
    } else {
        row[0]
    }
}

proof fn lemma_star_end(p: Seq<char>, n: Seq<char>, i: int)
    requires
        0 <= i < p.len(),
        p[i] == '*',
    ensures
        glob_at(p, n, i, n.len() as int) == glob_at(p, n, i + 1, n.len() as int),
{
    let ps = p.subrange(i, p.len() as int);
    assert(ps.drop_first() == p.subrange(i + 1, p.len() as int));
}

proof fn lemma_star_step(p: Seq<char>, n: Seq<char>, i: int, k: int)
    requires
        0 <= i < p.len(),
        p[i] == '*',
        0 <= k < n.len(),
    ensures
        glob_at(p, n, i, k) == (glob_at(p, n, i + 1, k) || glob_at(p, n, i, k + 1)),
{
    let ps = p.subrange(i, p.len() as int);
    let ns = n.subrange(k, n.len() as int);
    assert(ps.drop_first() == p.subrange(i + 1, p.len() as int));
    assert(ns.drop_first() == n.subrange(k + 1, n.len() as int));
}

proof fn lemma_single_step(p: Seq<char>, n: Seq<char>, i: int, k: int)
    requires
        0 <= i < p.len(),
        p[i] != '*',
        0 <= k <= n.len(),
    ensures
        glob_at(p, n, i, k) == if k == n.len() {
            false
        } else if p[i] == '?' {
            glob_at(p, n, i + 1, k + 1)
        } else {
            p[i] == n[k] && glob_at(p, n, i + 1, k + 1)
        },
{
    let ps = p.subrange(i, p.len() as int);
    let ns = n.subrange(k, n.len() as int);
    assert(ps.drop_first() == p.subrange(i + 1, p.len() as int));
    if k < n.len() {
        assert(ns.drop_first() == n.subrange(k + 1, n.len() as int));
    }
}

/// Whether `n` ends with `s`.
pub open spec fn ends_with(n: Seq<char>, s: Seq<char>) -> bool {
    n.len() >= s.len() && n.subrange(n.len() - s.len(), n.len() as int) == s
}

/// A pattern without `*`, `?` or a leading `!` matches a name exactly when the
/// two are equal.
pub proof fn lemma_literal_pattern(p: Seq<char>, n: Seq<char>)
    requires
        has_no_wildcard(p),
        !(p.len() > 0 && p[0] == '!'),
    ensures
        pattern_accepts(p, n) <==> p == n,
{
    lemma_literal_glob(p, n);
}

/// A glob without `*` or `?` matches exactly the name equal to it.
pub proof fn lemma_literal_glob(p: Seq<char>, n: Seq<char>)
    requires
        has_no_wildcard(p),
    ensures
        glob(p, n) <==> p == n,
    decreases p.len(),
{
    if p.len() > 0 {
        assert(!is_wildcard(p[0]));
        let q = p.drop_first();
        assert(has_no_wildcard(q)) by {
            assert forall|i: int| 0 <= i < q.len() implies !is_wildcard(#[trigger] q[i]) by {
                assert(q[i] == p[i + 1]);
            }
        }
        if n.len() > 0 {
            lemma_literal_glob(q, n.drop_first());
            if p == n {
                assert(q == n.drop_first());
            }
            if p[0] == n[0] && q == n.drop_first() {
                assert forall|i: int| 0 <= i < p.len() implies p[i] == n[i] by {
                    if i > 0 {
                        assert(p[i] == q[i - 1]);
                        assert(n[i] == n.drop_first()[i - 1]);
                    }
                }
                assert(p =~= n);
            }
        }
    } else {
        if n.len() == 0 {
            assert(p =~= n);
        }
    }
}

/// A leading `*` followed by a literal suffix matches exactly the names that end
/// with that suffix.
pub proof fn lemma_star_suffix(s: Seq<char>, n: Seq<char>)
    requires
        has_no_wildcard(s),
    ensures
        glob(seq!['*'] + s, n) <==> ends_with(n, s),
    decreases n.len(),
{
    let p = seq!['*'] + s;
    assert(p[0] == '*');
    assert(p.drop_first() =~= s);
    lemma_literal_glob(s, n);
    if n.len() > 0 {
        let m = n.drop_first();
        lemma_star_suffix(s, m);
        if n.len() > s.len() {
            assert(n.subrange(n.len() - s.len(), n.len() as int) =~= m.subrange(
                m.len() - s.len(),
                m.len() as int,
            ));
            assert(s != n);
        } else if n.len() == s.len() {
            assert(n.subrange(0, n.len() as int) =~= n);
            assert(!ends_with(m, s));
        } else {
            assert(s != n);
            assert(!ends_with(m, s));
        }
    } else {
        if s.len() == 0 {
            assert(n.subrange(0, 0) =~= s);
        }
    }
}

/// A negated pattern `!*` followed by a literal suffix matches exactly the names
/// that do not end with that suffix.
pub proof fn lemma_negated_suffix(s: Seq<char>, n: Seq<char>)
    requires
        has_no_wildcard(s),
    ensures
        pattern_accepts(seq!['!', '*'] + s, n) <==> !ends_with(n, s),
{
    let p = seq!['!', '*'] + s;
    assert(p[0] == '!');
    assert(p.drop_first() =~= seq!['*'] + s);
    lemma_star_suffix(s, n);
}

/// The pattern `*` matches every name.
pub proof fn lemma_star_matches_all(n: Seq<char>)
    ensures
        pattern_accepts(seq!['*'], n),
    decreases n.len(),
{
    let p = seq!['*'];
    assert(p[0] == '*');
    assert(p.drop_first().len() == 0);
    if n.len() > 0 {
        lemma_star_matches_all(n.drop_first());
        assert(glob(p, n.drop_first()));
    } else {
        assert(glob(p.drop_first(), n));
    }
}

} // verus!
