use vstd::prelude::*;
use vstd::string::StrSliceExecFns;
use vstd::string::StringExecFns;

verus! {

/// Splitting a character sequence on a separator, front first: splitting
/// the empty sequence gives one empty piece, a leading separator opens a
/// fresh empty piece, and any other leading character joins the first
/// piece of the rest's split.
pub open spec fn spec_split(s: Seq<char>, sep: char) -> Seq<Seq<char>>
    decreases s.len(),
{
    if s.len() == 0 {
        seq![Seq::<char>::empty()]
    } else if s[0] == sep {
        seq![Seq::<char>::empty()] + spec_split(s.drop_first(), sep)
    } else {
        let rest = spec_split(s.drop_first(), sep);
        seq![seq![s[0]] + rest[0]] + rest.drop_first()
    }
}

/// Joining pieces with a separator between each two.
pub open spec fn spec_join(parts: Seq<Seq<char>>, sep: char) -> Seq<char>
    decreases parts.len(),
{
    if parts.len() == 0 {
        Seq::<char>::empty()
    } else if parts.len() == 1 {
        parts[0]
    } else {
        parts[0] + seq![sep] + spec_join(parts.drop_first(), sep)
    }
}

/// The least index at or after `i` and below `len` satisfying `p`.
pub open spec fn first_index_where(p: spec_fn(int) -> bool, i: int, len: int) -> Option<int>
    decreases len - i,
{
    if i >= len {
        None
    } else if p(i) {
        Some(i)
    } else {
        first_index_where(p, i + 1, len)
    }
}

/// What the least matching index means: `None` says no index in range
/// matches; `Some(j)` says `j` matches and nothing before it does.
pub proof fn lemma_first_index_where(p: spec_fn(int) -> bool, i: int, len: int)
    ensures
        match first_index_where(p, i, len) {
            None => forall|k: int| i <= k < len ==> !#[trigger] p(k),
            Some(j) => i <= j < len && p(j) && (forall|k: int| i <= k < j ==> !#[trigger] p(k)),
        },
    decreases len - i,
{
    if i >= len {
    } else if p(i) {
    } else {
        lemma_first_index_where(p, i + 1, len);
    }
}

/// `s` ends in `suffix`.
pub open spec fn has_suffix(s: Seq<char>, suffix: Seq<char>) -> bool {
    s.len() >= suffix.len() && s.subrange(s.len() - suffix.len(), s.len() as int) == suffix
}

/// A split always yields at least one piece.
pub proof fn lemma_split_nonempty(s: Seq<char>, sep: char)
    ensures
        spec_split(s, sep).len() >= 1,
    decreases s.len(),
{
    if s.len() == 0 {
    } else {
        lemma_split_nonempty(s.drop_first(), sep);
    }
}

/// No piece of a split holds the separator.
pub proof fn lemma_split_no_sep(s: Seq<char>, sep: char)
    ensures
        forall|k: int, j: int|
            0 <= k < spec_split(s, sep).len() && 0 <= j < spec_split(s, sep)[k].len()
                ==> spec_split(s, sep)[k][j] != sep,
    decreases s.len(),
{
    if s.len() == 0 {
    } else if s[0] == sep {
        lemma_split_no_sep(s.drop_first(), sep);
        let t = spec_split(s.drop_first(), sep);
        let w = spec_split(s, sep);
        assert forall|k: int, j: int| 0 <= k < w.len() && 0 <= j < w[k].len() implies w[k][j]
            != sep by {
            if k >= 1 {
                assert(w[k] == t[k - 1]);
            }
        }
    } else {
        lemma_split_no_sep(s.drop_first(), sep);
        lemma_split_nonempty(s.drop_first(), sep);
        let t = spec_split(s.drop_first(), sep);
        let w = spec_split(s, sep);
        assert forall|k: int, j: int| 0 <= k < w.len() && 0 <= j < w[k].len() implies w[k][j]
            != sep by {
            if k == 0 {
                assert(w[0] == seq![s[0]] + t[0]);
                if j >= 1 {
                    assert(w[0][j] == t[0][j - 1]);
                }
            } else {
                assert(w[k] == t.drop_first()[k - 1]);
                assert(w[k] == t[k]);
            }
        }
    }
}

/// Where the first separator sits, the split parts as: the piece before
/// it, then the split of what follows it.  With no separator at all, the
/// split is the whole sequence as one piece.
pub proof fn lemma_split_at_first_sep(s: Seq<char>, sep: char, k: int)
    requires
        0 <= k <= s.len(),
        forall|j: int| 0 <= j < k ==> s[j] != sep,
        k < s.len() ==> s[k] == sep,
    ensures
        k == s.len() ==> spec_split(s, sep) == seq![s],
        k < s.len() ==> spec_split(s, sep) == seq![s.subrange(0, k)] + spec_split(
            s.subrange(k + 1, s.len() as int),
            sep,
        ),
    decreases s.len(),
{
    if s.len() == 0 {
        assert(spec_split(s, sep) =~~= seq![s]);
    } else if k == 0 {
        if k < s.len() {
            assert(s.drop_first() =~= s.subrange(1, s.len() as int));
            assert(spec_split(s, sep) =~~= seq![s.subrange(0, 0)] + spec_split(
                s.subrange(1, s.len() as int),
                sep,
            ));
        }
    } else {
        let t = s.drop_first();
        lemma_split_at_first_sep(t, sep, k - 1);
        lemma_split_nonempty(t, sep);
        if k == s.len() {
            assert(spec_split(t, sep) == seq![t]);
            assert(seq![s[0]] + t =~= s);
            assert(spec_split(s, sep) =~~= seq![s]);
        } else {
            assert(t.subrange(k, t.len() as int) =~= s.subrange(k + 1, s.len() as int));
            assert(seq![s[0]] + t.subrange(0, k - 1) =~= s.subrange(0, k));
            assert(spec_split(s, sep) =~~= seq![s.subrange(0, k)] + spec_split(
                s.subrange(k + 1, s.len() as int),
                sep,
            ));
        }
    }
}

/// Joining two runs of pieces with a separator between them.
pub proof fn lemma_join_parts(q: Seq<Seq<char>>, r: Seq<Seq<char>>, sep: char)
    requires
        q.len() > 0,
        r.len() > 0,
    ensures
        spec_join(q + r, sep) == spec_join(q, sep) + seq![sep] + spec_join(r, sep),
    decreases q.len(),
{
    if q.len() == 1 {
        assert((q + r).drop_first() =~~= r);
        assert((q + r)[0] == q[0]);
        assert(spec_join(q + r, sep) =~= spec_join(q, sep) + seq![sep] + spec_join(r, sep));
    } else {
        lemma_join_parts(q.drop_first(), r, sep);
        assert((q + r).drop_first() =~~= q.drop_first() + r);
        assert((q + r)[0] == q[0]);
        assert(spec_join(q + r, sep) =~= spec_join(q, sep) + seq![sep] + spec_join(r, sep));
    }
}

/// Splits `s` on the separator, keeping empty pieces, as the split model
/// says.
pub fn split_on(s: &str, sep: char) -> (r: Vec<String>)
    ensures
        r.deep_view() == spec_split(s@, sep),
{
    let len = s.unicode_len();
    let mut out: Vec<String> = Vec::new();
    let mut start: usize = 0;
    let mut i: usize = 0;
    proof {
        assert(out.deep_view() =~~= Seq::<Seq<char>>::empty());
        assert(s@.subrange(0, len as int) =~= s@);
        assert(out.deep_view() + spec_split(s@.subrange(0, len as int), sep) =~~= spec_split(
            s@,
            sep,
        ));
    }
    while i < len
        invariant
            0 <= start <= i <= len,
            len == s@.len(),
            forall|j: int| start <= j < i ==> s@[j] != sep,
            spec_split(s@, sep) == out.deep_view() + spec_split(
                s@.subrange(start as int, len as int),
                sep,
            ),
        decreases len - i,
    {
        if s.get_char(i) == sep {
            let ghost pre = out.deep_view();
            let seg = s.substring_char(start, i).to_owned();
            out.push(seg);
            proof {
                let suffix = s@.subrange(start as int, len as int);
                lemma_split_at_first_sep(suffix, sep, i - start);
                assert(suffix.subrange(0, i - start) =~= s@.subrange(start as int, i as int));
                assert(suffix.subrange(i - start + 1, suffix.len() as int) =~= s@.subrange(
                    i + 1,
                    len as int,
                ));
                assert(out.deep_view() =~~= pre.push(s@.subrange(start as int, i as int)));
                assert(out.deep_view() + spec_split(s@.subrange(i + 1, len as int), sep) =~~= pre
                    + spec_split(suffix, sep));
            }
            start = i + 1;
        }
        i = i + 1;
    }
    let ghost pre = out.deep_view();
    let seg = s.substring_char(start, len).to_owned();
    out.push(seg);
    proof {
        let suffix = s@.subrange(start as int, len as int);
        lemma_split_at_first_sep(suffix, sep, (len - start) as int);
        assert(out.deep_view() =~~= pre.push(suffix));
        assert(out.deep_view() =~~= pre + spec_split(suffix, sep));
    }
    out
}

/// Joins `parts[from..]` with `/` between each two pieces.
pub fn join_slash(parts: &Vec<String>, from: usize) -> (r: String)
    requires
        from <= parts.len(),
    ensures
        r@ == spec_join(parts.deep_view().subrange(from as int, parts.len() as int), '/'),
{
    proof {
        reveal_strlit("/");
    }
    let mut acc = String::new();
    let mut i: usize = from;
    while i < parts.len()
        invariant
            from <= i <= parts.len(),
            "/"@ =~= seq!['/'],
            i == from ==> acc@ =~= Seq::<char>::empty(),
            i > from ==> acc@ == spec_join(parts.deep_view().subrange(from as int, i as int), '/'),
        decreases parts.len() - i,
    {
        let ghost all = parts.deep_view();
        if i > from {
            acc.append("/");
        }
        acc.append(parts[i].as_str());
        proof {
            if i > from {
                lemma_join_parts(all.subrange(from as int, i as int), seq![all[i as int]], '/');
                assert(all.subrange(from as int, i as int) + seq![all[i as int]] =~~= all.subrange(
                    from as int,
                    i + 1,
                ));
            } else {
                assert(all.subrange(from as int, i + 1) =~~= seq![all[i as int]]);
            }
        }
        i = i + 1;
    }
    if from == parts.len() {
        proof {
            assert(parts.deep_view().subrange(from as int, parts.len() as int)
                =~~= Seq::<Seq<char>>::empty());
        }
    }
    acc
}

/// Whether `s` ends in `suffix`.
pub fn str_ends_with(s: &str, suffix: &str) -> (r: bool)
    ensures
        r == has_suffix(s@, suffix@),
{
    let n = s.unicode_len();
    let m = suffix.unicode_len();
    if n < m {
        return false;
    }
    let mut j: usize = 0;
    while j < m
        invariant
            0 <= j <= m <= n,
            n == s@.len(),
            m == suffix@.len(),
            forall|t: int| 0 <= t < j ==> s@[n - m + t] == suffix@[t],
        decreases m - j,
    {
        if s.get_char(n - m + j) != suffix.get_char(j) {
            proof {
                assert(s@.subrange(n - m as int, n as int)[j as int] != suffix@[j as int]);
            }
            return false;
        }
        j = j + 1;
    }
    proof {
        assert(s@.subrange(n - m as int, n as int) =~= suffix@);
    }
    true
}

} // verus!
