//! The scoreboard: one line per player, best highscore first.

use vstd::prelude::*;

verus! {

/// What the scoreboard shows of one player.
pub struct ScoreboardScore {
    pub player_name: String,
    pub highscore: u32,
    pub score: u32,
}

/// The display name of the player with the given handle; names repeat every
/// four handles.
pub open spec fn name_of(handle: usize) -> Seq<char> {
    let k = handle % 4;
    if k == 0 {
        "BLUE"@
    } else if k == 1 {
        "ORANGE"@
    } else if k == 2 {
        "MAGENTA"@
    } else {
        "GREEN"@
    }
}

/// The display name of the player with the given handle.
pub fn player_name(handle: usize) -> (r: String)
    ensures
        r@ == name_of(handle),
{
    let k = handle % 4;
    if k == 0 {
        String::from_str("BLUE")
    } else if k == 1 {
        String::from_str("ORANGE")
    } else if k == 2 {
        String::from_str("MAGENTA")
    } else {
        String::from_str("GREEN")
    }
}

/// Inserts `x` after every leading entry whose highscore is at least its own.
pub open spec fn insert_desc(s: Seq<ScoreboardScore>, x: ScoreboardScore) -> Seq<ScoreboardScore>
    decreases s.len(),
{
    if s.len() == 0 {
        seq![x]
    } else if s[0].highscore >= x.highscore {
        seq![s[0]] + insert_desc(s.drop_first(), x)
    } else {
        seq![x] + s
    }
}

/// The entries ordered by descending highscore; equal highscores keep their
/// order of arrival.
pub open spec fn sort_desc(s: Seq<ScoreboardScore>) -> Seq<ScoreboardScore>
    decreases s.len(),
{
    if s.len() == 0 {
        s
    } else {
        insert_desc(sort_desc(s.drop_last()), s.last())
    }
}

/// Whether the highscores never rise along the sequence.
pub open spec fn is_sorted_desc(s: Seq<ScoreboardScore>) -> bool {
    forall|i: int, j: int| 0 <= i < j < s.len() ==> #[trigger] s[i].highscore >= #[trigger] s[j].highscore
}

proof fn lemma_insert_sorted(s: Seq<ScoreboardScore>, x: ScoreboardScore)
    requires
        is_sorted_desc(s),
    ensures
        is_sorted_desc(insert_desc(s, x)),
        insert_desc(s, x).len() == s.len() + 1,
        insert_desc(s, x)[0] == (if s.len() > 0 && s[0].highscore >= x.highscore { s[0] } else { x }),
    decreases s.len(),
{
    let r = insert_desc(s, x);
    if s.len() > 0 && s[0].highscore >= x.highscore {
        let t = s.drop_first();
        assert(is_sorted_desc(t)) by {
            assert forall|i: int, j: int| 0 <= i < j < t.len() implies #[trigger] t[i].highscore
                >= #[trigger] t[j].highscore by {
                assert(t[i] == s[i + 1] && t[j] == s[j + 1]);
            }
        }
        lemma_insert_sorted(t, x);
        let rt = insert_desc(t, x);
        assert(r == seq![s[0]] + rt);
        if t.len() > 0 {
            assert(t[0] == s[1]);
        }
        assert forall|i: int, j: int| 0 <= i < j < r.len() implies #[trigger] r[i].highscore
            >= #[trigger] r[j].highscore by {
            if i == 0 {
                assert(rt[0].highscore >= rt[j - 1].highscore || j - 1 == 0);
                assert(r[j] == rt[j - 1]);
            } else {
                assert(r[i] == rt[i - 1] && r[j] == rt[j - 1]);
            }
        }
    } else if s.len() > 0 {
        assert(r == seq![x] + s);
        assert forall|i: int, j: int| 0 <= i < j < r.len() implies #[trigger] r[i].highscore
            >= #[trigger] r[j].highscore by {
            assert(r[j] == s[j - 1]);
            if i > 0 {
                assert(r[i] == s[i - 1]);
            } else {
                assert(s[0].highscore >= s[j - 1].highscore || j - 1 == 0);
            }
        }
    }
}

/// The scoreboard order lists highscores from best to worst.
pub proof fn lemma_sort_desc_sorted(s: Seq<ScoreboardScore>)
    ensures
        is_sorted_desc(sort_desc(s)),
        sort_desc(s).len() == s.len(),
    decreases s.len(),
{
    if s.len() > 0 {
        lemma_sort_desc_sorted(s.drop_last());
        lemma_insert_sorted(sort_desc(s.drop_last()), s.last());
    }
}

proof fn lemma_insert_at(s: Seq<ScoreboardScore>, x: ScoreboardScore, p: int)
    requires
        0 <= p <= s.len(),
        forall|i: int| 0 <= i < p ==> #[trigger] s[i].highscore >= x.highscore,
        p < s.len() ==> s[p].highscore < x.highscore,
    ensures
        insert_desc(s, x) == s.insert(p, x),
    decreases s.len(),
{
    if s.len() == 0 {
        assert(s.insert(p, x) =~= seq![x]);
    } else if p == 0 {
        assert(s.insert(p, x) =~= seq![x] + s);
    } else {
        let t = s.drop_first();
        assert forall|i: int| 0 <= i < p - 1 implies #[trigger] t[i].highscore >= x.highscore by {
            assert(t[i] == s[i + 1]);
        }
        assert(s[0].highscore >= x.highscore);
        lemma_insert_at(t, x, p - 1);
        assert(seq![s[0]] + t.insert(p - 1, x) =~= s.insert(p, x));
    }
}

/// Orders the scoreboard entries by descending highscore, keeping the given
/// order among equal highscores.
pub fn sort_scores(entries: Vec<ScoreboardScore>) -> (r: Vec<ScoreboardScore>)
    ensures
        r@ == sort_desc(entries@),
        r@.len() == entries@.len(),
        is_sorted_desc(r@),
{
    let ghost orig = entries@;
    let mut rest = entries;
    let mut out: Vec<ScoreboardScore> = Vec::new();
    let ghost mut k: int = 0;
    while rest.len() > 0
        invariant
            0 <= k <= orig.len(),
            rest@ == orig.skip(k),
            out@ == sort_desc(orig.take(k)),
        decreases rest@.len(),
    {
        let x = rest.remove(0);
        let mut p: usize = 0;
        while p < out.len() && out[p].highscore >= x.highscore
            invariant
                p <= out@.len(),
                forall|i: int| 0 <= i < p ==> #[trigger] out@[i].highscore >= x.highscore,
            decreases out@.len() - p,
        {
            p = p + 1;
        }
        proof {
            lemma_insert_at(out@, x, p as int);
            assert(orig.take(k + 1).drop_last() =~= orig.take(k));
            assert(orig.take(k + 1).last() == x);
        }
        out.insert(p, x);
        proof {
            k = k + 1;
            assert(rest@ =~= orig.skip(k));
        }
    }
    proof {
        assert(orig.take(k) =~= orig);
        lemma_sort_desc_sorted(orig);
    }
    out
}

} // verus!
