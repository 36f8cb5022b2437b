//! Scoring bullets against a query and picking the most relevant ones.

use vstd::prelude::*;
use crate::bullets::{count_shared, token_set, tokenize};
use crate::text::views;
use crate::types::{bullet_views, BulletView, ContextBullet, ContextState};

verus! {

broadcast use vstd::seq_lib::seq_to_set_is_finite;

/// The relevance of a bullet to a set of query tokens, in tenths: ten per
/// shared token, plus the helpful count, minus the harmful count.
pub open spec fn score(b: BulletView, query_tokens: Set<Seq<char>>) -> int {
    10 * token_set(b.content).intersect(query_tokens).len() + (b.helpful_count
        - b.harmful_count)
}

/// The relevance of a bullet to a query text, in tenths.
pub open spec fn query_score(b: BulletView, query: Seq<char>) -> int {
    score(b, token_set(query))
}

/// `x` placed into `r` after every entry whose score is at least its own.
pub open spec fn insert_ranked(r: Seq<(int, BulletView)>, x: (int, BulletView)) -> Seq<
    (int, BulletView),
>
    decreases r.len(),
{
    if r.len() == 0 {
        seq![x]
    } else if r[0].0 < x.0 {
        seq![x] + r
    } else {
        seq![r[0]] + insert_ranked(r.drop_first(), x)
    }
}

/// The bullets of `bs` with a positive score for `query`, with their scores,
/// highest first; equal scores keep the order of `bs`.
pub open spec fn ranked(bs: Seq<BulletView>, query: Seq<char>) -> Seq<(int, BulletView)>
    decreases bs.len(),
{
    if bs.len() == 0 {
        seq![]
    } else {
        let r = ranked(bs.drop_last(), query);
        let s = query_score(bs.last(), query);
        if s > 0 {
            insert_ranked(r, (s, bs.last()))
        } else {
            r
        }
    }
}

/// The first `limit` bullets of the ranking of `bs` for `query`.
pub open spec fn relevant(bs: Seq<BulletView>, query: Seq<char>, limit: nat) -> Seq<BulletView> {
    let r = ranked(bs, query);
    let n = if limit < r.len() { limit } else { r.len() };
    r.take(n as int).map_values(|p: (int, BulletView)| p.1)
}

/// Each entry carries its bullet's positive score for `query`.
pub open spec fn well_scored(r: Seq<(int, BulletView)>, query: Seq<char>) -> bool {
    forall|k: int| 0 <= k < r.len() ==> #[trigger] r[k].0 == query_score(r[k].1, query) && r[k].0 > 0
}

/// Scores do not increase along `r`.
pub open spec fn descending(r: Seq<(int, BulletView)>) -> bool {
    forall|i: int, j: int| 0 <= i < j < r.len() ==> r[i].0 >= r[j].0
}

proof fn lemma_insert_ranked(r: Seq<(int, BulletView)>, x: (int, BulletView), query: Seq<char>)
    requires
        descending(r),
        well_scored(r, query),
        x.0 == query_score(x.1, query) && x.0 > 0,
    ensures
        descending(insert_ranked(r, x)),
        well_scored(insert_ranked(r, x), query),
        insert_ranked(r, x).len() == r.len() + 1,
        insert_ranked(r, x)[0] == x || (r.len() > 0 && insert_ranked(r, x)[0] == r[0]),
    decreases r.len(),
{
    if r.len() == 0 {
    } else if r[0].0 < x.0 {
        let s = seq![x] + r;
        assert(forall|k: int| 0 < k < s.len() ==> s[k] == r[k - 1]);
        assert(well_scored(s, query)) by {
            assert forall|k: int| 0 <= k < s.len() implies #[trigger] s[k].0 == query_score(s[k].1, query) && s[k].0 > 0 by {
                if k > 0 {
                    assert(s[k] == r[k - 1]);
                }
            }
        }
    } else {
        let t = r.drop_first();
        assert(descending(t));
        assert(well_scored(t, query)) by {
            assert forall|k: int| 0 <= k < t.len() implies #[trigger] t[k].0 == query_score(t[k].1, query) && t[k].0 > 0 by {
                assert(t[k] == r[k + 1]);
            }
        }
        lemma_insert_ranked(t, x, query);
        let it = insert_ranked(t, x);
        let s = seq![r[0]] + it;
        assert(forall|k: int| 0 < k < s.len() ==> s[k] == it[k - 1]);
        assert(descending(s)) by {
            assert forall|i: int, j: int| 0 <= i < j < s.len() implies s[i].0 >= s[j].0 by {
                if i == 0 {
                    assert(r[0].0 >= it[0].0);
                    if j > 1 {
                        assert(it[0].0 >= it[j - 1].0);
                    }
                }
            }
        }
        assert(well_scored(s, query)) by {
            assert forall|k: int| 0 <= k < s.len() implies #[trigger] s[k].0 == query_score(s[k].1, query) && s[k].0 > 0 by {
                if k > 0 {
                    assert(s[k] == it[k - 1]);
                }
            }
        }
    }
}

/// The ranking is in descending order of score, and every entry carries
/// its bullet's positive score.
pub proof fn lemma_ranked(bs: Seq<BulletView>, query: Seq<char>)
    ensures
        descending(ranked(bs, query)),
        well_scored(ranked(bs, query), query),
    decreases bs.len(),
{
    if bs.len() > 0 {
        lemma_ranked(bs.drop_last(), query);
        let s = query_score(bs.last(), query);
        if s > 0 {
            lemma_insert_ranked(ranked(bs.drop_last(), query), (s, bs.last()), query);
        }
    }
}

/// `insert_ranked` puts `x` at the first position whose score is below its own.
proof fn lemma_insert_ranked_at(r: Seq<(int, BulletView)>, x: (int, BulletView), p: int)
    requires
        0 <= p <= r.len(),
        forall|j: int| 0 <= j < p ==> r[j].0 >= x.0,
        p < r.len() ==> r[p].0 < x.0,
    ensures
        insert_ranked(r, x) == r.insert(p, x),
    decreases r.len(),
{
    if r.len() == 0 {
        assert(r.insert(p, x) =~= seq![x]);
    } else if p == 0 {
        assert(r.insert(p, x) =~= seq![x] + r);
    } else {
        let t = r.drop_first();
        lemma_insert_ranked_at(t, x, p - 1);
        assert(r.insert(p, x) =~= seq![r[0]] + t.insert(p - 1, x));
    }
}

/// The relevance of `bullet` to the tokens `query_words`, in tenths: ten
/// per shared distinct token, plus the helpful count, minus the harmful count.
pub fn score_bullet(bullet: &ContextBullet, query_words: &Vec<String>) -> (r: i128)
    ensures
        r == score(bullet@, views(query_words@).to_set()),
{
    let tokens = tokenize(bullet.content.as_str());
    let shared = count_shared(&tokens, query_words);
    10 * (shared as i128) + (bullet.helpful_count as i128 - bullet.harmful_count as i128)
}

/// The ranking entries of `v`, whose second component indexes `bs`.
pub open spec fn entries(v: Seq<(i128, usize)>, bs: Seq<BulletView>) -> Seq<(int, BulletView)> {
    v.map_values(|p: (i128, usize)| (p.0 as int, bs[p.1 as int]))
}

/// The bullets of `context` with a positive score for `query`, highest score
/// first (equal scores keep the store's order), at most `max_bullets` of them.
/// An empty store gives an empty result before the query is looked at.
pub fn get_relevant_bullets(context: &ContextState, query: &str, max_bullets: usize) -> (r: Vec<
    ContextBullet,
>)
    ensures
        bullet_views(r@) == relevant(context.bullets_view(), query@, max_bullets as nat),
        r@.len() <= max_bullets,
        forall|i: int| 0 <= i < r@.len() ==> query_score(#[trigger] r@[i]@, query@) > 0,
        forall|i: int, j: int|
            0 <= i < j < r@.len() ==> query_score(r@[i]@, query@) >= query_score(r@[j]@, query@),
        context.bullets@.len() == 0 ==> r@.len() == 0,
{
    let ghost bs = context.bullets_view();
    if context.bullets.len() == 0 {
        assert(ranked(bs, query@) =~= Seq::<(int, BulletView)>::empty());
        proof {
            lemma_ranked(bs, query@);
        }
        return Vec::new();
    }
    let query_words = tokenize(query);
    let n = context.bullets.len();
    let mut v: Vec<(i128, usize)> = Vec::new();
    let mut i: usize = 0;
    while i < n
        invariant
            n == context.bullets@.len(),
            bs == context.bullets_view(),
            i <= n,
            views(query_words@).to_set() == token_set(query@),
            entries(v@, bs) == ranked(bs.take(i as int), query@),
            forall|k: int| 0 <= k < v@.len() ==> #[trigger] v@[k].1 < n,
        decreases n - i,
    {
        let s = score_bullet(&context.bullets[i], &query_words);
        let ghost b = bs[i as int];
        assert(bs.take(i + 1).drop_last() =~= bs.take(i as int));
        assert(bs.take(i + 1).last() == b);
        assert(s == query_score(b, query@));
        if s > 0 {
            let mut p: usize = 0;
            while p < v.len() && v[p].0 >= s
                invariant
                    p <= v@.len(),
                    forall|j: int| 0 <= j < p ==> v@[j].0 >= s,
                decreases v@.len() - p,
            {
                p = p + 1;
            }
            let ghost before = v@;
            proof {
                lemma_insert_ranked_at(entries(before, bs), (s as int, b), p as int);
            }
            v.insert(p, (s, i));
            assert(entries(v@, bs) =~= entries(before, bs).insert(p as int, (s as int, b)));
        }
        i = i + 1;
    }
    assert(bs.take(n as int) =~= bs);
    proof {
        lemma_ranked(bs, query@);
    }
    let ghost rk = ranked(bs, query@);
    let m = if max_bullets < v.len() { max_bullets } else { v.len() };
    let mut out: Vec<ContextBullet> = Vec::new();
    let mut k: usize = 0;
    while k < m
        invariant
            m <= v@.len(),
            entries(v@, bs) == rk,
            bs == context.bullets_view(),
            forall|q: int| 0 <= q < v@.len() ==> #[trigger] v@[q].1 < context.bullets@.len(),
            k <= m,
            bullet_views(out@) == rk.take(k as int).map_values(|p: (int, BulletView)| p.1),
        decreases m - k,
    {
        let idx = v[k].1;
        let ghost before = out@;
        out.push(context.bullets[idx].copy());
        assert(rk[k as int].1 == bs[idx as int]);
        assert(bullet_views(out@) =~= bullet_views(before).push(rk[k as int].1));
        k = k + 1;
        assert(rk.take(k as int).map_values(|p: (int, BulletView)| p.1) =~= rk.take(k - 1).map_values(
            |p: (int, BulletView)| p.1,
        ).push(rk[k - 1].1));
    }
    assert forall|q: int| 0 <= q < out@.len() implies #[trigger] out@[q]@ == rk[q].1 && rk[q].0 == query_score(rk[q].1, query@) && rk[q].0 > 0 by {
        assert(bullet_views(out@)[q] == out@[q]@);
        assert(rk.take(m as int).map_values(|p: (int, BulletView)| p.1)[q] == rk[q].1);
    }
    out
}

} // verus!
