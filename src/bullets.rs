//! Bullet primitives: creation, feedback, tokens and near-duplicate search.

use vstd::prelude::*;
use crate::platform::{lower_of, lowercase, new_id, now_micros};
use crate::text::{split_words, views, words};
use crate::types::{bullet_views, copy_strings, BulletView, ContextBullet};

verus! {

broadcast use vstd::seq_lib::seq_to_set_is_finite, Seq::<_>::lemma_push_to_set_commute;

/// The distinct lower-case words of a text.
pub open spec fn token_set(s: Seq<char>) -> Set<Seq<char>> {
    words(lower_of(s)).to_set()
}

/// How many distinct tokens two texts share.
pub open spec fn overlap(a: Seq<char>, b: Seq<char>) -> nat {
    token_set(a).intersect(token_set(b)).len()
}

/// Whether `new` restates `existing`: both have tokens, and at least 70% of
/// the tokens of `new` occur in `existing`. The measure is asymmetric: only
/// the tokens of `new` count in the denominator.
pub open spec fn near_duplicate(new: Seq<char>, existing: Seq<char>) -> bool {
    &&& token_set(new).len() > 0
    &&& token_set(existing).len() > 0
    &&& 10 * overlap(new, existing) >= 7 * token_set(new).len()
}

/// `i` is the first position of `bs` whose content `content` restates.
pub open spec fn is_first_duplicate(content: Seq<char>, bs: Seq<BulletView>, i: int) -> bool {
    &&& 0 <= i < bs.len()
    &&& near_duplicate(content, bs[i].content)
    &&& forall|j: int| 0 <= j < i ==> !near_duplicate(content, #[trigger] bs[j].content)
}

/// The first position of `bs` whose content `content` restates, if any.
pub open spec fn first_duplicate(content: Seq<char>, bs: Seq<BulletView>) -> Option<int> {
    if exists|i: int| is_first_duplicate(content, bs, i) {
        Some(choose|i: int| is_first_duplicate(content, bs, i))
    } else {
        None
    }
}

/// A new bullet with the given content and tags: a fresh id, no feedback,
/// and the current time.
pub fn create_bullet(content: String, tags: Vec<String>) -> (r: ContextBullet)
    ensures
        r.content@ == content@,
        views(r.tags@) == views(tags@),
        r.helpful_count == 0,
        r.harmful_count == 0,
        r.id@.len() == 36,
{
    ContextBullet {
        id: new_id(),
        content,
        helpful_count: 0,
        harmful_count: 0,
        created_at: now_micros(),
        tags,
    }
}

/// A bullet after one piece of feedback.
pub open spec fn with_feedback(b: BulletView, helpful: bool) -> BulletView {
    BulletView {
        helpful_count: if helpful { b.helpful_count + 1 } else { b.helpful_count },
        harmful_count: if helpful { b.harmful_count } else { b.harmful_count + 1 },
        ..b
    }
}

/// The same bullet with one more helpful mark if `helpful`, else one more
/// harmful mark; everything else is copied unchanged.
pub fn update_bullet_feedback(bullet: &ContextBullet, helpful: bool) -> (r: ContextBullet)
    requires
        helpful ==> bullet.helpful_count < i32::MAX,
        !helpful ==> bullet.harmful_count < i32::MAX,
    ensures
        r@ == with_feedback(bullet@, helpful),
        helpful ==> r.helpful_count == bullet.helpful_count + 1 && r.harmful_count
            == bullet.harmful_count,
        !helpful ==> r.harmful_count == bullet.harmful_count + 1 && r.helpful_count
            == bullet.helpful_count,
{
    ContextBullet {
        id: bullet.id.clone(),
        content: bullet.content.clone(),
        helpful_count: if helpful { bullet.helpful_count + 1 } else { bullet.helpful_count },
        harmful_count: if helpful { bullet.harmful_count } else { bullet.harmful_count + 1 },
        created_at: bullet.created_at,
        tags: copy_strings(&bullet.tags),
    }
}

/// Whether `v` holds a string equal to `s`.
pub fn contains_str(v: &Vec<String>, s: &String) -> (r: bool)
    ensures
        r == views(v@).contains(s@),
{
    let mut i: usize = 0;
    while i < v.len()
        invariant
            i <= v.len(),
            forall|j: int| 0 <= j < i ==> views(v@)[j] != s@,
        decreases v.len() - i,
    {
        if v[i] == *s {
            assert(views(v@)[i as int] == s@);
            return true;
        }
        i = i + 1;
    }
    false
}

/// The distinct words of `s`, each once, in order of first appearance.
pub fn distinct_words(s: &str) -> (r: Vec<String>)
    ensures
        views(r@).no_duplicates(),
        views(r@).to_set() == words(s@).to_set(),
{
    let ws = split_words(s);
    let mut out: Vec<String> = Vec::new();
    let mut i: usize = 0;
    while i < ws.len()
        invariant
            i <= ws.len(),
            views(ws@) == words(s@),
            views(out@).no_duplicates(),
            views(out@).to_set() == views(ws@).take(i as int).to_set(),
        decreases ws.len() - i,
    {
        let ghost w = ws@[i as int]@;
        assert(views(ws@).take(i + 1) =~= views(ws@).take(i as int).push(w));
        if !contains_str(&out, &ws[i]) {
            let ghost before = out@;
            out.push(ws[i].clone());
            assert(views(out@) =~= views(before).push(w));
        } else {
            assert(views(out@).to_set().insert(w) =~= views(out@).to_set());
        }
        i = i + 1;
    }
    assert(views(ws@).take(ws.len() as int) =~= views(ws@));
    out
}

/// The distinct lower-case words of `s`, each once, in order of first
/// appearance.
pub fn tokenize(s: &str) -> (r: Vec<String>)
    ensures
        views(r@).no_duplicates(),
        views(r@).to_set() == token_set(s@),
{
    let lower = lowercase(s);
    distinct_words(lower.as_str())
}

/// How many strings of `a` also occur in `b`; with `a` free of repeats, the
/// size of the intersection of the two sets.
pub fn count_shared(a: &Vec<String>, b: &Vec<String>) -> (r: usize)
    requires
        views(a@).no_duplicates(),
    ensures
        r == views(a@).to_set().intersect(views(b@).to_set()).len(),
{
    let ghost sb = views(b@).to_set();
    let mut r: usize = 0;
    let mut i: usize = 0;
    assert(views(a@).take(0).to_set().intersect(sb) =~= Set::empty());
    while i < a.len()
        invariant
            i <= a.len(),
            views(a@).no_duplicates(),
            sb == views(b@).to_set(),
            r <= i,
            r == views(a@).take(i as int).to_set().intersect(sb).len(),
        decreases a.len() - i,
    {
        let ghost x = views(a@)[i as int];
        let ghost before = views(a@).take(i as int).to_set();
        assert(views(a@).take(i + 1) =~= views(a@).take(i as int).push(x));
        assert(!before.contains(x)) by {
            if before.contains(x) {
                let k = choose|k: int| 0 <= k < i && views(a@).take(i as int)[k] == x;
                assert(views(a@)[k] == views(a@)[i as int]);
            }
        }
        if contains_str(b, &a[i]) {
            assert(before.insert(x).intersect(sb) =~= before.intersect(sb).insert(x));
            r = r + 1;
        } else {
            assert(before.insert(x).intersect(sb) =~= before.intersect(sb));
        }
        i = i + 1;
    }
    assert(views(a@).take(a.len() as int) =~= views(a@));
    r
}

/// The first duplicate position, when there is one, is the one `is_first_duplicate` names.
pub proof fn lemma_first_duplicate_is(content: Seq<char>, bs: Seq<BulletView>, i: int)
    requires
        is_first_duplicate(content, bs, i),
    ensures
        first_duplicate(content, bs) == Some(i),
{
    let k = choose|k: int| is_first_duplicate(content, bs, k);
    assert(is_first_duplicate(content, bs, k));
    if k < i {
        assert(!near_duplicate(content, bs[k].content));
    }
    if i < k {
        assert(!near_duplicate(content, bs[i].content));
    }
}

/// The position of the first bullet of `bullets` that `content` restates.
pub fn find_duplicate_index(content: &String, bullets: &Vec<ContextBullet>) -> (r: Option<usize>)
    ensures
        r == match first_duplicate(content@, bullet_views(bullets@)) {
            Some(i) => Some(i as usize),
            None => None::<usize>,
        },
        r matches Some(i) ==> is_first_duplicate(content@, bullet_views(bullets@), i as int),
{
    let ghost bs = bullet_views(bullets@);
    let new_tokens = tokenize(content.as_str());
    let new_n = new_tokens.len();
    proof {
        views(new_tokens@).unique_seq_to_set();
    }
    let mut i: usize = 0;
    while i < bullets.len()
        invariant
            i <= bullets.len(),
            bs == bullet_views(bullets@),
            new_n == token_set(content@).len(),
            views(new_tokens@).no_duplicates(),
            views(new_tokens@).to_set() == token_set(content@),
            forall|j: int| 0 <= j < i ==> !near_duplicate(content@, #[trigger] bs[j].content),
        decreases bullets.len() - i,
    {
        let ex_tokens = tokenize(bullets[i].content.as_str());
        let shared = count_shared(&new_tokens, &ex_tokens);
        proof {
            views(ex_tokens@).unique_seq_to_set();
        }
        assert(bs[i as int].content == bullets@[i as int].content@);
        if new_n > 0 && ex_tokens.len() > 0 && (shared as u128) * 10 >= (new_n as u128) * 7 {
            assert(is_first_duplicate(content@, bs, i as int));
            proof {
                lemma_first_duplicate_is(content@, bs, i as int);
            }
            return Some(i);
        }
        i = i + 1;
    }
    assert(!exists|k: int| is_first_duplicate(content@, bs, k));
    None
}

/// The id of the first bullet of `existing` that the content of
/// `new_bullet` restates, if there is one.
pub fn find_duplicate_bullet(new_bullet: &ContextBullet, existing: &Vec<ContextBullet>) -> (r:
    Option<String>)
    ensures
        first_duplicate(new_bullet.content@, bullet_views(existing@)) is None ==> r is None,
        first_duplicate(new_bullet.content@, bullet_views(existing@)) matches Some(i) ==> (r
            matches Some(id) && id@ == existing@[i].id@),
{
    match find_duplicate_index(&new_bullet.content, existing) {
        Some(i) => Some(existing[i].id.clone()),
        None => None,
    }
}

} // verus!
