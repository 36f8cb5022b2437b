//! Folding a delta into the memory, with near-duplicates absorbed.

use vstd::prelude::*;
use crate::bullets::{
    find_duplicate_index, first_duplicate, is_first_duplicate, lemma_first_duplicate_is,
    near_duplicate, update_bullet_feedback, with_feedback,
};
use crate::types::{bullet_views, copy_bullets, ids_unique, BulletView, ContextBullet, ContextState, DeltaUpdate};

verus! {

/// The position of the bullet with id `id` in `bs`, if there is one.
pub open spec fn id_position(bs: Seq<BulletView>, id: Seq<char>) -> Option<int> {
    if exists|i: int| 0 <= i < bs.len() && bs[i].id == id {
        Some(choose|i: int| 0 <= i < bs.len() && bs[i].id == id)
    } else {
        None
    }
}

/// `bs` after folding in one incoming bullet: a bullet that restates an
/// existing one bumps the helpful count of the first such and is dropped;
/// any other is stored under its own id.
pub open spec fn merge_one(bs: Seq<BulletView>, b: BulletView) -> Seq<BulletView> {
    match first_duplicate(b.content, bs) {
        Some(i) => bs.update(i, with_feedback(bs[i], true)),
        None => match id_position(bs, b.id) {
            Some(j) => bs.update(j, b),
            None => bs.push(b),
        },
    }
}

/// `bs` after folding in the bullets of `ds`, in order.
pub open spec fn merged(bs: Seq<BulletView>, ds: Seq<BulletView>) -> Seq<BulletView>
    decreases ds.len(),
{
    if ds.len() == 0 {
        bs
    } else {
        merge_one(merged(bs, ds.drop_last()), ds.last())
    }
}

/// Every helpful count in `bs` is at most `bound`.
pub open spec fn helpful_at_most(bs: Seq<BulletView>, bound: int) -> bool {
    forall|i: int| 0 <= i < bs.len() ==> #[trigger] bs[i].helpful_count <= bound
}

/// The position of the bullet with id `id` in `bullets`, if there is one.
fn find_id(bullets: &Vec<ContextBullet>, id: &String) -> (r: Option<usize>)
    ensures
        r matches Some(j) ==> j < bullets@.len() && bullets@[j as int].id@ == id@,
        r is None ==> forall|j: int| 0 <= j < bullets@.len() ==> bullets@[j].id@ != id@,
{
    let mut i: usize = 0;
    while i < bullets.len()
        invariant
            i <= bullets.len(),
            forall|j: int| 0 <= j < i ==> bullets@[j].id@ != id@,
        decreases bullets.len() - i,
    {
        if bullets[i].id == *id {
            return Some(i);
        }
        i = i + 1;
    }
    None
}

/// With unique ids, the position that holds an id is the one `id_position` names.
proof fn lemma_id_position_is(bs: Seq<BulletView>, j: int)
    requires
        ids_unique(bs),
        0 <= j < bs.len(),
    ensures
        id_position(bs, bs[j].id) == Some(j),
{
    let k = choose|k: int| 0 <= k < bs.len() && bs[k].id == bs[j].id;
    assert(0 <= k < bs.len() && bs[k].id == bs[j].id);
}

/// A new memory: `context` with the bullets of `delta` folded in, in order,
/// and the version one higher, also when the delta is empty.
pub fn merge_delta(context: &ContextState, delta: &DeltaUpdate) -> (r: ContextState)
    requires
        context.wf(),
        context.version < i32::MAX,
        helpful_at_most(context.bullets_view(), i32::MAX - delta.bullets@.len()),
        helpful_at_most(bullet_views(delta.bullets@), i32::MAX - delta.bullets@.len()),
    ensures
        r.bullets_view() == merged(context.bullets_view(), bullet_views(delta.bullets@)),
        r.version == context.version + 1,
        r.wf(),
{
    let ghost start = context.bullets_view();
    let ghost ds = bullet_views(delta.bullets@);
    let n = delta.bullets.len();
    let mut bs = copy_bullets(&context.bullets);
    let mut i: usize = 0;
    while i < n
        invariant
            n == delta.bullets@.len(),
            ds == bullet_views(delta.bullets@),
            i <= n,
            bullet_views(bs@) == merged(start, ds.take(i as int)),
            ids_unique(bullet_views(bs@)),
            helpful_at_most(bullet_views(bs@), i32::MAX - n + i),
            helpful_at_most(ds, i32::MAX - n),
        decreases n - i,
    {
        let ghost cur = bullet_views(bs@);
        let ghost b = ds[i as int];
        assert(ds.take(i + 1).drop_last() =~= ds.take(i as int));
        assert(ds.take(i + 1).last() == b);
        assert(delta.bullets@[i as int]@ == b);
        match find_duplicate_index(&delta.bullets[i].content, &bs) {
            Some(k) => {
                assert(cur[k as int].helpful_count <= i32::MAX - n + i);
                let nb = update_bullet_feedback(&bs[k], true);
                bs.set(k, nb);
                assert(bullet_views(bs@) =~= cur.update(k as int, with_feedback(cur[k as int], true)));
                assert(ids_unique(bullet_views(bs@))) by {
                    assert(forall|j: int| 0 <= j < cur.len() ==> #[trigger] bullet_views(bs@)[j].id == cur[j].id);
                }
            },
            None => {
                match find_id(&bs, &delta.bullets[i].id) {
                    Some(j) => {
                        proof {
                            lemma_id_position_is(cur, j as int);
                        }
                        bs.set(j, delta.bullets[i].copy());
                        assert(bullet_views(bs@) =~= cur.update(j as int, b));
                        assert(ids_unique(bullet_views(bs@))) by {
                            assert(forall|q: int| 0 <= q < cur.len() ==> #[trigger] bullet_views(bs@)[q].id == cur[q].id);
                        }
                    },
                    None => {
                        assert(id_position(cur, b.id) is None) by {
                            if exists|q: int| 0 <= q < cur.len() && cur[q].id == b.id {
                                let q = choose|q: int| 0 <= q < cur.len() && cur[q].id == b.id;
                                assert(bs@[q].id@ == cur[q].id);
                            }
                        }
                        bs.push(delta.bullets[i].copy());
                        assert(bullet_views(bs@) =~= cur.push(b));
                    },
                }
            },
        }
        i = i + 1;
    }
    assert(ds.take(n as int) =~= ds);
    ContextState { bullets: bs, version: context.version + 1 }
}

/// When `content` restates the bullet at `e`, some position up to `e` is the
/// first that it restates.
proof fn lemma_first_duplicate_exists(content: Seq<char>, bs: Seq<BulletView>, e: int)
    requires
        0 <= e < bs.len(),
        near_duplicate(content, bs[e].content),
    ensures
        exists|i: int| 0 <= i <= e && #[trigger] is_first_duplicate(content, bs, i),
    decreases e,
{
    if exists|j: int| 0 <= j < e && near_duplicate(content, #[trigger] bs[j].content) {
        let j = choose|j: int| 0 <= j < e && near_duplicate(content, #[trigger] bs[j].content);
        lemma_first_duplicate_exists(content, bs, j);
    } else {
        assert(is_first_duplicate(content, bs, e));
    }
}

/// Merging a single bullet that restates an existing one (at least 70% of
/// its tokens occur there) adds no entry: the first bullet that it restates
/// gets one more helpful mark, and nothing else changes.
pub proof fn lemma_merge_absorbs_near_duplicate(bs: Seq<BulletView>, b: BulletView, e: int)
    requires
        0 <= e < bs.len(),
        near_duplicate(b.content, bs[e].content),
    ensures
        merged(bs, seq![b]).len() == bs.len(),
        exists|i: int|
            0 <= i <= e && near_duplicate(b.content, #[trigger] bs[i].content) && merged(
                bs,
                seq![b],
            ) == bs.update(i, with_feedback(bs[i], true)) && merged(bs, seq![b])[i].helpful_count
                == bs[i].helpful_count + 1,
{
    assert(seq![b].drop_last() =~= Seq::<BulletView>::empty());
    assert(seq![b].last() == b);
    lemma_first_duplicate_exists(b.content, bs, e);
    let i = choose|i: int| 0 <= i <= e && #[trigger] is_first_duplicate(b.content, bs, i);
    lemma_first_duplicate_is(b.content, bs, i);
    assert(merged(bs, Seq::<BulletView>::empty()) == bs);
    assert(merge_one(bs, b) == bs.update(i, with_feedback(bs[i], true)));
    assert(merged(bs, seq![b]) == merge_one(bs, b));
}

} // verus!
