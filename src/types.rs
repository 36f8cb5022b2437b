//! The memory's data: bullets, the versioned store, deltas, trajectories and
//! insights.

use vstd::prelude::*;
use crate::text::views;

verus! {

/// A single memory note with its usage feedback counters.
///
/// `created_at` is a point in time in microseconds since the Unix epoch.
#[derive(Debug, Clone)]
pub struct ContextBullet {
    pub id: String,
    pub content: String,
    pub helpful_count: i32,
    pub harmful_count: i32,
    pub created_at: i64,
    pub tags: Vec<String>,
}

/// What a bullet holds, as mathematical values.
pub struct BulletView {
    pub id: Seq<char>,
    pub content: Seq<char>,
    pub helpful_count: int,
    pub harmful_count: int,
    pub created_at: int,
    pub tags: Seq<Seq<char>>,
}

impl View for ContextBullet {
    type V = BulletView;

    open spec fn view(&self) -> BulletView {
        BulletView {
            id: self.id@,
            content: self.content@,
            helpful_count: self.helpful_count as int,
            harmful_count: self.harmful_count as int,
            created_at: self.created_at as int,
            tags: views(self.tags@),
        }
    }
}

/// The view of each bullet of a sequence.
pub open spec fn bullet_views(v: Seq<ContextBullet>) -> Seq<BulletView> {
    v.map_values(|b: ContextBullet| b@)
}

/// A copy of a list of strings.
pub fn copy_strings(v: &Vec<String>) -> (r: Vec<String>)
    ensures
        views(r@) == views(v@),
{
    let mut r: Vec<String> = Vec::new();
    let mut i: usize = 0;
    while i < v.len()
        invariant
            i <= v.len(),
            views(r@) == views(v@).take(i as int),
        decreases v.len() - i,
    {
        let ghost before = r@;
        r.push(v[i].clone());
        assert(views(r@) =~= views(before).push(v@[i as int]@));
        i = i + 1;
        assert(views(v@).take(i as int) =~= views(v@).take(i - 1).push(v@[i - 1]@));
    }
    assert(views(v@).take(v.len() as int) =~= views(v@));
    r
}

impl ContextBullet {
    /// A copy of this bullet.
    pub fn copy(&self) -> (r: ContextBullet)
        ensures
            r@ == self@,
    {
        ContextBullet {
            id: self.id.clone(),
            content: self.content.clone(),
            helpful_count: self.helpful_count,
            harmful_count: self.harmful_count,
            created_at: self.created_at,
            tags: copy_strings(&self.tags),
        }
    }
}

/// A copy of a list of bullets.
pub fn copy_bullets(v: &Vec<ContextBullet>) -> (r: Vec<ContextBullet>)
    ensures
        bullet_views(r@) == bullet_views(v@),
{
    let mut r: Vec<ContextBullet> = Vec::new();
    let mut i: usize = 0;
    while i < v.len()
        invariant
            i <= v.len(),
            bullet_views(r@) == bullet_views(v@).take(i as int),
        decreases v.len() - i,
    {
        let ghost before = r@;
        r.push(v[i].copy());
        assert(bullet_views(r@) =~= bullet_views(before).push(v@[i as int]@));
        i = i + 1;
        assert(bullet_views(v@).take(i as int) =~= bullet_views(v@).take(i - 1).push(
            v@[i - 1]@,
        ));
    }
    assert(bullet_views(v@).take(v.len() as int) =~= bullet_views(v@));
    r
}

/// One step of a reasoning pass; `timestamp` is in microseconds since the
/// Unix epoch.
#[derive(Debug, Clone)]
pub struct ReasoningStep {
    pub description: String,
    pub timestamp: i64,
}

/// The structured record of one query-answer reasoning pass.
#[derive(Debug, Clone)]
pub struct Trajectory {
    pub query: String,
    pub steps: Vec<ReasoningStep>,
    pub outcome: String,
    pub success: bool,
    pub used_bullets: Vec<String>,
    pub feedback: Option<String>,
}

/// A confidence of one, in millionths.
pub const FULL_CONFIDENCE: u32 = 1000000;

/// A distilled lesson; `confidence` lies in `[0, 1]` and is held in millionths
/// (`FULL_CONFIDENCE` stands for one).
#[derive(Debug, Clone)]
pub struct Insight {
    pub content: String,
    pub insight_type: String,
    pub confidence: u32,
    pub source_id: String,
}

/// A batch of candidate bullets to fold into the memory, in order;
/// `timestamp` is in microseconds since the Unix epoch.
#[derive(Debug, Clone)]
pub struct DeltaUpdate {
    pub bullets: Vec<ContextBullet>,
    pub timestamp: i64,
}

/// The memory: bullets keyed by their id, and a version that counts merges.
///
/// The bullets are kept in the order in which their ids first came in; no
/// two of them share an id.
#[derive(Debug, Clone)]
pub struct ContextState {
    pub bullets: Vec<ContextBullet>,
    pub version: i32,
}

/// No two bullets of `s` share an id.
pub open spec fn ids_unique(s: Seq<BulletView>) -> bool {
    forall|i: int, j: int| 0 <= i < s.len() && 0 <= j < s.len() && i != j ==> s[i].id != s[j].id
}

impl ContextState {
    /// The bullets, as mathematical values.
    pub open spec fn bullets_view(&self) -> Seq<BulletView> {
        bullet_views(self.bullets@)
    }

    /// Bullet ids are unique and the version is not negative.
    pub open spec fn wf(&self) -> bool {
        &&& ids_unique(self.bullets_view())
        &&& self.version >= 0
    }

    /// An empty memory at version zero.
    pub fn new() -> (r: ContextState)
        ensures
            r.bullets@.len() == 0,
            r.version == 0,
            r.wf(),
    {
        ContextState { bullets: Vec::new(), version: 0 }
    }
}

} // verus!
