use vstd::prelude::*;
use crate::error::{BellaError, BellaResult};
use crate::text::{contains_folded, contains_ignoring_ascii_case};
use crate::types::{Episode, EpisodeView, NewEpisode};

verus! {

broadcast use {vstd::seq_lib::group_filter_ensures, vstd::seq::Seq::lemma_filter_contains_rev};

/// The views of a sequence of episodes.
pub open spec fn episode_views(es: Seq<Episode>) -> Seq<EpisodeView> {
    es.map_values(|e: Episode| e@)
}

/// The timeline is ordered by creation time (ties stay in the order they
/// were stored).
pub open spec fn ordered(tl: Seq<EpisodeView>) -> bool {
    forall|i: int, j: int| 0 <= i <= j < tl.len() ==> tl[i].created_at_unix <= tl[j].created_at_unix
}

/// No two stored episodes share an id (the id is the primary key).
pub open spec fn ids_unique(tl: Seq<EpisodeView>) -> bool {
    forall|i: int, j: int| 0 <= i < j < tl.len() ==> tl[i].id != tl[j].id
}

/// Some stored episode has this id.
pub open spec fn holds_id(tl: Seq<EpisodeView>, id: u128) -> bool {
    exists|i: int| 0 <= i < tl.len() && tl[i].id == id
}

/// Where an episode created at `t` goes in the timeline: after every
/// episode created at or before `t`, before every later one.
pub open spec fn insertion_point(tl: Seq<EpisodeView>, t: i64) -> int
    decreases tl.len(),
{
    if tl.len() == 0 {
        0
    } else if tl.last().created_at_unix <= t {
        tl.len() as int
    } else {
        insertion_point(tl.drop_last(), t)
    }
}

/// The timeline after storing `e`.
pub open spec fn insert_in_order(tl: Seq<EpisodeView>, e: EpisodeView) -> Seq<EpisodeView> {
    tl.insert(insertion_point(tl, e.created_at_unix), e)
}

/// The timeline newest first: latest creation time first, and among equal
/// times the one stored last first.
pub open spec fn newest_first(tl: Seq<EpisodeView>) -> Seq<EpisodeView> {
    Seq::new(tl.len(), |i: int| tl[tl.len() - 1 - i])
}

/// The smaller of a limit and a length.
pub open spec fn capped(limit: u32, len: nat) -> int {
    if (limit as nat) < len {
        limit as int
    } else {
        len as int
    }
}

/// The `limit` most recent episodes, most recent first.
pub open spec fn recent_spec(tl: Seq<EpisodeView>, limit: u32) -> Seq<EpisodeView> {
    newest_first(tl).take(capped(limit, tl.len()))
}

/// The episode belongs to interaction `c`.
pub open spec fn in_interaction(c: u128) -> spec_fn(EpisodeView) -> bool {
    |e: EpisodeView| e.correlation_id == c
}

/// Every episode of interaction `c`, oldest first.
pub open spec fn history_spec(tl: Seq<EpisodeView>, c: u128) -> Seq<EpisodeView> {
    tl.filter(in_interaction(c))
}

/// The episode's content contains `query` (ASCII letters compared without
/// regard to case).
pub open spec fn mentions(query: Seq<char>) -> spec_fn(EpisodeView) -> bool {
    |e: EpisodeView| contains_folded(e.content, query)
}

/// The `limit` most recent episodes whose content contains `query`, most
/// recent first.
pub open spec fn search_spec(tl: Seq<EpisodeView>, query: Seq<char>, limit: u32) -> Seq<EpisodeView> {
    let found = newest_first(tl).filter(mentions(query));
    found.take(capped(limit, found.len()))
}

/// The text of the error a second episode with a stored id is refused with.
pub open spec fn duplicate_id_text() -> Seq<char> {
    "UNIQUE constraint failed: episodes.id"@
}

/// The episodic memory store: every stored episode, ordered by creation
/// time. All querying of memory goes through its methods.
pub struct MemoryStore {
    timeline: Vec<Episode>,
}

impl View for MemoryStore {
    type V = Seq<EpisodeView>;

    closed spec fn view(&self) -> Seq<EpisodeView> {
        episode_views(self.timeline@)
    }
}

impl MemoryStore {
    #[verifier::type_invariant]
    closed spec fn well_formed(self) -> bool {
        &&& ordered(episode_views(self.timeline@))
        &&& ids_unique(episode_views(self.timeline@))
    }

    /// An empty store.
    pub fn new() -> (s: Self)
        ensures
            s@ == Seq::<EpisodeView>::empty(),
    {
        let s = MemoryStore { timeline: Vec::new() };
        assert(s@ =~= Seq::<EpisodeView>::empty());
        s
    }

    /// An empty store that lives only in memory.
    pub fn open_in_memory() -> (s: Self)
        ensures
            s@ == Seq::<EpisodeView>::empty(),
    {
        Self::new()
    }

    /// Is an episode with this id stored?
    pub fn contains_id(&self, id: u128) -> (r: bool)
        ensures
            r == holds_id(self@, id),
    {
        let n = self.timeline.len();
        let mut i: usize = 0;
        while i < n
            invariant
                n == self.timeline@.len(),
                i <= n,
                forall|j: int| 0 <= j < i ==> self@[j].id != id,
            decreases n - i,
        {
            if self.timeline[i].id == id {
                assert(self@[i as int].id == id);
                return true;
            }
            i += 1;
        }
        false
    }

    /// Store an already stamped episode in its place in the timeline.
    /// Refused, changing nothing, when an episode with the same id is stored.
    pub fn insert_record(&mut self, e: Episode) -> (r: BellaResult<()>)
        ensures
            r is Err <==> holds_id(old(self)@, e.id),
            r is Ok ==> final(self)@ == insert_in_order(old(self)@, e@),
            ordered(final(self)@),
            ids_unique(final(self)@),
            r is Err ==> final(self)@ == old(self)@,
            r matches Err(err) ==> err matches BellaError::Internal(text) && text@ == duplicate_id_text(),
    {
        proof { use_type_invariant(&*self); }
        if self.contains_id(e.id) {
            return Err(BellaError::Internal(String::from_str("UNIQUE constraint failed: episodes.id")));
        }
        let ghost tl = self@;
        let ghost ev = e@;
        let t = e.created_at_unix;
        let n = self.timeline.len();
        let mut p: usize = n;
        assert(tl.take(n as int) =~= tl);
        while p > 0 && self.timeline[p - 1].created_at_unix > t
            invariant
                n == self.timeline@.len(),
                tl == episode_views(self.timeline@),
                p <= n,
                insertion_point(tl, t) == insertion_point(tl.take(p as int), t),
                forall|k: int| p <= k < n ==> tl[k].created_at_unix > t,
            decreases p,
        {
            assert(tl.take(p as int).drop_last() =~= tl.take(p - 1));
            p -= 1;
        }
        assert(insertion_point(tl, t) == p) by {
            if p > 0 {
                assert(tl.take(p as int).last() == tl[p - 1]);
            }
        }
        proof { lemma_insert_keeps_well_formed(tl, ev); }
        let mut timeline: Vec<Episode> = Vec::new();
        std::mem::swap(&mut timeline, &mut self.timeline);
        timeline.insert(p, e);
        assert(episode_views(timeline@) =~= tl.insert(p as int, ev));
        self.timeline = timeline;
        Ok(())
    }

    /// Store a new episode: it gets a fresh random id and the current time,
    /// and takes its place in the timeline. Fails, changing nothing, when
    /// the clock reads before the epoch or the id is already taken.
    pub fn insert_episode(&mut self, new: NewEpisode) -> (r: BellaResult<Episode>)
        ensures
            r matches Ok(e) ==> {
                &&& e.correlation_id == new.correlation_id
                &&& e.content == new.content
                &&& e.kind == new.kind
                &&& !holds_id(old(self)@, e.id)
                &&& final(self)@ == insert_in_order(old(self)@, e@)
            },
            ordered(final(self)@),
            ids_unique(final(self)@),
            r is Err ==> final(self)@ == old(self)@,
    {
        proof { use_type_invariant(&*self); }
        let e = Episode::stamped(new)?;
        let kept = e.clone();
        match self.insert_record(e) {
            Ok(()) => Ok(kept),
            Err(err) => Err(err),
        }
    }

    /// The `limit` most recent episodes, most recent first.
    pub fn recent_episodes(&self, limit: u32) -> (out: Vec<Episode>)
        ensures
            episode_views(out@) == recent_spec(self@, limit),
    {
        let ghost tl = self@;
        let n = self.timeline.len();
        let mut out: Vec<Episode> = Vec::new();
        let mut i: usize = 0;
        while i < n && (i as u64) < (limit as u64)
            invariant
                n == self.timeline@.len(),
                tl == episode_views(self.timeline@),
                i <= n,
                i <= limit,
                episode_views(out@) == newest_first(tl).take(i as int),
            decreases n - i,
        {
            let ghost before = episode_views(out@);
            out.push(self.timeline[n - 1 - i].clone());
            assert(episode_views(out@) =~= newest_first(tl).take(i + 1)) by {
                assert(episode_views(out@) =~= before.push(tl[n - 1 - i]));
            }
            i += 1;
        }
        out
    }

    /// Every episode of one interaction (sharing `correlation_id`), oldest
    /// first: the full chain of what happened for one request, in order.
    pub fn episodes_by_correlation(&self, correlation_id: u128) -> (out: Vec<Episode>)
        ensures
            episode_views(out@) == history_spec(self@, correlation_id),
    {
        let ghost tl = self@;
        let ghost pred = in_interaction(correlation_id);
        let n = self.timeline.len();
        let mut out: Vec<Episode> = Vec::new();
        let mut i: usize = 0;
        while i < n
            invariant
                n == self.timeline@.len(),
                tl == episode_views(self.timeline@),
                pred == in_interaction(correlation_id),
                i <= n,
                episode_views(out@) == tl.take(i as int).filter(pred),
            decreases n - i,
        {
            proof {
                reveal(Seq::filter);
                assert(tl.take(i + 1).drop_last() =~= tl.take(i as int));
            }
            if self.timeline[i].correlation_id == correlation_id {
                let ghost before = episode_views(out@);
                out.push(self.timeline[i].clone());
                assert(episode_views(out@) =~= before.push(tl[i as int]));
            }
            i += 1;
        }
        assert(tl.take(n as int) =~= tl);
        out
    }

    /// The `limit` most recent episodes whose content contains `query`,
    /// most recent first. Matching is plain substring matching with ASCII
    /// letters compared without regard to case; it is not semantic search.
    pub fn search_content(&self, query: &str, limit: u32) -> (out: Vec<Episode>)
        ensures
            episode_views(out@) == search_spec(self@, query@, limit),
    {
        let ghost tl = self@;
        let ghost nf = newest_first(tl);
        let ghost pred = mentions(query@);
        let n = self.timeline.len();
        let mut out: Vec<Episode> = Vec::new();
        let mut i: usize = 0;
        while i < n && (out.len() as u64) < (limit as u64)
            invariant
                n == self.timeline@.len(),
                tl == episode_views(self.timeline@),
                nf == newest_first(tl),
                pred == mentions(query@),
                i <= n,
                out@.len() <= limit,
                episode_views(out@) == nf.take(i as int).filter(pred),
            decreases n - i,
        {
            proof {
                reveal(Seq::filter);
                assert(nf.take(i + 1).drop_last() =~= nf.take(i as int));
                assert(nf[i as int] == tl[n - 1 - i]);
            }
            let e = &self.timeline[n - 1 - i];
            if contains_ignoring_ascii_case(e.content.as_str(), query) {
                let ghost before = episode_views(out@);
                out.push(e.clone());
                assert(episode_views(out@) =~= before.push(nf[i as int]));
            }
            i += 1;
        }
        proof {
            let found = nf.filter(pred);
            let part = nf.take(i as int).filter(pred);
            assert(nf =~= nf.take(i as int) + nf.skip(i as int));
            Seq::filter_distributes_over_add(nf.take(i as int), nf.skip(i as int), pred);
            assert(found == part + nf.skip(i as int).filter(pred));
            if i == n {
                assert(nf.skip(i as int) =~= Seq::<EpisodeView>::empty());
                assert(nf.skip(i as int).filter(pred) =~= Seq::<EpisodeView>::empty()) by {
                    reveal(Seq::filter);
                }
                assert(found =~= part);
                assert(found.take(capped(limit, found.len())) =~= part);
            } else {
                assert(part.len() == limit);
                assert(found.take(capped(limit, found.len())) =~= part);
            }
        }
        out
    }

    /// The stored episode with this id, if any.
    pub fn get_by_id(&self, id: u128) -> (r: Option<Episode>)
        ensures
            r is Some <==> holds_id(self@, id),
            r matches Some(e) ==> e.id == id && self@.contains(e@),
    {
        let n = self.timeline.len();
        let mut i: usize = 0;
        while i < n
            invariant
                n == self.timeline@.len(),
                i <= n,
                forall|j: int| 0 <= j < i ==> self@[j].id != id,
            decreases n - i,
        {
            if self.timeline[i].id == id {
                assert(self@[i as int] == self.timeline@[i as int]@);
                return Some(self.timeline[i].clone());
            }
            i += 1;
        }
        None
    }

    /// The number of stored episodes.
    pub fn count(&self) -> (c: u64)
        ensures
            c == self@.len(),
            ordered(self@),
            ids_unique(self@),
    {
        proof { use_type_invariant(self); }
        self.timeline.len() as u64
    }
}

/// The episode at each position of the timeline after an insertion at `p`.
proof fn lemma_insert_index(tl: Seq<EpisodeView>, p: int, e: EpisodeView)
    requires
        0 <= p <= tl.len(),
    ensures
        tl.insert(p, e).len() == tl.len() + 1,
        forall|k: int| 0 <= k < tl.insert(p, e).len() ==> #[trigger] tl.insert(p, e)[k] == (if k < p {
            tl[k]
        } else if k == p {
            e
        } else {
            tl[k - 1]
        }),
{
    tl.insert_ensures(p, e);
}

/// Storing an episode under a new id keeps the timeline ordered and its ids
/// unique.
proof fn lemma_insert_keeps_well_formed(tl: Seq<EpisodeView>, e: EpisodeView)
    requires
        ordered(tl),
        ids_unique(tl),
        !holds_id(tl, e.id),
    ensures
        ordered(insert_in_order(tl, e)),
        ids_unique(insert_in_order(tl, e)),
        insert_in_order(tl, e).len() == tl.len() + 1,
{
    let p = insertion_point(tl, e.created_at_unix);
    lemma_insertion_point(tl, e.created_at_unix);
    lemma_insert_index(tl, p, e);
    let s = tl.insert(p, e);
    assert forall|i: int, j: int| 0 <= i <= j < s.len() implies s[i].created_at_unix <= s[j].created_at_unix by {
        let a = s[i];
        let b = s[j];
        if i < p {
            assert(a == tl[i]);
            if j < p {
                assert(b == tl[j]);
            } else if j > p {
                assert(b == tl[j - 1]);
            }
        } else if i == p {
            if j > p {
                assert(b == tl[j - 1]);
            }
        } else {
            assert(a == tl[i - 1]);
            assert(b == tl[j - 1]);
        }
    }
    assert forall|i: int, j: int| 0 <= i < j < s.len() implies s[i].id != s[j].id by {
        let a = s[i];
        let b = s[j];
        if i < p {
            assert(a == tl[i]);
            if j < p {
                assert(b == tl[j]);
            } else if j > p {
                assert(b == tl[j - 1]);
            }
        } else if i == p {
            assert(b == tl[j - 1]);
        } else {
            assert(a == tl[i - 1]);
            assert(b == tl[j - 1]);
        }
    }
}

/// The insertion point of an ordered timeline separates the episodes
/// created at or before `t` from the later ones.
pub proof fn lemma_insertion_point(tl: Seq<EpisodeView>, t: i64)
    requires
        ordered(tl),
    ensures
        0 <= insertion_point(tl, t) <= tl.len(),
        forall|i: int| 0 <= i < insertion_point(tl, t) ==> tl[i].created_at_unix <= t,
        forall|i: int| insertion_point(tl, t) <= i < tl.len() ==> tl[i].created_at_unix > t,
    decreases tl.len(),
{
    if tl.len() > 0 {
        let last = tl.len() - 1;
        if tl[last].created_at_unix > t {
            let d = tl.drop_last();
            assert(ordered(d)) by {
                assert forall|i: int, j: int| 0 <= i <= j < d.len() implies d[i].created_at_unix <= d[j].created_at_unix by {
                    assert(d[i] == tl[i]);
                    assert(d[j] == tl[j]);
                }
            }
            lemma_insertion_point(d, t);
            assert forall|i: int| 0 <= i < insertion_point(tl, t) implies tl[i].created_at_unix <= t by {
                assert(d[i] == tl[i]);
            }
            assert forall|i: int| insertion_point(tl, t) <= i < tl.len() implies tl[i].created_at_unix > t by {
                if i < last {
                    assert(d[i] == tl[i]);
                }
            }
        } else {
            assert forall|i: int| 0 <= i < tl.len() implies tl[i].created_at_unix <= t by {
                assert(tl[i].created_at_unix <= tl[last].created_at_unix);
            }
        }
    }
}

} // verus!
