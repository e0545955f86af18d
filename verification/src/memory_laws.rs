//! Laws of the episodic memory store, stated over the timeline that
//! `MemoryStore`'s operations produce and the queries they answer.
use vstd::prelude::*;
use crate::store::{
    capped, history_spec, holds_id, ids_unique, in_interaction, insert_in_order, insertion_point,
    lemma_insertion_point, mentions, newest_first, ordered, recent_spec, search_spec,
};
use crate::text::{contains_folded, occurs_folded_at};
use crate::types::EpisodeView;

verus! {

broadcast use {vstd::seq_lib::group_filter_ensures, vstd::seq::Seq::lemma_filter_contains_rev};

/// An episode created no earlier than everything stored goes to the end of
/// the timeline.
pub proof fn law_latest_episode_is_appended(tl: Seq<EpisodeView>, e: EpisodeView)
    requires
        ordered(tl),
        forall|i: int| 0 <= i < tl.len() ==> #[trigger] tl[i].created_at_unix <= e.created_at_unix,
    ensures
        insert_in_order(tl, e) == tl.push(e),
{
    lemma_insertion_point(tl, e.created_at_unix);
    let p = insertion_point(tl, e.created_at_unix);
    if p < tl.len() {
        assert(tl[p].created_at_unix > e.created_at_unix);
    }
    assert(tl.insert(p, e) =~= tl.push(e));
}

/// Record, then recall: an episode stored no earlier than everything
/// already stored comes back first from every recall of recent episodes
/// with a limit of at least one.
pub proof fn law_recorded_episode_is_recalled_first(tl: Seq<EpisodeView>, e: EpisodeView, limit: u32)
    requires
        ordered(tl),
        forall|i: int| 0 <= i < tl.len() ==> #[trigger] tl[i].created_at_unix <= e.created_at_unix,
        limit >= 1,
    ensures
        recent_spec(insert_in_order(tl, e), limit).len() >= 1,
        recent_spec(insert_in_order(tl, e), limit)[0] == e,
{
    law_latest_episode_is_appended(tl, e);
}

/// Every successful store adds exactly one episode, and it can be found by
/// its id afterwards.
pub proof fn law_store_adds_one_findable_episode(tl: Seq<EpisodeView>, e: EpisodeView)
    requires
        ordered(tl),
    ensures
        insert_in_order(tl, e).len() == tl.len() + 1,
        insert_in_order(tl, e).contains(e),
        holds_id(insert_in_order(tl, e), e.id),
{
    lemma_insertion_point(tl, e.created_at_unix);
    let p = insertion_point(tl, e.created_at_unix);
    tl.insert_ensures(p, e);
    assert(insert_in_order(tl, e)[p] == e);
}

/// With unique ids, the episode found by an id is the one stored under it.
pub proof fn law_id_names_one_episode(tl: Seq<EpisodeView>, a: EpisodeView, b: EpisodeView)
    requires
        ids_unique(tl),
        tl.contains(a),
        tl.contains(b),
        a.id == b.id,
    ensures
        a == b,
{
    let i = choose|i: int| 0 <= i < tl.len() && tl[i] == a;
    let j = choose|j: int| 0 <= j < tl.len() && tl[j] == b;
    if i < j {
    } else if j < i {
    }
}

/// The history of an interaction holds exactly that interaction's
/// episodes: nothing from another interaction, and every stored episode of
/// it.
pub proof fn law_history_is_exactly_the_interaction(tl: Seq<EpisodeView>, c: u128)
    ensures
        forall|i: int| 0 <= i < history_spec(tl, c).len() ==> #[trigger] history_spec(tl, c)[i].correlation_id == c,
        forall|i: int| 0 <= i < tl.len() && tl[i].correlation_id == c ==> history_spec(tl, c).contains(#[trigger] tl[i]),
{
    assert forall|i: int| 0 <= i < history_spec(tl, c).len() implies #[trigger] history_spec(tl, c)[i].correlation_id == c by {
        assert(in_interaction(c)(tl.filter(in_interaction(c))[i]));
    }
    assert forall|i: int| 0 <= i < tl.len() && tl[i].correlation_id == c implies history_spec(tl, c).contains(#[trigger] tl[i]) by {
        assert(in_interaction(c)(tl[i]));
    }
}

/// Recording the latest episode of an interaction extends that
/// interaction's history by it and leaves every other history unchanged.
pub proof fn law_history_grows_in_order(tl: Seq<EpisodeView>, e: EpisodeView, c: u128)
    requires
        ordered(tl),
        forall|i: int| 0 <= i < tl.len() ==> #[trigger] tl[i].created_at_unix <= e.created_at_unix,
    ensures
        history_spec(insert_in_order(tl, e), c) == if e.correlation_id == c {
            history_spec(tl, c).push(e)
        } else {
            history_spec(tl, c)
        },
{
    law_latest_episode_is_appended(tl, e);
    reveal(Seq::filter);
    assert(tl.push(e).drop_last() =~= tl);
}

/// A recall returns the requested number of episodes, or all of them when
/// fewer are stored; a recall with a larger limit extends one with a
/// smaller limit.
pub proof fn law_recall_sizes(tl: Seq<EpisodeView>, small: u32, large: u32)
    requires
        small <= large,
    ensures
        recent_spec(tl, small).len() == capped(small, tl.len()),
        recent_spec(tl, small).is_prefix_of(recent_spec(tl, large)),
{
    assert(recent_spec(tl, small) =~= recent_spec(tl, large).subrange(0, recent_spec(tl, small).len() as int));
}

/// Search finds only stored episodes that contain the query, newest first,
/// never more than the limit.
pub proof fn law_search_finds_only_matches(tl: Seq<EpisodeView>, query: Seq<char>, limit: u32)
    ensures
        search_spec(tl, query, limit).len() <= limit,
        forall|i: int| 0 <= i < search_spec(tl, query, limit).len() ==> contains_folded(#[trigger] search_spec(tl, query, limit)[i].content, query),
        forall|i: int| 0 <= i < search_spec(tl, query, limit).len() ==> tl.contains(#[trigger] search_spec(tl, query, limit)[i]),
{
    let nf = newest_first(tl);
    let found = nf.filter(mentions(query));
    assert forall|i: int| 0 <= i < search_spec(tl, query, limit).len() implies contains_folded(#[trigger] search_spec(tl, query, limit)[i].content, query) && tl.contains(search_spec(tl, query, limit)[i]) by {
        assert(search_spec(tl, query, limit)[i] == found[i]);
        assert(mentions(query)(found[i]));
        assert(found.contains(found[i]));
        assert(nf.contains(found[i]));
        let k = choose|k: int| 0 <= k < nf.len() && nf[k] == found[i];
        assert(tl[tl.len() - 1 - k] == found[i]);
    }
}

/// With a limit at least the number of stored episodes, search misses
/// nothing: every stored episode that contains the query is found.
pub proof fn law_search_is_complete_under_limit(tl: Seq<EpisodeView>, query: Seq<char>, limit: u32)
    requires
        tl.len() <= limit,
    ensures
        forall|i: int| 0 <= i < tl.len() && contains_folded(tl[i].content, query) ==> search_spec(tl, query, limit).contains(#[trigger] tl[i]),
{
    let nf = newest_first(tl);
    let found = nf.filter(mentions(query));
    assert(found.take(capped(limit, found.len())) =~= found);
    assert forall|i: int| 0 <= i < tl.len() && contains_folded(tl[i].content, query) implies search_spec(tl, query, limit).contains(#[trigger] tl[i]) by {
        let k = tl.len() - 1 - i;
        assert(nf[k] == tl[i]);
        assert(mentions(query)(nf[k]));
    }
}

/// Substring matching finds every occurrence: the query occurring (ASCII
/// letters compared without regard to case) at any position of a text
/// means the text contains it, and containing it means occurring at some
/// position.
pub proof fn law_contains_is_any_occurrence(hay: Seq<char>, needle: Seq<char>, i: int)
    ensures
        occurs_folded_at(hay, needle, i) ==> contains_folded(hay, needle),
        contains_folded(hay, needle) ==> exists|j: int| 0 <= j && j + needle.len() <= hay.len() && occurs_folded_at(hay, needle, j),
{
}

/// Search misses no occurrence: when the query occurs at any position of a
/// stored episode's content and the store holds no more episodes than the
/// limit, the search returns that episode.
pub proof fn law_search_finds_every_occurrence(tl: Seq<EpisodeView>, query: Seq<char>, limit: u32, k: int, i: int)
    requires
        tl.len() <= limit,
        0 <= k < tl.len(),
        occurs_folded_at(tl[k].content, query, i),
    ensures
        search_spec(tl, query, limit).contains(tl[k]),
{
    law_contains_is_any_occurrence(tl[k].content, query, i);
    law_search_is_complete_under_limit(tl, query, limit);
}

} // verus!
