//! Properties that hold across the library's operations.

use vstd::prelude::*;
use crate::messages::{
    lemma_rep_index, lemma_sort_sorted, merge_pending_spec, push_pending, represented, rep_index,
    att_names, fill_first, fill_msg, sorted_by_sent,
    synth, fill_all, PendingView, history_before, id_index, keyed, merge_by_id, merge_by_id_spec, merged_in, min_sent,
    put_by_id, sort_by_sent, insert_by_sent, MessageView,
};
use crate::thread::lookup;
use crate::sidebar::presence_spec;
use crate::cron::truncate_spec;
use crate::devices::{without_cluster, ClusterPolling, PollStep};
use crate::cluster::{ClusterStatus, JoinedCluster};
use crate::calendar::cells_spec;
use crate::sidebar_flow::{refresh_ok, HitsEffect, RefreshGate, SidebarSearch};
use crate::device_gate::DeviceGateStatus;
use crate::share_nav::{back_spec, navigate_spec, path_text, NavView};
use crate::share_listing::{apply_spec, begin_spec, kept_selection, names_entry, ListingView, ShareEntry, ShareLoadStep};
use crate::workspace::{canonical_id, capability_matches};
use crate::sidebar::{row_active_spec, selection_marks, ChatConversation};
use crate::search_results::{append_new, ids_distinct, nav_spec, SearchNav};
use crate::thread::has_id;
use crate::text::{ascii_lower, ascii_lower_char, is_ws, trim, trim_end, trim_start};

verus! {

proof fn lemma_min_sent(s: Seq<MessageView>)
    requires
        s.len() > 0,
    ensures
        forall|i: int| 0 <= i < s.len() ==> min_sent(s) <= #[trigger] s[i].sent_at,
        exists|i: int| 0 <= i < s.len() && min_sent(s) == #[trigger] s[i].sent_at,
    decreases s.len(),
{
    if s.len() > 1 {
        let t = s.drop_last();
        lemma_min_sent(t);
        assert forall|i: int| 0 <= i < s.len() implies min_sent(s) <= #[trigger] s[i].sent_at by {
            if i < t.len() {
                assert(s[i] == t[i]);
            }
        }
        if s.last().sent_at < min_sent(t) {
            assert(s[s.len() - 1].sent_at == min_sent(s));
        } else {
            let k = choose|k: int| 0 <= k < t.len() && min_sent(t) == #[trigger] t[k].sent_at;
            assert(s[k] == t[k]);
        }
    } else {
        assert(s[0].sent_at == min_sent(s));
    }
}

/// The "load earlier" cursor only moves toward older messages: after a
/// non-empty page it is no later than the previous cursor and no later
/// than any fetched message, and it is the send time of a fetched message
/// or the previous cursor.
pub proof fn law_history_cursor_moves_older(current: Option<u64>, fetched: Seq<MessageView>)
    requires
        fetched.len() > 0,
    ensures
        history_before(current, fetched) is Some,
        current matches Some(c) ==> history_before(current, fetched)->0 <= c,
        forall|i: int|
            0 <= i < fetched.len() ==> history_before(current, fetched)->0 <= #[trigger] fetched[i].sent_at,
        current == Some(history_before(current, fetched)->0) || exists|i: int|
            0 <= i < fetched.len() && #[trigger] fetched[i].sent_at == history_before(current, fetched)->0,
{
    lemma_min_sent(fetched);
}

/// No two messages of `s` share an id.
pub open spec fn distinct_ids(s: Seq<MessageView>) -> bool {
    forall|i: int, j: int| 0 <= i < j < s.len() ==> s[i].id != s[j].id
}

/// Some message of `s` has id `id`.
pub open spec fn has_msg_id(s: Seq<MessageView>, id: Seq<char>) -> bool {
    exists|i: int| 0 <= i < s.len() && (#[trigger] s[i]).id == id
}

proof fn lemma_id_index_none(s: Seq<MessageView>, id: Seq<char>)
    ensures
        id_index(s, id) == -1 <==> !has_msg_id(s, id),
        id_index(s, id) >= 0 ==> 0 <= id_index(s, id) < s.len() && s[id_index(s, id)].id == id,
    decreases s.len(),
{
    if s.len() > 0 {
        let t = s.drop_last();
        lemma_id_index_none(t, id);
        if has_msg_id(s, id) && id_index(s, id) == -1 {
            let k = choose|k: int| 0 <= k < s.len() && (#[trigger] s[k]).id == id;
            if k < t.len() {
                assert(t[k] == s[k]);
            }
        }
        if has_msg_id(t, id) {
            let k = choose|k: int| 0 <= k < t.len() && (#[trigger] t[k]).id == id;
            assert(s[k] == t[k]);
        }
        if id_index(t, id) >= 0 {
            assert(s[id_index(t, id)] == t[id_index(t, id)]);
        }
    }
}

proof fn lemma_replace_keeps(s: Seq<MessageView>, k: int, m: MessageView)
    requires
        0 <= k < s.len(),
        s[k].id == m.id,
    ensures
        distinct_ids(s) ==> distinct_ids(s.update(k, m)),
        forall|id: Seq<char>| has_msg_id(s, id) ==> #[trigger] has_msg_id(s.update(k, m), id),
        has_msg_id(s.update(k, m), m.id),
{
    let u = s.update(k, m);
    assert forall|id: Seq<char>| has_msg_id(s, id) implies #[trigger] has_msg_id(u, id) by {
        let i = choose|i: int| 0 <= i < s.len() && (#[trigger] s[i]).id == id;
        assert(u[i].id == id);
    }
    assert(u[k].id == m.id);
}

proof fn lemma_append_keeps(s: Seq<MessageView>, m: MessageView)
    requires
        !has_msg_id(s, m.id),
    ensures
        distinct_ids(s) ==> distinct_ids(s.push(m)),
        forall|id: Seq<char>| has_msg_id(s, id) ==> #[trigger] has_msg_id(s.push(m), id),
        has_msg_id(s.push(m), m.id),
{
    let u = s.push(m);
    assert forall|id: Seq<char>| has_msg_id(s, id) implies #[trigger] has_msg_id(u, id) by {
        let i = choose|i: int| 0 <= i < s.len() && (#[trigger] s[i]).id == id;
        assert(u[i].id == id);
    }
    assert(u[s.len() as int].id == m.id);
    if distinct_ids(s) {
        assert forall|i: int, j: int| 0 <= i < j < u.len() implies u[i].id != u[j].id by {
            if j == s.len() {
                assert(u[i] == s[i]);
                if s[i].id == m.id {
                    assert(has_msg_id(s, m.id));
                }
            }
        }
    }
}

proof fn lemma_merge_by_id_keeps(s: Seq<MessageView>, m: MessageView)
    ensures
        distinct_ids(s) ==> distinct_ids(merge_by_id(s, m)),
        distinct_ids(s) ==> distinct_ids(put_by_id(s, m)),
        forall|id: Seq<char>| has_msg_id(s, id) ==> #[trigger] has_msg_id(merge_by_id(s, m), id),
        forall|id: Seq<char>| has_msg_id(s, id) ==> #[trigger] has_msg_id(put_by_id(s, m), id),
        has_msg_id(merge_by_id(s, m), m.id),
        has_msg_id(put_by_id(s, m), m.id),
{
    lemma_id_index_none(s, m.id);
    let i = id_index(s, m.id);
    if i >= 0 {
        lemma_replace_keeps(s, i, m);
        assert(has_msg_id(s, m.id));
    } else {
        lemma_append_keeps(s, m);
    }
}

proof fn lemma_keyed(e: Seq<MessageView>)
    ensures
        distinct_ids(keyed(e)),
        forall|i: int| 0 <= i < e.len() ==> #[trigger] has_msg_id(keyed(e), e[i].id),
    decreases e.len(),
{
    if e.len() > 0 {
        let t = e.drop_last();
        lemma_keyed(t);
        lemma_merge_by_id_keeps(keyed(t), e.last());
        assert forall|i: int| 0 <= i < e.len() implies #[trigger] has_msg_id(keyed(e), e[i].id) by {
            if i < t.len() {
                assert(e[i] == t[i]);
                assert(has_msg_id(keyed(t), t[i].id));
            }
        }
    }
}

proof fn lemma_merged_in(base: Seq<MessageView>, inc: Seq<MessageView>)
    ensures
        distinct_ids(base) ==> distinct_ids(merged_in(base, inc)),
        forall|id: Seq<char>| has_msg_id(base, id) ==> #[trigger] has_msg_id(merged_in(base, inc), id),
        forall|i: int| 0 <= i < inc.len() ==> #[trigger] has_msg_id(merged_in(base, inc), inc[i].id),
    decreases inc.len(),
{
    if inc.len() > 0 {
        let t = inc.drop_last();
        lemma_merged_in(base, t);
        lemma_merge_by_id_keeps(merged_in(base, t), inc.last());
        assert forall|i: int| 0 <= i < inc.len() implies #[trigger] has_msg_id(merged_in(base, inc), inc[i].id) by {
            if i < t.len() {
                assert(inc[i] == t[i]);
                assert(has_msg_id(merged_in(base, t), t[i].id));
            }
        }
    }
}

proof fn lemma_insert_by_sent(s: Seq<MessageView>, m: MessageView)
    ensures
        distinct_ids(s) && !has_msg_id(s, m.id) ==> distinct_ids(insert_by_sent(s, m)),
        forall|id: Seq<char>|
            #[trigger] has_msg_id(insert_by_sent(s, m), id) <==> (has_msg_id(s, id) || m.id == id),
    decreases s.len(),
{
    if s.len() == 0 {
        let u = insert_by_sent(s, m);
        assert forall|id: Seq<char>| #[trigger] has_msg_id(u, id) <==> (has_msg_id(s, id) || m.id == id) by {
            if m.id == id {
                assert(u[0].id == id);
            }
        }
    } else if s.last().sent_at <= m.sent_at {
        let u = s.push(m);
        assert forall|id: Seq<char>| #[trigger] has_msg_id(u, id) <==> (has_msg_id(s, id) || m.id == id) by {
            if has_msg_id(u, id) {
                let i = choose|i: int| 0 <= i < u.len() && (#[trigger] u[i]).id == id;
                if i < s.len() {
                    assert(s[i] == u[i]);
                }
            }
            if has_msg_id(s, id) {
                let i = choose|i: int| 0 <= i < s.len() && (#[trigger] s[i]).id == id;
                assert(u[i] == s[i]);
            }
            if m.id == id {
                assert(u[s.len() as int].id == id);
            }
        }
        if distinct_ids(s) && !has_msg_id(s, m.id) {
            lemma_append_keeps(s, m);
        }
    } else {
        let t = s.drop_last();
        let x = s.last();
        lemma_insert_by_sent(t, m);
        let r = insert_by_sent(t, m);
        let u = r.push(x);
        assert(s =~= t.push(x));
        assert forall|id: Seq<char>| has_msg_id(t, id) || x.id == id <==> #[trigger] has_msg_id(s, id) by {
            if has_msg_id(s, id) {
                let i = choose|i: int| 0 <= i < s.len() && (#[trigger] s[i]).id == id;
                if i < t.len() {
                    assert(t[i] == s[i]);
                }
            }
            if has_msg_id(t, id) {
                let i = choose|i: int| 0 <= i < t.len() && (#[trigger] t[i]).id == id;
                assert(s[i] == t[i]);
            }
            if x.id == id {
                assert(s[s.len() - 1].id == id);
            }
        }
        assert forall|id: Seq<char>| #[trigger] has_msg_id(u, id) <==> (has_msg_id(r, id) || x.id == id) by {
            if has_msg_id(u, id) {
                let i = choose|i: int| 0 <= i < u.len() && (#[trigger] u[i]).id == id;
                if i < r.len() {
                    assert(r[i] == u[i]);
                }
            }
            if has_msg_id(r, id) {
                let i = choose|i: int| 0 <= i < r.len() && (#[trigger] r[i]).id == id;
                assert(u[i] == r[i]);
            }
            if x.id == id {
                assert(u[r.len() as int].id == id);
            }
        }
        if distinct_ids(s) && !has_msg_id(s, m.id) {
            assert forall|i: int, j: int| 0 <= i < j < t.len() implies t[i].id != t[j].id by {
                assert(t[i] == s[i] && t[j] == s[j]);
            }
            if has_msg_id(t, x.id) {
                let i = choose|i: int| 0 <= i < t.len() && (#[trigger] t[i]).id == x.id;
                assert(s[i] == t[i]);
                assert(s[s.len() - 1] == x);
            }
            assert(!has_msg_id(t, m.id));
            assert(x.id != m.id) by {
                if x.id == m.id {
                    assert(s[s.len() - 1].id == m.id);
                }
            }
            lemma_append_keeps(r, x);
        }
    }
}

proof fn lemma_sort_by_sent_ids(s: Seq<MessageView>)
    ensures
        distinct_ids(s) ==> distinct_ids(sort_by_sent(s)),
        forall|id: Seq<char>| #[trigger] has_msg_id(sort_by_sent(s), id) <==> has_msg_id(s, id),
    decreases s.len(),
{
    if s.len() > 0 {
        let t = s.drop_last();
        let x = s.last();
        lemma_sort_by_sent_ids(t);
        lemma_insert_by_sent(sort_by_sent(t), x);
        assert(s =~= t.push(x));
        assert forall|id: Seq<char>| has_msg_id(t, id) || x.id == id <==> #[trigger] has_msg_id(s, id) by {
            if has_msg_id(s, id) {
                let i = choose|i: int| 0 <= i < s.len() && (#[trigger] s[i]).id == id;
                if i < t.len() {
                    assert(t[i] == s[i]);
                }
            }
            if has_msg_id(t, id) {
                let i = choose|i: int| 0 <= i < t.len() && (#[trigger] t[i]).id == id;
                assert(s[i] == t[i]);
            }
            if x.id == id {
                assert(s[s.len() - 1].id == id);
            }
        }
        if distinct_ids(s) {
            assert forall|i: int, j: int| 0 <= i < j < t.len() implies t[i].id != t[j].id by {
                assert(t[i] == s[i] && t[j] == s[j]);
            }
            if has_msg_id(t, x.id) {
                let i = choose|i: int| 0 <= i < t.len() && (#[trigger] t[i]).id == x.id;
                assert(s[i] == t[i]);
            }
        }
    }
}

/// Merging a fetched page by id dedupes: the result holds one message per
/// id, and every id of the existing list and of the page is in it.
pub proof fn law_merge_by_id_one_per_id(existing: Seq<MessageView>, incoming: Seq<MessageView>)
    ensures
        distinct_ids(merge_by_id_spec(existing, incoming)),
        forall|i: int|
            0 <= i < existing.len() ==> #[trigger] has_msg_id(merge_by_id_spec(existing, incoming), existing[i].id),
        forall|i: int|
            0 <= i < incoming.len() ==> #[trigger] has_msg_id(merge_by_id_spec(existing, incoming), incoming[i].id),
{
    lemma_keyed(existing);
    lemma_merged_in(keyed(existing), incoming);
    lemma_sort_by_sent_ids(merged_in(keyed(existing), incoming));
    assert forall|i: int| 0 <= i < existing.len() implies #[trigger] has_msg_id(
        merge_by_id_spec(existing, incoming),
        existing[i].id,
    ) by {
        assert(has_msg_id(keyed(existing), existing[i].id));
        assert(has_msg_id(merged_in(keyed(existing), incoming), existing[i].id));
    }
    assert forall|i: int| 0 <= i < incoming.len() implies #[trigger] has_msg_id(
        merge_by_id_spec(existing, incoming),
        incoming[i].id,
    ) by {
        assert(has_msg_id(merged_in(keyed(existing), incoming), incoming[i].id));
    }
}

/// Presence never reads an unknown state as offline: without the online
/// flag, a row is "offline" only when the raw presence says so.
pub proof fn law_presence_unknown_is_not_offline(raw: Seq<char>)
    ensures
        (presence_spec(false, raw) == "offline"@) <==> (raw == "offline"@),
{
    reveal_strlit("offline");
    reveal_strlit("online");
    reveal_strlit("recently_online");
    reveal_strlit("unknown");
    reveal_strlit("signed_in");
    reveal_strlit("recently_seen");
    if raw == "online"@ {
        assert(raw[1] != "offline"@[1]);
    }
    if raw == "signed_in"@ || raw == "recently_seen"@ {
        assert("recently_online"@.len() != "offline"@.len());
    } else if raw != "offline"@ && raw != "online"@ {
        assert("unknown"@[0] != "offline"@[0]);
    }
}

/// A newer fetch supersedes an older one: once a fetch of the conversation
/// is tagged with the next generation, a result tagged with an earlier
/// generation (no later than the counter) is no longer current, and the
/// other conversations keep their generations.
pub proof fn law_newer_fetch_supersedes(
    generations: Map<Seq<char>, u64>,
    counter: u64,
    conv: Seq<char>,
    older: u64,
    other: Seq<char>,
)
    requires
        older <= counter,
        counter < u64::MAX,
        other != conv,
    ensures
        lookup(generations.insert(conv, (counter + 1) as u64), conv) != Some(older),
        lookup(generations.insert(conv, (counter + 1) as u64), other) == lookup(generations, other),
{
}

/// Truncation keeps a prefix: the result starts with the first characters
/// of the text and is at most one character (the ellipsis) longer than the
/// limit; a text within the limit is kept whole.
pub proof fn law_truncate_keeps_prefix(s: Seq<char>, max: nat)
    ensures
        truncate_spec(s, max).len() <= max + 1,
        s.len() <= max ==> truncate_spec(s, max) == s,
        s.len() > max ==> truncate_spec(s, max).take(max as int) == s.take(max as int),
        s.len() > max ==> truncate_spec(s, max).last() == '…',
{
    if s.len() > max {
        assert(truncate_spec(s, max).take(max as int) =~= s.take(max as int));
    }
}

/// Removing a cluster from the local list leaves no entry with its id and
/// keeps every other entry.
pub proof fn law_removed_cluster_is_gone(cs: Seq<JoinedCluster>, id: Seq<char>)
    ensures
        forall|i: int|
            0 <= i < without_cluster(cs, id).len() ==> (#[trigger] without_cluster(cs, id)[i]).cluster_id@ != id,
        forall|i: int|
            0 <= i < cs.len() && (#[trigger] cs[i]).cluster_id@ != id ==> without_cluster(cs, id).contains(cs[i]),
    decreases cs.len(),
{
    if cs.len() > 0 {
        let t = cs.drop_last();
        law_removed_cluster_is_gone(t, id);
        assert forall|i: int|
            0 <= i < cs.len() && (#[trigger] cs[i]).cluster_id@ != id implies without_cluster(cs, id).contains(
            cs[i],
        ) by {
            if i < t.len() {
                assert(cs[i] == t[i]);
                let k = choose|k: int| 0 <= k < without_cluster(t, id).len() && without_cluster(t, id)[k] == t[i];
                assert(without_cluster(cs, id)[k] == t[i]);
            } else {
                assert(cs[i] == cs.last());
                let w = without_cluster(cs, id);
                assert(w[w.len() - 1] == cs.last());
            }
        }
    }
}

/// The date picker shows every day of the month once, in order: day `d`
/// sits in slot `leading + d - 1`.
pub proof fn law_calendar_shows_every_day(leading: int, days: int, d: int)
    requires
        0 <= leading < 7,
        28 <= days <= 31,
        1 <= d <= days,
    ensures
        cells_spec(leading, days)[leading + d - 1] == Some(d as u32),
        forall|slot: int|
            0 <= slot < 42 && #[trigger] cells_spec(leading, days)[slot] == Some(d as u32) ==> slot == leading
                + d - 1,
{
}

/// Some message of `s` stands for the pending message `p`.
pub open spec fn stands_for(s: Seq<MessageView>, p: PendingView) -> bool {
    exists|i: int| 0 <= i < s.len() && represented(#[trigger] s[i], p)
}

proof fn lemma_push_pending(s: Seq<MessageView>, ps: Seq<PendingView>, author: Seq<char>)
    ensures
        forall|j: int| 0 <= j < ps.len() ==> #[trigger] stands_for(push_pending(s, ps, author), ps[j]),
        forall|i: int| 0 <= i < s.len() ==> push_pending(s, ps, author)[i] == s[i],
        push_pending(s, ps, author).len() >= s.len(),
    decreases ps.len(),
{
    if ps.len() > 0 {
        let t = ps.drop_last();
        let p = ps.last();
        lemma_push_pending(s, t, author);
        let prev = push_pending(s, t, author);
        let r = push_pending(s, ps, author);
        lemma_rep_index(prev, p);
        assert forall|j: int| 0 <= j < ps.len() implies #[trigger] stands_for(r, ps[j]) by {
            if j < t.len() {
                assert(ps[j] == t[j]);
                assert(stands_for(prev, t[j]));
                let i = choose|i: int| 0 <= i < prev.len() && represented(#[trigger] prev[i], t[j]);
                assert(r[i] == prev[i]);
            } else if rep_index(prev, p) >= 0 {
                assert(represented(r[rep_index(prev, p)], p));
            } else {
                assert(r[prev.len() as int] == synth(p, author));
                assert(represented(synth(p, author), p));
            }
        }
    }
}

/// Every optimistic message keeps a bubble after merging: each pending
/// message is stood for by some message of the merged list (its confirmed
/// copy or its own bubble).
pub proof fn law_merge_pending_keeps_every_pending(
    messages: Seq<MessageView>,
    pending: Seq<PendingView>,
    author: Seq<char>,
)
    ensures
        forall|j: int|
            0 <= j < pending.len() ==> #[trigger] stands_for(merge_pending_spec(messages, pending, author), pending[j]),
{
    broadcast use vstd::seq_lib::group_to_multiset_ensures;
    let pushed = push_pending(fill_all(messages, pending), pending, author);
    lemma_push_pending(fill_all(messages, pending), pending, author);
    lemma_sort_sorted(pushed);
    let sorted = merge_pending_spec(messages, pending, author);
    assert forall|j: int| 0 <= j < pending.len() implies #[trigger] stands_for(sorted, pending[j]) by {
        assert(stands_for(pushed, pending[j]));
        let i = choose|i: int| 0 <= i < pushed.len() && represented(#[trigger] pushed[i], pending[j]);
        assert(pushed.to_multiset().count(pushed[i]) > 0);
        assert(sorted.to_multiset().count(pushed[i]) > 0);
        assert(sorted.contains(pushed[i]));
        let k = choose|k: int| 0 <= k < sorted.len() && sorted[k] == pushed[i];
        assert(represented(sorted[k], pending[j]));
    }
}

/// Media hits answer only the latest search: after a refresh that fetches,
/// an answer tagged with any earlier generation is no longer current.
pub proof fn law_older_hits_are_dropped(s: SidebarSearch, t: SidebarSearch, e: HitsEffect, older: u64)
    requires
        refresh_ok(s, t, e),
        e is Fetch,
        older <= s.hit_generation,
        s.hit_generation < u64::MAX,
    ensures
        older != t.hit_generation,
{
}

/// A tab blocked on login or device bootstrap keeps polling until the
/// account and device are ready.
pub proof fn law_blocked_tab_keeps_polling(g: DeviceGateStatus)
    ensures
        g.blocking_spec() ==> g.needs_poll_spec(),
{
}

/// A listing fetched and applied while current is served from the cache by
/// the next load of the same node and path that is not forced: no fetch,
/// the same entries on screen.
pub proof fn law_fetched_listing_is_served_again(
    s: ListingView,
    node: Seq<char>,
    path: Seq<char>,
    listing: Seq<ShareEntry>,
)
    ensures
        ({
            let t = apply_spec(s, s.load_seq, node, path, Some(node), path, Ok(listing));
            let (u, step) = begin_spec(t, node, path, false);
            step == ShareLoadStep::Served && u.entries == listing && u.error is None && !u.loading
        }),
{
}

/// A forced load always fetches and leaves nothing cached for its node and
/// path; a load that is not forced fetches only when nothing is cached.
pub proof fn law_forced_load_fetches(s: ListingView, node: Seq<char>, path: Seq<char>)
    ensures
        begin_spec(s, node, path, true).1 is Fetch,
        !begin_spec(s, node, path, true).0.cache.contains_key((node, path)),
        (begin_spec(s, node, path, false).1 is Fetch) == !s.cache.contains_key((node, path)),
{
}

/// A load started after another supersedes it: the earlier fetch's result is
/// dropped and changes nothing, whatever it holds and whatever is on screen.
pub proof fn law_superseded_listing_is_dropped(
    s: ListingView,
    node: Seq<char>,
    path: Seq<char>,
    force: bool,
    node2: Seq<char>,
    path2: Seq<char>,
    force2: bool,
    browsing: Option<Seq<char>>,
    current_path: Seq<char>,
    result: Result<Seq<ShareEntry>, Seq<char>>,
)
    requires
        begin_spec(s, node, path, force).1 is Fetch,
    ensures
        ({
            let (t, step) = begin_spec(s, node, path, force);
            let u = begin_spec(t, node2, path2, force2).0;
            apply_spec(u, step->seq, node, path, browsing, current_path, result) == u
        }),
{
}

/// After a listing is put on screen the selection, if any, names one of its
/// entries.
pub proof fn law_selection_names_a_listed_entry(sel: Option<Seq<char>>, listing: Seq<ShareEntry>)
    ensures
        kept_selection(sel, listing) matches Some(n) ==> names_entry(listing, n),
        sel matches Some(n) && names_entry(listing, n) ==> kept_selection(sel, listing) == sel,
{
}

proof fn lemma_trim_start_shape(s: Seq<char>)
    ensures
        trim_start(s).len() == 0 || !is_ws(trim_start(s)[0]),
        trim_start(s).len() > 0 ==> trim_start(s).last() == s.last(),
    decreases s.len(),
{
    if s.len() > 0 && is_ws(s[0]) {
        lemma_trim_start_shape(s.drop_first());
    }
}

proof fn lemma_trim_end_shape(s: Seq<char>)
    ensures
        trim_end(s).len() == 0 || !is_ws(trim_end(s).last()),
        trim_end(s).len() > 0 ==> trim_end(s)[0] == s[0],
    decreases s.len(),
{
    if s.len() > 0 && is_ws(s.last()) {
        lemma_trim_end_shape(s.drop_last());
    }
}

proof fn lemma_lower_keeps_non_ws(c: char)
    requires
        !is_ws(c),
    ensures
        !is_ws(ascii_lower_char(c)),
        ascii_lower_char(ascii_lower_char(c)) == ascii_lower_char(c),
{
}

/// A trimmed, lower-cased text is left as it is by trimming and lower-casing.
proof fn lemma_trim_lower_fixed(s: Seq<char>)
    ensures
        trim(ascii_lower(trim(s))) == ascii_lower(trim(s)),
        ascii_lower(ascii_lower(trim(s))) == ascii_lower(trim(s)),
{
    let t = trim(s);
    lemma_trim_start_shape(s);
    lemma_trim_end_shape(trim_start(s));
    let l = ascii_lower(t);
    if t.len() > 0 {
        lemma_lower_keeps_non_ws(t[0]);
        lemma_lower_keeps_non_ws(t.last());
        assert(l[0] == ascii_lower_char(t[0]));
        assert(l.last() == ascii_lower_char(t.last()));
    }
    assert(trim_start(l) == l);
    assert(trim_end(l) == l);
    assert forall|i: int| 0 <= i < l.len() implies #[trigger] ascii_lower(l)[i] == l[i] by {
        let c = t[i];
        if 'A' <= c && c <= 'Z' {
            assert(ascii_lower_char(c) as u32 == c as u32 + 32);
        }
    }
    assert(ascii_lower(l) =~= l);
}

/// Tool ids are canonical once: canonicalising a canonical id changes
/// nothing, so an id and its canonical form match the same capabilities.
pub proof fn law_canonical_id_is_idempotent(id: Seq<char>, requested: Seq<char>)
    ensures
        canonical_id(canonical_id(id)) == canonical_id(id),
        capability_matches(canonical_id(id), requested) == capability_matches(id, requested),
        capability_matches(id, id),
{
    lemma_trim_lower_fixed(id);
    let lib = "libreoffice"@;
    reveal_strlit("libreoffice");
    reveal_strlit("onlyoffice");
    assert(lib.len() == 11);
    assert(!is_ws(lib[0]) && !is_ws(lib.last()));
    assert(trim_start(lib) == lib);
    assert(trim_end(lib) == lib);
    assert(ascii_lower(lib) =~= lib);
    assert(lib != "onlyoffice"@);
}

/// Removing or hiding an id clears the selection exactly when, with no
/// selection in progress, that id's row is highlighted; the selected row and
/// the row being selected are always highlighted.
pub proof fn law_selection_clears_with_its_row(
    convs: Seq<ChatConversation>,
    id: Seq<char>,
    selecting: Option<Seq<char>>,
    selected: Option<Seq<char>>,
)
    ensures
        row_active_spec(convs, id, None, selected) == selection_marks(convs, selected, id),
        row_active_spec(convs, id, selecting, Some(id)),
        row_active_spec(convs, id, Some(id), selected),
{
}

/// A step to the next hit followed by a step back returns to the hit it
/// left, and a step back followed by a step on too, whenever the current
/// hit is loaded and the step moved.
pub proof fn law_next_then_previous_returns(current: usize, total: u64, loaded: nat, has_more: bool)
    requires
        current < total,
        current < loaded,
    ensures
        nav_spec(current, total, loaded, has_more, true) matches SearchNav::Show(d) ==> (d != current
            ==> nav_spec(d, total, loaded, has_more, false) == SearchNav::Show(current)),
        nav_spec(current, total, loaded, has_more, false) matches SearchNav::Show(d) ==> (d != current
            ==> nav_spec(d, total, loaded, has_more, true) == SearchNav::Show(current)),
{
}

/// A step from a current hit within the count only ever shows a loaded
/// hit within the count.
pub proof fn law_navigation_stays_in_range(current: usize, total: u64, loaded: nat, has_more: bool, forward: bool)
    requires
        current < total || total == 0,
    ensures
        nav_spec(current, total, loaded, has_more, forward) matches SearchNav::Show(d) ==> (d < loaded && d < total),
        nav_spec(current, total, loaded, has_more, forward) matches SearchNav::FetchMore(d) ==> (d >= loaded
            && has_more),
{
}

/// Appending a page never lists a hit twice: hits with distinct ids stay
/// distinct, and every hit already listed stays in place.
pub proof fn law_appended_hits_stay_distinct(base: Seq<MessageView>, page: Seq<MessageView>)
    requires
        ids_distinct(base),
    ensures
        ids_distinct(append_new(base, page)),
        append_new(base, page).len() >= base.len(),
        append_new(base, page).take(base.len() as int) == base,
    decreases page.len(),
{
    if page.len() > 0 {
        law_appended_hits_stay_distinct(base, page.drop_last());
        let b = append_new(base, page.drop_last());
        if !has_id(b, page.last().id) {
            let n = b.push(page.last());
            assert forall|i: int, j: int| 0 <= i < j < n.len() implies n[i].id != n[j].id by {
                if j == n.len() - 1 {
                    assert(n[i] == b[i]);
                    if n[i].id == n[j].id {
                        assert(has_id(b, page.last().id));
                    }
                } else {
                    assert(n[i] == b[i] && n[j] == b[j]);
                }
            }
            assert(n.take(base.len() as int) =~= b.take(base.len() as int));
        }
    } else {
        assert(base.take(base.len() as int) =~= base);
    }
}

/// Sidebar refreshes never overlap and are not lost: a request while one
/// runs does not start another; any number of such requests leads to
/// exactly one more refresh when it ends, after which nothing is pending.
pub proof fn law_refresh_requests_coalesce(g: RefreshGate, extra: nat)
    requires
        g.in_flight,
    ensures
        !g.request_spec().1,
        g.request_spec().0.in_flight,
        repeat_requests(g, extra + 1).finish_spec().1,
        repeat_requests(g, extra + 1).finish_spec().0.in_flight,
        !repeat_requests(g, extra + 1).finish_spec().0.finish_spec().1,
        !repeat_requests(g, extra + 1).finish_spec().0.finish_spec().0.in_flight,
{
    lemma_requests_pending(g, extra + 1);
}

proof fn lemma_requests_pending(g: RefreshGate, n: nat)
    requires
        g.in_flight,
        n >= 1,
    ensures
        repeat_requests(g, n).in_flight,
        repeat_requests(g, n).pending,
    decreases n,
{
    assert(repeat_requests(g, n) == repeat_requests(g, (n - 1) as nat).request_spec().0);
    if n > 1 {
        lemma_requests_pending(g, (n - 1) as nat);
    } else {
        assert(repeat_requests(g, 0) == g);
    }
}

/// The refresh state after `n` requests.
pub open spec fn repeat_requests(g: RefreshGate, n: nat) -> RefreshGate
    decreases n,
{
    if n == 0 {
        g
    } else {
        repeat_requests(g, (n - 1) as nat).request_spec().0
    }
}

/// Slow cluster polls never pile up: once a settled status scheduled one,
/// further settled statuses schedule none until a status of another kind
/// (or a failed poll) clears the mark.
pub proof fn law_one_stable_poll_at_a_time(p: ClusterPolling, first: ClusterStatus, second: ClusterStatus)
    requires
        p.after_status_spec(first).1 == PollStep::Stable,
    ensures
        p.after_status_spec(first).0.after_status_spec(second).1 != PollStep::Stable,
{
}

/// Loads that are not forced never drop a cached listing.
pub proof fn law_plain_loads_keep_the_cache(
    s: ListingView,
    node: Seq<char>,
    path: Seq<char>,
    key: (Seq<char>, Seq<char>),
)
    requires
        s.cache.contains_key(key),
    ensures
        begin_spec(s, node, path, false).0.cache.contains_key(key),
        begin_spec(s, node, path, false).0.cache[key] == s.cache[key],
{
}

/// Back and forward reuse listings without fetching: when the listing of
/// the current path is cached, moving elsewhere (with its plain load) and
/// going back serves the earlier listing from the cache.
pub proof fn law_back_reuses_cached_listing(
    nav: NavView,
    volume_id: Option<Seq<char>>,
    name: Seq<char>,
    listing: ListingView,
    node: Seq<char>,
)
    requires
        navigate_spec(nav, volume_id, name) != nav,
        listing.cache.contains_key((node, path_text(nav.path))),
    ensures
        ({
            let moved = navigate_spec(nav, volume_id, name);
            let after_move = begin_spec(listing, node, path_text(moved.path), false).0;
            let back = back_spec(moved);
            let (shown, step) = begin_spec(after_move, node, path_text(back.path), false);
            step == ShareLoadStep::Served && shown.entries == listing.cache[(node, path_text(nav.path))]
        }),
{
    crate::share_nav::law_back_undoes_navigate(nav, volume_id, name);
}

/// `e` is one of the messages of `s`.
pub open spec fn one_of(s: Seq<MessageView>, e: MessageView) -> bool {
    exists|i: int| 0 <= i < s.len() && s[i] == e
}

/// Every message of `r` comes from `base` or `inc`, is no older than any
/// copy of its id in either, and, unless it is one of `inc`, every copy of
/// its id in `inc` is strictly older.
pub open spec fn kept_newest(r: Seq<MessageView>, base: Seq<MessageView>, inc: Seq<MessageView>) -> bool {
    &&& forall|k: int| 0 <= k < r.len() ==> one_of(base, #[trigger] r[k]) || one_of(inc, r[k])
    &&& forall|k: int, j: int|
        0 <= k < r.len() && 0 <= j < inc.len() && (#[trigger] inc[j]).id == (#[trigger] r[k]).id
            ==> inc[j].sent_at <= r[k].sent_at
    &&& forall|k: int, b: int|
        0 <= k < r.len() && 0 <= b < base.len() && (#[trigger] base[b]).id == (#[trigger] r[k]).id
            ==> base[b].sent_at <= r[k].sent_at
    &&& forall|k: int, j: int|
        0 <= k < r.len() && 0 <= j < inc.len() && (#[trigger] inc[j]).id == (#[trigger] r[k]).id && !one_of(
            inc,
            r[k],
        ) ==> inc[j].sent_at < r[k].sent_at
}

proof fn lemma_merged_in_newest(base: Seq<MessageView>, inc: Seq<MessageView>)
    requires
        distinct_ids(base),
    ensures
        kept_newest(merged_in(base, inc), base, inc),
    decreases inc.len(),
{
    if inc.len() == 0 {
        let r = merged_in(base, inc);
        assert forall|k: int| 0 <= k < r.len() implies one_of(base, #[trigger] r[k]) || one_of(inc, r[k]) by {
            assert(base[k] == r[k]);
        }
        assert forall|k: int, b: int|
            0 <= k < r.len() && 0 <= b < base.len() && (#[trigger] base[b]).id == (#[trigger] r[k]).id implies base[b].sent_at
            <= r[k].sent_at by {
            if b != k {
                if b < k {
                    assert(base[b].id != base[k].id);
                } else {
                    assert(base[k].id != base[b].id);
                }
            }
        }
    } else {
        let t = inc.drop_last();
        let m = inc.last();
        lemma_merged_in_newest(base, t);
        lemma_merged_in(base, t);
        let r = merged_in(base, t);
        let r2 = merged_in(base, inc);
        assert(r2 == merge_by_id(r, m));
        lemma_id_index_none(r, m.id);
        let i = id_index(r, m.id);
        assert forall|x: MessageView| one_of(t, x) implies one_of(inc, x) by {
            let j = choose|j: int| 0 <= j < t.len() && t[j] == x;
            assert(inc[j] == t[j]);
        }
        assert(one_of(inc, m)) by {
            assert(inc[inc.len() - 1] == m);
        }
        assert forall|x: MessageView| one_of(inc, x) && x != m implies one_of(t, x) by {
            let j = choose|j: int| 0 <= j < inc.len() && inc[j] == x;
            assert(j < t.len());
            assert(t[j] == inc[j]);
        }
        if i >= 0 {
            assert(r[i].id == m.id);
            assert forall|k: int| 0 <= k < r.len() && k != i implies (#[trigger] r[k]).id != m.id by {
                if k < i {
                    assert(r[k].id != r[i].id);
                } else {
                    assert(r[i].id != r[k].id);
                }
            }
            if m.sent_at >= r[i].sent_at {
                assert(r2 == r.update(i, m));
                assert forall|k: int| 0 <= k < r2.len() implies one_of(base, #[trigger] r2[k]) || one_of(inc, r2[k]) by {
                    if k != i {
                        assert(r2[k] == r[k]);
                        assert(one_of(base, r[k]) || one_of(t, r[k]));
                    }
                }
                assert forall|k: int, j: int|
                    0 <= k < r2.len() && 0 <= j < inc.len() && (#[trigger] inc[j]).id == (#[trigger] r2[k]).id implies inc[j].sent_at
                    <= r2[k].sent_at by {
                    if j < t.len() {
                        assert(inc[j] == t[j]);
                        if k != i {
                            assert(r2[k] == r[k]);
                        } else {
                            assert(t[j].id == r[i].id);
                        }
                    } else if k != i {
                        assert(r2[k] == r[k]);
                    }
                }
                assert forall|k: int, b: int|
                    0 <= k < r2.len() && 0 <= b < base.len() && (#[trigger] base[b]).id == (#[trigger] r2[k]).id implies base[b].sent_at
                    <= r2[k].sent_at by {
                    if k != i {
                        assert(r2[k] == r[k]);
                    } else {
                        assert(base[b].id == r[i].id);
                    }
                }
                assert forall|k: int, j: int|
                    0 <= k < r2.len() && 0 <= j < inc.len() && (#[trigger] inc[j]).id == (#[trigger] r2[k]).id
                        && !one_of(inc, r2[k]) implies inc[j].sent_at < r2[k].sent_at by {
                    if k != i {
                        assert(r2[k] == r[k]);
                        assert(!one_of(t, r[k]));
                        if j < t.len() {
                            assert(inc[j] == t[j]);
                        }
                    }
                }
            } else {
                assert(r2 == r);
                assert forall|k: int| 0 <= k < r2.len() implies one_of(base, #[trigger] r2[k]) || one_of(inc, r2[k]) by {
                    assert(one_of(base, r[k]) || one_of(t, r[k]));
                }
                assert forall|k: int, j: int|
                    0 <= k < r2.len() && 0 <= j < inc.len() && (#[trigger] inc[j]).id == (#[trigger] r2[k]).id implies inc[j].sent_at
                    <= r2[k].sent_at by {
                    if j < t.len() {
                        assert(inc[j] == t[j]);
                    } else {
                        assert(k == i);
                    }
                }
                assert forall|k: int, j: int|
                    0 <= k < r2.len() && 0 <= j < inc.len() && (#[trigger] inc[j]).id == (#[trigger] r2[k]).id
                        && !one_of(inc, r2[k]) implies inc[j].sent_at < r2[k].sent_at by {
                    assert(!one_of(t, r[k]));
                    if j < t.len() {
                        assert(inc[j] == t[j]);
                    } else {
                        assert(k == i);
                    }
                }
            }
        } else {
            assert(!has_msg_id(r, m.id));
            assert(r2 == r.push(m));
            assert forall|k: int| 0 <= k < r.len() implies (#[trigger] r[k]).id != m.id by {}
            assert forall|k: int| 0 <= k < r2.len() implies one_of(base, #[trigger] r2[k]) || one_of(inc, r2[k]) by {
                if k < r.len() {
                    assert(r2[k] == r[k]);
                    assert(one_of(base, r[k]) || one_of(t, r[k]));
                }
            }
            assert forall|k: int, j: int|
                0 <= k < r2.len() && 0 <= j < inc.len() && (#[trigger] inc[j]).id == (#[trigger] r2[k]).id implies inc[j].sent_at
                <= r2[k].sent_at by {
                if k < r.len() {
                    assert(r2[k] == r[k]);
                    if j < t.len() {
                        assert(inc[j] == t[j]);
                    }
                } else if j < t.len() {
                    assert(inc[j] == t[j]);
                    assert(has_msg_id(r, t[j].id));
                }
            }
            assert forall|k: int, b: int|
                0 <= k < r2.len() && 0 <= b < base.len() && (#[trigger] base[b]).id == (#[trigger] r2[k]).id implies base[b].sent_at
                <= r2[k].sent_at by {
                if k < r.len() {
                    assert(r2[k] == r[k]);
                } else {
                    assert(has_msg_id(base, base[b].id));
                    assert(has_msg_id(r, base[b].id));
                }
            }
            assert forall|k: int, j: int|
                0 <= k < r2.len() && 0 <= j < inc.len() && (#[trigger] inc[j]).id == (#[trigger] r2[k]).id
                    && !one_of(inc, r2[k]) implies inc[j].sent_at < r2[k].sent_at by {
                if k < r.len() {
                    assert(r2[k] == r[k]);
                    assert(!one_of(t, r[k]));
                    if j < t.len() {
                        assert(inc[j] == t[j]);
                    }
                }
            }
        }
    }
}

/// `e` is the last copy of its id in `s`.
pub open spec fn last_copy(s: Seq<MessageView>, e: MessageView) -> bool {
    exists|i: int| 0 <= i < s.len() && s[i] == e && forall|j: int| i < j < s.len() ==> (#[trigger] s[j]).id != e.id
}

proof fn lemma_keyed_last_copies(e: Seq<MessageView>)
    ensures
        forall|b: int| 0 <= b < keyed(e).len() ==> last_copy(e, #[trigger] keyed(e)[b]),
        distinct_ids(e) ==> keyed(e) == e,
    decreases e.len(),
{
    if e.len() > 0 {
        let t = e.drop_last();
        let x = e.last();
        lemma_keyed_last_copies(t);
        lemma_keyed(t);
        let kt = keyed(t);
        let k = keyed(e);
        assert(k == put_by_id(kt, x));
        lemma_id_index_none(kt, x.id);
        let i = id_index(kt, x.id);
        assert(e =~= t.push(x));
        assert forall|b: int| 0 <= b < k.len() implies last_copy(e, #[trigger] k[b]) by {
            if (i >= 0 && b == i) || (i < 0 && b == kt.len()) {
                assert(k[b] == x);
                assert(e[e.len() - 1] == x);
            } else {
                assert(k[b] == kt[b]);
                assert(last_copy(t, kt[b]));
                let w = choose|w: int| 0 <= w < t.len() && t[w] == kt[b] && forall|j: int| w < j < t.len() ==> (#[trigger] t[j]).id != kt[b].id;
                assert(e[w] == t[w]);
                if i >= 0 {
                    if b < i {
                        assert(kt[b].id != kt[i].id);
                    } else {
                        assert(kt[i].id != kt[b].id);
                    }
                } else {
                    assert(!has_msg_id(kt, x.id));
                }
                assert(x.id != kt[b].id);
                assert forall|j: int| w < j < e.len() implies (#[trigger] e[j]).id != kt[b].id by {
                    if j < t.len() {
                        assert(e[j] == t[j]);
                    }
                }
            }
        }
        if distinct_ids(e) {
            assert forall|a: int, c: int| 0 <= a < c < t.len() implies t[a].id != t[c].id by {
                assert(t[a] == e[a] && t[c] == e[c]);
            }
            assert(kt == t);
            if has_msg_id(t, x.id) {
                let w = choose|w: int| 0 <= w < t.len() && (#[trigger] t[w]).id == x.id;
                assert(e[w] == t[w]);
                assert(e[e.len() - 1] == x);
            }
            assert(k == t.push(x));
        }
    }
}

/// Merging a fetched page by id keeps, for each id, the newest copy: the
/// existing list stands by the last copy of each id (a later duplicate
/// replaces an earlier one); every kept message is that copy or one of the
/// page, no copy of its id in either is newer, and a kept existing copy is
/// strictly newer than every copy of its id in the page (ties go to the
/// page). With nothing fetched, a list without duplicate ids comes back
/// rearranged, nothing added or lost.
pub proof fn law_merge_by_id_keeps_newest(existing: Seq<MessageView>, incoming: Seq<MessageView>)
    ensures
        forall|b: int| 0 <= b < keyed(existing).len() ==> last_copy(existing, #[trigger] keyed(existing)[b]),
        kept_newest(merge_by_id_spec(existing, incoming), keyed(existing), incoming),
        incoming.len() == 0 && distinct_ids(existing) ==> merge_by_id_spec(existing, incoming).to_multiset()
            == existing.to_multiset(),
{
    broadcast use vstd::seq_lib::group_to_multiset_ensures;
    lemma_keyed_last_copies(existing);
    lemma_keyed(existing);
    let base = keyed(existing);
    let m = merged_in(base, incoming);
    lemma_merged_in_newest(base, incoming);
    lemma_sort_sorted(m);
    let r = merge_by_id_spec(existing, incoming);
    assert forall|k: int| 0 <= k < r.len() implies one_of(m, #[trigger] r[k]) by {
        assert(r.to_multiset().count(r[k]) > 0);
        assert(m.to_multiset().count(r[k]) > 0);
        assert(m.contains(r[k]));
    }
    assert forall|k: int| 0 <= k < r.len() implies one_of(base, #[trigger] r[k]) || one_of(incoming, r[k]) by {
        assert(one_of(m, r[k]));
        let q = choose|q: int| 0 <= q < m.len() && m[q] == r[k];
        assert(one_of(base, m[q]) || one_of(incoming, m[q]));
    }
    assert forall|k: int, j: int|
        0 <= k < r.len() && 0 <= j < incoming.len() && (#[trigger] incoming[j]).id == (#[trigger] r[k]).id implies incoming[j].sent_at
        <= r[k].sent_at by {
        assert(one_of(m, r[k]));
        let q = choose|q: int| 0 <= q < m.len() && m[q] == r[k];
        assert(incoming[j].id == m[q].id);
    }
    assert forall|k: int, b: int|
        0 <= k < r.len() && 0 <= b < base.len() && (#[trigger] base[b]).id == (#[trigger] r[k]).id implies base[b].sent_at
        <= r[k].sent_at by {
        assert(one_of(m, r[k]));
        let q = choose|q: int| 0 <= q < m.len() && m[q] == r[k];
        assert(base[b].id == m[q].id);
    }
    assert forall|k: int, j: int|
        0 <= k < r.len() && 0 <= j < incoming.len() && (#[trigger] incoming[j]).id == (#[trigger] r[k]).id && !one_of(
            incoming,
            r[k],
        ) implies incoming[j].sent_at < r[k].sent_at by {
        assert(one_of(m, r[k]));
        let q = choose|q: int| 0 <= q < m.len() && m[q] == r[k];
        assert(incoming[j].id == m[q].id);
    }
    if incoming.len() == 0 && distinct_ids(existing) {
        assert(m == base);
    }
}


/// `a` and `b` are the same message up to attachment paths: same id, author,
/// body, send time and attachment names.
pub open spec fn same_core(a: MessageView, b: MessageView) -> bool {
    &&& a.id == b.id
    &&& a.author_endpoint == b.author_endpoint
    &&& a.body == b.body
    &&& a.sent_at == b.sent_at
    &&& att_names(a.attachments) == att_names(b.attachments)
}

proof fn lemma_fill_all_core(s: Seq<MessageView>, ps: Seq<PendingView>)
    ensures
        fill_all(s, ps).len() == s.len(),
        forall|i: int| 0 <= i < s.len() ==> same_core(#[trigger] fill_all(s, ps)[i], s[i]),
    decreases ps.len(),
{
    if ps.len() > 0 {
        let t = ps.drop_last();
        let p = ps.last();
        lemma_fill_all_core(s, t);
        let prev = fill_all(s, t);
        lemma_rep_index(prev, p);
        let r = fill_all(s, ps);
        assert(r == fill_first(prev, p));
        assert forall|i: int| 0 <= i < s.len() implies same_core(#[trigger] r[i], s[i]) by {
            assert(same_core(prev[i], s[i]));
            if rep_index(prev, p) == i {
                let m = prev[i];
                assert(att_names(fill_msg(m, p).attachments) =~= att_names(m.attachments));
            }
        }
    }
}

proof fn lemma_push_pending_tail(s: Seq<MessageView>, ps: Seq<PendingView>, author: Seq<char>)
    ensures
        forall|k: int|
            s.len() <= k < push_pending(s, ps, author).len() ==> exists|j: int|
                0 <= j < ps.len() && #[trigger] push_pending(s, ps, author)[k] == synth(ps[j], author),
    decreases ps.len(),
{
    if ps.len() > 0 {
        let t = ps.drop_last();
        lemma_push_pending_tail(s, t, author);
        lemma_push_pending(s, t, author);
        let prev = push_pending(s, t, author);
        let r = push_pending(s, ps, author);
        assert forall|k: int| s.len() <= k < r.len() implies exists|j: int|
            0 <= j < ps.len() && #[trigger] r[k] == synth(ps[j], author) by {
            if k < prev.len() {
                assert(r[k] == prev[k]);
                let j = choose|j: int| 0 <= j < t.len() && prev[k] == synth(t[j], author);
                assert(ps[j] == t[j]);
            } else {
                assert(r[k] == synth(ps[ps.len() - 1], author));
            }
        }
    }
}

/// `r` holds a copy of `m` up to attachment paths.
pub open spec fn has_copy(r: Seq<MessageView>, m: MessageView) -> bool {
    exists|k: int| 0 <= k < r.len() && same_core(#[trigger] r[k], m)
}

/// Every message of `messages` has a copy in `r` up to attachment paths.
pub open spec fn keeps_every_message(r: Seq<MessageView>, messages: Seq<MessageView>) -> bool {
    forall|i: int| 0 <= i < messages.len() ==> has_copy(r, #[trigger] messages[i])
}

/// Every message of `r` is a copy of one of `messages` up to attachment
/// paths, or the optimistic bubble of one of `pending`.
pub open spec fn confirmed_or_bubble(
    r: Seq<MessageView>,
    messages: Seq<MessageView>,
    pending: Seq<PendingView>,
    author: Seq<char>,
) -> bool {
    forall|k: int|
        0 <= k < r.len() ==> (exists|i: int| 0 <= i < messages.len() && same_core(#[trigger] r[k], messages[i]))
            || (exists|j: int| 0 <= j < pending.len() && r[k] == synth(#[trigger] pending[j], author))
}

/// Merging optimistic messages into the confirmed ones: the result is sorted
/// by send time; every confirmed message is still there with its id, author,
/// body, time and attachment names (only missing attachment paths are
/// filled); and every other message is the optimistic bubble of a pending
/// message.
pub proof fn law_merge_pending_shape(messages: Seq<MessageView>, pending: Seq<PendingView>, author: Seq<char>)
    ensures
        sorted_by_sent(merge_pending_spec(messages, pending, author)),
        keeps_every_message(merge_pending_spec(messages, pending, author), messages),
        confirmed_or_bubble(merge_pending_spec(messages, pending, author), messages, pending, author),
{
    broadcast use vstd::seq_lib::group_to_multiset_ensures;
    let f = fill_all(messages, pending);
    let pushed = push_pending(f, pending, author);
    let r = merge_pending_spec(messages, pending, author);
    lemma_fill_all_core(messages, pending);
    lemma_push_pending(f, pending, author);
    lemma_push_pending_tail(f, pending, author);
    lemma_sort_sorted(pushed);
    assert(r == sort_by_sent(pushed));
    assert forall|i: int| 0 <= i < messages.len() implies has_copy(r, #[trigger] messages[i]) by {
        assert(pushed[i] == f[i]);
        assert(same_core(f[i], messages[i]));
        assert(pushed.to_multiset().count(pushed[i]) > 0);
        assert(r.to_multiset().count(pushed[i]) > 0);
        assert(r.contains(pushed[i]));
        let k = choose|k: int| 0 <= k < r.len() && r[k] == pushed[i];
        assert(same_core(r[k], messages[i]));
    }
    assert forall|k: int| 0 <= k < r.len() implies (exists|i: int|
        0 <= i < messages.len() && same_core(#[trigger] r[k], messages[i])) || (exists|j: int|
        0 <= j < pending.len() && r[k] == synth(#[trigger] pending[j], author)) by {
        assert(r.to_multiset().count(r[k]) > 0);
        assert(pushed.to_multiset().count(r[k]) > 0);
        assert(pushed.contains(r[k]));
        let q = choose|q: int| 0 <= q < pushed.len() && pushed[q] == r[k];
        if q < f.len() {
            assert(pushed[q] == f[q]);
            assert(same_core(f[q], messages[q]));
        } else {
            let j = choose|j: int| 0 <= j < pending.len() && #[trigger] pushed[q] == synth(pending[j], author);
        }
    }
    assert(keeps_every_message(r, messages));
    assert(confirmed_or_bubble(r, messages, pending, author));
}


} // verus!
