//! Devices tab: its actions and events, the optimistic updates applied
//! while a removal runs in the background, and the choice of hint texts.

use vstd::prelude::*;
use crate::cluster::{
    lex_le, lex_le_exec, node_remote_desktop_available, remote_desktop_available, ClusterNode,
    ClusterStatus, JoinedCluster, bootstrap_pending, bootstrap_pending_spec, has_signed_in_peers,
    has_signed_in_peers_spec, active_cluster_can_invite, active_cluster_id, can_invite, gate_spec,
    membership_gate, MembershipGate, active_entry, active_cluster_is_owner, membership_fresh,
    joined_cluster_label, joined_label, node_display_title, node_share_browsable, node_title,
    share_browsable,
};
use crate::find::{first_where, lemma_first_where_found, lemma_first_where_none};
use crate::text::chars_of;
use crate::text::{opt_seq, str_eq, string_from, string_of, trim, trim_str};
use crate::text::{decimal, push_decimal, push_str, push_zero_padded, zero_pad};

verus! {

/// Actions of the Devices tab.
#[derive(Debug, Clone)]
pub enum DevicesAction {
    Refresh,
    OpenNode(String),
    BackToGrid,
    OpenJoinModal,
    CloseJoinModal,
    PasteJoinInvite,
    SubmitJoin,
    CopyInvite,
    ToggleClusterPicker,
    CloseClusterPicker,
    SelectCluster(String),
    ShareBack,
    ShareForward,
    ShareNavigate { volume_id: Option<String>, name: String },
    OpenShareAddModal,
    CloseShareAddModal,
    BrowseShareAddPath,
    SubmitShareAdd,
}

/// Events the Devices tab hands to the shell.
#[derive(Debug, Clone)]
pub enum DevicesEvent {
    OpenChat { node_id: String },
    OpenRemoteDesktop { node_id: String },
}

/// The entries other than the cluster `id`, in order.
pub open spec fn without_cluster(cs: Seq<JoinedCluster>, id: Seq<char>) -> Seq<JoinedCluster>
    decreases cs.len(),
{
    if cs.len() == 0 {
        seq![]
    } else {
        let rest = without_cluster(cs.drop_last(), id);
        if cs.last().cluster_id@ == id {
            rest
        } else {
            rest.push(cs.last())
        }
    }
}

/// The nodes other than `id`, in order.
pub open spec fn without_node(ns: Seq<ClusterNode>, id: Seq<char>) -> Seq<ClusterNode>
    decreases ns.len(),
{
    if ns.len() == 0 {
        seq![]
    } else {
        let rest = without_node(ns.drop_last(), id);
        if ns.last().node_id@ == id {
            rest
        } else {
            rest.push(ns.last())
        }
    }
}

/// The nodes whose id is `id`, in order.
pub open spec fn only_node(ns: Seq<ClusterNode>, id: Seq<char>) -> Seq<ClusterNode>
    decreases ns.len(),
{
    if ns.len() == 0 {
        seq![]
    } else {
        let rest = only_node(ns.drop_last(), id);
        if ns.last().node_id@ == id {
            rest.push(ns.last())
        } else {
            rest
        }
    }
}

fn drop_cluster(cs: Vec<JoinedCluster>, id: &str) -> (r: Vec<JoinedCluster>)
    ensures
        r@ == without_cluster(cs@, id@),
{
    let ghost all = cs@;
    let mut out: Vec<JoinedCluster> = Vec::new();
    for c in it: cs.into_iter()
        invariant
            it.seq() == all,
            out@ == without_cluster(all.take(it.index() as int), id@),
    {
        let ghost k = it.index();
        proof {
            assert(all.take(k + 1).drop_last() =~= all.take(k as int));
        }
        if !str_eq(c.cluster_id.as_str(), id) {
            out.push(c);
        }
    }
    assert(all.take(all.len() as int) =~= all);
    out
}

fn filter_nodes(ns: Vec<ClusterNode>, id: &str, keep_matching: bool) -> (r: Vec<ClusterNode>)
    ensures
        keep_matching ==> r@ == only_node(ns@, id@),
        !keep_matching ==> r@ == without_node(ns@, id@),
{
    let ghost all = ns@;
    let mut out: Vec<ClusterNode> = Vec::new();
    for n in it: ns.into_iter()
        invariant
            it.seq() == all,
            keep_matching ==> out@ == only_node(all.take(it.index() as int), id@),
            !keep_matching ==> out@ == without_node(all.take(it.index() as int), id@),
    {
        let ghost k = it.index();
        proof {
            assert(all.take(k + 1).drop_last() =~= all.take(k as int));
        }
        if str_eq(n.node_id.as_str(), id) == keep_matching {
            out.push(n);
        }
    }
    assert(all.take(all.len() as int) =~= all);
    out
}

/// The removed cluster was the one in use: it is the status's cluster id,
/// or an entry marked active has its id.
pub open spec fn removed_was_active(status: ClusterStatus, id: Seq<char>) -> bool {
    opt_seq(status.cluster_id) == Some(id) || exists|i: int|
        0 <= i < status.clusters@.len() && (#[trigger] status.clusters@[i]).active
            && status.clusters@[i].cluster_id@ == id
}

fn was_active(status: &ClusterStatus, id: &str) -> (r: bool)
    ensures
        r == removed_was_active(*status, id@),
{
    let by_id = match &status.cluster_id {
        Some(c) => str_eq(c.as_str(), id),
        None => false,
    };
    if by_id {
        return true;
    }
    let mut i: usize = 0;
    while i < status.clusters.len()
        invariant
            i <= status.clusters@.len(),
            forall|j: int|
                0 <= j < i ==> !((#[trigger] status.clusters@[j]).active
                    && status.clusters@[j].cluster_id@ == id@),
        decreases status.clusters@.len() - i,
    {
        if status.clusters[i].active && str_eq(status.clusters[i].cluster_id.as_str(), id) {
            return true;
        }
        i = i + 1;
    }
    false
}

fn activate_only(cs: Vec<JoinedCluster>, id: &str) -> (r: Vec<JoinedCluster>)
    ensures
        r@.len() == cs@.len(),
        forall|i: int|
            0 <= i < r@.len() ==> (#[trigger] r@[i]).active == (cs@[i].cluster_id@ == id@)
                && r@[i].cluster_id == cs@[i].cluster_id && r@[i].name == cs@[i].name
                && r@[i].folder_name == cs@[i].folder_name && r@[i].role == cs@[i].role
                && r@[i].role_stale == cs@[i].role_stale && r@[i].revoked == cs@[i].revoked
                && r@[i].is_default == cs@[i].is_default && r@[i].membership_epoch
                == cs@[i].membership_epoch,
{
    let ghost all = cs@;
    let mut out: Vec<JoinedCluster> = Vec::new();
    for c in it: cs.into_iter()
        invariant
            it.seq() == all,
            out@.len() == it.index(),
            forall|i: int|
                0 <= i < out@.len() ==> (#[trigger] out@[i]).active == (all[i].cluster_id@ == id@)
                    && out@[i].cluster_id == all[i].cluster_id && out@[i].name == all[i].name
                    && out@[i].folder_name == all[i].folder_name && out@[i].role == all[i].role
                    && out@[i].role_stale == all[i].role_stale && out@[i].revoked == all[i].revoked
                    && out@[i].is_default == all[i].is_default && out@[i].membership_epoch
                    == all[i].membership_epoch,
    {
        let mut c = c;
        c.active = str_eq(c.cluster_id.as_str(), id);
        out.push(c);
    }
    out
}

/// The status shown right after the user removes cluster `id`, while the
/// control plane deletes it: the entry is gone; when it was the cluster in
/// use, the first remaining entry becomes the only active one and only the
/// local node stays (syncing), or, with no entry left, the status is
/// unconfigured with no nodes. The flag says whether it was in use.
pub fn optimistic_remove_cluster(status: ClusterStatus, cluster_id: &str) -> (r: (ClusterStatus, bool))
    ensures
        r.1 == removed_was_active(status, cluster_id@),
        r.0.local_node_id == status.local_node_id,
        r.0.auth_required == status.auth_required,
        r.0.device_bootstrap_required == status.device_bootstrap_required,
        r.0.device_bootstrap_error == status.device_bootstrap_error,
        !r.1 ==> r.0.clusters@ == without_cluster(status.clusters@, cluster_id@)
            && r.0.cluster_id == status.cluster_id && r.0.configured == status.configured
            && r.0.nodes@ == status.nodes@ && r.0.syncing == status.syncing && r.0.role_stale
            == status.role_stale,
        r.1 && without_cluster(status.clusters@, cluster_id@).len() > 0 ==> {
            let rest = without_cluster(status.clusters@, cluster_id@);
            &&& r.0.clusters@.len() == rest.len()
            &&& forall|i: int|
                0 <= i < rest.len() ==> (#[trigger] r.0.clusters@[i]).active == (rest[i].cluster_id@
                    == rest[0].cluster_id@) && r.0.clusters@[i].cluster_id == rest[i].cluster_id
            &&& r.0.configured
            &&& opt_seq(r.0.cluster_id) == Some(rest[0].cluster_id@)
            &&& r.0.role_stale == rest[0].role_stale
            &&& r.0.nodes@ == only_node(status.nodes@, status.local_node_id@)
            &&& r.0.syncing
        },
        r.1 && without_cluster(status.clusters@, cluster_id@).len() == 0 ==> {
            &&& r.0.clusters@.len() == 0
            &&& !r.0.configured
            &&& r.0.cluster_id is None
            &&& r.0.nodes@.len() == 0
            &&& !r.0.syncing
            &&& r.0.role_stale
        },
{
    let active = was_active(&status, cluster_id);
    let ClusterStatus {
        configured,
        cluster_id: current_id,
        clusters,
        local_node_id,
        nodes,
        syncing,
        auth_required,
        device_bootstrap_required,
        device_bootstrap_error,
        role_stale,
    } = status;
    let rest = drop_cluster(clusters, cluster_id);
    if !active {
        return (
            ClusterStatus {
                configured,
                cluster_id: current_id,
                clusters: rest,
                local_node_id,
                nodes,
                syncing,
                auth_required,
                device_bootstrap_required,
                device_bootstrap_error,
                role_stale,
            },
            false,
        );
    }
    if rest.len() > 0 {
        let next_id = string_from(rest[0].cluster_id.as_str());
        let next_stale = rest[0].role_stale;
        let ghost rv = rest@;
        let clusters = activate_only(rest, next_id.as_str());
        let kept = filter_nodes(nodes, local_node_id.as_str(), true);
        proof {
            assert(next_id@ == rv[0].cluster_id@);
        }
        let r = ClusterStatus {
            configured: true,
            cluster_id: Some(next_id),
            clusters,
            local_node_id,
            nodes: kept,
            syncing: true,
            auth_required,
            device_bootstrap_required,
            device_bootstrap_error,
            role_stale: next_stale,
        };
        (r, true)
    } else {
        (
            ClusterStatus {
                configured: false,
                cluster_id: None,
                clusters: rest,
                local_node_id,
                nodes: Vec::new(),
                syncing: false,
                auth_required,
                device_bootstrap_required,
                device_bootstrap_error,
                role_stale: true,
            },
            true,
        )
    }
}

/// The status shown right after the user removes terminal `node_id`: the
/// terminal is gone, everything else is kept.
pub fn optimistic_remove_node(status: ClusterStatus, node_id: &str) -> (r: ClusterStatus)
    ensures
        r.nodes@ == without_node(status.nodes@, node_id@),
        r.configured == status.configured,
        r.cluster_id == status.cluster_id,
        r.clusters == status.clusters,
        r.local_node_id == status.local_node_id,
        r.syncing == status.syncing,
        r.auth_required == status.auth_required,
        r.device_bootstrap_required == status.device_bootstrap_required,
        r.device_bootstrap_error == status.device_bootstrap_error,
        r.role_stale == status.role_stale,
{
    let ClusterStatus {
        configured,
        cluster_id,
        clusters,
        local_node_id,
        nodes,
        syncing,
        auth_required,
        device_bootstrap_required,
        device_bootstrap_error,
        role_stale,
    } = status;
    ClusterStatus {
        configured,
        cluster_id,
        clusters,
        local_node_id,
        nodes: filter_nodes(nodes, node_id, false),
        syncing,
        auth_required,
        device_bootstrap_required,
        device_bootstrap_error,
        role_stale,
    }
}

/// The key of the empty-folder hint of the share browser.
pub open spec fn share_empty_hint_spec(loading: bool, local: bool, peer_live: bool, at_root: bool) -> Seq<char> {
    if loading {
        "devices.share.reading"@
    } else if local && at_root {
        "devices.share.empty_local"@
    } else if !local && at_root {
        if peer_live {
            "devices.share.empty_remote"@
        } else {
            "devices.share.empty_offline_root"@
        }
    } else if !local && !peer_live {
        "devices.share.empty_offline_path"@
    } else {
        "common.empty.folder"@
    }
}

/// The key of the empty-folder hint (see [`share_empty_hint_spec`]).
pub fn share_empty_hint_key(loading: bool, local: bool, peer_live: bool, at_root: bool) -> (r: &'static str)
    ensures
        r@ == share_empty_hint_spec(loading, local, peer_live, at_root),
{
    if loading {
        "devices.share.reading"
    } else if local && at_root {
        "devices.share.empty_local"
    } else if !local && at_root {
        if peer_live {
            "devices.share.empty_remote"
        } else {
            "devices.share.empty_offline_root"
        }
    } else if !local && !peer_live {
        "devices.share.empty_offline_path"
    } else {
        "common.empty.folder"
    }
}

/// The key of the copy-invite button: copied, copying, or copy.
pub fn copy_invite_label_key(acknowledged: bool, busy: bool) -> (r: &'static str)
    ensures
        r@ == (if acknowledged {
            "devices.invite.copied"@
        } else if busy {
            "devices.invite.copying"@
        } else {
            "devices.invite.copy"@
        }),
{
    if acknowledged {
        "devices.invite.copied"
    } else if busy {
        "devices.invite.copying"
    } else {
        "devices.invite.copy"
    }
}

/// Card `a` comes no later than card `b` in the grid: the local terminal
/// first, then by hostname in code-point order.
pub open spec fn card_le(nodes: Seq<ClusterNode>, local: Seq<char>, a: int, b: int) -> bool {
    let al = nodes[a].node_id@ == local;
    let bl = nodes[b].node_id@ == local;
    (al && !bl) || (al == bl && lex_le(nodes[a].hostname@, nodes[b].hostname@))
}

/// Card `x` inserted after every card of `s` that comes no later than it.
pub open spec fn insert_card(nodes: Seq<ClusterNode>, local: Seq<char>, s: Seq<int>, x: int) -> Seq<int>
    decreases s.len(),
{
    if s.len() == 0 {
        seq![x]
    } else if card_le(nodes, local, s.last(), x) {
        s.push(x)
    } else {
        insert_card(nodes, local, s.drop_last(), x).push(s.last())
    }
}

/// The first `k` cards in grid order (a stable sort of their indices).
pub open spec fn card_order(nodes: Seq<ClusterNode>, local: Seq<char>, k: nat) -> Seq<int>
    decreases k,
{
    if k == 0 {
        seq![]
    } else {
        insert_card(nodes, local, card_order(nodes, local, (k - 1) as nat), k - 1)
    }
}

fn card_le_exec(nodes: &[ClusterNode], local: &str, a: usize, b: usize) -> (r: bool)
    requires
        a < nodes@.len(),
        b < nodes@.len(),
    ensures
        r == card_le(nodes@, local@, a as int, b as int),
{
    let al = str_eq(nodes[a].node_id.as_str(), local);
    let bl = str_eq(nodes[b].node_id.as_str(), local);
    if al && !bl {
        return true;
    }
    if al != bl {
        return false;
    }
    let ha = chars_of(nodes[a].hostname.as_str());
    let hb = chars_of(nodes[b].hostname.as_str());
    lex_le_exec(ha.as_slice(), hb.as_slice())
}

/// The order of the terminal cards in the grid (see [`card_order`]): the
/// indices of the nodes, local terminal first, then by hostname, equal
/// ones in cluster order.
pub fn grid_node_order(nodes: &[ClusterNode], local_node_id: &str) -> (r: Vec<usize>)
    ensures
        r@.map_values(|i: usize| i as int) == card_order(nodes@, local_node_id@, nodes@.len()),
{
    let mut out: Vec<usize> = Vec::new();
    let mut i: usize = 0;
    while i < nodes.len()
        invariant
            i <= nodes@.len(),
            forall|j: int| 0 <= j < out@.len() ==> out@[j] < i,
            out@.map_values(|v: usize| v as int) == card_order(nodes@, local_node_id@, i as nat),
        decreases nodes@.len() - i,
    {
        let ghost s = out@.map_values(|v: usize| v as int);
        let mut k = out.len();
        assert(s.skip(s.len() as int) =~= Seq::<int>::empty());
        assert(s.take(s.len() as int) =~= s);
        while k > 0 && !card_le_exec(nodes, local_node_id, out[k - 1], i)
            invariant
                k <= out@.len(),
                i < nodes@.len(),
                s == out@.map_values(|v: usize| v as int),
                forall|j: int| 0 <= j < out@.len() ==> out@[j] < i,
                insert_card(nodes@, local_node_id@, s, i as int) == insert_card(
                    nodes@,
                    local_node_id@,
                    s.take(k as int),
                    i as int,
                ) + s.skip(k as int),
            decreases k,
        {
            proof {
                let t = s.take(k as int);
                assert(s[k - 1] == out@[k - 1] as int);
                assert(t.last() == s[k - 1]);
                assert(t.drop_last() =~= s.take(k - 1));
                assert(insert_card(nodes@, local_node_id@, s.take(k - 1), i as int).push(s[k - 1]) + s.skip(
                    k as int,
                ) =~= insert_card(nodes@, local_node_id@, s.take(k - 1), i as int) + s.skip(k - 1));
            }
            k = k - 1;
        }
        proof {
            let t = s.take(k as int);
            if k > 0 {
                assert(t.last() == s[k - 1]);
            } else {
                assert(t =~= Seq::<int>::empty());
            }
        }
        out.insert(k, i);
        proof {
            assert(out@.map_values(|v: usize| v as int) =~= s.take(k as int).push(i as int) + s.skip(
                k as int,
            ));
        }
        i = i + 1;
    }
    out
}

proof fn lemma_char_code_injective(a: char, b: char)
    ensures
        a != b ==> (a as u32) != (b as u32),
{
}

proof fn lemma_lex_total(a: Seq<char>, b: Seq<char>)
    ensures
        lex_le(a, b) || lex_le(b, a),
    decreases a.len(),
{
    if a.len() > 0 && b.len() > 0 {
        if a[0] == b[0] {
            lemma_lex_total(a.drop_first(), b.drop_first());
        } else {
            lemma_char_code_injective(a[0], b[0]);
        }
    }
}

proof fn lemma_lex_trans(a: Seq<char>, b: Seq<char>, c: Seq<char>)
    requires
        lex_le(a, b),
        lex_le(b, c),
    ensures
        lex_le(a, c),
    decreases a.len(),
{
    if a.len() > 0 && b.len() > 0 && c.len() > 0 && a[0] == b[0] && b[0] == c[0] {
        lemma_lex_trans(a.drop_first(), b.drop_first(), c.drop_first());
    }
}

proof fn lemma_card_total(nodes: Seq<ClusterNode>, local: Seq<char>, a: int, b: int)
    ensures
        card_le(nodes, local, a, b) || card_le(nodes, local, b, a),
{
    lemma_lex_total(nodes[a].hostname@, nodes[b].hostname@);
}

proof fn lemma_card_trans(nodes: Seq<ClusterNode>, local: Seq<char>, a: int, b: int, c: int)
    requires
        card_le(nodes, local, a, b),
        card_le(nodes, local, b, c),
    ensures
        card_le(nodes, local, a, c),
{
    if nodes[a].node_id@ == local && nodes[b].node_id@ == local && nodes[c].node_id@ == local {
        lemma_lex_trans(nodes[a].hostname@, nodes[b].hostname@, nodes[c].hostname@);
    } else if nodes[a].node_id@ != local && nodes[b].node_id@ != local && nodes[c].node_id@ != local {
        lemma_lex_trans(nodes[a].hostname@, nodes[b].hostname@, nodes[c].hostname@);
    }
}

/// `insert_card` puts `x` at some position `p`: after the card just before
/// it, which comes no later than `x`, and before every card that does not.
proof fn lemma_insert_card_split(nodes: Seq<ClusterNode>, local: Seq<char>, s: Seq<int>, x: int) -> (p: int)
    ensures
        0 <= p <= s.len(),
        insert_card(nodes, local, s, x) == s.take(p).push(x) + s.skip(p),
        p > 0 ==> card_le(nodes, local, s[p - 1], x),
        forall|q: int| p <= q < s.len() ==> !card_le(nodes, local, #[trigger] s[q], x),
    decreases s.len(),
{
    if s.len() == 0 {
        assert(insert_card(nodes, local, s, x) =~= s.take(0).push(x) + s.skip(0));
        0
    } else if card_le(nodes, local, s.last(), x) {
        let p = s.len() as int;
        assert(insert_card(nodes, local, s, x) =~= s.take(p).push(x) + s.skip(p));
        p
    } else {
        let t = s.drop_last();
        let p = lemma_insert_card_split(nodes, local, t, x);
        assert(insert_card(nodes, local, s, x) =~= s.take(p).push(x) + s.skip(p));
        assert forall|q: int| p <= q < s.len() implies !card_le(nodes, local, #[trigger] s[q], x) by {
            if q < t.len() {
                assert(s[q] == t[q]);
            }
        }
        p
    }
}

/// `r` lists each of the indices `0..k` once.
pub open spec fn each_index_once(r: Seq<int>, k: int) -> bool {
    &&& r.len() == k
    &&& forall|i: int| 0 <= i < r.len() ==> 0 <= #[trigger] r[i] < k
    &&& forall|i: int, j: int| 0 <= i < j < r.len() ==> r[i] != r[j]
    &&& forall|v: int| 0 <= v < k ==> #[trigger] r.contains(v)
}

/// Along `r` no card comes later than a card after it.
pub open spec fn cards_sorted(nodes: Seq<ClusterNode>, local: Seq<char>, r: Seq<int>) -> bool {
    forall|i: int, j: int| 0 <= i < j < r.len() ==> card_le(nodes, local, #[trigger] r[i], #[trigger] r[j])
}

/// Along `r` equal cards keep their order in the cluster: a card placed
/// before one that comes no later than it has the smaller index.
pub open spec fn cards_stable(nodes: Seq<ClusterNode>, local: Seq<char>, r: Seq<int>) -> bool {
    forall|i: int, j: int|
        0 <= i < j < r.len() && card_le(nodes, local, #[trigger] r[j], #[trigger] r[i]) ==> r[i] < r[j]
}

/// The grid order is a stable sort of the cards: it lists every node once,
/// the local terminal first and the others by hostname in code-point order,
/// nodes that compare equal in their cluster order.
pub proof fn law_card_order_sorts_stably(nodes: Seq<ClusterNode>, local: Seq<char>, k: nat)
    ensures
        each_index_once(card_order(nodes, local, k), k as int),
        cards_sorted(nodes, local, card_order(nodes, local, k)),
        cards_stable(nodes, local, card_order(nodes, local, k)),
    decreases k,
{
    if k == 0 {
        assert(card_order(nodes, local, k) =~= Seq::<int>::empty());
    } else {
        let x = k - 1;
        law_card_order_sorts_stably(nodes, local, (k - 1) as nat);
        let s = card_order(nodes, local, (k - 1) as nat);
        let p = lemma_insert_card_split(nodes, local, s, x);
        let r = card_order(nodes, local, k);
        assert(r == s.take(p).push(x) + s.skip(p));
        assert forall|i: int| 0 <= i < r.len() implies (i < p ==> r[i] == s[i]) && (i == p ==> r[i] == x) && (p
            < i ==> r[i] == s[i - 1]) by {}
        assert forall|i: int| 0 <= i < r.len() implies 0 <= #[trigger] r[i] < k by {
            if i != p {
                if i < p {
                    assert(r[i] == s[i]);
                } else {
                    assert(r[i] == s[i - 1]);
                }
            }
        }
        assert forall|i: int, j: int| 0 <= i < j < r.len() implies r[i] != r[j] by {
            if i < p {
                assert(r[i] == s[i]);
            } else if i > p {
                assert(r[i] == s[i - 1]);
            }
            if j < p {
                assert(r[j] == s[j]);
            } else if j > p {
                assert(r[j] == s[j - 1]);
            }
        }
        assert forall|v: int| 0 <= v < k implies #[trigger] r.contains(v) by {
            if v == x {
                assert(r[p] == x);
            } else {
                assert(s.contains(v));
                let w = choose|w: int| 0 <= w < s.len() && #[trigger] s[w] == v;
                if w < p {
                    assert(r[w] == s[w]);
                } else {
                    assert(r[w + 1] == s[w]);
                }
            }
        }
        assert forall|i: int, j: int| 0 <= i < j < r.len() implies card_le(nodes, local, #[trigger] r[i], #[trigger] r[j]) by {
            if j < p {
                assert(r[i] == s[i] && r[j] == s[j]);
            } else if j == p {
                assert(r[i] == s[i]);
                if i < p - 1 {
                    assert(card_le(nodes, local, s[i], s[p - 1]));
                    lemma_card_trans(nodes, local, s[i], s[p - 1], x);
                }
            } else if i < p {
                assert(r[i] == s[i] && r[j] == s[j - 1]);
            } else if i == p {
                assert(r[j] == s[j - 1]);
                assert(!card_le(nodes, local, s[j - 1], x));
                lemma_card_total(nodes, local, s[j - 1], x);
            } else {
                assert(r[i] == s[i - 1] && r[j] == s[j - 1]);
            }
        }
        assert forall|i: int, j: int|
            0 <= i < j < r.len() && card_le(nodes, local, #[trigger] r[j], #[trigger] r[i]) implies r[i] < r[j] by {
            if j < p {
                assert(r[i] == s[i] && r[j] == s[j]);
            } else if j == p {
                assert(r[i] == s[i]);
            } else if i < p {
                assert(r[i] == s[i] && r[j] == s[j - 1]);
            } else if i == p {
                assert(r[j] == s[j - 1]);
                assert(!card_le(nodes, local, s[j - 1], x));
            } else {
                assert(r[i] == s[i - 1] && r[j] == s[j - 1]);
            }
        }
    }
}

/// What a terminal's "message" or "remote desktop" entry leads to.
#[derive(Debug, Clone, Copy, PartialEq, Eq, Structural)]
pub enum DeviceOpenStep {
    /// The terminal is this device.
    CannotSelf,
    /// Remote desktop needs an online terminal with a chat endpoint.
    Unavailable,
    /// Hand the terminal to the chat or remote-desktop view.
    Open,
}

/// The terminal is this device.
pub open spec fn is_local_spec(cluster: Option<ClusterStatus>, node_id: Seq<char>) -> bool {
    cluster matches Some(c) && c.local_node_id@ == node_id
}

fn is_local(cluster: Option<&ClusterStatus>, node_id: &str) -> (r: bool)
    ensures
        r == is_local_spec(
            match cluster {
                Some(c) => Some(*c),
                None => None,
            },
            node_id@,
        ),
{
    match cluster {
        Some(c) => str_eq(c.local_node_id.as_str(), node_id),
        None => false,
    }
}

/// "Send message" on a terminal: refused for this device, else the chat
/// opens on it.
pub fn send_message_step(cluster: Option<&ClusterStatus>, node_id: &str) -> (r: DeviceOpenStep)
    ensures
        r == (if is_local_spec(
            match cluster {
                Some(c) => Some(*c),
                None => None,
            },
            node_id@,
        ) {
            DeviceOpenStep::CannotSelf
        } else {
            DeviceOpenStep::Open
        }),
{
    if is_local(cluster, node_id) {
        DeviceOpenStep::CannotSelf
    } else {
        DeviceOpenStep::Open
    }
}

/// Nodes whose id is `id`.
pub open spec fn node_is(nodes: Seq<ClusterNode>, id: Seq<char>) -> spec_fn(int) -> bool {
    |i: int| nodes[i].node_id@ == id
}

/// "Remote desktop" on a terminal: refused for this device; unavailable
/// unless the first node with that id is online with a chat endpoint;
/// else it opens.
pub open spec fn remote_desktop_spec(cluster: Option<ClusterStatus>, node_id: Seq<char>) -> DeviceOpenStep {
    if is_local_spec(cluster, node_id) {
        DeviceOpenStep::CannotSelf
    } else {
        match cluster {
            Some(c) => {
                let k = first_where(c.nodes@.len(), node_is(c.nodes@, node_id));
                if k >= 0 && remote_desktop_available(c.nodes@[k], false) {
                    DeviceOpenStep::Open
                } else {
                    DeviceOpenStep::Unavailable
                }
            },
            None => DeviceOpenStep::Unavailable,
        }
    }
}

/// The step of "remote desktop" on a terminal (see [`remote_desktop_spec`]).
pub fn remote_desktop_step(cluster: Option<&ClusterStatus>, node_id: &str) -> (r: DeviceOpenStep)
    ensures
        r == remote_desktop_spec(
            match cluster {
                Some(c) => Some(*c),
                None => None,
            },
            node_id@,
        ),
{
    if is_local(cluster, node_id) {
        return DeviceOpenStep::CannotSelf;
    }
    let c = match cluster {
        Some(c) => c,
        None => {
            return DeviceOpenStep::Unavailable;
        },
    };
    let ghost p = node_is(c.nodes@, node_id@);
    let mut i: usize = 0;
    while i < c.nodes.len()
        invariant
            i <= c.nodes@.len(),
            p == node_is(c.nodes@, node_id@),
            cluster == Some(c),
            !is_local_spec(Some(*c), node_id@),
            forall|j: int| 0 <= j < i ==> !#[trigger] p(j),
        decreases c.nodes@.len() - i,
    {
        if str_eq(c.nodes[i].node_id.as_str(), node_id) {
            proof {
                lemma_first_where_found(c.nodes@.len(), p, i as int);
            }
            if node_remote_desktop_available(&c.nodes[i], false) {
                return DeviceOpenStep::Open;
            }
            return DeviceOpenStep::Unavailable;
        }
        i = i + 1;
    }
    proof {
        lemma_first_where_none(c.nodes@.len(), p);
    }
    DeviceOpenStep::Unavailable
}

/// Hover and selection of terminal cards.
#[derive(Debug)]
pub struct CardHighlight {
    pub hovered: Option<String>,
    pub selected: Option<String>,
}

impl CardHighlight {
    /// The pointer left the card `node_id`: its hover ends, and its
    /// selection too unless a context menu or delete dialog holds it.
    /// The result says whether anything changed.
    pub fn leave_card(&mut self, node_id: &str, menu_holds: bool) -> (changed: bool)
        ensures
            opt_seq(old(self).hovered) == Some(node_id@) ==> final(self).hovered is None,
            opt_seq(old(self).hovered) != Some(node_id@) ==> final(self).hovered == old(self).hovered,
            !menu_holds && opt_seq(old(self).selected) == Some(node_id@) ==> final(self).selected is None,
            !(!menu_holds && opt_seq(old(self).selected) == Some(node_id@)) ==> final(self).selected
                == old(self).selected,
            changed == (opt_seq(old(self).hovered) == Some(node_id@) || (!menu_holds && opt_seq(
                old(self).selected,
            ) == Some(node_id@))),
    {
        let mut changed = false;
        let hovered_here = match &self.hovered {
            Some(h) => str_eq(h.as_str(), node_id),
            None => false,
        };
        if hovered_here {
            self.hovered = None;
            changed = true;
        }
        let selected_here = match &self.selected {
            Some(h) => str_eq(h.as_str(), node_id),
            None => false,
        };
        if !menu_holds && selected_here {
            self.selected = None;
            changed = true;
        }
        changed
    }
}

/// Two clicks on the same card or file less than this many milliseconds
/// apart open it.
pub const DOUBLE_CLICK_MS: u64 = 450;

/// The last click on a card or a file, to tell a double click.
#[derive(Debug)]
pub struct ClickTracker {
    /// The item clicked last and when (milliseconds of a monotonic clock).
    pub last: Option<(String, u64)>,
}

/// The time from `at` to `now`, zero when `now` is earlier.
pub open spec fn elapsed_ms(at: u64, now: u64) -> int {
    if now >= at {
        now - at
    } else {
        0
    }
}

/// A click on `id` at `now` completes a double click.
pub open spec fn double_click_spec(last: Option<(String, u64)>, id: Seq<char>, now: u64) -> bool {
    match last {
        Some((l, at)) => l@ == id && elapsed_ms(at, now) < DOUBLE_CLICK_MS,
        None => false,
    }
}

impl ClickTracker {
    /// No click yet.
    pub fn new() -> (r: Self)
        ensures
            r.last is None,
    {
        ClickTracker { last: None }
    }

    /// A click on `id` at `now_ms`. It opens the item when the previous
    /// click was on the same item less than [`DOUBLE_CLICK_MS`] before, and
    /// then forgets it; any other click is remembered.
    pub fn click(&mut self, id: &str, now_ms: u64) -> (open: bool)
        ensures
            open == double_click_spec(old(self).last, id@, now_ms),
            open ==> final(self).last is None,
            !open ==> (final(self).last matches Some((l, at)) && l@ == id@ && at == now_ms),
    {
        let open = match &self.last {
            Some((l, at)) => str_eq(l.as_str(), id) && now_ms.saturating_sub(*at) < DOUBLE_CLICK_MS,
            None => false,
        };
        if open {
            self.last = None;
        } else {
            self.last = Some((string_from(id), now_ms));
        }
        open
    }
}

/// When a condition started to hold: kept while it holds, set to `now` when
/// it first holds, forgotten once it stops.
pub open spec fn since_spec(holds: bool, since: Option<u64>, now: u64) -> Option<u64> {
    if holds {
        match since {
            Some(t) => Some(t),
            None => Some(now),
        }
    } else {
        None
    }
}

fn condition_since(holds: bool, since: Option<u64>, now: u64) -> (r: Option<u64>)
    ensures
        r == since_spec(holds, since, now),
{
    if holds {
        match since {
            Some(t) => Some(t),
            None => Some(now),
        }
    } else {
        None
    }
}

/// Since when remote peers have been signed in but offline, after a status
/// update at `now` (see [`since_spec`]).
pub fn note_signed_in_peers(status: &ClusterStatus, since: Option<u64>, now: u64) -> (r: Option<u64>)
    ensures
        r == since_spec(has_signed_in_peers_spec(*status), since, now),
{
    condition_since(has_signed_in_peers(status), since, now)
}

/// Since when device bootstrap has been pending without an error, after a
/// status update at `now` (see [`since_spec`]).
pub fn note_bootstrap_pending(status: &ClusterStatus, since: Option<u64>, now: u64) -> (r: Option<u64>)
    ensures
        r == since_spec(bootstrap_pending_spec(*status), since, now),
{
    condition_since(bootstrap_pending(status), since, now)
}

/// Longest cluster name accepted, in characters.
pub const MAX_CLUSTER_NAME_CHARS: usize = 128;

/// Why a new cluster's name is refused.
#[derive(Debug, Clone, Copy, PartialEq, Eq, Structural)]
pub enum ClusterNameProblem {
    /// Nothing but white space (`devices.cluster.need_name`).
    NeedName,
    /// Longer than [`MAX_CLUSTER_NAME_CHARS`] characters once trimmed
    /// (`devices.cluster.name_too_long`).
    TooLong,
}

/// The name a new cluster is created with: the draft trimmed, refused when
/// empty or too long.
pub fn check_cluster_name(draft: &str) -> (r: Result<String, ClusterNameProblem>)
    ensures
        trim(draft@).len() == 0 ==> r == Err::<String, ClusterNameProblem>(ClusterNameProblem::NeedName),
        0 < trim(draft@).len() <= MAX_CLUSTER_NAME_CHARS ==> (r matches Ok(n) && n@ == trim(draft@)),
        trim(draft@).len() > MAX_CLUSTER_NAME_CHARS ==> r == Err::<String, ClusterNameProblem>(ClusterNameProblem::TooLong),
{
    let t = trim_str(draft);
    if t.len() == 0 {
        return Err(ClusterNameProblem::NeedName);
    }
    if t.len() > MAX_CLUSTER_NAME_CHARS {
        return Err(ClusterNameProblem::TooLong);
    }
    Ok(string_of(t.as_slice()))
}

/// The invite a join submits: the draft trimmed, none when that is empty
/// (`devices.invite.need_paste`).
pub fn check_join_invite(draft: &str) -> (r: Option<String>)
    ensures
        trim(draft@).len() == 0 ==> r is None,
        trim(draft@).len() > 0 ==> (r matches Some(i) && i@ == trim(draft@)),
{
    let t = trim_str(draft);
    if t.len() == 0 {
        None
    } else {
        Some(string_of(t.as_slice()))
    }
}

/// Why adding a shared folder is refused.
#[derive(Debug, Clone, Copy, PartialEq, Eq, Structural)]
pub enum ShareAddProblem {
    /// No path given (`devices.share.need_path`).
    NeedPath,
    /// No device is browsed (`devices.share.no_target`).
    NoTarget,
}

/// The node and the trimmed path a shared folder is added with; the path is
/// checked first.
pub fn check_share_add(path_draft: &str, browsing: Option<&str>) -> (r: Result<(String, String), ShareAddProblem>)
    ensures
        trim(path_draft@).len() == 0 ==> r == Err::<(String, String), ShareAddProblem>(ShareAddProblem::NeedPath),
        trim(path_draft@).len() > 0 && browsing is None ==> r == Err::<(String, String), ShareAddProblem>(
            ShareAddProblem::NoTarget,
        ),
        trim(path_draft@).len() > 0 && browsing is Some ==> (r matches Ok((node, path)) && node@
            == browsing->0@ && path@ == trim(path_draft@)),
{
    let t = trim_str(path_draft);
    if t.len() == 0 {
        return Err(ShareAddProblem::NeedPath);
    }
    match browsing {
        Some(node) => Ok((string_from(node), string_of(t.as_slice()))),
        None => Err(ShareAddProblem::NoTarget),
    }
}

/// What copying an invite does.
#[derive(Debug, PartialEq, Eq)]
pub enum CopyInviteStep {
    /// A copy is already being prepared.
    Busy,
    /// Invites are not allowed: show the membership gate's message, or
    /// `devices.cluster.not_member` without one.
    Refused(Option<MembershipGate>),
    /// Generate an invite for the active cluster; without one the step
    /// fails with `devices.cluster.none_selected`.
    Generate(Option<String>),
}

/// What copying an invite does, given the cluster status if one is known.
pub fn copy_invite_step(busy: bool, cluster: Option<&ClusterStatus>) -> (r: CopyInviteStep)
    ensures
        busy ==> r == CopyInviteStep::Busy,
        !busy && cluster is Some && !can_invite(*cluster->0) ==> r == CopyInviteStep::Refused(gate_spec(*cluster->0)),
        !busy && cluster is None ==> r == CopyInviteStep::Generate(None),
        !busy && cluster is Some && can_invite(*cluster->0) ==> (r matches CopyInviteStep::Generate(id)
            && opt_seq(id) == match active_entry(*cluster->0) {
            Some(e) => Some(e.cluster_id@),
            None => opt_seq(cluster->0.cluster_id),
        }),
{
    if busy {
        return CopyInviteStep::Busy;
    }
    match cluster {
        Some(c) => {
            if !active_cluster_can_invite(c) {
                return CopyInviteStep::Refused(membership_gate(c));
            }
            CopyInviteStep::Generate(active_cluster_id(c))
        },
        None => CopyInviteStep::Generate(None),
    }
}

/// Whether picking the cluster `cluster_id` must switch clusters: not when
/// it is the active one already.
pub fn select_cluster_switches(cluster: Option<&ClusterStatus>, cluster_id: &str) -> (r: bool)
    ensures
        r == !(cluster is Some && opt_seq(cluster->0.cluster_id) == Some(cluster_id@)),
{
    match cluster {
        Some(c) => match &c.cluster_id {
            Some(id) => !str_eq(id.as_str(), cluster_id),
            None => true,
        },
        None => true,
    }
}

/// How a join ended, as the cluster service reports it.
#[derive(Debug, Clone, Copy, PartialEq, Eq, Structural)]
pub enum JoinClusterOutcome {
    Joined,
    AlreadyActive,
    SwitchedActive,
}

/// The flash message after a join: its message key, and the cluster's
/// label where the message names it.
pub fn join_flash_key(outcome: JoinClusterOutcome) -> (r: (&'static str, bool))
    ensures
        outcome is Joined ==> r.0@ == "devices.invite.joined"@ && r.1,
        outcome is AlreadyActive ==> r.0@ == "devices.invite.already"@ && !r.1,
        outcome is SwitchedActive ==> r.0@ == "devices.invite.switched"@ && r.1,
{
    proof {
        reveal_strlit("devices.invite.joined");
        reveal_strlit("devices.invite.already");
        reveal_strlit("devices.invite.switched");
    }
    match outcome {
        JoinClusterOutcome::Joined => ("devices.invite.joined", true),
        JoinClusterOutcome::AlreadyActive => ("devices.invite.already", false),
        JoinClusterOutcome::SwitchedActive => ("devices.invite.switched", true),
    }
}

/// What confirming the deletion of a cluster does.
#[derive(Debug, PartialEq, Eq)]
pub enum DeleteClusterStep {
    /// A deletion is already running.
    Busy,
    /// Only the owner may delete: show the membership gate's message, or
    /// `devices.cluster.owner_only_delete` without one.
    Refused(Option<MembershipGate>),
    /// No cluster to delete (`devices.cluster.none_selected`).
    NoneSelected,
    /// Delete this cluster; the label names it in `CLUSTER REMOVED · …`
    /// (none shows `devices.status.cluster_default`).
    Delete { cluster_id: String, label: Option<String> },
}

/// Joined clusters with id `id`.
pub open spec fn cluster_has_id(cs: Seq<JoinedCluster>, id: Seq<char>) -> spec_fn(int) -> bool {
    |i: int| cs[i].cluster_id@ == id
}

/// The cluster a deletion targets: the one the dialog was opened for,
/// else the active one.
pub open spec fn delete_target(modal_id: Option<Seq<char>>, c: Option<ClusterStatus>) -> Option<Seq<char>> {
    match modal_id {
        Some(id) => Some(id),
        None => match c {
            Some(s) => match active_entry(s) {
                Some(e) => Some(e.cluster_id@),
                None => opt_seq(s.cluster_id),
            },
            None => None,
        },
    }
}

/// Whether this device owns the active cluster of the status.
pub open spec fn owns_active(c: ClusterStatus) -> bool {
    membership_fresh(c) && active_entry(c)->0.role@ == "owner"@
}

/// What confirming a cluster deletion does: nothing while one runs; refused
/// unless this device owns the active cluster; refused without a target;
/// else the target is deleted and named by the label of its joined entry.
pub fn delete_cluster_step(busy: bool, modal_id: Option<&str>, cluster: Option<&ClusterStatus>) -> (r: DeleteClusterStep)
    ensures
        ({
            let cs = match cluster {
                Some(c) => Some(*c),
                None => None,
            };
            let owner = cluster is Some && owns_active(*cluster->0);
            let target = delete_target(opt_str_ref(modal_id), cs);
            if busy {
                r == DeleteClusterStep::Busy
            } else if !owner {
                r == DeleteClusterStep::Refused(
                    match cluster {
                        Some(c) => gate_spec(*c),
                        None => None,
                    },
                )
            } else if target is None {
                r == DeleteClusterStep::NoneSelected
            } else {
                let k = first_where(cluster->0.clusters@.len(), cluster_has_id(cluster->0.clusters@, target->0));
                r matches DeleteClusterStep::Delete { cluster_id, label } && cluster_id@ == target->0 && opt_seq(label)
                    == (if k >= 0 {
                    Some(joined_label(cluster->0.clusters@[k]))
                } else {
                    None
                })
            }
        }),
{
    if busy {
        return DeleteClusterStep::Busy;
    }
    let c = match cluster {
        Some(c) => c,
        None => return DeleteClusterStep::Refused(None),
    };
    if !active_cluster_is_owner(c) {
        return DeleteClusterStep::Refused(membership_gate(c));
    }
    let target = match modal_id {
        Some(id) => Some(string_from(id)),
        None => active_cluster_id(c),
    };
    let id = match target {
        Some(id) => id,
        None => return DeleteClusterStep::NoneSelected,
    };
    match joined_index(c.clusters.as_slice(), id.as_str()) {
        Some(k) => {
            let label = joined_cluster_label(&c.clusters[k]);
            DeleteClusterStep::Delete { cluster_id: id, label: Some(label) }
        },
        None => DeleteClusterStep::Delete { cluster_id: id, label: None },
    }
}

fn joined_index(cs: &[JoinedCluster], id: &str) -> (r: Option<usize>)
    ensures
        match r {
            Some(k) => k < cs@.len() && first_where(cs@.len(), cluster_has_id(cs@, id@)) == k,
            None => first_where(cs@.len(), cluster_has_id(cs@, id@)) == -1,
        },
{
    let ghost p = cluster_has_id(cs@, id@);
    let mut i: usize = 0;
    while i < cs.len()
        invariant
            i <= cs@.len(),
            p == cluster_has_id(cs@, id@),
            forall|j: int| 0 <= j < i ==> !#[trigger] p(j),
        decreases cs@.len() - i,
    {
        if str_eq(cs[i].cluster_id.as_str(), id) {
            assert(p(i as int));
            proof {
                lemma_first_where_found(cs@.len(), p, i as int);
            }
            return Some(i);
        }
        i = i + 1;
    }
    proof {
        lemma_first_where_none(cs@.len(), p);
    }
    None
}

/// A borrowed optional string as characters.
pub open spec fn opt_str_ref(o: Option<&str>) -> Option<Seq<char>> {
    match o {
        Some(s) => Some(s@),
        None => None,
    }
}

/// What removing a device does: with the active cluster's id, remove it
/// from the cluster (a server member when it has a device id, whose flash
/// is `devices.device.removed`) or hide an offline node
/// (`devices.grid.hidden_offline`); none without an active cluster
/// (`devices.cluster.none_selected`).
pub fn remove_device_step(cluster: Option<&ClusterStatus>, device_id: Option<&str>) -> (r: Option<(String, bool)>)
    ensures
        match cluster {
            None => r is None,
            Some(c) => {
                let id = match active_entry(*c) {
                    Some(e) => Some(e.cluster_id@),
                    None => opt_seq(c.cluster_id),
                };
                match id {
                    None => r is None,
                    Some(i) => r matches Some((cid, member)) && cid@ == i && member == (device_id is Some),
                }
            },
        },
{
    let c = match cluster {
        Some(c) => c,
        None => return None,
    };
    match active_cluster_id(c) {
        Some(id) => Some((id, device_id.is_some())),
        None => None,
    }
}

/// The flash shown after a manual cluster refresh: the node count and the
/// local clock as `HH:MM:SS`.
pub open spec fn refresh_flash_spec(node_count: nat, hour: nat, minute: nat, second: nat) -> Seq<char> {
    "REFRESHED · "@ + decimal(node_count) + " NODES · "@ + zero_pad(decimal(hour), 2) + ":"@
        + zero_pad(decimal(minute), 2) + ":"@ + zero_pad(decimal(second), 2)
}

/// [`refresh_flash_spec`] for the number of nodes and the local time of day.
pub fn refresh_flash_text(node_count: usize, hour: u32, minute: u32, second: u32) -> (r: String)
    ensures
        r@ == refresh_flash_spec(node_count as nat, hour as nat, minute as nat, second as nat),
{
    let mut out = String::new();
    push_str(&mut out, "REFRESHED · ");
    push_decimal(&mut out, node_count as u64);
    push_str(&mut out, " NODES · ");
    push_zero_padded(&mut out, hour as u64, 2);
    push_str(&mut out, ":");
    push_zero_padded(&mut out, minute as u64, 2);
    push_str(&mut out, ":");
    push_zero_padded(&mut out, second as u64, 2);
    out
}

/// After a manual refresh, the browsed listing reloads when files were
/// being browsed and the browsed node is still in the cluster.
pub fn reload_listing_after_refresh(was_browsing: bool, browsing_node_id: Option<&str>, cluster: &ClusterStatus) -> (r: bool)
    ensures
        r == (was_browsing && browsing_node_id is Some && exists|j: int|
            0 <= j < cluster.nodes@.len() && (#[trigger] cluster.nodes@[j]).node_id@ == browsing_node_id->0@),
{
    if !was_browsing {
        return false;
    }
    let id = match browsing_node_id {
        Some(id) => id,
        None => return false,
    };
    let mut i: usize = 0;
    while i < cluster.nodes.len()
        invariant
            i <= cluster.nodes@.len(),
            was_browsing,
            browsing_node_id is Some && browsing_node_id->0@ == id@,
            forall|j: int| 0 <= j < i ==> (#[trigger] cluster.nodes@[j]).node_id@ != id@,
        decreases cluster.nodes@.len() - i,
    {
        if str_eq(cluster.nodes[i].node_id.as_str(), id) {
            assert(cluster.nodes@[i as int].node_id@ == id@);
            return true;
        }
        i = i + 1;
    }
    false
}

/// Which cluster poll to schedule next.
#[derive(Debug, Clone, Copy, PartialEq, Eq, Structural)]
pub enum PollStep {
    /// No poll.
    Nothing,
    /// Poll again shortly while the cluster syncs.
    Cluster,
    /// Poll shortly until sign-in and device bootstrap are done.
    Bootstrap,
    /// The slow poll of a settled cluster.
    Stable,
}

/// Which poll follows a cluster status: a syncing cluster polls shortly; a
/// cluster waiting for sign-in or bootstrap polls for that; a configured
/// cluster polls slowly; otherwise none.
pub open spec fn next_poll_spec(status: ClusterStatus) -> PollStep {
    if status.syncing {
        PollStep::Cluster
    } else if status.auth_required || status.device_bootstrap_required {
        PollStep::Bootstrap
    } else if status.configured {
        PollStep::Stable
    } else {
        PollStep::Nothing
    }
}

/// The cluster polls of the Devices tab: at most one slow poll is pending.
#[derive(Debug, Clone, Copy, PartialEq, Eq, Structural)]
pub struct ClusterPolling {
    pub stable_scheduled: bool,
}

impl ClusterPolling {
    /// No slow poll pending.
    pub fn new() -> (r: Self)
        ensures
            !r.stable_scheduled,
    {
        ClusterPolling { stable_scheduled: false }
    }

    /// A status arrived (see [`next_poll_spec`]): a slow poll is scheduled
    /// only when none is pending; any other poll drops the pending mark.
    pub open spec fn after_status_spec(self, status: ClusterStatus) -> (ClusterPolling, PollStep) {
        if next_poll_spec(status) == PollStep::Stable {
            (
                ClusterPolling { stable_scheduled: true },
                if self.stable_scheduled {
                    PollStep::Nothing
                } else {
                    PollStep::Stable
                },
            )
        } else {
            (ClusterPolling { stable_scheduled: false }, next_poll_spec(status))
        }
    }

    /// A status arrived (see [`Self::after_status_spec`]); the result is
    /// the poll to schedule.
    pub fn after_status(&mut self, status: &ClusterStatus) -> (r: PollStep)
        ensures
            (*final(self), r) == old(self).after_status_spec(*status),
    {
        if status.syncing {
            self.stable_scheduled = false;
            PollStep::Cluster
        } else if status.auth_required || status.device_bootstrap_required {
            self.stable_scheduled = false;
            PollStep::Bootstrap
        } else if status.configured {
            if self.stable_scheduled {
                PollStep::Nothing
            } else {
                self.stable_scheduled = true;
                PollStep::Stable
            }
        } else {
            self.stable_scheduled = false;
            PollStep::Nothing
        }
    }

    /// The slow poll failed: it is scheduled again while the known cluster
    /// is configured.
    pub fn stable_poll_failed(&mut self, cluster: Option<&ClusterStatus>) -> (r: PollStep)
        ensures
            (cluster is Some && cluster->0.configured) ==> r == PollStep::Stable && final(self).stable_scheduled,
            !(cluster is Some && cluster->0.configured) ==> r == PollStep::Nothing && !final(self).stable_scheduled,
    {
        let configured = match cluster {
            Some(c) => c.configured,
            None => false,
        };
        self.stable_scheduled = configured;
        if configured {
            PollStep::Stable
        } else {
            PollStep::Nothing
        }
    }
}

/// A short cluster poll failed: it polls again while the cluster syncs.
pub fn cluster_poll_failed_step(syncing: bool) -> (r: PollStep)
    ensures
        r == (if syncing {
            PollStep::Cluster
        } else {
            PollStep::Nothing
        }),
{
    if syncing {
        PollStep::Cluster
    } else {
        PollStep::Nothing
    }
}

/// After a bootstrap poll: a failed fetch or a status still waiting for
/// sign-in or bootstrap polls for that again; a syncing one polls the
/// cluster; otherwise none.
pub fn bootstrap_poll_step(status: Option<&ClusterStatus>) -> (r: PollStep)
    ensures
        match status {
            None => r == PollStep::Bootstrap,
            Some(s) => r == (if s.auth_required || s.device_bootstrap_required {
                PollStep::Bootstrap
            } else if s.syncing {
                PollStep::Cluster
            } else {
                PollStep::Nothing
            }),
        },
{
    match status {
        None => PollStep::Bootstrap,
        Some(s) => if s.auth_required || s.device_bootstrap_required {
            PollStep::Bootstrap
        } else if s.syncing {
            PollStep::Cluster
        } else {
            PollStep::Nothing
        },
    }
}

/// Nodes whose id is `id`.
pub open spec fn node_with_id(nodes: Seq<ClusterNode>, id: Seq<char>) -> spec_fn(int) -> bool {
    |i: int| nodes[i].node_id@ == id
}

fn node_index(nodes: &[ClusterNode], id: &str) -> (r: Option<usize>)
    ensures
        match r {
            Some(k) => k < nodes@.len() && first_where(nodes@.len(), node_with_id(nodes@, id@)) == k,
            None => first_where(nodes@.len(), node_with_id(nodes@, id@)) == -1,
        },
{
    let ghost p = node_with_id(nodes@, id@);
    let mut i: usize = 0;
    while i < nodes.len()
        invariant
            i <= nodes@.len(),
            p == node_with_id(nodes@, id@),
            forall|j: int| 0 <= j < i ==> !#[trigger] p(j),
        decreases nodes@.len() - i,
    {
        if str_eq(nodes[i].node_id.as_str(), id) {
            assert(p(i as int));
            proof {
                lemma_first_where_found(nodes@.len(), p, i as int);
            }
            return Some(i);
        }
        i = i + 1;
    }
    proof {
        lemma_first_where_none(nodes@.len(), p);
    }
    None
}

/// Whether the removal dialog may open for `node_id`: the first node with
/// that id must be removable; otherwise only an admin may remove it
/// (`devices.toast.admin_only_remove`).
pub fn node_removable(cluster: Option<&ClusterStatus>, node_id: &str) -> (r: bool)
    ensures
        r == match cluster {
            Some(c) => {
                let k = first_where(c.nodes@.len(), node_with_id(c.nodes@, node_id@));
                k >= 0 && c.nodes@[k].removable
            },
            None => false,
        },
{
    match cluster {
        Some(c) => match node_index(c.nodes.as_slice(), node_id) {
            Some(k) => c.nodes[k].removable,
            None => false,
        },
        None => false,
    }
}

/// The device id a node is removed with: its roster device id when the
/// server confirmed its membership; none otherwise (the node is then hidden
/// rather than removed).
pub fn removal_device_id(cluster: Option<&ClusterStatus>, node_id: &str) -> (r: Option<String>)
    ensures
        opt_seq(r) == match cluster {
            Some(c) => {
                let k = first_where(c.nodes@.len(), node_with_id(c.nodes@, node_id@));
                if k >= 0 && c.nodes@[k].server_member_confirmed {
                    opt_seq(c.nodes@[k].device_id)
                } else {
                    None
                }
            },
            None => None,
        },
{
    match cluster {
        Some(c) => match node_index(c.nodes.as_slice(), node_id) {
            Some(k) => if c.nodes[k].server_member_confirmed {
                crate::text::clone_opt(&c.nodes[k].device_id)
            } else {
                None
            },
            None => None,
        },
        None => None,
    }
}

/// The border a terminal card gets.
#[derive(Debug, Clone, Copy, PartialEq, Eq, Structural)]
pub enum CardBorder {
    Selected,
    Hovered,
    Local,
    Plain,
}

/// What a terminal card shows.
#[derive(Debug, PartialEq, Eq)]
pub struct CardPlan {
    pub is_local: bool,
    /// The card title (before any user remark replaces it).
    pub title: String,
    /// Number of shared volumes.
    pub share_count: usize,
    /// The "shared files" button accepts clicks.
    pub share_enabled: bool,
    /// The "remote desktop" button, absent on this device's card; whether it
    /// accepts clicks.
    pub remote_desktop: Option<bool>,
    /// The "remove" button shows.
    pub remove_button: bool,
    /// The corner delete control shows (a hovered or selected remote card).
    pub show_delete: bool,
    pub border: CardBorder,
}

/// What the card of `node` shows: the local node is this device; a remote
/// card that is hovered or selected offers the corner delete; the border
/// marks selection, then hover, then this device.
pub fn node_card_plan(node: &ClusterNode, local_node_id: &str, selected_node_id: &str, hovered_node_id: &str) -> (r: CardPlan)
    ensures
        ({
            let is_local = node.node_id@ == local_node_id@;
            let selected = node.node_id@ == selected_node_id@;
            let hovered = node.node_id@ == hovered_node_id@;
            &&& r.is_local == is_local
            &&& r.title@ == node_title(*node, is_local)
            &&& r.share_count == node.share_volumes@.len()
            &&& r.share_enabled == share_browsable(*node, is_local)
            &&& r.remote_desktop == (if is_local {
                None
            } else {
                Some(remote_desktop_available(*node, is_local))
            })
            &&& r.remove_button == node.removable
            &&& r.show_delete == (!is_local && (hovered || selected))
            &&& r.border == (if selected {
                CardBorder::Selected
            } else if hovered {
                CardBorder::Hovered
            } else if is_local {
                CardBorder::Local
            } else {
                CardBorder::Plain
            })
        }),
{
    let is_local = str_eq(node.node_id.as_str(), local_node_id);
    let selected = str_eq(node.node_id.as_str(), selected_node_id);
    let hovered = str_eq(node.node_id.as_str(), hovered_node_id);
    let border = if selected {
        CardBorder::Selected
    } else if hovered {
        CardBorder::Hovered
    } else if is_local {
        CardBorder::Local
    } else {
        CardBorder::Plain
    };
    CardPlan {
        is_local,
        title: node_display_title(node, is_local),
        share_count: node.share_volumes.len(),
        share_enabled: node_share_browsable(node, is_local),
        remote_desktop: if is_local {
            None
        } else {
            Some(node_remote_desktop_available(node, is_local))
        },
        remove_button: node.removable,
        show_delete: !is_local && (hovered || selected),
        border,
    }
}

} // verus!
