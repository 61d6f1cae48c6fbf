//! Cluster topology rules of the Devices tab: which terminals can be
//! browsed, managed or remote-controlled, cluster labels and membership
//! gates, and when the share root must be reloaded.

use vstd::prelude::*;
use crate::text::{
    chars_of, opt_seq, push_char, push_chars, push_str, str_eq, string_from, string_of,
    trim, trim_str,
};

verus! {

/// Presence of a node that is connected.
pub const NODE_PRESENCE_ONLINE: &'static str = "online";

/// Presence of a node that is signed in but not yet connected.
pub const NODE_PRESENCE_SIGNED_IN: &'static str = "signed_in";

/// Presence of a node whose handshake is running.
pub const NODE_PRESENCE_HANDSHAKING: &'static str = "handshaking";

/// Presence of a node whose handshake failed.
pub const NODE_PRESENCE_HANDSHAKE_FAILED: &'static str = "handshake_failed";

/// Presence of a node that is offline.
pub const NODE_PRESENCE_OFFLINE: &'static str = "offline";

/// A share volume a node publishes.
#[derive(Debug)]
pub struct ShareVolumeRoster {
    pub volume_id: String,
    pub name: String,
}

/// A terminal (device) of the cluster.
#[derive(Debug)]
pub struct ClusterNode {
    pub node_id: String,
    pub chat_endpoint_id: Option<String>,
    pub chat_bootstrap_addrs: Vec<String>,
    pub hostname: String,
    pub os: String,
    pub online: bool,
    pub presence_status: String,
    pub same_account: bool,
    pub server_member_confirmed: bool,
    pub revoked: bool,
    pub pending_handshake: bool,
    pub user_id: Option<String>,
    pub share_volumes: Vec<ShareVolumeRoster>,
    pub has_local_share_replicas: bool,
    /// This device may remove the node from the cluster.
    pub removable: bool,
    /// The node's device id in the cluster roster, if it has one.
    pub device_id: Option<String>,
}

/// A cluster this device has joined.
#[derive(Debug)]
pub struct JoinedCluster {
    pub cluster_id: String,
    pub name: Option<String>,
    pub folder_name: String,
    pub active: bool,
    pub role: String,
    pub role_stale: bool,
    pub revoked: bool,
    pub is_default: bool,
    pub membership_epoch: u64,
}

/// Cluster status as the Devices tab sees it.
#[derive(Debug)]
pub struct ClusterStatus {
    pub configured: bool,
    pub cluster_id: Option<String>,
    pub clusters: Vec<JoinedCluster>,
    pub local_node_id: String,
    pub nodes: Vec<ClusterNode>,
    pub syncing: bool,
    pub auth_required: bool,
    pub device_bootstrap_required: bool,
    pub device_bootstrap_error: Option<String>,
    pub role_stale: bool,
}

/// Tone of a status line.
#[derive(Debug, Clone, Copy, PartialEq, Eq, Structural)]
pub enum StatusTone {
    Placeholder,
    Muted,
    Success,
    Warn,
    Danger,
}

// ---------------------------------------------------------------------------
// Node capabilities
// ---------------------------------------------------------------------------

/// The node has a chat endpoint that is not blank.
pub open spec fn has_endpoint(node: ClusterNode) -> bool {
    node.chat_endpoint_id is Some && trim(node.chat_endpoint_id->0@).len() > 0
}

/// Whether the node's chat endpoint is present and not blank.
pub fn node_has_endpoint(node: &ClusterNode) -> (r: bool)
    ensures
        r == has_endpoint(*node),
{
    match &node.chat_endpoint_id {
        Some(id) => trim_str(id.as_str()).len() > 0,
        None => false,
    }
}

/// The "shared files" button of a terminal card accepts clicks: the local
/// node, an online node, a signed-in node with an endpoint, or an offline
/// node with a share roster or local replicas.
pub open spec fn share_browsable(node: ClusterNode, is_local: bool) -> bool {
    ||| is_local
    ||| node.online
    ||| (node.presence_status@ == NODE_PRESENCE_SIGNED_IN@ && has_endpoint(node))
    ||| node.share_volumes@.len() > 0
    ||| node.has_local_share_replicas
}

/// Whether a terminal's shares can be browsed (see [`share_browsable`]).
pub fn node_share_browsable(node: &ClusterNode, is_local: bool) -> (r: bool)
    ensures
        r == share_browsable(*node, is_local),
{
    if is_local || node.online {
        return true;
    }
    if str_eq(node.presence_status.as_str(), NODE_PRESENCE_SIGNED_IN) && node_has_endpoint(node) {
        return true;
    }
    node.share_volumes.len() > 0 || node.has_local_share_replicas
}

/// Remote desktop needs a remote, online node with a chat endpoint.
pub open spec fn remote_desktop_available(node: ClusterNode, is_local: bool) -> bool {
    !is_local && node.online && has_endpoint(node)
}

/// Whether remote desktop can be opened to the node.
pub fn node_remote_desktop_available(node: &ClusterNode, is_local: bool) -> (r: bool)
    ensures
        r == remote_desktop_available(*node, is_local),
{
    !is_local && node.online && node_has_endpoint(node)
}

/// Label and tone of a node's presence.
pub open spec fn presence_label(presence: Seq<char>) -> (Seq<char>, StatusTone) {
    if presence == NODE_PRESENCE_ONLINE@ {
        ("在线"@, StatusTone::Success)
    } else if presence == NODE_PRESENCE_SIGNED_IN@ {
        ("已登录 · 连接中"@, StatusTone::Warn)
    } else if presence == NODE_PRESENCE_HANDSHAKING@ {
        ("握手中"@, StatusTone::Warn)
    } else if presence == NODE_PRESENCE_HANDSHAKE_FAILED@ {
        ("连接失败"@, StatusTone::Danger)
    } else {
        ("离线"@, StatusTone::Placeholder)
    }
}

/// Label and tone of a node's presence (see [`presence_label`]).
pub fn node_presence_label(node: &ClusterNode) -> (r: (&'static str, StatusTone))
    ensures
        (r.0@, r.1) == presence_label(node.presence_status@),
{
    let p = node.presence_status.as_str();
    if str_eq(p, NODE_PRESENCE_ONLINE) {
        ("在线", StatusTone::Success)
    } else if str_eq(p, NODE_PRESENCE_SIGNED_IN) {
        ("已登录 · 连接中", StatusTone::Warn)
    } else if str_eq(p, NODE_PRESENCE_HANDSHAKING) {
        ("握手中", StatusTone::Warn)
    } else if str_eq(p, NODE_PRESENCE_HANDSHAKE_FAILED) {
        ("连接失败", StatusTone::Danger)
    } else {
        ("离线", StatusTone::Placeholder)
    }
}

/// Card title of a node: `"{os} · 本机"` for the local node, else `"{os} · {hostname}"`.
pub open spec fn node_title(node: ClusterNode, is_local: bool) -> Seq<char> {
    if is_local {
        node.os@ + " · 本机"@
    } else {
        node.os@ + " · "@ + node.hostname@
    }
}

/// Card title of a node (see [`node_title`]).
pub fn node_display_title(node: &ClusterNode, is_local: bool) -> (r: String)
    ensures
        r@ == node_title(*node, is_local),
{
    let mut r = string_from(node.os.as_str());
    if is_local {
        push_str(&mut r, " · 本机");
    } else {
        push_str(&mut r, " · ");
        push_str(&mut r, node.hostname.as_str());
    }
    r
}

// ---------------------------------------------------------------------------
// Share management
// ---------------------------------------------------------------------------

/// Which "new" menu the share browser offers.
#[derive(Debug, Clone, Copy, PartialEq, Eq, Structural)]
pub enum ShareNewMenuMode {
    Hidden,
    AddSharedFolder,
    CreateEntries,
}

/// Shares of a node can be managed from here: the local node, or a node of
/// the same account whose membership is confirmed and not revoked.
pub fn share_node_can_manage(
    is_local: bool,
    same_account: bool,
    server_member_confirmed: bool,
    revoked: bool,
) -> (r: bool)
    ensures
        r == (is_local || (same_account && server_member_confirmed && !revoked)),
{
    is_local || (same_account && server_member_confirmed && !revoked)
}

/// The "new" menu: hidden without management rights, "add shared folder"
/// at the share root, "create entries" inside a folder.
pub fn share_new_menu_mode(can_manage: bool, share_path_empty: bool) -> (r: ShareNewMenuMode)
    ensures
        !can_manage ==> r == ShareNewMenuMode::Hidden,
        can_manage && share_path_empty ==> r == ShareNewMenuMode::AddSharedFolder,
        can_manage && !share_path_empty ==> r == ShareNewMenuMode::CreateEntries,
{
    if !can_manage {
        ShareNewMenuMode::Hidden
    } else if share_path_empty {
        ShareNewMenuMode::AddSharedFolder
    } else {
        ShareNewMenuMode::CreateEntries
    }
}

/// The node with id `id` among `nodes`, as an index, or -1.
pub open spec fn node_index(nodes: Seq<ClusterNode>, id: Seq<char>) -> int
    decreases nodes.len(),
{
    if nodes.len() == 0 {
        -1
    } else {
        let i = node_index(nodes.drop_last(), id);
        if i >= 0 {
            i
        } else if nodes.last().node_id@ == id {
            nodes.len() - 1
        } else {
            -1
        }
    }
}

proof fn lemma_node_index(nodes: Seq<ClusterNode>, id: Seq<char>)
    ensures
        -1 <= node_index(nodes, id) < nodes.len(),
        node_index(nodes, id) >= 0 ==> nodes[node_index(nodes, id)].node_id@ == id,
        forall|j: int|
            0 <= j < nodes.len() && (node_index(nodes, id) < 0 || j < node_index(nodes, id))
                ==> (#[trigger] nodes[j]).node_id@ != id,
    decreases nodes.len(),
{
    if nodes.len() > 0 {
        let t = nodes.drop_last();
        lemma_node_index(t, id);
        assert forall|j: int| 0 <= j < t.len() implies t[j] == nodes[j] by {}
    }
}

/// Index of the node with id `id`, if any.
pub fn find_node(nodes: &Vec<ClusterNode>, id: &str) -> (r: Option<usize>)
    ensures
        match r {
            Some(i) => i < nodes@.len() && i as int == node_index(nodes@, id@),
            None => node_index(nodes@, id@) == -1,
        },
{
    proof {
        lemma_node_index(nodes@, id@);
    }
    let mut i: usize = 0;
    while i < nodes.len()
        invariant
            i <= nodes@.len(),
            forall|j: int| 0 <= j < i ==> (#[trigger] nodes@[j]).node_id@ != id@,
            -1 <= node_index(nodes@, id@) < nodes@.len(),
            node_index(nodes@, id@) >= 0 ==> nodes@[node_index(nodes@, id@)].node_id@ == id@,
            forall|j: int|
                0 <= j < nodes@.len() && (node_index(nodes@, id@) < 0 || j < node_index(
                    nodes@,
                    id@,
                )) ==> (#[trigger] nodes@[j]).node_id@ != id@,
        decreases nodes@.len() - i,
    {
        if str_eq(nodes[i].node_id.as_str(), id) {
            return Some(i);
        }
        i = i + 1;
    }
    None
}

/// Some node with id `id` satisfies `p`.
pub open spec fn some_node(nodes: Seq<ClusterNode>, id: Seq<char>, p: spec_fn(ClusterNode) -> bool) -> bool {
    exists|j: int| 0 <= j < nodes.len() && nodes[j].node_id@ == id && #[trigger] p(nodes[j])
}

/// The browsed node is this device.
pub open spec fn browsing_local_spec(cluster: Option<ClusterStatus>, browsing: Option<Seq<char>>) -> bool {
    cluster is Some && browsing == Some(cluster->0.local_node_id@)
}

/// A node accepts live P2P share operations: online, or signed in with an endpoint.
pub open spec fn node_live(node: ClusterNode) -> bool {
    node.online || (node.presence_status@ == NODE_PRESENCE_SIGNED_IN@ && has_endpoint(node))
}

/// The browsed peer accepts live share operations: it is this device, or
/// some node with its id is live.
pub open spec fn peer_live_spec(cluster: Option<ClusterStatus>, browsing: Option<Seq<char>>) -> bool {
    browsing_local_spec(cluster, browsing) || (cluster is Some && browsing is Some && some_node(
        cluster->0.nodes@,
        browsing->0,
        |n: ClusterNode| node_live(n),
    ))
}

/// The browsed peer's shares can be changed from here: it is live, and it
/// is this device or a node that [`share_node_can_manage`] allows.
pub open spec fn can_manage_spec(cluster: Option<ClusterStatus>, browsing: Option<Seq<char>>) -> bool {
    peer_live_spec(cluster, browsing) && cluster is Some && browsing is Some && (browsing->0
        == cluster->0.local_node_id@ || some_node(
        cluster->0.nodes@,
        browsing->0,
        |n: ClusterNode| n.same_account && n.server_member_confirmed && !n.revoked,
    ))
}

/// Whether the browsed node is this device.
pub fn browsing_local(cluster: Option<&ClusterStatus>, browsing_node_id: Option<&str>) -> (r: bool)
    ensures
        r == browsing_local_spec(
            match cluster {
                Some(c) => Some(*c),
                None => None,
            },
            crate::prefs::opt_view(browsing_node_id),
        ),
{
    match (cluster, browsing_node_id) {
        (Some(c), Some(id)) => str_eq(id, c.local_node_id.as_str()),
        _ => false,
    }
}

fn any_node<'a>(nodes: &'a Vec<ClusterNode>, id: &str, want_live: bool) -> (r: bool)
    ensures
        want_live ==> r == some_node(nodes@, id@, |n: ClusterNode| node_live(n)),
        !want_live ==> r == some_node(
            nodes@,
            id@,
            |n: ClusterNode| n.same_account && n.server_member_confirmed && !n.revoked,
        ),
{
    let mut i: usize = 0;
    while i < nodes.len()
        invariant
            i <= nodes@.len(),
            want_live ==> forall|j: int|
                0 <= j < i ==> !(nodes@[j].node_id@ == id@ && node_live(#[trigger] nodes@[j])),
            !want_live ==> forall|j: int|
                0 <= j < i ==> !(nodes@[j].node_id@ == id@ && (#[trigger] nodes@[j]).same_account
                    && nodes@[j].server_member_confirmed && !nodes@[j].revoked),
        decreases nodes@.len() - i,
    {
        let n = &nodes[i];
        if str_eq(n.node_id.as_str(), id) {
            if want_live {
                let live = n.online || (str_eq(n.presence_status.as_str(), NODE_PRESENCE_SIGNED_IN)
                    && node_has_endpoint(n));
                if live {
                    assert((|m: ClusterNode| node_live(m))(nodes@[i as int]));
                    return true;
                }
            } else {
                if n.same_account && n.server_member_confirmed && !n.revoked {
                    assert((|m: ClusterNode| m.same_account && m.server_member_confirmed
                        && !m.revoked)(nodes@[i as int]));
                    return true;
                }
            }
        }
        i = i + 1;
    }
    false
}

/// Whether the browsed peer accepts live share operations (see [`peer_live_spec`]).
pub fn browsing_peer_live(cluster: Option<&ClusterStatus>, browsing_node_id: Option<&str>) -> (r: bool)
    ensures
        r == peer_live_spec(
            match cluster {
                Some(c) => Some(*c),
                None => None,
            },
            crate::prefs::opt_view(browsing_node_id),
        ),
{
    if browsing_local(cluster, browsing_node_id) {
        return true;
    }
    match (cluster, browsing_node_id) {
        (Some(c), Some(id)) => any_node(&c.nodes, id, true),
        _ => false,
    }
}

/// Whether the browsed peer's shares can be changed (see [`can_manage_spec`]).
pub fn browsing_can_manage(cluster: Option<&ClusterStatus>, browsing_node_id: Option<&str>) -> (r: bool)
    ensures
        r == can_manage_spec(
            match cluster {
                Some(c) => Some(*c),
                None => None,
            },
            crate::prefs::opt_view(browsing_node_id),
        ),
{
    if !browsing_peer_live(cluster, browsing_node_id) {
        return false;
    }
    match (cluster, browsing_node_id) {
        (Some(c), Some(id)) => {
            if str_eq(id, c.local_node_id.as_str()) {
                return true;
            }
            any_node(&c.nodes, id, false)
        },
        _ => false,
    }
}

// ---------------------------------------------------------------------------
// Cluster labels and membership
// ---------------------------------------------------------------------------

/// An id shortened for display: its first 12 characters. (The shell tests
/// the byte length against 12 and then takes 12 characters; both agree with
/// this, since an id longer than 12 bytes with at most 12 characters is kept whole.)
pub open spec fn short_id(id: Seq<char>) -> Seq<char> {
    if id.len() > 12 {
        id.take(12)
    } else {
        id
    }
}

/// A cluster id shortened for display (see [`short_id`]).
pub fn short_cluster_id(id: &str) -> (r: String)
    ensures
        r@ == short_id(id@),
{
    let cs = chars_of(id);
    if cs.len() > 12 {
        let mut r = String::new();
        let mut i: usize = 0;
        while i < 12
            invariant
                i <= 12 < cs@.len(),
                r@ == cs@.take(i as int),
            decreases 12 - i,
        {
            push_char(&mut r, cs[i]);
            i = i + 1;
            assert(r@ =~= cs@.take(i as int));
        }
        r
    } else {
        string_of(cs.as_slice())
    }
}

/// Display name of a joined cluster: its trimmed name, else its folder name.
pub open spec fn joined_label(entry: JoinedCluster) -> Seq<char> {
    if entry.name is Some && trim(entry.name->0@).len() > 0 {
        trim(entry.name->0@)
    } else {
        entry.folder_name@
    }
}

/// Display name of a joined cluster (see [`joined_label`]).
pub fn joined_cluster_label(entry: &JoinedCluster) -> (r: String)
    ensures
        r@ == joined_label(*entry),
{
    if let Some(name) = &entry.name {
        let t = trim_str(name.as_str());
        if t.len() > 0 {
            return string_of(t.as_slice());
        }
    }
    entry.folder_name.clone()
}

/// Index of the first active joined cluster, or -1.
pub open spec fn active_index(cs: Seq<JoinedCluster>) -> int
    decreases cs.len(),
{
    if cs.len() == 0 {
        -1
    } else {
        let i = active_index(cs.drop_last());
        if i >= 0 {
            i
        } else if cs.last().active {
            cs.len() - 1
        } else {
            -1
        }
    }
}

proof fn lemma_active_index(cs: Seq<JoinedCluster>)
    ensures
        -1 <= active_index(cs) < cs.len(),
        active_index(cs) >= 0 ==> cs[active_index(cs)].active,
        forall|j: int|
            0 <= j < cs.len() && (active_index(cs) < 0 || j < active_index(cs)) ==> !(#[trigger] cs[
                j
            ]).active,
    decreases cs.len(),
{
    if cs.len() > 0 {
        let t = cs.drop_last();
        lemma_active_index(t);
        assert forall|j: int| 0 <= j < t.len() implies t[j] == cs[j] by {}
    }
}

/// The first active joined cluster of the status, if any.
pub open spec fn active_entry(c: ClusterStatus) -> Option<JoinedCluster> {
    let i = active_index(c.clusters@);
    if i >= 0 {
        Some(c.clusters@[i])
    } else {
        None
    }
}

/// Index of the active joined cluster, if any.
pub fn active_cluster_index(cluster: &ClusterStatus) -> (r: Option<usize>)
    ensures
        match r {
            Some(i) => i < cluster.clusters@.len() && i as int == active_index(cluster.clusters@),
            None => active_index(cluster.clusters@) == -1,
        },
{
    proof {
        lemma_active_index(cluster.clusters@);
    }
    let mut i: usize = 0;
    while i < cluster.clusters.len()
        invariant
            i <= cluster.clusters@.len(),
            forall|j: int| 0 <= j < i ==> !(#[trigger] cluster.clusters@[j]).active,
            -1 <= active_index(cluster.clusters@) < cluster.clusters@.len(),
            active_index(cluster.clusters@) >= 0 ==> cluster.clusters@[active_index(
                cluster.clusters@,
            )].active,
            forall|j: int|
                0 <= j < cluster.clusters@.len() && (active_index(cluster.clusters@) < 0 || j
                    < active_index(cluster.clusters@)) ==> !(#[trigger] cluster.clusters@[j]).active,
        decreases cluster.clusters@.len() - i,
    {
        if cluster.clusters[i].active {
            return Some(i);
        }
        i = i + 1;
    }
    None
}

/// Cluster label: the active cluster's name, else the shortened cluster id;
/// `None` means the generic default label.
pub open spec fn cluster_label_spec(c: ClusterStatus) -> Option<Seq<char>> {
    match active_entry(c) {
        Some(e) => Some(joined_label(e)),
        None => match c.cluster_id {
            Some(id) => Some(short_id(id@)),
            None => None,
        },
    }
}

/// Cluster label (see [`cluster_label_spec`]).
pub fn cluster_label(cluster: &ClusterStatus) -> (r: Option<String>)
    ensures
        opt_seq(r) == cluster_label_spec(*cluster),
{
    match active_cluster_index(cluster) {
        Some(i) => Some(joined_cluster_label(&cluster.clusters[i])),
        None => match &cluster.cluster_id {
            Some(id) => Some(short_cluster_id(id.as_str())),
            None => None,
        },
    }
}

/// Id of the active cluster, else the status's cluster id.
pub fn active_cluster_id(cluster: &ClusterStatus) -> (r: Option<String>)
    ensures
        opt_seq(r) == match active_entry(*cluster) {
            Some(e) => Some(e.cluster_id@),
            None => opt_seq(cluster.cluster_id),
        },
{
    match active_cluster_index(cluster) {
        Some(i) => Some(cluster.clusters[i].cluster_id.clone()),
        None => match &cluster.cluster_id {
            Some(id) => Some(id.clone()),
            None => None,
        },
    }
}

/// The active membership is current: no stale role on the status or the
/// active entry, and the active entry is not revoked.
pub open spec fn membership_fresh(c: ClusterStatus) -> bool {
    !c.role_stale && active_entry(c) is Some && !active_entry(c)->0.role_stale
        && !active_entry(c)->0.revoked
}

/// Invites need a fresh membership with role `owner` or `admin`.
pub open spec fn can_invite(c: ClusterStatus) -> bool {
    membership_fresh(c) && (active_entry(c)->0.role@ == "owner"@ || active_entry(c)->0.role@
        == "admin"@)
}

/// Whether the active membership is current (see [`membership_fresh`]).
pub fn active_cluster_membership_fresh(cluster: &ClusterStatus) -> (r: bool)
    ensures
        r == membership_fresh(*cluster),
{
    if cluster.role_stale {
        return false;
    }
    match active_cluster_index(cluster) {
        Some(i) => !cluster.clusters[i].role_stale && !cluster.clusters[i].revoked,
        None => false,
    }
}

/// Whether this device may invite others (see [`can_invite`]).
pub fn active_cluster_can_invite(cluster: &ClusterStatus) -> (r: bool)
    ensures
        r == can_invite(*cluster),
{
    if !active_cluster_membership_fresh(cluster) {
        return false;
    }
    match active_cluster_index(cluster) {
        Some(i) => {
            let role = cluster.clusters[i].role.as_str();
            str_eq(role, "owner") || str_eq(role, "admin")
        },
        None => false,
    }
}

/// Whether this device owns the active cluster (fresh membership, role `owner`).
pub fn active_cluster_is_owner(cluster: &ClusterStatus) -> (r: bool)
    ensures
        r == (membership_fresh(*cluster) && active_entry(*cluster)->0.role@ == "owner"@),
{
    if !active_cluster_membership_fresh(cluster) {
        return false;
    }
    match active_cluster_index(cluster) {
        Some(i) => str_eq(cluster.clusters[i].role.as_str(), "owner"),
        None => false,
    }
}

/// Whether the active cluster is the account's default cluster.
pub fn active_cluster_is_default(cluster: &ClusterStatus) -> (r: bool)
    ensures
        r == (active_entry(*cluster) is Some && active_entry(*cluster)->0.is_default),
{
    match active_cluster_index(cluster) {
        Some(i) => cluster.clusters[i].is_default,
        None => false,
    }
}

/// Whether this device may leave the active cluster (fresh membership, not the owner).
pub fn active_cluster_can_leave(cluster: &ClusterStatus) -> (r: bool)
    ensures
        r == (membership_fresh(*cluster) && active_entry(*cluster)->0.role@ != "owner"@),
{
    if !active_cluster_membership_fresh(cluster) {
        return false;
    }
    match active_cluster_index(cluster) {
        Some(i) => !str_eq(cluster.clusters[i].role.as_str(), "owner"),
        None => false,
    }
}

/// Why cluster management is gated.
#[derive(Debug, Clone, Copy, PartialEq, Eq, Structural)]
pub enum MembershipGate {
    /// The role is being re-confirmed.
    RoleStale,
    /// This device is not an owner or admin.
    NotManager,
}

/// Why management is held back for a cluster status: none without joined clusters; a
/// stale role; else "not a manager" when invites are not allowed and the
/// active entry is not revoked.
pub open spec fn gate_spec(c: ClusterStatus) -> Option<MembershipGate> {
    if c.clusters@.len() == 0 {
        None
    } else if c.role_stale || (active_entry(c) is Some && active_entry(c)->0.role_stale) {
        Some(MembershipGate::RoleStale)
    } else if !can_invite(c) && active_entry(c) is Some && !active_entry(c)->0.revoked {
        Some(MembershipGate::NotManager)
    } else {
        None
    }
}

/// The membership gate of a cluster status (see [`gate_spec`]).
pub fn membership_gate(cluster: &ClusterStatus) -> (r: Option<MembershipGate>)
    ensures
        r == gate_spec(*cluster),
{
    if cluster.clusters.len() == 0 {
        return None;
    }
    let active = active_cluster_index(cluster);
    let entry_stale = match active {
        Some(i) => cluster.clusters[i].role_stale,
        None => false,
    };
    if cluster.role_stale || entry_stale {
        return Some(MembershipGate::RoleStale);
    }
    let not_revoked = match active {
        Some(i) => !cluster.clusters[i].revoked,
        None => false,
    };
    if !active_cluster_can_invite(cluster) && not_revoked {
        return Some(MembershipGate::NotManager);
    }
    None
}

/// Folder name shown for the active cluster.
#[derive(Debug)]
pub enum ClusterFolderName {
    /// The active cluster's folder.
    Folder(String),
    /// No active entry: the cluster named by its shortened id.
    Named(String),
    /// No cluster at all.
    Default,
}

/// Folder name of the active cluster: its folder, else the shortened
/// cluster id, else the default.
pub fn active_cluster_folder_name(cluster: &ClusterStatus) -> (r: ClusterFolderName)
    ensures
        match r {
            ClusterFolderName::Folder(f) => active_entry(*cluster) is Some && f@ == active_entry(
                *cluster,
            )->0.folder_name@,
            ClusterFolderName::Named(id) => active_entry(*cluster) is None
                && cluster.cluster_id is Some && id@ == short_id(cluster.cluster_id->0@),
            ClusterFolderName::Default => active_entry(*cluster) is None
                && cluster.cluster_id is None,
        },
{
    match active_cluster_index(cluster) {
        Some(i) => ClusterFolderName::Folder(cluster.clusters[i].folder_name.clone()),
        None => match &cluster.cluster_id {
            Some(id) => ClusterFolderName::Named(short_cluster_id(id.as_str())),
            None => ClusterFolderName::Default,
        },
    }
}

/// Tag of the active cluster: `"{label} · {short id}"`, else the cluster label.
pub fn active_cluster_tag(cluster: &ClusterStatus) -> (r: Option<String>)
    ensures
        opt_seq(r) == match active_entry(*cluster) {
            Some(e) => Some(joined_label(e) + " · "@ + short_id(e.cluster_id@)),
            None => cluster_label_spec(*cluster),
        },
{
    match active_cluster_index(cluster) {
        Some(i) => {
            let entry = &cluster.clusters[i];
            let mut r = joined_cluster_label(entry);
            push_str(&mut r, " · ");
            let short = short_cluster_id(entry.cluster_id.as_str());
            push_str(&mut r, short.as_str());
            Some(r)
        },
        None => cluster_label(cluster),
    }
}

// ---------------------------------------------------------------------------
// Share root reloads
// ---------------------------------------------------------------------------

/// `a` sorts before or equal to `b` by code points (the byte order of UTF-8).
pub open spec fn lex_le(a: Seq<char>, b: Seq<char>) -> bool
    decreases a.len(),
{
    if a.len() == 0 {
        true
    } else if b.len() == 0 {
        false
    } else if a[0] != b[0] {
        (a[0] as u32) < (b[0] as u32)
    } else {
        lex_le(a.drop_first(), b.drop_first())
    }
}

/// `x` inserted into `s` after every element not greater than it.
pub open spec fn insert_lex(s: Seq<Seq<char>>, x: Seq<char>) -> Seq<Seq<char>>
    decreases s.len(),
{
    if s.len() == 0 {
        seq![x]
    } else if lex_le(s.last(), x) {
        s.push(x)
    } else {
        insert_lex(s.drop_last(), x).push(s.last())
    }
}

/// `s` sorted in code-point order (`sort_unstable` on strings).
pub open spec fn sort_lex(s: Seq<Seq<char>>) -> Seq<Seq<char>>
    decreases s.len(),
{
    if s.len() == 0 {
        s
    } else {
        insert_lex(sort_lex(s.drop_last()), s.last())
    }
}

/// `parts` joined by `sep`.
pub open spec fn join(parts: Seq<Seq<char>>, sep: Seq<char>) -> Seq<char>
    decreases parts.len(),
{
    if parts.len() == 0 {
        seq![]
    } else if parts.len() == 1 {
        parts[0]
    } else {
        join(parts.drop_last(), sep) + sep + parts.last()
    }
}

/// `"true"` or `"false"`.
pub open spec fn bool_text(b: bool) -> Seq<char> {
    if b {
        "true"@
    } else {
        "false"@
    }
}

/// The volume ids a node publishes, in roster order.
pub open spec fn volume_ids(node: ClusterNode) -> Seq<Seq<char>> {
    node.share_volumes@.map_values(|v: ShareVolumeRoster| v.volume_id@)
}

/// What identifies a node's share root: `"{online}|{presence}|{sorted volume ids joined by ,}"`,
/// or empty when the node is not in the status.
pub open spec fn fingerprint_spec(c: ClusterStatus, node_id: Seq<char>) -> Seq<char> {
    let i = node_index(c.nodes@, node_id);
    if i < 0 {
        seq![]
    } else {
        let n = c.nodes@[i];
        bool_text(n.online) + "|"@ + n.presence_status@ + "|"@ + join(sort_lex(volume_ids(n)), ","@)
    }
}

pub(crate) fn lex_le_exec(a: &[char], b: &[char]) -> (r: bool)
    ensures
        r == lex_le(a@, b@),
{
    let mut i: usize = 0;
    assert(a@.skip(0) =~= a@);
    assert(b@.skip(0) =~= b@);
    while i < a.len() && i < b.len() && a[i] == b[i]
        invariant
            i <= a@.len(),
            i <= b@.len(),
            lex_le(a@, b@) == lex_le(a@.skip(i as int), b@.skip(i as int)),
        decreases a@.len() - i,
    {
        proof {
            assert(a@.skip(i as int).drop_first() =~= a@.skip(i + 1));
            assert(b@.skip(i as int).drop_first() =~= b@.skip(i + 1));
        }
        i = i + 1;
    }
    if i == a.len() {
        return true;
    }
    if i == b.len() {
        return false;
    }
    assert(a@.skip(i as int)[0] == a@[i as int]);
    assert(b@.skip(i as int)[0] == b@[i as int]);
    (a[i] as u32) < (b[i] as u32)
}

/// The character views of a list of character vectors.
pub open spec fn cvs_view(s: Seq<Vec<char>>) -> Seq<Seq<char>> {
    s.map_values(|v: Vec<char>| v@)
}

fn insert_lex_exec(out: &mut Vec<Vec<char>>, x: Vec<char>)
    ensures
        cvs_view(final(out)@) == insert_lex(cvs_view(old(out)@), x@),
{
    let mut k = out.len();
    let ghost s = cvs_view(out@);
    assert(s.skip(s.len() as int) =~= Seq::<Seq<char>>::empty());
    assert(s.take(s.len() as int) =~= s);
    while k > 0 && !lex_le_exec(out[k - 1].as_slice(), x.as_slice())
        invariant
            k <= out@.len(),
            s == cvs_view(out@),
            insert_lex(s, x@) == insert_lex(s.take(k as int), x@) + s.skip(k as int),
        decreases k,
    {
        proof {
            let t = s.take(k as int);
            assert(t.last() == s[k - 1]);
            assert(s[k - 1] == out@[k - 1]@);
            assert(t.drop_last() =~= s.take(k - 1));
            assert(insert_lex(t, x@) == insert_lex(s.take(k - 1), x@).push(s[k - 1]));
            assert(insert_lex(s.take(k - 1), x@).push(s[k - 1]) + s.skip(k as int)
                =~= insert_lex(s.take(k - 1), x@) + s.skip(k - 1));
        }
        k = k - 1;
    }
    proof {
        let t = s.take(k as int);
        if k > 0 {
            assert(t.last() == s[k - 1]);
            assert(s[k - 1] == out@[k - 1]@);
            assert(insert_lex(t, x@) == t.push(x@));
        } else {
            assert(insert_lex(t, x@) == seq![x@]);
        }
    }
    let ghost xv = x@;
    out.insert(k, x);
    proof {
        assert(cvs_view(out@) =~= s.take(k as int).push(xv) + s.skip(k as int));
    }
}

/// The fingerprint of a node's share root (see [`fingerprint_spec`]).
pub fn share_root_fingerprint(status: &ClusterStatus, node_id: &str) -> (r: String)
    ensures
        r@ == fingerprint_spec(*status, node_id@),
{
    let idx = find_node(&status.nodes, node_id);
    let Some(i) = idx else {
        return String::new();
    };
    let node = &status.nodes[i];
    let ghost ids = volume_ids(*node);
    let mut sorted: Vec<Vec<char>> = Vec::new();
    let mut k: usize = 0;
    while k < node.share_volumes.len()
        invariant
            k <= node.share_volumes@.len(),
            ids == volume_ids(*node),
            cvs_view(sorted@) == sort_lex(ids.take(k as int)),
        decreases node.share_volumes@.len() - k,
    {
        let v = chars_of(node.share_volumes[k].volume_id.as_str());
        proof {
            assert(ids.take(k + 1).drop_last() =~= ids.take(k as int));
            assert(ids.take(k + 1).last() == v@);
        }
        insert_lex_exec(&mut sorted, v);
        k = k + 1;
    }
    assert(ids.take(k as int) =~= ids);
    let ghost ss = cvs_view(sorted@);
    let mut r = if node.online {
        string_from("true")
    } else {
        string_from("false")
    };
    push_str(&mut r, "|");
    push_str(&mut r, node.presence_status.as_str());
    push_str(&mut r, "|");
    let ghost head = r@;
    if sorted.len() > 0 {
        push_chars(&mut r, sorted[0].as_slice());
        assert(ss.take(1) =~= seq![ss[0]]);
        assert(r@ == head + join(ss.take(1), ","@));
        let mut j: usize = 1;
        while j < sorted.len()
            invariant
                1 <= j <= sorted@.len(),
                ss == cvs_view(sorted@),
                r@ == head + join(ss.take(j as int), ","@),
            decreases sorted@.len() - j,
        {
            push_str(&mut r, ",");
            push_chars(&mut r, sorted[j].as_slice());
            proof {
                let t = ss.take(j + 1);
                assert(t.drop_last() =~= ss.take(j as int));
                assert(t.last() == ss[j as int]);
            }
            j = j + 1;
        }
        assert(ss.take(j as int) =~= ss);
    } else {
        assert(join(ss, ","@) =~= Seq::<char>::empty());
    }
    assert(r@ =~= fingerprint_spec(*status, node_id@));
    r
}

/// The Files view must reload its share root after a cluster update: it is
/// at the root of a remote node whose fingerprint changed (or was unknown).
pub open spec fn reload_spec(
    previous: Option<ClusterStatus>,
    next: ClusterStatus,
    browsing: Option<Seq<char>>,
    at_share_root: bool,
) -> bool {
    at_share_root && browsing is Some && next.local_node_id@ != browsing->0 && match previous {
        Some(p) => fingerprint_spec(p, browsing->0) != fingerprint_spec(next, browsing->0),
        None => true,
    }
}

/// Whether the Files share-root listing should reload after a cluster
/// status update (see [`reload_spec`]); the listing being empty does not matter.
pub fn should_reload_share_root_on_cluster_update(
    previous: Option<&ClusterStatus>,
    next: &ClusterStatus,
    browsing_node_id: Option<&str>,
    at_share_root: bool,
    share_entries_empty: bool,
) -> (r: bool)
    ensures
        r == reload_spec(
            match previous {
                Some(p) => Some(*p),
                None => None,
            },
            *next,
            crate::prefs::opt_view(browsing_node_id),
            at_share_root,
        ),
{
    let _ = share_entries_empty;
    if !at_share_root {
        return false;
    }
    let Some(node_id) = browsing_node_id else {
        return false;
    };
    if str_eq(next.local_node_id.as_str(), node_id) {
        return false;
    }
    let next_fp = share_root_fingerprint(next, node_id);
    match previous {
        Some(p) => {
            let prev_fp = share_root_fingerprint(p, node_id);
            !str_eq(prev_fp.as_str(), next_fp.as_str())
        },
        None => true,
    }
}

/// An unchanged cluster status never triggers a share-root reload.
pub proof fn law_unchanged_status_never_reloads(
    status: ClusterStatus,
    browsing: Option<Seq<char>>,
    at_share_root: bool,
)
    ensures
        !reload_spec(Some(status), status, browsing, at_share_root),
{
}

// ---------------------------------------------------------------------------
// Cluster status line
// ---------------------------------------------------------------------------

/// How many elements of `s` satisfy `p`.
pub open spec fn count_where<A>(s: Seq<A>, p: spec_fn(A) -> bool) -> nat
    decreases s.len(),
{
    if s.len() == 0 {
        0
    } else {
        count_where(s.drop_last(), p) + if p(s.last()) {
            1nat
        } else {
            0nat
        }
    }
}

/// A node that is recently seen (signed in) but not online.
pub open spec fn signed_in_offline(n: ClusterNode) -> bool {
    !n.online && n.presence_status@ == NODE_PRESENCE_SIGNED_IN@
}

/// A node whose handshake failed.
pub open spec fn handshake_failed(n: ClusterNode) -> bool {
    n.presence_status@ == NODE_PRESENCE_HANDSHAKE_FAILED@
}

/// Node counts of the cluster status line.
#[derive(Debug, Clone, Copy, PartialEq, Eq, Structural)]
pub struct ClusterCounts {
    pub nodes: usize,
    pub online: usize,
    pub signed_in: usize,
    pub pending: usize,
    pub failed: usize,
}

/// Counts nodes: all, online, signed in but offline, handshaking, failed.
pub fn cluster_counts(cluster: &ClusterStatus) -> (r: ClusterCounts)
    ensures
        r.nodes == cluster.nodes@.len(),
        r.online == count_where(cluster.nodes@, |n: ClusterNode| n.online),
        r.signed_in == count_where(cluster.nodes@, |n: ClusterNode| signed_in_offline(n)),
        r.pending == count_where(cluster.nodes@, |n: ClusterNode| n.pending_handshake),
        r.failed == count_where(cluster.nodes@, |n: ClusterNode| handshake_failed(n)),
{
    let ghost ns = cluster.nodes@;
    let mut r = ClusterCounts { nodes: cluster.nodes.len(), online: 0, signed_in: 0, pending: 0, failed: 0 };
    let mut i: usize = 0;
    while i < cluster.nodes.len()
        invariant
            i <= ns.len(),
            ns == cluster.nodes@,
            r.nodes == ns.len(),
            r.online == count_where(ns.take(i as int), |n: ClusterNode| n.online),
            r.signed_in == count_where(ns.take(i as int), |n: ClusterNode| signed_in_offline(n)),
            r.pending == count_where(ns.take(i as int), |n: ClusterNode| n.pending_handshake),
            r.failed == count_where(ns.take(i as int), |n: ClusterNode| handshake_failed(n)),
            r.online <= i && r.signed_in <= i && r.pending <= i && r.failed <= i,
        decreases ns.len() - i,
    {
        let n = &cluster.nodes[i];
        proof {
            assert(ns.take(i + 1).drop_last() =~= ns.take(i as int));
            assert(ns.take(i + 1).last() == ns[i as int]);
        }
        if n.online {
            r.online = r.online + 1;
        }
        if !n.online && str_eq(n.presence_status.as_str(), NODE_PRESENCE_SIGNED_IN) {
            r.signed_in = r.signed_in + 1;
        }
        if n.pending_handshake {
            r.pending = r.pending + 1;
        }
        if str_eq(n.presence_status.as_str(), NODE_PRESENCE_HANDSHAKE_FAILED) {
            r.failed = r.failed + 1;
        }
        i = i + 1;
    }
    assert(ns.take(i as int) =~= ns);
    r
}

/// What the cluster status line shows.
#[derive(Debug, Clone, Copy, PartialEq, Eq, Structural)]
pub enum ClusterStatusLine {
    /// A one-off message set by the last action.
    Flash,
    /// A manual refresh is running.
    Refreshing,
    /// The cluster is syncing.
    Syncing,
    /// No cluster joined.
    Empty,
    /// Management is gated.
    Gate(MembershipGate),
    /// Some nodes are connecting or failed: counts, then a hint.
    Attention(AttentionHint),
    /// All settled: counts and "encrypted, click to browse".
    Normal,
}

/// Trailing hint of an attention status line.
#[derive(Debug, Clone, Copy, PartialEq, Eq, Structural)]
pub enum AttentionHint {
    /// Handshakes are pending: retrying.
    Retrying,
    /// Signed-in peers for a while: waiting for their lease.
    WaitLease,
    /// Signed-in peers just seen: confirming.
    Confirming,
    /// Only failures.
    NoHint,
}

/// The status line: a flash first, then refresh, sync, empty, gate; then
/// attention when a node is handshaking, signed in or failed.
pub open spec fn status_line_spec(
    has_flash: bool,
    refresh_busy: bool,
    syncing: bool,
    c: ClusterStatus,
    signed_in_slow: bool,
) -> ClusterStatusLine {
    let pending = count_where(c.nodes@, |n: ClusterNode| n.pending_handshake);
    let signed_in = count_where(c.nodes@, |n: ClusterNode| signed_in_offline(n));
    let failed = count_where(c.nodes@, |n: ClusterNode| handshake_failed(n));
    if has_flash {
        ClusterStatusLine::Flash
    } else if refresh_busy {
        ClusterStatusLine::Refreshing
    } else if syncing {
        ClusterStatusLine::Syncing
    } else if c.clusters@.len() == 0 {
        ClusterStatusLine::Empty
    } else if gate_spec(c) is Some {
        ClusterStatusLine::Gate(gate_spec(c)->0)
    } else if pending > 0 || signed_in > 0 || failed > 0 {
        ClusterStatusLine::Attention(
            if pending > 0 {
                AttentionHint::Retrying
            } else if signed_in > 0 {
                if signed_in_slow {
                    AttentionHint::WaitLease
                } else {
                    AttentionHint::Confirming
                }
            } else {
                AttentionHint::NoHint
            },
        )
    } else {
        ClusterStatusLine::Normal
    }
}

/// Which status line to show (see [`status_line_spec`]).
pub fn cluster_status_line(
    has_flash: bool,
    refresh_busy: bool,
    syncing: bool,
    cluster: &ClusterStatus,
    signed_in_slow: bool,
) -> (r: ClusterStatusLine)
    ensures
        r == status_line_spec(has_flash, refresh_busy, syncing, *cluster, signed_in_slow),
{
    if has_flash {
        return ClusterStatusLine::Flash;
    }
    if refresh_busy {
        return ClusterStatusLine::Refreshing;
    }
    if syncing {
        return ClusterStatusLine::Syncing;
    }
    if cluster.clusters.len() == 0 {
        return ClusterStatusLine::Empty;
    }
    if let Some(g) = membership_gate(cluster) {
        return ClusterStatusLine::Gate(g);
    }
    let counts = cluster_counts(cluster);
    if counts.pending > 0 || counts.signed_in > 0 || counts.failed > 0 {
        let hint = if counts.pending > 0 {
            AttentionHint::Retrying
        } else if counts.signed_in > 0 {
            if signed_in_slow {
                AttentionHint::WaitLease
            } else {
                AttentionHint::Confirming
            }
        } else {
            AttentionHint::NoHint
        };
        return ClusterStatusLine::Attention(hint);
    }
    ClusterStatusLine::Normal
}

/// `"CLUSTER · {n} NODE"` with an `S` unless `n` is 1.
pub open spec fn headline_text(n: nat) -> Seq<char> {
    "CLUSTER · "@ + crate::text::decimal(n) + if n == 1 {
        " NODE"@
    } else {
        " NODES"@
    }
}

/// The first part of the cluster status line (see [`headline_text`]).
pub fn cluster_headline(n: usize) -> (r: String)
    ensures
        r@ == headline_text(n as nat),
{
    let mut r = string_from("CLUSTER · ");
    let digits = crate::text::u64_to_string(n as u64);
    push_str(&mut r, digits.as_str());
    if n == 1 {
        push_str(&mut r, " NODE");
    } else {
        push_str(&mut r, " NODES");
    }
    r
}

/// Device bootstrap is pending without an error.
pub open spec fn bootstrap_pending_spec(c: ClusterStatus) -> bool {
    c.device_bootstrap_required && c.device_bootstrap_error is None
}

/// Whether device bootstrap is still pending without an error.
pub fn bootstrap_pending(cluster: &ClusterStatus) -> (r: bool)
    ensures
        r == bootstrap_pending_spec(*cluster),
{
    cluster.device_bootstrap_required && cluster.device_bootstrap_error.is_none()
}

/// Seconds after which a pending bootstrap earns a "taking long" hint.
pub const BOOTSTRAP_PENDING_HINT_AFTER_SECS: u64 = 35;

/// Seconds after which recently seen peers earn a "waiting for lease" hint.
pub const RECENTLY_SEEN_HINT_AFTER_SECS: u64 = 30;

/// The bootstrap is slow: still pending and pending for at least
/// [`BOOTSTRAP_PENDING_HINT_AFTER_SECS`] seconds.
pub fn bootstrap_pending_slow(cluster: &ClusterStatus, pending_for_secs: Option<u64>) -> (r: bool)
    ensures
        r == (bootstrap_pending_spec(*cluster) && pending_for_secs is Some && pending_for_secs->0
            >= BOOTSTRAP_PENDING_HINT_AFTER_SECS),
{
    bootstrap_pending(cluster) && match pending_for_secs {
        Some(s) => s >= BOOTSTRAP_PENDING_HINT_AFTER_SECS,
        None => false,
    }
}

/// Some remote node is signed in but offline.
pub open spec fn has_signed_in_peers_spec(c: ClusterStatus) -> bool {
    exists|j: int|
        0 <= j < c.nodes@.len() && c.nodes@[j].node_id@ != c.local_node_id@ && signed_in_offline(
            #[trigger] c.nodes@[j],
        )
}

/// Whether some remote node is signed in but offline.
pub fn has_signed_in_peers(cluster: &ClusterStatus) -> (r: bool)
    ensures
        r == has_signed_in_peers_spec(*cluster),
{
    let mut i: usize = 0;
    while i < cluster.nodes.len()
        invariant
            i <= cluster.nodes@.len(),
            forall|j: int|
                0 <= j < i ==> !(cluster.nodes@[j].node_id@ != cluster.local_node_id@
                    && signed_in_offline(#[trigger] cluster.nodes@[j])),
        decreases cluster.nodes@.len() - i,
    {
        let n = &cluster.nodes[i];
        if !str_eq(n.node_id.as_str(), cluster.local_node_id.as_str()) && !n.online && str_eq(
            n.presence_status.as_str(),
            NODE_PRESENCE_SIGNED_IN,
        ) {
            assert(signed_in_offline(cluster.nodes@[i as int]));
            return true;
        }
        i = i + 1;
    }
    false
}

/// Recently seen peers have waited long: seen for at least
/// [`RECENTLY_SEEN_HINT_AFTER_SECS`] seconds.
pub fn signed_in_peers_slow(seen_for_secs: Option<u64>) -> (r: bool)
    ensures
        r == (seen_for_secs is Some && seen_for_secs->0 >= RECENTLY_SEEN_HINT_AFTER_SECS),
{
    match seen_for_secs {
        Some(s) => s >= RECENTLY_SEEN_HINT_AFTER_SECS,
        None => false,
    }
}

} // verus!
