//! The decisions of the chat sidebar: what opening a terminal's chat or
//! selecting a row leads to, and the state of the sidebar search.

use vstd::prelude::*;
use crate::cluster::{ClusterNode, ClusterStatus};
use crate::find::{first_where, lemma_first_where_found, lemma_first_where_none};
use crate::sidebar::{
    conv_has_peer, find_conversation_for_node_ref, node_has_ref, node_label, node_label_spec,
    node_ref_spec, resolve_select_target, select_target_spec, strs, ChatConversation,
    SearchCategory, SelectTarget, TargetView, presence_spec, presence_state,
};
use crate::text::{opt_seq, str_eq, string_from, trim, trim_str};

verus! {

/// Toasts the sidebar raises when a chat cannot be opened.
#[derive(Debug, Clone, Copy, PartialEq, Eq, Structural)]
pub enum ChatToast {
    CannotMessageSelf,
    NoChatEndpoint,
    DeviceNotFound,
}

/// The next step of opening a chat.
#[derive(Debug, PartialEq, Eq)]
pub enum OpenChatStep {
    /// A selection is already running.
    Ignore,
    Toast(ChatToast),
    /// Open this conversation.
    Select(String),
    /// Start (or repair) a conversation with this peer.
    Start { peer: String, display_name: String, bootstrap_addrs: Vec<String> },
    /// Start a conversation with the contact of this row.
    StartContact(String),
    /// Reload the cluster, then decide again; the endpoint the cached
    /// cluster knew for the terminal goes along.
    Refresh { stale_peer: Option<String> },
}

/// The value of a step.
pub enum StepView {
    Ignore,
    Toast(ChatToast),
    Select(Seq<char>),
    Start(Seq<char>, Seq<char>, Seq<Seq<char>>),
    StartContact(Seq<char>),
    Refresh(Option<Seq<char>>),
}

impl View for OpenChatStep {
    type V = StepView;

    open spec fn view(&self) -> StepView {
        match self {
            OpenChatStep::Ignore => StepView::Ignore,
            OpenChatStep::Toast(t) => StepView::Toast(*t),
            OpenChatStep::Select(id) => StepView::Select(id@),
            OpenChatStep::Start { peer, display_name, bootstrap_addrs } => StepView::Start(
                peer@,
                display_name@,
                strs(bootstrap_addrs@),
            ),
            OpenChatStep::StartContact(id) => StepView::StartContact(id@),
            OpenChatStep::Refresh { stale_peer } => StepView::Refresh(opt_seq(*stale_peer)),
        }
    }
}

/// A terminal's chat opens with its endpoint when that is not blank.
pub open spec fn start_or_missing(node: ClusterNode) -> StepView {
    match node.chat_endpoint_id {
        Some(ep) if trim(ep@).len() > 0 => StepView::Start(
            ep@,
            node_label_spec(node),
            strs(node.chat_bootstrap_addrs@),
        ),
        _ => StepView::Toast(ChatToast::NoChatEndpoint),
    }
}

/// Nodes matching the reference that know a chat endpoint.
pub open spec fn node_ref_with_endpoint(nodes: Seq<ClusterNode>, id: Seq<char>) -> spec_fn(int) -> bool {
    |i: int| node_has_ref(nodes, id)(i) && nodes[i].chat_endpoint_id is Some
}

/// The endpoint the cached cluster knew for a terminal reference.
pub open spec fn stale_peer_spec(cluster: Option<ClusterStatus>, id: Seq<char>) -> Option<Seq<char>> {
    match cluster {
        Some(c) => {
            let k = first_where(c.nodes@.len(), node_ref_with_endpoint(c.nodes@, id));
            if k >= 0 {
                opt_seq(c.nodes@[k].chat_endpoint_id)
            } else {
                None
            }
        },
        None => None,
    }
}

/// Opening the chat of a terminal from the cached cluster: ignored while
/// a selection runs; refused for the local terminal; a listed terminal
/// starts a conversation with its endpoint (or has none); an unlisted one
/// opens a conversation found for the reference; otherwise the cluster is
/// reloaded first.
pub open spec fn open_cached_spec(
    selecting: bool,
    cluster: Option<ClusterStatus>,
    convs: Seq<ChatConversation>,
    node_id: Seq<char>,
) -> StepView {
    if selecting {
        StepView::Ignore
    } else {
        match cluster {
            Some(c) => {
                let k = first_where(c.nodes@.len(), node_has_ref(c.nodes@, node_id));
                if node_id == c.local_node_id@ {
                    StepView::Toast(ChatToast::CannotMessageSelf)
                } else if k >= 0 {
                    start_or_missing(c.nodes@[k])
                } else if node_ref_spec(convs, cluster, node_id) is Some {
                    StepView::Select(node_ref_spec(convs, cluster, node_id)->0)
                } else {
                    StepView::Refresh(stale_peer_spec(cluster, node_id))
                }
            },
            None => StepView::Refresh(None),
        }
    }
}

/// Opening the chat of a terminal with a freshly loaded cluster: refused
/// for the local terminal; a listed terminal without endpoint has none, one
/// with a conversation on its endpoint opens it, else a conversation
/// starts; an unlisted one opens a conversation found for the reference,
/// else the conversation on the endpoint the cache knew, else it is not
/// found.
pub open spec fn open_fresh_spec(
    cluster: ClusterStatus,
    convs: Seq<ChatConversation>,
    node_id: Seq<char>,
    stale_peer: Option<Seq<char>>,
) -> StepView {
    let k = first_where(cluster.nodes@.len(), node_has_ref(cluster.nodes@, node_id));
    if node_id == cluster.local_node_id@ {
        StepView::Toast(ChatToast::CannotMessageSelf)
    } else if k >= 0 {
        let node = cluster.nodes@[k];
        match node.chat_endpoint_id {
            Some(ep) if trim(ep@).len() > 0 => {
                let c = first_where(convs.len(), conv_has_peer(convs, ep@));
                if c >= 0 {
                    StepView::Select(convs[c].id@)
                } else {
                    start_or_missing(node)
                }
            },
            _ => StepView::Toast(ChatToast::NoChatEndpoint),
        }
    } else if node_ref_spec(convs, Some(cluster), node_id) is Some {
        StepView::Select(node_ref_spec(convs, Some(cluster), node_id)->0)
    } else {
        match stale_peer {
            Some(p) if trim(p).len() > 0 && first_where(convs.len(), conv_has_peer(convs, p)) >= 0 => {
                StepView::Select(convs[first_where(convs.len(), conv_has_peer(convs, p))].id@)
            },
            _ => StepView::Toast(ChatToast::DeviceNotFound),
        }
    }
}

fn first_node_by_ref(nodes: &[ClusterNode], id: &str) -> (r: Option<usize>)
    ensures
        match r {
            Some(i) => i < nodes@.len() && i as int == first_where(nodes@.len(), node_has_ref(nodes@, id@)),
            None => first_where(nodes@.len(), node_has_ref(nodes@, id@)) == -1,
        },
{
    let ghost p = node_has_ref(nodes@, id@);
    let mut i: usize = 0;
    while i < nodes.len()
        invariant
            i <= nodes@.len(),
            p == node_has_ref(nodes@, id@),
            forall|j: int| 0 <= j < i ==> !#[trigger] p(j),
        decreases nodes@.len() - i,
    {
        let hit = str_eq(nodes[i].node_id.as_str(), id) || match &nodes[i].chat_endpoint_id {
            Some(e) => str_eq(e.as_str(), id),
            None => false,
        };
        if hit {
            proof {
                lemma_first_where_found(nodes@.len(), p, i as int);
            }
            return Some(i);
        }
        i = i + 1;
    }
    proof {
        lemma_first_where_none(nodes@.len(), p);
    }
    None
}

fn first_conv_by_peer(convs: &[ChatConversation], ep: &str) -> (r: Option<usize>)
    ensures
        match r {
            Some(i) => i < convs@.len() && i as int == first_where(convs@.len(), conv_has_peer(convs@, ep@)),
            None => first_where(convs@.len(), conv_has_peer(convs@, ep@)) == -1,
        },
{
    let ghost p = conv_has_peer(convs@, ep@);
    let mut i: usize = 0;
    while i < convs.len()
        invariant
            i <= convs@.len(),
            p == conv_has_peer(convs@, ep@),
            forall|j: int| 0 <= j < i ==> !#[trigger] p(j),
        decreases convs@.len() - i,
    {
        if str_eq(convs[i].peer_endpoint.as_str(), ep) {
            proof {
                lemma_first_where_found(convs@.len(), p, i as int);
            }
            return Some(i);
        }
        i = i + 1;
    }
    proof {
        lemma_first_where_none(convs@.len(), p);
    }
    None
}

fn stale_peer_of(cluster: Option<&ClusterStatus>, id: &str) -> (r: Option<String>)
    ensures
        opt_seq(r) == stale_peer_spec(
            match cluster {
                Some(c) => Some(*c),
                None => None,
            },
            id@,
        ),
{
    let c = match cluster {
        Some(c) => c,
        None => {
            return None;
        },
    };
    let ghost p = node_ref_with_endpoint(c.nodes@, id@);
    let mut i: usize = 0;
    while i < c.nodes.len()
        invariant
            i <= c.nodes@.len(),
            cluster == Some(c),
            p == node_ref_with_endpoint(c.nodes@, id@),
            forall|j: int| 0 <= j < i ==> !#[trigger] p(j),
        decreases c.nodes@.len() - i,
    {
        let node = &c.nodes[i];
        let matches_ref = str_eq(node.node_id.as_str(), id) || match &node.chat_endpoint_id {
            Some(e) => str_eq(e.as_str(), id),
            None => false,
        };
        if matches_ref {
            if let Some(e) = &node.chat_endpoint_id {
                proof {
                    lemma_first_where_found(c.nodes@.len(), p, i as int);
                }
                return Some(string_from(e.as_str()));
            }
        }
        i = i + 1;
    }
    proof {
        lemma_first_where_none(c.nodes@.len(), p);
    }
    None
}

fn clone_addrs(v: &Vec<String>) -> (r: Vec<String>)
    ensures
        strs(r@) == strs(v@),
{
    let mut out: Vec<String> = Vec::new();
    let mut i: usize = 0;
    while i < v.len()
        invariant
            i <= v@.len(),
            out@.len() == i,
            forall|j: int| 0 <= j < i ==> (#[trigger] out@[j])@ == v@[j]@,
        decreases v@.len() - i,
    {
        out.push(string_from(v[i].as_str()));
        i = i + 1;
    }
    assert(strs(out@) =~= strs(v@));
    out
}

fn start_step(node: &ClusterNode) -> (r: OpenChatStep)
    ensures
        r@ == start_or_missing(*node),
{
    match &node.chat_endpoint_id {
        Some(ep) => {
            if trim_str(ep.as_str()).len() > 0 {
                OpenChatStep::Start {
                    peer: string_from(ep.as_str()),
                    display_name: node_label(node),
                    bootstrap_addrs: clone_addrs(&node.chat_bootstrap_addrs),
                }
            } else {
                OpenChatStep::Toast(ChatToast::NoChatEndpoint)
            }
        },
        None => OpenChatStep::Toast(ChatToast::NoChatEndpoint),
    }
}

/// The step of opening a terminal's chat from the cached cluster (see
/// [`open_cached_spec`]).
pub fn open_chat_from_cache(
    selecting: bool,
    cluster: Option<&ClusterStatus>,
    conversations: &[ChatConversation],
    node_id: &str,
) -> (r: OpenChatStep)
    ensures
        r@ == open_cached_spec(
            selecting,
            match cluster {
                Some(c) => Some(*c),
                None => None,
            },
            conversations@,
            node_id@,
        ),
{
    if selecting {
        return OpenChatStep::Ignore;
    }
    let c = match cluster {
        Some(c) => c,
        None => {
            return OpenChatStep::Refresh { stale_peer: None };
        },
    };
    if str_eq(node_id, c.local_node_id.as_str()) {
        return OpenChatStep::Toast(ChatToast::CannotMessageSelf);
    }
    if let Some(k) = first_node_by_ref(c.nodes.as_slice(), node_id) {
        return start_step(&c.nodes[k]);
    }
    if let Some(conv) = find_conversation_for_node_ref(conversations, Some(c), node_id) {
        return OpenChatStep::Select(conv);
    }
    OpenChatStep::Refresh { stale_peer: stale_peer_of(Some(c), node_id) }
}

/// The step of opening a terminal's chat once the cluster was reloaded
/// (see [`open_fresh_spec`]).
pub fn open_chat_after_refresh(
    cluster: &ClusterStatus,
    conversations: &[ChatConversation],
    node_id: &str,
    stale_peer: Option<&str>,
) -> (r: OpenChatStep)
    ensures
        r@ == open_fresh_spec(
            *cluster,
            conversations@,
            node_id@,
            match stale_peer {
                Some(p) => Some(p@),
                None => None,
            },
        ),
{
    if str_eq(node_id, cluster.local_node_id.as_str()) {
        return OpenChatStep::Toast(ChatToast::CannotMessageSelf);
    }
    if let Some(k) = first_node_by_ref(cluster.nodes.as_slice(), node_id) {
        let node = &cluster.nodes[k];
        match &node.chat_endpoint_id {
            Some(ep) => {
                if trim_str(ep.as_str()).len() > 0 {
                    if let Some(ci) = first_conv_by_peer(conversations, ep.as_str()) {
                        return OpenChatStep::Select(string_from(conversations[ci].id.as_str()));
                    }
                    return start_step(node);
                }
                return OpenChatStep::Toast(ChatToast::NoChatEndpoint);
            },
            None => {
                return OpenChatStep::Toast(ChatToast::NoChatEndpoint);
            },
        }
    }
    if let Some(conv) = find_conversation_for_node_ref(conversations, Some(cluster), node_id) {
        return OpenChatStep::Select(conv);
    }
    if let Some(p) = stale_peer {
        if trim_str(p).len() > 0 {
            if let Some(ci) = first_conv_by_peer(conversations, p) {
                return OpenChatStep::Select(string_from(conversations[ci].id.as_str()));
            }
        }
    }
    OpenChatStep::Toast(ChatToast::DeviceNotFound)
}

/// Selecting a sidebar row: ignored while a selection runs; a contact row
/// without a conversation starts a contact conversation; otherwise the
/// target of the id decides (see [`select_target_spec`]).
pub open spec fn select_step_spec(
    selecting: bool,
    contact_row: bool,
    id: Seq<char>,
    convs: Seq<ChatConversation>,
    cluster: Option<ClusterStatus>,
) -> StepView {
    if selecting {
        StepView::Ignore
    } else if contact_row {
        StepView::StartContact(id)
    } else {
        match select_target_spec(id, convs, cluster) {
            TargetView::Conversation(c) => StepView::Select(c),
            TargetView::StartWithPeer(peer, name, addrs) => match name {
                Some(n) => StepView::Start(peer, n, addrs),
                None => StepView::Start(peer, Seq::<char>::empty(), addrs),
            },
            TargetView::MissingChatEndpoint => StepView::Toast(ChatToast::NoChatEndpoint),
        }
    }
}

/// The step of selecting a sidebar row (see [`select_step_spec`]); a
/// conversation started without a display name gets an empty one.
pub fn sidebar_select_step(
    selecting: bool,
    contact_row: bool,
    id: &str,
    conversations: &[ChatConversation],
    cluster: Option<&ClusterStatus>,
) -> (r: OpenChatStep)
    ensures
        r@ == select_step_spec(
            selecting,
            contact_row,
            id@,
            conversations@,
            match cluster {
                Some(c) => Some(*c),
                None => None,
            },
        ),
{
    if selecting {
        return OpenChatStep::Ignore;
    }
    if contact_row {
        return OpenChatStep::StartContact(string_from(id));
    }
    match resolve_select_target(id, conversations, cluster) {
        SelectTarget::Conversation(c) => OpenChatStep::Select(c),
        SelectTarget::StartWithPeer { peer, display_name, bootstrap_addrs } => {
            let name = match display_name {
                Some(n) => n,
                None => String::new(),
            };
            OpenChatStep::Start { peer, display_name: name, bootstrap_addrs }
        },
        SelectTarget::MissingChatEndpoint => OpenChatStep::Toast(ChatToast::NoChatEndpoint),
    }
}

/// What to do with the media hits after a search change.
#[derive(Debug, PartialEq, Eq)]
pub enum HitsEffect {
    /// Nothing changes.
    Keep,
    /// The hits are cleared.
    Clear,
    /// Fetch hits of this category (query when not blank), tagged with a
    /// generation so that older answers are dropped.
    Fetch { generation: u64, category: String, query: Option<String> },
}

/// State of the sidebar search.
#[derive(Debug)]
pub struct SidebarSearch {
    pub query: String,
    pub focused: bool,
    pub category: SearchCategory,
    pub hit_generation: u64,
}

/// The effect of refreshing hits in a state: a focused media category
/// fetches with the next generation, anything else clears.
pub open spec fn refresh_ok(s: SidebarSearch, t: SidebarSearch, e: HitsEffect) -> bool {
    &&& t.query == s.query && t.focused == s.focused && t.category == s.category
    &&& if s.focused && s.category.is_media_spec() {
        let g = if s.hit_generation == u64::MAX { u64::MAX } else { (s.hit_generation + 1) as u64 };
        &&& t.hit_generation == g
        &&& e matches HitsEffect::Fetch { generation, category, query } && generation == g
            && Some(category@) == s.category.api_category_spec() && match query {
            Some(q) => trim(s.query@).len() > 0 && q@ == s.query@,
            None => trim(s.query@).len() == 0,
        }
    } else {
        t.hit_generation == s.hit_generation && e == HitsEffect::Clear
    }
}

impl SidebarSearch {
    /// An empty, unfocused search on terminals.
    pub fn new() -> (r: Self)
        ensures
            r.query@.len() == 0,
            !r.focused,
            r.category == SearchCategory::Terminal,
            r.hit_generation == 0,
    {
        SidebarSearch { query: String::new(), focused: false, category: SearchCategory::Terminal, hit_generation: 0 }
    }

    /// Refreshes the media hits of the current state (see [`refresh_ok`]).
    pub fn refresh_hits(&mut self) -> (e: HitsEffect)
        ensures
            refresh_ok(*old(self), *final(self), e),
    {
        if !(self.focused && self.category.is_media()) {
            return HitsEffect::Clear;
        }
        let api = match self.category.sidebar_api_category() {
            Some(a) => a,
            None => {
                return HitsEffect::Keep;
            },
        };
        self.hit_generation = self.hit_generation.saturating_add(1);
        let query = if trim_str(self.query.as_str()).len() == 0 {
            None
        } else {
            Some(string_from(self.query.as_str()))
        };
        HitsEffect::Fetch { generation: self.hit_generation, category: string_from(api), query }
    }

    /// The search icon toggles focus: losing it goes back to terminals and
    /// clears the hits; gaining it refreshes them.
    pub fn toggle_focus(&mut self) -> (e: HitsEffect)
        ensures
            old(self).focused ==> !final(self).focused && final(self).category == SearchCategory::Terminal
                && e == HitsEffect::Clear && final(self).query == old(self).query
                && final(self).hit_generation == old(self).hit_generation,
            !old(self).focused ==> refresh_ok(
                SidebarSearch { focused: true, ..*old(self) },
                *final(self),
                e,
            ),
    {
        if self.focused {
            self.focused = false;
            self.category = SearchCategory::Terminal;
            HitsEffect::Clear
        } else {
            self.focused = true;
            self.refresh_hits()
        }
    }

    /// Leaves the search: back to terminals with the hits cleared; nothing
    /// happens when it was not focused.
    pub fn blur(&mut self) -> (e: HitsEffect)
        ensures
            !old(self).focused ==> *final(self) == *old(self) && e == HitsEffect::Keep,
            old(self).focused ==> !final(self).focused && final(self).category == SearchCategory::Terminal
                && e == HitsEffect::Clear && final(self).query == old(self).query
                && final(self).hit_generation == old(self).hit_generation,
    {
        if !self.focused {
            return HitsEffect::Keep;
        }
        self.focused = false;
        self.category = SearchCategory::Terminal;
        HitsEffect::Clear
    }

    /// Picks a category (and focuses the search); hits refresh only when the
    /// category changes.
    pub fn select_category(&mut self, category: SearchCategory) -> (e: HitsEffect)
        ensures
            final(self).focused,
            final(self).category == category,
            old(self).category == category ==> e == HitsEffect::Keep && final(self).query
                == old(self).query && final(self).hit_generation == old(self).hit_generation,
            old(self).category != category ==> refresh_ok(
                SidebarSearch { focused: true, category, ..*old(self) },
                *final(self),
                e,
            ),
    {
        self.focused = true;
        if self.category == category {
            return HitsEffect::Keep;
        }
        self.category = category;
        self.refresh_hits()
    }

    /// The query was edited: the search is focused and the hits refresh.
    pub fn edit_query(&mut self, query: String) -> (e: HitsEffect)
        ensures
            refresh_ok(
                SidebarSearch { query, focused: true, ..*old(self) },
                *final(self),
                e,
            ),
    {
        self.query = query;
        self.focused = true;
        self.refresh_hits()
    }

    /// Hits tagged `generation` still answer the latest request.
    pub fn hits_current(&self, generation: u64) -> (r: bool)
        ensures
            r == (generation == self.hit_generation),
    {
        generation == self.hit_generation
    }
}

/// Refreshes of the sidebar run one at a time: a refresh asked for while
/// one runs is remembered and runs once that one ends.
#[derive(Debug, Clone, Copy, PartialEq, Eq, Structural)]
pub struct RefreshGate {
    pub in_flight: bool,
    pub pending: bool,
}

impl RefreshGate {
    /// Nothing running, nothing asked for.
    pub fn new() -> (r: Self)
        ensures
            !r.in_flight && !r.pending,
    {
        RefreshGate { in_flight: false, pending: false }
    }

    /// A refresh asked for: it starts now unless one runs, in which case it
    /// is remembered.
    pub open spec fn request_spec(self) -> (RefreshGate, bool) {
        (RefreshGate { in_flight: true, pending: self.pending || self.in_flight }, !self.in_flight)
    }

    /// The running refresh ended: a remembered one starts now.
    pub open spec fn finish_spec(self) -> (RefreshGate, bool) {
        (RefreshGate { in_flight: self.pending, pending: false }, self.pending)
    }

    /// A refresh is asked for (see [`Self::request_spec`]); the result says
    /// whether it starts now.
    pub fn request(&mut self) -> (start: bool)
        ensures
            (*final(self), start) == old(self).request_spec(),
    {
        if self.in_flight {
            self.pending = true;
            return false;
        }
        self.in_flight = true;
        true
    }

    /// The running refresh ended (see [`Self::finish_spec`]); the result
    /// says whether a remembered refresh starts now.
    pub fn finish(&mut self) -> (start: bool)
        ensures
            (*final(self), start) == old(self).finish_spec(),
    {
        self.in_flight = false;
        if self.pending {
            self.pending = false;
            self.in_flight = true;
            return true;
        }
        false
    }
}

/// Nodes whose chat endpoint (else node id) or node id is `peer`.
pub open spec fn node_is_peer(nodes: Seq<ClusterNode>, peer: Seq<char>) -> spec_fn(int) -> bool {
    |i: int| {
        let ep = match nodes[i].chat_endpoint_id {
            Some(e) => e@,
            None => nodes[i].node_id@,
        };
        ep == peer || nodes[i].node_id@ == peer
    }
}

/// The summary shown while a conversation with a peer opens.
#[derive(Debug, PartialEq, Eq)]
pub struct PendingOpen {
    /// The peer's display name; none shows `chat.opening_conversation`.
    pub title: Option<String>,
    pub os: String,
    pub presence: String,
}

/// The summary shown while a conversation with `peer` opens: its display
/// name unless blank, and the OS and presence of the first node that is
/// the peer (empty and `unknown` when none is).
pub fn pending_open_summary(peer: &str, display_name: Option<&str>, cluster: Option<&ClusterStatus>) -> (r: PendingOpen)
    ensures
        match display_name {
            Some(d) => trim(d@).len() > 0 ==> opt_seq(r.title) == Some(d@),
            None => true,
        },
        (display_name is None || trim(display_name->0@).len() == 0) ==> r.title is None,
        match cluster {
            Some(c) => {
                let k = first_where(c.nodes@.len(), node_is_peer(c.nodes@, peer@));
                if k >= 0 {
                    r.os@ == c.nodes@[k].os@ && r.presence@ == presence_spec(c.nodes@[k].online, c.nodes@[k].presence_status@)
                } else {
                    r.os@.len() == 0 && r.presence@ == "unknown"@
                }
            },
            None => r.os@.len() == 0 && r.presence@ == "unknown"@,
        },
{
    proof {
        reveal_strlit("unknown");
    }
    let title = match display_name {
        Some(d) => if trim_str(d).len() > 0 {
            Some(string_from(d))
        } else {
            None
        },
        None => None,
    };
    match cluster {
        Some(c) => match peer_node_index(c.nodes.as_slice(), peer) {
            Some(k) => PendingOpen {
                title,
                os: string_from(c.nodes[k].os.as_str()),
                presence: presence_state(c.nodes[k].online, c.nodes[k].presence_status.as_str()),
            },
            None => PendingOpen { title, os: String::new(), presence: string_from("unknown") },
        },
        None => PendingOpen { title, os: String::new(), presence: string_from("unknown") },
    }
}

fn peer_node_index(nodes: &[ClusterNode], peer: &str) -> (r: Option<usize>)
    ensures
        match r {
            Some(k) => k < nodes@.len() && first_where(nodes@.len(), node_is_peer(nodes@, peer@)) == k,
            None => first_where(nodes@.len(), node_is_peer(nodes@, peer@)) == -1,
        },
{
    let ghost p = node_is_peer(nodes@, peer@);
    let mut i: usize = 0;
    while i < nodes.len()
        invariant
            i <= nodes@.len(),
            p == node_is_peer(nodes@, peer@),
            forall|j: int| 0 <= j < i ==> !#[trigger] p(j),
        decreases nodes@.len() - i,
    {
        let n = &nodes[i];
        let ep_match = match &n.chat_endpoint_id {
            Some(e) => str_eq(e.as_str(), peer),
            None => str_eq(n.node_id.as_str(), peer),
        };
        if ep_match || str_eq(n.node_id.as_str(), peer) {
            assert(p(i as int));
            proof {
                lemma_first_where_found(nodes@.len(), p, i as int);
            }
            return Some(i);
        }
        i = i + 1;
    }
    proof {
        lemma_first_where_none(nodes@.len(), p);
    }
    None
}

} // verus!
