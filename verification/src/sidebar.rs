//! Rules of the chat sidebar: search categories, presence words, which
//! conversation a selection opens, and which terminals get a placeholder row.

use vstd::prelude::*;
use crate::text::{
    chars_of, chars_eq_ignore_ascii_case, chars_contains, contains,
    eq_ignore_ascii_case, push_str, str_eq, string_from, to_lowercase, trim, trim_str,
    unicode_lowercase, opt_seq,
};
use crate::find::{first_where, lemma_first_where_found, lemma_first_where_none};
use crate::cluster::{ClusterNode, ClusterStatus};

verus! {

/// Search categories offered while the sidebar search field is focused.
#[derive(Debug, Clone, Copy, PartialEq, Eq, Structural)]
pub enum SearchCategory {
    Terminal,
    Group,
    Contact,
    Image,
    Video,
    File,
    Post,
}

impl SearchCategory {
    /// The automation id of the category chip.
    pub open spec fn automation_id_spec(self) -> Seq<char> {
        match self {
            SearchCategory::Terminal => "chat:search_cat:terminals"@,
            SearchCategory::Group => "chat:search_cat:groups"@,
            SearchCategory::Contact => "chat:search_cat:contacts"@,
            SearchCategory::Image => "chat:search_cat:images"@,
            SearchCategory::Video => "chat:search_cat:videos"@,
            SearchCategory::File => "chat:search_cat:files"@,
            SearchCategory::Post => "chat:search_cat:posts"@,
        }
    }

    /// The translation key of the category label.
    pub open spec fn i18n_key_spec(self) -> Seq<char> {
        match self {
            SearchCategory::Terminal => "chat.sidebar.tab.terminals"@,
            SearchCategory::Group => "chat.sidebar.tab.groups"@,
            SearchCategory::Contact => "chat.sidebar.tab.contacts"@,
            SearchCategory::Image => "chat.sidebar.tab.images"@,
            SearchCategory::Video => "chat.sidebar.tab.videos"@,
            SearchCategory::File => "chat.sidebar.tab.files"@,
            SearchCategory::Post => "chat.sidebar.tab.posts"@,
        }
    }

    /// Media categories search message hits rather than conversations.
    pub open spec fn is_media_spec(self) -> bool {
        self is Image || self is Video || self is File || self is Post
    }

    /// The category name the sidebar search API takes, for media categories.
    pub open spec fn api_category_spec(self) -> Option<Seq<char>> {
        match self {
            SearchCategory::Image => Some("image"@),
            SearchCategory::Video => Some("video"@),
            SearchCategory::File => Some("document"@),
            SearchCategory::Post => Some("posts"@),
            _ => None,
        }
    }

    /// The automation id of the category chip.
    pub fn automation_id(self) -> (r: &'static str)
        ensures
            r@ == self.automation_id_spec(),
    {
        match self {
            SearchCategory::Terminal => "chat:search_cat:terminals",
            SearchCategory::Group => "chat:search_cat:groups",
            SearchCategory::Contact => "chat:search_cat:contacts",
            SearchCategory::Image => "chat:search_cat:images",
            SearchCategory::Video => "chat:search_cat:videos",
            SearchCategory::File => "chat:search_cat:files",
            SearchCategory::Post => "chat:search_cat:posts",
        }
    }

    /// The translation key of the category label.
    pub fn i18n_key(self) -> (r: &'static str)
        ensures
            r@ == self.i18n_key_spec(),
    {
        match self {
            SearchCategory::Terminal => "chat.sidebar.tab.terminals",
            SearchCategory::Group => "chat.sidebar.tab.groups",
            SearchCategory::Contact => "chat.sidebar.tab.contacts",
            SearchCategory::Image => "chat.sidebar.tab.images",
            SearchCategory::Video => "chat.sidebar.tab.videos",
            SearchCategory::File => "chat.sidebar.tab.files",
            SearchCategory::Post => "chat.sidebar.tab.posts",
        }
    }

    /// Whether the category searches media hits.
    pub fn is_media(self) -> (r: bool)
        ensures
            r == self.is_media_spec(),
    {
        match self {
            SearchCategory::Image | SearchCategory::Video | SearchCategory::File
            | SearchCategory::Post => true,
            _ => false,
        }
    }

    /// The search API's category name, for media categories only.
    pub fn sidebar_api_category(self) -> (r: Option<&'static str>)
        ensures
            match r {
                Some(s) => self.api_category_spec() == Some(s@),
                None => self.api_category_spec() is None,
            },
    {
        match self {
            SearchCategory::Image => Some("image"),
            SearchCategory::Video => Some("video"),
            SearchCategory::File => Some("document"),
            SearchCategory::Post => Some("posts"),
            _ => None,
        }
    }
}

/// Events the sidebar hands to the chat shell.
#[derive(Debug, Clone)]
pub enum ChatSidebarEvent {
    Selected(String),
    OpenContacts,
    OpenCalls,
    OpenChannel,
}

/// The presence word of a row: an online flag or raw `online` wins; a
/// signed-in or recently seen peer was recently online; anything the
/// sidebar does not know stays unknown rather than offline.
pub open spec fn presence_spec(online: bool, raw: Seq<char>) -> Seq<char> {
    if online || raw == "online"@ {
        "online"@
    } else if raw == "signed_in"@ || raw == "recently_seen"@ {
        "recently_online"@
    } else if raw == "offline"@ {
        "offline"@
    } else {
        "unknown"@
    }
}

/// The presence word of a row (see [`presence_spec`]).
pub fn presence_state(online: bool, raw: &str) -> (r: String)
    ensures
        r@ == presence_spec(online, raw@),
{
    if online || str_eq(raw, "online") {
        string_from("online")
    } else if str_eq(raw, "signed_in") || str_eq(raw, "recently_seen") {
        string_from("recently_online")
    } else if str_eq(raw, "offline") {
        string_from("offline")
    } else {
        string_from("unknown")
    }
}

/// The preview of a media hit: its attachment name unless that is blank,
/// else the message body.
pub open spec fn hit_preview_spec(attachment_name: Option<Seq<char>>, body: Seq<char>) -> Seq<char> {
    match attachment_name {
        Some(n) if trim(n).len() > 0 => n,
        _ => body,
    }
}

/// The preview of a media hit (see [`hit_preview_spec`]).
pub fn hit_preview(attachment_name: &Option<String>, body: &str) -> (r: String)
    ensures
        r@ == hit_preview_spec(opt_seq(*attachment_name), body@),
{
    match attachment_name {
        Some(n) => {
            if trim_str(n.as_str()).len() > 0 {
                string_from(n.as_str())
            } else {
                string_from(body)
            }
        },
        None => string_from(body),
    }
}

/// The avatar label of a media hit by attachment kind.
pub open spec fn hit_avatar_spec(kind: Option<Seq<char>>) -> Seq<char> {
    match kind {
        Some(k) if k == "image"@ => "IMG"@,
        Some(k) if k == "video"@ => "VID"@,
        Some(k) if k == "document"@ => "DOC"@,
        _ => "POST"@,
    }
}

/// The avatar label of a media hit (see [`hit_avatar_spec`]).
pub fn hit_avatar_label(kind: Option<&str>) -> (r: &'static str)
    ensures
        r@ == hit_avatar_spec(
            match kind {
                Some(k) => Some(k@),
                None => None,
            },
        ),
{
    match kind {
        Some(k) => {
            if str_eq(k, "image") {
                "IMG"
            } else if str_eq(k, "video") {
                "VID"
            } else if str_eq(k, "document") {
                "DOC"
            } else {
                "POST"
            }
        },
        None => "POST",
    }
}

/// Kinds of sidebar rows.
#[derive(Debug, Clone, Copy, PartialEq, Eq, Structural)]
pub enum SidebarRowKind {
    Terminal,
    Group,
    Contact,
    Channel,
    MediaHit,
}

/// The row kind of a conversation kind: contact DMs, cluster groups and
/// channels by name, every other kind a terminal.
pub open spec fn row_kind_spec(kind: Seq<char>) -> SidebarRowKind {
    if kind == "contact_direct"@ {
        SidebarRowKind::Contact
    } else if kind == "cluster_group"@ {
        SidebarRowKind::Group
    } else if kind == "channel"@ {
        SidebarRowKind::Channel
    } else {
        SidebarRowKind::Terminal
    }
}

/// The row kind of a conversation kind (see [`row_kind_spec`]).
pub fn row_kind(kind: &str) -> (r: SidebarRowKind)
    ensures
        r == row_kind_spec(kind@),
{
    if str_eq(kind, "contact_direct") {
        SidebarRowKind::Contact
    } else if str_eq(kind, "cluster_group") {
        SidebarRowKind::Group
    } else if str_eq(kind, "channel") {
        SidebarRowKind::Channel
    } else {
        SidebarRowKind::Terminal
    }
}

/// A row is listed for a search: it has the kind of the focused terminal,
/// group or contact category (other categories let every kind through), and
/// the query, trimmed and lower-cased, is empty or occurs in the lower-cased
/// title or preview.
pub open spec fn row_visible_spec(
    category: Option<SearchCategory>,
    kind: SidebarRowKind,
    query: Seq<char>,
    title: Seq<char>,
    preview: Seq<char>,
) -> bool {
    let q = unicode_lowercase(trim(query));
    let kind_ok = match category {
        Some(SearchCategory::Terminal) => kind == SidebarRowKind::Terminal,
        Some(SearchCategory::Group) => kind == SidebarRowKind::Group,
        Some(SearchCategory::Contact) => kind == SidebarRowKind::Contact,
        _ => true,
    };
    kind_ok && (q.len() == 0 || contains(unicode_lowercase(title), q) || contains(
        unicode_lowercase(preview),
        q,
    ))
}

/// Whether a row is listed for a search (see [`row_visible_spec`]).
pub fn row_visible(
    category: Option<SearchCategory>,
    kind: SidebarRowKind,
    query: &str,
    title: &str,
    preview: &str,
) -> (r: bool)
    ensures
        r == row_visible_spec(category, kind, query@, title@, preview@),
{
    let kind_ok = match category {
        Some(SearchCategory::Terminal) => kind == SidebarRowKind::Terminal,
        Some(SearchCategory::Group) => kind == SidebarRowKind::Group,
        Some(SearchCategory::Contact) => kind == SidebarRowKind::Contact,
        _ => true,
    };
    if !kind_ok {
        return false;
    }
    let t = trim_str(query);
    let ts = string_from_chars(t.as_slice());
    let q = to_lowercase(ts.as_str());
    let qc = chars_of(q.as_str());
    if qc.len() == 0 {
        return true;
    }
    let tl = to_lowercase(title);
    let tlc = chars_of(tl.as_str());
    if chars_contains(tlc.as_slice(), qc.as_slice()) {
        return true;
    }
    let pl = to_lowercase(preview);
    let plc = chars_of(pl.as_str());
    chars_contains(plc.as_slice(), qc.as_slice())
}

fn string_from_chars(cs: &[char]) -> (r: String)
    ensures
        r@ == cs@,
{
    crate::text::string_of(cs)
}

/// A conversation as the sidebar reads it.
#[derive(Debug)]
pub struct ChatConversation {
    pub id: String,
    pub kind: String,
    pub peer_endpoint: String,
    pub peer_display_name: Option<String>,
    pub peer_user_id: Option<String>,
}

/// What selecting a sidebar id leads to.
#[derive(Debug, PartialEq, Eq)]
pub enum SelectTarget {
    /// Open this existing conversation.
    Conversation(String),
    /// Start a conversation with this peer.
    StartWithPeer { peer: String, display_name: Option<String>, bootstrap_addrs: Vec<String> },
    /// The cluster node is known but has no usable chat endpoint yet.
    MissingChatEndpoint,
}

/// The value of a [`SelectTarget`].
pub enum TargetView {
    Conversation(Seq<char>),
    StartWithPeer(Seq<char>, Option<Seq<char>>, Seq<Seq<char>>),
    MissingChatEndpoint,
}

/// The character views of a sequence of strings.
pub open spec fn strs(s: Seq<String>) -> Seq<Seq<char>> {
    s.map_values(|x: String| x@)
}

impl View for SelectTarget {
    type V = TargetView;

    open spec fn view(&self) -> TargetView {
        match self {
            SelectTarget::Conversation(id) => TargetView::Conversation(id@),
            SelectTarget::StartWithPeer { peer, display_name, bootstrap_addrs } => {
                TargetView::StartWithPeer(peer@, opt_seq(*display_name), strs(bootstrap_addrs@))
            },
            SelectTarget::MissingChatEndpoint => TargetView::MissingChatEndpoint,
        }
    }
}

/// The label of a terminal: `"<os> · <hostname>"`.
pub open spec fn node_label_spec(node: ClusterNode) -> Seq<char> {
    node.os@ + " · "@ + node.hostname@
}

/// The label of a terminal (see [`node_label_spec`]).
pub fn node_label(node: &ClusterNode) -> (r: String)
    ensures
        r@ == node_label_spec(*node),
{
    let mut s = string_from(node.os.as_str());
    push_str(&mut s, " · ");
    push_str(&mut s, node.hostname.as_str());
    s
}

/// Conversations whose id is `id`.
pub open spec fn conv_has_id(convs: Seq<ChatConversation>, id: Seq<char>) -> spec_fn(int) -> bool {
    |i: int| convs[i].id@ == id
}

/// Conversations whose peer endpoint is `ep`.
pub open spec fn conv_has_peer(convs: Seq<ChatConversation>, ep: Seq<char>) -> spec_fn(int) -> bool {
    |i: int| convs[i].peer_endpoint@ == ep
}

/// Nodes whose chat endpoint or node id is `id`.
pub open spec fn node_has_ref(nodes: Seq<ClusterNode>, id: Seq<char>) -> spec_fn(int) -> bool {
    |i: int| opt_seq(nodes[i].chat_endpoint_id) == Some(id) || nodes[i].node_id@ == id
}

/// The first conversation with id `id`.
fn find_conv_by_id(convs: &[ChatConversation], id: &str) -> (r: Option<usize>)
    ensures
        match r {
            Some(i) => i < convs@.len() && i as int == first_where(convs@.len(), conv_has_id(convs@, id@)),
            None => first_where(convs@.len(), conv_has_id(convs@, id@)) == -1,
        },
{
    let ghost p = conv_has_id(convs@, id@);
    let mut i: usize = 0;
    while i < convs.len()
        invariant
            i <= convs@.len(),
            p == conv_has_id(convs@, id@),
            forall|j: int| 0 <= j < i ==> !#[trigger] p(j),
        decreases convs@.len() - i,
    {
        if str_eq(convs[i].id.as_str(), id) {
            proof {
                lemma_first_where_found(convs@.len(), p, i as int);
            }
            return Some(i);
        }
        i = i + 1;
    }
    proof {
        lemma_first_where_none(convs@.len(), p);
    }
    None
}

/// The first conversation with peer endpoint `ep`.
fn find_conv_by_peer(convs: &[ChatConversation], ep: &str) -> (r: Option<usize>)
    ensures
        match r {
            Some(i) => i < convs@.len() && i as int == first_where(convs@.len(), conv_has_peer(convs@, ep@)),
            None => first_where(convs@.len(), conv_has_peer(convs@, ep@)) == -1,
        },
{
    let ghost p = conv_has_peer(convs@, ep@);
    let mut i: usize = 0;
    while i < convs.len()
        invariant
            i <= convs@.len(),
            p == conv_has_peer(convs@, ep@),
            forall|j: int| 0 <= j < i ==> !#[trigger] p(j),
        decreases convs@.len() - i,
    {
        if str_eq(convs[i].peer_endpoint.as_str(), ep) {
            proof {
                lemma_first_where_found(convs@.len(), p, i as int);
            }
            return Some(i);
        }
        i = i + 1;
    }
    proof {
        lemma_first_where_none(convs@.len(), p);
    }
    None
}

fn opt_str_is(o: &Option<String>, s: &str) -> (r: bool)
    ensures
        r == (opt_seq(*o) == Some(s@)),
{
    match o {
        Some(x) => str_eq(x.as_str(), s),
        None => false,
    }
}

/// The first node whose chat endpoint or node id is `id`.
fn find_node_by_ref(nodes: &[ClusterNode], id: &str) -> (r: Option<usize>)
    ensures
        match r {
            Some(i) => i < nodes@.len() && i as int == first_where(nodes@.len(), node_has_ref(nodes@, id@)),
            None => first_where(nodes@.len(), node_has_ref(nodes@, id@)) == -1,
        },
{
    let ghost p = node_has_ref(nodes@, id@);
    let mut i: usize = 0;
    while i < nodes.len()
        invariant
            i <= nodes@.len(),
            p == node_has_ref(nodes@, id@),
            forall|j: int| 0 <= j < i ==> !#[trigger] p(j),
        decreases nodes@.len() - i,
    {
        if opt_str_is(&nodes[i].chat_endpoint_id, id) || str_eq(nodes[i].node_id.as_str(), id) {
            proof {
                lemma_first_where_found(nodes@.len(), p, i as int);
            }
            return Some(i);
        }
        i = i + 1;
    }
    proof {
        lemma_first_where_none(nodes@.len(), p);
    }
    None
}

fn clone_strings(v: &Vec<String>) -> (r: Vec<String>)
    ensures
        strs(r@) == strs(v@),
{
    let mut out: Vec<String> = Vec::new();
    let mut i: usize = 0;
    while i < v.len()
        invariant
            i <= v@.len(),
            out@.len() == i,
            forall|j: int| 0 <= j < i ==> (#[trigger] out@[j])@ == v@[j]@,
        decreases v@.len() - i,
    {
        out.push(string_from(v[i].as_str()));
        i = i + 1;
    }
    assert(strs(out@) =~= strs(v@));
    out
}

/// Where selecting `id` leads: the conversation with that id; else the
/// first conversation with that peer endpoint; else, for a cluster node
/// found by endpoint or node id, a new conversation with its endpoint
/// (labelled `"<os> · <hostname>"`, with its bootstrap addresses) or, when
/// the endpoint is missing or blank, no endpoint; else a new conversation
/// with `id` itself as the peer.
pub open spec fn select_target_spec(
    id: Seq<char>,
    convs: Seq<ChatConversation>,
    cluster: Option<ClusterStatus>,
) -> TargetView {
    let by_id = first_where(convs.len(), conv_has_id(convs, id));
    let by_peer = first_where(convs.len(), conv_has_peer(convs, id));
    if by_id >= 0 {
        TargetView::Conversation(id)
    } else if by_peer >= 0 {
        TargetView::Conversation(convs[by_peer].id@)
    } else {
        let fallback = TargetView::StartWithPeer(id, None, seq![]);
        match cluster {
            Some(c) => {
                let k = first_where(c.nodes@.len(), node_has_ref(c.nodes@, id));
                if k >= 0 {
                    let node = c.nodes@[k];
                    match node.chat_endpoint_id {
                        Some(ep) if trim(ep@).len() > 0 => TargetView::StartWithPeer(
                            ep@,
                            Some(node_label_spec(node)),
                            strs(node.chat_bootstrap_addrs@),
                        ),
                        _ => TargetView::MissingChatEndpoint,
                    }
                } else {
                    fallback
                }
            },
            None => fallback,
        }
    }
}

/// Where selecting a sidebar id leads (see [`select_target_spec`]).
pub fn resolve_select_target(
    id: &str,
    conversations: &[ChatConversation],
    cluster: Option<&ClusterStatus>,
) -> (r: SelectTarget)
    ensures
        r@ == select_target_spec(
            id@,
            conversations@,
            match cluster {
                Some(c) => Some(*c),
                None => None,
            },
        ),
{
    if find_conv_by_id(conversations, id).is_some() {
        return SelectTarget::Conversation(string_from(id));
    }
    if let Some(i) = find_conv_by_peer(conversations, id) {
        return SelectTarget::Conversation(string_from(conversations[i].id.as_str()));
    }
    if let Some(c) = cluster {
        if let Some(k) = find_node_by_ref(c.nodes.as_slice(), id) {
            let node = &c.nodes[k];
            match &node.chat_endpoint_id {
                Some(ep) => {
                    if trim_str(ep.as_str()).len() > 0 {
                        let label = node_label(node);
                        let addrs = clone_strings(&node.chat_bootstrap_addrs);
                        return SelectTarget::StartWithPeer {
                            peer: string_from(ep.as_str()),
                            display_name: Some(label),
                            bootstrap_addrs: addrs,
                        };
                    }
                    return SelectTarget::MissingChatEndpoint;
                },
                None => {
                    return SelectTarget::MissingChatEndpoint;
                },
            }
        }
    }
    let r = SelectTarget::StartWithPeer {
        peer: string_from(id),
        display_name: None,
        bootstrap_addrs: Vec::new(),
    };
    assert(strs(Seq::<String>::empty()) =~= Seq::<Seq<char>>::empty());
    r
}

/// Conversations whose peer endpoint or id is `x`.
pub open spec fn conv_has_peer_or_id(convs: Seq<ChatConversation>, x: Seq<char>) -> spec_fn(int) -> bool {
    |i: int| convs[i].peer_endpoint@ == x || convs[i].id@ == x
}

/// A display name names a terminal: trimmed, it equals its label or its
/// hostname ignoring ASCII case, or, lower-cased, contains its lower-cased
/// hostname.
pub open spec fn name_matches_node(name: Option<Seq<char>>, node: ClusterNode) -> bool {
    match name {
        Some(n) => {
            let t = trim(n);
            ||| eq_ignore_ascii_case(t, node_label_spec(node))
            ||| eq_ignore_ascii_case(t, node.hostname@)
            ||| contains(unicode_lowercase(t), unicode_lowercase(node.hostname@))
        },
        None => false,
    }
}

/// Conversations whose display name names `node`.
pub open spec fn conv_names_node(convs: Seq<ChatConversation>, node: ClusterNode) -> spec_fn(int) -> bool {
    |i: int| name_matches_node(opt_seq(convs[i].peer_display_name), node)
}

/// Conversations whose lower-cased display name contains `needle`.
pub open spec fn conv_name_contains(convs: Seq<ChatConversation>, needle: Seq<char>) -> spec_fn(int) -> bool {
    |i: int|
        match opt_seq(convs[i].peer_display_name) {
            Some(n) => contains(unicode_lowercase(n), needle),
            None => false,
        }
}

/// The conversation of a terminal found through the cluster: the first
/// conversation with its (non-empty) chat endpoint, else the first whose
/// display name names it.
pub open spec fn conv_via_node(convs: Seq<ChatConversation>, node: ClusterNode) -> Option<Seq<char>> {
    let e = match node.chat_endpoint_id {
        Some(ep) if ep@.len() > 0 => first_where(convs.len(), conv_has_peer(convs, ep@)),
        _ => -1,
    };
    let d = first_where(convs.len(), conv_names_node(convs, node));
    if e >= 0 {
        Some(convs[e].id@)
    } else if d >= 0 {
        Some(convs[d].id@)
    } else {
        None
    }
}

/// The conversation of a terminal reference that the cluster may no
/// longer list: the first conversation whose peer endpoint or id is the
/// reference; else, for a listed node, [`conv_via_node`]; else the first
/// conversation whose lower-cased display name contains the lower-cased
/// reference.
pub open spec fn node_ref_spec(
    convs: Seq<ChatConversation>,
    cluster: Option<ClusterStatus>,
    node_id: Seq<char>,
) -> Option<Seq<char>> {
    let a = first_where(convs.len(), conv_has_peer_or_id(convs, node_id));
    let via = match cluster {
        Some(c) => {
            let k = first_where(c.nodes@.len(), node_has_ref(c.nodes@, node_id));
            if k >= 0 {
                conv_via_node(convs, c.nodes@[k])
            } else {
                None
            }
        },
        None => None,
    };
    let f = first_where(convs.len(), conv_name_contains(convs, unicode_lowercase(node_id)));
    if a >= 0 {
        Some(convs[a].id@)
    } else if via is Some {
        via
    } else if f >= 0 {
        Some(convs[f].id@)
    } else {
        None
    }
}

fn find_conv_by_peer_or_id(convs: &[ChatConversation], x: &str) -> (r: Option<usize>)
    ensures
        match r {
            Some(i) => i < convs@.len() && i as int == first_where(convs@.len(), conv_has_peer_or_id(convs@, x@)),
            None => first_where(convs@.len(), conv_has_peer_or_id(convs@, x@)) == -1,
        },
{
    let ghost p = conv_has_peer_or_id(convs@, x@);
    let mut i: usize = 0;
    while i < convs.len()
        invariant
            i <= convs@.len(),
            p == conv_has_peer_or_id(convs@, x@),
            forall|j: int| 0 <= j < i ==> !#[trigger] p(j),
        decreases convs@.len() - i,
    {
        if str_eq(convs[i].peer_endpoint.as_str(), x) || str_eq(convs[i].id.as_str(), x) {
            proof {
                lemma_first_where_found(convs@.len(), p, i as int);
            }
            return Some(i);
        }
        i = i + 1;
    }
    proof {
        lemma_first_where_none(convs@.len(), p);
    }
    None
}

fn display_names_node(name: &Option<String>, node: &ClusterNode) -> (r: bool)
    ensures
        r == name_matches_node(opt_seq(*name), *node),
{
    match name {
        Some(n) => {
            let t = trim_str(n.as_str());
            let label = node_label(node);
            let lc = chars_of(label.as_str());
            if chars_eq_ignore_ascii_case(t.as_slice(), lc.as_slice()) {
                return true;
            }
            let hc = chars_of(node.hostname.as_str());
            if chars_eq_ignore_ascii_case(t.as_slice(), hc.as_slice()) {
                return true;
            }
            let ts = string_from_chars(t.as_slice());
            let tl = to_lowercase(ts.as_str());
            let hl = to_lowercase(node.hostname.as_str());
            let tlc = chars_of(tl.as_str());
            let hlc = chars_of(hl.as_str());
            chars_contains(tlc.as_slice(), hlc.as_slice())
        },
        None => false,
    }
}

fn find_conv_naming_node(convs: &[ChatConversation], node: &ClusterNode) -> (r: Option<usize>)
    ensures
        match r {
            Some(i) => i < convs@.len() && i as int == first_where(convs@.len(), conv_names_node(convs@, *node)),
            None => first_where(convs@.len(), conv_names_node(convs@, *node)) == -1,
        },
{
    let ghost p = conv_names_node(convs@, *node);
    let mut i: usize = 0;
    while i < convs.len()
        invariant
            i <= convs@.len(),
            p == conv_names_node(convs@, *node),
            forall|j: int| 0 <= j < i ==> !#[trigger] p(j),
        decreases convs@.len() - i,
    {
        if display_names_node(&convs[i].peer_display_name, node) {
            proof {
                lemma_first_where_found(convs@.len(), p, i as int);
            }
            return Some(i);
        }
        i = i + 1;
    }
    proof {
        lemma_first_where_none(convs@.len(), p);
    }
    None
}

fn find_conv_name_containing(convs: &[ChatConversation], needle: &[char]) -> (r: Option<usize>)
    ensures
        match r {
            Some(i) => i < convs@.len() && i as int == first_where(convs@.len(), conv_name_contains(convs@, needle@)),
            None => first_where(convs@.len(), conv_name_contains(convs@, needle@)) == -1,
        },
{
    let ghost p = conv_name_contains(convs@, needle@);
    let mut i: usize = 0;
    while i < convs.len()
        invariant
            i <= convs@.len(),
            p == conv_name_contains(convs@, needle@),
            forall|j: int| 0 <= j < i ==> !#[trigger] p(j),
        decreases convs@.len() - i,
    {
        let hit = match &convs[i].peer_display_name {
            Some(n) => {
                let l = to_lowercase(n.as_str());
                let lc = chars_of(l.as_str());
                chars_contains(lc.as_slice(), needle)
            },
            None => false,
        };
        if hit {
            proof {
                lemma_first_where_found(convs@.len(), p, i as int);
            }
            return Some(i);
        }
        i = i + 1;
    }
    proof {
        lemma_first_where_none(convs@.len(), p);
    }
    None
}

fn conversation_via_node(convs: &[ChatConversation], node: &ClusterNode) -> (r: Option<String>)
    ensures
        opt_seq(r) == conv_via_node(convs@, *node),
{
    if let Some(ep) = &node.chat_endpoint_id {
        if !ep.as_str().is_empty() {
            if let Some(e) = find_conv_by_peer(convs, ep.as_str()) {
                return Some(string_from(convs[e].id.as_str()));
            }
        }
    }
    match find_conv_naming_node(convs, node) {
        Some(d) => Some(string_from(convs[d].id.as_str())),
        None => None,
    }
}

/// The conversation of a terminal reference (see [`node_ref_spec`]).
pub fn find_conversation_for_node_ref(
    conversations: &[ChatConversation],
    cluster: Option<&ClusterStatus>,
    node_id: &str,
) -> (r: Option<String>)
    ensures
        opt_seq(r) == node_ref_spec(
            conversations@,
            match cluster {
                Some(c) => Some(*c),
                None => None,
            },
            node_id@,
        ),
{
    if let Some(a) = find_conv_by_peer_or_id(conversations, node_id) {
        return Some(string_from(conversations[a].id.as_str()));
    }
    if let Some(c) = cluster {
        if let Some(k) = find_node_by_ref(c.nodes.as_slice(), node_id) {
            let via = conversation_via_node(conversations, &c.nodes[k]);
            if via.is_some() {
                return via;
            }
        }
    }
    let needle = to_lowercase(node_id);
    let nc = chars_of(needle.as_str());
    match find_conv_name_containing(conversations, nc.as_slice()) {
        Some(f) => Some(string_from(conversations[f].id.as_str())),
        None => None,
    }
}

/// A conversation stands for a terminal: its peer is the terminal's
/// non-empty chat endpoint or its node id, or its non-blank trimmed display
/// name equals the hostname or the label, ignoring ASCII case.
pub open spec fn covers_spec(conv: ChatConversation, node: ClusterNode) -> bool {
    let by_endpoint = match node.chat_endpoint_id {
        Some(ep) => ep@.len() > 0 && conv.peer_endpoint@ == ep@,
        None => false,
    };
    let by_name = match conv.peer_display_name {
        Some(d) => trim(d@).len() > 0 && (eq_ignore_ascii_case(node.hostname@, trim(d@))
            || eq_ignore_ascii_case(node_label_spec(node), trim(d@))),
        None => false,
    };
    by_endpoint || conv.peer_endpoint@ == node.node_id@ || by_name
}

/// Whether a conversation stands for a terminal (see [`covers_spec`]).
pub fn conversation_covers_cluster_node(conv: &ChatConversation, node: &ClusterNode) -> (r: bool)
    ensures
        r == covers_spec(*conv, *node),
{
    if let Some(ep) = &node.chat_endpoint_id {
        if !ep.as_str().is_empty() && str_eq(conv.peer_endpoint.as_str(), ep.as_str()) {
            return true;
        }
    }
    if str_eq(conv.peer_endpoint.as_str(), node.node_id.as_str()) {
        return true;
    }
    if let Some(d) = &conv.peer_display_name {
        let t = trim_str(d.as_str());
        if t.len() > 0 {
            let hc = chars_of(node.hostname.as_str());
            if chars_eq_ignore_ascii_case(hc.as_slice(), t.as_slice()) {
                return true;
            }
            let label = node_label(node);
            let lc = chars_of(label.as_str());
            if chars_eq_ignore_ascii_case(lc.as_slice(), t.as_slice()) {
                return true;
            }
        }
    }
    false
}

/// `id` is one of the hidden ids.
pub open spec fn hidden_in(hidden: Seq<String>, id: Seq<char>) -> bool {
    exists|i: int| 0 <= i < hidden.len() && (#[trigger] hidden[i])@ == id
}

/// Some conversation that is not hidden stands for the terminal.
pub open spec fn covered_by(convs: Seq<ChatConversation>, hidden: Seq<String>, node: ClusterNode) -> bool {
    exists|i: int|
        0 <= i < convs.len() && !hidden_in(hidden, (#[trigger] convs[i]).id@) && covers_spec(
            convs[i],
            node,
        )
}

/// The id of a terminal's placeholder row: its chat endpoint, else its node id.
pub open spec fn placeholder_id(node: ClusterNode) -> Seq<char> {
    match node.chat_endpoint_id {
        Some(e) => e@,
        None => node.node_id@,
    }
}

/// A terminal gets a placeholder row: it is not the local node, no visible
/// conversation stands for it, and its placeholder id is not hidden.
pub open spec fn needs_placeholder(
    convs: Seq<ChatConversation>,
    hidden: Seq<String>,
    local: Seq<char>,
    node: ClusterNode,
) -> bool {
    node.node_id@ != local && !covered_by(convs, hidden, node) && !hidden_in(hidden, placeholder_id(node))
}

/// Placeholder row ids for the terminals, in cluster order.
pub open spec fn placeholder_ids_spec(
    convs: Seq<ChatConversation>,
    hidden: Seq<String>,
    local: Seq<char>,
    nodes: Seq<ClusterNode>,
) -> Seq<Seq<char>>
    decreases nodes.len(),
{
    if nodes.len() == 0 {
        seq![]
    } else {
        let rest = placeholder_ids_spec(convs, hidden, local, nodes.drop_last());
        if needs_placeholder(convs, hidden, local, nodes.last()) {
            rest.push(placeholder_id(nodes.last()))
        } else {
            rest
        }
    }
}

fn is_hidden(hidden: &[String], id: &str) -> (r: bool)
    ensures
        r == hidden_in(hidden@, id@),
{
    let mut i: usize = 0;
    while i < hidden.len()
        invariant
            i <= hidden@.len(),
            forall|j: int| 0 <= j < i ==> (#[trigger] hidden@[j])@ != id@,
        decreases hidden@.len() - i,
    {
        if str_eq(hidden[i].as_str(), id) {
            return true;
        }
        i = i + 1;
    }
    false
}

fn is_covered(convs: &[ChatConversation], hidden: &[String], node: &ClusterNode) -> (r: bool)
    ensures
        r == covered_by(convs@, hidden@, *node),
{
    let mut i: usize = 0;
    while i < convs.len()
        invariant
            i <= convs@.len(),
            forall|j: int|
                0 <= j < i ==> !(!hidden_in(hidden@, (#[trigger] convs@[j]).id@) && covers_spec(
                    convs@[j],
                    *node,
                )),
        decreases convs@.len() - i,
    {
        if !is_hidden(hidden, convs[i].id.as_str()) && conversation_covers_cluster_node(&convs[i], node) {
            return true;
        }
        i = i + 1;
    }
    false
}

/// Ids of the placeholder rows the sidebar adds for terminals without a
/// conversation (see [`placeholder_ids_spec`]).
pub fn placeholder_peer_ids(
    conversations: &[ChatConversation],
    hidden: &[String],
    cluster: &ClusterStatus,
) -> (r: Vec<String>)
    ensures
        strs(r@) == placeholder_ids_spec(
            conversations@,
            hidden@,
            cluster.local_node_id@,
            cluster.nodes@,
        ),
{
    let nodes = &cluster.nodes;
    let mut out: Vec<String> = Vec::new();
    let mut i: usize = 0;
    assert(nodes@.take(0) =~= Seq::<ClusterNode>::empty());
    assert(strs(out@) =~= Seq::<Seq<char>>::empty());
    while i < nodes.len()
        invariant
            i <= nodes@.len(),
            nodes@ == cluster.nodes@,
            strs(out@) == placeholder_ids_spec(
                conversations@,
                hidden@,
                cluster.local_node_id@,
                nodes@.take(i as int),
            ),
        decreases nodes@.len() - i,
    {
        let node = &nodes[i];
        let ghost prev = out@;
        assert(nodes@.take(i + 1).drop_last() =~= nodes@.take(i as int));
        assert(nodes@.take(i + 1).last() == nodes@[i as int]);
        if !str_eq(node.node_id.as_str(), cluster.local_node_id.as_str()) && !is_covered(
            conversations,
            hidden,
            node,
        ) {
            let id = match &node.chat_endpoint_id {
                Some(e) => string_from(e.as_str()),
                None => string_from(node.node_id.as_str()),
            };
            if !is_hidden(hidden, id.as_str()) {
                out.push(id);
                assert(strs(out@) =~= strs(prev).push(placeholder_id(nodes@[i as int])));
            }
        }
        i = i + 1;
    }
    assert(nodes@.take(nodes@.len() as int) =~= nodes@);
    out
}

/// A contact of the address book as the sidebar reads it.
#[derive(Debug)]
pub struct ChatContact {
    pub id: String,
    pub user_id: Option<String>,
    pub display_name: String,
    pub can_chat: bool,
    pub device_count: u32,
}

/// Some contact conversation is with user `uid`.
pub open spec fn has_contact_conv(convs: Seq<ChatConversation>, uid: Seq<char>) -> bool {
    exists|i: int|
        0 <= i < convs.len() && (#[trigger] convs[i]).kind@ == "contact_direct"@ && opt_seq(
            convs[i].peer_user_id,
        ) == Some(uid)
}

/// A contact gets a row of its own under the contacts category: it can
/// chat, has a user id that no listed contact row and no contact
/// conversation has, and matches the query (trimmed, lower-cased; empty
/// matches all) by display name or user id.
pub open spec fn contact_listed(
    row_user_ids: Seq<String>,
    convs: Seq<ChatConversation>,
    query: Seq<char>,
    c: ChatContact,
) -> bool {
    let q = unicode_lowercase(trim(query));
    &&& c.can_chat
    &&& c.user_id is Some
    &&& !hidden_in(row_user_ids, c.user_id->0@)
    &&& !has_contact_conv(convs, c.user_id->0@)
    &&& (q.len() == 0 || contains(unicode_lowercase(c.display_name@), q) || contains(
        unicode_lowercase(c.user_id->0@),
        q,
    ))
}

/// Indices of the contacts that get rows, in address-book order.
pub open spec fn contact_rows_spec(
    row_user_ids: Seq<String>,
    convs: Seq<ChatConversation>,
    query: Seq<char>,
    contacts: Seq<ChatContact>,
) -> Seq<int>
    decreases contacts.len(),
{
    if contacts.len() == 0 {
        seq![]
    } else {
        let rest = contact_rows_spec(row_user_ids, convs, query, contacts.drop_last());
        if contact_listed(row_user_ids, convs, query, contacts.last()) {
            rest.push(contacts.len() - 1)
        } else {
            rest
        }
    }
}

fn contact_conv_exists(convs: &[ChatConversation], uid: &str) -> (r: bool)
    ensures
        r == has_contact_conv(convs@, uid@),
{
    let mut i: usize = 0;
    while i < convs.len()
        invariant
            i <= convs@.len(),
            forall|j: int|
                0 <= j < i ==> !((#[trigger] convs@[j]).kind@ == "contact_direct"@ && opt_seq(
                    convs@[j].peer_user_id,
                ) == Some(uid@)),
        decreases convs@.len() - i,
    {
        let hit = str_eq(convs[i].kind.as_str(), "contact_direct") && match &convs[i].peer_user_id {
            Some(u) => str_eq(u.as_str(), uid),
            None => false,
        };
        if hit {
            return true;
        }
        i = i + 1;
    }
    false
}

fn contact_is_listed(
    row_user_ids: &[String],
    convs: &[ChatConversation],
    query: &str,
    q: &Vec<char>,
    c: &ChatContact,
) -> (r: bool)
    requires
        q@ == unicode_lowercase(trim(query@)),
    ensures
        r == contact_listed(row_user_ids@, convs@, query@, *c),
{
    if !c.can_chat {
        return false;
    }
    let uid = match &c.user_id {
        Some(u) => u,
        None => {
            return false;
        },
    };
    if is_hidden(row_user_ids, uid.as_str()) || contact_conv_exists(convs, uid.as_str()) {
        return false;
    }
    if q.len() == 0 {
        return true;
    }
    let name_l = to_lowercase(c.display_name.as_str());
    let name_c = chars_of(name_l.as_str());
    if chars_contains(name_c.as_slice(), q.as_slice()) {
        return true;
    }
    let uid_l = to_lowercase(uid.as_str());
    let uid_c = chars_of(uid_l.as_str());
    chars_contains(uid_c.as_slice(), q.as_slice())
}

/// Indices of the contacts that get rows under the contacts category (see
/// [`contact_rows_spec`]); `row_user_ids` are the user ids of the contact
/// rows already listed.
pub fn extra_contact_rows(
    row_user_ids: &[String],
    conversations: &[ChatConversation],
    contacts: &[ChatContact],
    query: &str,
) -> (r: Vec<usize>)
    ensures
        r@.map_values(|i: usize| i as int) == contact_rows_spec(
            row_user_ids@,
            conversations@,
            query@,
            contacts@,
        ),
{
    let t = trim_str(query);
    let ts = string_from_chars(t.as_slice());
    let ql = to_lowercase(ts.as_str());
    let q = chars_of(ql.as_str());
    let mut out: Vec<usize> = Vec::new();
    let mut i: usize = 0;
    assert(out@.map_values(|i: usize| i as int) =~= contact_rows_spec(
        row_user_ids@,
        conversations@,
        query@,
        contacts@.take(0),
    ));
    while i < contacts.len()
        invariant
            i <= contacts@.len(),
            q@ == unicode_lowercase(trim(query@)),
            out@.map_values(|i: usize| i as int) == contact_rows_spec(
                row_user_ids@,
                conversations@,
                query@,
                contacts@.take(i as int),
            ),
        decreases contacts@.len() - i,
    {
        let ghost prev = out@;
        assert(contacts@.take(i + 1).drop_last() =~= contacts@.take(i as int));
        assert(contacts@.take(i + 1).last() == contacts@[i as int]);
        if contact_is_listed(row_user_ids, conversations, query, &q, &contacts[i]) {
            out.push(i);
            assert(out@.map_values(|i: usize| i as int) =~= prev.map_values(|i: usize| i as int).push(
                i as int,
            ));
        }
        i = i + 1;
    }
    assert(contacts@.take(i as int) =~= contacts@);
    out
}

/// The preview of a contact row: its device count when it has several,
/// else none (the row shows the "contact" label).
pub fn contact_row_preview(device_count: u32) -> (r: Option<String>)
    ensures
        device_count > 1 ==> (r matches Some(t) && t@ == crate::text::decimal(device_count as nat)
            + " devices"@),
        device_count <= 1 ==> r is None,
{
    if device_count > 1 {
        let mut t = crate::text::u64_to_string(device_count as u64);
        push_str(&mut t, " devices");
        Some(t)
    } else {
        None
    }
}

/// The conversation stands for `x`: `x` is its peer endpoint or its id.
pub open spec fn conv_is(c: ChatConversation, x: Seq<char>) -> bool {
    c.peer_endpoint@ == x || c.id@ == x
}

/// Some conversation stands for both `a` and `b`.
pub open spec fn linked(convs: Seq<ChatConversation>, a: Seq<char>, b: Seq<char>) -> bool {
    exists|i: int| 0 <= i < convs.len() && conv_is(#[trigger] convs[i], a) && conv_is(convs[i], b)
}

/// The conversation with id `id` stands for `x`.
pub open spec fn conv_id_links(convs: Seq<ChatConversation>, id: Seq<char>, x: Seq<char>) -> bool {
    exists|i: int| 0 <= i < convs.len() && (#[trigger] convs[i]).id@ == id && conv_is(convs[i], x)
}

/// The selected id `selected` marks `id`: it is `id`, or the id of a
/// conversation that stands for `id`.
pub open spec fn selection_marks(convs: Seq<ChatConversation>, selected: Option<Seq<char>>, id: Seq<char>) -> bool {
    match selected {
        Some(s) => s == id || conv_id_links(convs, s, id),
        None => false,
    }
}

/// A row is highlighted: it is the one being selected (directly or through
/// a conversation that stands for both), or the selection marks it.
pub open spec fn row_active_spec(
    convs: Seq<ChatConversation>,
    row_id: Seq<char>,
    selecting: Option<Seq<char>>,
    selected: Option<Seq<char>>,
) -> bool {
    let by_selecting = match selecting {
        Some(s) => row_id == s || linked(convs, s, row_id),
        None => false,
    };
    by_selecting || selection_marks(convs, selected, row_id)
}

fn any_linked(convs: &[ChatConversation], a: &str, b: &str) -> (r: bool)
    ensures
        r == linked(convs@, a@, b@),
{
    let mut i: usize = 0;
    while i < convs.len()
        invariant
            i <= convs@.len(),
            forall|j: int| 0 <= j < i ==> !(conv_is(#[trigger] convs@[j], a@) && conv_is(convs@[j], b@)),
        decreases convs@.len() - i,
    {
        let c = &convs[i];
        let pa = str_eq(c.peer_endpoint.as_str(), a) || str_eq(c.id.as_str(), a);
        let pb = str_eq(c.peer_endpoint.as_str(), b) || str_eq(c.id.as_str(), b);
        if pa && pb {
            assert(conv_is(convs@[i as int], a@) && conv_is(convs@[i as int], b@));
            return true;
        }
        i = i + 1;
    }
    false
}

fn any_id_links(convs: &[ChatConversation], id: &str, x: &str) -> (r: bool)
    ensures
        r == conv_id_links(convs@, id@, x@),
{
    let mut i: usize = 0;
    while i < convs.len()
        invariant
            i <= convs@.len(),
            forall|j: int| 0 <= j < i ==> !((#[trigger] convs@[j]).id@ == id@ && conv_is(convs@[j], x@)),
        decreases convs@.len() - i,
    {
        let c = &convs[i];
        if str_eq(c.id.as_str(), id) && (str_eq(c.peer_endpoint.as_str(), x) || str_eq(c.id.as_str(), x)) {
            assert(convs@[i as int].id@ == id@ && conv_is(convs@[i as int], x@));
            return true;
        }
        i = i + 1;
    }
    false
}

/// Whether the selection `selected` marks `id` (see [`selection_marks`]):
/// when it does, removing or hiding `id` clears the selection.
pub fn selection_matches(conversations: &[ChatConversation], selected: Option<&str>, id: &str) -> (r: bool)
    ensures
        r == selection_marks(conversations@, opt_ref(selected), id@),
{
    match selected {
        Some(s) => str_eq(s, id) || any_id_links(conversations, s, id),
        None => false,
    }
}

/// Whether the row `row_id` is highlighted (see [`row_active_spec`]).
pub fn row_is_active(
    conversations: &[ChatConversation],
    row_id: &str,
    selecting: Option<&str>,
    selected: Option<&str>,
) -> (r: bool)
    ensures
        r == row_active_spec(conversations@, row_id@, opt_ref(selecting), opt_ref(selected)),
{
    if let Some(s) = selecting {
        if str_eq(row_id, s) || any_linked(conversations, s, row_id) {
            return true;
        }
    }
    selection_matches(conversations, selected, row_id)
}

/// A borrowed optional string as characters.
pub open spec fn opt_ref(o: Option<&str>) -> Option<Seq<char>> {
    match o {
        Some(s) => Some(s@),
        None => None,
    }
}

/// A member of a cluster group chat.
#[derive(Debug, PartialEq, Eq)]
pub struct GroupMember {
    pub node_id: String,
    pub endpoint: String,
    pub display_name: Option<String>,
    pub bootstrap_addrs: Vec<String>,
    pub is_local: bool,
}

/// The value of a group member.
pub struct GroupMemberView {
    pub node_id: Seq<char>,
    pub endpoint: Seq<char>,
    pub display_name: Option<Seq<char>>,
    pub bootstrap_addrs: Seq<Seq<char>>,
    pub is_local: bool,
}

impl View for GroupMember {
    type V = GroupMemberView;

    open spec fn view(&self) -> GroupMemberView {
        GroupMemberView {
            node_id: self.node_id@,
            endpoint: self.endpoint@,
            display_name: opt_seq(self.display_name),
            bootstrap_addrs: strs(self.bootstrap_addrs@),
            is_local: self.is_local,
        }
    }
}

/// The node's chat endpoint, empty when it has none.
pub open spec fn endpoint_or_empty(n: ClusterNode) -> Seq<char> {
    match n.chat_endpoint_id {
        Some(e) => e@,
        None => Seq::empty(),
    }
}

/// The members of the default cluster group: every node with a chat
/// endpoint that is not blank, in node order, labelled `"<os> · <hostname>"`
/// and marked local when it is this device.
pub open spec fn group_members_spec(nodes: Seq<ClusterNode>, local: Seq<char>) -> Seq<GroupMemberView>
    decreases nodes.len(),
{
    if nodes.len() == 0 {
        Seq::empty()
    } else {
        let rest = group_members_spec(nodes.drop_last(), local);
        let n = nodes.last();
        if trim(endpoint_or_empty(n)).len() == 0 {
            rest
        } else {
            rest.push(
                GroupMemberView {
                    node_id: n.node_id@,
                    endpoint: endpoint_or_empty(n),
                    display_name: Some(node_label_spec(n)),
                    bootstrap_addrs: strs(n.chat_bootstrap_addrs@),
                    is_local: n.node_id@ == local,
                },
            )
        }
    }
}

/// Why the default cluster group cannot be created.
#[derive(Debug, Clone, Copy, PartialEq, Eq, Structural)]
pub enum GroupProblem {
    /// No cluster, or no cluster id (`error.need_cluster`).
    NeedCluster,
    /// Fewer than two nodes can chat (`chat.toast.insufficient_members`).
    InsufficientMembers,
}

/// The cluster id and members the default cluster group is created with.
pub fn cluster_group_members(cluster: Option<&ClusterStatus>) -> (r: Result<(String, Vec<GroupMember>), GroupProblem>)
    ensures
        match cluster {
            None => r == Err::<(String, Vec<GroupMember>), GroupProblem>(GroupProblem::NeedCluster),
            Some(c) => match c.cluster_id {
                None => r == Err::<(String, Vec<GroupMember>), GroupProblem>(GroupProblem::NeedCluster),
                Some(id) => {
                    let m = group_members_spec(c.nodes@, c.local_node_id@);
                    &&& m.len() < 2 ==> r == Err::<(String, Vec<GroupMember>), GroupProblem>(
                        GroupProblem::InsufficientMembers,
                    )
                    &&& m.len() >= 2 ==> (r matches Ok((cid, members)) && cid@ == id@
                        && members@.map_values(|g: GroupMember| g@) == m)
                },
            },
        },
{
    let c = match cluster {
        Some(c) => c,
        None => return Err(GroupProblem::NeedCluster),
    };
    let id = match &c.cluster_id {
        Some(id) => id,
        None => return Err(GroupProblem::NeedCluster),
    };
    let ghost nodes = c.nodes@;
    let mut members: Vec<GroupMember> = Vec::new();
    let mut i: usize = 0;
    while i < c.nodes.len()
        invariant
            i <= c.nodes@.len(),
            nodes == c.nodes@,
            members@.map_values(|g: GroupMember| g@) == group_members_spec(nodes.take(i as int), c.local_node_id@),
        decreases c.nodes@.len() - i,
    {
        let n = &c.nodes[i];
        proof {
            let t = nodes.take(i + 1);
            assert(t.drop_last() =~= nodes.take(i as int));
            assert(t.last() == nodes[i as int]);
        }
        let endpoint = match &n.chat_endpoint_id {
            Some(e) => string_from(e.as_str()),
            None => String::new(),
        };
        assert(endpoint@ == endpoint_or_empty(nodes[i as int]));
        if trim_str(endpoint.as_str()).len() > 0 {
            let ghost before = members@;
            let g = GroupMember {
                node_id: string_from(n.node_id.as_str()),
                endpoint,
                display_name: Some(node_label(n)),
                bootstrap_addrs: clone_strings(&n.chat_bootstrap_addrs),
                is_local: str_eq(n.node_id.as_str(), c.local_node_id.as_str()),
            };
            members.push(g);
            proof {
                assert(members@ == before.push(g));
                assert(members@.map_values(|g: GroupMember| g@) =~= before.map_values(|g: GroupMember| g@).push(g@));
            }
        }
        i = i + 1;
    }
    assert(nodes.take(i as int) =~= nodes);
    if members.len() < 2 {
        assert(members@.map_values(|g: GroupMember| g@).len() == members@.len());
        return Err(GroupProblem::InsufficientMembers);
    }
    Ok((string_from(id.as_str()), members))
}

} // verus!
