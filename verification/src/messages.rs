//! Chat thread message lists: merging fetched pages, optimistic pending
//! bubbles and history paging.

use vstd::prelude::*;
use crate::asset_map::AssetMap;
use crate::find::{first_where, lemma_first_where_found, lemma_first_where_none};
use crate::text::{chars_of, clone_opt, opt_seq, push_str, str_eq, string_from, string_of, trim};

verus! {

/// Messages fetched per history page.
pub const RECENT_MESSAGE_PAGE: usize = 50;

/// A confirmed message matches a pending one when their times are at most
/// this many milliseconds apart (and body and attachment names agree).
pub const PENDING_DEDUP_WINDOW_MS: u64 = 30_000;

/// A file attached to a chat message.
#[derive(Debug)]
pub struct ChatAttachment {
    pub id: String,
    pub kind: String,
    pub name: String,
    pub size: u64,
    pub mime: Option<String>,
    pub source_hash: Option<String>,
    pub local_path: Option<String>,
}

/// A chat message of a conversation.
#[derive(Debug)]
pub struct ChatMessage {
    pub id: String,
    pub author_endpoint: String,
    pub body: String,
    pub sent_at: u64,
    pub attachments: Vec<ChatAttachment>,
}

/// An attachment of a message that is still being sent.
#[derive(Debug)]
pub struct PendingOutgoingAttachment {
    pub kind: String,
    pub name: String,
    pub size: u64,
    pub local_path: Option<String>,
}

/// A message shown optimistically while it is being sent.
#[derive(Debug)]
pub struct PendingOutgoingMessage {
    pub client_id: String,
    pub conv_id: String,
    pub body: String,
    pub sent_at: u64,
    pub attachments: Vec<PendingOutgoingAttachment>,
}

/// The value of an attachment.
pub struct AttachmentView {
    pub id: Seq<char>,
    pub kind: Seq<char>,
    pub name: Seq<char>,
    pub size: u64,
    pub mime: Option<Seq<char>>,
    pub source_hash: Option<Seq<char>>,
    pub local_path: Option<Seq<char>>,
}

/// The value of a message.
pub struct MessageView {
    pub id: Seq<char>,
    pub author_endpoint: Seq<char>,
    pub body: Seq<char>,
    pub sent_at: u64,
    pub attachments: Seq<AttachmentView>,
}

/// The value of a pending attachment.
pub struct PendingAttachmentView {
    pub kind: Seq<char>,
    pub name: Seq<char>,
    pub size: u64,
    pub local_path: Option<Seq<char>>,
}

/// The value of a pending message.
pub struct PendingView {
    pub client_id: Seq<char>,
    pub conv_id: Seq<char>,
    pub body: Seq<char>,
    pub sent_at: u64,
    pub attachments: Seq<PendingAttachmentView>,
}

impl View for ChatAttachment {
    type V = AttachmentView;

    open spec fn view(&self) -> AttachmentView {
        AttachmentView {
            id: self.id@,
            kind: self.kind@,
            name: self.name@,
            size: self.size,
            mime: opt_seq(self.mime),
            source_hash: opt_seq(self.source_hash),
            local_path: opt_seq(self.local_path),
        }
    }
}

impl View for ChatMessage {
    type V = MessageView;

    open spec fn view(&self) -> MessageView {
        MessageView {
            id: self.id@,
            author_endpoint: self.author_endpoint@,
            body: self.body@,
            sent_at: self.sent_at,
            attachments: atts_view(self.attachments@),
        }
    }
}

impl View for PendingOutgoingAttachment {
    type V = PendingAttachmentView;

    open spec fn view(&self) -> PendingAttachmentView {
        PendingAttachmentView {
            kind: self.kind@,
            name: self.name@,
            size: self.size,
            local_path: opt_seq(self.local_path),
        }
    }
}

impl View for PendingOutgoingMessage {
    type V = PendingView;

    open spec fn view(&self) -> PendingView {
        PendingView {
            client_id: self.client_id@,
            conv_id: self.conv_id@,
            body: self.body@,
            sent_at: self.sent_at,
            attachments: self.attachments@.map_values(|a: PendingOutgoingAttachment| a@),
        }
    }
}

/// The values of a list of messages.
pub open spec fn msgs_view(s: Seq<ChatMessage>) -> Seq<MessageView> {
    s.map_values(|m: ChatMessage| m@)
}

/// The values of a list of pending messages.
pub open spec fn pending_view(s: Seq<PendingOutgoingMessage>) -> Seq<PendingView> {
    s.map_values(|p: PendingOutgoingMessage| p@)
}

impl ChatAttachment {
    /// A copy of the attachment.
    pub fn duplicate(&self) -> (r: ChatAttachment)
        ensures
            r@ == self@,
    {
        ChatAttachment {
            id: self.id.clone(),
            kind: self.kind.clone(),
            name: self.name.clone(),
            size: self.size,
            mime: clone_opt(&self.mime),
            source_hash: clone_opt(&self.source_hash),
            local_path: clone_opt(&self.local_path),
        }
    }
}

/// The values of a list of attachments.
pub open spec fn atts_view(s: Seq<ChatAttachment>) -> Seq<AttachmentView> {
    s.map_values(|a: ChatAttachment| a@)
}

fn clone_attachments(v: &Vec<ChatAttachment>) -> (r: Vec<ChatAttachment>)
    ensures
        atts_view(r@) == atts_view(v@),
{
    let mut r: Vec<ChatAttachment> = Vec::new();
    let mut i: usize = 0;
    while i < v.len()
        invariant
            i <= v@.len(),
            r@.len() == i,
            atts_view(r@) == atts_view(v@.take(i as int)),
        decreases v@.len() - i,
    {
        let ghost prev = r@;
        let d = v[i].duplicate();
        r.push(d);
        proof {
            assert(r@ == prev.push(d));
            assert forall|k: int| 0 <= k < i + 1 implies #[trigger] atts_view(r@)[k] == atts_view(
                v@.take(i + 1),
            )[k] by {
                if k < i {
                    assert(atts_view(prev)[k] == atts_view(v@.take(i as int))[k]);
                }
            }
            assert(atts_view(r@) =~= atts_view(v@.take(i + 1)));
        }
        i = i + 1;
    }
    assert(v@.take(i as int) =~= v@);
    r
}

impl ChatMessage {
    /// A copy of the message.
    pub fn duplicate(&self) -> (r: ChatMessage)
        ensures
            r@ == self@,
    {
        let attachments = clone_attachments(&self.attachments);
        let r = ChatMessage {
            id: self.id.clone(),
            author_endpoint: self.author_endpoint.clone(),
            body: self.body.clone(),
            sent_at: self.sent_at,
            attachments,
        };
        assert(r@.attachments =~= self@.attachments);
        r
    }
}

pub fn clone_messages(v: &[ChatMessage]) -> (r: Vec<ChatMessage>)
    ensures
        msgs_view(r@) == msgs_view(v@),
{
    let mut r: Vec<ChatMessage> = Vec::new();
    let mut i: usize = 0;
    while i < v.len()
        invariant
            i <= v@.len(),
            r@.len() == i,
            msgs_view(r@) == msgs_view(v@.take(i as int)),
        decreases v@.len() - i,
    {
        let ghost prev = r@;
        let d = v[i].duplicate();
        r.push(d);
        proof {
            assert(r@ == prev.push(d));
            assert forall|k: int| 0 <= k < i + 1 implies #[trigger] msgs_view(r@)[k] == msgs_view(
                v@.take(i + 1),
            )[k] by {
                if k < i {
                    assert(msgs_view(prev)[k] == msgs_view(v@.take(i as int))[k]);
                }
            }
            assert(msgs_view(r@) =~= msgs_view(v@.take(i + 1)));
        }
        i = i + 1;
    }
    assert(v@.take(i as int) =~= v@);
    r
}

// ---------------------------------------------------------------------------
// Snapshots and history paging
// ---------------------------------------------------------------------------

/// Two message lists show the same bubbles: same length and, position by
/// position, the same id, send time and body.
pub open spec fn snapshot_equal(a: Seq<MessageView>, b: Seq<MessageView>) -> bool {
    a.len() == b.len() && forall|i: int|
        0 <= i < a.len() ==> (#[trigger] a[i]).id == b[i].id && a[i].sent_at == b[i].sent_at
            && a[i].body == b[i].body
}

/// Whether two message lists show the same bubbles (see [`snapshot_equal`]).
pub fn messages_snapshot_equal(a: &[ChatMessage], b: &[ChatMessage]) -> (r: bool)
    ensures
        r == snapshot_equal(msgs_view(a@), msgs_view(b@)),
{
    if a.len() != b.len() {
        return false;
    }
    let mut i: usize = 0;
    while i < a.len()
        invariant
            i <= a@.len(),
            a@.len() == b@.len(),
            forall|j: int|
                0 <= j < i ==> (#[trigger] msgs_view(a@)[j]).id == msgs_view(b@)[j].id
                    && msgs_view(a@)[j].sent_at == msgs_view(b@)[j].sent_at && msgs_view(
                    a@,
                )[j].body == msgs_view(b@)[j].body,
        decreases a@.len() - i,
    {
        let same = str_eq(a[i].id.as_str(), b[i].id.as_str()) && a[i].sent_at == b[i].sent_at
            && str_eq(a[i].body.as_str(), b[i].body.as_str());
        if !same {
            assert(!((msgs_view(a@)[i as int]).id == msgs_view(b@)[i as int].id
                && msgs_view(a@)[i as int].sent_at == msgs_view(b@)[i as int].sent_at && msgs_view(
                a@,
            )[i as int].body == msgs_view(b@)[i as int].body));
            return false;
        }
        i = i + 1;
    }
    true
}

/// The earliest send time in `s` (`s` non-empty).
pub open spec fn min_sent(s: Seq<MessageView>) -> u64
    decreases s.len(),
{
    if s.len() <= 1 {
        s[0].sent_at
    } else {
        let rest = min_sent(s.drop_last());
        if s.last().sent_at < rest {
            s.last().sent_at
        } else {
            rest
        }
    }
}

/// The history cursor after a fetched page: the earliest send time seen,
/// never moving toward newer messages; `None` for an empty page.
pub open spec fn history_before(current: Option<u64>, fetched: Seq<MessageView>) -> Option<u64> {
    if fetched.len() == 0 {
        None
    } else {
        let earliest = min_sent(fetched);
        match current {
            Some(c) => Some(if c < earliest { c } else { earliest }),
            None => Some(earliest),
        }
    }
}

/// Advances the "load earlier" cursor past a fetched page.
pub fn advance_history_before(current: Option<u64>, fetched: &[ChatMessage]) -> (r: Option<u64>)
    ensures
        r == history_before(current, msgs_view(fetched@)),
{
    if fetched.len() == 0 {
        return None;
    }
    let mut earliest = fetched[0].sent_at;
    let mut i: usize = 1;
    while i < fetched.len()
        invariant
            1 <= i <= fetched@.len(),
            earliest == min_sent(msgs_view(fetched@.take(i as int))),
        decreases fetched@.len() - i,
    {
        proof {
            assert(msgs_view(fetched@.take(i + 1)).drop_last() =~= msgs_view(
                fetched@.take(i as int),
            ));
        }
        if fetched[i].sent_at < earliest {
            earliest = fetched[i].sent_at;
        }
        i = i + 1;
    }
    assert(fetched@.take(i as int) =~= fetched@);
    match current {
        Some(c) => Some(if c < earliest { c } else { earliest }),
        None => Some(earliest),
    }
}

/// A page shorter than [`RECENT_MESSAGE_PAGE`] means there is no older history.
pub fn page_exhausts_history(fetched_len: usize) -> (r: bool)
    ensures
        r == (fetched_len < RECENT_MESSAGE_PAGE),
{
    fetched_len < RECENT_MESSAGE_PAGE
}

/// Scroll-position id of a message bubble: `chat-message-{id}`.
pub fn message_position_id(message_id: &str) -> (r: String)
    ensures
        r@ == "chat-message-"@ + message_id@,
{
    let mut r = string_from("chat-message-");
    push_str(&mut r, message_id);
    r
}

/// A message is drawn as outgoing when it is still pending (`pending:` id)
/// or was written by the local endpoint.
pub open spec fn outgoing_spec(m: MessageView, local: Option<Seq<char>>) -> bool {
    crate::text::starts_with(m.id, "pending:"@) || (local is Some && local->0 == m.author_endpoint)
}

/// Whether a message is drawn as outgoing (see [`outgoing_spec`]).
pub fn message_is_outgoing(msg: &ChatMessage, local: Option<&str>) -> (r: bool)
    ensures
        r == outgoing_spec(msg@, crate::prefs::opt_view(local)),
{
    let id = chars_of(msg.id.as_str());
    let prefix = chars_of("pending:");
    if crate::text::chars_starts_with(id.as_slice(), prefix.as_slice()) {
        return true;
    }
    match local {
        Some(endpoint) => str_eq(endpoint, msg.author_endpoint.as_str()),
        None => false,
    }
}

// ---------------------------------------------------------------------------
// Sorting by send time (stable)
// ---------------------------------------------------------------------------

/// `m` inserted into `s` after every element sent no later than it.
pub open spec fn insert_by_sent(s: Seq<MessageView>, m: MessageView) -> Seq<MessageView>
    decreases s.len(),
{
    if s.len() == 0 {
        seq![m]
    } else if s.last().sent_at <= m.sent_at {
        s.push(m)
    } else {
        insert_by_sent(s.drop_last(), m).push(s.last())
    }
}

/// `s` stably sorted by send time (`sort_by_key(|m| m.sent_at)`): messages
/// with equal times keep their order.
pub open spec fn sort_by_sent(s: Seq<MessageView>) -> Seq<MessageView>
    decreases s.len(),
{
    if s.len() == 0 {
        s
    } else {
        insert_by_sent(sort_by_sent(s.drop_last()), s.last())
    }
}

/// Send times never decrease along `s`.
pub open spec fn sorted_by_sent(s: Seq<MessageView>) -> bool {
    forall|i: int, j: int| 0 <= i <= j < s.len() ==> s[i].sent_at <= s[j].sent_at
}

proof fn lemma_insert_sorted(s: Seq<MessageView>, m: MessageView)
    requires
        sorted_by_sent(s),
    ensures
        sorted_by_sent(insert_by_sent(s, m)),
        insert_by_sent(s, m).len() == s.len() + 1,
        insert_by_sent(s, m).to_multiset() == s.to_multiset().insert(m),
    decreases s.len(),
{
    broadcast use vstd::seq_lib::group_to_multiset_ensures;
    if s.len() == 0 {
        assert(seq![m] =~= Seq::<MessageView>::empty().push(m));
    } else if s.last().sent_at <= m.sent_at {
    } else {
        let t = s.drop_last();
        lemma_insert_sorted(t, m);
        let r = insert_by_sent(t, m);
        assert(s =~= t.push(s.last()));
        assert forall|i: int| 0 <= i < r.len() implies r[i].sent_at <= s.last().sent_at by {
            assert(r.to_multiset().count(r[i]) > 0);
            assert(t.push(s.last()).to_multiset() == t.to_multiset().insert(s.last()));
            if r[i] == m {
            } else {
                assert(t.to_multiset().count(r[i]) > 0);
                assert(t.contains(r[i]));
            }
        }
    }
}

pub(crate) proof fn lemma_sort_sorted(s: Seq<MessageView>)
    ensures
        sorted_by_sent(sort_by_sent(s)),
        sort_by_sent(s).len() == s.len(),
        sort_by_sent(s).to_multiset() == s.to_multiset(),
    decreases s.len(),
{
    broadcast use vstd::seq_lib::group_to_multiset_ensures;
    if s.len() > 0 {
        lemma_sort_sorted(s.drop_last());
        lemma_insert_sorted(sort_by_sent(s.drop_last()), s.last());
        assert(s =~= s.drop_last().push(s.last()));
    }
}

/// Inserts `m` into `out` (stable, by send time).
fn insert_sorted(out: &mut Vec<ChatMessage>, m: ChatMessage)
    ensures
        msgs_view(final(out)@) == insert_by_sent(msgs_view(old(out)@), m@),
{
    let key = m.sent_at;
    let mut k = out.len();
    let ghost s = msgs_view(out@);
    assert(s.skip(s.len() as int) =~= Seq::<MessageView>::empty());
    assert(s.take(s.len() as int) =~= s);
    while k > 0 && out[k - 1].sent_at > key
        invariant
            k <= out@.len(),
            key == m.sent_at,
            s == msgs_view(out@),
            insert_by_sent(s, m@) == insert_by_sent(s.take(k as int), m@) + s.skip(k as int),
        decreases k,
    {
        proof {
            let t = s.take(k as int);
            assert(s[k - 1] == out@[k - 1]@);
            assert(s[k - 1].sent_at > m@.sent_at);
            assert(t.last() == s[k - 1]);
            assert(t.drop_last() =~= s.take(k - 1));
            assert(insert_by_sent(t, m@) == insert_by_sent(s.take(k - 1), m@).push(s[k - 1]));
            assert(insert_by_sent(s.take(k - 1), m@).push(s[k - 1]) + s.skip(k as int)
                =~= insert_by_sent(s.take(k - 1), m@) + s.skip(k - 1));
        }
        k = k - 1;
    }
    proof {
        let t = s.take(k as int);
        if k > 0 {
            assert(t.last() == s[k - 1]);
            assert(insert_by_sent(t, m@) == t.push(m@));
        } else {
            assert(insert_by_sent(t, m@) == seq![m@]);
        }
    }
    out.insert(k, m);
    proof {
        assert(msgs_view(out@) =~= s.take(k as int).push(m@) + s.skip(k as int));
    }
}

/// `v` stably sorted by send time.
fn sort_messages(v: Vec<ChatMessage>) -> (r: Vec<ChatMessage>)
    ensures
        msgs_view(r@) == sort_by_sent(msgs_view(v@)),
{
    let mut v = v;
    let ghost orig = msgs_view(v@);
    let mut rev: Vec<ChatMessage> = Vec::new();
    // Take elements from the back so that each can be moved out cheaply.
    while v.len() > 0
        invariant
            msgs_view(v@) + msgs_view(rev@).reverse() == orig,
        decreases v@.len(),
    {
        let ghost before_v = msgs_view(v@);
        let ghost before_r = msgs_view(rev@);
        let m = v.pop().unwrap();
        rev.push(m);
        proof {
            assert(msgs_view(v@) =~= before_v.drop_last());
            assert(msgs_view(rev@) =~= before_r.push(before_v.last()));
            assert(msgs_view(rev@).reverse() =~= seq![before_v.last()] + before_r.reverse());
            assert(before_v =~= before_v.drop_last().push(before_v.last()));
            assert(msgs_view(v@) + msgs_view(rev@).reverse() =~= before_v + before_r.reverse());
        }
    }
    assert(msgs_view(rev@).reverse() =~= orig);
    let mut out: Vec<ChatMessage> = Vec::new();
    let ghost n = orig.len();
    while rev.len() > 0
        invariant
            rev@.len() <= n,
            n == orig.len(),
            msgs_view(rev@).reverse() == orig.skip(n - rev@.len()),
            msgs_view(out@) == sort_by_sent(orig.take(n - rev@.len())),
        decreases rev@.len(),
    {
        let ghost before_r = msgs_view(rev@);
        let ghost i = n - rev@.len();
        let m = rev.pop().unwrap();
        proof {
            assert(before_r.reverse()[0] == before_r.last());
            assert(orig.skip(i)[0] == orig[i]);
            assert(m@ == orig[i]);
            assert(msgs_view(rev@) =~= before_r.drop_last());
            assert(before_r.drop_last().reverse() =~= before_r.reverse().skip(1));
            assert(orig.skip(i).skip(1) =~= orig.skip(i + 1));
            assert(msgs_view(rev@).reverse() =~= orig.skip(i + 1));
            assert(orig.take(i + 1).drop_last() =~= orig.take(i));
            assert(orig.take(i + 1).last() == orig[i]);
        }
        insert_sorted(&mut out, m);
    }
    assert(orig.take(n as int) =~= orig);
    out
}

// ---------------------------------------------------------------------------
// Merging fetched pages by id
// ---------------------------------------------------------------------------

/// Index of the message with id `id` in `s`, or -1.
pub open spec fn id_index(s: Seq<MessageView>, id: Seq<char>) -> int
    decreases s.len(),
{
    if s.len() == 0 {
        -1
    } else {
        let i = id_index(s.drop_last(), id);
        if i >= 0 {
            i
        } else if s.last().id == id {
            s.len() - 1
        } else {
            -1
        }
    }
}

/// `m` stored under its id: replaces the message with that id, or is appended.
pub open spec fn put_by_id(s: Seq<MessageView>, m: MessageView) -> Seq<MessageView> {
    let i = id_index(s, m.id);
    if i >= 0 {
        s.update(i, m)
    } else {
        s.push(m)
    }
}

/// `m` merged in by id: a newer or equally recent message replaces the
/// stored one, an older one is dropped, a new id is appended.
pub open spec fn merge_by_id(s: Seq<MessageView>, m: MessageView) -> Seq<MessageView> {
    let i = id_index(s, m.id);
    if i >= 0 {
        if m.sent_at >= s[i].sent_at {
            s.update(i, m)
        } else {
            s
        }
    } else {
        s.push(m)
    }
}

/// The existing messages keyed by id (a later duplicate replaces an earlier one).
pub open spec fn keyed(existing: Seq<MessageView>) -> Seq<MessageView>
    decreases existing.len(),
{
    if existing.len() == 0 {
        seq![]
    } else {
        put_by_id(keyed(existing.drop_last()), existing.last())
    }
}

/// `incoming` merged by id into `base`, in order.
pub open spec fn merged_in(base: Seq<MessageView>, incoming: Seq<MessageView>) -> Seq<MessageView>
    decreases incoming.len(),
{
    if incoming.len() == 0 {
        base
    } else {
        merge_by_id(merged_in(base, incoming.drop_last()), incoming.last())
    }
}

/// The merged page: one message per id (newest wins, ties to the incoming
/// one), sorted by send time.
pub open spec fn merge_by_id_spec(existing: Seq<MessageView>, incoming: Seq<MessageView>) -> Seq<
    MessageView,
> {
    sort_by_sent(merged_in(keyed(existing), incoming))
}

proof fn lemma_id_index(s: Seq<MessageView>, id: Seq<char>)
    ensures
        -1 <= id_index(s, id) < s.len(),
        id_index(s, id) >= 0 ==> s[id_index(s, id)].id == id,
        id_index(s, id) >= 0 ==> forall|j: int| 0 <= j < id_index(s, id) ==> s[j].id != id,
        id_index(s, id) < 0 ==> forall|j: int| 0 <= j < s.len() ==> s[j].id != id,
    decreases s.len(),
{
    if s.len() > 0 {
        let t = s.drop_last();
        lemma_id_index(t, id);
        assert forall|j: int| 0 <= j < t.len() implies t[j] == s[j] by {}
    }
}

/// Index of the message with id `id` in `v`, if any.
fn find_id(v: &Vec<ChatMessage>, id: &str) -> (r: Option<usize>)
    ensures
        match r {
            Some(i) => i as int == id_index(msgs_view(v@), id@) && i < v@.len(),
            None => id_index(msgs_view(v@), id@) == -1,
        },
{
    let ghost s = msgs_view(v@);
    proof {
        lemma_id_index(s, id@);
    }
    let mut i: usize = 0;
    while i < v.len()
        invariant
            i <= v@.len(),
            s == msgs_view(v@),
            forall|j: int| 0 <= j < i ==> s[j].id != id@,
            -1 <= id_index(s, id@) < s.len(),
            id_index(s, id@) >= 0 ==> s[id_index(s, id@)].id == id@,
            id_index(s, id@) >= 0 ==> forall|j: int| 0 <= j < id_index(s, id@) ==> s[j].id != id@,
            id_index(s, id@) < 0 ==> forall|j: int| 0 <= j < s.len() ==> s[j].id != id@,
        decreases v@.len() - i,
    {
        if str_eq(v[i].id.as_str(), id) {
            assert(s[i as int].id == id@);
            return Some(i);
        }
        i = i + 1;
    }
    None
}

/// Merges `incoming` into `existing` by message id; a newer `sent_at` wins on
/// conflict (an equal one too), and the result is sorted by send time.
pub fn merge_messages_by_id(existing: &[ChatMessage], incoming: &[ChatMessage]) -> (r: Vec<
    ChatMessage,
>)
    ensures
        msgs_view(r@) == merge_by_id_spec(msgs_view(existing@), msgs_view(incoming@)),
        sorted_by_sent(msgs_view(r@)),
{
    let mut acc: Vec<ChatMessage> = Vec::new();
    let mut i: usize = 0;
    while i < existing.len()
        invariant
            i <= existing@.len(),
            acc@.len() <= i,
            msgs_view(acc@) == keyed(msgs_view(existing@.take(i as int))),
        decreases existing@.len() - i,
    {
        let m = existing[i].duplicate();
        let idx = find_id(&acc, m.id.as_str());
        let ghost s = msgs_view(acc@);
        proof {
            lemma_id_index(s, m@.id);
            assert(msgs_view(existing@.take(i + 1)).drop_last() =~= msgs_view(
                existing@.take(i as int),
            ));
            assert(msgs_view(existing@.take(i + 1)).last() == m@);
        }
        if let Some(at) = idx {
            acc.set(at, m);
            assert(msgs_view(acc@) =~= s.update(at as int, existing@[i as int]@));
        } else {
            acc.push(m);
            assert(msgs_view(acc@) =~= s.push(existing@[i as int]@));
        }
        i = i + 1;
    }
    assert(existing@.take(i as int) =~= existing@);
    let mut j: usize = 0;
    while j < incoming.len()
        invariant
            j <= incoming@.len(),
            acc@.len() <= existing@.len() + j,
            msgs_view(acc@) == merged_in(
                keyed(msgs_view(existing@)),
                msgs_view(incoming@.take(j as int)),
            ),
        decreases incoming@.len() - j,
    {
        let ghost s = msgs_view(acc@);
        let cand = &incoming[j];
        let idx = find_id(&acc, cand.id.as_str());
        proof {
            lemma_id_index(s, cand@.id);
            assert(msgs_view(incoming@.take(j + 1)).drop_last() =~= msgs_view(
                incoming@.take(j as int),
            ));
            assert(msgs_view(incoming@.take(j + 1)).last() == incoming@[j as int]@);
        }
        if let Some(at) = idx {
            assert(s[at as int].sent_at == acc@[at as int].sent_at);
            if cand.sent_at >= acc[at].sent_at {
                let m = cand.duplicate();
                acc.set(at, m);
                assert(msgs_view(acc@) =~= s.update(at as int, cand@));
            }
        } else {
            let m = incoming[j].duplicate();
            acc.push(m);
            assert(msgs_view(acc@) =~= s.push(incoming@[j as int]@));
        }
        j = j + 1;
    }
    assert(incoming@.take(j as int) =~= incoming@);
    let r = sort_messages(acc);
    proof {
        lemma_sort_sorted(merged_in(keyed(msgs_view(existing@)), msgs_view(incoming@)));
    }
    r
}

// ---------------------------------------------------------------------------
// Optimistic pending messages
// ---------------------------------------------------------------------------

/// `|a - b|`.
pub open spec fn abs_diff(a: u64, b: u64) -> int {
    if a >= b {
        a - b
    } else {
        b - a
    }
}

/// The names of a message's attachments, in order.
pub open spec fn att_names(a: Seq<AttachmentView>) -> Seq<Seq<char>> {
    a.map_values(|x: AttachmentView| x.name)
}

/// The names of a pending message's attachments, in order.
pub open spec fn pending_att_names(a: Seq<PendingAttachmentView>) -> Seq<Seq<char>> {
    a.map_values(|x: PendingAttachmentView| x.name)
}

/// A confirmed message stands for a pending one: same id, or same body,
/// sent within [`PENDING_DEDUP_WINDOW_MS`] and with the same attachment names.
pub open spec fn represented(m: MessageView, p: PendingView) -> bool {
    m.id == p.client_id || (m.body == p.body && abs_diff(m.sent_at, p.sent_at)
        <= PENDING_DEDUP_WINDOW_MS && att_names(m.attachments) == pending_att_names(p.attachments))
}

/// The character views of a list of strings.
pub open spec fn strings_view(s: Seq<String>) -> Seq<Seq<char>> {
    s.map_values(|x: String| x@)
}

/// The attachment names of a message, in order.
pub fn attachment_names(msg: &ChatMessage) -> (r: Vec<String>)
    ensures
        strings_view(r@) == att_names(msg@.attachments),
{
    let mut r: Vec<String> = Vec::new();
    let mut i: usize = 0;
    while i < msg.attachments.len()
        invariant
            i <= msg.attachments@.len(),
            r@.len() == i,
            strings_view(r@) == att_names(msg@.attachments).take(i as int),
        decreases msg.attachments@.len() - i,
    {
        let ghost prev = r@;
        let name = msg.attachments[i].name.clone();
        r.push(name);
        proof {
            assert(r@ == prev.push(name));
            assert forall|k: int| 0 <= k < i + 1 implies #[trigger] strings_view(r@)[k] == att_names(
                msg@.attachments,
            ).take(i + 1)[k] by {
                if k < i {
                    assert(strings_view(prev)[k] == att_names(msg@.attachments).take(i as int)[k]);
                }
            }
            assert(strings_view(r@) =~= att_names(msg@.attachments).take(i + 1));
        }
        i = i + 1;
    }
    assert(att_names(msg@.attachments).take(i as int) =~= att_names(msg@.attachments));
    r
}

/// The attachment names of a pending message, in order.
pub fn pending_attachment_names(item: &PendingOutgoingMessage) -> (r: Vec<String>)
    ensures
        strings_view(r@) == pending_att_names(item@.attachments),
{
    let mut r: Vec<String> = Vec::new();
    let mut i: usize = 0;
    while i < item.attachments.len()
        invariant
            i <= item.attachments@.len(),
            r@.len() == i,
            strings_view(r@) == pending_att_names(item@.attachments).take(i as int),
        decreases item.attachments@.len() - i,
    {
        let ghost prev = r@;
        let name = item.attachments[i].name.clone();
        r.push(name);
        proof {
            assert(r@ == prev.push(name));
            assert forall|k: int| 0 <= k < i + 1 implies #[trigger] strings_view(r@)[k]
                == pending_att_names(item@.attachments).take(i + 1)[k] by {
                if k < i {
                    assert(strings_view(prev)[k] == pending_att_names(item@.attachments).take(
                        i as int,
                    )[k]);
                }
            }
            assert(strings_view(r@) =~= pending_att_names(item@.attachments).take(i + 1));
        }
        i = i + 1;
    }
    assert(pending_att_names(item@.attachments).take(i as int) =~= pending_att_names(
        item@.attachments,
    ));
    r
}

fn same_names(msg: &ChatMessage, item: &PendingOutgoingMessage) -> (r: bool)
    ensures
        r == (att_names(msg@.attachments) == pending_att_names(item@.attachments)),
{
    if msg.attachments.len() != item.attachments.len() {
        assert(att_names(msg@.attachments).len() != pending_att_names(item@.attachments).len());
        return false;
    }
    let mut i: usize = 0;
    while i < msg.attachments.len()
        invariant
            i <= msg.attachments@.len(),
            msg.attachments@.len() == item.attachments@.len(),
            forall|j: int|
                0 <= j < i ==> att_names(msg@.attachments)[j] == pending_att_names(
                    item@.attachments,
                )[j],
        decreases msg.attachments@.len() - i,
    {
        if !str_eq(msg.attachments[i].name.as_str(), item.attachments[i].name.as_str()) {
            assert(att_names(msg@.attachments)[i as int] != pending_att_names(
                item@.attachments,
            )[i as int]);
            return false;
        }
        i = i + 1;
    }
    assert(att_names(msg@.attachments) =~= pending_att_names(item@.attachments));
    true
}

/// Whether a confirmed message stands for a pending one (see [`represented`]).
pub fn pending_is_represented_by(msg: &ChatMessage, item: &PendingOutgoingMessage) -> (r: bool)
    ensures
        r == represented(msg@, item@),
{
    if str_eq(msg.id.as_str(), item.client_id.as_str()) {
        return true;
    }
    if !str_eq(msg.body.as_str(), item.body.as_str()) {
        return false;
    }
    let diff = if msg.sent_at >= item.sent_at {
        msg.sent_at - item.sent_at
    } else {
        item.sent_at - msg.sent_at
    };
    if diff > PENDING_DEDUP_WINDOW_MS {
        return false;
    }
    same_names(msg, item)
}

/// The first pending attachment named `name`.
pub open spec fn first_named(pas: Seq<PendingAttachmentView>, name: Seq<char>) -> Option<
    PendingAttachmentView,
>
    decreases pas.len(),
{
    if pas.len() == 0 {
        None
    } else if pas[0].name == name {
        Some(pas[0])
    } else {
        first_named(pas.drop_first(), name)
    }
}

/// An attachment without a local path takes the local path of the first
/// pending attachment with its name.
pub open spec fn fill_att(a: AttachmentView, pas: Seq<PendingAttachmentView>) -> AttachmentView {
    if a.local_path is Some {
        a
    } else {
        match first_named(pas, a.name) {
            Some(p) => AttachmentView {
                id: a.id,
                kind: a.kind,
                name: a.name,
                size: a.size,
                mime: a.mime,
                source_hash: a.source_hash,
                local_path: p.local_path,
            },
            None => a,
        }
    }
}

/// `m` with its missing attachment paths filled from `p`.
pub open spec fn fill_msg(m: MessageView, p: PendingView) -> MessageView {
    MessageView {
        id: m.id,
        author_endpoint: m.author_endpoint,
        body: m.body,
        sent_at: m.sent_at,
        attachments: m.attachments.map_values(|a: AttachmentView| fill_att(a, p.attachments)),
    }
}

fn find_named(pas: &Vec<PendingOutgoingAttachment>, name: &str) -> (r: Option<usize>)
    ensures
        match r {
            Some(i) => i < pas@.len() && first_named(
                pas@.map_values(|a: PendingOutgoingAttachment| a@),
                name@,
            ) == Some(pas@[i as int]@),
            None => first_named(pas@.map_values(|a: PendingOutgoingAttachment| a@), name@) is None,
        },
{
    let ghost all = pas@.map_values(|a: PendingOutgoingAttachment| a@);
    let mut i: usize = 0;
    assert(all.skip(0) =~= all);
    while i < pas.len()
        invariant
            i <= pas@.len(),
            all == pas@.map_values(|a: PendingOutgoingAttachment| a@),
            first_named(all, name@) == first_named(all.skip(i as int), name@),
        decreases pas@.len() - i,
    {
        assert(all.skip(i as int)[0] == pas@[i as int]@);
        if str_eq(pas[i].name.as_str(), name) {
            return Some(i);
        }
        assert(all.skip(i as int).drop_first() =~= all.skip(i + 1));
        i = i + 1;
    }
    None
}

/// Copies missing attachment paths from a pending message onto its confirmed
/// message, matching attachments by name.
pub fn fill_missing_attachment_paths(msg: &mut ChatMessage, item: &PendingOutgoingMessage)
    ensures
        final(msg)@ == fill_msg(old(msg)@, item@),
{
    let ghost target = fill_msg(msg@, item@);
    let mut atts: Vec<ChatAttachment> = Vec::new();
    let mut i: usize = 0;
    while i < msg.attachments.len()
        invariant
            i <= msg.attachments@.len(),
            target == fill_msg(old(msg)@, item@),
            *msg == *old(msg),
            atts@.len() == i,
            atts_view(atts@) == target.attachments.take(i as int),
        decreases msg.attachments@.len() - i,
    {
        let mut a = msg.attachments[i].duplicate();
        if a.local_path.is_none() {
            if let Some(k) = find_named(&item.attachments, a.name.as_str()) {
                a.local_path = clone_opt(&item.attachments[k].local_path);
            }
        }
        assert(a@ == fill_att(msg.attachments@[i as int]@, item@.attachments));
        let ghost prev = atts@;
        atts.push(a);
        proof {
            assert forall|k: int| 0 <= k < i + 1 implies #[trigger] atts_view(atts@)[k]
                == target.attachments.take(i + 1)[k] by {
                if k < i {
                    assert(atts_view(prev)[k] == target.attachments.take(i as int)[k]);
                }
            }
            assert(atts_view(atts@) =~= target.attachments.take(i + 1));
        }
        i = i + 1;
    }
    msg.attachments = atts;
    assert(target.attachments.take(i as int) =~= target.attachments);
    assert(msg@.attachments =~= target.attachments);
}

/// Index of the first message standing for `p` in `s`, or -1.
pub open spec fn rep_index(s: Seq<MessageView>, p: PendingView) -> int
    decreases s.len(),
{
    if s.len() == 0 {
        -1
    } else {
        let i = rep_index(s.drop_last(), p);
        if i >= 0 {
            i
        } else if represented(s.last(), p) {
            s.len() - 1
        } else {
            -1
        }
    }
}

pub(crate) proof fn lemma_rep_index(s: Seq<MessageView>, p: PendingView)
    ensures
        -1 <= rep_index(s, p) < s.len(),
        rep_index(s, p) >= 0 ==> represented(s[rep_index(s, p)], p),
        forall|j: int| 0 <= j < s.len() && (rep_index(s, p) < 0 || j < rep_index(s, p)) ==> !represented(
            #[trigger] s[j],
            p,
        ),
    decreases s.len(),
{
    if s.len() > 0 {
        let t = s.drop_last();
        lemma_rep_index(t, p);
        assert forall|j: int| 0 <= j < t.len() implies t[j] == s[j] by {}
    }
}

fn find_rep(v: &Vec<ChatMessage>, item: &PendingOutgoingMessage) -> (r: Option<usize>)
    ensures
        match r {
            Some(i) => i as int == rep_index(msgs_view(v@), item@) && i < v@.len(),
            None => rep_index(msgs_view(v@), item@) == -1,
        },
{
    let ghost s = msgs_view(v@);
    proof {
        lemma_rep_index(s, item@);
    }
    let mut i: usize = 0;
    while i < v.len()
        invariant
            i <= v@.len(),
            s == msgs_view(v@),
            forall|j: int| 0 <= j < i ==> !represented(#[trigger] s[j], item@),
            -1 <= rep_index(s, item@) < s.len(),
            rep_index(s, item@) >= 0 ==> represented(s[rep_index(s, item@)], item@),
            forall|j: int|
                0 <= j < s.len() && (rep_index(s, item@) < 0 || j < rep_index(s, item@))
                    ==> !represented(#[trigger] s[j], item@),
        decreases v@.len() - i,
    {
        if pending_is_represented_by(&v[i], item) {
            assert(represented(s[i as int], item@));
            return Some(i);
        }
        i = i + 1;
    }
    None
}

/// The first message standing for `p` gets its missing attachment paths from `p`.
pub open spec fn fill_first(s: Seq<MessageView>, p: PendingView) -> Seq<MessageView> {
    let i = rep_index(s, p);
    if i >= 0 {
        s.update(i, fill_msg(s[i], p))
    } else {
        s
    }
}

/// [`fill_first`] for each pending message in turn.
pub open spec fn fill_all(s: Seq<MessageView>, ps: Seq<PendingView>) -> Seq<MessageView>
    decreases ps.len(),
{
    if ps.len() == 0 {
        s
    } else {
        fill_first(fill_all(s, ps.drop_last()), ps.last())
    }
}

/// `pending-attach:` prefix of optimistic attachment ids.
pub open spec fn pending_attach_prefix() -> Seq<char> {
    "pending-attach:"@
}

/// The optimistic bubble of a pending message, authored by `author`.
pub open spec fn synth(p: PendingView, author: Seq<char>) -> MessageView {
    MessageView {
        id: p.client_id,
        author_endpoint: author,
        body: p.body,
        sent_at: p.sent_at,
        attachments: p.attachments.map_values(
            |a: PendingAttachmentView|
                AttachmentView {
                    id: pending_attach_prefix() + a.name,
                    kind: a.kind,
                    name: a.name,
                    size: a.size,
                    mime: None,
                    source_hash: None,
                    local_path: a.local_path,
                },
        ),
    }
}

/// Each pending message not yet standing in the list (including bubbles
/// added for earlier pending messages) is appended as a bubble.
pub open spec fn push_pending(s: Seq<MessageView>, ps: Seq<PendingView>, author: Seq<char>) -> Seq<
    MessageView,
>
    decreases ps.len(),
{
    if ps.len() == 0 {
        s
    } else {
        let prev = push_pending(s, ps.drop_last(), author);
        if rep_index(prev, ps.last()) >= 0 {
            prev
        } else {
            prev.push(synth(ps.last(), author))
        }
    }
}

/// Confirmed messages with the pending ones merged in, sorted by send time.
pub open spec fn merge_pending_spec(
    ms: Seq<MessageView>,
    ps: Seq<PendingView>,
    author: Seq<char>,
) -> Seq<MessageView> {
    sort_by_sent(push_pending(fill_all(ms, ps), ps, author))
}

fn synth_message(item: &PendingOutgoingMessage, author: &str) -> (r: ChatMessage)
    ensures
        r@ == synth(item@, author@),
{
    let mut atts: Vec<ChatAttachment> = Vec::new();
    let ghost target = synth(item@, author@).attachments;
    let mut i: usize = 0;
    while i < item.attachments.len()
        invariant
            i <= item.attachments@.len(),
            target == synth(item@, author@).attachments,
            atts@.len() == i,
            atts_view(atts@) == target.take(i as int),
        decreases item.attachments@.len() - i,
    {
        let pa = &item.attachments[i];
        let mut id = string_from("pending-attach:");
        push_str(&mut id, pa.name.as_str());
        let a = ChatAttachment {
            id,
            kind: pa.kind.clone(),
            name: pa.name.clone(),
            size: pa.size,
            mime: None,
            source_hash: None,
            local_path: clone_opt(&pa.local_path),
        };
        let ghost prev = atts@;
        atts.push(a);
        proof {
            assert(a@ == target[i as int]);
            assert forall|k: int| 0 <= k < i + 1 implies #[trigger] atts_view(atts@)[k]
                == target.take(i + 1)[k] by {
                if k < i {
                    assert(atts_view(prev)[k] == target.take(i as int)[k]);
                }
            }
            assert(atts_view(atts@) =~= target.take(i + 1));
        }
        i = i + 1;
    }
    assert(target.take(i as int) =~= target);
    ChatMessage {
        id: item.client_id.clone(),
        author_endpoint: string_from(author),
        body: item.body.clone(),
        sent_at: item.sent_at,
        attachments: atts,
    }
}

/// Confirmed messages with optimistic pending bubbles merged in: a confirmed
/// message standing for a pending one gets its missing attachment paths; the
/// other pending messages are appended as bubbles by the local endpoint
/// (`""` when unknown); the list is sorted by send time.
pub fn merge_pending_messages(
    messages: &[ChatMessage],
    pending: &[PendingOutgoingMessage],
    local_endpoint: Option<&str>,
) -> (r: Vec<ChatMessage>)
    ensures
        msgs_view(r@) == merge_pending_spec(
            msgs_view(messages@),
            pending_view(pending@),
            match local_endpoint {
                Some(e) => e@,
                None => Seq::<char>::empty(),
            },
        ),
{
    let author: &str = match local_endpoint {
        Some(e) => e,
        None => "",
    };
    proof {
        if local_endpoint is None {
            reveal_strlit("");
            assert(author@ =~= Seq::<char>::empty());
        }
    }
    assert(author@ == match local_endpoint {
        Some(e) => e@,
        None => Seq::<char>::empty(),
    });
    let ghost ps = pending_view(pending@);
    let mut merged = clone_messages(messages);
    let mut k: usize = 0;
    while k < pending.len()
        invariant
            k <= pending@.len(),
            ps == pending_view(pending@),
            msgs_view(merged@) == fill_all(msgs_view(messages@), ps.take(k as int)),
        decreases pending@.len() - k,
    {
        let ghost s = msgs_view(merged@);
        proof {
            assert(ps.take(k + 1).drop_last() =~= ps.take(k as int));
            assert(ps.take(k + 1).last() == pending@[k as int]@);
        }
        if let Some(at) = find_rep(&merged, &pending[k]) {
            let mut m = merged[at].duplicate();
            fill_missing_attachment_paths(&mut m, &pending[k]);
            merged.set(at, m);
            let ghost pk = pending@[k as int]@;
            assert(msgs_view(merged@) =~= s.update(at as int, fill_msg(s[at as int], pk)));
        }
        k = k + 1;
    }
    assert(ps.take(k as int) =~= ps);
    let ghost filled = msgs_view(merged@);
    let mut k: usize = 0;
    while k < pending.len()
        invariant
            k <= pending@.len(),
            ps == pending_view(pending@),
            msgs_view(merged@) == push_pending(filled, ps.take(k as int), author@),
        decreases pending@.len() - k,
    {
        let ghost s = msgs_view(merged@);
        proof {
            assert(ps.take(k + 1).drop_last() =~= ps.take(k as int));
            assert(ps.take(k + 1).last() == pending@[k as int]@);
        }
        if find_rep(&merged, &pending[k]).is_none() {
            let m = synth_message(&pending[k], author);
            merged.push(m);
            assert(msgs_view(merged@) =~= s.push(synth(pending@[k as int]@, author@)));
        }
        k = k + 1;
    }
    assert(ps.take(k as int) =~= ps);
    sort_messages(merged)
}

/// Moves the value under `from` to `to` (if there is one).
pub open spec fn move_key<V>(m: Map<Seq<char>, V>, from: Seq<char>, to: Seq<char>) -> Map<
    Seq<char>,
    V,
> {
    if m.contains_key(from) {
        m.remove(from).insert(to, m[from])
    } else {
        m
    }
}

/// Preview keys of each attachment moved from `pending-attach:{name}` to its id.
pub open spec fn remap_atts<V>(m: Map<Seq<char>, V>, atts: Seq<AttachmentView>) -> Map<
    Seq<char>,
    V,
>
    decreases atts.len(),
{
    if atts.len() == 0 {
        m
    } else {
        move_key(
            remap_atts(m, atts.drop_last()),
            pending_attach_prefix() + atts.last().name,
            atts.last().id,
        )
    }
}

/// For each pending message in turn, the previews of the first confirmed
/// message standing for it are moved onto its attachment ids.
pub open spec fn remap_all<V>(
    m: Map<Seq<char>, V>,
    ms: Seq<MessageView>,
    ps: Seq<PendingView>,
) -> Map<Seq<char>, V>
    decreases ps.len(),
{
    if ps.len() == 0 {
        m
    } else {
        let prev = remap_all(m, ms, ps.drop_last());
        let i = rep_index(ms, ps.last());
        if i >= 0 {
            remap_atts(prev, ms[i].attachments)
        } else {
            prev
        }
    }
}

fn move_entry<V>(map: &mut AssetMap<V>, from: &str, to: &str)
    requires
        old(map).wf(),
    ensures
        final(map).wf(),
        final(map).view_map() == move_key(old(map).view_map(), from@, to@),
{
    if let Some(v) = map.remove(from) {
        map.insert(string_from(to), v);
    }
}

/// Remaps optimistic `pending-attach:{name}` preview assets (and their
/// sizes) onto the ids of the confirmed attachments.
pub fn remap_pending_attachment_previews(
    previews: &mut AssetMap<String>,
    sizes: &mut AssetMap<(u32, u32)>,
    messages: &[ChatMessage],
    pending: &[PendingOutgoingMessage],
)
    requires
        old(previews).wf(),
        old(sizes).wf(),
    ensures
        final(previews).wf(),
        final(sizes).wf(),
        final(previews).view_map() == remap_all(
            old(previews).view_map(),
            msgs_view(messages@),
            pending_view(pending@),
        ),
        final(sizes).view_map() == remap_all(
            old(sizes).view_map(),
            msgs_view(messages@),
            pending_view(pending@),
        ),
{
    let ghost ms = msgs_view(messages@);
    let ghost ps = pending_view(pending@);
    let ghost p0 = previews.view_map();
    let ghost s0 = sizes.view_map();
    let msgs = clone_messages(messages);
    let mut k: usize = 0;
    while k < pending.len()
        invariant
            k <= pending@.len(),
            ms == msgs_view(msgs@),
            ps == pending_view(pending@),
            previews.wf(),
            sizes.wf(),
            previews.view_map() == remap_all(p0, ms, ps.take(k as int)),
            sizes.view_map() == remap_all(s0, ms, ps.take(k as int)),
        decreases pending@.len() - k,
    {
        proof {
            assert(ps.take(k + 1).drop_last() =~= ps.take(k as int));
            assert(ps.take(k + 1).last() == pending@[k as int]@);
        }
        if let Some(at) = find_rep(&msgs, &pending[k]) {
            let msg = &msgs[at];
            let ghost atts = ms[at as int].attachments;
            let ghost pb = previews.view_map();
            let ghost sb = sizes.view_map();
            let mut j: usize = 0;
            while j < msg.attachments.len()
                invariant
                    j <= msg.attachments@.len(),
                    atts == msg@.attachments,
                    previews.wf(),
                    sizes.wf(),
                    previews.view_map() == remap_atts(pb, atts.take(j as int)),
                    sizes.view_map() == remap_atts(sb, atts.take(j as int)),
                decreases msg.attachments@.len() - j,
            {
                let att = &msg.attachments[j];
                let mut pending_id = string_from("pending-attach:");
                push_str(&mut pending_id, att.name.as_str());
                proof {
                    assert(atts.take(j + 1).drop_last() =~= atts.take(j as int));
                    assert(atts.take(j + 1).last() == att@);
                }
                move_entry(previews, pending_id.as_str(), att.id.as_str());
                move_entry(sizes, pending_id.as_str(), att.id.as_str());
                j = j + 1;
            }
            assert(atts.take(j as int) =~= atts);
        }
        k = k + 1;
    }
    assert(ps.take(k as int) =~= ps);
}

/// Preview text of a message body: trimmed, newlines as spaces, cut to
/// `max_chars` characters with a trailing `…` when longer.
pub open spec fn preview_text(body: Seq<char>, max_chars: nat) -> Seq<char> {
    let t = trim(body).map_values(|c: char| if c == '\n' { ' ' } else { c });
    if t.len() <= max_chars {
        t
    } else {
        t.take(if max_chars >= 1 { max_chars - 1 } else { 0 }) + seq!['…']
    }
}

/// Preview text of a message body (see [`preview_text`]).
pub fn truncate_preview(body: &str, max_chars: usize) -> (r: String)
    ensures
        r@ == preview_text(body@, max_chars as nat),
{
    let t = crate::text::trim_str(body);
    let ghost tt = trim(body@).map_values(|c: char| if c == '\n' { ' ' } else { c });
    let mut line: Vec<char> = Vec::new();
    let mut i: usize = 0;
    while i < t.len()
        invariant
            i <= t@.len(),
            t@ == trim(body@),
            tt == trim(body@).map_values(|c: char| if c == '\n' { ' ' } else { c }),
            line@ == tt.take(i as int),
        decreases t@.len() - i,
    {
        if t[i] == '\n' {
            line.push(' ');
        } else {
            line.push(t[i]);
        }
        i = i + 1;
        assert(line@ =~= tt.take(i as int));
    }
    assert(tt.take(i as int) =~= tt);
    if line.len() <= max_chars {
        return string_of(line.as_slice());
    }
    let keep = if max_chars >= 1 { max_chars - 1 } else { 0 };
    let mut out = String::new();
    let mut j: usize = 0;
    while j < keep
        invariant
            j <= keep < line@.len(),
            out@ == line@.take(j as int),
        decreases keep - j,
    {
        crate::text::push_char(&mut out, line[j]);
        j = j + 1;
        assert(out@ =~= line@.take(j as int));
    }
    crate::text::push_char(&mut out, '…');
    out
}

/// What a reply shows of the message it answers.
#[derive(Debug, PartialEq, Eq)]
pub enum ReplyPreview {
    /// An image without text (`chat.preview.image`).
    Image,
    /// Any other message without text (`chat.preview.file`).
    File,
    /// The answered text, cut to 80 characters.
    Text(String),
}

/// Longest reply preview, in characters.
pub const REPLY_PREVIEW_CHARS: usize = 80;

/// Messages whose id is `id`.
pub open spec fn msg_has_id(ms: Seq<MessageView>, id: Seq<char>) -> spec_fn(int) -> bool {
    |i: int| ms[i].id == id
}

/// Some attachment of the message is an image.
pub open spec fn has_image(m: MessageView) -> bool {
    exists|j: int| 0 <= j < m.attachments.len() && (#[trigger] m.attachments[j]).kind == "image"@
}

/// What a reply to `reply_id` shows, from the first loaded message with that
/// id: an image label for an image without text, a file label for other
/// messages without text, else the preview of its text; nothing when the
/// message is not loaded.
pub fn reply_preview(messages: &[ChatMessage], reply_id: &str) -> (r: Option<ReplyPreview>)
    ensures
        ({
            let ms = msgs_view(messages@);
            let k = first_where(ms.len(), msg_has_id(ms, reply_id@));
            if k < 0 {
                r is None
            } else {
                let m = ms[k];
                if trim(m.body).len() == 0 && has_image(m) {
                    r == Some(ReplyPreview::Image)
                } else if trim(m.body).len() == 0 {
                    r == Some(ReplyPreview::File)
                } else {
                    r matches Some(ReplyPreview::Text(t)) && t@ == preview_text(m.body, REPLY_PREVIEW_CHARS as nat)
                }
            }
        }),
{
    let ghost ms = msgs_view(messages@);
    let ghost p = msg_has_id(ms, reply_id@);
    let mut i: usize = 0;
    while i < messages.len()
        invariant
            i <= messages@.len(),
            ms == msgs_view(messages@),
            p == msg_has_id(ms, reply_id@),
            forall|j: int| 0 <= j < i ==> !#[trigger] p(j),
        decreases messages@.len() - i,
    {
        if str_eq(messages[i].id.as_str(), reply_id) {
            assert(p(i as int));
            proof {
                lemma_first_where_found(ms.len(), p, i as int);
            }
            let m = &messages[i];
            let ghost mv = ms[i as int];
            assert(mv == m@);
            let blank = crate::text::trim_str(m.body.as_str()).len() == 0;
            if blank {
                let mut image = false;
                let mut j: usize = 0;
                while j < m.attachments.len()
                    invariant
                        j <= m.attachments@.len(),
                        mv.attachments == atts_view(m.attachments@),
                        image == exists|a: int| 0 <= a < j && (#[trigger] mv.attachments[a]).kind == "image"@,
                    decreases m.attachments@.len() - j,
                {
                    if str_eq(m.attachments[j].kind.as_str(), "image") {
                        proof {
                            reveal_strlit("image");
                        }
                        assert(mv.attachments[j as int].kind == "image"@);
                        image = true;
                    } else {
                        proof {
                            reveal_strlit("image");
                        }
                    }
                    j = j + 1;
                }
                if image {
                    return Some(ReplyPreview::Image);
                }
                return Some(ReplyPreview::File);
            }
            return Some(ReplyPreview::Text(truncate_preview(m.body.as_str(), REPLY_PREVIEW_CHARS)));
        }
        i = i + 1;
    }
    proof {
        lemma_first_where_none(ms.len(), p);
    }
    None
}

/// Index of the last message drawn as outgoing, whose bubble may show as
/// read.
pub fn last_outgoing_index(messages: &[ChatMessage], local: Option<&str>) -> (r: Option<usize>)
    ensures
        match r {
            Some(k) => k < messages@.len() && outgoing_spec(messages@[k as int]@, crate::prefs::opt_view(local))
                && forall|j: int| k < j < messages@.len() ==> !outgoing_spec(
                    #[trigger] messages@[j]@,
                    crate::prefs::opt_view(local),
                ),
            None => forall|j: int| 0 <= j < messages@.len() ==> !outgoing_spec(
                #[trigger] messages@[j]@,
                crate::prefs::opt_view(local),
            ),
        },
{
    let mut i: usize = messages.len();
    while i > 0
        invariant
            i <= messages@.len(),
            forall|j: int| i <= j < messages@.len() ==> !outgoing_spec(#[trigger] messages@[j]@, crate::prefs::opt_view(local)),
        decreases i,
    {
        if message_is_outgoing(&messages[i - 1], local) {
            return Some(i - 1);
        }
        i = i - 1;
    }
    None
}

} // verus!
