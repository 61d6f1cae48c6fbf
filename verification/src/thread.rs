//! The chat thread: which fetch results still apply, how a fetched page or
//! an incoming message updates the thread, and the hint shown without
//! messages.

use vstd::prelude::*;
use crate::asset_map::AssetMap;
use crate::messages::{
    advance_history_before, history_before, merge_by_id_spec, merge_messages_by_id,
    merge_pending_messages, merge_pending_spec, clone_messages, messages_snapshot_equal, msgs_view,
    page_exhausts_history, pending_view, remap_all, remap_pending_attachment_previews,
    snapshot_equal, ChatMessage, MessageView, PendingOutgoingMessage, RECENT_MESSAGE_PAGE,
    AttachmentView, atts_view,
};
use crate::text::{opt_seq, str_eq, string_from, trim};

verus! {

/// Actions of the thread view.
#[derive(Debug, Clone)]
pub enum ChatThreadAction {
    LoadEarlier,
    JoinVideoRoom { room_id: String },
}

/// What the thread shows when it has no bubbles to show.
#[derive(Debug)]
pub struct ThreadHintState {
    /// A conversation is being opened.
    pub pending_open: bool,
    /// A conversation is loaded.
    pub loaded: bool,
    pub fetch_error: Option<String>,
    /// The latest page is loading.
    pub loading: bool,
    /// An older page is loading.
    pub loading_older: bool,
    pub search_open: bool,
    pub search_loading: bool,
    pub search_total: u64,
    pub search_query: String,
    pub search_from_set: bool,
}

/// The hint text: opening, nothing selected, the fetch error, loading,
/// loading older, no search match (a finished search with a query or a
/// start date and no result), else an invitation to write.
pub open spec fn hint_spec(h: ThreadHintState) -> Seq<char> {
    if h.pending_open {
        "正在打开会话…"@
    } else if !h.loaded {
        "选择左侧终端开始聊天"@
    } else if h.fetch_error is Some {
        h.fetch_error->0@
    } else if h.loading {
        "加载中…"@
    } else if h.loading_older {
        "加载更早消息…"@
    } else if h.search_open && !h.search_loading && h.search_total == 0 && (trim(
        h.search_query@,
    ).len() > 0 || h.search_from_set) {
        "无匹配消息"@
    } else {
        "暂无消息，发送第一条吧"@
    }
}

/// The hint text of the thread (see [`hint_spec`]).
pub fn thread_hint_text(h: &ThreadHintState) -> (r: String)
    ensures
        r@ == hint_spec(*h),
{
    if h.pending_open {
        return string_from("正在打开会话…");
    }
    if !h.loaded {
        return string_from("选择左侧终端开始聊天");
    }
    if let Some(e) = &h.fetch_error {
        return string_from(e.as_str());
    }
    if h.loading {
        return string_from("加载中…");
    }
    if h.loading_older {
        return string_from("加载更早消息…");
    }
    if h.search_open && !h.search_loading && h.search_total == 0 && (crate::text::trim_str(
        h.search_query.as_str(),
    ).len() > 0 || h.search_from_set) {
        return string_from("无匹配消息");
    }
    string_from("暂无消息，发送第一条吧")
}

/// The messages cached for a conversation, empty when none are.
pub open spec fn cached(m: Map<Seq<char>, Vec<ChatMessage>>, k: Seq<char>) -> Seq<MessageView> {
    if m.contains_key(k) {
        msgs_view(m[k]@)
    } else {
        seq![]
    }
}

/// The value stored under a key, if any.
pub open spec fn lookup<V>(m: Map<Seq<char>, V>, k: Seq<char>) -> Option<V> {
    if m.contains_key(k) {
        Some(m[k])
    } else {
        None
    }
}

/// What applying a fetch result did, for the view to redraw.
#[derive(Debug, Clone, Copy, PartialEq, Eq, Structural)]
pub enum FetchApplied {
    /// A newer fetch for the conversation was started: the result is dropped.
    Stale,
    /// The page was empty.
    Empty { rebuild: bool },
    /// The page was merged; `visible` when the conversation is on screen.
    Merged { visible: bool, rebuild: bool },
}

/// Some message of `s` has id `id`.
pub open spec fn has_id(s: Seq<MessageView>, id: Seq<char>) -> bool {
    exists|i: int| 0 <= i < s.len() && (#[trigger] s[i]).id == id
}

pub(crate) fn has_message_id(base: &[ChatMessage], id: &str) -> (r: bool)
    ensures
        r == has_id(msgs_view(base@), id@),
{
    let ghost bv = msgs_view(base@);
    let mut i: usize = 0;
    while i < base.len()
        invariant
            i <= base@.len(),
            bv == msgs_view(base@),
            forall|j: int| 0 <= j < i ==> (#[trigger] bv[j]).id != id@,
        decreases base@.len() - i,
    {
        if str_eq(base[i].id.as_str(), id) {
            assert(bv[i as int].id == id@);
            return true;
        }
        i = i + 1;
    }
    false
}

/// What applying an incoming message did.
#[derive(Debug, Clone, Copy, PartialEq, Eq, Structural)]
pub enum IncomingApplied {
    /// The conversation is not on screen.
    Ignored,
    /// The message is already there.
    Duplicate,
    /// The message was merged in.
    Merged { rebuild: bool },
}

/// State of the thread view across conversations.
pub struct ThreadState {
    pub messages: Vec<ChatMessage>,
    pub message_cache: AssetMap<Vec<ChatMessage>>,
    pub history_before: AssetMap<u64>,
    pub history_exhausted: AssetMap<bool>,
    pub fetch_generations: AssetMap<u64>,
    pub next_fetch_seq: u64,
    pub loaded_for: Option<String>,
    pub loading_conv: Option<String>,
    pub loading_older_conv: Option<String>,
    pub fetch_error: Option<String>,
    pub previews: AssetMap<String>,
    pub preview_sizes: AssetMap<(u32, u32)>,
}

impl ThreadState {
    /// Every map of the state is well formed.
    pub open spec fn wf(&self) -> bool {
        &&& self.message_cache.wf()
        &&& self.history_before.wf()
        &&& self.history_exhausted.wf()
        &&& self.fetch_generations.wf()
        &&& self.previews.wf()
        &&& self.preview_sizes.wf()
    }

    /// A fetch of `conv` tagged `generation` is still the latest one.
    pub open spec fn generation_current(&self, conv: Seq<char>, generation: u64) -> bool {
        lookup(self.fetch_generations.view_map(), conv) == Some(generation)
    }

    /// Nothing loaded, nothing cached, no fetch started.
    pub fn new() -> (r: Self)
        ensures
            r.wf(),
            r.messages@.len() == 0,
            r.message_cache.view_map() == Map::<Seq<char>, Vec<ChatMessage>>::empty(),
            r.history_before.view_map() == Map::<Seq<char>, u64>::empty(),
            r.history_exhausted.view_map() == Map::<Seq<char>, bool>::empty(),
            r.fetch_generations.view_map() == Map::<Seq<char>, u64>::empty(),
            r.next_fetch_seq == 0,
            r.loaded_for is None,
            r.loading_conv is None,
            r.loading_older_conv is None,
            r.fetch_error is None,
            r.previews.view_map() == Map::<Seq<char>, String>::empty(),
            r.preview_sizes.view_map() == Map::<Seq<char>, (u32, u32)>::empty(),
    {
        ThreadState {
            messages: Vec::new(),
            message_cache: AssetMap::new(),
            history_before: AssetMap::new(),
            history_exhausted: AssetMap::new(),
            fetch_generations: AssetMap::new(),
            next_fetch_seq: 0,
            loaded_for: None,
            loading_conv: None,
            loading_older_conv: None,
            fetch_error: None,
            previews: AssetMap::new(),
            preview_sizes: AssetMap::new(),
        }
    }

    /// Tags a new fetch of `conv_id`: the counter goes up by one (saturating)
    /// and becomes the conversation's current generation.
    pub fn next_fetch_generation(&mut self, conv_id: &str) -> (g: u64)
        requires
            old(self).wf(),
        ensures
            final(self).wf(),
            g == (if old(self).next_fetch_seq == u64::MAX { u64::MAX } else { (old(self).next_fetch_seq + 1) as u64 }),
            final(self).next_fetch_seq == g,
            final(self).fetch_generations.view_map() == old(self).fetch_generations.view_map().insert(conv_id@, g),
            final(self).messages == old(self).messages,
            final(self).message_cache == old(self).message_cache,
            final(self).history_before == old(self).history_before,
            final(self).history_exhausted == old(self).history_exhausted,
            final(self).loaded_for == old(self).loaded_for,
            final(self).loading_conv == old(self).loading_conv,
            final(self).loading_older_conv == old(self).loading_older_conv,
            final(self).fetch_error == old(self).fetch_error,
            final(self).previews == old(self).previews,
            final(self).preview_sizes == old(self).preview_sizes,
    {
        self.next_fetch_seq = self.next_fetch_seq.saturating_add(1);
        let g = self.next_fetch_seq;
        self.fetch_generations.insert(string_from(conv_id), g);
        g
    }

    /// Whether a fetch of `conv_id` tagged `generation` is still current.
    pub fn fetch_generation_matches(&self, conv_id: &str, generation: u64) -> (r: bool)
        requires
            self.wf(),
        ensures
            r == self.generation_current(conv_id@, generation),
    {
        match self.fetch_generations.get(conv_id) {
            Some(g) => *g == generation,
            None => false,
        }
    }

    /// Applies a fetched page of `conv_id` (`before` set for an older page).
    ///
    /// A result whose generation is no longer current changes nothing.
    /// Otherwise the matching loading flag and the error are cleared; an
    /// empty older page marks the history exhausted; an empty first page of
    /// an empty conversation caches it as empty. A non-empty page is merged
    /// by id into the cache, the pending bubbles are merged on top, preview
    /// assets move to confirmed ids, the history cursor advances, a short
    /// page marks the history exhausted (a full first page clears the mark),
    /// and, when the conversation is on screen, the bubbles change unless
    /// they show the same snapshot.
    pub fn apply_fetched_messages(
        &mut self,
        conv_id: &str,
        generation: u64,
        fetched: &[ChatMessage],
        before: Option<u64>,
        pending: &[PendingOutgoingMessage],
        local_endpoint: Option<&str>,
    ) -> (r: FetchApplied)
        requires
            old(self).wf(),
        ensures
            final(self).wf(),
            final(self).fetch_generations == old(self).fetch_generations,
            final(self).next_fetch_seq == old(self).next_fetch_seq,
            final(self).loaded_for == old(self).loaded_for,
            !old(self).generation_current(conv_id@, generation) ==> (r == FetchApplied::Stale
                && final(self).messages == old(self).messages && final(self).message_cache
                == old(self).message_cache && final(self).history_before == old(self).history_before
                && final(self).history_exhausted == old(self).history_exhausted
                && final(self).loading_conv == old(self).loading_conv
                && final(self).loading_older_conv == old(self).loading_older_conv
                && final(self).fetch_error == old(self).fetch_error && final(self).previews
                == old(self).previews && final(self).preview_sizes == old(self).preview_sizes),
            old(self).generation_current(conv_id@, generation) ==> {
                let existing = cached(old(self).message_cache.view_map(), conv_id@);
                let base = merge_by_id_spec(existing, msgs_view(fetched@));
                let author = match local_endpoint {
                    Some(e) => e@,
                    None => Seq::<char>::empty(),
                };
                let merged = merge_pending_spec(base, pending_view(pending@), author);
                let visible = opt_seq(old(self).loaded_for) == Some(conv_id@);
                &&& final(self).fetch_error is None
                &&& before is None ==> final(self).loading_conv is None
                    && final(self).loading_older_conv == old(self).loading_older_conv
                &&& before is Some ==> final(self).loading_older_conv is None
                    && final(self).loading_conv == old(self).loading_conv
                &&& fetched@.len() == 0 ==> {
                    let reset = before is None && existing.len() == 0 && old(self).messages@.len() == 0;
                    &&& r == FetchApplied::Empty { rebuild: reset }
                    &&& final(self).messages@.len() == old(self).messages@.len()
                    &&& final(self).history_before == old(self).history_before
                    &&& final(self).previews == old(self).previews
                    &&& final(self).preview_sizes == old(self).preview_sizes
                    &&& before is Some ==> final(self).history_exhausted.view_map()
                        == old(self).history_exhausted.view_map().insert(conv_id@, true)
                        && final(self).message_cache == old(self).message_cache
                    &&& before is None ==> final(self).history_exhausted == old(self).history_exhausted
                    &&& reset ==> final(self).message_cache.view_map().dom()
                        == old(self).message_cache.view_map().dom().insert(conv_id@)
                        && cached(final(self).message_cache.view_map(), conv_id@).len() == 0
                        && forall|k: Seq<char>|
                        k != conv_id@ ==> #[trigger] lookup(final(self).message_cache.view_map(), k)
                            == lookup(old(self).message_cache.view_map(), k)
                    &&& !reset && before is None ==> final(self).message_cache == old(self).message_cache
                }
                &&& fetched@.len() > 0 ==> {
                    let rebuild = visible && !snapshot_equal(msgs_view(old(self).messages@), merged);
                    &&& r == FetchApplied::Merged { visible, rebuild }
                    &&& final(self).message_cache.view_map().dom()
                        == old(self).message_cache.view_map().dom().insert(conv_id@)
                    &&& cached(final(self).message_cache.view_map(), conv_id@) == base
                    &&& forall|k: Seq<char>|
                        k != conv_id@ ==> #[trigger] lookup(final(self).message_cache.view_map(), k)
                            == lookup(old(self).message_cache.view_map(), k)
                    &&& final(self).history_before.view_map() == old(self).history_before.view_map().insert(
                        conv_id@,
                        history_before(
                            lookup(old(self).history_before.view_map(), conv_id@),
                            msgs_view(fetched@),
                        )->0,
                    )
                    &&& fetched@.len() < RECENT_MESSAGE_PAGE ==> final(self).history_exhausted.view_map()
                        == old(self).history_exhausted.view_map().insert(conv_id@, true)
                    &&& fetched@.len() >= RECENT_MESSAGE_PAGE && before is None
                        ==> final(self).history_exhausted.view_map()
                        == old(self).history_exhausted.view_map().remove(conv_id@)
                    &&& fetched@.len() >= RECENT_MESSAGE_PAGE && before is Some
                        ==> final(self).history_exhausted == old(self).history_exhausted
                    &&& final(self).previews.view_map() == remap_all(
                        old(self).previews.view_map(),
                        merged,
                        pending_view(pending@),
                    )
                    &&& rebuild ==> msgs_view(final(self).messages@) == merged
                    &&& !rebuild ==> final(self).messages == old(self).messages
                }
            },
    {
        if !self.fetch_generation_matches(conv_id, generation) {
            return FetchApplied::Stale;
        }
        if before.is_none() {
            self.loading_conv = None;
        } else {
            self.loading_older_conv = None;
        }
        self.fetch_error = None;
        let ghost old_cache = self.message_cache.view_map();
        if fetched.len() == 0 {
            if before.is_some() {
                self.history_exhausted.insert(string_from(conv_id), true);
                return FetchApplied::Empty { rebuild: false };
            }
            let existing_empty = match self.message_cache.get(conv_id) {
                Some(v) => v.len() == 0,
                None => true,
            };
            if existing_empty && self.messages.len() == 0 {
                self.message_cache.insert(string_from(conv_id), Vec::new());
                proof {
                    assert(msgs_view(Seq::<ChatMessage>::empty()) =~= Seq::<MessageView>::empty());
                    assert(self.message_cache.view_map().dom() =~= old_cache.dom().insert(conv_id@));
                }
                return FetchApplied::Empty { rebuild: true };
            }
            return FetchApplied::Empty { rebuild: false };
        }
        let merged_base = match self.message_cache.get(conv_id) {
            Some(v) => merge_messages_by_id(v.as_slice(), fetched),
            None => {
                let empty: Vec<ChatMessage> = Vec::new();
                proof {
                    assert(msgs_view(empty@) =~= Seq::<MessageView>::empty());
                }
                merge_messages_by_id(empty.as_slice(), fetched)
            },
        };
        let merged = merge_pending_messages(merged_base.as_slice(), pending, local_endpoint);
        remap_pending_attachment_previews(
            &mut self.previews,
            &mut self.preview_sizes,
            merged.as_slice(),
            pending,
        );
        self.message_cache.insert(string_from(conv_id), merged_base);
        proof {
            assert(self.message_cache.view_map().dom() =~= old_cache.dom().insert(conv_id@));
        }
        let current = match self.history_before.get(conv_id) {
            Some(c) => Some(*c),
            None => None,
        };
        match advance_history_before(current, fetched) {
            Some(cursor) => {
                self.history_before.insert(string_from(conv_id), cursor);
            },
            None => {},
        }
        if page_exhausts_history(fetched.len()) {
            self.history_exhausted.insert(string_from(conv_id), true);
        } else if before.is_none() {
            let _ = self.history_exhausted.remove(conv_id);
        }
        let visible = match &self.loaded_for {
            Some(l) => str_eq(l.as_str(), conv_id),
            None => false,
        };
        if visible {
            if !messages_snapshot_equal(self.messages.as_slice(), merged.as_slice()) {
                self.messages = merged;
                return FetchApplied::Merged { visible: true, rebuild: true };
            }
            return FetchApplied::Merged { visible: true, rebuild: false };
        }
        FetchApplied::Merged { visible: false, rebuild: false }
    }

    /// Applies a message pushed for `conv_id` while it is on screen: the
    /// base is the cached list (else the shown messages); a message whose id
    /// is already there is dropped; otherwise it is merged by id into the
    /// base, which becomes the cache, pending bubbles are merged on top,
    /// previews move to confirmed ids, and the bubbles change unless they
    /// show the same snapshot.
    pub fn apply_incoming_message(
        &mut self,
        message: ChatMessage,
        conv_id: &str,
        pending: &[PendingOutgoingMessage],
        local_endpoint: Option<&str>,
    ) -> (r: IncomingApplied)
        requires
            old(self).wf(),
        ensures
            final(self).wf(),
            final(self).fetch_generations == old(self).fetch_generations,
            final(self).next_fetch_seq == old(self).next_fetch_seq,
            final(self).loaded_for == old(self).loaded_for,
            final(self).loading_conv == old(self).loading_conv,
            final(self).loading_older_conv == old(self).loading_older_conv,
            final(self).fetch_error == old(self).fetch_error,
            final(self).history_before == old(self).history_before,
            final(self).history_exhausted == old(self).history_exhausted,
            ({
                let base = if old(self).message_cache.view_map().contains_key(conv_id@) {
                    cached(old(self).message_cache.view_map(), conv_id@)
                } else {
                    msgs_view(old(self).messages@)
                };
                let author = match local_endpoint {
                    Some(e) => e@,
                    None => Seq::<char>::empty(),
                };
                let merged_base = merge_by_id_spec(base, seq![message@]);
                let merged = merge_pending_spec(merged_base, pending_view(pending@), author);
                let unchanged = final(self).messages == old(self).messages && final(self).message_cache
                    == old(self).message_cache && final(self).previews == old(self).previews
                    && final(self).preview_sizes == old(self).preview_sizes;
                if opt_seq(old(self).loaded_for) != Some(conv_id@) {
                    r == IncomingApplied::Ignored && unchanged
                } else if has_id(base, message@.id) {
                    r == IncomingApplied::Duplicate && unchanged
                } else {
                    let rebuild = !snapshot_equal(msgs_view(old(self).messages@), merged);
                    &&& r == IncomingApplied::Merged { rebuild }
                    &&& final(self).message_cache.view_map().dom()
                        == old(self).message_cache.view_map().dom().insert(conv_id@)
                    &&& cached(final(self).message_cache.view_map(), conv_id@) == merged_base
                    &&& forall|k: Seq<char>|
                        k != conv_id@ ==> #[trigger] lookup(final(self).message_cache.view_map(), k)
                            == lookup(old(self).message_cache.view_map(), k)
                    &&& final(self).previews.view_map() == remap_all(
                        old(self).previews.view_map(),
                        merged,
                        pending_view(pending@),
                    )
                    &&& rebuild ==> msgs_view(final(self).messages@) == merged
                    &&& !rebuild ==> final(self).messages == old(self).messages
                }
            }),
    {
        let visible = match &self.loaded_for {
            Some(l) => str_eq(l.as_str(), conv_id),
            None => false,
        };
        if !visible {
            return IncomingApplied::Ignored;
        }
        let ghost old_cache = self.message_cache.view_map();
        let base = match self.message_cache.get(conv_id) {
            Some(v) => clone_messages(v.as_slice()),
            None => clone_messages(self.messages.as_slice()),
        };
        let ghost bspec = if old_cache.contains_key(conv_id@) {
            cached(old_cache, conv_id@)
        } else {
            msgs_view(self.messages@)
        };
        assert(msgs_view(base@) == bspec);
        if has_message_id(base.as_slice(), message.id.as_str()) {
            return IncomingApplied::Duplicate;
        }
        let ghost mv = message@;
        let one = vec![message];
        proof {
            assert(msgs_view(one@) =~= seq![mv]);
        }
        let merged_base = merge_messages_by_id(base.as_slice(), one.as_slice());
        let merged = merge_pending_messages(merged_base.as_slice(), pending, local_endpoint);
        remap_pending_attachment_previews(
            &mut self.previews,
            &mut self.preview_sizes,
            merged.as_slice(),
            pending,
        );
        self.message_cache.insert(string_from(conv_id), merged_base);
        proof {
            assert(self.message_cache.view_map().dom() =~= old_cache.dom().insert(conv_id@));
        }
        if !messages_snapshot_equal(self.messages.as_slice(), merged.as_slice()) {
            self.messages = merged;
            return IncomingApplied::Merged { rebuild: true };
        }
        IncomingApplied::Merged { rebuild: false }
    }
}

/// What a failed fetch does on screen.
#[derive(Debug, Clone, Copy, PartialEq, Eq, Structural)]
pub enum FetchFailed {
    /// The fetch was superseded or its conversation is not shown.
    Quiet,
    /// The hint bubble changes.
    Hint,
    /// Nothing was shown yet: the bubbles are cleared and the error shows.
    HintCleared,
}

/// The author that pending messages are shown under.
pub open spec fn author_of(local_endpoint: Option<&str>) -> Seq<char> {
    match local_endpoint {
        Some(e) => e@,
        None => Seq::<char>::empty(),
    }
}

impl ThreadState {
    /// The maps, the counter and the loaded conversation are those of `old`.
    pub open spec fn same_maps(&self, old: &Self) -> bool {
        &&& self.message_cache == old.message_cache
        &&& self.history_before == old.history_before
        &&& self.history_exhausted == old.history_exhausted
        &&& self.fetch_generations == old.fetch_generations
        &&& self.next_fetch_seq == old.next_fetch_seq
        &&& self.previews == old.previews
        &&& self.preview_sizes == old.preview_sizes
    }

    /// Starts a fetch of the latest page of `conv_id`: the error clears, the
    /// conversation shows as loading when nothing is cached for it, and the
    /// fetch is tagged with the next generation.
    pub fn begin_fetch(&mut self, conv_id: &str) -> (g: u64)
        requires
            old(self).wf(),
        ensures
            final(self).wf(),
            g == (if old(self).next_fetch_seq == u64::MAX { u64::MAX } else { (old(self).next_fetch_seq + 1) as u64 }),
            final(self).next_fetch_seq == g,
            final(self).fetch_generations.view_map() == old(self).fetch_generations.view_map().insert(conv_id@, g),
            final(self).fetch_error is None,
            cached(old(self).message_cache.view_map(), conv_id@).len() == 0 ==> opt_seq(final(self).loading_conv)
                == Some(conv_id@),
            cached(old(self).message_cache.view_map(), conv_id@).len() > 0 ==> final(self).loading_conv
                == old(self).loading_conv,
            final(self).messages == old(self).messages,
            final(self).message_cache == old(self).message_cache,
            final(self).history_before == old(self).history_before,
            final(self).history_exhausted == old(self).history_exhausted,
            final(self).loaded_for == old(self).loaded_for,
            final(self).loading_older_conv == old(self).loading_older_conv,
            final(self).previews == old(self).previews,
            final(self).preview_sizes == old(self).preview_sizes,
    {
        self.fetch_error = None;
        let empty = match self.message_cache.get(conv_id) {
            Some(v) => v.len() == 0,
            None => true,
        };
        if empty {
            self.loading_conv = Some(string_from(conv_id));
        }
        self.next_fetch_generation(conv_id)
    }

    /// Starts a fetch of older messages of `conv_id`, tagged with the next
    /// generation; none when the history is exhausted or such a fetch runs.
    pub fn begin_fetch_older(&mut self, conv_id: &str) -> (g: Option<u64>)
        requires
            old(self).wf(),
        ensures
            final(self).wf(),
            ({
                let exhausted = lookup(old(self).history_exhausted.view_map(), conv_id@) == Some(true);
                let running = opt_seq(old(self).loading_older_conv) == Some(conv_id@);
                if exhausted || running {
                    g is None && *final(self) == *old(self)
                } else {
                    let n = if old(self).next_fetch_seq == u64::MAX {
                        u64::MAX
                    } else {
                        (old(self).next_fetch_seq + 1) as u64
                    };
                    &&& g == Some(n)
                    &&& final(self).next_fetch_seq == n
                    &&& final(self).fetch_generations.view_map() == old(self).fetch_generations.view_map().insert(
                        conv_id@,
                        n,
                    )
                    &&& opt_seq(final(self).loading_older_conv) == Some(conv_id@)
                    &&& final(self).messages == old(self).messages
                    &&& final(self).message_cache == old(self).message_cache
                    &&& final(self).history_before == old(self).history_before
                    &&& final(self).history_exhausted == old(self).history_exhausted
                    &&& final(self).loaded_for == old(self).loaded_for
                    &&& final(self).loading_conv == old(self).loading_conv
                    &&& final(self).fetch_error == old(self).fetch_error
                    &&& final(self).previews == old(self).previews
                    &&& final(self).preview_sizes == old(self).preview_sizes
                }
            }),
    {
        let exhausted = match self.history_exhausted.get(conv_id) {
            Some(b) => *b,
            None => false,
        };
        let running = match &self.loading_older_conv {
            Some(c) => str_eq(c.as_str(), conv_id),
            None => false,
        };
        if exhausted || running {
            return None;
        }
        self.loading_older_conv = Some(string_from(conv_id));
        Some(self.next_fetch_generation(conv_id))
    }

    /// Applies the failure `err` of the fetch of `conv_id` tagged
    /// `generation` (`older` for a fetch of older messages). The matching
    /// loading marks clear whatever the generation; only a current fetch of
    /// the conversation on screen shows the error, and a failed latest page
    /// shows it only while no message is shown.
    pub fn apply_fetch_error(&mut self, conv_id: &str, generation: u64, older: bool, err: &str) -> (r: FetchFailed)
        requires
            old(self).wf(),
        ensures
            final(self).wf(),
            final(self).same_maps(&*old(self)),
            final(self).messages == old(self).messages,
            final(self).loaded_for == old(self).loaded_for,
            final(self).loading_older_conv is None,
            !older ==> final(self).loading_conv is None,
            older ==> final(self).loading_conv == old(self).loading_conv,
            ({
                let shown = old(self).generation_current(conv_id@, generation) && opt_seq(old(self).loaded_for)
                    == Some(conv_id@);
                if !shown {
                    r == FetchFailed::Quiet && final(self).fetch_error == old(self).fetch_error
                } else if older {
                    r == FetchFailed::Hint && opt_seq(final(self).fetch_error) == Some("无法加载更早消息: "@ + err@)
                } else if old(self).messages@.len() == 0 {
                    r == FetchFailed::HintCleared && opt_seq(final(self).fetch_error) == Some("无法加载消息: "@ + err@)
                } else {
                    r == FetchFailed::Hint && final(self).fetch_error == old(self).fetch_error
                }
            }),
    {
        let current = self.fetch_generation_matches(conv_id, generation);
        if !older {
            self.loading_conv = None;
        }
        self.loading_older_conv = None;
        let visible = match &self.loaded_for {
            Some(l) => str_eq(l.as_str(), conv_id),
            None => false,
        };
        if !(current && visible) {
            return FetchFailed::Quiet;
        }
        proof {
            reveal_strlit("无法加载更早消息: ");
            reveal_strlit("无法加载消息: ");
        }
        if older {
            let mut t = string_from("无法加载更早消息: ");
            crate::text::push_str(&mut t, err);
            self.fetch_error = Some(t);
            return FetchFailed::Hint;
        }
        if self.messages.len() == 0 {
            let mut t = string_from("无法加载消息: ");
            crate::text::push_str(&mut t, err);
            self.fetch_error = Some(t);
            return FetchFailed::HintCleared;
        }
        FetchFailed::Hint
    }

    /// The selected conversation became `current`: nothing happens when it
    /// is the loaded one. Otherwise it is loaded: the error clears; with a
    /// conversation, it shows as loading when nothing is cached, older
    /// fetches are forgotten, and the cached messages with the pending ones
    /// on top are shown unless they show the same snapshot; without one,
    /// nothing is shown. The result says whether the bubbles change.
    pub fn select_conversation(
        &mut self,
        current: Option<&str>,
        pending: &[PendingOutgoingMessage],
        local_endpoint: Option<&str>,
    ) -> (r: Option<bool>)
        requires
            old(self).wf(),
        ensures
            final(self).wf(),
            final(self).same_maps(&*old(self)),
            opt_ref_seq(current) == opt_seq(old(self).loaded_for) ==> r is None && *final(self) == *old(self),
            opt_ref_seq(current) != opt_seq(old(self).loaded_for) ==> {
                &&& opt_seq(final(self).loaded_for) == opt_ref_seq(current)
                &&& final(self).fetch_error is None
                &&& final(self).loading_older_conv is None
                &&& match current {
                    Some(c) => {
                        let base = cached(old(self).message_cache.view_map(), c@);
                        let merged = merge_pending_spec(base, pending_view(pending@), author_of(local_endpoint));
                        let rebuild = !snapshot_equal(msgs_view(old(self).messages@), merged);
                        &&& r == Some(rebuild)
                        &&& base.len() == 0 ==> opt_seq(final(self).loading_conv) == Some(c@)
                        &&& base.len() > 0 ==> final(self).loading_conv is None
                        &&& rebuild ==> msgs_view(final(self).messages@) == merged
                        &&& !rebuild ==> final(self).messages == old(self).messages
                    },
                    None => r == Some(true) && final(self).messages@.len() == 0 && final(self).loading_conv is None,
                }
            },
    {
        let same = match (current, &self.loaded_for) {
            (Some(c), Some(l)) => str_eq(c, l.as_str()),
            (None, None) => true,
            _ => false,
        };
        if same {
            return None;
        }
        self.fetch_error = None;
        self.loading_older_conv = None;
        match current {
            Some(c) => {
                self.loaded_for = Some(string_from(c));
                let base = match self.message_cache.get(c) {
                    Some(v) => clone_messages(v.as_slice()),
                    None => {
                        let e: Vec<ChatMessage> = Vec::new();
                        assert(msgs_view(e@) =~= Seq::<MessageView>::empty());
                        e
                    },
                };
                self.loading_conv = if base.len() > 0 {
                    None
                } else {
                    Some(string_from(c))
                };
                let merged = merge_pending_messages(base.as_slice(), pending, local_endpoint);
                if !messages_snapshot_equal(self.messages.as_slice(), merged.as_slice()) {
                    self.messages = merged;
                    return Some(true);
                }
                Some(false)
            },
            None => {
                self.loaded_for = None;
                self.messages = Vec::new();
                self.loading_conv = None;
                Some(true)
            },
        }
    }

    /// The history of `conv_id` was cleared: it is cached as empty, and its
    /// messages leave the screen when it is the loaded one (the result).
    pub fn history_cleared(&mut self, conv_id: &str) -> (visible: bool)
        requires
            old(self).wf(),
        ensures
            final(self).wf(),
            visible == (opt_seq(old(self).loaded_for) == Some(conv_id@)),
            final(self).message_cache.view_map().dom() == old(self).message_cache.view_map().dom().insert(conv_id@),
            cached(final(self).message_cache.view_map(), conv_id@).len() == 0,
            forall|k: Seq<char>|
                k != conv_id@ ==> #[trigger] lookup(final(self).message_cache.view_map(), k) == lookup(
                    old(self).message_cache.view_map(),
                    k,
                ),
            visible ==> final(self).messages@.len() == 0,
            !visible ==> final(self).messages == old(self).messages,
            final(self).loaded_for == old(self).loaded_for,
            final(self).loading_conv == old(self).loading_conv,
            final(self).loading_older_conv == old(self).loading_older_conv,
            final(self).fetch_error == old(self).fetch_error,
            final(self).history_before == old(self).history_before,
            final(self).history_exhausted == old(self).history_exhausted,
            final(self).fetch_generations == old(self).fetch_generations,
            final(self).next_fetch_seq == old(self).next_fetch_seq,
            final(self).previews == old(self).previews,
            final(self).preview_sizes == old(self).preview_sizes,
    {
        let ghost old_cache = self.message_cache.view_map();
        self.message_cache.insert(string_from(conv_id), Vec::new());
        proof {
            assert(msgs_view(Seq::<ChatMessage>::empty()) =~= Seq::<MessageView>::empty());
            assert(self.message_cache.view_map().dom() =~= old_cache.dom().insert(conv_id@));
        }
        let visible = match &self.loaded_for {
            Some(l) => str_eq(l.as_str(), conv_id),
            None => false,
        };
        if visible {
            self.messages = Vec::new();
        }
        visible
    }

    /// New pending messages of `conv_id`: the base is the cached list (else
    /// the shown messages), the pending ones are merged on top and previews
    /// move to confirmed ids; unless the snapshot is the same, the merge is
    /// shown and the base cached. The result says whether the bubbles change.
    pub fn sync_for_conv(
        &mut self,
        conv_id: &str,
        pending: &[PendingOutgoingMessage],
        local_endpoint: Option<&str>,
    ) -> (rebuild: bool)
        requires
            old(self).wf(),
        ensures
            final(self).wf(),
            ({
                let base = if old(self).message_cache.view_map().contains_key(conv_id@) {
                    cached(old(self).message_cache.view_map(), conv_id@)
                } else {
                    msgs_view(old(self).messages@)
                };
                let merged = merge_pending_spec(base, pending_view(pending@), author_of(local_endpoint));
                &&& rebuild == !snapshot_equal(msgs_view(old(self).messages@), merged)
                &&& final(self).previews.view_map() == remap_all(
                    old(self).previews.view_map(),
                    merged,
                    pending_view(pending@),
                )
                &&& rebuild ==> msgs_view(final(self).messages@) == merged
                    && final(self).message_cache.view_map().dom() == old(self).message_cache.view_map().dom().insert(
                    conv_id@,
                ) && cached(final(self).message_cache.view_map(), conv_id@) == base && forall|k: Seq<char>|
                    k != conv_id@ ==> #[trigger] lookup(final(self).message_cache.view_map(), k) == lookup(
                        old(self).message_cache.view_map(),
                        k,
                    )
                &&& !rebuild ==> final(self).messages == old(self).messages && final(self).message_cache
                    == old(self).message_cache
            }),
            final(self).loaded_for == old(self).loaded_for,
            final(self).loading_conv == old(self).loading_conv,
            final(self).loading_older_conv == old(self).loading_older_conv,
            final(self).fetch_error == old(self).fetch_error,
            final(self).history_before == old(self).history_before,
            final(self).history_exhausted == old(self).history_exhausted,
            final(self).fetch_generations == old(self).fetch_generations,
            final(self).next_fetch_seq == old(self).next_fetch_seq,
    {
        let ghost old_cache = self.message_cache.view_map();
        let base = match self.message_cache.get(conv_id) {
            Some(v) => clone_messages(v.as_slice()),
            None => clone_messages(self.messages.as_slice()),
        };
        let merged = merge_pending_messages(base.as_slice(), pending, local_endpoint);
        remap_pending_attachment_previews(
            &mut self.previews,
            &mut self.preview_sizes,
            merged.as_slice(),
            pending,
        );
        if messages_snapshot_equal(self.messages.as_slice(), merged.as_slice()) {
            return false;
        }
        self.messages = merged;
        self.message_cache.insert(string_from(conv_id), base);
        proof {
            assert(self.message_cache.view_map().dom() =~= old_cache.dom().insert(conv_id@));
        }
        true
    }
}

impl ThreadState {
    /// "Load earlier" was asked for: nothing while an older page loads,
    /// without a loaded conversation, or before a first page set the
    /// history cursor; else the older page before the cursor is fetched (see
    /// [`Self::begin_fetch_older`]), giving the conversation, the cursor and
    /// the fetch's generation.
    pub fn load_earlier(&mut self) -> (r: Option<(String, u64, u64)>)
        requires
            old(self).wf(),
        ensures
            final(self).wf(),
            ({
                let idle = old(self).loading_older_conv is None;
                let conv = opt_seq(old(self).loaded_for);
                let cursor = match conv {
                    Some(c) => lookup(old(self).history_before.view_map(), c),
                    None => None,
                };
                if !idle || conv is None || cursor is None {
                    r is None && *final(self) == *old(self)
                } else {
                    let c = conv->0;
                    let exhausted = lookup(old(self).history_exhausted.view_map(), c) == Some(true);
                    if exhausted {
                        r is None && *final(self) == *old(self)
                    } else {
                        let n = if old(self).next_fetch_seq == u64::MAX {
                            u64::MAX
                        } else {
                            (old(self).next_fetch_seq + 1) as u64
                        };
                        &&& r matches Some((rc, before, g)) && rc@ == c && before == cursor->0 && g == n
                        &&& final(self).next_fetch_seq == n
                        &&& final(self).fetch_generations.view_map() == old(self).fetch_generations.view_map().insert(c, n)
                        &&& opt_seq(final(self).loading_older_conv) == Some(c)
                        &&& final(self).messages == old(self).messages
                        &&& final(self).message_cache == old(self).message_cache
                        &&& final(self).history_before == old(self).history_before
                        &&& final(self).history_exhausted == old(self).history_exhausted
                        &&& final(self).loaded_for == old(self).loaded_for
                        &&& final(self).loading_conv == old(self).loading_conv
                        &&& final(self).fetch_error == old(self).fetch_error
                    }
                }
            }),
    {
        if self.loading_older_conv.is_some() {
            return None;
        }
        let conv = match &self.loaded_for {
            Some(c) => string_from(c.as_str()),
            None => return None,
        };
        let before = match self.history_before.get(conv.as_str()) {
            Some(b) => *b,
            None => return None,
        };
        match self.begin_fetch_older(conv.as_str()) {
            Some(g) => Some((conv, before, g)),
            None => None,
        }
    }
}

/// A borrowed optional string as characters.
pub open spec fn opt_ref_seq(o: Option<&str>) -> Option<Seq<char>> {
    match o {
        Some(s) => Some(s@),
        None => None,
    }
}

/// The attachments of the messages, message after message.
pub open spec fn all_attachments(ms: Seq<MessageView>) -> Seq<AttachmentView>
    decreases ms.len(),
{
    if ms.len() == 0 {
        Seq::empty()
    } else {
        all_attachments(ms.drop_last()) + ms.last().attachments
    }
}

/// An attachment whose preview must be decoded: an image with a local file,
/// not previewed yet, whose decoding has neither failed nor started.
pub open spec fn needs_decode(
    a: AttachmentView,
    previews: Map<Seq<char>, String>,
    errors: Map<Seq<char>, String>,
    inflight: Map<Seq<char>, bool>,
) -> bool {
    a.kind == "image"@ && a.local_path is Some && !previews.contains_key(a.id) && !errors.contains_key(a.id)
        && !inflight.contains_key(a.id)
}

/// The decodes started over `atts` in order, each as (attachment id, local
/// path), with the in-flight set after them: every attachment that needs
/// decoding is started and marked in flight, so a repeated id starts once.
pub open spec fn decodes_spec(
    atts: Seq<AttachmentView>,
    previews: Map<Seq<char>, String>,
    errors: Map<Seq<char>, String>,
    inflight: Map<Seq<char>, bool>,
) -> (Seq<(Seq<char>, Seq<char>)>, Map<Seq<char>, bool>)
    decreases atts.len(),
{
    if atts.len() == 0 {
        (Seq::empty(), inflight)
    } else {
        let (started, now) = decodes_spec(atts.drop_last(), previews, errors, inflight);
        let a = atts.last();
        if needs_decode(a, previews, errors, now) {
            (started.push((a.id, a.local_path->0)), now.insert(a.id, true))
        } else {
            (started, now)
        }
    }
}

/// The image previews to decode for the shown messages (see
/// [`decodes_spec`]); each one started is marked in `inflight`.
pub fn attachments_to_decode(
    messages: &[ChatMessage],
    previews: &AssetMap<String>,
    errors: &AssetMap<String>,
    inflight: &mut AssetMap<bool>,
) -> (r: Vec<(String, String)>)
    requires
        previews.wf(),
        errors.wf(),
        old(inflight).wf(),
    ensures
        final(inflight).wf(),
        ({
            let (started, now) = decodes_spec(
                all_attachments(msgs_view(messages@)),
                previews.view_map(),
                errors.view_map(),
                old(inflight).view_map(),
            );
            &&& r@.map_values(|p: (String, String)| (p.0@, p.1@)) == started
            &&& final(inflight).view_map() == now
        }),
{
    let ghost ms = msgs_view(messages@);
    let ghost init = inflight.view_map();
    let mut out: Vec<(String, String)> = Vec::new();
    let mut i: usize = 0;
    while i < messages.len()
        invariant
            i <= messages@.len(),
            ms == msgs_view(messages@),
            previews.wf(),
            errors.wf(),
            inflight.wf(),
            ({
                let (started, now) = decodes_spec(
                    all_attachments(ms.take(i as int)),
                    previews.view_map(),
                    errors.view_map(),
                    init,
                );
                out@.map_values(|p: (String, String)| (p.0@, p.1@)) == started && inflight.view_map() == now
            }),
        decreases messages@.len() - i,
    {
        let m = &messages[i];
        let ghost before = all_attachments(ms.take(i as int));
        let ghost av = ms[i as int].attachments;
        proof {
            let t = ms.take(i + 1);
            assert(t.drop_last() =~= ms.take(i as int));
            assert(t.last() == ms[i as int]);
            assert(av == atts_view(m.attachments@));
        }
        let mut j: usize = 0;
        while j < m.attachments.len()
            invariant
                i < messages@.len(),
                m == &messages[i as int],
                j <= m.attachments@.len(),
                av == atts_view(m.attachments@),
                previews.wf(),
                errors.wf(),
                inflight.wf(),
                ({
                    let (started, now) = decodes_spec(before + av.take(j as int), previews.view_map(), errors.view_map(), init);
                    out@.map_values(|p: (String, String)| (p.0@, p.1@)) == started && inflight.view_map() == now
                }),
            decreases m.attachments@.len() - j,
        {
            let a = &m.attachments[j];
            proof {
                let s = before + av.take(j + 1);
                assert(s.drop_last() =~= before + av.take(j as int));
                assert(s.last() == av[j as int]);
                assert(av[j as int] == a@);
                reveal_strlit("image");
            }
            let is_image = str_eq(a.kind.as_str(), "image");
            if is_image && a.local_path.is_some() && !previews.contains_key(a.id.as_str())
                && !errors.contains_key(a.id.as_str()) && !inflight.contains_key(a.id.as_str()) {
                let path = match &a.local_path {
                    Some(p) => string_from(p.as_str()),
                    None => String::new(),
                };
                let ghost prev_out = out@;
                let item = (string_from(a.id.as_str()), path);
                out.push(item);
                inflight.insert(string_from(a.id.as_str()), true);
                proof {
                    assert(out@ == prev_out.push(item));
                    assert(out@.map_values(|p: (String, String)| (p.0@, p.1@)) =~= prev_out.map_values(
                        |p: (String, String)| (p.0@, p.1@),
                    ).push((item.0@, item.1@)));
                }
            }
            j = j + 1;
        }
        proof {
            assert(av.take(j as int) =~= av);
            assert(all_attachments(ms.take(i + 1)) == before + av);
        }
        i = i + 1;
    }
    assert(ms.take(i as int) =~= ms);
    out
}

} // verus!
