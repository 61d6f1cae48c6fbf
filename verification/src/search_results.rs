//! Results of a search inside a chat thread: the hits found so far, which
//! one is current, paging through more hits, and which message to bring
//! into view.
//!
//! A search is tagged with a generation; a page is applied only while its
//! generation is the latest and its conversation is still the one shown.

use vstd::prelude::*;
use crate::messages::{ChatMessage, MessageView, msgs_view};
use crate::thread::{has_id, has_message_id};
use crate::text::{string_from, trim, trim_str};
use crate::sidebar::opt_ref;

verus! {

/// Hits asked for per page.
pub const SEARCH_PAGE_LIMIT: u32 = 50;

/// A page of hits, with the cursor of the next page and the number of hits
/// in all.
pub struct SearchPage<C> {
    pub messages: Vec<ChatMessage>,
    pub next_cursor: Option<C>,
    pub total: u64,
}

/// What starting a search asks of the caller.
#[derive(Debug, PartialEq, Eq)]
pub enum SearchRequest {
    /// Nothing to search for: the results were cleared.
    Cleared,
    /// Fetch a page with these parameters and hand it back tagged with
    /// `generation`. Without a query the hits come oldest first.
    Fetch {
        generation: u64,
        query: Option<String>,
        from_ms: Option<u64>,
        to_ms: Option<u64>,
        ascending: bool,
        limit: u32,
    },
}

/// What a step to the previous or next hit does.
#[derive(Debug, Clone, Copy, PartialEq, Eq, Structural)]
pub enum SearchNav {
    /// Nothing to move to.
    Stay,
    /// The hit at this index is now current.
    Show(usize),
    /// The hit is not loaded yet: fetch the next page (with the stored
    /// cursor) and make this index current.
    FetchMore(usize),
}

/// How to bring a message into view.
#[derive(Debug, PartialEq, Eq)]
pub enum JumpStep {
    /// Nothing to show.
    Nothing,
    /// The message is loaded: scroll to it.
    ScrollTo(String),
    /// Fetch the messages around this one first.
    FetchWindow(String),
}

/// Results of the thread search.
pub struct ThreadSearchResults<C> {
    pub hits: Vec<ChatMessage>,
    pub next_cursor: Option<C>,
    pub generation: u64,
    pub current: usize,
    pub total: u64,
    pub loading: bool,
    pub error: Option<String>,
}

/// There is nothing to search for: a blank query and no date bounds.
pub open spec fn blank_search(query: Seq<char>, from_ms: Option<u64>, to_ms: Option<u64>) -> bool {
    trim(query).len() == 0 && from_ms is None && to_ms is None
}

/// `base` followed by the hits of `page` whose id it does not hold yet, in
/// page order.
pub open spec fn append_new(base: Seq<MessageView>, page: Seq<MessageView>) -> Seq<MessageView>
    decreases page.len(),
{
    if page.len() == 0 {
        base
    } else {
        let b = append_new(base, page.drop_last());
        if has_id(b, page.last().id) {
            b
        } else {
            b.push(page.last())
        }
    }
}

/// No two hits share an id.
pub open spec fn ids_distinct(s: Seq<MessageView>) -> bool {
    forall|i: int, j: int| 0 <= i < j < s.len() ==> s[i].id != s[j].id
}

/// The index a step asks for: one back (not below the first), or one on
/// (not past the last of `total`).
pub open spec fn nav_desired(current: usize, total: u64, forward: bool) -> int {
    if forward {
        let up: int = if current == usize::MAX {
            current as int
        } else {
            current + 1
        };
        let last: int = if total == 0 {
            0
        } else {
            total - 1
        };
        if up <= last {
            up
        } else {
            last
        }
    } else if current == 0 {
        0
    } else {
        current - 1
    }
}

/// What a step does: nothing without hits; a loaded hit becomes current;
/// a hit not loaded yet is fetched when there is a next page.
pub open spec fn nav_spec(current: usize, total: u64, loaded: nat, has_more: bool, forward: bool) -> SearchNav {
    if total == 0 {
        SearchNav::Stay
    } else {
        let d = nav_desired(current, total, forward);
        if d >= loaded {
            if has_more {
                SearchNav::FetchMore(d as usize)
            } else {
                SearchNav::Stay
            }
        } else {
            SearchNav::Show(d as usize)
        }
    }
}

/// The current index after a page: the desired one, capped at the last hit.
pub open spec fn capped_current(desired: usize, total: u64) -> usize {
    let last: int = if total == 0 {
        0
    } else {
        total - 1
    };
    if desired <= last {
        desired
    } else {
        last as usize
    }
}

/// How to bring the message `id` into view: scroll when it is loaded,
/// else fetch around it when a conversation is shown.
pub open spec fn jump_spec(id: Seq<char>, loaded: Seq<MessageView>, conversation_shown: bool) -> Option<(bool, Seq<char>)> {
    if has_id(loaded, id) {
        Some((true, id))
    } else if conversation_shown {
        Some((false, id))
    } else {
        None
    }
}

/// The step's value: `None` for nothing, `(true, id)` to scroll, `(false,
/// id)` to fetch around `id`.
pub open spec fn jump_view(j: JumpStep) -> Option<(bool, Seq<char>)> {
    match j {
        JumpStep::Nothing => None,
        JumpStep::ScrollTo(id) => Some((true, id@)),
        JumpStep::FetchWindow(id) => Some((false, id@)),
    }
}

/// How to bring the message `id` into view (see [`jump_spec`]); used for a
/// search hit and for a message that another view asked to jump to.
pub fn jump_step(id: &str, messages: &[ChatMessage], loaded_for: Option<&str>) -> (r: JumpStep)
    ensures
        jump_view(r) == jump_spec(id@, msgs_view(messages@), loaded_for is Some),
{
    if has_message_id(messages, id) {
        JumpStep::ScrollTo(string_from(id))
    } else if loaded_for.is_some() {
        JumpStep::FetchWindow(string_from(id))
    } else {
        JumpStep::Nothing
    }
}

fn append_new_hits(hits: &mut Vec<ChatMessage>, page: Vec<ChatMessage>)
    ensures
        msgs_view(final(hits)@) == append_new(msgs_view(old(hits)@), msgs_view(page@)),
{
    let ghost base = msgs_view(hits@);
    let ghost pv = msgs_view(page@);
    let mut i: usize = 0;
    while i < page.len()
        invariant
            i <= page@.len(),
            pv == msgs_view(page@),
            msgs_view(hits@) == append_new(base, pv.take(i as int)),
        decreases page@.len() - i,
    {
        let m = page[i].duplicate();
        proof {
            let t = pv.take(i + 1);
            assert(t.drop_last() =~= pv.take(i as int));
            assert(t.last() == pv[i as int]);
            assert(pv[i as int] == m@);
        }
        if !has_message_id(hits.as_slice(), m.id.as_str()) {
            let ghost before = hits@;
            hits.push(m);
            proof {
                assert(hits@ == before.push(m));
                assert(msgs_view(hits@) =~= msgs_view(before).push(m@));
            }
        }
        i = i + 1;
    }
    assert(pv.take(i as int) =~= pv);
}

impl<C> ThreadSearchResults<C> {
    /// No hits, no search started.
    pub fn new() -> (r: Self)
        ensures
            r.hits@.len() == 0,
            r.next_cursor is None,
            r.generation == 0,
            r.current == 0,
            r.total == 0,
            !r.loading,
            r.error is None,
    {
        ThreadSearchResults {
            hits: Vec::new(),
            next_cursor: None,
            generation: 0,
            current: 0,
            total: 0,
            loading: false,
            error: None,
        }
    }

    /// Starts a search for `query` between the optional date bounds. Nothing
    /// to search for clears the results; otherwise the generation goes up
    /// by one (saturating), the search runs, and a non-blank query is
    /// searched for as typed.
    pub fn begin(&mut self, query: &str, from_ms: Option<u64>, to_ms: Option<u64>) -> (r: SearchRequest)
        ensures
            blank_search(query@, from_ms, to_ms) ==> (r == SearchRequest::Cleared && final(self).hits@.len() == 0
                && final(self).next_cursor is None && final(self).current == 0 && final(self).total == 0
                && !final(self).loading && final(self).error is None && final(self).generation
                == old(self).generation),
            !blank_search(query@, from_ms, to_ms) ==> ({
                let g = if old(self).generation == u64::MAX {
                    u64::MAX
                } else {
                    (old(self).generation + 1) as u64
                };
                &&& r matches SearchRequest::Fetch { generation, query: q, from_ms: f, to_ms: t, ascending, limit }
                &&& generation == g
                &&& (trim(query@).len() == 0 ==> q is None)
                &&& (trim(query@).len() > 0 ==> (q matches Some(s) && s@ == query@))
                &&& f == from_ms
                &&& t == to_ms
                &&& ascending == (trim(query@).len() == 0)
                &&& limit == SEARCH_PAGE_LIMIT
                &&& final(self).generation == g
                &&& final(self).loading
                &&& final(self).error is None
                &&& final(self).hits == old(self).hits
                &&& final(self).next_cursor == old(self).next_cursor
                &&& final(self).current == old(self).current
                &&& final(self).total == old(self).total
            }),
    {
        let trimmed = trim_str(query);
        let blank_query = trimmed.len() == 0;
        if blank_query && from_ms.is_none() && to_ms.is_none() {
            self.hits = Vec::new();
            self.next_cursor = None;
            self.current = 0;
            self.total = 0;
            self.loading = false;
            self.error = None;
            return SearchRequest::Cleared;
        }
        self.generation = self.generation.saturating_add(1);
        self.loading = true;
        self.error = None;
        SearchRequest::Fetch {
            generation: self.generation,
            query: if blank_query {
                None
            } else {
                Some(string_from(query))
            },
            from_ms,
            to_ms,
            ascending: blank_query,
            limit: SEARCH_PAGE_LIMIT,
        }
    }

    /// Applies the page of the search tagged `generation` for `conv_id`,
    /// while `loaded_for` is shown. `reset` replaces the hits; otherwise the
    /// hits not held yet are appended. The current hit becomes `desired`,
    /// capped at the last hit; the index to bring into view is returned. An
    /// error clears the count and is kept. A page of an older search or
    /// another conversation changes nothing.
    pub fn apply_page(
        &mut self,
        generation: u64,
        conv_id: &str,
        loaded_for: Option<&str>,
        reset: bool,
        desired: usize,
        page: Result<SearchPage<C>, String>,
    ) -> (target: Option<usize>)
        ensures
            ({
                let current = generation == old(self).generation && opt_ref(loaded_for) == Some(conv_id@);
                &&& !current ==> (target is None && final(self).hits == old(self).hits
                    && final(self).next_cursor == old(self).next_cursor && final(self).current == old(self).current
                    && final(self).total == old(self).total && final(self).loading == old(self).loading
                    && final(self).error == old(self).error)
                &&& current ==> match page {
                    Ok(p) => {
                        &&& msgs_view(final(self).hits@) == (if reset {
                            msgs_view(p.messages@)
                        } else {
                            append_new(msgs_view(old(self).hits@), msgs_view(p.messages@))
                        })
                        &&& final(self).next_cursor == p.next_cursor
                        &&& final(self).total == p.total
                        &&& final(self).current == capped_current(desired, p.total)
                        &&& !final(self).loading
                        &&& final(self).error is None
                        &&& target == Some(capped_current(desired, p.total))
                    },
                    Err(e) => {
                        &&& final(self).hits == old(self).hits
                        &&& final(self).next_cursor == old(self).next_cursor
                        &&& final(self).current == 0
                        &&& final(self).total == 0
                        &&& !final(self).loading
                        &&& final(self).error == Some(e)
                        &&& target is None
                    },
                }
            }),
            final(self).generation == old(self).generation,
    {
        let same_conv = match loaded_for {
            Some(l) => crate::text::str_eq(l, conv_id),
            None => false,
        };
        if generation != self.generation || !same_conv {
            return None;
        }
        match page {
            Ok(p) => {
                if reset {
                    self.hits = p.messages;
                } else {
                    append_new_hits(&mut self.hits, p.messages);
                }
                self.next_cursor = p.next_cursor;
                let last = p.total.saturating_sub(1);
                let current = if (desired as u64) <= last {
                    desired
                } else {
                    last as usize
                };
                self.current = current;
                self.total = p.total;
                self.loading = false;
                self.error = None;
                Some(current)
            },
            Err(e) => {
                self.loading = false;
                self.error = Some(e);
                self.current = 0;
                self.total = 0;
                None
            },
        }
    }

    /// A step to the previous (`forward` false) or next hit (see
    /// [`nav_spec`]); a loaded hit becomes current.
    pub fn navigate(&mut self, forward: bool) -> (r: SearchNav)
        ensures
            r == nav_spec(old(self).current, old(self).total, old(self).hits@.len(), old(self).next_cursor is Some, forward),
            final(self).current == (match r {
                SearchNav::Show(i) => i,
                _ => old(self).current,
            }),
            final(self).hits == old(self).hits,
            final(self).next_cursor == old(self).next_cursor,
            final(self).generation == old(self).generation,
            final(self).total == old(self).total,
            final(self).loading == old(self).loading,
            final(self).error == old(self).error,
    {
        if self.total == 0 {
            return SearchNav::Stay;
        }
        let last = self.total - 1;
        let desired: usize = if forward {
            let up = self.current.saturating_add(1);
            if (up as u64) <= last {
                up
            } else {
                last as usize
            }
        } else {
            self.current.saturating_sub(1)
        };
        if desired >= self.hits.len() {
            if self.next_cursor.is_some() {
                return SearchNav::FetchMore(desired);
            }
            return SearchNav::Stay;
        }
        self.current = desired;
        SearchNav::Show(desired)
    }

    /// How to bring the hit at `index` into view (see [`jump_spec`]);
    /// nothing when there is no such hit.
    pub fn target_step(&self, index: usize, messages: &[ChatMessage], loaded_for: Option<&str>) -> (r: JumpStep)
        ensures
            index >= self.hits@.len() ==> r is Nothing,
            index < self.hits@.len() ==> jump_view(r) == jump_spec(
                self.hits@[index as int].id@,
                msgs_view(messages@),
                loaded_for is Some,
            ),
    {
        if index >= self.hits.len() {
            return JumpStep::Nothing;
        }
        jump_step(self.hits[index].id.as_str(), messages, loaded_for)
    }

    /// Whether the messages fetched around `target_id` are still wanted: it
    /// is the current hit.
    pub fn window_still_wanted(&self, target_id: &str) -> (r: bool)
        ensures
            r == (self.current < self.hits@.len() && self.hits@[self.current as int].id@ == target_id@),
    {
        self.current < self.hits.len() && crate::text::str_eq(self.hits[self.current].id.as_str(), target_id)
    }
}

} // verus!
