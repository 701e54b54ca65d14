//! The conversations of the chat tabs: the messages of each tab, streamed content and
//! reasoning appended to an assistant message, the messages whose reasoning fold is turned
//! over, the pending jump to a message, and adding and removing tabs.
use vstd::prelude::*;
use crate::name_set::same_text;
use crate::text::concat_str;
use crate::transcript::{ChatMessage, MessageView, message_view, messages_view};

verus! {

/// The state of one chat tab: its messages, whether a reply is streaming, the scroll
/// offset, the message to jump to on the next draw, and the messages whose reasoning fold is
/// turned over from the default.
#[derive(Debug, Clone)]
pub struct ChatTabState {
    pub messages: Vec<ChatMessage>,
    pub streaming: bool,
    pub scroll_offset: usize,
    pub scroll_to_message: Option<usize>,
    pub thinking_fold_overrides: Vec<usize>,
}

/// The abstract form of a chat tab.
pub struct TabView {
    pub messages: Seq<MessageView>,
    pub streaming: bool,
    pub scroll_offset: usize,
    pub scroll_to_message: Option<usize>,
    pub folds: Set<usize>,
}

impl ChatTabState {
    /// The abstract form of the tab.
    pub open spec fn tab_view(&self) -> TabView {
        TabView {
            messages: messages_view(self.messages@),
            streaming: self.streaming,
            scroll_offset: self.scroll_offset,
            scroll_to_message: self.scroll_to_message,
            folds: self.thinking_fold_overrides@.to_set(),
        }
    }

    /// A tab with no messages.
    pub fn new() -> (r: ChatTabState)
        ensures
            r.tab_view() == fresh_tab(),
    {
        let r = ChatTabState {
            messages: Vec::new(),
            streaming: false,
            scroll_offset: 0,
            scroll_to_message: None,
            thinking_fold_overrides: Vec::new(),
        };
        proof {
            assert(r.tab_view().messages =~= Seq::<MessageView>::empty());
            assert(r.tab_view().folds =~= Set::<usize>::empty());
        }
        r
    }
}

/// A tab with no messages, not streaming, at the top, with no jump pending and no fold
/// turned over.
pub open spec fn fresh_tab() -> TabView {
    TabView { messages: Seq::empty(), streaming: false, scroll_offset: 0, scroll_to_message: None, folds: Set::empty() }
}

/// The chat tabs and which one is shown.
#[derive(Debug, Clone)]
pub struct ChatTabs {
    pub tabs: Vec<ChatTabState>,
    pub active_tab: usize,
}

/// The abstract form of the tabs.
pub open spec fn tabs_view(v: Seq<ChatTabState>) -> Seq<TabView> {
    v.map_values(|t: ChatTabState| t.tab_view())
}

/// `folds` with `idx` turned over: removed when in it, added otherwise.
pub open spec fn fold_toggled(folds: Set<usize>, idx: usize) -> Set<usize> {
    if folds.contains(idx) { folds.remove(idx) } else { folds.insert(idx) }
}

/// The tab after message `m` is added: it is also the message to jump to.
pub open spec fn message_added(t: TabView, m: MessageView) -> TabView {
    TabView { messages: t.messages.push(m), scroll_to_message: Some(t.messages.len() as usize), ..t }
}

/// Whether message `idx` of tab `t` is an assistant message that streamed text is appended
/// to.
pub open spec fn streams_into(t: TabView, idx: nat) -> bool {
    idx < t.messages.len() && t.messages[idx as int].role == "assistant"@
}

/// The tab after `piece` is appended to the content of message `idx`, which becomes the
/// message to jump to.
pub open spec fn content_appended(t: TabView, idx: usize, piece: Seq<char>) -> TabView {
    let m = t.messages[idx as int];
    TabView {
        messages: t.messages.update(idx as int, MessageView { content: m.content + piece, ..m }),
        scroll_to_message: Some(idx),
        ..t
    }
}

/// The tab after `piece` is appended to the reasoning of message `idx` (started when there
/// is none), which becomes the message to jump to.
pub open spec fn thinking_appended(t: TabView, idx: usize, piece: Seq<char>) -> TabView {
    let m = t.messages[idx as int];
    let before = match m.thinking { Some(s) => s, None => Seq::empty() };
    TabView {
        messages: t.messages.update(idx as int, MessageView { thinking: Some(before + piece), ..m }),
        scroll_to_message: Some(idx),
        ..t
    }
}

/// Whether the tabs are well formed: there is at least one and the shown one exists.
pub open spec fn tabs_wf(tabs: Seq<TabView>, active: usize) -> bool {
    tabs.len() >= 1 && active < tabs.len()
}

impl ChatTabState {
    fn push_message(&mut self, msg: ChatMessage)
        ensures
            final(self).tab_view() == message_added(old(self).tab_view(), message_view(msg)),
    {
        let ghost before = self.tab_view();
        let ghost mv = message_view(msg);
        self.messages.push(msg);
        self.scroll_to_message = Some(self.messages.len() - 1);
        proof {
            assert(self.tab_view().messages =~= before.messages.push(mv));
        }
    }

    fn append_content(&mut self, idx: usize, piece: &str) -> (appended: bool)
        ensures
            appended == streams_into(old(self).tab_view(), idx as nat),
            appended ==> final(self).tab_view() == content_appended(old(self).tab_view(), idx, piece@),
            !appended ==> final(self).tab_view() == old(self).tab_view(),
    {
        if idx < self.messages.len() && same_text(self.messages[idx].role.as_str(), "assistant") {
            let ghost before = self.tab_view();
            let mut content = String::new();
            std::mem::swap(&mut content, &mut self.messages[idx].content);
            self.messages[idx].content = concat_str(content, piece);
            self.scroll_to_message = Some(idx);
            proof {
                assert(self.tab_view().messages =~= content_appended(before, idx, piece@).messages);
            }
            true
        } else {
            false
        }
    }

    fn append_thinking(&mut self, idx: usize, piece: &str) -> (appended: bool)
        ensures
            appended == streams_into(old(self).tab_view(), idx as nat),
            appended ==> final(self).tab_view() == thinking_appended(old(self).tab_view(), idx, piece@),
            !appended ==> final(self).tab_view() == old(self).tab_view(),
    {
        if idx < self.messages.len() && same_text(self.messages[idx].role.as_str(), "assistant") {
            let ghost before = self.tab_view();
            let mut thinking: Option<String> = None;
            std::mem::swap(&mut thinking, &mut self.messages[idx].thinking_content);
            let started = match thinking {
                Some(s) => s,
                None => String::new(),
            };
            self.messages[idx].thinking_content = Some(concat_str(started, piece));
            self.scroll_to_message = Some(idx);
            proof {
                assert(self.tab_view().messages =~= thinking_appended(before, idx, piece@).messages);
            }
            true
        } else {
            false
        }
    }

    fn toggle_fold(&mut self, idx: usize)
        ensures
            final(self).tab_view() == (TabView {
                folds: fold_toggled(old(self).tab_view().folds, idx),
                scroll_to_message: Some(idx),
                ..old(self).tab_view()
            }),
    {
        let ghost before = self.thinking_fold_overrides@;
        let mut kept: Vec<usize> = Vec::new();
        let mut found = false;
        let mut i: usize = 0;
        while i < self.thinking_fold_overrides.len()
            invariant
                i <= self.thinking_fold_overrides.len(),
                self.thinking_fold_overrides@ == before,
                found == before.take(i as int).to_set().contains(idx),
                kept@.to_set() == before.take(i as int).to_set().remove(idx),
            decreases self.thinking_fold_overrides.len() - i,
        {
            let v = self.thinking_fold_overrides[i];
            proof {
                assert(before.take(i + 1) =~= before.take(i as int).push(v));
                before.take(i as int).lemma_push_to_set_commute(v);
            }
            if v == idx {
                found = true;
            } else {
                let ghost k0 = kept@;
                kept.push(v);
                proof {
                    k0.lemma_push_to_set_commute(v);
                }
            }
            proof {
                assert(kept@.to_set() =~= before.take(i + 1).to_set().remove(idx));
            }
            i = i + 1;
        }
        proof {
            assert(before.take(i as int) =~= before);
        }
        if !found {
            let ghost k0 = kept@;
            kept.push(idx);
            proof {
                k0.lemma_push_to_set_commute(idx);
                assert(kept@.to_set() =~= before.to_set().insert(idx));
            }
        }
        self.thinking_fold_overrides = kept;
        self.scroll_to_message = Some(idx);
        proof {
            assert(self.tab_view().folds =~= fold_toggled(before.to_set(), idx));
        }
    }
}

impl ChatTabs {
    /// One empty tab, shown.
    pub fn new() -> (r: ChatTabs)
        ensures
            tabs_view(r.tabs@) == seq![fresh_tab()],
            r.active_tab == 0,
    {
        let r = ChatTabs { tabs: vec![ChatTabState::new()], active_tab: 0 };
        proof {
            assert(tabs_view(r.tabs@) =~= seq![fresh_tab()]);
        }
        r
    }

    /// Adds an empty tab and shows it.
    pub fn add_tab(&mut self)
        ensures
            tabs_view(final(self).tabs@) == tabs_view(old(self).tabs@).push(fresh_tab()),
            final(self).active_tab == old(self).tabs@.len(),
    {
        let ghost before = tabs_view(self.tabs@);
        self.tabs.push(ChatTabState::new());
        self.active_tab = self.tabs.len() - 1;
        proof {
            assert(tabs_view(self.tabs@) =~= before.push(fresh_tab()));
        }
    }

    /// Removes tab `idx` unless it is the only one or does not exist; the shown tab moves to
    /// the last when it was past the end.
    pub fn remove_tab(&mut self, idx: usize)
        ensures
            old(self).tabs@.len() > 1 && idx < old(self).tabs@.len() ==> {
                &&& tabs_view(final(self).tabs@) == tabs_view(old(self).tabs@).remove(idx as int)
                &&& final(self).active_tab == (if old(self).active_tab >= old(self).tabs@.len() - 1 {
                    (old(self).tabs@.len() - 2) as usize
                } else {
                    old(self).active_tab
                })
            },
            !(old(self).tabs@.len() > 1 && idx < old(self).tabs@.len()) ==> tabs_view(final(self).tabs@) == tabs_view(old(self).tabs@)
                && final(self).active_tab == old(self).active_tab,
    {
        if self.tabs.len() > 1 && idx < self.tabs.len() {
            let ghost before = tabs_view(self.tabs@);
            self.tabs.remove(idx);
            if self.active_tab >= self.tabs.len() {
                self.active_tab = self.tabs.len() - 1;
            }
            proof {
                assert(tabs_view(self.tabs@) =~= before.remove(idx as int));
            }
        }
    }

    /// Adds `msg` to tab `tab_id`, when it exists, as its message to jump to.
    pub fn add_message(&mut self, tab_id: usize, msg: ChatMessage)
        ensures
            final(self).active_tab == old(self).active_tab,
            tabs_view(final(self).tabs@) == (if tab_id < old(self).tabs@.len() {
                tabs_view(old(self).tabs@).update(tab_id as int, message_added(old(self).tabs@[tab_id as int].tab_view(), message_view(msg)))
            } else {
                tabs_view(old(self).tabs@)
            }),
    {
        if tab_id < self.tabs.len() {
            let ghost before = tabs_view(self.tabs@);
            self.tabs[tab_id].push_message(msg);
            proof {
                assert(tabs_view(self.tabs@) =~= before.update(tab_id as int, self.tabs@[tab_id as int].tab_view()));
            }
        }
    }

    /// Appends streamed text to message `message_idx` of tab `tab_id` when that is an
    /// assistant message, and makes it the message to jump to; otherwise nothing changes.
    pub fn add_stream_content(&mut self, tab_id: usize, message_idx: usize, content: &str)
        ensures
            final(self).active_tab == old(self).active_tab,
            tabs_view(final(self).tabs@) == (if tab_id < old(self).tabs@.len() && streams_into(old(self).tabs@[tab_id as int].tab_view(), message_idx as nat) {
                tabs_view(old(self).tabs@).update(tab_id as int, content_appended(old(self).tabs@[tab_id as int].tab_view(), message_idx, content@))
            } else {
                tabs_view(old(self).tabs@)
            }),
    {
        if tab_id < self.tabs.len() {
            let ghost before = tabs_view(self.tabs@);
            self.tabs[tab_id].append_content(message_idx, content);
            proof {
                assert(tabs_view(self.tabs@) =~= before.update(tab_id as int, self.tabs@[tab_id as int].tab_view()));
            }
        }
    }

    /// Appends streamed reasoning to message `message_idx` of tab `tab_id` when that is an
    /// assistant message, and makes it the message to jump to; otherwise nothing changes.
    pub fn add_stream_thinking(&mut self, tab_id: usize, message_idx: usize, content: &str)
        ensures
            final(self).active_tab == old(self).active_tab,
            tabs_view(final(self).tabs@) == (if tab_id < old(self).tabs@.len() && streams_into(old(self).tabs@[tab_id as int].tab_view(), message_idx as nat) {
                tabs_view(old(self).tabs@).update(tab_id as int, thinking_appended(old(self).tabs@[tab_id as int].tab_view(), message_idx, content@))
            } else {
                tabs_view(old(self).tabs@)
            }),
    {
        if tab_id < self.tabs.len() {
            let ghost before = tabs_view(self.tabs@);
            self.tabs[tab_id].append_thinking(message_idx, content);
            proof {
                assert(tabs_view(self.tabs@) =~= before.update(tab_id as int, self.tabs@[tab_id as int].tab_view()));
            }
        }
    }

    /// Marks the stream of tab `tab_id` finished.
    pub fn finish_stream(&mut self, tab_id: usize)
        ensures
            final(self).active_tab == old(self).active_tab,
            tabs_view(final(self).tabs@) == (if tab_id < old(self).tabs@.len() {
                tabs_view(old(self).tabs@).update(tab_id as int, TabView { streaming: false, ..old(self).tabs@[tab_id as int].tab_view() })
            } else {
                tabs_view(old(self).tabs@)
            }),
    {
        if tab_id < self.tabs.len() {
            let ghost before = tabs_view(self.tabs@);
            self.tabs[tab_id].streaming = false;
            proof {
                assert(tabs_view(self.tabs@) =~= before.update(tab_id as int, self.tabs@[tab_id as int].tab_view()));
            }
        }
    }

    /// Turns over the reasoning fold of message `message_idx` in tab `tab_id` and makes it
    /// the message to jump to.
    pub fn toggle_thinking_fold(&mut self, tab_id: usize, message_idx: usize)
        ensures
            final(self).active_tab == old(self).active_tab,
            tabs_view(final(self).tabs@) == (if tab_id < old(self).tabs@.len() {
                tabs_view(old(self).tabs@).update(tab_id as int, TabView {
                    folds: fold_toggled(old(self).tabs@[tab_id as int].tab_view().folds, message_idx),
                    scroll_to_message: Some(message_idx),
                    ..old(self).tabs@[tab_id as int].tab_view()
                })
            } else {
                tabs_view(old(self).tabs@)
            }),
    {
        if tab_id < self.tabs.len() {
            let ghost before = tabs_view(self.tabs@);
            self.tabs[tab_id].toggle_fold(message_idx);
            proof {
                assert(tabs_view(self.tabs@) =~= before.update(tab_id as int, self.tabs@[tab_id as int].tab_view()));
            }
        }
    }
}

/// Turning a message's reasoning fold over twice leaves the folds as they were.
pub proof fn law_fold_toggled_twice(folds: Set<usize>, idx: usize)
    ensures
        fold_toggled(fold_toggled(folds, idx), idx) == folds,
{
    if folds.contains(idx) {
        assert(folds.remove(idx).insert(idx) =~= folds);
    } else {
        assert(folds.insert(idx).remove(idx) =~= folds);
    }
}

/// Adding and removing tabs keeps the tabs well formed: at least one tab, and the shown one
/// exists.
pub proof fn law_tabs_stay_well_formed(tabs: Seq<TabView>, active: usize, idx: usize)
    requires
        tabs_wf(tabs, active),
        tabs.len() < usize::MAX,
    ensures
        tabs_wf(tabs.push(fresh_tab()), tabs.len() as usize),
        tabs.len() > 1 && idx < tabs.len() ==> tabs_wf(
            tabs.remove(idx as int),
            if active >= tabs.len() - 1 { (tabs.len() - 2) as usize } else { active },
        ),
{
}

} // verus!
