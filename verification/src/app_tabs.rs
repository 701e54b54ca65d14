//! The row of application tabs: the chat tab, always first, followed by numbered
//! placeholder tabs.
use vstd::prelude::*;
use crate::text::{decimal_digits, push_decimal};

verus! {

/// Placeholder tabs are numbered from one up to this bound.
pub const MAX_PLACEHOLDER_TABS: u32 = 5;

/// One application tab.
#[derive(Debug, Clone, Copy, PartialEq, Eq, Structural)]
pub enum AppView {
    Chat,
    Placeholder { number: u32 },
}

impl AppView {
    /// Whether this is the chat tab.
    pub fn is_chat(self) -> (r: bool)
        ensures
            r == (self is Chat),
    {
        match self {
            AppView::Chat => true,
            AppView::Placeholder { .. } => false,
        }
    }

    /// The text shown on the tab: `Chat`, or `Tab ` followed by the placeholder number.
    pub open spec fn spec_title(self) -> Seq<char> {
        match self {
            AppView::Chat => "Chat"@,
            AppView::Placeholder { number } => "Tab "@ + decimal_digits(number as nat),
        }
    }

    /// The text shown on the tab.
    pub fn title(self) -> (r: String)
        ensures
            r@ == self.spec_title(),
    {
        match self {
            AppView::Chat => String::from_str("Chat"),
            AppView::Placeholder { number } => {
                let mut s = String::from_str("Tab ");
                push_decimal(&mut s, number as u64);
                s
            },
        }
    }
}

/// The abstract state of the tab row: the tabs in order and the index of the active one.
pub struct AppTabsView {
    pub tabs: Seq<AppView>,
    pub active: nat,
}

/// Whether the placeholder numbered `n` is already open.
pub open spec fn has_placeholder(tabs: Seq<AppView>, n: u32) -> bool {
    tabs.contains(AppView::Placeholder { number: n })
}

/// The smallest placeholder number in `from..=MAX_PLACEHOLDER_TABS` not yet open.
pub open spec fn first_free_from(tabs: Seq<AppView>, from: u32) -> Option<u32>
    decreases MAX_PLACEHOLDER_TABS + 1 - from,
{
    if from > MAX_PLACEHOLDER_TABS || from == 0 {
        None
    } else if !has_placeholder(tabs, from) {
        Some(from)
    } else {
        first_free_from(tabs, (from + 1) as u32)
    }
}

/// The number the next placeholder tab gets, if any is free.
pub open spec fn next_placeholder_number(tabs: Seq<AppView>) -> Option<u32> {
    first_free_from(tabs, 1)
}

/// A placeholder tab numbered within `1..=MAX_PLACEHOLDER_TABS`.
pub open spec fn is_numbered_placeholder(v: AppView) -> bool {
    match v {
        AppView::Placeholder { number } => 1 <= number <= MAX_PLACEHOLDER_TABS,
        AppView::Chat => false,
    }
}

/// A well-formed tab row: the chat tab first and only there, placeholders numbered
/// `1..=MAX_PLACEHOLDER_TABS` without repetition, and the active index in range.
pub open spec fn tabs_wf(v: AppTabsView) -> bool {
    &&& v.tabs.len() >= 1
    &&& v.tabs[0] == AppView::Chat
    &&& v.active < v.tabs.len()
    &&& forall|i: int| 1 <= i < v.tabs.len() ==> is_numbered_placeholder(#[trigger] v.tabs[i])
    &&& forall|i: int, j: int| 0 <= i < j < v.tabs.len() ==> v.tabs[i] != v.tabs[j]
}

/// The tab row after `select(index)`.
pub open spec fn select_spec(v: AppTabsView, index: nat) -> AppTabsView {
    if index < v.tabs.len() {
        AppTabsView { tabs: v.tabs, active: index }
    } else {
        v
    }
}

/// The tab row after `add_placeholder()`.
pub open spec fn add_placeholder_spec(v: AppTabsView) -> AppTabsView {
    match next_placeholder_number(v.tabs) {
        Some(n) => AppTabsView {
            tabs: v.tabs.push(AppView::Placeholder { number: n }),
            active: v.tabs.len(),
        },
        None => v,
    }
}

/// The tab row after `close(index)`.
pub open spec fn close_spec(v: AppTabsView, index: nat) -> AppTabsView {
    if index == 0 || index >= v.tabs.len() {
        v
    } else {
        let tabs = v.tabs.remove(index as int);
        let active = if v.active > index {
            (v.active - 1) as nat
        } else if v.active == index {
            if index <= tabs.len() - 1 { index } else { (tabs.len() - 1) as nat }
        } else {
            v.active
        };
        AppTabsView { tabs, active }
    }
}

/// Closing the chat tab, at index 0, leaves the row unchanged.
pub proof fn law_chat_tab_cannot_close(v: AppTabsView)
    ensures
        close_spec(v, 0) == v,
{
}

/// Opening a placeholder and then closing it again gives back the same tabs.
pub proof fn law_close_undoes_add(v: AppTabsView)
    requires
        tabs_wf(v),
        next_placeholder_number(v.tabs) is Some,
    ensures
        close_spec(add_placeholder_spec(v), v.tabs.len()).tabs == v.tabs,
{
    let w = add_placeholder_spec(v);
    assert(w.tabs.remove(v.tabs.len() as int) =~= v.tabs);
}

/// A new placeholder gets the smallest number not already open.
pub proof fn law_add_uses_smallest_free_number(v: AppTabsView)
    requires
        tabs_wf(v),
    ensures
        next_placeholder_number(v.tabs) matches Some(n) ==> add_placeholder_spec(v).tabs.last()
            == (AppView::Placeholder { number: n }) && !has_placeholder(v.tabs, n) && forall|k: u32|
            1 <= k < n ==> has_placeholder(v.tabs, k),
        next_placeholder_number(v.tabs) is None ==> add_placeholder_spec(v) == v && forall|k: u32|
            1 <= k <= MAX_PLACEHOLDER_TABS ==> has_placeholder(v.tabs, k),
{
    lemma_first_free_from(v.tabs, 1);
}

/// Closing a tab (other than the chat tab) removes exactly that tab: the tabs before it stay
/// where they were and those after it move up by one.
pub proof fn law_close_removes_that_tab(v: AppTabsView, index: nat)
    requires
        tabs_wf(v),
        0 < index < v.tabs.len(),
    ensures
        close_spec(v, index).tabs.len() == v.tabs.len() - 1,
        forall|i: int| 0 <= i < index ==> #[trigger] close_spec(v, index).tabs[i] == v.tabs[i],
        forall|i: int| index <= i < v.tabs.len() - 1 ==> #[trigger] close_spec(v, index).tabs[i] == v.tabs[i + 1],
        !close_spec(v, index).tabs.contains(v.tabs[index as int]),
        tabs_wf(close_spec(v, index)),
{
    let w = close_spec(v, index);
    if w.tabs.contains(v.tabs[index as int]) {
        let j = choose|j: int| 0 <= j < w.tabs.len() && w.tabs[j] == v.tabs[index as int];
        if j < index {
            assert(v.tabs[j] == v.tabs[index as int]);
        } else {
            assert(v.tabs[j + 1] == v.tabs[index as int]);
        }
    }
    assert forall|i: int| 1 <= i < w.tabs.len() implies is_numbered_placeholder(#[trigger] w.tabs[i]) by {
        if i < index { assert(w.tabs[i] == v.tabs[i]); } else { assert(w.tabs[i] == v.tabs[i + 1]); }
    }
    assert forall|i: int, j: int| 0 <= i < j < w.tabs.len() implies w.tabs[i] != w.tabs[j] by {
        let oi = if i < index { i } else { i + 1 };
        let oj = if j < index { j } else { j + 1 };
        assert(w.tabs[i] == v.tabs[oi]);
        assert(w.tabs[j] == v.tabs[oj]);
    }
}

/// Closing a tab other than the active one keeps the same tab active: the active tab after
/// the close is the tab that was active before.
pub proof fn law_close_keeps_active_tab(v: AppTabsView, index: nat)
    requires
        tabs_wf(v),
        index != v.active,
    ensures
        close_spec(v, index).active < close_spec(v, index).tabs.len(),
        close_spec(v, index).tabs[close_spec(v, index).active as int] == v.tabs[v.active as int],
{
}

/// Closing the active tab makes the tab that followed it active, or the tab before it when
/// it was the last one.
pub proof fn law_close_active_moves_to_neighbour(v: AppTabsView)
    requires
        tabs_wf(v),
        0 < v.active,
    ensures
        v.active + 1 < v.tabs.len() ==> close_spec(v, v.active).tabs[close_spec(v, v.active).active as int]
            == v.tabs[v.active as int + 1],
        v.active + 1 == v.tabs.len() ==> close_spec(v, v.active).tabs[close_spec(v, v.active).active as int]
            == v.tabs[v.active as int - 1],
{
}

/// Selecting an existing tab makes it active and keeps the tabs; any other index changes
/// nothing.
pub proof fn law_select_activates_that_tab(v: AppTabsView, index: nat)
    ensures
        select_spec(v, index).tabs == v.tabs,
        index < v.tabs.len() ==> select_spec(v, index).active == index,
        index >= v.tabs.len() ==> select_spec(v, index) == v,
{
}

/// Adding a placeholder keeps the open tabs in place, appends one new tab and makes it
/// active; when every number is taken nothing changes.
pub proof fn law_add_appends_and_activates(v: AppTabsView)
    requires
        tabs_wf(v),
    ensures
        next_placeholder_number(v.tabs) is Some ==> {
            let w = add_placeholder_spec(v);
            &&& w.tabs.len() == v.tabs.len() + 1
            &&& w.tabs.subrange(0, v.tabs.len() as int) == v.tabs
            &&& w.active == v.tabs.len()
            &&& !v.tabs.contains(w.tabs.last())
        },
{
    lemma_first_free_from(v.tabs, 1);
    if next_placeholder_number(v.tabs) is Some {
        let w = add_placeholder_spec(v);
        assert(w.tabs.subrange(0, v.tabs.len() as int) =~= v.tabs);
    }
}

/// The row of application tabs.
#[derive(Debug, PartialEq, Eq)]
pub struct AppTabs {
    tabs: Vec<AppView>,
    active: usize,
}

impl AppTabs {
    /// The row is always well-formed.
    #[verifier::type_invariant]
    closed spec fn inv(self) -> bool {
        tabs_wf(self@)
    }
}

impl View for AppTabs {
    type V = AppTabsView;

    closed spec fn view(&self) -> AppTabsView {
        AppTabsView { tabs: self.tabs@, active: self.active as nat }
    }
}

impl Clone for AppTabs {
    /// A copy of the same tab row.
    fn clone(&self) -> (r: Self)
        ensures
            r@ == self@,
    {
        proof { use_type_invariant(self); }
        AppTabs { tabs: self.tabs.clone(), active: self.active }
    }
}

impl Default for AppTabs {
    /// A row holding only the chat tab, which is active.
    fn default() -> (r: Self)
        ensures
            r@.tabs == seq![AppView::Chat],
            r@.active == 0,
            tabs_wf(r@),
    {
        AppTabs { tabs: vec![AppView::Chat], active: 0 }
    }
}

/// Below the first free number, every placeholder number is taken.
proof fn lemma_first_free_from(tabs: Seq<AppView>, from: u32)
    requires
        1 <= from,
    ensures
        first_free_from(tabs, from) matches Some(n) ==> from <= n <= MAX_PLACEHOLDER_TABS
            && !has_placeholder(tabs, n)
            && forall|k: u32| from <= k < n ==> has_placeholder(tabs, k),
        first_free_from(tabs, from) is None ==> forall|k: u32|
            from <= k <= MAX_PLACEHOLDER_TABS ==> has_placeholder(tabs, k),
    decreases MAX_PLACEHOLDER_TABS + 1 - from,
{
    if from <= MAX_PLACEHOLDER_TABS && has_placeholder(tabs, from) {
        lemma_first_free_from(tabs, (from + 1) as u32);
    }
}

impl AppTabs {
    /// The tabs, in order.
    pub fn views(&self) -> (r: &[AppView])
        ensures
            r@ == self@.tabs,
    {
        self.tabs.as_slice()
    }

    /// The index of the active tab.
    pub fn active_index(&self) -> (r: usize)
        ensures
            r == self@.active,
    {
        self.active
    }

    /// The active tab.
    pub fn active_view(&self) -> (r: AppView)
        ensures
            r == self@.tabs[self@.active as int],
    {
        proof { use_type_invariant(self); }
        self.tabs[self.active]
    }

    /// Makes the tab at `index` active; an index past the last tab is ignored.
    pub fn select(&mut self, index: usize)
        ensures
            final(self)@ == select_spec(old(self)@, index as nat),
            tabs_wf(final(self)@),
    {
        proof { use_type_invariant(&*self); }
        if index < self.tabs.len() {
            self.active = index;
        }
    }

    fn contains_placeholder(&self, n: u32) -> (r: bool)
        ensures
            r == has_placeholder(self@.tabs, n),
    {
        let mut i: usize = 0;
        while i < self.tabs.len()
            invariant
                0 <= i <= self.tabs.len(),
                forall|k: int| 0 <= k < i ==> self.tabs@[k] != (AppView::Placeholder { number: n }),
            decreases self.tabs.len() - i,
        {
            if self.tabs[i] == (AppView::Placeholder { number: n }) {
                assert(self.tabs@[i as int] == (AppView::Placeholder { number: n }));
                return true;
            }
            i = i + 1;
        }
        false
    }

    /// Opens a placeholder tab with the smallest free number and makes it active;
    /// when all numbers up to `MAX_PLACEHOLDER_TABS` are open, nothing changes.
    pub fn add_placeholder(&mut self)
        ensures
            final(self)@ == add_placeholder_spec(old(self)@),
            tabs_wf(final(self)@),
    {
        proof { use_type_invariant(&*self); }
        let ghost old_tabs = self.tabs@;
        let mut candidate: u32 = 1;
        let mut found: Option<u32> = None;
        while candidate <= MAX_PLACEHOLDER_TABS
            invariant
                1 <= candidate <= MAX_PLACEHOLDER_TABS + 1,
                self.tabs@ == old_tabs,
                first_free_from(old_tabs, 1) == (match found {
                    Some(n) => Some(n),
                    None => first_free_from(old_tabs, candidate),
                }),
                found is Some ==> candidate == MAX_PLACEHOLDER_TABS + 1,
            decreases MAX_PLACEHOLDER_TABS + 1 - candidate,
        {
            if !self.contains_placeholder(candidate) {
                found = Some(candidate);
                candidate = MAX_PLACEHOLDER_TABS + 1;
            } else {
                candidate = candidate + 1;
            }
        }
        proof {
            lemma_first_free_from(old_tabs, 1);
        }
        match found {
            Some(number) => {
                let view = AppView::Placeholder { number };
                let mut tabs = self.tabs.clone();
                tabs.push(view);
                let active = tabs.len() - 1;
                proof {
                    let t = tabs@;
                    assert forall|i: int, j: int| 0 <= i < j < t.len() implies t[i] != t[j] by {
                        if j == t.len() - 1 {
                            if t[i] == t[j] {
                                assert(old_tabs[i] == (AppView::Placeholder { number }));
                                assert(old_tabs.contains((AppView::Placeholder { number })));
                            }
                        }
                    }
                }
                *self = AppTabs { tabs, active };
            },
            None => {},
        }
    }

    /// Closes the tab at `index`. The chat tab (index 0) and indexes past the last tab
    /// are ignored. When the active tab closes, the tab now at its position (or the last
    /// tab) becomes active; an active tab after the closed one keeps being active.
    pub fn close(&mut self, index: usize)
        ensures
            final(self)@ == close_spec(old(self)@, index as nat),
            tabs_wf(final(self)@),
    {
        proof { use_type_invariant(&*self); }
        if index == 0 || index >= self.tabs.len() {
            return;
        }
        let ghost old_tabs = self.tabs@;
        let mut tabs = self.tabs.clone();
        tabs.remove(index);
        let mut active = self.active;
        if active > index {
            active = active - 1;
        } else if active == index {
            let last = tabs.len() - 1;
            active = if index <= last { index } else { last };
        }
        proof {
            let t = tabs@;
            assert(t == old_tabs.remove(index as int));
            assert forall|i: int| 1 <= i < t.len() implies is_numbered_placeholder(#[trigger] t[i]) by {
                if i < index {
                    assert(t[i] == old_tabs[i]);
                } else {
                    assert(t[i] == old_tabs[i + 1]);
                }
            }
            assert forall|i: int, j: int| 0 <= i < j < t.len() implies t[i] != t[j] by {
                let oi = if i < index { i } else { i + 1 };
                let oj = if j < index { j } else { j + 1 };
                assert(t[i] == old_tabs[oi]);
                assert(t[j] == old_tabs[oj]);
            }
        }
        *self = AppTabs { tabs, active };
    }
}

} // verus!
