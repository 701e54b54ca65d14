//! The provider lists behind the settings popup: adding, updating and removing providers,
//! the saved API keys, and where a provider's details are looked up.
use vstd::prelude::*;
use crate::settings::{EditableProvider, EditProvidersFocus, EditProvidersPopupState};
use crate::settings_popup::{SettingsPopup, ProviderEntry, EntryView, entries_view, pair_provider, pair_model};
use crate::name_order::{Named, sorted_by_name, sorted_by_key, sort_by_name, retain_other_names, lemma_sorted_map, named_other};
use crate::name_set::same_text;
use crate::text::{chars_of, string_from_chars, concat_str, trim, str_is_blank};

verus! {

/// The uppercase form of a string, as std's `str::to_uppercase` gives it.
pub uninterp spec fn unicode_uppercase(s: Seq<char>) -> Seq<char>;

/// Uppercases a string (std `str::to_uppercase`).
/// Trusted: the result is the Unicode uppercase mapping of `s`, which depends on `s` alone
/// and is named `unicode_uppercase`; the mapping itself is not stated.
#[verifier::external_body]
fn to_uppercase(s: &str) -> (r: String)
    ensures
        r@ == unicode_uppercase(s@),
{
    s.to_uppercase()
}

/// `s` with every space replaced by `_`.
pub open spec fn spaces_to_underscores(s: Seq<char>) -> Seq<char> {
    s.map_values(|c: char| if c == ' ' { '_' } else { c })
}

/// The environment variable a provider's key is read from: its name uppercased, spaces
/// turned into `_`, followed by `_API_KEY`.
pub open spec fn env_var_name(name: Seq<char>) -> Seq<char> {
    spaces_to_underscores(unicode_uppercase(name)) + "_API_KEY"@
}

/// The environment variable a provider's key is read from.
pub fn env_var_for_name(name: &str) -> (r: String)
    ensures
        r@ == env_var_name(name@),
{
    let up = to_uppercase(name);
    let cs = chars_of(up.as_str());
    let mut out: Vec<char> = Vec::new();
    let mut i: usize = 0;
    while i < cs.len()
        invariant
            i <= cs@.len(),
            out@ == spaces_to_underscores(cs@.take(i as int)),
        decreases cs@.len() - i,
    {
        let c = cs[i];
        out.push(if c == ' ' { '_' } else { c });
        proof {
            assert(cs@.take(i as int + 1) =~= cs@.take(i as int).push(c));
            assert(out@ =~= spaces_to_underscores(cs@.take(i as int + 1)));
        }
        i = i + 1;
    }
    proof {
        assert(cs@.take(cs@.len() as int) =~= cs@);
    }
    let s = string_from_chars(out.as_slice());
    concat_str(s, "_API_KEY")
}

/// The saved keys as text pairs.
pub open spec fn keys_view(v: Seq<(String, String)>) -> Seq<(Seq<char>, Seq<char>)> {
    v.map_values(|k: (String, String)| k@)
}

/// Sorts text pairs by their first part.
pub open spec fn sort_pairs(s: Seq<(Seq<char>, Seq<char>)>) -> Seq<(Seq<char>, Seq<char>)> {
    sorted_by_key(s, |p: (Seq<char>, Seq<char>)| p.0)
}

/// Sorts entries by name.
pub open spec fn sort_entries(s: Seq<EntryView>) -> Seq<EntryView> {
    sorted_by_key(s, |e: EntryView| e.0)
}

/// The saved keys without any for `name`.
pub open spec fn keys_without(keys: Seq<(Seq<char>, Seq<char>)>, name: Seq<char>) -> Seq<(Seq<char>, Seq<char>)> {
    keys.filter(pair_not_named(name))
}

/// The test that keeps pairs whose first part is not `name`.
pub open spec fn pair_not_named(name: Seq<char>) -> spec_fn((Seq<char>, Seq<char>)) -> bool {
    |p: (Seq<char>, Seq<char>)| p.0 != name
}

/// The test that keeps entries not named `name`.
pub open spec fn entry_not_named(name: Seq<char>) -> spec_fn(EntryView) -> bool {
    |e: EntryView| e.0 != name
}

/// The saved keys after saving `key` for `name`: the old keys for `name` go, and a
/// non-empty key is added, the list then being sorted by name.
pub open spec fn keys_set(keys: Seq<(Seq<char>, Seq<char>)>, name: Seq<char>, key: Seq<char>) -> Seq<(Seq<char>, Seq<char>)> {
    if key.len() == 0 {
        keys_without(keys, name)
    } else {
        sort_pairs(keys_without(keys, name).push((name, key)))
    }
}

/// Filtering and then viewing gives the same as viewing and then filtering by the same
/// test on the views.
pub proof fn lemma_filter_map<A, B>(s: Seq<A>, f: spec_fn(A) -> B, pa: spec_fn(A) -> bool, pb: spec_fn(B) -> bool)
    requires
        forall|a: A| #[trigger] pb(f(a)) == pa(a),
    ensures
        s.filter(pa).map_values(f) == s.map_values(f).filter(pb),
    decreases s.len(),
{
    reveal(Seq::filter);
    if s.len() > 0 {
        lemma_filter_map(s.drop_last(), f, pa, pb);
        assert(s.map_values(f).drop_last() =~= s.drop_last().map_values(f));
        assert(s.map_values(f).last() == f(s.last()));
        assert(pb(f(s.last())) == pa(s.last()));
        if pa(s.last()) {
            assert(s.drop_last().filter(pa).push(s.last()).map_values(f)
                =~= s.drop_last().filter(pa).map_values(f).push(f(s.last())));
        }
    } else {
        assert(s.map_values(f) =~= Seq::<B>::empty());
    }
}

proof fn lemma_keys_sorted(s: Seq<(String, String)>)
    ensures
        keys_view(sorted_by_name(s)) == sort_pairs(keys_view(s)),
{
    let f = |k: (String, String)| k@;
    let key = |p: (Seq<char>, Seq<char>)| p.0;
    assert forall|t: (String, String)| #[trigger] key(f(t)) == t.name_of() by {}
    lemma_sorted_map(s, f, key);
}

proof fn lemma_entries_sorted(s: Seq<ProviderEntry>)
    ensures
        entries_view(sorted_by_name(s)) == sort_entries(entries_view(s)),
{
    let f = |e: ProviderEntry| e@;
    let key = |e: EntryView| e.0;
    assert forall|t: ProviderEntry| #[trigger] key(f(t)) == t.name_of() by {}
    lemma_sorted_map(s, f, key);
}

proof fn lemma_keys_without(s: Seq<(String, String)>, name: Seq<char>)
    ensures
        keys_view(s.filter(named_other::<(String, String)>(name))) == keys_without(keys_view(s), name),
{
    let f = |k: (String, String)| k@;
    let pa = named_other::<(String, String)>(name);
    let pb = pair_not_named(name);
    assert forall|a: (String, String)| #[trigger] pb(f(a)) == pa(a) by {}
    lemma_filter_map(s, f, pa, pb);
    assert(s.map_values(f) =~= keys_view(s));
    assert(s.filter(pa).map_values(f) =~= keys_view(s.filter(pa)));
}

proof fn lemma_entries_without(s: Seq<ProviderEntry>, name: Seq<char>)
    ensures
        entries_view(s.filter(named_other::<ProviderEntry>(name))) == entries_view(s).filter(entry_not_named(name)),
{
    let f = |e: ProviderEntry| e@;
    let pa = named_other::<ProviderEntry>(name);
    let pb = entry_not_named(name);
    assert forall|a: ProviderEntry| #[trigger] pb(f(a)) == pa(a) by {}
    lemma_filter_map(s, f, pa, pb);
    assert(s.map_values(f) =~= entries_view(s));
    assert(s.filter(pa).map_values(f) =~= entries_view(s.filter(pa)));
}

/// Whether a string is empty.
fn text_is_empty(s: &str) -> (r: bool)
    ensures
        r == (s@.len() == 0),
{
    chars_of(s).len() == 0
}

/// A copy of a provider.
fn copy_provider(p: &EditableProvider) -> (r: EditableProvider)
    ensures
        r == *p,
{
    EditableProvider { name: p.name.clone(), endpoint: p.endpoint.clone(), backend_type: p.backend_type.clone() }
}

/// The position of the first element named `name`, or the length when there is none.
pub open spec fn first_named<T: Named>(s: Seq<T>, name: Seq<char>) -> nat
    decreases s.len(),
{
    if s.len() == 0 {
        0
    } else if s[0].name_of() == name {
        0
    } else {
        1 + first_named(s.drop_first(), name)
    }
}

proof fn lemma_first_named<T: Named>(s: Seq<T>, name: Seq<char>, i: int)
    requires
        0 <= i <= s.len(),
        forall|k: int| 0 <= k < i ==> #[trigger] s[k].name_of() != name,
        i == s.len() || s[i].name_of() == name,
    ensures
        first_named(s, name) == i,
    decreases i,
{
    if i > 0 {
        let t = s.drop_first();
        assert forall|k: int| 0 <= k < i - 1 implies #[trigger] t[k].name_of() != name by {
            assert(t[k] == s[k + 1]);
        }
        if i < s.len() {
            assert(t[i - 1] == s[i]);
        }
        lemma_first_named(t, name, i - 1);
    }
}

/// The position of the first element named `name`, or the length when there is none.
fn find_named<T: Named>(v: &Vec<T>, name: &str) -> (r: usize)
    ensures
        r == first_named(v@, name@),
        r <= v@.len(),
{
    let mut i: usize = 0;
    while i < v.len()
        invariant
            i <= v@.len(),
            forall|k: int| 0 <= k < i ==> #[trigger] v@[k].name_of() != name@,
        decreases v@.len() - i,
    {
        if same_text(v[i].name_str(), name) {
            proof {
                lemma_first_named(v@, name@, i as int);
            }
            return i;
        }
        i = i + 1;
    }
    proof {
        lemma_first_named(v@, name@, i as int);
    }
    i
}

/// The entry a provider is stored as: the provider's fields, its key variable, and `auth`.
pub open spec fn provider_entry(p: EditableProvider, auth: Seq<char>) -> EntryView {
    (p.name@, p.endpoint@, env_var_name(p.name@), p.backend_type@, auth)
}

/// The edit list's focus after the list shrank to `len` providers: none on an empty list,
/// otherwise the same column, its row kept within the list.
pub open spec fn clamped_focus(focus: Option<EditProvidersFocus>, len: nat) -> Option<EditProvidersFocus> {
    if len == 0 {
        None
    } else {
        let f = match focus { Some(f) => f, None => EditProvidersFocus::ProviderName(0) };
        Some(match f {
            EditProvidersFocus::ProviderName(i) => EditProvidersFocus::ProviderName(if i < len { i } else { (len - 1) as usize }),
            EditProvidersFocus::DeleteButton(i) => EditProvidersFocus::DeleteButton(if i < len { i } else { (len - 1) as usize }),
        })
    }
}

impl SettingsPopup {
    /// Saves `api_key` for `provider`: its old keys are dropped and a non-empty key is added,
    /// the keys then being sorted by provider name.
    pub fn set_saved_key(&mut self, provider: String, api_key: String)
        ensures
            *final(self) == (SettingsPopup { saved_keys: final(self).saved_keys, ..*old(self) }),
            keys_view(final(self).saved_keys@) == keys_set(keys_view(old(self).saved_keys@), provider@, api_key@),
    {
        let mut keys: Vec<(String, String)> = Vec::new();
        std::mem::swap(&mut keys, &mut self.saved_keys);
        let keys = keys_saved(keys, provider, api_key);
        self.saved_keys = keys;
    }

    /// Saves the key typed into the key popup and closes it.
    pub fn apply_preset_key_save(&mut self, provider_name: String, api_key: String)
        ensures
            *final(self) == (SettingsPopup { saved_keys: final(self).saved_keys, preset_key_popup: None, ..*old(self) }),
            keys_view(final(self).saved_keys@) == keys_set(keys_view(old(self).saved_keys@), provider_name@, api_key@),
    {
        self.set_saved_key(provider_name, api_key);
        self.preset_key_popup = None;
    }

    /// Adds a provider that the add form submitted: it joins the stored providers (with
    /// its key variable, authenticated by API key) and the providers tab's list, both kept
    /// sorted by name, its key is saved, and the add form closes.
    pub fn apply_add_provider(&mut self, provider: EditableProvider, api_key: String)
        ensures
            *final(self) == (SettingsPopup {
                db_providers: final(self).db_providers,
                providers_tab_list: final(self).providers_tab_list,
                saved_keys: final(self).saved_keys,
                add_provider_popup: None,
                ..*old(self)
            }),
            entries_view(final(self).db_providers@)
                == sort_entries(entries_view(old(self).db_providers@).push(provider_entry(provider, "api_key"@))),
            final(self).providers_tab_list@ == sorted_by_name(old(self).providers_tab_list@.push(provider)),
            keys_view(final(self).saved_keys@) == keys_set(keys_view(old(self).saved_keys@), provider.name@, api_key@),
    {
        let env_var = env_var_for_name(provider.name.as_str());
        let entry: ProviderEntry = (
            provider.name.clone(),
            provider.endpoint.clone(),
            env_var,
            provider.backend_type.clone(),
            String::from_str("api_key"),
        );
        let ghost db0 = self.db_providers@;
        self.db_providers.push(entry);
        self.providers_tab_list.push(copy_provider(&provider));
        sort_by_name(&mut self.providers_tab_list);
        let ghost pushed = self.db_providers@;
        sort_by_name(&mut self.db_providers);
        proof {
            lemma_entries_sorted(pushed);
            assert(entries_view(pushed) =~= entries_view(db0).push(provider_entry(provider, "api_key"@)));
        }
        self.set_saved_key(provider.name, api_key);
        self.add_provider_popup = None;
    }
}

impl SettingsPopup {
    /// Applies an edit the edit form submitted for the provider stored as `original_name`:
    /// its stored entry (keeping the authentication type) and its list row take the new
    /// fields, both lists are sorted again, its saved keys move to the new name, a default
    /// provider of the old name becomes the new one with no default model, and the edit form
    /// closes.
    pub fn apply_update_provider(&mut self, original_name: &str, provider: EditableProvider, api_key: String)
        ensures
            *final(self) == (SettingsPopup {
                db_providers: final(self).db_providers,
                providers_tab_list: final(self).providers_tab_list,
                saved_keys: final(self).saved_keys,
                default_provider: final(self).default_provider,
                default_model: final(self).default_model,
                edit_provider_popup: None,
                ..*old(self)
            }),
            ({
                let db0 = entries_view(old(self).db_providers@);
                let i = first_named(old(self).db_providers@, original_name@);
                entries_view(final(self).db_providers@) == sort_entries(
                    if i < db0.len() { db0.update(i as int, provider_entry(provider, db0[i as int].4)) } else { db0 })
            }),
            ({
                let list0 = old(self).providers_tab_list@;
                let j = first_named(list0, original_name@);
                final(self).providers_tab_list@ == sorted_by_name(if j < list0.len() { list0.update(j as int, provider) } else { list0 })
            }),
            keys_view(final(self).saved_keys@)
                == keys_set(keys_without(keys_view(old(self).saved_keys@), original_name@), provider.name@, api_key@),
            old(self).default_provider@ == original_name@ ==> final(self).default_provider == provider.name
                && final(self).default_model@.len() == 0,
            old(self).default_provider@ != original_name@ ==> final(self).default_provider == old(self).default_provider
                && final(self).default_model == old(self).default_model,
    {
        let mut db: Vec<ProviderEntry> = Vec::new();
        std::mem::swap(&mut db, &mut self.db_providers);
        let db = db_updated(db, original_name, &provider);
        let mut list: Vec<EditableProvider> = Vec::new();
        std::mem::swap(&mut list, &mut self.providers_tab_list);
        let list = list_updated(list, original_name, &provider);
        let mut keys: Vec<(String, String)> = Vec::new();
        std::mem::swap(&mut keys, &mut self.saved_keys);
        let ghost keys0 = keys@;
        retain_other_names(&mut keys, original_name);
        proof {
            lemma_keys_without(keys0, original_name@);
        }
        let keys = keys_saved(keys, provider.name.clone(), api_key);
        let is_default = same_text(self.default_provider.as_str(), original_name);
        let (dp, dm) = if is_default {
            (provider.name, String::new())
        } else {
            (self.default_provider.clone(), self.default_model.clone())
        };
        self.db_providers = db;
        self.providers_tab_list = list;
        self.saved_keys = keys;
        self.default_provider = dp;
        self.default_model = dm;
        self.edit_provider_popup = None;
    }

    /// Removes every provider named `name`: its stored entries, its list rows and its saved
    /// keys. A default provider of that name becomes the first remaining saved key's
    /// provider (or none) with no default model; the edit list's focus stays within the
    /// shorter list, and an edit form for that provider closes.
    pub fn remove_provider_by_name(&mut self, name: &str)
        ensures
            *final(self) == (SettingsPopup {
                db_providers: final(self).db_providers,
                providers_tab_list: final(self).providers_tab_list,
                saved_keys: final(self).saved_keys,
                default_provider: final(self).default_provider,
                default_model: final(self).default_model,
                edit_providers_popup: final(self).edit_providers_popup,
                edit_provider_popup: final(self).edit_provider_popup,
                ..*old(self)
            }),
            entries_view(final(self).db_providers@) == entries_view(old(self).db_providers@).filter(entry_not_named(name@)),
            final(self).providers_tab_list@ == old(self).providers_tab_list@.filter(named_other::<EditableProvider>(name@)),
            keys_view(final(self).saved_keys@) == keys_without(keys_view(old(self).saved_keys@), name@),
            old(self).default_provider@ == name@ ==> {
                &&& final(self).default_provider@ == (if final(self).saved_keys@.len() > 0 { final(self).saved_keys@[0].0@ } else { Seq::empty() })
                &&& final(self).default_model@.len() == 0
            },
            old(self).default_provider@ != name@ ==> final(self).default_provider == old(self).default_provider
                && final(self).default_model == old(self).default_model,
            final(self).edit_providers_popup == (match old(self).edit_providers_popup {
                Some(p) => Some(EditProvidersPopupState { focus: clamped_focus(p.focus, final(self).providers_tab_list@.len()) }),
                None => None,
            }),
            final(self).edit_provider_popup == (match old(self).edit_provider_popup {
                Some(f) => if (f.original_name matches Some(o) && o@ == name@) { None } else { Some(f) },
                None => None,
            }),
    {
        let ghost db0 = self.db_providers@;
        retain_other_names(&mut self.db_providers, name);
        proof {
            lemma_entries_without(db0, name@);
        }
        retain_other_names(&mut self.providers_tab_list, name);
        let ghost keys0 = self.saved_keys@;
        retain_other_names(&mut self.saved_keys, name);
        proof {
            lemma_keys_without(keys0, name@);
        }
        if same_text(self.default_provider.as_str(), name) {
            let first = if self.saved_keys.len() > 0 { self.saved_keys[0].0.clone() } else { String::new() };
            self.default_provider = first;
            self.default_model = String::new();
        }
        let len = self.providers_tab_list.len();
        let focus = match &self.edit_providers_popup {
            Some(popup) => Some(EditProvidersPopupState { focus: clamp_focus(popup.focus, len) }),
            None => None,
        };
        self.edit_providers_popup = focus;
        let close_form = match &self.edit_provider_popup {
            Some(form) => match &form.original_name {
                Some(o) => same_text(o.as_str(), name),
                None => false,
            },
            None => false,
        };
        if close_form {
            self.edit_provider_popup = None;
        }
    }

    /// The endpoint of the first stored provider named `provider_name`.
    pub fn provider_endpoint(&self, provider_name: &str) -> (r: Option<String>)
        ensures
            ({
                let i = first_named(self.db_providers@, provider_name@);
                &&& i >= self.db_providers@.len() ==> r is None
                &&& i < self.db_providers@.len() ==> (r matches Some(e) && e == self.db_providers@[i as int].1)
            }),
    {
        let i = find_named(&self.db_providers, provider_name);
        if i < self.db_providers.len() {
            Some(self.db_providers[i].1.clone())
        } else {
            None
        }
    }

    /// Whether a non-blank key is saved for `provider_name`.
    pub fn has_saved_key(&self, provider_name: &str) -> (r: bool)
        ensures
            r == exists|k: int| 0 <= k < self.saved_keys@.len() && #[trigger] self.saved_keys@[k].0@ == provider_name@
                && trim(self.saved_keys@[k].1@).len() > 0,
    {
        let mut i: usize = 0;
        while i < self.saved_keys.len()
            invariant
                i <= self.saved_keys@.len(),
                forall|k: int| 0 <= k < i ==> !(#[trigger] self.saved_keys@[k].0@ == provider_name@
                    && trim(self.saved_keys@[k].1@).len() > 0),
            decreases self.saved_keys@.len() - i,
        {
            if same_text(self.saved_keys[i].0.as_str(), provider_name) && !str_is_blank(self.saved_keys[i].1.as_str()) {
                return true;
            }
            i = i + 1;
        }
        false
    }

    /// The small model as a provider description: provider, endpoint, key variable and
    /// backend type of the first stored provider of that name (empty when there is none),
    /// the provider again and the model. `None` when the small model names no provider.
    pub fn small_model_tuple(&self) -> (r: Option<(String, String, String, String, String, String)>)
        ensures
            pair_provider(self.small_model@).len() == 0 ==> r is None,
            pair_provider(self.small_model@).len() > 0 ==> (r matches Some(t) && {
                let prov = pair_provider(self.small_model@);
                let i = first_named(self.db_providers@, prov);
                let found = i < self.db_providers@.len();
                &&& t.0@ == prov && t.4@ == prov
                &&& t.5@ == pair_model(self.small_model@)
                &&& t.1@ == (if found { self.db_providers@[i as int].1@ } else { Seq::empty() })
                &&& t.2@ == (if found { self.db_providers@[i as int].2@ } else { Seq::empty() })
                &&& t.3@ == (if found { self.db_providers@[i as int].3@ } else { Seq::empty() })
            }),
    {
        let prov = self.small_model_provider();
        let model = self.small_model_name();
        if text_is_empty(prov.as_str()) {
            return None;
        }
        let i = find_named(&self.db_providers, prov.as_str());
        let (endpoint, env_var, backend_type) = if i < self.db_providers.len() {
            (self.db_providers[i].1.clone(), self.db_providers[i].2.clone(), self.db_providers[i].3.clone())
        } else {
            (String::new(), String::new(), String::new())
        };
        Some((prov.clone(), endpoint, env_var, backend_type, prov, model))
    }
}

/// The edit list's focus after the list shrank to `len` providers.
fn clamp_focus(focus: Option<EditProvidersFocus>, len: usize) -> (r: Option<EditProvidersFocus>)
    ensures
        r == clamped_focus(focus, len as nat),
{
    if len == 0 {
        return None;
    }
    let f = match focus {
        Some(f) => f,
        None => EditProvidersFocus::ProviderName(0),
    };
    Some(match f {
        EditProvidersFocus::ProviderName(i) => EditProvidersFocus::ProviderName(if i < len { i } else { len - 1 }),
        EditProvidersFocus::DeleteButton(i) => EditProvidersFocus::DeleteButton(if i < len { i } else { len - 1 }),
    })
}

/// `keys` after saving `api_key` for `provider`: its old keys are dropped and a non-empty
/// key is added, the keys then being sorted by provider name.
fn keys_saved(keys: Vec<(String, String)>, provider: String, api_key: String) -> (r: Vec<(String, String)>)
    ensures
        keys_view(r@) == keys_set(keys_view(keys@), provider@, api_key@),
{
    let mut keys = keys;
    let ghost before = keys@;
    retain_other_names(&mut keys, provider.as_str());
    proof {
        lemma_keys_without(before, provider@);
    }
    if !text_is_empty(api_key.as_str()) {
        let ghost kept = keys@;
        keys.push((provider, api_key));
        proof {
            assert(keys_view(keys@) =~= keys_view(kept).push((provider@, api_key@)));
        }
        let ghost pushed = keys@;
        sort_by_name(&mut keys);
        proof {
            lemma_keys_sorted(pushed);
        }
    }
    keys
}

/// The stored providers after the first one named `original_name` took `provider`'s
/// fields (keeping its authentication type), sorted by name.
fn db_updated(db: Vec<ProviderEntry>, original_name: &str, provider: &EditableProvider) -> (r: Vec<ProviderEntry>)
    ensures
        ({
            let db0 = entries_view(db@);
            let i = first_named(db@, original_name@);
            entries_view(r@) == sort_entries(if i < db0.len() { db0.update(i as int, provider_entry(*provider, db0[i as int].4)) } else { db0 })
        }),
{
    let mut db = db;
    let ghost db0 = db@;
    let i = find_named(&db, original_name);
    if i < db.len() {
        let old_entry = db.remove(i);
        let entry: ProviderEntry = (
            provider.name.clone(),
            provider.endpoint.clone(),
            env_var_for_name(provider.name.as_str()),
            provider.backend_type.clone(),
            old_entry.4,
        );
        db.insert(i, entry);
        proof {
            assert(entries_view(db@) =~= entries_view(db0).update(i as int, provider_entry(*provider, entries_view(db0)[i as int].4)));
        }
    }
    let ghost db1 = db@;
    sort_by_name(&mut db);
    proof {
        lemma_entries_sorted(db1);
    }
    db
}

/// The providers tab's list after the first row named `original_name` became `provider`,
/// sorted by name.
fn list_updated(list: Vec<EditableProvider>, original_name: &str, provider: &EditableProvider) -> (r: Vec<EditableProvider>)
    ensures
        ({
            let j = first_named(list@, original_name@);
            r@ == sorted_by_name(if j < list@.len() { list@.update(j as int, *provider) } else { list@ })
        }),
{
    let mut list = list;
    let ghost list0 = list@;
    let j = find_named(&list, original_name);
    if j < list.len() {
        list.remove(j);
        list.insert(j, copy_provider(provider));
        proof {
            assert(list@ =~= list0.update(j as int, *provider));
        }
    }
    sort_by_name(&mut list);
    list
}

} // verus!

verus! {

/// The key looked up for `name` among text pairs: the first pair with that name, or empty.
pub open spec fn lookup_key(keys: Seq<(Seq<char>, Seq<char>)>, name: Seq<char>) -> Seq<char>
    decreases keys.len(),
{
    if keys.len() == 0 {
        Seq::empty()
    } else if keys[0].0 == name {
        keys[0].1
    } else {
        lookup_key(keys.drop_first(), name)
    }
}

proof fn lemma_lookup_unique(r: Seq<(Seq<char>, Seq<char>)>, name: Seq<char>, key: Seq<char>, w: int)
    requires
        0 <= w < r.len(),
        r[w].0 == name,
        forall|i: int| 0 <= i < r.len() && #[trigger] r[i].0 == name ==> r[i].1 == key,
    ensures
        lookup_key(r, name) == key,
    decreases r.len(),
{
    if r[0].0 != name {
        let t = r.drop_first();
        assert forall|i: int| 0 <= i < t.len() && #[trigger] t[i].0 == name implies t[i].1 == key by {
            assert(t[i] == r[i + 1]);
        }
        assert(t[w - 1] == r[w]);
        lemma_lookup_unique(t, name, key, w - 1);
    }
}

proof fn lemma_lookup_absent(r: Seq<(Seq<char>, Seq<char>)>, name: Seq<char>)
    requires
        forall|i: int| 0 <= i < r.len() ==> #[trigger] r[i].0 != name,
    ensures
        lookup_key(r, name) == Seq::<char>::empty(),
    decreases r.len(),
{
    if r.len() > 0 {
        let t = r.drop_first();
        assert forall|i: int| 0 <= i < t.len() implies #[trigger] t[i].0 != name by {
            assert(t[i] == r[i + 1]);
        }
        lemma_lookup_absent(t, name);
    }
}

proof fn lemma_keys_without_absent(keys: Seq<(Seq<char>, Seq<char>)>, name: Seq<char>)
    ensures
        forall|i: int| 0 <= i < keys_without(keys, name).len() ==> #[trigger] keys_without(keys, name)[i].0 != name,
{
    broadcast use vstd::seq_lib::group_filter_ensures;
    let f = keys_without(keys, name);
    assert forall|i: int| 0 <= i < f.len() implies #[trigger] f[i].0 != name by {
        assert(pair_not_named(name)(f[i]));
    }
}

/// Saving a key for a provider and then looking the provider up gives that key back; after
/// saving an empty key, nothing is found for it.
pub proof fn law_saved_key_reads_back(keys: Seq<(Seq<char>, Seq<char>)>, name: Seq<char>, key: Seq<char>)
    ensures
        lookup_key(keys_set(keys, name, key), name) == key,
{
    broadcast use vstd::seq_lib::group_to_multiset_ensures;
    let kept = keys_without(keys, name);
    lemma_keys_without_absent(keys, name);
    if key.len() == 0 {
        lemma_lookup_absent(kept, name);
        assert(key =~= Seq::<char>::empty());
    } else {
        let s = kept.push((name, key));
        let r = sort_pairs(s);
        let k = |p: (Seq<char>, Seq<char>)| p.0;
        crate::name_order::law_sorted_by_key_sorts(s, k);
        assert forall|i: int| 0 <= i < r.len() && #[trigger] r[i].0 == name implies r[i].1 == key by {
            assert(r.to_multiset().count(r[i]) > 0);
            assert(s.contains(r[i]));
            let j = choose|j: int| 0 <= j < s.len() && s[j] == r[i];
            if j < kept.len() {
                assert(s[j] == kept[j]);
            }
        }
        assert(s[s.len() - 1] == (name, key));
        assert(s.to_multiset().count((name, key)) > 0);
        assert(r.contains((name, key)));
        let w = choose|w: int| 0 <= w < r.len() && r[w] == (name, key);
        lemma_lookup_unique(r, name, key, w);
    }
}

/// After a provider is removed, none of its stored entries, list rows or saved keys is left.
pub proof fn law_removed_provider_is_gone(db: Seq<EntryView>, list: Seq<EditableProvider>, keys: Seq<(Seq<char>, Seq<char>)>, name: Seq<char>)
    ensures
        forall|i: int| 0 <= i < db.filter(entry_not_named(name)).len() ==> #[trigger] db.filter(entry_not_named(name))[i].0 != name,
        forall|i: int| 0 <= i < list.filter(named_other::<EditableProvider>(name)).len()
            ==> #[trigger] list.filter(named_other::<EditableProvider>(name))[i].name@ != name,
        forall|i: int| 0 <= i < keys_without(keys, name).len() ==> #[trigger] keys_without(keys, name)[i].0 != name,
{
    broadcast use vstd::seq_lib::group_filter_ensures;
    lemma_keys_without_absent(keys, name);
    let d = db.filter(entry_not_named(name));
    assert forall|i: int| 0 <= i < d.len() implies #[trigger] d[i].0 != name by {
        assert(entry_not_named(name)(d[i]));
    }
    let l = list.filter(named_other::<EditableProvider>(name));
    assert forall|i: int| 0 <= i < l.len() implies #[trigger] l[i].name@ != name by {
        assert(named_other::<EditableProvider>(name)(l[i]));
    }
}

/// An added provider is in the providers tab's list, which stays in name order.
pub proof fn law_added_provider_listed_in_order(list: Seq<EditableProvider>, provider: EditableProvider)
    ensures
        crate::name_order::names_sorted(sorted_by_name(list.push(provider))),
        sorted_by_name(list.push(provider)).contains(provider),
{
    broadcast use vstd::seq_lib::group_to_multiset_ensures;
    let s = list.push(provider);
    crate::name_order::law_sorted_by_name_sorts(s);
    assert(s[s.len() - 1] == provider);
    assert(s.to_multiset().count(provider) > 0);
}

/// Saved keys are kept in name order once a non-empty key is saved.
pub proof fn law_saved_keys_in_order(keys: Seq<(Seq<char>, Seq<char>)>, name: Seq<char>, key: Seq<char>)
    requires
        key.len() > 0,
    ensures
        crate::name_order::keys_in_order(keys_set(keys, name, key), |p: (Seq<char>, Seq<char>)| p.0),
{
    crate::name_order::law_sorted_by_key_sorts(keys_without(keys, name).push((name, key)), |p: (Seq<char>, Seq<char>)| p.0);
}

} // verus!
