//! The launcher's state and its decisions: what the typed text asks elephant for,
//! what each answer does to the list, which rows are shown and selected, what a
//! key or an activation does. The window itself only performs what these decide.
use vstd::prelude::*;

use crate::config::{views, Config};
use crate::elephant::{Event, Item, ItemModel, Kind};
use crate::providers::{
    action_label, action_label_spec, contains_str, describe, describe_spec, mode_provider,
    order_actions, order_actions_spec, parse_mode, parse_mode_spec, Mode, ModeModel,
};
use crate::text::{
    is_prefix_of, lowercase, occurs_in, owned, push_str, starts_with, str_eq, strip_prefix,
    to_lowercase, trim, trim_str,
};

verus! {

/// Options from the command line.
pub struct Options {
    /// Providers forced from the command line (they replace those of the settings).
    pub providers: Option<Vec<String>>,
    pub initial_query: String,
}

/// The query whose results are awaited: everything else is stale.
pub struct Expect {
    /// In single-provider mode, items must come from that provider.
    pub provider: Option<String>,
    pub query: String,
}

/// The launcher's state.
pub struct Session {
    pub config: Config,
    /// Active mode (`/bluetooth`): the prompt shows it, the entry holds only the
    /// query. Backspace on an empty entry leaves it.
    pub active_mode: Option<String>,
    /// Installed providers (they arrive later, from `elephant listproviders`).
    pub installed: Vec<String>,
    pub subscribed_menus: bool,
    /// Results of the current query (or the provider list in `/` mode).
    pub results: Vec<Item>,
    /// Provider-level actions of the current mode.
    pub provider_actions: Vec<Item>,
    /// Provider whose state we have (or have asked for).
    pub state_provider: Option<String>,
    /// Rows shown: results, then the provider actions that match.
    pub rows: Vec<Item>,
    /// qid of the answer in progress: when it changes, the results are emptied.
    pub qid: i32,
    pub expect: Option<Expect>,
    /// Text query of the current mode, to filter the provider actions.
    pub mode_query: String,
    pub providers_override: Option<Vec<String>>,
    pub rebuild_scheduled: bool,
    /// The user moved the selection: rebuilds keep it instead of going back to the
    /// first row. Reset when the text changes.
    pub user_moved: bool,
    pub query_busy: bool,
    pub activations_busy: u32,
}

/// `Session` over plain values.
#[verifier::ext_equal]
pub struct SessionModel {
    pub config: Config,
    pub active_mode: Option<Seq<char>>,
    pub installed: Seq<Seq<char>>,
    pub subscribed_menus: bool,
    pub results: Seq<ItemModel>,
    pub provider_actions: Seq<ItemModel>,
    pub state_provider: Option<Seq<char>>,
    pub rows: Seq<ItemModel>,
    pub qid: i32,
    /// The awaited query: its provider (if single) and its text.
    pub expect: Option<(Option<Seq<char>>, Seq<char>)>,
    pub mode_query: Seq<char>,
    pub providers_override: Option<Seq<Seq<char>>>,
    pub rebuild_scheduled: bool,
    pub user_moved: bool,
    pub query_busy: bool,
    pub activations_busy: u32,
}

impl View for Session {
    type V = SessionModel;

    open spec fn view(&self) -> SessionModel {
        SessionModel {
            config: self.config,
            active_mode: opt_view(self.active_mode),
            installed: views(self.installed@),
            subscribed_menus: self.subscribed_menus,
            results: item_views(self.results@),
            provider_actions: item_views(self.provider_actions@),
            state_provider: opt_view(self.state_provider),
            rows: item_views(self.rows@),
            qid: self.qid,
            expect: match self.expect {
                Some(e) => Some((opt_view(e.provider), e.query@)),
                None => None,
            },
            mode_query: self.mode_query@,
            providers_override: opt_views(self.providers_override),
            rebuild_scheduled: self.rebuild_scheduled,
            user_moved: self.user_moved,
            query_busy: self.query_busy,
            activations_busy: self.activations_busy,
        }
    }
}

/// Items over plain values.
pub open spec fn item_views(v: Seq<Item>) -> Seq<ItemModel> {
    v.map_values(|i: Item| i@)
}

/// An optional string over plain values.
pub open spec fn opt_view(o: Option<String>) -> Option<Seq<char>> {
    match o {
        Some(s) => Some(s@),
        None => None,
    }
}

/// A list of strings over plain values, if present.
pub open spec fn opt_views(o: Option<Vec<String>>) -> Option<Seq<Seq<char>>> {
    match o {
        Some(v) => Some(views(v@)),
        None => None,
    }
}

/// The row for an installed provider in the `/` list.
pub open spec fn provider_row(p: Seq<char>) -> ItemModel {
    ItemModel {
        identifier: p,
        text: describe_spec(p).0,
        subtext: "/"@ + p,
        icon: describe_spec(p).1,
        provider: p,
        fuzzyinfo: None,
        actions: Seq::empty(),
        kind: Kind::Provider,
    }
}

/// Whether a lower-cased filter selects a provider whose technical and readable
/// names, lower-cased, are `name` and `label`: it is empty or occurs in one of them.
pub open spec fn provider_matches_lowered_spec(filter: Seq<char>, name: Seq<char>, label: Seq<char>) -> bool {
    filter.len() == 0 || occurs_in(filter, name) || occurs_in(filter, label)
}

/// Whether the `/` list shows provider `p` for the lower-cased, trimmed `filter`:
/// the filter is empty or occurs in its technical or readable name.
pub open spec fn provider_matches(p: Seq<char>, filter: Seq<char>) -> bool {
    provider_matches_lowered_spec(filter, lowercase(p), lowercase(describe_spec(p).0))
}

/// Whether a lower-cased filter selects a provider, given its technical and readable
/// names already lower-cased.
pub fn provider_matches_lowered(filter: &str, name: &str, label: &str) -> (r: bool)
    ensures
        r == provider_matches_lowered_spec(filter@, name@, label@),
{
    filter.is_empty() || crate::text::contains(name, filter) || crate::text::contains(label, filter)
}

/// The rows of the `/` list, filtered by technical or readable name.
pub open spec fn provider_list_spec(installed: Seq<Seq<char>>, filter: Seq<char>) -> Seq<ItemModel> {
    let f = lowercase(trim(filter));
    installed.filter(|p: Seq<char>| provider_matches(p, f)).map_values(|p: Seq<char>| provider_row(p))
}

/// Rows of the `/` list, filtered by technical or readable name.
pub fn provider_list(installed: &[String], filter: &str) -> (r: Vec<Item>)
    ensures
        item_views(r@) == provider_list_spec(views(installed@), filter@),
{
    let f = to_lowercase(trim_str(filter));
    let ghost fv = lowercase(trim(filter@));
    let ghost pred = |p: Seq<char>| provider_matches(p, fv);
    let ghost row = |p: Seq<char>| provider_row(p);
    let mut r: Vec<Item> = Vec::new();
    let mut i: usize = 0;
    while i < installed.len()
        invariant
            i <= installed@.len(),
            f@ == fv,
            pred == (|p: Seq<char>| provider_matches(p, fv)),
            row == (|p: Seq<char>| provider_row(p)),
            item_views(r@) == views(installed@).take(i as int).filter(pred).map_values(row),
        decreases installed@.len() - i,
    {
        let p = installed[i].as_str();
        let (pretty, icon) = describe(p);
        let matches = provider_matches_lowered(
            f.as_str(),
            to_lowercase(p).as_str(),
            to_lowercase(pretty.as_str()).as_str(),
        );
        proof {
            assert(views(installed@).take(i + 1) == views(installed@).take(i as int).push(p@));
            crate::text::lemma_filter_push(views(installed@).take(i as int), pred, p@);
        }
        let ghost before = r@;
        if matches {
            let mut subtext = owned("/");
            push_str(&mut subtext, p);
            let item = Item {
                identifier: owned(p),
                text: pretty,
                subtext,
                icon: owned(icon),
                provider: owned(p),
                fuzzyinfo: None,
                actions: Vec::new(),
                kind: Kind::Provider,
            };
            assert(views(item.actions@) =~= Seq::empty());
            assert(item@ == provider_row(p@));
            r.push(item);
            assert(item_views(r@) =~= item_views(before).push(provider_row(p@)));
            assert(views(installed@).take(i as int).filter(pred).push(p@).map_values(row)
                =~= views(installed@).take(i as int).filter(pred).map_values(row).push(row(p@)));
        }
        i = i + 1;
    }
    assert(views(installed@).take(installed@.len() as int) == views(installed@));
    r
}

impl Session {
    /// The state when the window opens.
    pub fn new(config: Config, providers_override: Option<Vec<String>>) -> (r: Session)
        ensures
            r@ == (SessionModel {
                config,
                active_mode: None,
                installed: Seq::empty(),
                subscribed_menus: false,
                results: Seq::empty(),
                provider_actions: Seq::empty(),
                state_provider: None,
                rows: Seq::empty(),
                qid: -1i32,
                expect: None,
                mode_query: Seq::empty(),
                providers_override: opt_views(providers_override),
                rebuild_scheduled: false,
                user_moved: false,
                query_busy: false,
                activations_busy: 0,
            }),
    {
        let r = Session {
            config,
            active_mode: None,
            installed: Vec::new(),
            subscribed_menus: false,
            results: Vec::new(),
            provider_actions: Vec::new(),
            state_provider: None,
            rows: Vec::new(),
            qid: -1,
            expect: None,
            mode_query: String::new(),
            providers_override,
            rebuild_scheduled: false,
            user_moved: false,
            query_busy: false,
            activations_busy: 0,
        };
        assert(r@.installed =~= Seq::empty());
        assert(r@.results =~= Seq::empty());
        assert(r@.provider_actions =~= Seq::empty());
        assert(r@.rows =~= Seq::empty());
        r
    }

    /// The installed providers arrived. Returns whether to subscribe to menu
    /// notifications now (submenus open only through elephant's push notifications).
    pub fn providers_discovered(&mut self, installed: Vec<String>) -> (subscribe: bool)
        ensures
            subscribe == (!old(self).subscribed_menus && exists|i: int|
                0 <= i < installed@.len() && is_prefix_of("menus:"@, #[trigger] installed@[i]@)),
            final(self)@ == (SessionModel { installed: views(installed@), ..old(self)@ }),
    {
        let subscribe = !self.subscribed_menus && has_menus(installed.as_slice());
        self.installed = installed;
        subscribe
    }

    /// Enters a provider's mode: it counts as installed from now on.
    pub fn enter_mode(&mut self, provider: &str)
        ensures
            final(self)@ == entered(old(self)@, provider@),
    {
        if !contains_str(self.installed.as_slice(), provider) {
            let ghost before = self.installed@;
            self.installed.push(owned(provider));
            assert(views(self.installed@) =~= views(before).push(provider@));
        }
        self.active_mode = Some(owned(provider));
    }

    /// Reads the entry's text and decides what to ask elephant for.
    #[verifier::spinoff_prover]
    #[verifier::rlimit(30)]
    pub fn refresh(&mut self, text: &str) -> (r: Refresh)
        ensures
            (final(self)@, r@) == refresh_spec(old(self)@, text@),
    {
        let active: Option<&str> = match &self.active_mode {
            Some(a) => Some(a.as_str()),
            None => None,
        };
        let mode = parse_mode(text, active, &self.config, self.installed.as_slice());
        self.user_moved = false;
        let ghost s0 = self@;
        if let Mode::Enter { provider, query } = mode {
            return Refresh::Enter { provider, query: owned(query) };
        }
        let provider: Option<String> = match mode.provider() {
            Some(p) => Some(owned(p)),
            None => None,
        };
        let state_request: Option<String> = match provider {
            None => {
                self.provider_actions = Vec::new();
                self.state_provider = None;
                None
            },
            Some(p) => {
                let same = match &self.state_provider {
                    Some(q) => str_eq(q.as_str(), p.as_str()),
                    None => false,
                };
                if same {
                    None
                } else {
                    self.provider_actions = Vec::new();
                    self.state_provider = Some(owned(p.as_str()));
                    Some(p)
                }
            },
        };
        assert(self@.provider_actions =~= s0.provider_actions || self@.provider_actions =~= Seq::<ItemModel>::empty());
        let query: Option<QueryRequest> = match mode {
            Mode::ProviderList { filter } => {
                self.expect = None;
                self.query_busy = false;
                self.qid = -1;
                self.mode_query = String::new();
                self.results = provider_list(self.installed.as_slice(), filter);
                None
            },
            Mode::Single { provider, query } => {
                let mut providers: Vec<String> = Vec::new();
                providers.push(owned(provider.as_str()));
                self.expect = Some(Expect { provider: Some(provider), query: owned(query) });
                self.mode_query = owned(query);
                self.query_busy = true;
                assert(views(providers@) =~= seq![self@.state_provider->0]);
                Some(QueryRequest { providers: Some(providers), query: owned(query) })
            },
            Mode::Default { query } => {
                let providers = clone_opt_strings(&self.providers_override);
                self.expect = Some(Expect { provider: None, query: owned(query) });
                self.mode_query = owned(query);
                self.query_busy = true;
                Some(QueryRequest { providers, query: owned(query) })
            },
            Mode::Enter { .. } => None,
        };
        let (prompt, placeholder) = prompt(&self.state_provider, &self.active_mode);
        assert(self@ =~= refresh_spec(old(self)@, text@).0);
        Refresh::Show { state_request, query, prompt, placeholder }
    }

    /// Applies an event from elephant.
    #[verifier::spinoff_prover]
    #[verifier::rlimit(30)]
    pub fn handle_event(&mut self, event: Event) -> (r: Outcome)
        ensures
            (final(self)@, r@) == event_spec(old(self)@, event),
    {
        let ghost ev = event;
        match event {
            Event::Item { qid, query, item } => {
                let matches = match &self.expect {
                    None => false,
                    Some(expect) => str_eq(query.as_str(), expect.query.as_str()) && match &expect.provider {
                        Some(p) => str_eq(p.as_str(), item.provider.as_str()),
                        None => true,
                    },
                };
                if !matches {
                    return Outcome::Nothing;
                }
                if qid != self.qid {
                    self.qid = qid;
                    self.results = Vec::new();
                }
                let ghost before = self.results@;
                self.results.push(item);
                assert(item_views(self.results@) =~= item_views(before).push(item@));
                Outcome::Rebuild
            },
            Event::Update { item } => {
                let n = self.results.len();
                let mut j: usize = 0;
                let ghost rs = self@.results;
                while j < n
                    invariant
                        n == self.results@.len(),
                        rs == item_views(self.results@),
                        j <= n,
                        forall|k: int|
                            0 <= k < j ==> !(rs[k].identifier == item@.identifier && rs[k].provider
                                == item@.provider),
                    ensures
                        j <= n,
                        forall|k: int|
                            0 <= k < j ==> !(rs[k].identifier == item@.identifier && rs[k].provider
                                == item@.provider),
                        j < n ==> rs[j as int].identifier == item@.identifier && rs[j as int].provider
                            == item@.provider,
                    decreases n - j,
                {
                    let it = &self.results[j];
                    assert(rs[j as int] == it@);
                    if str_eq(it.identifier.as_str(), item.identifier.as_str()) && str_eq(
                        it.provider.as_str(),
                        item.provider.as_str(),
                    ) {
                        break;
                    }
                    j = j + 1;
                }
                proof {
                    lemma_first_same_item_at(rs, item@.identifier, item@.provider, j as int);
                }
                if j == n {
                    return Outcome::Nothing;
                }
                self.results.remove(j);
                self.results.insert(j, item);
                assert(item_views(self.results@) =~= rs.update(j as int, item@));
                Outcome::Rebuild
            },
            Event::State { provider, actions } => {
                let same = match &self.state_provider {
                    Some(p) => str_eq(p.as_str(), provider.as_str()),
                    None => false,
                };
                if !same {
                    return Outcome::Nothing;
                }
                self.provider_actions = action_rows(provider.as_str(), actions.as_slice());
                Outcome::Rebuild
            },
            Event::Subscription(value) => {
                proof {
                    reveal_strlit("menus:");
                }
                match strip_prefix(value.as_str(), "menus:") {
                    Some(m) => {
                        if m.is_empty() {
                            return Outcome::Nothing;
                        }
                        self.enter_mode(value.as_str());
                        Outcome::ClearEntry
                    },
                    None => Outcome::Nothing,
                }
            },
            Event::NoResults => {
                if self.expect.is_none() {
                    return Outcome::Nothing;
                }
                self.results = Vec::new();
                self.qid = -1;
                self.query_busy = false;
                assert(item_views(self.results@) =~= Seq::empty());
                Outcome::SpinnerAndRebuild
            },
            Event::Done => {
                self.query_busy = false;
                Outcome::Spinner
            },
            Event::Disconnected(e) => Outcome::Close(e),
        }
    }

    /// Rebuilds the rows once a burst of events is over; `selected` is the row
    /// selected in the list. Returns the row to select.
    #[verifier::spinoff_prover]
    pub fn rebuild(&mut self, selected: Option<usize>) -> (r: usize)
        ensures
            final(self)@ == (SessionModel {
                rebuild_scheduled: false,
                rows: rows_spec(old(self)@),
                ..old(self)@
            }),
            r == rebuild_index(old(self)@, selected),
    {
        self.rebuild_scheduled = false;
        let ghost s = self@;
        let key: Option<Item> = match selected {
            Some(i) => if self.user_moved && i < self.rows.len() {
                Some(self.rows[i].clone())
            } else {
                None
            },
            None => None,
        };
        let needle = to_lowercase(trim_str(self.mode_query.as_str()));
        let ghost nv = lowercase(trim(self.mode_query@));
        let ghost pred = |a: ItemModel| action_shown(a, nv);
        let mut rows: Vec<Item> = Vec::new();
        let mut i: usize = 0;
        while i < self.results.len()
            invariant
                i <= self.results@.len(),
                item_views(rows@) == item_views(self.results@).take(i as int),
            decreases self.results@.len() - i,
        {
            let ghost before = rows@;
            rows.push(self.results[i].clone());
            assert(item_views(rows@) =~= item_views(before).push(self.results@[i as int]@));
            assert(item_views(self.results@).take(i + 1) =~= item_views(self.results@).take(i as int).push(
                self.results@[i as int]@,
            ));
            i = i + 1;
        }
        assert(item_views(self.results@).take(i as int) == item_views(self.results@));
        let mut k: usize = 0;
        while k < self.provider_actions.len()
            invariant
                k <= self.provider_actions@.len(),
                needle@ == nv,
                pred == (|a: ItemModel| action_shown(a, nv)),
                item_views(rows@) == item_views(self.results@) + item_views(self.provider_actions@).take(
                    k as int,
                ).filter(pred),
            decreases self.provider_actions@.len() - k,
        {
            let a = &self.provider_actions[k];
            let shown = action_matches_lowered(needle.as_str(), to_lowercase(a.text.as_str()).as_str());
            proof {
                let t = item_views(self.provider_actions@);
                assert(t.take(k + 1) == t.take(k as int).push(a@));
                crate::text::lemma_filter_push(t.take(k as int), pred, a@);
            }
            if shown {
                let ghost before = rows@;
                rows.push(a.clone());
                assert(item_views(rows@) =~= item_views(before).push(a@));
            }
            k = k + 1;
        }
        assert(item_views(self.provider_actions@).take(k as int) == item_views(self.provider_actions@));
        assert(item_views(rows@) == rows_spec(s));
        let mut index: usize = 0;
        match &key {
            Some(key_item) => {
                let n = rows.len();
                let mut j: usize = 0;
                while j < n
                    invariant
                        n == rows@.len(),
                        j <= n,
                        forall|m: int| 0 <= m < j ==> row_key(item_views(rows@)[m]) != row_key(key_item@),
                    ensures
                        j <= n,
                        forall|m: int| 0 <= m < j ==> row_key(item_views(rows@)[m]) != row_key(key_item@),
                        j < n ==> row_key(item_views(rows@)[j as int]) == row_key(key_item@),
                    decreases n - j,
                {
                    if same_key(&rows[j], key_item) {
                        break;
                    }
                    j = j + 1;
                }
                proof {
                    lemma_first_with_key_at(item_views(rows@), row_key(key_item@), j as int);
                }
                if j < n {
                    index = j;
                }
            },
            None => {},
        }
        self.rows = rows;
        index
    }

    /// Moves the selection by `delta` rows, wrapping around; `current` is the
    /// selected row. Returns the row to select, or `None` when the list is empty.
    pub fn move_selection(&mut self, current: Option<usize>, delta: i32) -> (r: Option<usize>)
        requires
            old(self).rows@.len() <= i32::MAX,
            current matches Some(c) ==> c <= i32::MAX,
        ensures
            old(self).rows@.len() == 0 ==> r is None && final(self)@ == old(self)@,
            old(self).rows@.len() > 0 ==> r == Some(moved_index(current, delta, old(self).rows@.len() as int) as usize)
                && final(self)@ == (SessionModel { user_moved: true, ..old(self)@ }),
    {
        let len = self.rows.len() as i64;
        if len == 0 {
            return None;
        }
        self.user_moved = true;
        let cur: i64 = match current {
            Some(c) => c as i64,
            None => -1,
        };
        let x = cur + delta as i64;
        let m = if x >= 0 {
            x % len
        } else {
            let back = (-x) % len;
            if back == 0 {
                0
            } else {
                len - back
            }
        };
        proof {
            let xi = x as int;
            let li = len as int;
            if xi < 0 {
                let q = (-xi) / li;
                let b = (-xi) % li;
                vstd::arithmetic::div_mod::lemma_fundamental_div_mod(-xi, li);
                assert(-xi == li * q + b);
                if b == 0 {
                    assert(xi == (-q) * li + 0) by (nonlinear_arith)
                        requires -xi == li * q + b, b == 0;
                    vstd::arithmetic::div_mod::lemma_fundamental_div_mod_converse(xi, li, -q, 0);
                } else {
                    assert(xi == (-q - 1) * li + (li - b)) by (nonlinear_arith)
                        requires -xi == li * q + b;
                    vstd::arithmetic::div_mod::lemma_fundamental_div_mod_converse(xi, li, -q - 1, li - b);
                }
            }
        }
        Some(m as usize)
    }

    /// The kind of the selected row.
    pub fn selected_kind(&self, selected: Option<usize>) -> (r: Option<Kind>)
        ensures
            r == (match selected {
                Some(i) => if i < self.rows@.len() {
                    Some(self.rows@[i as int].kind)
                } else {
                    None
                },
                None => None,
            }),
    {
        match selected {
            Some(i) => if i < self.rows.len() {
                Some(self.rows[i].kind)
            } else {
                None
            },
            None => None,
        }
    }

    /// What a key press does; `digit` is the digit the key types, if any, and
    /// `selected` the selected row.
    pub fn key_command(
        &self,
        key: Key,
        ctrl: bool,
        alt: bool,
        digit: Option<u32>,
        entry_empty: bool,
        selected: Option<usize>,
    ) -> (r: KeyCommand)
        ensures
            r == key_spec(
                key,
                ctrl,
                alt,
                digit,
                entry_empty,
                self.active_mode is Some,
                match selected {
                    Some(i) => if i < self.rows@.len() {
                        Some(self.rows@[i as int].kind)
                    } else {
                        None
                    },
                    None => None,
                },
            ),
    {
        if key == Key::Escape {
            KeyCommand::Close
        } else if key == Key::BackSpace && entry_empty && self.active_mode.is_some() {
            KeyCommand::ExitMode
        } else if key == Key::Tab && self.selected_kind(selected) == Some(Kind::Provider) {
            KeyCommand::Activate(0)
        } else if key == Key::Down || key == Key::Tab {
            KeyCommand::Move(1)
        } else if key == Key::Up || key == Key::IsoLeftTab {
            KeyCommand::Move(-1)
        } else if (key == Key::J || key == Key::N) && ctrl {
            KeyCommand::Move(1)
        } else if (key == Key::K || key == Key::P) && ctrl {
            KeyCommand::Move(-1)
        } else if key == Key::Return || key == Key::KpEnter {
            KeyCommand::Activate(0)
        } else if alt {
            match digit {
                Some(n) => if 1 <= n && n <= 9 {
                    KeyCommand::Activate((n - 1) as usize)
                } else {
                    KeyCommand::Proceed
                },
                None => KeyCommand::Proceed,
            }
        } else {
            KeyCommand::Proceed
        }
    }

    /// The footer's hints for the selected row: the key and label of its first
    /// nine actions.
    pub fn footer(&self, selected: Option<usize>) -> (r: Vec<(String, String)>)
        ensures
            r@.map_values(|h: (String, String)| (h.0@, h.1@)) == footer_spec(self@, selected),
    {
        let mut r: Vec<(String, String)> = Vec::new();
        let i = match selected {
            Some(i) => i,
            None => {
                assert(r@.map_values(|h: (String, String)| (h.0@, h.1@)) =~= Seq::empty());
                return r;
            },
        };
        if i >= self.rows.len() {
            assert(r@.map_values(|h: (String, String)| (h.0@, h.1@)) =~= Seq::empty());
            return r;
        }
        let item = &self.rows[i];
        assert(self@.rows[i as int] == item@);
        if item.kind == Kind::Provider {
            r.push((owned("Enter"), owned("Open this mode")));
            assert(r@.map_values(|h: (String, String)| (h.0@, h.1@)) =~= seq![("Enter"@, "Open this mode"@)]);
            return r;
        }
        let acts = self.item_actions(item);
        let ghost av = views(acts@);
        let n: usize = if acts.len() < 9 { acts.len() } else { 9 };
        let mut j: usize = 0;
        while j < n
            invariant
                j <= n,
                n <= 9,
                n <= acts@.len(),
                av == views(acts@),
                r@.map_values(|h: (String, String)| (h.0@, h.1@)) == Seq::new(
                    j as nat,
                    |m: int| (action_key(m), action_label_spec(av[m])),
                ),
            decreases n - j,
        {
            let key = if j == 0 {
                owned("Enter")
            } else {
                let num: u32 = j as u32 + 1;
                assert(num == j + 1);
                let mut k = owned("Alt+");
                push_str(&mut k, crate::text::decimal_string(num).as_str());
                assert(k@ == action_key(j as int));
                k
            };
            let label = action_label(acts[j].as_str());
            assert(key@ == action_key(j as int));
            assert(label@ == action_label_spec(av[j as int]));
            let ghost before = r@;
            r.push((key, label));
            assert(av[j as int] == acts@[j as int]@);
            assert(r@.map_values(|h: (String, String)| (h.0@, h.1@)) =~= before.map_values(
                |h: (String, String)| (h.0@, h.1@),
            ).push((action_key(j as int), action_label_spec(av[j as int]))));
            assert(r@.map_values(|h: (String, String)| (h.0@, h.1@)) =~= Seq::new(
                (j + 1) as nat,
                |m: int| (action_key(m), action_label_spec(av[m])),
            ));
            j = j + 1;
        }
        r
    }

    /// What activating row `index` with its action number `action_index` does.
    pub fn activation(&self, index: usize, action_index: usize) -> (r: Activation)
        ensures
            r@ == activation_spec(self@, index, action_index),
    {
        if index >= self.rows.len() {
            return Activation::Nothing;
        }
        let item = &self.rows[index];
        assert(self@.rows[index as int] == item@);
        if item.kind == Kind::Provider {
            return Activation::EnterMode(owned(item.identifier.as_str()));
        }
        let actions = self.item_actions(item);
        let action: String = if action_index < actions.len() {
            assert(views(actions@)[action_index as int] == actions@[action_index as int]@);
            owned(actions[action_index].as_str())
        } else if action_index == 0 {
            String::new()
        } else {
            return Activation::Nothing;
        };
        if str_eq(action.as_str(), "menus:open") {
            if let Some(rest) = strip_prefix(item.identifier.as_str(), "menus:") {
                let sub = first_segment_of(rest, ':');
                let mut mode = owned("menus:");
                push_str(&mut mode, sub);
                return Activation::EnterMode(mode);
            }
        }
        let base = first_segment_of(item.provider.as_str(), ':');
        let keep_open = item.kind == Kind::ProviderAction || contains_str(self.config.keep_open.as_slice(), base);
        Activation::Run {
            item: item.clone(),
            action,
            query: owned(self.mode_query.as_str()),
            single: self.state_provider.is_some(),
            keep_open,
        }
    }

    /// An activation that keeps the launcher open started.
    pub fn begin_activation(&mut self)
        requires
            old(self).activations_busy < u32::MAX,
        ensures
            final(self)@ == (SessionModel { activations_busy: (old(self).activations_busy + 1) as u32, ..old(self)@ }),
    {
        self.activations_busy = self.activations_busy + 1;
    }

    /// An activation that kept the launcher open finished: the provider's state is
    /// asked for again (such as on ↔ off), by the next refresh.
    pub fn finish_activation(&mut self)
        requires
            old(self).activations_busy > 0,
        ensures
            final(self)@ == (SessionModel {
                activations_busy: (old(self).activations_busy - 1) as u32,
                state_provider: None,
                ..old(self)@
            }),
    {
        self.activations_busy = self.activations_busy - 1;
        self.state_provider = None;
    }

    /// Leaves the active mode.
    pub fn exit_mode(&mut self)
        ensures
            final(self)@ == (SessionModel { active_mode: None, ..old(self)@ }),
    {
        self.active_mode = None;
    }

    /// Whether the spinner turns: a query or an activation is under way.
    pub fn busy(&self) -> (r: bool)
        ensures
            r == (self.query_busy || self.activations_busy > 0),
    {
        self.query_busy || self.activations_busy > 0
    }

    /// Items arrive in bursts: the list is rebuilt once, when the burst is over.
    /// Returns whether a rebuild must be scheduled now (none is pending).
    pub fn schedule_rebuild(&mut self) -> (r: bool)
        ensures
            r == !old(self).rebuild_scheduled,
            final(self)@ == (SessionModel { rebuild_scheduled: true, ..old(self)@ }),
    {
        if self.rebuild_scheduled {
            return false;
        }
        self.rebuild_scheduled = true;
        true
    }

    /// The actions of an item in the order Enter, Alt+2, Alt+3… take them.
    pub fn item_actions(&self, item: &Item) -> (r: Vec<String>)
        ensures
            views(r@) == item_actions_spec(item@, views(self.config.primary_actions@)),
    {
        match item.kind {
            Kind::Provider => {
                let r: Vec<String> = Vec::new();
                assert(views(r@) =~= Seq::empty());
                r
            },
            Kind::ProviderAction => crate::elephant::clone_strings(item.actions.as_slice()),
            Kind::Result => order_actions(item.actions.as_slice(), self.config.primary_actions.as_slice()),
        }
    }
}

/// A query for elephant: the providers to ask (`None`: the connection's defaults)
/// and the text.
pub struct QueryRequest {
    pub providers: Option<Vec<String>>,
    pub query: String,
}

/// What the window does after the text changed.
#[allow(inconsistent_fields)]
pub enum Refresh {
    /// Enter the mode of `provider` (not inside the entry's own `changed` signal),
    /// leaving `query` in the entry.
    Enter { provider: String, query: String },
    /// Ask elephant for a provider's state and for a query (when given), show the
    /// prompt and placeholder, update the spinner and rebuild the list.
    Show {
        state_request: Option<String>,
        query: Option<QueryRequest>,
        prompt: String,
        placeholder: String,
    },
}

/// `Refresh` over plain values.
#[allow(inconsistent_fields)]
pub enum RefreshModel {
    Enter { provider: Seq<char>, query: Seq<char> },
    Show {
        state_request: Option<Seq<char>>,
        query: Option<(Option<Seq<Seq<char>>>, Seq<char>)>,
        prompt: Seq<char>,
        placeholder: Seq<char>,
    },
}

impl View for Refresh {
    type V = RefreshModel;

    open spec fn view(&self) -> RefreshModel {
        match self {
            Refresh::Enter { provider, query } => RefreshModel::Enter {
                provider: provider@,
                query: query@,
            },
            Refresh::Show { state_request, query, prompt, placeholder } => RefreshModel::Show {
                state_request: opt_view(*state_request),
                query: match query {
                    Some(q) => Some((opt_views(q.providers), q.query@)),
                    None => None,
                },
                prompt: prompt@,
                placeholder: placeholder@,
            },
        }
    }
}

/// What the text in the entry means in state `s`.
pub open spec fn session_mode(s: SessionModel, text: Seq<char>) -> ModeModel {
    parse_mode_spec(text, s.active_mode, s.config.provider_prefix@, s.config.prefixes@, s.installed)
}

/// The prompt (it says where the search goes, as in a shell) and the placeholder.
pub open spec fn prompt_spec(state_provider: Option<Seq<char>>, active_mode: Option<Seq<char>>) -> (
    Seq<char>,
    Seq<char>,
) {
    match state_provider {
        Some(p) => {
            let name = describe_spec(p).0;
            (
                lowercase(name) + " \u{276f}"@,
                if active_mode is Some {
                    "Search "@ + name + ", Backspace to leave"@
                } else {
                    "Search "@ + name
                },
            )
        },
        None => ("\u{276f}"@, "Search, or type / for a provider"@),
    }
}

/// The state after the text changed to `text`, and what the window does then.
pub open spec fn refresh_spec(s: SessionModel, text: Seq<char>) -> (SessionModel, RefreshModel) {
    let m = session_mode(s, text);
    let s0 = SessionModel { user_moved: false, ..s };
    match m {
        ModeModel::Enter { provider, query } => (s0, RefreshModel::Enter { provider, query }),
        _ => {
            let p = mode_provider(m);
            let (s1, request) = if p is None {
                (SessionModel { provider_actions: Seq::empty(), state_provider: None, ..s0 }, None)
            } else if s0.state_provider != p {
                (SessionModel { provider_actions: Seq::empty(), state_provider: p, ..s0 }, p)
            } else {
                (s0, None)
            };
            let (s2, query) = match m {
                ModeModel::ProviderList { filter } => (
                    SessionModel {
                        expect: None,
                        query_busy: false,
                        qid: -1i32,
                        mode_query: Seq::empty(),
                        results: provider_list_spec(s1.installed, filter),
                        ..s1
                    },
                    None,
                ),
                ModeModel::Single { provider, query } => (
                    SessionModel {
                        expect: Some((Some(provider), query)),
                        mode_query: query,
                        query_busy: true,
                        ..s1
                    },
                    Some((Some(seq![provider]), query)),
                ),
                ModeModel::Default { query } => (
                    SessionModel {
                        expect: Some((None, query)),
                        mode_query: query,
                        query_busy: true,
                        ..s1
                    },
                    Some((s1.providers_override, query)),
                ),
                ModeModel::Enter { .. } => (s1, None),
            };
            let (prompt, placeholder) = prompt_spec(s2.state_provider, s2.active_mode);
            (s2, RefreshModel::Show { state_request: request, query, prompt, placeholder })
        },
    }
}

/// Copies of optional strings.
fn clone_opt_strings(o: &Option<Vec<String>>) -> (r: Option<Vec<String>>)
    ensures
        opt_views(r) == opt_views(*o),
{
    match o {
        Some(v) => Some(crate::elephant::clone_strings(v.as_slice())),
        None => None,
    }
}

/// The prompt and placeholder for the provider of the current state.
fn prompt(state_provider: &Option<String>, active_mode: &Option<String>) -> (r: (String, String))
    ensures
        (r.0@, r.1@) == prompt_spec(opt_view(*state_provider), opt_view(*active_mode)),
{
    match state_provider {
        Some(p) => {
            let name = describe(p.as_str()).0;
            let mut prompt = to_lowercase(name.as_str());
            push_str(&mut prompt, " \u{276f}");
            let mut placeholder = owned("Search ");
            push_str(&mut placeholder, name.as_str());
            if active_mode.is_some() {
                push_str(&mut placeholder, ", Backspace to leave");
            }
            (prompt, placeholder)
        },
        None => (owned("\u{276f}"), owned("Search, or type / for a provider")),
    }
}

/// What the window does after an event from elephant.
pub enum Outcome {
    Nothing,
    /// Rebuild the list (when the burst of items is over).
    Rebuild,
    /// Update the spinner.
    Spinner,
    /// Update the spinner, then rebuild the list.
    SpinnerAndRebuild,
    /// A mode was entered: empty the entry (this searches again).
    ClearEntry,
    /// The connection closed, for this reason: close the window.
    Close(String),
}

/// `Outcome` over plain values.
pub enum OutcomeModel {
    Nothing,
    Rebuild,
    Spinner,
    SpinnerAndRebuild,
    ClearEntry,
    Close(Seq<char>),
}

impl View for Outcome {
    type V = OutcomeModel;

    open spec fn view(&self) -> OutcomeModel {
        match self {
            Outcome::Nothing => OutcomeModel::Nothing,
            Outcome::Rebuild => OutcomeModel::Rebuild,
            Outcome::Spinner => OutcomeModel::Spinner,
            Outcome::SpinnerAndRebuild => OutcomeModel::SpinnerAndRebuild,
            Outcome::ClearEntry => OutcomeModel::ClearEntry,
            Outcome::Close(e) => OutcomeModel::Close(e@),
        }
    }
}

/// The first result with this identifier and provider.
pub open spec fn first_same_item(results: Seq<ItemModel>, identifier: Seq<char>, provider: Seq<char>) -> Option<
    int,
>
    decreases results.len(),
{
    if results.len() == 0 {
        None
    } else if results[0].identifier == identifier && results[0].provider == provider {
        Some(0)
    } else {
        match first_same_item(results.drop_first(), identifier, provider) {
            Some(i) => Some(i + 1),
            None => None,
        }
    }
}

proof fn lemma_first_same_item_at(results: Seq<ItemModel>, identifier: Seq<char>, provider: Seq<char>, i: int)
    requires
        0 <= i <= results.len(),
        i < results.len() ==> results[i].identifier == identifier && results[i].provider == provider,
        forall|j: int|
            0 <= j < i ==> !(results[j].identifier == identifier && results[j].provider == provider),
    ensures
        first_same_item(results, identifier, provider) == (if i < results.len() {
            Some(i)
        } else {
            None::<int>
        }),
    decreases results.len(),
{
    if results.len() > 0 && i > 0 {
        let t = results.drop_first();
        assert forall|j: int| 0 <= j < i - 1 implies !(t[j].identifier == identifier && t[j].provider
            == provider) by {
            assert(t[j] == results[j + 1]);
        }
        if i - 1 < t.len() {
            assert(t[i - 1] == results[i]);
        }
        lemma_first_same_item_at(t, identifier, provider, i - 1);
    }
}

/// The row of a provider-level action.
pub open spec fn action_row(provider: Seq<char>, action: Seq<char>) -> ItemModel {
    ItemModel {
        identifier: provider,
        text: action_label_spec(action),
        subtext: Seq::empty(),
        icon: describe_spec(provider).1,
        provider,
        fuzzyinfo: None,
        actions: seq![action],
        kind: Kind::ProviderAction,
    }
}

/// `s` with the mode of `provider` entered.
pub open spec fn entered(s: SessionModel, provider: Seq<char>) -> SessionModel {
    SessionModel {
        installed: if s.installed.contains(provider) {
            s.installed
        } else {
            s.installed.push(provider)
        },
        active_mode: Some(provider),
        ..s
    }
}

/// The state after an event from elephant, and what the window does then.
pub open spec fn event_spec(s: SessionModel, event: Event) -> (SessionModel, OutcomeModel) {
    match event {
        Event::Item { qid, query, item } => match s.expect {
            None => (s, OutcomeModel::Nothing),
            Some((p, q)) => if query@ != q || (p is Some && p->0 != item@.provider) {
                (s, OutcomeModel::Nothing)
            } else {
                let results = if qid != s.qid {
                    Seq::empty()
                } else {
                    s.results
                };
                (SessionModel { qid, results: results.push(item@), ..s }, OutcomeModel::Rebuild)
            },
        },
        Event::Update { item } => match first_same_item(s.results, item@.identifier, item@.provider) {
            None => (s, OutcomeModel::Nothing),
            Some(j) => (SessionModel { results: s.results.update(j, item@), ..s }, OutcomeModel::Rebuild),
        },
        Event::State { provider, actions } => if s.state_provider != Some(provider@) {
            (s, OutcomeModel::Nothing)
        } else {
            (
                SessionModel {
                    provider_actions: views(actions@).map_values(|a: Seq<char>| action_row(provider@, a)),
                    ..s
                },
                OutcomeModel::Rebuild,
            )
        },
        Event::Subscription(value) => if is_prefix_of("menus:"@, value@) && value@.len() > "menus:"@.len() {
            (entered(s, value@), OutcomeModel::ClearEntry)
        } else {
            (s, OutcomeModel::Nothing)
        },
        Event::NoResults => if s.expect is None {
            (s, OutcomeModel::Nothing)
        } else {
            (
                SessionModel { results: Seq::empty(), qid: -1i32, query_busy: false, ..s },
                OutcomeModel::SpinnerAndRebuild,
            )
        },
        Event::Done => (SessionModel { query_busy: false, ..s }, OutcomeModel::Spinner),
        Event::Disconnected(e) => (s, OutcomeModel::Close(e@)),
    }
}

/// Once a mode is entered, the entry holds only the query: every text is searched
/// with that provider alone, the provider's state is asked for unless it is already
/// there, and the prompt names the mode.
pub proof fn lemma_mode_searches_its_provider(s: SessionModel, provider: Seq<char>, text: Seq<char>)
    ensures
        ({
            let e = entered(s, provider);
            let name = describe_spec(provider).0;
            &&& refresh_spec(e, text).1 == (RefreshModel::Show {
                state_request: if e.state_provider == Some(provider) {
                    None
                } else {
                    Some(provider)
                },
                query: Some((Some(seq![provider]), text)),
                prompt: lowercase(name) + " \u{276f}"@,
                placeholder: "Search "@ + name + ", Backspace to leave"@,
            })
            &&& refresh_spec(e, text).0.active_mode == Some(provider)
            &&& refresh_spec(e, text).0.state_provider == Some(provider)
            &&& refresh_spec(e, text).0.expect == Some((Some(provider), text))
            &&& refresh_spec(e, text).0.mode_query == text
        }),
{
}

/// The provider's own commands come after the results, and a rebuild selects the
/// first row unless the user moved the selection: Enter right after a search acts
/// on the first result.
pub proof fn lemma_results_come_first(s: SessionModel, selected: Option<usize>)
    ensures
        rows_spec(s).take(s.results.len() as int) == s.results,
        rows_spec(s).len() >= s.results.len(),
        !s.user_moved ==> rebuild_index(s, selected) == 0,
{
    assert(rows_spec(s).take(s.results.len() as int) =~= s.results);
}

/// A move of the selection always lands on a row of the list.
pub proof fn lemma_moved_index_in_range(current: Option<usize>, delta: i32, len: int)
    requires
        len > 0,
    ensures
        0 <= moved_index(current, delta, len) < len,
{
}

/// The rows of a provider's actions.
fn action_rows(provider: &str, actions: &[String]) -> (r: Vec<Item>)
    ensures
        item_views(r@) == views(actions@).map_values(|a: Seq<char>| action_row(provider@, a)),
{
    let icon = describe(provider).1;
    let ghost f = |a: Seq<char>| action_row(provider@, a);
    let mut r: Vec<Item> = Vec::new();
    let mut i: usize = 0;
    while i < actions.len()
        invariant
            i <= actions@.len(),
            icon@ == describe_spec(provider@).1,
            f == (|a: Seq<char>| action_row(provider@, a)),
            item_views(r@) == views(actions@).take(i as int).map_values(f),
        decreases actions@.len() - i,
    {
        let a = actions[i].as_str();
        let mut acts: Vec<String> = Vec::new();
        acts.push(owned(a));
        let item = Item {
            identifier: owned(provider),
            text: action_label(a),
            subtext: String::new(),
            icon: owned(icon),
            provider: owned(provider),
            fuzzyinfo: None,
            actions: acts,
            kind: Kind::ProviderAction,
        };
        assert(views(item.actions@) =~= seq![a@]);
        assert(item@ =~= action_row(provider@, a@));
        let ghost before = r@;
        r.push(item);
        assert(item_views(r@) =~= item_views(before).push(action_row(provider@, a@)));
        assert(views(actions@).take(i + 1).map_values(f) =~= views(actions@).take(i as int).map_values(
            f,
        ).push(f(a@)));
        i = i + 1;
    }
    assert(views(actions@).take(actions@.len() as int) == views(actions@));
    r
}

/// What identifies a row across rebuilds: kind, provider, identifier and first action.
pub open spec fn row_key(it: ItemModel) -> (Kind, Seq<char>, Seq<char>, Option<Seq<char>>) {
    (it.kind, it.provider, it.identifier, if it.actions.len() > 0 {
        Some(it.actions[0])
    } else {
        None
    })
}

/// Whether a provider action whose lower-cased label is `text` shows for the
/// lower-cased, trimmed query `needle`: the query is empty or occurs in the label.
pub open spec fn action_matches_lowered_spec(needle: Seq<char>, text: Seq<char>) -> bool {
    needle.len() == 0 || occurs_in(needle, text)
}

/// Whether the provider action `a` shows for the lower-cased, trimmed query `needle`.
pub open spec fn action_shown(a: ItemModel, needle: Seq<char>) -> bool {
    action_matches_lowered_spec(needle, lowercase(a.text))
}

/// Whether a provider action shows for the lower-cased, trimmed query `needle`,
/// given its label already lower-cased.
pub fn action_matches_lowered(needle: &str, text: &str) -> (r: bool)
    ensures
        r == action_matches_lowered_spec(needle@, text@),
{
    needle.is_empty() || crate::text::contains(text, needle)
}

/// The rows: first the results, then the provider actions that match the mode's
/// query (Enter right after entering `/bluetooth` must connect a device, not turn
/// everything off).
pub open spec fn rows_spec(s: SessionModel) -> Seq<ItemModel> {
    let needle = lowercase(trim(s.mode_query));
    s.results + s.provider_actions.filter(|a: ItemModel| action_shown(a, needle))
}

/// The first row with key `k`.
pub open spec fn first_with_key(rows: Seq<ItemModel>, k: (Kind, Seq<char>, Seq<char>, Option<Seq<char>>)) -> Option<
    int,
>
    decreases rows.len(),
{
    if rows.len() == 0 {
        None
    } else if row_key(rows[0]) == k {
        Some(0)
    } else {
        match first_with_key(rows.drop_first(), k) {
            Some(i) => Some(i + 1),
            None => None,
        }
    }
}

proof fn lemma_first_with_key_at(rows: Seq<ItemModel>, k: (Kind, Seq<char>, Seq<char>, Option<Seq<char>>), i: int)
    requires
        0 <= i <= rows.len(),
        i < rows.len() ==> row_key(rows[i]) == k,
        forall|j: int| 0 <= j < i ==> row_key(rows[j]) != k,
    ensures
        first_with_key(rows, k) == (if i < rows.len() {
            Some(i)
        } else {
            None::<int>
        }),
    decreases rows.len(),
{
    if rows.len() > 0 && i > 0 {
        let t = rows.drop_first();
        assert forall|j: int| 0 <= j < i - 1 implies row_key(t[j]) != k by {
            assert(t[j] == rows[j + 1]);
        }
        if i - 1 < t.len() {
            assert(t[i - 1] == rows[i]);
        }
        lemma_first_with_key_at(t, k, i - 1);
    }
}

/// The row to select after a rebuild: the one the user had selected (by key), if
/// the user moved the selection and it is still there; else the first.
pub open spec fn rebuild_index(s: SessionModel, selected: Option<usize>) -> int {
    match selected {
        Some(i) => if s.user_moved && i < s.rows.len() {
            match first_with_key(rows_spec(s), row_key(s.rows[i as int])) {
                Some(j) => j,
                None => 0,
            }
        } else {
            0
        },
        None => 0,
    }
}

/// Whether two rows have the same key.
fn same_key(a: &Item, b: &Item) -> (r: bool)
    ensures
        r == (row_key(a@) == row_key(b@)),
{
    let first_a: Option<&String> = if a.actions.len() > 0 { Some(&a.actions[0]) } else { None };
    let first_b: Option<&String> = if b.actions.len() > 0 { Some(&b.actions[0]) } else { None };
    proof {
        if a.actions@.len() > 0 {
            assert(a@.actions[0] == a.actions@[0]@);
        }
        if b.actions@.len() > 0 {
            assert(b@.actions[0] == b.actions@[0]@);
        }
    }
    let same_first = match (first_a, first_b) {
        (Some(x), Some(y)) => str_eq(x.as_str(), y.as_str()),
        (None, None) => true,
        _ => false,
    };
    a.kind == b.kind && str_eq(a.provider.as_str(), b.provider.as_str()) && str_eq(
        a.identifier.as_str(),
        b.identifier.as_str(),
    ) && same_first
}

/// A move of the selection by `delta` rows from `current` (the first row is 0, no
/// selection counts as -1), wrapping around a list of `len` rows.
pub open spec fn moved_index(current: Option<usize>, delta: i32, len: int) -> int {
    let cur: int = match current {
        Some(c) => c as int,
        None => -1,
    };
    (cur + delta) % len
}

/// The name of the key for the `i`-th action: Enter, then Alt+2…
pub open spec fn action_key(i: int) -> Seq<char> {
    if i == 0 {
        "Enter"@
    } else {
        "Alt+"@ + crate::text::decimal((i + 1) as nat)
    }
}

/// The footer's hints for the selected row: key and label of each of its first
/// nine actions (just "Open this mode" for a provider entry).
pub open spec fn footer_spec(s: SessionModel, selected: Option<usize>) -> Seq<(Seq<char>, Seq<char>)> {
    match selected {
        Some(i) => if i < s.rows.len() {
            let it = s.rows[i as int];
            if it.kind == Kind::Provider {
                seq![("Enter"@, "Open this mode"@)]
            } else {
                let acts = item_actions_spec(it, views(s.config.primary_actions@));
                let n = if acts.len() < 9 {
                    acts.len() as int
                } else {
                    9
                };
                Seq::new(n as nat, |j: int| (action_key(j), action_label_spec(acts[j])))
            }
        } else {
            Seq::empty()
        },
        None => Seq::empty(),
    }
}

/// Keys the launcher reacts to.
#[derive(Clone, Copy, Debug, PartialEq, Eq, Structural)]
pub enum Key {
    Escape,
    BackSpace,
    Tab,
    Down,
    Up,
    IsoLeftTab,
    J,
    N,
    K,
    P,
    Return,
    KpEnter,
    Other,
}

/// What a key press does.
#[derive(Clone, Copy, Debug, PartialEq, Eq, Structural)]
pub enum KeyCommand {
    Close,
    ExitMode,
    /// Run the action with this number on the selected row.
    Activate(usize),
    /// Move the selection by this many rows.
    Move(i32),
    /// Let the entry handle the key.
    Proceed,
}

/// What a key press does: `key` with Control/Alt held, the digit the key types (if
/// any), whether the entry is empty, and the kind of the selected row.
pub open spec fn key_spec(
    key: Key,
    ctrl: bool,
    alt: bool,
    digit: Option<u32>,
    entry_empty: bool,
    mode_active: bool,
    selected_kind: Option<Kind>,
) -> KeyCommand {
    if key == Key::Escape {
        KeyCommand::Close
    } else if key == Key::BackSpace && entry_empty && mode_active {
        KeyCommand::ExitMode
    } else if key == Key::Tab && selected_kind == Some(Kind::Provider) {
        KeyCommand::Activate(0)
    } else if key == Key::Down || key == Key::Tab {
        KeyCommand::Move(1)
    } else if key == Key::Up || key == Key::IsoLeftTab {
        KeyCommand::Move(-1i32)
    } else if (key == Key::J || key == Key::N) && ctrl {
        KeyCommand::Move(1)
    } else if (key == Key::K || key == Key::P) && ctrl {
        KeyCommand::Move(-1i32)
    } else if key == Key::Return || key == Key::KpEnter {
        KeyCommand::Activate(0)
    } else if alt {
        match digit {
            Some(n) => if 1 <= n <= 9 {
                KeyCommand::Activate((n - 1) as usize)
            } else {
                KeyCommand::Proceed
            },
            None => KeyCommand::Proceed,
        }
    } else {
        KeyCommand::Proceed
    }
}

/// What keys do, whatever else is held: Escape closes; Down, and Tab off a provider
/// entry, move down; Up and Shift+Tab move up; Tab on a provider entry and Enter run
/// the first action; Control+J/N move down and Control+K/P up; Backspace on an empty
/// entry leaves the mode; Alt with a digit 1–9 runs that action. Any other key, and
/// any of these letters without Control, is typed into the entry when neither
/// Control nor Alt is held.
pub proof fn lemma_key_commands(
    key: Key,
    ctrl: bool,
    alt: bool,
    digit: Option<u32>,
    entry_empty: bool,
    mode_active: bool,
    selected_kind: Option<Kind>,
)
    ensures
        key == Key::Escape ==> key_spec(key, ctrl, alt, digit, entry_empty, mode_active, selected_kind)
            == KeyCommand::Close,
        key == Key::BackSpace && entry_empty && mode_active ==> key_spec(
            key,
            ctrl,
            alt,
            digit,
            entry_empty,
            mode_active,
            selected_kind,
        ) == KeyCommand::ExitMode,
        key == Key::Tab ==> key_spec(key, ctrl, alt, digit, entry_empty, mode_active, selected_kind) == (
        if selected_kind == Some(Kind::Provider) {
            KeyCommand::Activate(0)
        } else {
            KeyCommand::Move(1)
        }),
        key == Key::Down ==> key_spec(key, ctrl, alt, digit, entry_empty, mode_active, selected_kind)
            == KeyCommand::Move(1),
        key == Key::Up || key == Key::IsoLeftTab ==> key_spec(
            key,
            ctrl,
            alt,
            digit,
            entry_empty,
            mode_active,
            selected_kind,
        ) == KeyCommand::Move(-1i32),
        key == Key::Return || key == Key::KpEnter ==> key_spec(
            key,
            ctrl,
            alt,
            digit,
            entry_empty,
            mode_active,
            selected_kind,
        ) == KeyCommand::Activate(0),
        ctrl && (key == Key::J || key == Key::N) ==> key_spec(
            key,
            ctrl,
            alt,
            digit,
            entry_empty,
            mode_active,
            selected_kind,
        ) == KeyCommand::Move(1),
        ctrl && (key == Key::K || key == Key::P) ==> key_spec(
            key,
            ctrl,
            alt,
            digit,
            entry_empty,
            mode_active,
            selected_kind,
        ) == KeyCommand::Move(-1i32),
        !ctrl && alt && (key == Key::J || key == Key::N || key == Key::K || key == Key::P || key
            == Key::Other) ==> key_spec(key, ctrl, alt, digit, entry_empty, mode_active, selected_kind)
            == (match digit {
            Some(n) => if 1 <= n <= 9 {
                KeyCommand::Activate((n - 1) as usize)
            } else {
                KeyCommand::Proceed
            },
            None => KeyCommand::Proceed,
        }),
        !ctrl && !alt && (key == Key::J || key == Key::N || key == Key::K || key == Key::P || key
            == Key::Other || key == Key::BackSpace && !(entry_empty && mode_active)) ==> key_spec(
            key,
            ctrl,
            alt,
            digit,
            entry_empty,
            mode_active,
            selected_kind,
        ) == KeyCommand::Proceed,
{
}

/// What activating a row does.
pub enum Activation {
    Nothing,
    /// Enter this mode, with an empty entry.
    EnterMode(String),
    /// Ask elephant to run `action` on `item`. With `keep_open` the launcher stays
    /// open and reloads when elephant is done; else it hides and closes.
    Run { item: Item, action: String, query: String, single: bool, keep_open: bool },
}

/// `Activation` over plain values.
pub enum ActivationModel {
    Nothing,
    EnterMode(Seq<char>),
    Run { item: ItemModel, action: Seq<char>, query: Seq<char>, single: bool, keep_open: bool },
}

impl View for Activation {
    type V = ActivationModel;

    open spec fn view(&self) -> ActivationModel {
        match self {
            Activation::Nothing => ActivationModel::Nothing,
            Activation::EnterMode(p) => ActivationModel::EnterMode(p@),
            Activation::Run { item, action, query, single, keep_open } => ActivationModel::Run {
                item: item@,
                action: action@,
                query: query@,
                single: *single,
                keep_open: *keep_open,
            },
        }
    }
}

/// The part of `s` before its first `c` (`str::split(c).next()`).
pub open spec fn first_segment(s: Seq<char>, c: char) -> Seq<char> {
    match crate::text::first_index_of(s, c) {
        Some(i) => s.take(i),
        None => s,
    }
}

/// What activating row `index` with its action number `action_index` does.
pub open spec fn activation_spec(s: SessionModel, index: usize, action_index: usize) -> ActivationModel {
    if index >= s.rows.len() {
        ActivationModel::Nothing
    } else {
        let it = s.rows[index as int];
        if it.kind == Kind::Provider {
            ActivationModel::EnterMode(it.identifier)
        } else {
            let acts = item_actions_spec(it, views(s.config.primary_actions@));
            let action: Option<Seq<char>> = if action_index < acts.len() {
                Some(acts[action_index as int])
            } else if action_index == 0 {
                // A provider without declared actions uses the default one ("").
                Some(Seq::empty())
            } else {
                None
            };
            match action {
                None => ActivationModel::Nothing,
                Some(a) => if a == "menus:open"@ && is_prefix_of("menus:"@, it.identifier) {
                    // Submenu: elephant would only tell us to open it, so we do.
                    let rest = it.identifier.subrange("menus:"@.len() as int, it.identifier.len() as int);
                    ActivationModel::EnterMode("menus:"@ + first_segment(rest, ':'))
                } else {
                    ActivationModel::Run {
                        item: it,
                        action: a,
                        query: s.mode_query,
                        single: s.state_provider is Some,
                        keep_open: it.kind == Kind::ProviderAction || views(
                            s.config.keep_open@,
                        ).contains(first_segment(it.provider, ':')),
                    }
                },
            }
        }
    }
}

/// The part of `s` before its first `c`.
fn first_segment_of<'a>(s: &'a str, c: char) -> (r: &'a str)
    ensures
        r@ == first_segment(s@, c),
{
    let cs = crate::text::chars_of(s);
    match crate::text::find_char(cs.as_slice(), c) {
        Some(i) => {
            proof {
                crate::text::lemma_first_index_of(s@, c);
            }
            s.substring_char(0, i)
        },
        None => s,
    }
}

/// Which marks of the text `text` (in field `field`) are characters that matched the
/// query, by position.
pub open spec fn highlight_spec(item: ItemModel, field: Seq<char>, len: nat) -> Seq<bool> {
    let positions: Seq<i32> = match item.fuzzyinfo {
        Some(f) => if f.field == field {
            f.positions
        } else {
            Seq::empty()
        },
        None => Seq::empty(),
    };
    Seq::new(len, |i: int| positions.contains(i as i32))
}

/// The style class of a row, by what it stands for.
pub open spec fn row_class_spec(kind: Kind) -> Seq<char> {
    match kind {
        Kind::Result => "result"@,
        Kind::ProviderAction => "provider-action"@,
        Kind::Provider => "provider"@,
    }
}

/// The style class of a row: the header of the provider's commands goes above the
/// first `provider-action` row.
pub fn row_class(kind: Kind) -> (r: &'static str)
    ensures
        r@ == row_class_spec(kind),
{
    match kind {
        Kind::Result => "result",
        Kind::ProviderAction => "provider-action",
        Kind::Provider => "provider",
    }
}

/// The header above a provider's commands: its readable name and ` commands`.
pub fn section_header(provider: &str) -> (r: String)
    ensures
        r@ == describe_spec(provider@).0 + " commands"@,
{
    let mut r = describe(provider).0;
    push_str(&mut r, " commands");
    r
}

/// Where a row's icon comes from.
pub enum RowIcon {
    /// A file, by absolute path.
    File(String),
    /// A named icon of the icon theme.
    Named(String),
}

/// Where a row's icon comes from: an absolute path is a file, anything else a
/// theme icon (a generic one when the item has none).
pub fn row_icon(icon: &str) -> (r: RowIcon)
    ensures
        match r {
            RowIcon::File(p) => icon@.len() > 0 && icon@[0] == '/' && p@ == icon@,
            RowIcon::Named(n) => if icon@.len() == 0 {
                n@ == "application-x-executable"@
            } else {
                icon@[0] != '/' && n@ == icon@
            },
        },
{
    let cs = crate::text::chars_of(icon);
    if cs.len() > 0 && cs[0] == '/' {
        RowIcon::File(owned(icon))
    } else if cs.len() == 0 {
        RowIcon::Named(owned("application-x-executable"))
    } else {
        RowIcon::Named(owned(icon))
    }
}

/// Which characters of `text` (shown in field `field` of `item`) matched the query:
/// those at the positions elephant reported for that field.
pub fn highlight_mask(item: &Item, field: &str, text: &str) -> (r: Vec<bool>)
    requires
        text@.len() <= i32::MAX,
    ensures
        r@ == highlight_spec(item@, field@, text@.len()),
{
    let empty: Vec<i32> = Vec::new();
    let positions: &Vec<i32> = match &item.fuzzyinfo {
        Some(f) => if str_eq(f.field.as_str(), field) {
            &f.positions
        } else {
            &empty
        },
        None => &empty,
    };
    let n = crate::text::chars_of(text).len();
    let mut r: Vec<bool> = Vec::new();
    let mut i: usize = 0;
    while i < n
        invariant
            i <= n,
            n == text@.len(),
            n <= i32::MAX,
            positions@ == (match item@.fuzzyinfo {
                Some(f) => if f.field == field@ {
                    f.positions
                } else {
                    Seq::empty()
                },
                None => Seq::<i32>::empty(),
            }),
            r@ == highlight_spec(item@, field@, text@.len()).take(i as int),
        decreases n - i,
    {
        let want = i as i32;
        let mut found = false;
        let mut k: usize = 0;
        while k < positions.len()
            invariant
                k <= positions@.len(),
                found == exists|m: int| 0 <= m < k && positions@[m] == want,
            decreases positions@.len() - k,
        {
            if positions[k] == want {
                found = true;
            }
            k = k + 1;
        }
        let ghost before = r@;
        r.push(found);
        assert(r@ =~= highlight_spec(item@, field@, text@.len()).take(i + 1));
        i = i + 1;
    }
    assert(r@ =~= highlight_spec(item@, field@, text@.len()));
    r
}

/// Whether some provider is a menu (`menus:<name>`).
fn has_menus(installed: &[String]) -> (r: bool)
    ensures
        r == exists|i: int| 0 <= i < installed@.len() && is_prefix_of("menus:"@, #[trigger] installed@[i]@),
{
    let mut i: usize = 0;
    while i < installed.len()
        invariant
            i <= installed@.len(),
            forall|j: int| 0 <= j < i ==> !is_prefix_of("menus:"@, #[trigger] installed@[j]@),
        decreases installed@.len() - i,
    {
        if starts_with(installed[i].as_str(), "menus:") {
            return true;
        }
        i = i + 1;
    }
    false
}

/// The actions of an item in the order Enter, Alt+2, Alt+3… take them: none for a
/// provider entry, a provider action's own, a result's ordered by preference.
pub open spec fn item_actions_spec(item: ItemModel, preferred: Seq<Seq<char>>) -> Seq<Seq<char>> {
    match item.kind {
        Kind::Provider => Seq::empty(),
        Kind::ProviderAction => item.actions,
        Kind::Result => order_actions_spec(item.actions, preferred),
    }
}

} // verus!
