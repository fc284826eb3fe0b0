//! The launcher's settings and the prefix table that routes a query to one provider.
use vstd::prelude::*;

use crate::text::{chars_of, chars_start_with, is_prefix_of, owned, str_eq};

verus! {

/// Prefix → provider table (`"=" = "calc"`: `=2+2` asks only `calc` for `2+2`).
///
/// Keys are distinct; the table is viewed as a finite map of character sequences.
pub struct PrefixMap {
    entries: Vec<(String, String)>,
    model: Ghost<Map<Seq<char>, Seq<char>>>,
}

/// `entries` holds each key once, and its pairs are exactly those of `model`.
spec fn entries_match(entries: Seq<(String, String)>, model: Map<Seq<char>, Seq<char>>) -> bool {
    &&& forall|i: int|
        0 <= i < entries.len() ==> #[trigger] model.contains_key(entries[i].0@) && model[entries[i].0@]
            == entries[i].1@
    &&& forall|k: Seq<char>|
        #[trigger] model.contains_key(k) ==> exists|i: int| 0 <= i < entries.len() && #[trigger] entries[i].0@ == k
    &&& forall|i: int, j: int|
        0 <= i < entries.len() && 0 <= j < entries.len() && i != j ==> #[trigger] entries[i].0@
            != #[trigger] entries[j].0@
}

/// `k` is the longest key of `m` that begins `text`.
pub open spec fn is_longest_prefix(
    m: Map<Seq<char>, Seq<char>>,
    text: Seq<char>,
    k: Seq<char>,
) -> bool {
    &&& m.contains_key(k)
    &&& is_prefix_of(k, text)
    &&& forall|k2: Seq<char>|
        #[trigger] m.contains_key(k2) && is_prefix_of(k2, text) ==> k2.len() <= k.len()
}

/// The provider that `text` is routed to (`None`: the default ones) and the text
/// that remains once the longest matching prefix is removed.
pub open spec fn split_prefix_spec(m: Map<Seq<char>, Seq<char>>, text: Seq<char>) -> (
    Option<Seq<char>>,
    Seq<char>,
) {
    if exists|k: Seq<char>| is_longest_prefix(m, text, k) {
        let k = choose|k: Seq<char>| is_longest_prefix(m, text, k);
        (Some(m[k]), text.subrange(k.len() as int, text.len() as int))
    } else {
        (None, text)
    }
}

/// Two keys that are both longest prefixes of `text` are the same key.
pub proof fn lemma_longest_prefix_unique(
    m: Map<Seq<char>, Seq<char>>,
    text: Seq<char>,
    k1: Seq<char>,
    k2: Seq<char>,
)
    requires
        is_longest_prefix(m, text, k1),
        is_longest_prefix(m, text, k2),
    ensures
        k1 == k2,
{
    assert(k1.len() == k2.len());
    assert(k1 == text.subrange(0, k1.len() as int));
}

/// What a write to the table gives back on a read: once `key` is set to `value`,
/// a text that starts with `key` is routed to `value`, with `key` removed, unless a
/// longer key of the table also starts it.
pub proof fn lemma_inserted_prefix_routes(
    m: Map<Seq<char>, Seq<char>>,
    key: Seq<char>,
    value: Seq<char>,
    rest: Seq<char>,
)
    requires
        forall|k: Seq<char>| #[trigger] m.contains_key(k) && is_prefix_of(k, key + rest) ==> k.len() <= key.len(),
    ensures
        split_prefix_spec(m.insert(key, value), key + rest) == (Some(value), rest),
{
    let m2 = m.insert(key, value);
    let t = key + rest;
    assert(t.subrange(0, key.len() as int) == key);
    assert(is_longest_prefix(m2, t, key));
    let k = choose|k: Seq<char>| is_longest_prefix(m2, t, k);
    lemma_longest_prefix_unique(m2, t, k, key);
    assert(t.subrange(key.len() as int, t.len() as int) == rest);
}

impl View for PrefixMap {
    type V = Map<Seq<char>, Seq<char>>;

    closed spec fn view(&self) -> Map<Seq<char>, Seq<char>> {
        self.model@
    }
}

impl PrefixMap {
    /// The entries hold each key once and are exactly the model.
    #[verifier::type_invariant]
    closed spec fn inv(self) -> bool {
        entries_match(self.entries@, self.model@)
    }

    /// An empty table.
    pub fn new() -> (r: Self)
        ensures
            r@ == Map::<Seq<char>, Seq<char>>::empty(),
    {
        PrefixMap { entries: Vec::new(), model: Ghost(Map::empty()) }
    }

    /// The longest key that begins `text`: its value and the rest of `text`.
    fn split<'a>(&self, text: &'a str) -> (r: (Option<String>, &'a str))
        ensures
            split_prefix_spec(self@, text@) == (
                match r.0 {
                    Some(p) => Some(p@),
                    None => None,
                },
                r.1@,
            ),
    {
        proof {
            use_type_invariant(self);
        }
        let tc = chars_of(text);
        let n = self.entries.len();
        let mut best: Option<usize> = None;
        let mut best_len: usize = 0;
        let mut i: usize = 0;
        while i < n
            invariant
                n == self.entries@.len(),
                tc@ == text@,
                i <= n,
                match best {
                    Some(b) => {
                        &&& b < i
                        &&& best_len == self.entries@[b as int].0@.len()
                        &&& is_prefix_of(self.entries@[b as int].0@, text@)
                        &&& forall|j: int|
                            0 <= j < i && is_prefix_of(#[trigger] self.entries@[j].0@, text@)
                                ==> self.entries@[j].0@.len() <= best_len
                    },
                    None => forall|j: int|
                        0 <= j < i ==> !is_prefix_of(#[trigger] self.entries@[j].0@, text@),
                },
            decreases n - i,
        {
            let kc = chars_of(self.entries[i].0.as_str());
            if chars_start_with(tc.as_slice(), kc.as_slice()) {
                if best.is_none() || kc.len() > best_len {
                    best = Some(i);
                    best_len = kc.len();
                }
            }
            i = i + 1;
        }
        let ghost m = self@;
        match best {
            Some(b) => {
                let ghost k = self.entries@[b as int].0@;
                proof {
                    assert forall|k2: Seq<char>|
                        #[trigger] m.contains_key(k2) && is_prefix_of(k2, text@) implies k2.len()
                        <= k.len() by {
                        let j = choose|j: int|
                            0 <= j < self.entries@.len() && #[trigger] self.entries@[j].0@ == k2;
                    }
                    assert(m.contains_key(k));
                    assert(is_longest_prefix(m, text@, k));
                    let kk = choose|kk: Seq<char>| is_longest_prefix(m, text@, kk);
                    lemma_longest_prefix_unique(m, text@, k, kk);
                }
                let provider = owned(self.entries[b].1.as_str());
                (Some(provider), text.substring_char(best_len, tc.len()))
            },
            None => {
                proof {
                    assert forall|k: Seq<char>| !is_longest_prefix(m, text@, k) by {
                        if m.contains_key(k) && is_prefix_of(k, text@) {
                            let j = choose|j: int|
                                0 <= j < self.entries@.len() && #[trigger] self.entries@[j].0@ == k;
                        }
                    }
                }
                (None, text)
            },
        }
    }

    /// The pairs of the table, each key once (in the order they were first set).
    pub fn pairs(&self) -> (r: Vec<(String, String)>)
        ensures
            forall|i: int|
                0 <= i < r@.len() ==> #[trigger] self@.contains_key(r@[i].0@) && self@[r@[i].0@] == r@[i].1@,
            forall|k: Seq<char>|
                #[trigger] self@.contains_key(k) ==> exists|i: int| 0 <= i < r@.len() && #[trigger] r@[i].0@ == k,
            forall|i: int, j: int|
                0 <= i < r@.len() && 0 <= j < r@.len() && i != j ==> #[trigger] r@[i].0@ != #[trigger] r@[j].0@,
    {
        proof {
            use_type_invariant(self);
        }
        let mut r: Vec<(String, String)> = Vec::new();
        let mut i: usize = 0;
        while i < self.entries.len()
            invariant
                i <= self.entries@.len(),
                r@.len() == i,
                forall|j: int|
                    0 <= j < i ==> #[trigger] r@[j].0@ == self.entries@[j].0@ && r@[j].1@ == self.entries@[j].1@,
            decreases self.entries@.len() - i,
        {
            let k = owned(self.entries[i].0.as_str());
            let v = owned(self.entries[i].1.as_str());
            r.push((k, v));
            i = i + 1;
        }
        proof {
            assert forall|k: Seq<char>| #[trigger] self@.contains_key(k) implies exists|i: int|
                0 <= i < r@.len() && #[trigger] r@[i].0@ == k by {
                let j = choose|j: int| 0 <= j < self.entries@.len() && #[trigger] self.entries@[j].0@ == k;
                assert(r@[j].0@ == k);
            }
            assert forall|i: int, j: int|
                0 <= i < r@.len() && 0 <= j < r@.len() && i != j implies #[trigger] r@[i].0@
                != #[trigger] r@[j].0@ by {
                assert(r@[i].0@ == self.entries@[i].0@ && r@[j].0@ == self.entries@[j].0@);
            }
            assert forall|i: int| 0 <= i < r@.len() implies #[trigger] self@.contains_key(r@[i].0@)
                && self@[r@[i].0@] == r@[i].1@ by {
                assert(r@[i].0@ == self.entries@[i].0@ && r@[i].1@ == self.entries@[i].1@);
            }
        }
        r
    }

    /// Sets `key` to `value`; returns the value it replaced, if any
    /// (`BTreeMap::insert`).
    pub fn insert(&mut self, key: String, value: String) -> (r: Option<String>)
        ensures
            final(self)@ == old(self)@.insert(key@, value@),
            match r {
                Some(v) => old(self)@.contains_key(key@) && v@ == old(self)@[key@],
                None => !old(self)@.contains_key(key@),
            },
    {
        let mut taken = PrefixMap::new();
        std::mem::swap(&mut taken, self);
        proof {
            use_type_invariant(&taken);
        }
        let ghost e0 = taken.entries@;
        let ghost m = taken.model@;
        assert(entries_match(e0, m));
        let PrefixMap { mut entries, model } = taken;
        let n = entries.len();
        let mut i: usize = 0;
        while i < n
            invariant
                n == entries@.len(),
                entries@ == e0,
                i <= n,
                forall|j: int| 0 <= j < i ==> e0[j].0@ != key@,
            ensures
                i <= n,
                entries@ == e0,
                forall|j: int| 0 <= j < i ==> e0[j].0@ != key@,
                i < n ==> e0[i as int].0@ == key@,
            decreases n - i,
        {
            if str_eq(entries[i].0.as_str(), key.as_str()) {
                break;
            }
            i = i + 1;
        }
        let ghost new_model = m.insert(key@, value@);
        if i < n {
            let (_, old_value) = entries.remove(i);
            entries.insert(i, (key, value));
            proof {
                assert(entries@ == e0.update(i as int, (key, value)));
                assert(m.contains_key(e0[i as int].0@));
                assert forall|j: int| 0 <= j < entries@.len() implies #[trigger] new_model.contains_key(
                    entries@[j].0@,
                ) && new_model[entries@[j].0@] == entries@[j].1@ by {
                    if j != i {
                        assert(entries@[j] == e0[j]);
                        assert(m.contains_key(e0[j].0@));
                        assert(e0[j].0@ != e0[i as int].0@);
                    }
                }
                assert forall|k: Seq<char>| #[trigger] new_model.contains_key(k) implies exists|j: int|
                    0 <= j < entries@.len() && #[trigger] entries@[j].0@ == k by {
                    if k == key@ {
                        assert(entries@[i as int].0@ == k);
                    } else {
                        assert(m.contains_key(k));
                        let j = choose|j: int| 0 <= j < n && #[trigger] e0[j].0@ == k;
                        assert(j != i);
                        assert(entries@[j] == e0[j]);
                    }
                }
                assert forall|a: int, b: int|
                    0 <= a < entries@.len() && 0 <= b < entries@.len() && a != b
                        implies #[trigger] entries@[a].0@ != #[trigger] entries@[b].0@ by {
                    assert(e0[a].0@ != e0[b].0@);
                }
            }
            assert(entries_match(entries@, new_model));
            *self = PrefixMap { entries, model: Ghost(new_model) };
            Some(old_value)
        } else {
            entries.push((key, value));
            proof {
                assert(entries@ == e0.push((key, value)));
                assert(!m.contains_key(key@)) by {
                    if m.contains_key(key@) {
                        let j = choose|j: int| 0 <= j < n && #[trigger] e0[j].0@ == key@;
                    }
                }
                assert forall|j: int| 0 <= j < entries@.len() implies #[trigger] new_model.contains_key(
                    entries@[j].0@,
                ) && new_model[entries@[j].0@] == entries@[j].1@ by {
                    if j < n {
                        assert(entries@[j] == e0[j]);
                        assert(m.contains_key(e0[j].0@));
                    }
                }
                assert forall|k: Seq<char>| #[trigger] new_model.contains_key(k) implies exists|j: int|
                    0 <= j < entries@.len() && #[trigger] entries@[j].0@ == k by {
                    if k == key@ {
                        assert(entries@[n as int].0@ == k);
                    } else {
                        assert(m.contains_key(k));
                        let j = choose|j: int| 0 <= j < n && #[trigger] e0[j].0@ == k;
                        assert(entries@[j] == e0[j]);
                    }
                }
                assert forall|a: int, b: int|
                    0 <= a < entries@.len() && 0 <= b < entries@.len() && a != b
                        implies #[trigger] entries@[a].0@ != #[trigger] entries@[b].0@ by {
                    if a < n && b < n {
                        assert(e0[a].0@ != e0[b].0@);
                    }
                }
            }
            assert(entries_match(entries@, new_model));
            *self = PrefixMap { entries, model: Ghost(new_model) };
            None
        }
    }
}

/// The launcher's settings, as read from `config.toml` (missing keys take the
/// defaults of [`Config::default`]).
pub struct Config {
    /// Providers asked when the query has no prefix.
    pub providers: Vec<String>,
    /// Prefix that selects a provider by name (`/bluetooth`; `/` alone lists the
    /// installed ones). Empty to turn it off.
    pub provider_prefix: String,
    /// Prefix → provider, such as `"=" = "calc"`.
    pub prefixes: PrefixMap,
    pub max_results: i32,
    pub width: i32,
    /// Distance from the top edge of the screen, in pixels.
    pub margin_top: i32,
    pub icon_size: i32,
    /// Close the launcher when it loses keyboard focus.
    pub close_on_focus_loss: bool,
    /// Actions preferred for Enter, most preferred first.
    pub primary_actions: Vec<String>,
    /// "Interactive" providers: after an action the launcher stays open and reloads.
    pub keep_open: Vec<String>,
    /// Preview of the selected window (windows provider).
    pub window_previews: bool,
}

/// The character views of a list of strings.
pub open spec fn views(v: Seq<String>) -> Seq<Seq<char>> {
    v.map_values(|s: String| s@)
}

/// The default `primary_actions`.
pub open spec fn default_primary_actions() -> Seq<Seq<char>> {
    seq![
        "start"@,
        "run"@,
        "focus"@,
        "focus_workspace"@,
        "connect"@,
        "disconnect"@,
        "pair"@,
        "menus:open"@,
        "menus:default"@,
        "activate"@,
        "open"@,
        "copy"@,
    ]
}

/// The default `keep_open` providers.
pub open spec fn default_keep_open() -> Seq<Seq<char>> {
    seq!["bluetooth"@, "wireplumber"@, "playerctl"@, "todo"@]
}

/// Owned copies of string literals, in order.
pub fn owned_all(items: &[&str]) -> (r: Vec<String>)
    ensures
        views(r@) == items@.map_values(|s: &str| s@),
{
    let mut r: Vec<String> = Vec::new();
    let mut i: usize = 0;
    while i < items.len()
        invariant
            i <= items@.len(),
            views(r@) == items@.take(i as int).map_values(|s: &str| s@),
        decreases items@.len() - i,
    {
        let ghost before = r@;
        r.push(owned(items[i]));
        assert(items@.take(i + 1) == items@.take(i as int).push(items@[i as int]));
        assert(views(r@) =~= views(before).push(items@[i as int]@));
        assert(items@.take(i + 1).map_values(|s: &str| s@) =~= items@.take(i as int).map_values(
            |s: &str| s@,
        ).push(items@[i as int]@));
        i = i + 1;
    }
    assert(items@.take(items@.len() as int) == items@);
    r
}

impl Default for Config {
    fn default() -> (r: Self)
        ensures
            views(r.providers@) == seq!["desktopapplications"@],
            r.provider_prefix@ == "/"@,
            r.prefixes@ == Map::<Seq<char>, Seq<char>>::empty(),
            r.max_results == 50,
            r.width == 680,
            r.margin_top == 180,
            r.icon_size == 32,
            r.close_on_focus_loss,
            views(r.primary_actions@) == default_primary_actions(),
            views(r.keep_open@) == default_keep_open(),
            r.window_previews,
    {
        let providers = owned_all(&["desktopapplications"]);
        let primary_actions = owned_all(
            &[
                "start",
                "run",
                "focus",
                "focus_workspace",
                "connect",
                "disconnect",
                "pair",
                "menus:open",
                "menus:default",
                "activate",
                "open",
                "copy",
            ],
        );
        let keep_open = owned_all(&["bluetooth", "wireplumber", "playerctl", "todo"]);
        Config {
            providers,
            prefixes: PrefixMap::new(),
            max_results: 50,
            width: 680,
            margin_top: 180,
            icon_size: 32,
            close_on_focus_loss: true,
            provider_prefix: owned("/"),
            primary_actions,
            window_previews: true,
            keep_open,
        }
    }
}

impl Config {
    /// Resolves a prefix: the provider to use (`None`: the default ones) and the
    /// query without the prefix. The longest matching prefix wins, so `>>` can
    /// live beside `>`.
    pub fn split_prefix<'a>(&self, text: &'a str) -> (r: (Option<String>, &'a str))
        ensures
            split_prefix_spec(self.prefixes@, text@) == (
                match r.0 {
                    Some(p) => Some(p@),
                    None => None,
                },
                r.1@,
            ),
    {
        self.prefixes.split(text)
    }
}

} // verus!
