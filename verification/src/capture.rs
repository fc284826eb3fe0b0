//! Window previews: which open window an item of the windows provider stands for.
//!
//! Elephant gives only title, app_id and an internal id. To capture a window one
//! needs its `ext-foreign-toplevel-list` identifier, read over a Wayland connection
//! of our own; the capture itself is done by `grim -T <identifier>`.
use vstd::prelude::*;

use crate::text::{owned, str_eq};

verus! {

/// An open window, as `ext-foreign-toplevel-list` describes it.
#[derive(Debug)]
pub struct Toplevel {
    pub identifier: String,
    pub title: String,
    pub app_id: String,
}

/// `Toplevel` over plain values.
pub struct ToplevelModel {
    pub identifier: Seq<char>,
    pub title: Seq<char>,
    pub app_id: Seq<char>,
}

impl View for Toplevel {
    type V = ToplevelModel;

    open spec fn view(&self) -> ToplevelModel {
        ToplevelModel { identifier: self.identifier@, title: self.title@, app_id: self.app_id@ }
    }
}

impl Clone for Toplevel {
    fn clone(&self) -> (r: Self)
        ensures
            r@ == self@,
    {
        Toplevel {
            identifier: owned(self.identifier.as_str()),
            title: owned(self.title.as_str()),
            app_id: owned(self.app_id.as_str()),
        }
    }
}

impl Default for Toplevel {
    fn default() -> (r: Self)
        ensures
            r@ == (ToplevelModel {
                identifier: Seq::empty(),
                title: Seq::empty(),
                app_id: Seq::empty(),
            }),
    {
        Toplevel { identifier: String::new(), title: String::new(), app_id: String::new() }
    }
}

/// The windows of a list, over plain values.
pub open spec fn toplevel_views(ts: Seq<Toplevel>) -> Seq<ToplevelModel> {
    ts.map_values(|t: Toplevel| t@)
}

/// The windows with this title and app_id, in order.
pub open spec fn same_window(ts: Seq<ToplevelModel>, title: Seq<char>, app_id: Seq<char>) -> Seq<
    ToplevelModel,
> {
    ts.filter(|t: ToplevelModel| t.title == title && t.app_id == app_id)
}

/// The identifier of the window that an item of the windows provider stands for
/// (title in `text`, app_id in `subtext`). With several equal windows, the n-th
/// occurrence among the items goes to the n-th among the windows.
pub fn match_window<'a>(toplevels: &'a [Toplevel], title: &str, app_id: &str, occurrence: usize) -> (r:
    Option<&'a str>)
    ensures
        match r {
            Some(id) => occurrence < same_window(toplevel_views(toplevels@), title@, app_id@).len()
                && id@ == same_window(toplevel_views(toplevels@), title@, app_id@)[occurrence as int].identifier,
            None => occurrence >= same_window(toplevel_views(toplevels@), title@, app_id@).len(),
        },
{
    let ghost ts = toplevel_views(toplevels@);
    let ghost p = |t: ToplevelModel| t.title == title@ && t.app_id == app_id@;
    let mut seen: usize = 0;
    let mut i: usize = 0;
    while i < toplevels.len()
        invariant
            i <= toplevels@.len(),
            ts == toplevel_views(toplevels@),
            p == (|t: ToplevelModel| t.title == title@ && t.app_id == app_id@),
            seen == ts.take(i as int).filter(p).len(),
            seen <= occurrence,
            seen <= i,
        decreases toplevels@.len() - i,
    {
        let t = &toplevels[i];
        let hit = str_eq(t.title.as_str(), title) && str_eq(t.app_id.as_str(), app_id);
        proof {
            assert(ts.take(i + 1) == ts.take(i as int).push(ts[i as int]));
            crate::text::lemma_filter_push(ts.take(i as int), p, ts[i as int]);
            assert(ts[i as int] == t@);
        }
        if hit {
            if seen == occurrence {
                proof {
                    let pre = ts.take(i + 1);
                    assert(ts == pre + ts.skip(i + 1));
                    Seq::filter_distributes_over_add(pre, ts.skip(i + 1), p);
                    assert(pre.filter(p)[seen as int] == t@);
                }
                return Some(t.identifier.as_str());
            }
            seen = seen + 1;
        }
        i = i + 1;
    }
    assert(ts.take(i as int) == ts);
    None
}

/// A detail that `ext-foreign-toplevel-handle` reports of a window.
pub enum ToplevelDetail {
    Title(String),
    AppId(String),
    Identifier(String),
}

/// The windows announced so far, in the order they were opened (this tells windows
/// with the same title apart), each under the protocol id of its handle.
pub struct ToplevelList {
    entries: Vec<(u32, Toplevel)>,
}

/// `ToplevelList` over plain values.
pub open spec fn entry_views(e: Seq<(u32, Toplevel)>) -> Seq<(u32, ToplevelModel)> {
    e.map_values(|x: (u32, Toplevel)| (x.0, x.1@))
}

/// The first entry announced under `id`.
pub open spec fn first_with_id(e: Seq<(u32, ToplevelModel)>, id: u32) -> Option<int>
    decreases e.len(),
{
    if e.len() == 0 {
        None
    } else if e[0].0 == id {
        Some(0)
    } else {
        match first_with_id(e.drop_first(), id) {
            Some(i) => Some(i + 1),
            None => None,
        }
    }
}

/// A window with one detail set.
pub open spec fn with_detail(t: ToplevelModel, d: ToplevelDetail) -> ToplevelModel {
    match d {
        ToplevelDetail::Title(s) => ToplevelModel { title: s@, ..t },
        ToplevelDetail::AppId(s) => ToplevelModel { app_id: s@, ..t },
        ToplevelDetail::Identifier(s) => ToplevelModel { identifier: s@, ..t },
    }
}

proof fn lemma_first_with_id_at(e: Seq<(u32, ToplevelModel)>, id: u32, i: int)
    requires
        0 <= i <= e.len(),
        i < e.len() ==> e[i].0 == id,
        forall|j: int| 0 <= j < i ==> e[j].0 != id,
    ensures
        first_with_id(e, id) == (if i < e.len() {
            Some(i)
        } else {
            None::<int>
        }),
    decreases e.len(),
{
    if e.len() > 0 && i > 0 {
        let t = e.drop_first();
        assert forall|j: int| 0 <= j < i - 1 implies t[j].0 != id by {
            assert(t[j] == e[j + 1]);
        }
        if i - 1 < t.len() {
            assert(t[i - 1] == e[i]);
        }
        lemma_first_with_id_at(t, id, i - 1);
    }
}

impl View for ToplevelList {
    type V = Seq<(u32, ToplevelModel)>;

    closed spec fn view(&self) -> Seq<(u32, ToplevelModel)> {
        entry_views(self.entries@)
    }
}

impl ToplevelList {
    /// No window announced yet.
    pub fn new() -> (r: Self)
        ensures
            r@ == Seq::<(u32, ToplevelModel)>::empty(),
    {
        let r = ToplevelList { entries: Vec::new() };
        assert(r@ =~= Seq::<(u32, ToplevelModel)>::empty());
        r
    }

    /// A new window was announced under the handle `id`.
    pub fn announce(&mut self, id: u32)
        ensures
            final(self)@ == old(self)@.push(
                (id, ToplevelModel { identifier: Seq::empty(), title: Seq::empty(), app_id: Seq::empty() }),
            ),
    {
        self.entries.push((id, Toplevel::default()));
        assert(entry_views(self.entries@) =~= entry_views(old(self).entries@).push(
            (id, ToplevelModel { identifier: Seq::empty(), title: Seq::empty(), app_id: Seq::empty() }),
        ));
    }

    /// The handle `id` reported a detail; it goes to the first window announced
    /// under that id, and is dropped if there is none.
    pub fn describe(&mut self, id: u32, detail: ToplevelDetail)
        ensures
            final(self)@ == (match first_with_id(old(self)@, id) {
                Some(i) => old(self)@.update(i, (id, with_detail(old(self)@[i].1, detail))),
                None => old(self)@,
            }),
    {
        let ghost e = self@;
        let n = self.entries.len();
        let mut i: usize = 0;
        while i < n
            invariant
                n == self.entries@.len(),
                e == entry_views(self.entries@),
                i <= n,
                forall|j: int| 0 <= j < i ==> e[j].0 != id,
            ensures
                i <= n,
                forall|j: int| 0 <= j < i ==> e[j].0 != id,
                i < n ==> self.entries@[i as int].0 == id,
            decreases n - i,
        {
            if self.entries[i].0 == id {
                break;
            }
            i = i + 1;
        }
        proof {
            if i < n {
                assert(e[i as int].0 == self.entries@[i as int].0);
            }
            lemma_first_with_id_at(e, id, i as int);
        }
        if i < n {
            let (_, mut t) = self.entries.remove(i);
            let ghost before = t@;
            match detail {
                ToplevelDetail::Title(s) => {
                    t.title = s;
                },
                ToplevelDetail::AppId(s) => {
                    t.app_id = s;
                },
                ToplevelDetail::Identifier(s) => {
                    t.identifier = s;
                },
            }
            self.entries.insert(i, (id, t));
            assert(entry_views(self.entries@) =~= e.update(i as int, (id, with_detail(e[i as int].1, detail))));
        }
    }

    /// The windows announced, in order, without those that never reported an identifier.
    pub fn into_toplevels(self) -> (r: Vec<Toplevel>)
        ensures
            toplevel_views(r@) == self@.map_values(|x: (u32, ToplevelModel)| x.1).filter(
                |t: ToplevelModel| t.identifier.len() > 0,
            ),
    {
        let ghost ts = self@.map_values(|x: (u32, ToplevelModel)| x.1);
        let ghost p = |t: ToplevelModel| t.identifier.len() > 0;
        let mut r: Vec<Toplevel> = Vec::new();
        let mut i: usize = 0;
        while i < self.entries.len()
            invariant
                i <= self.entries@.len(),
                ts == self@.map_values(|x: (u32, ToplevelModel)| x.1),
                self@ == entry_views(self.entries@),
                p == (|t: ToplevelModel| t.identifier.len() > 0),
                toplevel_views(r@) == ts.take(i as int).filter(p),
            decreases self.entries@.len() - i,
        {
            let t = &self.entries[i].1;
            proof {
                assert(ts[i as int] == t@);
                assert(ts.take(i + 1) == ts.take(i as int).push(ts[i as int]));
                crate::text::lemma_filter_push(ts.take(i as int), p, ts[i as int]);
            }
            if !t.identifier.as_str().is_empty() {
                let ghost before = r@;
                r.push(t.clone());
                assert(toplevel_views(r@) =~= toplevel_views(before).push(t@));
            }
            i = i + 1;
        }
        assert(ts.take(i as int) == ts);
        r
    }
}

} // verus!
