use runner::capture::{match_window, Toplevel, ToplevelDetail, ToplevelList};

#[test]
fn duplicate_titles_match_in_order() {
    let t = |id: &str, title: &str| Toplevel {
        identifier: id.into(),
        title: title.into(),
        app_id: "kitty".into(),
    };
    let list = [t("a", "fish"), t("b", "vim"), t("c", "fish")];
    assert_eq!(match_window(&list, "fish", "kitty", 0), Some("a"));
    assert_eq!(match_window(&list, "fish", "kitty", 1), Some("c"));
    assert_eq!(match_window(&list, "fish", "firefox", 0), None);
}

#[test]
fn occurrence_past_the_last_match_is_none() {
    let w = Toplevel {
        identifier: "x".into(),
        title: "vim".into(),
        app_id: "kitty".into(),
    };
    assert_eq!(match_window(&[w], "vim", "kitty", 1), None);
    assert_eq!(match_window(&[], "vim", "kitty", 0), None);
}

#[test]
fn details_go_to_the_first_window_with_the_handle() {
    let mut list = ToplevelList::new();
    list.announce(7);
    list.announce(9);
    list.describe(9, ToplevelDetail::Title("vim".into()));
    list.describe(9, ToplevelDetail::AppId("kitty".into()));
    list.describe(9, ToplevelDetail::Identifier("id-9".into()));
    list.describe(7, ToplevelDetail::Title("fish".into()));
    // No such handle: dropped.
    list.describe(3, ToplevelDetail::Identifier("id-3".into()));
    let out = list.into_toplevels();
    // Window 7 never reported an identifier, so it is left out.
    assert_eq!(out.len(), 1);
    assert_eq!(out[0].identifier, "id-9");
    assert_eq!(out[0].title, "vim");
    assert_eq!(out[0].app_id, "kitty");
}
