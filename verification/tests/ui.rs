use runner::config::Config;
use runner::elephant::{Event, FuzzyInfo, Item, Kind};
use runner::ui::{
    action_matches_lowered, highlight_mask, provider_list, provider_matches_lowered, row_class,
    row_icon, section_header, Activation, Key, KeyCommand, Outcome, Refresh, RowIcon, Session,
};

fn installed() -> Vec<String> {
    vec![
        "desktopapplications".into(),
        "bluetooth".into(),
        "menus:power".into(),
    ]
}

fn session() -> Session {
    let mut s = Session::new(Config::default(), None);
    assert!(s.providers_discovered(installed()));
    s
}

fn result(id: &str, provider: &str, actions: &[&str]) -> Item {
    Item {
        identifier: id.into(),
        text: id.into(),
        provider: provider.into(),
        actions: actions.iter().map(|a| a.to_string()).collect(),
        kind: Kind::Result,
        ..Default::default()
    }
}

#[test]
fn menus_subscription_is_asked_once() {
    let mut s = session();
    s.subscribed_menus = true;
    assert!(!s.providers_discovered(installed()));
    let mut t = Session::new(Config::default(), None);
    assert!(!t.providers_discovered(vec!["calc".into()]));
    assert_eq!(t.installed, vec!["calc"]);
}

#[test]
fn default_query_asks_the_configured_providers() {
    let mut s = Session::new(Config::default(), Some(vec!["files".into()]));
    match s.refresh("fire") {
        Refresh::Show { state_request, query, prompt, placeholder } => {
            assert!(state_request.is_none());
            let q = query.expect("a query");
            assert_eq!(q.providers, Some(vec!["files".to_string()]));
            assert_eq!(q.query, "fire");
            assert_eq!(prompt, "\u{276f}");
            assert_eq!(placeholder, "Search, or type / for a provider");
        }
        _ => panic!("expected Show"),
    }
    assert!(s.query_busy);
    assert!(s.busy());
    let e = s.expect.as_ref().unwrap();
    assert_eq!(e.query, "fire");
    assert!(e.provider.is_none());
}

#[test]
fn slash_lists_providers() {
    let mut s = session();
    match s.refresh("/blue") {
        Refresh::Show { state_request, query, .. } => {
            assert!(state_request.is_none());
            assert!(query.is_none());
        }
        _ => panic!("expected Show"),
    }
    assert_eq!(s.results.len(), 1);
    assert_eq!(s.results[0].identifier, "bluetooth");
    assert_eq!(s.results[0].text, "Bluetooth");
    assert_eq!(s.results[0].subtext, "/bluetooth");
    assert_eq!(s.results[0].kind, Kind::Provider);
    assert!(!s.query_busy);
    assert!(matches!(s.refresh("/bluetooth"), Refresh::Enter { provider, query } if provider == "bluetooth" && query.is_empty()));
}

#[test]
fn provider_list_filters_by_name_and_label() {
    let all = provider_list(&installed(), "");
    assert_eq!(all.len(), 3);
    let apps = provider_list(&installed(), " APPL ");
    assert_eq!(apps.len(), 1);
    assert_eq!(apps[0].identifier, "desktopapplications");
    assert!(provider_list(&installed(), "zzz").is_empty());
}

#[test]
fn single_mode_asks_state_then_query() {
    let mut s = session();
    s.enter_mode("bluetooth");
    match s.refresh("cuf") {
        Refresh::Show { state_request, query, prompt, placeholder } => {
            assert_eq!(state_request.as_deref(), Some("bluetooth"));
            let q = query.unwrap();
            assert_eq!(q.providers, Some(vec!["bluetooth".to_string()]));
            assert_eq!(q.query, "cuf");
            assert_eq!(prompt, "bluetooth \u{276f}");
            assert_eq!(placeholder, "Search Bluetooth, Backspace to leave");
        }
        _ => panic!("expected Show"),
    }
    // The state is asked for once per provider.
    match s.refresh("cufs") {
        Refresh::Show { state_request, .. } => assert!(state_request.is_none()),
        _ => panic!("expected Show"),
    }
    s.exit_mode();
    assert!(s.active_mode.is_none());
}

#[test]
fn events_fill_the_results() {
    let mut s = session();
    s.refresh("fire");
    let ev = |qid, query: &str, id: &str| Event::Item {
        qid,
        query: query.into(),
        item: result(id, "desktopapplications", &[]),
    };
    assert!(matches!(s.handle_event(ev(1, "fire", "a")), Outcome::Rebuild));
    assert!(matches!(s.handle_event(ev(1, "fire", "b")), Outcome::Rebuild));
    assert_eq!(s.results.len(), 2);
    // Stale answers are dropped.
    assert!(matches!(s.handle_event(ev(1, "fir", "c")), Outcome::Nothing));
    assert_eq!(s.results.len(), 2);
    // A new qid starts the list again.
    assert!(matches!(s.handle_event(ev(2, "fire", "d")), Outcome::Rebuild));
    assert_eq!(s.results.len(), 1);
    assert_eq!(s.qid, 2);
    // An update replaces the first result with the same identifier and provider.
    let mut upd = result("d", "desktopapplications", &[]);
    upd.text = "new".into();
    assert!(matches!(s.handle_event(Event::Update { item: upd }), Outcome::Rebuild));
    assert_eq!(s.results[0].text, "new");
    assert!(matches!(
        s.handle_event(Event::Update { item: result("zz", "x", &[]) }),
        Outcome::Nothing
    ));
    assert!(matches!(s.handle_event(Event::Done), Outcome::Spinner));
    assert!(!s.query_busy);
    assert!(matches!(s.handle_event(Event::NoResults), Outcome::SpinnerAndRebuild));
    assert!(s.results.is_empty());
    assert_eq!(s.qid, -1);
    assert!(matches!(
        s.handle_event(Event::Disconnected("gone".into())),
        Outcome::Close(e) if e == "gone"
    ));
}

#[test]
fn events_without_a_query_are_ignored() {
    let mut s = session();
    assert!(matches!(
        s.handle_event(Event::Item { qid: 1, query: "".into(), item: result("a", "p", &[]) }),
        Outcome::Nothing
    ));
    assert!(matches!(s.handle_event(Event::NoResults), Outcome::Nothing));
}

#[test]
fn single_mode_items_must_come_from_the_provider() {
    let mut s = session();
    s.enter_mode("bluetooth");
    s.refresh("");
    assert!(matches!(
        s.handle_event(Event::Item { qid: 1, query: "".into(), item: result("a", "files", &[]) }),
        Outcome::Nothing
    ));
    assert!(matches!(
        s.handle_event(Event::Item { qid: 1, query: "".into(), item: result("a", "bluetooth", &[]) }),
        Outcome::Rebuild
    ));
}

#[test]
fn state_gives_provider_actions_rows() {
    let mut s = session();
    s.enter_mode("bluetooth");
    s.refresh("");
    assert!(matches!(
        s.handle_event(Event::State { provider: "files".into(), actions: vec!["x".into()] }),
        Outcome::Nothing
    ));
    assert!(matches!(
        s.handle_event(Event::State {
            provider: "bluetooth".into(),
            actions: vec!["enable".into(), "find".into()],
        }),
        Outcome::Rebuild
    ));
    assert_eq!(s.provider_actions.len(), 2);
    assert_eq!(s.provider_actions[0].text, "Enable");
    assert_eq!(s.provider_actions[0].kind, Kind::ProviderAction);
    assert_eq!(s.provider_actions[0].actions, vec!["enable"]);
    assert_eq!(s.rebuild(None), 0);
    assert_eq!(s.rows.len(), 2);
    // The mode's query filters the provider actions.
    s.refresh("SCAN ");
    s.handle_event(Event::State {
        provider: "bluetooth".into(),
        actions: vec!["enable".into(), "find".into()],
    });
    s.rebuild(None);
    assert_eq!(s.rows.len(), 1);
    assert_eq!(s.rows[0].text, "Scan for devices");
}

#[test]
fn subscription_enters_menu_modes() {
    let mut s = session();
    assert!(matches!(
        s.handle_event(Event::Subscription("menus:wifi".into())),
        Outcome::ClearEntry
    ));
    assert_eq!(s.active_mode.as_deref(), Some("menus:wifi"));
    assert!(s.installed.iter().any(|p| p == "menus:wifi"));
    let mut t = session();
    assert!(matches!(t.handle_event(Event::Subscription("menus:".into())), Outcome::Nothing));
    assert!(matches!(t.handle_event(Event::Subscription("other".into())), Outcome::Nothing));
    assert!(t.active_mode.is_none());
}

#[test]
fn rebuild_keeps_the_moved_selection() {
    let mut s = session();
    s.refresh("x");
    for id in ["a", "b", "c"] {
        s.handle_event(Event::Item {
            qid: 1,
            query: "x".into(),
            item: result(id, "desktopapplications", &[]),
        });
    }
    assert!(s.schedule_rebuild());
    assert!(!s.schedule_rebuild());
    assert_eq!(s.rebuild(None), 0);
    assert!(!s.rebuild_scheduled);
    // Without a move, the first row is selected.
    assert_eq!(s.rebuild(Some(2)), 0);
    assert_eq!(s.move_selection(Some(0), 2), Some(2));
    assert_eq!(s.rebuild(Some(2)), 2);
    // The selected row moved up after a removal at the front.
    s.handle_event(Event::Item {
        qid: 2,
        query: "x".into(),
        item: result("c", "desktopapplications", &[]),
    });
    assert_eq!(s.rebuild(Some(2)), 0);
}

#[test]
fn selection_wraps_around() {
    let mut s = session();
    assert_eq!(s.move_selection(None, 1), None);
    assert!(!s.user_moved);
    s.refresh("x");
    for id in ["a", "b", "c"] {
        s.handle_event(Event::Item {
            qid: 1,
            query: "x".into(),
            item: result(id, "desktopapplications", &[]),
        });
    }
    s.rebuild(None);
    assert_eq!(s.move_selection(None, 1), Some(0));
    assert!(s.user_moved);
    assert_eq!(s.move_selection(Some(0), -1), Some(2));
    assert_eq!(s.move_selection(Some(2), 1), Some(0));
    assert_eq!(s.move_selection(Some(1), -7), Some(0));
    assert_eq!(s.move_selection(Some(1), 3), Some(1));
    assert_eq!(s.move_selection(Some(1), -4), Some(0));
}

#[test]
fn keys() {
    let mut s = session();
    let k = |s: &Session, key, ctrl, alt, digit, empty| s.key_command(key, ctrl, alt, digit, empty, None);
    assert_eq!(k(&s, Key::Escape, false, false, None, true), KeyCommand::Close);
    assert_eq!(k(&s, Key::BackSpace, false, false, None, true), KeyCommand::Proceed);
    s.enter_mode("bluetooth");
    assert_eq!(k(&s, Key::BackSpace, false, false, None, true), KeyCommand::ExitMode);
    assert_eq!(k(&s, Key::BackSpace, false, false, None, false), KeyCommand::Proceed);
    assert_eq!(k(&s, Key::Down, false, false, None, false), KeyCommand::Move(1));
    assert_eq!(k(&s, Key::Tab, false, false, None, false), KeyCommand::Move(1));
    assert_eq!(k(&s, Key::Up, false, false, None, false), KeyCommand::Move(-1));
    assert_eq!(k(&s, Key::IsoLeftTab, false, false, None, false), KeyCommand::Move(-1));
    assert_eq!(k(&s, Key::J, true, false, None, false), KeyCommand::Move(1));
    assert_eq!(k(&s, Key::N, true, false, None, false), KeyCommand::Move(1));
    assert_eq!(k(&s, Key::K, true, false, None, false), KeyCommand::Move(-1));
    assert_eq!(k(&s, Key::P, true, false, None, false), KeyCommand::Move(-1));
    assert_eq!(k(&s, Key::J, false, false, None, false), KeyCommand::Proceed);
    assert_eq!(k(&s, Key::Return, false, false, None, false), KeyCommand::Activate(0));
    assert_eq!(k(&s, Key::KpEnter, false, false, None, false), KeyCommand::Activate(0));
    assert_eq!(k(&s, Key::Other, false, true, Some(3), false), KeyCommand::Activate(2));
    assert_eq!(k(&s, Key::Other, false, true, Some(0), false), KeyCommand::Proceed);
    assert_eq!(k(&s, Key::Other, false, false, Some(3), false), KeyCommand::Proceed);
    // Tab on a provider entry opens its mode.
    let mut t = session();
    t.refresh("/");
    t.rebuild(None);
    assert_eq!(t.selected_kind(Some(0)), Some(Kind::Provider));
    assert_eq!(t.selected_kind(Some(9)), None);
    assert_eq!(t.key_command(Key::Tab, false, false, None, false, Some(0)), KeyCommand::Activate(0));
}

#[test]
fn footer_hints() {
    let mut s = session();
    s.refresh("x");
    s.handle_event(Event::Item {
        qid: 1,
        query: "x".into(),
        item: result("a", "desktopapplications", &["new_window", "start"]),
    });
    s.rebuild(None);
    let f = s.footer(Some(0));
    assert_eq!(
        f,
        vec![
            ("Enter".to_string(), "Start".to_string()),
            ("Alt+2".to_string(), "New window".to_string()),
        ]
    );
    assert!(s.footer(None).is_empty());
    assert!(s.footer(Some(5)).is_empty());
    let mut t = session();
    t.refresh("/");
    t.rebuild(None);
    assert_eq!(t.footer(Some(0)), vec![("Enter".to_string(), "Open this mode".to_string())]);
}

#[test]
fn footer_shows_nine_actions_at_most() {
    let mut s = session();
    s.refresh("x");
    let acts: Vec<String> = (0..12).map(|i| format!("a{i}")).collect();
    let refs: Vec<&str> = acts.iter().map(|a| a.as_str()).collect();
    s.handle_event(Event::Item {
        qid: 1,
        query: "x".into(),
        item: result("a", "p", &refs),
    });
    s.rebuild(None);
    let f = s.footer(Some(0));
    assert_eq!(f.len(), 9);
    assert_eq!(f[8].0, "Alt+9");
}

#[test]
fn activations() {
    let mut s = session();
    s.refresh("x");
    s.handle_event(Event::Item {
        qid: 1,
        query: "x".into(),
        item: result("a", "desktopapplications", &["new_window", "start"]),
    });
    s.handle_event(Event::Item {
        qid: 1,
        query: "x".into(),
        item: result("b", "bluetooth:dev", &[]),
    });
    s.rebuild(None);
    match s.activation(0, 0) {
        Activation::Run { item, action, query, single, keep_open } => {
            assert_eq!(item.identifier, "a");
            assert_eq!(action, "start");
            assert_eq!(query, "x");
            assert!(!single);
            assert!(!keep_open);
        }
        _ => panic!("expected Run"),
    }
    assert!(matches!(s.activation(0, 1), Activation::Run { action, .. } if action == "new_window"));
    assert!(matches!(s.activation(0, 2), Activation::Nothing));
    assert!(matches!(s.activation(7, 0), Activation::Nothing));
    // No actions: the default one; bluetooth stays open.
    assert!(matches!(s.activation(1, 0), Activation::Run { action, keep_open: true, .. } if action.is_empty()));
    let mut t = session();
    t.refresh("/");
    t.rebuild(None);
    assert!(matches!(t.activation(1, 0), Activation::EnterMode(p) if p == "bluetooth"));
}

#[test]
fn submenus_open_as_modes() {
    let mut s = session();
    s.refresh("x");
    s.handle_event(Event::Item {
        qid: 1,
        query: "x".into(),
        item: result("menus:wifi:list", "menus:power", &["menus:open"]),
    });
    s.rebuild(None);
    assert!(matches!(s.activation(0, 0), Activation::EnterMode(m) if m == "menus:wifi"));
}

#[test]
fn busy_counts_activations() {
    let mut s = session();
    assert!(!s.busy());
    s.begin_activation();
    s.begin_activation();
    assert!(s.busy());
    s.state_provider = Some("bluetooth".into());
    s.finish_activation();
    assert!(s.state_provider.is_none());
    assert!(s.busy());
    s.finish_activation();
    assert!(!s.busy());
}

#[test]
fn item_actions_by_kind() {
    let s = session();
    let r = result("a", "p", &["copy", "start"]);
    assert_eq!(s.item_actions(&r), vec!["start", "copy"]);
    let mut pa = result("a", "p", &["copy", "start"]);
    pa.kind = Kind::ProviderAction;
    assert_eq!(s.item_actions(&pa), vec!["copy", "start"]);
    let mut pr = result("a", "p", &["copy"]);
    pr.kind = Kind::Provider;
    assert!(s.item_actions(&pr).is_empty());
}

#[test]
fn icons() {
    assert!(matches!(row_icon("/usr/share/x.png"), RowIcon::File(p) if p == "/usr/share/x.png"));
    assert!(matches!(row_icon("firefox"), RowIcon::Named(n) if n == "firefox"));
    assert!(matches!(row_icon(""), RowIcon::Named(n) if n == "application-x-executable"));
}

#[test]
fn highlights() {
    let mut it = result("a", "p", &[]);
    it.fuzzyinfo = Some(FuzzyInfo { field: "text".into(), positions: vec![0, 2, 9] });
    assert_eq!(highlight_mask(&it, "text", "fire"), vec![true, false, true, false]);
    assert_eq!(highlight_mask(&it, "subtext", "fire"), vec![false; 4]);
    it.fuzzyinfo = None;
    assert_eq!(highlight_mask(&it, "text", "ab"), vec![false, false]);
    assert!(highlight_mask(&it, "text", "").is_empty());
}

#[test]
fn results_before_provider_commands() {
    let mut s = session();
    s.enter_mode("bluetooth");
    s.refresh("");
    s.handle_event(Event::State { provider: "bluetooth".into(), actions: vec!["power_off".into()] });
    s.handle_event(Event::Item { qid: 4, query: "".into(), item: result("headphones", "bluetooth", &["connect"]) });
    assert_eq!(s.rebuild(None), 0);
    assert_eq!(s.rows.len(), 2);
    assert_eq!(s.rows[0].identifier, "headphones");
    assert_eq!(s.rows[1].kind, Kind::ProviderAction);
    assert_eq!(s.rows[1].text, "Turn off");
    match s.activation(0, 0) {
        Activation::Run { action, single, keep_open, .. } => {
            assert_eq!(action, "connect");
            assert!(single);
            assert!(keep_open);
        }
        _ => panic!("expected Run"),
    }
    assert!(matches!(s.activation(1, 0), Activation::Run { action, keep_open: true, .. } if action == "power_off"));
}

#[test]
fn lowered_matching() {
    assert!(provider_matches_lowered("", "x", "y"));
    assert!(provider_matches_lowered("appl", "desktopapplications", "applications"));
    assert!(provider_matches_lowered("blue", "bluetooth", "bluetooth"));
    assert!(provider_matches_lowered("audio", "wireplumber", "audio"));
    assert!(!provider_matches_lowered("zzz", "bluetooth", "bluetooth"));
    assert!(action_matches_lowered("", "turn off"));
    assert!(action_matches_lowered("scan", "scan for devices"));
    assert!(!action_matches_lowered("scan", "turn off"));
}

#[test]
fn row_classes_and_section_headers() {
    assert_eq!(row_class(Kind::Result), "result");
    assert_eq!(row_class(Kind::ProviderAction), "provider-action");
    assert_eq!(row_class(Kind::Provider), "provider");
    assert_eq!(section_header("bluetooth"), "Bluetooth commands");
    assert_eq!(section_header("menus:power"), "power commands");
    assert_eq!(section_header("xyz"), "xyz commands");
}
