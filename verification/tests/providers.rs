use runner::config::Config;
use runner::providers::{
    action_label, action_words_of, describe, label_with, order_actions, parse_mode,
    parse_provider_list, Mode,
};

fn installed() -> Vec<String> {
    vec![
        "desktopapplications".into(),
        "bluetooth".into(),
        "menus:power".into(),
    ]
}

fn enter<'a>(provider: &str, query: &'a str) -> Mode<'a> {
    Mode::Enter {
        provider: provider.into(),
        query,
    }
}

#[test]
fn slash_mode() {
    let c = Config::default();
    let p = installed();
    let parse = |t| parse_mode(t, None, &c, &p);
    assert_eq!(parse("/"), Mode::ProviderList { filter: "" });
    assert_eq!(parse("/blue"), Mode::ProviderList { filter: "blue" });
    assert_eq!(parse("/bluetooth"), enter("bluetooth", ""));
    assert_eq!(parse("/bluetooth cuf"), enter("bluetooth", "cuf"));
    assert_eq!(parse("/menus:power "), enter("menus:power", ""));
    assert_eq!(parse("/nope x"), Mode::ProviderList { filter: "nope x" });
    assert_eq!(parse("fire"), Mode::Default { query: "fire" });
    // Inside a mode "/" is plain text too.
    assert_eq!(
        parse_mode("/x", Some("bluetooth"), &c, &p),
        Mode::Single {
            provider: "bluetooth".into(),
            query: "/x"
        }
    );
}

#[test]
fn config_prefix() {
    let mut c = Config::default();
    c.prefixes.insert("=".into(), "calc".into());
    assert_eq!(
        parse_mode("=2+2", None, &c, &[]),
        Mode::Single {
            provider: "calc".into(),
            query: "2+2"
        }
    );
}

#[test]
fn bluetooth_actions_are_safe() {
    let preferred = Config::default().primary_actions;
    let a = |v: &[&str]| v.iter().map(|s| s.to_string()).collect::<Vec<_>>();
    assert_eq!(
        order_actions(&a(&["remove", "trust", "remove", "connect"]), &preferred),
        a(&["connect", "trust", "remove"])
    );
    assert_eq!(
        order_actions(&a(&["start", "pin", "erase_history"]), &preferred),
        a(&["start", "pin", "erase_history"])
    );
    // Runner provider: Enter runs, Alt+2 opens in the terminal.
    assert_eq!(
        order_actions(&a(&["run", "runterminal", "erase_history"]), &preferred),
        a(&["run", "runterminal", "erase_history"])
    );
}

#[test]
fn preferred_order_wins_over_elephant_order() {
    let s = |v: &[&str]| v.iter().map(|s| s.to_string()).collect::<Vec<_>>();
    // "delete" is destructive but preferred, so it comes first; "clear" stays last.
    assert_eq!(
        order_actions(&s(&["clear", "x", "open", "delete", "x"]), &s(&["delete", "open", "delete"])),
        s(&["delete", "open", "x", "clear"])
    );
    assert_eq!(order_actions(&[], &s(&["open"])), Vec::<String>::new());
}

#[test]
fn order_keeps_every_action_once() {
    let s = |v: &[&str]| v.iter().map(|s| s.to_string()).collect::<Vec<_>>();
    let actions = s(&["remove", "b", "a", "remove", "clear", "b", "start"]);
    let out = order_actions(&actions, &Config::default().primary_actions);
    let mut sorted = out.clone();
    sorted.sort();
    sorted.dedup();
    assert_eq!(sorted.len(), out.len());
    for a in &actions {
        assert!(out.contains(a));
    }
    assert_eq!(out, s(&["start", "b", "a", "remove", "clear"]));
}

#[test]
fn describe_known_menu_and_unknown_providers() {
    assert_eq!(describe("bluetooth"), ("Bluetooth".to_string(), "bluetooth-symbolic"));
    assert_eq!(describe("menus:power"), ("power".to_string(), "view-list-symbolic"));
    assert_eq!(describe("bitwarden"), ("bitwarden".to_string(), "dialog-password"));
    assert_eq!(describe("foo"), ("foo".to_string(), "application-x-executable"));
    assert_eq!(describe("menus:"), ("".to_string(), "view-list-symbolic"));
}

#[test]
fn action_labels() {
    assert_eq!(action_label("power_on"), "Turn on");
    assert_eq!(action_label("menus:parent"), "Back to parent menu");
    assert_eq!(action_label("menus:menus:go_to-next:page"), "Go to next page");
    assert_eq!(action_label("toggle_wifi"), "Toggle wifi");
    assert_eq!(action_label(""), "");
    assert_eq!(action_label("menus:"), "");
    // Upper-casing follows Unicode: 'ß' becomes "SS".
    assert_eq!(action_label("ßtraße"), "SStraße");
    assert_eq!(action_label("éclair"), "Éclair");
}

#[test]
fn provider_list_output() {
    let out = parse_provider_list("desktopapplications\n  bluetooth \r\n\n menus:power\n");
    assert_eq!(out, vec!["desktopapplications", "bluetooth", "menus:power"]);
    assert!(parse_provider_list("").is_empty());
    assert_eq!(parse_provider_list("calc"), vec!["calc"]);
}

#[test]
fn provider_prefix_can_be_turned_off() {
    let mut c = Config::default();
    c.provider_prefix = String::new();
    let p = installed();
    assert_eq!(parse_mode("/bluetooth", None, &c, &p), Mode::Default { query: "/bluetooth" });
}

#[test]
fn mode_provider() {
    let m = Mode::Single {
        provider: "calc".into(),
        query: "1",
    };
    assert_eq!(m.provider(), Some("calc"));
    assert_eq!(enter("bluetooth", "").provider(), Some("bluetooth"));
    assert_eq!(Mode::Default { query: "x" }.provider(), None);
    assert_eq!(Mode::ProviderList { filter: "x" }.provider(), None);
}

#[test]
fn labels_from_the_upper_cased_first_character() {
    assert_eq!(label_with("menus:play_next-track", "P"), "Play next track");
    assert_eq!(label_with("menus:menus:x", "X"), "X");
    assert_eq!(label_with("éclair", "É"), "Éclair");
    assert_eq!(label_with("ß_x", "SS"), "SS x");
    // A known action keeps its fixed label whatever is passed.
    assert_eq!(label_with("power_off", "Q"), "Turn off");
    assert_eq!(label_with("menus:", "Q"), "");
    assert_eq!(action_words_of("menus:play_next-track"), "play next track".chars().collect::<Vec<_>>());
    assert_eq!(action_label("ß_x"), "SS x");
}

#[test]
fn labelling_a_label_gives_it_back() {
    for a in ["start", "find", "menus:play_next-track", "runterminal", "power_on", "x", "", "menus:", "9lives"] {
        let l = action_label(a);
        assert_eq!(action_label(&l), l);
    }
}

#[test]
fn ordering_twice_changes_nothing() {
    let s = |v: &[&str]| v.iter().map(|x| x.to_string()).collect::<Vec<String>>();
    let preferred = s(&["connect", "start"]);
    let actions = s(&["remove", "trust", "connect", "remove", "pin", "start"]);
    let once = order_actions(&actions, &preferred);
    assert_eq!(once, s(&["connect", "start", "trust", "pin", "remove"]));
    assert_eq!(order_actions(&once, &preferred), once);
}
