use runner::config::{Config, PrefixMap};

#[test]
fn longest_prefix_wins() {
    let mut c = Config::default();
    c.prefixes.insert(">".into(), "runner".into());
    c.prefixes.insert(">>".into(), "files".into());
    assert_eq!(c.split_prefix(">>ls"), (Some("files".to_string()), "ls"));
    assert_eq!(c.split_prefix(">ls"), (Some("runner".to_string()), "ls"));
    assert_eq!(c.split_prefix("ls"), (None, "ls"));
}

#[test]
fn insert_replaces_the_value_of_a_key() {
    let mut m = PrefixMap::new();
    assert_eq!(m.insert("=".into(), "calc".into()), None);
    assert_eq!(m.insert("=".into(), "bc".into()), Some("calc".to_string()));
    let mut c = Config::default();
    c.prefixes = m;
    assert_eq!(c.split_prefix("=1+1"), (Some("bc".to_string()), "1+1"));
}

#[test]
fn defaults() {
    let c = Config::default();
    assert_eq!(c.providers, vec!["desktopapplications"]);
    assert_eq!(c.provider_prefix, "/");
    assert_eq!(c.max_results, 50);
    assert_eq!(c.width, 680);
    assert_eq!(c.margin_top, 180);
    assert_eq!(c.icon_size, 32);
    assert!(c.close_on_focus_loss);
    assert!(c.window_previews);
    assert_eq!(c.keep_open, vec!["bluetooth", "wireplumber", "playerctl", "todo"]);
    assert_eq!(c.primary_actions.len(), 12);
    assert_eq!(c.primary_actions[0], "start");
    assert_eq!(c.primary_actions[11], "copy");
    assert_eq!(c.split_prefix("=2"), (None, "=2"));
}

#[test]
fn prefixes_with_unicode() {
    let mut c = Config::default();
    c.prefixes.insert("é".into(), "emoji".into());
    assert_eq!(c.split_prefix("ésmile"), (Some("emoji".to_string()), "smile"));
}

#[test]
fn pairs_hold_each_key_once() {
    let mut m = PrefixMap::new();
    assert!(m.pairs().is_empty());
    m.insert("=".into(), "calc".into());
    m.insert(">".into(), "runner".into());
    m.insert("=".into(), "bc".into());
    assert_eq!(
        m.pairs(),
        vec![("=".to_string(), "bc".to_string()), (">".to_string(), "runner".to_string())]
    );
}
