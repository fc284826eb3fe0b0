use runner::theme::{parse_gradient, Theme};

#[test]
fn hypr_gradient() {
    let (colors, angle) = parse_gradient("ee33ccff ee00ff99 45deg").unwrap();
    assert_eq!(angle, 45);
    assert_eq!(colors, ["alpha(#33ccff, 0.93)", "alpha(#00ff99, 0.93)"]);
    assert!(parse_gradient("").is_none());
}

#[test]
fn gradient_edge_cases() {
    // A bad angle rejects the whole gradient.
    assert!(parse_gradient("ee33ccff xdeg").is_none());
    assert!(parse_gradient("ee33ccff deg").is_none());
    assert!(parse_gradient("ee33ccff 99999999999deg").is_none());
    // Angles only: no colours.
    assert!(parse_gradient("45deg").is_none());
    // Other tokens are ignored; the last angle wins; no angle means 0.
    assert_eq!(
        parse_gradient("  ffFFFFFF\tjunk 10deg +20deg\n"),
        Some((vec!["alpha(#FFFFFF, 1.00)".to_string()], 20))
    );
    assert_eq!(
        parse_gradient("00000000"),
        Some((vec!["alpha(#000000, 0.00)".to_string()], 0))
    );
    assert!(parse_gradient("ee33ccf").is_none());
}

#[test]
fn alpha_has_two_rounded_decimals() {
    for a in 0u32..=255 {
        let token = format!("{:02x}123456", a);
        let (colors, _) = parse_gradient(&token).unwrap();
        let expected = format!("alpha(#123456, {:.2})", a as f32 / 255.0);
        assert_eq!(colors[0], expected, "alpha byte {a}");
    }
}

#[test]
fn load_prefers_wal_and_falls_back() {
    let t = Theme::load(None, None);
    assert_eq!(t.background, "#1d1a24");
    assert_eq!(t.foreground, "#d4cfd8");
    assert_eq!(t.accent, "#e29b69");
    assert!(t.border.is_none());
    let t = Theme::load(Some(("#000".into(), "#fff".into(), None)), Some("ee33ccff 90deg"));
    assert_eq!(t.background, "#000");
    assert_eq!(t.foreground, "#fff");
    assert_eq!(t.accent, "#e29b69");
    assert_eq!(t.border, Some((vec!["alpha(#33ccff, 0.93)".to_string()], 90)));
    let t = Theme::load(Some(("#000".into(), "#fff".into(), Some("#123".into()))), Some("nothing"));
    assert_eq!(t.accent, "#123");
    assert!(t.border.is_none());
}

#[test]
fn css() {
    let t = Theme::load(Some(("#000".into(), "#fff".into(), Some("#123".into()))), None);
    assert_eq!(
        t.colors_css(),
        "@define-color runner_bg #000;\n@define-color runner_fg #fff;\n@define-color runner_accent #123;\n"
    );
    assert_eq!(t.border_css(), "");
    let one = Theme::load(None, Some("ee33ccff 45deg"));
    assert_eq!(
        one.border_css(),
        "window.runner > .runner-frame { border-image: linear-gradient(45deg, alpha(#33ccff, 0.93), alpha(#33ccff, 0.93)) 1; }\n"
    );
    let two = Theme::load(None, Some("ee33ccff ee00ff99 45deg"));
    assert_eq!(
        two.border_css(),
        "window.runner > .runner-frame { border-image: linear-gradient(45deg, alpha(#33ccff, 0.93), alpha(#00ff99, 0.93)) 1; }\n"
    );
}
