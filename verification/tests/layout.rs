use bevy_native::layout::apply_display;
use bevy_native::string_map::StringMap;

fn map(pairs: &[(&str, &str)]) -> StringMap {
    StringMap::from_pairs(pairs.iter().map(|(k, v)| (k.to_string(), v.to_string())).collect())
}

#[test]
fn base_only_refresh_preserves_horizontal_button_layout() {
    let mut css = map(&[("flex-direction", "row"), ("width", "100%")]);
    // Visibility updates, then later content/hover/measurement updates.
    // The list renderer may not run during any of these base-only passes.
    for visible in [true, false, true, true, true] {
        apply_display(&mut css, visible, true, false);
        assert_eq!(css.get("display").unwrap(), if visible { "flex" } else { "none" });
        assert_eq!(css.get("flex-direction").unwrap(), "row");
        assert_eq!(css.get("width").unwrap(), "100%");
    }
}

#[test]
fn vertical_editor_stays_flex_after_input_changes() {
    let mut css = map(&[("flex-direction", "column"), ("width", "100%")]);
    apply_display(&mut css, false, true, false);
    apply_display(&mut css, true, true, false);
    // A later InputField/Name/Transform change must not turn the panel into a grid.
    apply_display(&mut css, true, true, false);
    assert_eq!(css.get("display").unwrap(), "flex");
    assert_eq!(css.get("flex-direction").unwrap(), "column");
    assert_eq!(css.get("width").unwrap(), "100%");
}

#[test]
fn ordinary_controls_labels_and_hidden_lists_keep_their_display_modes() {
    let mut css = StringMap::new();
    for (visible, list, label, expected) in [
        (true, false, false, "grid"),
        (true, false, true, "block"),
        (true, true, true, "flex"),
        (false, true, false, "none"),
    ] {
        apply_display(&mut css, visible, list, label);
        assert_eq!(css.get("display").unwrap(), expected);
    }
}

#[test]
fn display_refresh_leaves_other_declarations_alone() {
    let mut css = map(&[("color", "red"), ("gap", "4px")]);
    apply_display(&mut css, true, false, false);
    assert_eq!(css.get("display").unwrap(), "grid");
    assert_eq!(css.get("color").unwrap(), "red");
    assert_eq!(css.get("gap").unwrap(), "4px");
    assert_eq!(css.len(), 3);
}

#[test]
fn latest_display_refresh_wins() {
    let mut css = StringMap::new();
    apply_display(&mut css, true, true, false);
    apply_display(&mut css, true, false, true);
    assert_eq!(css.get("display").unwrap(), "block");
    apply_display(&mut css, true, false, true);
    assert_eq!(css.get("display").unwrap(), "block");
    assert_eq!(css.len(), 1);
}

#[test]
fn string_map_keeps_one_entry_per_key() {
    let mut m = map(&[("a", "1"), ("b", "2"), ("a", "3")]);
    assert_eq!(m.len(), 2);
    assert_eq!(m.get("a").unwrap(), "3");
    m.insert_str("b", "4");
    assert_eq!(m.get("b").unwrap(), "4");
    assert!(m.contains_key("a"));
    m.remove("a");
    assert!(!m.contains_key("a"));
    assert_eq!(m.get("a"), None);
    assert_eq!(m.len(), 1);
    assert_eq!(m.entries()[0], ("b".to_string(), "4".to_string()));
}
