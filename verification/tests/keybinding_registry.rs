use scalex_dash::keybinding_registry::{Category, KeybindingRegistry, Mode};
#[test]
fn all_modes_have_entries() {
    let registry = KeybindingRegistry::new();
    for mode in &Mode::all() {
        let entries = registry.get(*mode);
        assert!(
            !entries.is_empty(),
            "Mode {:?} should have at least one keybinding entry",
            mode
        );
    }
}

#[test]
fn all_modes_have_global_category() {
    let registry = KeybindingRegistry::new();
    for mode in &Mode::all() {
        let entries = registry.get(*mode);
        let has_global = entries.iter().any(|e| e.category == Category::Global);
        assert!(
            has_global,
            "Mode {:?} should have at least one Global keybinding (quit/escape)",
            mode
        );
    }
}

#[test]
fn list_view_has_expected_sections() {
    let registry = KeybindingRegistry::new();
    let entries = registry.get(Mode::ListView);
    let categories: Vec<Category> = entries.iter().map(|e| e.category).collect();
    assert!(categories.contains(&Category::Navigation));
    assert!(categories.contains(&Category::Actions));
    assert!(categories.contains(&Category::Search));
    assert!(categories.contains(&Category::CommandMode));
    assert!(categories.contains(&Category::Global));
}

#[test]
fn editor_normal_has_vim_motions() {
    let registry = KeybindingRegistry::new();
    let entries = registry.get(Mode::EditorNormal);
    let keys: Vec<&str> = entries.iter().map(|e| e.key).collect();
    assert!(keys.contains(&"h / j / k / l"));
    assert!(keys.contains(&"w / b"));
    assert!(keys.contains(&"dd"));
    assert!(keys.contains(&"yy"));
    assert!(keys.contains(&"u"));
    assert!(keys.contains(&"Ctrl+r"));
}

#[test]
fn editor_insert_returns_to_normal_on_esc() {
    let registry = KeybindingRegistry::new();
    let entries = registry.get(Mode::EditorInsert);
    let esc_entry = entries
        .iter()
        .find(|e| e.key == "ESC")
        .expect("EditorInsert must have ESC binding");
    assert!(esc_entry.description.contains("normal mode"));
}

#[test]
fn log_viewer_has_follow_toggle() {
    let registry = KeybindingRegistry::new();
    let entries = registry.get(Mode::LogViewer);
    let has_follow = entries.iter().any(|e| e.key == "f" && e.description.contains("follow"));
    assert!(has_follow, "LogViewer should have follow toggle on 'f'");
}

#[test]
fn port_forward_has_add_delete() {
    let registry = KeybindingRegistry::new();
    let entries = registry.get(Mode::PortForwardManager);
    let keys: Vec<&str> = entries.iter().map(|e| e.key).collect();
    assert!(keys.contains(&"a"), "PortForwardManager should have 'a' for add");
    assert!(keys.contains(&"d"), "PortForwardManager should have 'd' for delete");
}

#[test]
fn no_duplicate_keys_within_same_category() {
    let registry = KeybindingRegistry::new();
    for mode in &Mode::all() {
        let entries = registry.get(*mode);
        // Within each category, keys should be unique
        let mut seen = std::collections::HashSet::new();
        for entry in entries {
            let combo = (entry.category, entry.key);
            assert!(
                seen.insert(combo),
                "Duplicate key {:?} in category {:?} for mode {:?}",
                entry.key,
                entry.category,
                mode
            );
        }
    }
}

#[test]
fn mode_labels_non_empty() {
    for mode in &Mode::all() {
        assert!(!mode.label().is_empty());
    }
}

#[test]
fn category_labels_non_empty() {
    let cats = [
        Category::Navigation,
        Category::Actions,
        Category::ResourceSwitch,
        Category::Search,
        Category::CommandMode,
        Category::Editing,
        Category::Selection,
        Category::Clipboard,
        Category::UndoRedo,
        Category::Global,
    ];
    for cat in cats {
        assert!(!cat.label().is_empty());
    }
}

#[test]
fn default_impl_works() {
    let registry = KeybindingRegistry::default();
    assert!(!registry.get(Mode::ListView).is_empty());
}
