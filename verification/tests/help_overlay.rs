use scalex_dash::display::{Area, Color, Line, Span};
use scalex_dash::help_overlay::{
    command_mode_categories, global_category, resource_categories, search_categories,
    sidebar_categories, top_categories, ActiveMode, HelpOverlay, KeyCategory, KeyEntry,
};
// -- Data type tests ----------------------------------------------------

#[test]
fn key_entry_construction() {
    let e = KeyEntry::new("j/k", "Move cursor");
    assert_eq!(e.key, "j/k");
    assert_eq!(e.desc, "Move cursor");
}

#[test]
fn key_category_construction() {
    let cat = KeyCategory::new(
        "Navigation",
        vec![
            KeyEntry::new("j", "down"),
            KeyEntry::new("k", "up"),
        ],
    );
    assert_eq!(cat.label, "Navigation");
    assert_eq!(cat.entries.len(), 2);
}

#[test]
fn key_category_rendered_line_count() {
    let cat = KeyCategory::new(
        "Nav",
        vec![
            KeyEntry::new("a", "x"),
            KeyEntry::new("b", "y"),
            KeyEntry::new("c", "z"),
        ],
    );
    // header + blank + 3 entries = 5
    assert_eq!(cat.rendered_line_count(), 5);
}

// -- ActiveMode tests ---------------------------------------------------

#[test]
fn active_mode_labels() {
    assert_eq!(ActiveMode::Sidebar.label(), "Sidebar");
    assert_eq!(ActiveMode::Top.label(), "Top");
    assert_eq!(ActiveMode::Search.label(), "Search");
    assert_eq!(ActiveMode::CommandMode.label(), "Command");
}

#[test]
fn active_mode_categories_not_empty() {
    let modes = [
        ActiveMode::Search,
        ActiveMode::CommandMode,
        ActiveMode::Sidebar,
        ActiveMode::Top,
        ActiveMode::ResourceTable("Pods".to_string()),
    ];
    for mode in &modes {
        let cats = mode.categories();
        assert!(!cats.is_empty(), "{:?} should have categories", mode);
    }
}

// -- Preset category tests ----------------------------------------------

#[test]
fn all_presets_end_with_global() {
    let preset_sets: Vec<Vec<KeyCategory>> = vec![
        search_categories(),
        command_mode_categories(),
        sidebar_categories(),
        top_categories(),
        resource_categories("Pods"),
    ];
    for cats in &preset_sets {
        let last = cats.last().expect("should have at least one category");
        assert_eq!(last.label, "Global", "last category should be Global");
        assert!(
            !last.entries.is_empty(),
            "Global category should have entries"
        );
    }
}

#[test]
fn resource_categories_has_actions() {
    let cats = resource_categories("Deployments");
    let action_cat = cats.iter().find(|c| c.label == "Resource Actions");
    assert!(
        action_cat.is_some(),
        "resource view should have Resource Actions category"
    );
    let entries = &action_cat.unwrap().entries;
    // describe, edit, delete, logs, exec, port-forward
    assert!(entries.len() >= 6, "Resource Actions should have ≥6 entries");
}

#[test]
fn global_category_has_essential_keys() {
    let g = global_category();
    let keys: Vec<&str> = g.entries.iter().map(|e| e.key).collect();
    assert!(keys.contains(&"q/Ctrl+C"), "should have quit");
    assert!(keys.contains(&"?"), "should have help toggle");
    assert!(keys.contains(&":"), "should have command mode");
    assert!(keys.contains(&"/"), "should have search");
    assert!(keys.contains(&"r"), "should have refresh");
}

// -- HelpOverlay state tests --------------------------------------------

#[test]
fn new_overlay_is_hidden() {
    let o = HelpOverlay::new();
    assert!(!o.visible);
    assert_eq!(o.scroll_offset, 0);
    assert_eq!(o.viewport_height, 0);
}

#[test]
fn toggle_opens_and_closes() {
    let mut o = HelpOverlay::new();
    o.toggle(ActiveMode::Sidebar);
    assert!(o.visible);
    assert_eq!(o.mode, ActiveMode::Sidebar);

    o.toggle(ActiveMode::Search); // second toggle closes
    assert!(!o.visible);
}

#[test]
fn open_resets_scroll() {
    let mut o = HelpOverlay::new();
    o.scroll_offset = 10;
    o.open(ActiveMode::Top);
    assert!(o.visible);
    assert_eq!(o.scroll_offset, 0);
    assert_eq!(o.mode, ActiveMode::Top);
}

#[test]
fn close_resets_scroll() {
    let mut o = HelpOverlay::new();
    o.visible = true;
    o.scroll_offset = 5;
    o.close();
    assert!(!o.visible);
    assert_eq!(o.scroll_offset, 0);
}

#[test]
fn scroll_up_saturates_at_zero() {
    let mut o = HelpOverlay::new();
    o.scroll_offset = 0;
    o.scroll_up();
    assert_eq!(o.scroll_offset, 0);
}

#[test]
fn scroll_up_decrements() {
    let mut o = HelpOverlay::new();
    o.scroll_offset = 3;
    o.scroll_up();
    assert_eq!(o.scroll_offset, 2);
}

#[test]
fn scroll_down_clamps_at_max() {
    let mut o = HelpOverlay::new();
    o.open(ActiveMode::Search);
    o.viewport_height = 100; // larger than content
    o.scroll_down();
    assert_eq!(o.scroll_offset, 0); // can't scroll past content
}

#[test]
fn page_up_half_viewport() {
    let mut o = HelpOverlay::new();
    o.viewport_height = 10;
    o.scroll_offset = 8;
    o.page_up();
    assert_eq!(o.scroll_offset, 3); // 8 - 5 = 3
}

#[test]
fn page_down_half_viewport() {
    let mut o = HelpOverlay::new();
    o.open(ActiveMode::Sidebar);
    o.viewport_height = 10;
    o.page_down();
    // Should jump by 5 (viewport/2), clamped to max_scroll
    assert!(o.scroll_offset <= o.content_line_count());
}

#[test]
fn jump_home_resets_to_zero() {
    let mut o = HelpOverlay::new();
    o.scroll_offset = 42;
    o.jump_home();
    assert_eq!(o.scroll_offset, 0);
}

#[test]
fn jump_end_goes_to_max() {
    let mut o = HelpOverlay::new();
    o.open(ActiveMode::Search);
    o.viewport_height = 5;
    o.jump_end();
    let max = o.content_line_count().saturating_sub(5);
    assert_eq!(o.scroll_offset, max);
}

// -- Content line building tests ----------------------------------------

#[test]
fn build_lines_not_empty() {
    let o = HelpOverlay {
        visible: true,
        scroll_offset: 0,
        viewport_height: 0,
        mode: ActiveMode::Sidebar,
    };
    let lines = o.build_lines(false);
    assert!(!lines.is_empty());
}

#[test]
fn build_lines_with_filter_changes_footer() {
    let o = HelpOverlay {
        visible: true,
        scroll_offset: 0,
        viewport_height: 0,
        mode: ActiveMode::Sidebar,
    };
    let no_filter = o.build_lines(false);
    let with_filter = o.build_lines(true);

    // Both should have content, but differ in footer text
    assert!(!no_filter.is_empty());
    assert!(!with_filter.is_empty());
    // The with_filter version should mention "clear filter"
    let filter_text: String = with_filter
        .iter()
        .flat_map(|l| l.spans.iter().map(|s| s.content.to_string()))
        .collect::<Vec<_>>()
        .join("");
    assert!(filter_text.contains("clear filter"));
}

#[test]
fn content_line_count_positive() {
    for mode in [
        ActiveMode::Search,
        ActiveMode::CommandMode,
        ActiveMode::Sidebar,
        ActiveMode::Top,
        ActiveMode::ResourceTable("Pods".to_string()),
    ] {
        let o = HelpOverlay {
            visible: true,
            scroll_offset: 0,
            viewport_height: 0,
            mode,
        };
        assert!(
            o.content_line_count() > 0,
            "content_line_count should be > 0 for {:?}",
            o.mode,
        );
    }
}

#[test]
fn two_column_layout_produces_lines() {
    let categories = resource_categories("Pods");
    let lines = HelpOverlay::render_categories_two_column(&categories, 35);
    assert!(!lines.is_empty(), "two-column layout should produce lines");
}

#[test]
fn two_column_layout_row_count_leq_single() {
    let categories = resource_categories("Pods");
    let single = HelpOverlay::render_categories_single_column(&categories);
    let dual = HelpOverlay::render_categories_two_column(&categories, 35);
    // Two-column should have fewer or equal rows (content is side-by-side)
    assert!(
        dual.len() <= single.len(),
        "two-column ({}) should have ≤ rows than single-column ({})",
        dual.len(),
        single.len(),
    );
}

#[test]
fn single_column_includes_all_entries() {
    let categories = sidebar_categories();
    let total_entries: usize = categories.iter().map(|c| c.entries.len()).sum();
    let lines = HelpOverlay::render_categories_single_column(&categories);

    // Count lines that have the key style (BRIGHT_AQUA) — these are entry lines
    let entry_lines = lines
        .iter()
        .filter(|l| {
            l.spans
                .first()
                .is_some_and(|s| s.style.fg == Some(Color::BrightAqua))
        })
        .count();
    assert_eq!(
        entry_lines, total_entries,
        "single column should render all {} entries",
        total_entries,
    );
}

// -- Line helper tests --------------------------------------------------

#[test]
fn section_header_styled_correctly() {
    let line = HelpOverlay::section_header("Test Section");
    assert_eq!(line.spans.len(), 1);
    let span = &line.spans[0];
    assert!(span.content.contains("Test Section"));
    assert_eq!(span.style.fg, Some(Color::BrightYellow));
}

#[test]
fn key_line_styled_correctly() {
    let entry = KeyEntry::new("j/k", "Move cursor");
    let line = HelpOverlay::key_line(&entry);
    assert_eq!(line.spans.len(), 2);
    // Key span: BRIGHT_AQUA
    assert_eq!(line.spans[0].style.fg, Some(Color::BrightAqua));
    assert!(line.spans[0].content.contains("j/k"));
    // Desc span: FG
    assert_eq!(line.spans[1].style.fg, Some(Color::Fg));
    assert_eq!(line.spans[1].content, "Move cursor");
}

#[test]
fn line_plain_text_concatenates() {
    let line = Line {
        spans: vec![
            Span::raw("hello".to_string()),
            Span::raw(" ".to_string()),
            Span::raw("world".to_string()),
        ],
    };
    assert_eq!(HelpOverlay::line_plain_text(&line), "hello world");
}

// -- Drawing ------------------------------------------------------------

#[test]
fn the_help_is_laid_out() {
    let mut o = HelpOverlay::new();
    let screen = Area { x: 0, y: 0, width: 120, height: 20 };
    assert!(o.render(screen, false).is_none());
    o.open(ActiveMode::ResourceTable("Pods".to_string()));
    let frame = o.render(screen, true).unwrap();
    assert_eq!(frame.title, " Help — Pods ");
    assert_eq!(frame.popup.width, 80);
    assert_eq!(frame.popup.x, 20);
    assert_eq!(o.viewport_height, frame.popup.height - 2);
    assert!(frame.above.is_none());
    assert!(frame.below.is_some());
    o.open(ActiveMode::Sidebar);
    let narrow = Area { x: 0, y: 0, width: 50, height: 60 };
    let frame = o.render(narrow, false).unwrap();
    assert_eq!(frame.popup.width, 46);
    assert_eq!(frame.lines.len(), o.content_line_count() as usize);
    assert!(frame.below.is_none());
}

#[test]
fn columns_are_padded() {
    let categories = resource_categories("Pods");
    let lines = HelpOverlay::render_categories_two_column(&categories, 35);
    assert_eq!(lines[0].plain_text().chars().nth(36), Some('│'));
    assert!(HelpOverlay::render_categories_two_column(&[], 35).is_empty());
}

#[test]
fn two_columns_from_eighty_columns_on() {
    let mut o = HelpOverlay::new();
    o.open(ActiveMode::ResourceTable("Pods".to_string()));
    let wide = o.render(Area { x: 0, y: 0, width: 80, height: 40 }, false).unwrap();
    assert_eq!(wide.popup.width, 76);
    assert!(wide.lines[0].plain_text().contains('│'));
    let narrow = o.render(Area { x: 0, y: 0, width: 79, height: 40 }, false).unwrap();
    assert_eq!(narrow.popup.width, 54);
    assert!(!narrow.lines[0].plain_text().contains('│'));
    assert!(wide.lines.len() < narrow.lines.len());
}
