use scalex_dash::command_mode::{CommandMode, MAX_SUGGESTIONS};
use scalex_dash::resource_registry::{fuzzy_match, ResourceRegistry};
fn setup() -> (CommandMode, ResourceRegistry) {
    (
        CommandMode::new(),
        ResourceRegistry::with_builtin_resources(),
    )
}

#[test]
fn activate_deactivate() {
    let (mut cmd, _reg) = setup();
    assert!(!cmd.active);
    cmd.activate();
    assert!(cmd.active);
    assert!(cmd.input.is_empty());
    cmd.deactivate();
    assert!(!cmd.active);
}

#[test]
fn push_char_updates_suggestions() {
    let (mut cmd, reg) = setup();
    cmd.activate();
    cmd.push_char('p', &reg);
    assert!(!cmd.suggestions.is_empty());
    // "p" should match pods, persistentvolumes, etc.
    let displays: Vec<&str> = cmd.suggestions.iter().map(|s| s.display.as_str()).collect();
    assert!(
        displays.contains(&"pods"),
        "Expected 'pods' in suggestions: {:?}",
        displays
    );
}

#[test]
fn shortname_match() {
    let (mut cmd, reg) = setup();
    cmd.activate();
    cmd.push_char('s', &reg);
    cmd.push_char('v', &reg);
    cmd.push_char('c', &reg);
    // "svc" is an exact shortname for services
    assert!(!cmd.suggestions.is_empty());
    assert_eq!(cmd.suggestions[0].display, "services");
}

#[test]
fn deploy_shortname() {
    let (mut cmd, reg) = setup();
    cmd.activate();
    for c in "deploy".chars() {
        cmd.push_char(c, &reg);
    }
    assert!(!cmd.suggestions.is_empty());
    assert_eq!(cmd.suggestions[0].display, "deployments");
}

#[test]
fn backspace_updates_suggestions() {
    let (mut cmd, reg) = setup();
    cmd.activate();
    cmd.push_char('p', &reg);
    cmd.push_char('o', &reg);
    let count_po = cmd.suggestions.len();
    cmd.backspace(&reg);
    // After backspace to "p", should have more or different suggestions
    assert!(cmd.input() == "p");
    let count_p = cmd.suggestions.len();
    assert!(count_p >= count_po);
}

#[test]
fn backspace_to_empty_clears() {
    let (mut cmd, reg) = setup();
    cmd.activate();
    cmd.push_char('p', &reg);
    cmd.backspace(&reg);
    assert!(cmd.input.is_empty());
    assert!(cmd.suggestions.is_empty());
}

#[test]
fn select_next_prev() {
    let (mut cmd, reg) = setup();
    cmd.activate();
    cmd.push_char('s', &reg);
    assert!(cmd.suggestions.len() >= 2);

    assert_eq!(cmd.selected_suggestion, None);
    cmd.select_next();
    assert_eq!(cmd.selected_suggestion, Some(0));
    cmd.select_next();
    assert_eq!(cmd.selected_suggestion, Some(1));
    cmd.select_prev();
    assert_eq!(cmd.selected_suggestion, Some(0));
    cmd.select_prev();
    assert_eq!(cmd.selected_suggestion, None);
}

#[test]
fn accept_selection_fills_input() {
    let (mut cmd, reg) = setup();
    cmd.activate();
    cmd.push_char('d', &reg);
    cmd.push_char('e', &reg);
    cmd.push_char('p', &reg);
    // Select first suggestion (should be "deployments")
    cmd.select_next();
    cmd.accept_selection(&reg);
    assert_eq!(cmd.input(), "deployments");
    assert_eq!(cmd.selected_suggestion, None);
}

#[test]
fn submit_returns_command() {
    let (mut cmd, reg) = setup();
    cmd.activate();
    for c in "pods".chars() {
        cmd.push_char(c, &reg);
    }
    assert!(cmd.submit());
    assert_eq!(cmd.take_submitted(), Some("pods".to_string()));
    assert!(!cmd.active);
}

#[test]
fn submit_with_selection() {
    let (mut cmd, reg) = setup();
    cmd.activate();
    cmd.push_char('p', &reg);
    cmd.select_next(); // select first suggestion
    let expected = cmd.suggestions[0].display.clone();
    assert!(cmd.submit());
    assert_eq!(cmd.take_submitted(), Some(expected));
}

#[test]
fn submit_empty_cancels() {
    let (mut cmd, _reg) = setup();
    cmd.activate();
    assert!(!cmd.submit());
    assert!(!cmd.active);
    assert!(cmd.take_submitted().is_none());
}

#[test]
fn suggestion_has_api_group() {
    let (mut cmd, reg) = setup();
    cmd.activate();
    for c in "deploy".chars() {
        cmd.push_char(c, &reg);
    }
    assert!(!cmd.suggestions.is_empty());
    assert_eq!(cmd.suggestions[0].api_group, "apps");
}

#[test]
fn suggestion_core_group_display() {
    let (mut cmd, reg) = setup();
    cmd.activate();
    for c in "pod".chars() {
        cmd.push_char(c, &reg);
    }
    assert!(!cmd.suggestions.is_empty());
    assert_eq!(cmd.suggestions[0].api_group, "core");
}

#[test]
fn fuzzy_match_cm() {
    let (mut cmd, reg) = setup();
    cmd.activate();
    cmd.push_char('c', &reg);
    cmd.push_char('m', &reg);
    // "cm" is a shortname for configmaps
    assert!(!cmd.suggestions.is_empty());
    assert_eq!(cmd.suggestions[0].display, "configmaps");
}

#[test]
fn fuzzy_match_hpa() {
    let (mut cmd, reg) = setup();
    cmd.activate();
    for c in "hpa".chars() {
        cmd.push_char(c, &reg);
    }
    assert!(!cmd.suggestions.is_empty());
    assert_eq!(cmd.suggestions[0].display, "horizontalpodautoscalers");
}

#[test]
fn max_suggestions_limit() {
    let (mut cmd, reg) = setup();
    cmd.activate();
    // Single char should match many resources
    cmd.push_char('s', &reg);
    assert!(cmd.suggestions.len() <= MAX_SUGGESTIONS);
}

#[test]
fn namespaced_flag_in_suggestions() {
    let (mut cmd, reg) = setup();
    cmd.activate();
    for c in "node".chars() {
        cmd.push_char(c, &reg);
    }
    assert!(!cmd.suggestions.is_empty());
    // Nodes are cluster-scoped (not namespaced)
    assert!(!cmd.suggestions[0].namespaced);
}

// ---------------------------------------------------------------------------
// History tests
// ---------------------------------------------------------------------------

#[test]
fn submit_adds_to_history() {
    let (mut cmd, reg) = setup();
    cmd.activate();
    for c in "pods".chars() {
        cmd.push_char(c, &reg);
    }
    cmd.submit();
    assert_eq!(cmd.history_len(), 1);
}

#[test]
fn history_deduplicates_consecutive() {
    let (mut cmd, reg) = setup();
    // Submit "pods" twice in a row
    cmd.activate();
    for c in "pods".chars() {
        cmd.push_char(c, &reg);
    }
    cmd.submit();

    cmd.activate();
    for c in "pods".chars() {
        cmd.push_char(c, &reg);
    }
    cmd.submit();

    assert_eq!(cmd.history_len(), 1); // Only one entry
}

#[test]
fn history_allows_non_consecutive_duplicates() {
    let (mut cmd, reg) = setup();
    cmd.activate();
    for c in "pods".chars() {
        cmd.push_char(c, &reg);
    }
    cmd.submit();

    cmd.activate();
    for c in "nodes".chars() {
        cmd.push_char(c, &reg);
    }
    cmd.submit();

    cmd.activate();
    for c in "pods".chars() {
        cmd.push_char(c, &reg);
    }
    cmd.submit();

    assert_eq!(cmd.history_len(), 3); // pods, nodes, pods
}

#[test]
fn history_prev_navigates_backwards() {
    let (mut cmd, reg) = setup();
    // Build up history: "pods", "nodes"
    cmd.activate();
    for c in "pods".chars() {
        cmd.push_char(c, &reg);
    }
    cmd.submit();

    cmd.activate();
    for c in "nodes".chars() {
        cmd.push_char(c, &reg);
    }
    cmd.submit();

    // Start new command and navigate back
    cmd.activate();
    cmd.push_char('x', &reg);
    assert_eq!(cmd.input(), "x");

    // Up → most recent ("nodes")
    cmd.history_prev(&reg);
    assert_eq!(cmd.input(), "nodes");
    assert_eq!(cmd.history_cursor(), Some(1));

    // Up → older ("pods")
    cmd.history_prev(&reg);
    assert_eq!(cmd.input(), "pods");
    assert_eq!(cmd.history_cursor(), Some(0));

    // Up again → stays at oldest
    cmd.history_prev(&reg);
    assert_eq!(cmd.input(), "pods");
    assert_eq!(cmd.history_cursor(), Some(0));
}

#[test]
fn history_next_navigates_forwards() {
    let (mut cmd, reg) = setup();
    cmd.activate();
    for c in "pods".chars() {
        cmd.push_char(c, &reg);
    }
    cmd.submit();

    cmd.activate();
    for c in "nodes".chars() {
        cmd.push_char(c, &reg);
    }
    cmd.submit();

    // Start new command, navigate back, then forward
    cmd.activate();
    cmd.push_char('x', &reg);

    cmd.history_prev(&reg); // → "nodes"
    cmd.history_prev(&reg); // → "pods"

    cmd.history_next(&reg); // → "nodes"
    assert_eq!(cmd.input(), "nodes");
    assert_eq!(cmd.history_cursor(), Some(1));

    cmd.history_next(&reg); // → original "x"
    assert_eq!(cmd.input(), "x");
    assert_eq!(cmd.history_cursor(), None);
}

#[test]
fn history_next_noop_when_not_browsing() {
    let (mut cmd, reg) = setup();
    cmd.activate();
    cmd.push_char('x', &reg);
    cmd.history_next(&reg); // Should be a no-op
    assert_eq!(cmd.input(), "x");
    assert_eq!(cmd.history_cursor(), None);
}

#[test]
fn history_prev_noop_when_empty() {
    let (mut cmd, reg) = setup();
    cmd.activate();
    cmd.history_prev(&reg); // Should be a no-op
    assert!(cmd.input().is_empty());
    assert_eq!(cmd.history_cursor(), None);
}

#[test]
fn reset_history_cursor_on_typing() {
    let (mut cmd, reg) = setup();
    cmd.activate();
    for c in "pods".chars() {
        cmd.push_char(c, &reg);
    }
    cmd.submit();

    cmd.activate();
    cmd.history_prev(&reg); // → "pods"
    assert_eq!(cmd.history_cursor(), Some(0));

    cmd.reset_history_cursor();
    assert_eq!(cmd.history_cursor(), None);
}

// ---------------------------------------------------------------------------
// Tab-completion cycling tests
// ---------------------------------------------------------------------------

#[test]
fn tab_complete_first_press_fills_best_match() {
    let (mut cmd, reg) = setup();
    cmd.activate();
    cmd.push_char('d', &reg);
    cmd.push_char('e', &reg);
    cmd.push_char('p', &reg);
    assert!(!cmd.is_tab_cycling());

    cmd.tab_complete(&reg);

    assert!(cmd.is_tab_cycling());
    assert_eq!(cmd.tab_prefix(), Some("dep"));
    assert_eq!(cmd.input(), "deployments");
    assert_eq!(cmd.selected_suggestion, Some(0));
    assert_eq!(cmd.tab_cycle_index(), 0);
}

#[test]
fn tab_complete_cycles_through_matches() {
    let (mut cmd, reg) = setup();
    cmd.activate();
    // "s" matches multiple resources: services, secrets, statefulsets, etc.
    cmd.push_char('s', &reg);
    let suggestion_count = cmd.suggestions.len();
    assert!(
        suggestion_count >= 3,
        "need at least 3 suggestions to test cycling"
    );

    let first = cmd.suggestions[0].display.clone();
    let second = cmd.suggestions[1].display.clone();
    let third = cmd.suggestions[2].display.clone();

    // First Tab → first match
    cmd.tab_complete(&reg);
    assert_eq!(cmd.input(), first);
    assert_eq!(cmd.tab_cycle_index(), 0);

    // Second Tab → second match
    cmd.tab_complete(&reg);
    assert_eq!(cmd.input(), second);
    assert_eq!(cmd.tab_cycle_index(), 1);

    // Third Tab → third match
    cmd.tab_complete(&reg);
    assert_eq!(cmd.input(), third);
    assert_eq!(cmd.tab_cycle_index(), 2);
}

#[test]
fn tab_complete_wraps_around() {
    let (mut cmd, reg) = setup();
    cmd.activate();
    cmd.push_char('p', &reg);
    cmd.push_char('v', &reg);
    let count = cmd.suggestions.len();
    assert!(count >= 1);

    // Tab through all suggestions
    for _ in 0..count {
        cmd.tab_complete(&reg);
    }
    assert_eq!(cmd.tab_cycle_index(), count - 1);

    // One more Tab should wrap to index 0
    cmd.tab_complete(&reg);
    assert_eq!(cmd.tab_cycle_index(), 0);
    assert_eq!(cmd.input(), cmd.suggestions[0].display);
}

#[test]
fn tab_complete_prev_cycles_backward() {
    let (mut cmd, reg) = setup();
    cmd.activate();
    cmd.push_char('s', &reg);
    let count = cmd.suggestions.len();
    assert!(count >= 2);

    let last_display = cmd.suggestions[count - 1].display.clone();

    // Shift+Tab starts from the last suggestion
    cmd.tab_complete_prev(&reg);
    assert!(cmd.is_tab_cycling());
    assert_eq!(cmd.input(), last_display);
    assert_eq!(cmd.tab_cycle_index(), count - 1);

    // Another Shift+Tab goes to second-to-last
    let second_last = cmd.suggestions[count - 2].display.clone();
    cmd.tab_complete_prev(&reg);
    assert_eq!(cmd.input(), second_last);
    assert_eq!(cmd.tab_cycle_index(), count - 2);
}

#[test]
fn tab_complete_prev_wraps_to_end() {
    let (mut cmd, reg) = setup();
    cmd.activate();
    cmd.push_char('d', &reg);
    cmd.push_char('e', &reg);
    cmd.push_char('p', &reg);
    let count = cmd.suggestions.len();
    assert!(count >= 1);

    let last_display = cmd.suggestions[count - 1].display.clone();

    // Tab forward to index 0
    cmd.tab_complete(&reg);
    assert_eq!(cmd.tab_cycle_index(), 0);

    // Shift+Tab wraps to last
    cmd.tab_complete_prev(&reg);
    assert_eq!(cmd.tab_cycle_index(), count - 1);
    assert_eq!(cmd.input(), last_display);
}

#[test]
fn tab_cycle_mixed_forward_backward() {
    let (mut cmd, reg) = setup();
    cmd.activate();
    cmd.push_char('s', &reg);
    assert!(cmd.suggestions.len() >= 3);

    let s0 = cmd.suggestions[0].display.clone();
    let s1 = cmd.suggestions[1].display.clone();

    // Tab → s0
    cmd.tab_complete(&reg);
    assert_eq!(cmd.input(), s0);

    // Tab → s1
    cmd.tab_complete(&reg);
    assert_eq!(cmd.input(), s1);

    // Shift+Tab → back to s0
    cmd.tab_complete_prev(&reg);
    assert_eq!(cmd.input(), s0);
    assert_eq!(cmd.tab_cycle_index(), 0);
}

#[test]
fn typing_breaks_tab_cycle() {
    let (mut cmd, reg) = setup();
    cmd.activate();
    cmd.push_char('d', &reg);
    cmd.push_char('e', &reg);

    cmd.tab_complete(&reg);
    assert!(cmd.is_tab_cycling());
    assert_eq!(cmd.tab_prefix(), Some("de"));

    // Type a character — should break tab-cycle
    cmd.push_char('x', &reg);
    assert!(!cmd.is_tab_cycling());
    assert_eq!(cmd.tab_prefix(), None);
}

#[test]
fn backspace_breaks_tab_cycle() {
    let (mut cmd, reg) = setup();
    cmd.activate();
    cmd.push_char('d', &reg);
    cmd.push_char('e', &reg);

    cmd.tab_complete(&reg);
    assert!(cmd.is_tab_cycling());

    cmd.backspace(&reg);
    assert!(!cmd.is_tab_cycling());
}

#[test]
fn arrow_key_breaks_tab_cycle() {
    let (mut cmd, reg) = setup();
    cmd.activate();
    cmd.push_char('s', &reg);

    cmd.tab_complete(&reg);
    assert!(cmd.is_tab_cycling());

    // Arrow-down (select_next) breaks tab cycle
    cmd.select_next();
    assert!(!cmd.is_tab_cycling());
}

#[test]
fn tab_complete_noop_when_no_suggestions() {
    let (mut cmd, reg) = setup();
    cmd.activate();
    for c in "zzzzz".chars() {
        cmd.push_char(c, &reg);
    }
    assert!(cmd.suggestions.is_empty());

    cmd.tab_complete(&reg);
    assert!(!cmd.is_tab_cycling());
    assert_eq!(cmd.input(), "zzzzz"); // unchanged
}

#[test]
fn tab_complete_preserves_prefix_across_cycles() {
    let (mut cmd, reg) = setup();
    cmd.activate();
    cmd.push_char('p', &reg);
    cmd.push_char('o', &reg);

    cmd.tab_complete(&reg);
    assert_eq!(cmd.tab_prefix(), Some("po"));

    // Even after cycling, prefix remains "po"
    cmd.tab_complete(&reg);
    assert_eq!(cmd.tab_prefix(), Some("po"));

    cmd.tab_complete(&reg);
    assert_eq!(cmd.tab_prefix(), Some("po"));
}

#[test]
fn submit_after_tab_complete_uses_displayed_value() {
    let (mut cmd, reg) = setup();
    cmd.activate();
    cmd.push_char('d', &reg);
    cmd.push_char('e', &reg);
    cmd.push_char('p', &reg);

    cmd.tab_complete(&reg);
    assert_eq!(cmd.input(), "deployments");

    assert!(cmd.submit());
    assert_eq!(cmd.take_submitted(), Some("deployments".to_string()));
}

#[test]
fn tab_complete_then_submit_second_cycle() {
    let (mut cmd, reg) = setup();
    cmd.activate();
    cmd.push_char('s', &reg);
    assert!(cmd.suggestions.len() >= 2);

    let second = cmd.suggestions[1].display.clone();

    cmd.tab_complete(&reg); // first
    cmd.tab_complete(&reg); // second

    assert!(cmd.submit());
    assert_eq!(cmd.take_submitted(), Some(second));
}

// ---------------------------------------------------------------------------
// Ghost text tests
// ---------------------------------------------------------------------------

#[test]
fn ghost_text_shows_suffix_of_top_suggestion() {
    let (mut cmd, reg) = setup();
    cmd.activate();
    cmd.push_char('p', &reg);
    cmd.push_char('o', &reg);
    // Top suggestion for "po" should be "pods" — ghost text is "ds"
    let ghost = cmd.ghost_text();
    assert!(ghost.is_some(), "Expected ghost text for prefix 'po'");
    assert_eq!(ghost.unwrap(), "ds");
}

#[test]
fn ghost_text_none_when_empty_input() {
    let (mut cmd, _reg) = setup();
    cmd.activate();
    assert!(cmd.ghost_text().is_none());
}

#[test]
fn ghost_text_none_when_no_suggestions() {
    let (mut cmd, reg) = setup();
    cmd.activate();
    for c in "zzzzz".chars() {
        cmd.push_char(c, &reg);
    }
    assert!(cmd.ghost_text().is_none());
}

#[test]
fn ghost_text_none_when_exact_match() {
    let (mut cmd, reg) = setup();
    cmd.activate();
    for c in "pods".chars() {
        cmd.push_char(c, &reg);
    }
    // Input exactly matches "pods" — no ghost suffix needed
    assert!(cmd.ghost_text().is_none());
}

#[test]
fn ghost_text_none_when_suggestion_selected() {
    let (mut cmd, reg) = setup();
    cmd.activate();
    cmd.push_char('p', &reg);
    cmd.select_next(); // arrow key selects first suggestion
    assert!(
        cmd.ghost_text().is_none(),
        "Ghost text should hide when a suggestion is arrow-selected"
    );
}

#[test]
fn ghost_text_none_during_tab_cycle() {
    let (mut cmd, reg) = setup();
    cmd.activate();
    cmd.push_char('d', &reg);
    cmd.push_char('e', &reg);
    cmd.tab_complete(&reg); // start tab cycle
    assert!(
        cmd.ghost_text().is_none(),
        "Ghost text should hide during tab cycling"
    );
}

#[test]
fn ghost_text_returns_after_tab_cycle_reset() {
    let (mut cmd, reg) = setup();
    cmd.activate();
    cmd.push_char('d', &reg);
    cmd.push_char('e', &reg);
    cmd.tab_complete(&reg); // start tab cycle — fills input
    assert!(cmd.ghost_text().is_none());

    // Type a new char to reset tab cycle
    cmd.push_char('p', &reg);
    // Now ghost text should be available again if prefix matches
    // Input is now "deploymentsp" which won't match — but that's fine,
    // the important thing is the tab_prefix is cleared
    assert!(cmd.tab_prefix.is_none());
}

// ---------------------------------------------------------------------------
// Arrow key resets tab cycle
// ---------------------------------------------------------------------------

#[test]
fn arrow_select_resets_tab_cycle() {
    let (mut cmd, reg) = setup();
    cmd.activate();
    cmd.push_char('s', &reg);
    cmd.tab_complete(&reg); // start tab cycle
    assert!(cmd.tab_prefix.is_some());

    cmd.select_next(); // arrow key should reset tab cycle
    assert!(cmd.tab_prefix.is_none());
}

// ---------------------------------------------------------------------------
// Further tests
// ---------------------------------------------------------------------------

#[test]
fn the_history_is_bounded() {
    let (mut cmd, reg) = setup();
    for i in 0..60 {
        cmd.activate();
        for c in format!("cmd{}", i).chars() {
            cmd.push_char(c, &reg);
        }
        assert!(cmd.submit());
    }
    assert_eq!(cmd.history_len(), 50);
    cmd.activate();
    cmd.history_prev(&reg);
    assert_eq!(cmd.input(), "cmd59");
}

#[test]
fn completion_goes_both_ways() {
    let (mut cmd, reg) = setup();
    cmd.activate();
    cmd.push_char('s', &reg);
    cmd.tab_complete(&reg);
    cmd.tab_complete(&reg);
    let input = cmd.input().to_string();
    cmd.tab_complete(&reg);
    cmd.tab_complete_prev(&reg);
    assert_eq!(cmd.input(), input);
}

#[test]
fn input_is_matched_in_lower_case() {
    let (mut cmd, reg) = setup();
    cmd.activate();
    for c in "DEP".chars() {
        cmd.push_char(c, &reg);
    }
    assert_eq!(cmd.suggestions[0].display, "deployments");
    assert_eq!(cmd.suggestions[0].hint, "deploy, dep, dp");
    assert_eq!(cmd.ghost_text().as_deref(), Some("loyments"));
}

#[test]
fn nothing_is_offered_within_a_character() {
    let (mut cmd, reg) = setup();
    cmd.activate();
    // The Kelvin sign has three bytes and the lower-case form of a plain k.
    cmd.push_char('\u{212a}', &reg);
    for s in cmd.suggestions.iter_mut() {
        s.display = "k8".to_string();
    }
    assert_eq!(cmd.ghost_text(), None);
}

#[test]
fn matches_are_ranked() {
    let reg = ResourceRegistry::with_builtin_resources();
    let found = fuzzy_match(&reg, "role", 8);
    assert_eq!(reg.entries()[found[0].entry_idx].resource, "roles");
    assert_eq!(found[0].score, 100);
    assert_eq!(reg.entries()[found[1].entry_idx].resource, "rolebindings");
    assert_eq!(found[1].score, 80);
    assert_eq!(found[2].score, 50);
    assert!(fuzzy_match(&reg, "", 8).is_empty());
    assert_eq!(fuzzy_match(&reg, "role", 1).len(), 1);
}

#[test]
fn history_and_enter_end_completion() {
    let (mut cmd, reg) = setup();
    cmd.activate();
    for c in "nodes".chars() {
        cmd.push_char(c, &reg);
    }
    cmd.submit();
    for key in ["up", "down", "enter"] {
        cmd.activate();
        cmd.push_char('p', &reg);
        cmd.tab_complete(&reg);
        assert!(cmd.is_tab_cycling());
        match key {
            "up" => cmd.history_prev(&reg),
            "down" => cmd.history_next(&reg),
            _ => assert!(cmd.submit()),
        }
        assert!(!cmd.is_tab_cycling(), "{} ends completion", key);
        assert_eq!(cmd.tab_cycle_index(), 0);
    }
}

#[test]
fn as_many_steps_forward_as_back_give_the_input_back() {
    let (mut cmd, reg) = setup();
    for command in ["pods", "nodes", "services"] {
        cmd.activate();
        for c in command.chars() {
            cmd.push_char(c, &reg);
        }
        cmd.submit();
    }
    for steps in 0..6 {
        cmd.activate();
        cmd.push_char('x', &reg);
        for _ in 0..steps {
            cmd.history_prev(&reg);
        }
        for _ in 0..steps {
            cmd.history_next(&reg);
        }
        assert_eq!(cmd.input(), "x");
        assert_eq!(cmd.history_cursor(), None);
    }
}
