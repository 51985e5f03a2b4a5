use install_tools_tui::executor::Status;
use install_tools_tui::manifest::parse_manifest;
use install_tools_tui::render::{
    confirm_title, results_marker, selection_marker, status_label, status_marker, status_tone,
    StatusTone, Symbols,
};
use install_tools_tui::session::{Action, Key, Mode, Session};
use install_tools_tui::text::{i32_string, looks_like_url, u64_string};

fn example_session() -> Session {
    let text = "# CLI tool\nbrew \"jq\"\ncask \"firefox\"\nmas \"Xcode\", id: 497799835\n";
    let entries = parse_manifest(text);
    Session::new(entries, None, Symbols::new(true))
}

fn manual_selected_count(s: &Session) -> usize {
    s.items.iter().filter(|it| it.selected).count()
}

#[test]
fn selection_count_matches_after_any_operations() {
    let mut s = example_session();
    assert_eq!(s.selected_count(), manual_selected_count(&s));
    s.handle_key(Key::Char(' '));
    assert_eq!(s.selected_count(), manual_selected_count(&s));
    assert_eq!(s.selected_count(), 1);
    s.handle_key(Key::Char('a'));
    assert_eq!(s.selected_count(), manual_selected_count(&s));
    assert_eq!(s.selected_count(), 3);
    s.handle_key(Key::Down);
    s.handle_key(Key::Char(' '));
    assert_eq!(s.selected_count(), manual_selected_count(&s));
    assert_eq!(s.selected_count(), 2);
    s.handle_key(Key::Char('d'));
    assert_eq!(s.selected_count(), manual_selected_count(&s));
    assert_eq!(s.selected_count(), 0);
}

#[test]
fn outcomes_stay_none_on_unselected_entries() {
    let mut s = example_session();
    // select the first and third entries only
    s.handle_key(Key::Char(' '));
    s.handle_key(Key::Down);
    s.handle_key(Key::Down);
    s.handle_key(Key::Char(' '));
    // an installation run clears outcomes and writes only at selected indices
    s.clear_statuses();
    let indices = s.selected_indices();
    assert_eq!(indices, vec![0, 2]);
    let total = indices.len();
    for (pos, &idx) in indices.iter().enumerate() {
        s.mark_installing(idx, pos + 1, total);
        s.record_outcome(idx, pos + 1, total, Status::Success("ok".to_string()));
    }
    assert!(s.items[0].status.is_some());
    assert!(s.items[1].status.is_none());
    assert!(s.items[2].status.is_some());
}

#[test]
fn example_scenario_selects_and_installs_in_manifest_order() {
    let mut s = example_session();
    assert_eq!(s.mode, Mode::Selecting);
    let a = s.handle_key(Key::Char('a'));
    assert_eq!(a, Action::NoOp);
    let a = s.handle_key(Key::Enter);
    assert_eq!(a, Action::NoOp);
    assert_eq!(s.mode, Mode::Confirming);
    let a = s.handle_key(Key::Char('y'));
    assert_eq!(a, Action::StartInstall);
    assert_eq!(s.mode, Mode::ShowingResults);
    assert_eq!(s.progress.as_deref(), Some("Preparing installations..."));
    let indices = s.selected_indices();
    assert_eq!(indices, vec![0, 1, 2]);
    let order: Vec<&str> = indices
        .iter()
        .map(|&i| s.items[i].entry.identifier.as_str())
        .collect();
    assert_eq!(order, vec!["jq", "firefox", "497799835"]);
}

#[test]
fn enter_with_no_selection_keeps_selecting() {
    let mut s = example_session();
    s.handle_key(Key::Enter);
    assert_eq!(s.mode, Mode::Selecting);
    assert_eq!(
        s.info.as_deref(),
        Some("Select at least one tool before continuing.")
    );
}

#[test]
fn cursor_movement_is_clamped() {
    let mut s = example_session();
    assert_eq!(s.index, 0);
    s.handle_key(Key::Up);
    assert_eq!(s.index, 0);
    s.handle_key(Key::Down);
    assert_eq!(s.index, 1);
    s.handle_key(Key::Char('j'));
    assert_eq!(s.index, 2);
    s.handle_key(Key::Down);
    assert_eq!(s.index, 2);
    s.handle_key(Key::Char('k'));
    assert_eq!(s.index, 1);
}

#[test]
fn toggle_flips_selection() {
    let mut s = example_session();
    assert!(!s.items[0].selected);
    s.handle_key(Key::Char(' '));
    assert!(s.items[0].selected);
    s.handle_key(Key::Char(' '));
    assert!(!s.items[0].selected);
}

#[test]
fn bulk_selection_messages() {
    let mut s = example_session();
    s.handle_key(Key::Char('a'));
    assert_eq!(s.info.as_deref(), Some("All tools selected."));
    assert!(s.items.iter().all(|it| it.selected));
    s.handle_key(Key::Char('d'));
    assert_eq!(s.info.as_deref(), Some("Selections cleared."));
    assert!(s.items.iter().all(|it| !it.selected));
}

#[test]
fn confirm_decline_returns_to_selecting() {
    let mut s = example_session();
    s.handle_key(Key::Char(' '));
    s.handle_key(Key::Enter);
    assert_eq!(s.mode, Mode::Confirming);
    let a = s.handle_key(Key::Char('n'));
    assert_eq!(a, Action::NoOp);
    assert_eq!(s.mode, Mode::Selecting);
    assert!(s.progress.is_none());
}

#[test]
fn confirm_quit_key_quits() {
    let mut s = example_session();
    s.handle_key(Key::Char(' '));
    s.handle_key(Key::Enter);
    s.handle_key(Key::Char('q'));
    assert!(s.should_quit);
}

#[test]
fn results_keys_end_the_session() {
    let mut s = example_session();
    s.handle_key(Key::Char(' '));
    s.handle_key(Key::Enter);
    s.handle_key(Key::Char('y'));
    assert_eq!(s.mode, Mode::ShowingResults);
    assert!(!s.should_quit);
    s.handle_key(Key::Char('x'));
    assert!(!s.should_quit);
    s.handle_key(Key::Enter);
    assert!(s.should_quit);
}

#[test]
fn quit_from_selecting() {
    let mut s = example_session();
    s.handle_key(Key::Char('q'));
    assert!(s.should_quit);
    let mut s2 = example_session();
    s2.handle_key(Key::Escape);
    assert!(s2.should_quit);
}

#[test]
fn selected_labels_in_order() {
    let mut s = example_session();
    s.handle_key(Key::Char('a'));
    let labels = s.selected_labels();
    assert_eq!(
        labels,
        vec!["jq (brew formula)", "firefox (cask)", "Xcode (App Store)"]
    );
}

#[test]
fn current_description_follows_cursor() {
    let mut s = example_session();
    assert_eq!(s.current_description(), "CLI tool");
    s.handle_key(Key::Down);
    assert_eq!(s.current_description(), "Homebrew cask 'firefox'");
}

#[test]
fn run_captions_name_step_and_label() {
    let mut s = example_session();
    s.handle_key(Key::Char('a'));
    s.clear_statuses();
    s.mark_installing(0, 1, 3);
    assert_eq!(
        s.progress.as_deref(),
        Some("Installing 1/3: jq (brew formula)")
    );
    match &s.items[0].status {
        Some(Status::Pending(m)) => assert_eq!(m, "Installing..."),
        _ => panic!("the entry being installed must be pending"),
    }
    s.record_outcome(0, 1, 3, Status::Skipped("Already installed".to_string()));
    assert_eq!(
        s.progress.as_deref(),
        Some("Completed 1/3: jq (brew formula)")
    );
    s.finish_run();
    assert_eq!(
        s.progress.as_deref(),
        Some("Installation complete. Press Enter or q to exit.")
    );
}

#[test]
fn confirm_title_counts_tools() {
    assert_eq!(confirm_title(2), "Install 2 tool(s)? (y/n)");
    assert_eq!(confirm_title(0), "Install 0 tool(s)? (y/n)");
}

#[test]
fn symbols_plain_and_decorated() {
    let plain = Symbols::new(true);
    assert_eq!(plain.success, "[OK]");
    assert_eq!(plain.failure, "[X]");
    assert_eq!(plain.pending, "[...]");
    let fancy = Symbols::new(false);
    assert_eq!(fancy.success, "[✅]");
    assert_eq!(fancy.failure, "[❌]");
    assert_eq!(fancy.pending, "[…]");
}

#[test]
fn status_projections() {
    let symbols = Symbols::new(true);
    let pending = Status::Pending("x".to_string());
    let success = Status::Success("x".to_string());
    let skipped = Status::Skipped("x".to_string());
    let failed = Status::Failed("x".to_string());
    assert_eq!(status_label(&pending), "pending");
    assert_eq!(status_label(&success), "installed");
    assert_eq!(status_label(&skipped), "skipped");
    assert_eq!(status_label(&failed), "failed");
    assert_eq!(status_marker(&pending, &symbols), "[...]");
    assert_eq!(status_marker(&success, &symbols), "[OK]");
    assert_eq!(status_marker(&skipped, &symbols), "[OK]");
    assert_eq!(status_marker(&failed, &symbols), "[X]");
    assert_eq!(status_tone(&pending), StatusTone::Yellow);
    assert_eq!(status_tone(&success), StatusTone::Green);
    assert_eq!(status_tone(&skipped), StatusTone::Green);
    assert_eq!(status_tone(&failed), StatusTone::Red);
}

#[test]
fn markers_for_list_rows() {
    let symbols = Symbols::new(true);
    assert_eq!(selection_marker(true), "[x]");
    assert_eq!(selection_marker(false), "[ ]");
    let st = Some(Status::Failed("x".to_string()));
    assert_eq!(results_marker(false, &st, &symbols), "[ ]");
    assert_eq!(results_marker(true, &st, &symbols), "[X]");
    assert_eq!(results_marker(true, &None, &symbols), "[x]");
}

#[test]
fn url_detection_ignores_case() {
    assert!(looks_like_url("http://example.com/Brewfile"));
    assert!(looks_like_url("HTTPS://example.com/Brewfile"));
    assert!(!looks_like_url("/home/user/Brewfile"));
    assert!(!looks_like_url("~/Brewfile"));
    assert!(!looks_like_url("httpx://example.com"));
}

#[test]
fn decimal_rendering() {
    assert_eq!(u64_string(0), "0");
    assert_eq!(u64_string(42), "42");
    assert_eq!(u64_string(120), "120");
    assert_eq!(i32_string(-5), "-5");
    assert_eq!(i32_string(0), "0");
    assert_eq!(i32_string(2147483647), "2147483647");
    assert_eq!(i32_string(-2147483648), "-2147483648");
}
