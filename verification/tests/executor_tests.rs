use install_tools_tui::executor::{
    required_tool, shorten_message, start_install, CmdEvent, CmdOutput, Status, StepResult,
};
use install_tools_tui::manifest::{Entry, EntryKind};

fn formula(name: &str) -> Entry {
    Entry {
        kind: EntryKind::Formula,
        identifier: name.to_string(),
        display_label: format!("{name} (brew formula)"),
        description: format!("Homebrew formula '{name}'"),
        fallback_identifiers: Vec::new(),
    }
}

fn cask(name: &str, fallbacks: &[&str]) -> Entry {
    Entry {
        kind: EntryKind::Cask,
        identifier: name.to_string(),
        display_label: format!("{name} (cask)"),
        description: format!("Homebrew cask '{name}'"),
        fallback_identifiers: fallbacks.iter().map(|s| s.to_string()).collect(),
    }
}

fn store_app(id: &str, name: &str) -> Entry {
    Entry {
        kind: EntryKind::StoreApp,
        identifier: id.to_string(),
        display_label: format!("{name} (App Store)"),
        description: format!("Mac App Store app '{name}' (id {id})"),
        fallback_identifiers: Vec::new(),
    }
}

fn output(success: bool, code: i32, stdout: &str, stderr: &str) -> CmdEvent {
    CmdEvent::Output(CmdOutput {
        success,
        code,
        stdout: stdout.to_string(),
        stderr: stderr.to_string(),
    })
}

fn args_of(r: &StepResult) -> Vec<String> {
    match r {
        StepResult::Running(_, args) => args.clone(),
        StepResult::Finished(_) => panic!("machine finished while a command was expected"),
    }
}

fn step(r: StepResult, ev: CmdEvent) -> StepResult {
    match r {
        StepResult::Running(m, _) => m.step(ev),
        StepResult::Finished(_) => panic!("machine finished while a command was expected"),
    }
}

#[test]
fn required_tool_per_kind() {
    assert_eq!(required_tool(EntryKind::Formula), "brew");
    assert_eq!(required_tool(EntryKind::Cask), "brew");
    assert_eq!(required_tool(EntryKind::StoreApp), "mas");
}

#[test]
fn formula_tool_missing_fails() {
    match start_install(&formula("jq"), false) {
        StepResult::Finished(Status::Failed(m)) => assert_eq!(m, "Homebrew not available"),
        _ => panic!("a missing tool must fail immediately"),
    }
}

#[test]
fn store_tool_missing_fails() {
    match start_install(&store_app("12345", "Foo"), false) {
        StepResult::Finished(Status::Failed(m)) => assert_eq!(m, "mas CLI not available"),
        _ => panic!("a missing tool must fail immediately"),
    }
}

#[test]
fn formula_already_installed_skipped() {
    let st = start_install(&formula("jq"), true);
    assert_eq!(
        args_of(&st),
        vec!["brew", "list", "--formula", "--versions", "jq"]
    );
    match step(st, output(true, 0, "jq 1.7\n", "")) {
        StepResult::Finished(Status::Skipped(m)) => assert_eq!(m, "Already installed"),
        _ => panic!("an installed formula must be skipped"),
    }
}

#[test]
fn formula_install_success_uses_first_stdout_line() {
    let st = start_install(&formula("jq"), true);
    let st = step(st, output(false, 1, "", ""));
    assert_eq!(args_of(&st), vec!["brew", "install", "jq"]);
    match step(st, output(true, 0, "jq 1.7 installed\nmore output\n", "")) {
        StepResult::Finished(Status::Success(m)) => assert_eq!(m, "jq 1.7 installed"),
        _ => panic!("a zero exit must succeed"),
    }
}

#[test]
fn formula_install_success_default_message() {
    let st = start_install(&formula("jq"), true);
    let st = step(st, output(false, 1, "", ""));
    match step(st, output(true, 0, "", "")) {
        StepResult::Finished(Status::Success(m)) => assert_eq!(m, "Installed"),
        _ => panic!("a zero exit must succeed"),
    }
}

#[test]
fn formula_failure_prefers_stderr() {
    let st = start_install(&formula("jq"), true);
    let st = step(st, output(false, 1, "", ""));
    match step(st, output(false, 1, "stdout says hi", "boom\nmore")) {
        StepResult::Finished(Status::Failed(m)) => assert_eq!(m, "boom"),
        _ => panic!("a non-zero exit must fail"),
    }
}

#[test]
fn formula_failure_falls_back_to_stdout() {
    let st = start_install(&formula("jq"), true);
    let st = step(st, output(false, 1, "", ""));
    match step(st, output(false, 1, "stdout says hi", "")) {
        StepResult::Finished(Status::Failed(m)) => assert_eq!(m, "stdout says hi"),
        _ => panic!("a non-zero exit must fail"),
    }
}

#[test]
fn formula_failure_exit_status_message() {
    let st = start_install(&formula("jq"), true);
    let st = step(st, output(false, 1, "", ""));
    match step(st, output(false, 3, "", "")) {
        StepResult::Finished(Status::Failed(m)) => assert_eq!(m, "Exit status 3"),
        _ => panic!("a non-zero exit must fail"),
    }
}

#[test]
fn formula_install_spawn_failure() {
    let st = start_install(&formula("jq"), true);
    let st = step(st, output(false, 1, "", ""));
    match step(st, CmdEvent::SpawnFailed("no such file".to_string())) {
        StepResult::Finished(Status::Failed(m)) => {
            assert_eq!(m, "Failed to run brew: no such file")
        }
        _ => panic!("a spawn failure must fail the attempt"),
    }
}

#[test]
fn check_spawn_failure_counts_as_not_installed() {
    let st = start_install(&formula("jq"), true);
    let st = step(st, CmdEvent::SpawnFailed("no such file".to_string()));
    assert_eq!(args_of(&st), vec!["brew", "install", "jq"]);
}

#[test]
fn cask_fallback_install_succeeds() {
    let st = start_install(&cask("primary", &["alt"]), true);
    assert_eq!(
        args_of(&st),
        vec!["brew", "list", "--cask", "--versions", "primary"]
    );
    let st = step(st, output(false, 1, "", ""));
    assert_eq!(
        args_of(&st),
        vec!["brew", "list", "--cask", "--versions", "alt"]
    );
    let st = step(st, output(false, 1, "", ""));
    assert_eq!(args_of(&st), vec!["brew", "install", "--cask", "primary"]);
    let st = step(st, output(false, 1, "", "no cask named primary"));
    assert_eq!(args_of(&st), vec!["brew", "install", "--cask", "alt"]);
    match step(st, output(true, 0, "alt installed\n", "")) {
        StepResult::Finished(Status::Success(m)) => assert_eq!(m, "alt installed (fallback)"),
        _ => panic!("the fallback install must succeed"),
    }
}

#[test]
fn cask_all_candidates_fail_reports_last_error() {
    let st = start_install(&cask("primary", &["alt"]), true);
    let st = step(st, output(false, 1, "", ""));
    let st = step(st, output(false, 1, "", ""));
    let st = step(st, output(false, 1, "", "first error"));
    match step(st, output(false, 1, "", "second error")) {
        StepResult::Finished(Status::Failed(m)) => assert_eq!(m, "second error"),
        _ => panic!("all candidates failing must fail"),
    }
}

#[test]
fn cask_skipped_via_fallback() {
    let st = start_install(&cask("primary", &["alt"]), true);
    let st = step(st, output(false, 1, "", ""));
    match step(st, output(true, 0, "alt 1.0\n", "")) {
        StepResult::Finished(Status::Skipped(m)) => {
            assert_eq!(m, "Already installed (via fallback)")
        }
        _ => panic!("an installed fallback must skip"),
    }
}

#[test]
fn cask_skipped_primary_plain_message() {
    let st = start_install(&cask("primary", &["alt"]), true);
    match step(st, output(true, 0, "primary 1.0\n", "")) {
        StepResult::Finished(Status::Skipped(m)) => assert_eq!(m, "Already installed"),
        _ => panic!("an installed cask must skip"),
    }
}

#[test]
fn mas_already_installed_skipped() {
    let st = start_install(&store_app("497799835", "Xcode"), true);
    assert_eq!(args_of(&st), vec!["mas", "list"]);
    match step(st, output(true, 0, "  497799835 Xcode (14.0)\n123 Other\n", "")) {
        StepResult::Finished(Status::Skipped(m)) => assert_eq!(m, "Already installed"),
        _ => panic!("a listed app must be skipped"),
    }
}

#[test]
fn mas_listing_failure_is_not_fatal() {
    let st = start_install(&store_app("497799835", "Xcode"), true);
    let st = step(st, output(false, 1, "", "transient"));
    assert_eq!(args_of(&st), vec!["mas", "install", "497799835"]);
    match step(st, output(true, 0, "", "")) {
        StepResult::Finished(Status::Success(m)) => assert_eq!(m, "Installed"),
        _ => panic!("the install must still be attempted"),
    }
}

#[test]
fn mas_list_spawn_failure_is_fatal() {
    let st = start_install(&store_app("497799835", "Xcode"), true);
    match step(st, CmdEvent::SpawnFailed("no such file".to_string())) {
        StepResult::Finished(Status::Failed(m)) => {
            assert_eq!(m, "Failed to run mas list: no such file")
        }
        _ => panic!("a listing spawn failure must fail"),
    }
}

#[test]
fn mas_unlisted_then_install_failure() {
    let st = start_install(&store_app("497799835", "Xcode"), true);
    let st = step(st, output(true, 0, "123 Other\n", ""));
    match step(st, output(false, 2, "", "store error")) {
        StepResult::Finished(Status::Failed(m)) => assert_eq!(m, "store error"),
        _ => panic!("a failing install must fail"),
    }
}

#[test]
fn shorten_keeps_short_first_line() {
    assert_eq!(
        shorten_message("  hello world  \nsecond"),
        Some("hello world".to_string())
    );
}

#[test]
fn shorten_empty_yields_none() {
    assert_eq!(shorten_message(""), None);
    assert_eq!(shorten_message("   \nreal text"), None);
}

#[test]
fn shorten_truncates_to_eighty_plus_ellipsis() {
    let line: String = "a".repeat(95);
    let short = shorten_message(&line).expect("a long line still yields a message");
    assert_eq!(short.chars().count(), 81);
    let kept: String = "a".repeat(80);
    assert_eq!(short, format!("{kept}…"));
}

#[test]
fn status_message_accessor() {
    let s = Status::Failed("boom".to_string());
    assert_eq!(s.message(), "boom");
}
