use fm_core::terminal::{quote, RunPlan, Terminal};
use fm_core::types::{HistoryDir, Stream, TerminalPrefs, TerminalSize, TerminalStatus};

/// Where `~` and a bare `cd` lead in these tests.
const HOME: &str = "/home/tester";


fn terminal() -> Terminal {
    Terminal::default()
}

fn lines(t: &Terminal) -> Vec<String> {
    t.buffer().lines
}

// --- Quoting (§5.7) ---------------------------------------------------

#[test]
fn quoting_leaves_safe_names_alone_and_wraps_the_rest() {
    assert_eq!(quote("README.md"), "README.md");
    assert_eq!(quote("/usr/local/bin/tool"), "/usr/local/bin/tool");
    assert_eq!(quote("My Notes.txt"), "'My Notes.txt'");
    assert_eq!(quote("it's here.txt"), r"'it'\''s here.txt'");
    assert_eq!(quote("$(rm -rf /)"), "'$(rm -rf /)'");
    assert_eq!(quote("naïve.txt"), "'naïve.txt'");
    assert_eq!(quote(""), "''");
}

#[test]
fn ctrl_enter_builds_up_a_multi_file_command_line() {
    let mut t = terminal();
    t.set_input("rm ".to_string());
    t.insert_name("My Notes.txt");
    t.insert_name("plain.md");
    assert_eq!(t.state("/").input, "rm 'My Notes.txt' plain.md ");
    // Each core rewrite tells the frontend to re-seed its input element.
    assert_eq!(t.state("/").input_rev, 2);
}

// --- input_rev contract ------------------------------------------------

#[test]
fn typing_does_not_bump_the_revision_but_core_rewrites_do() {
    let mut t = terminal();
    t.set_input("ec".into());
    t.set_input("echo hi".into());
    assert_eq!(t.state("/").input_rev, 0, "typing must not re-seed the input");

    t.clear_input();
    assert_eq!(t.state("/").input_rev, 1);
    assert_eq!(t.state("/").input, "");
}

// --- prepare / built-ins ----------------------------------------------

#[test]
fn a_blank_prompt_does_nothing() {
    let mut t = terminal();
    t.set_input("   ".into());
    assert_eq!(t.prepare("/home", HOME), RunPlan::Nothing);
    assert!(lines(&t).is_empty(), "nothing should be echoed");
}

#[test]
fn running_echoes_the_prompt_clears_the_input_and_goes_running() {
    let mut t = terminal();
    t.set_input("make build".into());
    assert_eq!(
        t.prepare("/home/dima", HOME),
        RunPlan::Spawn {
            command: "make build".into(),
            cwd: "/home/dima".into()
        }
    );
    assert_eq!(lines(&t), ["/home/dima> make build"]);
    assert_eq!(t.state("/").input, "");
    assert_eq!(t.state("/").status, TerminalStatus::Running);
    assert_eq!(t.state("/").running.as_deref(), Some("make build"));
    assert_eq!(t.history().entries(), ["make build"]);
}

#[test]
fn cd_becomes_a_panel_navigation_rather_than_a_child_process() {
    let mut t = terminal();
    t.set_input("cd sub".into());
    assert_eq!(t.prepare("/home/dima", HOME), RunPlan::ChangeDir("/home/dima/sub".into()));
    // A built-in never enters the Running state — nothing was spawned.
    assert_eq!(t.state("/").status, TerminalStatus::Idle);

    t.set_input("cd ..".into());
    assert_eq!(t.prepare("/home/dima", HOME), RunPlan::ChangeDir("/home".into()));

    t.set_input("cd /etc".into());
    assert_eq!(t.prepare("/home/dima", HOME), RunPlan::ChangeDir("/etc".into()));
}

#[test]
fn bare_cd_and_tilde_go_home() {
    let mut t = terminal();
    t.set_input("cd".into());
    assert_eq!(t.prepare("/tmp", HOME), RunPlan::ChangeDir("/home/tester".into()));

    t.set_input("cd ~/work".into());
    assert_eq!(t.prepare("/tmp", HOME), RunPlan::ChangeDir("/home/tester/work".into()));
}

#[test]
fn a_compound_cd_belongs_to_the_shell_not_the_builtin() {
    let mut t = terminal();
    t.set_input("cd /tmp && ls".into());
    assert!(
        matches!(t.prepare("/home", HOME), RunPlan::Spawn { .. }),
        "a compound command must reach the shell intact"
    );
}

#[test]
fn clear_empties_the_buffer_the_app_owns() {
    let mut t = terminal();
    t.begin_external("./noisy.sh".into(), "/home");
    t.append(b"lots of output\n", Stream::Stdout);
    assert!(lines(&t).len() >= 2);

    t.set_input("clear".into());
    assert_eq!(t.prepare("/home", HOME), RunPlan::Cleared);
    assert!(lines(&t).is_empty());
}

// --- Status machine (§5.7) --------------------------------------------

#[test]
fn a_clean_run_is_green() {
    let mut t = terminal();
    t.set_input("echo hi".into());
    t.prepare("/home", HOME);
    t.append(b"hi\n", Stream::Stdout);
    t.finish(0);
    assert_eq!(t.state("/").status, TerminalStatus::Okay);
    assert!(!t.is_running());
    assert_eq!(
        lines(&t),
        ["/home> echo hi", "hi"],
        "a clean exit needs no footer"
    );
}

/// Every write to the buffer — the echoed prompt, program output, the exit
/// footer — has to reach the frontend, or the pane silently diverges from
/// what the core holds.
#[test]
fn every_buffer_change_is_queued_for_the_frontend() {
    let mut t = terminal();
    t.set_input("false".into());
    t.prepare("/home", HOME);
    t.append(b"oops\n", Stream::Stderr);
    t.finish(1);

    let chunks = t.drain_chunks();
    // Append then drop — the contract on `TerminalChunk`.
    let mut mirror: Vec<String> = Vec::new();
    for c in &chunks {
        mirror.extend(c.lines.clone());
        mirror.drain(0..(c.dropped as usize).min(mirror.len()));
    }
    assert_eq!(mirror, lines(&t), "the mirror must equal the core's buffer");
    assert_eq!(mirror, ["/home> false", "oops", "[exit 1]"]);

    // Draining is exhaustive — a second drain yields nothing to re-apply.
    assert!(t.drain_chunks().is_empty());
}

#[test]
fn clearing_the_buffer_reaches_the_frontend_as_a_delta() {
    let mut t = terminal();
    t.begin_external("./run.sh".into(), "/home");
    t.append(b"a\nb\n", Stream::Stdout);
    t.drain_chunks();

    t.clear_buffer();
    let chunks = t.drain_chunks();
    assert_eq!(chunks.len(), 1);
    // Three lines existed (the echo plus two of output); all are evicted.
    assert_eq!(chunks[0].dropped, 3);
    assert!(chunks[0].lines.is_empty());
    assert!(lines(&t).is_empty());
}

#[test]
fn stderr_output_makes_it_red_even_on_a_zero_exit() {
    let mut t = terminal();
    t.set_input("noisy".into());
    t.prepare("/home", HOME);
    t.append(b"warning: something\n", Stream::Stderr);
    t.finish(0);
    assert_eq!(t.state("/").status, TerminalStatus::Error);
}

#[test]
fn a_nonzero_exit_is_red_and_leaves_a_footer() {
    let mut t = terminal();
    t.set_input("false".into());
    t.prepare("/home", HOME);
    t.finish(1);
    assert_eq!(t.state("/").status, TerminalStatus::Error);
    assert_eq!(lines(&t).last().unwrap(), "[exit 1]");
}

#[test]
fn touching_a_control_decays_a_verdict_to_grey_but_never_interrupts_running() {
    let mut t = terminal();
    t.set_input("echo hi".into());
    t.prepare("/home", HOME);
    assert_eq!(t.state("/").status, TerminalStatus::Running);

    t.touch();
    assert_eq!(
        t.state("/").status,
        TerminalStatus::Running,
        "a run in progress must keep flashing"
    );

    t.finish(0);
    assert_eq!(t.state("/").status, TerminalStatus::Okay);
    t.touch();
    assert_eq!(t.state("/").status, TerminalStatus::Idle);
    t.touch();
    assert_eq!(t.state("/").status, TerminalStatus::Idle);
}

#[test]
fn a_run_that_cannot_start_is_red() {
    let mut t = terminal();
    t.begin_external("/bin/nope".into(), "/home");
    t.fail("could not run /bin/nope: No such file or directory");
    assert_eq!(t.state("/").status, TerminalStatus::Error);
    assert!(!t.is_running());
    assert!(lines(&t).last().unwrap().contains("could not run"));
}

// --- Pane size & focus -------------------------------------------------

#[test]
fn cmd_shift_t_flips_between_the_bare_line_and_half_the_window() {
    let mut t = terminal();
    assert_eq!(t.size(), TerminalSize::Collapsed);
    t.toggle_half();
    assert_eq!(t.size(), TerminalSize::Half);
    t.toggle_half();
    assert_eq!(t.size(), TerminalSize::Collapsed);
}

#[test]
fn the_esc_curtain_restores_whatever_size_was_showing() {
    let mut t = terminal();
    // From collapsed.
    t.toggle_curtain();
    assert_eq!(t.size(), TerminalSize::Full);
    assert!(t.focused(), "the curtain exists to work in the terminal");
    t.toggle_curtain();
    assert_eq!(t.size(), TerminalSize::Collapsed);

    // From half — Esc must come back to half, not collapse the pane.
    t.toggle_half();
    t.toggle_curtain();
    assert_eq!(t.size(), TerminalSize::Full);
    t.toggle_curtain();
    assert_eq!(t.size(), TerminalSize::Half);
}

#[test]
fn the_prompt_keeps_the_keyboard_while_the_panels_are_hidden() {
    let mut t = terminal();
    t.toggle_curtain();
    t.toggle_focus();
    assert!(t.focused(), "there is no panel to hand the keyboard back to");
    t.set_focused(false);
    assert!(t.focused());
}

#[test]
fn cmd_t_hands_the_keyboard_back_and_forth() {
    let mut t = terminal();
    assert!(!t.focused());
    t.toggle_focus();
    assert!(t.focused());
    t.toggle_focus();
    assert!(!t.focused());
}

#[test]
fn partial_input_survives_losing_focus() {
    let mut t = terminal();
    t.set_input("half-typed comm".into());
    t.toggle_focus();
    t.set_focused(false);
    t.set_focused(true);
    assert_eq!(t.state("/").input, "half-typed comm");
    assert_eq!(t.state("/").input_rev, 0, "and the caret is never disturbed");
}

// --- Preferences -------------------------------------------------------

#[test]
fn preferences_round_trip_but_never_restore_the_curtain() {
    let mut t = Terminal::new(&TerminalPrefs {
        scrollback_bytes: 4 << 20,
        shell: None,
        size: TerminalSize::Half,
    });
    assert_eq!(t.size(), TerminalSize::Half);
    assert_eq!(t.state("/").scrollback_bytes, 4 << 20);

    t.toggle_curtain();
    let mut prefs = TerminalPrefs::default();
    t.capture_prefs(&mut prefs);
    assert_eq!(prefs.size, TerminalSize::Half, "a launch must show the panels");
    assert_eq!(prefs.scrollback_bytes, 4 << 20);

    // And a config that somehow holds Full opens as Half.
    let fresh = Terminal::new(&TerminalPrefs {
        size: TerminalSize::Full,
        ..TerminalPrefs::default()
    });
    assert_eq!(fresh.size(), TerminalSize::Half);
}

#[test]
fn history_recall_drives_the_prompt() {
    let mut t = terminal();
    for cmd in ["ls", "make", "git status"] {
        t.set_input(cmd.into());
        t.prepare("/home", HOME);
    }
    t.recall(HistoryDir::Prev);
    assert_eq!(t.state("/").input, "git status");
    t.recall(HistoryDir::Prev);
    assert_eq!(t.state("/").input, "make");
    t.recall(HistoryDir::Next);
    assert_eq!(t.state("/").input, "git status");
    // Past the newest, back to the (empty) draft.
    t.recall(HistoryDir::Next);
    assert_eq!(t.state("/").input, "");
}

