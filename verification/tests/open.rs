use fm_core::open::{extension, route, EmbeddedMode, Handler, OpenPlan};
use fm_core::types::{Config, Entry, EntryCategory, EntryKind, EntryMarker, Eol, FileAssociation, FileProbe, MediaKind, OpenAction, TextEncoding};


fn entry_to_open(name: &str, kind: EntryKind, executable: bool) -> Entry {
    Entry {
        name: name.to_string(),
        kind,
        size: 0,
        modified: 0,
        created: 0,
        permissions: 0,
        uid: 0,
        gid: 0,
        owner: None,
        group: None,
        nlink: 0,
        symlink_target: None,
        is_executable: executable,
        category: EntryCategory::Plain,
        marker: EntryMarker::Okay,
        computed_size: None,
    }
}

fn config_with(assoc: FileAssociation) -> Config {
    Config {
        associations: vec![assoc],
        ..Config::default()
    }
}

fn probed(media: MediaKind, size: u64) -> FileProbe {
    FileProbe {
        size,
        media,
        encoding: TextEncoding::Utf8,
        eol: Eol::Lf,
    }
}

/// Route with no type knowledge — what Enter does, and what View/Edit fall
/// back to when a file cannot be probed.
fn plan(entry: &Entry, action: OpenAction, cfg: &Config) -> Option<OpenPlan> {
    route(entry, action, "/home", cfg, None)
}

/// Route a file of a known type, as F3/F4 do.
fn plan_probed(
    entry: &Entry,
    action: OpenAction,
    cfg: &Config,
    media: MediaKind,
    size: u64,
) -> Option<OpenPlan> {
    route(entry, action, "/home", cfg, Some(&probed(media, size)))
}

fn embedded_mode(plan: Option<OpenPlan>) -> EmbeddedMode {
    match plan {
        Some(OpenPlan::Embedded { mode, .. }) => mode,
        other => panic!("expected an embedded plan, got {other:?}"),
    }
}

#[test]
fn dotdot_and_dirs_are_not_openable() {
    let cfg = Config::default();
    assert_eq!(plan(&entry_to_open("..", EntryKind::Dir, false), OpenAction::Open, &cfg), None);
    assert_eq!(plan(&entry_to_open("sub", EntryKind::Dir, false), OpenAction::Open, &cfg), None);
}

#[test]
fn enter_still_hands_plain_files_to_the_system_default() {
    let cfg = Config::default();
    assert_eq!(
        plan(&entry_to_open("notes.txt", EntryKind::File, false), OpenAction::Open, &cfg),
        Some(OpenPlan::Launch { path: "/home/notes.txt".to_string(), app: None })
    );
}

#[test]
fn executable_enter_runs_it_but_f3_views_it() {
    let cfg = Config::default();
    let exe = entry_to_open("run.sh", EntryKind::File, true);
    assert_eq!(
        plan(&exe, OpenAction::Open, &cfg),
        Some(OpenPlan::Execute { path: "/home/run.sh".to_string(), cwd: "/home".to_string() })
    );
    // F3 on a script shows the script, rather than running it.
    assert_eq!(
        embedded_mode(plan_probed(&exe, OpenAction::View, &cfg, MediaKind::Text, 40)),
        EmbeddedMode::Text
    );
}

#[test]
fn f3_picks_its_representation_from_the_files_type() {
    let cfg = Config::default();
    let f = entry_to_open("thing", EntryKind::File, false);
    let view = |media| embedded_mode(plan_probed(&f, OpenAction::View, &cfg, media, 100));
    assert_eq!(view(MediaKind::Text), EmbeddedMode::Text);
    assert_eq!(view(MediaKind::Binary), EmbeddedMode::Hex);
    assert_eq!(view(MediaKind::Image), EmbeddedMode::Image);
}

#[test]
fn f4_edits_text_and_degrades_for_everything_else() {
    let cfg = Config::default();
    let f = entry_to_open("thing", EntryKind::File, false);
    assert_eq!(
        embedded_mode(plan_probed(&f, OpenAction::Edit, &cfg, MediaKind::Text, 100)),
        EmbeddedMode::Edit
    );
    // A binary is editable only as a read-only dump.
    assert_eq!(
        embedded_mode(plan_probed(&f, OpenAction::Edit, &cfg, MediaKind::Binary, 100)),
        EmbeddedMode::Hex
    );
    // An image, and a file too big to hold in memory, go to a real tool.
    assert!(matches!(
        plan_probed(&f, OpenAction::Edit, &cfg, MediaKind::Image, 100),
        Some(OpenPlan::Launch { app: None, .. })
    ));
    assert!(matches!(
        plan_probed(&f, OpenAction::Edit, &cfg, MediaKind::Text, cfg.edit_max_bytes + 1),
        Some(OpenPlan::Launch { app: None, .. })
    ));
}

#[test]
fn an_unprobeable_file_falls_back_to_the_system_rather_than_guessing() {
    let cfg = Config::default();
    let f = entry_to_open("mystery.dat", EntryKind::File, false);
    assert!(matches!(
        plan(&f, OpenAction::View, &cfg),
        Some(OpenPlan::Launch { app: None, .. })
    ));
}

#[test]
fn association_maps_handlers_per_action_with_fallback() {
    let cfg = config_with(FileAssociation {
        extensions: vec!["md".into(), "markdown".into()],
        open: Some("Typora".into()),
        view: None, // View falls back to `open`
        edit: Some("Code".into()),
    });
    let md = entry_to_open("README.md", EntryKind::File, false);
    let app = |a| match plan_probed(&md, a, &cfg, MediaKind::Text, 100) {
        Some(OpenPlan::Launch { app, .. }) => app,
        other => panic!("expected Launch, got {other:?}"),
    };
    assert_eq!(app(OpenAction::Open), Some("Typora".into()));
    assert_eq!(app(OpenAction::View), Some("Typora".into())); // fell back to open
    assert_eq!(app(OpenAction::Edit), Some("Code".into()));
    // Case-insensitive extension match.
    let md_upper = entry_to_open("READ.MARKDOWN", EntryKind::File, false);
    assert!(matches!(
        plan_probed(&md_upper, OpenAction::Edit, &cfg, MediaKind::Text, 100),
        Some(OpenPlan::Launch { app: Some(ref a), .. }) if a == "Code"
    ));
}

#[test]
fn the_system_and_internal_keywords_override_the_defaults() {
    let cfg = config_with(FileAssociation {
        extensions: vec!["log".into()],
        open: Some("internal".into()), // Enter opens our viewer for logs
        view: Some("system".into()),   // but F3 hands off to Console.app
        edit: None,
    });
    let log = entry_to_open("system.log", EntryKind::File, false);
    assert_eq!(
        embedded_mode(plan_probed(&log, OpenAction::Open, &cfg, MediaKind::Text, 100)),
        EmbeddedMode::Text
    );
    assert!(matches!(
        plan_probed(&log, OpenAction::View, &cfg, MediaKind::Text, 100),
        Some(OpenPlan::Launch { app: None, .. })
    ));
    // Edit has no value of its own and inherits `open` — the internal editor.
    assert_eq!(
        embedded_mode(plan_probed(&log, OpenAction::Edit, &cfg, MediaKind::Text, 100)),
        EmbeddedMode::Edit
    );
}

#[test]
fn handler_keywords_are_recognised_case_insensitively() {
    assert_eq!(Handler::parse("Internal"), Handler::Internal);
    assert_eq!(Handler::parse(" system "), Handler::System);
    assert_eq!(Handler::parse("Visual Studio Code"), Handler::App("Visual Studio Code".into()));
}

#[test]
fn dotfile_without_extension_has_no_association() {
    assert_eq!(extension(".bashrc"), None);
    assert_eq!(extension("archive.tar.gz"), Some("gz".to_string()));
    assert_eq!(extension("NOEXT"), None);
}


#[test]
fn enter_launches_a_document_even_with_the_exec_bit() {
    let cfg = Config::default();
    let pdf = entry_to_open("report.pdf", EntryKind::File, true);
    assert_eq!(
        plan(&pdf, OpenAction::Open, &cfg),
        Some(OpenPlan::Launch { path: "/home/report.pdf".to_string(), app: None })
    );
}
