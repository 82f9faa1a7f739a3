use fm_core::filetype::{classify, extension, is_runnable};
use fm_core::types::{Entry, EntryCategory, EntryKind, EntryMarker};


fn ft_entry(name: &str, kind: EntryKind, is_executable: bool) -> Entry {
    Entry {
        name: name.to_string(),
        kind,
        size: 0,
        modified: 0,
        created: 0,
        permissions: 0,
        uid: 0,
        gid: 0,
        owner: None,
        group: None,
        nlink: 0,
        symlink_target: None,
        is_executable,
        category: EntryCategory::Plain,
        marker: EntryMarker::Okay,
        computed_size: None,
    }
}

fn file(name: &str, is_executable: bool) -> Entry {
    ft_entry(name, EntryKind::File, is_executable)
}

/// The regression test for the reported bug: a folder full of `0750` PDFs
/// must not read as a folder full of programs.
#[test]
fn exec_bit_does_not_beat_a_document_extension() {
    assert_eq!(classify(&file("report.pdf", true)), EntryCategory::Doc);
    assert_eq!(classify(&file("Q3 Results.xlsx", true)), EntryCategory::Doc);
    assert_eq!(classify(&file("swagger.json", true)), EntryCategory::Data);
    assert_eq!(classify(&file("shipment.zip", true)), EntryCategory::Archive);
    assert_eq!(classify(&file("logo.PNG", true)), EntryCategory::Image);
    assert_eq!(classify(&file("clip.mp4", true)), EntryCategory::Media);
}

/// The bit describes a script, so it is allowed to win there — and only there.
#[test]
fn exec_bit_beats_a_script_extension_but_not_other_source() {
    assert_eq!(classify(&file("deploy.sh", true)), EntryCategory::Exec);
    assert_eq!(classify(&file("deploy.sh", false)), EntryCategory::Code);
    assert_eq!(classify(&file("cli.js", true)), EntryCategory::Exec);

    // You never execute these, so a stray bit must not recolour them.
    assert_eq!(classify(&file("bank_host.html", true)), EntryCategory::Code);
    assert_eq!(classify(&file("main.rs", true)), EntryCategory::Code);
    assert_eq!(classify(&file("styles.css", true)), EntryCategory::Code);
    assert_eq!(classify(&file("main.rs", false)), EntryCategory::Code);
}

#[test]
fn extensionless_executable_is_exec() {
    assert_eq!(classify(&file("build", true)), EntryCategory::Exec);
    assert_eq!(classify(&file("myapp.x86_64", true)), EntryCategory::Exec);
    assert_eq!(classify(&file("README", false)), EntryCategory::Plain);
}

#[test]
fn hidden_beats_everything() {
    assert_eq!(classify(&file(".gitignore", false)), EntryCategory::Hidden);
    // Even when the name looks like a document and the bit is set.
    assert_eq!(classify(&file(".notes.pdf", true)), EntryCategory::Hidden);
    let dotdir = ft_entry(".config", EntryKind::Dir, false);
    assert_eq!(classify(&dotdir), EntryCategory::Hidden);
}

#[test]
fn dotdot_is_dir_and_symlinks_keep_their_own_colour() {
    assert_eq!(
        classify(&ft_entry("..", EntryKind::Dir, false)),
        EntryCategory::Dir
    );
    // The link's own colour wins over what its name suggests.
    assert_eq!(
        classify(&ft_entry("latest.pdf", EntryKind::Symlink, false)),
        EntryCategory::Symlink
    );
}

#[test]
fn denied_and_broken_are_plain() {
    let mut denied = file("secret.pdf", false);
    denied.marker = EntryMarker::Denied;
    assert_eq!(classify(&denied), EntryCategory::Plain);

    let mut broken = ft_entry("dangling", EntryKind::Symlink, false);
    broken.marker = EntryMarker::Broken;
    assert_eq!(classify(&broken), EntryCategory::Plain);
}

#[test]
fn is_runnable_ignores_the_bit_on_documents() {
    assert!(!is_runnable(&file("report.pdf", true)));
    assert!(!is_runnable(&file("swagger.json", true)));
    assert!(!is_runnable(&file("bank_host.html", true)));
    assert!(!is_runnable(&file("main.rs", true)));
    assert!(is_runnable(&file("deploy.sh", true)));
    assert!(is_runnable(&file("build", true)));
    // No bit, nothing runs.
    assert!(!is_runnable(&file("deploy.sh", false)));
    assert!(!is_runnable(&file("build", false)));
}

#[test]
fn extension_ignores_a_leading_dot_and_lowercases() {
    assert_eq!(extension("a.PDF").as_deref(), Some("pdf"));
    assert_eq!(extension("archive.tar.gz").as_deref(), Some("gz"));
    assert_eq!(extension(".bashrc"), None);
    assert_eq!(extension("README"), None);
    assert_eq!(extension("trailing."), Some(String::new()));
}

