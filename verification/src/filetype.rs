//! What a listing row is — the single source of truth for entry
//! classification. The panel colours a row by [`classify`], and the open
//! routing decides execute-vs-launch by [`is_runnable`]; both read one table.
//!
//! A name that positively identifies a document, dataset, archive, image or
//! media file wins over the exec bit, and so does source nobody executes. The
//! bit still decides what it is good for: names that claim nothing, and
//! interpreted scripts, where `Exec` outranks `Code`.
use vstd::prelude::*;
use crate::fs::{is_dotdot, is_dotdot_name, last_dot, lemma_last_dot_bounds, lowercase_chars, tail_from};
use crate::text::{chars_eq, chars_of, spec_lowercase, string_from_chars};
use crate::types::{Entry, EntryCategory, EntryKind, EntryMarker};

verus! {

/// Lower-cased extension (no dot), or `None` when the name has none. A
/// leading dot does not start an extension.
pub open spec fn ext_of(name: Seq<char>) -> Option<Seq<char>> {
    let i = last_dot(name);
    if i <= 0 { None } else { Some(spec_lowercase(name.skip(i + 1))) }
}

/// Whether `e` is the character sequence of `lit`.
pub fn eq_lit(e: &Vec<char>, lit: &str) -> (r: bool)
    ensures
        r == (e@ == lit@),
{
    let l = chars_of(lit);
    chars_eq(e, &l)
}

/// Document extensions.
pub open spec fn is_doc_ext(e: Seq<char>) -> bool {
    e == "md"@ || e == "txt"@ || e == "rtf"@ || e == "pdf"@ || e == "doc"@ || e == "docx"@ || e == "xls"@
        || e == "xlsx"@ || e == "ppt"@ || e == "pptx"@ || e == "odt"@ || e == "ods"@ || e == "odp"@
        || e == "pages"@ || e == "numbers"@ || e == "key"@ || e == "epub"@
}

/// Data extensions.
pub open spec fn is_data_ext(e: Seq<char>) -> bool {
    e == "xml"@ || e == "json"@ || e == "yaml"@ || e == "yml"@ || e == "toml"@ || e == "csv"@ || e == "tsv"@
        || e == "ini"@ || e == "cfg"@ || e == "conf"@ || e == "plist"@ || e == "sqlite"@ || e == "db"@
        || e == "log"@
}

/// Archive extensions.
pub open spec fn is_archive_ext(e: Seq<char>) -> bool {
    e == "zip"@ || e == "tar"@ || e == "gz"@ || e == "tgz"@ || e == "bz2"@ || e == "xz"@ || e == "zst"@
        || e == "7z"@ || e == "rar"@ || e == "jar"@ || e == "war"@ || e == "dmg"@ || e == "pkg"@
        || e == "iso"@
}

/// Image extensions.
pub open spec fn is_image_ext(e: Seq<char>) -> bool {
    e == "png"@ || e == "jpg"@ || e == "jpeg"@ || e == "gif"@ || e == "bmp"@ || e == "svg"@ || e == "webp"@
        || e == "heic"@ || e == "tiff"@ || e == "ico"@ || e == "icns"@
}

/// Media extensions.
pub open spec fn is_media_ext(e: Seq<char>) -> bool {
    e == "mp4"@ || e == "mov"@ || e == "mkv"@ || e == "avi"@ || e == "webm"@ || e == "mp3"@ || e == "wav"@
        || e == "flac"@ || e == "aac"@ || e == "ogg"@ || e == "m4a"@ || e == "m4v"@
}

/// Source that is compiled, rendered or queried, never run.
pub open spec fn is_source_ext(e: Seq<char>) -> bool {
    e == "c"@ || e == "h"@ || e == "cc"@ || e == "cxx"@ || e == "cpp"@ || e == "hpp"@ || e == "hh"@
        || e == "m"@ || e == "mm"@ || e == "rs"@ || e == "ts"@ || e == "tsx"@ || e == "jsx"@ || e == "java"@
        || e == "go"@ || e == "swift"@ || e == "kt"@ || e == "cs"@ || e == "scala"@ || e == "dart"@
        || e == "ex"@ || e == "exs"@ || e == "zig"@ || e == "html"@ || e == "htm"@ || e == "css"@
        || e == "scss"@ || e == "sass"@ || e == "less"@ || e == "sql"@ || e == "vue"@ || e == "svelte"@
}

/// Interpreted scripts: the one named kind the exec bit really describes.
pub open spec fn is_script_ext(e: Seq<char>) -> bool {
    e == "sh"@ || e == "bash"@ || e == "zsh"@ || e == "fish"@ || e == "ksh"@ || e == "command"@
        || e == "py"@ || e == "rb"@ || e == "pl"@ || e == "php"@ || e == "lua"@ || e == "r"@ || e == "tcl"@
        || e == "awk"@ || e == "ps1"@ || e == "bat"@ || e == "cmd"@ || e == "js"@ || e == "mjs"@
        || e == "cjs"@
}

fn doc_ext(e: &Vec<char>) -> (r: bool)
    ensures
        r == is_doc_ext(e@),
{
    eq_lit(e, "md") || eq_lit(e, "txt") || eq_lit(e, "rtf") || eq_lit(e, "pdf") || eq_lit(e, "doc")
        || eq_lit(e, "docx") || eq_lit(e, "xls") || eq_lit(e, "xlsx") || eq_lit(e, "ppt") || eq_lit(e, "pptx")
        || eq_lit(e, "odt") || eq_lit(e, "ods") || eq_lit(e, "odp") || eq_lit(e, "pages")
        || eq_lit(e, "numbers") || eq_lit(e, "key") || eq_lit(e, "epub")
}

fn data_ext(e: &Vec<char>) -> (r: bool)
    ensures
        r == is_data_ext(e@),
{
    eq_lit(e, "xml") || eq_lit(e, "json") || eq_lit(e, "yaml") || eq_lit(e, "yml") || eq_lit(e, "toml")
        || eq_lit(e, "csv") || eq_lit(e, "tsv") || eq_lit(e, "ini") || eq_lit(e, "cfg") || eq_lit(e, "conf")
        || eq_lit(e, "plist") || eq_lit(e, "sqlite") || eq_lit(e, "db") || eq_lit(e, "log")
}

fn archive_ext(e: &Vec<char>) -> (r: bool)
    ensures
        r == is_archive_ext(e@),
{
    eq_lit(e, "zip") || eq_lit(e, "tar") || eq_lit(e, "gz") || eq_lit(e, "tgz") || eq_lit(e, "bz2")
        || eq_lit(e, "xz") || eq_lit(e, "zst") || eq_lit(e, "7z") || eq_lit(e, "rar") || eq_lit(e, "jar")
        || eq_lit(e, "war") || eq_lit(e, "dmg") || eq_lit(e, "pkg") || eq_lit(e, "iso")
}

fn image_ext(e: &Vec<char>) -> (r: bool)
    ensures
        r == is_image_ext(e@),
{
    eq_lit(e, "png") || eq_lit(e, "jpg") || eq_lit(e, "jpeg") || eq_lit(e, "gif") || eq_lit(e, "bmp")
        || eq_lit(e, "svg") || eq_lit(e, "webp") || eq_lit(e, "heic") || eq_lit(e, "tiff") || eq_lit(e, "ico")
        || eq_lit(e, "icns")
}

fn media_ext(e: &Vec<char>) -> (r: bool)
    ensures
        r == is_media_ext(e@),
{
    eq_lit(e, "mp4") || eq_lit(e, "mov") || eq_lit(e, "mkv") || eq_lit(e, "avi") || eq_lit(e, "webm")
        || eq_lit(e, "mp3") || eq_lit(e, "wav") || eq_lit(e, "flac") || eq_lit(e, "aac") || eq_lit(e, "ogg")
        || eq_lit(e, "m4a") || eq_lit(e, "m4v")
}

fn source_ext(e: &Vec<char>) -> (r: bool)
    ensures
        r == is_source_ext(e@),
{
    eq_lit(e, "c") || eq_lit(e, "h") || eq_lit(e, "cc") || eq_lit(e, "cxx") || eq_lit(e, "cpp")
        || eq_lit(e, "hpp") || eq_lit(e, "hh") || eq_lit(e, "m") || eq_lit(e, "mm") || eq_lit(e, "rs")
        || eq_lit(e, "ts") || eq_lit(e, "tsx") || eq_lit(e, "jsx") || eq_lit(e, "java") || eq_lit(e, "go")
        || eq_lit(e, "swift") || eq_lit(e, "kt") || eq_lit(e, "cs") || eq_lit(e, "scala") || eq_lit(e, "dart")
        || eq_lit(e, "ex") || eq_lit(e, "exs") || eq_lit(e, "zig") || eq_lit(e, "html") || eq_lit(e, "htm")
        || eq_lit(e, "css") || eq_lit(e, "scss") || eq_lit(e, "sass") || eq_lit(e, "less") || eq_lit(e, "sql")
        || eq_lit(e, "vue") || eq_lit(e, "svelte")
}

fn script_ext(e: &Vec<char>) -> (r: bool)
    ensures
        r == is_script_ext(e@),
{
    eq_lit(e, "sh") || eq_lit(e, "bash") || eq_lit(e, "zsh") || eq_lit(e, "fish") || eq_lit(e, "ksh")
        || eq_lit(e, "command") || eq_lit(e, "py") || eq_lit(e, "rb") || eq_lit(e, "pl") || eq_lit(e, "php")
        || eq_lit(e, "lua") || eq_lit(e, "r") || eq_lit(e, "tcl") || eq_lit(e, "awk") || eq_lit(e, "ps1")
        || eq_lit(e, "bat") || eq_lit(e, "cmd") || eq_lit(e, "js") || eq_lit(e, "mjs") || eq_lit(e, "cjs")
}

/// The category a name claims outright — the ones that beat the exec bit.
pub open spec fn by_extension(e: Seq<char>) -> Option<EntryCategory> {
    if is_doc_ext(e) {
        Some(EntryCategory::Doc)
    } else if is_data_ext(e) {
        Some(EntryCategory::Data)
    } else if is_archive_ext(e) {
        Some(EntryCategory::Archive)
    } else if is_image_ext(e) {
        Some(EntryCategory::Image)
    } else if is_media_ext(e) {
        Some(EntryCategory::Media)
    } else {
        None
    }
}

fn by_extension_exec(e: &Vec<char>) -> (r: Option<EntryCategory>)
    ensures
        r == by_extension(e@),
{
    if doc_ext(e) {
        Some(EntryCategory::Doc)
    } else if data_ext(e) {
        Some(EntryCategory::Data)
    } else if archive_ext(e) {
        Some(EntryCategory::Archive)
    } else if image_ext(e) {
        Some(EntryCategory::Image)
    } else if media_ext(e) {
        Some(EntryCategory::Media)
    } else {
        None
    }
}

/// The extension of `name` as characters, lower-cased, if it has one.
pub fn extension_chars(name: &str) -> (r: Option<Vec<char>>)
    ensures
        match r {
            Some(v) => ext_of(name@) == Some(v@),
            None => ext_of(name@) is None,
        },
{
    let v = chars_of(name);
    proof { lemma_last_dot_bounds(v@); }
    let mut i: usize = v.len();
    let mut dot: Option<usize> = None;
    assert(v@.take(v.len() as int) =~= v@);
    while i > 0 && dot.is_none()
        invariant
            i <= v.len(),
            dot is None ==> last_dot(v@) == last_dot(v@.take(i as int)),
            dot matches Some(d) ==> d as int == last_dot(v@),
        decreases i,
    {
        assert(v@.take(i as int).last() == v@[i - 1]);
        assert(v@.take(i as int).drop_last() =~= v@.take(i - 1));
        if v[i - 1] == '.' {
            dot = Some(i - 1);
        }
        i = i - 1;
    }
    match dot {
        Some(d) if d > 0 => {
            let tail = tail_from(&v, d + 1);
            Some(lowercase_chars(&tail))
        },
        _ => None,
    }
}

/// Lower-cased extension (no dot), or `None` when the name has none. A leading
/// dot does not start an extension: `.bashrc` is a hidden file.
pub fn extension(name: &str) -> (r: Option<String>)
    ensures
        match r {
            Some(s) => ext_of(name@) == Some(s@),
            None => ext_of(name@) is None,
        },
{
    match extension_chars(name) {
        Some(v) => Some(string_from_chars(&v)),
        None => None,
    }
}

/// Which colour class `entry` falls into. First match wins: unreadable rows
/// are plain, hidden outranks folder, folders and links keep their own
/// colour, a claiming extension beats the exec bit, so does source, then the
/// bit, then scripts.
pub open spec fn category_of(entry: Entry) -> EntryCategory {
    let name = entry.name@;
    if entry.marker == EntryMarker::Denied || entry.marker == EntryMarker::Broken {
        EntryCategory::Plain
    } else if !is_dotdot(name) && name.len() > 0 && name[0] == '.' {
        EntryCategory::Hidden
    } else if entry.kind == EntryKind::Dir {
        EntryCategory::Dir
    } else if entry.kind == EntryKind::Symlink {
        EntryCategory::Symlink
    } else {
        match ext_of(name) {
            Some(e) => if by_extension(e) is Some {
                by_extension(e).unwrap()
            } else if is_source_ext(e) {
                EntryCategory::Code
            } else if entry.is_executable {
                EntryCategory::Exec
            } else if is_script_ext(e) {
                EntryCategory::Code
            } else {
                EntryCategory::Plain
            },
            None => if entry.is_executable { EntryCategory::Exec } else { EntryCategory::Plain },
        }
    }
}

/// Which colour class `entry` falls into.
pub fn classify(entry: &Entry) -> (r: EntryCategory)
    ensures
        r == category_of(*entry),
{
    if entry.marker == EntryMarker::Denied || entry.marker == EntryMarker::Broken {
        return EntryCategory::Plain;
    }
    let v = chars_of(entry.name.as_str());
    if !is_dotdot_name(entry.name.as_str()) && v.len() > 0 && v[0] == '.' {
        return EntryCategory::Hidden;
    }
    if entry.kind == EntryKind::Dir {
        return EntryCategory::Dir;
    }
    if entry.kind == EntryKind::Symlink {
        return EntryCategory::Symlink;
    }
    match extension_chars(entry.name.as_str()) {
        Some(e) => {
            if let Some(cat) = by_extension_exec(&e) {
                return cat;
            }
            if source_ext(&e) {
                return EntryCategory::Code;
            }
            if entry.is_executable {
                return EntryCategory::Exec;
            }
            if script_ext(&e) {
                return EntryCategory::Code;
            }
            EntryCategory::Plain
        },
        None => if entry.is_executable { EntryCategory::Exec } else { EntryCategory::Plain },
    }
}

/// Whether Enter runs this file rather than handing it to the OS: the exec
/// bit, minus the files whose name says they are data.
pub open spec fn runnable(entry: Entry) -> bool {
    entry.is_executable && category_of(entry) == EntryCategory::Exec
}

/// May Enter run this file, as opposed to handing it to the OS? The exec bit,
/// minus the files whose name says they are data: exactly the `Exec` colour.
pub fn is_runnable(entry: &Entry) -> (r: bool)
    ensures
        r == runnable(*entry),
{
    entry.is_executable && classify(entry) == EntryCategory::Exec
}

/// The colour and the Enter behaviour never disagree: an entry runs exactly
/// when it is coloured `Exec`, and only an entry with the exec bit is.
pub proof fn lemma_runnable_is_exec(entry: Entry)
    ensures
        category_of(entry) == EntryCategory::Exec ==> entry.is_executable,
{
}

// ---------------------------------------------------------------------------
// Laws
// ---------------------------------------------------------------------------

/// The characters of every extension the classifier names.
proof fn lemma_extension_literals()
    ensures
        "md"@ == seq!['m', 'd'],
        "txt"@ == seq!['t', 'x', 't'],
        "rtf"@ == seq!['r', 't', 'f'],
        "pdf"@ == seq!['p', 'd', 'f'],
        "doc"@ == seq!['d', 'o', 'c'],
        "docx"@ == seq!['d', 'o', 'c', 'x'],
        "xls"@ == seq!['x', 'l', 's'],
        "xlsx"@ == seq!['x', 'l', 's', 'x'],
        "ppt"@ == seq!['p', 'p', 't'],
        "pptx"@ == seq!['p', 'p', 't', 'x'],
        "odt"@ == seq!['o', 'd', 't'],
        "ods"@ == seq!['o', 'd', 's'],
        "odp"@ == seq!['o', 'd', 'p'],
        "pages"@ == seq!['p', 'a', 'g', 'e', 's'],
        "numbers"@ == seq!['n', 'u', 'm', 'b', 'e', 'r', 's'],
        "key"@ == seq!['k', 'e', 'y'],
        "epub"@ == seq!['e', 'p', 'u', 'b'],
        "xml"@ == seq!['x', 'm', 'l'],
        "json"@ == seq!['j', 's', 'o', 'n'],
        "yaml"@ == seq!['y', 'a', 'm', 'l'],
        "yml"@ == seq!['y', 'm', 'l'],
        "toml"@ == seq!['t', 'o', 'm', 'l'],
        "csv"@ == seq!['c', 's', 'v'],
        "tsv"@ == seq!['t', 's', 'v'],
        "ini"@ == seq!['i', 'n', 'i'],
        "cfg"@ == seq!['c', 'f', 'g'],
        "conf"@ == seq!['c', 'o', 'n', 'f'],
        "plist"@ == seq!['p', 'l', 'i', 's', 't'],
        "sqlite"@ == seq!['s', 'q', 'l', 'i', 't', 'e'],
        "db"@ == seq!['d', 'b'],
        "log"@ == seq!['l', 'o', 'g'],
        "zip"@ == seq!['z', 'i', 'p'],
        "tar"@ == seq!['t', 'a', 'r'],
        "gz"@ == seq!['g', 'z'],
        "tgz"@ == seq!['t', 'g', 'z'],
        "bz2"@ == seq!['b', 'z', '2'],
        "xz"@ == seq!['x', 'z'],
        "zst"@ == seq!['z', 's', 't'],
        "7z"@ == seq!['7', 'z'],
        "rar"@ == seq!['r', 'a', 'r'],
        "jar"@ == seq!['j', 'a', 'r'],
        "war"@ == seq!['w', 'a', 'r'],
        "dmg"@ == seq!['d', 'm', 'g'],
        "pkg"@ == seq!['p', 'k', 'g'],
        "iso"@ == seq!['i', 's', 'o'],
        "png"@ == seq!['p', 'n', 'g'],
        "jpg"@ == seq!['j', 'p', 'g'],
        "jpeg"@ == seq!['j', 'p', 'e', 'g'],
        "gif"@ == seq!['g', 'i', 'f'],
        "bmp"@ == seq!['b', 'm', 'p'],
        "svg"@ == seq!['s', 'v', 'g'],
        "webp"@ == seq!['w', 'e', 'b', 'p'],
        "heic"@ == seq!['h', 'e', 'i', 'c'],
        "tiff"@ == seq!['t', 'i', 'f', 'f'],
        "ico"@ == seq!['i', 'c', 'o'],
        "icns"@ == seq!['i', 'c', 'n', 's'],
        "mp4"@ == seq!['m', 'p', '4'],
        "mov"@ == seq!['m', 'o', 'v'],
        "mkv"@ == seq!['m', 'k', 'v'],
        "avi"@ == seq!['a', 'v', 'i'],
        "webm"@ == seq!['w', 'e', 'b', 'm'],
        "mp3"@ == seq!['m', 'p', '3'],
        "wav"@ == seq!['w', 'a', 'v'],
        "flac"@ == seq!['f', 'l', 'a', 'c'],
        "aac"@ == seq!['a', 'a', 'c'],
        "ogg"@ == seq!['o', 'g', 'g'],
        "m4a"@ == seq!['m', '4', 'a'],
        "m4v"@ == seq!['m', '4', 'v'],
        "c"@ == seq!['c'],
        "h"@ == seq!['h'],
        "cc"@ == seq!['c', 'c'],
        "cxx"@ == seq!['c', 'x', 'x'],
        "cpp"@ == seq!['c', 'p', 'p'],
        "hpp"@ == seq!['h', 'p', 'p'],
        "hh"@ == seq!['h', 'h'],
        "m"@ == seq!['m'],
        "mm"@ == seq!['m', 'm'],
        "rs"@ == seq!['r', 's'],
        "ts"@ == seq!['t', 's'],
        "tsx"@ == seq!['t', 's', 'x'],
        "jsx"@ == seq!['j', 's', 'x'],
        "java"@ == seq!['j', 'a', 'v', 'a'],
        "go"@ == seq!['g', 'o'],
        "swift"@ == seq!['s', 'w', 'i', 'f', 't'],
        "kt"@ == seq!['k', 't'],
        "cs"@ == seq!['c', 's'],
        "scala"@ == seq!['s', 'c', 'a', 'l', 'a'],
        "dart"@ == seq!['d', 'a', 'r', 't'],
        "ex"@ == seq!['e', 'x'],
        "exs"@ == seq!['e', 'x', 's'],
        "zig"@ == seq!['z', 'i', 'g'],
        "html"@ == seq!['h', 't', 'm', 'l'],
        "htm"@ == seq!['h', 't', 'm'],
        "css"@ == seq!['c', 's', 's'],
        "scss"@ == seq!['s', 'c', 's', 's'],
        "sass"@ == seq!['s', 'a', 's', 's'],
        "less"@ == seq!['l', 'e', 's', 's'],
        "sql"@ == seq!['s', 'q', 'l'],
        "vue"@ == seq!['v', 'u', 'e'],
        "svelte"@ == seq!['s', 'v', 'e', 'l', 't', 'e'],
        "sh"@ == seq!['s', 'h'],
        "bash"@ == seq!['b', 'a', 's', 'h'],
        "zsh"@ == seq!['z', 's', 'h'],
        "fish"@ == seq!['f', 'i', 's', 'h'],
        "ksh"@ == seq!['k', 's', 'h'],
        "command"@ == seq!['c', 'o', 'm', 'm', 'a', 'n', 'd'],
        "py"@ == seq!['p', 'y'],
        "rb"@ == seq!['r', 'b'],
        "pl"@ == seq!['p', 'l'],
        "php"@ == seq!['p', 'h', 'p'],
        "lua"@ == seq!['l', 'u', 'a'],
        "r"@ == seq!['r'],
        "tcl"@ == seq!['t', 'c', 'l'],
        "awk"@ == seq!['a', 'w', 'k'],
        "ps1"@ == seq!['p', 's', '1'],
        "bat"@ == seq!['b', 'a', 't'],
        "cmd"@ == seq!['c', 'm', 'd'],
        "js"@ == seq!['j', 's'],
        "mjs"@ == seq!['m', 'j', 's'],
        "cjs"@ == seq!['c', 'j', 's'],
{
    reveal_strlit("md");
    reveal_strlit("txt");
    reveal_strlit("rtf");
    reveal_strlit("pdf");
    reveal_strlit("doc");
    reveal_strlit("docx");
    reveal_strlit("xls");
    reveal_strlit("xlsx");
    reveal_strlit("ppt");
    reveal_strlit("pptx");
    reveal_strlit("odt");
    reveal_strlit("ods");
    reveal_strlit("odp");
    reveal_strlit("pages");
    reveal_strlit("numbers");
    reveal_strlit("key");
    reveal_strlit("epub");
    reveal_strlit("xml");
    reveal_strlit("json");
    reveal_strlit("yaml");
    reveal_strlit("yml");
    reveal_strlit("toml");
    reveal_strlit("csv");
    reveal_strlit("tsv");
    reveal_strlit("ini");
    reveal_strlit("cfg");
    reveal_strlit("conf");
    reveal_strlit("plist");
    reveal_strlit("sqlite");
    reveal_strlit("db");
    reveal_strlit("log");
    reveal_strlit("zip");
    reveal_strlit("tar");
    reveal_strlit("gz");
    reveal_strlit("tgz");
    reveal_strlit("bz2");
    reveal_strlit("xz");
    reveal_strlit("zst");
    reveal_strlit("7z");
    reveal_strlit("rar");
    reveal_strlit("jar");
    reveal_strlit("war");
    reveal_strlit("dmg");
    reveal_strlit("pkg");
    reveal_strlit("iso");
    reveal_strlit("png");
    reveal_strlit("jpg");
    reveal_strlit("jpeg");
    reveal_strlit("gif");
    reveal_strlit("bmp");
    reveal_strlit("svg");
    reveal_strlit("webp");
    reveal_strlit("heic");
    reveal_strlit("tiff");
    reveal_strlit("ico");
    reveal_strlit("icns");
    reveal_strlit("mp4");
    reveal_strlit("mov");
    reveal_strlit("mkv");
    reveal_strlit("avi");
    reveal_strlit("webm");
    reveal_strlit("mp3");
    reveal_strlit("wav");
    reveal_strlit("flac");
    reveal_strlit("aac");
    reveal_strlit("ogg");
    reveal_strlit("m4a");
    reveal_strlit("m4v");
    reveal_strlit("c");
    reveal_strlit("h");
    reveal_strlit("cc");
    reveal_strlit("cxx");
    reveal_strlit("cpp");
    reveal_strlit("hpp");
    reveal_strlit("hh");
    reveal_strlit("m");
    reveal_strlit("mm");
    reveal_strlit("rs");
    reveal_strlit("ts");
    reveal_strlit("tsx");
    reveal_strlit("jsx");
    reveal_strlit("java");
    reveal_strlit("go");
    reveal_strlit("swift");
    reveal_strlit("kt");
    reveal_strlit("cs");
    reveal_strlit("scala");
    reveal_strlit("dart");
    reveal_strlit("ex");
    reveal_strlit("exs");
    reveal_strlit("zig");
    reveal_strlit("html");
    reveal_strlit("htm");
    reveal_strlit("css");
    reveal_strlit("scss");
    reveal_strlit("sass");
    reveal_strlit("less");
    reveal_strlit("sql");
    reveal_strlit("vue");
    reveal_strlit("svelte");
    reveal_strlit("sh");
    reveal_strlit("bash");
    reveal_strlit("zsh");
    reveal_strlit("fish");
    reveal_strlit("ksh");
    reveal_strlit("command");
    reveal_strlit("py");
    reveal_strlit("rb");
    reveal_strlit("pl");
    reveal_strlit("php");
    reveal_strlit("lua");
    reveal_strlit("r");
    reveal_strlit("tcl");
    reveal_strlit("awk");
    reveal_strlit("ps1");
    reveal_strlit("bat");
    reveal_strlit("cmd");
    reveal_strlit("js");
    reveal_strlit("mjs");
    reveal_strlit("cjs");
    assert("md"@ =~= seq!['m', 'd']);
    assert("txt"@ =~= seq!['t', 'x', 't']);
    assert("rtf"@ =~= seq!['r', 't', 'f']);
    assert("pdf"@ =~= seq!['p', 'd', 'f']);
    assert("doc"@ =~= seq!['d', 'o', 'c']);
    assert("docx"@ =~= seq!['d', 'o', 'c', 'x']);
    assert("xls"@ =~= seq!['x', 'l', 's']);
    assert("xlsx"@ =~= seq!['x', 'l', 's', 'x']);
    assert("ppt"@ =~= seq!['p', 'p', 't']);
    assert("pptx"@ =~= seq!['p', 'p', 't', 'x']);
    assert("odt"@ =~= seq!['o', 'd', 't']);
    assert("ods"@ =~= seq!['o', 'd', 's']);
    assert("odp"@ =~= seq!['o', 'd', 'p']);
    assert("pages"@ =~= seq!['p', 'a', 'g', 'e', 's']);
    assert("numbers"@ =~= seq!['n', 'u', 'm', 'b', 'e', 'r', 's']);
    assert("key"@ =~= seq!['k', 'e', 'y']);
    assert("epub"@ =~= seq!['e', 'p', 'u', 'b']);
    assert("xml"@ =~= seq!['x', 'm', 'l']);
    assert("json"@ =~= seq!['j', 's', 'o', 'n']);
    assert("yaml"@ =~= seq!['y', 'a', 'm', 'l']);
    assert("yml"@ =~= seq!['y', 'm', 'l']);
    assert("toml"@ =~= seq!['t', 'o', 'm', 'l']);
    assert("csv"@ =~= seq!['c', 's', 'v']);
    assert("tsv"@ =~= seq!['t', 's', 'v']);
    assert("ini"@ =~= seq!['i', 'n', 'i']);
    assert("cfg"@ =~= seq!['c', 'f', 'g']);
    assert("conf"@ =~= seq!['c', 'o', 'n', 'f']);
    assert("plist"@ =~= seq!['p', 'l', 'i', 's', 't']);
    assert("sqlite"@ =~= seq!['s', 'q', 'l', 'i', 't', 'e']);
    assert("db"@ =~= seq!['d', 'b']);
    assert("log"@ =~= seq!['l', 'o', 'g']);
    assert("zip"@ =~= seq!['z', 'i', 'p']);
    assert("tar"@ =~= seq!['t', 'a', 'r']);
    assert("gz"@ =~= seq!['g', 'z']);
    assert("tgz"@ =~= seq!['t', 'g', 'z']);
    assert("bz2"@ =~= seq!['b', 'z', '2']);
    assert("xz"@ =~= seq!['x', 'z']);
    assert("zst"@ =~= seq!['z', 's', 't']);
    assert("7z"@ =~= seq!['7', 'z']);
    assert("rar"@ =~= seq!['r', 'a', 'r']);
    assert("jar"@ =~= seq!['j', 'a', 'r']);
    assert("war"@ =~= seq!['w', 'a', 'r']);
    assert("dmg"@ =~= seq!['d', 'm', 'g']);
    assert("pkg"@ =~= seq!['p', 'k', 'g']);
    assert("iso"@ =~= seq!['i', 's', 'o']);
    assert("png"@ =~= seq!['p', 'n', 'g']);
    assert("jpg"@ =~= seq!['j', 'p', 'g']);
    assert("jpeg"@ =~= seq!['j', 'p', 'e', 'g']);
    assert("gif"@ =~= seq!['g', 'i', 'f']);
    assert("bmp"@ =~= seq!['b', 'm', 'p']);
    assert("svg"@ =~= seq!['s', 'v', 'g']);
    assert("webp"@ =~= seq!['w', 'e', 'b', 'p']);
    assert("heic"@ =~= seq!['h', 'e', 'i', 'c']);
    assert("tiff"@ =~= seq!['t', 'i', 'f', 'f']);
    assert("ico"@ =~= seq!['i', 'c', 'o']);
    assert("icns"@ =~= seq!['i', 'c', 'n', 's']);
    assert("mp4"@ =~= seq!['m', 'p', '4']);
    assert("mov"@ =~= seq!['m', 'o', 'v']);
    assert("mkv"@ =~= seq!['m', 'k', 'v']);
    assert("avi"@ =~= seq!['a', 'v', 'i']);
    assert("webm"@ =~= seq!['w', 'e', 'b', 'm']);
    assert("mp3"@ =~= seq!['m', 'p', '3']);
    assert("wav"@ =~= seq!['w', 'a', 'v']);
    assert("flac"@ =~= seq!['f', 'l', 'a', 'c']);
    assert("aac"@ =~= seq!['a', 'a', 'c']);
    assert("ogg"@ =~= seq!['o', 'g', 'g']);
    assert("m4a"@ =~= seq!['m', '4', 'a']);
    assert("m4v"@ =~= seq!['m', '4', 'v']);
    assert("c"@ =~= seq!['c']);
    assert("h"@ =~= seq!['h']);
    assert("cc"@ =~= seq!['c', 'c']);
    assert("cxx"@ =~= seq!['c', 'x', 'x']);
    assert("cpp"@ =~= seq!['c', 'p', 'p']);
    assert("hpp"@ =~= seq!['h', 'p', 'p']);
    assert("hh"@ =~= seq!['h', 'h']);
    assert("m"@ =~= seq!['m']);
    assert("mm"@ =~= seq!['m', 'm']);
    assert("rs"@ =~= seq!['r', 's']);
    assert("ts"@ =~= seq!['t', 's']);
    assert("tsx"@ =~= seq!['t', 's', 'x']);
    assert("jsx"@ =~= seq!['j', 's', 'x']);
    assert("java"@ =~= seq!['j', 'a', 'v', 'a']);
    assert("go"@ =~= seq!['g', 'o']);
    assert("swift"@ =~= seq!['s', 'w', 'i', 'f', 't']);
    assert("kt"@ =~= seq!['k', 't']);
    assert("cs"@ =~= seq!['c', 's']);
    assert("scala"@ =~= seq!['s', 'c', 'a', 'l', 'a']);
    assert("dart"@ =~= seq!['d', 'a', 'r', 't']);
    assert("ex"@ =~= seq!['e', 'x']);
    assert("exs"@ =~= seq!['e', 'x', 's']);
    assert("zig"@ =~= seq!['z', 'i', 'g']);
    assert("html"@ =~= seq!['h', 't', 'm', 'l']);
    assert("htm"@ =~= seq!['h', 't', 'm']);
    assert("css"@ =~= seq!['c', 's', 's']);
    assert("scss"@ =~= seq!['s', 'c', 's', 's']);
    assert("sass"@ =~= seq!['s', 'a', 's', 's']);
    assert("less"@ =~= seq!['l', 'e', 's', 's']);
    assert("sql"@ =~= seq!['s', 'q', 'l']);
    assert("vue"@ =~= seq!['v', 'u', 'e']);
    assert("svelte"@ =~= seq!['s', 'v', 'e', 'l', 't', 'e']);
    assert("sh"@ =~= seq!['s', 'h']);
    assert("bash"@ =~= seq!['b', 'a', 's', 'h']);
    assert("zsh"@ =~= seq!['z', 's', 'h']);
    assert("fish"@ =~= seq!['f', 'i', 's', 'h']);
    assert("ksh"@ =~= seq!['k', 's', 'h']);
    assert("command"@ =~= seq!['c', 'o', 'm', 'm', 'a', 'n', 'd']);
    assert("py"@ =~= seq!['p', 'y']);
    assert("rb"@ =~= seq!['r', 'b']);
    assert("pl"@ =~= seq!['p', 'l']);
    assert("php"@ =~= seq!['p', 'h', 'p']);
    assert("lua"@ =~= seq!['l', 'u', 'a']);
    assert("r"@ =~= seq!['r']);
    assert("tcl"@ =~= seq!['t', 'c', 'l']);
    assert("awk"@ =~= seq!['a', 'w', 'k']);
    assert("ps1"@ =~= seq!['p', 's', '1']);
    assert("bat"@ =~= seq!['b', 'a', 't']);
    assert("cmd"@ =~= seq!['c', 'm', 'd']);
    assert("js"@ =~= seq!['j', 's']);
    assert("mjs"@ =~= seq!['m', 'j', 's']);
    assert("cjs"@ =~= seq!['c', 'j', 's']);
}

/// The extensions of documents.
pub open spec fn doc_extensions() -> Seq<Seq<char>> {
    seq![seq!['m', 'd'], seq!['t', 'x', 't'], seq!['r', 't', 'f'], seq!['p', 'd', 'f'], seq!['d', 'o', 'c'], seq!['d', 'o', 'c', 'x'], seq!['x', 'l', 's'], seq!['x', 'l', 's', 'x'], seq!['p', 'p', 't'], seq!['p', 'p', 't', 'x'], seq!['o', 'd', 't'], seq!['o', 'd', 's'], seq!['o', 'd', 'p'], seq!['p', 'a', 'g', 'e', 's'], seq!['n', 'u', 'm', 'b', 'e', 'r', 's'], seq!['k', 'e', 'y'], seq!['e', 'p', 'u', 'b']]
}

/// The extensions of data files.
pub open spec fn data_extensions() -> Seq<Seq<char>> {
    seq![seq!['x', 'm', 'l'], seq!['j', 's', 'o', 'n'], seq!['y', 'a', 'm', 'l'], seq!['y', 'm', 'l'], seq!['t', 'o', 'm', 'l'], seq!['c', 's', 'v'], seq!['t', 's', 'v'], seq!['i', 'n', 'i'], seq!['c', 'f', 'g'], seq!['c', 'o', 'n', 'f'], seq!['p', 'l', 'i', 's', 't'], seq!['s', 'q', 'l', 'i', 't', 'e'], seq!['d', 'b'], seq!['l', 'o', 'g']]
}

/// The extensions of archives.
pub open spec fn archive_extensions() -> Seq<Seq<char>> {
    seq![seq!['z', 'i', 'p'], seq!['t', 'a', 'r'], seq!['g', 'z'], seq!['t', 'g', 'z'], seq!['b', 'z', '2'], seq!['x', 'z'], seq!['z', 's', 't'], seq!['7', 'z'], seq!['r', 'a', 'r'], seq!['j', 'a', 'r'], seq!['w', 'a', 'r'], seq!['d', 'm', 'g'], seq!['p', 'k', 'g'], seq!['i', 's', 'o']]
}

/// The extensions of images.
pub open spec fn image_extensions() -> Seq<Seq<char>> {
    seq![seq!['p', 'n', 'g'], seq!['j', 'p', 'g'], seq!['j', 'p', 'e', 'g'], seq!['g', 'i', 'f'], seq!['b', 'm', 'p'], seq!['s', 'v', 'g'], seq!['w', 'e', 'b', 'p'], seq!['h', 'e', 'i', 'c'], seq!['t', 'i', 'f', 'f'], seq!['i', 'c', 'o'], seq!['i', 'c', 'n', 's']]
}

/// The extensions of audio and video.
pub open spec fn media_extensions() -> Seq<Seq<char>> {
    seq![seq!['m', 'p', '4'], seq!['m', 'o', 'v'], seq!['m', 'k', 'v'], seq!['a', 'v', 'i'], seq!['w', 'e', 'b', 'm'], seq!['m', 'p', '3'], seq!['w', 'a', 'v'], seq!['f', 'l', 'a', 'c'], seq!['a', 'a', 'c'], seq!['o', 'g', 'g'], seq!['m', '4', 'a'], seq!['m', '4', 'v']]
}

/// The extensions of source code.
pub open spec fn source_extensions() -> Seq<Seq<char>> {
    seq![seq!['c'], seq!['h'], seq!['c', 'c'], seq!['c', 'x', 'x'], seq!['c', 'p', 'p'], seq!['h', 'p', 'p'], seq!['h', 'h'], seq!['m'], seq!['m', 'm'], seq!['r', 's'], seq!['t', 's'], seq!['t', 's', 'x'], seq!['j', 's', 'x'], seq!['j', 'a', 'v', 'a'], seq!['g', 'o'], seq!['s', 'w', 'i', 'f', 't'], seq!['k', 't'], seq!['c', 's'], seq!['s', 'c', 'a', 'l', 'a'], seq!['d', 'a', 'r', 't'], seq!['e', 'x'], seq!['e', 'x', 's'], seq!['z', 'i', 'g'], seq!['h', 't', 'm', 'l'], seq!['h', 't', 'm'], seq!['c', 's', 's'], seq!['s', 'c', 's', 's'], seq!['s', 'a', 's', 's'], seq!['l', 'e', 's', 's'], seq!['s', 'q', 'l'], seq!['v', 'u', 'e'], seq!['s', 'v', 'e', 'l', 't', 'e']]
}

/// The extensions of scripts.
pub open spec fn script_extensions() -> Seq<Seq<char>> {
    seq![seq!['s', 'h'], seq!['b', 'a', 's', 'h'], seq!['z', 's', 'h'], seq!['f', 'i', 's', 'h'], seq!['k', 's', 'h'], seq!['c', 'o', 'm', 'm', 'a', 'n', 'd'], seq!['p', 'y'], seq!['r', 'b'], seq!['p', 'l'], seq!['p', 'h', 'p'], seq!['l', 'u', 'a'], seq!['r'], seq!['t', 'c', 'l'], seq!['a', 'w', 'k'], seq!['p', 's', '1'], seq!['b', 'a', 't'], seq!['c', 'm', 'd'], seq!['j', 's'], seq!['m', 'j', 's'], seq!['c', 'j', 's']]
}

#[verifier::rlimit(100)]
proof fn lemma_doc_table()
    ensures
        forall|e: Seq<char>| #[trigger] doc_extensions().contains(e) ==> by_extension(e) == Some(EntryCategory::Doc),
{
    assert forall|e: Seq<char>| #[trigger] doc_extensions().contains(e) implies by_extension(e) == Some(EntryCategory::Doc) by {
        let k = choose|k: int| 0 <= k < doc_extensions().len() && doc_extensions()[k] == e;
        lemma_extension_literals();
        if k == 0 {
            assert(doc_extensions()[0] =~= "md"@);
        }
        if k == 1 {
            assert(doc_extensions()[1] =~= "txt"@);
        }
        if k == 2 {
            assert(doc_extensions()[2] =~= "rtf"@);
        }
        if k == 3 {
            assert(doc_extensions()[3] =~= "pdf"@);
        }
        if k == 4 {
            assert(doc_extensions()[4] =~= "doc"@);
        }
        if k == 5 {
            assert(doc_extensions()[5] =~= "docx"@);
        }
        if k == 6 {
            assert(doc_extensions()[6] =~= "xls"@);
        }
        if k == 7 {
            assert(doc_extensions()[7] =~= "xlsx"@);
        }
        if k == 8 {
            assert(doc_extensions()[8] =~= "ppt"@);
        }
        if k == 9 {
            assert(doc_extensions()[9] =~= "pptx"@);
        }
        if k == 10 {
            assert(doc_extensions()[10] =~= "odt"@);
        }
        if k == 11 {
            assert(doc_extensions()[11] =~= "ods"@);
        }
        if k == 12 {
            assert(doc_extensions()[12] =~= "odp"@);
        }
        if k == 13 {
            assert(doc_extensions()[13] =~= "pages"@);
        }
        if k == 14 {
            assert(doc_extensions()[14] =~= "numbers"@);
        }
        if k == 15 {
            assert(doc_extensions()[15] =~= "key"@);
        }
        if k == 16 {
            assert(doc_extensions()[16] =~= "epub"@);
        }
    }
}

#[verifier::rlimit(100)]
proof fn lemma_data_table()
    ensures
        forall|e: Seq<char>| #[trigger] data_extensions().contains(e) ==> by_extension(e) == Some(EntryCategory::Data),
{
    assert forall|e: Seq<char>| #[trigger] data_extensions().contains(e) implies by_extension(e) == Some(EntryCategory::Data) by {
        let k = choose|k: int| 0 <= k < data_extensions().len() && data_extensions()[k] == e;
        lemma_extension_literals();
        if k == 0 {
            assert(data_extensions()[0] =~= "xml"@);
        }
        if k == 1 {
            assert(data_extensions()[1] =~= "json"@);
        }
        if k == 2 {
            assert(data_extensions()[2] =~= "yaml"@);
        }
        if k == 3 {
            assert(data_extensions()[3] =~= "yml"@);
        }
        if k == 4 {
            assert(data_extensions()[4] =~= "toml"@);
        }
        if k == 5 {
            assert(data_extensions()[5] =~= "csv"@);
        }
        if k == 6 {
            assert(data_extensions()[6] =~= "tsv"@);
        }
        if k == 7 {
            assert(data_extensions()[7] =~= "ini"@);
        }
        if k == 8 {
            assert(data_extensions()[8] =~= "cfg"@);
        }
        if k == 9 {
            assert(data_extensions()[9] =~= "conf"@);
        }
        if k == 10 {
            assert(data_extensions()[10] =~= "plist"@);
        }
        if k == 11 {
            assert(data_extensions()[11] =~= "sqlite"@);
        }
        if k == 12 {
            assert(data_extensions()[12] =~= "db"@);
        }
        if k == 13 {
            assert(data_extensions()[13] =~= "log"@);
        }
    }
}

#[verifier::rlimit(100)]
proof fn lemma_archive_table()
    ensures
        forall|e: Seq<char>| #[trigger] archive_extensions().contains(e) ==> by_extension(e) == Some(EntryCategory::Archive),
{
    assert forall|e: Seq<char>| #[trigger] archive_extensions().contains(e) implies by_extension(e) == Some(EntryCategory::Archive) by {
        let k = choose|k: int| 0 <= k < archive_extensions().len() && archive_extensions()[k] == e;
        lemma_extension_literals();
        if k == 0 {
            assert(archive_extensions()[0] =~= "zip"@);
        }
        if k == 1 {
            assert(archive_extensions()[1] =~= "tar"@);
        }
        if k == 2 {
            assert(archive_extensions()[2] =~= "gz"@);
        }
        if k == 3 {
            assert(archive_extensions()[3] =~= "tgz"@);
        }
        if k == 4 {
            assert(archive_extensions()[4] =~= "bz2"@);
        }
        if k == 5 {
            assert(archive_extensions()[5] =~= "xz"@);
        }
        if k == 6 {
            assert(archive_extensions()[6] =~= "zst"@);
        }
        if k == 7 {
            assert(archive_extensions()[7] =~= "7z"@);
        }
        if k == 8 {
            assert(archive_extensions()[8] =~= "rar"@);
        }
        if k == 9 {
            assert(archive_extensions()[9] =~= "jar"@);
        }
        if k == 10 {
            assert(archive_extensions()[10] =~= "war"@);
        }
        if k == 11 {
            assert(archive_extensions()[11] =~= "dmg"@);
        }
        if k == 12 {
            assert(archive_extensions()[12] =~= "pkg"@);
        }
        if k == 13 {
            assert(archive_extensions()[13] =~= "iso"@);
        }
    }
}

#[verifier::rlimit(100)]
proof fn lemma_image_table()
    ensures
        forall|e: Seq<char>| #[trigger] image_extensions().contains(e) ==> by_extension(e) == Some(EntryCategory::Image),
{
    assert forall|e: Seq<char>| #[trigger] image_extensions().contains(e) implies by_extension(e) == Some(EntryCategory::Image) by {
        let k = choose|k: int| 0 <= k < image_extensions().len() && image_extensions()[k] == e;
        lemma_extension_literals();
        if k == 0 {
            assert(image_extensions()[0] =~= "png"@);
        }
        if k == 1 {
            assert(image_extensions()[1] =~= "jpg"@);
        }
        if k == 2 {
            assert(image_extensions()[2] =~= "jpeg"@);
        }
        if k == 3 {
            assert(image_extensions()[3] =~= "gif"@);
        }
        if k == 4 {
            assert(image_extensions()[4] =~= "bmp"@);
        }
        if k == 5 {
            assert(image_extensions()[5] =~= "svg"@);
        }
        if k == 6 {
            assert(image_extensions()[6] =~= "webp"@);
        }
        if k == 7 {
            assert(image_extensions()[7] =~= "heic"@);
        }
        if k == 8 {
            assert(image_extensions()[8] =~= "tiff"@);
        }
        if k == 9 {
            assert(image_extensions()[9] =~= "ico"@);
        }
        if k == 10 {
            assert(image_extensions()[10] =~= "icns"@);
        }
    }
}

#[verifier::rlimit(100)]
proof fn lemma_media_table()
    ensures
        forall|e: Seq<char>| #[trigger] media_extensions().contains(e) ==> by_extension(e) == Some(EntryCategory::Media),
{
    assert forall|e: Seq<char>| #[trigger] media_extensions().contains(e) implies by_extension(e) == Some(EntryCategory::Media) by {
        let k = choose|k: int| 0 <= k < media_extensions().len() && media_extensions()[k] == e;
        lemma_extension_literals();
        if k == 0 {
            assert(media_extensions()[0] =~= "mp4"@);
        }
        if k == 1 {
            assert(media_extensions()[1] =~= "mov"@);
        }
        if k == 2 {
            assert(media_extensions()[2] =~= "mkv"@);
        }
        if k == 3 {
            assert(media_extensions()[3] =~= "avi"@);
        }
        if k == 4 {
            assert(media_extensions()[4] =~= "webm"@);
        }
        if k == 5 {
            assert(media_extensions()[5] =~= "mp3"@);
        }
        if k == 6 {
            assert(media_extensions()[6] =~= "wav"@);
        }
        if k == 7 {
            assert(media_extensions()[7] =~= "flac"@);
        }
        if k == 8 {
            assert(media_extensions()[8] =~= "aac"@);
        }
        if k == 9 {
            assert(media_extensions()[9] =~= "ogg"@);
        }
        if k == 10 {
            assert(media_extensions()[10] =~= "m4a"@);
        }
        if k == 11 {
            assert(media_extensions()[11] =~= "m4v"@);
        }
    }
}

proof fn lemma_source_entry_0()
    ensures
        by_extension(source_extensions()[0]) is None && is_source_ext(source_extensions()[0]),
{
    lemma_extension_literals();
    assert(source_extensions()[0] =~= "c"@);
}

proof fn lemma_source_entry_1()
    ensures
        by_extension(source_extensions()[1]) is None && is_source_ext(source_extensions()[1]),
{
    lemma_extension_literals();
    assert(source_extensions()[1] =~= "h"@);
}

proof fn lemma_source_entry_2()
    ensures
        by_extension(source_extensions()[2]) is None && is_source_ext(source_extensions()[2]),
{
    lemma_extension_literals();
    assert(source_extensions()[2] =~= "cc"@);
}

proof fn lemma_source_entry_3()
    ensures
        by_extension(source_extensions()[3]) is None && is_source_ext(source_extensions()[3]),
{
    lemma_extension_literals();
    assert(source_extensions()[3] =~= "cxx"@);
}

proof fn lemma_source_entry_4()
    ensures
        by_extension(source_extensions()[4]) is None && is_source_ext(source_extensions()[4]),
{
    lemma_extension_literals();
    assert(source_extensions()[4] =~= "cpp"@);
}

proof fn lemma_source_entry_5()
    ensures
        by_extension(source_extensions()[5]) is None && is_source_ext(source_extensions()[5]),
{
    lemma_extension_literals();
    assert(source_extensions()[5] =~= "hpp"@);
}

proof fn lemma_source_entry_6()
    ensures
        by_extension(source_extensions()[6]) is None && is_source_ext(source_extensions()[6]),
{
    lemma_extension_literals();
    assert(source_extensions()[6] =~= "hh"@);
}

proof fn lemma_source_entry_7()
    ensures
        by_extension(source_extensions()[7]) is None && is_source_ext(source_extensions()[7]),
{
    lemma_extension_literals();
    assert(source_extensions()[7] =~= "m"@);
}

proof fn lemma_source_entry_8()
    ensures
        by_extension(source_extensions()[8]) is None && is_source_ext(source_extensions()[8]),
{
    lemma_extension_literals();
    assert(source_extensions()[8] =~= "mm"@);
}

proof fn lemma_source_entry_9()
    ensures
        by_extension(source_extensions()[9]) is None && is_source_ext(source_extensions()[9]),
{
    lemma_extension_literals();
    assert(source_extensions()[9] =~= "rs"@);
}

proof fn lemma_source_entry_10()
    ensures
        by_extension(source_extensions()[10]) is None && is_source_ext(source_extensions()[10]),
{
    lemma_extension_literals();
    assert(source_extensions()[10] =~= "ts"@);
}

proof fn lemma_source_entry_11()
    ensures
        by_extension(source_extensions()[11]) is None && is_source_ext(source_extensions()[11]),
{
    lemma_extension_literals();
    assert(source_extensions()[11] =~= "tsx"@);
}

proof fn lemma_source_entry_12()
    ensures
        by_extension(source_extensions()[12]) is None && is_source_ext(source_extensions()[12]),
{
    lemma_extension_literals();
    assert(source_extensions()[12] =~= "jsx"@);
}

proof fn lemma_source_entry_13()
    ensures
        by_extension(source_extensions()[13]) is None && is_source_ext(source_extensions()[13]),
{
    lemma_extension_literals();
    assert(source_extensions()[13] =~= "java"@);
}

proof fn lemma_source_entry_14()
    ensures
        by_extension(source_extensions()[14]) is None && is_source_ext(source_extensions()[14]),
{
    lemma_extension_literals();
    assert(source_extensions()[14] =~= "go"@);
}

proof fn lemma_source_entry_15()
    ensures
        by_extension(source_extensions()[15]) is None && is_source_ext(source_extensions()[15]),
{
    lemma_extension_literals();
    assert(source_extensions()[15] =~= "swift"@);
}

proof fn lemma_source_entry_16()
    ensures
        by_extension(source_extensions()[16]) is None && is_source_ext(source_extensions()[16]),
{
    lemma_extension_literals();
    assert(source_extensions()[16] =~= "kt"@);
}

proof fn lemma_source_entry_17()
    ensures
        by_extension(source_extensions()[17]) is None && is_source_ext(source_extensions()[17]),
{
    lemma_extension_literals();
    assert(source_extensions()[17] =~= "cs"@);
}

proof fn lemma_source_entry_18()
    ensures
        by_extension(source_extensions()[18]) is None && is_source_ext(source_extensions()[18]),
{
    lemma_extension_literals();
    assert(source_extensions()[18] =~= "scala"@);
}

proof fn lemma_source_entry_19()
    ensures
        by_extension(source_extensions()[19]) is None && is_source_ext(source_extensions()[19]),
{
    lemma_extension_literals();
    assert(source_extensions()[19] =~= "dart"@);
}

proof fn lemma_source_entry_20()
    ensures
        by_extension(source_extensions()[20]) is None && is_source_ext(source_extensions()[20]),
{
    lemma_extension_literals();
    assert(source_extensions()[20] =~= "ex"@);
}

proof fn lemma_source_entry_21()
    ensures
        by_extension(source_extensions()[21]) is None && is_source_ext(source_extensions()[21]),
{
    lemma_extension_literals();
    assert(source_extensions()[21] =~= "exs"@);
}

proof fn lemma_source_entry_22()
    ensures
        by_extension(source_extensions()[22]) is None && is_source_ext(source_extensions()[22]),
{
    lemma_extension_literals();
    assert(source_extensions()[22] =~= "zig"@);
}

proof fn lemma_source_entry_23()
    ensures
        by_extension(source_extensions()[23]) is None && is_source_ext(source_extensions()[23]),
{
    lemma_extension_literals();
    assert(source_extensions()[23] =~= "html"@);
}

proof fn lemma_source_entry_24()
    ensures
        by_extension(source_extensions()[24]) is None && is_source_ext(source_extensions()[24]),
{
    lemma_extension_literals();
    assert(source_extensions()[24] =~= "htm"@);
}

proof fn lemma_source_entry_25()
    ensures
        by_extension(source_extensions()[25]) is None && is_source_ext(source_extensions()[25]),
{
    lemma_extension_literals();
    assert(source_extensions()[25] =~= "css"@);
}

proof fn lemma_source_entry_26()
    ensures
        by_extension(source_extensions()[26]) is None && is_source_ext(source_extensions()[26]),
{
    lemma_extension_literals();
    assert(source_extensions()[26] =~= "scss"@);
}

proof fn lemma_source_entry_27()
    ensures
        by_extension(source_extensions()[27]) is None && is_source_ext(source_extensions()[27]),
{
    lemma_extension_literals();
    assert(source_extensions()[27] =~= "sass"@);
}

proof fn lemma_source_entry_28()
    ensures
        by_extension(source_extensions()[28]) is None && is_source_ext(source_extensions()[28]),
{
    lemma_extension_literals();
    assert(source_extensions()[28] =~= "less"@);
}

proof fn lemma_source_entry_29()
    ensures
        by_extension(source_extensions()[29]) is None && is_source_ext(source_extensions()[29]),
{
    lemma_extension_literals();
    assert(source_extensions()[29] =~= "sql"@);
}

proof fn lemma_source_entry_30()
    ensures
        by_extension(source_extensions()[30]) is None && is_source_ext(source_extensions()[30]),
{
    lemma_extension_literals();
    assert(source_extensions()[30] =~= "vue"@);
}

proof fn lemma_source_entry_31()
    ensures
        by_extension(source_extensions()[31]) is None && is_source_ext(source_extensions()[31]),
{
    lemma_extension_literals();
    assert(source_extensions()[31] =~= "svelte"@);
}

proof fn lemma_source_table()
    ensures
        forall|e: Seq<char>| #[trigger] source_extensions().contains(e) ==> by_extension(e) is None && is_source_ext(e),
{
    assert forall|e: Seq<char>| #[trigger] source_extensions().contains(e) implies by_extension(e) is None && is_source_ext(e) by {
        let k = choose|k: int| 0 <= k < source_extensions().len() && source_extensions()[k] == e;
        if k == 0 { lemma_source_entry_0(); }
        if k == 1 { lemma_source_entry_1(); }
        if k == 2 { lemma_source_entry_2(); }
        if k == 3 { lemma_source_entry_3(); }
        if k == 4 { lemma_source_entry_4(); }
        if k == 5 { lemma_source_entry_5(); }
        if k == 6 { lemma_source_entry_6(); }
        if k == 7 { lemma_source_entry_7(); }
        if k == 8 { lemma_source_entry_8(); }
        if k == 9 { lemma_source_entry_9(); }
        if k == 10 { lemma_source_entry_10(); }
        if k == 11 { lemma_source_entry_11(); }
        if k == 12 { lemma_source_entry_12(); }
        if k == 13 { lemma_source_entry_13(); }
        if k == 14 { lemma_source_entry_14(); }
        if k == 15 { lemma_source_entry_15(); }
        if k == 16 { lemma_source_entry_16(); }
        if k == 17 { lemma_source_entry_17(); }
        if k == 18 { lemma_source_entry_18(); }
        if k == 19 { lemma_source_entry_19(); }
        if k == 20 { lemma_source_entry_20(); }
        if k == 21 { lemma_source_entry_21(); }
        if k == 22 { lemma_source_entry_22(); }
        if k == 23 { lemma_source_entry_23(); }
        if k == 24 { lemma_source_entry_24(); }
        if k == 25 { lemma_source_entry_25(); }
        if k == 26 { lemma_source_entry_26(); }
        if k == 27 { lemma_source_entry_27(); }
        if k == 28 { lemma_source_entry_28(); }
        if k == 29 { lemma_source_entry_29(); }
        if k == 30 { lemma_source_entry_30(); }
        if k == 31 { lemma_source_entry_31(); }
    }
}

#[verifier::rlimit(100)]
proof fn lemma_script_entry_0()
    ensures
        (by_extension(script_extensions()[0]) is None && !is_source_ext(script_extensions()[0]) && is_script_ext(script_extensions()[0])),
{
        lemma_extension_literals();
    assert(script_extensions()[0] =~= "sh"@);
}

#[verifier::rlimit(100)]
proof fn lemma_script_entry_1()
    ensures
        (by_extension(script_extensions()[1]) is None && !is_source_ext(script_extensions()[1]) && is_script_ext(script_extensions()[1])),
{
        lemma_extension_literals();
    assert(script_extensions()[1] =~= "bash"@);
}

#[verifier::rlimit(100)]
proof fn lemma_script_entry_2()
    ensures
        (by_extension(script_extensions()[2]) is None && !is_source_ext(script_extensions()[2]) && is_script_ext(script_extensions()[2])),
{
        lemma_extension_literals();
    assert(script_extensions()[2] =~= "zsh"@);
}

#[verifier::rlimit(100)]
proof fn lemma_script_entry_3()
    ensures
        (by_extension(script_extensions()[3]) is None && !is_source_ext(script_extensions()[3]) && is_script_ext(script_extensions()[3])),
{
        lemma_extension_literals();
    assert(script_extensions()[3] =~= "fish"@);
}

#[verifier::rlimit(100)]
proof fn lemma_script_entry_4()
    ensures
        (by_extension(script_extensions()[4]) is None && !is_source_ext(script_extensions()[4]) && is_script_ext(script_extensions()[4])),
{
        lemma_extension_literals();
    assert(script_extensions()[4] =~= "ksh"@);
}

#[verifier::rlimit(100)]
proof fn lemma_script_entry_5()
    ensures
        (by_extension(script_extensions()[5]) is None && !is_source_ext(script_extensions()[5]) && is_script_ext(script_extensions()[5])),
{
        lemma_extension_literals();
    assert(script_extensions()[5] =~= "command"@);
}

#[verifier::rlimit(100)]
proof fn lemma_script_entry_6()
    ensures
        (by_extension(script_extensions()[6]) is None && !is_source_ext(script_extensions()[6]) && is_script_ext(script_extensions()[6])),
{
        lemma_extension_literals();
    assert(script_extensions()[6] =~= "py"@);
}

#[verifier::rlimit(100)]
proof fn lemma_script_entry_7()
    ensures
        (by_extension(script_extensions()[7]) is None && !is_source_ext(script_extensions()[7]) && is_script_ext(script_extensions()[7])),
{
        lemma_extension_literals();
    assert(script_extensions()[7] =~= "rb"@);
}

#[verifier::rlimit(100)]
proof fn lemma_script_entry_8()
    ensures
        (by_extension(script_extensions()[8]) is None && !is_source_ext(script_extensions()[8]) && is_script_ext(script_extensions()[8])),
{
        lemma_extension_literals();
    assert(script_extensions()[8] =~= "pl"@);
}

#[verifier::rlimit(100)]
proof fn lemma_script_entry_9()
    ensures
        (by_extension(script_extensions()[9]) is None && !is_source_ext(script_extensions()[9]) && is_script_ext(script_extensions()[9])),
{
        lemma_extension_literals();
    assert(script_extensions()[9] =~= "php"@);
}

#[verifier::rlimit(100)]
proof fn lemma_script_entry_10()
    ensures
        (by_extension(script_extensions()[10]) is None && !is_source_ext(script_extensions()[10]) && is_script_ext(script_extensions()[10])),
{
        lemma_extension_literals();
    assert(script_extensions()[10] =~= "lua"@);
}

#[verifier::rlimit(100)]
proof fn lemma_script_entry_11()
    ensures
        (by_extension(script_extensions()[11]) is None && !is_source_ext(script_extensions()[11]) && is_script_ext(script_extensions()[11])),
{
        lemma_extension_literals();
    assert(script_extensions()[11] =~= "r"@);
    let e = script_extensions()[11];
    assert(!is_doc_ext(e));
    assert(!is_data_ext(e));
    assert(!is_archive_ext(e));
    assert(!is_image_ext(e));
    assert(!is_media_ext(e));
    assert(e[0] == 'r');
    assert("c"@[0] == 'c' && "h"@[0] == 'h' && "m"@[0] == 'm');
    assert(e != "c"@ && e != "h"@ && e != "m"@);
    assert(!is_source_ext(e));
    assert(is_script_ext(e));
}

#[verifier::rlimit(100)]
proof fn lemma_script_entry_12()
    ensures
        (by_extension(script_extensions()[12]) is None && !is_source_ext(script_extensions()[12]) && is_script_ext(script_extensions()[12])),
{
        lemma_extension_literals();
    assert(script_extensions()[12] =~= "tcl"@);
}

#[verifier::rlimit(100)]
proof fn lemma_script_entry_13()
    ensures
        (by_extension(script_extensions()[13]) is None && !is_source_ext(script_extensions()[13]) && is_script_ext(script_extensions()[13])),
{
        lemma_extension_literals();
    assert(script_extensions()[13] =~= "awk"@);
}

#[verifier::rlimit(100)]
proof fn lemma_script_entry_14()
    ensures
        (by_extension(script_extensions()[14]) is None && !is_source_ext(script_extensions()[14]) && is_script_ext(script_extensions()[14])),
{
        lemma_extension_literals();
    assert(script_extensions()[14] =~= "ps1"@);
}

#[verifier::rlimit(100)]
proof fn lemma_script_entry_15()
    ensures
        (by_extension(script_extensions()[15]) is None && !is_source_ext(script_extensions()[15]) && is_script_ext(script_extensions()[15])),
{
        lemma_extension_literals();
    assert(script_extensions()[15] =~= "bat"@);
}

#[verifier::rlimit(100)]
proof fn lemma_script_entry_16()
    ensures
        (by_extension(script_extensions()[16]) is None && !is_source_ext(script_extensions()[16]) && is_script_ext(script_extensions()[16])),
{
        lemma_extension_literals();
    assert(script_extensions()[16] =~= "cmd"@);
}

#[verifier::rlimit(100)]
proof fn lemma_script_entry_17()
    ensures
        (by_extension(script_extensions()[17]) is None && !is_source_ext(script_extensions()[17]) && is_script_ext(script_extensions()[17])),
{
        lemma_extension_literals();
    assert(script_extensions()[17] =~= "js"@);
}

#[verifier::rlimit(100)]
proof fn lemma_script_entry_18()
    ensures
        (by_extension(script_extensions()[18]) is None && !is_source_ext(script_extensions()[18]) && is_script_ext(script_extensions()[18])),
{
        lemma_extension_literals();
    assert(script_extensions()[18] =~= "mjs"@);
}

#[verifier::rlimit(100)]
proof fn lemma_script_entry_19()
    ensures
        (by_extension(script_extensions()[19]) is None && !is_source_ext(script_extensions()[19]) && is_script_ext(script_extensions()[19])),
{
        lemma_extension_literals();
    assert(script_extensions()[19] =~= "cjs"@);
}

proof fn lemma_script_table()
    ensures
        forall|e: Seq<char>| #[trigger] script_extensions().contains(e) ==> by_extension(e) is None && !is_source_ext(e) && is_script_ext(e),
{
    assert forall|e: Seq<char>| #[trigger] script_extensions().contains(e) implies by_extension(e) is None && !is_source_ext(e) && is_script_ext(e) by {
        let k = choose|k: int| 0 <= k < script_extensions().len() && script_extensions()[k] == e;
        if k == 0 { lemma_script_entry_0(); }
        if k == 1 { lemma_script_entry_1(); }
        if k == 2 { lemma_script_entry_2(); }
        if k == 3 { lemma_script_entry_3(); }
        if k == 4 { lemma_script_entry_4(); }
        if k == 5 { lemma_script_entry_5(); }
        if k == 6 { lemma_script_entry_6(); }
        if k == 7 { lemma_script_entry_7(); }
        if k == 8 { lemma_script_entry_8(); }
        if k == 9 { lemma_script_entry_9(); }
        if k == 10 { lemma_script_entry_10(); }
        if k == 11 { lemma_script_entry_11(); }
        if k == 12 { lemma_script_entry_12(); }
        if k == 13 { lemma_script_entry_13(); }
        if k == 14 { lemma_script_entry_14(); }
        if k == 15 { lemma_script_entry_15(); }
        if k == 16 { lemma_script_entry_16(); }
        if k == 17 { lemma_script_entry_17(); }
        if k == 18 { lemma_script_entry_18(); }
        if k == 19 { lemma_script_entry_19(); }
    }
}

/// How a readable, visible file (not a folder or link) is coloured by its
/// extension, in any case, whatever its exec bit: documents (md, txt, pdf,
/// ...) as documents, data files (json, csv, ...) as data, archives (zip,
/// tar, ...) as archives, images (png, jpg, jpeg, gif, bmp, svg, webp, heic,
/// tiff, ico, icns) as images, audio and video (mp4, mp3, ...) as media,
/// source (rs, c, html, ...) as code; a script (sh, py, js, ...) as
/// runnable when its exec bit is set and as code when not. Only a runnable
/// script is ever run by Enter.
pub proof fn lemma_files_are_coloured_by_extension(entry: Entry)
    requires
        entry.marker == EntryMarker::Okay,
        entry.kind != EntryKind::Dir,
        entry.kind != EntryKind::Symlink,
        entry.name@.len() > 0 && entry.name@[0] != '.',
        ext_of(entry.name@) is Some,
    ensures
        ({
            let e = ext_of(entry.name@).unwrap();
            &&& doc_extensions().contains(e) ==> category_of(entry) == EntryCategory::Doc
            &&& data_extensions().contains(e) ==> category_of(entry) == EntryCategory::Data
            &&& archive_extensions().contains(e) ==> category_of(entry) == EntryCategory::Archive
            &&& image_extensions().contains(e) ==> category_of(entry) == EntryCategory::Image
            &&& media_extensions().contains(e) ==> category_of(entry) == EntryCategory::Media
            &&& source_extensions().contains(e) ==> category_of(entry) == EntryCategory::Code
            &&& script_extensions().contains(e) ==> category_of(entry) == if entry.is_executable {
                EntryCategory::Exec
            } else {
                EntryCategory::Code
            }
            &&& runnable(entry) ==> !(doc_extensions().contains(e) || data_extensions().contains(e)
                || archive_extensions().contains(e) || image_extensions().contains(e) || media_extensions().contains(e)
                || source_extensions().contains(e))
        }),
{
    lemma_doc_table();
    lemma_data_table();
    lemma_archive_table();
    lemma_image_table();
    lemma_media_table();
    lemma_source_table();
    lemma_script_table();
}

} // verus!
