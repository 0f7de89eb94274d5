use arx::entries::{count_entries, dir_entry_name, entry_name, rename_plan};
use arx::format::{detect, format_from_lowercase, target_format, Format, ZipMethod};
use arx::glob::{matches_exclude, simple_glob};
use arx::pack::{tar_step, zip_step, EntryKind, PackStep};
use arx::plan::{forced, plan, split_out, Plan, Request, UsageError};
use arx::tar_archive::TarArchive;

fn strings(v: &[&str]) -> Vec<String> {
    v.iter().map(|s| s.to_string()).collect()
}

#[test]
fn format_names() {
    assert_eq!(Format::Zip.name(), "zip");
    assert_eq!(Format::Tar.name(), "tar");
    assert_eq!(Format::TarGz.name(), "tar.gz");
}

#[test]
fn zip_level_zero_stores_others_deflate() {
    assert_eq!(Format::from_zip_level(0), ZipMethod::Stored);
    assert_eq!(Format::from_zip_level(1), ZipMethod::Deflated);
    assert_eq!(Format::from_zip_level(6), ZipMethod::Deflated);
    assert_eq!(Format::from_zip_level(9), ZipMethod::Deflated);
}

#[test]
fn gz_level_is_kept() {
    assert_eq!(Format::from_gz_level(0).level(), 0);
    assert_eq!(Format::from_gz_level(6).level(), 6);
    assert_eq!(Format::from_gz_level(9).level(), 9);
}

#[test]
fn detect_by_extension() {
    assert_eq!(detect("backup.zip").unwrap(), Format::Zip);
    assert_eq!(detect("backup.tar").unwrap(), Format::Tar);
    assert_eq!(detect("backup.tar.gz").unwrap(), Format::TarGz);
    assert_eq!(detect("backup.tgz").unwrap(), Format::TarGz);
    assert_eq!(detect("./dir/backup.zip").unwrap(), Format::Zip);
}

#[test]
fn detect_ignores_case() {
    assert_eq!(detect("BACKUP.ZIP").unwrap(), Format::Zip);
    assert_eq!(detect("Backup.Tar.Gz").unwrap(), Format::TarGz);
    assert_eq!(detect("x.TGZ").unwrap(), Format::TarGz);
    assert_eq!(detect("x.TaR").unwrap(), Format::Tar);
}

#[test]
fn detect_rejects_other_names() {
    let e = detect("Notes.TXT").unwrap_err();
    assert_eq!(e.name, "notes.txt");
    assert!(detect("archive").is_err());
    assert!(detect("zip").is_err());
    assert!(detect("x.gz").is_err());
    assert!(detect("").is_err());
}

#[test]
fn detect_reads_what_name_gives() {
    for f in [Format::Zip, Format::Tar, Format::TarGz] {
        let file = format!("stem.{}", f.name());
        assert_eq!(detect(&file).unwrap(), f);
    }
}

#[test]
fn format_from_lowercase_is_exact() {
    assert_eq!(format_from_lowercase("a.zip"), Some(Format::Zip));
    assert_eq!(format_from_lowercase("a.tgz"), Some(Format::TarGz));
    assert_eq!(format_from_lowercase("a.ZIP"), None);
    assert_eq!(format_from_lowercase(".tar"), Some(Format::Tar));
}

#[test]
fn target_format_prefers_forced() {
    assert_eq!(target_format(Some(Format::Zip), "out.tar").unwrap(), Format::Zip);
    assert_eq!(target_format(Some(Format::Tar), "no_extension").unwrap(), Format::Tar);
    assert_eq!(target_format(None, "out.tar.gz").unwrap(), Format::TarGz);
    assert_eq!(target_format(None, "out.rar").unwrap_err().name, "out.rar");
}

#[test]
fn tar_open_reads_gz_from_name() {
    let t = TarArchive::open("a/B.TAR.GZ");
    assert!(t.gz);
    assert_eq!(t.path, "a/B.TAR.GZ");
    assert!(TarArchive::open("x.tgz").gz);
    assert!(!TarArchive::open("x.tar").gz);
    assert!(!TarArchive::open("x.zip").gz);
}

#[test]
fn tar_gz_flag_agrees_with_detect() {
    for name in ["a.tar", "a.TAR.GZ", "a.tgz", "a.zip", "a.txt", "a.gz"] {
        let gz = TarArchive::open(name).gz;
        let det = matches!(detect(name), Ok(Format::TarGz));
        assert_eq!(gz, det, "{name}");
    }
}

#[test]
fn glob_without_star_is_equality() {
    assert!(simple_glob("target", "target"));
    assert!(!simple_glob("target", "target/x"));
    assert!(!simple_glob("", "a"));
    assert!(simple_glob("", ""));
}

#[test]
fn glob_with_stars() {
    assert!(simple_glob("*.log", "app.log"));
    assert!(simple_glob("*.log", ".log"));
    assert!(!simple_glob("*.log", "app.log.txt"));
    assert!(simple_glob("target/*", "target/debug/x"));
    assert!(simple_glob("target/*", "target/"));
    assert!(!simple_glob("target/*", "src/target/x"));
    assert!(simple_glob("*", ""));
    assert!(simple_glob("*", "anything"));
    assert!(simple_glob("a*b*c", "abc"));
    assert!(simple_glob("a*b*c", "a123b456c"));
    assert!(!simple_glob("a*b*c", "acb"));
    assert!(simple_glob("a**c", "ac"));
    assert!(!simple_glob("a*a", "a"));
    assert!(simple_glob("a*a", "aa"));
    assert!(!simple_glob("ab*bc", "abc"));
    assert!(simple_glob("*ab*ab", "xabyab"));
    assert!(simple_glob("*ab*", "zzabzz"));
    assert!(simple_glob("*b*b*", "abab"));
}

#[test]
fn glob_non_ascii() {
    assert!(simple_glob("*.лог", "файл.лог"));
    assert!(simple_glob("ф*л", "файл"));
    assert!(!simple_glob("ф*л", "файлы"));
}

#[test]
fn exclude_by_glob_or_substring() {
    let pats = strings(&["target", "*.log"]);
    assert!(matches_exclude("project/target/debug", &pats));
    assert!(matches_exclude("project/app.log", &pats));
    assert!(!matches_exclude("project/src/main.rs", &pats));
}

#[test]
fn exclude_plain_pattern_is_substring() {
    let pats = strings(&["tmp"]);
    assert!(matches_exclude("a/tmp/b", &pats));
    assert!(matches_exclude("tmp", &pats));
    assert!(!matches_exclude("a/tm/p", &pats));
}

#[test]
fn exclude_ignores_empty_patterns() {
    assert!(!matches_exclude("anything", &strings(&[""])));
    assert!(!matches_exclude("", &strings(&[""])));
    assert!(!matches_exclude("anything", &[]));
}

#[test]
fn exclude_lone_star_excludes_everything() {
    let pats = strings(&["*"]);
    assert!(matches_exclude("", &pats));
    assert!(matches_exclude("a/b/c", &pats));
}

#[test]
fn exclude_star_pattern_as_literal_substring() {
    let pats = strings(&["b*"]);
    assert!(matches_exclude("b*c", &pats));
    assert!(matches_exclude("bcd", &pats));
    assert!(!matches_exclude("abc", &pats));
}

#[test]
fn entry_names_use_forward_slashes() {
    assert_eq!(entry_name("src\\main.rs"), "src/main.rs");
    assert_eq!(entry_name("a/b"), "a/b");
    assert_eq!(entry_name(""), "");
    assert_eq!(entry_name("\\\\"), "//");
}

#[test]
fn dir_entry_names() {
    assert_eq!(dir_entry_name("src"), "src/");
    assert_eq!(dir_entry_name(""), "./");
}

#[test]
fn count_files_and_dirs() {
    let e = strings(&["a/", "a/b.txt", "c", "d/e/"]);
    assert_eq!(count_entries(&e), (2, 2));
    assert_eq!(count_entries(&[]), (0, 0));
    assert_eq!(count_entries(&strings(&["/"])), (0, 1));
    assert_eq!(count_entries(&strings(&[""])), (1, 0));
}

#[test]
fn rename_plan_renames_only_matching() {
    let names = strings(&["a.txt", "b.txt", "a.txt", "dir/"]);
    let out = rename_plan(&names, "a.txt", "z.txt").unwrap();
    assert_eq!(out, strings(&["z.txt", "b.txt", "z.txt", "dir/"]));
}

#[test]
fn rename_plan_missing_entry() {
    let names = strings(&["a.txt"]);
    let e = rename_plan(&names, "b.txt", "c.txt").unwrap_err();
    assert_eq!(e.name, "b.txt");
    assert!(rename_plan(&[], "x", "y").is_err());
}

#[test]
fn split_out_takes_archive_name_last() {
    let (s, o) = split_out(&strings(&["./src", "./docs", "out.tar.gz"]));
    assert_eq!(s, strings(&["./src", "./docs"]));
    assert_eq!(o, Some("out.tar.gz".to_string()));
}

#[test]
fn split_out_lone_archive_name_is_output() {
    let (s, o) = split_out(&strings(&["out.zip"]));
    assert!(s.is_empty());
    assert_eq!(o, Some("out.zip".to_string()));
}

#[test]
fn split_out_without_archive_name() {
    let (s, o) = split_out(&strings(&["./src", "./docs"]));
    assert_eq!(s, strings(&["./src", "./docs"]));
    assert_eq!(o, None);
    let (s, o) = split_out(&strings(&["notes.txt"]));
    assert_eq!(s, strings(&["notes.txt"]));
    assert_eq!(o, None);
    let (s, o) = split_out(&[]);
    assert!(s.is_empty());
    assert_eq!(o, None);
}

fn request() -> Request {
    Request {
        unpack: false,
        pack: false,
        zip: false,
        tar: false,
        tar_gz: false,
        list: false,
        info: false,
        rename: None,
        inputs: Vec::new(),
    }
}

#[test]
fn forced_format_order() {
    assert_eq!(forced(true, true, true), Some(Format::Zip));
    assert_eq!(forced(false, true, true), Some(Format::TarGz));
    assert_eq!(forced(false, true, false), Some(Format::Tar));
    assert_eq!(forced(false, false, false), None);
}

#[test]
fn plan_unpack_list_info() {
    let mut r = request();
    r.unpack = true;
    r.list = true;
    r.inputs = strings(&["a.zip", "b"]);
    assert!(matches!(plan(&r), Ok(Plan::Unpack { archive }) if archive == "a.zip"));
    r.unpack = false;
    assert!(matches!(plan(&r), Ok(Plan::List { archive }) if archive == "a.zip"));
    r.list = false;
    r.info = true;
    assert!(matches!(plan(&r), Ok(Plan::Info { archive }) if archive == "a.zip"));
    r.inputs.clear();
    assert!(matches!(plan(&r), Err(UsageError::NoArchive)));
}

#[test]
fn plan_rename() {
    let mut r = request();
    r.rename = Some(strings(&["a.zip", "old.txt", "new.txt"]));
    assert!(matches!(plan(&r), Ok(Plan::Rename { archive, from, to })
        if archive == "a.zip" && from == "old.txt" && to == "new.txt"));
    r.rename = Some(strings(&["a.zip", "old.txt"]));
    assert!(matches!(plan(&r), Err(UsageError::RenameUsage)));
}

#[test]
fn plan_pack() {
    let mut r = request();
    r.pack = true;
    assert!(matches!(plan(&r), Err(UsageError::NoSource)));
    r.inputs = strings(&["./src"]);
    assert!(matches!(plan(&r), Err(UsageError::NoOutput)));
    r.inputs = strings(&["./src", "./docs", "backup.zip"]);
    match plan(&r) {
        Ok(Plan::Pack { sources, output, force }) => {
            assert_eq!(sources, strings(&["./src", "./docs"]));
            assert_eq!(output, "backup.zip");
            assert_eq!(force, None);
        }
        _ => panic!("expected a pack plan"),
    }
    r.inputs = strings(&["backup.tgz"]);
    match plan(&r) {
        Ok(Plan::Pack { sources, output, .. }) => {
            assert!(sources.is_empty());
            assert_eq!(output, "backup.tgz");
        }
        _ => panic!("expected a pack plan"),
    }
    r.inputs = strings(&["./src", "./docs", "backup.zip"]);
    r.pack = false;
    r.tar_gz = true;
    match plan(&r) {
        Ok(Plan::Pack { force, .. }) => assert_eq!(force, Some(Format::TarGz)),
        _ => panic!("expected a pack plan"),
    }
}

#[test]
fn plan_help() {
    let mut r = request();
    r.inputs = strings(&["a.zip"]);
    assert!(matches!(plan(&r), Ok(Plan::Help)));
}

#[test]
fn zip_steps() {
    let ex = strings(&["*.log"]);
    assert!(matches!(zip_step("src/a.log", EntryKind::File, &ex, false), PackStep::Skip));
    assert!(matches!(zip_step("src/a.rs", EntryKind::File, &ex, false), PackStep::AddFile(n) if n == "src/a.rs"));
    assert!(matches!(zip_step("src", EntryKind::Dir, &ex, true), PackStep::AddDir(n) if n == "src/"));
    assert!(matches!(zip_step("", EntryKind::Dir, &ex, true), PackStep::Pass));
    assert!(matches!(zip_step("link", EntryKind::Other, &ex, false), PackStep::Pass));
    let all = strings(&["*"]);
    assert!(matches!(zip_step("", EntryKind::Dir, &all, true), PackStep::Pass));
    assert!(matches!(zip_step("", EntryKind::Dir, &all, false), PackStep::Skip));
    assert!(matches!(zip_step("src", EntryKind::Dir, &all, true), PackStep::Skip));
}

#[test]
fn tar_steps() {
    let ex = strings(&["target"]);
    assert!(matches!(tar_step("p/target/x", EntryKind::File, &ex), PackStep::Skip));
    assert!(matches!(tar_step("p/a.rs", EntryKind::File, &ex), PackStep::AddFile(n) if n == "p/a.rs"));
    assert!(matches!(tar_step("p", EntryKind::Dir, &ex), PackStep::AddDir(n) if n == "p/"));
    assert!(matches!(tar_step("", EntryKind::Dir, &ex), PackStep::AddDir(n) if n == "./"));
    assert!(matches!(tar_step("", EntryKind::Dir, &strings(&["*"])), PackStep::Skip));
    assert!(matches!(tar_step("p/l", EntryKind::Other, &ex), PackStep::Pass));
}
