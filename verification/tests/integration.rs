use std::time::Duration;

use namid::config::RenameConfig;
use namid::discover::{discover_files, DirEntry};
use namid::execute::{execute_plan, needs_disk_rename};
use namid::rename::{generate_plan, DiskNames, RenameOp, RenameStatus};

const DIR: &str = "/media/shows";

fn file(name: &str) -> DirEntry {
    DirEntry {
        name: name.to_string(),
        is_file: true,
        is_dir: false,
        exists: true,
    }
}

fn default_config() -> RenameConfig {
    RenameConfig {
        dir: ".".to_string(),
        title: "Title".into(),
        prefix: String::new(),
        suffix: String::new(),
        extensions: vec!["mp4".into()],
        dry_run: true,
        collision_auto_num: false,
    }
}

/// Plans the renaming of a folder that holds exactly `files`.
fn run_test<F>(title: &str, files: &[&str], customize: F) -> Vec<RenameOp>
where
    F: FnOnce(&mut RenameConfig),
{
    let entries: Vec<DirEntry> = files.iter().map(|f| file(f)).collect();
    let mut config = RenameConfig {
        dir: DIR.to_string(),
        title: title.into(),
        ..default_config()
    };
    customize(&mut config);
    let found = discover_files(DIR, &entries, &config.extensions);
    let on_disk: Vec<String> = files.iter().map(|f| f.to_string()).collect();
    let disk = DiskNames {
        names: on_disk,
        fold_case: false,
    };
    generate_plan(&found, &config, &disk)
}

fn name_of(p: &str) -> String {
    p.rsplit('/').next().unwrap().to_string()
}

fn all_ok(ops: &[RenameOp]) -> Vec<Result<(), String>> {
    ops.iter().map(|_| Ok(())).collect()
}

// discover_files

#[test]
fn discover_finds_matching_extensions() {
    let entries = vec![
        file("vid_01.mp4"),
        file("vid_02.mkv"),
        file("ignored.txt"),
        file(".hidden.mp4"),
    ];
    let exts = vec!["mp4".to_string(), "mkv".to_string()];
    let files = discover_files(DIR, &entries, &exts);
    assert_eq!(files.len(), 2);
    assert!(files
        .iter()
        .all(|p| p.ends_with(".mp4") || p.ends_with(".mkv")));
}

#[test]
fn discover_case_insensitive() {
    let entries = vec![file("vid_01.MP4"), file("vid_02.Mkv")];
    let exts = vec!["mp4".to_string(), "mkv".to_string()];
    let files = discover_files(DIR, &entries, &exts);
    assert_eq!(files.len(), 2);
}

#[test]
fn discover_empty_dir() {
    let exts = vec!["mp4".to_string()];
    let files = discover_files(DIR, &vec![], &exts);
    assert!(files.is_empty());
}

#[test]
fn discover_skips_hidden_files() {
    let entries = vec![file(".hidden.mp4"), file("visible.mp4")];
    let exts = vec!["mp4".to_string()];
    let files = discover_files(DIR, &entries, &exts);
    assert_eq!(files.len(), 1);
    assert!(name_of(&files[0]) != ".hidden.mp4");
}

#[test]
fn discover_empty_extensions_matches_every_file() {
    let entries = vec![file("video.mp4"), file("notes.txt"), file("cover.jpg")];
    let files = discover_files(DIR, &entries, &vec![]);
    assert_eq!(files.len(), 3);
}

#[test]
fn discover_skips_directories_and_sorts() {
    let entries = vec![
        file("b.mp4"),
        DirEntry {
            name: "sub.mp4".to_string(),
            is_file: false,
            is_dir: true,
            exists: true,
        },
        file("a.mp4"),
        file("C.mp4"),
    ];
    let exts = vec!["mp4".to_string()];
    let files = discover_files(DIR, &entries, &exts);
    assert_eq!(
        files,
        vec![
            "/media/shows/C.mp4".to_string(),
            "/media/shows/a.mp4".to_string(),
            "/media/shows/b.mp4".to_string(),
        ]
    );
}

// generate_plan

#[test]
fn plan_strips_prefix() {
    let mut ops = run_test("Title", &["PREFIX_SERIES_E01_720p.mp4"], |c| {
        c.prefix = "PREFIX_SERIES_".into()
    });
    let outcomes = all_ok(&ops);
    execute_plan(&mut ops, true, &outcomes, Duration::ZERO);
    assert_eq!(name_of(&ops[0].to), "Title - E01.mp4");
}

#[test]
fn plan_strips_suffix() {
    let ops = run_test("Series", &["Vid_01_eng.mp4"], |c| c.suffix = "_eng".into());
    assert_eq!(name_of(&ops[0].to), "Series - Vid 01.mp4");
}

#[test]
fn plan_strips_quality_tags() {
    let ops = run_test("Series", &["Ep01_1080p_eng.mp4"], |_| {});
    assert_eq!(name_of(&ops[0].to), "Series - Ep01.mp4");
}

#[test]
fn plan_preserves_underscore_separated_words() {
    let ops = run_test("Series", &["sp_ep_2.mp4"], |_| {});
    assert_eq!(name_of(&ops[0].to), "Series - sp ep 2.mp4");
}

#[test]
fn plan_skips_unchanged() {
    let ops = run_test("Title", &["Title - 01.mp4"], |c| c.prefix = "Title - ".into());
    assert!(matches!(ops[0].status, RenameStatus::SkipNoChange));
}

#[test]
fn plan_detects_collision() {
    let ops = run_test("Series", &["Ep01_x264.mp4", "Ep01_720p.mp4"], |_| {});
    assert_eq!(
        ops.iter()
            .filter(|o| matches!(o.status, RenameStatus::Pending))
            .count(),
        1
    );
    assert_eq!(
        ops.iter()
            .filter(|o| matches!(o.status, RenameStatus::SkipCollision))
            .count(),
        1
    );
}

#[test]
fn plan_skips_exists() {
    let ops = run_test("Series", &["Ep01.mp4", "Series - Ep01.mp4"], |_| {});
    assert!(matches!(ops[0].status, RenameStatus::SkipExists));
}

// execute_plan

#[test]
fn execute_renames_files() {
    let mut ops = run_test("Series", &["Ep01_720p.mp4"], |_| {});
    assert!(needs_disk_rename(&ops[0], false));
    let outcomes = all_ok(&ops);
    let stats = execute_plan(&mut ops, false, &outcomes, Duration::ZERO);
    assert_eq!(stats.renamed, 1);
    assert!(matches!(ops[0].status, RenameStatus::Success));
    assert_eq!(name_of(&ops[0].from), "Ep01_720p.mp4");
    assert_eq!(ops[0].to, "/media/shows/Series - Ep01.mp4");
}

#[test]
fn execute_dry_run_does_not_rename() {
    let mut ops = run_test("Series", &["Ep01_720p.mp4"], |_| {});
    assert!(!needs_disk_rename(&ops[0], true));
    let outcomes = all_ok(&ops);
    execute_plan(&mut ops, true, &outcomes, Duration::ZERO);
    assert_eq!(ops[0].from, "/media/shows/Ep01_720p.mp4");
}

// Full integration

#[test]
fn full_cycle_with_prefix() {
    let mut ops = run_test(
        "Title",
        &[
            "PREFIX_TITLE_E01_720p.mp4",
            "PREFIX_TITLE_E02_720p.mp4",
            "PREFIX_TITLE_E11_End_1080p.mp4",
        ],
        |c| c.prefix = "PREFIX_TITLE_".into(),
    );
    let wanted: Vec<bool> = ops.iter().map(|op| needs_disk_rename(op, false)).collect();
    assert!(wanted.iter().all(|w| *w));
    let outcomes = all_ok(&ops);
    execute_plan(&mut ops, false, &outcomes, Duration::ZERO);
    let targets: Vec<String> = ops.iter().map(|op| name_of(&op.to)).collect();
    assert!(targets.contains(&"Title - E01.mp4".to_string()));
    assert!(targets.contains(&"Title - E02.mp4".to_string()));
    assert!(targets.contains(&"Title - E11 End.mp4".to_string()));
}

#[test]
fn full_cycle_with_prefix_suffix() {
    let mut ops = run_test("Title", &["SITE_SHOW_sp_ep_2_LANG.mp4"], |c| {
        c.prefix = "SITE_SHOW_".into();
        c.suffix = "_LANG".into();
    });
    let outcomes = all_ok(&ops);
    execute_plan(&mut ops, false, &outcomes, Duration::ZERO);
    assert!(matches!(ops[0].status, RenameStatus::Success));
    assert_eq!(name_of(&ops[0].to), "Title - sp ep 2.mp4");
}

// Regression

#[test]
fn empty_name_after_strip_is_not_silently_dropped() {
    let ops = run_test("Some Title", &["REMOVEME.mp4"], |c| c.prefix = "REMOVEME".into());
    assert_eq!(ops.len(), 1);
    assert!(matches!(ops[0].status, RenameStatus::SkipEmptyName));
}

#[test]
fn collision_auto_number_renames_instead_of_skipping() {
    let ops = run_test("Series", &["Ep01_x264.mp4", "Ep01_720p.mp4"], |c| {
        c.collision_auto_num = true
    });
    let pending: Vec<_> = ops
        .iter()
        .filter(|o| matches!(o.status, RenameStatus::Pending))
        .collect();
    assert_eq!(pending.len(), 2);
    let names: std::collections::HashSet<String> =
        pending.iter().map(|o| name_of(&o.to)).collect();
    assert!(names.contains("Series - Ep01.mp4"));
    assert!(names.contains("Series - Ep01 (2).mp4"));
}

#[test]
fn collision_auto_number_also_avoids_names_already_on_disk() {
    let ops = run_test(
        "Series",
        &["Ep01_720p.mp4", "Series - Ep01.mp4", "Series - Ep01 (2).mp4"],
        |c| c.collision_auto_num = true,
    );
    let op = ops
        .iter()
        .find(|o| name_of(&o.from) == "Ep01_720p.mp4")
        .unwrap();
    assert!(matches!(op.status, RenameStatus::Pending));
    assert_eq!(name_of(&op.to), "Series - Ep01 (3).mp4");
}

#[test]
fn collision_detection_is_case_insensitive() {
    let ops = run_test("Title", &["ep1.mp4", "EP1.MP4"], |_| {});
    assert_eq!(ops.len(), 2);
    assert_eq!(
        ops.iter()
            .filter(|o| matches!(o.status, RenameStatus::SkipCollision))
            .count(),
        1
    );
}

// Misc

#[test]
fn default_config_extensions_are_not_empty() {
    let config = RenameConfig::default();
    assert!(!config.extensions.is_empty());
    assert!(config.extensions.contains(&"mp4".to_string()));
}
