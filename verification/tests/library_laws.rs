use std::time::Duration;

use namid::clean::strip_tags;
use namid::config::{expand_tilde, parse_extensions, Cli, RenameConfig};
use namid::discover::{discover_files, existing_names_of, DirEntry};
use namid::execute::{execute_plan, tally_statuses};
use namid::rename::{generate_plan, DiskNames, FinalStats, RenameOp, RenameStatus};
use namid::report::{
    check_run, confirms, header_lines_of, no_files_hint, op_line, plan_counts, plan_summary,
    confirm_prompt, refusal_message, result_counts, Refusal,
};
use namid::ui_text::{
    collision_toggle_text, mode_toggle_text, path_bar_text, preview_row_text, Breadcrumb, FormField,
    PreviewWidget,
};

const DIR: &str = "/media/shows";

fn file(name: &str) -> DirEntry {
    DirEntry {
        name: name.to_string(),
        is_file: true,
        is_dir: false,
        exists: true,
    }
}

fn disk(entries: &Vec<DirEntry>, fold_case: bool) -> DiskNames {
    DiskNames {
        names: existing_names_of(entries),
        fold_case,
    }
}

fn plan(title: &str, names: &[&str], auto_number: bool) -> Vec<RenameOp> {
    plan_on(title, names, auto_number, false)
}

fn plan_on(title: &str, names: &[&str], auto_number: bool, fold_case: bool) -> Vec<RenameOp> {
    let entries: Vec<DirEntry> = names.iter().map(|n| file(n)).collect();
    let config = RenameConfig {
        dir: DIR.to_string(),
        title: title.to_string(),
        collision_auto_num: auto_number,
        ..RenameConfig::default()
    };
    let files = discover_files(DIR, &entries, &config.extensions);
    generate_plan(&files, &config, &disk(&entries, fold_case))
}

fn op(from: &str, to: &str, status: RenameStatus) -> RenameOp {
    RenameOp {
        from: from.to_string(),
        to: to.to_string(),
        status,
    }
}

fn cli() -> Cli {
    Cli {
        dir: None,
        title: None,
        prefix: None,
        suffix: None,
        extensions: "mp4|mkv|webm|avi".to_string(),
        execute: false,
        tui: false,
        yes: false,
        auto_number: false,
    }
}

// Tags

#[test]
fn strip_tags_removes_stacked_tags() {
    assert_eq!(strip_tags("Ep01.x264.1080p"), "Ep01");
    assert_eq!(strip_tags("Ep01_eng-sub"), "Ep01");
    assert_eq!(strip_tags("Ep01-WEB-DL"), "Ep01");
    assert_eq!(strip_tags("Ep01"), "Ep01");
}

#[test]
fn strip_tags_needs_a_separator_and_exact_case() {
    assert_eq!(strip_tags("Show1080p"), "Show1080p");
    assert_eq!(strip_tags("Ep01.hd"), "Ep01.hd");
    assert_eq!(strip_tags(""), "");
}

#[test]
fn strip_tags_is_idempotent() {
    for s in ["Ep01.x264.1080p", "A_eng_sub.HEVC", "x.720p.720p", "plain"] {
        let once = strip_tags(s);
        assert_eq!(strip_tags(&once), once);
    }
}

// Configuration

#[test]
fn parse_extensions_trims_lowercases_and_drops_empty() {
    assert_eq!(parse_extensions(" MP4 | mkv ||"), vec!["mp4", "mkv"]);
    assert!(parse_extensions("").is_empty());
    assert!(parse_extensions("|  |").is_empty());
}

#[test]
fn expand_tilde_uses_the_home_directory() {
    assert_eq!(expand_tilde("~/Videos", Some("/home/u")), "/home/u/Videos");
    assert_eq!(expand_tilde("~/Videos", None), "~/Videos");
    assert_eq!(expand_tilde("/srv/tv", Some("/home/u")), "/srv/tv");
}

#[test]
fn config_from_cli_applies_flags_and_defaults() {
    let mut args = cli();
    args.dir = Some("~/tv".to_string());
    args.title = Some("Show".to_string());
    args.extensions = "MKV".to_string();
    args.execute = true;
    args.auto_number = true;
    let c = RenameConfig::from_cli(&args, Some("/home/u"));
    assert_eq!(c.dir, "/home/u/tv");
    assert_eq!(c.title, "Show");
    assert_eq!(c.prefix, "");
    assert_eq!(c.extensions, vec!["mkv"]);
    assert!(!c.dry_run);
    assert!(c.collision_auto_num);
    let d = RenameConfig::from_cli(&cli(), None);
    assert_eq!(d.dir, ".");
    assert!(d.dry_run);
}

#[test]
fn tui_runs_without_folder_or_title() {
    let mut args = cli();
    assert!(args.wants_tui());
    args.title = Some("Show".to_string());
    assert!(!args.wants_tui());
    args.tui = true;
    assert!(args.wants_tui());
    let c = RenameConfig::for_tui(&cli(), None);
    assert_eq!(c.title, "");
    assert!(c.dry_run);
}

// Planning

#[test]
fn clean_names_are_normalized() {
    let ops = plan("T", &["_Ep   01_-.mp4"], false);
    assert_eq!(ops[0].to, "/media/shows/T - Ep 01.mp4");
    assert!(matches!(ops[0].status, RenameStatus::Pending));
}

#[test]
fn auto_number_keeps_names_distinct() {
    let ops = plan("T", &["A_720p.mp4", "A_1080p.mp4", "A.mp4"], true);
    let names: Vec<&str> = ops.iter().map(|o| o.to.as_str()).collect();
    assert_eq!(
        names,
        vec![
            "/media/shows/T - A.mp4",
            "/media/shows/T - A (2).mp4",
            "/media/shows/T - A (3).mp4"
        ]
    );
    assert!(ops.iter().all(|o| matches!(o.status, RenameStatus::Pending)));
}

#[test]
fn renamed_targets_are_never_on_disk() {
    let ops = plan("T", &["A.mp4", "T - A.mp4", "T - A (2).mp4"], true);
    assert_eq!(ops[0].to, "/media/shows/T - A (3).mp4");
}

#[test]
fn empty_and_unchanged_names_are_skipped() {
    let ops = plan("T", &["1080p.mp4", "_x264.mp4"], false);
    assert!(matches!(ops[0].status, RenameStatus::Pending));
    assert!(matches!(ops[1].status, RenameStatus::SkipEmptyName));
    assert_eq!(ops[1].to, ops[1].from);
}

// Execution

#[test]
fn execution_is_idempotent() {
    let mut ops = plan("T", &["a.mp4", "b.mp4"], false);
    let outcomes = vec![Ok(()), Err("denied".to_string())];
    let first = execute_plan(&mut ops, false, &outcomes, Duration::ZERO);
    assert_eq!((first.renamed, first.skipped, first.errors), (1, 0, 1));
    assert!(matches!(&ops[1].status, RenameStatus::Error(m) if m == "denied"));
    let second = execute_plan(&mut ops, false, &outcomes, Duration::from_millis(5));
    assert_eq!((second.renamed, second.skipped, second.errors), (0, 2, 0));
    assert_eq!(second.duration, Duration::from_millis(5));
    assert!(matches!(ops[0].status, RenameStatus::Success));
}

#[test]
fn execution_accounts_for_every_op() {
    let mut ops = vec![
        op("/d/a", "/d/b", RenameStatus::Pending),
        op("/d/c", "/d/c", RenameStatus::SkipNoChange),
        op("/d/e", "/d/f", RenameStatus::Pending),
        op("/d/g", "/d/h", RenameStatus::SkipCollision),
    ];
    let outcomes = vec![Ok(()), Ok(()), Err("gone".to_string()), Ok(())];
    let stats = execute_plan(&mut ops, false, &outcomes, Duration::ZERO);
    assert_eq!(stats.renamed + stats.skipped + stats.errors, 4);
    assert_eq!((stats.renamed, stats.skipped, stats.errors), (1, 2, 1));
    assert_eq!(tally_statuses(&ops), (1, 2, 1));
}

#[test]
fn dry_run_ignores_outcomes() {
    let mut ops = vec![op("/d/a", "/d/b", RenameStatus::Pending)];
    let outcomes = vec![Err("unused".to_string())];
    let stats = execute_plan(&mut ops, true, &outcomes, Duration::ZERO);
    assert_eq!(stats.renamed, 1);
    assert!(matches!(ops[0].status, RenameStatus::Success));
}

// One-shot report

#[test]
fn op_lines_show_each_status() {
    let ok = op("/d/Ep01.mp4", "/d/T - Ep01.mp4", RenameStatus::Pending);
    assert_eq!(
        op_line(0, 12, &ok),
        "    0/12  Ep01.mp4  →  T - Ep01.mp4"
    );
    let same = op("/d/x.mp4", "/d/x.mp4", RenameStatus::SkipNoChange);
    assert_eq!(
        op_line(1, 12, &same),
        "    1/12  x.mp4  →  [SKIP] name unchanged, already matches title format"
    );
    let err = op("/d/y.mp4", "/d/z.mp4", RenameStatus::Error("boom".into()));
    assert_eq!(op_line(123, 1000, &err), "  123/1000  y.mp4  →  [ERR] boom");
    let exists = op("/d/y.mp4", "/d/z.mp4", RenameStatus::SkipExists);
    assert_eq!(op_line(7, 9, &exists), "    7/9  y.mp4  →  [SKIP] target exists");
}

#[test]
fn confirmation_accepts_only_yes() {
    assert!(confirms("y\n"));
    assert!(confirms("  YES "));
    assert!(!confirms("no"));
    assert!(!confirms(""));
    assert!(!confirms("yess"));
}

#[test]
fn no_files_hint_names_the_extensions() {
    assert_eq!(no_files_hint(&vec![]), "No files found in directory");
    assert_eq!(
        no_files_hint(&vec!["mp4".to_string(), "mkv".to_string()]),
        "No files found matching *.mp4|mkv"
    );
}

#[test]
fn plan_counts_split_pending_from_the_rest() {
    let ops = vec![
        op("/d/a", "/d/b", RenameStatus::Pending),
        op("/d/c", "/d/c", RenameStatus::SkipNoChange),
        op("/d/e", "/d/f", RenameStatus::Error("x".into())),
    ];
    assert_eq!(plan_counts(&ops), (1, 2));
}

// Wizard texts

#[test]
fn breadcrumb_shortens_long_parts() {
    let b = Breadcrumb {
        folder: "",
        title: "",
    };
    assert_eq!(b.line(40).unwrap(), "📂 (no folder)  🏷 (no title)");
    assert_eq!(b.line(3), None);
    let b = Breadcrumb {
        folder: "/very/long/path/name",
        title: "Series",
    };
    assert_eq!(b.line(30).unwrap(), "📂 …/name  🏷 Series");
    let b = Breadcrumb {
        folder: "/tv",
        title: "A very long title",
    };
    assert_eq!(b.line(30).unwrap(), "📂 /tv  🏷 A ver…");
}

#[test]
fn form_field_scrolls_to_keep_the_cursor_visible() {
    let f = FormField {
        label: "Title",
        value: "hello",
        placeholder: "Required",
        cursor: 5,
        focused: true,
        error: false,
    };
    assert_eq!(f.visible(10), ("hello".to_string(), Some((5, ' '))));
    assert_eq!(f.visible(4), ("lo".to_string(), Some((2, ' '))));
    let g = FormField {
        value: "",
        cursor: 0,
        focused: false,
        ..f
    };
    assert_eq!(g.visible(5), ("Requi".to_string(), None));
}

#[test]
fn preview_rows_show_target_or_reason() {
    let ok = op("/d/Ep01.mp4", "/d/T - Ep01.mp4", RenameStatus::Pending);
    assert_eq!(preview_row_text(&ok), " ✓ Ep01.mp4 → T - Ep01.mp4");
    let ex = op("/d/Ep01.mp4", "/d/T - Ep01.mp4", RenameStatus::SkipExists);
    assert_eq!(preview_row_text(&ex), " ⚠ Ep01.mp4 → [target file already exists]");
    let ops: Vec<RenameOp> = (0..10).map(|_| ok.clone()).collect();
    let w = PreviewWidget {
        ops: &ops,
        scroll: 8,
        focused: true,
        empty_msg: "",
    };
    assert_eq!(w.first_row(5), 5);
    assert_eq!(w.first_row(20), 0);
}

#[test]
fn readme_demo_renames_to_title_format() {
    let entries = vec![
        file("SITE_SERIES_E01_1080p.mp4"),
        file("SITE_SERIES_E02_1080p.mp4"),
        file("SITE_SERIES_E11_End_720p.mp4"),
    ];
    let config = RenameConfig {
        dir: DIR.to_string(),
        title: "My Series".to_string(),
        prefix: "SITE_SERIES_".to_string(),
        ..RenameConfig::default()
    };
    let files = discover_files(DIR, &entries, &config.extensions);
    let ops = generate_plan(&files, &config, &disk(&entries, false));
    let names: Vec<&str> = ops.iter().map(|o| o.to.as_str()).collect();
    assert_eq!(
        names,
        vec![
            "/media/shows/My Series - E01.mp4",
            "/media/shows/My Series - E02.mp4",
            "/media/shows/My Series - E11 End.mp4"
        ]
    );
}

#[test]
fn one_shot_mode_requires_a_title_then_a_folder() {
    let mut c = RenameConfig::default();
    assert_eq!(check_run(&c, false), Err(Refusal::MissingTitle));
    c.title = "Show".to_string();
    assert_eq!(check_run(&c, false), Err(Refusal::DirNotFound));
    assert_eq!(check_run(&c, true), Ok(()));
    assert_eq!(
        refusal_message(Refusal::MissingTitle, "/x"),
        "--title is required in CLI mode"
    );
    assert_eq!(
        refusal_message(Refusal::DirNotFound, "/x"),
        "directory not found: /x"
    );
}

#[test]
fn header_lists_only_the_options_in_use() {
    let c = RenameConfig {
        dir: "/tv".to_string(),
        title: "Show".to_string(),
        ..RenameConfig::default()
    };
    assert_eq!(
        header_lines_of(&c),
        vec![
            "=== namid: Batch Rename ===",
            "Dir:     /tv",
            "Title:   Show",
            "Mode:    SIMULATION",
            "         (add --exec to execute)",
            "",
        ]
    );
    let c = RenameConfig {
        prefix: "SITE_".to_string(),
        suffix: "_LANG".to_string(),
        dry_run: false,
        collision_auto_num: true,
        ..c
    };
    assert_eq!(
        header_lines_of(&c),
        vec![
            "=== namid: Batch Rename ===",
            "Dir:     /tv",
            "Title:   Show",
            "Prefix:  SITE_",
            "Suffix:  _LANG",
            "Mode:    EXECUTION",
            "Collide: auto-number duplicates instead of skipping",
            "",
        ]
    );
}

#[test]
fn plan_summary_counts_renames_and_skips() {
    let ops = vec![
        op("/d/a", "/d/b", RenameStatus::Pending),
        op("/d/c", "/d/c", RenameStatus::SkipNoChange),
        op("/d/e", "/d/f", RenameStatus::SkipExists),
    ];
    assert_eq!(plan_summary(&ops), "Plan: 1 to rename · 2 skip");
}

#[test]
fn names_on_a_case_insensitive_disk_are_taken_ignoring_case() {
    let folded = plan_on("Series", &["Ep01.mp4", "series - ep01.mp4"], false, true);
    assert!(matches!(folded[0].status, RenameStatus::SkipExists));
    let exact = plan_on("Series", &["Ep01.mp4", "series - ep01.mp4"], false, false);
    assert!(matches!(exact[0].status, RenameStatus::Pending));
    let numbered = plan_on("Series", &["Ep01.mp4", "series - ep01.mp4"], true, true);
    assert_eq!(numbered[0].to, "/media/shows/Series - Ep01 (2).mp4");
}

#[test]
fn prompt_and_result_lines() {
    assert_eq!(
        confirm_prompt(3),
        "Proceed with execution (3 files, PERMANENT, cannot be undone)? [y/N] "
    );
    let stats = FinalStats {
        renamed: 2,
        skipped: 1,
        errors: 0,
        duration: Duration::ZERO,
    };
    assert_eq!(result_counts(&stats), "Result: 2 renamed · 1 skipped · 0 errors");
}

#[test]
fn path_bar_and_toggle_texts() {
    assert_eq!(path_bar_text(""), "📍  (empty — type full path)");
    assert_eq!(path_bar_text("/tv"), "📍  /tv");
    assert_eq!(mode_toggle_text(true), "   ● Simulate     ○ Execute   [Spc toggle]");
    assert_eq!(mode_toggle_text(false), "   ○ Simulate     ● Execute   [Spc toggle]");
    assert_eq!(
        collision_toggle_text(false),
        "   ● Skip & flag     ○ Auto-number   [Spc toggle]"
    );
    assert_eq!(
        collision_toggle_text(true),
        "   ○ Skip & flag     ● Auto-number   [Spc toggle]"
    );
}

#[test]
fn tags_go_only_at_the_end() {
    assert_eq!(strip_tags("Ep01.720p-x264_eng"), "Ep01");
    assert_eq!(strip_tags("720p_Ep01"), "720p_Ep01");
}

#[test]
fn stem_and_extension_split_at_the_last_dot() {
    let entries = vec![file("a.b.mp4"), file("noext")];
    let config = RenameConfig {
        dir: DIR.to_string(),
        title: "T".to_string(),
        extensions: vec![],
        ..RenameConfig::default()
    };
    let files = discover_files(DIR, &entries, &config.extensions);
    let ops = generate_plan(&files, &config, &disk(&entries, false));
    assert_eq!(ops[0].to, "/media/shows/T - a.b.mp4");
    assert_eq!(ops[1].to, "/media/shows/T - noext.");
}
