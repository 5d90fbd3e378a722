use std::time::Duration;

use namid::config::RenameConfig;
use namid::discover::DirEntry;
use namid::rename::{FinalStats, RenameStatus};
use namid::ui_text::{is_folder_line, StepMark};
use namid::wizard::{
    finished_event, progress_after, App, AppState, DirListing, Effect, ExecuteEvent, FolderFocus,
    Key, QuitReturn, Step,
};

fn config(dir: &str, title: &str) -> RenameConfig {
    RenameConfig {
        dir: dir.to_string(),
        title: title.to_string(),
        ..RenameConfig::default()
    }
}

fn file(name: &str) -> DirEntry {
    DirEntry {
        name: name.to_string(),
        is_file: true,
        is_dir: false,
        exists: true,
    }
}

fn folder(name: &str) -> DirEntry {
    DirEntry {
        name: name.to_string(),
        is_file: false,
        is_dir: true,
        exists: true,
    }
}

fn entries(es: Vec<DirEntry>) -> DirListing {
    DirListing::Entries {
        entries: es,
        fold_case: false,
    }
}

fn on_step(app: &App, step: Step) -> bool {
    matches!(app.state, AppState::Wizard { step: s } if s == step)
}

fn press(app: &mut App, key: Key) -> Effect {
    assert!(app.well_formed_now());
    app.handle_key(key, false, None)
}

#[test]
fn steps_go_forward_and_back_in_order() {
    let all = [Step::Folder, Step::Rules, Step::Preview, Step::Execute];
    for (i, s) in all.iter().enumerate() {
        assert_eq!(s.index(), i);
        assert_eq!(Step::from_index(i), Some(*s));
        if let Some(t) = s.next() {
            assert_eq!(t.prev(), Some(*s));
        }
        if let Some(t) = s.prev() {
            assert_eq!(t.next(), Some(*s));
        }
    }
    assert_eq!(Step::Execute.next(), None);
    assert_eq!(Step::Folder.prev(), None);
    assert_eq!(Step::from_index(4), None);
}

#[test]
fn new_app_starts_on_folder_step() {
    let app = App::new(config("/media/shows", "Show"));
    assert!(on_step(&app, Step::Folder));
    assert_eq!(app.dir_buffer, "/media/shows");
    assert_eq!(app.path_cursor, 12);
    assert_eq!(app.visited, [true, false, false, false]);
    assert_eq!(app.rules.fields[0].value, "Show");
    assert_eq!(app.rules.fields[3].value, "mp4|mkv|webm|avi");
    assert!(app.well_formed_now());
}

#[test]
fn quit_asks_for_confirmation() {
    let mut app = App::new(config("/media/shows", "Show"));
    assert_eq!(press(&mut app, Key::Char('q')), Effect::Nothing);
    assert!(matches!(
        app.state,
        AppState::ConfirmQuit {
            return_to: QuitReturn::Wizard(Step::Folder)
        }
    ));
    assert_eq!(press(&mut app, Key::Char('n')), Effect::Nothing);
    assert!(on_step(&app, Step::Folder));
    press(&mut app, Key::Char('q'));
    assert_eq!(press(&mut app, Key::Char('y')), Effect::Quit);
}

#[test]
fn cheatsheet_swallows_keys_until_closed() {
    let mut app = App::new(config("/media/shows", "Show"));
    press(&mut app, Key::Char('?'));
    assert!(app.cheatsheet_open);
    assert_eq!(press(&mut app, Key::Tab), Effect::Nothing);
    assert!(on_step(&app, Step::Folder));
    press(&mut app, Key::Char('q'));
    assert!(!app.cheatsheet_open);
    assert!(on_step(&app, Step::Folder));
}

#[test]
fn ctrl_c_in_a_text_field_asks_to_quit() {
    let mut app = App::new(config("/media/shows", "Show"));
    app.state = AppState::Wizard { step: Step::Rules };
    assert!(app.well_formed_now());
    let e = app.handle_key(Key::Char('c'), true, None);
    assert_eq!(e, Effect::Nothing);
    assert!(matches!(
        app.state,
        AppState::ConfirmQuit {
            return_to: QuitReturn::Wizard(Step::Rules)
        }
    ));
    assert_eq!(app.rules.fields[0].value, "Show");
}

#[test]
fn jumps_only_to_visited_steps() {
    let mut app = App::new(config("/media/shows", "Show"));
    app.state = AppState::Wizard { step: Step::Preview };
    app.visited = [true, true, true, false];
    press(&mut app, Key::Char('4'));
    assert!(on_step(&app, Step::Preview));
    press(&mut app, Key::Char('1'));
    assert!(on_step(&app, Step::Folder));
}

#[test]
fn rules_typing_edits_at_the_cursor() {
    let mut app = App::new(config("/media/shows", "Sho"));
    app.state = AppState::Wizard { step: Step::Rules };
    assert_eq!(app.rules.fields[0].cursor, 3);
    assert_eq!(press(&mut app, Key::Char('w')), Effect::RefreshPlan);
    assert_eq!(app.rules.fields[0].value, "Show");
    press(&mut app, Key::Left);
    press(&mut app, Key::Left);
    press(&mut app, Key::Char('é'));
    assert_eq!(app.rules.fields[0].value, "Shéow");
    assert_eq!(app.rules.fields[0].cursor, 3);
    press(&mut app, Key::Backspace);
    assert_eq!(app.rules.fields[0].value, "Show");
    press(&mut app, Key::Delete);
    assert_eq!(app.rules.fields[0].value, "Shw");
    press(&mut app, Key::End);
    assert_eq!(app.rules.fields[0].cursor, 3);
}

#[test]
fn rules_tab_without_title_flags_the_title() {
    let mut app = App::new(config("/media/shows", ""));
    app.state = AppState::Wizard { step: Step::Rules };
    assert_eq!(press(&mut app, Key::Tab), Effect::RefreshPlan);
    assert!(app.rules.show_error);
    assert!(on_step(&app, Step::Rules));
}

#[test]
fn rules_tab_with_title_goes_to_preview() {
    let mut app = App::new(config("/media/shows", "Show"));
    app.state = AppState::Wizard { step: Step::Rules };
    assert_eq!(press(&mut app, Key::Tab), Effect::RefreshPlan);
    assert!(on_step(&app, Step::Preview));
    assert!(app.visited[2]);
    assert_eq!(app.config.title, "Show");
}

#[test]
fn rules_space_toggles_mode_and_collision() {
    let mut app = App::new(config("/media/shows", "Show"));
    app.state = AppState::Wizard { step: Step::Rules };
    app.rules.focus = 4;
    press(&mut app, Key::Char(' '));
    assert!(!app.config.dry_run);
    press(&mut app, Key::Down);
    assert_eq!(app.rules.focus, 5);
    press(&mut app, Key::Char(' '));
    assert!(app.rules.collision_auto_num);
    press(&mut app, Key::Down);
    assert_eq!(app.rules.focus, 5);
}

#[test]
fn folder_list_typing_switches_to_the_path_bar() {
    let mut app = App::new(config("/tmp", "Show"));
    assert_eq!(press(&mut app, Key::Char('x')), Effect::RefreshDirEntries);
    assert_eq!(app.folder_focus, FolderFocus::PathBar);
    assert_eq!(app.dir_buffer, "/tmpx");
    assert_eq!(app.path_cursor, 5);
    assert_eq!(app.config.dir, "/tmpx");
    press(&mut app, Key::Left);
    press(&mut app, Key::Backspace);
    assert_eq!(app.dir_buffer, "/tmx");
    assert_eq!(press(&mut app, Key::Esc), Effect::Nothing);
    assert_eq!(app.folder_focus, FolderFocus::List);
}

#[test]
fn folder_list_left_goes_to_the_parent() {
    let mut app = App::new(config("/media/shows", "Show"));
    assert_eq!(press(&mut app, Key::Left), Effect::RefreshDirEntries);
    assert_eq!(app.dir_buffer, "/media");
    assert_eq!(app.config.dir, "/media");
}

#[test]
fn listing_is_sorted_with_folders_marked() {
    let mut app = App::new(config("/media/shows", "Show"));
    let entries = vec![file("b.mp4"), folder("a"), file("C.mkv")];
    app.install_dir_entries(Some(&entries));
    assert_eq!(app.dir_entries, vec!["..", "C.mkv", "a/", "b.mp4"]);
    app.install_dir_entries(None);
    assert!(app.dir_entries.is_empty());
}

#[test]
fn entering_a_folder_joins_its_name() {
    let mut app = App::new(config("/media/shows", "Show"));
    app.install_dir_entries(Some(&vec![folder("season1")]));
    press(&mut app, Key::Down);
    assert_eq!(app.selected_entry, 1);
    assert_eq!(press(&mut app, Key::Enter), Effect::RefreshDirEntries);
    assert_eq!(app.dir_buffer, "/media/shows/season1");
    assert_eq!(app.selected_entry, 0);
}

#[test]
fn picking_a_folder_prefills_the_title() {
    let mut app = App::new(config("/media/shows", ""));
    assert_eq!(press(&mut app, Key::Char(' ')), Effect::ConfirmFolder);
    app.confirm_folder(true);
    assert!(app.folder_confirmed);
    assert!(on_step(&app, Step::Rules));
    assert_eq!(app.rules.fields[0].value, "shows");
    assert_eq!(app.rules.fields[0].cursor, 5);
}

#[test]
fn missing_folder_is_not_confirmed() {
    let mut app = App::new(config("/nowhere", ""));
    app.confirm_folder(false);
    assert!(!app.folder_confirmed);
    assert!(on_step(&app, Step::Folder));
}

#[test]
fn refresh_plan_plans_the_listing() {
    let mut app = App::new(config("/media/shows", "Series"));
    let listing = entries(vec![file("Ep01_720p.mp4"), file("notes.txt")]);
    app.refresh_plan(&listing);
    assert_eq!(app.ops.len(), 1);
    assert_eq!(app.ops[0].from, "/media/shows/Ep01_720p.mp4");
    assert_eq!(app.ops[0].to, "/media/shows/Series - Ep01.mp4");
    assert!(matches!(app.ops[0].status, RenameStatus::Pending));
    assert_eq!(app.pending_count(), 1);
}

#[test]
fn refresh_plan_reports_an_unreadable_folder() {
    let mut app = App::new(config("/media/shows", "Series"));
    app.refresh_plan(&DirListing::Unreadable("permission denied".to_string()));
    assert!(app.ops.is_empty());
    assert_eq!(app.errors, vec!["Discover: permission denied"]);
    app.refresh_plan(&DirListing::Missing);
    assert!(app.ops.is_empty());
    assert!(app.errors.is_empty());
}

#[test]
fn preview_filter_cycles_and_filters() {
    let mut app = App::new(config("/media/shows", "Series"));
    let listing = entries(vec![
        file("Ep01.mp4"),
        file("Series - Ep01.mp4"),
        file("Series - Ep02.mp4"),
    ]);
    app.refresh_plan(&listing);
    app.state = AppState::Wizard { step: Step::Preview };
    assert!(matches!(app.ops[0].status, RenameStatus::SkipExists));
    assert_eq!(app.filtered_ops().len(), 3);
    press(&mut app, Key::Char('f'));
    assert_eq!(app.preview_filter, 1);
    assert_eq!(app.filtered_ops().len(), 2);
    press(&mut app, Key::Char('f'));
    assert_eq!(app.filtered_ops().len(), 1);
    assert_eq!(app.filtered_ops()[0].from, "/media/shows/Ep01.mp4");
    press(&mut app, Key::Char('f'));
    assert_eq!(app.filtered_ops().len(), 0);
    press(&mut app, Key::Char('F'));
    assert_eq!(app.preview_filter, 0);
}

#[test]
fn execute_events_drive_progress_to_done() {
    let mut app = App::new(config("/media/shows", "Series"));
    app.refresh_plan(&entries(vec![file("Ep01_720p.mp4")]));
    app.state = AppState::Wizard { step: Step::Execute };
    assert_eq!(press(&mut app, Key::Enter), Effect::StartExecute);
    assert!(matches!(&app.state, AppState::Executing { progress } if progress.done == 0 && progress.total == 1));
    assert_eq!(press(&mut app, Key::Char('q')), Effect::Nothing);
    assert!(matches!(app.state, AppState::Executing { .. }));
    let keep = app.apply_execute_event(ExecuteEvent::Progress {
        done: 1,
        total: 1,
        current_file: "Ep01_720p.mp4".to_string(),
    });
    assert!(keep);
    assert!(matches!(&app.state, AppState::Executing { progress } if progress.done == 1));
    let stats = FinalStats {
        renamed: 1,
        skipped: 0,
        errors: 0,
        duration: Duration::ZERO,
    };
    assert!(!app.apply_execute_event(ExecuteEvent::Finished {
        stats,
        outcomes: vec![Ok(())],
    }));
    assert!(matches!(&app.state, AppState::Done { stats } if stats.renamed == 1));
    assert!(app.visited[3]);
    assert_eq!(press(&mut app, Key::Char('r')), Effect::ResetKeepFolderRules);
    app.reset_keep_folder_rules(&entries(vec![
        file("Ep01.mp4"),
        file("Series - Ep01.mp4"),
    ]));
    assert!(on_step(&app, Step::Preview));
    assert_eq!(app.ops.len(), 2);
    assert!(matches!(app.ops[0].status, RenameStatus::SkipExists));
}

#[test]
fn done_menu_starts_over_or_quits() {
    let mut app = App::new(config("/media/shows", "Series"));
    let stats = FinalStats {
        renamed: 0,
        skipped: 0,
        errors: 0,
        duration: Duration::ZERO,
    };
    app.state = AppState::Done { stats: stats.clone() };
    press(&mut app, Key::Char('q'));
    assert!(matches!(
        app.state,
        AppState::ConfirmQuit {
            return_to: QuitReturn::Done(_)
        }
    ));
    press(&mut app, Key::Esc);
    assert!(matches!(app.state, AppState::Done { .. }));
    assert_eq!(press(&mut app, Key::Char('n')), Effect::RefreshDirEntries);
    assert!(on_step(&app, Step::Folder));
    assert_eq!(app.config.dir, ".");
    assert_eq!(app.rules.fields[0].value, "");
}

#[test]
fn preview_scroll_stays_at_zero_going_up() {
    let mut app = App::new(config("/media/shows", "Series"));
    app.state = AppState::Wizard { step: Step::Preview };
    press(&mut app, Key::Up);
    assert_eq!(app.preview_scroll, 0);
    press(&mut app, Key::Char('j'));
    assert_eq!(app.preview_scroll, 1);
    assert_eq!(press(&mut app, Key::BackTab), Effect::Nothing);
    assert!(on_step(&app, Step::Rules));
}

#[test]
fn stepper_marks_current_visited_and_future_steps() {
    let mut app = App::new(config("/media/shows", "Series"));
    app.visited = [true, true, false, false];
    assert_eq!(app.step_mark(1, 1), StepMark::Current);
    assert_eq!(app.step_mark(0, 1), StepMark::Visited);
    assert_eq!(app.step_mark(2, 1), StepMark::Future);
}

#[test]
fn folder_list_keeps_the_selection_on_screen() {
    let mut app = App::new(config("/media/shows", "Series"));
    app.selected_entry = 12;
    assert_eq!(app.list_first_row(5), 8);
    assert_eq!(app.list_first_row(20), 0);
    assert_eq!(app.list_first_row(0), 12);
    assert!(is_folder_line(".."));
    assert!(is_folder_line("season1/"));
    assert!(!is_folder_line("Ep01.mp4"));
    assert!(!is_folder_line("."));
}

#[test]
fn empty_preview_says_why() {
    let mut app = App::new(config("/media/shows", ""));
    assert_eq!(app.empty_preview_message(false, 0), "Folder not found");
    assert_eq!(
        app.empty_preview_message(true, 0),
        "Series title not set — go back to Rules"
    );
    app.config.title = "Series".to_string();
    app.preview_filter = 3;
    assert_eq!(app.empty_preview_message(true, 0), "No errors");
    assert_eq!(app.empty_preview_message(true, 2), "");
    app.errors.push("Discover: denied".to_string());
    assert_eq!(app.empty_preview_message(true, 0), "Discover: denied");
}

#[test]
fn summary_lists_failures_in_plan_order() {
    let mut app = App::new(config("/media/shows", "Series"));
    app.refresh_plan(&entries(vec![file("a.mp4"), file("b.mp4")]));
    app.ops[0].status = RenameStatus::Error("denied".to_string());
    app.ops[1].status = RenameStatus::Success;
    assert_eq!(
        app.failure_lines(),
        vec!["  ✗ /media/shows/a.mp4  denied".to_string()]
    );
}

#[test]
fn space_in_the_list_picks_the_shown_folder() {
    let mut app = App::new(config("/media/shows", ""));
    app.install_dir_entries(Some(&vec![folder("season1")]));
    press(&mut app, Key::Down);
    assert_eq!(press(&mut app, Key::Char(' ')), Effect::ConfirmFolder);
    assert_eq!(app.dir_buffer, "/media/shows");
    app.confirm_folder(true);
    assert!(on_step(&app, Step::Rules));
    assert_eq!(app.config.dir, "/media/shows");
}

#[test]
fn while_renaming_only_global_keys_act() {
    let mut app = App::new(config("/media/shows", "Series"));
    app.visited = [true, true, true, true];
    app.state = AppState::Wizard { step: Step::Execute };
    assert_eq!(press(&mut app, Key::Enter), Effect::StartExecute);
    for key in [Key::Char('q'), Key::Esc, Key::Tab, Key::Enter] {
        assert_eq!(press(&mut app, key), Effect::Nothing);
        assert!(matches!(app.state, AppState::Executing { .. }));
    }
    assert_eq!(app.handle_key(Key::Char('c'), true, None), Effect::Nothing);
    assert!(matches!(app.state, AppState::Executing { .. }));
    press(&mut app, Key::Char('?'));
    assert!(app.cheatsheet_open);
    press(&mut app, Key::Esc);
    assert!(!app.cheatsheet_open);
    assert!(matches!(app.state, AppState::Executing { .. }));
    press(&mut app, Key::Char('2'));
    assert!(on_step(&app, Step::Rules));
}

#[test]
fn failed_renames_reach_the_done_screen() {
    let mut app = App::new(config("/media/shows", "Series"));
    app.refresh_plan(&entries(vec![file("a.mp4"), file("b.mp4")]));
    app.config.dry_run = false;
    app.state = AppState::Wizard { step: Step::Execute };
    assert_eq!(press(&mut app, Key::Enter), Effect::StartExecute);
    let ops = app.ops.clone();
    let outcomes = vec![Ok(()), Err("permission denied".to_string())];
    let (done, first) = progress_after(&ops, 0, 0);
    assert_eq!(done, 1);
    assert!(matches!(first, Some(ExecuteEvent::Progress { done: 1, total: 2, ref current_file }) if current_file == "a.mp4"));
    let ev = finished_event(ops, false, outcomes, Duration::ZERO);
    assert!(matches!(&ev, ExecuteEvent::Finished { stats, .. } if stats.renamed == 1 && stats.errors == 1));
    assert!(!app.apply_execute_event(ev));
    assert!(matches!(app.ops[0].status, RenameStatus::Success));
    assert!(matches!(&app.ops[1].status, RenameStatus::Error(m) if m == "permission denied"));
    assert_eq!(
        app.failure_lines(),
        vec!["  ✗ /media/shows/b.mp4  permission denied".to_string()]
    );
}

#[test]
fn the_worker_passes_over_skipped_ops() {
    let mut app = App::new(config("/media/shows", "Series"));
    app.refresh_plan(&entries(vec![file("Ep01.mp4"), file("Series - Ep01.mp4")]));
    assert!(matches!(app.ops[0].status, RenameStatus::SkipExists));
    let (done, report) = progress_after(&app.ops, 0, 0);
    assert_eq!(done, 0);
    assert!(report.is_none());
}

#[test]
fn auto_number_prefills_the_form() {
    let mut c = config("/media/shows", "Series");
    c.collision_auto_num = true;
    let app = App::new(c);
    assert!(app.rules.collision_auto_num);
    assert!(app.config.collision_auto_num);
}
