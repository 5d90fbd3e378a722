//! The state of the interactive wizard and its transitions.
use vstd::prelude::*;
use crate::config::{
    expand_tilde, extension_list, parse_extensions, strings, tilde_expansion, ConfigView,
    RenameConfig,
};
use crate::path::{file_name, join, or_empty, parent, path_eq, unwrap_or_empty, path_file_name, path_join, path_parent, paths_equal};
use crate::discover::{discover_files, existing_names, existing_names_of, selected_paths, DirEntry};
use crate::order::{sort_texts, text_order};
use crate::rename::{generate_plan, file_parts, op_is, plan_decisions, DiskNames, DiskView};
use crate::rename::{is_skip, FinalStats, RenameOp, RenameStatus};
use crate::execute::{
    count_indices, error_count, execute_plan, executed_plan, renamed_count, skipped_count,
};
use crate::text::{
    byte_offset, byte_offset_of, char_count, chars_of, insert_char, remove_char, is_white_space, join_chars, join_with,
    string_from, texts, lowercase, lemma_pieces_of_join, trim_chars, trim_end_by, trim_pred, trim_ws, TrimSet,
};

verus! {

/// The four steps of the wizard, in order.
#[derive(Clone, Copy, PartialEq, Eq, Structural, Debug)]
pub enum Step {
    Folder,
    Rules,
    Preview,
    Execute,
}

/// The position of a step: 0 to 3.
pub open spec fn step_index(s: Step) -> nat {
    match s {
        Step::Folder => 0,
        Step::Rules => 1,
        Step::Preview => 2,
        Step::Execute => 3,
    }
}

/// The step at position `i`, if there is one.
pub open spec fn step_at(i: int) -> Option<Step> {
    if i == 0 {
        Some(Step::Folder)
    } else if i == 1 {
        Some(Step::Rules)
    } else if i == 2 {
        Some(Step::Preview)
    } else if i == 3 {
        Some(Step::Execute)
    } else {
        None
    }
}

impl Step {
    /// The step after this one.
    pub fn next(self) -> (r: Option<Self>)
        ensures
            r == step_at(step_index(self) as int + 1),
    {
        match self {
            Step::Folder => Some(Step::Rules),
            Step::Rules => Some(Step::Preview),
            Step::Preview => Some(Step::Execute),
            Step::Execute => None,
        }
    }

    /// The step before this one.
    pub fn prev(self) -> (r: Option<Self>)
        ensures
            r == step_at(step_index(self) as int - 1),
    {
        match self {
            Step::Folder => None,
            Step::Rules => Some(Step::Folder),
            Step::Preview => Some(Step::Rules),
            Step::Execute => Some(Step::Preview),
        }
    }

    /// The position of this step.
    pub fn index(self) -> (r: usize)
        ensures
            r == step_index(self),
    {
        match self {
            Step::Folder => 0,
            Step::Rules => 1,
            Step::Preview => 2,
            Step::Execute => 3,
        }
    }

    /// The step at position `i`.
    pub fn from_index(i: usize) -> (r: Option<Self>)
        ensures
            r == step_at(i as int),
    {
        match i {
            0 => Some(Step::Folder),
            1 => Some(Step::Rules),
            2 => Some(Step::Preview),
            3 => Some(Step::Execute),
            _ => None,
        }
    }
}

/// The steps are in a line: a step's position gives it back, and going to
/// the next step and then to the previous one returns to where one was.
pub proof fn lemma_step_order(s: Step)
    ensures
        step_at(step_index(s) as int) == Some(s),
        step_at(step_index(s) as int + 1) matches Some(t) ==> step_at(step_index(t) as int - 1)
            == Some(s),
        step_at(step_index(s) as int - 1) matches Some(t) ==> step_at(step_index(t) as int + 1)
            == Some(s),
{
}

/// A message from the worker that carries out a plan.
pub enum ExecuteEvent {
    Progress { done: usize, total: usize, current_file: String },
    /// The run is over: its statistics, and the outcome of each op's
    /// rename on disk, in plan order.
    Finished { stats: FinalStats, outcomes: Vec<Result<(), String>> },
}

/// How many pending ops the worker has carried out after op `i` of `ops`,
/// having carried out `done` before it: a pending op counts, others are
/// passed over.
pub open spec fn progress_done(ops: Seq<RenameOp>, i: int, done: nat) -> nat {
    if ops[i].status is Pending {
        done + 1
    } else {
        done
    }
}

/// What the worker reports after carrying out op `i` of `ops`, having
/// carried out `done` pending ops before it, and how many it has carried out
/// then.
pub fn progress_after(ops: &Vec<RenameOp>, i: usize, done: usize) -> (r: (usize, Option<ExecuteEvent>))
    requires
        i < ops.len(),
        done <= i,
    ensures
        r.0 == progress_done(ops@, i as int, done as nat),
        match r.1 {
            Some(ExecuteEvent::Progress { done: d, total, current_file }) => ops@[i as int].status is Pending
                && d == done + 1 && total == ops.len() && current_file@ == or_empty(
                path_file_name(ops@[i as int].from@),
            ),
            Some(ExecuteEvent::Finished { .. }) => false,
            None => !(ops@[i as int].status is Pending),
        },
{
    match ops[i].status {
        RenameStatus::Pending => {
            let current_file = unwrap_or_empty(file_name(ops[i].from.as_str()));
            (done + 1, Some(ExecuteEvent::Progress { done: done + 1, total: ops.len(), current_file }))
        },
        _ => (done, None),
    }
}

/// The worker's last report: the statistics of carrying out `ops` with the
/// rename `outcomes` (one per op) in `elapsed`, and those outcomes.
pub fn finished_event(
    ops: Vec<RenameOp>,
    dry_run: bool,
    outcomes: Vec<Result<(), String>>,
    elapsed: std::time::Duration,
) -> (r: ExecuteEvent)
    requires
        outcomes.len() == ops.len(),
    ensures
        match r {
            ExecuteEvent::Finished { stats, outcomes: o } => {
                &&& o@ == outcomes@
                &&& stats.renamed == renamed_count(ops@, dry_run, outcomes@)
                &&& stats.skipped == skipped_count(ops@)
                &&& stats.errors == error_count(ops@, dry_run, outcomes@)
                &&& stats.duration == elapsed
            },
            _ => false,
        },
{
    let mut ops = ops;
    let stats = execute_plan(&mut ops, dry_run, &outcomes, elapsed);
    ExecuteEvent::Finished { stats, outcomes }
}

/// How far the worker has come.
pub struct ExecuteProgress {
    pub done: usize,
    pub total: usize,
    pub current_file: String,
}

/// What to restore if the user cancels out of the quit confirmation.
pub enum QuitReturn {
    Wizard(Step),
    Done(FinalStats),
}

impl Clone for FinalStats {
    fn clone(&self) -> (r: Self)
        ensures
            r == *self,
    {
        FinalStats {
            renamed: self.renamed,
            skipped: self.skipped,
            errors: self.errors,
            duration: self.duration,
        }
    }
}

impl Clone for QuitReturn {
    fn clone(&self) -> (r: Self)
        ensures
            r == *self,
    {
        match self {
            QuitReturn::Wizard(s) => QuitReturn::Wizard(*s),
            QuitReturn::Done(st) => QuitReturn::Done(st.clone()),
        }
    }
}

/// The top-level mode of the application.
pub enum AppState {
    Wizard { step: Step },
    Executing { progress: ExecuteProgress },
    Done { stats: FinalStats },
    ConfirmQuit { return_to: QuitReturn },
}

/// Which part of the folder step has the keyboard.
#[derive(Clone, Copy, PartialEq, Eq, Structural, Debug)]
pub enum FolderFocus {
    PathBar,
    List,
}

/// One text field of the rules form.
pub struct RulesField {
    pub label: &'static str,
    pub value: String,
    pub placeholder: &'static str,
    /// Cursor position in **characters**, not bytes — see `cursor_byte()`.
    pub cursor: usize,
}

impl RulesField {
    /// The number of characters of the value.
    pub fn char_len(&self) -> (n: usize)
        ensures
            n == self.value@.len(),
    {
        char_count(self.value.as_str())
    }

    /// Byte offset in `value` corresponding to the current char-based cursor
    /// (the byte length of `value` when the cursor is past its end).
    pub fn cursor_byte(&self) -> (b: usize)
        requires
            vstd::utf8::encode_utf8(self.value@).len() <= usize::MAX,
        ensures
            b == byte_offset(self.value@, self.cursor as int),
    {
        byte_offset_of(&self.value, self.cursor)
    }
}

/// The rules form: title, prefix, suffix and extensions fields, then the
/// simulate/execute and collision toggles.
pub struct RulesState {
    pub fields: Vec<RulesField>,
    /// 0-3 = field (Title/Prefix/Suffix/Extensions), 4 = Simulate/Execute
    /// toggle, 5 = collision mode toggle.
    pub focus: usize,
    pub collision_auto_num: bool,
    pub show_error: bool,
}

// ---------------------------------------------------------------------------
// Views
// ---------------------------------------------------------------------------

/// A rules field as values.
#[verifier::ext_equal]
pub struct FieldView {
    pub label: Seq<char>,
    pub value: Seq<char>,
    pub placeholder: Seq<char>,
    pub cursor: nat,
}

impl View for RulesField {
    type V = FieldView;

    open spec fn view(&self) -> FieldView {
        FieldView {
            label: self.label@,
            value: self.value@,
            placeholder: self.placeholder@,
            cursor: self.cursor as nat,
        }
    }
}

/// The views of a list of fields.
pub open spec fn fields_view(v: Seq<RulesField>) -> Seq<FieldView> {
    v.map_values(|f: RulesField| f@)
}

/// The application mode as values.
pub enum StateView {
    Wizard(Step),
    Executing { done: nat, total: nat, current_file: Seq<char> },
    Done(FinalStats),
    ConfirmQuit(QuitReturn),
}

/// The mode of `s` as values.
pub open spec fn state_view(s: AppState) -> StateView {
    match s {
        AppState::Wizard { step } => StateView::Wizard(step),
        AppState::Executing { progress } => StateView::Executing {
            done: progress.done as nat,
            total: progress.total as nat,
            current_file: progress.current_file@,
        },
        AppState::Done { stats } => StateView::Done(stats),
        AppState::ConfirmQuit { return_to } => StateView::ConfirmQuit(return_to),
    }
}

/// The whole application state as values.
#[verifier::ext_equal]
pub struct AppView {
    pub state: StateView,
    pub config: ConfigView,
    pub ops: Seq<RenameOp>,
    pub stats: Option<FinalStats>,
    pub errors: Seq<Seq<char>>,
    pub dir_buffer: Seq<char>,
    pub dir_entries: Seq<Seq<char>>,
    pub selected_entry: nat,
    pub folder_confirmed: bool,
    pub folder_focus: FolderFocus,
    pub path_cursor: nat,
    pub fields: Seq<FieldView>,
    pub focus: nat,
    pub collision_auto_num: bool,
    pub show_error: bool,
    pub preview_filter: nat,
    pub preview_scroll: nat,
    pub visited: Seq<bool>,
    pub cheatsheet_open: bool,
}

/// The application: the wizard's state and everything it shows.
pub struct App {
    pub state: AppState,
    pub config: RenameConfig,
    pub ops: Vec<RenameOp>,
    pub stats: Option<FinalStats>,
    pub errors: Vec<String>,
    // Step 1 — Folder
    pub dir_buffer: String,
    pub dir_entries: Vec<String>,
    pub selected_entry: usize,
    pub folder_confirmed: bool,
    pub folder_focus: FolderFocus,
    pub path_cursor: usize,
    // Step 2 — Rules
    pub rules: RulesState,
    // Step 3 — Preview
    /// 0 = All, 1 = To rename, 2 = Skipped, 3 = Error.
    pub preview_filter: usize,
    pub preview_scroll: usize,
    // Global
    pub visited: [bool; 4],
    pub cheatsheet_open: bool,
}

impl View for App {
    type V = AppView;

    open spec fn view(&self) -> AppView {
        AppView {
            state: state_view(self.state),
            config: self.config@,
            ops: self.ops@,
            stats: self.stats,
            errors: strings(self.errors@),
            dir_buffer: self.dir_buffer@,
            dir_entries: strings(self.dir_entries@),
            selected_entry: self.selected_entry as nat,
            folder_confirmed: self.folder_confirmed,
            folder_focus: self.folder_focus,
            path_cursor: self.path_cursor as nat,
            fields: fields_view(self.rules.fields@),
            focus: self.rules.focus as nat,
            collision_auto_num: self.rules.collision_auto_num,
            show_error: self.rules.show_error,
            preview_filter: self.preview_filter as nat,
            preview_scroll: self.preview_scroll as nat,
            visited: self.visited@,
            cheatsheet_open: self.cheatsheet_open,
        }
    }
}

/// The state the handlers keep: four rules fields with their cursors within
/// their values, the focus on one of the six form rows, one of the four
/// preview filters, and the path cursor within the path while the path bar
/// has the keyboard.
pub open spec fn well_formed(a: AppView) -> bool {
    &&& a.fields.len() == 4
    &&& forall|i: int| 0 <= i < 4 ==> (#[trigger] a.fields[i]).cursor <= a.fields[i].value.len()
    &&& a.focus <= 5
    &&& a.preview_filter <= 3
    &&& a.visited.len() == 4
    &&& (a.folder_focus == FolderFocus::PathBar ==> a.path_cursor <= a.dir_buffer.len())
}

// ---------------------------------------------------------------------------
// Building the form
// ---------------------------------------------------------------------------

/// A field with the given label, value and placeholder, its cursor at the
/// end of the value.
pub open spec fn field_at_end(label: Seq<char>, value: Seq<char>, placeholder: Seq<char>) -> FieldView {
    FieldView { label, value, placeholder, cursor: value.len() }
}

/// The rules fields pre-filled from a configuration.
pub open spec fn fields_from_config(c: ConfigView) -> Seq<FieldView> {
    seq![
        field_at_end("Series Title *"@, c.title, "Required"@),
        field_at_end("Strip Prefix"@, c.prefix, "Text to strip from start"@),
        field_at_end("Strip Suffix"@, c.suffix, "Text to strip before extension"@),
        field_at_end(
            "Extensions"@,
            join_with(c.extensions, seq!['|']),
            "mp4|mkv|webm|avi (leave empty to match every file)"@,
        ),
    ]
}

fn field_at_end_of(label: &'static str, value: String, placeholder: &'static str) -> (f: RulesField)
    ensures
        f@ == field_at_end(label@, value@, placeholder@),
{
    let cursor = char_count(value.as_str());
    RulesField { label, value, placeholder, cursor }
}

fn join_strings(v: &Vec<String>, sep: char) -> (r: String)
    ensures
        r@ == join_with(strings(v@), seq![sep]),
{
    let mut t: Vec<Vec<char>> = Vec::new();
    let mut i: usize = 0;
    while i < v.len()
        invariant
            i <= v.len(),
            texts(t@) == strings(v@.take(i as int)),
        decreases v.len() - i,
    {
        let ghost old_t = texts(t@);
        let c = chars_of(v[i].as_str());
        t.push(c);
        assert(texts(t@) =~= old_t.push(v@[i as int]@));
        assert(strings(v@.take(i + 1)) =~= strings(v@.take(i as int)).push(v@[i as int]@));
        i = i + 1;
    }
    assert(v@.take(v.len() as int) =~= v@);
    let s = vec![sep];
    assert(s@ =~= seq![sep]);
    string_from(&join_chars(&t, &s))
}

impl RulesState {
    /// The form pre-filled from `config`: each field holds the configured
    /// text (the extensions joined with `|`) with its cursor at the end;
    /// focus on the title; the collision toggle as configured; no error
    /// shown.
    pub fn from_config(config: &RenameConfig) -> (r: Self)
        ensures
            fields_view(r.fields@) == fields_from_config(config@),
            r.focus == 0,
            r.collision_auto_num == config.collision_auto_num,
            !r.show_error,
    {
        let mut fields: Vec<RulesField> = Vec::new();
        fields.push(field_at_end_of("Series Title *", config.title.clone(), "Required"));
        fields.push(field_at_end_of("Strip Prefix", config.prefix.clone(), "Text to strip from start"));
        fields.push(
            field_at_end_of("Strip Suffix", config.suffix.clone(), "Text to strip before extension"),
        );
        fields.push(
            field_at_end_of(
                "Extensions",
                join_strings(&config.extensions, '|'),
                "mp4|mkv|webm|avi (leave empty to match every file)",
            ),
        );
        assert(fields_view(fields@) =~= fields_from_config(config@));
        RulesState {
            fields,
            focus: 0,
            collision_auto_num: config.collision_auto_num,
            show_error: false,
        }
    }

    /// The title, prefix, suffix and extensions that the form holds (empty
    /// where a field is missing; the extensions parsed from the fourth
    /// field).
    pub fn to_config(&self) -> (r: (String, String, String, Vec<String>))
        ensures
            r.0@ == field_value(fields_view(self.fields@), 0),
            r.1@ == field_value(fields_view(self.fields@), 1),
            r.2@ == field_value(fields_view(self.fields@), 2),
            strings(r.3@) == field_extensions(fields_view(self.fields@)),
            self.fields.len() > 3 && self.fields@[3].value@.len() == 0 ==> r.3@.len() == 0,
    {
        let title = if self.fields.len() > 0 {
            self.fields[0].value.clone()
        } else {
            String::new()
        };
        let prefix = if self.fields.len() > 1 {
            self.fields[1].value.clone()
        } else {
            String::new()
        };
        let suffix = if self.fields.len() > 2 {
            self.fields[2].value.clone()
        } else {
            String::new()
        };
        let exts = if self.fields.len() > 3 {
            parse_extensions(self.fields[3].value.as_str())
        } else {
            Vec::new()
        };
        (title, prefix, suffix, exts)
    }
}

proof fn lemma_filter_keeps_all(s: Seq<Seq<char>>)
    requires
        forall|i: int| 0 <= i < s.len() ==> (#[trigger] s[i]).len() > 0,
    ensures
        s.filter(|e: Seq<char>| e.len() > 0) == s,
    decreases s.len(),
{
    reveal_with_fuel(Seq::filter, 1);
    if s.len() > 0 {
        let t = s.drop_last();
        assert forall|i: int| 0 <= i < t.len() implies (#[trigger] t[i]).len() > 0 by {
            assert(t[i] == s[i]);
        }
        lemma_filter_keeps_all(t);
        assert(s.last().len() > 0);
        assert(t.push(s.last()) =~= s);
    } else {
        assert(s.filter(|e: Seq<char>| e.len() > 0) =~= s);
    }
}

/// The form gives back the configuration it was filled from: the title,
/// prefix and suffix as they were, and a non-empty list of extensions when
/// each is already as parsing leaves it (non-empty, trimmed, lowercase,
/// without `|`).
pub proof fn lemma_form_round_trip(c: ConfigView)
    requires
        c.extensions.len() > 0,
        forall|i: int|
            0 <= i < c.extensions.len() ==> {
                let e = #[trigger] c.extensions[i];
                &&& e.len() > 0
                &&& trim_ws(e) == e
                &&& lowercase(e) == e
                &&& !e.contains('|')
            },
    ensures
        field_value(fields_from_config(c), 0) == c.title,
        field_value(fields_from_config(c), 1) == c.prefix,
        field_value(fields_from_config(c), 2) == c.suffix,
        field_extensions(fields_from_config(c)) == c.extensions,
{
    let ws = c.extensions;
    let pipe = |ch: char| ch == '|';
    assert forall|i: int, k: int| 0 <= i < ws.len() && 0 <= k < ws[i].len() implies !pipe(
        #[trigger] ws[i][k],
    ) by {
        if ws[i][k] == '|' {
            assert(ws[i].contains('|'));
        }
    }
    lemma_pieces_of_join(ws, '|', pipe);
    let m = ws.map_values(|p: Seq<char>| lowercase(trim_ws(p)));
    assert(m =~= ws);
    lemma_filter_keeps_all(ws);
    assert(field_extensions(fields_from_config(c)) == extension_list(join_with(ws, seq!['|'])));
}

/// The extensions that the fourth field names (none without that field).
pub open spec fn field_extensions(fields: Seq<FieldView>) -> Seq<Seq<char>> {
    if fields.len() > 3 {
        extension_list(fields[3].value)
    } else {
        Seq::empty()
    }
}

/// The value of field `i`, or the empty text when there is no such field.
pub open spec fn field_value(fields: Seq<FieldView>, i: int) -> Seq<char> {
    if 0 <= i < fields.len() {
        fields[i].value
    } else {
        Seq::<char>::empty()
    }
}


// ---------------------------------------------------------------------------
// The application
// ---------------------------------------------------------------------------

/// A fresh application for the configuration `c`, on the folder step.
pub open spec fn initial_app(c: ConfigView) -> AppView {
    AppView {
        state: StateView::Wizard(Step::Folder),
        config: c,
        ops: Seq::empty(),
        stats: None,
        errors: Seq::empty(),
        dir_buffer: c.dir,
        dir_entries: Seq::empty(),
        selected_entry: 0,
        folder_confirmed: false,
        folder_focus: FolderFocus::List,
        path_cursor: c.dir.len(),
        fields: fields_from_config(c),
        focus: 0,
        collision_auto_num: c.collision_auto_num,
        show_error: false,
        preview_filter: 0,
        preview_scroll: 0,
        visited: seq![true, false, false, false],
        cheatsheet_open: false,
    }
}

/// The step that the application shows.
pub open spec fn current_step_of(a: AppView) -> Step {
    match a.state {
        StateView::Wizard(step) => step,
        StateView::Executing { .. } => Step::Execute,
        StateView::Done(_) => Step::Execute,
        StateView::ConfirmQuit(r) => match r {
            QuitReturn::Wizard(step) => step,
            QuitReturn::Done(_) => Step::Execute,
        },
    }
}

/// The configuration after taking over the rules form.
pub open spec fn apply_rules_spec(a: AppView) -> AppView {
    AppView {
        config: ConfigView {
            title: field_value(a.fields, 0),
            prefix: field_value(a.fields, 1),
            suffix: field_value(a.fields, 2),
            extensions: field_extensions(a.fields),
            collision_auto_num: a.collision_auto_num,
            ..a.config
        },
        ..a
    }
}

/// Taking over the rules form: the title, prefix and suffix of the
/// configuration become the values of the first three fields (empty where a
/// field is missing), the collision policy the form's toggle; the folder
/// and the mode stay.
pub proof fn lemma_rules_taken_over(a: AppView)
    ensures
        ({
            let c = apply_rules_spec(a).config;
            &&& c.title == if a.fields.len() > 0 {
                a.fields[0].value
            } else {
                Seq::<char>::empty()
            }
            &&& c.prefix == if a.fields.len() > 1 {
                a.fields[1].value
            } else {
                Seq::<char>::empty()
            }
            &&& c.suffix == if a.fields.len() > 2 {
                a.fields[2].value
            } else {
                Seq::<char>::empty()
            }
            &&& c.collision_auto_num == a.collision_auto_num
            &&& c.dir == a.config.dir
            &&& c.dry_run == a.config.dry_run
        }),
{
}

/// A refreshed plan is made with the form's rules: after a refresh the
/// configuration's title, prefix and suffix are the values of the first
/// three fields of the form.
pub proof fn lemma_refresh_uses_the_form(a: AppView, listing: DirListing, b: AppView)
    requires
        refresh_plan_spec(a, listing, b),
        a.fields.len() > 2,
    ensures
        b.config.title == a.fields[0].value,
        b.config.prefix == a.fields[1].value,
        b.config.suffix == a.fields[2].value,
{
    lemma_rules_taken_over(a);
}

/// The home directory as a value.
pub open spec fn home_view(home: Option<&str>) -> Option<Seq<char>> {
    match home {
        Some(h) => Some(h@),
        None => None,
    }
}

/// The folder that the path bar names: its text trimmed and `~` expanded.
pub open spec fn buffer_dir(a: AppView, home: Option<Seq<char>>) -> Seq<char> {
    tilde_expansion(trim_ws(a.dir_buffer), home)
}

/// The configuration after taking over the path bar: the folder is the one
/// the path bar names, and it is no longer confirmed if it changed (as a
/// path; the same text is the same path).
pub open spec fn flush_spec(a: AppView, home: Option<Seq<char>>) -> AppView {
    let expanded = buffer_dir(a, home);
    AppView {
        folder_confirmed: if expanded != a.config.dir && !path_eq(expanded, a.config.dir) {
            false
        } else {
            a.folder_confirmed
        },
        config: ConfigView { dir: expanded, ..a.config },
        ..a
    }
}

/// Taking over the path bar is idempotent: doing it again right after
/// changes nothing.
pub proof fn lemma_flush_idempotent(a: AppView, home: Option<Seq<char>>)
    ensures
        flush_spec(flush_spec(a, home), home) == flush_spec(a, home),
{
    let b = flush_spec(a, home);
    assert(buffer_dir(b, home) == buffer_dir(a, home));
    assert(b.config.dir == buffer_dir(a, home));
    assert(flush_spec(b, home).config =~= b.config);
    assert(flush_spec(b, home) =~= b);
}

/// Whether the preview filter `filter` shows an op with status `s`.
pub open spec fn shown_by_filter(filter: nat, s: RenameStatus) -> bool {
    if filter == 1 {
        s is Pending || s is Success
    } else if filter == 2 {
        is_skip(s)
    } else if filter == 3 {
        s is Error
    } else {
        true
    }
}

/// The filters "to rename", "skipped" and "errors" split every plan: each
/// op is shown by exactly one of them, and "all" shows every op.
pub proof fn lemma_filters_partition(s: RenameStatus)
    ensures
        shown_by_filter(0, s),
        shown_by_filter(1, s) || shown_by_filter(2, s) || shown_by_filter(3, s),
        !(shown_by_filter(1, s) && shown_by_filter(2, s)),
        !(shown_by_filter(1, s) && shown_by_filter(3, s)),
        !(shown_by_filter(2, s) && shown_by_filter(3, s)),
{
}

fn shown_by_filter_exec(filter: usize, s: &RenameStatus) -> (b: bool)
    ensures
        b == shown_by_filter(filter as nat, *s),
{
    match filter {
        1 => match s {
            RenameStatus::Pending | RenameStatus::Success => true,
            _ => false,
        },
        2 => match s {
            RenameStatus::SkipExists | RenameStatus::SkipCollision | RenameStatus::SkipNoChange
            | RenameStatus::SkipEmptyName => true,
            _ => false,
        },
        3 => match s {
            RenameStatus::Error(_) => true,
            _ => false,
        },
        _ => true,
    }
}

fn trimmed(s: &String) -> (r: String)
    ensures
        r@ == trim_ws(s@),
{
    let v = chars_of(s.as_str());
    let t = trim_chars(&v, TrimSet::WhiteSpace);
    proof {
        assert(trim_pred(TrimSet::WhiteSpace) == (|c: char| is_white_space(c)));
    }
    string_from(&t)
}

impl App {
    /// A fresh application for `config`, on the folder step. The folder's
    /// entries are not listed yet: the caller lists them
    /// (`dir_to_list`, `install_dir_entries`).
    pub fn new(config: RenameConfig) -> (app: Self)
        ensures
            app@ == initial_app(config@),
            well_formed(app@),
    {
        proof {
            lemma_initial_wf(config@);
        }
        let dir_buf = config.dir.clone();
        let path_cursor = char_count(dir_buf.as_str());
        let rules = RulesState::from_config(&config);
        let visited = [true, false, false, false];
        assert(visited@ =~= seq![true, false, false, false]);
        let app = App {
            state: AppState::Wizard { step: Step::Folder },
            config,
            ops: Vec::new(),
            stats: None,
            errors: Vec::new(),
            dir_buffer: dir_buf,
            dir_entries: Vec::new(),
            selected_entry: 0,
            folder_confirmed: false,
            folder_focus: FolderFocus::List,
            path_cursor,
            rules,
            preview_filter: 0,
            preview_scroll: 0,
            visited,
            cheatsheet_open: false,
        };
        assert(app@ =~= initial_app(config@));
        app
    }

    /// The step that the application shows.
    pub fn current_step(&self) -> (s: Step)
        ensures
            s == current_step_of(self@),
    {
        match &self.state {
            AppState::Wizard { step } => *step,
            AppState::Executing { .. } => Step::Execute,
            AppState::Done { .. } => Step::Execute,
            AppState::ConfirmQuit { return_to } => match return_to {
                QuitReturn::Wizard(step) => *step,
                QuitReturn::Done(_) => Step::Execute,
            },
        }
    }

    /// Whether the wizard's steps are showing.
    pub fn is_wizard(&self) -> (b: bool)
        ensures
            b == self@.state is Wizard,
    {
        match self.state {
            AppState::Wizard { .. } => true,
            _ => false,
        }
    }

    /// Number of *characters* in `dir_buffer` — see `path_cursor_byte()`.
    pub fn dir_buffer_char_len(&self) -> (n: usize)
        ensures
            n == self@.dir_buffer.len(),
    {
        char_count(self.dir_buffer.as_str())
    }

    /// Byte offset in `dir_buffer` corresponding to the current char-based
    /// `path_cursor` (the byte length when the cursor is past its end).
    pub fn path_cursor_byte(&self) -> (b: usize)
        requires
            vstd::utf8::encode_utf8(self.dir_buffer@).len() <= usize::MAX,
        ensures
            b == byte_offset(self@.dir_buffer, self@.path_cursor as int),
    {
        byte_offset_of(&self.dir_buffer, self.path_cursor)
    }

    /// Take over the rules form into the configuration.
    pub fn apply_rules(&mut self)
        ensures
            final(self)@ == apply_rules_spec(old(self)@),
    {
        let (title, prefix, suffix, exts) = self.rules.to_config();
        self.config.title = title;
        self.config.prefix = prefix;
        self.config.suffix = suffix;
        self.config.extensions = exts;
        self.config.collision_auto_num = self.rules.collision_auto_num;
        assert(self@ =~= apply_rules_spec(old(self)@));
    }

    /// Take over the path bar into the configured folder; the folder stops
    /// being confirmed when it changes. `home` is the home directory.
    pub fn flush_dir_buffer(&mut self, home: Option<&str>)
        ensures
            final(self)@ == flush_spec(old(self)@, home_view(home)),
    {
        let s = trimmed(&self.dir_buffer);
        let expanded = expand_tilde(s.as_str(), home);
        if !paths_equal(expanded.as_str(), self.config.dir.as_str()) {
            self.folder_confirmed = false;
        }
        self.config.dir = expanded;
        assert(self@ =~= flush_spec(old(self)@, home_view(home)));
    }

    /// How many ops of the plan are pending.
    pub fn pending_count(&self) -> (n: usize)
        ensures
            n == count_indices(self@.ops.len() as int, |i: int| self@.ops[i].status is Pending),
    {
        let ghost f = |i: int| self@.ops[i].status is Pending;
        let mut n: usize = 0;
        let mut i: usize = 0;
        while i < self.ops.len()
            invariant
                i <= self.ops.len(),
                f == (|i: int| self@.ops[i].status is Pending),
                n == count_indices(i as int, f),
            decreases self.ops.len() - i,
        {
            proof {
                crate::execute::lemma_count_indices_bound(i as int, f);
            }
            match self.ops[i].status {
                RenameStatus::Pending => {
                    n = n + 1;
                },
                _ => {},
            }
            i = i + 1;
        }
        n
    }

    /// The ops that the current preview filter shows, in order.
    pub fn filtered_ops(&self) -> (r: Vec<RenameOp>)
        ensures
            r@ == self@.ops.filter(|op: RenameOp| shown_by_filter(self@.preview_filter, op.status)),
    {
        let ghost f = |op: RenameOp| shown_by_filter(self@.preview_filter, op.status);
        let mut r: Vec<RenameOp> = Vec::new();
        let mut i: usize = 0;
        while i < self.ops.len()
            invariant
                i <= self.ops.len(),
                f == (|op: RenameOp| shown_by_filter(self@.preview_filter, op.status)),
                r@ == self.ops@.take(i as int).filter(f),
            decreases self.ops.len() - i,
        {
            reveal_with_fuel(Seq::filter, 1);
            assert(self.ops@.take(i + 1).drop_last() =~= self.ops@.take(i as int));
            if shown_by_filter_exec(self.preview_filter, &self.ops[i].status) {
                r.push(self.ops[i].clone());
            }
            i = i + 1;
        }
        assert(self.ops@.take(self.ops.len() as int) =~= self.ops@);
        r
    }
}


// ---------------------------------------------------------------------------
// What the caller does between transitions
// ---------------------------------------------------------------------------

/// Work that a transition leaves to the caller, which does the file system
/// and thread work and feeds the results back.
#[derive(Clone, Copy, PartialEq, Eq, Structural, Debug)]
pub enum Effect {
    /// Nothing to do.
    Nothing,
    /// List the folder again (`dir_to_list`, then `install_dir_entries`).
    RefreshDirEntries,
    /// Check whether the configured folder is a directory and pass the
    /// answer to `confirm_folder`.
    ConfirmFolder,
    /// List the configured folder and pass it to `refresh_plan`.
    RefreshPlan,
    /// List the configured folder and pass it to `reset_keep_folder_rules`.
    ResetKeepFolderRules,
    /// Start the worker on a copy of `ops` (dry run per the configuration).
    StartExecute,
    /// Leave the application.
    Quit,
}

/// A folder listing, or why there is none.
pub enum DirListing {
    /// The folder does not exist.
    Missing,
    /// The folder could not be read; the message says why.
    Unreadable(String),
    /// The folder's entries, and whether its file system compares names
    /// ignoring case.
    Entries { entries: Vec<DirEntry>, fold_case: bool },
}

/// How an entry is listed: its name, with `/` after a directory's.
pub open spec fn entry_label(e: DirEntry) -> Seq<char> {
    if e.is_dir {
        e.name@.push('/')
    } else {
        e.name@
    }
}

/// The lines of the folder list: `..`, then the entries' labels in
/// ascending order.
pub open spec fn listing_lines(es: Seq<DirEntry>) -> Seq<Seq<char>> {
    seq![seq!['.', '.']] + es.map_values(|e: DirEntry| entry_label(e)).sort_by(text_order())
}

/// The folder list after a listing (none when the folder could not be
/// listed); the selection is kept within the list.
pub open spec fn install_spec(a: AppView, listing: Option<Seq<DirEntry>>) -> AppView {
    match listing {
        None => AppView { dir_entries: Seq::empty(), ..a },
        Some(es) => {
            let lines = listing_lines(es);
            AppView {
                dir_entries: lines,
                selected_entry: if a.selected_entry < lines.len() - 1 {
                    a.selected_entry
                } else {
                    (lines.len() - 1) as nat
                },
                ..a
            }
        },
    }
}

/// The folder that `navigate_into_selected` opens, as the new path text:
/// the parent for `..`, the entry inside the current folder for a directory
/// entry, otherwise the path as it is.
pub open spec fn navigated_buffer(a: AppView, home: Option<Seq<char>>) -> Seq<char> {
    let entry = a.dir_entries[a.selected_entry as int];
    let current = buffer_dir(a, home);
    if entry == seq!['.', '.'] {
        match path_parent(current) {
            Some(p) => p,
            None => a.dir_buffer,
        }
    } else if entry.len() > 0 && entry.last() == '/' {
        path_join(current, trim_end_by(entry, |c: char| c == '/'))
    } else {
        a.dir_buffer
    }
}

/// Opening the selected entry of the folder list (nothing when the
/// selection is outside the list): the path bar moves, is taken over, and
/// the selection goes to the top; the list must then be refreshed.
pub open spec fn navigate_spec(a: AppView, home: Option<Seq<char>>) -> (AppView, Effect) {
    if a.selected_entry >= a.dir_entries.len() {
        (a, Effect::Nothing)
    } else {
        let b = AppView { dir_buffer: navigated_buffer(a, home), ..a };
        (AppView { selected_entry: 0, ..flush_spec(b, home) }, Effect::RefreshDirEntries)
    }
}

/// Confirming the folder once it is known whether it is a directory: if it
/// is, it becomes confirmed, the rules step is visited and shown, and an
/// empty title is pre-filled from the folder's name.
pub open spec fn confirm_spec(a: AppView, is_dir: bool) -> AppView {
    if !is_dir {
        a
    } else {
        let fields = if a.fields[0].value.len() == 0 && path_file_name(a.config.dir) is Some {
            let n = path_file_name(a.config.dir)->0;
            a.fields.update(0, FieldView { value: n, cursor: n.len(), ..a.fields[0] })
        } else {
            a.fields
        };
        AppView {
            folder_confirmed: true,
            visited: a.visited.update(1, true),
            fields,
            state: StateView::Wizard(Step::Rules),
            ..a
        }
    }
}

/// Whether `ops` is the plan for the listing `es` of the configured folder,
/// on a file system that compares names ignoring case when `fold_case`.
pub open spec fn planned_for(ops: Seq<RenameOp>, cfg: ConfigView, es: Seq<DirEntry>, fold_case: bool) -> bool {
    let files = selected_paths(cfg.dir, es, cfg.extensions).sort_by(text_order());
    let ds = plan_decisions(
        file_parts(files),
        cfg,
        DiskView { names: existing_names(es), fold_case },
    );
    &&& ops.len() == files.len()
    &&& forall|i: int| 0 <= i < ops.len() ==> op_is(#[trigger] ops[i], files[i], ds[i])
}

/// Whether `b` is `a` after the plan was refreshed from `listing`: the rules
/// are taken over and the errors cleared; without a folder or a title the
/// plan is empty; an unreadable folder gives an empty plan and one error;
/// otherwise the plan is made for the listing and the preview scrolled to
/// the top.
pub open spec fn refresh_plan_spec(a: AppView, listing: DirListing, b: AppView) -> bool {
    let r = AppView { errors: Seq::empty(), ..apply_rules_spec(a) };
    if listing is Missing || r.config.title.len() == 0 {
        b == AppView { ops: Seq::empty(), ..r }
    } else {
        match listing {
            DirListing::Unreadable(m) => b == AppView {
                ops: Seq::empty(),
                errors: seq!["Discover: "@ + m@],
                preview_scroll: 0,
                ..r
            },
            DirListing::Entries { entries: es, fold_case } => {
                &&& b == AppView { ops: b.ops, preview_scroll: 0, ..r }
                &&& planned_for(b.ops, r.config, es@, fold_case)
            },
            DirListing::Missing => true,
        }
    }
}

/// Whether `c` is `a` after renaming another batch in the same folder: the
/// plan refreshed (after taking over the rules), then the preview shown
/// from the top with all ops.
pub open spec fn reset_keep_spec(a: AppView, listing: DirListing, c: AppView) -> bool {
    exists|b: AppView|
        #![trigger refresh_plan_spec(apply_rules_spec(a), listing, b)]
        refresh_plan_spec(apply_rules_spec(a), listing, b) && c == AppView {
            state: StateView::Wizard(Step::Preview),
            preview_scroll: 0,
            preview_filter: 0,
            ..b
        }
}

/// The configuration `RenameConfig::default` gives, as values.
pub open spec fn default_config_view() -> ConfigView {
    ConfigView {
        dir: seq!['.'],
        title: Seq::empty(),
        prefix: Seq::empty(),
        suffix: Seq::empty(),
        extensions: crate::config::default_extensions(),
        dry_run: true,
        collision_auto_num: false,
    }
}

/// Starting the execution: the rules are taken over and the progress
/// starts at zero of the plan's length.
pub open spec fn start_execute_spec(a: AppView) -> AppView {
    AppView {
        state: StateView::Executing {
            done: 0,
            total: a.ops.len(),
            current_file: Seq::empty(),
        },
        ..apply_rules_spec(a)
    }
}

/// An event of the worker while executing: progress is shown; the end
/// shows the results and marks the execute step visited. Outside an
/// execution nothing changes. The flag says whether to keep reading events.
pub open spec fn execute_event_spec(a: AppView, ev: ExecuteEvent) -> (AppView, bool) {
    if a.state is Executing {
        match ev {
            ExecuteEvent::Progress { done, total, current_file } => (
                AppView {
                    state: StateView::Executing {
                        done: done as nat,
                        total: total as nat,
                        current_file: current_file@,
                    },
                    ..a
                },
                true,
            ),
            ExecuteEvent::Finished { stats, outcomes } => (
                AppView {
                    state: StateView::Done(stats),
                    visited: a.visited.update(3, true),
                    ops: if outcomes@.len() == a.ops.len() {
                        executed_plan(a.ops, a.config.dry_run, outcomes@)
                    } else {
                        a.ops
                    },
                    ..a
                },
                false,
            ),
        }
    } else {
        (a, false)
    }
}

fn entry_label_exec(e: &DirEntry) -> (r: Vec<char>)
    ensures
        r@ == entry_label(*e),
{
    let mut v = chars_of(e.name.as_str());
    if e.is_dir {
        v.push('/');
    }
    v
}

fn trim_end_slashes(v: &Vec<char>) -> (r: Vec<char>)
    ensures
        r@ == trim_end_by(v@, |c: char| c == '/'),
{
    let ghost p = |c: char| c == '/';
    let mut e: usize = v.len();
    while e > 0 && v[e - 1] == '/'
        invariant
            e <= v.len(),
            p == (|c: char| c == '/'),
            forall|j: int| e <= j < v.len() ==> p(#[trigger] v@[j]),
        decreases e,
    {
        e = e - 1;
    }
    let r = crate::text::slice_chars(v, 0, e);
    proof {
        crate::text::lemma_trim_end_take(v@, p, e as int);
        assert(v@.take(e as int) =~= r@);
    }
    r
}

impl App {
    /// The folder to list for the path bar: none when the path bar is
    /// blank, otherwise the folder it names (`~` expanded with `home`).
    pub fn dir_to_list(&self, home: Option<&str>) -> (r: Option<String>)
        ensures
            r matches Some(d) ==> trim_ws(self@.dir_buffer).len() > 0 && d@ == buffer_dir(
                self@,
                home_view(home),
            ),
            r is None ==> trim_ws(self@.dir_buffer).len() == 0,
    {
        let raw = trimmed(&self.dir_buffer);
        if raw.as_str().is_empty() {
            None
        } else {
            Some(expand_tilde(raw.as_str(), home))
        }
    }

    /// Show a folder listing (`None` when the folder is missing, not a
    /// directory, or unreadable): `..` first, then the entries sorted, a
    /// directory's name followed by `/`.
    pub fn install_dir_entries(&mut self, listing: Option<&Vec<DirEntry>>)
        ensures
            final(self)@ == install_spec(
                old(self)@,
                match listing {
                    Some(es) => Some(es@),
                    None => None,
                },
            ),
            well_formed(old(self)@) ==> well_formed(final(self)@),
    {
        match listing {
            None => {
                self.dir_entries = Vec::new();
                assert(self@ =~= install_spec(old(self)@, None));
            },
            Some(es) => {
                let mut labels: Vec<Vec<char>> = Vec::new();
                let mut i: usize = 0;
                while i < es.len()
                    invariant
                        i <= es.len(),
                        texts(labels@) == es@.take(i as int).map_values(
                            |e: DirEntry| entry_label(e),
                        ),
                    decreases es.len() - i,
                {
                    let ghost old_l = texts(labels@);
                    let l = entry_label_exec(&es[i]);
                    labels.push(l);
                    assert(texts(labels@) =~= old_l.push(entry_label(es@[i as int])));
                    assert(es@.take(i + 1).map_values(|e: DirEntry| entry_label(e)) =~= es@.take(
                        i as int,
                    ).map_values(|e: DirEntry| entry_label(e)).push(entry_label(es@[i as int])));
                    i = i + 1;
                }
                assert(es@.take(es.len() as int) =~= es@);
                let sorted = sort_texts(labels);
                let mut lines: Vec<String> = Vec::new();
                lines.push(string_from(&vec!['.', '.']));
                let mut j: usize = 0;
                while j < sorted.len()
                    invariant
                        j <= sorted.len(),
                        strings(lines@) == seq![seq!['.', '.']] + texts(sorted@).take(j as int),
                    decreases sorted.len() - j,
                {
                    let ghost old_l = strings(lines@);
                    lines.push(string_from(&sorted[j]));
                    assert(strings(lines@) =~= old_l.push(sorted@[j as int]@));
                    assert(texts(sorted@).take(j + 1) =~= texts(sorted@).take(j as int).push(
                        sorted@[j as int]@,
                    ));
                    assert(seq![seq!['.', '.']] + texts(sorted@).take(j + 1) =~= (seq![
                        seq!['.', '.'],
                    ] + texts(sorted@).take(j as int)).push(sorted@[j as int]@));
                    j = j + 1;
                }
                assert(texts(sorted@).take(sorted.len() as int) =~= texts(sorted@));
                let last = lines.len() - 1;
                self.dir_entries = lines;
                if self.selected_entry > last {
                    self.selected_entry = last;
                }
                assert(self@ =~= install_spec(old(self)@, Some(es@)));
            },
        }
    }

    /// Open the selected entry of the folder list: `..` goes to the parent
    /// folder, a directory entry into that directory; the path bar is then
    /// taken over and the selection moves to the top. Returns whether the
    /// list must be refreshed.
    pub fn navigate_into_selected(&mut self, home: Option<&str>) -> (e: Effect)
        ensures
            (final(self)@, e) == navigate_spec(old(self)@, home_view(home)),
    {
        if self.selected_entry >= self.dir_entries.len() {
            return Effect::Nothing;
        }
        let ghost a = self@;
        let entry = chars_of(self.dir_entries[self.selected_entry].as_str());
        let cur = trimmed(&self.dir_buffer);
        let current = expand_tilde(cur.as_str(), home);
        let dots = vec!['.', '.'];
        assert(dots@ =~= seq!['.', '.']);
        assert(entry@ == a.dir_entries[a.selected_entry as int]);
        if crate::text::same_chars(&entry, &dots) {
            match parent(current.as_str()) {
                Some(p) => {
                    self.dir_buffer = p;
                },
                None => {},
            }
        } else if entry.len() > 0 && entry[entry.len() - 1] == '/' {
            let name = string_from(&trim_end_slashes(&entry));
            self.dir_buffer = join(current.as_str(), name.as_str());
        }
        assert(self@ =~= AppView { dir_buffer: navigated_buffer(a, home_view(home)), ..a });
        self.flush_dir_buffer(home);
        self.selected_entry = 0;
        assert(self@ =~= navigate_spec(a, home_view(home)).0);
        Effect::RefreshDirEntries
    }

    /// Choose the folder in the path bar: the path bar is taken over, and
    /// the caller then checks whether the folder is a directory and passes
    /// the answer to `confirm_folder`.
    pub fn select_current_dir(&mut self, home: Option<&str>) -> (e: Effect)
        ensures
            final(self)@ == flush_spec(old(self)@, home_view(home)),
            e == Effect::ConfirmFolder,
    {
        self.flush_dir_buffer(home);
        Effect::ConfirmFolder
    }

    /// Finish choosing the folder, given whether it is a directory.
    pub fn confirm_folder(&mut self, is_dir: bool)
        requires
            well_formed(old(self)@),
        ensures
            final(self)@ == confirm_spec(old(self)@, is_dir),
            well_formed(old(self)@) ==> well_formed(final(self)@),
    {
        if !is_dir {
            return;
        }
        let ghost a = self@;
        self.folder_confirmed = true;
        self.visited[1] = true;
        if self.rules.fields[0].value.as_str().is_empty() {
            match file_name(self.config.dir.as_str()) {
                Some(dirname) => {
                    let n = char_count(dirname.as_str());
                    let mut f = self.rules.fields.remove(0);
                    f.value = dirname;
                    f.cursor = n;
                    self.rules.fields.insert(0, f);
                },
                None => {},
            }
        }
        self.state = AppState::Wizard { step: Step::Rules };
        assert(self@.fields =~= confirm_spec(a, is_dir).fields);
        assert(self@ =~= confirm_spec(a, is_dir));
        proof {
            if well_formed(a) {
                let b = self@;
                assert forall|j: int| 0 <= j < 4 implies (#[trigger] b.fields[j]).cursor
                    <= b.fields[j].value.len() by {
                    if j != 0 {
                        assert(b.fields[j] == a.fields[j]);
                    }
                }
            }
        }
    }

    /// Refresh the plan from a listing of the configured folder.
    pub fn refresh_plan(&mut self, listing: &DirListing)
        ensures
            refresh_plan_spec(old(self)@, *listing, final(self)@),
            well_formed(old(self)@) ==> well_formed(final(self)@),
    {
        self.apply_rules();
        self.errors = Vec::new();
        let ghost r = self@;
        assert(r =~= AppView { errors: Seq::empty(), ..apply_rules_spec(old(self)@) });
        let no_title = self.config.title.as_str().is_empty();
        match listing {
            DirListing::Missing => {
                self.ops = Vec::new();
                assert(self@ =~= AppView { ops: Seq::empty(), ..r });
                return;
            },
            _ => {},
        }
        if no_title {
            self.ops = Vec::new();
            assert(self@ =~= AppView { ops: Seq::empty(), ..r });
            return;
        }
        match listing {
            DirListing::Unreadable(m) => {
                self.ops = Vec::new();
                let prefix = chars_of("Discover: ");
                let msg = chars_of(m.as_str());
                let line = string_from(&crate::text::concat(&prefix, &msg));
                self.errors.push(line);
                self.preview_scroll = 0;
                assert(strings(self.errors@) =~= seq!["Discover: "@ + m@]);
                assert(self@ =~= AppView {
                    ops: Seq::empty(),
                    errors: seq!["Discover: "@ + m@],
                    preview_scroll: 0,
                    ..r
                });
            },
            DirListing::Entries { entries: es, fold_case } => {
                let files = discover_files(self.config.dir.as_str(), es, &self.config.extensions);
                let disk = DiskNames { names: existing_names_of(es), fold_case: *fold_case };
                let ops = generate_plan(&files, &self.config, &disk);
                proof {
                    let fs = strings(files@);
                    assert(fs == selected_paths(r.config.dir, es@, r.config.extensions).sort_by(
                        text_order(),
                    ));
                    assert forall|i: int| 0 <= i < ops@.len() implies op_is(
                        #[trigger] ops@[i],
                        fs[i],
                        plan_decisions(file_parts(fs), r.config, disk@)[i],
                    ) by {
                        assert(fs[i] == files@[i]@);
                    }
                    assert(disk@ == DiskView { names: existing_names(es@), fold_case: *fold_case });
                    assert(planned_for(ops@, r.config, es@, *fold_case));
                }
                self.ops = ops;
                self.preview_scroll = 0;
                assert(self@ =~= AppView { ops: self@.ops, preview_scroll: 0, ..r });
            },
            DirListing::Missing => {},
        }
    }

    /// Rename another batch in the same folder: the rules are taken over,
    /// the plan is refreshed from `listing`, and the preview is shown from
    /// the top with all ops.
    pub fn reset_keep_folder_rules(&mut self, listing: &DirListing)
        ensures
            reset_keep_spec(old(self)@, *listing, final(self)@),
            well_formed(old(self)@) ==> well_formed(final(self)@),
    {
        self.apply_rules();
        self.refresh_plan(listing);
        let ghost b = self@;
        self.state = AppState::Wizard { step: Step::Preview };
        self.preview_scroll = 0;
        self.preview_filter = 0;
        assert(self@ =~= AppView {
            state: StateView::Wizard(Step::Preview),
            preview_scroll: 0,
            preview_filter: 0,
            ..b
        });
        assert(refresh_plan_spec(apply_rules_spec(old(self)@), *listing, b));
    }

    /// Start over with the default configuration (the folder is then listed
    /// again by the caller).
    pub fn reset_new(&mut self)
        ensures
            final(self)@ == initial_app(default_config_view()),
            well_formed(old(self)@) ==> well_formed(final(self)@),
    {
        let c = RenameConfig::default();
        assert(c@ =~= default_config_view());
        *self = App::new(c);
        proof {
            lemma_initial_wf(default_config_view());
        }
    }

    /// Start the execution: the rules are taken over and the progress is
    /// shown from zero. The caller then runs the worker on a copy of `ops`.
    pub fn start_execute(&mut self)
        ensures
            final(self)@ == start_execute_spec(old(self)@),
    {
        self.apply_rules();
        let total = self.ops.len();
        self.state = AppState::Executing {
            progress: ExecuteProgress { done: 0, total, current_file: String::new() },
        };
        assert(self@ =~= start_execute_spec(old(self)@));
    }

    /// Take in one event of the worker; returns whether to keep reading
    /// events.
    pub fn apply_execute_event(&mut self, ev: ExecuteEvent) -> (keep: bool)
        ensures
            (final(self)@, keep) == execute_event_spec(old(self)@, ev),
            well_formed(old(self)@) ==> well_formed(final(self)@),
    {
        let ghost a = self@;
        match self.state {
            AppState::Executing { .. } => {},
            _ => {
                return false;
            },
        }
        match ev {
            ExecuteEvent::Progress { done, total, current_file } => {
                self.state = AppState::Executing {
                    progress: ExecuteProgress { done, total, current_file },
                };
                assert(self@ =~= execute_event_spec(a, ev).0);
                true
            },
            ExecuteEvent::Finished { stats, outcomes } => {
                if outcomes.len() == self.ops.len() {
                    let dry_run = self.config.dry_run;
                    let elapsed = stats.duration;
                    execute_plan(&mut self.ops, dry_run, &outcomes, elapsed);
                }
                self.state = AppState::Done { stats };
                self.visited[3] = true;
                assert(self@ =~= execute_event_spec(a, ev).0);
                false
            },
        }
    }
}


// ---------------------------------------------------------------------------
// Keys
// ---------------------------------------------------------------------------

/// A key press, as the wizard distinguishes them.
#[derive(Clone, Copy, PartialEq, Eq, Structural, Debug)]
pub enum Key {
    Char(char),
    Enter,
    Esc,
    Tab,
    BackTab,
    Backspace,
    Delete,
    Left,
    Right,
    Up,
    Down,
    Home,
    End,
    Other,
}

/// `x - 1`, or 0.
pub open spec fn dec(x: nat) -> nat {
    if x > 0 {
        (x - 1) as nat
    } else {
        0
    }
}

/// The smaller of two numbers.
pub open spec fn min_nat(x: nat, y: nat) -> nat {
    if x < y {
        x
    } else {
        y
    }
}

/// `a` with the value and cursor of field `i` replaced.
pub open spec fn set_field(a: AppView, i: int, value: Seq<char>, cursor: nat) -> AppView {
    AppView { fields: a.fields.update(i, FieldView { value, cursor, ..a.fields[i] }), ..a }
}

/// `a` with the cursor of field `i` replaced.
pub open spec fn set_cursor(a: AppView, i: int, cursor: nat) -> AppView {
    set_field(a, i, a.fields[i].value, cursor)
}

/// Moving on from the current step: an unconfirmed folder is chosen first
/// (the path bar is taken over and the folder must then be checked);
/// otherwise the next step, if any, is visited and shown.
pub open spec fn tab_forward_spec(a: AppView, home: Option<Seq<char>>) -> (AppView, Effect) {
    let step = current_step_of(a);
    if step == Step::Folder && !a.folder_confirmed {
        (flush_spec(a, home), Effect::ConfirmFolder)
    } else {
        match step_at(step_index(step) as int + 1) {
            Some(n) => (
                AppView {
                    visited: a.visited.update(step_index(n) as int, true),
                    state: StateView::Wizard(n),
                    ..a
                },
                Effect::Nothing,
            ),
            None => (a, Effect::Nothing),
        }
    }
}

/// Jumping to the step at position `idx`, when it was visited.
pub open spec fn jump_to_spec(a: AppView, idx: int) -> AppView {
    if 0 <= idx <= 3 && a.visited[idx] {
        AppView { state: StateView::Wizard(step_at(idx)->0), ..a }
    } else {
        a
    }
}

/// Keys while the path bar of the folder step has the keyboard: cursor
/// movement, editing (after which the path bar is taken over and the list
/// refreshed), and leaving the path bar.
pub open spec fn pathbar_spec(a: AppView, k: Key, home: Option<Seq<char>>) -> (AppView, Effect) {
    let len = a.dir_buffer.len();
    let cur = a.path_cursor;
    match k {
        Key::Left => (AppView { path_cursor: dec(cur), ..a }, Effect::Nothing),
        Key::Right => (AppView { path_cursor: min_nat(cur + 1, len), ..a }, Effect::Nothing),
        Key::Home => (AppView { path_cursor: 0, ..a }, Effect::Nothing),
        Key::End => (AppView { path_cursor: len, ..a }, Effect::Nothing),
        Key::Backspace => if cur > 0 {
            (
                flush_spec(
                    AppView {
                        dir_buffer: a.dir_buffer.remove(cur - 1),
                        path_cursor: (cur - 1) as nat,
                        ..a
                    },
                    home,
                ),
                Effect::RefreshDirEntries,
            )
        } else {
            (a, Effect::Nothing)
        },
        Key::Delete => if cur < len {
            (
                flush_spec(AppView { dir_buffer: a.dir_buffer.remove(cur as int), ..a }, home),
                Effect::RefreshDirEntries,
            )
        } else {
            (a, Effect::Nothing)
        },
        Key::Enter | Key::Down => (
            AppView { selected_entry: 0, folder_focus: FolderFocus::List, ..flush_spec(a, home) },
            Effect::RefreshDirEntries,
        ),
        Key::Esc => (AppView { folder_focus: FolderFocus::List, ..a }, Effect::Nothing),
        Key::Tab => tab_forward_spec(a, home),
        Key::Char(c) => (
            flush_spec(
                AppView {
                    dir_buffer: a.dir_buffer.insert(cur as int, c),
                    path_cursor: cur + 1,
                    ..a
                },
                home,
            ),
            Effect::RefreshDirEntries,
        ),
        _ => (a, Effect::Nothing),
    }
}

/// Keys while browsing the folder list: moving the selection (at the top,
/// up enters the path bar), opening an entry (or choosing the folder when
/// the entry is a file or there is none), Space choosing the shown folder,
/// going to the parent folder, and typing a path.
pub open spec fn list_spec(a: AppView, k: Key, home: Option<Seq<char>>) -> (AppView, Effect) {
    let n = a.dir_entries.len();
    let sel = a.selected_entry;
    if k == Key::Up || k == Key::Char('k') {
        if sel == 0 {
            (
                AppView {
                    folder_focus: FolderFocus::PathBar,
                    path_cursor: a.dir_buffer.len(),
                    ..a
                },
                Effect::Nothing,
            )
        } else {
            (AppView { selected_entry: (sel - 1) as nat, ..a }, Effect::Nothing)
        }
    } else if k == Key::Down || k == Key::Char('j') {
        let max = dec(n);
        (AppView { selected_entry: min_nat(min_nat(sel, max) + 1, max), ..a }, Effect::Nothing)
    } else if k == Key::Char(' ') {
        (flush_spec(a, home), Effect::ConfirmFolder)
    } else if k == Key::Enter || k == Key::Right || k == Key::Char('l') {
        if n == 0 {
            (flush_spec(a, home), Effect::ConfirmFolder)
        } else if sel < n {
            let entry = a.dir_entries[sel as int];
            if (entry.len() > 0 && entry.last() == '/') || entry == seq!['.', '.'] {
                navigate_spec(a, home)
            } else {
                (flush_spec(a, home), Effect::ConfirmFolder)
            }
        } else {
            (a, Effect::Nothing)
        }
    } else if k == Key::Left || k == Key::Char('h') || k == Key::Backspace {
        match path_parent(buffer_dir(a, home)) {
            Some(p) => (
                AppView { selected_entry: 0, ..flush_spec(AppView { dir_buffer: p, ..a }, home) },
                Effect::RefreshDirEntries,
            ),
            None => (a, Effect::Nothing),
        }
    } else if k == Key::Tab {
        tab_forward_spec(a, home)
    } else {
        match k {
            Key::Char(c) => (
                flush_spec(
                    AppView {
                        folder_focus: FolderFocus::PathBar,
                        dir_buffer: a.dir_buffer.push(c),
                        path_cursor: a.dir_buffer.len() + 1,
                        ..a
                    },
                    home,
                ),
                Effect::RefreshDirEntries,
            ),
            _ => (a, Effect::Nothing),
        }
    }
}

/// Editing keys in the focused text field of the rules step: cursor
/// movement, and deletion or insertion at the cursor (after which the plan
/// must be refreshed).
pub open spec fn field_edit_spec(a: AppView, k: Key) -> (AppView, Effect) {
    let fi = a.focus as int;
        let fld = a.fields[fi];
        match k {
            Key::Left => (set_cursor(a, fi, dec(fld.cursor)), Effect::Nothing),
            Key::Right => (
                set_cursor(a, fi, min_nat(fld.cursor + 1, fld.value.len())),
                Effect::Nothing,
            ),
            Key::Backspace => (
                if fld.cursor > 0 {
                    set_field(a, fi, fld.value.remove(fld.cursor - 1), (fld.cursor - 1) as nat)
                } else {
                    a
                },
                Effect::RefreshPlan,
            ),
            Key::Delete => (
                if fld.cursor < fld.value.len() {
                    set_field(a, fi, fld.value.remove(fld.cursor as int), fld.cursor)
                } else {
                    a
                },
                Effect::RefreshPlan,
            ),
            Key::Home => (set_cursor(a, fi, 0), Effect::Nothing),
            Key::End => (set_cursor(a, fi, fld.value.len()), Effect::Nothing),
            Key::Char(c) => (
                set_field(a, fi, fld.value.insert(fld.cursor as int, c), fld.cursor + 1),
                Effect::RefreshPlan,
            ),
            _ => (a, Effect::Nothing),
        }
}

/// Keys on the rules step: moving between rows, editing the focused field
/// (after which the plan must be refreshed), toggling the two options, and
/// moving on (which needs a title) or back.
pub open spec fn rules_spec(a: AppView, k: Key) -> (AppView, Effect) {
    let f = a.focus;
    let fi = f as int;
    if k == Key::Up {
        (AppView { focus: dec(f), ..a }, Effect::Nothing)
    } else if k == Key::Down || (k == Key::Enter && f < 4) {
        (AppView { focus: min_nat(f + 1, 5), ..a }, Effect::Nothing)
    } else if f < 4 && k != Key::Tab && k != Key::BackTab && k != Key::Other && k != Key::Esc {
        field_edit_spec(a, k)
    } else if k == Key::Char(' ') && f == 4 {
        (
            AppView { config: ConfigView { dry_run: !a.config.dry_run, ..a.config }, ..a },
            Effect::Nothing,
        )
    } else if k == Key::Char(' ') && f == 5 {
        (AppView { collision_auto_num: !a.collision_auto_num, ..a }, Effect::Nothing)
    } else if k == Key::Tab {
        let b = apply_rules_spec(a);
        if b.fields[0].value.len() == 0 {
            (AppView { show_error: true, ..b }, Effect::RefreshPlan)
        } else {
            (
                AppView {
                    visited: b.visited.update(2, true),
                    state: StateView::Wizard(Step::Preview),
                    ..b
                },
                Effect::RefreshPlan,
            )
        }
    } else if k == Key::BackTab {
        let b = apply_rules_spec(a);
        (
            AppView {
                state: StateView::Wizard(Step::Folder),
                visited: b.visited.update(1, true),
                ..b
            },
            Effect::Nothing,
        )
    } else {
        (a, Effect::Nothing)
    }
}

/// Keys on the preview step: scrolling, cycling the filter, and moving on
/// or back.
pub open spec fn preview_spec(a: AppView, k: Key) -> (AppView, Effect) {
    if k == Key::Up || k == Key::Char('k') {
        (AppView { preview_scroll: dec(a.preview_scroll), ..a }, Effect::Nothing)
    } else if k == Key::Down || k == Key::Char('j') {
        (
            AppView {
                preview_scroll: if a.preview_scroll < usize::MAX {
                    a.preview_scroll + 1
                } else {
                    a.preview_scroll
                },
                ..a
            },
            Effect::Nothing,
        )
    } else if k == Key::Tab {
        (AppView { state: StateView::Wizard(Step::Execute), ..a }, Effect::Nothing)
    } else if k == Key::BackTab {
        let b = apply_rules_spec(a);
        (
            AppView {
                state: StateView::Wizard(Step::Rules),
                visited: b.visited.update(2, true),
                ..b
            },
            Effect::Nothing,
        )
    } else if k == Key::Char('f') || k == Key::Char('F') {
        (
            AppView { preview_filter: ((a.preview_filter + 1) % 4) as nat, preview_scroll: 0, ..a },
            Effect::Nothing,
        )
    } else {
        (a, Effect::Nothing)
    }
}

/// Keys on the execute step: confirming starts the execution.
pub open spec fn execute_spec(a: AppView, k: Key) -> (AppView, Effect) {
    if k == Key::Enter || k == Key::Tab {
        (start_execute_spec(a), Effect::StartExecute)
    } else if k == Key::BackTab {
        (AppView { state: StateView::Wizard(Step::Preview), ..a }, Effect::Nothing)
    } else {
        (a, Effect::Nothing)
    }
}

/// The step position that a digit key jumps to.
pub open spec fn digit_index(k: Key) -> Option<int> {
    if k == Key::Char('1') {
        Some(0)
    } else if k == Key::Char('2') {
        Some(1)
    } else if k == Key::Char('3') {
        Some(2)
    } else if k == Key::Char('4') {
        Some(3)
    } else {
        None
    }
}

/// Whether a text field has the keyboard.
pub open spec fn in_text_input(a: AppView) -> bool {
    (current_step_of(a) == Step::Rules && a.focus < 4) || (current_step_of(a) == Step::Folder
        && a.folder_focus == FolderFocus::PathBar)
}

/// Keys by application mode: the quit confirmation, the results screen,
/// the running execution (which ignores keys) and the wizard's steps.
pub open spec fn mode_key_spec(a: AppView, k: Key, ctrl: bool, home: Option<Seq<char>>) -> (
    AppView,
    Effect,
) {
    match a.state {
        StateView::ConfirmQuit(rt) => if k == Key::Esc || k == Key::Char('n') || k == Key::Char(
            'N',
        ) {
            (
                AppView {
                    state: match rt {
                        QuitReturn::Wizard(step) => StateView::Wizard(step),
                        QuitReturn::Done(stats) => StateView::Done(stats),
                    },
                    ..a
                },
                Effect::Nothing,
            )
        } else if k == Key::Enter || k == Key::Char('y') || k == Key::Char('Y') {
            (a, Effect::Quit)
        } else {
            (a, Effect::Nothing)
        },
        StateView::Done(stats) => if k == Key::Char('r') || k == Key::Char('R') {
            (a, Effect::ResetKeepFolderRules)
        } else if k == Key::Char('n') || k == Key::Char('N') {
            (initial_app(default_config_view()), Effect::RefreshDirEntries)
        } else if k == Key::Char('q') || k == Key::Char('Q') {
            (
                AppView { state: StateView::ConfirmQuit(QuitReturn::Done(stats)), ..a },
                Effect::Nothing,
            )
        } else {
            (a, Effect::Nothing)
        },
        StateView::Executing { .. } => (a, Effect::Nothing),
        StateView::Wizard(step) => if k == Key::Char('c') && ctrl {
            (
                AppView { state: StateView::ConfirmQuit(QuitReturn::Wizard(step)), ..a },
                Effect::Nothing,
            )
        } else {
            match step {
                Step::Folder => if a.folder_focus == FolderFocus::PathBar {
                    pathbar_spec(a, k, home)
                } else {
                    list_spec(a, k, home)
                },
                Step::Rules => rules_spec(a, k),
                Step::Preview => preview_spec(a, k),
                Step::Execute => execute_spec(a, k),
            }
        },
    }
}

/// What a key press does. The cheatsheet, while open, only closes; outside
/// text fields, `?` opens it, a digit jumps to a visited step, and `q`
/// asks to quit the wizard; otherwise the key goes to the current mode
/// (which, while a rename runs, ignores it).
pub open spec fn handle_key_spec(a: AppView, k: Key, ctrl: bool, home: Option<Seq<char>>) -> (
    AppView,
    Effect,
) {
    if a.cheatsheet_open {
        if k == Key::Char('?') || k == Key::Esc || k == Key::Char('q') || k == Key::Char('Q') {
            (AppView { cheatsheet_open: false, ..a }, Effect::Nothing)
        } else {
            (a, Effect::Nothing)
        }
    } else if !in_text_input(a) && k == Key::Char('?') {
        (AppView { cheatsheet_open: true, ..a }, Effect::Nothing)
    } else if !in_text_input(a) && digit_index(k) is Some && a.visited[digit_index(k)->0] {
        (jump_to_spec(a, digit_index(k)->0), Effect::Nothing)
    } else if !in_text_input(a) && (k == Key::Char('q') || k == Key::Char('Q')) && a.state is Wizard {
        (
            AppView {
                state: StateView::ConfirmQuit(QuitReturn::Wizard(current_step_of(a))),
                ..a
            },
            Effect::Nothing,
        )
    } else {
        mode_key_spec(a, k, ctrl, home)
    }
}


impl App {
    fn set_field_exec(&mut self, i: usize, value: String, cursor: usize)
        requires
            i < old(self).rules.fields.len(),
        ensures
            final(self)@ == set_field(old(self)@, i as int, value@, cursor as nat),
            final(self).rules.fields.len() == old(self).rules.fields.len(),
    {
        let mut f = self.rules.fields.remove(i);
        f.value = value;
        f.cursor = cursor;
        self.rules.fields.insert(i, f);
        assert(self@.fields =~= set_field(old(self)@, i as int, value@, cursor as nat).fields);
        assert(self@ =~= set_field(old(self)@, i as int, value@, cursor as nat));
    }

    /// Move on from the current step (see `tab_forward_spec`).
    pub fn tab_forward(&mut self, home: Option<&str>) -> (e: Effect)
        requires
            well_formed(old(self)@),
        ensures
            (final(self)@, e) == tab_forward_spec(old(self)@, home_view(home)),
    {
        let step = self.current_step();
        if step == Step::Folder && !self.folder_confirmed {
            return self.select_current_dir(home);
        }
        match step.next() {
            Some(next) => {
                let idx = next.index();
                self.visited[idx] = true;
                self.state = AppState::Wizard { step: next };
                assert(self@ =~= tab_forward_spec(old(self)@, home_view(home)).0);
                Effect::Nothing
            },
            None => Effect::Nothing,
        }
    }

    /// Jump to the step at position `idx`, when it was visited.
    pub fn jump_to(&mut self, idx: usize)
        requires
            well_formed(old(self)@),
        ensures
            final(self)@ == jump_to_spec(old(self)@, idx as int),
    {
        if idx <= 3 && self.visited[idx] {
            match Step::from_index(idx) {
                Some(step) => {
                    self.state = AppState::Wizard { step };
                    assert(self@ =~= jump_to_spec(old(self)@, idx as int));
                },
                None => {},
            }
        }
    }

    /// Keys while the path bar has the keyboard (see `pathbar_spec`).
    pub fn handle_folder_pathbar(&mut self, key: Key, home: Option<&str>) -> (e: Effect)
        requires
            well_formed(old(self)@),
            old(self)@.folder_focus == FolderFocus::PathBar,
        ensures
            (final(self)@, e) == pathbar_spec(old(self)@, key, home_view(home)),
    {
        let ghost a = self@;
        let len = self.dir_buffer_char_len();
        match key {
            Key::Left => {
                if self.path_cursor > 0 {
                    self.path_cursor = self.path_cursor - 1;
                }
                assert(self@ =~= pathbar_spec(a, key, home_view(home)).0);
                Effect::Nothing
            },
            Key::Right => {
                if self.path_cursor < len {
                    self.path_cursor = self.path_cursor + 1;
                } else {
                    self.path_cursor = len;
                }
                assert(self@ =~= pathbar_spec(a, key, home_view(home)).0);
                Effect::Nothing
            },
            Key::Home => {
                self.path_cursor = 0;
                assert(self@ =~= pathbar_spec(a, key, home_view(home)).0);
                Effect::Nothing
            },
            Key::End => {
                self.path_cursor = len;
                assert(self@ =~= pathbar_spec(a, key, home_view(home)).0);
                Effect::Nothing
            },
            Key::Backspace => {
                if self.path_cursor > 0 {
                    self.dir_buffer = remove_char(&self.dir_buffer, self.path_cursor - 1);
                    self.path_cursor = self.path_cursor - 1;
                    self.flush_dir_buffer(home);
                    Effect::RefreshDirEntries
                } else {
                    Effect::Nothing
                }
            },
            Key::Delete => {
                if self.path_cursor < len {
                    self.dir_buffer = remove_char(&self.dir_buffer, self.path_cursor);
                    self.flush_dir_buffer(home);
                    Effect::RefreshDirEntries
                } else {
                    Effect::Nothing
                }
            },
            Key::Enter | Key::Down => {
                self.flush_dir_buffer(home);
                self.selected_entry = 0;
                self.folder_focus = FolderFocus::List;
                assert(self@ =~= pathbar_spec(a, key, home_view(home)).0);
                Effect::RefreshDirEntries
            },
            Key::Esc => {
                self.folder_focus = FolderFocus::List;
                assert(self@ =~= pathbar_spec(a, key, home_view(home)).0);
                Effect::Nothing
            },
            Key::Tab => self.tab_forward(home),
            Key::Char(c) => {
                self.dir_buffer = insert_char(&self.dir_buffer, self.path_cursor, c);
                self.path_cursor = self.path_cursor + 1;
                self.flush_dir_buffer(home);
                Effect::RefreshDirEntries
            },
            _ => Effect::Nothing,
        }
    }

    /// Keys while browsing the folder list (see `list_spec`).
    pub fn handle_folder_list(&mut self, key: Key, home: Option<&str>) -> (e: Effect)
        requires
            well_formed(old(self)@),
        ensures
            (final(self)@, e) == list_spec(old(self)@, key, home_view(home)),
    {
        let ghost a = self@;
        let n = self.dir_entries.len();
        if key == Key::Up || key == Key::Char('k') {
            if self.selected_entry == 0 {
                self.folder_focus = FolderFocus::PathBar;
                self.path_cursor = self.dir_buffer_char_len();
            } else {
                self.selected_entry = self.selected_entry - 1;
            }
            assert(self@ =~= list_spec(a, key, home_view(home)).0);
            Effect::Nothing
        } else if key == Key::Down || key == Key::Char('j') {
            let max = if n > 0 {
                n - 1
            } else {
                0
            };
            let m = if self.selected_entry < max {
                self.selected_entry
            } else {
                max
            };
            self.selected_entry = if m + 1 < max {
                m + 1
            } else {
                max
            };
            assert(self@ =~= list_spec(a, key, home_view(home)).0);
            Effect::Nothing
        } else if key == Key::Char(' ') {
            self.select_current_dir(home)
        } else if key == Key::Enter || key == Key::Right || key == Key::Char('l') {
            if n == 0 {
                self.select_current_dir(home)
            } else if self.selected_entry < n {
                let entry = chars_of(self.dir_entries[self.selected_entry].as_str());
                let dots = vec!['.', '.'];
                assert(dots@ =~= seq!['.', '.']);
                assert(entry@ == a.dir_entries[a.selected_entry as int]);
                if (entry.len() > 0 && entry[entry.len() - 1] == '/') || crate::text::same_chars(
                    &entry,
                    &dots,
                ) {
                    self.navigate_into_selected(home)
                } else {
                    self.select_current_dir(home)
                }
            } else {
                Effect::Nothing
            }
        } else if key == Key::Left || key == Key::Char('h') || key == Key::Backspace {
            let cur = trimmed(&self.dir_buffer);
            let current = expand_tilde(cur.as_str(), home);
            match parent(current.as_str()) {
                Some(p) => {
                    self.dir_buffer = p;
                    self.flush_dir_buffer(home);
                    self.selected_entry = 0;
                    assert(self@ =~= list_spec(a, key, home_view(home)).0);
                    Effect::RefreshDirEntries
                },
                None => Effect::Nothing,
            }
        } else if key == Key::Tab {
            self.tab_forward(home)
        } else {
            match key {
                Key::Char(c) => {
                    self.folder_focus = FolderFocus::PathBar;
                    let len = self.dir_buffer_char_len();
                    self.dir_buffer = insert_char(&self.dir_buffer, len, c);
                    assert(self.dir_buffer@ =~= a.dir_buffer.push(c));
                    self.path_cursor = len + 1;
                    self.flush_dir_buffer(home);
                    Effect::RefreshDirEntries
                },
                _ => Effect::Nothing,
            }
        }
    }

    /// Keys on the folder step: to the path bar or the list, whichever has
    /// the keyboard.
    pub fn handle_folder(&mut self, key: Key, home: Option<&str>) -> (e: Effect)
        requires
            well_formed(old(self)@),
        ensures
            (final(self)@, e) == (if old(self)@.folder_focus == FolderFocus::PathBar {
                pathbar_spec(old(self)@, key, home_view(home))
            } else {
                list_spec(old(self)@, key, home_view(home))
            }),
    {
        match self.folder_focus {
            FolderFocus::PathBar => self.handle_folder_pathbar(key, home),
            FolderFocus::List => self.handle_folder_list(key, home),
        }
    }

    /// Editing keys in the focused text field (see `field_edit_spec`).
    fn edit_field(&mut self, key: Key) -> (e: Effect)
        requires
            well_formed(old(self)@),
            old(self)@.focus < 4,
        ensures
            (final(self)@, e) == field_edit_spec(old(self)@, key),
    {
        let ghost a = self@;
        let focus = self.rules.focus;
        assert(a.fields[focus as int] == self.rules.fields@[focus as int]@);
        let cursor = self.rules.fields[focus].cursor;
        let len = self.rules.fields[focus].char_len();
        match key {
            Key::Left => {
                let v = self.rules.fields[focus].value.clone();
                self.set_field_exec(
                    focus,
                    v,
                    if cursor > 0 {
                        cursor - 1
                    } else {
                        0
                    },
                );
                Effect::Nothing
            },
            Key::Right => {
                let v = self.rules.fields[focus].value.clone();
                self.set_field_exec(
                    focus,
                    v,
                    if cursor < len {
                        cursor + 1
                    } else {
                        len
                    },
                );
                Effect::Nothing
            },
            Key::Backspace => {
                if cursor > 0 {
                    let v = remove_char(&self.rules.fields[focus].value, cursor - 1);
                    self.set_field_exec(focus, v, cursor - 1);
                }
                Effect::RefreshPlan
            },
            Key::Delete => {
                if cursor < len {
                    let v = remove_char(&self.rules.fields[focus].value, cursor);
                    self.set_field_exec(focus, v, cursor);
                }
                Effect::RefreshPlan
            },
            Key::Home => {
                let v = self.rules.fields[focus].value.clone();
                self.set_field_exec(focus, v, 0);
                Effect::Nothing
            },
            Key::End => {
                let v = self.rules.fields[focus].value.clone();
                self.set_field_exec(focus, v, len);
                Effect::Nothing
            },
            Key::Char(c) => {
                let v = insert_char(&self.rules.fields[focus].value, cursor, c);
                self.set_field_exec(focus, v, cursor + 1);
                Effect::RefreshPlan
            },
            _ => Effect::Nothing,
        }
    }

    /// Keys on the rules step (see `rules_spec`).
    #[verifier::rlimit(50)]
    pub fn handle_rules(&mut self, key: Key) -> (e: Effect)
        requires
            well_formed(old(self)@),
        ensures
            (final(self)@, e) == rules_spec(old(self)@, key),
    {
        let ghost a = self@;
        let focus = self.rules.focus;
        if key == Key::Up {
            if focus > 0 {
                self.rules.focus = focus - 1;
            }
            assert(self@ =~= rules_spec(a, key).0);
            Effect::Nothing
        } else if key == Key::Down || (key == Key::Enter && focus < 4) {
            self.rules.focus = if focus + 1 < 5 {
                focus + 1
            } else {
                5
            };
            assert(self@ =~= rules_spec(a, key).0);
            Effect::Nothing
        } else if focus < 4 && key != Key::Tab && key != Key::BackTab && key != Key::Other && key
            != Key::Esc {
            self.edit_field(key)
        } else if key == Key::Char(' ') && focus == 4 {
            self.config.dry_run = !self.config.dry_run;
            assert(self@ =~= rules_spec(a, key).0);
            Effect::Nothing
        } else if key == Key::Char(' ') && focus == 5 {
            self.rules.collision_auto_num = !self.rules.collision_auto_num;
            assert(self@ =~= rules_spec(a, key).0);
            Effect::Nothing
        } else if key == Key::Tab {
            self.apply_rules();
            if self.rules.fields[0].value.as_str().is_empty() {
                self.rules.show_error = true;
            } else {
                self.visited[2] = true;
                self.state = AppState::Wizard { step: Step::Preview };
            }
            assert(self@ =~= rules_spec(a, key).0);
            Effect::RefreshPlan
        } else if key == Key::BackTab {
            self.apply_rules();
            self.state = AppState::Wizard { step: Step::Folder };
            self.visited[1] = true;
            assert(self@ =~= rules_spec(a, key).0);
            Effect::Nothing
        } else {
            Effect::Nothing
        }
    }

    /// Keys on the preview step (see `preview_spec`).
    pub fn handle_preview(&mut self, key: Key) -> (e: Effect)
        requires
            well_formed(old(self)@),
        ensures
            (final(self)@, e) == preview_spec(old(self)@, key),
    {
        let ghost a = self@;
        if key == Key::Up || key == Key::Char('k') {
            if self.preview_scroll > 0 {
                self.preview_scroll = self.preview_scroll - 1;
            }
        } else if key == Key::Down || key == Key::Char('j') {
            if self.preview_scroll < usize::MAX {
                self.preview_scroll = self.preview_scroll + 1;
            }
        } else if key == Key::Tab {
            self.state = AppState::Wizard { step: Step::Execute };
        } else if key == Key::BackTab {
            self.apply_rules();
            self.state = AppState::Wizard { step: Step::Rules };
            self.visited[2] = true;
        } else if key == Key::Char('f') || key == Key::Char('F') {
            self.preview_filter = (self.preview_filter + 1) % 4;
            self.preview_scroll = 0;
        }
        assert(self@ =~= preview_spec(a, key).0);
        Effect::Nothing
    }

    /// Keys on the execute step (see `execute_spec`).
    pub fn handle_execute(&mut self, key: Key) -> (e: Effect)
        ensures
            (final(self)@, e) == execute_spec(old(self)@, key),
    {
        if key == Key::Enter || key == Key::Tab {
            self.start_execute();
            Effect::StartExecute
        } else if key == Key::BackTab {
            self.state = AppState::Wizard { step: Step::Preview };
            assert(self@ =~= execute_spec(old(self)@, key).0);
            Effect::Nothing
        } else {
            Effect::Nothing
        }
    }
}


// ---------------------------------------------------------------------------
// Well-formedness is kept
// ---------------------------------------------------------------------------

proof fn lemma_set_field_wf(a: AppView, i: int, value: Seq<char>, cursor: nat)
    requires
        well_formed(a),
        0 <= i < 4,
        cursor <= value.len(),
    ensures
        well_formed(set_field(a, i, value, cursor)),
{
    let b = set_field(a, i, value, cursor);
    assert forall|j: int| 0 <= j < 4 implies (#[trigger] b.fields[j]).cursor <= b.fields[j].value.len() by {
        if j != i {
            assert(b.fields[j] == a.fields[j]);
        }
    }
}

proof fn lemma_initial_wf(c: ConfigView)
    ensures
        well_formed(initial_app(c)),
{
    let a = initial_app(c);
    assert forall|j: int| 0 <= j < 4 implies (#[trigger] a.fields[j]).cursor <= a.fields[j].value.len() by {
    }
}

proof fn lemma_tab_forward_wf(a: AppView, home: Option<Seq<char>>)
    requires
        well_formed(a),
    ensures
        well_formed(tab_forward_spec(a, home).0),
{
}

proof fn lemma_navigate_wf(a: AppView, home: Option<Seq<char>>)
    requires
        well_formed(a),
        a.folder_focus == FolderFocus::List,
    ensures
        well_formed(navigate_spec(a, home).0),
{
}

proof fn lemma_pathbar_wf(a: AppView, k: Key, home: Option<Seq<char>>)
    requires
        well_formed(a),
        a.folder_focus == FolderFocus::PathBar,
    ensures
        well_formed(pathbar_spec(a, k, home).0),
{
    lemma_tab_forward_wf(a, home);
}

proof fn lemma_list_wf(a: AppView, k: Key, home: Option<Seq<char>>)
    requires
        well_formed(a),
        a.folder_focus == FolderFocus::List,
    ensures
        well_formed(list_spec(a, k, home).0),
{
    lemma_tab_forward_wf(a, home);
    lemma_navigate_wf(a, home);
}

proof fn lemma_rules_wf(a: AppView, k: Key)
    requires
        well_formed(a),
    ensures
        well_formed(rules_spec(a, k).0),
{
    let fi = a.focus as int;
    if a.focus < 4 {
        let fld = a.fields[fi];
        assert(fld.cursor <= fld.value.len());
        lemma_set_field_wf(a, fi, fld.value, dec(fld.cursor));
        lemma_set_field_wf(a, fi, fld.value, min_nat(fld.cursor + 1, fld.value.len()));
        lemma_set_field_wf(a, fi, fld.value, 0);
        lemma_set_field_wf(a, fi, fld.value, fld.value.len());
        if fld.cursor > 0 {
            lemma_set_field_wf(a, fi, fld.value.remove(fld.cursor - 1), (fld.cursor - 1) as nat);
        }
        if fld.cursor < fld.value.len() {
            lemma_set_field_wf(a, fi, fld.value.remove(fld.cursor as int), fld.cursor);
        }
        match k {
            Key::Char(c) => {
                lemma_set_field_wf(a, fi, fld.value.insert(fld.cursor as int, c), fld.cursor + 1);
            },
            _ => {},
        }
    }
}

/// Every key press keeps the application well formed.
pub proof fn lemma_handle_key_wf(a: AppView, k: Key, ctrl: bool, home: Option<Seq<char>>)
    requires
        well_formed(a),
    ensures
        well_formed(handle_key_spec(a, k, ctrl, home).0),
{
    lemma_initial_wf(default_config_view());
    if a.folder_focus == FolderFocus::PathBar {
        lemma_pathbar_wf(a, k, home);
    } else {
        lemma_list_wf(a, k, home);
    }
    lemma_rules_wf(a, k);
}

impl App {
    fn handle_mode_key(&mut self, key: Key, ctrl: bool, home: Option<&str>) -> (e: Effect)
        requires
            well_formed(old(self)@),
        ensures
            (final(self)@, e) == mode_key_spec(old(self)@, key, ctrl, home_view(home)),
    {
        let ghost a = self@;
        match &self.state {
            AppState::ConfirmQuit { return_to } => {
                let rt = return_to.clone();
                if key == Key::Esc || key == Key::Char('n') || key == Key::Char('N') {
                    self.state = match rt {
                        QuitReturn::Wizard(step) => AppState::Wizard { step },
                        QuitReturn::Done(stats) => AppState::Done { stats },
                    };
                    assert(self@ =~= mode_key_spec(a, key, ctrl, home_view(home)).0);
                    Effect::Nothing
                } else if key == Key::Enter || key == Key::Char('y') || key == Key::Char('Y') {
                    Effect::Quit
                } else {
                    Effect::Nothing
                }
            },
            AppState::Done { stats } => {
                if key == Key::Char('r') || key == Key::Char('R') {
                    Effect::ResetKeepFolderRules
                } else if key == Key::Char('n') || key == Key::Char('N') {
                    self.reset_new();
                    Effect::RefreshDirEntries
                } else if key == Key::Char('q') || key == Key::Char('Q') {
                    let st = stats.clone();
                    self.state = AppState::ConfirmQuit { return_to: QuitReturn::Done(st) };
                    assert(self@ =~= mode_key_spec(a, key, ctrl, home_view(home)).0);
                    Effect::Nothing
                } else {
                    Effect::Nothing
                }
            },
            AppState::Executing { .. } => Effect::Nothing,
            AppState::Wizard { step } => {
                let step = *step;
                if key == Key::Char('c') && ctrl {
                    self.state = AppState::ConfirmQuit { return_to: QuitReturn::Wizard(step) };
                    assert(self@ =~= mode_key_spec(a, key, ctrl, home_view(home)).0);
                    Effect::Nothing
                } else {
                    match step {
                        Step::Folder => self.handle_folder(key, home),
                        Step::Rules => self.handle_rules(key),
                        Step::Preview => self.handle_preview(key),
                        Step::Execute => self.handle_execute(key),
                    }
                }
            },
        }
    }

    /// Handle a key press (see `handle_key_spec`); `ctrl` says whether the
    /// Control modifier was held, `home` is the home directory. Returns the
    /// work left to the caller, or `Effect::Quit` to leave.
    pub fn handle_key(&mut self, key: Key, ctrl: bool, home: Option<&str>) -> (e: Effect)
        requires
            well_formed(old(self)@),
        ensures
            (final(self)@, e) == handle_key_spec(old(self)@, key, ctrl, home_view(home)),
            well_formed(final(self)@),
    {
        proof {
            lemma_handle_key_wf(self@, key, ctrl, home_view(home));
        }
        let ghost a = self@;
        if self.cheatsheet_open {
            if key == Key::Char('?') || key == Key::Esc || key == Key::Char('q') || key == Key::Char(
                'Q',
            ) {
                self.cheatsheet_open = false;
                assert(self@ =~= handle_key_spec(a, key, ctrl, home_view(home)).0);
            }
            return Effect::Nothing;
        }
        let step = self.current_step();
        let in_text = (step == Step::Rules && self.rules.focus < 4) || (step == Step::Folder
            && self.folder_focus == FolderFocus::PathBar);
        if !in_text {
            if key == Key::Char('?') {
                self.cheatsheet_open = true;
                assert(self@ =~= handle_key_spec(a, key, ctrl, home_view(home)).0);
                return Effect::Nothing;
            }
            let digit: Option<usize> = if key == Key::Char('1') {
                Some(0)
            } else if key == Key::Char('2') {
                Some(1)
            } else if key == Key::Char('3') {
                Some(2)
            } else if key == Key::Char('4') {
                Some(3)
            } else {
                None
            };
            match digit {
                Some(i) => {
                    if self.visited[i] {
                        self.jump_to(i);
                        return Effect::Nothing;
                    }
                },
                None => {},
            }
            if (key == Key::Char('q') || key == Key::Char('Q')) && self.is_wizard() {
                self.state = AppState::ConfirmQuit { return_to: QuitReturn::Wizard(step) };
                assert(self@ =~= handle_key_spec(a, key, ctrl, home_view(home)).0);
                return Effect::Nothing;
            }
        }
        self.handle_mode_key(key, ctrl, home)
    }
}


impl App {
    /// Whether the application is well formed (see `well_formed`), which
    /// the key handlers need.
    pub fn well_formed_now(&self) -> (b: bool)
        ensures
            b == well_formed(self@),
    {
        if self.rules.fields.len() != 4 || self.rules.focus > 5 || self.preview_filter > 3 {
            return false;
        }
        let mut i: usize = 0;
        while i < 4
            invariant
                i <= 4,
                self.rules.fields.len() == 4,
                forall|j: int| 0 <= j < i ==> (#[trigger] self@.fields[j]).cursor <= self@.fields[j].value.len(),
            decreases 4 - i,
        {
            assert(self@.fields[i as int] == self.rules.fields@[i as int]@);
            if self.rules.fields[i].cursor > self.rules.fields[i].char_len() {
                return false;
            }
            i = i + 1;
        }
        match self.folder_focus {
            FolderFocus::PathBar => self.path_cursor <= self.dir_buffer_char_len(),
            FolderFocus::List => true,
        }
    }
}

} // verus!
