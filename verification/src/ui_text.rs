//! The texts that the wizard's widgets show, independent of drawing.
use vstd::prelude::*;
use crate::execute::count_indices;
use crate::path::{file_name, or_empty, path_file_name, unwrap_or_empty};
use crate::rename::{RenameOp, RenameStatus};
use crate::text::{chars_of, concat, same_chars, slice_chars, string_from};
use crate::wizard::App;

verus! {

/// `x - y`, or 0.
pub open spec fn sat_sub(x: int, y: int) -> int {
    if x > y {
        x - y
    } else {
        0
    }
}

// ---------------------------------------------------------------------------
// Breadcrumb
// ---------------------------------------------------------------------------

/// Read-only breadcrumb: "📂 folder  🏷 title".
pub struct Breadcrumb<'a> {
    pub folder: &'a str,
    pub title: &'a str,
}

/// How many characters of the folder and of the title fit in `width`
/// columns.
pub open spec fn crumb_room(width: nat) -> int {
    sat_sub(width as int, 14) / 2
}

/// The folder as shown: a placeholder when empty, otherwise its end,
/// behind an ellipsis, when it does not fit.
pub open spec fn crumb_folder(folder: Seq<char>, room: int) -> Seq<char> {
    if folder.len() == 0 {
        "(no folder)"@
    } else if folder.len() > room {
        let keep = sat_sub(room, 3);
        seq!['\u{2026}'] + folder.skip(folder.len() - keep)
    } else {
        folder
    }
}

/// The title as shown: a placeholder when empty, otherwise its start,
/// before an ellipsis, when it does not fit.
pub open spec fn crumb_title(title: Seq<char>, room: int) -> Seq<char> {
    if title.len() == 0 {
        "(no title)"@
    } else if title.len() > room {
        title.take(sat_sub(room, 3)) + seq!['\u{2026}']
    } else {
        title
    }
}

/// The breadcrumb line for an area `width` columns wide (none below four
/// columns).
pub open spec fn crumb_line(folder: Seq<char>, title: Seq<char>, width: nat) -> Option<Seq<char>> {
    if width < 4 {
        None
    } else {
        let room = crumb_room(width);
        Some(
            seq!['\u{1f4c2}', ' '] + crumb_folder(folder, room) + seq![' ', ' ', '\u{1f3f7}', ' ']
                + crumb_title(title, room),
        )
    }
}

impl<'a> Breadcrumb<'a> {
    /// The line shown in an area `width` columns wide.
    pub fn line(&self, width: u16) -> (r: Option<String>)
        ensures
            match r {
                Some(s) => crumb_line(self.folder@, self.title@, width as nat) == Some(s@),
                None => crumb_line(self.folder@, self.title@, width as nat) is None,
            },
    {
        if width < 4 {
            return None;
        }
        let room: usize = ((if width > 14 {
            width - 14
        } else {
            0
        }) / 2) as usize;
        let folder = chars_of(self.folder);
        let title = chars_of(self.title);
        let fd = if folder.len() == 0 {
            chars_of("(no folder)")
        } else if folder.len() > room {
            let keep = if room > 3 {
                room - 3
            } else {
                0
            };
            let tail = slice_chars(&folder, folder.len() - keep, folder.len());
            let e = vec!['\u{2026}'];
            assert(e@ =~= seq!['\u{2026}']);
            assert(tail@ =~= folder@.skip(folder.len() - keep));
            concat(&e, &tail)
        } else {
            folder.clone()
        };
        let td = if title.len() == 0 {
            chars_of("(no title)")
        } else if title.len() > room {
            let keep = if room > 3 {
                room - 3
            } else {
                0
            };
            let head = slice_chars(&title, 0, keep);
            let e = vec!['\u{2026}'];
            assert(e@ =~= seq!['\u{2026}']);
            assert(head@ =~= title@.take(keep as int));
            concat(&head, &e)
        } else {
            title.clone()
        };
        let a = vec!['\u{1f4c2}', ' '];
        let b = vec![' ', ' ', '\u{1f3f7}', ' '];
        assert(a@ =~= seq!['\u{1f4c2}', ' ']);
        assert(b@ =~= seq![' ', ' ', '\u{1f3f7}', ' ']);
        let l = concat(&a, &fd);
        let l = concat(&l, &b);
        let l = concat(&l, &td);
        Some(string_from(&l))
    }
}

// ---------------------------------------------------------------------------
// Form field
// ---------------------------------------------------------------------------

/// An editable text field with visible cursor.
pub struct FormField<'a> {
    pub label: &'a str,
    pub value: &'a str,
    pub placeholder: &'a str,
    pub cursor: usize,
    pub focused: bool,
    pub error: bool,
}

/// What the field shows: its value, or the placeholder when empty.
pub open spec fn field_display(value: Seq<char>, placeholder: Seq<char>) -> Seq<char> {
    if value.len() == 0 {
        placeholder
    } else {
        value
    }
}

/// How far the field scrolls so that the cursor stays visible in `w`
/// columns (only a focused, non-empty field scrolls).
pub open spec fn field_scroll(value: Seq<char>, cursor: nat, focused: bool, w: nat) -> nat {
    if focused && value.len() > 0 {
        sat_sub(cursor as int, sat_sub(w as int, 2)) as nat
    } else {
        0
    }
}

/// The characters of `s` from `from`, at most `n` of them.
pub open spec fn window(s: Seq<char>, from: int, n: int) -> Seq<char> {
    if from >= s.len() {
        Seq::empty()
    } else if from + n >= s.len() {
        s.skip(from)
    } else {
        s.subrange(from, from + n)
    }
}

fn window_exec(s: &Vec<char>, from: usize, n: usize) -> (r: Vec<char>)
    ensures
        r@ == window(s@, from as int, n as int),
{
    if from >= s.len() {
        Vec::new()
    } else if n >= s.len() - from {
        let r = slice_chars(s, from, s.len());
        assert(r@ =~= s@.skip(from as int));
        r
    } else {
        slice_chars(s, from, from + n)
    }
}

impl<'a> FormField<'a> {
    /// For a text area `w` columns wide: the visible part of what the field
    /// shows, and, for a focused field whose cursor is visible, the cursor's
    /// column and the character under it (a space past the end).
    pub fn visible(&self, w: usize) -> (r: (String, Option<(usize, char)>))
        ensures
            ({
                let d = field_display(self.value@, self.placeholder@);
                let off = field_scroll(self.value@, self.cursor as nat, self.focused, w as nat);
                let col = sat_sub(self.cursor as int, off as int);
                &&& r.0@ == window(d, off as int, w as int)
                &&& r.1 == (if self.focused && col < w {
                    Some(
                        (
                            col as usize,
                            if self.value@.len() == 0 || self.cursor >= d.len() {
                                ' '
                            } else {
                                d[self.cursor as int]
                            },
                        ),
                    )
                } else {
                    None
                })
            }),
    {
        let value = chars_of(self.value);
        let d = if value.len() == 0 {
            chars_of(self.placeholder)
        } else {
            value.clone()
        };
        let off: usize = if self.focused && value.len() > 0 {
            let keep = if w > 2 {
                w - 2
            } else {
                0
            };
            if self.cursor > keep {
                self.cursor - keep
            } else {
                0
            }
        } else {
            0
        };
        let vis = string_from(&window_exec(&d, off, w));
        let col = if self.cursor > off {
            self.cursor - off
        } else {
            0
        };
        let cur = if self.focused && col < w {
            let ch = if value.len() == 0 || self.cursor >= d.len() {
                ' '
            } else {
                d[self.cursor]
            };
            Some((col, ch))
        } else {
            None
        };
        (vis, cur)
    }
}

// ---------------------------------------------------------------------------
// Preview
// ---------------------------------------------------------------------------

/// Scrollable preview of rename operations with status per row.
pub struct PreviewWidget<'a> {
    pub ops: &'a [RenameOp],
    pub scroll: usize,
    pub focused: bool,
    pub empty_msg: &'a str,
}

/// The icon that marks an op's status.
pub open spec fn status_icon(s: RenameStatus) -> Seq<char> {
    match s {
        RenameStatus::Pending | RenameStatus::Success => seq!['\u{2713}'],
        RenameStatus::SkipExists => seq!['\u{26a0}'],
        RenameStatus::SkipNoChange => seq!['\u{25cb}'],
        _ => seq!['\u{2717}'],
    }
}

/// Why an op is skipped or failed (empty for one that renames).
pub open spec fn status_reason(s: RenameStatus) -> Seq<char> {
    match s {
        RenameStatus::Pending | RenameStatus::Success => Seq::empty(),
        RenameStatus::SkipExists => "target file already exists"@,
        RenameStatus::SkipCollision => "name collision in batch"@,
        RenameStatus::SkipNoChange => "name unchanged, already matches title format"@,
        RenameStatus::SkipEmptyName => "name became empty after strip rules"@,
        RenameStatus::Error(e) => e@,
    }
}

/// The row of the preview for an op: its icon and old name, then the new
/// name, or the reason in brackets when there is one.
pub open spec fn preview_row(op: RenameOp) -> Seq<char> {
    let head = seq![' '] + status_icon(op.status) + seq![' '] + or_empty(path_file_name(op.from@))
        + seq![' ', '\u{2192}', ' '];
    let reason = status_reason(op.status);
    if reason.len() == 0 {
        head + or_empty(path_file_name(op.to@))
    } else {
        head + seq!['['] + reason + seq![']']
    }
}

fn status_icon_exec(s: &RenameStatus) -> (r: Vec<char>)
    ensures
        r@ == status_icon(*s),
{
    let r = match s {
        RenameStatus::Pending | RenameStatus::Success => vec!['\u{2713}'],
        RenameStatus::SkipExists => vec!['\u{26a0}'],
        RenameStatus::SkipNoChange => vec!['\u{25cb}'],
        _ => vec!['\u{2717}'],
    };
    assert(r@ =~= status_icon(*s));
    r
}

fn status_reason_exec(s: &RenameStatus) -> (r: Vec<char>)
    ensures
        r@ == status_reason(*s),
{
    match s {
        RenameStatus::Pending | RenameStatus::Success => Vec::new(),
        RenameStatus::SkipExists => chars_of("target file already exists"),
        RenameStatus::SkipCollision => chars_of("name collision in batch"),
        RenameStatus::SkipNoChange => chars_of("name unchanged, already matches title format"),
        RenameStatus::SkipEmptyName => chars_of("name became empty after strip rules"),
        RenameStatus::Error(e) => chars_of(e.as_str()),
    }
}

/// The row of the preview for `op`.
pub fn preview_row_text(op: &RenameOp) -> (r: String)
    ensures
        r@ == preview_row(*op),
{
    let sp = vec![' '];
    assert(sp@ =~= seq![' ']);
    let arrow = vec![' ', '\u{2192}', ' '];
    assert(arrow@ =~= seq![' ', '\u{2192}', ' ']);
    let from = chars_of(unwrap_or_empty(file_name(op.from.as_str())).as_str());
    let head = concat(&sp, &status_icon_exec(&op.status));
    let head = concat(&head, &sp);
    let head = concat(&head, &from);
    let head = concat(&head, &arrow);
    let reason = status_reason_exec(&op.status);
    if reason.len() == 0 {
        let to = chars_of(unwrap_or_empty(file_name(op.to.as_str())).as_str());
        string_from(&concat(&head, &to))
    } else {
        let open = vec!['['];
        let close = vec![']'];
        assert(open@ =~= seq!['[']);
        assert(close@ =~= seq![']']);
        let l = concat(&head, &open);
        let l = concat(&l, &reason);
        string_from(&concat(&l, &close))
    }
}

impl<'a> PreviewWidget<'a> {
    /// The index of the first op shown when `available` rows fit: the
    /// scroll position, kept so that the last page stays full.
    pub fn first_row(&self, available: usize) -> (r: usize)
        ensures
            r as int == (if (self.scroll as int) < sat_sub(self.ops@.len() as int, available as int) {
                self.scroll as int
            } else {
                sat_sub(self.ops@.len() as int, available as int)
            }),
    {
        let n = self.ops.len();
        let limit = if n > available {
            n - available
        } else {
            0
        };
        if self.scroll < limit {
            self.scroll
        } else {
            limit
        }
    }
}

impl App {
    /// The counts the preview and execute steps show: ops to rename,
    /// skipped ops (those neither pending nor failed), and failed ops.
    pub fn plan_counts(&self) -> (r: (usize, usize, usize))
        ensures
            r.0 == count_indices(self@.ops.len() as int, |i: int| self@.ops[i].status is Pending),
            r.2 == count_indices(self@.ops.len() as int, |i: int| self@.ops[i].status is Error),
            r.1 as int == sat_sub(sat_sub(self@.ops.len() as int, r.0 as int), r.2 as int),
    {
        let pending = self.pending_count();
        let ghost f = |i: int| self@.ops[i].status is Error;
        let mut errors: usize = 0;
        let mut i: usize = 0;
        while i < self.ops.len()
            invariant
                i <= self.ops.len(),
                f == (|i: int| self@.ops[i].status is Error),
                errors == count_indices(i as int, f),
                errors <= i,
            decreases self.ops.len() - i,
        {
            match self.ops[i].status {
                RenameStatus::Error(_) => {
                    errors = errors + 1;
                },
                _ => {},
            }
            i = i + 1;
        }
        let total = self.ops.len();
        let a = if total > pending {
            total - pending
        } else {
            0
        };
        let skipped = if a > errors {
            a - errors
        } else {
            0
        };
        (pending, skipped, errors)
    }
}

// ---------------------------------------------------------------------------
// Stepper, folder list, empty preview, failures
// ---------------------------------------------------------------------------

/// How the stepper marks a step.
#[derive(Clone, Copy, PartialEq, Eq, Structural, Debug)]
pub enum StepMark {
    /// The step shown now.
    Current,
    /// A step visited before.
    Visited,
    /// A step not reached yet.
    Future,
}

/// The mark of step `i` when step `active` is shown.
pub open spec fn step_mark_of(visited: Seq<bool>, active: int, i: int) -> StepMark {
    if i == active {
        StepMark::Current
    } else if visited[i] {
        StepMark::Visited
    } else {
        StepMark::Future
    }
}

/// Whether a line of the folder list names a folder: `..`, or a name
/// ending in `/`.
pub open spec fn names_folder(line: Seq<char>) -> bool {
    line == seq!['.', '.'] || (line.len() > 0 && line.last() == '/')
}

/// Whether a line of the folder list names a folder.
pub fn is_folder_line(line: &str) -> (b: bool)
    ensures
        b == names_folder(line@),
{
    let v = chars_of(line);
    let dots = vec!['.', '.'];
    assert(dots@ =~= seq!['.', '.']);
    same_chars(&v, &dots) || (v.len() > 0 && v[v.len() - 1] == '/')
}

/// What the preview says when it shows no op: the last error, else why
/// there is no plan, else that the filter matches nothing.
pub open spec fn empty_message(
    last_error: Option<Seq<char>>,
    dir_exists: bool,
    title: Seq<char>,
    nothing_shown: bool,
    filter: nat,
) -> Seq<char> {
    match last_error {
        Some(e) => e,
        None => if !dir_exists {
            "Folder not found"@
        } else if title.len() == 0 {
            "Series title not set \u{2014} go back to Rules"@
        } else if nothing_shown {
            if filter == 0 {
                "No matching files"@
            } else if filter == 1 {
                "No files to rename"@
            } else if filter == 2 {
                "No skipped files"@
            } else if filter == 3 {
                "No errors"@
            } else {
                Seq::empty()
            }
        } else {
            Seq::empty()
        },
    }
}

/// The last of a sequence of texts, if any.
pub open spec fn last_text(v: Seq<Seq<char>>) -> Option<Seq<char>> {
    if v.len() > 0 {
        Some(v.last())
    } else {
        None
    }
}

/// The summary's line for a failed op: its path and the error.
pub open spec fn failure_line(op: RenameOp) -> Seq<char> {
    "  \u{2717} "@ + op.from@ + "  "@ + status_reason(op.status)
}

/// The summary's lines for the failed ops, in plan order.
pub open spec fn failure_lines(ops: Seq<RenameOp>) -> Seq<Seq<char>> {
    ops.filter(|o: RenameOp| o.status is Error).map_values(|o: RenameOp| failure_line(o))
}

impl App {
    /// How the stepper marks step `i` when step `active` is shown.
    pub fn step_mark(&self, i: usize, active: usize) -> (m: StepMark)
        requires
            i < 4,
        ensures
            m == step_mark_of(self@.visited, active as int, i as int),
    {
        if i == active {
            StepMark::Current
        } else if self.visited[i] {
            StepMark::Visited
        } else {
            StepMark::Future
        }
    }

    /// The first line of the folder list shown when `available` lines fit:
    /// the list scrolls so that the selected line is on the last row.
    pub fn list_first_row(&self, available: usize) -> (r: usize)
        ensures
            r as int == sat_sub(self.selected_entry as int, sat_sub(available as int, 1)),
    {
        let room = if available > 0 {
            available - 1
        } else {
            0
        };
        if self.selected_entry > room {
            self.selected_entry - room
        } else {
            0
        }
    }

    /// What the preview says when it shows no op; `dir_exists` says whether
    /// the configured folder exists, `shown` how many ops the filter shows.
    pub fn empty_preview_message(&self, dir_exists: bool, shown: usize) -> (r: String)
        ensures
            r@ == empty_message(
                last_text(self@.errors),
                dir_exists,
                self@.config.title,
                shown == 0,
                self@.preview_filter,
            ),
    {
        let n = self.errors.len();
        if n > 0 {
            return self.errors[n - 1].clone();
        }
        if !dir_exists {
            string_from(&chars_of("Folder not found"))
        } else if self.config.title.as_str().is_empty() {
            string_from(&chars_of("Series title not set \u{2014} go back to Rules"))
        } else if shown == 0 {
            if self.preview_filter == 0 {
                string_from(&chars_of("No matching files"))
            } else if self.preview_filter == 1 {
                string_from(&chars_of("No files to rename"))
            } else if self.preview_filter == 2 {
                string_from(&chars_of("No skipped files"))
            } else if self.preview_filter == 3 {
                string_from(&chars_of("No errors"))
            } else {
                String::new()
            }
        } else {
            String::new()
        }
    }

    /// The summary's lines for the failed ops, in plan order.
    pub fn failure_lines(&self) -> (r: Vec<String>)
        ensures
            r@.map_values(|s: String| s@) == failure_lines(self@.ops),
    {
        let ghost ops = self@.ops;
        let ghost keep = |o: RenameOp| o.status is Error;
        let mut r: Vec<String> = Vec::new();
        let mut i: usize = 0;
        while i < self.ops.len()
            invariant
                i <= self.ops.len(),
                ops == self@.ops,
                keep == (|o: RenameOp| o.status is Error),
                r@.map_values(|s: String| s@) == failure_lines(ops.take(i as int)),
            decreases self.ops.len() - i,
        {
            reveal_with_fuel(Seq::filter, 1);
            let ghost before = r@.map_values(|s: String| s@);
            assert(ops.take(i + 1).drop_last() =~= ops.take(i as int));
            assert(ops.take(i + 1).filter(keep) == if keep(ops[i as int]) {
                ops.take(i as int).filter(keep).push(ops[i as int])
            } else {
                ops.take(i as int).filter(keep)
            });
            match &self.ops[i].status {
                RenameStatus::Error(msg) => {
                    let head = vec![' ', ' ', '\u{2717}', ' '];
                    assert(head@ =~= "  \u{2717} "@) by {
                        reveal_strlit("  \u{2717} ");
                    }
                    let l = concat(&head, &chars_of(self.ops[i].from.as_str()));
                    let l = concat(&l, &chars_of("  "));
                    let l = concat(&l, &chars_of(msg.as_str()));
                    r.push(string_from(&l));
                    assert(r@.map_values(|s: String| s@) =~= before.push(failure_line(ops[i as int])));
                },
                _ => {},
            }
            assert(r@.map_values(|s: String| s@) =~= failure_lines(ops.take(i + 1)));
            i = i + 1;
        }
        assert(ops.take(self.ops.len() as int) =~= ops);
        r
    }
}

// ---------------------------------------------------------------------------
// Path bar and toggles
// ---------------------------------------------------------------------------

/// The path bar's text: a pin, then the typed path, or a hint when it is
/// empty.
pub open spec fn path_bar(buffer: Seq<char>) -> Seq<char> {
    "\u{1f4cd}  "@ + if buffer.len() == 0 {
        "(empty \u{2014} type full path)"@
    } else {
        buffer
    }
}

/// The path bar's text for the typed path `buffer`.
pub fn path_bar_text(buffer: &str) -> (r: String)
    ensures
        r@ == path_bar(buffer@),
{
    let pin = chars_of("\u{1f4cd}  ");
    if buffer.is_empty() {
        string_from(&concat(&pin, &chars_of("(empty \u{2014} type full path)")))
    } else {
        string_from(&concat(&pin, &chars_of(buffer)))
    }
}

/// The mode row: simulate or execute, the chosen one marked.
pub open spec fn mode_toggle(dry_run: bool) -> Seq<char> {
    if dry_run {
        "   \u{25cf} Simulate     \u{25cb} Execute   [Spc toggle]"@
    } else {
        "   \u{25cb} Simulate     \u{25cf} Execute   [Spc toggle]"@
    }
}

/// The mode row for `dry_run`.
pub fn mode_toggle_text(dry_run: bool) -> (r: String)
    ensures
        r@ == mode_toggle(dry_run),
{
    if dry_run {
        string_from(&chars_of("   \u{25cf} Simulate     \u{25cb} Execute   [Spc toggle]"))
    } else {
        string_from(&chars_of("   \u{25cb} Simulate     \u{25cf} Execute   [Spc toggle]"))
    }
}

/// The collision row: skip and flag, or auto-number, the chosen one marked.
pub open spec fn collision_toggle(auto_number: bool) -> Seq<char> {
    if auto_number {
        "   \u{25cb} Skip & flag     \u{25cf} Auto-number   [Spc toggle]"@
    } else {
        "   \u{25cf} Skip & flag     \u{25cb} Auto-number   [Spc toggle]"@
    }
}

/// The collision row for `auto_number`.
pub fn collision_toggle_text(auto_number: bool) -> (r: String)
    ensures
        r@ == collision_toggle(auto_number),
{
    if auto_number {
        string_from(&chars_of("   \u{25cb} Skip & flag     \u{25cf} Auto-number   [Spc toggle]"))
    } else {
        string_from(&chars_of("   \u{25cf} Skip & flag     \u{25cb} Auto-number   [Spc toggle]"))
    }
}

} // verus!
