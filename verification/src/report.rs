//! The texts that the one-shot mode prints about a plan.
use vstd::prelude::*;
use crate::config::{strings, ConfigView, RenameConfig};
use crate::execute::count_indices;
use crate::path::{file_name, or_empty, path_file_name, unwrap_or_empty};
use crate::rename::{FinalStats, RenameOp, RenameStatus};
use crate::text::{
    chars_of, concat, decimal, decimal_chars, is_white_space, join_with, lowercase, string_from,
    texts, to_lowercase, trim_chars, trim_pred, trim_ws, TrimSet, join_chars,
};

verus! {

/// `d` right-aligned in a column of three characters.
pub open spec fn pad3(d: Seq<char>) -> Seq<char> {
    if d.len() >= 3 {
        d
    } else {
        Seq::new((3 - d.len()) as nat, |i: int| ' ') + d
    }
}

fn pad3_exec(d: &Vec<char>) -> (r: Vec<char>)
    ensures
        r@ == pad3(d@),
{
    if d.len() >= 3 {
        return d.clone();
    }
    let mut r: Vec<char> = Vec::new();
    let mut i: usize = 0;
    while i < 3 - d.len()
        invariant
            d.len() < 3,
            i <= 3 - d.len(),
            r@ == Seq::new(i as nat, |j: int| ' '),
        decreases 3 - d.len() - i,
    {
        r.push(' ');
        i = i + 1;
        assert(r@ =~= Seq::new(i as nat, |j: int| ' '));
    }
    concat(&r, d)
}

/// What the one-shot mode says when no file matches.
pub open spec fn no_files_hint_text(exts: Seq<Seq<char>>) -> Seq<char> {
    if exts.len() == 0 {
        "No files found in directory"@
    } else {
        "No files found matching *."@ + join_with(exts, seq!['|'])
    }
}

/// What the one-shot mode says when no file matches the extensions.
pub fn no_files_hint(extensions: &Vec<String>) -> (r: String)
    ensures
        r@ == no_files_hint_text(strings(extensions@)),
{
    if extensions.len() == 0 {
        return string_from(&chars_of("No files found in directory"));
    }
    let mut t: Vec<Vec<char>> = Vec::new();
    let mut i: usize = 0;
    while i < extensions.len()
        invariant
            i <= extensions.len(),
            texts(t@) == strings(extensions@.take(i as int)),
        decreases extensions.len() - i,
    {
        let ghost old_t = texts(t@);
        let c = chars_of(extensions[i].as_str());
        t.push(c);
        assert(texts(t@) =~= old_t.push(extensions@[i as int]@));
        assert(strings(extensions@.take(i + 1)) =~= strings(extensions@.take(i as int)).push(
            extensions@[i as int]@,
        ));
        i = i + 1;
    }
    assert(extensions@.take(extensions.len() as int) =~= extensions@);
    let bar = vec!['|'];
    assert(bar@ =~= seq!['|']);
    let joined = join_chars(&t, &bar);
    string_from(&concat(&chars_of("No files found matching *."), &joined))
}

/// The line that the one-shot mode prints for op `i` of `len`: the old
/// name, then the new one, or why the file is skipped or failed.
pub open spec fn op_line_text(i: nat, len: nat, op: RenameOp) -> Seq<char> {
    let head = "  "@ + pad3(decimal(i)) + seq!['/'] + decimal(len) + "  "@ + or_empty(
        path_file_name(op.from@),
    ) + "  \u{2192}  "@;
    match op.status {
        RenameStatus::Pending | RenameStatus::Success => head + or_empty(path_file_name(op.to@)),
        RenameStatus::SkipNoChange => head + "[SKIP] name unchanged, already matches title format"@,
        RenameStatus::SkipEmptyName => head + "[SKIP] name became empty after strip rules"@,
        RenameStatus::SkipExists => head + "[SKIP] target exists"@,
        RenameStatus::SkipCollision => head + "[SKIP] collision in batch"@,
        RenameStatus::Error(msg) => head + "[ERR] "@ + msg@,
    }
}

/// The line that the one-shot mode prints for op `i` of `len`.
pub fn op_line(i: usize, len: usize, op: &RenameOp) -> (r: String)
    ensures
        r@ == op_line_text(i as nat, len as nat, *op),
{
    let from = chars_of(unwrap_or_empty(file_name(op.from.as_str())).as_str());
    let head = concat(&chars_of("  "), &pad3_exec(&decimal_chars(i as u64)));
    let slash = vec!['/'];
    assert(slash@ =~= seq!['/']);
    let head = concat(&head, &slash);
    let head = concat(&head, &decimal_chars(len as u64));
    let head = concat(&head, &chars_of("  "));
    let head = concat(&head, &from);
    let head = concat(&head, &chars_of("  \u{2192}  "));
    let tail = match &op.status {
        RenameStatus::Pending | RenameStatus::Success => chars_of(
            unwrap_or_empty(file_name(op.to.as_str())).as_str(),
        ),
        RenameStatus::SkipNoChange => chars_of("[SKIP] name unchanged, already matches title format"),
        RenameStatus::SkipEmptyName => chars_of("[SKIP] name became empty after strip rules"),
        RenameStatus::SkipExists => chars_of("[SKIP] target exists"),
        RenameStatus::SkipCollision => chars_of("[SKIP] collision in batch"),
        RenameStatus::Error(msg) => concat(&chars_of("[ERR] "), &chars_of(msg.as_str())),
    };
    string_from(&concat(&head, &tail))
}

/// Whether an answer to the confirmation prompt says yes: `y` or `yes`,
/// ignoring surrounding white space and case.
pub fn confirms(answer: &str) -> (b: bool)
    ensures
        b == (lowercase(trim_ws(answer@)) == "y"@ || lowercase(trim_ws(answer@)) == "yes"@),
{
    let t = trim_chars(&chars_of(answer), TrimSet::WhiteSpace);
    proof {
        assert(trim_pred(TrimSet::WhiteSpace) == (|c: char| is_white_space(c)));
    }
    let low = to_lowercase(string_from(&t).as_str());
    let y = String::from_str("y");
    let yes = String::from_str("yes");
    low == y || low == yes
}

/// How many ops of a plan are pending, and how many are not.
pub fn plan_counts(ops: &Vec<RenameOp>) -> (r: (usize, usize))
    ensures
        r.0 == count_indices(ops@.len() as int, |i: int| ops@[i].status is Pending),
        r.0 + r.1 == ops@.len(),
{
    let ghost f = |i: int| ops@[i].status is Pending;
    let mut n: usize = 0;
    let mut i: usize = 0;
    while i < ops.len()
        invariant
            i <= ops.len(),
            f == (|i: int| ops@[i].status is Pending),
            n == count_indices(i as int, f),
            n <= i,
        decreases ops.len() - i,
    {
        match ops[i].status {
            RenameStatus::Pending => {
                n = n + 1;
            },
            _ => {},
        }
        i = i + 1;
    }
    (n, ops.len() - n)
}

/// Why the one-shot mode refuses to plan.
#[derive(Clone, Copy, PartialEq, Eq, Structural, Debug)]
pub enum Refusal {
    /// No title was given.
    MissingTitle,
    /// The folder does not exist.
    DirNotFound,
}

/// What the one-shot mode decides before planning: a title is required,
/// then the folder must exist.
pub open spec fn run_check(title: Seq<char>, dir_exists: bool) -> Result<(), Refusal> {
    if title.len() == 0 {
        Err(Refusal::MissingTitle)
    } else if !dir_exists {
        Err(Refusal::DirNotFound)
    } else {
        Ok(())
    }
}

/// Whether the one-shot mode may plan with `config`; `dir_exists` says
/// whether its folder exists.
pub fn check_run(config: &RenameConfig, dir_exists: bool) -> (r: Result<(), Refusal>)
    ensures
        r == run_check(config@.title, dir_exists),
{
    if config.title.as_str().is_empty() {
        Err(Refusal::MissingTitle)
    } else if !dir_exists {
        Err(Refusal::DirNotFound)
    } else {
        Ok(())
    }
}

/// The message of a refusal for the folder `dir`.
pub open spec fn refusal_text(r: Refusal, dir: Seq<char>) -> Seq<char> {
    match r {
        Refusal::MissingTitle => "--title is required in CLI mode"@,
        Refusal::DirNotFound => "directory not found: "@ + dir,
    }
}

/// The message of a refusal for the folder `dir`.
pub fn refusal_message(r: Refusal, dir: &str) -> (s: String)
    ensures
        s@ == refusal_text(r, dir@),
{
    match r {
        Refusal::MissingTitle => string_from(&chars_of("--title is required in CLI mode")),
        Refusal::DirNotFound => string_from(
            &concat(&chars_of("directory not found: "), &chars_of(dir)),
        ),
    }
}

/// The lines that the one-shot mode prints before the plan: the folder and
/// title, the prefix and suffix when set, the mode, the collision policy
/// when it numbers, a hint in a dry run, and a blank line.
pub open spec fn header_lines(c: ConfigView) -> Seq<Seq<char>> {
    let top = seq!["=== namid: Batch Rename ==="@, "Dir:     "@ + c.dir, "Title:   "@ + c.title];
    let pre = if c.prefix.len() > 0 {
        seq!["Prefix:  "@ + c.prefix]
    } else {
        Seq::empty()
    };
    let suf = if c.suffix.len() > 0 {
        seq!["Suffix:  "@ + c.suffix]
    } else {
        Seq::empty()
    };
    let mode = seq![
        "Mode:    "@ + if c.dry_run {
            "SIMULATION"@
        } else {
            "EXECUTION"@
        },
    ];
    let col = if c.collision_auto_num {
        seq!["Collide: auto-number duplicates instead of skipping"@]
    } else {
        Seq::empty()
    };
    let hint = if c.dry_run {
        seq!["         (add --exec to execute)"@]
    } else {
        Seq::empty()
    };
    top + pre + suf + mode + col + hint + seq![Seq::<char>::empty()]
}

/// `lit` followed by `rest`, as a `String`.
fn labelled(lit: &str, rest: &str) -> (s: String)
    ensures
        s@ == lit@ + rest@,
{
    string_from(&concat(&chars_of(lit), &chars_of(rest)))
}

/// The lines that the one-shot mode prints before the plan.
pub fn header_lines_of(config: &RenameConfig) -> (r: Vec<String>)
    ensures
        strings(r@) == header_lines(config@),
{
    let c = config;
    let mut r: Vec<String> = Vec::new();
    r.push(string_from(&chars_of("=== namid: Batch Rename ===")));
    r.push(labelled("Dir:     ", c.dir.as_str()));
    r.push(labelled("Title:   ", c.title.as_str()));
    let ghost top = strings(r@);
    if !c.prefix.as_str().is_empty() {
        r.push(labelled("Prefix:  ", c.prefix.as_str()));
    }
    let ghost a = strings(r@);
    if !c.suffix.as_str().is_empty() {
        r.push(labelled("Suffix:  ", c.suffix.as_str()));
    }
    let ghost b = strings(r@);
    if c.dry_run {
        r.push(labelled("Mode:    ", "SIMULATION"));
    } else {
        r.push(labelled("Mode:    ", "EXECUTION"));
    }
    let ghost m = strings(r@);
    if c.collision_auto_num {
        r.push(string_from(&chars_of("Collide: auto-number duplicates instead of skipping")));
    }
    let ghost d = strings(r@);
    if c.dry_run {
        r.push(string_from(&chars_of("         (add --exec to execute)")));
    }
    let ghost e = strings(r@);
    r.push(String::new());
    proof {
        let cv = config@;
        let h = header_lines(cv);
        assert(top =~= seq!["=== namid: Batch Rename ==="@, "Dir:     "@ + cv.dir, "Title:   "@ + cv.title]);
        assert(a =~= top + if cv.prefix.len() > 0 {
            seq!["Prefix:  "@ + cv.prefix]
        } else {
            Seq::empty()
        });
        assert(b =~= a + if cv.suffix.len() > 0 {
            seq!["Suffix:  "@ + cv.suffix]
        } else {
            Seq::empty()
        });
        assert(m =~= b + seq![
            "Mode:    "@ + if cv.dry_run {
                "SIMULATION"@
            } else {
                "EXECUTION"@
            },
        ]);
        assert(d =~= m + if cv.collision_auto_num {
            seq!["Collide: auto-number duplicates instead of skipping"@]
        } else {
            Seq::empty()
        });
        assert(e =~= d + if cv.dry_run {
            seq!["         (add --exec to execute)"@]
        } else {
            Seq::empty()
        });
        assert(strings(r@) =~= e + seq![Seq::<char>::empty()]);
        assert(strings(r@) =~= h);
    }
    r
}

/// The line that closes a dry run: how many ops rename and how many skip.
pub open spec fn plan_summary_text(pending: nat, rest: nat) -> Seq<char> {
    "Plan: "@ + decimal(pending) + " to rename \u{b7} "@ + decimal(rest) + " skip"@
}

/// The line that closes a dry run of `ops`.
pub fn plan_summary(ops: &Vec<RenameOp>) -> (r: String)
    ensures
        r@ == plan_summary_text(
            count_indices(ops@.len() as int, |i: int| ops@[i].status is Pending),
            (ops@.len() - count_indices(ops@.len() as int, |i: int| ops@[i].status is Pending)) as nat,
        ),
{
    let (p, s) = plan_counts(ops);
    let l = concat(&chars_of("Plan: "), &decimal_chars(p as u64));
    let l = concat(&l, &chars_of(" to rename \u{b7} "));
    let l = concat(&l, &decimal_chars(s as u64));
    string_from(&concat(&l, &chars_of(" skip")))
}

/// The question asked before renaming `pending` files for real.
pub open spec fn confirm_prompt_text(pending: nat) -> Seq<char> {
    "Proceed with execution ("@ + decimal(pending) + " files, PERMANENT, cannot be undone)? [y/N] "@
}

/// The question asked before renaming `pending` files for real.
pub fn confirm_prompt(pending: usize) -> (r: String)
    ensures
        r@ == confirm_prompt_text(pending as nat),
{
    let l = concat(&chars_of("Proceed with execution ("), &decimal_chars(pending as u64));
    string_from(&concat(&l, &chars_of(" files, PERMANENT, cannot be undone)? [y/N] ")))
}

/// The counts that close a run for real (the elapsed time follows them).
pub open spec fn result_counts_text(renamed: nat, skipped: nat, errors: nat) -> Seq<char> {
    "Result: "@ + decimal(renamed) + " renamed \u{b7} "@ + decimal(skipped) + " skipped \u{b7} "@
        + decimal(errors) + " errors"@
}

/// The counts that close a run for real, from its statistics.
pub fn result_counts(stats: &FinalStats) -> (r: String)
    ensures
        r@ == result_counts_text(stats.renamed as nat, stats.skipped as nat, stats.errors as nat),
{
    let l = concat(&chars_of("Result: "), &decimal_chars(stats.renamed as u64));
    let l = concat(&l, &chars_of(" renamed \u{b7} "));
    let l = concat(&l, &decimal_chars(stats.skipped as u64));
    let l = concat(&l, &chars_of(" skipped \u{b7} "));
    let l = concat(&l, &decimal_chars(stats.errors as u64));
    string_from(&concat(&l, &chars_of(" errors")))
}

} // verus!
