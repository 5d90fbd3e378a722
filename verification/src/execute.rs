//! Carrying out a rename plan: the decisions around each rename.
//!
//! The renames themselves are file system operations made by the caller;
//! the library decides which ops need one, records each outcome in the
//! plan and counts the results.
use vstd::prelude::*;
use crate::rename::{is_skip, FinalStats, RenameOp, RenameStatus};

verus! {

/// The number of `i` in `0..n` for which `f(i)` holds.
pub open spec fn count_indices(n: int, f: spec_fn(int) -> bool) -> nat
    decreases n,
{
    if n <= 0 {
        0
    } else if f(n - 1) {
        count_indices(n - 1, f) + 1
    } else {
        count_indices(n - 1, f)
    }
}

pub proof fn lemma_count_indices_bound(n: int, f: spec_fn(int) -> bool)
    requires
        n >= 0,
    ensures
        count_indices(n, f) <= n,
    decreases n,
{
    if n > 0 {
        lemma_count_indices_bound(n - 1, f);
    }
}

/// Whether executing `op` renames a file on disk: only pending ops do, and
/// only outside a dry run.
pub open spec fn wants_rename(op: RenameOp, dry_run: bool) -> bool {
    op.status is Pending && !dry_run
}

/// Whether executing `op` needs a rename on disk.
pub fn needs_disk_rename(op: &RenameOp, dry_run: bool) -> (b: bool)
    ensures
        b == wants_rename(*op, dry_run),
{
    match op.status {
        RenameStatus::Pending => !dry_run,
        _ => false,
    }
}

/// The status of `op` after execution, where `outcome` is the result of its
/// rename on disk (consulted only when one was made).
pub open spec fn executed_status(op: RenameOp, dry_run: bool, outcome: Result<(), String>) -> RenameStatus {
    if !(op.status is Pending) {
        op.status
    } else if dry_run {
        RenameStatus::Success
    } else {
        match outcome {
            Ok(_) => RenameStatus::Success,
            Err(m) => RenameStatus::Error(m),
        }
    }
}

/// `op` after execution.
pub open spec fn executed_op(op: RenameOp, dry_run: bool, outcome: Result<(), String>) -> RenameOp {
    RenameOp { from: op.from, to: op.to, status: executed_status(op, dry_run, outcome) }
}

/// Record the execution of one op: a pending op becomes `Success` (in a dry
/// run, or when its rename succeeded) or `Error` with the rename's message;
/// any other op is left as it is.
pub fn execute_op(op: &mut RenameOp, dry_run: bool, outcome: &Result<(), String>)
    ensures
        *final(op) == executed_op(*old(op), dry_run, *outcome),
{
    match op.status {
        RenameStatus::Pending => {
            if dry_run {
                op.status = RenameStatus::Success;
            } else {
                match outcome {
                    Ok(_) => {
                        op.status = RenameStatus::Success;
                    },
                    Err(m) => {
                        op.status = RenameStatus::Error(m.clone());
                    },
                }
            }
        },
        _ => {},
    }
}

/// The plan after execution with the given rename outcomes.
pub open spec fn executed_plan(ops: Seq<RenameOp>, dry_run: bool, outcomes: Seq<Result<(), String>>) -> Seq<RenameOp> {
    Seq::new(ops.len(), |i: int| executed_op(ops[i], dry_run, outcomes[i]))
}

/// How many ops an execution renames (or, in a dry run, would rename).
pub open spec fn renamed_count(ops: Seq<RenameOp>, dry_run: bool, outcomes: Seq<Result<(), String>>) -> nat {
    count_indices(ops.len() as int, |i: int| ops[i].status is Pending && (dry_run || outcomes[i] is Ok))
}

/// How many ops an execution skips: those that were not pending.
pub open spec fn skipped_count(ops: Seq<RenameOp>) -> nat {
    count_indices(ops.len() as int, |i: int| !(ops[i].status is Pending))
}

/// How many renames fail in an execution.
pub open spec fn error_count(ops: Seq<RenameOp>, dry_run: bool, outcomes: Seq<Result<(), String>>) -> nat {
    count_indices(ops.len() as int, |i: int| ops[i].status is Pending && !dry_run && outcomes[i] is Err)
}

/// Execute the plan: only ops with `Pending` status are acted on.
/// `outcomes[i]` is the result of renaming `ops[i]` on disk, made by the
/// caller where `needs_disk_rename` says so (other entries are ignored).
/// Returns the counts of renamed, skipped and failed ops, with `elapsed` as
/// the duration.
pub fn execute_plan(
    ops: &mut Vec<RenameOp>,
    dry_run: bool,
    outcomes: &Vec<Result<(), String>>,
    elapsed: std::time::Duration,
) -> (stats: FinalStats)
    requires
        outcomes.len() == old(ops).len(),
    ensures
        final(ops)@ == executed_plan(old(ops)@, dry_run, outcomes@),
        final(ops)@.len() == old(ops)@.len(),
        forall|i: int|
            0 <= i < old(ops)@.len() ==> {
                &&& (#[trigger] final(ops)@[i]).from == old(ops)@[i].from
                &&& final(ops)@[i].to == old(ops)@[i].to
                &&& !(final(ops)@[i].status is Pending)
            },
        stats.renamed == renamed_count(old(ops)@, dry_run, outcomes@),
        stats.skipped == skipped_count(old(ops)@),
        stats.errors == error_count(old(ops)@, dry_run, outcomes@),
        stats.duration == elapsed,
{
    let ghost orig = ops@;
    let ghost fr = |i: int| orig[i].status is Pending && (dry_run || outcomes@[i] is Ok);
    let ghost fs = |i: int| !(orig[i].status is Pending);
    let ghost fe = |i: int| orig[i].status is Pending && !dry_run && outcomes@[i] is Err;
    let mut renamed: usize = 0;
    let mut skipped: usize = 0;
    let mut errors: usize = 0;
    let mut i: usize = 0;
    while i < ops.len()
        invariant
            i <= ops.len() == orig.len() == outcomes.len(),
            fr == (|i: int| orig[i].status is Pending && (dry_run || outcomes@[i] is Ok)),
            fs == (|i: int| !(orig[i].status is Pending)),
            fe == (|i: int| orig[i].status is Pending && !dry_run && outcomes@[i] is Err),
            forall|j: int| 0 <= j < i ==> ops@[j] == executed_op(orig[j], dry_run, outcomes@[j]),
            forall|j: int| i <= j < ops.len() ==> ops@[j] == orig[j],
            renamed == count_indices(i as int, fr),
            skipped == count_indices(i as int, fs),
            errors == count_indices(i as int, fe),
        decreases ops.len() - i,
    {
        proof {
            lemma_count_indices_bound(i as int, fr);
            lemma_count_indices_bound(i as int, fs);
            lemma_count_indices_bound(i as int, fe);
        }
        let mut op = ops[i].clone();
        let was_pending = match op.status {
            RenameStatus::Pending => true,
            _ => false,
        };
        execute_op(&mut op, dry_run, &outcomes[i]);
        if !was_pending {
            skipped = skipped + 1;
        } else if dry_run {
            renamed = renamed + 1;
        } else {
            match &outcomes[i] {
                Ok(_) => {
                    renamed = renamed + 1;
                },
                Err(_) => {
                    errors = errors + 1;
                },
            }
        }
        ops.set(i, op);
        i = i + 1;
    }
    assert(ops@ =~= executed_plan(orig, dry_run, outcomes@));
    FinalStats { renamed, skipped, errors, duration: elapsed }
}

/// The counts that end an execution in the wizard: ops that succeeded, were
/// skipped, and failed.
pub fn tally_statuses(ops: &Vec<RenameOp>) -> (r: (usize, usize, usize))
    ensures
        r.0 == count_indices(ops@.len() as int, |i: int| ops@[i].status is Success),
        r.1 == count_indices(ops@.len() as int, |i: int| is_skip(ops@[i].status)),
        r.2 == count_indices(ops@.len() as int, |i: int| ops@[i].status is Error),
{
    let ghost fa = |i: int| ops@[i].status is Success;
    let ghost fb = |i: int| is_skip(ops@[i].status);
    let ghost fc = |i: int| ops@[i].status is Error;
    let mut a: usize = 0;
    let mut b: usize = 0;
    let mut c: usize = 0;
    let mut i: usize = 0;
    while i < ops.len()
        invariant
            i <= ops.len(),
            fa == (|i: int| ops@[i].status is Success),
            fb == (|i: int| is_skip(ops@[i].status)),
            fc == (|i: int| ops@[i].status is Error),
            a == count_indices(i as int, fa),
            b == count_indices(i as int, fb),
            c == count_indices(i as int, fc),
        decreases ops.len() - i,
    {
        proof {
            lemma_count_indices_bound(i as int, fa);
            lemma_count_indices_bound(i as int, fb);
            lemma_count_indices_bound(i as int, fc);
        }
        match ops[i].status {
            RenameStatus::Success => {
                a = a + 1;
            },
            RenameStatus::SkipExists | RenameStatus::SkipCollision | RenameStatus::SkipNoChange
            | RenameStatus::SkipEmptyName => {
                b = b + 1;
            },
            RenameStatus::Error(_) => {
                c = c + 1;
            },
            RenameStatus::Pending => {},
        }
        i = i + 1;
    }
    (a, b, c)
}

/// Every execution accounts for each op exactly once: the renamed, skipped
/// and failed counts add up to the number of ops.
pub proof fn lemma_execution_accounts_for_every_op(
    ops: Seq<RenameOp>,
    dry_run: bool,
    outcomes: Seq<Result<(), String>>,
)
    ensures
        renamed_count(ops, dry_run, outcomes) + skipped_count(ops) + error_count(
            ops,
            dry_run,
            outcomes,
        ) == ops.len(),
{
    let fr = |i: int| ops[i].status is Pending && (dry_run || outcomes[i] is Ok);
    let fs = |i: int| !(ops[i].status is Pending);
    let fe = |i: int| ops[i].status is Pending && !dry_run && outcomes[i] is Err;
    lemma_count_partition(ops.len() as int, fr, fs, fe);
}

proof fn lemma_count_partition(n: int, a: spec_fn(int) -> bool, b: spec_fn(int) -> bool, c: spec_fn(int) -> bool)
    requires
        n >= 0,
        forall|i: int|
            0 <= i < n ==> {
                &&& #[trigger] a(i) || b(i) || c(i)
                &&& a(i) ==> !b(i) && !c(i)
                &&& b(i) ==> !c(i)
            },
    ensures
        count_indices(n, a) + count_indices(n, b) + count_indices(n, c) == n,
    decreases n,
{
    if n > 0 {
        lemma_count_partition(n - 1, a, b, c);
        assert(a(n - 1) || b(n - 1) || c(n - 1));
    }
}

/// After an execution no op is pending, so a second execution changes no
/// op and renames nothing.
pub proof fn lemma_execution_is_idempotent(
    ops: Seq<RenameOp>,
    dry_run: bool,
    outcomes: Seq<Result<(), String>>,
    dry_run2: bool,
    outcomes2: Seq<Result<(), String>>,
)
    ensures
        ({
            let once = executed_plan(ops, dry_run, outcomes);
            &&& forall|i: int| 0 <= i < once.len() ==> !(#[trigger] once[i].status is Pending)
            &&& executed_plan(once, dry_run2, outcomes2) == once
            &&& renamed_count(once, dry_run2, outcomes2) == 0
            &&& error_count(once, dry_run2, outcomes2) == 0
            &&& skipped_count(once) == ops.len()
        }),
{
    let once = executed_plan(ops, dry_run, outcomes);
    assert(executed_plan(once, dry_run2, outcomes2) =~= once);
    let fr = |i: int| once[i].status is Pending && (dry_run2 || outcomes2[i] is Ok);
    let fs = |i: int| !(once[i].status is Pending);
    let fe = |i: int| once[i].status is Pending && !dry_run2 && outcomes2[i] is Err;
    lemma_count_none(once.len() as int, fr);
    lemma_count_none(once.len() as int, fe);
    lemma_count_all(once.len() as int, fs);
}

proof fn lemma_count_none(n: int, f: spec_fn(int) -> bool)
    requires
        forall|i: int| 0 <= i < n ==> !#[trigger] f(i),
    ensures
        count_indices(n, f) == 0,
    decreases n,
{
    if n > 0 {
        lemma_count_none(n - 1, f);
    }
}

proof fn lemma_count_all(n: int, f: spec_fn(int) -> bool)
    requires
        n >= 0,
        forall|i: int| 0 <= i < n ==> #[trigger] f(i),
    ensures
        count_indices(n, f) == n,
    decreases n,
{
    if n > 0 {
        lemma_count_all(n - 1, f);
    }
}

} // verus!
