//! The rename plan: for each file, the new name and whether it can be used.
use vstd::prelude::*;
use crate::clean::{
    ends_with_tag, lemma_strip_tag_run, lemma_strip_tags_keeps_untagged, pattern_run, patterns_valid,
    strip_tag_chars, strip_tags_spec,
};
use crate::config::{strings, ConfigView, RenameConfig};
use crate::path::{
    extension, file_name, file_stem, or_empty, path_extension, path_file_name, path_file_stem, path_parent,
    path_with_file_name, plain_name, unwrap_or_empty, with_file_name,
};
use crate::text::{
    chars_of, concat, decimal, decimal_chars, is_dash_or_space, is_white_space, join_chars,
    join_with, lowercase, non_empty, replace_underscores, same_chars, split_chars, split_pred,
    string_from, has_suffix, strip_prefix, strip_suffix, texts, to_lowercase, trim_by, trim_chars,
    trim_pred, underscores_to_spaces, without_prefix, without_suffix, words, SplitSet, TrimSet,
    pieces, lemma_pieces_chars, lemma_trim_shape,
};

verus! {

/// What happened, or will happen, to one file.
pub enum RenameStatus {
    Pending,
    SkipExists,
    SkipCollision,
    SkipNoChange,
    SkipEmptyName,
    Success,
    Error(String),
}

impl Clone for RenameStatus {
    fn clone(&self) -> (r: Self)
        ensures
            r == *self,
    {
        match self {
            RenameStatus::Pending => RenameStatus::Pending,
            RenameStatus::SkipExists => RenameStatus::SkipExists,
            RenameStatus::SkipCollision => RenameStatus::SkipCollision,
            RenameStatus::SkipNoChange => RenameStatus::SkipNoChange,
            RenameStatus::SkipEmptyName => RenameStatus::SkipEmptyName,
            RenameStatus::Success => RenameStatus::Success,
            RenameStatus::Error(m) => RenameStatus::Error(m.clone()),
        }
    }
}

/// Whether a status is one of the four skip reasons.
pub open spec fn is_skip(s: RenameStatus) -> bool {
    ||| s is SkipExists
    ||| s is SkipCollision
    ||| s is SkipNoChange
    ||| s is SkipEmptyName
}

/// One file operation in a rename plan.
pub struct RenameOp {
    pub from: String,
    pub to: String,
    pub status: RenameStatus,
}

impl Clone for RenameOp {
    fn clone(&self) -> (r: Self)
        ensures
            r == *self,
    {
        RenameOp { from: self.from.clone(), to: self.to.clone(), status: self.status.clone() }
    }
}

/// Aggregate result after executing a plan.
pub struct FinalStats {
    pub renamed: usize,
    pub skipped: usize,
    pub errors: usize,
    pub duration: std::time::Duration,
}

// ---------------------------------------------------------------------------
// Cleaning a stem
// ---------------------------------------------------------------------------

/// The base of the new name for a file whose stem is `stem`: the literal
/// prefix and suffix stripped, then quality/language tags stripped from the
/// end, underscores turned into spaces, white space collapsed to single
/// spaces, and dashes and spaces trimmed off both ends.
pub open spec fn clean_base(stem: Seq<char>, prefix: Seq<char>, suffix: Seq<char>) -> Seq<char> {
    let stripped = strip_tags_spec(strip_suffix(strip_prefix(stem, prefix), suffix));
    let spaced = underscores_to_spaces(stripped);
    trim_by(join_with(words(spaced), seq![' ']), |c: char| is_dash_or_space(c))
}

/// The base of the new name for the stem `stem`.
pub fn clean_base_chars(stem: &Vec<char>, prefix: &Vec<char>, suffix: &Vec<char>) -> (r: Vec<
    char,
>)
    ensures
        r@ == clean_base(stem@, prefix@, suffix@),
{
    let a = without_prefix(stem, prefix);
    let b = without_suffix(&a, suffix);
    let c = strip_tag_chars(&b);
    let d = replace_underscores(&c);
    let ps = split_chars(&d, SplitSet::WhiteSpace);
    let ws = non_empty(&ps);
    proof {
        assert(split_pred(SplitSet::WhiteSpace) == (|c: char| is_white_space(c)));
        assert(texts(ws@) == words(d@));
    }
    let space = vec![' '];
    assert(space@ =~= seq![' ']);
    let e = join_chars(&ws, &space);
    let r = trim_chars(&e, TrimSet::DashOrSpace);
    proof {
        assert(trim_pred(TrimSet::DashOrSpace) == (|c: char| is_dash_or_space(c)));
    }
    r
}

/// Separators normalized: underscores turned into spaces, white space
/// collapsed to single spaces between words, and dashes and spaces trimmed
/// off both ends.
pub open spec fn normalize_separators(x: Seq<char>) -> Seq<char> {
    trim_by(
        join_with(words(x.map_values(|c: char| if c == '_' { ' ' } else { c })), seq![' ']),
        |c: char| c == '-' || c == ' ',
    )
}

/// The pipeline strips the suffix before the tags: when the stem, once the
/// prefix is off, is some text `c` that ends with no tag, then a run of tag
/// patterns, then the (non-empty) suffix, the base is `c` with its
/// separators normalized.
pub proof fn lemma_suffix_is_stripped_before_tags(
    stem: Seq<char>,
    prefix: Seq<char>,
    suffix: Seq<char>,
    c: Seq<char>,
    ks: Seq<int>,
)
    requires
        suffix.len() > 0,
        patterns_valid(ks),
        !ends_with_tag(c),
        strip_prefix(stem, prefix) == c + pattern_run(ks) + suffix,
    ensures
        clean_base(stem, prefix, suffix) == normalize_separators(c),
{
    let a = strip_prefix(stem, prefix);
    let cr = c + pattern_run(ks);
    assert(a.skip(a.len() - suffix.len()) =~= suffix);
    assert(has_suffix(a, suffix));
    assert(strip_suffix(a, suffix) =~= cr);
    lemma_strip_tag_run(c, ks);
    lemma_strip_tags_keeps_untagged(c);
    assert(strip_tags_spec(cr) == c);
    let u1 = underscores_to_spaces(c);
    let u2 = c.map_values(|ch: char| if ch == '_' { ' ' } else { ch });
    assert(u1 =~= u2);
    let f1 = |ch: char| is_dash_or_space(ch);
    let f2 = |ch: char| ch == '-' || ch == ' ';
    assert(f1 =~= f2);
}

// ---------------------------------------------------------------------------
// New names
// ---------------------------------------------------------------------------

/// `Title - Base.ext`.
pub open spec fn target_name(title: Seq<char>, base: Seq<char>, ext: Seq<char>) -> Seq<char> {
    title + seq![' ', '-', ' '] + base + seq!['.'] + ext
}

/// `Title - Base (n).ext`.
pub open spec fn numbered_name(title: Seq<char>, base: Seq<char>, n: nat, ext: Seq<char>) -> Seq<
    char,
> {
    title + seq![' ', '-', ' '] + base + seq![' ', '('] + decimal(n) + seq![')', '.'] + ext
}

fn target_name_chars(title: &Vec<char>, base: &Vec<char>, ext: &Vec<char>) -> (r: Vec<char>)
    ensures
        r@ == target_name(title@, base@, ext@),
{
    let dash = vec![' ', '-', ' '];
    let dot = vec!['.'];
    assert(dash@ =~= seq![' ', '-', ' ']);
    assert(dot@ =~= seq!['.']);
    let r = concat(title, &dash);
    let r = concat(&r, base);
    let r = concat(&r, &dot);
    concat(&r, ext)
}

fn numbered_name_chars(title: &Vec<char>, base: &Vec<char>, n: u32, ext: &Vec<char>) -> (r: Vec<
    char,
>)
    ensures
        r@ == numbered_name(title@, base@, n as nat, ext@),
{
    let dash = vec![' ', '-', ' '];
    let open = vec![' ', '('];
    let close = vec![')', '.'];
    assert(dash@ =~= seq![' ', '-', ' ']);
    assert(open@ =~= seq![' ', '(']);
    assert(close@ =~= seq![')', '.']);
    let r = concat(title, &dash);
    let r = concat(&r, base);
    let r = concat(&r, &open);
    let r = concat(&r, &decimal_chars(n as u64));
    let r = concat(&r, &close);
    concat(&r, ext)
}

// ---------------------------------------------------------------------------
// Planning, as a function of the names
// ---------------------------------------------------------------------------

/// What the planner remembers between files: the lowercased names already
/// claimed in this batch, and for each base name the number at which the
/// next auto-number search starts (the last entry for a name counts).
#[verifier::ext_equal]
pub struct PlanState {
    pub used: Seq<Seq<char>>,
    pub next: Seq<(Seq<char>, nat)>,
}

/// The planner's state before the first file.
pub open spec fn initial_state() -> PlanState {
    PlanState { used: Seq::empty(), next: Seq::empty() }
}

/// The outcome for one file, as names.
pub enum Decision {
    /// Rename to this name.
    Rename(Seq<char>),
    /// The name is taken on disk; skip.
    Exists(Seq<char>),
    /// The name is taken by another file of this batch (or no numbered name
    /// was free); skip.
    Collision(Seq<char>),
    /// The file already has its clean name; skip.
    NoChange,
    /// Nothing is left of the name after cleaning; skip.
    EmptyName,
}

/// The names present on disk in the files' directory, and whether the file
/// system compares names ignoring case (as it does on macOS and Windows).
#[verifier::ext_equal]
pub struct DiskView {
    pub names: Seq<Seq<char>>,
    pub fold_case: bool,
}

/// The text under which the file system compares `name`: the name itself,
/// or its lowercase form where case is ignored.
pub open spec fn disk_key(name: Seq<char>, fold_case: bool) -> Seq<char> {
    if fold_case {
        lowercase(name)
    } else {
        name
    }
}

/// The keys of the names on disk.
pub open spec fn disk_keys(d: DiskView) -> Seq<Seq<char>> {
    d.names.map_values(|n: Seq<char>| disk_key(n, d.fold_case))
}

/// Whether the file system finds `name` among the names on disk.
pub open spec fn on_disk(name: Seq<char>, d: DiskView) -> bool {
    disk_keys(d).contains(disk_key(name, d.fold_case))
}

/// The names present on disk in a directory, and whether its file system
/// compares names ignoring case.
pub struct DiskNames {
    pub names: Vec<String>,
    pub fold_case: bool,
}

impl View for DiskNames {
    type V = DiskView;

    open spec fn view(&self) -> DiskView {
        DiskView { names: strings(self.names@), fold_case: self.fold_case }
    }
}

/// Whether `name` is taken: present on disk (as the file system compares
/// names), or claimed (ignoring case) by an earlier file of the batch.
pub open spec fn taken(name: Seq<char>, st: PlanState, disk: DiskView) -> bool {
    on_disk(name, disk) || st.used.contains(lowercase(name))
}

/// The auto-number recorded last for `key`.
pub open spec fn last_num(next: Seq<(Seq<char>, nat)>, key: Seq<char>) -> Option<nat>
    decreases next.len(),
{
    if next.len() == 0 {
        None
    } else if next.last().0 == key {
        Some(next.last().1)
    } else {
        last_num(next.drop_last(), key)
    }
}

/// The first `n` in `from..=9999` for which the numbered name is free.
pub open spec fn first_free(
    title: Seq<char>,
    base: Seq<char>,
    ext: Seq<char>,
    from: int,
    st: PlanState,
    disk: DiskView,
) -> Option<nat>
    decreases 10000 - from,
{
    if from < 0 || from > 9999 {
        None
    } else if !taken(numbered_name(title, base, from as nat, ext), st, disk) {
        Some(from as nat)
    } else {
        first_free(title, base, ext, from + 1, st, disk)
    }
}

/// The decision for one file with stem, extension and file name `parts`,
/// and the planner state after it.
pub open spec fn decide(
    parts: (Seq<char>, Seq<char>, Seq<char>),
    cfg: ConfigView,
    st: PlanState,
    disk: DiskView,
) -> (Decision, PlanState) {
    let stem = parts.0;
    let ext = parts.1;
    let orig = parts.2;
    let base = clean_base(stem, cfg.prefix, cfg.suffix);
    let title = cfg.title;
    if base.len() == 0 {
        (Decision::EmptyName, st)
    } else {
        let bn = target_name(title, base, ext);
        if bn == orig {
            (Decision::NoChange, st)
        } else if !taken(bn, st, disk) {
            (Decision::Rename(bn), PlanState { used: st.used.push(lowercase(bn)), next: st.next })
        } else if cfg.collision_auto_num {
            let start: int = match last_num(st.next, bn) {
                Some(k) => k as int,
                None => 2,
            };
            match first_free(title, base, ext, start, st, disk) {
                Some(n) => {
                    let nn = numbered_name(title, base, n, ext);
                    (
                        Decision::Rename(nn),
                        PlanState { used: st.used.push(lowercase(nn)), next: st.next.push((bn, n + 1)) },
                    )
                },
                None => (Decision::Collision(bn), st),
            }
        } else if on_disk(bn, disk) {
            (Decision::Exists(bn), st)
        } else {
            (Decision::Collision(bn), st)
        }
    }
}

/// The decisions for the files with the given name parts, in order, and the
/// planner state after the last.
pub open spec fn plan_run(
    parts: Seq<(Seq<char>, Seq<char>, Seq<char>)>,
    cfg: ConfigView,
    disk: DiskView,
) -> (Seq<Decision>, PlanState)
    decreases parts.len(),
{
    if parts.len() == 0 {
        (Seq::empty(), initial_state())
    } else {
        let prev = plan_run(parts.drop_last(), cfg, disk);
        let step = decide(parts.last(), cfg, prev.1, disk);
        (prev.0.push(step.0), step.1)
    }
}

/// There is one decision per file.
pub proof fn lemma_plan_run_len(
    parts: Seq<(Seq<char>, Seq<char>, Seq<char>)>,
    cfg: ConfigView,
    disk: DiskView,
)
    ensures
        plan_run(parts, cfg, disk).0.len() == parts.len(),
    decreases parts.len(),
{
    if parts.len() > 0 {
        lemma_plan_run_len(parts.drop_last(), cfg, disk);
    }
}

/// The decisions for the files with the given name parts.
pub open spec fn plan_decisions(
    parts: Seq<(Seq<char>, Seq<char>, Seq<char>)>,
    cfg: ConfigView,
    disk: DiskView,
) -> Seq<Decision> {
    plan_run(parts, cfg, disk).0
}

/// The stem, extension and file name of one file.
pub struct NameParts {
    pub stem: String,
    pub ext: String,
    pub file_name: String,
}

/// The texts of a list of name parts.
pub open spec fn parts_view(v: Seq<NameParts>) -> Seq<(Seq<char>, Seq<char>, Seq<char>)> {
    v.map_values(|p: NameParts| (p.stem@, p.ext@, p.file_name@))
}

/// The planned outcome for one file: its status, and the new file name
/// where one was computed (`None` when the file keeps its name).
pub struct Target {
    pub status: RenameStatus,
    pub name: Option<String>,
}

/// Whether `t` is the decision `d`.
pub open spec fn target_is(t: Target, d: Decision) -> bool {
    match d {
        Decision::Rename(n) => t.status is Pending && (t.name matches Some(s) && s@ == n),
        Decision::Exists(n) => t.status is SkipExists && (t.name matches Some(s) && s@ == n),
        Decision::Collision(n) => t.status is SkipCollision && (t.name matches Some(s) && s@
            == n),
        Decision::NoChange => t.status is SkipNoChange && t.name is None,
        Decision::EmptyName => t.status is SkipEmptyName && t.name is None,
    }
}

fn lower_chars(v: &Vec<char>) -> (r: Vec<char>)
    ensures
        r@ == lowercase(v@),
{
    let s = string_from(v);
    let l = to_lowercase(s.as_str());
    chars_of(l.as_str())
}

fn contains_text(list: &Vec<Vec<char>>, x: &Vec<char>) -> (b: bool)
    ensures
        b == texts(list@).contains(x@),
{
    let mut i: usize = 0;
    while i < list.len()
        invariant
            i <= list.len(),
            forall|j: int| 0 <= j < i ==> list@[j]@ != x@,
        decreases list.len() - i,
    {
        if same_chars(&list[i], x) {
            assert(texts(list@)[i as int] == x@);
            return true;
        }
        i = i + 1;
    }
    assert forall|j: int| 0 <= j < texts(list@).len() implies texts(list@)[j] != x@ by {
        assert(texts(list@)[j] == list@[j]@);
    }
    false
}

/// The texts and numbers of the auto-number table.
pub open spec fn nums_view(v: Seq<(Vec<char>, u32)>) -> Seq<(Seq<char>, nat)> {
    v.map_values(|p: (Vec<char>, u32)| (p.0@, p.1 as nat))
}

fn lookup_num(next: &Vec<(Vec<char>, u32)>, key: &Vec<char>) -> (r: Option<u32>)
    ensures
        r matches Some(n) ==> last_num(nums_view(next@), key@) == Some(n as nat),
        r is None ==> last_num(nums_view(next@), key@) is None,
{
    let mut i: usize = next.len();
    assert(next@.take(i as int) =~= next@);
    while i > 0
        invariant
            i <= next.len(),
            last_num(nums_view(next@), key@) == last_num(nums_view(next@.take(i as int)), key@),
        decreases i,
    {
        let ghost t = nums_view(next@.take(i as int));
        assert(nums_view(next@.take(i - 1)) =~= t.drop_last());
        assert(t.last() == (next@[i - 1].0@, next@[i - 1].1 as nat));
        if same_chars(&next[i - 1].0, key) {
            return Some(next[i - 1].1);
        }
        i = i - 1;
    }
    None
}

/// The planner state of the executable tables.
pub open spec fn state_view(used: Seq<Vec<char>>, next: Seq<(Vec<char>, u32)>) -> PlanState {
    PlanState { used: texts(used), next: nums_view(next) }
}

fn is_on_disk(name: &Vec<char>, disk: &Vec<Vec<char>>, fold_case: bool, Ghost(dv): Ghost<DiskView>) -> (b: bool)
    requires
        texts(disk@) == disk_keys(dv),
        fold_case == dv.fold_case,
    ensures
        b == on_disk(name@, dv),
{
    if fold_case {
        let low = lower_chars(name);
        contains_text(disk, &low)
    } else {
        contains_text(disk, name)
    }
}

fn is_taken(
    name: &Vec<char>,
    used: &Vec<Vec<char>>,
    next: &Vec<(Vec<char>, u32)>,
    disk: &Vec<Vec<char>>,
    fold_case: bool,
    Ghost(dv): Ghost<DiskView>,
) -> (b: bool)
    requires
        texts(disk@) == disk_keys(dv),
        fold_case == dv.fold_case,
    ensures
        b == taken(name@, state_view(used@, next@), dv),
{
    if is_on_disk(name, disk, fold_case, Ghost(dv)) {
        true
    } else {
        let low = lower_chars(name);
        contains_text(used, &low)
    }
}

fn find_free(
    title: &Vec<char>,
    base: &Vec<char>,
    ext: &Vec<char>,
    start: u32,
    used: &Vec<Vec<char>>,
    next: &Vec<(Vec<char>, u32)>,
    disk: &Vec<Vec<char>>,
    fold_case: bool,
    Ghost(dv): Ghost<DiskView>,
) -> (r: Option<u32>)
    requires
        texts(disk@) == disk_keys(dv),
        fold_case == dv.fold_case,
    ensures
        r matches Some(n) ==> first_free(
            title@,
            base@,
            ext@,
            start as int,
            state_view(used@, next@),
            dv,
        ) == Some(n as nat) && n <= 9999,
        r is None ==> first_free(
            title@,
            base@,
            ext@,
            start as int,
            state_view(used@, next@),
            dv,
        ) is None,
{
    let ghost st = state_view(used@, next@);
    let mut n: u32 = start;
    while n <= 9999
        invariant
            start <= n <= 10000 || (n == start && start > 10000),
            st == state_view(used@, next@),
            texts(disk@) == disk_keys(dv),
            fold_case == dv.fold_case,
            first_free(title@, base@, ext@, start as int, st, dv) == first_free(
                title@,
                base@,
                ext@,
                n as int,
                st,
                dv,
            ),
        decreases 10000 - n,
    {
        let cand = numbered_name_chars(title, base, n, ext);
        if !is_taken(&cand, used, next, disk, fold_case, Ghost(dv)) {
            return Some(n);
        }
        n = n + 1;
    }
    None
}

/// Decide one file; updates the tables as the planner state.
fn decide_one(
    parts: &NameParts,
    title: &Vec<char>,
    prefix: &Vec<char>,
    suffix: &Vec<char>,
    cfg: &RenameConfig,
    used: &mut Vec<Vec<char>>,
    next: &mut Vec<(Vec<char>, u32)>,
    disk: &Vec<Vec<char>>,
    fold_case: bool,
    Ghost(dv): Ghost<DiskView>,
) -> (t: Target)
    requires
        texts(disk@) == disk_keys(dv),
        fold_case == dv.fold_case,
        title@ == cfg.title@,
        prefix@ == cfg.prefix@,
        suffix@ == cfg.suffix@,
    ensures
        ({
            let d = decide(
                (parts.stem@, parts.ext@, parts.file_name@),
                cfg@,
                state_view(old(used)@, old(next)@),
                dv,
            );
            target_is(t, d.0) && state_view(final(used)@, final(next)@) == d.1
        }),
{
    let ghost st = state_view(used@, next@);
    let stem = chars_of(parts.stem.as_str());
    let ext = chars_of(parts.ext.as_str());
    let orig = chars_of(parts.file_name.as_str());
    let base = clean_base_chars(&stem, prefix, suffix);
    if base.len() == 0 {
        return Target { status: RenameStatus::SkipEmptyName, name: None };
    }
    let bn = target_name_chars(title, &base, &ext);
    if same_chars(&bn, &orig) {
        return Target { status: RenameStatus::SkipNoChange, name: None };
    }
    if !is_taken(&bn, used, next, disk, fold_case, Ghost(dv)) {
        let low = lower_chars(&bn);
        used.push(low);
        assert(state_view(used@, next@).used =~= st.used.push(lowercase(bn@)));
        return Target { status: RenameStatus::Pending, name: Some(string_from(&bn)) };
    }
    if cfg.collision_auto_num {
        let start: u32 = match lookup_num(next, &bn) {
            Some(k) => k,
            None => 2,
        };
        match find_free(title, &base, &ext, start, used, next, disk, fold_case, Ghost(dv)) {
            Some(n) => {
                let nn = numbered_name_chars(title, &base, n, &ext);
                let low = lower_chars(&nn);
                used.push(low);
                next.push((bn, n + 1));
                assert(state_view(used@, next@).used =~= st.used.push(lowercase(nn@)));
                assert(state_view(used@, next@).next =~= st.next.push((bn@, (n + 1) as nat)));
                Target { status: RenameStatus::Pending, name: Some(string_from(&nn)) }
            },
            None => Target { status: RenameStatus::SkipCollision, name: Some(string_from(&bn)) },
        }
    } else if is_on_disk(&bn, disk, fold_case, Ghost(dv)) {
        Target { status: RenameStatus::SkipExists, name: Some(string_from(&bn)) }
    } else {
        Target { status: RenameStatus::SkipCollision, name: Some(string_from(&bn)) }
    }
}

/// The keys under which the file system compares the names on disk.
fn disk_keys_of(d: &DiskNames) -> (r: Vec<Vec<char>>)
    ensures
        texts(r@) == disk_keys(d@),
{
    let mut r: Vec<Vec<char>> = Vec::new();
    let mut i: usize = 0;
    let ghost dv = d@;
    while i < d.names.len()
        invariant
            i <= d.names.len(),
            dv == d@,
            texts(r@) == disk_keys(dv).take(i as int),
        decreases d.names.len() - i,
    {
        let ghost old_r = texts(r@);
        let c = chars_of(d.names[i].as_str());
        let k = if d.fold_case {
            lower_chars(&c)
        } else {
            c
        };
        r.push(k);
        assert(texts(r@) =~= old_r.push(disk_key(d.names@[i as int]@, d.fold_case)));
        assert(disk_keys(dv).take(i + 1) =~= disk_keys(dv).take(i as int).push(disk_keys(dv)[i as int]));
        i = i + 1;
    }
    assert(disk_keys(dv).take(d.names.len() as int) =~= disk_keys(dv));
    r
}

/// The planned outcome for each file, given each file's stem, extension and
/// file name, and the names present on disk in the files' directory (compared
/// as its file system compares them).
pub fn plan_targets(parts: &Vec<NameParts>, config: &RenameConfig, on_disk: &DiskNames) -> (r:
    Vec<Target>)
    ensures
        r.len() == parts.len(),
        forall|i: int|
            0 <= i < r.len() ==> target_is(
                #[trigger] r[i],
                plan_decisions(parts_view(parts@), config@, on_disk@)[i],
            ),
{
    let title = chars_of(config.title.as_str());
    let prefix = chars_of(config.prefix.as_str());
    let suffix = chars_of(config.suffix.as_str());
    let disk = disk_keys_of(on_disk);
    let ghost pv = parts_view(parts@);
    let ghost dv = on_disk@;
    let mut used: Vec<Vec<char>> = Vec::new();
    let mut next: Vec<(Vec<char>, u32)> = Vec::new();
    let mut r: Vec<Target> = Vec::new();
    let mut i: usize = 0;
    assert(state_view(used@, next@) =~= initial_state());
    assert(pv.take(0) =~= Seq::<(Seq<char>, Seq<char>, Seq<char>)>::empty());
    while i < parts.len()
        invariant
            i <= parts.len(),
            r.len() == i,
            pv == parts_view(parts@),
            dv == on_disk@,
            texts(disk@) == disk_keys(dv),
            on_disk.fold_case == dv.fold_case,
            title@ == config.title@,
            prefix@ == config.prefix@,
            suffix@ == config.suffix@,
            state_view(used@, next@) == plan_run(pv.take(i as int), config@, dv).1,
            forall|j: int|
                0 <= j < i ==> target_is(
                    #[trigger] r@[j],
                    plan_run(pv.take(i as int), config@, dv).0[j],
                ),
        decreases parts.len() - i,
    {
        let ghost prev = plan_run(pv.take(i as int), config@, dv);
        proof {
            lemma_plan_run_len(pv.take(i as int), config@, dv);
        }
        let t = decide_one(&parts[i], &title, &prefix, &suffix, config, &mut used, &mut next, &disk, on_disk.fold_case, Ghost(dv));
        r.push(t);
        proof {
            assert(pv.take(i + 1).drop_last() =~= pv.take(i as int));
            assert(pv.take(i + 1).last() == pv[i as int]);
            let now = plan_run(pv.take(i + 1), config@, dv);
            assert(now.0 == prev.0.push(decide(pv[i as int], config@, prev.1, dv).0));
            assert forall|j: int| 0 <= j < i + 1 implies target_is(#[trigger] r@[j], now.0[j]) by {
                if j < i {
                    assert(now.0[j] == prev.0[j]);
                }
            }
        }
        i = i + 1;
    }
    assert(pv.take(parts.len() as int) =~= pv);
    proof {
        lemma_plan_run_len(pv, config@, dv);
    }
    r
}

// ---------------------------------------------------------------------------
// Planning on paths
// ---------------------------------------------------------------------------

/// The stem, extension and file name that `std::path` finds in a path
/// (each empty when absent).
pub open spec fn parts_of_path(p: Seq<char>) -> (Seq<char>, Seq<char>, Seq<char>) {
    (or_empty(path_file_stem(p)), or_empty(path_extension(p)), or_empty(path_file_name(p)))
}

/// The name parts of each of the files.
pub open spec fn file_parts(files: Seq<Seq<char>>) -> Seq<(Seq<char>, Seq<char>, Seq<char>)> {
    files.map_values(|f: Seq<char>| parts_of_path(f))
}

/// Whether `op` renames (or skips) the file `from` as the decision `d` says.
pub open spec fn op_is(op: RenameOp, from: Seq<char>, d: Decision) -> bool {
    &&& op.from@ == from
    &&& match d {
        Decision::Rename(n) => op.status is Pending && op.to@ == path_with_file_name(from, n),
        Decision::Exists(n) => op.status is SkipExists && op.to@ == path_with_file_name(from, n),
        Decision::Collision(n) => op.status is SkipCollision && op.to@ == path_with_file_name(
            from,
            n,
        ),
        Decision::NoChange => op.status is SkipNoChange && op.to@ == from,
        Decision::EmptyName => op.status is SkipEmptyName && op.to@ == from,
    }
}

fn name_parts(f: &String) -> (p: NameParts)
    ensures
        (p.stem@, p.ext@, p.file_name@) == parts_of_path(f@),
{
    NameParts {
        stem: unwrap_or_empty(file_stem(f.as_str())),
        ext: unwrap_or_empty(extension(f.as_str())),
        file_name: unwrap_or_empty(file_name(f.as_str())),
    }
}

/// Whether `to`, the target of the file `from`, is named `n` and stays in
/// the file's folder (as far as `n` is one plain path component and `from`
/// has a file name).
pub open spec fn target_named(from: Seq<char>, to: Seq<char>, n: Seq<char>) -> bool {
    &&& plain_name(n) ==> path_file_name(to) == Some(n)
    &&& plain_name(n) && path_file_name(from) is Some ==> path_parent(to) == path_parent(from)
}

/// Generate a rename plan: for each file, determine the new name and check
/// for collisions, both with `on_disk` (the names present in the files'
/// directory, compared as its file system compares them) and, ignoring
/// case, with the names claimed earlier in the batch. The target path is set for every op; nothing is written to disk.
pub fn generate_plan(files: &Vec<String>, config: &RenameConfig, on_disk: &DiskNames) -> (ops:
    Vec<RenameOp>)
    ensures
        ops.len() == files.len(),
        forall|i: int|
            0 <= i < ops.len() ==> op_is(
                #[trigger] ops[i],
                files[i]@,
                plan_decisions(file_parts(strings(files@)), config@, on_disk@)[i],
            ),
        forall|i: int|
            0 <= i < ops.len() ==> (plan_decisions(file_parts(strings(files@)), config@, on_disk@)[i]
                matches Decision::Rename(n) ==> target_named(files[i]@, #[trigger] ops[i].to@, n)),
        forall|i: int|
            0 <= i < ops.len() ==> (plan_decisions(file_parts(strings(files@)), config@, on_disk@)[i]
                matches Decision::Exists(n) ==> target_named(files[i]@, #[trigger] ops[i].to@, n)),
        forall|i: int|
            0 <= i < ops.len() ==> (plan_decisions(file_parts(strings(files@)), config@, on_disk@)[i]
                matches Decision::Collision(n) ==> target_named(files[i]@, #[trigger] ops[i].to@, n)),
{
    let mut parts: Vec<NameParts> = Vec::new();
    let mut i: usize = 0;
    while i < files.len()
        invariant
            i <= files.len(),
            parts_view(parts@) == file_parts(strings(files@.take(i as int))),
        decreases files.len() - i,
    {
        let ghost old_p = parts_view(parts@);
        let p = name_parts(&files[i]);
        parts.push(p);
        assert(parts_view(parts@) =~= old_p.push((p.stem@, p.ext@, p.file_name@)));
        assert(file_parts(strings(files@.take(i + 1))) =~= file_parts(strings(files@.take(i as int))).push(
            parts_of_path(files@[i as int]@),
        ));
        i = i + 1;
    }
    assert(files@.take(files.len() as int) =~= files@);
    let targets = plan_targets(&parts, config, on_disk);
    let ghost ds = plan_decisions(file_parts(strings(files@)), config@, on_disk@);
    proof {
        lemma_plan_run_len(file_parts(strings(files@)), config@, on_disk@);
    }
    let mut ops: Vec<RenameOp> = Vec::new();
    let mut k: usize = 0;
    while k < files.len()
        invariant
            k <= files.len() == targets.len(),
            ops.len() == k,
            parts_view(parts@) == file_parts(strings(files@)),
            ds == plan_decisions(file_parts(strings(files@)), config@, on_disk@),
            forall|j: int| 0 <= j < targets.len() ==> target_is(#[trigger] targets[j], ds[j]),
            forall|j: int| 0 <= j < k ==> op_is(#[trigger] ops[j], files[j]@, ds[j]),
            forall|j: int|
                0 <= j < k ==> (ds[j] matches Decision::Rename(n) ==> target_named(files[j]@, #[trigger] ops[j].to@, n)),
            forall|j: int|
                0 <= j < k ==> (ds[j] matches Decision::Exists(n) ==> target_named(files[j]@, #[trigger] ops[j].to@, n)),
            forall|j: int|
                0 <= j < k ==> (ds[j] matches Decision::Collision(n) ==> target_named(files[j]@, #[trigger] ops[j].to@, n)),
        decreases files.len() - k,
    {
        let from = files[k].clone();
        let to = match &targets[k].name {
            Some(n) => with_file_name(from.as_str(), n.as_str()),
            None => from.clone(),
        };
        let status = targets[k].status.clone();
        assert(target_is(targets[k as int], ds[k as int]));
        ops.push(RenameOp { from, to, status });
        k = k + 1;
    }
    ops
}


// ---------------------------------------------------------------------------
// Laws of the plan
// ---------------------------------------------------------------------------

/// The lowercased names that the decisions rename to, in order.
pub open spec fn claimed(ds: Seq<Decision>) -> Seq<Seq<char>>
    decreases ds.len(),
{
    if ds.len() == 0 {
        Seq::empty()
    } else {
        match ds.last() {
            Decision::Rename(n) => claimed(ds.drop_last()).push(lowercase(n)),
            _ => claimed(ds.drop_last()),
        }
    }
}

proof fn lemma_first_free_sound(
    title: Seq<char>,
    base: Seq<char>,
    ext: Seq<char>,
    from: int,
    st: PlanState,
    disk: DiskView,
)
    ensures
        first_free(title, base, ext, from, st, disk) matches Some(m) ==> from <= m <= 9999
            && !taken(numbered_name(title, base, m, ext), st, disk),
    decreases 10000 - from,
{
    if 0 <= from <= 9999 && taken(numbered_name(title, base, from as nat, ext), st, disk) {
        lemma_first_free_sound(title, base, ext, from + 1, st, disk);
    }
}

proof fn lemma_decide_claims(
    parts: (Seq<char>, Seq<char>, Seq<char>),
    cfg: ConfigView,
    st: PlanState,
    disk: DiskView,
)
    ensures
        ({
            let (d, st2) = decide(parts, cfg, st, disk);
            match d {
                Decision::Rename(n) => !on_disk(n, disk) && !st.used.contains(lowercase(n))
                    && st2.used == st.used.push(lowercase(n)),
                _ => st2.used == st.used,
            }
        }),
{
    let base = clean_base(parts.0, cfg.prefix, cfg.suffix);
    let bn = target_name(cfg.title, base, parts.1);
    let start: int = match last_num(st.next, bn) {
        Some(k) => k as int,
        None => 2,
    };
    lemma_first_free_sound(cfg.title, base, parts.1, start, st, disk);
}

proof fn lemma_plan_run_claims(
    parts: Seq<(Seq<char>, Seq<char>, Seq<char>)>,
    cfg: ConfigView,
    disk: DiskView,
)
    ensures
        plan_run(parts, cfg, disk).1.used == claimed(plan_run(parts, cfg, disk).0),
        plan_run(parts, cfg, disk).0.len() == parts.len(),
    decreases parts.len(),
{
    if parts.len() > 0 {
        lemma_plan_run_claims(parts.drop_last(), cfg, disk);
        let prev = plan_run(parts.drop_last(), cfg, disk);
        lemma_decide_claims(parts.last(), cfg, prev.1, disk);
        let ds = plan_run(parts, cfg, disk).0;
        assert(ds.drop_last() =~= prev.0);
    }
}

/// The decision for file `i` is made in the state left by the files before
/// it.
pub proof fn lemma_plan_step(
    parts: Seq<(Seq<char>, Seq<char>, Seq<char>)>,
    cfg: ConfigView,
    disk: DiskView,
    i: int,
)
    requires
        0 <= i < parts.len(),
    ensures
        plan_decisions(parts, cfg, disk)[i] == decide(
            parts[i],
            cfg,
            plan_run(parts.take(i), cfg, disk).1,
            disk,
        ).0,
        plan_decisions(parts.take(i), cfg, disk) == plan_decisions(parts, cfg, disk).take(i),
    decreases parts.len(),
{
    lemma_plan_run_len(parts, cfg, disk);
    lemma_plan_run_len(parts.take(i), cfg, disk);
    if i == parts.len() - 1 {
        assert(parts.take(i) =~= parts.drop_last());
        assert(plan_decisions(parts, cfg, disk).take(i) =~= plan_decisions(parts.drop_last(), cfg, disk));
    } else {
        lemma_plan_step(parts.drop_last(), cfg, disk, i);
        assert(parts.drop_last().take(i) =~= parts.take(i));
        assert(parts.drop_last()[i] == parts[i]);
        lemma_plan_run_len(parts.drop_last(), cfg, disk);
        assert(plan_decisions(parts, cfg, disk).take(i) =~= plan_decisions(parts.drop_last(), cfg, disk).take(i));
    }
}

proof fn lemma_claimed_contains(ds: Seq<Decision>, i: int)
    requires
        0 <= i < ds.len(),
        ds[i] is Rename,
    ensures
        claimed(ds).contains(lowercase(ds[i]->Rename_0)),
    decreases ds.len(),
{
    if i == ds.len() - 1 {
        assert(claimed(ds).last() == lowercase(ds[i]->Rename_0));
    } else {
        lemma_claimed_contains(ds.drop_last(), i);
        let c = claimed(ds.drop_last());
        let k = choose|k: int| 0 <= k < c.len() && c[k] == lowercase(ds[i]->Rename_0);
        match ds.last() {
            Decision::Rename(n) => {
                assert(claimed(ds)[k] == c[k]);
            },
            _ => {},
        }
    }
}

/// Collision detection ignores case: no two files of a plan are renamed to
/// names that are equal once lowercased.
pub proof fn lemma_plan_names_distinct(
    parts: Seq<(Seq<char>, Seq<char>, Seq<char>)>,
    cfg: ConfigView,
    disk: DiskView,
    i: int,
    j: int,
)
    requires
        0 <= i < j < parts.len(),
        plan_decisions(parts, cfg, disk)[i] is Rename,
        plan_decisions(parts, cfg, disk)[j] is Rename,
    ensures
        lowercase(plan_decisions(parts, cfg, disk)[i]->Rename_0) != lowercase(
            plan_decisions(parts, cfg, disk)[j]->Rename_0,
        ),
{
    let ds = plan_decisions(parts, cfg, disk);
    lemma_plan_run_len(parts, cfg, disk);
    lemma_plan_step(parts, cfg, disk, j);
    let before = parts.take(j);
    lemma_plan_run_claims(before, cfg, disk);
    let st = plan_run(before, cfg, disk).1;
    lemma_decide_claims(parts[j], cfg, st, disk);
    assert(plan_decisions(before, cfg, disk)[i] == ds[i]);
    lemma_claimed_contains(plan_decisions(before, cfg, disk), i);
}

/// No file of a plan is renamed to a name already present on disk.
pub proof fn lemma_plan_names_free_on_disk(
    parts: Seq<(Seq<char>, Seq<char>, Seq<char>)>,
    cfg: ConfigView,
    disk: DiskView,
    i: int,
)
    requires
        0 <= i < parts.len(),
        plan_decisions(parts, cfg, disk)[i] is Rename,
    ensures
        !on_disk(plan_decisions(parts, cfg, disk)[i]->Rename_0, disk),
{
    lemma_plan_step(parts, cfg, disk, i);
    lemma_decide_claims(parts[i], cfg, plan_run(parts.take(i), cfg, disk).1, disk);
}

/// Already-correct files are skipped: a file whose name already is
/// `Title - Base.ext` for its own cleaned base is left unchanged, and so is
/// a file whose name cleans to nothing; no other file is left unchanged.
pub proof fn lemma_plan_keeps_clean_names(
    parts: Seq<(Seq<char>, Seq<char>, Seq<char>)>,
    cfg: ConfigView,
    disk: DiskView,
    i: int,
)
    requires
        0 <= i < parts.len(),
    ensures
        ({
            let base = clean_base(parts[i].0, cfg.prefix, cfg.suffix);
            let d = plan_decisions(parts, cfg, disk)[i];
            &&& (d is EmptyName <==> base.len() == 0)
            &&& (d is NoChange <==> base.len() > 0 && target_name(cfg.title, base, parts[i].1)
                == parts[i].2)
        }),
{
    lemma_plan_step(parts, cfg, disk, i);
}


// ---------------------------------------------------------------------------
// Laws of the cleaned base
// ---------------------------------------------------------------------------

/// A character that may stand inside a word of a cleaned name.
pub open spec fn is_name_char(c: char) -> bool {
    !is_white_space(c) && c != '_'
}

/// Whether `t` holds no underscore, and its only white space is single
/// spaces between other characters.
pub open spec fn separators_normalized(t: Seq<char>) -> bool {
    &&& forall|i: int| 0 <= i < t.len() ==> #[trigger] t[i] != '_'
    &&& forall|i: int|
        0 <= i < t.len() && is_white_space(#[trigger] t[i]) ==> t[i] == ' ' && 0 < i < t.len() - 1
            && !is_white_space(t[i - 1]) && !is_white_space(t[i + 1])
}

proof fn lemma_join_words(ws: Seq<Seq<char>>)
    requires
        forall|i: int| 0 <= i < ws.len() ==> (#[trigger] ws[i]).len() > 0,
        forall|i: int, j: int|
            0 <= i < ws.len() && 0 <= j < ws[i].len() ==> is_name_char(#[trigger] ws[i][j]),
    ensures
        ({
            let t = join_with(ws, seq![' ']);
            &&& separators_normalized(t)
            &&& t.len() > 0 ==> is_name_char(t[0]) && is_name_char(t.last())
            &&& ws.len() > 0 ==> t.len() > 0
        }),
    decreases ws.len(),
{
    if ws.len() == 1 {
        let t = ws[0];
        assert forall|i: int| 0 <= i < t.len() implies is_name_char(#[trigger] t[i]) by {
            assert(is_name_char(ws[0][i]));
        }
    } else if ws.len() > 1 {
        let prev = ws.drop_last();
        assert forall|i: int| 0 <= i < prev.len() implies (#[trigger] prev[i]).len() > 0 by {
            assert(prev[i] == ws[i]);
        }
        assert forall|i: int, j: int|
            0 <= i < prev.len() && 0 <= j < prev[i].len() implies is_name_char(
            #[trigger] prev[i][j],
        ) by {
            assert(prev[i] == ws[i]);
        }
        lemma_join_words(prev);
        let a = join_with(prev, seq![' ']);
        let w = ws.last();
        let t = join_with(ws, seq![' ']);
        assert(t == a + seq![' '] + w);
        assert(w.len() > 0);
        assert forall|j: int| 0 <= j < w.len() implies is_name_char(#[trigger] w[j]) by {
            assert(is_name_char(ws[ws.len() - 1][j]));
        }
        let n = a.len();
        assert forall|i: int| 0 <= i < t.len() implies #[trigger] t[i] != '_' by {
            if i < n {
                assert(t[i] == a[i]);
            } else if i > n {
                assert(t[i] == w[i - n - 1]);
            }
        }
        assert forall|i: int| 0 <= i < t.len() && is_white_space(#[trigger] t[i]) implies t[i]
            == ' ' && 0 < i < t.len() - 1 && !is_white_space(t[i - 1]) && !is_white_space(
            t[i + 1],
        ) by {
            if i < n {
                assert(t[i] == a[i]);
                assert(is_white_space(a[i]));
                assert(t[i - 1] == a[i - 1]);
                assert(t[i + 1] == a[i + 1]);
            } else if i > n {
                assert(t[i] == w[i - n - 1]);
                assert(is_name_char(w[i - n - 1]));
            } else {
                assert(t[i - 1] == a[n - 1]);
                assert(t[i + 1] == w[0]);
            }
        }
        assert(t[0] == a[0]);
        assert(t.last() == w.last());
    }
}

/// Separators are normalized in the base of a new name: underscores have
/// become spaces, white space is collapsed to single spaces between words,
/// and the base neither starts nor ends with a dash or a space.
pub proof fn lemma_clean_base_normalized(stem: Seq<char>, prefix: Seq<char>, suffix: Seq<char>)
    ensures
        separators_normalized(clean_base(stem, prefix, suffix)),
        clean_base(stem, prefix, suffix).len() > 0 ==> !is_dash_or_space(
            clean_base(stem, prefix, suffix)[0],
        ) && !is_dash_or_space(clean_base(stem, prefix, suffix).last()),
{
    let stripped = strip_tags_spec(strip_suffix(strip_prefix(stem, prefix), suffix));
    let d = underscores_to_spaces(stripped);
    let wsp = |c: char| is_white_space(c);
    let no_us = |c: char| c != '_';
    assert forall|k: int| 0 <= k < d.len() implies no_us(#[trigger] d[k]) by {}
    lemma_pieces_chars(d, wsp, no_us);
    let ps = pieces(d, wsp);
    let keep = |w: Seq<char>| w.len() > 0;
    let ws = ps.filter(keep);
    assert(ws == words(d));
    assert forall|i: int| 0 <= i < ws.len() implies (#[trigger] ws[i]).len() > 0 by {
        ps.lemma_filter_pred(keep, i);
    }
    assert forall|i: int, j: int| 0 <= i < ws.len() && 0 <= j < ws[i].len() implies is_name_char(
        #[trigger] ws[i][j],
    ) by {
        assert(ws.contains(ws[i]));
        ps.lemma_filter_contains_rev(keep, ws[i]);
        let k = choose|k: int| 0 <= k < ps.len() && ps[k] == ws[i];
        assert(ps[k][j] == ws[i][j]);
    }
    lemma_join_words(ws);
    let t = join_with(ws, seq![' ']);
    let p = |c: char| is_dash_or_space(c);
    lemma_trim_shape(t, p);
    let (a, b) = choose|a: int, b: int|
        0 <= a <= b <= t.len() && #[trigger] t.subrange(a, b) == trim_by(t, p) && (a == b || (!p(
            t[a],
        ) && !p(t[b - 1])));
    let r = clean_base(stem, prefix, suffix);
    assert(r == t.subrange(a, b));
    assert forall|i: int| 0 <= i < r.len() implies #[trigger] r[i] != '_' by {
        assert(r[i] == t[a + i]);
    }
    assert forall|i: int| 0 <= i < r.len() && is_white_space(#[trigger] r[i]) implies r[i] == ' '
        && 0 < i < r.len() - 1 && !is_white_space(r[i - 1]) && !is_white_space(r[i + 1]) by {
        assert(r[i] == t[a + i]);
        assert(t[a + i] == ' ');
        if i == 0 {
            assert(p(t[a]));
        }
        if i == r.len() - 1 {
            assert(t[b - 1] == t[a + i]);
        }
        assert(r[i - 1] == t[a + i - 1]);
        assert(r[i + 1] == t[a + i + 1]);
    }
    if r.len() > 0 {
        assert(r[0] == t[a]);
        assert(r.last() == t[b - 1]);
    }
}

} // verus!
