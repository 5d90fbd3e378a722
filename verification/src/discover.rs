//! Choosing the files of a directory that a run renames.
use vstd::prelude::*;
use vstd::relations::sorted_by;
use crate::config::strings;
use crate::order::{sort_texts, text_order};
use crate::path::{extension, file_name, join, path_extension, path_file_name, path_join};
use crate::text::{chars_of, string_from, texts};

verus! {

/// One entry of a directory listing, as the file system reports it.
pub struct DirEntry {
    /// The entry's file name.
    pub name: String,
    /// Whether the entry is (or links to) a regular file.
    pub is_file: bool,
    /// Whether the entry is (or links to) a directory.
    pub is_dir: bool,
    /// Whether the entry's path resolves to something that exists.
    pub exists: bool,
}

/// The code of `c` with ASCII letters folded to lower case.
pub open spec fn ascii_fold(c: char) -> u32 {
    let u = c as u32;
    if 65 <= u && u <= 90 {
        (u + 32) as u32
    } else {
        u
    }
}

/// Whether two texts are equal ignoring ASCII case (`eq_ignore_ascii_case`).
pub open spec fn eq_ignore_ascii_case(a: Seq<char>, b: Seq<char>) -> bool {
    a.len() == b.len() && forall|i: int| 0 <= i < a.len() ==> ascii_fold(#[trigger] a[i])
        == ascii_fold(b[i])
}

fn ascii_fold_exec(c: char) -> (u: u32)
    ensures
        u == ascii_fold(c),
{
    let u = c as u32;
    if 65 <= u && u <= 90 {
        u + 32
    } else {
        u
    }
}

fn eq_ignore_ascii_case_exec(a: &Vec<char>, b: &Vec<char>) -> (r: bool)
    ensures
        r == eq_ignore_ascii_case(a@, b@),
{
    if a.len() != b.len() {
        return false;
    }
    let mut i: usize = 0;
    while i < a.len()
        invariant
            a.len() == b.len(),
            i <= a.len(),
            forall|j: int| 0 <= j < i ==> ascii_fold(#[trigger] a@[j]) == ascii_fold(b@[j]),
        decreases a.len() - i,
    {
        if ascii_fold_exec(a[i]) != ascii_fold_exec(b[i]) {
            return false;
        }
        i = i + 1;
    }
    true
}

/// The path of an entry of the directory `dir`.
pub open spec fn entry_path(dir: Seq<char>, e: DirEntry) -> Seq<char> {
    path_join(dir, e.name@)
}

/// Whether the file name of `path` starts with a dot.
pub open spec fn is_hidden(path: Seq<char>) -> bool {
    path_file_name(path) matches Some(n) && n.len() > 0 && n[0] == '.'
}

/// Whether the extension of `path` is one of `exts` (ignoring ASCII case);
/// an empty list matches every path.
pub open spec fn extension_matches(path: Seq<char>, exts: Seq<Seq<char>>) -> bool {
    exts.len() == 0 || (path_extension(path) matches Some(x) && exists|i: int|
        0 <= i < exts.len() && eq_ignore_ascii_case(#[trigger] exts[i], x))
}

/// Whether the entry `e` of `dir` is one of the files to rename.
pub open spec fn is_selected(dir: Seq<char>, e: DirEntry, exts: Seq<Seq<char>>) -> bool {
    &&& e.is_file
    &&& !is_hidden(entry_path(dir, e))
    &&& extension_matches(entry_path(dir, e), exts)
}

/// The paths of the selected entries, in listing order.
pub open spec fn selected_paths(dir: Seq<char>, entries: Seq<DirEntry>, exts: Seq<Seq<char>>) -> Seq<
    Seq<char>,
>
    decreases entries.len(),
{
    if entries.len() == 0 {
        Seq::empty()
    } else {
        let prev = selected_paths(dir, entries.drop_last(), exts);
        if is_selected(dir, entries.last(), exts) {
            prev.push(entry_path(dir, entries.last()))
        } else {
            prev
        }
    }
}

/// Whether `a` and `b` spell the same characters, an ASCII capital letter
/// matching its small letter.
pub open spec fn same_ignoring_ascii_case(a: Seq<char>, b: Seq<char>) -> bool {
    &&& a.len() == b.len()
    &&& forall|k: int|
        0 <= k < a.len() ==> {
            let x = #[trigger] a[k] as u32;
            let y = b[k] as u32;
            ||| x == y
            ||| (65 <= x <= 90 && y == x + 32)
            ||| (65 <= y <= 90 && x == y + 32)
        }
}

/// With a non-empty list of extensions, every selected path has an
/// extension, and it is one of the listed ones ignoring ASCII case; a file
/// without an extension is never selected.
pub proof fn lemma_selected_paths_have_a_listed_extension(
    dir: Seq<char>,
    entries: Seq<DirEntry>,
    exts: Seq<Seq<char>>,
    i: int,
)
    requires
        exts.len() > 0,
        0 <= i < selected_paths(dir, entries, exts).len(),
    ensures
        path_extension(selected_paths(dir, entries, exts)[i]) matches Some(x) && exists|j: int|
            0 <= j < exts.len() && same_ignoring_ascii_case(x, #[trigger] exts[j]),
    decreases entries.len(),
{
    let prev = selected_paths(dir, entries.drop_last(), exts);
    if i < prev.len() {
        lemma_selected_paths_have_a_listed_extension(dir, entries.drop_last(), exts, i);
    } else {
        let e = entries.last();
        let p = entry_path(dir, e);
        assert(is_selected(dir, e, exts));
        assert(selected_paths(dir, entries, exts)[i] == p);
        let x = path_extension(p)->Some_0;
        let j = choose|j: int| 0 <= j < exts.len() && eq_ignore_ascii_case(#[trigger] exts[j], x);
        assert forall|k: int| 0 <= k < x.len() implies {
            let u = #[trigger] x[k] as u32;
            let v = exts[j][k] as u32;
            ||| u == v
            ||| (65 <= u <= 90 && v == u + 32)
            ||| (65 <= v <= 90 && u == v + 32)
        } by {
            assert(ascii_fold(exts[j][k]) == ascii_fold(x[k]));
        }
        assert(same_ignoring_ascii_case(x, exts[j]));
    }
}

/// Which entries are selected: exactly the regular files that are not
/// hidden and, when extensions are listed, whose extension is one of them
/// ignoring ASCII case.
pub proof fn lemma_selection_rule(dir: Seq<char>, e: DirEntry, exts: Seq<Seq<char>>)
    ensures
        is_selected(dir, e, exts) == (e.is_file && !is_hidden(entry_path(dir, e)) && (exts.len() == 0
            || (path_extension(entry_path(dir, e)) matches Some(x) && exists|j: int|
            0 <= j < exts.len() && same_ignoring_ascii_case(x, #[trigger] exts[j])))),
{
    let p = entry_path(dir, e);
    if exts.len() > 0 {
        if let Some(x) = path_extension(p) {
            assert forall|j: int| 0 <= j < exts.len() implies eq_ignore_ascii_case(
                #[trigger] exts[j],
                x,
            ) == same_ignoring_ascii_case(x, exts[j]) by {
                if eq_ignore_ascii_case(exts[j], x) {
                    assert forall|k: int| 0 <= k < x.len() implies {
                        let u = #[trigger] x[k] as u32;
                        let v = exts[j][k] as u32;
                        ||| u == v
                        ||| (65 <= u <= 90 && v == u + 32)
                        ||| (65 <= v <= 90 && u == v + 32)
                    } by {
                        assert(ascii_fold(exts[j][k]) == ascii_fold(x[k]));
                    }
                }
                if same_ignoring_ascii_case(x, exts[j]) {
                    assert forall|k: int| 0 <= k < exts[j].len() implies ascii_fold(
                        #[trigger] exts[j][k],
                    ) == ascii_fold(x[k]) by {
                        let u = x[k] as u32;
                        let v = exts[j][k] as u32;
                        assert(u == v || (65 <= u <= 90 && v == u + 32) || (65 <= v <= 90 && u == v + 32));
                    }
                }
            }
        }
    }
}

fn extension_listed(ext: &Vec<char>, exts: &Vec<Vec<char>>) -> (b: bool)
    ensures
        b == exists|i: int| 0 <= i < exts.len() && eq_ignore_ascii_case(#[trigger] texts(exts@)[i], ext@),
{
    let mut i: usize = 0;
    while i < exts.len()
        invariant
            i <= exts.len(),
            forall|j: int| 0 <= j < i ==> !eq_ignore_ascii_case(#[trigger] texts(exts@)[j], ext@),
        decreases exts.len() - i,
    {
        if eq_ignore_ascii_case_exec(&exts[i], ext) {
            assert(texts(exts@)[i as int] == exts@[i as int]@);
            return true;
        }
        assert(texts(exts@)[i as int] == exts@[i as int]@);
        i = i + 1;
    }
    false
}

/// Find the regular files in the listing `entries` of the directory `dir`
/// whose extension matches one of `extensions` (ignoring ASCII case; an
/// empty list matches every file). Hidden files (dotfiles) are skipped.
/// Returns their paths in ascending order.
pub fn discover_files(dir: &str, entries: &Vec<DirEntry>, extensions: &Vec<String>) -> (files: Vec<
    String,
>)
    ensures
        strings(files@) == selected_paths(dir@, entries@, strings(extensions@)).sort_by(
            text_order(),
        ),
        sorted_by(strings(files@), text_order()),
{
    let mut exts: Vec<Vec<char>> = Vec::new();
    let mut k: usize = 0;
    while k < extensions.len()
        invariant
            k <= extensions.len(),
            texts(exts@) == strings(extensions@.take(k as int)),
        decreases extensions.len() - k,
    {
        let ghost old_e = texts(exts@);
        let c = chars_of(extensions[k].as_str());
        exts.push(c);
        assert(texts(exts@) =~= old_e.push(extensions@[k as int]@));
        assert(strings(extensions@.take(k + 1)) =~= strings(extensions@.take(k as int)).push(
            extensions@[k as int]@,
        ));
        k = k + 1;
    }
    assert(extensions@.take(extensions.len() as int) =~= extensions@);
    let ghost ev = strings(extensions@);
    let mut found: Vec<Vec<char>> = Vec::new();
    let mut i: usize = 0;
    while i < entries.len()
        invariant
            i <= entries.len(),
            texts(exts@) == ev,
            ev == strings(extensions@),
            texts(found@) == selected_paths(dir@, entries@.take(i as int), ev),
        decreases entries.len() - i,
    {
        let e = &entries[i];
        let ghost prev = texts(found@);
        assert(entries@.take(i + 1).drop_last() =~= entries@.take(i as int));
        assert(entries@.take(i + 1).last() == entries@[i as int]);
        let path = join(dir, e.name.as_str());
        if e.is_file {
            let hidden = match file_name(path.as_str()) {
                Some(n) => {
                    let nc = chars_of(n.as_str());
                    nc.len() > 0 && nc[0] == '.'
                },
                None => false,
            };
            if !hidden {
                let keep = if exts.len() == 0 {
                    true
                } else {
                    match extension(path.as_str()) {
                        Some(x) => extension_listed(&chars_of(x.as_str()), &exts),
                        None => false,
                    }
                };
                if keep {
                    let pc = chars_of(path.as_str());
                    found.push(pc);
                    assert(texts(found@) =~= prev.push(path@));
                }
            }
        }
        i = i + 1;
    }
    assert(entries@.take(entries.len() as int) =~= entries@);
    let sorted = sort_texts(found);
    let mut files: Vec<String> = Vec::new();
    let mut j: usize = 0;
    while j < sorted.len()
        invariant
            j <= sorted.len(),
            strings(files@) == texts(sorted@).take(j as int),
        decreases sorted.len() - j,
    {
        let ghost old_f = strings(files@);
        files.push(string_from(&sorted[j]));
        assert(strings(files@) =~= old_f.push(sorted@[j as int]@));
        assert(texts(sorted@).take(j + 1) =~= texts(sorted@).take(j as int).push(
            sorted@[j as int]@,
        ));
        j = j + 1;
    }
    assert(texts(sorted@).take(sorted.len() as int) =~= texts(sorted@));
    files
}


/// With no extensions given, every regular file that is not hidden is
/// selected.
pub proof fn lemma_no_extensions_select_every_file(dir: Seq<char>, e: DirEntry)
    ensures
        is_selected(dir, e, Seq::empty()) == (e.is_file && !is_hidden(entry_path(dir, e))),
{
}

/// The names present on disk among a folder's entries.
pub open spec fn existing_names(es: Seq<DirEntry>) -> Seq<Seq<char>> {
    es.filter(|e: DirEntry| e.exists).map_values(|e: DirEntry| e.name@)
}

/// The names of the entries that exist on disk, in listing order: what a
/// rename target must not hit.
pub fn existing_names_of(es: &Vec<DirEntry>) -> (names: Vec<String>)
    ensures
        strings(names@) == existing_names(es@),
{
    let mut names: Vec<String> = Vec::new();
    let mut i: usize = 0;
    while i < es.len()
        invariant
            i <= es.len(),
            strings(names@) == existing_names(es@.take(i as int)),
        decreases es.len() - i,
    {
        reveal_with_fuel(Seq::filter, 1);
        let ghost old_n = strings(names@);
        assert(es@.take(i + 1).drop_last() =~= es@.take(i as int));
        assert(es@.take(i + 1).filter(|e: DirEntry| e.exists) == if es@[i as int].exists {
            es@.take(i as int).filter(|e: DirEntry| e.exists).push(es@[i as int])
        } else {
            es@.take(i as int).filter(|e: DirEntry| e.exists)
        });
        if es[i].exists {
            names.push(es[i].name.clone());
            assert(strings(names@) =~= old_n.push(es@[i as int].name@));
        }
        assert(strings(names@) =~= existing_names(es@.take(i + 1)));
        i = i + 1;
    }
    assert(es@.take(es.len() as int) =~= es@);
    names
}

} // verus!
