//! Character-level text operations used by the renaming rules.
//!
//! Text is handled as `Vec<char>` inside the library and as `String` at its
//! edges; the view of both is a `Seq<char>`.
use vstd::prelude::*;

verus! {

/// The characters of `s`, in order.
pub fn chars_of(s: &str) -> (v: Vec<char>)
    ensures
        v@ == s@,
{
    let mut v: Vec<char> = Vec::new();
    for c in it: s.chars()
        invariant
            v@ == it.seq().take(it.index() as int),
            it.seq() == s@,
    {
        v.push(c);
    }
    v
}

/// Builds a `String` holding exactly the characters of `v`.
///
/// Trusted: calls `FromIterator<&char> for String`, which std documents as
/// appending every yielded character in order.
#[verifier::external_body]
pub(crate) fn string_from(v: &Vec<char>) -> (s: String)
    ensures
        s@ == v@,
{
    v.iter().collect()
}

/// The name for what `str::to_lowercase` returns on a given text: the
/// Unicode lowercase mapping of the whole string (including the
/// context-dependent final-sigma rule), which takes pages to state.
pub uninterp spec fn lowercase(s: Seq<char>) -> Seq<char>;

/// Trusted: calls `str::to_lowercase`; claims that the result is the value
/// named `lowercase` of the argument (a pure function of the text), and
/// that it is empty exactly when the argument is (every character maps to
/// one or more characters).
#[verifier::external_body]
pub(crate) fn to_lowercase(s: &str) -> (r: String)
    ensures
        r@ == lowercase(s@),
        (r@.len() == 0) == (s@.len() == 0),
{
    s.to_lowercase()
}

/// The Unicode `White_Space` property, which `char::is_whitespace` tests.
pub open spec fn is_white_space(c: char) -> bool {
    ||| ('\u{9}' <= c && c <= '\u{d}')
    ||| c == ' '
    ||| c == '\u{85}'
    ||| c == '\u{a0}'
    ||| c == '\u{1680}'
    ||| ('\u{2000}' <= c && c <= '\u{200a}')
    ||| c == '\u{2028}'
    ||| c == '\u{2029}'
    ||| c == '\u{202f}'
    ||| c == '\u{205f}'
    ||| c == '\u{3000}'
}

/// Whether `c` has the Unicode `White_Space` property.
pub fn white_space(c: char) -> (b: bool)
    ensures
        b == is_white_space(c),
{
    ('\u{9}' <= c && c <= '\u{d}') || c == ' ' || c == '\u{85}' || c == '\u{a0}' || c
        == '\u{1680}' || ('\u{2000}' <= c && c <= '\u{200a}') || c == '\u{2028}' || c
        == '\u{2029}' || c == '\u{202f}' || c == '\u{205f}' || c == '\u{3000}'
}

/// `s` without its leading characters that satisfy `p`.
pub open spec fn trim_start_by(s: Seq<char>, p: spec_fn(char) -> bool) -> Seq<char>
    decreases s.len(),
{
    if s.len() > 0 && p(s[0]) {
        trim_start_by(s.drop_first(), p)
    } else {
        s
    }
}

/// `s` without its trailing characters that satisfy `p`.
pub open spec fn trim_end_by(s: Seq<char>, p: spec_fn(char) -> bool) -> Seq<char>
    decreases s.len(),
{
    if s.len() > 0 && p(s.last()) {
        trim_end_by(s.drop_last(), p)
    } else {
        s
    }
}

/// `s` without its leading and trailing characters that satisfy `p`.
pub open spec fn trim_by(s: Seq<char>, p: spec_fn(char) -> bool) -> Seq<char> {
    trim_end_by(trim_start_by(s, p), p)
}

/// What `str::trim` gives: `s` without leading and trailing white space.
pub open spec fn trim_ws(s: Seq<char>) -> Seq<char> {
    trim_by(s, |c: char| is_white_space(c))
}

/// The characters that the cleaning step trims off both ends of a name.
pub open spec fn is_dash_or_space(c: char) -> bool {
    c == '-' || c == ' '
}

/// Which characters a trim removes.
pub enum TrimSet {
    WhiteSpace,
    DashOrSpace,
}

/// The predicate of a `TrimSet`.
pub open spec fn trim_pred(k: TrimSet) -> spec_fn(char) -> bool {
    match k {
        TrimSet::WhiteSpace => |c: char| is_white_space(c),
        TrimSet::DashOrSpace => |c: char| is_dash_or_space(c),
    }
}

fn in_trim_set(k: &TrimSet, c: char) -> (b: bool)
    ensures
        b == (trim_pred(*k))(c),
{
    match k {
        TrimSet::WhiteSpace => white_space(c),
        TrimSet::DashOrSpace => c == '-' || c == ' ',
    }
}

pub proof fn lemma_trim_start_skip(s: Seq<char>, p: spec_fn(char) -> bool, i: int)
    requires
        0 <= i <= s.len(),
        forall|j: int| 0 <= j < i ==> p(#[trigger] s[j]),
    ensures
        trim_start_by(s, p) == trim_start_by(s.skip(i), p),
    decreases i,
{
    if i > 0 {
        assert(s.drop_first().skip(i - 1) =~= s.skip(i));
        lemma_trim_start_skip(s.drop_first(), p, i - 1);
    } else {
        assert(s.skip(0) =~= s);
    }
}

pub proof fn lemma_trim_end_take(s: Seq<char>, p: spec_fn(char) -> bool, i: int)
    requires
        0 <= i <= s.len(),
        forall|j: int| i <= j < s.len() ==> p(#[trigger] s[j]),
    ensures
        trim_end_by(s, p) == trim_end_by(s.take(i), p),
    decreases s.len() - i,
{
    if i < s.len() {
        assert(s.drop_last().take(i) =~= s.take(i));
        lemma_trim_end_take(s.drop_last(), p, i);
    } else {
        assert(s.take(s.len() as int) =~= s);
    }
}

/// `s` with the characters of the chosen set trimmed off both ends.
pub fn trim_chars(s: &Vec<char>, k: TrimSet) -> (r: Vec<char>)
    ensures
        r@ == trim_by(s@, trim_pred(k)),
{
    let ghost p = trim_pred(k);
    let n = s.len();
    let mut i: usize = 0;
    while i < n && in_trim_set(&k, s[i])
        invariant
            i <= n == s.len(),
            p == trim_pred(k),
            forall|j: int| 0 <= j < i ==> p(#[trigger] s@[j]),
        decreases n - i,
    {
        i = i + 1;
    }
    proof {
        lemma_trim_start_skip(s@, p, i as int);
        assert(trim_start_by(s@.skip(i as int), p) == s@.skip(i as int));
    }
    let mut e: usize = n;
    while e > i && in_trim_set(&k, s[e - 1])
        invariant
            i <= e <= n == s.len(),
            p == trim_pred(k),
            forall|j: int| e <= j < n ==> p(#[trigger] s@[j]),
        decreases e,
    {
        e = e - 1;
    }
    let mut r: Vec<char> = Vec::new();
    let mut j: usize = i;
    while j < e
        invariant
            i <= j <= e <= n == s.len(),
            r@ == s@.subrange(i as int, j as int),
        decreases e - j,
    {
        r.push(s[j]);
        j = j + 1;
    }
    proof {
        let t = s@.skip(i as int);
        assert forall|m: int| e - i <= m < t.len() implies p(#[trigger] t[m]) by {
            assert(t[m] == s@[m + i]);
        }
        lemma_trim_end_take(t, p, e - i);
        assert(t.take(e - i) =~= r@);
        if e > i {
            assert(t.take(e - i).last() == s@[e - 1]);
        }
        assert(trim_end_by(t.take(e - i), p) == t.take(e - i));
    }
    r
}

/// Whether `s` begins with `p`.
pub open spec fn has_prefix(s: Seq<char>, p: Seq<char>) -> bool {
    p.len() <= s.len() && s.take(p.len() as int) == p
}

/// Whether `s` ends with `p`.
pub open spec fn has_suffix(s: Seq<char>, p: Seq<char>) -> bool {
    p.len() <= s.len() && s.skip(s.len() - p.len()) == p
}

/// `s` without the prefix `p` when it starts with `p`, otherwise `s` itself.
pub open spec fn strip_prefix(s: Seq<char>, p: Seq<char>) -> Seq<char> {
    if has_prefix(s, p) {
        s.skip(p.len() as int)
    } else {
        s
    }
}

/// `s` without the suffix `p` when it ends with `p`, otherwise `s` itself.
pub open spec fn strip_suffix(s: Seq<char>, p: Seq<char>) -> Seq<char> {
    if has_suffix(s, p) {
        s.take(s.len() - p.len())
    } else {
        s
    }
}

/// Whether `s` begins with `p`.
pub fn starts_with(s: &Vec<char>, p: &Vec<char>) -> (b: bool)
    ensures
        b == has_prefix(s@, p@),
{
    if p.len() > s.len() {
        return false;
    }
    let mut i: usize = 0;
    while i < p.len()
        invariant
            p.len() <= s.len(),
            i <= p.len(),
            forall|j: int| 0 <= j < i ==> s@[j] == p@[j],
        decreases p.len() - i,
    {
        if s[i] != p[i] {
            assert(s@.take(p.len() as int)[i as int] != p@[i as int]);
            return false;
        }
        i = i + 1;
    }
    assert(s@.take(p.len() as int) =~= p@);
    true
}

/// Whether `s` ends with `p`.
pub fn ends_with(s: &Vec<char>, p: &Vec<char>) -> (b: bool)
    ensures
        b == has_suffix(s@, p@),
{
    if p.len() > s.len() {
        return false;
    }
    let off = s.len() - p.len();
    let mut i: usize = 0;
    while i < p.len()
        invariant
            off == s.len() - p.len(),
            p.len() <= s.len(),
            i <= p.len(),
            forall|j: int| 0 <= j < i ==> s@[off + j] == p@[j],
        decreases p.len() - i,
    {
        if s[off + i] != p[i] {
            assert(s@.skip(off as int)[i as int] != p@[i as int]);
            return false;
        }
        i = i + 1;
    }
    assert(s@.skip(off as int) =~= p@);
    true
}

/// The characters of `s` from index `from` (inclusive) to `to` (exclusive).
pub fn slice_chars(s: &Vec<char>, from: usize, to: usize) -> (r: Vec<char>)
    requires
        from <= to <= s.len(),
    ensures
        r@ == s@.subrange(from as int, to as int),
{
    let mut r: Vec<char> = Vec::new();
    let mut j: usize = from;
    while j < to
        invariant
            from <= j <= to <= s.len(),
            r@ == s@.subrange(from as int, j as int),
        decreases to - j,
    {
        r.push(s[j]);
        j = j + 1;
    }
    r
}

/// `s` without the literal prefix `p`, when it begins with it.
pub fn without_prefix(s: &Vec<char>, p: &Vec<char>) -> (r: Vec<char>)
    ensures
        r@ == strip_prefix(s@, p@),
{
    if starts_with(s, p) {
        slice_chars(s, p.len(), s.len())
    } else {
        s.clone()
    }
}

/// `s` without the literal suffix `p`, when it ends with it.
pub fn without_suffix(s: &Vec<char>, p: &Vec<char>) -> (r: Vec<char>)
    ensures
        r@ == strip_suffix(s@, p@),
{
    if ends_with(s, p) {
        slice_chars(s, 0, s.len() - p.len())
    } else {
        s.clone()
    }
}

/// `a` followed by `b`.
pub fn concat(a: &Vec<char>, b: &Vec<char>) -> (r: Vec<char>)
    ensures
        r@ == a@ + b@,
{
    let mut r = a.clone();
    let mut i: usize = 0;
    while i < b.len()
        invariant
            i <= b.len(),
            r@ == a@ + b@.take(i as int),
        decreases b.len() - i,
    {
        r.push(b[i]);
        i = i + 1;
        assert(a@ + b@.take(i as int) =~= (a@ + b@.take(i - 1)).push(b@[i - 1]));
    }
    assert(b@.take(b.len() as int) =~= b@);
    r
}

/// Whether two texts hold the same characters.
pub fn same_chars(a: &Vec<char>, b: &Vec<char>) -> (r: bool)
    ensures
        r == (a@ == b@),
{
    if a.len() != b.len() {
        return false;
    }
    let mut i: usize = 0;
    while i < a.len()
        invariant
            a.len() == b.len(),
            i <= a.len(),
            forall|j: int| 0 <= j < i ==> a@[j] == b@[j],
        decreases a.len() - i,
    {
        if a[i] != b[i] {
            return false;
        }
        i = i + 1;
    }
    assert(a@ =~= b@);
    true
}


/// The pieces of `s` between the characters that satisfy `sep`, as
/// `str::split` with a character predicate yields them (always at least one).
pub open spec fn pieces(s: Seq<char>, sep: spec_fn(char) -> bool) -> Seq<Seq<char>>
    decreases s.len(),
{
    if s.len() == 0 {
        seq![Seq::<char>::empty()]
    } else {
        let p = pieces(s.drop_last(), sep);
        if sep(s.last()) {
            p.push(Seq::<char>::empty())
        } else {
            p.update(p.len() - 1, p.last().push(s.last()))
        }
    }
}

pub proof fn lemma_pieces_nonempty(s: Seq<char>, sep: spec_fn(char) -> bool)
    ensures
        pieces(s, sep).len() >= 1,
    decreases s.len(),
{
    if s.len() > 0 {
        lemma_pieces_nonempty(s.drop_last(), sep);
    }
}

/// Appending text without separators extends the last piece.
proof fn lemma_pieces_append_plain(s: Seq<char>, u: Seq<char>, sep: spec_fn(char) -> bool)
    requires
        forall|k: int| 0 <= k < u.len() ==> !sep(#[trigger] u[k]),
    ensures
        ({
            let p = pieces(s, sep);
            pieces(s + u, sep) == p.update(p.len() - 1, p.last() + u)
        }),
    decreases u.len(),
{
    lemma_pieces_nonempty(s, sep);
    let p = pieces(s, sep);
    if u.len() == 0 {
        assert(s + u =~= s);
        assert(p.last() + u =~= p.last());
        assert(p.update(p.len() - 1, p.last() + u) =~= p);
    } else {
        let v = u.drop_last();
        assert forall|k: int| 0 <= k < v.len() implies !sep(#[trigger] v[k]) by {
            assert(v[k] == u[k]);
        }
        lemma_pieces_append_plain(s, v, sep);
        assert((s + u).drop_last() =~= s + v);
        assert((s + u).last() == u.last());
        assert(!sep(u[u.len() - 1]));
        let q = pieces(s + v, sep);
        assert(q == p.update(p.len() - 1, p.last() + v));
        assert(q.last() == p.last() + v);
        assert(q.last().push(u.last()) =~= p.last() + u);
        assert(pieces(s + u, sep) =~= p.update(p.len() - 1, p.last() + u));
    }
}

/// Splitting texts joined with a separator character gives them back, when
/// none of them holds the separator.
pub proof fn lemma_pieces_of_join(ws: Seq<Seq<char>>, c: char, sep: spec_fn(char) -> bool)
    requires
        ws.len() > 0,
        sep(c),
        forall|i: int, k: int| 0 <= i < ws.len() && 0 <= k < ws[i].len() ==> !sep(#[trigger] ws[i][k]),
    ensures
        pieces(join_with(ws, seq![c]), sep) == ws,
    decreases ws.len(),
{
    let w = ws.last();
    assert forall|k: int| 0 <= k < w.len() implies !sep(#[trigger] w[k]) by {
        assert(w[k] == ws[ws.len() - 1][k]);
    }
    if ws.len() == 1 {
        lemma_pieces_append_plain(Seq::empty(), w, sep);
        assert(Seq::<char>::empty() + w =~= w);
        assert(seq![Seq::<char>::empty()].update(0, Seq::<char>::empty() + w) =~= ws);
    } else {
        let prev = ws.drop_last();
        assert forall|i: int, k: int| 0 <= i < prev.len() && 0 <= k < prev[i].len() implies !sep(
            #[trigger] prev[i][k],
        ) by {
            assert(prev[i] == ws[i]);
        }
        lemma_pieces_of_join(prev, c, sep);
        let j = join_with(prev, seq![c]);
        let jc = j + seq![c];
        assert(jc.drop_last() =~= j);
        assert(jc.last() == c);
        assert(pieces(jc, sep) == prev.push(Seq::<char>::empty()));
        lemma_pieces_append_plain(jc, w, sep);
        assert(join_with(ws, seq![c]) == jc + w);
        assert(Seq::<char>::empty() + w =~= w);
        assert(prev.push(Seq::<char>::empty()).update(prev.len() as int, w) =~= ws);
    }
}

/// The non-empty runs of `s` between white space: what
/// `str::split_whitespace` yields.
pub open spec fn words(s: Seq<char>) -> Seq<Seq<char>> {
    pieces(s, |c: char| is_white_space(c)).filter(|w: Seq<char>| w.len() > 0)
}

/// The texts of `ws` with `sep` between each two neighbours (`join`).
pub open spec fn join_with(ws: Seq<Seq<char>>, sep: Seq<char>) -> Seq<char>
    decreases ws.len(),
{
    if ws.len() == 0 {
        Seq::<char>::empty()
    } else if ws.len() == 1 {
        ws[0]
    } else {
        join_with(ws.drop_last(), sep) + sep + ws.last()
    }
}

/// The texts held by a sequence of character vectors.
pub open spec fn texts(v: Seq<Vec<char>>) -> Seq<Seq<char>> {
    v.map_values(|x: Vec<char>| x@)
}

/// Which characters split a text into pieces.
pub enum SplitSet {
    Pipe,
    WhiteSpace,
}

/// The predicate of a `SplitSet`.
pub open spec fn split_pred(k: SplitSet) -> spec_fn(char) -> bool {
    match k {
        SplitSet::Pipe => |c: char| c == '|',
        SplitSet::WhiteSpace => |c: char| is_white_space(c),
    }
}

fn in_split_set(k: &SplitSet, c: char) -> (b: bool)
    ensures
        b == (split_pred(*k))(c),
{
    match k {
        SplitSet::Pipe => c == '|',
        SplitSet::WhiteSpace => white_space(c),
    }
}

/// The pieces of `s` between the characters of the chosen set.
pub fn split_chars(s: &Vec<char>, k: SplitSet) -> (r: Vec<Vec<char>>)
    ensures
        texts(r@) == pieces(s@, split_pred(k)),
{
    let ghost p = split_pred(k);
    let mut done: Vec<Vec<char>> = Vec::new();
    let mut cur: Vec<char> = Vec::new();
    let mut i: usize = 0;
    assert(s@.take(0) =~= Seq::<char>::empty());
    assert(texts(done@).push(cur@) =~= pieces(s@.take(0), p));
    while i < s.len()
        invariant
            i <= s.len(),
            p == split_pred(k),
            texts(done@).push(cur@) == pieces(s@.take(i as int), p),
        decreases s.len() - i,
    {
        let c = s[i];
        let ghost before = s@.take(i as int);
        assert(s@.take(i + 1).drop_last() =~= before);
        assert(s@.take(i + 1).last() == c);
        if in_split_set(&k, c) {
            let ghost old_done = texts(done@);
            let finished = cur;
            done.push(finished);
            cur = Vec::new();
            assert(texts(done@) =~= old_done.push(finished@));
            assert(texts(done@).push(cur@) =~= pieces(s@.take(i + 1), p));
        } else {
            let ghost old_cur = cur@;
            cur.push(c);
            assert(texts(done@).push(cur@) =~= pieces(s@.take(i + 1), p));
        }
        i = i + 1;
    }
    let ghost old_done = texts(done@);
    done.push(cur);
    assert(s@.take(s.len() as int) =~= s@);
    assert(texts(done@) =~= old_done.push(cur@));
    done
}

/// The texts of `ws` that are not empty, in order.
pub fn non_empty(ws: &Vec<Vec<char>>) -> (r: Vec<Vec<char>>)
    ensures
        texts(r@) == texts(ws@).filter(|w: Seq<char>| w.len() > 0),
{
    let ghost f = |w: Seq<char>| w.len() > 0;
    let mut r: Vec<Vec<char>> = Vec::new();
    let mut i: usize = 0;
    while i < ws.len()
        invariant
            i <= ws.len(),
            f == (|w: Seq<char>| w.len() > 0),
            texts(r@) == texts(ws@).take(i as int).filter(f),
        decreases ws.len() - i,
    {
        reveal_with_fuel(Seq::filter, 1);
        let ghost old_r = texts(r@);
        assert(texts(ws@).take(i + 1).drop_last() =~= texts(ws@).take(i as int));
        if ws[i].len() > 0 {
            r.push(ws[i].clone());
            assert(texts(r@) =~= old_r.push(ws@[i as int]@));
        }
        i = i + 1;
    }
    assert(texts(ws@).take(ws.len() as int) =~= texts(ws@));
    r
}

/// The texts of `ws` with `sep` between each two neighbours.
pub fn join_chars(ws: &Vec<Vec<char>>, sep: &Vec<char>) -> (r: Vec<char>)
    ensures
        r@ == join_with(texts(ws@), sep@),
{
    let mut r: Vec<char> = Vec::new();
    let mut i: usize = 0;
    while i < ws.len()
        invariant
            i <= ws.len(),
            r@ == join_with(texts(ws@).take(i as int), sep@),
        decreases ws.len() - i,
    {
        let ghost t = texts(ws@).take(i + 1);
        assert(t.drop_last() =~= texts(ws@).take(i as int));
        if i == 0 {
            r = ws[i].clone();
            assert(t.len() == 1);
        } else {
            r = concat(&r, sep);
            r = concat(&r, &ws[i]);
        }
        i = i + 1;
    }
    assert(texts(ws@).take(ws.len() as int) =~= texts(ws@));
    r
}

/// `s` with every `_` replaced by a space.
pub open spec fn underscores_to_spaces(s: Seq<char>) -> Seq<char> {
    s.map_values(|c: char| if c == '_' { ' ' } else { c })
}

/// `s` with every `_` replaced by a space (`str::replace('_', " ")`).
pub fn replace_underscores(s: &Vec<char>) -> (r: Vec<char>)
    ensures
        r@ == underscores_to_spaces(s@),
{
    let mut r: Vec<char> = Vec::new();
    let mut i: usize = 0;
    while i < s.len()
        invariant
            i <= s.len(),
            r@ == underscores_to_spaces(s@.take(i as int)),
        decreases s.len() - i,
    {
        let c = s[i];
        r.push(if c == '_' { ' ' } else { c });
        i = i + 1;
        assert(r@ =~= underscores_to_spaces(s@.take(i as int)));
    }
    assert(s@.take(s.len() as int) =~= s@);
    r
}

/// The decimal digit for `d`.
pub open spec fn digit_char(d: nat) -> char {
    if d == 0 { '0' }
    else if d == 1 { '1' }
    else if d == 2 { '2' }
    else if d == 3 { '3' }
    else if d == 4 { '4' }
    else if d == 5 { '5' }
    else if d == 6 { '6' }
    else if d == 7 { '7' }
    else if d == 8 { '8' }
    else { '9' }
}

/// The decimal notation of `n`, without leading zeros.
pub open spec fn decimal(n: nat) -> Seq<char>
    decreases n,
{
    if n < 10 {
        seq![digit_char(n)]
    } else {
        decimal(n / 10).push(digit_char(n % 10))
    }
}

/// The decimal notation of `n` (what `format!("{}", n)` writes).
pub fn decimal_chars(n: u64) -> (r: Vec<char>)
    ensures
        r@ == decimal(n as nat),
    decreases n,
{
    let d = n % 10;
    let c = if d == 0 { '0' }
        else if d == 1 { '1' }
        else if d == 2 { '2' }
        else if d == 3 { '3' }
        else if d == 4 { '4' }
        else if d == 5 { '5' }
        else if d == 6 { '6' }
        else if d == 7 { '7' }
        else if d == 8 { '8' }
        else { '9' };
    if n < 10 {
        vec![c]
    } else {
        let mut r = decimal_chars(n / 10);
        r.push(c);
        r
    }
}


/// The number of bytes of the UTF-8 encoding of `c`.
pub fn utf8_width(c: char) -> (w: usize)
    ensures
        w == vstd::utf8::encode_scalar(c as u32).len(),
{
    proof {
        vstd::utf8::char_is_scalar(c);
    }
    let u = c as u32;
    if u < 0x80 {
        1
    } else if u < 0x800 {
        2
    } else if u < 0x10000 {
        3
    } else {
        4
    }
}

/// Encoding a text with one more character adds that character's bytes.
pub proof fn lemma_encode_utf8_push(a: Seq<char>, c: char)
    ensures
        vstd::utf8::encode_utf8(a.push(c)).len() == vstd::utf8::encode_utf8(a).len()
            + vstd::utf8::encode_scalar(c as u32).len(),
    decreases a.len(),
{
    reveal_with_fuel(vstd::utf8::encode_utf8, 2);
    if a.len() > 0 {
        assert(a.push(c).drop_first() =~= a.drop_first().push(c));
        lemma_encode_utf8_push(a.drop_first(), c);
    } else {
        assert(a.push(c).drop_first() =~= Seq::<char>::empty());
    }
}

/// The encoding of a prefix is no longer than the encoding of the text.
pub proof fn lemma_encode_utf8_prefix(s: Seq<char>, i: int)
    requires
        0 <= i <= s.len(),
    ensures
        vstd::utf8::encode_utf8(s.take(i)).len() <= vstd::utf8::encode_utf8(s).len(),
    decreases s.len() - i,
{
    if i < s.len() {
        assert(s.take(i + 1) =~= s.take(i).push(s[i]));
        lemma_encode_utf8_push(s.take(i), s[i]);
        lemma_encode_utf8_prefix(s, i + 1);
    } else {
        assert(s.take(i) =~= s);
    }
}

/// The byte offset, in the UTF-8 encoding of `s`, of the character at index
/// `k`; the byte length of `s` when `k` is past its end.
pub open spec fn byte_offset(s: Seq<char>, k: int) -> nat {
    if k < s.len() {
        vstd::utf8::encode_utf8(s.take(k)).len()
    } else {
        vstd::utf8::encode_utf8(s).len()
    }
}

/// The byte offset in `s` of the character at index `k` (the byte length
/// of `s` when `k` is past its end).
pub fn byte_offset_of(s: &String, k: usize) -> (r: usize)
    requires
        vstd::utf8::encode_utf8(s@).len() <= usize::MAX,
    ensures
        r == byte_offset(s@, k as int),
{
    let v = chars_of(s.as_str());
    let n = if k < v.len() {
        k
    } else {
        v.len()
    };
    let mut r: usize = 0;
    let mut i: usize = 0;
    assert(v@.take(0) =~= Seq::<char>::empty());
    proof {
        reveal_with_fuel(vstd::utf8::encode_utf8, 1);
    }
    while i < n
        invariant
            i <= n <= v.len(),
            v@ == s@,
            vstd::utf8::encode_utf8(s@).len() <= usize::MAX,
            r == vstd::utf8::encode_utf8(v@.take(i as int)).len(),
        decreases n - i,
    {
        proof {
            assert(v@.take(i + 1) =~= v@.take(i as int).push(v@[i as int]));
            lemma_encode_utf8_push(v@.take(i as int), v@[i as int]);
            lemma_encode_utf8_prefix(v@, i + 1);
        }
        r = r + utf8_width(v[i]);
        i = i + 1;
    }
    assert(v@.take(v.len() as int) =~= v@);
    r
}

/// `s` with the character at index `k` removed.
pub fn remove_char(s: &String, k: usize) -> (r: String)
    requires
        k < s@.len(),
    ensures
        r@ == s@.remove(k as int),
{
    let mut v = chars_of(s.as_str());
    v.remove(k);
    string_from(&v)
}

/// `s` with `c` inserted at character index `k`.
pub fn insert_char(s: &String, k: usize, c: char) -> (r: String)
    requires
        k <= s@.len(),
    ensures
        r@ == s@.insert(k as int, c),
        r@.len() <= usize::MAX,
{
    let mut v = chars_of(s.as_str());
    v.insert(k, c);
    let n = v.len();
    string_from(&v)
}

/// The number of characters of `s`.
pub fn char_count(s: &str) -> (n: usize)
    ensures
        n == s@.len(),
{
    chars_of(s).len()
}


/// Trimming from the start leaves a suffix that does not start with a
/// trimmed character.
pub proof fn lemma_trim_start_shape(s: Seq<char>, p: spec_fn(char) -> bool)
    ensures
        exists|a: int|
            0 <= a <= s.len() && #[trigger] s.skip(a) == trim_start_by(s, p) && (a == s.len()
                || !p(s[a])),
    decreases s.len(),
{
    if s.len() > 0 && p(s[0]) {
        lemma_trim_start_shape(s.drop_first(), p);
        let t = s.drop_first();
        let a = choose|a: int|
            0 <= a <= t.len() && #[trigger] t.skip(a) == trim_start_by(t, p) && (a == t.len()
                || !p(t[a]));
        assert(s.skip(a + 1) =~= t.skip(a));
        assert(s.skip(a + 1) == trim_start_by(s, p));
    } else {
        assert(s.skip(0) =~= s);
    }
}

/// Trimming from the end leaves a prefix that does not end with a trimmed
/// character.
pub proof fn lemma_trim_end_shape(s: Seq<char>, p: spec_fn(char) -> bool)
    ensures
        exists|b: int|
            0 <= b <= s.len() && #[trigger] s.take(b) == trim_end_by(s, p) && (b == 0 || !p(
                s[b - 1],
            )),
    decreases s.len(),
{
    if s.len() > 0 && p(s.last()) {
        lemma_trim_end_shape(s.drop_last(), p);
        let t = s.drop_last();
        let b = choose|b: int|
            0 <= b <= t.len() && #[trigger] t.take(b) == trim_end_by(t, p) && (b == 0 || !p(
                t[b - 1],
            ));
        assert(s.take(b) =~= t.take(b));
    } else {
        assert(s.take(s.len() as int) =~= s);
    }
}

/// What trimming leaves neither starts nor ends with a trimmed character,
/// and is a contiguous part of the text.
pub proof fn lemma_trim_shape(s: Seq<char>, p: spec_fn(char) -> bool)
    ensures
        exists|a: int, b: int|
            0 <= a <= b <= s.len() && #[trigger] s.subrange(a, b) == trim_by(s, p) && (a == b || (
            !p(s[a]) && !p(s[b - 1]))),
{
    lemma_trim_start_shape(s, p);
    let a = choose|a: int|
        0 <= a <= s.len() && #[trigger] s.skip(a) == trim_start_by(s, p) && (a == s.len() || !p(
            s[a],
        ));
    let t = s.skip(a);
    lemma_trim_end_shape(t, p);
    let b = choose|b: int|
        0 <= b <= t.len() && #[trigger] t.take(b) == trim_end_by(t, p) && (b == 0 || !p(t[b - 1]));
    assert(s.subrange(a, a + b) =~= t.take(b));
    if b > 0 {
        assert(t[0] == s[a]);
        assert(t[b - 1] == s[a + b - 1]);
    }
    assert(s.subrange(a, a + b) == trim_by(s, p));
}

/// Every character of every piece is not a separator, and keeps any
/// property that all characters of the text have.
pub proof fn lemma_pieces_chars(s: Seq<char>, sep: spec_fn(char) -> bool, q: spec_fn(char) -> bool)
    requires
        forall|k: int| 0 <= k < s.len() ==> q(#[trigger] s[k]),
    ensures
        forall|i: int, j: int|
            0 <= i < pieces(s, sep).len() && 0 <= j < pieces(s, sep)[i].len() ==> !sep(
                #[trigger] pieces(s, sep)[i][j],
            ) && q(pieces(s, sep)[i][j]),
    decreases s.len(),
{
    if s.len() > 0 {
        let t = s.drop_last();
        assert forall|k: int| 0 <= k < t.len() implies q(#[trigger] t[k]) by {
            assert(t[k] == s[k]);
        }
        lemma_pieces_chars(t, sep, q);
        lemma_pieces_nonempty(t, sep);
        let p0 = pieces(t, sep);
        let p1 = pieces(s, sep);
        assert(q(s[s.len() - 1]));
        assert forall|i: int, j: int| 0 <= i < p1.len() && 0 <= j < p1[i].len() implies !sep(
            #[trigger] p1[i][j],
        ) && q(p1[i][j]) by {
            if !sep(s.last()) && i == p0.len() - 1 {
                if j < p0[i].len() {
                    assert(p1[i][j] == p0[i][j]);
                } else {
                    assert(p1[i][j] == s.last());
                }
            } else if i < p0.len() {
                assert(p1[i] == p0[i]);
            }
        }
    }
}

} // verus!
