//! Cleaning a file stem into the base of the new name.
use vstd::prelude::*;
use crate::text::{chars_of, concat, ends_with, has_prefix, has_suffix, slice_chars, string_from};

verus! {

/// How many quality/language tags the cleaning step strips.
pub const TAG_COUNT: usize = 29;

/// The quality/language tags stripped from the end of a name, in the order
/// in which they are tried.
pub open spec fn strip_tag(i: int) -> Seq<char> {
    if i == 0 {
        "720p"@
    } else if i == 1 {
        "1080p"@
    } else if i == 2 {
        "2160p"@
    } else if i == 3 {
        "4K"@
    } else if i == 4 {
        "HD"@
    } else if i == 5 {
        "FHD"@
    } else if i == 6 {
        "UHD"@
    } else if i == 7 {
        "2K"@
    } else if i == 8 {
        "BD"@
    } else if i == 9 {
        "BluRay"@
    } else if i == 10 {
        "WEBRip"@
    } else if i == 11 {
        "WEB-DL"@
    } else if i == 12 {
        "BRRip"@
    } else if i == 13 {
        "HDR"@
    } else if i == 14 {
        "x264"@
    } else if i == 15 {
        "x265"@
    } else if i == 16 {
        "HEVC"@
    } else if i == 17 {
        "AVC"@
    } else if i == 18 {
        "Complete"@
    } else if i == 19 {
        "Batch"@
    } else if i == 20 {
        "eng"@
    } else if i == 21 {
        "indo"@
    } else if i == 22 {
        "jpn"@
    } else if i == 23 {
        "en"@
    } else if i == 24 {
        "id"@
    } else if i == 25 {
        "jp"@
    } else if i == 26 {
        "sub"@
    } else if i == 27 {
        "dub"@
    } else {
        "multi"@
    }
}

/// The separators that may precede a tag, in the order they are tried.
pub open spec fn tag_sep(j: int) -> char {
    if j == 0 {
        '.'
    } else if j == 1 {
        '_'
    } else {
        '-'
    }
}

/// The `k`-th tag pattern: a separator followed by a tag; patterns are
/// ordered by tag first and separator second.
pub open spec fn tag_pattern(k: int) -> Seq<char> {
    seq![tag_sep(k % 3)] + strip_tag(k / 3)
}

/// The number of tag patterns.
pub open spec fn pattern_count() -> int {
    3 * TAG_COUNT
}

/// The first pattern, at index `k` or later, that `s` ends with.
pub open spec fn first_match_from(s: Seq<char>, k: int) -> Option<int>
    decreases pattern_count() - k,
{
    if k < 0 || k >= pattern_count() {
        None
    } else if has_suffix(s, tag_pattern(k)) {
        Some(k)
    } else {
        first_match_from(s, k + 1)
    }
}

/// The first tag pattern that `s` ends with.
pub open spec fn first_match(s: Seq<char>) -> Option<int> {
    first_match_from(s, 0)
}

/// `s` with tag patterns removed from its end, one at a time, until it ends
/// with none.
pub open spec fn strip_tags_spec(s: Seq<char>) -> Seq<char>
    decreases s.len(),
{
    match first_match(s) {
        Some(k) => if 0 < tag_pattern(k).len() <= s.len() {
            strip_tags_spec(s.take(s.len() - tag_pattern(k).len()))
        } else {
            s
        },
        None => s,
    }
}

/// Whether `s` ends with some tag pattern.
pub open spec fn ends_with_tag(s: Seq<char>) -> bool {
    exists|k: int| 0 <= k < pattern_count() && has_suffix(s, #[trigger] tag_pattern(k))
}

fn tag_str(i: usize) -> (t: &'static str)
    requires
        i < TAG_COUNT,
    ensures
        t@ == strip_tag(i as int),
{
    match i {
        0 => "720p",
        1 => "1080p",
        2 => "2160p",
        3 => "4K",
        4 => "HD",
        5 => "FHD",
        6 => "UHD",
        7 => "2K",
        8 => "BD",
        9 => "BluRay",
        10 => "WEBRip",
        11 => "WEB-DL",
        12 => "BRRip",
        13 => "HDR",
        14 => "x264",
        15 => "x265",
        16 => "HEVC",
        17 => "AVC",
        18 => "Complete",
        19 => "Batch",
        20 => "eng",
        21 => "indo",
        22 => "jpn",
        23 => "en",
        24 => "id",
        25 => "jp",
        26 => "sub",
        27 => "dub",
        _ => "multi",
    }
}

fn pattern_chars(k: usize) -> (p: Vec<char>)
    requires
        k < 3 * TAG_COUNT,
    ensures
        p@ == tag_pattern(k as int),
{
    let sep = if k % 3 == 0 {
        '.'
    } else if k % 3 == 1 {
        '_'
    } else {
        '-'
    };
    let t = chars_of(tag_str(k / 3));
    concat(&vec![sep], &t)
}

proof fn lemma_first_match_from(s: Seq<char>, k: int)
    requires
        0 <= k <= pattern_count(),
    ensures
        first_match_from(s, k) matches Some(m) ==> k <= m < pattern_count() && has_suffix(
            s,
            tag_pattern(m),
        ),
        first_match_from(s, k) is None ==> forall|m: int|
            k <= m < pattern_count() ==> !has_suffix(s, #[trigger] tag_pattern(m)),
    decreases pattern_count() - k,
{
    if k < pattern_count() && !has_suffix(s, tag_pattern(k)) {
        lemma_first_match_from(s, k + 1);
    }
}

/// The index of the first tag pattern that `s` ends with.
fn first_tag_match(s: &Vec<char>) -> (r: Option<usize>)
    ensures
        r matches Some(k) ==> first_match(s@) == Some(k as int) && k < 3 * TAG_COUNT,
        r is None ==> first_match(s@) is None,
{
    let mut k: usize = 0;
    while k < 3 * TAG_COUNT
        invariant
            k <= 3 * TAG_COUNT,
            first_match(s@) == first_match_from(s@, k as int),
        decreases 3 * TAG_COUNT - k,
    {
        let p = pattern_chars(k);
        if ends_with(s, &p) {
            return Some(k);
        }
        k = k + 1;
    }
    None
}

/// `s` with quality/language tags (each preceded by `.`, `_` or `-`)
/// stripped repeatedly from its end.
pub fn strip_tag_chars(s: &Vec<char>) -> (r: Vec<char>)
    ensures
        r@ == strip_tags_spec(s@),
{
    let mut cur = s.clone();
    loop
        invariant
            strip_tags_spec(cur@) == strip_tags_spec(s@),
        decreases cur.len(),
    {
        match first_tag_match(&cur) {
            None => {
                return cur;
            },
            Some(k) => {
                let p = pattern_chars(k);
                proof {
                    lemma_first_match_from(cur@, 0);
                }
                cur = slice_chars(&cur, 0, cur.len() - p.len());
            },
        }
    }
}

/// `s` with quality/language tags stripped repeatedly from its end.
pub fn strip_tags(s: &str) -> (r: String)
    ensures
        r@ == strip_tags_spec(s@),
{
    let v = chars_of(s);
    string_from(&strip_tag_chars(&v))
}


/// Tag stripping removes only a tail of the text, leaves it ending with no
/// tag pattern, and changes nothing when applied again.
pub proof fn lemma_strip_tags_result(s: Seq<char>)
    ensures
        has_prefix(s, strip_tags_spec(s)),
        !ends_with_tag(strip_tags_spec(s)),
        strip_tags_spec(strip_tags_spec(s)) == strip_tags_spec(s),
    decreases s.len(),
{
    lemma_first_match_from(s, 0);
    match first_match(s) {
        Some(k) => {
            let n = s.len() - tag_pattern(k).len();
            assert(tag_pattern(k).len() > 0);
            let t = s.take(n);
            lemma_strip_tags_result(t);
            let r = strip_tags_spec(t);
            assert(strip_tags_spec(s) == r);
            assert(s.take(r.len() as int) =~= t.take(r.len() as int));
        },
        None => {
            assert(s.take(s.len() as int) =~= s);
            assert forall|m: int| 0 <= m < pattern_count() implies !has_suffix(
                s,
                #[trigger] tag_pattern(m),
            ) by {}
        },
    }
}

/// Whether `c` is one of the separators that precede a tag.
pub open spec fn is_tag_sep(c: char) -> bool {
    c == '.' || c == '_' || c == '-'
}

/// Only `WEB-DL` holds a separator, at its fourth character.
proof fn lemma_tag_separators(i: int, m: int)
    requires
        0 <= i < TAG_COUNT,
        0 <= m < strip_tag(i).len(),
        is_tag_sep(strip_tag(i)[m]),
    ensures
        i == 11 && m == 3,
{
    reveal_strlit("720p");
    reveal_strlit("1080p");
    reveal_strlit("2160p");
    reveal_strlit("4K");
    reveal_strlit("HD");
    reveal_strlit("FHD");
    reveal_strlit("UHD");
    reveal_strlit("2K");
    reveal_strlit("BD");
    reveal_strlit("BluRay");
    reveal_strlit("WEBRip");
    reveal_strlit("WEB-DL");
    reveal_strlit("BRRip");
    reveal_strlit("HDR");
    reveal_strlit("x264");
    reveal_strlit("x265");
    reveal_strlit("HEVC");
    reveal_strlit("AVC");
    reveal_strlit("Complete");
    reveal_strlit("Batch");
    reveal_strlit("eng");
    reveal_strlit("indo");
    reveal_strlit("jpn");
    reveal_strlit("en");
    reveal_strlit("id");
    reveal_strlit("jp");
    reveal_strlit("sub");
    reveal_strlit("dub");
    reveal_strlit("multi");
}

/// No tag is `DL`.
proof fn lemma_no_tag_is_dl(i: int)
    requires
        0 <= i < TAG_COUNT,
    ensures
        strip_tag(i) != seq!['D', 'L'],
{
    reveal_strlit("720p");
    reveal_strlit("1080p");
    reveal_strlit("2160p");
    reveal_strlit("4K");
    reveal_strlit("HD");
    reveal_strlit("FHD");
    reveal_strlit("UHD");
    reveal_strlit("2K");
    reveal_strlit("BD");
    reveal_strlit("BluRay");
    reveal_strlit("WEBRip");
    reveal_strlit("WEB-DL");
    reveal_strlit("BRRip");
    reveal_strlit("HDR");
    reveal_strlit("x264");
    reveal_strlit("x265");
    reveal_strlit("HEVC");
    reveal_strlit("AVC");
    reveal_strlit("Complete");
    reveal_strlit("Batch");
    reveal_strlit("eng");
    reveal_strlit("indo");
    reveal_strlit("jpn");
    reveal_strlit("en");
    reveal_strlit("id");
    reveal_strlit("jp");
    reveal_strlit("sub");
    reveal_strlit("dub");
    reveal_strlit("multi");
    if strip_tag(i) == seq!['D', 'L'] {
        assert(strip_tag(i)[0] == 'D');
        assert(strip_tag(i)[1] == 'L');
    }
}

/// At most one tag pattern ends a text: two patterns that both end `s` are
/// the same text.
proof fn lemma_pattern_suffix_unique(s: Seq<char>, a: int, b: int)
    requires
        0 <= a < pattern_count(),
        0 <= b < pattern_count(),
        has_suffix(s, tag_pattern(a)),
        has_suffix(s, tag_pattern(b)),
    ensures
        tag_pattern(a) == tag_pattern(b),
{
    let pa = tag_pattern(a);
    let pb = tag_pattern(b);
    if pa.len() == pb.len() {
        assert(pa =~= pb);
    } else if pa.len() < pb.len() {
        lemma_pattern_inside(s, a, b);
    } else {
        lemma_pattern_inside(s, b, a);
    }
}

proof fn lemma_pattern_inside(s: Seq<char>, a: int, b: int)
    requires
        0 <= a < pattern_count(),
        0 <= b < pattern_count(),
        has_suffix(s, tag_pattern(a)),
        has_suffix(s, tag_pattern(b)),
    ensures
        tag_pattern(a).len() >= tag_pattern(b).len(),
{
    if tag_pattern(a).len() >= tag_pattern(b).len() {
        return;
    }
    let pa = tag_pattern(a);
    let pb = tag_pattern(b);
    let tb = strip_tag(b / 3);
    let j = pb.len() - pa.len();
    assert(pa[0] == s[s.len() - pa.len()]);
    assert(pb[j] == s[s.len() - pb.len() + j]);
    assert(pb[j] == tb[j - 1]);
    assert(is_tag_sep(pa[0]));
    lemma_tag_separators(b / 3, j - 1);
    reveal_strlit("WEB-DL");
    let ta = strip_tag(a / 3);
    assert(ta.len() == 2);
    assert(ta[0] == pa[1]);
    assert(pa[1] == s[s.len() - pa.len() + 1]);
    assert(pb[5] == s[s.len() - pb.len() + 5]);
    assert(ta[1] == pa[2]);
    assert(pa[2] == s[s.len() - pa.len() + 2]);
    assert(pb[6] == s[s.len() - pb.len() + 6]);
    assert(ta =~= seq!['D', 'L']);
    lemma_no_tag_is_dl(a / 3);
}

/// The text that the tag patterns with indices `ks` spell, one after
/// another.
pub open spec fn pattern_run(ks: Seq<int>) -> Seq<char>
    decreases ks.len(),
{
    if ks.len() == 0 {
        Seq::empty()
    } else {
        pattern_run(ks.drop_last()) + tag_pattern(ks.last())
    }
}

/// Whether every index of `ks` names a tag pattern.
pub open spec fn patterns_valid(ks: Seq<int>) -> bool {
    forall|i: int| 0 <= i < ks.len() ==> 0 <= #[trigger] ks[i] < pattern_count()
}

/// Tag stripping keeps a prefix of `s` after which the rest of `s` is a run
/// of tag patterns; the patterns of that run are returned.
pub proof fn lemma_strip_tags_leaves_a_run(s: Seq<char>) -> (ks: Seq<int>)
    ensures
        patterns_valid(ks),
        s == strip_tags_spec(s) + pattern_run(ks),
    decreases s.len(),
{
    lemma_first_match_from(s, 0);
    match first_match(s) {
        Some(k) => {
            let p = tag_pattern(k);
            assert(p.len() > 0);
            let t = s.take(s.len() - p.len());
            let ks0 = lemma_strip_tags_leaves_a_run(t);
            let ks = ks0.push(k);
            assert(ks.drop_last() =~= ks0);
            assert(s =~= t + p);
            assert(patterns_valid(ks)) by {
                assert forall|i: int| 0 <= i < ks.len() implies 0 <= #[trigger] ks[i] < pattern_count() by {
                    if i < ks0.len() {
                        assert(ks[i] == ks0[i]);
                    }
                }
            }
            assert(strip_tags_spec(s) + pattern_run(ks) =~= strip_tags_spec(t) + pattern_run(ks0) + p);
            ks
        },
        None => {
            let ks = Seq::<int>::empty();
            assert(s + pattern_run(ks) =~= s);
            ks
        },
    }
}

/// Tag stripping keeps the shortest such prefix: wherever the rest of `s`
/// after the first `n` characters is a run of tag patterns, the stripped
/// text is at most `n` characters long.
pub proof fn lemma_strip_tags_shortest(s: Seq<char>, n: int, ks: Seq<int>)
    requires
        0 <= n <= s.len(),
        patterns_valid(ks),
        s.skip(n) == pattern_run(ks),
    ensures
        strip_tags_spec(s).len() <= n,
    decreases ks.len(),
{
    lemma_strip_tags_result(s);
    if ks.len() > 0 {
        let b = ks.last();
        let pb = tag_pattern(b);
        let rest = ks.drop_last();
        assert(patterns_valid(rest)) by {
            assert forall|i: int| 0 <= i < rest.len() implies 0 <= #[trigger] rest[i] < pattern_count() by {
                assert(rest[i] == ks[i]);
            }
        }
        assert(0 <= b < pattern_count()) by {
            assert(ks[ks.len() - 1] == b);
        }
        let run = pattern_run(ks);
        assert(run == pattern_run(rest) + pb);
        assert(has_suffix(s, pb)) by {
            assert(s.skip(s.len() - pb.len()) =~= run.skip(run.len() - pb.len()));
            assert(run.skip(run.len() - pb.len()) =~= pb);
        }
        lemma_first_match_from(s, 0);
        let k = first_match(s)->0;
        lemma_pattern_suffix_unique(s, k, b);
        let t = s.take(s.len() - pb.len());
        assert(strip_tags_spec(s) == strip_tags_spec(t));
        let pr = pattern_run(rest);
        assert(run.len() == s.len() - n);
        assert(pr.len() + pb.len() == run.len());
        assert(t.skip(n).len() == pr.len());
        assert forall|i: int| 0 <= i < pr.len() implies #[trigger] t.skip(n)[i] == pr[i] by {
            assert(t.skip(n)[i] == s[n + i]);
            assert(s.skip(n)[i] == s[n + i]);
            assert(run[i] == pr[i]);
        }
        assert(t.skip(n) =~= pr);
        lemma_strip_tags_shortest(t, n, rest);
    }
}

/// A text that ends with no tag pattern is left as it is.
pub proof fn lemma_strip_tags_keeps_untagged(c: Seq<char>)
    requires
        !ends_with_tag(c),
    ensures
        strip_tags_spec(c) == c,
{
    lemma_first_match_from(c, 0);
    if let Some(k) = first_match(c) {
        assert(has_suffix(c, tag_pattern(k)));
        assert(ends_with_tag(c));
    }
}

/// Stripping what ends with a tag pattern is stripping what comes before it.
proof fn lemma_strip_one_pattern(x: Seq<char>, m: int)
    requires
        0 <= m < pattern_count(),
    ensures
        strip_tags_spec(x + tag_pattern(m)) == strip_tags_spec(x),
{
    let p = tag_pattern(m);
    let s = x + p;
    assert(s.skip(s.len() - p.len()) =~= p);
    assert(has_suffix(s, p));
    lemma_first_match_from(s, 0);
    let k = first_match(s)->0;
    lemma_pattern_suffix_unique(s, k, m);
    assert(p.len() > 0);
    assert(s.take(s.len() - p.len()) =~= x);
}

/// Stripping what ends with a run of tag patterns is stripping what comes
/// before the run.
pub proof fn lemma_strip_tag_run(x: Seq<char>, ks: Seq<int>)
    requires
        patterns_valid(ks),
    ensures
        strip_tags_spec(x + pattern_run(ks)) == strip_tags_spec(x),
    decreases ks.len(),
{
    if ks.len() == 0 {
        assert(x + pattern_run(ks) =~= x);
    } else {
        let rest = ks.drop_last();
        assert(patterns_valid(rest)) by {
            assert forall|i: int| 0 <= i < rest.len() implies 0 <= #[trigger] rest[i] < pattern_count() by {
                assert(rest[i] == ks[i]);
            }
        }
        assert(0 <= ks.last() < pattern_count()) by {
            assert(ks[ks.len() - 1] == ks.last());
        }
        lemma_strip_tag_run(x, rest);
        assert(x + pattern_run(ks) =~= (x + pattern_run(rest)) + tag_pattern(ks.last()));
        lemma_strip_one_pattern(x + pattern_run(rest), ks.last());
    }
}

/// Every quality/language tag of the list (720p, 1080p, 2160p, 4K, HD, FHD,
/// UHD, 2K, BD, BluRay, WEBRip, WEB-DL, BRRip, HDR, x264, x265, HEVC, AVC,
/// Complete, Batch, eng, indo, jpn, en, id, jp, sub, dub, multi), after a
/// `.`, `_` or `-`, is stripped from the end of any text.
pub proof fn lemma_listed_tags_are_stripped(s: Seq<char>, sep: char, tag: Seq<char>)
    requires
        sep == '.' || sep == '_' || sep == '-',
        tag == "720p"@ ||
        tag == "1080p"@ ||
        tag == "2160p"@ ||
        tag == "4K"@ ||
        tag == "HD"@ ||
        tag == "FHD"@ ||
        tag == "UHD"@ ||
        tag == "2K"@ ||
        tag == "BD"@ ||
        tag == "BluRay"@ ||
        tag == "WEBRip"@ ||
        tag == "WEB-DL"@ ||
        tag == "BRRip"@ ||
        tag == "HDR"@ ||
        tag == "x264"@ ||
        tag == "x265"@ ||
        tag == "HEVC"@ ||
        tag == "AVC"@ ||
        tag == "Complete"@ ||
        tag == "Batch"@ ||
        tag == "eng"@ ||
        tag == "indo"@ ||
        tag == "jpn"@ ||
        tag == "en"@ ||
        tag == "id"@ ||
        tag == "jp"@ ||
        tag == "sub"@ ||
        tag == "dub"@ ||
        tag == "multi"@,
    ensures
        strip_tags_spec(s + seq![sep] + tag) == strip_tags_spec(s),
{
    let i: int = if tag == "720p"@ {
        0
    } else if tag == "1080p"@ {
        1
    } else if tag == "2160p"@ {
        2
    } else if tag == "4K"@ {
        3
    } else if tag == "HD"@ {
        4
    } else if tag == "FHD"@ {
        5
    } else if tag == "UHD"@ {
        6
    } else if tag == "2K"@ {
        7
    } else if tag == "BD"@ {
        8
    } else if tag == "BluRay"@ {
        9
    } else if tag == "WEBRip"@ {
        10
    } else if tag == "WEB-DL"@ {
        11
    } else if tag == "BRRip"@ {
        12
    } else if tag == "HDR"@ {
        13
    } else if tag == "x264"@ {
        14
    } else if tag == "x265"@ {
        15
    } else if tag == "HEVC"@ {
        16
    } else if tag == "AVC"@ {
        17
    } else if tag == "Complete"@ {
        18
    } else if tag == "Batch"@ {
        19
    } else if tag == "eng"@ {
        20
    } else if tag == "indo"@ {
        21
    } else if tag == "jpn"@ {
        22
    } else if tag == "en"@ {
        23
    } else if tag == "id"@ {
        24
    } else if tag == "jp"@ {
        25
    } else if tag == "sub"@ {
        26
    } else if tag == "dub"@ {
        27
    } else {
        28
    };
    assert(strip_tag(i) == tag);
    let j: int = if sep == '.' {
        0
    } else if sep == '_' {
        1
    } else {
        2
    };
    let m = 3 * i + j;
    assert(m % 3 == j && m / 3 == i);
    assert(tag_sep(j) == sep);
    assert(tag_pattern(m) =~= seq![sep] + tag);
    assert(s + seq![sep] + tag =~= s + tag_pattern(m));
    lemma_strip_one_pattern(s, m);
}

/// Whether `t` is one of the quality/language tags of the list.
pub open spec fn listed_tag(t: Seq<char>) -> bool {
    t == "720p"@ ||
    t == "1080p"@ ||
    t == "2160p"@ ||
    t == "4K"@ ||
    t == "HD"@ ||
    t == "FHD"@ ||
    t == "UHD"@ ||
    t == "2K"@ ||
    t == "BD"@ ||
    t == "BluRay"@ ||
    t == "WEBRip"@ ||
    t == "WEB-DL"@ ||
    t == "BRRip"@ ||
    t == "HDR"@ ||
    t == "x264"@ ||
    t == "x265"@ ||
    t == "HEVC"@ ||
    t == "AVC"@ ||
    t == "Complete"@ ||
    t == "Batch"@ ||
    t == "eng"@ ||
    t == "indo"@ ||
    t == "jpn"@ ||
    t == "en"@ ||
    t == "id"@ ||
    t == "jp"@ ||
    t == "sub"@ ||
    t == "dub"@ ||
    t == "multi"@
}

/// Only the listed tags are stripped: a text that does not end with a
/// `.`, `_` or `-` followed by a listed tag is left as it is.
pub proof fn lemma_only_listed_tags_are_stripped(s: Seq<char>)
    requires
        forall|sep: char, t: Seq<char>|
            (sep == '.' || sep == '_' || sep == '-') && listed_tag(t) ==> !has_suffix(
                s,
                #[trigger] (seq![sep] + t),
            ),
    ensures
        strip_tags_spec(s) == s,
{
    if ends_with_tag(s) {
        let k = choose|k: int| 0 <= k < pattern_count() && has_suffix(s, #[trigger] tag_pattern(k));
        let t = strip_tag(k / 3);
        let sep = tag_sep(k % 3);
        assert(listed_tag(t));
        assert(tag_pattern(k) == seq![sep] + t);
        assert(!has_suffix(s, seq![sep] + t));
    }
    lemma_strip_tags_keeps_untagged(s);
}

} // verus!
