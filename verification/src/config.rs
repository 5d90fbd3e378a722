//! Renaming configuration and the parsing of its text inputs.
use vstd::prelude::*;
use crate::path::{join, path_join};
use crate::text::{
    chars_of, is_white_space, lowercase, pieces, split_chars, split_pred, string_from,
    strip_prefix, texts, to_lowercase, trim_by, trim_chars, trim_pred, trim_ws, SplitSet,
    TrimSet, without_prefix,
};

verus! {

/// The texts held by a sequence of strings.
pub open spec fn strings(v: Seq<String>) -> Seq<Seq<char>> {
    v.map_values(|s: String| s@)
}

/// The extensions named by a pipe-separated list: each piece trimmed of
/// white space and lowercased, empty ones dropped.
pub open spec fn extension_list(s: Seq<char>) -> Seq<Seq<char>> {
    pieces(s, |c: char| c == '|').map_values(|p: Seq<char>| lowercase(trim_ws(p))).filter(
        |e: Seq<char>| e.len() > 0,
    )
}

/// Parse a pipe-separated extension string into lowercase, trimmed,
/// non-empty extensions.
pub fn parse_extensions(s: &str) -> (r: Vec<String>)
    ensures
        strings(r@) == extension_list(s@),
        s@.len() == 0 ==> r@.len() == 0,
{
    let v = chars_of(s);
    let parts = split_chars(&v, SplitSet::Pipe);
    let ghost ps = pieces(s@, |c: char| c == '|');
    let ghost f = |p: Seq<char>| lowercase(trim_ws(p));
    let ghost keep = |e: Seq<char>| e.len() > 0;
    proof {
        if s@.len() == 0 {
            assert(ps =~= seq![Seq::<char>::empty()]);
        }
        assert(split_pred(SplitSet::Pipe) == (|c: char| c == '|'));
        assert(trim_pred(TrimSet::WhiteSpace) == (|c: char| is_white_space(c)));
    }
    let mut r: Vec<String> = Vec::new();
    let mut i: usize = 0;
    while i < parts.len()
        invariant
            i <= parts.len(),
            texts(parts@) == ps,
            ps == pieces(s@, |c: char| c == '|'),
            f == (|p: Seq<char>| lowercase(trim_ws(p))),
            keep == (|e: Seq<char>| e.len() > 0),
            trim_pred(TrimSet::WhiteSpace) == (|c: char| is_white_space(c)),
            strings(r@) == ps.take(i as int).map_values(f).filter(keep),
            s@.len() == 0 ==> r@.len() == 0 && ps == seq![Seq::<char>::empty()],
        decreases parts.len() - i,
    {
        reveal_with_fuel(Seq::filter, 1);
        let t = trim_chars(&parts[i], TrimSet::WhiteSpace);
        let ts = string_from(&t);
        let low = to_lowercase(ts.as_str());
        proof {
            if s@.len() == 0 {
                assert(ps[i as int] == Seq::<char>::empty());
                assert(trim_ws(Seq::<char>::empty()) =~= Seq::<char>::empty());
            }
        }
        let ghost old_r = strings(r@);
        assert(parts@[i as int]@ == ps[i as int]);
        assert(low@ == f(ps[i as int]));
        assert(ps.take(i + 1).map_values(f) =~= ps.take(i as int).map_values(f).push(
            f(ps[i as int]),
        ));
        assert(ps.take(i + 1).map_values(f).drop_last() =~= ps.take(i as int).map_values(f));
        if !low.as_str().is_empty() {
            r.push(low);
            assert(strings(r@) =~= old_r.push(f(ps[i as int])));
        }
        i = i + 1;
    }
    assert(ps.take(parts.len() as int) =~= ps);
    r
}

/// What `expand_tilde` gives for the path `p` when the home directory is
/// `home`: a leading `~` (and one `/` after it) replaced by the home
/// directory, when one is known.
pub open spec fn tilde_expansion(p: Seq<char>, home: Option<Seq<char>>) -> Seq<char> {
    if p.len() > 0 && p[0] == '~' && home is Some {
        path_join(home->0, strip_prefix(p.drop_first(), seq!['/']))
    } else {
        p
    }
}

/// Expand a leading `~` to the home directory `home`; otherwise return the
/// path as it is.
pub fn expand_tilde(p: &str, home: Option<&str>) -> (r: String)
    ensures
        r@ == tilde_expansion(
            p@,
            match home {
                Some(h) => Some(h@),
                None => None,
            },
        ),
{
    let v = chars_of(p);
    if v.len() > 0 && v[0] == '~' {
        match home {
            Some(h) => {
                let rest = crate::text::slice_chars(&v, 1, v.len());
                assert(rest@ == p@.drop_first());
                let slash = vec!['/'];
                assert(slash@ =~= seq!['/']);
                let rest2 = without_prefix(&rest, &slash);
                let rs = string_from(&rest2);
                return join(h, rs.as_str());
            },
            None => {},
        }
    }
    string_from(&v)
}

/// The settings of one renaming run.
pub struct RenameConfig {
    pub dir: String,
    pub title: String,
    pub prefix: String,
    pub suffix: String,
    pub extensions: Vec<String>,
    pub dry_run: bool,
    /// When a target name collides (already exists on disk, or with another
    /// file in this same batch), append " (2)", " (3)", … until a free name
    /// is found, instead of skipping the file.
    pub collision_auto_num: bool,
}

/// The extensions matched when none are given: `mp4`, `mkv`, `webm`, `avi`.
pub open spec fn default_extensions() -> Seq<Seq<char>> {
    seq![seq!['m', 'p', '4'], seq!['m', 'k', 'v'], seq!['w', 'e', 'b', 'm'], seq!['a', 'v', 'i']]
}

impl Default for RenameConfig {
    fn default() -> (r: Self)
        ensures
            r.dir@ == seq!['.'],
            r.title@.len() == 0,
            r.prefix@.len() == 0,
            r.suffix@.len() == 0,
            strings(r.extensions@) == default_extensions(),
            r.dry_run,
            !r.collision_auto_num,
    {
        let mut exts: Vec<String> = Vec::new();
        exts.push(string_from(&vec!['m', 'p', '4']));
        exts.push(string_from(&vec!['m', 'k', 'v']));
        exts.push(string_from(&vec!['w', 'e', 'b', 'm']));
        exts.push(string_from(&vec!['a', 'v', 'i']));
        assert(strings(exts@) =~= default_extensions());
        RenameConfig {
            dir: string_from(&vec!['.']),
            title: String::new(),
            prefix: String::new(),
            suffix: String::new(),
            extensions: exts,
            dry_run: true,
            collision_auto_num: false,
        }
    }
}


/// The settings of a run, as values.
#[verifier::ext_equal]
pub struct ConfigView {
    pub dir: Seq<char>,
    pub title: Seq<char>,
    pub prefix: Seq<char>,
    pub suffix: Seq<char>,
    pub extensions: Seq<Seq<char>>,
    pub dry_run: bool,
    pub collision_auto_num: bool,
}

impl View for RenameConfig {
    type V = ConfigView;

    open spec fn view(&self) -> ConfigView {
        ConfigView {
            dir: self.dir@,
            title: self.title@,
            prefix: self.prefix@,
            suffix: self.suffix@,
            extensions: strings(self.extensions@),
            dry_run: self.dry_run,
            collision_auto_num: self.collision_auto_num,
        }
    }
}


/// One-shot command-line arguments — also used to pre-fill the wizard.
pub struct Cli {
    /// Target directory with files to rename.
    pub dir: Option<String>,
    /// Clean series title (e.g. "My Series").
    pub title: Option<String>,
    /// Literal prefix to strip from each filename start.
    pub prefix: Option<String>,
    /// Literal suffix to strip before the extension.
    pub suffix: Option<String>,
    /// Pipe-separated file extensions to match (empty matches every file).
    pub extensions: String,
    /// Actually rename files (default: dry-run / simulate).
    pub execute: bool,
    /// Force the wizard (even when rename options are present).
    pub tui: bool,
    /// Skip the confirmation prompt before executing.
    pub yes: bool,
    /// On a name collision, append " (2)", " (3)", … instead of skipping.
    pub auto_number: bool,
}

/// The text of an optional argument, or the empty text.
pub open spec fn opt_text(o: Option<String>) -> Seq<char> {
    match o {
        Some(s) => s@,
        None => Seq::empty(),
    }
}

/// The configuration that command-line arguments give: the defaults, with
/// the folder (`~` expanded with `home`), title, prefix and suffix taken
/// where given, the extensions parsed, a dry run unless executing, and
/// auto-numbering as asked.
pub open spec fn config_from_cli(args: Cli, home: Option<Seq<char>>) -> ConfigView {
    ConfigView {
        dir: match args.dir {
            Some(d) => tilde_expansion(d@, home),
            None => seq!['.'],
        },
        title: opt_text(args.title),
        prefix: opt_text(args.prefix),
        suffix: opt_text(args.suffix),
        extensions: extension_list(args.extensions@),
        dry_run: !args.execute,
        collision_auto_num: args.auto_number,
    }
}

fn text_or_empty(o: &Option<String>) -> (r: String)
    ensures
        r@ == opt_text(*o),
{
    match o {
        Some(s) => s.clone(),
        None => String::new(),
    }
}

impl Cli {
    /// Whether the wizard runs: when asked for, or when neither a folder
    /// nor a title is given.
    pub fn wants_tui(&self) -> (b: bool)
        ensures
            b == (self.tui || !(self.dir is Some || self.title is Some)),
    {
        self.tui || !(self.dir.is_some() || self.title.is_some())
    }
}

impl RenameConfig {
    /// Build a configuration from command-line arguments, applying defaults
    /// where omitted; `home` is the home directory.
    pub fn from_cli(args: &Cli, home: Option<&str>) -> (r: RenameConfig)
        ensures
            r@ == config_from_cli(
                *args,
                match home {
                    Some(h) => Some(h@),
                    None => None,
                },
            ),
    {
        let mut config = RenameConfig::default();
        match &args.dir {
            Some(d) => {
                config.dir = expand_tilde(d.as_str(), home);
            },
            None => {},
        }
        config.title = text_or_empty(&args.title);
        config.prefix = text_or_empty(&args.prefix);
        config.suffix = text_or_empty(&args.suffix);
        config.extensions = parse_extensions(args.extensions.as_str());
        config.dry_run = !args.execute;
        config.collision_auto_num = args.auto_number;
        assert(config@ =~= config_from_cli(
            *args,
            match home {
                Some(h) => Some(h@),
                None => None,
            },
        ));
        config
    }

    /// The configuration the wizard starts with: from the arguments when a
    /// folder or title is given, otherwise the defaults.
    pub fn for_tui(args: &Cli, home: Option<&str>) -> (r: RenameConfig)
        ensures
            r@ == (if args.title is Some || args.dir is Some {
                config_from_cli(
                    *args,
                    match home {
                        Some(h) => Some(h@),
                        None => None,
                    },
                )
            } else {
                ConfigView {
                    dir: seq!['.'],
                    title: Seq::empty(),
                    prefix: Seq::empty(),
                    suffix: Seq::empty(),
                    extensions: default_extensions(),
                    dry_run: true,
                    collision_auto_num: false,
                }
            }),
    {
        if args.title.is_some() || args.dir.is_some() {
            RenameConfig::from_cli(args, home)
        } else {
            let c = RenameConfig::default();
            assert(c@ =~= ConfigView {
                dir: seq!['.'],
                title: Seq::empty(),
                prefix: Seq::empty(),
                suffix: Seq::empty(),
                extensions: default_extensions(),
                dry_run: true,
                collision_auto_num: false,
            });
            c
        }
    }
}


/// Every parsed extension is non-empty.
pub proof fn lemma_extensions_non_empty(s: Seq<char>, i: int)
    requires
        0 <= i < extension_list(s).len(),
    ensures
        extension_list(s)[i].len() > 0,
{
    let ps = pieces(s, |c: char| c == '|').map_values(|p: Seq<char>| lowercase(trim_ws(p)));
    ps.lemma_filter_pred(|e: Seq<char>| e.len() > 0, i);
}

/// Each command-line option lands in its own place: the title, prefix and
/// suffix are the texts given for `--title`, `--prefix` and `--suffix`
/// (empty when absent), a run is dry unless `--exec` is given, collisions
/// are numbered exactly when `--auto-number` is given, and without `--dir`
/// the folder is the current one.
pub proof fn lemma_cli_options_taken_over(args: Cli, home: Option<Seq<char>>)
    ensures
        ({
            let c = config_from_cli(args, home);
            &&& c.title == match args.title {
                Some(t) => t@,
                None => Seq::<char>::empty(),
            }
            &&& c.prefix == match args.prefix {
                Some(p) => p@,
                None => Seq::<char>::empty(),
            }
            &&& c.suffix == match args.suffix {
                Some(x) => x@,
                None => Seq::<char>::empty(),
            }
            &&& c.dry_run == !args.execute
            &&& c.collision_auto_num == args.auto_number
            &&& (args.dir is None ==> c.dir == seq!['.'])
        }),
{
}

} // verus!
