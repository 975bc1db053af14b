//! Concatenate mode: emit every line of each source in order, optionally
//! numbering all lines or only the non-blank ones. Numbering restarts at 1
//! for each source. A source that could not be opened yields a diagnostic
//! and is skipped.

use vstd::prelude::*;
use vstd::string::*;
use crate::numbering::{number_line, numbered};
use crate::source::{diag_line, make_diag, resolve_sources, sources_resolved, Source};

verus! {

/// The numbering mode: at most one numbering flag is active.
#[derive(Clone, Copy, PartialEq, Eq, Debug)]
pub enum Numbering {
    Plain,
    All,
    NonBlank,
}

/// A validated concatenate-mode configuration.
pub struct Config {
    pub sources: Vec<Source>,
    pub mode: Numbering,
}

impl Config {
    /// Resolve the source list and pick the numbering mode from the two
    /// mutually exclusive flags.
    pub fn from_flags(files: Vec<String>, number_lines: bool, number_nonblank: bool) -> (r: Config)
        requires
            !(number_lines && number_nonblank),
        ensures
            sources_resolved(r.sources@, files@),
            r.sources@.len() >= 1,
            r.mode == (if number_lines {
                Numbering::All
            } else if number_nonblank {
                Numbering::NonBlank
            } else {
                Numbering::Plain
            }),
    {
        let sources = resolve_sources(&files);
        let mode = if number_lines {
            Numbering::All
        } else if number_nonblank {
            Numbering::NonBlank
        } else {
            Numbering::Plain
        };
        Config { sources, mode }
    }
}

pub open spec fn string_views(v: Seq<String>) -> Seq<Seq<char>> {
    v.map_values(|s: String| s@)
}

/// Numbering every line: line `i` is prefixed with number `i + 1`.
pub open spec fn cat_all_out(lines: Seq<Seq<char>>) -> Seq<Seq<char>> {
    Seq::new(lines.len(), |i: int| numbered((i + 1) as nat, lines[i]))
}

/// Numbering only non-blank lines: a blank line passes through unchanged
/// and does not advance the counter.
pub open spec fn cat_nonblank_out(lines: Seq<Seq<char>>, next: nat) -> Seq<Seq<char>>
    decreases lines.len(),
{
    if lines.len() == 0 {
        Seq::empty()
    } else if lines[0].len() == 0 {
        seq![lines[0]] + cat_nonblank_out(lines.skip(1), next)
    } else {
        seq![numbered(next, lines[0])] + cat_nonblank_out(lines.skip(1), next + 1)
    }
}

/// What concatenate mode emits for one source's lines.
pub open spec fn cat_out(lines: Seq<Seq<char>>, mode: Numbering) -> Seq<Seq<char>> {
    match mode {
        Numbering::Plain => lines,
        Numbering::All => cat_all_out(lines),
        Numbering::NonBlank => cat_nonblank_out(lines, 1),
    }
}

/// With no numbering flag, concatenate mode is the identity transform on
/// line content.
pub proof fn lemma_cat_plain_identity(lines: Seq<Seq<char>>)
    ensures
        cat_out(lines, Numbering::Plain) == lines,
{
}

/// Emit one source's lines under the given numbering mode. The counter is
/// local to this call, so numbering restarts with each source.
pub fn cat_lines(lines: &Vec<String>, mode: &Numbering) -> (r: Vec<String>)
    requires
        lines@.len() < usize::MAX,
    ensures
        string_views(r@) == cat_out(string_views(lines@), *mode),
{
    let ghost lv = string_views(lines@);
    let mut out: Vec<String> = Vec::new();
    match mode {
        Numbering::Plain => {
            let mut j: usize = 0;
            while j < lines.len()
                invariant
                    lv == string_views(lines@),
                    j <= lines@.len(),
                    out@.len() == j,
                    forall|k: int| 0 <= k < j ==> (#[trigger] out@[k])@ == lines@[k]@,
                decreases lines@.len() - j,
            {
                out.push(lines[j].clone());
                j = j + 1;
            }
            proof {
                assert(string_views(out@) =~= cat_out(lv, *mode));
            }
        },
        Numbering::All => {
            let mut j: usize = 0;
            while j < lines.len()
                invariant
                    lv == string_views(lines@),
                    j <= lines@.len(),
                    out@.len() == j,
                    forall|k: int|
                        0 <= k < j ==> (#[trigger] out@[k])@ == numbered((k + 1) as nat, lines@[k]@),
                decreases lines@.len() - j,
            {
                out.push(number_line(j + 1, &lines[j]));
                j = j + 1;
            }
            proof {
                assert(string_views(out@) =~= cat_all_out(lv));
            }
        },
        Numbering::NonBlank => {
            let mut j: usize = 0;
            let mut num: usize = 1;
            proof {
                assert(lv.skip(0) =~= lv);
                assert(string_views(out@) =~= Seq::<Seq<char>>::empty());
                assert(string_views(out@) + cat_nonblank_out(lv.skip(0), 1) =~= cat_nonblank_out(
                    lv,
                    1,
                ));
            }
            while j < lines.len()
                invariant
                    lv == string_views(lines@),
                    lines@.len() < usize::MAX,
                    j <= lines@.len(),
                    1 <= num <= j + 1,
                    cat_nonblank_out(lv, 1) == string_views(out@) + cat_nonblank_out(
                        lv.skip(j as int),
                        num as nat,
                    ),
                decreases lines@.len() - j,
            {
                let ghost u = lv.skip(j as int);
                proof {
                    assert(u[0] == lines@[j as int]@);
                    assert(u.skip(1) =~= lv.skip(j + 1));
                }
                if lines[j].as_str().unicode_len() == 0 {
                    out.push(lines[j].clone());
                    proof {
                        assert(cat_nonblank_out(u, num as nat) == seq![u[0]] + cat_nonblank_out(
                            lv.skip(j + 1),
                            num as nat,
                        ));
                        assert(string_views(out@) =~= string_views(out@.drop_last()) + seq![u[0]]);
                        assert(string_views(out@.drop_last()) + (seq![u[0]] + cat_nonblank_out(
                            lv.skip(j + 1),
                            num as nat,
                        )) =~= string_views(out@) + cat_nonblank_out(lv.skip(j + 1), num as nat));
                    }
                } else {
                    out.push(number_line(num, &lines[j]));
                    proof {
                        assert(cat_nonblank_out(u, num as nat) == seq![numbered(num as nat, u[0])]
                            + cat_nonblank_out(lv.skip(j + 1), (num + 1) as nat));
                        assert(string_views(out@) =~= string_views(out@.drop_last()) + seq![
                            numbered(num as nat, u[0]),
                        ]);
                        assert(string_views(out@.drop_last()) + (seq![numbered(num as nat, u[0])]
                            + cat_nonblank_out(lv.skip(j + 1), (num + 1) as nat)) =~= string_views(
                            out@,
                        ) + cat_nonblank_out(lv.skip(j + 1), (num + 1) as nat));
                    }
                    num = num + 1;
                }
                j = j + 1;
            }
            proof {
                assert(lv.skip(j as int).len() == 0);
                assert(cat_nonblank_out(lv.skip(j as int), num as nat) =~= Seq::<Seq<char>>::empty());
                assert(string_views(out@) + cat_nonblank_out(lv.skip(j as int), num as nat)
                    =~= string_views(out@));
            }
        },
    }
    out
}

/// The outcome of opening and reading one source, as the surrounding
/// program hands it in: the lines, terminators stripped, or the text of
/// the open error.
pub enum FetchedText {
    Lines(Vec<String>),
    Failed(String),
}

pub struct TextSource {
    pub name: String,
    pub fetch: FetchedText,
}

pub struct CatEmission {
    pub diag: Option<String>,
    pub lines: Vec<String>,
}

/// What concatenate mode owes for one source: a failed source yields its
/// diagnostic and no lines; a readable one yields its lines under the
/// numbering mode, the counter starting afresh.
pub open spec fn cat_emission_ok(e: CatEmission, src: TextSource, mode: Numbering) -> bool {
    match src.fetch {
        FetchedText::Failed(err) => {
            &&& e.diag matches Option::Some(d) && d@ == diag_line(src.name@, err@)
            &&& e.lines@.len() == 0
        },
        FetchedText::Lines(ls) => {
            &&& e.diag is None
            &&& string_views(e.lines@) == cat_out(string_views(ls@), mode)
        },
    }
}

/// Run concatenate mode over the fetched sources, in order.
pub fn cat_run(sources: &Vec<TextSource>, mode: &Numbering) -> (r: Vec<CatEmission>)
    requires
        forall|i: int|
            0 <= i < sources@.len() ==> ((#[trigger] sources@[i]).fetch matches FetchedText::Lines(
                ls,
            ) ==> ls@.len() < usize::MAX),
    ensures
        r@.len() == sources@.len(),
        forall|i: int| 0 <= i < r@.len() ==> cat_emission_ok(#[trigger] r@[i], sources@[i], *mode),
{
    let total = sources.len();
    let mut r: Vec<CatEmission> = Vec::new();
    let mut i: usize = 0;
    while i < total
        invariant
            total == sources@.len(),
            i <= total,
            r@.len() == i,
            forall|k: int|
                0 <= k < total ==> ((#[trigger] sources@[k]).fetch matches FetchedText::Lines(ls)
                    ==> ls@.len() < usize::MAX),
            forall|k: int| 0 <= k < i ==> cat_emission_ok(#[trigger] r@[k], sources@[k], *mode),
        decreases total - i,
    {
        let src = &sources[i];
        let e = match &src.fetch {
            FetchedText::Failed(err) => {
                let no_lines: Vec<String> = Vec::new();
                CatEmission { diag: Option::Some(make_diag(&src.name, err)), lines: no_lines }
            },
            FetchedText::Lines(ls) => {
                CatEmission { diag: Option::None, lines: cat_lines(ls, mode) }
            },
        };
        r.push(e);
        i = i + 1;
    }
    r
}

} // verus!
