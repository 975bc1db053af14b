//! Input sources. A source is either the process's standard input, named by
//! the sentinel `-`, or a file named by its path; the list is resolved once
//! from the configured names. An unreadable source is reported with a
//! one-line diagnostic and skipped.

use vstd::prelude::*;
use vstd::string::*;

verus! {

/// One unit of input: the process's standard input or a named file.
#[derive(Debug)]
pub enum Source {
    Stdin,
    Named(String),
}

/// The display name of a source: the sentinel for standard input, else the
/// file name as given.
pub open spec fn source_name(s: Source) -> Seq<char> {
    match s {
        Source::Stdin => seq!['-'],
        Source::Named(n) => n@,
    }
}

/// A resolved source stands for a name: the sentinel resolves to standard
/// input, everything else to a file of that name.
pub open spec fn source_matches(s: Source, name: Seq<char>) -> bool {
    if name == seq!['-'] {
        s is Stdin
    } else {
        s matches Source::Named(n) && n@ == name
    }
}

/// A source list resolves a name list elementwise; an empty name list
/// resolves to standard input alone.
pub open spec fn sources_resolved(srcs: Seq<Source>, files: Seq<String>) -> bool {
    if files.len() == 0 {
        srcs.len() == 1 && srcs[0] is Stdin
    } else {
        srcs.len() == files.len() && forall|i: int|
            0 <= i < files.len() ==> source_matches(#[trigger] srcs[i], files[i]@)
    }
}

impl Source {
    /// The name under which diagnostics and headers mention this source.
    pub fn display_name(&self) -> (r: String)
        ensures
            r@ == source_name(*self),
    {
        match self {
            Source::Stdin => {
                let r = "-".to_owned();
                proof {
                    reveal_strlit("-");
                    assert(r@ =~= seq!['-']);
                }
                r
            },
            Source::Named(n) => n.clone(),
        }
    }
}

/// Resolve one name: the sentinel `-` means standard input.
pub fn resolve(name: &String) -> (r: Source)
    ensures
        source_matches(r, name@),
{
    let s = name.as_str();
    if s.unicode_len() == 1 && s.get_char(0) == '-' {
        proof {
            assert(name@ =~= seq!['-']);
        }
        Source::Stdin
    } else {
        proof {
            if name@ == seq!['-'] {
                assert(name@.len() == 1);
                assert(name@[0] == '-');
            }
        }
        Source::Named(name.clone())
    }
}

/// Resolve the configured name list; with no names given, the single
/// source is standard input.
pub fn resolve_sources(files: &Vec<String>) -> (r: Vec<Source>)
    ensures
        sources_resolved(r@, files@),
        r@.len() >= 1,
{
    if files.len() == 0 {
        let mut r: Vec<Source> = Vec::new();
        r.push(Source::Stdin);
        r
    } else {
        let mut r: Vec<Source> = Vec::new();
        let mut i: usize = 0;
        while i < files.len()
            invariant
                i <= files@.len(),
                r@.len() == i,
                forall|k: int| 0 <= k < i ==> source_matches(#[trigger] r@[k], files@[k]@),
            decreases files@.len() - i,
        {
            r.push(resolve(&files[i]));
            i = i + 1;
        }
        r
    }
}

/// The one-line diagnostic for a source that could not be opened.
pub open spec fn diag_line(name: Seq<char>, err: Seq<char>) -> Seq<char> {
    name + ": "@ + err
}

pub fn make_diag(name: &String, err: &String) -> (r: String)
    ensures
        r@ == diag_line(name@, err@),
{
    let mut r = name.clone();
    r.append(": ");
    r.append(err.as_str());
    proof {
        assert(r@ =~= diag_line(name@, err@));
    }
    r
}

} // verus!
