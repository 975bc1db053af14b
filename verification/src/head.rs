//! Head mode: for each source in order, emit a bounded amount of content —
//! the first N lines, or the first N bytes decoded as UTF-8 with lossy
//! replacement. With more than one source each gets a header line, and a
//! blank line separates consecutive headers. A source that could not be
//! opened yields a diagnostic and is skipped.

use vstd::prelude::*;
use vstd::string::*;
use crate::lines::{head_lines, head_lines_spec};
use crate::parsing::{dec_value, parse_ok, parse_positive_int};
use crate::source::{diag_line, make_diag, resolve_sources, sources_resolved, Source};

verus! {

/// The bound on how much of each source head mode emits: exactly one of a
/// line count or a byte count, each positive.
#[derive(Debug)]
pub enum Limit {
    Lines(usize),
    Bytes(usize),
}

pub open spec fn limit_valid(l: Limit) -> bool {
    match l {
        Limit::Lines(n) => n > 0,
        Limit::Bytes(b) => b > 0,
    }
}

/// A validated head-mode configuration.
#[derive(Debug)]
pub struct Config {
    pub sources: Vec<Source>,
    pub limit: Limit,
}

/// The error for an invalid `--lines` value.
pub open spec fn lines_error(v: Seq<char>) -> Seq<char> {
    "error: invalid value '"@ + v + "' for '--lines <LINES>': invalid digit found in string"@
}

/// The error for an invalid `--bytes` value.
pub open spec fn bytes_error(v: Seq<char>) -> Seq<char> {
    "invalid value '"@ + v + "' for '--bytes <BYTES>': invalid digit found in string"@
}

pub open spec fn opt_value_ok(o: Option<String>) -> bool {
    match o {
        Option::Some(s) => parse_ok(s@),
        Option::None => true,
    }
}

/// Which error message an invalid option pair produces: an invalid
/// `--lines` value is reported first.
pub open spec fn options_error(lines: Option<String>, bytes: Option<String>) -> Seq<char> {
    match lines {
        Option::Some(ls) => if !parse_ok(ls@) {
            lines_error(ls@)
        } else {
            options_bytes_error(bytes)
        },
        Option::None => options_bytes_error(bytes),
    }
}

pub open spec fn options_bytes_error(bytes: Option<String>) -> Seq<char> {
    match bytes {
        Option::Some(bs) => bytes_error(bs@),
        Option::None => Seq::empty(),
    }
}

/// The limit a valid option pair configures: the byte count when `--bytes`
/// is given, else the line count, defaulting to 10.
pub open spec fn limit_matches(l: Limit, lines: Option<String>, bytes: Option<String>) -> bool {
    match bytes {
        Option::Some(bs) => l matches Limit::Bytes(b) && b == dec_value(bs@),
        Option::None => l matches Limit::Lines(n) && n == (match lines {
            Option::Some(ls) => dec_value(ls@),
            Option::None => 10,
        }),
    }
}

fn lines_error_string(v: &str) -> (r: String)
    ensures
        r@ == lines_error(v@),
{
    let mut r = "error: invalid value '".to_owned();
    r.append(v);
    r.append("' for '--lines <LINES>': invalid digit found in string");
    r
}

fn bytes_error_string(v: &str) -> (r: String)
    ensures
        r@ == bytes_error(v@),
{
    let mut r = "invalid value '".to_owned();
    r.append(v);
    r.append("' for '--bytes <BYTES>': invalid digit found in string");
    r
}

impl Config {
    pub open spec fn wf(self) -> bool {
        limit_valid(self.limit) && self.sources@.len() >= 1
    }

    /// Validate raw option values and resolve the source list; nothing is
    /// opened here. A numeric value is accepted exactly when it is a
    /// positive decimal integer; otherwise the error names the option and
    /// the offending value.
    pub fn from_options(files: Vec<String>, lines: Option<String>, bytes: Option<String>) -> (r:
        Result<Config, String>)
        requires
            !(lines is Some && bytes is Some),
        ensures
            r is Ok <==> opt_value_ok(lines) && opt_value_ok(bytes),
            r matches Ok(c) ==> c.wf() && sources_resolved(c.sources@, files@) && limit_matches(
                c.limit,
                lines,
                bytes,
            ),
            r matches Err(e) ==> e@ == options_error(lines, bytes),
    {
        let n: usize = match &lines {
            Option::Some(ls) => match parse_positive_int(ls.as_str()) {
                Ok(v) => v,
                Err(_) => {
                    return Err(lines_error_string(ls.as_str()));
                },
            },
            Option::None => 10,
        };
        let limit: Limit = match &bytes {
            Option::Some(bs) => match parse_positive_int(bs.as_str()) {
                Ok(v) => Limit::Bytes(v),
                Err(_) => {
                    return Err(bytes_error_string(bs.as_str()));
                },
            },
            Option::None => Limit::Lines(n),
        };
        let sources = resolve_sources(&files);
        Ok(Config { sources, limit })
    }
}

/// What the lossy UTF-8 decoding of a byte sequence reads as.
pub uninterp spec fn lossy_of(b: Seq<u8>) -> Seq<char>;

/// Relies on String::from_utf8_lossy: the decoding is a function of the
/// bytes alone, with invalid sequences replaced.
#[verifier::external_body]
fn lossy_string(b: &Vec<u8>) -> (r: String)
    ensures
        r@ == lossy_of(b@),
{
    String::from_utf8_lossy(b).into_owned()
}

/// What head mode with a byte limit emits from one source: at most the
/// first `b` bytes, decoded as UTF-8 with lossy replacement.
pub open spec fn head_bytes_spec(s: Seq<u8>, b: nat) -> Seq<char> {
    lossy_of(
        s.take(
            if b <= s.len() {
                b as int
            } else {
                s.len() as int
            },
        ),
    )
}

/// Emit at most the first `b` bytes of a source, decoded as UTF-8 with
/// lossy replacement.
pub fn head_bytes(data: &Vec<u8>, b: usize) -> (r: String)
    ensures
        r@ == head_bytes_spec(data@, b as nat),
{
    let m = if b <= data.len() {
        b
    } else {
        data.len()
    };
    let mut pre: Vec<u8> = Vec::new();
    let mut k: usize = 0;
    while k < m
        invariant
            k <= m,
            m <= data@.len(),
            pre@ == data@.take(k as int),
        decreases m - k,
    {
        pre.push(data[k]);
        k = k + 1;
        proof {
            assert(data@.take(k - 1).push(data@[k - 1]) =~= data@.take(k as int));
        }
    }
    lossy_string(&pre)
}

/// A source with at least `b` bytes: exactly the first `b` bytes are
/// decoded.
pub proof fn lemma_head_bytes_first_b(s: Seq<u8>, b: nat)
    requires
        b <= s.len(),
    ensures
        head_bytes_spec(s, b) == lossy_of(s.take(b as int)),
{
}

/// A byte limit of at least the source length decodes the entire source.
pub proof fn lemma_head_bytes_whole_source(s: Seq<u8>, b: nat)
    requires
        s.len() <= b,
    ensures
        head_bytes_spec(s, b) == lossy_of(s),
{
    assert(s.take(s.len() as int) =~= s);
}

/// The outcome of opening and reading one source, as the surrounding
/// program hands it in: the content, or the text of the open error.
pub enum Fetched {
    Data(Vec<u8>),
    Failed(String),
}

pub struct FetchedSource {
    pub name: String,
    pub fetch: Fetched,
}

/// What head mode emits for one source: raw bytes in line mode, decoded
/// text in byte mode.
pub enum HeadBody {
    Raw(Vec<u8>),
    Text(String),
}

pub struct Emission {
    pub diag: Option<String>,
    pub header: Option<String>,
    pub body: HeadBody,
}

/// The header line announcing a source; every header after the first is
/// preceded by a blank line.
pub open spec fn header_line(name: Seq<char>, first: bool) -> Seq<char> {
    (if first {
        Seq::<char>::empty()
    } else {
        "\n"@
    }) + "==> "@ + name + " <==\n"@
}

pub fn make_header(name: &String, first: bool) -> (r: String)
    ensures
        r@ == header_line(name@, first),
{
    let mut r = String::new();
    if !first {
        r.append("\n");
    }
    r.append("==> ");
    r.append(name.as_str());
    r.append(" <==\n");
    proof {
        assert(r@ =~= header_line(name@, first));
    }
    r
}

/// What head mode owes for source `i` of `total`: a failed source yields
/// its diagnostic and nothing else; a readable one yields its header
/// (when more than one source is configured) and its bounded content.
pub open spec fn head_emission_ok(
    e: Emission,
    src: FetchedSource,
    i: int,
    total: int,
    limit: Limit,
) -> bool {
    match src.fetch {
        Fetched::Failed(err) => {
            &&& e.diag matches Option::Some(d) && d@ == diag_line(src.name@, err@)
            &&& e.header is None
            &&& e.body matches HeadBody::Raw(v) && v@ == Seq::<u8>::empty()
        },
        Fetched::Data(data) => {
            &&& e.diag is None
            &&& (if total > 1 {
                e.header matches Option::Some(h) && h@ == header_line(src.name@, i == 0)
            } else {
                e.header is None
            })
            &&& (match limit {
                Limit::Lines(n) => e.body matches HeadBody::Raw(v) && v@ == head_lines_spec(
                    data@,
                    n as nat,
                ),
                Limit::Bytes(b) => e.body matches HeadBody::Text(t) && t@ == head_bytes_spec(
                    data@,
                    b as nat,
                ),
            })
        },
    }
}

/// Run head mode over the fetched sources, in order. A source that failed
/// to open contributes only its diagnostic; every other source contributes
/// its header (when more than one source is configured) and its bounded
/// content.
pub fn head_run(sources: &Vec<FetchedSource>, limit: &Limit) -> (r: Vec<Emission>)
    ensures
        r@.len() == sources@.len(),
        forall|i: int|
            0 <= i < r@.len() ==> head_emission_ok(
                #[trigger] r@[i],
                sources@[i],
                i,
                sources@.len() as int,
                *limit,
            ),
{
    let total = sources.len();
    let mut r: Vec<Emission> = Vec::new();
    let mut i: usize = 0;
    while i < total
        invariant
            total == sources@.len(),
            i <= total,
            r@.len() == i,
            forall|k: int|
                0 <= k < i ==> head_emission_ok(
                    #[trigger] r@[k],
                    sources@[k],
                    k,
                    sources@.len() as int,
                    *limit,
                ),
        decreases total - i,
    {
        let src = &sources[i];
        let e = match &src.fetch {
            Fetched::Failed(err) => {
                let none_body: Vec<u8> = Vec::new();
                proof {
                    assert(none_body@ =~= Seq::<u8>::empty());
                }
                Emission {
                    diag: Option::Some(make_diag(&src.name, err)),
                    header: Option::None,
                    body: HeadBody::Raw(none_body),
                }
            },
            Fetched::Data(data) => {
                let header = if total > 1 {
                    Option::Some(make_header(&src.name, i == 0))
                } else {
                    Option::None
                };
                let body = match limit {
                    Limit::Lines(n) => HeadBody::Raw(head_lines(data, *n)),
                    Limit::Bytes(b) => HeadBody::Text(head_bytes(data, *b)),
                };
                Emission { diag: Option::None, header, body }
            },
        };
        r.push(e);
        i = i + 1;
    }
    r
}

} // verus!
