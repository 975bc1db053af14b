//! Lines of a byte stream. A line extends up to and including its newline
//! byte; the final line may lack one. Head mode emits a bounded number of
//! whole lines, byte for byte.

use vstd::prelude::*;

verus! {

pub open spec fn newline() -> u8 {
    10u8
}

/// Length of the first line of `s`, terminator included.
pub open spec fn first_line_len(s: Seq<u8>) -> nat
    decreases s.len(),
{
    if s.len() == 0 {
        0
    } else if s[0] == newline() {
        1
    } else {
        1 + first_line_len(s.skip(1))
    }
}

pub proof fn lemma_first_line_len_bounds(s: Seq<u8>)
    requires
        s.len() > 0,
    ensures
        1 <= first_line_len(s) <= s.len(),
    decreases s.len(),
{
    if s[0] != newline() {
        if s.len() > 1 {
            lemma_first_line_len_bounds(s.skip(1));
        } else {
            assert(s.skip(1).len() == 0);
            assert(first_line_len(s.skip(1)) == 0);
        }
    }
}

/// The sequence of lines of a byte stream, each keeping its newline.
pub open spec fn lines_of(s: Seq<u8>) -> Seq<Seq<u8>>
    decreases s.len(),
{
    if s.len() == 0 {
        Seq::empty()
    } else {
        proof {
            lemma_first_line_len_bounds(s);
        }
        seq![s.take(first_line_len(s) as int)] + lines_of(s.skip(first_line_len(s) as int))
    }
}

pub open spec fn byte_views(v: Seq<Vec<u8>>) -> Seq<Seq<u8>> {
    v.map_values(|x: Vec<u8>| x@)
}

/// The first line ends at the first newline, or at the end of the stream.
proof fn lemma_first_line_len_at(t: Seq<u8>, m: int)
    requires
        0 <= m <= t.len(),
        forall|k: int| 0 <= k < m ==> t[k] != newline(),
        m == t.len() || t[m] == newline(),
    ensures
        first_line_len(t) == if m == t.len() {
            m
        } else {
            m + 1
        },
    decreases m,
{
    if m > 0 {
        let t1 = t.skip(1);
        assert forall|k: int| 0 <= k < m - 1 implies t1[k] != newline() by {
            assert(t1[k] == t[k + 1]);
        }
        if m < t.len() {
            assert(t1[m - 1] == t[m]);
        }
        lemma_first_line_len_at(t1, m - 1);
    }
}

/// Joining the lines of a stream yields the stream again.
pub proof fn lemma_lines_flatten(s: Seq<u8>)
    ensures
        lines_of(s).flatten() == s,
    decreases s.len(),
{
    if s.len() == 0 {
        assert(lines_of(s).flatten() =~= s);
    } else {
        lemma_first_line_len_bounds(s);
        let l = first_line_len(s) as int;
        lemma_lines_flatten(s.skip(l));
        let ls = lines_of(s);
        assert(ls == seq![s.take(l)] + lines_of(s.skip(l)));
        assert(ls.first() == s.take(l));
        assert(ls.drop_first() =~= lines_of(s.skip(l)));
        assert(ls.flatten() == ls.first() + ls.drop_first().flatten());
        assert(s.take(l) + s.skip(l) =~= s);
    }
}

/// Split a byte stream into its lines.
pub fn split_lines(data: &Vec<u8>) -> (r: Vec<Vec<u8>>)
    ensures
        byte_views(r@) == lines_of(data@),
{
    let ghost s = data@;
    let mut out: Vec<Vec<u8>> = Vec::new();
    let mut cur: Vec<u8> = Vec::new();
    let mut start: usize = 0;
    let mut i: usize = 0;
    proof {
        assert(byte_views(out@) =~= Seq::<Seq<u8>>::empty());
        assert(s.skip(0) =~= s);
        assert(lines_of(s) =~= byte_views(out@) + lines_of(s.skip(0)));
    }
    while i < data.len()
        invariant
            s == data@,
            start <= i <= s.len(),
            cur@ == s.subrange(start as int, i as int),
            forall|k: int| start <= k < i ==> s[k] != newline(),
            lines_of(s) == byte_views(out@) + lines_of(s.skip(start as int)),
        decreases s.len() - i,
    {
        let b = data[i];
        cur.push(b);
        proof {
            assert(cur@ =~= s.subrange(start as int, i + 1));
        }
        if b == 10 {
            proof {
                let u = s.skip(start as int);
                let m = i - start;
                assert forall|k: int| 0 <= k < m implies u[k] != newline() by {
                    assert(u[k] == s[k + start]);
                }
                assert(u[m] == s[i as int]);
                lemma_first_line_len_at(u, m);
                assert(u.len() > 0);
                let l = first_line_len(u) as int;
                assert(l == m + 1);
                assert(lines_of(u) == seq![u.take(l)] + lines_of(u.skip(l)));
                assert(u.take(l) =~= cur@);
                assert(u.skip(l) =~= s.skip(i + 1));
                assert(byte_views(out@.push(cur)) =~= byte_views(out@) + seq![cur@]);
                assert(byte_views(out@) + (seq![cur@] + lines_of(s.skip(i + 1))) =~= (byte_views(
                    out@,
                ) + seq![cur@]) + lines_of(s.skip(i + 1)));
            }
            out.push(cur);
            cur = Vec::new();
            start = i + 1;
            proof {
                assert(cur@ =~= s.subrange(start as int, i + 1));
            }
        }
        i = i + 1;
    }
    if cur.len() > 0 {
        proof {
            let u = s.skip(start as int);
            let m = i - start;
            assert forall|k: int| 0 <= k < m implies u[k] != newline() by {
                assert(u[k] == s[k + start]);
            }
            lemma_first_line_len_at(u, m);
            let l = first_line_len(u) as int;
            assert(lines_of(u) == seq![u.take(l)] + lines_of(u.skip(l)));
            assert(u.take(l) =~= cur@);
            assert(u.skip(l) =~= Seq::<u8>::empty());
            assert(lines_of(u.skip(l)) =~= Seq::<Seq<u8>>::empty());
            assert(lines_of(u) =~= seq![cur@]);
            assert(byte_views(out@.push(cur)) =~= byte_views(out@) + seq![cur@]);
        }
        out.push(cur);
    } else {
        proof {
            assert(start == i);
            assert(s.skip(start as int).len() == 0);
            assert(lines_of(s.skip(start as int)) =~= Seq::<Seq<u8>>::empty());
            assert(byte_views(out@) + lines_of(s.skip(start as int)) =~= byte_views(out@));
        }
    }
    out
}

fn append_bytes(out: &mut Vec<u8>, more: &Vec<u8>)
    ensures
        final(out)@ == old(out)@ + more@,
{
    let ghost orig = out@;
    let mut k: usize = 0;
    while k < more.len()
        invariant
            k <= more.len(),
            out@ == orig + more@.take(k as int),
        decreases more.len() - k,
    {
        out.push(more[k]);
        k = k + 1;
        proof {
            assert(orig + more@.take(k - 1).push(more@[k - 1]) =~= orig + more@.take(k as int));
        }
    }
    proof {
        assert(orig + more@.take(more@.len() as int) =~= orig + more@);
    }
}

/// What head mode with a line limit emits from one source: the first
/// `n` lines, or the whole stream when it has no more than `n` lines.
pub open spec fn head_lines_spec(s: Seq<u8>, n: nat) -> Seq<u8> {
    let ls = lines_of(s);
    ls.take(if n <= ls.len() {
        n as int
    } else {
        ls.len() as int
    }).flatten()
}

/// Emit the first `n` lines of a byte stream.
pub fn head_lines(data: &Vec<u8>, n: usize) -> (r: Vec<u8>)
    ensures
        r@ == head_lines_spec(data@, n as nat),
{
    let lines = split_lines(data);
    let ghost ls = lines_of(data@);
    let m = if n <= lines.len() {
        n
    } else {
        lines.len()
    };
    let mut out: Vec<u8> = Vec::new();
    let mut j: usize = 0;
    proof {
        assert(ls.take(0).flatten() =~= Seq::<u8>::empty());
    }
    while j < m
        invariant
            byte_views(lines@) == ls,
            ls == lines_of(data@),
            m <= lines@.len(),
            j <= m,
            out@ == ls.take(j as int).flatten(),
        decreases m - j,
    {
        append_bytes(&mut out, &lines[j]);
        proof {
            assert(lines@[j as int]@ == ls[j as int]);
            assert(ls.take(j + 1) =~= ls.take(j as int).push(ls[j as int]));
            ls.take(j as int).lemma_flatten_push(ls[j as int]);
        }
        j = j + 1;
    }
    proof {
        assert(out@ == head_lines_spec(data@, n as nat));
    }
    out
}

/// A line limit of at least the line count makes head emit the entire
/// source.
pub proof fn lemma_head_lines_whole_source(s: Seq<u8>, n: nat)
    requires
        lines_of(s).len() <= n,
    ensures
        head_lines_spec(s, n) == s,
{
    lemma_lines_flatten(s);
    assert(lines_of(s).take(lines_of(s).len() as int) =~= lines_of(s));
}

/// A source with at least `n` lines makes head with line limit `n` emit
/// exactly the first `n` lines, terminators included.
pub proof fn lemma_head_lines_first_n(s: Seq<u8>, n: nat)
    requires
        n <= lines_of(s).len(),
    ensures
        head_lines_spec(s, n) == lines_of(s).take(n as int).flatten(),
{
}

} // verus!
