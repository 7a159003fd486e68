use vstd::prelude::*;

verus! {

// ---------------------------------------------------------------------------
// SDP answer sanitization.
//
// Some servers emit a stray `a=framerate:...` attribute line that strict SDP
// parsers reject. Before an answer is handed to the transport engine, every
// line that starts with `a=framerate:` is removed; all other bytes pass
// through unchanged. A line runs up to and including its line feed; the final
// line may lack one. Carriage returns are ordinary line bytes.
// ---------------------------------------------------------------------------

/// The bytes of `a=framerate:`.
pub open spec fn framerate_prefix() -> Seq<u8> {
    seq![97u8, 61u8, 102u8, 114u8, 97u8, 109u8, 101u8, 114u8, 97u8, 116u8, 101u8, 58u8]
}

/// Whether a line begins with `a=framerate:`.
pub open spec fn starts_framerate(line: Seq<u8>) -> bool {
    line.len() >= 12 && forall|k: int| 0 <= k < 12 ==> line[k] == framerate_prefix()[k]
}

/// Offset of the first line feed in `s`, or `s.len()` if there is none.
pub open spec fn first_nl(s: Seq<u8>) -> nat
    decreases s.len(),
{
    if s.len() == 0 {
        0
    } else if s[0] == 10 {
        0
    } else {
        1 + first_nl(s.drop_first())
    }
}

pub proof fn lemma_first_nl(s: Seq<u8>)
    ensures
        first_nl(s) <= s.len(),
        forall|k: int| 0 <= k < first_nl(s) ==> s[k] != 10,
        first_nl(s) < s.len() ==> s[first_nl(s) as int] == 10,
    decreases s.len(),
{
    if s.len() == 0 {
    } else if s[0] == 10 {
    } else {
        lemma_first_nl(s.drop_first());
        let i = first_nl(s.drop_first());
        if i < s.drop_first().len() {
            assert(s[i as int + 1] == s.drop_first()[i as int]);
        }
        assert forall|k: int| 0 <= k < first_nl(s) implies s[k] != 10 by {
            if k > 0 {
                assert(s.drop_first()[k - 1] == s[k]);
            }
        }
    }
}

/// If everything before `j` is not a line feed, and `j` is one (or the end),
/// then `j` is the first line feed.
pub proof fn lemma_first_nl_at(s: Seq<u8>, j: int)
    requires
        0 <= j <= s.len(),
        forall|k: int| 0 <= k < j ==> s[k] != 10,
        j < s.len() ==> s[j] == 10,
    ensures
        first_nl(s) == j,
{
    lemma_first_nl(s);
    let i = first_nl(s);
    if i < j {
        assert(s[i as int] != 10);
        assert(false);
    }
    if j < i {
        assert(s[j] != 10);
        assert(false);
    }
}

/// The sanitised text: the lines of `s`, in order, without those that start
/// with `a=framerate:`.
pub open spec fn sanitize_spec(s: Seq<u8>) -> Seq<u8>
    decreases s.len(),
{
    if s.len() == 0 {
        Seq::empty()
    } else {
        let i = first_nl(s);
        if i < s.len() {
            let line = s.take(i as int + 1);
            let rest = s.skip(i as int + 1);
            if starts_framerate(line) {
                sanitize_spec(rest)
            } else {
                line + sanitize_spec(rest)
            }
        } else {
            if starts_framerate(s) {
                Seq::empty()
            } else {
                s
            }
        }
    }
}

/// The byte at position `i` of `a=framerate:`.
fn framerate_prefix_byte(i: usize) -> (r: u8)
    requires
        i < 12,
    ensures
        r == framerate_prefix()[i as int],
{
    if i == 0 {
        97
    } else if i == 1 {
        61
    } else if i == 2 {
        102
    } else if i == 3 {
        114
    } else if i == 4 {
        97
    } else if i == 5 {
        109
    } else if i == 6 {
        101
    } else if i == 7 {
        114
    } else if i == 8 {
        97
    } else if i == 9 {
        116
    } else if i == 10 {
        101
    } else {
        58
    }
}

/// Whether the bytes at `pos..end` begin with `a=framerate:`.
fn matches_framerate(v: &Vec<u8>, pos: usize, end: usize) -> (r: bool)
    requires
        pos <= end <= v@.len(),
    ensures
        r == starts_framerate(v@.subrange(pos as int, end as int)),
{
    let ghost line = v@.subrange(pos as int, end as int);
    if end - pos < 12 {
        return false;
    }
    let mut k: usize = 0;
    while k < 12
        invariant
            k <= 12,
            pos + 12 <= end <= v@.len(),
            line == v@.subrange(pos as int, end as int),
            forall|t: int| 0 <= t < k ==> line[t] == framerate_prefix()[t],
        decreases 12 - k,
    {
        if *&v[pos + k] != framerate_prefix_byte(k) {
            proof {
                assert(line[k as int] == v@[pos + k]);
                assert(!starts_framerate(line));
            }
            return false;
        }
        proof {
            assert(line[k as int] == v@[pos + k]);
        }
        k = k + 1;
    }
    true
}

/// Remove every `a=framerate:` line from an SDP text; all other bytes are
/// kept, in order.
pub fn sanitize_sdp(input: &Vec<u8>) -> (out: Vec<u8>)
    ensures
        out@ == sanitize_spec(input@),
{
    let n = input.len();
    let mut out: Vec<u8> = Vec::new();
    let mut pos: usize = 0;
    proof {
        assert(input@.skip(0) =~= input@);
        assert(Seq::<u8>::empty() + sanitize_spec(input@) =~= sanitize_spec(input@));
    }
    while pos < n
        invariant
            pos <= n,
            n == input@.len(),
            sanitize_spec(input@) == out@ + sanitize_spec(input@.skip(pos as int)),
        decreases n - pos,
    {
        let ghost tail = input@.skip(pos as int);
        // Find the end of the current line.
        let mut j: usize = pos;
        while j < n && *&input[j] != 10
            invariant
                pos <= j <= n,
                n == input@.len(),
                forall|k: int| pos <= k < j ==> input@[k] != 10,
            decreases n - j,
        {
            j = j + 1;
        }
        proof {
            assert forall|k: int| 0 <= k < j - pos implies tail[k] != 10 by {
                assert(tail[k] == input@[pos + k]);
            }
            if j < n {
                assert(tail[j - pos] == input@[j as int]);
            }
            lemma_first_nl_at(tail, j - pos as int);
        }
        let line_end = if j < n {
            j + 1
        } else {
            n
        };
        let ghost line = input@.subrange(pos as int, line_end as int);
        proof {
            if j < n {
                assert(line =~= tail.take(j - pos + 1));
                assert(input@.skip(line_end as int) =~= tail.skip(j - pos + 1));
            } else {
                assert(line =~= tail);
            }
        }
        let ghost out0 = out@;
        let ghost rest = input@.skip(line_end as int);
        proof {
            // One unfolding of the specification at the current line.
            if j < n {
                assert(sanitize_spec(tail) == if starts_framerate(line) {
                    sanitize_spec(rest)
                } else {
                    line + sanitize_spec(rest)
                });
            } else {
                assert(rest =~= Seq::<u8>::empty());
                assert(sanitize_spec(tail) == if starts_framerate(line) {
                    Seq::<u8>::empty()
                } else {
                    line
                });
            }
        }
        if !matches_framerate(input, pos, line_end) {
            let mut k: usize = pos;
            while k < line_end
                invariant
                    pos <= k <= line_end <= n,
                    n == input@.len(),
                    out@ == out0 + input@.subrange(pos as int, k as int),
                decreases line_end - k,
            {
                let byte = *&input[k];
                out.push(byte);
                proof {
                    assert(input@.subrange(pos as int, k + 1) =~= input@.subrange(
                        pos as int,
                        k as int,
                    ).push(input@[k as int]));
                }
                k = k + 1;
            }
            proof {
                assert(out@ == out0 + line);
                assert((out0 + line) + sanitize_spec(rest) =~= out0 + (line + sanitize_spec(
                    rest,
                )));
                if j >= n {
                    assert(sanitize_spec(rest) =~= Seq::<u8>::empty());
                    assert(line + Seq::<u8>::empty() =~= line);
                }
            }
        } else {
            proof {
                if j >= n {
                    assert(sanitize_spec(rest) =~= Seq::<u8>::empty());
                    assert(out0 + Seq::<u8>::empty() =~= out0);
                    assert(out0 + sanitize_spec(tail) =~= out0);
                }
            }
        }
        pos = line_end;
    }
    proof {
        assert(input@.skip(n as int) =~= Seq::<u8>::empty());
        assert(out@ + Seq::<u8>::empty() =~= out@);
    }
    out
}

} // verus!
