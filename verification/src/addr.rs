use vstd::prelude::*;

verus! {

// ---------------------------------------------------------------------------
// IPv4 addresses as plain values.
//
// Interface addresses arrive as display text ("192.168.1.7"). The parser below
// accepts exactly the canonical dotted-quad rendering (no leading zeros, four
// groups, each 0..=255) and is specified against `ipv4_render`, the canonical
// rendering function: parsing succeeds if and only if the text is the
// rendering of some quad, and then returns that quad.
// ---------------------------------------------------------------------------

/// An IPv4 host address paired with the UDP port of the session socket.
#[derive(Clone, Copy, Debug, PartialEq, Eq, Structural)]
pub struct HostAddr {
    pub a: u8,
    pub b: u8,
    pub c: u8,
    pub d: u8,
    pub port: u16,
}

/// A loopback address: first octet 127.
pub open spec fn spec_is_loopback(a: u8, b: u8, c: u8, d: u8) -> bool {
    a == 127
}

/// A link-local address: 169.254.0.0/16.
pub open spec fn spec_is_link_local(a: u8, b: u8, c: u8, d: u8) -> bool {
    a == 169 && b == 254
}

pub fn is_loopback(a: u8, b: u8, c: u8, d: u8) -> (r: bool)
    ensures
        r == spec_is_loopback(a, b, c, d),
{
    a == 127
}

pub fn is_link_local(a: u8, b: u8, c: u8, d: u8) -> (r: bool)
    ensures
        r == spec_is_link_local(a, b, c, d),
{
    a == 169 && b == 254
}

pub open spec fn is_digit(c: char) -> bool {
    '0' <= c && c <= '9'
}

pub open spec fn digit_val(c: char) -> int {
    c as int - '0' as int
}

pub open spec fn digit_char(n: int) -> char {
    if n == 0 {
        '0'
    } else if n == 1 {
        '1'
    } else if n == 2 {
        '2'
    } else if n == 3 {
        '3'
    } else if n == 4 {
        '4'
    } else if n == 5 {
        '5'
    } else if n == 6 {
        '6'
    } else if n == 7 {
        '7'
    } else if n == 8 {
        '8'
    } else {
        '9'
    }
}

/// Canonical decimal rendering of one octet: no leading zeros.
pub open spec fn dec_render(n: u8) -> Seq<char> {
    if n < 10 {
        seq![digit_char(n as int)]
    } else if n < 100 {
        seq![digit_char(n as int / 10), digit_char(n as int % 10)]
    } else {
        seq![
            digit_char(n as int / 100),
            digit_char((n as int / 10) % 10),
            digit_char(n as int % 10),
        ]
    }
}

/// Canonical rendering of a dotted quad.
pub open spec fn ipv4_render(a: u8, b: u8, c: u8, d: u8) -> Seq<char> {
    dec_render(a) + seq!['.'] + dec_render(b) + seq!['.'] + dec_render(c) + seq!['.'] + dec_render(
        d,
    )
}

/// Parse one canonical decimal group: length 1 to 3, digits only, no leading
/// zero on multi-digit groups, value at most 255.
pub open spec fn octet_of(s: Seq<char>) -> Option<u8> {
    if s.len() == 1 && is_digit(s[0]) {
        Some(digit_val(s[0]) as u8)
    } else if s.len() == 2 && is_digit(s[0]) && s[0] != '0' && is_digit(s[1]) {
        Some((10 * digit_val(s[0]) + digit_val(s[1])) as u8)
    } else if s.len() == 3 && is_digit(s[0]) && s[0] != '0' && is_digit(s[1]) && is_digit(s[2])
        && 100 * digit_val(s[0]) + 10 * digit_val(s[1]) + digit_val(s[2]) <= 255 {
        Some((100 * digit_val(s[0]) + 10 * digit_val(s[1]) + digit_val(s[2])) as u8)
    } else {
        None
    }
}

/// Index of the first '.' in `s`, if any.
pub open spec fn find_dot(s: Seq<char>) -> Option<int>
    decreases s.len(),
{
    if s.len() == 0 {
        None
    } else if s[0] == '.' {
        Some(0)
    } else {
        match find_dot(s.drop_first()) {
            None => None,
            Some(i) => Some(i + 1),
        }
    }
}

/// The parser, at specification level: split at the first three dots, parse
/// each group canonically, and demand that the last group holds no dot.
pub open spec fn ipv4_of(s: Seq<char>) -> Option<(u8, u8, u8, u8)> {
    match find_dot(s) {
        None => None,
        Some(i1) => match octet_of(s.take(i1)) {
            None => None,
            Some(a) => {
                let s1 = s.skip(i1 + 1);
                match find_dot(s1) {
                    None => None,
                    Some(i2) => match octet_of(s1.take(i2)) {
                        None => None,
                        Some(b) => {
                            let s2 = s1.skip(i2 + 1);
                            match find_dot(s2) {
                                None => None,
                                Some(i3) => match octet_of(s2.take(i3)) {
                                    None => None,
                                    Some(c) => {
                                        let s3 = s2.skip(i3 + 1);
                                        match find_dot(s3) {
                                            Some(_) => None,
                                            None => match octet_of(s3) {
                                                None => None,
                                                Some(d) => Some((a, b, c, d)),
                                            },
                                        }
                                    },
                                },
                            }
                        },
                    },
                }
            },
        },
    }
}

/// `find_dot` returns the first dot: characterisation in both directions.
pub proof fn lemma_find_dot_char(s: Seq<char>)
    ensures
        match find_dot(s) {
            Some(j) => 0 <= j < s.len() && s[j] == '.' && forall|k: int|
                0 <= k < j ==> s[k] != '.',
            None => forall|k: int| 0 <= k < s.len() ==> s[k] != '.',
        },
    decreases s.len(),
{
    if s.len() == 0 {
    } else if s[0] == '.' {
    } else {
        lemma_find_dot_char(s.drop_first());
        match find_dot(s.drop_first()) {
            None => {
                assert forall|k: int| 0 <= k < s.len() implies s[k] != '.' by {
                    if k > 0 {
                        assert(s.drop_first()[k - 1] == s[k]);
                    }
                }
            },
            Some(i) => {
                assert(s[i + 1] == s.drop_first()[i]);
                assert forall|k: int| 0 <= k < i + 1 implies s[k] != '.' by {
                    if k > 0 {
                        assert(s.drop_first()[k - 1] == s[k]);
                    }
                }
            },
        }
    }
}

/// If position `j` holds the first dot of `s`, then `find_dot` returns `j`.
pub proof fn lemma_find_dot_at(s: Seq<char>, j: int)
    requires
        0 <= j < s.len(),
        s[j] == '.',
        forall|k: int| 0 <= k < j ==> s[k] != '.',
    ensures
        find_dot(s) == Some(j),
{
    lemma_find_dot_char(s);
    match find_dot(s) {
        None => {
            assert(false);
        },
        Some(j2) => {
            if j2 < j {
                assert(s[j2] != '.');
                assert(false);
            }
            if j < j2 {
                assert(s[j] != '.');
                assert(false);
            }
        },
    }
}

/// If `s` holds no dot at all, `find_dot` returns `None`.
pub proof fn lemma_find_dot_none(s: Seq<char>)
    requires
        forall|k: int| 0 <= k < s.len() ==> s[k] != '.',
    ensures
        find_dot(s) is None,
{
    lemma_find_dot_char(s);
    match find_dot(s) {
        None => {},
        Some(j) => {
            assert(s[j] != '.');
            assert(false);
        },
    }
}

/// Every character of a canonical decimal group is a digit (never a dot).
pub proof fn lemma_dec_render_digits(n: u8)
    ensures
        forall|i: int| 0 <= i < dec_render(n).len() ==> #[trigger] is_digit(dec_render(n)[i]),
        forall|i: int| 0 <= i < dec_render(n).len() ==> dec_render(n)[i] != '.',
        1 <= dec_render(n).len() <= 3,
{
    assert forall|i: int| 0 <= i < dec_render(n).len() implies #[trigger] is_digit(
        dec_render(n)[i],
    ) && dec_render(n)[i] != '.' by {
        let c = dec_render(n)[i];
        if n < 10 {
            assert(c == digit_char(n as int));
        } else if n < 100 {
            assert(0 <= n as int / 10 <= 9);
            assert(0 <= n as int % 10 <= 9);
        } else {
            assert(0 <= n as int / 100 <= 9);
            assert(0 <= (n as int / 10) % 10 <= 9);
            assert(0 <= n as int % 10 <= 9);
        }
    }
}

proof fn lemma_two_digit(q: int, r: int)
    requires
        1 <= q <= 9,
        0 <= r <= 9,
    ensures
        (10 * q + r) / 10 == q,
        (10 * q + r) % 10 == r,
{
    assert((10 * q + r) / 10 == q && (10 * q + r) % 10 == r) by (nonlinear_arith)
        requires
            1 <= q <= 9,
            0 <= r <= 9,
    ;
}

proof fn lemma_three_digit(x: int, y: int, z: int)
    requires
        1 <= x <= 9,
        0 <= y <= 9,
        0 <= z <= 9,
    ensures
        (100 * x + 10 * y + z) / 100 == x,
        ((100 * x + 10 * y + z) / 10) % 10 == y,
        (100 * x + 10 * y + z) % 10 == z,
{
    let n = 100 * x + 10 * y + z;
    assert(n / 100 == x && n / 10 == 10 * x + y && n % 10 == z) by (nonlinear_arith)
        requires
            n == 100 * x + 10 * y + z,
            1 <= x <= 9,
            0 <= y <= 9,
            0 <= z <= 9,
    ;
    assert((10 * x + y) % 10 == y) by (nonlinear_arith)
        requires
            1 <= x <= 9,
            0 <= y <= 9,
    ;
}

/// Round trip for one group: parsing its canonical rendering gives it back.
pub proof fn lemma_octet_render(n: u8)
    ensures
        octet_of(dec_render(n)) == Some(n),
{
    let s = dec_render(n);
    if n < 10 {
        assert(is_digit(s[0]));
        assert(digit_val(s[0]) == n as int);
    } else if n < 100 {
        let q = n as int / 10;
        let r = n as int % 10;
        assert(1 <= q <= 9 && 0 <= r <= 9);
        lemma_two_digit(q, r);
        assert(n as int == 10 * q + r);
        assert(digit_val(s[0]) == q && digit_val(s[1]) == r);
        assert(s[0] != '0');
        assert(10 * digit_val(s[0]) + digit_val(s[1]) == n as int);
    } else {
        let x = n as int / 100;
        let y = (n as int / 10) % 10;
        let z = n as int % 10;
        assert(1 <= x <= 9 && 0 <= y <= 9 && 0 <= z <= 9);
        lemma_three_digit(x, y, z);
        assert(100 * x + 10 * y + z == n as int) by {
            assert((100 * x + 10 * y + z) / 100 == x);
            assert(n as int == 100 * (n as int / 100) + (n as int % 100));
            assert(n as int % 100 == 10 * ((n as int % 100) / 10) + (n as int % 100) % 10);
            assert((n as int / 10) % 10 == (n as int % 100) / 10) by (nonlinear_arith);
            assert((n as int) % 10 == (n as int % 100) % 10) by (nonlinear_arith);
        }
        assert(digit_val(s[0]) == x && digit_val(s[1]) == y && digit_val(s[2]) == z);
        assert(s[0] != '0');
    }
}

/// Soundness for one group: a successful parse means the text is canonical.
pub proof fn lemma_octet_sound(s: Seq<char>, n: u8)
    requires
        octet_of(s) == Some(n),
    ensures
        s =~= dec_render(n),
{
    if s.len() == 1 && is_digit(s[0]) {
        assert(n as int == digit_val(s[0]));
        assert(digit_char(n as int) == s[0]);
    } else if s.len() == 2 {
        let q = digit_val(s[0]);
        let r = digit_val(s[1]);
        assert(1 <= q <= 9 && 0 <= r <= 9);
        lemma_two_digit(q, r);
        assert(n as int == 10 * q + r);
        assert(n >= 10 && n < 100);
        assert(dec_render(n)[0] == digit_char(q) && dec_render(n)[1] == digit_char(r));
        assert(digit_char(q) == s[0] && digit_char(r) == s[1]);
    } else {
        let x = digit_val(s[0]);
        let y = digit_val(s[1]);
        let z = digit_val(s[2]);
        assert(1 <= x <= 9 && 0 <= y <= 9 && 0 <= z <= 9);
        lemma_three_digit(x, y, z);
        assert(n as int == 100 * x + 10 * y + z);
        assert(n >= 100);
        assert(digit_char(x) == s[0] && digit_char(y) == s[1] && digit_char(z) == s[2]);
    }
}

/// Decompose `dec_render(n) + '.' + rest`: the first dot sits right after the
/// group, the group parses back to `n`, and the remainder is `rest`.
proof fn lemma_render_step(s: Seq<char>, n: u8, rest: Seq<char>)
    requires
        s == dec_render(n) + seq!['.'] + rest,
    ensures
        find_dot(s) == Some(dec_render(n).len() as int),
        octet_of(s.take(dec_render(n).len() as int)) == Some(n),
        s.skip(dec_render(n).len() as int + 1) =~= rest,
{
    let g = dec_render(n);
    let gl = g.len() as int;
    lemma_dec_render_digits(n);
    assert(s[gl] == '.');
    assert forall|k: int| 0 <= k < gl implies s[k] != '.' by {
        assert(s[k] == g[k]);
        assert(is_digit(g[k]));
    }
    lemma_find_dot_at(s, gl);
    assert(s.take(gl) =~= g);
    lemma_octet_render(n);
}

/// Parsing the canonical rendering of a quad gives the quad back.
#[verifier::rlimit(60)]
pub proof fn lemma_ipv4_render_roundtrip(a: u8, b: u8, c: u8, d: u8)
    ensures
        ipv4_of(ipv4_render(a, b, c, d)) == Some((a, b, c, d)),
{
    let s = ipv4_render(a, b, c, d);
    let rest1 = dec_render(b) + seq!['.'] + dec_render(c) + seq!['.'] + dec_render(d);
    let rest2 = dec_render(c) + seq!['.'] + dec_render(d);
    let rest3 = dec_render(d);
    assert(s =~= dec_render(a) + seq!['.'] + rest1);
    lemma_render_step(s, a, rest1);
    let s1 = s.skip(dec_render(a).len() as int + 1);
    assert(s1 =~= dec_render(b) + seq!['.'] + rest2);
    lemma_render_step(s1, b, rest2);
    let s2 = s1.skip(dec_render(b).len() as int + 1);
    assert(s2 =~= dec_render(c) + seq!['.'] + rest3);
    lemma_render_step(s2, c, rest3);
    let s3 = s2.skip(dec_render(c).len() as int + 1);
    assert(s3 =~= rest3);
    lemma_dec_render_digits(d);
    lemma_find_dot_none(s3);
    lemma_octet_render(d);
}

/// A successful parse means the text is exactly the canonical rendering.
#[verifier::rlimit(60)]
pub proof fn lemma_ipv4_sound(s: Seq<char>, a: u8, b: u8, c: u8, d: u8)
    requires
        ipv4_of(s) == Some((a, b, c, d)),
    ensures
        s =~= ipv4_render(a, b, c, d),
{
    lemma_find_dot_char(s);
    let i1 = find_dot(s)->Some_0;
    lemma_octet_sound(s.take(i1), a);
    let s1 = s.skip(i1 + 1);
    lemma_find_dot_char(s1);
    let i2 = find_dot(s1)->Some_0;
    lemma_octet_sound(s1.take(i2), b);
    let s2 = s1.skip(i2 + 1);
    lemma_find_dot_char(s2);
    let i3 = find_dot(s2)->Some_0;
    lemma_octet_sound(s2.take(i3), c);
    let s3 = s2.skip(i3 + 1);
    lemma_octet_sound(s3, d);
    assert(s2 =~= dec_render(c) + seq!['.'] + dec_render(d));
    assert(s1 =~= dec_render(b) + seq!['.'] + s2);
    assert(s =~= dec_render(a) + seq!['.'] + s1);
    assert(s =~= ipv4_render(a, b, c, d));
}

/// Find the first '.' at or after `start`.
fn find_dot_at(s: &str, n: usize, start: usize) -> (r: Option<usize>)
    requires
        n == s@.len(),
        start <= n,
    ensures
        match r {
            Some(j) => start <= j < n && s@[j as int] == '.' && forall|k: int|
                start <= k < j ==> s@[k] != '.',
            None => forall|k: int| start <= k < n ==> s@[k] != '.',
        },
{
    let mut i: usize = start;
    while i < n
        invariant
            start <= i <= n,
            n == s@.len(),
            forall|k: int| start <= k < i ==> s@[k] != '.',
        decreases n - i,
    {
        if s.get_char(i) == '.' {
            return Some(i);
        }
        i = i + 1;
    }
    None
}

/// Parse the group of characters at positions `lo..hi` as one canonical octet.
fn parse_octet(s: &str, lo: usize, hi: usize) -> (r: Option<u8>)
    requires
        lo <= hi <= s@.len(),
    ensures
        r == octet_of(s@.subrange(lo as int, hi as int)),
{
    let ghost g = s@.subrange(lo as int, hi as int);
    let len = hi - lo;
    if len == 1 {
        let c0 = s.get_char(lo);
        assert(c0 == g[0]);
        if '0' <= c0 && c0 <= '9' {
            Some((c0 as u32 - 48) as u8)
        } else {
            None
        }
    } else if len == 2 {
        let c0 = s.get_char(lo);
        let c1 = s.get_char(lo + 1);
        assert(c0 == g[0] && c1 == g[1]);
        if '1' <= c0 && c0 <= '9' && '0' <= c1 && c1 <= '9' {
            let v = (c0 as u32 - 48) * 10 + (c1 as u32 - 48);
            Some(v as u8)
        } else {
            None
        }
    } else if len == 3 {
        let c0 = s.get_char(lo);
        let c1 = s.get_char(lo + 1);
        let c2 = s.get_char(lo + 2);
        assert(c0 == g[0] && c1 == g[1] && c2 == g[2]);
        if '1' <= c0 && c0 <= '9' && '0' <= c1 && c1 <= '9' && '0' <= c2 && c2 <= '9' {
            let v = (c0 as u32 - 48) * 100 + (c1 as u32 - 48) * 10 + (c2 as u32 - 48);
            if v <= 255 {
                Some(v as u8)
            } else {
                None
            }
        } else {
            None
        }
    } else {
        None
    }
}

/// Parse a canonical dotted-quad IPv4 address. Returns the four octets
/// exactly when the whole input is the canonical rendering of them; every
/// other input (including IPv6 text) yields `None`.
#[verifier::rlimit(60)]
pub fn parse_ipv4(s: &str) -> (r: Option<(u8, u8, u8, u8)>)
    ensures
        r == ipv4_of(s@),
{
    let n = s.unicode_len();
    let i1 = match find_dot_at(s, n, 0) {
        None => {
            proof {
                lemma_find_dot_none(s@);
            }
            return None;
        },
        Some(j) => j,
    };
    proof {
        lemma_find_dot_at(s@, i1 as int);
    }
    let a = match parse_octet(s, 0, i1) {
        None => {
            proof {
                assert(s@.subrange(0, i1 as int) =~= s@.take(i1 as int));
            }
            return None;
        },
        Some(v) => {
            proof {
                assert(s@.subrange(0, i1 as int) =~= s@.take(i1 as int));
            }
            v
        },
    };
    let ghost s1 = s@.skip(i1 + 1);
    let i2 = match find_dot_at(s, n, i1 + 1) {
        None => {
            proof {
                assert forall|k: int| 0 <= k < s1.len() implies s1[k] != '.' by {
                    assert(s1[k] == s@[i1 + 1 + k]);
                }
                lemma_find_dot_none(s1);
            }
            return None;
        },
        Some(j) => j,
    };
    proof {
        assert(s1[i2 - i1 - 1] == s@[i2 as int]);
        assert forall|k: int| 0 <= k < i2 - i1 - 1 implies s1[k] != '.' by {
            assert(s1[k] == s@[i1 + 1 + k]);
        }
        lemma_find_dot_at(s1, i2 - i1 - 1);
    }
    let b = match parse_octet(s, i1 + 1, i2) {
        None => {
            proof {
                assert(s@.subrange(i1 + 1, i2 as int) =~= s1.take(i2 - i1 - 1));
            }
            return None;
        },
        Some(v) => {
            proof {
                assert(s@.subrange(i1 + 1, i2 as int) =~= s1.take(i2 - i1 - 1));
            }
            v
        },
    };
    let ghost s2 = s1.skip(i2 - i1 - 1 + 1);
    proof {
        assert(s2 =~= s@.skip(i2 + 1));
    }
    let i3 = match find_dot_at(s, n, i2 + 1) {
        None => {
            proof {
                assert forall|k: int| 0 <= k < s2.len() implies s2[k] != '.' by {
                    assert(s2[k] == s@[i2 + 1 + k]);
                }
                lemma_find_dot_none(s2);
            }
            return None;
        },
        Some(j) => j,
    };
    proof {
        assert(s2[i3 - i2 - 1] == s@[i3 as int]);
        assert forall|k: int| 0 <= k < i3 - i2 - 1 implies s2[k] != '.' by {
            assert(s2[k] == s@[i2 + 1 + k]);
        }
        lemma_find_dot_at(s2, i3 - i2 - 1);
    }
    let c = match parse_octet(s, i2 + 1, i3) {
        None => {
            proof {
                assert(s@.subrange(i2 + 1, i3 as int) =~= s2.take(i3 - i2 - 1));
            }
            return None;
        },
        Some(v) => {
            proof {
                assert(s@.subrange(i2 + 1, i3 as int) =~= s2.take(i3 - i2 - 1));
            }
            v
        },
    };
    let ghost s3 = s2.skip(i3 - i2 - 1 + 1);
    proof {
        assert(s3 =~= s@.skip(i3 + 1));
    }
    match find_dot_at(s, n, i3 + 1) {
        Some(j) => {
            proof {
                assert(s3[j - i3 - 1] == s@[j as int]);
                assert forall|k: int| 0 <= k < j - i3 - 1 implies s3[k] != '.' by {
                    assert(s3[k] == s@[i3 + 1 + k]);
                }
                lemma_find_dot_at(s3, j - i3 - 1);
            }
            return None;
        },
        None => {
            proof {
                assert forall|k: int| 0 <= k < s3.len() implies s3[k] != '.' by {
                    assert(s3[k] == s@[i3 + 1 + k]);
                }
                lemma_find_dot_none(s3);
            }
        },
    }
    let d = match parse_octet(s, i3 + 1, n) {
        None => {
            proof {
                assert(s@.subrange(i3 + 1, n as int) =~= s3);
            }
            return None;
        },
        Some(v) => {
            proof {
                assert(s@.subrange(i3 + 1, n as int) =~= s3);
            }
            v
        },
    };
    Some((a, b, c, d))
}

} // verus!
