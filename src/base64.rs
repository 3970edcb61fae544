//! Standard base64 (with `=` padding), as carried by `;base64` data URIs.
use vstd::prelude::*;

verus! {

/// The 6-bit value of a base64 digit.
pub open spec fn sextet(c: u8) -> Option<u8> {
    if 65 <= c <= 90 {
        Some((c - 65) as u8)
    } else if 97 <= c <= 122 {
        Some((c - 71) as u8)
    } else if 48 <= c <= 57 {
        Some((c + 4) as u8)
    } else if c == 43 {
        Some(62u8)
    } else if c == 47 {
        Some(63u8)
    } else {
        None
    }
}

fn sextet_of(c: u8) -> (r: Option<u8>)
    ensures
        r == sextet(c),
{
    if 65 <= c && c <= 90 {
        Some(c - 65)
    } else if 97 <= c && c <= 122 {
        Some(c - 71)
    } else if 48 <= c && c <= 57 {
        Some(c + 4)
    } else if c == 43 {
        Some(62)
    } else if c == 47 {
        Some(63)
    } else {
        None
    }
}

pub open spec fn byte0(a: u8, b: u8) -> u8 {
    ((a << 2u8) | (b >> 4u8)) as u8
}

pub open spec fn byte1(b: u8, c: u8) -> u8 {
    (((b & 15u8) << 4u8) | (c >> 2u8)) as u8
}

pub open spec fn byte2(c: u8, d: u8) -> u8 {
    (((c & 3u8) << 6u8) | d) as u8
}

/// The bytes of one 4-digit group; `last` allows `=` padding at its end.
pub open spec fn group_bytes(g: Seq<u8>, last: bool) -> Option<Seq<u8>> {
    match (sextet(g[0]), sextet(g[1])) {
        (Some(a), Some(b)) => if last && g[2] == 61u8 && g[3] == 61u8 {
            Some(seq![byte0(a, b)])
        } else {
            match sextet(g[2]) {
                None => None,
                Some(c) => if last && g[3] == 61u8 {
                    Some(seq![byte0(a, b), byte1(b, c)])
                } else {
                    match sextet(g[3]) {
                        None => None,
                        Some(d) => Some(seq![byte0(a, b), byte1(b, c), byte2(c, d)]),
                    }
                },
            }
        },
        _ => None,
    }
}

/// The bytes that base64 text `b` encodes; `None` when it is not base64.
pub open spec fn base64_decoded(b: Seq<u8>) -> Option<Seq<u8>>
    decreases b.len(),
{
    if b.len() == 0 {
        Some(Seq::empty())
    } else if b.len() < 4 {
        None
    } else {
        match group_bytes(b.subrange(0, 4), b.len() == 4) {
            None => None,
            Some(x) => match base64_decoded(b.subrange(4, b.len() as int)) {
                None => None,
                Some(rest) => Some(x + rest),
            },
        }
    }
}

fn decode_group(b: &[u8], i: usize, last: bool, out: &mut Vec<u8>) -> (ok: bool)
    requires
        i + 4 <= b@.len(),
    ensures
        match group_bytes(b@.subrange(i as int, i + 4), last) {
            None => !ok,
            Some(x) => ok && final(out)@ == old(out)@ + x,
        },
{
    let ghost g = b@.subrange(i as int, i + 4);
    assert(g[0] == b@[i as int] && g[1] == b@[i + 1] && g[2] == b@[i + 2] && g[3] == b@[i + 3]);
    let (a, bb) = match (sextet_of(b[i]), sextet_of(b[i + 1])) {
        (Some(a), Some(bb)) => (a, bb),
        _ => return false,
    };
    if last && b[i + 2] == 61 && b[i + 3] == 61 {
        out.push((a << 2u8) | (bb >> 4u8));
        assert(out@ =~= old(out)@ + seq![byte0(a, bb)]);
        return true;
    }
    let c = match sextet_of(b[i + 2]) {
        Some(c) => c,
        None => return false,
    };
    if last && b[i + 3] == 61 {
        out.push((a << 2u8) | (bb >> 4u8));
        out.push(((bb & 15u8) << 4u8) | (c >> 2u8));
        assert(out@ =~= old(out)@ + seq![byte0(a, bb), byte1(bb, c)]);
        return true;
    }
    let d = match sextet_of(b[i + 3]) {
        Some(d) => d,
        None => return false,
    };
    out.push((a << 2u8) | (bb >> 4u8));
    out.push(((bb & 15u8) << 4u8) | (c >> 2u8));
    out.push(((c & 3u8) << 6u8) | d);
    assert(out@ =~= old(out)@ + seq![byte0(a, bb), byte1(bb, c), byte2(c, d)]);
    true
}

/// Decodes base64 text; `None` when it is not well-formed base64.
pub fn decode_base64(b: &[u8]) -> (r: Option<Vec<u8>>)
    ensures
        match base64_decoded(b@) {
            None => r is None,
            Some(x) => r is Some && r->0@ == x,
        },
{
    let mut out: Vec<u8> = Vec::new();
    let mut i: usize = 0;
    let n = b.len();
    assert(b@.subrange(0, n as int) =~= b@);
    while i < n
        invariant
            n == b@.len(),
            i <= n,
            base64_decoded(b@) == match base64_decoded(b@.subrange(i as int, n as int)) {
                None => None::<Seq<u8>>,
                Some(rest) => Some(out@ + rest),
            },
        decreases n - i,
    {
        let ghost t = b@.subrange(i as int, n as int);
        if n - i < 4 {
            return None;
        }
        let ghost before = out@;
        proof {
            assert(t.subrange(0, 4) =~= b@.subrange(i as int, i + 4));
            assert(t.subrange(4, t.len() as int) =~= b@.subrange(i + 4, n as int));
        }
        if !decode_group(b, i, n - i == 4, &mut out) {
            return None;
        }
        proof {
            let x = group_bytes(b@.subrange(i as int, i + 4), n - i == 4)->0;
            assert(out@ == before + x);
            match base64_decoded(b@.subrange(i + 4, n as int)) {
                None => {},
                Some(rest) => {
                    assert(before + (x + rest) =~= out@ + rest);
                },
            }
        }
        i = i + 4;
    }
    proof {
        assert(b@.subrange(i as int, n as int) =~= Seq::<u8>::empty());
        assert(out@ + Seq::<u8>::empty() =~= out@);
    }
    Some(out)
}

} // verus!
