//! Base64 decoding (standard alphabet, RFC 4648): strict groups of four,
//! padding only at the end, canonical trailing bits.

use vstd::prelude::*;

verus! {

/// The sextet a base64 character stands for; `=` and everything else decode
/// to nothing.
pub open spec fn spec_b64_val(c: char) -> Option<u8> {
    if 'A' <= c && c <= 'Z' {
        Some(((c as u8) - 65) as u8)
    } else if 'a' <= c && c <= 'z' {
        Some(((c as u8) - 97 + 26) as u8)
    } else if '0' <= c && c <= '9' {
        Some(((c as u8) - 48 + 52) as u8)
    } else if c == '+' {
        Some(62u8)
    } else if c == '/' {
        Some(63u8)
    } else {
        None
    }
}

fn b64_val(c: char) -> (r: Option<u8>)
    ensures
        r == spec_b64_val(c),
{
    if 'A' <= c && c <= 'Z' {
        Some((c as u8) - 65)
    } else if 'a' <= c && c <= 'z' {
        Some((c as u8) - 97 + 26)
    } else if '0' <= c && c <= '9' {
        Some((c as u8) - 48 + 52)
    } else if c == '+' {
        Some(62)
    } else if c == '/' {
        Some(63)
    } else {
        None
    }
}

/// The bytes a base64 text decodes to, or nothing when the text is not a
/// canonical encoding: the length must be a multiple of four, `=` may appear
/// only as the final one or two characters, and the unused low bits of the
/// last data character must be zero.
pub open spec fn spec_b64_decode(s: Seq<char>) -> Option<Seq<u8>>
    decreases s.len(),
{
    if s.len() == 0 {
        Some(Seq::<u8>::empty())
    } else if s.len() < 4 {
        None
    } else {
        let v0 = spec_b64_val(s[0]);
        let v1 = spec_b64_val(s[1]);
        if v0 is None || v1 is None {
            None
        } else if s[2] == '=' && s[3] == '=' {
            if s.len() == 4 && v1.unwrap() % 16 == 0 {
                Some(seq![(v0.unwrap() * 4 + v1.unwrap() / 16) as u8])
            } else {
                None
            }
        } else if s[3] == '=' {
            let v2 = spec_b64_val(s[2]);
            if s.len() == 4 && v2 is Some && v2.unwrap() % 4 == 0 {
                Some(
                    seq![
                        (v0.unwrap() * 4 + v1.unwrap() / 16) as u8,
                        ((v1.unwrap() % 16) * 16 + v2.unwrap() / 4) as u8,
                    ],
                )
            } else {
                None
            }
        } else {
            let v2 = spec_b64_val(s[2]);
            let v3 = spec_b64_val(s[3]);
            if v2 is None || v3 is None {
                None
            } else {
                match spec_b64_decode(s.skip(4)) {
                    Some(rest) => Some(
                        seq![
                            (v0.unwrap() * 4 + v1.unwrap() / 16) as u8,
                            ((v1.unwrap() % 16) * 16 + v2.unwrap() / 4) as u8,
                            ((v2.unwrap() % 4) * 64 + v3.unwrap()) as u8,
                        ] + rest,
                    ),
                    None => None,
                }
            }
        }
    }
}

/// Decodes the base64 text that starts at character `from`.
pub fn decode_base64(s: &str, from: usize) -> (r: Option<Vec<u8>>)
    requires
        from <= s@.len(),
    ensures
        match r {
            Some(out) => spec_b64_decode(s@.skip(from as int)) == Some(out@),
            None => spec_b64_decode(s@.skip(from as int)) is None,
        },
    decreases s@.len() - from,
{
    let n = s.unicode_len();
    if from == n {
        let out: Vec<u8> = Vec::new();
        proof {
            assert(s@.skip(from as int) =~= Seq::<char>::empty());
            assert(out@ =~= Seq::<u8>::empty());
        }
        return Some(out);
    }
    if n - from < 4 {
        return None;
    }
    let ghost g = s@.skip(from as int);
    let c0 = s.get_char(from);
    let c1 = s.get_char(from + 1);
    let c2 = s.get_char(from + 2);
    let c3 = s.get_char(from + 3);
    proof {
        assert(g[0] == c0 && g[1] == c1 && g[2] == c2 && g[3] == c3);
    }
    let v0 = match b64_val(c0) {
        Some(v) => v,
        None => {
            return None;
        },
    };
    let v1 = match b64_val(c1) {
        Some(v) => v,
        None => {
            return None;
        },
    };
    if c2 == '=' && c3 == '=' {
        if from + 4 == n && v1 % 16 == 0 {
            let mut out: Vec<u8> = Vec::new();
            out.push(v0 * 4 + v1 / 16);
            proof {
                assert(g.len() == 4);
                assert(out@ =~= seq![(v0 * 4 + v1 / 16) as u8]);
            }
            Some(out)
        } else {
            None
        }
    } else if c3 == '=' {
        let v2 = match b64_val(c2) {
            Some(v) => v,
            None => {
                return None;
            },
        };
        if from + 4 == n && v2 % 4 == 0 {
            let mut out: Vec<u8> = Vec::new();
            out.push(v0 * 4 + v1 / 16);
            out.push((v1 % 16) * 16 + v2 / 4);
            proof {
                assert(g.len() == 4);
                assert(out@ =~= seq![
                    (v0 * 4 + v1 / 16) as u8,
                    ((v1 % 16) * 16 + v2 / 4) as u8,
                ]);
            }
            Some(out)
        } else {
            None
        }
    } else {
        let v2 = match b64_val(c2) {
            Some(v) => v,
            None => {
                return None;
            },
        };
        let v3 = match b64_val(c3) {
            Some(v) => v,
            None => {
                return None;
            },
        };
        proof {
            assert(g.skip(4) =~= s@.skip(from as int + 4));
        }
        match decode_base64(s, from + 4) {
            Some(rest) => {
                let mut out: Vec<u8> = Vec::new();
                out.push(v0 * 4 + v1 / 16);
                out.push((v1 % 16) * 16 + v2 / 4);
                out.push((v2 % 4) * 64 + v3);
                let ghost head = out@;
                let mut rest = rest;
                let rn = rest.len();
                for i in 0..rn
                    invariant
                        rn == rest@.len(),
                        out@ == head + rest@.take(i as int),
                        head == seq![
                            (v0 * 4 + v1 / 16) as u8,
                            ((v1 % 16) * 16 + v2 / 4) as u8,
                            ((v2 % 4) * 64 + v3) as u8,
                        ],
                {
                    out.push(rest[i]);
                    proof {
                        assert(head + rest@.take(i + 1) =~= (head + rest@.take(i as int)).push(
                            rest@[i as int],
                        ));
                    }
                }
                proof {
                    assert(head + rest@.take(rn as int) =~= head + rest@);
                }
                Some(out)
            },
            None => None,
        }
    }
}

} // verus!
