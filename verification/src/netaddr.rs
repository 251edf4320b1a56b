//! Textual IP-address validation: IPv4 dotted quads, IPv6 literals with `::`
//! compression and an optional embedded IPv4 tail, and `a.b.c.d/n` network
//! entries.

use vstd::prelude::*;

use crate::strutil::{
    is_dec_digit, spec_all_dec_digits, spec_dec_digit_val, spec_dec_val, spec_is_dec_digit,
    spec_split, spec_views, split_str,
};

verus! {

/// A digit string of bounded length has a bounded value.
proof fn lemma_dec_val_digits_bound(s: Seq<char>)
    requires
        spec_all_dec_digits(s),
    ensures
        s.len() == 0 ==> spec_dec_val(s) == 0,
        s.len() <= 1 ==> spec_dec_val(s) <= 9,
        s.len() <= 2 ==> spec_dec_val(s) <= 99,
        s.len() <= 3 ==> spec_dec_val(s) <= 999,
    decreases s.len(),
{
    if s.len() > 0 {
        assert(spec_is_dec_digit(s.last()));
        assert(spec_dec_digit_val(s.last()) <= 9);
        assert(spec_all_dec_digits(s.drop_last())) by {
            assert(forall|i: int|
                0 <= i < s.len() - 1 ==> s.drop_last()[i] == #[trigger] s[i]);
        }
        lemma_dec_val_digits_bound(s.drop_last());
    }
}

/// A decimal IPv4 octet: one to three digits, value at most 255, no leading
/// zero (except "0" itself).
pub open spec fn spec_is_octet(p: Seq<char>) -> bool {
    &&& 1 <= p.len() <= 3
    &&& spec_all_dec_digits(p)
    &&& spec_dec_val(p) <= 255
    &&& (p.len() > 1 ==> p[0] != '0')
}

fn is_octet(p: &String) -> (r: bool)
    ensures
        r == spec_is_octet(p@),
{
    let n = p.as_str().unicode_len();
    if n == 0 || n > 3 {
        return false;
    }
    let mut val: u32 = 0;
    for i in 0..n
        invariant
            n == p@.len(),
            1 <= n <= 3,
            spec_all_dec_digits(p@.take(i as int)),
            val == spec_dec_val(p@.take(i as int)),
            val <= 999,
    {
        let c = p.as_str().get_char(i);
        if !is_dec_digit(c) {
            assert(!spec_all_dec_digits(p@));
            return false;
        }
        assert(p@.take(i + 1).drop_last() =~= p@.take(i as int));
        assert(p@.take(i + 1).last() == p@[i as int]);
        proof {
            lemma_dec_val_digits_bound(p@.take(i as int));
        }
        val = val * 10 + ((c as u8) - 48) as u32;
    }
    assert(p@.take(n as int) =~= p@);
    if val > 255 {
        return false;
    }
    if n > 1 && p.as_str().get_char(0) == '0' {
        return false;
    }
    true
}

/// An IPv4 literal: exactly four octets separated by dots.
pub open spec fn spec_is_ipv4(s: Seq<char>) -> bool {
    let parts = spec_split(s, '.');
    parts.len() == 4 && (forall|i: int| 0 <= i < 4 ==> spec_is_octet(#[trigger] parts[i]))
}

pub fn is_ipv4_literal(s: &str) -> (r: bool)
    ensures
        r == spec_is_ipv4(s@),
{
    let parts = split_str(s, 0, '.');
    proof {
        assert(s@.skip(0) =~= s@);
    }
    if parts.len() != 4 {
        return false;
    }
    for i in 0..4usize
        invariant
            parts@.len() == 4,
            spec_views(parts@) == spec_split(s@, '.'),
            forall|k: int| 0 <= k < i ==> spec_is_octet(#[trigger] spec_split(s@, '.')[k]),
    {
        assert(spec_split(s@, '.')[i as int] == parts@[i as int]@);
        if !is_octet(&parts[i]) {
            return false;
        }
    }
    true
}

pub open spec fn spec_is_hex_digit(c: char) -> bool {
    spec_is_dec_digit(c) || ('a' <= c && c <= 'f') || ('A' <= c && c <= 'F')
}

/// An IPv6 group: one to four hexadecimal digits.
pub open spec fn spec_is_hex_group(p: Seq<char>) -> bool {
    &&& 1 <= p.len() <= 4
    &&& forall|i: int| 0 <= i < p.len() ==> spec_is_hex_digit(#[trigger] p[i])
}

fn is_hex_group(p: &String) -> (r: bool)
    ensures
        r == spec_is_hex_group(p@),
{
    let n = p.as_str().unicode_len();
    if n == 0 || n > 4 {
        return false;
    }
    for i in 0..n
        invariant
            n == p@.len(),
            forall|k: int| 0 <= k < i ==> spec_is_hex_digit(#[trigger] p@[k]),
    {
        let c = p.as_str().get_char(i);
        if !(('0' <= c && c <= '9') || ('a' <= c && c <= 'f') || ('A' <= c && c <= 'F')) {
            return false;
        }
    }
    true
}

/// The ascending indices of the empty parts.
pub open spec fn spec_empty_indices(parts: Seq<Seq<char>>) -> Seq<int>
    decreases parts.len(),
{
    if parts.len() == 0 {
        Seq::<int>::empty()
    } else if parts.last().len() == 0 {
        spec_empty_indices(parts.drop_last()).push(parts.len() - 1)
    } else {
        spec_empty_indices(parts.drop_last())
    }
}

/// There are at most as many empty parts as parts, and each recorded index
/// is in range.
pub proof fn lemma_empty_indices_bounds(parts: Seq<Seq<char>>)
    ensures
        spec_empty_indices(parts).len() <= parts.len(),
        forall|k: int|
            0 <= k < spec_empty_indices(parts).len() ==> 0 <= #[trigger] spec_empty_indices(
                parts,
            )[k] < parts.len(),
    decreases parts.len(),
{
    if parts.len() > 0 {
        lemma_empty_indices_bounds(parts.drop_last());
    }
}

/// The number of address groups the parts stand for: one per non-empty hex
/// group, two for an embedded IPv4 tail.
pub open spec fn spec_group_count(parts: Seq<Seq<char>>) -> int {
    let n = parts.len();
    let nonempty = n - spec_empty_indices(parts).len();
    if n > 0 && parts[n - 1].len() > 0 && spec_is_ipv4(parts[n - 1]) {
        nonempty + 1
    } else {
        nonempty
    }
}

/// Every non-empty part is a hex group, except that the final part may be an
/// embedded IPv4 literal.
pub open spec fn spec_parts_shape_ok(parts: Seq<Seq<char>>) -> bool {
    forall|i: int|
        0 <= i < parts.len() && (#[trigger] parts[i]).len() > 0 ==> (spec_is_hex_group(parts[i])
            || (i == parts.len() - 1 && spec_is_ipv4(parts[i])))
}

/// An IPv6 literal: colon-separated groups, either eight in full form, or
/// fewer with one `::` compression (written as adjacent empty parts at the
/// start, in the middle, at the end, or the bare `::`), optionally ending in
/// an embedded IPv4 tail.
pub open spec fn spec_is_ipv6(s: Seq<char>) -> bool {
    let parts = spec_split(s, ':');
    let n = parts.len() as int;
    let e = spec_empty_indices(parts);
    let groups = spec_group_count(parts);
    &&& spec_parts_shape_ok(parts)
    &&& {
        ||| (e.len() == 0 && groups == 8)
        ||| (e.len() == 1 && 1 <= e[0] <= n - 2 && groups <= 7)
        ||| (e.len() == 2 && e[0] == 0 && e[1] == 1 && n >= 3 && groups <= 7)
        ||| (e.len() == 2 && e[0] == n - 2 && e[1] == n - 1 && n >= 3 && groups <= 7)
        ||| (e.len() == 3 && n == 3)
    }
}

pub fn is_ipv6_literal(s: &str) -> (r: bool)
    ensures
        r == spec_is_ipv6(s@),
{
    let parts = split_str(s, 0, ':');
    proof {
        assert(s@.skip(0) =~= s@);
    }
    let ghost sparts = spec_split(s@, ':');
    let n = parts.len();

    // Gather the indices of the empty parts.
    let mut empties: Vec<usize> = Vec::new();
    for i in 0..n
        invariant
            n == parts@.len(),
            spec_views(parts@) == sparts,
            empties@.map_values(|x: usize| x as int) =~= spec_empty_indices(
                sparts.take(i as int),
            ),
    {
        proof {
            assert(sparts.take(i + 1).drop_last() =~= sparts.take(i as int));
            assert(sparts.take(i + 1).last() == sparts[i as int]);
            assert(sparts[i as int] == parts@[i as int]@);
        }
        if parts[i].as_str().is_empty() {
            empties.push(i);
        }
        proof {
            assert(empties@.map_values(|x: usize| x as int) =~= spec_empty_indices(
                sparts.take(i + 1),
            ));
        }
    }
    proof {
        assert(sparts.take(n as int) =~= sparts);
    }

    // Check the shape of every non-empty part.
    proof {
        assert(sparts[n - 1] == parts@[n - 1]@);
    }
    let mut last_v4: bool = false;
    if parts[n - 1].as_str().unicode_len() > 0 {
        last_v4 = is_ipv4_literal(parts[n - 1].as_str());
    }
    for i in 0..n
        invariant
            n == parts@.len(),
            spec_views(parts@) == sparts,
            sparts == spec_split(s@, ':'),
            n >= 1,
            last_v4 == (sparts[n - 1].len() > 0 && spec_is_ipv4(sparts[n - 1])),
            forall|k: int|
                0 <= k < i && (#[trigger] sparts[k]).len() > 0 ==> (spec_is_hex_group(sparts[k])
                    || (k == n - 1 && spec_is_ipv4(sparts[k]))),
    {
        proof {
            assert(sparts[i as int] == parts@[i as int]@);
        }
        if parts[i].as_str().unicode_len() > 0 {
            let hex_ok = is_hex_group(&parts[i]);
            if !hex_ok && !(i == n - 1 && last_v4) {
                assert(!spec_parts_shape_ok(sparts));
                return false;
            }
        }
    }
    assert(spec_parts_shape_ok(sparts));

    let ne = empties.len();
    proof {
        lemma_empty_indices_bounds(sparts);
        let emap = empties@.map_values(|x: usize| x as int);
        assert(emap =~= spec_empty_indices(sparts));
        assert(emap.len() == empties@.len());
        assert(forall|k: int| 0 <= k < emap.len() ==> #[trigger] emap[k] == empties@[k] as int);
        assert(ne as int == spec_empty_indices(sparts).len());
    }
    let nonempty = n - ne;
    if nonempty > 8 {
        assert(spec_group_count(sparts) >= 9);
        return false;
    }
    let groups: usize = if last_v4 {
        nonempty + 1
    } else {
        nonempty
    };
    assert(groups == spec_group_count(sparts));

    if ne == 0 {
        groups == 8
    } else if ne == 1 {
        let e0 = empties[0];
        assert(e0 as int == spec_empty_indices(sparts)[0]);
        1 <= e0 && e0 + 2 <= n && groups <= 7
    } else if ne == 2 {
        let e0 = empties[0];
        let e1 = empties[1];
        assert(e0 as int == spec_empty_indices(sparts)[0]);
        assert(e1 as int == spec_empty_indices(sparts)[1]);
        if e0 == 0 && e1 == 1 && n >= 3 && groups <= 7 {
            true
        } else {
            e0 + 2 == n && e1 + 1 == n && n >= 3 && groups <= 7
        }
    } else {
        ne == 3 && n == 3
    }
}

/// A bare IP literal of either family.
pub open spec fn spec_is_ip_literal(s: Seq<char>) -> bool {
    spec_is_ipv4(s) || spec_is_ipv6(s)
}

pub fn is_ip_literal(s: &str) -> (r: bool)
    ensures
        r == spec_is_ip_literal(s@),
{
    if is_ipv4_literal(s) {
        true
    } else {
        is_ipv6_literal(s)
    }
}

/// A network prefix length for an IPv4 CIDR entry: decimal, at most 32, no
/// leading zero.
pub open spec fn spec_is_v4_prefix_len(p: Seq<char>) -> bool {
    &&& 1 <= p.len() <= 2
    &&& spec_all_dec_digits(p)
    &&& spec_dec_val(p) <= 32
    &&& (p.len() > 1 ==> p[0] != '0')
}

fn is_v4_prefix_len(p: &String) -> (r: bool)
    ensures
        r == spec_is_v4_prefix_len(p@),
{
    let n = p.as_str().unicode_len();
    if n == 0 || n > 2 {
        return false;
    }
    let mut val: u32 = 0;
    for i in 0..n
        invariant
            n == p@.len(),
            1 <= n <= 2,
            spec_all_dec_digits(p@.take(i as int)),
            val == spec_dec_val(p@.take(i as int)),
            val <= 99,
    {
        let c = p.as_str().get_char(i);
        if !is_dec_digit(c) {
            assert(!spec_all_dec_digits(p@));
            return false;
        }
        assert(p@.take(i + 1).drop_last() =~= p@.take(i as int));
        assert(p@.take(i + 1).last() == p@[i as int]);
        proof {
            lemma_dec_val_digits_bound(p@.take(i as int));
        }
        val = val * 10 + ((c as u8) - 48) as u32;
    }
    assert(p@.take(n as int) =~= p@);
    if val > 32 {
        return false;
    }
    if n > 1 && p.as_str().get_char(0) == '0' {
        return false;
    }
    true
}

/// An allowed-network entry: a bare IP literal, or an IPv4 CIDR
/// `a.b.c.d/n` with `n` at most 32.
pub open spec fn spec_is_network_entry(s: Seq<char>) -> bool {
    ||| spec_is_ip_literal(s)
    ||| {
        let parts = spec_split(s, '/');
        parts.len() == 2 && spec_is_ipv4(parts[0]) && spec_is_v4_prefix_len(parts[1])
    }
}

pub fn is_network_entry(s: &str) -> (r: bool)
    ensures
        r == spec_is_network_entry(s@),
{
    if is_ip_literal(s) {
        return true;
    }
    let parts = split_str(s, 0, '/');
    proof {
        assert(s@.skip(0) =~= s@);
    }
    if parts.len() != 2 {
        return false;
    }
    proof {
        assert(spec_split(s@, '/')[0] == parts@[0]@);
        assert(spec_split(s@, '/')[1] == parts@[1]@);
    }
    is_ipv4_literal(parts[0].as_str()) && is_v4_prefix_len(&parts[1])
}

} // verus!
