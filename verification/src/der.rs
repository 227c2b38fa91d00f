//! Minimal DER (Distinguished Encoding Rules) support: definite-length
//! encodings, tag-length-value framing, and the strict readers that the
//! certificate codec is built on.

use vstd::prelude::*;

verus! {

/// Largest content length the codec writes or accepts: lengths are encoded in
/// at most four octets.
pub const MAX_DER_LEN: u64 = 0x1_0000_0000;

/// The minimal definite-length octets for a content length `n` below 2^32.
pub open spec fn spec_len_octets(n: nat) -> Seq<u8> {
    if n < 0x80 {
        seq![n as u8]
    } else if n < 0x100 {
        seq![0x81u8, n as u8]
    } else if n < 0x10000 {
        seq![0x82u8, (n / 0x100) as u8, (n % 0x100) as u8]
    } else if n < 0x1000000 {
        seq![0x83u8, (n / 0x10000) as u8, ((n / 0x100) % 0x100) as u8, (n % 0x100) as u8]
    } else {
        seq![
            0x84u8,
            ((n / 0x1000000) % 0x100) as u8,
            ((n / 0x10000) % 0x100) as u8,
            ((n / 0x100) % 0x100) as u8,
            (n % 0x100) as u8,
        ]
    }
}

/// A complete tag-length-value encoding: the tag octet, the minimal length
/// octets for the content length, then the content itself.
pub open spec fn spec_tlv(tag: u8, c: Seq<u8>) -> Seq<u8> {
    seq![tag] + spec_len_octets(c.len()) + c
}

/// Appends the minimal definite-length octets for `n` to `out`.
pub fn write_len(out: &mut Vec<u8>, n: usize)
    requires
        (n as u64) < MAX_DER_LEN,
    ensures
        final(out)@ == old(out)@ + spec_len_octets(n as nat),
{
    if n < 0x80 {
        out.push(n as u8);
    } else if n < 0x100 {
        out.push(0x81);
        out.push(n as u8);
    } else if n < 0x10000 {
        out.push(0x82);
        out.push((n / 0x100) as u8);
        out.push((n % 0x100) as u8);
    } else if n < 0x1000000 {
        out.push(0x83);
        out.push((n / 0x10000) as u8);
        out.push(((n / 0x100) % 0x100) as u8);
        out.push((n % 0x100) as u8);
    } else {
        out.push(0x84);
        out.push(((n / 0x1000000) % 0x100) as u8);
        out.push(((n / 0x10000) % 0x100) as u8);
        out.push(((n / 0x100) % 0x100) as u8);
        out.push((n % 0x100) as u8);
    }
    assert(out@ =~= old(out)@ + spec_len_octets(n as nat));
}

/// Appends the tag-length-value encoding of `c` under `tag` to `out`.
pub fn write_tlv(out: &mut Vec<u8>, tag: u8, c: &[u8])
    requires
        (c@.len() as u64) < MAX_DER_LEN,
    ensures
        final(out)@ == old(out)@ + spec_tlv(tag, c@),
        final(out)@.len() <= old(out)@.len() + 6 + c@.len(),
{
    out.push(tag);
    write_len(out, c.len());
    out.extend_from_slice(c);
    assert(out@ =~= old(out)@ + spec_tlv(tag, c@));
}

/// Reads the definite-length octets at `pos`: the decoded content length and
/// the position just after the length octets. Rejects indefinite lengths,
/// non-minimal encodings, and lengths of five or more octets.
pub open spec fn spec_read_len(s: Seq<u8>, pos: nat) -> Option<(nat, nat)> {
    if pos < s.len() {
        let b = s[pos as int];
        if b < 0x80 {
            Some(((b as nat), (pos + 1) as nat))
        } else if b == 0x81 {
            if pos + 1 < s.len() && s[pos as int + 1] >= 0x80 {
                Some(((s[pos as int + 1] as nat), (pos + 2) as nat))
            } else {
                None
            }
        } else if b == 0x82 {
            if pos + 2 < s.len() {
                let v = s[pos as int + 1] as nat * 0x100 + s[pos as int + 2] as nat;
                if v >= 0x100 {
                    Some((v, (pos + 3) as nat))
                } else {
                    None
                }
            } else {
                None
            }
        } else if b == 0x83 {
            if pos + 3 < s.len() {
                let v = s[pos as int + 1] as nat * 0x10000 + s[pos as int + 2] as nat * 0x100
                    + s[pos as int + 3] as nat;
                if v >= 0x10000 {
                    Some((v, (pos + 4) as nat))
                } else {
                    None
                }
            } else {
                None
            }
        } else if b == 0x84 {
            if pos + 4 < s.len() {
                let v = s[pos as int + 1] as nat * 0x1000000 + s[pos as int + 2] as nat * 0x10000
                    + s[pos as int + 3] as nat * 0x100 + s[pos as int + 4] as nat;
                if v >= 0x1000000 {
                    Some((v, (pos + 5) as nat))
                } else {
                    None
                }
            } else {
                None
            }
        } else {
            None
        }
    } else {
        None
    }
}

/// Reads the tag-length-value encoding at `pos`: the tag octet and the bounds
/// of the content, which must lie inside `s`.
pub open spec fn spec_read_tlv(s: Seq<u8>, pos: nat) -> Option<(u8, nat, nat)> {
    if pos < s.len() {
        match spec_read_len(s, pos + 1) {
            Some((l, cs)) => if cs + l <= s.len() {
                Some((s[pos as int], cs, (cs + l) as nat))
            } else {
                None
            },
            None => None,
        }
    } else {
        None
    }
}

/// Reads the tag-length-value encoding at `pos` in `data`, yielding the tag
/// and the bounds of the content.
pub fn read_tlv(data: &[u8], pos: usize) -> (r: Option<(u8, usize, usize)>)
    ensures
        match r {
            Some((tag, cs, ce)) => spec_read_tlv(data@, pos as nat) == Some(
                (tag, cs as nat, ce as nat),
            ) && pos < cs && cs <= ce && ce <= data.len(),
            None => spec_read_tlv(data@, pos as nat) is None,
        },
{
    if pos >= data.len() {
        return None;
    }
    let tag = data[pos];
    if pos == usize::MAX || pos + 1 >= data.len() {
        // There is no room for length octets after the tag.
        return None;
    }
    let lpos = pos + 1;
    let b = data[lpos];
    let len128: u128;
    let cs128: u128;
    if b < 0x80 {
        len128 = b as u128;
        cs128 = lpos as u128 + 1;
    } else if b == 0x81 {
        if lpos as u128 + 1 < data.len() as u128 && data[lpos + 1] >= 0x80 {
            len128 = data[lpos + 1] as u128;
            cs128 = lpos as u128 + 2;
        } else {
            return None;
        }
    } else if b == 0x82 {
        if lpos as u128 + 2 < data.len() as u128 {
            let v = data[lpos + 1] as u128 * 0x100 + data[lpos + 2] as u128;
            if v >= 0x100 {
                len128 = v;
                cs128 = lpos as u128 + 3;
            } else {
                return None;
            }
        } else {
            return None;
        }
    } else if b == 0x83 {
        if lpos as u128 + 3 < data.len() as u128 {
            let v = data[lpos + 1] as u128 * 0x10000 + data[lpos + 2] as u128 * 0x100 + data[lpos
                + 3] as u128;
            if v >= 0x10000 {
                len128 = v;
                cs128 = lpos as u128 + 4;
            } else {
                return None;
            }
        } else {
            return None;
        }
    } else if b == 0x84 {
        if lpos as u128 + 4 < data.len() as u128 {
            let v = data[lpos + 1] as u128 * 0x1000000 + data[lpos + 2] as u128 * 0x10000 + data[
                lpos + 3] as u128 * 0x100 + data[lpos + 4] as u128;
            if v >= 0x1000000 {
                len128 = v;
                cs128 = lpos as u128 + 5;
            } else {
                return None;
            }
        } else {
            return None;
        }
    } else {
        return None;
    }
    if cs128 + len128 <= data.len() as u128 {
        let cs = cs128 as usize;
        let ce = (cs128 + len128) as usize;
        Some((tag, cs, ce))
    } else {
        None
    }
}

/// Reading a tag-length-value encoding back: where `s` holds `spec_tlv(tag, c)`
/// at `pos`, the reader yields that tag and the bounds of that content.
pub proof fn lemma_read_tlv_of_encoding(s: Seq<u8>, pos: nat, tag: u8, c: Seq<u8>)
    requires
        c.len() < 0x1_0000_0000,
        pos + spec_tlv(tag, c).len() <= s.len(),
        s.subrange(pos as int, (pos + spec_tlv(tag, c).len()) as int) == spec_tlv(tag, c),
    ensures
        spec_read_tlv(s, pos) == Some(
            (
                tag,
                (pos + 1 + spec_len_octets(c.len()).len()) as nat,
                (pos + spec_tlv(tag, c).len()) as nat,
            ),
        ),
        s.subrange(
            (pos + 1 + spec_len_octets(c.len()).len()) as int,
            (pos + spec_tlv(tag, c).len()) as int,
        ) == c,
        pos + spec_tlv(tag, c).len() == pos + 1 + spec_len_octets(c.len()).len() + c.len(),
{
    let t = spec_tlv(tag, c);
    let lo = spec_len_octets(c.len());
    let k = lo.len() as int;
    let n = c.len();
    assert(t.len() == 1 + k + n);
    lemma_byte_at(s, pos, t, 0);
    assert(t[0] == tag);
    lemma_byte_at(s, pos, t, 1);
    assert(t[1] == lo[0]);
    if n < 0x80 {
        assert(lo =~= seq![n as u8]);
        assert(s[pos as int + 1] == n as u8);
        assert(spec_read_len(s, pos + 1) == Some((n, pos + 2)));
    } else if n < 0x100 {
        assert(lo =~= seq![0x81u8, n as u8]);
        lemma_byte_at(s, pos, t, 2);
        assert(t[2] == lo[1]);
        assert(s[pos as int + 1] == 0x81u8);
        assert(s[pos as int + 2] == n as u8);
        assert(n as u8 >= 0x80);
        assert(spec_read_len(s, pos + 1) == Some((n, pos + 3)));
    } else if n < 0x10000 {
        assert(lo =~= seq![0x82u8, (n / 0x100) as u8, (n % 0x100) as u8]);
        lemma_byte_at(s, pos, t, 2);
        assert(t[2] == lo[1]);
        lemma_byte_at(s, pos, t, 3);
        assert(t[3] == lo[2]);
        assert(s[pos as int + 1] == 0x82u8);
        assert(s[pos as int + 2] == (n / 0x100) as u8);
        assert(s[pos as int + 3] == (n % 0x100) as u8);
        assert((n / 0x100) as u8 as nat * 0x100 + (n % 0x100) as u8 as nat == n);
        assert(spec_read_len(s, pos + 1) == Some((n, pos + 4)));
    } else if n < 0x1000000 {
        assert(lo =~= seq![0x83u8, (n / 0x10000) as u8, ((n / 0x100) % 0x100) as u8, (n % 0x100) as u8]);
        lemma_byte_at(s, pos, t, 2);
        assert(t[2] == lo[1]);
        lemma_byte_at(s, pos, t, 3);
        assert(t[3] == lo[2]);
        lemma_byte_at(s, pos, t, 4);
        assert(t[4] == lo[3]);
        assert(s[pos as int + 1] == 0x83u8);
        assert(s[pos as int + 2] == (n / 0x10000) as u8);
        assert(s[pos as int + 3] == ((n / 0x100) % 0x100) as u8);
        assert(s[pos as int + 4] == (n % 0x100) as u8);
        assert((n / 0x10000) as u8 as nat * 0x10000 + ((n / 0x100) % 0x100) as u8 as nat * 0x100 + (
        n % 0x100) as u8 as nat == n) by (nonlinear_arith)
            requires
                0x10000 <= n < 0x1000000,
        ;
        assert(spec_read_len(s, pos + 1) == Some((n, pos + 5)));
    } else {
        assert(lo =~= seq![
            0x84u8,
            ((n / 0x1000000) % 0x100) as u8,
            ((n / 0x10000) % 0x100) as u8,
            ((n / 0x100) % 0x100) as u8,
            (n % 0x100) as u8,
        ]);
        lemma_byte_at(s, pos, t, 2);
        assert(t[2] == lo[1]);
        lemma_byte_at(s, pos, t, 3);
        assert(t[3] == lo[2]);
        lemma_byte_at(s, pos, t, 4);
        assert(t[4] == lo[3]);
        lemma_byte_at(s, pos, t, 5);
        assert(t[5] == lo[4]);
        assert(s[pos as int + 1] == 0x84u8);
        assert(s[pos as int + 2] == ((n / 0x1000000) % 0x100) as u8);
        assert(s[pos as int + 3] == ((n / 0x10000) % 0x100) as u8);
        assert(s[pos as int + 4] == ((n / 0x100) % 0x100) as u8);
        assert(s[pos as int + 5] == (n % 0x100) as u8);
        assert(((n / 0x1000000) % 0x100) as u8 as nat * 0x1000000 + ((n / 0x10000) % 0x100) as u8
            as nat * 0x10000 + ((n / 0x100) % 0x100) as u8 as nat * 0x100 + (n % 0x100) as u8 as nat
            == n) by (nonlinear_arith)
            requires
                0x1000000 <= n < 0x1_0000_0000,
        ;
        assert(spec_read_len(s, pos + 1) == Some((n, pos + 6)));
    }
    assert(spec_read_tlv(s, pos) == Some((tag, (pos + 1 + k) as nat, (pos + 1 + k + n) as nat)));
    assert forall|i: int| 0 <= i < n implies s.subrange(
        (pos + 1 + k) as int,
        (pos + 1 + k + n) as int,
    )[i] == c[i] by {
        assert(s.subrange((pos + 1 + k) as int, (pos + 1 + k + n) as int)[i] == s[pos + 1 + k + i]);
        lemma_byte_at(s, pos, t, 1 + k + i);
        assert(t[1 + k + i] == c[i]);
    }
    assert(s.subrange((pos + 1 + k) as int, (pos + 1 + k + n) as int) =~= c);
}

/// The definite-length octets span one to five bytes.
pub proof fn lemma_len_octets_len(n: nat)
    ensures
        1 <= spec_len_octets(n).len() <= 5,
{
}

/// Splitting a two-piece concatenation held inside `s` at `a`: each piece is
/// held at its own offset.
pub proof fn lemma_split_at(s: Seq<u8>, a: nat, x: Seq<u8>, y: Seq<u8>)
    requires
        a + x.len() + y.len() <= s.len(),
        s.subrange(a as int, (a + x.len() + y.len()) as int) == x + y,
    ensures
        s.subrange(a as int, (a + x.len()) as int) == x,
        s.subrange((a + x.len()) as int, (a + x.len() + y.len()) as int) == y,
{
    assert forall|i: int| 0 <= i < x.len() implies s.subrange(a as int, (a + x.len()) as int)[i]
        == x[i] by {
        assert(s.subrange(a as int, (a + x.len() + y.len()) as int)[i] == (x + y)[i]);
        assert(s.subrange(a as int, (a + x.len()) as int)[i] == s[a + i]);
        assert(s.subrange(a as int, (a + x.len() + y.len()) as int)[i] == s[a + i]);
    }
    assert(s.subrange(a as int, (a + x.len()) as int) =~= x);
    assert forall|i: int| 0 <= i < y.len() implies s.subrange(
        (a + x.len()) as int,
        (a + x.len() + y.len()) as int,
    )[i] == y[i] by {
        assert(s.subrange(a as int, (a + x.len() + y.len()) as int)[x.len() + i] == (x + y)[x.len()
            + i]);
        assert(s.subrange((a + x.len()) as int, (a + x.len() + y.len()) as int)[i] == s[a + x.len()
            + i]);
        assert(s.subrange(a as int, (a + x.len() + y.len()) as int)[x.len() + i] == s[a + (x.len()
            + i)]);
        assert((x + y)[x.len() + i] == y[i]);
    }
    assert(s.subrange((a + x.len()) as int, (a + x.len() + y.len()) as int) =~= y);
}

/// Appending to the empty byte sequence yields the appended piece.
pub proof fn lemma_empty_concat(x: Seq<u8>)
    ensures
        Seq::<u8>::empty() + x == x,
{
    assert(Seq::<u8>::empty() + x =~= x);
}

/// Where `s` holds `t` starting at `pos`, each byte of `t` is read back at its
/// offset.
proof fn lemma_byte_at(s: Seq<u8>, pos: nat, t: Seq<u8>, j: int)
    requires
        pos + t.len() <= s.len(),
        s.subrange(pos as int, (pos + t.len()) as int) == t,
        0 <= j < t.len(),
    ensures
        s[pos + j] == t[j],
{
    assert(s.subrange(pos as int, (pos + t.len()) as int)[j] == s[pos + j]);
}

} // verus!
