//! Numbers as bytes, and copying bytes into place.

use vstd::prelude::*;

verus! {

/// The two bytes of `n`, most significant first.
pub open spec fn u16_octets(n: u16) -> Seq<u8> {
    seq![(n / 256) as u8, (n % 256) as u8]
}

/// The eight bytes of `n`, most significant first.
pub open spec fn u64_octets(n: u64) -> Seq<u8> {
    seq![
        (n / 0x100_0000_0000_0000) as u8,
        (n / 0x1_0000_0000_0000 % 256) as u8,
        (n / 0x100_0000_0000 % 256) as u8,
        (n / 0x1_0000_0000 % 256) as u8,
        (n / 0x100_0000 % 256) as u8,
        (n / 0x1_0000 % 256) as u8,
        (n / 0x100 % 256) as u8,
        (n % 256) as u8,
    ]
}

/// The number whose eight bytes `s` starts with, most significant first.
pub open spec fn u64_value(s: Seq<u8>) -> int {
    s[0] * 0x100_0000_0000_0000 + s[1] * 0x1_0000_0000_0000 + s[2] * 0x100_0000_0000 + s[3]
        * 0x1_0000_0000 + s[4] * 0x100_0000 + s[5] * 0x1_0000 + s[6] * 0x100 + s[7]
}

/// The two bytes of `n`, most significant first.
pub fn u16_to_octets(n: u16) -> (r: [u8; 2])
    ensures
        r@ == u16_octets(n),
{
    let r: [u8; 2] = [(n / 256) as u8, (n % 256) as u8];
    proof {
        assert(r@ =~= u16_octets(n));
    }
    r
}

/// The eight bytes of `n`, most significant first.
pub fn u64_to_octets(n: u64) -> (r: [u8; 8])
    ensures
        r@ == u64_octets(n),
{
    let r: [u8; 8] = [
        (n / 0x100_0000_0000_0000) as u8,
        (n / 0x1_0000_0000_0000 % 256) as u8,
        (n / 0x100_0000_0000 % 256) as u8,
        (n / 0x1_0000_0000 % 256) as u8,
        (n / 0x100_0000 % 256) as u8,
        (n / 0x1_0000 % 256) as u8,
        (n / 0x100 % 256) as u8,
        (n % 256) as u8,
    ];
    proof {
        assert(r@ =~= u64_octets(n));
    }
    r
}

/// Two bytes stand for a number, the higher one first.
pub proof fn law_u16_octets_are_big_endian(n: u16)
    ensures
        u16_octets(n).len() == 2,
        n == u16_octets(n)[0] * 256 + u16_octets(n)[1],
{
}

/// Eight bytes stand for a number, each for 256 times as much as the one behind it.
pub proof fn law_u64_octets_are_big_endian(n: u64)
    ensures
        u64_octets(n).len() == 8,
        ({
            let b = u64_octets(n);
            n == ((((((b[0] * 256 + b[1]) * 256 + b[2]) * 256 + b[3]) * 256 + b[4]) * 256 + b[5])
                * 256 + b[6]) * 256 + b[7]
        }),
        ({
            let b = u64_octets(n);
            u64_value(b) == ((((((b[0] * 256 + b[1]) * 256 + b[2]) * 256 + b[3]) * 256 + b[4])
                * 256 + b[5]) * 256 + b[6]) * 256 + b[7]
        }),
{
    law_u64_octets_read_back(n, Seq::empty());
    assert(u64_octets(n) + Seq::<u8>::empty() =~= u64_octets(n));
}

/// A number is read back from its eight bytes, whatever follows them.
pub proof fn law_u64_octets_read_back(n: u64, rest: Seq<u8>)
    ensures
        u64_octets(n).len() == 8,
        u64_value(u64_octets(n) + rest) == n,
{
    let s = u64_octets(n) + rest;
    assert(forall|i: int| 0 <= i < 8 ==> s[i] == u64_octets(n)[i]);
    assert(n == (n / 0x100_0000_0000_0000) * 0x100_0000_0000_0000 + (n / 0x1_0000_0000_0000 % 256)
        * 0x1_0000_0000_0000 + (n / 0x100_0000_0000 % 256) * 0x100_0000_0000 + (n / 0x1_0000_0000
        % 256) * 0x1_0000_0000 + (n / 0x100_0000 % 256) * 0x100_0000 + (n / 0x1_0000 % 256)
        * 0x1_0000 + (n / 0x100 % 256) * 0x100 + n % 256) by (bit_vector);
    assert(n / 0x100_0000_0000_0000 < 256) by (bit_vector);
}

/// How many bytes a list of byte strings has, with `extra` bytes more for each.
pub open spec fn listed_len(items: Seq<Seq<u8>>, extra: nat) -> nat
    decreases items.len(),
{
    if items.len() == 0 {
        0
    } else {
        listed_len(items.drop_last(), extra) + extra + items.last().len()
    }
}

/// Each byte string of a list counts its own bytes and the extra ones.
pub proof fn law_listed_len_counts_each(items: Seq<Seq<u8>>, item: Seq<u8>, extra: nat)
    ensures
        listed_len(Seq::empty(), extra) == 0,
        listed_len(items.push(item), extra) == listed_len(items, extra) + item.len() + extra,
{
    assert(items.push(item).drop_last() =~= items);
}

/// A longer list has no fewer bytes.
proof fn lemma_listed_len_grows(items: Seq<Seq<u8>>, extra: nat, n: int)
    requires
        0 <= n <= items.len(),
    ensures
        listed_len(items.take(n), extra) <= listed_len(items, extra),
    decreases items.len() - n,
{
    if n == items.len() {
        assert(items.take(n) =~= items);
    } else {
        let next = items.take(n + 1);
        assert(next.drop_last() =~= items.take(n));
        lemma_listed_len_grows(items, extra, n + 1);
    }
}

/// How many bytes a list of byte strings has, with `extra` bytes more for each, if
/// there are at most `max`.
pub fn list_len(items: &Vec<Vec<u8>>, extra: usize, max: usize) -> (r: Option<usize>)
    ensures
        ({
            let len = listed_len(items@.map_values(|item: Vec<u8>| item@), extra as nat);
            r == if len <= max {
                Some(len as usize)
            } else {
                None
            }
        }),
{
    let ghost all: Seq<Seq<u8>> = items@.map_values(|item: Vec<u8>| item@);
    let mut len: usize = 0;
    let mut i: usize = 0;
    proof {
        assert(all.take(0) =~= Seq::<Seq<u8>>::empty());
    }
    while i < items.len()
        invariant
            i <= items@.len(),
            all == items@.map_values(|item: Vec<u8>| item@),
            len == listed_len(all.take(i as int), extra as nat),
            len <= max,
        decreases items@.len() - i,
    {
        let n: usize = items[i].len();
        proof {
            let next = all.take(i + 1);
            assert(next.drop_last() =~= all.take(i as int));
            assert(next.last() == all[i as int]);
            assert(all[i as int].len() == n);
            lemma_listed_len_grows(all, extra as nat, i + 1);
        }
        if extra > max - len || n > max - len - extra {
            return None;
        }
        len = len + extra + n;
        i = i + 1;
    }
    proof {
        assert(all.take(i as int) =~= all);
    }
    Some(len)
}

/// `buf` with the bytes from `at` on replaced by `src`.
pub open spec fn spliced(buf: Seq<u8>, at: int, src: Seq<u8>) -> Seq<u8> {
    buf.take(at) + src + buf.skip(at + src.len())
}

/// Bytes that are put in place stand there. The bytes before and behind them stay, and
/// so does the length.
pub proof fn law_spliced_bytes_stand_in_place(buf: Seq<u8>, at: int, src: Seq<u8>, i: int)
    requires
        0 <= at,
        at + src.len() <= buf.len(),
        0 <= i < buf.len(),
    ensures
        spliced(buf, at, src).len() == buf.len(),
        at <= i < at + src.len() ==> spliced(buf, at, src)[i] == src[i - at],
        i < at || i >= at + src.len() ==> spliced(buf, at, src)[i] == buf[i],
{
}

/// Writes `src` into `buf` from position `at` on.
pub fn copy_at(buf: &mut [u8], at: usize, src: &[u8])
    requires
        at + src@.len() <= old(buf)@.len(),
    ensures
        final(buf)@ == spliced(old(buf)@, at as int, src@),
{
    let ghost before: Seq<u8> = buf@;
    let size: usize = buf.len();
    let mut i: usize = 0;
    while i < src.len()
        invariant
            i <= src@.len(),
            size == before.len(),
            buf@.len() == before.len(),
            at + src@.len() <= before.len(),
            buf@ == spliced(before, at as int, src@.take(i as int)),
        decreases src@.len() - i,
    {
        buf[at + i] = src[i];
        i = i + 1;
        proof {
            assert(buf@ =~= spliced(before, at as int, src@.take(i as int)));
        }
    }
    proof {
        assert(src@.take(i as int) =~= src@);
    }
}

} // verus!
