//! Reading and writing DER elements.

use vstd::prelude::*;
use vstd::slice::slice_subrange;

verus! {

/// Tag of a DER `SEQUENCE`.
pub const SEQUENCE: u8 = 0x30;

/// The number that `bytes` encodes, most significant byte first.
pub open spec fn be_value(bytes: Seq<u8>) -> nat
    decreases bytes.len(),
{
    if bytes.len() == 0 {
        0
    } else {
        be_value(bytes.drop_last()) * 256 + bytes.last() as nat
    }
}

/// The shortest big-endian encoding of `n`, at least one byte long.
pub open spec fn be_bytes(n: nat) -> Seq<u8>
    decreases n,
{
    if n < 256 {
        seq![n as u8]
    } else {
        be_bytes(n / 256).push((n % 256) as u8)
    }
}

/// A DER element at the front of some input.
pub struct Element {
    /// The identifier octet.
    pub tag: u8,
    /// The contents octets.
    pub value: Seq<u8>,
    /// Identifier, length and contents octets together.
    pub raw: Seq<u8>,
    /// What follows the element in the input.
    pub rest: Seq<u8>,
}

/// What a reader finds at the front of its input.
pub enum Step {
    /// No element can be started, and the input stays as it is.
    Stop,
    /// An element starts here but is not complete.
    Malformed,
    /// A complete element.
    Found(Element),
}

/// The step for an element whose header takes `header` bytes and whose contents
/// take `len` bytes.
pub open spec fn sized_step(input: Seq<u8>, header: nat, len: nat) -> Step {
    if header + len > usize::MAX {
        Step::Stop
    } else if input.len() < header + len {
        Step::Malformed
    } else {
        Step::Found(
            Element {
                tag: input[0],
                value: input.subrange(header as int, (header + len) as int),
                raw: input.subrange(0, (header + len) as int),
                rest: input.subrange((header + len) as int, input.len() as int),
            },
        )
    }
}

/// What a reader finds at the front of `input`.
///
/// Short lengths take one byte. Otherwise the first length byte says in its low
/// seven bits how many bytes hold the length; a length that the machine cannot
/// represent stops the reader.
pub open spec fn der_step(input: Seq<u8>) -> Step {
    if input.len() < 2 {
        Step::Stop
    } else if input[1] < 0x80 {
        sized_step(input, 2, input[1] as nat)
    } else {
        let n = (input[1] - 0x80) as nat;
        if n == 0 || input.len() < 2 + n {
            Step::Malformed
        } else {
            let len = be_value(input.subrange(2, (2 + n) as int));
            if len > usize::MAX {
                Step::Stop
            } else {
                sized_step(input, 2 + n, len)
            }
        }
    }
}

/// The element at the front of `input`, if a complete one is there.
pub open spec fn head(input: Seq<u8>) -> Option<Element> {
    match der_step(input) {
        Step::Found(e) => Some(e),
        _ => None,
    }
}

/// The element at position `i` of the elements that `input` is made of.
pub open spec fn element_at(input: Seq<u8>, i: nat) -> Option<Element>
    decreases i,
{
    match head(input) {
        None => None,
        Some(e) => if i == 0 {
            Some(e)
        } else {
            element_at(e.rest, (i - 1) as nat)
        },
    }
}

/// The element at position `i`, if it is there and carries `tag`.
pub open spec fn tagged_at(input: Seq<u8>, i: nat, tag: u8) -> Option<Element> {
    match element_at(input, i) {
        Some(e) => if e.tag == tag {
            Some(e)
        } else {
            None
        },
        None => None,
    }
}

/// A cursor over the DER elements of a byte string.
pub struct DerReader<'a> {
    pub input: &'a [u8],
}

impl<'a> DerReader<'a> {
    /// Starts reading at the front of `input`.
    pub fn new(input: &'a [u8]) -> (r: Self)
        ensures
            r.input@ == input@,
    {
        DerReader { input }
    }

    /// The tag of the next element, without reading it.
    pub fn peek_tag(&self) -> (r: Option<u8>)
        ensures
            r == if self.input@.len() == 0 {
                None::<u8>
            } else {
                Some(self.input@[0])
            },
    {
        if self.input.len() == 0 {
            None
        } else {
            Some(self.input[0])
        }
    }

    /// Reads the next element with its tag, its contents and its whole encoding.
    ///
    /// `None` is the end of what can be read, and leaves the input alone.
    /// `Some(None)` is an incomplete element, and drops the rest of the input.
    pub fn next_raw(&mut self) -> (r: Option<Option<(u8, &'a [u8], &'a [u8])>>)
        ensures
            match der_step(old(self).input@) {
                Step::Stop => r is None && final(self).input@ == old(self).input@,
                Step::Malformed => r == Some(None::<(u8, &'a [u8], &'a [u8])>)
                    && final(self).input@ == Seq::<u8>::empty(),
                Step::Found(e) => {
                    &&& r matches Some(Some((tag, value, raw)))
                    &&& tag == e.tag
                    &&& value@ == e.value
                    &&& raw@ == e.raw
                    &&& final(self).input@ == e.rest
                },
            },
    {
        let input: &'a [u8] = self.input;
        if input.len() < 2 {
            return None;
        }
        let tag: u8 = input[0];
        let first_len: u8 = input[1];
        let mut len: usize = first_len as usize;
        let mut header: usize = 2;
        if first_len >= 0x80 {
            let len_len: usize = (first_len - 0x80) as usize;
            if len_len == 0 || input.len() - 2 < len_len {
                self.input = slice_subrange(input, input.len(), input.len());
                proof {
                    assert(self.input@ =~= Seq::<u8>::empty());
                }
                return Some(None);
            }
            match read_len(slice_subrange(input, 2, 2 + len_len)) {
                None => {
                    return None;
                },
                Some(l) => {
                    len = l;
                },
            }
            header = 2 + len_len;
        }
        if len > usize::MAX - header {
            return None;
        }
        let end: usize = header + len;
        if input.len() < end {
            self.input = slice_subrange(input, input.len(), input.len());
            proof {
                assert(self.input@ =~= Seq::<u8>::empty());
            }
            return Some(None);
        }
        let value: &'a [u8] = slice_subrange(input, header, end);
        let raw: &'a [u8] = slice_subrange(input, 0, end);
        self.input = slice_subrange(input, end, input.len());
        Some(Some((tag, value, raw)))
    }

    /// Reads the next element with its tag and its contents, as `next_raw` does.
    pub fn next(&mut self) -> (r: Option<Option<(u8, &'a [u8])>>)
        ensures
            match der_step(old(self).input@) {
                Step::Stop => r is None && final(self).input@ == old(self).input@,
                Step::Malformed => r == Some(None::<(u8, &'a [u8])>) && final(self).input@ == Seq::<
                    u8,
                >::empty(),
                Step::Found(e) => {
                    &&& r matches Some(Some((tag, value)))
                    &&& tag == e.tag
                    &&& value@ == e.value
                    &&& final(self).input@ == e.rest
                },
            },
    {
        match self.next_raw() {
            None => None,
            Some(None) => Some(None),
            Some(Some((tag, value, _))) => Some(Some((tag, value))),
        }
    }
}

/// The number that `bytes` encodes, unless it is too large for the machine.
fn read_len(bytes: &[u8]) -> (r: Option<usize>)
    ensures
        r == if be_value(bytes@) <= usize::MAX {
            Some(be_value(bytes@) as usize)
        } else {
            None::<usize>
        },
{
    let mut len: usize = 0;
    let mut i: usize = 0;
    proof {
        assert(bytes@.take(0) =~= Seq::<u8>::empty());
    }
    while i < bytes.len()
        invariant
            i <= bytes@.len(),
            len == be_value(bytes@.take(i as int)),
        decreases bytes@.len() - i,
    {
        proof {
            assert(bytes@.take(i + 1).drop_last() =~= bytes@.take(i as int));
            lemma_be_value_prefix(bytes@, i + 1);
        }
        match len.checked_mul(256) {
            None => {
                return None;
            },
            Some(shifted) => {
                match shifted.checked_add(bytes[i] as usize) {
                    None => {
                        return None;
                    },
                    Some(l) => {
                        len = l;
                    },
                }
            },
        }
        i = i + 1;
    }
    proof {
        assert(bytes@.take(i as int) =~= bytes@);
    }
    Some(len)
}

/// A prefix never encodes more than the whole.
proof fn lemma_be_value_prefix(bytes: Seq<u8>, n: int)
    requires
        0 <= n <= bytes.len(),
    ensures
        be_value(bytes.take(n)) <= be_value(bytes),
    decreases bytes.len() - n,
{
    if n == bytes.len() {
        assert(bytes.take(n) =~= bytes);
    } else {
        lemma_be_value_prefix(bytes, n + 1);
        assert(bytes.take(n + 1).drop_last() =~= bytes.take(n));
    }
}

/// The DER length octets for contents of `len` bytes.
pub open spec fn len_octets(len: nat) -> Seq<u8> {
    if len < 0x80 {
        seq![len as u8]
    } else {
        seq![(0x80 + be_bytes(len).len()) as u8] + be_bytes(len)
    }
}

/// The DER `SEQUENCE` with the given contents.
pub open spec fn sequence_of(value: Seq<u8>) -> Seq<u8> {
    seq![SEQUENCE] + len_octets(value.len()) + value
}

/// Appends the DER length octets for contents of `len` bytes.
pub fn encode_der_len(len: usize, out: &mut Vec<u8>)
    ensures
        final(out)@ == old(out)@ + len_octets(len as nat),
{
    if len < 0x80 {
        out.push(len as u8);
        return;
    }
    let mut digits: Vec<u8> = Vec::new();
    let mut rest: usize = len;
    proof {
        lemma_be_bytes_bound(len as nat);
        assert(be_bytes(rest as nat) + digits@.reverse() =~= be_bytes(len as nat));
    }
    while rest >= 256
        invariant
            be_bytes(rest as nat) + digits@.reverse() == be_bytes(len as nat),
        decreases rest,
    {
        let ghost before: Seq<u8> = digits@;
        digits.push((rest % 256) as u8);
        proof {
            assert(digits@.reverse() =~= seq![(rest % 256) as u8] + before.reverse());
            assert(be_bytes((rest / 256) as nat) + digits@.reverse() =~= be_bytes(rest as nat)
                + before.reverse());
        }
        rest = rest / 256;
    }
    let ghost low: Seq<u8> = digits@;
    digits.push(rest as u8);
    proof {
        assert(digits@.reverse() =~= seq![rest as u8] + low.reverse());
        assert(digits@.reverse() == be_bytes(len as nat));
    }
    out.push(0x80 + digits.len() as u8);
    let ghost prefix: Seq<u8> = out@;
    let mut i: usize = digits.len();
    while i > 0
        invariant
            i <= digits@.len(),
            out@ == prefix + digits@.skip(i as int).reverse(),
        decreases i,
    {
        i = i - 1;
        proof {
            assert(digits@.skip(i as int) =~= seq![digits@[i as int]] + digits@.skip(i + 1));
            assert(digits@.skip(i as int).reverse() =~= digits@.skip(i + 1).reverse().push(
                digits@[i as int],
            ));
        }
        out.push(digits[i]);
    }
    proof {
        assert(digits@.skip(0) =~= digits@);
        assert(out@ =~= old(out)@ + len_octets(len as nat));
    }
}

/// The DER `SEQUENCE` whose contents are `value`.
pub fn der_sequence(value: &[u8]) -> (r: Vec<u8>)
    ensures
        r@ == sequence_of(value@),
{
    let mut der: Vec<u8> = Vec::new();
    der.push(SEQUENCE);
    encode_der_len(value.len(), &mut der);
    der.extend_from_slice(value);
    proof {
        assert(der@ =~= sequence_of(value@));
    }
    der
}

/// A machine-sized number takes at most eight bytes.
proof fn lemma_be_bytes_bound(n: nat)
    requires
        n <= u64::MAX,
    ensures
        1 <= be_bytes(n).len() <= 8,
{
    reveal_with_fuel(be_bytes, 9);
}

/// Encoding a number and decoding it gives the number back.
pub proof fn law_be_bytes_round_trip(n: nat)
    ensures
        be_value(be_bytes(n)) == n,
    decreases n,
{
    reveal_with_fuel(be_value, 2);
    if n < 256 {
        assert(be_bytes(n).drop_last() =~= Seq::<u8>::empty());
    } else {
        law_be_bytes_round_trip(n / 256);
        assert(be_bytes(n).drop_last() =~= be_bytes(n / 256));
    }
}

/// A sequence that was written is read back: whatever follows it, the reader
/// finds its tag and its contents, and goes on behind it.
pub proof fn law_sequence_reads_back(value: Seq<u8>, rest: Seq<u8>)
    requires
        sequence_of(value).len() <= usize::MAX,
    ensures
        der_step(sequence_of(value) + rest) == Step::Found(
            Element { tag: SEQUENCE, value, raw: sequence_of(value), rest },
        ),
{
    let len = value.len();
    let octets = len_octets(len);
    let der = sequence_of(value);
    let input = der + rest;
    assert(octets.len() >= 1) by {
        if len >= 0x80 {
            lemma_be_bytes_bound(len);
        }
    }
    assert(input[0] == SEQUENCE);
    assert(input[1] == octets[0]);
    assert(der.len() == 1 + octets.len() + len);
    if len >= 0x80 {
        lemma_be_bytes_bound(len);
        law_be_bytes_round_trip(len);
        let n = be_bytes(len).len();
        assert(octets.len() == 1 + n);
        assert(input.subrange(2, (2 + n) as int) =~= be_bytes(len));
    }
    let header = 1 + octets.len();
    assert(input.subrange(header as int, (header + len) as int) =~= value);
    assert(input.subrange(0, (header + len) as int) =~= der);
    assert(input.subrange((header + len) as int, input.len() as int) =~= rest);
}

/// An element and what follows it are the input, and the contents end the element.
pub proof fn law_element_splits_input(input: Seq<u8>)
    ensures
        head(input) matches Some(e) ==> {
            &&& input == e.raw + e.rest
            &&& e.raw[0] == e.tag
            &&& 2 <= e.raw.len()
            &&& e.value == e.raw.skip(e.raw.len() - e.value.len())
        },
{
    if let Some(e) = head(input) {
        assert(input =~= e.raw + e.rest);
        assert(e.value =~= e.raw.skip(e.raw.len() - e.value.len()));
    }
}

/// A number is written in base 256, most significant byte first, without leading zeros.
pub proof fn law_numbers_are_big_endian(bytes: Seq<u8>, b: u8, n: nat)
    ensures
        be_value(Seq::empty()) == 0,
        be_value(bytes.push(b)) == be_value(bytes) * 256 + b,
        be_bytes(n).len() > 0,
        be_bytes(n).last() == n % 256,
        n >= 256 ==> be_bytes(n).drop_last() == be_bytes(n / 256),
        n < 256 ==> be_bytes(n).len() == 1,
        n > 0 ==> be_bytes(n)[0] != 0,
    decreases n,
{
    assert(bytes.push(b).drop_last() =~= bytes);
    if n >= 256 {
        law_numbers_are_big_endian(bytes, b, n / 256);
        assert(be_bytes(n).drop_last() =~= be_bytes(n / 256));
        assert(be_bytes(n)[0] == be_bytes(n / 256)[0]);
    }
}

/// The length octets of contents: the length itself if it is below 128, else how many
/// bytes it takes, with the highest bit set, and these bytes.
pub proof fn law_length_octets(len: nat)
    requires
        len <= u64::MAX,
    ensures
        len < 128 ==> len_octets(len).len() == 1 && len_octets(len)[0] == len,
        len >= 128 ==> {
            let n = be_bytes(len).len();
            &&& len_octets(len).len() == n + 1
            &&& len_octets(len)[0] == 128 + n
            &&& len_octets(len).skip(1) == be_bytes(len)
        },
        SEQUENCE == 0x30,
{
    lemma_be_bytes_bound(len);
    if len >= 128 {
        assert(len_octets(len).skip(1) =~= be_bytes(len));
    }
}

/// What a reader finds, for every input. With fewer than two bytes it stops. A length
/// below 128 stands in the second byte. A greater one follows it, in as many bytes as the
/// second byte says, of which there must be one at least and all of them there. An element
/// whose contents are not all there is malformed, and one that is longer than the machine
/// can count stops the reader. Otherwise the element is found.
pub proof fn law_reader_steps(input: Seq<u8>)
    ensures
        input.len() < 2 ==> der_step(input) is Stop,
        input.len() >= 2 && input[1] < 128 ==> {
            let end = 2 + input[1];
            &&& input.len() < end <==> der_step(input) is Malformed
            &&& input.len() >= end ==> der_step(input) is Found && input.take(end)
                == der_step(input)->0.raw && input.subrange(2, end) == der_step(input)->0.value
                && input.skip(end) == der_step(input)->0.rest && input[0] == der_step(input)->0.tag
        },
        input.len() >= 2 && input[1] >= 128 ==> {
            let start = input[1] - 126;
            let end = start + be_value(input.subrange(2, start));
            &&& start == 2 || input.len() < start ==> der_step(input) is Malformed
            &&& start > 2 && input.len() >= start ==> {
                &&& end > usize::MAX <==> der_step(input) is Stop
                &&& input.len() < end <= usize::MAX <==> der_step(input) is Malformed
                &&& end <= input.len() && end <= usize::MAX ==> der_step(input) is Found
                    && input.take(end) == der_step(input)->0.raw && input.subrange(start, end)
                    == der_step(input)->0.value && input.skip(end) == der_step(input)->0.rest
                    && input[0] == der_step(input)->0.tag
            }
        },
        head(input) is Some <==> der_step(input) is Found,
        head(input) is Some ==> head(input)->0 == der_step(input)->0,
{
}

/// An element of any kind is read back, whatever follows it.
pub proof fn law_element_reads_back(tag: u8, value: Seq<u8>, rest: Seq<u8>)
    requires
        value.len() + 10 <= usize::MAX,
    ensures
        ({
            let raw = seq![tag] + len_octets(value.len()) + value;
            der_step(raw + rest) == Step::Found(Element { tag, value, raw, rest })
        }),
{
    let len = value.len();
    let octets = len_octets(len);
    let der = seq![tag] + octets + value;
    let input = der + rest;
    lemma_be_bytes_bound(len);
    assert(octets.len() >= 1);
    assert(input[0] == tag);
    assert(input[1] == octets[0]);
    if len >= 0x80 {
        law_be_bytes_round_trip(len);
        let n = be_bytes(len).len();
        assert(octets.len() == 1 + n);
        assert(input.subrange(2, (2 + n) as int) =~= be_bytes(len));
    }
    let header = 1 + octets.len();
    assert(input.subrange(header as int, (header + len) as int) =~= value);
    assert(input.subrange(0, (header + len) as int) =~= der);
    assert(input.subrange((header + len) as int, input.len() as int) =~= rest);
}

/// The elements of an input follow one another: the first is at its front, and the next
/// one at the front of what follows an element. One that must have a tag is there when the
/// tag is its own.
pub proof fn law_elements_follow_one_another(input: Seq<u8>, i: nat, tag: u8)
    ensures
        element_at(input, 0) == head(input),
        head(input) is Some ==> element_at(input, i + 1) == element_at(head(input)->0.rest, i),
        head(input) is None ==> element_at(input, i) is None,
        tagged_at(input, i, tag) is Some <==> element_at(input, i) is Some && element_at(
            input,
            i,
        )->0.tag == tag,
        tagged_at(input, i, tag) is Some ==> tagged_at(input, i, tag) == element_at(input, i),
{
}

} // verus!
