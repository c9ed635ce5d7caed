//! Integers and length-prefixed byte strings as they stand on the wire.
use crate::errors::DecodeError;
use vstd::arithmetic::power::{lemma_pow0, lemma_pow_increases, pow};
use vstd::prelude::*;

verus! {

/// The two bytes of `n`, low byte first.
pub open spec fn le16(n: u16) -> Seq<u8> {
    seq![(n % 256) as u8, (n / 256) as u8]
}

/// The number that two bytes, low byte first, stand for.
pub open spec fn le16_value(low: u8, high: u8) -> u16 {
    (low + 256 * high) as u16
}

/// The `width` lowest bytes of `n`, high byte first.
pub open spec fn be_bytes(n: nat, width: nat) -> Seq<u8>
    decreases width,
{
    if width == 0 {
        Seq::empty()
    } else {
        be_bytes(n / 256, (width - 1) as nat).push((n % 256) as u8)
    }
}

/// The number that the bytes, high byte first, stand for.
pub open spec fn be_value(bytes: Seq<u8>) -> nat
    decreases bytes.len(),
{
    if bytes.len() == 0 {
        0
    } else {
        be_value(bytes.drop_last()) * 256 + bytes.last() as nat
    }
}

/// The length prefix of a byte string: two bytes below `0xffff`, else the mark
/// `0xffff` and the excess over it in eight bytes.
pub open spec fn length_prefix(len: nat) -> Seq<u8> {
    if len < 0xffff {
        be_bytes(len, 2)
    } else {
        be_bytes(0xffff, 2) + be_bytes((len - 0xffff) as nat, 8)
    }
}

/// A byte string behind its length prefix.
pub open spec fn bytes_field(data: Seq<u8>) -> Seq<u8> {
    length_prefix(data.len()) + data
}

/// The first `n` of the bytes, which must be there.
pub open spec fn take_exact(bytes: Seq<u8>, n: nat) -> Result<Seq<u8>, DecodeError> {
    if n <= bytes.len() {
        Ok(bytes.take(n as int))
    } else {
        Err(DecodeError::ShortRead)
    }
}

/// What reading a length-prefixed byte string off the front of `bytes` gives.
pub open spec fn read_bytes_field(bytes: Seq<u8>) -> Result<Seq<u8>, DecodeError> {
    if bytes.len() < 2 {
        Err(DecodeError::ShortRead)
    } else if be_value(bytes.take(2)) < 0xffff {
        take_exact(bytes.skip(2), be_value(bytes.take(2)))
    } else if bytes.len() < 10 {
        Err(DecodeError::ShortRead)
    } else if be_value(bytes.subrange(2, 10)) + 0xffff > u64::MAX {
        Err(DecodeError::InvalidValue)
    } else {
        take_exact(bytes.skip(10), be_value(bytes.subrange(2, 10)) + 0xffff)
    }
}

/// `width` bytes are written for a number.
pub proof fn lemma_be_bytes_len(n: nat, width: nat)
    ensures
        be_bytes(n, width).len() == width,
    decreases width,
{
    if width > 0 {
        lemma_be_bytes_len(n / 256, (width - 1) as nat);
    }
}

/// Reading a number back from its bytes gives the number, as long as it fits.
pub proof fn lemma_be_round_trip(n: nat, width: nat)
    requires
        n < pow(256, width),
    ensures
        be_value(be_bytes(n, width)) == n,
    decreases width,
{
    reveal(pow);
    if width > 0 {
        let rest = (width - 1) as nat;
        assert(n / 256 < pow(256, rest)) by (nonlinear_arith)
            requires
                n < pow(256, width),
                pow(256, width) == 256 * pow(256, rest),
        ;
        lemma_be_round_trip(n / 256, rest);
        assert(be_bytes(n, width).drop_last() =~= be_bytes(n / 256, rest));
    } else {
        lemma_pow0(256);
    }
}

/// The number of values that two and eight bytes can stand for.
pub proof fn lemma_be_widths()
    ensures
        pow(256, 2) == 0x10000,
        pow(256, 8) == 0x1_0000_0000_0000_0000,
{
    reveal(pow);
    reveal_with_fuel(pow, 9);
    assert(256 * (256 * (256 * (256 * (256 * (256 * (256 * (256 * 1)))))))
        == 0x1_0000_0000_0000_0000int);
}

/// A number read from `bytes.len()` bytes is below the next power.
pub proof fn lemma_be_value_bound(bytes: Seq<u8>)
    ensures
        be_value(bytes) < pow(256, bytes.len()),
    decreases bytes.len(),
{
    reveal(pow);
    if bytes.len() > 0 {
        let rest = bytes.drop_last();
        lemma_be_value_bound(rest);
        assert(be_value(rest) * 256 + 256 <= 256 * pow(256, rest.len())) by (nonlinear_arith)
            requires
                be_value(rest) + 1 <= pow(256, rest.len()),
        ;
    } else {
        lemma_pow0(256);
    }
}

/// The bytes of a number that was read from bytes are those bytes.
pub proof fn lemma_be_value_bytes(bytes: Seq<u8>)
    ensures
        be_bytes(be_value(bytes), bytes.len()) == bytes,
    decreases bytes.len(),
{
    if bytes.len() > 0 {
        let rest = bytes.drop_last();
        lemma_be_value_bytes(rest);
        assert(be_value(bytes) / 256 == be_value(rest));
        assert(be_value(bytes) % 256 == bytes.last());
        assert(be_bytes(be_value(bytes), bytes.len()) =~= bytes);
    } else {
        assert(bytes =~= Seq::<u8>::empty());
    }
}

/// A byte string written behind its length prefix is read back unchanged,
/// whatever follows it.
pub proof fn lemma_bytes_field_round_trip(data: Seq<u8>, tail: Seq<u8>)
    requires
        data.len() <= u64::MAX,
    ensures
        read_bytes_field(bytes_field(data) + tail) == Ok::<Seq<u8>, DecodeError>(data),
{
    let bytes = bytes_field(data) + tail;
    lemma_be_widths();
    if data.len() < 0xffff {
        lemma_be_bytes_len(data.len(), 2);
        lemma_be_round_trip(data.len(), 2);
        assert(bytes.take(2) =~= be_bytes(data.len(), 2));
        assert(bytes.skip(2).take(data.len() as int) =~= data);
    } else {
        let excess = (data.len() - 0xffff) as nat;
        lemma_be_bytes_len(0xffff, 2);
        lemma_be_round_trip(0xffff, 2);
        lemma_be_bytes_len(excess, 8);
        lemma_be_round_trip(excess, 8);
        assert(bytes.take(2) =~= be_bytes(0xffff, 2));
        assert(bytes.subrange(2, 10) =~= be_bytes(excess, 8));
        assert(bytes.skip(10).take(data.len() as int) =~= data);
    }
}

/// Reading a number back from its two bytes gives the number.
pub proof fn lemma_le16_round_trip(n: u16)
    ensures
        le16_value(le16(n)[0], le16(n)[1]) == n,
{
}

/// Appends the `width` lowest bytes of `n` to `out`, high byte first.
pub fn push_be(out: &mut Vec<u8>, n: u64, width: usize)
    ensures
        final(out)@ == old(out)@ + be_bytes(n as nat, width as nat),
    decreases width,
{
    if width > 0 {
        push_be(out, n / 256, width - 1);
        out.push((n % 256) as u8);
        assert(out@ =~= old(out)@ + be_bytes(n as nat, width as nat));
    } else {
        assert(out@ =~= old(out)@ + be_bytes(n as nat, 0));
    }
}

/// Reads the number in `bytes[from..to]`, high byte first.
pub fn read_be(bytes: &[u8], from: usize, to: usize) -> (r: u64)
    requires
        from <= to <= bytes@.len(),
        to - from <= 8,
    ensures
        r == be_value(bytes@.subrange(from as int, to as int)),
    decreases to - from,
{
    let ghost span = bytes@.subrange(from as int, to as int);
    if from == to {
        return 0;
    }
    let head: u64 = read_be(bytes, from, to - 1);
    proof {
        let rest = span.drop_last();
        assert(rest =~= bytes@.subrange(from as int, to - 1));
        lemma_be_value_bound(span);
        lemma_be_widths();
        lemma_pow_increases(256, span.len(), 8);
    }
    head * 256 + bytes[to - 1] as u64
}

/// Copies `bytes[from..to]`.
pub fn copy_range(bytes: &[u8], from: usize, to: usize) -> (r: Vec<u8>)
    requires
        from <= to <= bytes@.len(),
    ensures
        r@ == bytes@.subrange(from as int, to as int),
{
    let mut out: Vec<u8> = Vec::new();
    let mut i: usize = from;
    while i < to
        invariant
            from <= i <= to <= bytes@.len(),
            out@ == bytes@.subrange(from as int, i as int),
        decreases to - i,
    {
        out.push(bytes[i]);
        i += 1;
        assert(out@ =~= bytes@.subrange(from as int, i as int));
    }
    out
}

/// Appends `data` behind its length prefix to `out`.
pub fn push_bytes_field(out: &mut Vec<u8>, data: &Vec<u8>)
    ensures
        final(out)@ == old(out)@ + bytes_field(data@),
{
    let len: usize = data.len();
    if len < 0xffff {
        push_be(out, len as u64, 2);
    } else {
        push_be(out, 0xffff, 2);
        push_be(out, (len - 0xffff) as u64, 8);
    }
    let ghost prefix = out@;
    out.extend_from_slice(data.as_slice());
    assert(prefix =~= old(out)@ + length_prefix(data@.len()));
    assert(out@ =~= old(out)@ + bytes_field(data@));
}

/// Reads a length-prefixed byte string that starts at `bytes[from]`.
pub fn read_bytes_field_at(bytes: &[u8], from: usize) -> (r: Result<Vec<u8>, DecodeError>)
    requires
        from <= bytes@.len(),
    ensures
        (match r {
            Ok(data) => read_bytes_field(bytes@.skip(from as int)) == Ok::<Seq<u8>, DecodeError>(
                data@,
            ),
            Err(e) => read_bytes_field(bytes@.skip(from as int)) == Err::<Seq<u8>, DecodeError>(e),
        }),
{
    let ghost rest = bytes@.skip(from as int);
    if bytes.len() - from < 2 {
        return Err(DecodeError::ShortRead);
    }
    let short: u64 = read_be(bytes, from, from + 2);
    assert(rest.take(2) =~= bytes@.subrange(from as int, from + 2));
    if short < 0xffff {
        let start: usize = from + 2;
        if ((bytes.len() - start) as u64) < short {
            return Err(DecodeError::ShortRead);
        }
        assert(rest.skip(2).take(short as int) =~= bytes@.subrange(
            start as int,
            start + short as int,
        ));
        return Ok(copy_range(bytes, start, start + short as usize));
    }
    if bytes.len() - from < 10 {
        return Err(DecodeError::ShortRead);
    }
    let excess: u64 = read_be(bytes, from + 2, from + 10);
    assert(rest.subrange(2, 10) =~= bytes@.subrange(from + 2, from + 10));
    if excess > u64::MAX - 0xffff {
        return Err(DecodeError::InvalidValue);
    }
    let len: u64 = excess + 0xffff;
    let start: usize = from + 10;
    if ((bytes.len() - start) as u64) < len {
        return Err(DecodeError::ShortRead);
    }
    assert(rest.skip(10).take(len as int) =~= bytes@.subrange(start as int, start + len as int));
    Ok(copy_range(bytes, start, start + len as usize))
}

} // verus!
