//! The waveform container codec.
//!
//! Encoding always produces the canonical container: mono, 16000 Hz,
//! 16-bit signed little-endian PCM, with RIFF chunk headers. Decoding
//! accepts any declared channel count and bit depth, integer or
//! floating-point samples, and walks the chunk list to find the format
//! and data chunks; malformed containers are rejected.

use vstd::prelude::*;
use vstd::arithmetic::div_mod::{
    lemma_fundamental_div_mod, lemma_mod_division_less_than_divisor, lemma_div_pos_is_pos,
    lemma_multiply_divide_le,
};
use vstd::arithmetic::mul::lemma_mul_inequality;

verus! {

/// Two little-endian bytes of a value in 0..65536.
pub open spec fn u16_le(x: int) -> Seq<u8> {
    seq![(x % 256) as u8, (x / 256) as u8]
}

/// Four little-endian bytes of a value in 0..2^32.
pub open spec fn u32_le(x: int) -> Seq<u8> {
    seq![
        (x % 256) as u8,
        (x / 256 % 256) as u8,
        (x / 65536 % 256) as u8,
        (x / 16777216) as u8,
    ]
}

/// A 16-bit sample as its unsigned 16-bit wire value.
pub open spec fn sample_u16(x: i16) -> int {
    if x >= 0 {
        x as int
    } else {
        x + 65536
    }
}

/// The PCM byte stream of a sample sequence: each sample as two
/// little-endian bytes.
pub open spec fn pcm16_bytes(s: Seq<i16>) -> Seq<u8> {
    Seq::new(
        2 * s.len(),
        |k: int|
            if k % 2 == 0 {
                (sample_u16(s[k / 2]) % 256) as u8
            } else {
                (sample_u16(s[k / 2]) / 256) as u8
            },
    )
}

pub open spec fn riff_tag() -> Seq<u8> {
    seq![82u8, 73u8, 70u8, 70u8]
}

pub open spec fn wave_tag() -> Seq<u8> {
    seq![87u8, 65u8, 86u8, 69u8]
}

pub open spec fn fmt_tag() -> Seq<u8> {
    seq![102u8, 109u8, 116u8, 32u8]
}

pub open spec fn data_tag() -> Seq<u8> {
    seq![100u8, 97u8, 116u8, 97u8]
}

/// The 44 header bytes of the canonical container around `n` samples.
pub open spec fn wav_header(n: int) -> Seq<u8> {
    riff_tag() + u32_le(36 + 2 * n) + wave_tag() + fmt_tag() + u32_le(16) + u16_le(1) + u16_le(1)
        + u32_le(16000) + u32_le(32000) + u16_le(2) + u16_le(16) + data_tag() + u32_le(2 * n)
}

/// The full canonical encoding of a sample sequence.
pub open spec fn wav_encoding(s: Seq<i16>) -> Seq<u8> {
    wav_header(s.len() as int) + pcm16_bytes(s)
}

fn push_u16_le(v: &mut Vec<u8>, x: u16)
    ensures
        final(v)@ == old(v)@ + u16_le(x as int),
{
    v.push((x % 256) as u8);
    v.push((x / 256) as u8);
    proof {
        assert(final(v)@ =~= old(v)@ + u16_le(x as int));
    }
}

fn push_u32_le(v: &mut Vec<u8>, x: u32)
    ensures
        final(v)@ == old(v)@ + u32_le(x as int),
{
    v.push((x % 256) as u8);
    v.push((x / 256 % 256) as u8);
    v.push((x / 65536 % 256) as u8);
    v.push((x / 16777216) as u8);
    proof {
        assert(final(v)@ =~= old(v)@ + u32_le(x as int));
    }
}

/// Encode samples into the canonical container.
pub fn encode_wav(samples: &Vec<i16>) -> (r: Vec<u8>)
    requires
        36 + 2 * samples@.len() <= u32::MAX,
    ensures
        r@ == wav_encoding(samples@),
{
    let n = samples.len();
    let data_size: u32 = 2 * (n as u32);
    let mut v: Vec<u8> = Vec::new();
    v.push(82);
    v.push(73);
    v.push(70);
    v.push(70);
    push_u32_le(&mut v, 36 + data_size);
    v.push(87);
    v.push(65);
    v.push(86);
    v.push(69);
    v.push(102);
    v.push(109);
    v.push(116);
    v.push(32);
    push_u32_le(&mut v, 16);
    push_u16_le(&mut v, 1);
    push_u16_le(&mut v, 1);
    push_u32_le(&mut v, 16000);
    push_u32_le(&mut v, 32000);
    push_u16_le(&mut v, 2);
    push_u16_le(&mut v, 16);
    v.push(100);
    v.push(97);
    v.push(116);
    v.push(97);
    push_u32_le(&mut v, data_size);
    proof {
        assert(v@ =~= wav_header(samples@.len() as int));
    }
    let mut i: usize = 0;
    while i < n
        invariant
            n == samples@.len(),
            36 + 2 * n <= u32::MAX,
            i <= n,
            v@ == wav_header(n as int) + pcm16_bytes(samples@.take(i as int)),
        decreases n - i,
    {
        let x = samples[i];
        let u: u16 = if x >= 0 {
            x as u16
        } else {
            ((x as i32) + 65536) as u16
        };
        v.push((u % 256) as u8);
        v.push((u / 256) as u8);
        proof {
            assert(v@ =~= wav_header(n as int) + pcm16_bytes(samples@.take(i + 1)));
        }
        i += 1;
    }
    proof {
        assert(samples@.take(n as int) =~= samples@);
    }
    v
}

/// The 16-bit little-endian value at position `p`.
pub open spec fn le16_at(b: Seq<u8>, p: int) -> int {
    b[p] + 256 * b[p + 1]
}

/// The 32-bit little-endian value at position `p`.
pub open spec fn le32_at(b: Seq<u8>, p: int) -> int {
    b[p] + 256 * b[p + 1] + 65536 * b[p + 2] + 16777216 * b[p + 3]
}

/// The little-endian value of `nbytes` bytes at position `p`.
pub open spec fn le_val(b: Seq<u8>, p: int, nbytes: int) -> int
    decreases nbytes,
{
    if nbytes <= 0 {
        0
    } else {
        b[p] + 256 * le_val(b, p + 1, nbytes - 1)
    }
}

/// 256 to the power `nbytes`: the exclusive upper bound of `le_val`.
pub open spec fn bytes_bound(nbytes: int) -> int
    decreases nbytes,
{
    if nbytes <= 0 {
        1
    } else {
        256 * bytes_bound(nbytes - 1)
    }
}

proof fn lemma_le_val_bound(b: Seq<u8>, p: int, nbytes: int)
    requires
        0 <= p,
        p + nbytes <= b.len(),
    ensures
        0 <= le_val(b, p, nbytes) < bytes_bound(nbytes),
    decreases nbytes,
{
    if nbytes <= 0 {
    } else {
        lemma_le_val_bound(b, p + 1, nbytes - 1);
        assert(256 * le_val(b, p + 1, nbytes - 1) <= 256 * (bytes_bound(nbytes - 1) - 1)) by {
            lemma_mul_inequality(le_val(b, p + 1, nbytes - 1), bytes_bound(nbytes - 1) - 1, 256);
            vstd::arithmetic::mul::lemma_mul_is_commutative(le_val(b, p + 1, nbytes - 1), 256);
            vstd::arithmetic::mul::lemma_mul_is_commutative(bytes_bound(nbytes - 1) - 1, 256);
        }
        assert(256 * (bytes_bound(nbytes - 1) - 1) == 256 * bytes_bound(nbytes - 1) - 256)
            by (nonlinear_arith);
    }
}

/// The sign-extended value of an unsigned `nbytes`-byte integer.
pub open spec fn signed_of(raw: int, nbytes: int) -> int {
    if raw < bytes_bound(nbytes) / 2 {
        raw
    } else {
        raw - bytes_bound(nbytes)
    }
}

/// The position of the first chunk with the given four-byte id, scanning
/// from `p`; `None` when the list ends, or a chunk overruns the buffer,
/// before the id is found.
pub open spec fn chunk_pos(b: Seq<u8>, p: int, id: Seq<u8>) -> Option<int>
    decreases b.len() - p,
{
    if p < 0 || p + 8 > b.len() {
        None
    } else {
        let size = le32_at(b, p + 4);
        if b.subrange(p, p + 4) == id {
            if p + 8 + size <= b.len() {
                Some(p)
            } else {
                None
            }
        } else {
            let next = p + 8 + size + (if size % 2 == 1 { 1int } else { 0int });
            if next <= b.len() {
                chunk_pos(b, next, id)
            } else {
                None
            }
        }
    }
}

/// A found chunk lies entirely inside the buffer.
pub proof fn lemma_chunk_pos_valid(b: Seq<u8>, p: int, id: Seq<u8>)
    requires
        chunk_pos(b, p, id) is Some,
    ensures
        ({
            let q = chunk_pos(b, p, id).unwrap();
            &&& 0 <= q
            &&& q + 8 <= b.len()
            &&& b.subrange(q, q + 4) == id
            &&& q + 8 + le32_at(b, q + 4) <= b.len()
        }),
    decreases b.len() - p,
{
    if p < 0 || p + 8 > b.len() {
    } else {
        let size = le32_at(b, p + 4);
        if b.subrange(p, p + 4) == id {
        } else {
            let next = p + 8 + size + (if size % 2 == 1 { 1int } else { 0int });
            if next <= b.len() {
                lemma_chunk_pos_valid(b, next, id);
            }
        }
    }
}

/// The RIFF/WAVE magic is present.
pub open spec fn wav_has_header(b: Seq<u8>) -> bool {
    b.len() >= 12 && b.subrange(0, 4) == riff_tag() && b.subrange(8, 12) == wave_tag()
}

pub open spec fn fmt_pos(b: Seq<u8>) -> Option<int> {
    chunk_pos(b, 12, fmt_tag())
}

pub open spec fn data_pos(b: Seq<u8>) -> Option<int> {
    chunk_pos(b, 12, data_tag())
}

/// The effective format code: the declared one, except that an extensible
/// format chunk (code 65534, at least 40 bytes) carries the real code in
/// its sub-format field.
pub open spec fn wav_format(b: Seq<u8>) -> int {
    let f = fmt_pos(b).unwrap();
    let raw = le16_at(b, f + 8);
    if raw == 65534 && le32_at(b, f + 4) >= 40 {
        le16_at(b, f + 32)
    } else {
        raw
    }
}

pub open spec fn wav_channels(b: Seq<u8>) -> int {
    le16_at(b, fmt_pos(b).unwrap() + 10)
}

pub open spec fn wav_rate(b: Seq<u8>) -> int {
    le32_at(b, fmt_pos(b).unwrap() + 12)
}

pub open spec fn wav_bits(b: Seq<u8>) -> int {
    le16_at(b, fmt_pos(b).unwrap() + 22)
}

pub open spec fn wav_data_start(b: Seq<u8>) -> int {
    data_pos(b).unwrap() + 8
}

pub open spec fn wav_data_len(b: Seq<u8>) -> int {
    le32_at(b, data_pos(b).unwrap() + 4)
}

/// A well-formed container: magic present, a format chunk of full size
/// whose code and bit depth this codec accepts, and a data chunk.
pub open spec fn wav_ok(b: Seq<u8>) -> bool {
    &&& wav_has_header(b)
    &&& fmt_pos(b) is Some
    &&& le32_at(b, fmt_pos(b).unwrap() + 4) >= 16
    &&& data_pos(b) is Some
    &&& {
        let fc = wav_format(b);
        let bits = wav_bits(b);
        ||| (fc == 1 && (bits == 8 || bits == 16 || bits == 24 || bits == 32))
        ||| (fc == 3 && bits == 32)
    }
}

/// The number of samples in the data chunk.
pub open spec fn wav_sample_count(b: Seq<u8>) -> int {
    wav_data_len(b) / (wav_bits(b) / 8)
}

/// The integer samples of a format-1 container, sign-extended.
pub open spec fn wav_int_samples(b: Seq<u8>) -> Seq<i32> {
    let nb = wav_bits(b) / 8;
    let start = wav_data_start(b);
    Seq::new(
        wav_sample_count(b) as nat,
        |i: int| signed_of(le_val(b, start + i * nb, nb), nb) as i32,
    )
}

/// The raw 32-bit words of a format-3 (floating-point) container.
pub open spec fn wav_float_words(b: Seq<u8>) -> Seq<u32> {
    let start = wav_data_start(b);
    Seq::new(wav_sample_count(b) as nat, |i: int| le32_at(b, start + 4 * i) as u32)
}

proof fn lemma_le32_recompose(x: int)
    requires
        0 <= x < 0x1_0000_0000,
    ensures
        (x % 256) + 256 * ((x / 256) % 256) + 65536 * ((x / 65536) % 256) + 16777216 * (x
            / 16777216) == x,
{
    lemma_fundamental_div_mod(x, 256);
    lemma_mod_division_less_than_divisor(x, 256);
    let r1 = x / 256;
    lemma_fundamental_div_mod(r1, 256);
    lemma_mod_division_less_than_divisor(r1, 256);
    let r2 = r1 / 256;
    lemma_fundamental_div_mod(r2, 256);
    lemma_mod_division_less_than_divisor(r2, 256);
    let r3 = r2 / 256;
    assert(x / 65536 == r2 && r1 / 256 == r2) by {
        vstd::arithmetic::div_mod::lemma_div_denominator(x, 256, 256);
    }
    assert(x / 16777216 == r3) by {
        vstd::arithmetic::div_mod::lemma_div_denominator(x, 65536, 256);
        vstd::arithmetic::div_mod::lemma_div_denominator(x, 256, 256);
        vstd::arithmetic::div_mod::lemma_div_denominator(x, 256, 65536);
    }
    assert(r2 % 256 == r2 - 256 * r3 && r1 % 256 == r1 - 256 * r2 && x % 256 == x - 256 * r1);
    assert(r3 == 0 || r3 > 0);
    assert(x - 256 * r1 + 256 * (r1 - 256 * r2) + 65536 * (r2 - 256 * r3) + 16777216 * r3 == x)
        by (nonlinear_arith);
}

/// The canonical encoding decodes back to exactly the samples that were
/// encoded: it is a well-formed mono 16-bit 16000 Hz integer container
/// whose integer samples are the original ones.
pub proof fn lemma_encode_decode(s: Seq<i16>)
    requires
        36 + 2 * s.len() <= u32::MAX,
    ensures
        wav_ok(wav_encoding(s)),
        wav_format(wav_encoding(s)) == 1,
        wav_channels(wav_encoding(s)) == 1,
        wav_rate(wav_encoding(s)) == 16000,
        wav_bits(wav_encoding(s)) == 16,
        wav_int_samples(wav_encoding(s)).len() == s.len(),
        forall|i: int| 0 <= i < s.len() ==> wav_int_samples(wav_encoding(s))[i] == s[i] as i32,
{
    let b = wav_encoding(s);
    let n = s.len() as int;
    let h = wav_header(n);
    assert(h.len() == 44);
    assert(b.len() == 44 + 2 * n);
    // the header bytes, position by position
    assert forall|k: int| 0 <= k < 44 implies b[k] == h[k] by {}
    assert(b.subrange(0, 4) =~= riff_tag());
    assert(b.subrange(8, 12) =~= wave_tag());
    assert(b.subrange(12, 16) =~= fmt_tag());
    assert(b.subrange(36, 40) =~= data_tag());
    assert(le32_at(b, 16) == 16);
    assert(le16_at(b, 20) == 1);
    assert(le16_at(b, 22) == 1);
    assert(le32_at(b, 24) == 16000) by {
        lemma_le32_recompose(16000);
    }
    assert(le16_at(b, 34) == 16);
    assert(le32_at(b, 40) == 2 * n) by {
        lemma_le32_recompose(2 * n);
    }
    // the format chunk is the first in the list
    assert(chunk_pos(b, 12, fmt_tag()) == Some(12int));
    // the data chunk is the second
    assert(b.subrange(12, 16) != data_tag()) by {
        assert(b.subrange(12, 16)[0] != data_tag()[0]);
    }
    assert(chunk_pos(b, 12, data_tag()) == chunk_pos(b, 36, data_tag()));
    assert(chunk_pos(b, 36, data_tag()) == Some(36int));
    assert(wav_ok(b));
    assert(wav_sample_count(b) == n) by {
        assert(wav_data_len(b) == 2 * n);
        assert(wav_bits(b) / 8 == 2);
        assert(2 * n / 2 == n) by (nonlinear_arith);
    }
    assert(wav_data_start(b) == 44);
    assert forall|i: int| 0 <= i < s.len() implies wav_int_samples(b)[i] == s[i] as i32 by {
        let su = sample_u16(s[i]);
        assert(pcm16_bytes(s)[2 * i] == (su % 256) as u8) by {
            assert((2 * i) % 2 == 0 && (2 * i) / 2 == i) by (nonlinear_arith);
        }
        assert(pcm16_bytes(s)[2 * i + 1] == (su / 256) as u8) by {
            assert((2 * i + 1) % 2 == 1 && (2 * i + 1) / 2 == i) by (nonlinear_arith);
        }
        assert(b[44 + 2 * i] == pcm16_bytes(s)[2 * i]);
        assert(b[44 + 2 * i + 1] == pcm16_bytes(s)[2 * i + 1]);
        lemma_fundamental_div_mod(su, 256);
        lemma_mod_division_less_than_divisor(su, 256);
        assert(le_val(b, 44 + 2 * i, 2) == b[44 + 2 * i] + 256 * le_val(b, 44 + 2 * i + 1, 1));
        assert(le_val(b, 44 + 2 * i + 1, 1) == b[44 + 2 * i + 1] + 256 * le_val(
            b,
            44 + 2 * i + 2,
            0,
        ));
        assert(le_val(b, 44 + 2 * i + 2, 0) == 0);
        assert(le_val(b, 44 + 2 * i, 2) == su);
        assert(bytes_bound(2) == 65536) by {
            reveal_with_fuel(bytes_bound, 3);
        }
        assert(signed_of(su, 2) == s[i] as int);
    }
}

/// A malformed container was rejected.
#[derive(Debug, Clone, Copy, PartialEq, Eq, Structural)]
pub struct DecodeError;

/// The samples of a decoded container: integer samples sign-extended to
/// 32 bits, or the raw words of 32-bit floating-point samples, for the
/// caller to interpret.
pub enum SampleData {
    Int(Vec<i32>),
    Float(Vec<u32>),
}

/// A decoded container: the declared stream parameters and the samples,
/// channel-interleaved exactly as stored (decoding never downmixes).
pub struct DecodedWav {
    pub channels: u16,
    pub sample_rate: u32,
    pub bits_per_sample: u16,
    pub data: SampleData,
}

fn read_u16_at(b: &Vec<u8>, p: usize) -> (r: u16)
    requires
        p + 2 <= b@.len(),
    ensures
        r == le16_at(b@, p as int),
{
    let _n: usize = b.len();
    (b[p] as u16) + 256 * (b[p + 1] as u16)
}

fn read_u32_at(b: &Vec<u8>, p: usize) -> (r: u32)
    requires
        p + 4 <= b@.len(),
    ensures
        r == le32_at(b@, p as int),
{
    let _n: usize = b.len();
    (b[p] as u32) + 256 * (b[p + 1] as u32) + 65536 * (b[p + 2] as u32) + 16777216 * (b[p + 3]
        as u32)
}

fn read_le(b: &Vec<u8>, p: usize, nb: usize) -> (r: u32)
    requires
        1 <= nb <= 4,
        p + nb <= b@.len(),
    ensures
        r == le_val(b@, p as int, nb as int),
        r < bytes_bound(nb as int),
{
    proof {
        lemma_le_val_bound(b@, p as int, nb as int);
    }
    let _n: usize = b.len();
    let mut acc: u32 = 0;
    let mut k: usize = nb;
    while k > 0
        invariant
            k <= nb <= 4,
            p + nb <= b@.len(),
            b@.len() <= usize::MAX,
            acc == le_val(b@, p + k, nb - k),
            acc < bytes_bound(nb - k),
        decreases k,
    {
        proof {
            lemma_le_val_bound(b@, p + k, nb - k);
            assert(bytes_bound(nb - k) <= 16777216) by {
                reveal_with_fuel(bytes_bound, 5);
            }
        }
        k -= 1;
        acc = acc * 256 + (b[p + k] as u32);
        proof {
            lemma_le_val_bound(b@, p + k + 1, nb - k - 1);
        }
    }
    acc
}

/// Find a chunk with the given id, scanning the chunk list from `start`.
fn find_chunk(b: &Vec<u8>, start: usize, id0: u8, id1: u8, id2: u8, id3: u8) -> (r: Option<usize>)
    ensures
        match r {
            Some(p) => chunk_pos(b@, start as int, seq![id0, id1, id2, id3]) == Some(p as int),
            None => chunk_pos(b@, start as int, seq![id0, id1, id2, id3]) is None,
        },
{
    let ghost id: Seq<u8> = seq![id0, id1, id2, id3];
    let len = b.len();
    let mut p = start;
    loop
        invariant
            p <= usize::MAX,
            len == b@.len(),
            id == seq![id0, id1, id2, id3],
            id.len() == 4,
            chunk_pos(b@, start as int, id) == chunk_pos(b@, p as int, id),
        decreases b@.len() - p,
    {
        if len < 8 || p > len - 8 {
            proof {
                assert(p as int + 8 > b@.len());
            }
            return None;
        }
        let size = read_u32_at(b, p + 4);
        let remaining_after = len - (p + 8);
        if b[p] == id0 && b[p + 1] == id1 && b[p + 2] == id2 && b[p + 3] == id3 {
            proof {
                assert(b@.subrange(p as int, p + 4) =~= id);
            }
            if size as usize <= remaining_after {
                return Some(p);
            } else {
                return None;
            }
        }
        proof {
            assert(b@.subrange(p as int, p + 4) != id) by {
                if b@[p as int] != id0 {
                    assert(b@.subrange(p as int, p + 4)[0] != id[0]);
                } else if b@[p + 1] != id1 {
                    assert(b@.subrange(p as int, p + 4)[1] != id[1]);
                } else if b@[p + 2] != id2 {
                    assert(b@.subrange(p as int, p + 4)[2] != id[2]);
                } else {
                    assert(b@.subrange(p as int, p + 4)[3] != id[3]);
                }
            }
        }
        let pad: usize = if size % 2 == 1 {
            1
        } else {
            0
        };
        if size as usize > remaining_after || pad > remaining_after - size as usize {
            return None;
        }
        p = p + 8 + size as usize + pad;
    }
}

/// Decode a waveform container.
///
/// Succeeds exactly on well-formed containers; the returned stream
/// parameters and samples are the ones the container declares and holds.
pub fn decode_wav(bytes: &Vec<u8>) -> (r: Result<DecodedWav, DecodeError>)
    ensures
        r is Ok <==> wav_ok(bytes@),
        r matches Ok(d) ==> {
            &&& d.channels == wav_channels(bytes@)
            &&& d.sample_rate == wav_rate(bytes@)
            &&& d.bits_per_sample == wav_bits(bytes@)
            &&& wav_format(bytes@) == 1 ==> (d.data matches SampleData::Int(v) && v@
                == wav_int_samples(bytes@))
            &&& wav_format(bytes@) == 3 ==> (d.data matches SampleData::Float(v) && v@
                == wav_float_words(bytes@))
        },
{
    let len = bytes.len();
    if len < 12 {
        return Err(DecodeError);
    }
    if !(bytes[0] == 82 && bytes[1] == 73 && bytes[2] == 70 && bytes[3] == 70) {
        proof {
            if bytes@.subrange(0, 4) == riff_tag() {
                assert(bytes@[0] == 82 && bytes@[1] == 73 && bytes@[2] == 70 && bytes@[3] == 70)
                    by {
                    assert(bytes@.subrange(0, 4)[0] == riff_tag()[0]);
                    assert(bytes@.subrange(0, 4)[1] == riff_tag()[1]);
                    assert(bytes@.subrange(0, 4)[2] == riff_tag()[2]);
                    assert(bytes@.subrange(0, 4)[3] == riff_tag()[3]);
                }
            }
        }
        return Err(DecodeError);
    }
    if !(bytes[8] == 87 && bytes[9] == 65 && bytes[10] == 86 && bytes[11] == 69) {
        proof {
            if bytes@.subrange(8, 12) == wave_tag() {
                assert(bytes@[8] == 87 && bytes@[9] == 65 && bytes@[10] == 86 && bytes@[11] == 69)
                    by {
                    assert(bytes@.subrange(8, 12)[0] == wave_tag()[0]);
                    assert(bytes@.subrange(8, 12)[1] == wave_tag()[1]);
                    assert(bytes@.subrange(8, 12)[2] == wave_tag()[2]);
                    assert(bytes@.subrange(8, 12)[3] == wave_tag()[3]);
                }
            }
        }
        return Err(DecodeError);
    }
    proof {
        assert(bytes@.subrange(0, 4) =~= riff_tag());
        assert(bytes@.subrange(8, 12) =~= wave_tag());
    }
    proof {
        assert(seq![102u8, 109u8, 116u8, 32u8] =~= fmt_tag());
        assert(seq![100u8, 97u8, 116u8, 97u8] =~= data_tag());
    }
    let f = match find_chunk(bytes, 12, 102, 109, 116, 32) {
        Some(f) => f,
        None => {
            return Err(DecodeError);
        },
    };
    proof {
        lemma_chunk_pos_valid(bytes@, 12, fmt_tag());
    }
    let fmt_size = read_u32_at(bytes, f + 4);
    if fmt_size < 16 {
        return Err(DecodeError);
    }
    let raw_format = read_u16_at(bytes, f + 8);
    let format = if raw_format == 65534 && fmt_size >= 40 {
        read_u16_at(bytes, f + 32)
    } else {
        raw_format
    };
    let channels = read_u16_at(bytes, f + 10);
    let sample_rate = read_u32_at(bytes, f + 12);
    let bits = read_u16_at(bytes, f + 22);
    let d = match find_chunk(bytes, 12, 100, 97, 116, 97) {
        Some(d) => d,
        None => {
            return Err(DecodeError);
        },
    };
    proof {
        lemma_chunk_pos_valid(bytes@, 12, data_tag());
    }
    let data_size = read_u32_at(bytes, d + 4);
    let start = d + 8;
    if format == 1 && (bits == 8 || bits == 16 || bits == 24 || bits == 32) {
        let nb = (bits / 8) as usize;
        let count = (data_size as usize) / nb;
        proof {
            lemma_fundamental_div_mod(data_size as int, nb as int);
            lemma_mod_division_less_than_divisor(data_size as int, nb as int);
            lemma_div_pos_is_pos(data_size as int, nb as int);
        }
        let mut v: Vec<i32> = Vec::new();
        let mut i: usize = 0;
        while i < count
            invariant
                v@.len() == i,
                i <= count,
                1 <= nb <= 4,
                count == data_size as int / nb as int,
                nb as int * count <= data_size,
                start + data_size <= bytes@.len(),
                bytes@.len() <= usize::MAX,
                forall|j: int| 0 <= j < i ==> v@[j] == signed_of(
                    le_val(bytes@, start + j * nb, nb as int),
                    nb as int,
                ) as i32,
            decreases count - i,
        {
            proof {
                lemma_mul_inequality(i + 1, count as int, nb as int);
                assert((i + 1) * nb == i * nb + nb) by (nonlinear_arith);
                assert(count * nb == nb * count) by (nonlinear_arith);
                assert(i * nb >= 0) by (nonlinear_arith)
                    requires i >= 0 && nb >= 1;
            }
            let q = start + i * nb;
            let raw = read_le(bytes, q, nb);
            let half: u32 = match nb {
                1 => 128,
                2 => 32768,
                3 => 8388608,
                _ => 2147483648,
            };
            proof {
                assert(bytes_bound(1) == 256 && bytes_bound(2) == 65536 && bytes_bound(3)
                    == 16777216 && bytes_bound(4) == 4294967296) by {
                    reveal_with_fuel(bytes_bound, 5);
                }
            }
            let val: i32 = if raw < half {
                raw as i32
            } else {
                ((raw as i64) - (2 * half as i64)) as i32
            };
            proof {
                assert(2 * half == bytes_bound(nb as int));
                assert(val == signed_of(le_val(bytes@, start + i * nb, nb as int), nb as int) as i32);
            }
            v.push(val);
            i += 1;
        }
        proof {
            assert(v@ =~= wav_int_samples(bytes@));
        }
        return Ok(DecodedWav { channels, sample_rate, bits_per_sample: bits, data: SampleData::Int(v) });
    }
    if format == 3 && bits == 32 {
        let count = (data_size as usize) / 4;
        proof {
            lemma_fundamental_div_mod(data_size as int, 4);
            lemma_mod_division_less_than_divisor(data_size as int, 4);
            lemma_div_pos_is_pos(data_size as int, 4);
        }
        let mut v: Vec<u32> = Vec::new();
        let mut i: usize = 0;
        while i < count
            invariant
                v@.len() == i,
                i <= count,
                count == data_size as int / 4,
                4 * count <= data_size,
                start + data_size <= bytes@.len(),
                bytes@.len() <= usize::MAX,
                forall|j: int| 0 <= j < i ==> v@[j] == le32_at(bytes@, start + 4 * j) as u32,
            decreases count - i,
        {
            proof {
                lemma_mul_inequality(i + 1, count as int, 4);
                assert((i + 1) * 4 == i * 4 + 4) by (nonlinear_arith);
                assert(count * 4 == 4 * count) by (nonlinear_arith);
            }
            let q = start + i * 4;
            let w = read_u32_at(bytes, q);
            proof {
                assert(le_val(bytes@, q as int, 4) == le32_at(bytes@, q as int)) by {
                    reveal_with_fuel(le_val, 5);
                }
            }
            v.push(w);
            i += 1;
        }
        proof {
            assert(v@ =~= wav_float_words(bytes@));
        }
        return Ok(DecodedWav { channels, sample_rate, bits_per_sample: bits, data: SampleData::Float(v) });
    }
    Err(DecodeError)
}

} // verus!
