//! PCM sample conversions, two-source mixing, and the WAV header.
use vstd::prelude::*;

verus! {

/// Samples per 20 ms frame at 16 kHz.
pub const FRAME_SAMPLES: usize = 320;

/// Integer division rounding toward zero, as Rust's `/` does.
pub open spec fn div_trunc(a: int, d: int) -> int {
    if a >= 0 {
        a / d
    } else {
        -((-a) / d)
    }
}

/// The 7:3 weighted mix of a microphone and a monitor sample.
pub open spec fn mixed(mic: i16, sys: i16) -> int {
    div_trunc(mic as int * 7 + sys as int * 3, 10)
}

/// Mixes one microphone sample with one monitor sample, 7:3.
pub fn mix_sample(mic: i16, sys: i16) -> (r: i16)
    ensures
        r as int == mixed(mic, sys),
{
    let a = mic as i32 * 7 + sys as i32 * 3;
    let q = a / 10;
    proof {
        if a >= 0 {
            assert(q == a / 10);
        }
    }
    assert(-32768 <= q <= 32767);
    q as i16
}

/// Sample `i` of `s`, or silence past its end.
pub open spec fn sample_or_zero(s: Seq<i16>, i: int) -> i16 {
    if 0 <= i < s.len() {
        s[i]
    } else {
        0
    }
}

/// Mixes the first `n` samples of two buffers, 7:3, a missing sample counting
/// as silence.
pub fn mix_chunk(mic: &Vec<i16>, sys: &Vec<i16>, n: usize) -> (r: Vec<i16>)
    ensures
        r@.len() == n,
        forall|i: int|
            0 <= i < n ==> #[trigger] r@[i] as int == mixed(
                sample_or_zero(mic@, i),
                sample_or_zero(sys@, i),
            ),
{
    let mut out: Vec<i16> = Vec::new();
    let mut i: usize = 0;
    while i < n
        invariant
            i <= n,
            out@.len() == i,
            forall|j: int|
                0 <= j < i ==> #[trigger] out@[j] as int == mixed(
                    sample_or_zero(mic@, j),
                    sample_or_zero(sys@, j),
                ),
        decreases n - i,
    {
        let m = if i < mic.len() {
            mic[i]
        } else {
            0
        };
        let s = if i < sys.len() {
            sys[i]
        } else {
            0
        };
        out.push(mix_sample(m, s));
        i = i + 1;
    }
    out
}

/// The unsigned 16-bit pattern of a sample.
pub open spec fn bits16(s: i16) -> int {
    if s >= 0 {
        s as int
    } else {
        s as int + 65536
    }
}

/// Little-endian bytes of samples, two per sample.
pub open spec fn le_bytes_of(s: Seq<i16>) -> Seq<u8> {
    Seq::new(
        2 * s.len(),
        |k: int|
            if k % 2 == 0 {
                (bits16(s[k / 2]) % 256) as u8
            } else {
                (bits16(s[k / 2]) / 256) as u8
            },
    )
}

/// Converts samples to little-endian bytes.
pub fn i16_slice_to_u8(samples: &[i16]) -> (r: Vec<u8>)
    requires
        2 * samples@.len() <= usize::MAX,
    ensures
        r@ == le_bytes_of(samples@),
{
    let mut out: Vec<u8> = Vec::new();
    let n = samples.len();
    let mut i: usize = 0;
    while i < n
        invariant
            i <= n,
            n == samples@.len(),
            out@.len() == 2 * i,
            forall|k: int| 0 <= k < 2 * i ==> out@[k] == #[trigger] le_bytes_of(samples@)[k],
        decreases n - i,
    {
        let s = samples[i];
        let u: u16 = if s >= 0 {
            s as u16
        } else {
            (s as i32 + 65536) as u16
        };
        assert(u as int == bits16(s));
        out.push((u % 256) as u8);
        out.push((u / 256) as u8);
        proof {
            assert((2 * i as int) / 2 == i as int);
            assert((2 * i as int + 1) / 2 == i as int);
            assert((2 * i as int) % 2 == 0);
            assert((2 * i as int + 1) % 2 == 1);
        }
        i = i + 1;
    }
    assert(out@ =~= le_bytes_of(samples@));
    out
}

/// The sample whose little-endian bytes are `lo`, `hi`.
pub open spec fn sample_of(lo: u8, hi: u8) -> i16 {
    let v = lo as int + 256 * hi as int;
    (if v >= 32768 {
        v - 65536
    } else {
        v
    }) as i16
}

/// Converts little-endian bytes to samples; a trailing odd byte is ignored.
pub fn le_bytes_to_pcm(bytes: &[u8]) -> (r: Vec<i16>)
    ensures
        r@.len() == bytes@.len() / 2,
        forall|i: int|
            0 <= i < r@.len() ==> #[trigger] r@[i] == sample_of(bytes@[2 * i], bytes@[2 * i + 1]),
{
    let mut out: Vec<i16> = Vec::new();
    let len = bytes.len();
    let n = len / 2;
    assert(2 * n <= len);
    let mut i: usize = 0;
    while i < n
        invariant
            i <= n,
            n == bytes@.len() / 2,
            2 * n <= len,
            len == bytes@.len(),
            out@.len() == i,
            forall|j: int|
                0 <= j < i ==> #[trigger] out@[j] == sample_of(bytes@[2 * j], bytes@[2 * j + 1]),
        decreases n - i,
    {
        let lo = bytes[2 * i];
        let hi = bytes[2 * i + 1];
        let v: i32 = lo as i32 + 256 * hi as i32;
        let s: i16 = if v >= 32768 {
            (v - 65536) as i16
        } else {
            v as i16
        };
        out.push(s);
        i = i + 1;
    }
    out
}

/// Little-endian bytes of a 32-bit value.
pub open spec fn le32(x: u32) -> Seq<u8> {
    seq![
        (x % 256) as u8,
        ((x / 256) % 256) as u8,
        ((x / 65536) % 256) as u8,
        (x / 16777216) as u8,
    ]
}

/// Little-endian bytes of a 16-bit value.
pub open spec fn le16(x: u16) -> Seq<u8> {
    seq![(x % 256) as u8, (x / 256) as u8]
}

fn push_le32(v: &mut Vec<u8>, x: u32)
    ensures
        final(v)@ == old(v)@ + le32(x),
{
    v.push((x % 256) as u8);
    v.push(((x / 256) % 256) as u8);
    v.push(((x / 65536) % 256) as u8);
    v.push((x / 16777216) as u8);
    assert(final(v)@ =~= old(v)@ + le32(x));
}

fn push_le16(v: &mut Vec<u8>, x: u16)
    ensures
        final(v)@ == old(v)@ + le16(x),
{
    v.push((x % 256) as u8);
    v.push((x / 256) as u8);
    assert(final(v)@ =~= old(v)@ + le16(x));
}

fn push_tag(v: &mut Vec<u8>, a: u8, b: u8, c: u8, d: u8)
    ensures
        final(v)@ == old(v)@ + seq![a, b, c, d],
{
    v.push(a);
    v.push(b);
    v.push(c);
    v.push(d);
    assert(final(v)@ =~= old(v)@ + seq![a, b, c, d]);
}

/// The 44-byte header of a 16-bit PCM WAV file holding `data_len` bytes.
pub open spec fn wav_header(data_len: u32, sample_rate: u32, channels: u16) -> Seq<u8> {
    seq![0x52u8, 0x49, 0x46, 0x46] + le32((36 + data_len) as u32) + seq![0x57u8, 0x41, 0x56, 0x45]
        + seq![0x66u8, 0x6d, 0x74, 0x20] + le32(16) + le16(1) + le16(channels) + le32(sample_rate)
        + le32((sample_rate * channels * 2) as u32) + le16((channels * 2) as u16) + le16(16) + seq![
        0x64u8,
        0x61,
        0x74,
        0x61,
    ] + le32(data_len)
}

/// Wraps raw 16-bit PCM in a WAV container: "RIFF" header, "fmt " chunk for
/// integer PCM, then the "data" chunk.
pub fn add_wav_header(pcm_data: &[u8], sample_rate: u32, channels: u16) -> (r: Vec<u8>)
    requires
        pcm_data@.len() + 36 <= u32::MAX,
        sample_rate * channels * 16 <= u32::MAX,
        channels * 16 <= u16::MAX,
    ensures
        r@ == wav_header(pcm_data@.len() as u32, sample_rate, channels) + pcm_data@,
{
    let bits_per_sample: u16 = 16;
    assert(sample_rate * channels <= sample_rate * channels * 16) by (nonlinear_arith);
    let byte_rate: u32 = sample_rate * (channels as u32) * (bits_per_sample as u32) / 8;
    let block_align: u16 = channels * bits_per_sample / 8;
    let data_size = pcm_data.len() as u32;
    let file_size = 36 + data_size;
    assert(byte_rate == sample_rate * channels * 2) by (nonlinear_arith)
        requires
            byte_rate == sample_rate * channels * 16 / 8,
    ;
    let mut wav: Vec<u8> = Vec::new();
    push_tag(&mut wav, 0x52, 0x49, 0x46, 0x46);
    push_le32(&mut wav, file_size);
    push_tag(&mut wav, 0x57, 0x41, 0x56, 0x45);
    push_tag(&mut wav, 0x66, 0x6d, 0x74, 0x20);
    push_le32(&mut wav, 16);
    push_le16(&mut wav, 1);
    push_le16(&mut wav, channels);
    push_le32(&mut wav, sample_rate);
    push_le32(&mut wav, byte_rate);
    push_le16(&mut wav, block_align);
    push_le16(&mut wav, bits_per_sample);
    push_tag(&mut wav, 0x64, 0x61, 0x74, 0x61);
    push_le32(&mut wav, data_size);
    let ghost header = wav@;
    assert(header =~= wav_header(pcm_data@.len() as u32, sample_rate, channels));
    let n = pcm_data.len();
    let mut i: usize = 0;
    while i < n
        invariant
            i <= n,
            n == pcm_data@.len(),
            wav@ == header + pcm_data@.subrange(0, i as int),
        decreases n - i,
    {
        wav.push(pcm_data[i]);
        proof {
            assert(pcm_data@.subrange(0, i as int + 1) =~= pcm_data@.subrange(0, i as int).push(
                pcm_data@[i as int],
            ));
            assert(wav@ =~= header + pcm_data@.subrange(0, i as int + 1));
        }
        i = i + 1;
    }
    assert(pcm_data@.subrange(0, n as int) =~= pcm_data@);
    wav
}

} // verus!
