//! Sample PCM encoders: the MOD sign flip, and XM's delta encodings.
use vstd::prelude::*;

use crate::mod_format::period::ProTrackerCompatibility;

verus! {

/// An unsigned 8-bit sample as a signed one: `b - 128`, modulo 256.
pub open spec fn sign_flip(b: u8) -> u8 {
    ((b as int + 128) % 256) as u8
}

/// The silence bytes ProTracker compatibility puts before a sample: one for each of the first
/// two source bytes that is not silence (128).
pub open spec fn silence_prefix_len(pcm: Seq<u8>, pt_compatibility: ProTrackerCompatibility) -> nat {
    if pt_compatibility == ProTrackerCompatibility::Disabled {
        0
    } else {
        (if pcm.len() > 0 && pcm[0] != 128 { 1nat } else { 0nat }) + (if pcm.len() > 1 && pcm[1] != 128 { 1nat } else { 0nat })
    }
}

/// A MOD sample: the silence prefix, every byte sign-flipped, and one zero byte more when that
/// leaves an odd length.
pub open spec fn mod_sample_bytes(pcm: Seq<u8>, pt_compatibility: ProTrackerCompatibility) -> Seq<u8> {
    let body = Seq::new(silence_prefix_len(pcm, pt_compatibility), |i: int| 0u8) + pcm.map_values(|b: u8| sign_flip(b));
    if body.len() % 2 != 0 { body.push(0u8) } else { body }
}

/// Encodes unsigned 8-bit PCM as a MOD sample.
pub fn encode_mod_sample(pcm_u8: &[u8], pt_compatibility: ProTrackerCompatibility) -> (r: Vec<u8>)
    requires
        pcm_u8@.len() + 3 <= usize::MAX,
    ensures
        r@ == mod_sample_bytes(pcm_u8@, pt_compatibility),
        r@.len() % 2 == 0,
{
    let mut out: Vec<u8> = Vec::new();
    let ghost prefix = silence_prefix_len(pcm_u8@, pt_compatibility);
    if pt_compatibility != ProTrackerCompatibility::Disabled {
        if pcm_u8.len() > 0 && pcm_u8[0] != 128 {
            out.push(0);
        }
        if pcm_u8.len() > 1 && pcm_u8[1] != 128 {
            out.push(0);
        }
    }
    assert(out@ =~= Seq::new(prefix, |i: int| 0u8));
    let mut i: usize = 0;
    while i < pcm_u8.len()
        invariant
            i <= pcm_u8@.len(),
            prefix <= 2,
            pcm_u8@.len() + 3 <= usize::MAX,
            out@ =~= Seq::new(prefix, |i: int| 0u8) + pcm_u8@.take(i as int).map_values(|b: u8| sign_flip(b)),
        decreases pcm_u8@.len() - i,
    {
        let b = pcm_u8[i];
        let flipped: u8 = if b >= 128 { b - 128 } else { b + 128 };
        out.push(flipped);
        proof {
            assert(pcm_u8@.take(i + 1) =~= pcm_u8@.take(i as int).push(b));
        }
        i += 1;
    }
    proof {
        assert(pcm_u8@.take(i as int) =~= pcm_u8@);
    }
    if out.len() % 2 != 0 {
        out.push(0);
    }
    out
}

/// Delta encoding of 8-bit samples: each sample minus the one before it (`start` before the
/// first), modulo 256.
pub open spec fn delta_u8(s: Seq<u8>, start: int) -> Seq<u8> {
    Seq::new(s.len(), |i: int| ((s[i] - (if i == 0 { start } else { s[i - 1] as int })) % 256) as u8)
}

/// The samples at even positions (left channel of interleaved stereo).
pub open spec fn evens<T>(s: Seq<T>) -> Seq<T> {
    Seq::new(((s.len() + 1) / 2) as nat, |i: int| s[2 * i])
}

/// The samples at odd positions (right channel of interleaved stereo).
pub open spec fn odds<T>(s: Seq<T>) -> Seq<T> {
    Seq::new(s.len() / 2, |i: int| s[2 * i + 1])
}

/// Appends the delta encoding of one channel (every `step`-th sample from `first`) to `out`.
fn push_delta_u8(out: &mut Vec<u8>, pcm: &[u8], first: usize, step: usize)
    requires
        first < step <= 2,
    ensures
        final(out)@ == old(out)@ + delta_u8(if step == 1 { pcm@ } else if first == 0 { evens(pcm@) } else { odds(pcm@) }, 128),
{
    let ghost chan = if step == 1 { pcm@ } else if first == 0 { evens(pcm@) } else { odds(pcm@) };
    let ghost start = out@;
    let len: usize = pcm.len();
    let count: usize = if step == 1 { len } else if first == 0 { len / 2 + len % 2 } else { len / 2 };
    let mut prev: u8 = 128;
    let mut n: usize = 0;
    while n < count
        invariant
            first < step <= 2,
            chan == (if step == 1 { pcm@ } else if first == 0 { evens(pcm@) } else { odds(pcm@) }),
            len == pcm@.len(),
            count == chan.len(),
            count == (if step == 1 { pcm@.len() as int } else if first == 0 { ((pcm@.len() + 1) / 2) as int } else { (pcm@.len() / 2) as int }),
            n <= count,
            n > 0 ==> prev == chan[n - 1],
            n == 0 ==> prev == 128,
            out@ == start + delta_u8(chan, 128).take(n as int),
        decreases count - n,
    {
        let i: usize = if step == 1 {
            n
        } else {
            assert(first + 2 * n < pcm@.len()) by (nonlinear_arith)
                requires
                    len == pcm@.len(),
                    n < count,
                    first == 0 ==> count == (pcm@.len() + 1) / 2,
                    first == 1 ==> count == pcm@.len() / 2,
                    first <= 1;
            first + 2 * n
        };
        let b = pcm[i];
        assert(b == chan[n as int]);
        let d: u8 = if b >= prev { b - prev } else { ((b as u16 + 256) - prev as u16) as u8 };
        proof {
            let expected = delta_u8(chan, 128)[n as int];
            assert(d == expected);
            assert(delta_u8(chan, 128).take(n + 1) =~= delta_u8(chan, 128).take(n as int).push(expected));
        }
        out.push(d);
        prev = b;
        n += 1;
    }
    proof {
        assert(delta_u8(chan, 128).take(n as int) =~= delta_u8(chan, 128));
    }
}

/// XM 8-bit mono delta encoding, starting from silence (128).
pub fn encode_xm_delta_8bit_mono(pcm_u8: &[u8]) -> (r: Vec<u8>)
    ensures
        r@ == delta_u8(pcm_u8@, 128),
        undelta_u8(r@, 128) == pcm_u8@,
{
    let mut out: Vec<u8> = Vec::new();
    push_delta_u8(&mut out, pcm_u8, 0, 1);
    assert(out@ =~= delta_u8(pcm_u8@, 128));
    proof {
        lemma_delta_u8_round_trip(pcm_u8@);
    }
    out
}

/// XM 8-bit stereo delta encoding: the left channel (even bytes) delta-encoded, then the right
/// channel (odd bytes), each starting from silence (128).
pub fn encode_xm_delta_8bit_stereo(pcm_u8_interleaved: &[u8]) -> (r: Vec<u8>)
    ensures
        r@ == delta_u8(evens(pcm_u8_interleaved@), 128) + delta_u8(odds(pcm_u8_interleaved@), 128),
{
    let mut out: Vec<u8> = Vec::new();
    push_delta_u8(&mut out, pcm_u8_interleaved, 0, 2);
    push_delta_u8(&mut out, pcm_u8_interleaved, 1, 2);
    assert(out@ =~= delta_u8(evens(pcm_u8_interleaved@), 128) + delta_u8(odds(pcm_u8_interleaved@), 128));
    out
}

/// Little-endian bytes of a 16-bit delta encoding: each sample minus the one before it (0 before
/// the first), modulo 65536, low byte first.
pub open spec fn delta_i16_bytes(s: Seq<i16>) -> Seq<u8> {
    Seq::new(2 * s.len(), |k: int| {
        let i = k / 2;
        let d = (s[i] - (if i == 0 { 0int } else { s[i - 1] as int })) % 65536;
        if k % 2 == 0 { (d % 256) as u8 } else { (d / 256) as u8 }
    })
}

/// Appends the 16-bit delta encoding of one channel (every `step`-th sample from `first`).
fn push_delta_i16(out: &mut Vec<u8>, pcm: &[i16], first: usize, step: usize)
    requires
        first < step <= 2,
    ensures
        final(out)@ == old(out)@ + delta_i16_bytes(if step == 1 { pcm@ } else if first == 0 { evens(pcm@) } else { odds(pcm@) }),
{
    let ghost chan = if step == 1 { pcm@ } else if first == 0 { evens(pcm@) } else { odds(pcm@) };
    let ghost start = out@;
    let len: usize = pcm.len();
    let count: usize = if step == 1 { len } else if first == 0 { len / 2 + len % 2 } else { len / 2 };
    let mut prev: i32 = 0;
    let mut n: usize = 0;
    while n < count
        invariant
            first < step <= 2,
            chan == (if step == 1 { pcm@ } else if first == 0 { evens(pcm@) } else { odds(pcm@) }),
            len == pcm@.len(),
            count == chan.len(),
            count == (if step == 1 { pcm@.len() as int } else if first == 0 { ((pcm@.len() + 1) / 2) as int } else { (pcm@.len() / 2) as int }),
            n <= count,
            n > 0 ==> prev == chan[n - 1] as i32,
            n == 0 ==> prev == 0,
            out@ == start + delta_i16_bytes(chan).take(2 * n),
        decreases count - n,
    {
        let i: usize = if step == 1 {
            n
        } else {
            assert(first + 2 * n < pcm@.len()) by (nonlinear_arith)
                requires
                    len == pcm@.len(),
                    n < count,
                    first == 0 ==> count == (pcm@.len() + 1) / 2,
                    first == 1 ==> count == pcm@.len() / 2,
                    first <= 1;
            first + 2 * n
        };
        let s = pcm[i];
        assert(s == chan[n as int]);
        let d: i32 = s as i32 - prev;
        let u: i32 = if d < 0 { d + 65536 } else { d };
        let lo = (u % 256) as u8;
        let hi = (u / 256) as u8;
        proof {
            let all = delta_i16_bytes(chan);
            assert(u == (d as int) % 65536);
            assert(all[2 * n as int] == lo);
            assert(all[2 * n + 1] == hi);
            assert(all.take(2 * n + 2) =~= all.take(2 * n as int).push(lo).push(hi));
        }
        out.push(lo);
        out.push(hi);
        prev = s as i32;
        n += 1;
    }
    proof {
        assert(delta_i16_bytes(chan).take(2 * n as int) =~= delta_i16_bytes(chan));
    }
}

/// XM 16-bit mono delta encoding, starting from 0, little-endian.
pub fn encode_xm_delta_16bit_mono(pcm_i16: &[i16]) -> (r: Vec<u8>)
    ensures
        r@ == delta_i16_bytes(pcm_i16@),
        undelta_i16_bytes(r@) == pcm_i16@,
{
    let mut out: Vec<u8> = Vec::new();
    push_delta_i16(&mut out, pcm_i16, 0, 1);
    assert(out@ =~= delta_i16_bytes(pcm_i16@));
    proof {
        lemma_delta_i16_round_trip(pcm_i16@);
    }
    out
}

/// XM 16-bit stereo delta encoding: the left channel (even samples), then the right (odd
/// samples), each delta-encoded from 0.
pub fn encode_xm_delta_16bit_stereo(pcm_i16_interleaved: &[i16]) -> (r: Vec<u8>)
    ensures
        r@ == delta_i16_bytes(evens(pcm_i16_interleaved@)) + delta_i16_bytes(odds(pcm_i16_interleaved@)),
{
    let mut out: Vec<u8> = Vec::new();
    push_delta_i16(&mut out, pcm_i16_interleaved, 0, 2);
    push_delta_i16(&mut out, pcm_i16_interleaved, 1, 2);
    assert(out@ =~= delta_i16_bytes(evens(pcm_i16_interleaved@)) + delta_i16_bytes(odds(pcm_i16_interleaved@)));
    out
}

/// Decoding of an 8-bit delta stream: the running sum from `start`, modulo 256.
pub open spec fn undelta_u8(e: Seq<u8>, start: int) -> Seq<u8>
    decreases e.len(),
{
    if e.len() == 0 {
        Seq::empty()
    } else {
        let p = undelta_u8(e.drop_last(), start);
        let prev = if p.len() == 0 { start } else { p.last() as int };
        p.push(((prev + e.last()) % 256) as u8)
    }
}

/// Summing the deltas back up from silence restores the samples: 8-bit delta encoding loses
/// nothing.
pub proof fn lemma_delta_u8_round_trip(s: Seq<u8>)
    ensures
        undelta_u8(delta_u8(s, 128), 128) == s,
    decreases s.len(),
{
    if s.len() > 0 {
        let t = s.drop_last();
        assert(delta_u8(s, 128).drop_last() =~= delta_u8(t, 128));
        lemma_delta_u8_round_trip(t);
        let n = s.len() - 1;
        let prev: int = if n == 0 { 128 } else { s[n - 1] as int };
        let d = (s[n] - prev) % 256;
        assert(((prev + d) % 256) == s[n] as int) by (nonlinear_arith)
            requires d == (s[n] - prev) % 256, 0 <= s[n] < 256, 0 <= prev < 256;
        assert(undelta_u8(delta_u8(s, 128), 128) =~= s);
    }
}

/// The 16-bit sample (two's complement) a value stands for modulo 65536.
pub open spec fn wrap_i16(x: int) -> i16 {
    let u = x % 65536;
    (if u >= 32768 { u - 65536 } else { u }) as i16
}

/// Decoding of a little-endian 16-bit delta stream: the running sum from 0, as 16-bit samples.
pub open spec fn undelta_i16_bytes(e: Seq<u8>) -> Seq<i16>
    decreases e.len(),
{
    if e.len() < 2 {
        Seq::empty()
    } else {
        let p = undelta_i16_bytes(e.subrange(0, e.len() - 2));
        let prev = if p.len() == 0 { 0int } else { p.last() as int };
        p.push(wrap_i16(prev + e[e.len() - 2] + 256 * e[e.len() - 1]))
    }
}

/// Summing the 16-bit deltas back up from 0 restores the samples: 16-bit delta encoding loses
/// nothing.
pub proof fn lemma_delta_i16_round_trip(s: Seq<i16>)
    ensures
        undelta_i16_bytes(delta_i16_bytes(s)) == s,
    decreases s.len(),
{
    if s.len() > 0 {
        let t = s.drop_last();
        let e = delta_i16_bytes(s);
        assert(e.subrange(0, e.len() - 2) =~= delta_i16_bytes(t)) by {
            assert forall|k: int| 0 <= k < 2 * t.len() implies e[k] == #[trigger] delta_i16_bytes(t)[k] by {
                assert(k / 2 < t.len());
            }
        }
        lemma_delta_i16_round_trip(t);
        let n = s.len() - 1;
        let prev: int = if n == 0 { 0 } else { s[n - 1] as int };
        let d = (s[n] - prev) % 65536;
        assert((2 * n) / 2 == n && (2 * n + 1) / 2 == n && (2 * n) % 2 == 0 && (2 * n + 1) % 2 == 1);
        assert(e[2 * n] == (d % 256) as u8);
        assert(e[2 * n + 1] == (d / 256) as u8);
        assert(d % 256 + 256 * (d / 256) == d) by (nonlinear_arith)
            requires 0 <= d < 65536;
        assert(wrap_i16(prev + d) == s[n]) by (nonlinear_arith)
            requires d == (s[n] - prev) % 65536, -32768 <= s[n] < 32768, -32768 <= prev < 32768;
        assert(undelta_i16_bytes(e) =~= s);
    }
}

} // verus!
