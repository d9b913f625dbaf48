use vstd::prelude::*;
use crate::models::AudioDeviceInfo;

verus! {

/// The mixer's sample rate, in hertz.
pub const SAMPLE_RATE: u32 = 48_000;

/// The mixer's channel count.
pub const CHANNELS: u16 = 2;

/// The sample rate of mixed audio: 48 kHz.
pub fn sample_rate() -> (r: u32)
    ensures
        r == 48_000,
{
    SAMPLE_RATE
}

/// The channel count of mixed audio: stereo.
pub fn channels() -> (r: u16)
    ensures
        r == 2,
{
    CHANNELS
}

/// The samples in one mixing block: 20 ms of interleaved stereo at 48 kHz.
pub fn mix_block_samples() -> (r: usize)
    ensures
        r == 1920,
{
    let per_channel: u32 = sample_rate() / 50;
    let channel_count: u16 = channels();
    assert(per_channel == 960);
    assert(channel_count == 2);
    per_channel as usize * channel_count as usize
}

/// The bytes the microphone hands over at a time: 960 frames of
/// `block_align` bytes (20 ms at 48 kHz).
pub fn capture_block_bytes(block_align: u32) -> (r: usize)
    requires
        block_align * 960 <= usize::MAX,
    ensures
        r == block_align * 960,
{
    block_align as usize * 960
}

/// The concatenation of a list of byte blocks.
pub open spec fn flatten(blocks: Seq<Vec<u8>>) -> Seq<u8>
    decreases blocks.len(),
{
    if blocks.len() == 0 {
        Seq::empty()
    } else {
        flatten(blocks.drop_last()) + blocks.last()@
    }
}

/// Takes every whole block of `block_len` bytes off the front of `pending`,
/// in order; fewer than `block_len` bytes stay behind.
pub fn take_full_blocks(pending: &mut Vec<u8>, block_len: usize) -> (r: Vec<Vec<u8>>)
    requires
        block_len > 0,
    ensures
        flatten(r@) + final(pending)@ == old(pending)@,
        forall|i: int| 0 <= i < r@.len() ==> (#[trigger] r@[i])@.len() == block_len,
        final(pending)@.len() < block_len,
        r@.len() == old(pending)@.len() / (block_len as nat),
{
    let ghost orig = pending@;
    let mut blocks: Vec<Vec<u8>> = Vec::new();
    let mut start: usize = 0;
    let n = pending.len();
    assert(blocks@.len() * block_len == 0) by (nonlinear_arith)
        requires blocks@.len() == 0;
    assert(flatten(blocks@) =~= orig.subrange(0, 0));
    while n - start >= block_len
        invariant
            start <= n,
            n == orig.len(),
            pending@ == orig,
            block_len > 0,
            flatten(blocks@) == orig.subrange(0, start as int),
            forall|i: int| 0 <= i < blocks@.len() ==> (#[trigger] blocks@[i])@.len() == block_len,
            start == blocks@.len() * block_len,
        decreases n - start,
    {
        let mut block: Vec<u8> = Vec::with_capacity(block_len);
        let mut j: usize = 0;
        while j < block_len
            invariant
                j <= block_len,
                start + block_len <= n,
                n == orig.len(),
                pending@ == orig,
                block@ == orig.subrange(start as int, start + j),
            decreases block_len - j,
        {
            block.push(pending[start + j]);
            j = j + 1;
        }
        let ghost before = blocks@;
        blocks.push(block);
        proof {
            assert(blocks@.drop_last() == before);
            assert(orig.subrange(0, start + block_len) =~= orig.subrange(0, start as int) + orig.subrange(start as int, start + block_len));
        }
        start = start + block_len;
        assert(start == blocks@.len() * block_len) by (nonlinear_arith)
            requires start == before.len() * block_len + block_len, blocks@.len() == before.len() + 1;
    }
    let mut rest: Vec<u8> = Vec::with_capacity(n - start);
    let mut k: usize = start;
    while k < n
        invariant
            start <= k <= n,
            n == orig.len(),
            pending@ == orig,
            rest@ == orig.subrange(start as int, k as int),
        decreases n - k,
    {
        rest.push(pending[k]);
        k = k + 1;
    }
    *pending = rest;
    proof {
        assert(orig =~= orig.subrange(0, start as int) + orig.subrange(start as int, n as int));
        let q = blocks@.len() as int;
        let b = block_len as int;
        assert(orig.len() == q * b + (n - start));
        vstd::arithmetic::div_mod::lemma_fundamental_div_mod_converse(orig.len() as int, b, q, (n - start) as int);
    }
    blocks
}

/// The capture devices found, each marked as the default device when its
/// identifier is `default_id`.
pub fn mark_default_device(found: Vec<(String, String)>, default_id: &String) -> (r: Vec<(String, String, bool)>)
    ensures
        r@.len() == found@.len(),
        forall|i: int| 0 <= i < found@.len() ==> #[trigger] r@[i] == (found@[i].0, found@[i].1, found@[i].0@ == default_id@),
{
    let mut out: Vec<(String, String, bool)> = Vec::new();
    let mut i: usize = 0;
    while i < found.len()
        invariant
            i <= found@.len(),
            out@.len() == i,
            forall|k: int| 0 <= k < i ==> #[trigger] out@[k] == (found@[k].0, found@[k].1, found@[k].0@ == default_id@),
        decreases found@.len() - i,
    {
        let id = found[i].0.clone();
        let name = found[i].1.clone();
        let is_default = id == *default_id;
        out.push((id, name, is_default));
        i = i + 1;
    }
    out
}

/// The device list that the interface shows, in the order found.
pub fn audio_devices_from(devices: Vec<(String, String, bool)>) -> (r: Vec<AudioDeviceInfo>)
    ensures
        r@.len() == devices@.len(),
        forall|i: int| 0 <= i < devices@.len() ==> #[trigger] r@[i] == (AudioDeviceInfo {
            id: devices@[i].0,
            name: devices@[i].1,
            is_default: devices@[i].2,
        }),
{
    let mut out: Vec<AudioDeviceInfo> = Vec::new();
    let mut i: usize = 0;
    while i < devices.len()
        invariant
            i <= devices@.len(),
            out@.len() == i,
            forall|k: int| 0 <= k < i ==> #[trigger] out@[k] == (AudioDeviceInfo {
                id: devices@[k].0,
                name: devices@[k].1,
                is_default: devices@[k].2,
            }),
        decreases devices@.len() - i,
    {
        out.push(AudioDeviceInfo {
            id: devices[i].0.clone(),
            name: devices[i].1.clone(),
            is_default: devices[i].2,
        });
        i = i + 1;
    }
    out
}

} // verus!
