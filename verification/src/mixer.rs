use crate::sfxplayer::SfxPattern;
use vstd::prelude::*;
use vstd::slice::slice_to_vec;

verus! {

/// The playback rates of sound effects, in Hz, by the index that the
/// bytecode gives.
pub const FREQUENCE_TABLE: [u16; 40] = [
    0x0CFF, 0x0DC3, 0x0E91, 0x0F6F, 0x1056, 0x114E, 0x1259, 0x136C, 0x149F, 0x15D9,
    0x1726, 0x1888, 0x19FD, 0x1B86, 0x1D21, 0x1EDE, 0x20AB, 0x229C, 0x24B3, 0x26D7,
    0x293F, 0x2BB2, 0x2E4C, 0x3110, 0x33FB, 0x370D, 0x3A43, 0x3DDF, 0x4157, 0x4538,
    0x4998, 0x4DAE, 0x5240, 0x5764, 0x5C9A, 0x61C8, 0x6793, 0x6E19, 0x7485, 0x7BBD,
];

/// Number of channels of the mixer.
pub const NUM_CHANNELS: usize = 4;

/// Samples per second of the output.
pub const SOUND_SAMPLE_RATE: u32 = 22050;

/// The loudest volume of a channel.
pub const MAX_VOLUME: u8 = 0x3f;

/// The sum of two numbers, kept within the range of a sample.
pub open spec fn spec_add_clamp(a: i16, b: i16) -> i8 {
    if a + b < -128 {
        -128i8
    } else if a + b > 127 {
        127i8
    } else {
        (a + b) as i8
    }
}

/// The sum of two numbers, kept within the range of a sample.
pub fn add_clamp(a: i16, b: i16) -> (r: i8)
    ensures
        r == spec_add_clamp(a, b),
        -128 <= r <= 127,
        -127 <= a + b ==> -127 <= r,
{
    let sum: i32 = a as i32 + b as i32;
    if sum < -128 {
        -128
    } else if sum > 127 {
        127
    } else {
        sum as i8
    }
}

/// A sample of the output stays a sample when a channel adds to it: it
/// lies between -128 and 127, and is the sum itself where the sum lies
/// between them. Its size is then at most 127 unless the sum is below
/// -127.
pub proof fn lemma_accumulate_saturates(out: i8, contribution: i16)
    ensures
        -128 <= spec_add_clamp(out as i16, contribution) <= 127,
        -128 <= out + contribution <= 127 ==> spec_add_clamp(out as i16, contribution) == out + contribution,
        out + contribution >= -127 ==> -127 <= spec_add_clamp(out as i16, contribution) <= 127,
{
}

/// A number divided by 64, rounded towards zero.
pub open spec fn spec_div64(v: i16) -> i16 {
    if v >= 0 {
        (v as int / 64) as i16
    } else {
        (-((-(v as int)) / 64)) as i16
    }
}

/// A number divided by 64, rounded towards zero.
pub fn div64(v: i16) -> (r: i16)
    ensures
        r == spec_div64(v),
{
    if v >= 0 {
        v / 64
    } else {
        let m: i32 = -(v as i32);
        (-(m / 64)) as i16
    }
}

/// A sound to play: the samples, the length of the part that is played
/// once, and the length and the start of the part that is repeated after
/// it. A sound without a repeated part has a loop length of 0.
pub struct MixerChunk {
    pub data: Vec<u8>,
    pub len: usize,
    pub loop_len: usize,
    pub loop_pos: usize,
}

/// A sound as mathematical values.
#[verifier::ext_equal]
pub struct MixerChunkView {
    pub data: Seq<u8>,
    pub len: usize,
    pub loop_len: usize,
    pub loop_pos: usize,
}

/// The sound made of samples, the length of the part played once and the
/// length of the repeated part, which starts where the first part ends.
pub open spec fn spec_chunk(data: Seq<u8>, len: usize, loop_len: usize) -> MixerChunkView {
    MixerChunkView {
        data,
        len,
        loop_len,
        loop_pos: if loop_len > 0 {
            len
        } else {
            0
        },
    }
}

impl MixerChunk {
    pub open spec fn view(&self) -> MixerChunkView {
        MixerChunkView { data: self.data@, len: self.len, loop_len: self.loop_len, loop_pos: self.loop_pos }
    }

    /// A sound made of samples, the length of the part played once and
    /// the length of the repeated part.
    pub fn new(data: &[u8], len: usize, loop_len: usize) -> (c: MixerChunk)
        ensures
            c@ == spec_chunk(data@, len, loop_len),
    {
        let loop_pos = if loop_len > 0 {
            len
        } else {
            0
        };
        MixerChunk { data: slice_to_vec(data), len, loop_len, loop_pos }
    }

    /// The sound of a note of the music.
    pub fn from_sfx_pattern(pattern: SfxPattern) -> (c: MixerChunk)
        ensures
            c@.data == pattern@.sample_buffer,
            c@.len == pattern@.sample_len,
            c@.loop_len == pattern@.loop_len,
            c@.loop_pos == pattern@.loop_pos,
    {
        MixerChunk {
            data: pattern.sample_buffer,
            len: pattern.sample_len,
            loop_len: pattern.loop_len,
            loop_pos: pattern.loop_pos,
        }
    }
}

/// A channel that plays a sound: its volume, the sound, the position in
/// the sound as a fixed-point number with eight fractional bits, and the
/// step of the position for each sample of the output.
pub struct MixerChannel {
    pub volume: u8,
    pub chunk: MixerChunk,
    pub chunk_pos: usize,
    pub chunk_inc: usize,
}

/// A channel as mathematical values.
#[verifier::ext_equal]
pub struct ChannelView {
    pub volume: u8,
    pub chunk: MixerChunkView,
    pub chunk_pos: usize,
    pub chunk_inc: usize,
}

/// The step of the position for a sound played at `frequency` Hz.
pub open spec fn spec_chunk_inc(frequency: u32) -> usize {
    ((frequency << 8) / SOUND_SAMPLE_RATE) as usize
}

/// A channel at the start of a sound.
pub open spec fn spec_channel(volume: u8, chunk: MixerChunkView, frequency: u32) -> ChannelView {
    ChannelView { volume, chunk, chunk_pos: 0, chunk_inc: spec_chunk_inc(frequency) }
}

/// The sample between two samples of a sound, `ilc` 256ths of the way
/// from the first to the second.
pub open spec fn spec_interpolate(first: u8, second: u8, ilc: i16) -> i8 {
    ((((first as i8) as i16 * (0xff - ilc) + (second as i8) as i16 * ilc) as i16) >> 8) as i8
}

/// What a sample of a sound adds to the output at a volume.
pub open spec fn spec_contribution(b: i8, volume: u8) -> i16 {
    spec_div64((b as i16 * volume as i16) as i16)
}

impl ChannelView {
    /// The whole part of the position.
    pub open spec fn index(self) -> usize {
        self.chunk_pos >> 8
    }

    /// Whether the position is on the last sample of the repeated part.
    pub open spec fn at_loop_end(self) -> bool {
        self.chunk.loop_len != 0 && self.index() == self.chunk.loop_pos + self.chunk.loop_len - 1
    }

    /// Whether the sound is over: a sound without a repeated part on its
    /// last sample.
    pub open spec fn at_end(self) -> bool {
        self.chunk.loop_len == 0 && (self.chunk.len == 0 || self.index() == self.chunk.len - 1)
    }

    /// The sample after the one at the position: the first of the
    /// repeated part at its end, else the next sample.
    pub open spec fn next(self) -> usize {
        if self.at_loop_end() {
            self.chunk.loop_pos
        } else {
            (self.index() + 1) as usize
        }
    }

    /// Whether the channel plays on for one more sample of the output.
    /// It stops at the end of the sound and when the position leaves the
    /// samples.
    pub open spec fn plays(self) -> bool {
        !self.at_end() && self.index() < self.chunk.data.len() && self.next() < self.chunk.data.len()
    }

    /// What the channel adds to one sample of the output.
    pub open spec fn contribution(self) -> i16 {
        spec_contribution(
            spec_interpolate(
                self.chunk.data[self.index() as int],
                self.chunk.data[self.next() as int],
                (self.chunk_pos & 0xff) as i16,
            ),
            self.volume,
        )
    }

    /// The channel after one sample of the output.
    pub open spec fn advance(self) -> ChannelView {
        ChannelView {
            chunk_pos: if self.at_loop_end() {
                self.chunk.loop_pos
            } else {
                self.chunk_pos.wrapping_add(self.chunk_inc)
            },
            ..self
        }
    }
}

/// A channel that a function returned, as mathematical values.
pub open spec fn channel_view(c: Option<MixerChannel>) -> Option<ChannelView> {
    match c {
        Some(c) => Some(c@),
        None => None,
    }
}

/// A channel mixed into the samples of `out` from index `k` on. A channel
/// that stops leaves the rest of the samples as they are.
pub open spec fn spec_mix_channel(c: Option<ChannelView>, out: Seq<i8>, k: int) -> (Option<ChannelView>, Seq<i8>)
    decreases out.len() - k,
{
    if k < 0 || k >= out.len() || c is None {
        (c, out)
    } else if !c->Some_0.plays() {
        (None, out)
    } else {
        spec_mix_channel(
            Some(c->Some_0.advance()),
            out.update(k, spec_add_clamp(out[k] as i16, c->Some_0.contribution())),
            k + 1,
        )
    }
}

/// The channels from index `from` on mixed into `out`, one after the
/// other.
pub open spec fn spec_mix_channels(channels: Seq<Option<ChannelView>>, out: Seq<i8>, from: int) -> (
    Seq<Option<ChannelView>>,
    Seq<i8>,
)
    decreases channels.len() - from,
{
    if from < 0 || from >= channels.len() {
        (channels, out)
    } else {
        let (c, o) = spec_mix_channel(channels[from], out, 0);
        spec_mix_channels(channels.update(from, c), o, from + 1)
    }
}

impl MixerChannel {
    pub open spec fn view(&self) -> ChannelView {
        ChannelView { volume: self.volume, chunk: self.chunk@, chunk_pos: self.chunk_pos, chunk_inc: self.chunk_inc }
    }

    /// A channel that plays `chunk` from its start at `frequency` Hz.
    pub fn new(volume: u8, chunk: MixerChunk, frequency: u32) -> (c: MixerChannel)
        ensures
            c@ == spec_channel(volume, chunk@, frequency),
    {
        MixerChannel { volume, chunk, chunk_pos: 0, chunk_inc: ((frequency << 8) / SOUND_SAMPLE_RATE) as usize }
    }

    /// Plays one sample of the output: returns what the channel adds to
    /// it and moves the position, or returns nothing when the channel stops.
    pub fn step(&mut self) -> (r: Option<i16>)
        ensures
            old(self)@.plays() ==> r == Some(old(self)@.contribution()) && final(self)@ == old(self)@.advance(),
            !old(self)@.plays() ==> r is None && final(self)@ == old(self)@,
    {
        let ilc: i16 = (self.chunk_pos & 0xff) as i16;
        let index: usize = self.chunk_pos >> 8;
        let pos: usize = self.chunk_pos;
        assert(pos >> 8 <= pos) by (bit_vector);
        assert(pos >> 8 == pos ==> pos == 0) by (bit_vector);
        assert(pos & 0xff <= 0xff) by (bit_vector);
        let n = self.chunk.data.len();
        let at_loop_end: bool = self.chunk.loop_len != 0 && index >= self.chunk.loop_pos && index - self.chunk.loop_pos
            == self.chunk.loop_len - 1;
        if self.chunk.loop_len == 0 && (self.chunk.len == 0 || index == self.chunk.len - 1) {
            return None;
        }
        let next: usize = if at_loop_end {
            self.chunk.loop_pos
        } else {
            index + 1
        };
        if index >= n || next >= n {
            return None;
        }
        let left: i16 = (#[verifier::truncate] (self.chunk.data[index] as i8)) as i16;
        let right: i16 = (#[verifier::truncate] (self.chunk.data[next] as i8)) as i16;
        assert(-128 * 255 <= left * (0xff - ilc) + right * ilc <= 127 * 255) by (nonlinear_arith)
            requires
                -128 <= left <= 127,
                -128 <= right <= 127,
                0 <= ilc <= 255,
        ;
        assert(-128 * 255 <= left * (0xff - ilc) <= 128 * 255) by (nonlinear_arith)
            requires
                -128 <= left <= 127,
                0 <= ilc <= 255,
        ;
        assert(-128 * 255 <= right * ilc <= 128 * 255) by (nonlinear_arith)
            requires
                -128 <= right <= 127,
                0 <= ilc <= 255,
        ;
        let b: i8 = #[verifier::truncate] (((left * (0xff - ilc) + right * ilc) >> 8) as i8);
        assert(-128 * 255 <= b as i16 * self.volume as i16 <= 127 * 255) by (nonlinear_arith)
            requires
                -128 <= b <= 127,
                0 <= self.volume <= 255,
        ;
        let v: i16 = div64(b as i16 * self.volume as i16);
        if at_loop_end {
            self.chunk_pos = self.chunk.loop_pos;
        } else {
            self.chunk_pos = self.chunk_pos.wrapping_add(self.chunk_inc);
        }
        Some(v)
    }
}

/// Four channels, each silent or playing a sound.
pub struct Mixer {
    pub channels: [Option<MixerChannel>; NUM_CHANNELS],
}

/// A mixer as mathematical values.
#[verifier::ext_equal]
pub struct MixerView {
    pub channels: Seq<Option<ChannelView>>,
}

/// The volume that a channel plays at when `volume` is asked for.
pub open spec fn spec_clamp_volume(volume: u8) -> u8 {
    if volume > MAX_VOLUME {
        MAX_VOLUME
    } else {
        volume
    }
}

impl MixerView {
    /// One channel playing a sound from its start, whatever it played
    /// before.
    pub open spec fn play(self, channel: u8, chunk: MixerChunkView, frequency: u16, volume: u8) -> MixerView {
        MixerView {
            channels: self.channels.update(
                channel as int,
                Some(spec_channel(spec_clamp_volume(volume), chunk, frequency as u32)),
            ),
        }
    }

    /// One channel silent.
    pub open spec fn stop(self, channel: u8) -> MixerView {
        MixerView { channels: self.channels.update(channel as int, None) }
    }

    /// One channel at another volume, if it plays.
    pub open spec fn set_volume(self, channel: u8, volume: u8) -> MixerView {
        match self.channels[channel as int] {
            Some(c) => MixerView { channels: self.channels.update(channel as int, Some(ChannelView { volume, ..c })) },
            None => self,
        }
    }

    /// All channels silent.
    pub open spec fn stop_all(self) -> MixerView {
        MixerView { channels: Seq::new(NUM_CHANNELS as nat, |i: int| None) }
    }

    /// The samples of one call of the audio callback for `n` samples.
    pub open spec fn mixed(self, n: nat) -> Seq<i8> {
        spec_mix_channels(self.channels, Seq::new(n, |i: int| 0i8), 0).1
    }

    /// The mixer after one call of the audio callback for `n` samples.
    pub open spec fn after_mix(self, n: nat) -> MixerView {
        MixerView { channels: spec_mix_channels(self.channels, Seq::new(n, |i: int| 0i8), 0).0 }
    }
}

impl Mixer {
    pub open spec fn view(&self) -> MixerView {
        MixerView { channels: Seq::new(NUM_CHANNELS as nat, |i: int| channel_view(self.channels[i])) }
    }

    /// A mixer with all channels silent.
    pub fn new() -> (m: Mixer)
        ensures
            m@ == (MixerView { channels: Seq::new(NUM_CHANNELS as nat, |i: int| None) }),
    {
        let m = Mixer { channels: [None, None, None, None] };
        assert(m@.channels =~= Seq::new(NUM_CHANNELS as nat, |i: int| None));
        m
    }

    /// Plays a sound on a channel from its start, at `frequency` Hz. A
    /// volume above `MAX_VOLUME` is played at `MAX_VOLUME`.
    pub fn play_channel(&mut self, channel: u8, mixer_chunk: MixerChunk, frequency: u16, volume: u8)
        requires
            channel < NUM_CHANNELS,
        ensures
            final(self)@ == old(self)@.play(channel, mixer_chunk@, frequency, volume),
    {
        let volume = if volume > MAX_VOLUME {
            MAX_VOLUME
        } else {
            volume
        };
        self.channels[channel as usize] = Some(MixerChannel::new(volume, mixer_chunk, frequency as u32));
        assert(self@.channels =~= old(self)@.play(channel, mixer_chunk@, frequency, volume).channels);
    }

    /// Silences a channel.
    pub fn stop_channel(&mut self, channel: u8)
        requires
            channel < NUM_CHANNELS,
        ensures
            final(self)@ == old(self)@.stop(channel),
    {
        self.channels[channel as usize] = None;
        assert(self@.channels =~= old(self)@.stop(channel).channels);
    }

    /// Sets the volume of a channel that plays.
    pub fn _set_channel_volume(&mut self, channel: u8, volume: u8)
        requires
            channel < NUM_CHANNELS,
        ensures
            final(self)@ == old(self)@.set_volume(channel, volume),
    {
        let slot = self.channels[channel as usize].take();
        match slot {
            Some(mut c) => {
                c.volume = volume;
                self.channels[channel as usize] = Some(c);
                assert(self@.channels =~= old(self)@.set_volume(channel, volume).channels);
            },
            None => {
                assert(self@.channels =~= old(self)@.channels);
            },
        }
    }

    /// Silences all channels.
    pub fn stop_all(&mut self)
        ensures
            final(self)@ == old(self)@.stop_all(),
    {
        self.channels = [None, None, None, None];
        assert(self@.channels =~= old(self)@.stop_all().channels);
    }

    /// Fills `out` with the next samples of the output: each channel in
    /// turn adds its samples to silence, the sum kept within the range of
    /// a sample. A channel whose sound ends falls silent.
    pub fn callback(&mut self, out: &mut [i8])
        ensures
            final(out)@ == old(self)@.mixed(old(out)@.len()),
            final(self)@ == old(self)@.after_mix(old(out)@.len()),
    {
        let n = out.len();
        let mut k: usize = 0;
        while k < n
            invariant
                k <= n,
                n == out@.len(),
                forall|m: int| 0 <= m < k ==> out@[m] == 0,
            decreases n - k,
        {
            out[k] = 0;
            k = k + 1;
        }
        assert(out@ =~= Seq::new(n as nat, |i: int| 0i8));
        let ghost goal = spec_mix_channels(old(self)@.channels, out@, 0);
        let mut ch: usize = 0;
        while ch < NUM_CHANNELS
            invariant
                ch <= NUM_CHANNELS,
                n == out@.len(),
                n == old(out)@.len(),
                goal.0 == old(self)@.after_mix(n as nat).channels,
                goal.1 == old(self)@.mixed(n as nat),
                spec_mix_channels(self@.channels, out@, ch as int) == goal,
            decreases NUM_CHANNELS - ch,
        {
            let ghost before = self@.channels;
            let ghost out_before = out@;
            let mut slot: Option<MixerChannel> = self.channels[ch].take();
            let ghost target = spec_mix_channel(before[ch as int], out_before, 0);
            assert(channel_view(slot) == before[ch as int]);
            let mut s: usize = 0;
            while s < n && slot.is_some()
                invariant
                    s <= n,
                    n == out@.len(),
                    spec_mix_channel(channel_view(slot), out@, s as int) == target,
                decreases
                        n - s + (if slot is Some {
                            1int
                        } else {
                            0int
                        }),
            {
                let mut channel = slot.unwrap();
                match channel.step() {
                    Some(v) => {
                        let cur = out[s];
                        out[s] = add_clamp(cur as i16, v);
                        slot = Some(channel);
                        s = s + 1;
                    },
                    None => {
                        slot = None;
                    },
                }
            }
            assert(spec_mix_channel(channel_view(slot), out@, s as int) == (channel_view(slot), out@));
            self.channels[ch] = slot;
            assert(self@.channels =~= before.update(ch as int, target.0));
            ch = ch + 1;
        }
        assert(self@ =~= old(self)@.after_mix(n as nat));
    }
}

impl Default for Mixer {
    fn default() -> (m: Mixer)
        ensures
            m@ == (MixerView { channels: Seq::new(NUM_CHANNELS as nat, |i: int| None) }),
    {
        Mixer::new()
    }
}

/// A silent channel adds nothing to the output.
pub proof fn lemma_silent_channel(out: Seq<i8>, k: int)
    ensures
        spec_mix_channel(None, out, k) == (None::<ChannelView>, out),
{
}

/// Silent channels leave the output as it is and stay silent.
pub proof fn lemma_silent_channels(channels: Seq<Option<ChannelView>>, out: Seq<i8>, from: int)
    requires
        forall|i: int| 0 <= i < channels.len() ==> (#[trigger] channels[i]) is None,
    ensures
        spec_mix_channels(channels, out, from) == (channels, out),
    decreases channels.len() - from,
{
    if 0 <= from < channels.len() {
        lemma_silent_channel(out, 0);
        assert(channels.update(from, None) =~= channels);
        lemma_silent_channels(channels, out, from + 1);
    }
}

/// A mixer whose channels are all stopped plays silence.
pub proof fn lemma_stopped_mixer_is_silent(m: MixerView, n: nat)
    ensures
        m.stop_all().mixed(n) == Seq::new(n, |i: int| 0i8),
        m.stop_all().after_mix(n) == m.stop_all(),
{
    lemma_silent_channels(m.stop_all().channels, Seq::new(n, |i: int| 0i8), 0);
}

} // verus!
