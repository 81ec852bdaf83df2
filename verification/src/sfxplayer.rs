use crate::buffer::spec_word_at;
use crate::buffer::word_at;
use crate::buffer::Buffer;
use crate::error::Error;
use crate::mixer::Mixer;
use crate::mixer::MixerChunk;
use crate::mixer::MixerChunkView;
use crate::mixer::MixerView;
use crate::mixer::NUM_CHANNELS;
use vstd::prelude::*;

verus! {

/// An instrument of a music module: a sound resource, its header
/// included, and the volume at which it plays.
pub struct SfxInstrument {
    pub data: Vec<u8>,
    pub volume: u16,
}

impl SfxInstrument {
    /// An instrument made of a sound resource and a volume.
    pub fn new(data: Vec<u8>, volume: u16) -> (s: SfxInstrument)
        ensures
            s.data@ == data@,
            s.volume == volume,
    {
        SfxInstrument { data, volume }
    }
}

/// A note of the music made ready to play: the two words of the note,
/// the samples of its instrument, the lengths of the part played once
/// and of the repeated part, and the volume.
pub struct SfxPattern {
    pub note1: u16,
    pub note2: u16,
    pub sample_buffer: Vec<u8>,
    pub sample_len: usize,
    pub loop_pos: usize,
    pub loop_len: usize,
    pub sample_volume: u16,
}

/// A note made ready to play, as mathematical values.
#[verifier::ext_equal]
pub struct SfxPatternView {
    pub note1: u16,
    pub note2: u16,
    pub sample_buffer: Seq<u8>,
    pub sample_len: usize,
    pub loop_pos: usize,
    pub loop_len: usize,
    pub sample_volume: u16,
}

/// The header of an instrument takes this many bytes.
pub const INSTRUMENT_HEADER: usize = 8;

/// The volume of a note: the volume of the instrument, raised by the low
/// byte of the second word of the note for effect 5, up to 0x3f, and
/// lowered by it for effect 6, down to 0.
pub open spec fn spec_note_volume(base: u16, note2: u16) -> u16 {
    let effect = (note2 & 0x0f00) >> 8;
    let amount = note2 & 0xff;
    if effect == 5 {
        if base + amount > 0x3f {
            0x3fu16
        } else {
            (base + amount) as u16
        }
    } else if effect == 6 {
        if base < amount {
            0u16
        } else {
            (base - amount) as u16
        }
    } else {
        base
    }
}

/// The note made of two words and the resource of an instrument, whose
/// first two words give the lengths, in words, of the part played once
/// and of the repeated part.
pub open spec fn spec_from_notes(note1: u16, note2: u16, data: Seq<u8>, volume: u16) -> SfxPatternView {
    let sample_len = (spec_word_at(data, 0) * 2) as usize;
    let loop_len = (spec_word_at(data, 2) * 2) as usize;
    SfxPatternView {
        note1,
        note2,
        sample_buffer: data.subrange(INSTRUMENT_HEADER as int, data.len() as int),
        sample_len,
        loop_pos: if loop_len != 0 {
            sample_len
        } else {
            0
        },
        loop_len,
        sample_volume: spec_note_volume(volume, note2),
    }
}

impl SfxPattern {
    pub open spec fn view(&self) -> SfxPatternView {
        SfxPatternView {
            note1: self.note1,
            note2: self.note2,
            sample_buffer: self.sample_buffer@,
            sample_len: self.sample_len,
            loop_pos: self.loop_pos,
            loop_len: self.loop_len,
            sample_volume: self.sample_volume,
        }
    }

    /// Makes a note ready to play on an instrument.
    pub fn from_notes(note1: u16, note2: u16, sample: &SfxInstrument) -> (p: SfxPattern)
        requires
            sample.data@.len() >= INSTRUMENT_HEADER,
        ensures
            p@ == spec_from_notes(note1, note2, sample.data@, sample.volume),
    {
        let data = sample.data.as_slice();
        let sample_len: usize = word_at(data, 0) as usize * 2;
        let loop_len: usize = word_at(data, 2) as usize * 2;
        let loop_pos: usize = if loop_len != 0 {
            sample_len
        } else {
            0
        };
        let mut m: u16 = sample.volume;
        let effect: u16 = (note2 & 0x0f00) >> 8;
        let volume: u16 = note2 & 0xff;
        if effect == 5 {
            if m as u32 + volume as u32 > 0x3f {
                m = 0x3f;
            } else {
                m = m + volume;
            }
        } else if effect == 6 {
            if m < volume {
                m = 0;
            } else {
                m = m - volume;
            }
        }
        let n = data.len();
        let mut sample_buffer: Vec<u8> = Vec::new();
        let mut k: usize = INSTRUMENT_HEADER;
        while k < n
            invariant
                INSTRUMENT_HEADER <= k <= n,
                n == data@.len(),
                sample_buffer@ == data@.subrange(INSTRUMENT_HEADER as int, k as int),
            decreases n - k,
        {
            sample_buffer.push(data[k]);
            k = k + 1;
            assert(sample_buffer@ =~= data@.subrange(INSTRUMENT_HEADER as int, k as int));
        }
        SfxPattern { note1, note2, sample_buffer, sample_len, loop_pos, loop_len, sample_volume: m }
    }
}

/// An instrument as mathematical values.
#[verifier::ext_equal]
pub struct InstrumentView {
    pub data: Seq<u8>,
    pub volume: u16,
}

/// An instrument slot of a module, as mathematical values.
pub open spec fn instrument_view(s: Option<SfxInstrument>) -> Option<InstrumentView> {
    match s {
        Some(i) => Some(InstrumentView { data: i.data@, volume: i.volume }),
        None => None,
    }
}

/// Number of entries of the order table of a module.
pub const ORDER_TABLE_SIZE: usize = 0x80;

/// Number of bytes of one pattern.
pub const PATTERN_SIZE: usize = 1024;

/// Number of bytes of one row of a pattern: a note for each channel.
pub const ROW_SIZE: usize = 16;

/// The first word of a note that posts its second word as a mark.
pub const NOTE_MARK: u16 = 0xfffd;

/// The first word of a note that stops the channel.
pub const NOTE_STOP: u16 = 0xfffe;

/// The lowest period of a note that can be played.
pub const NOTE_MIN: u16 = 0x37;

/// The periods of notes that can be played are below this.
pub const NOTE_LIMIT: u16 = 0x1000;

/// The clock that periods of notes count, in Hz.
pub const NOTE_CLOCK: u32 = 7_159_092;

/// A piece of music: the pattern data, the position in the current
/// pattern, the place in the order table, the number of places in use,
/// the order table, which names a pattern for each place, and up to 15
/// instruments.
pub struct SfxModule {
    pub data: Vec<u8>,
    pub cur_pos: usize,
    pub cur_order: u8,
    pub num_order: u8,
    pub order_table: [u8; ORDER_TABLE_SIZE],
    pub samples: Vec<Option<SfxInstrument>>,
}

/// A piece of music as mathematical values.
#[verifier::ext_equal]
pub struct SfxModuleView {
    pub data: Seq<u8>,
    pub cur_pos: usize,
    pub cur_order: u8,
    pub num_order: u8,
    pub order_table: Seq<u8>,
    pub samples: Seq<Option<InstrumentView>>,
}

/// What a note asks for.
pub enum PatternResult {
    /// Stop the channel.
    StopChannel(u8),
    /// Post a mark to the virtual machine.
    MarkVariable(u16),
    /// Play a note on the channel.
    Pattern(u8, SfxPattern),
}

/// What a note asks for, as mathematical values.
pub enum PatternResultView {
    StopChannel(u8),
    MarkVariable(u16),
    Pattern(u8, SfxPatternView),
}

/// What a note asked for, as mathematical values.
pub open spec fn pattern_result_view(r: Option<PatternResult>) -> Option<PatternResultView> {
    match r {
        Some(PatternResult::StopChannel(c)) => Some(PatternResultView::StopChannel(c)),
        Some(PatternResult::MarkVariable(v)) => Some(PatternResultView::MarkVariable(v)),
        Some(PatternResult::Pattern(c, p)) => Some(PatternResultView::Pattern(c, p@)),
        None => None,
    }
}

/// The state of one tick of the music between two channels: the mixer,
/// the mark posted so far, and the error that ended the tick.
#[verifier::ext_equal]
pub struct TickView {
    pub mixer: MixerView,
    pub mark: Option<i16>,
    pub error: Option<Error>,
}

/// The sound of a note.
pub open spec fn spec_pattern_chunk(p: SfxPatternView) -> MixerChunkView {
    MixerChunkView { data: p.sample_buffer, len: p.sample_len, loop_len: p.loop_len, loop_pos: p.loop_pos }
}

/// The rate in Hz at which a note of period `note1` plays.
pub open spec fn spec_note_frequency(note1: u16) -> u16 {
    (NOTE_CLOCK as int / (note1 as int * 2)) as u16
}

impl SfxModuleView {
    /// Where the current row of the current pattern starts in the data.
    pub open spec fn row_start(self) -> int {
        self.cur_pos + self.order_table[self.cur_order as int] as int * PATTERN_SIZE
    }

    /// Whether the music has run out: the place in the order table is
    /// past the table, or the current row is not all in the data.
    pub open spec fn ended(self) -> bool {
        self.cur_order >= ORDER_TABLE_SIZE || self.order_table.len() != ORDER_TABLE_SIZE || self.row_start() + ROW_SIZE
            > self.data.len()
    }

    /// What a note on `channel` asks for. A first word of 0xfffd posts
    /// the second word as a mark, one of 0xfffe stops the channel. Any
    /// other note plays if the high nibble of its second word names an
    /// instrument that the module has.
    pub open spec fn handle_pattern(self, channel: u8, note1: u16, note2: u16) -> Option<PatternResultView> {
        let index = ((note2 & 0xf000) >> 12) as int;
        if note1 == NOTE_MARK {
            Some(PatternResultView::MarkVariable(note2))
        } else if note1 == NOTE_STOP {
            Some(PatternResultView::StopChannel(channel))
        } else if index != 0 && index - 1 < self.samples.len() && self.samples[index - 1] is Some && self.samples[index
            - 1]->Some_0.data.len() >= INSTRUMENT_HEADER {
            Some(
                PatternResultView::Pattern(
                    channel,
                    spec_from_notes(note1, note2, self.samples[index - 1]->Some_0.data, self.samples[index - 1]->Some_0.volume),
                ),
            )
        } else {
            None
        }
    }

    /// The note of `channel` in the current row, done: a channel stopped,
    /// a mark posted, or a note played at the rate that its period gives.
    /// A note to play whose period is out of range ends the tick with an
    /// error.
    pub open spec fn tick_channel(self, t: TickView, channel: u8) -> TickView {
        let at = self.row_start() + channel * 4;
        match self.handle_pattern(channel, spec_word_at(self.data, at), spec_word_at(self.data, at + 2)) {
            None => t,
            Some(PatternResultView::StopChannel(c)) => TickView { mixer: t.mixer.stop(c), ..t },
            Some(PatternResultView::MarkVariable(v)) => TickView { mark: Some(v as i16), ..t },
            Some(PatternResultView::Pattern(c, p)) => if NOTE_MIN <= p.note1 < NOTE_LIMIT {
                TickView {
                    mixer: t.mixer.play(c, spec_pattern_chunk(p), spec_note_frequency(p.note1), p.sample_volume as u8),
                    ..t
                }
            } else {
                TickView { error: Some(Error::BankCorrupt), ..t }
            },
        }
    }

    /// The notes of the channels from `channel` on, done in turn until
    /// one ends the tick.
    pub open spec fn tick_channels(self, t: TickView, channel: u8) -> TickView
        decreases NUM_CHANNELS - channel,
    {
        if channel >= NUM_CHANNELS || t.error is Some {
            t
        } else {
            self.tick_channels(self.tick_channel(t, channel), (channel + 1) as u8)
        }
    }

    /// The module moved to the next row; after the last row of a pattern
    /// comes the first row at the next place of the order table.
    pub open spec fn next_row(self) -> SfxModuleView {
        if self.cur_pos + ROW_SIZE >= PATTERN_SIZE {
            SfxModuleView { cur_pos: 0, cur_order: (self.cur_order + 1) as u8, ..self }
        } else {
            SfxModuleView { cur_pos: (self.cur_pos + ROW_SIZE) as usize, ..self }
        }
    }

    /// What one tick does to the mixer, and the mark that it posts. Music
    /// that has run out does nothing.
    pub open spec fn tick(self, mixer: MixerView) -> TickView {
        if self.ended() {
            TickView { mixer, mark: None, error: None }
        } else {
            self.tick_channels(TickView { mixer, mark: None, error: None }, 0)
        }
    }

    /// The module after one tick: at the next row, unless the music has
    /// run out or the tick ended with an error.
    pub open spec fn after_tick(self, mixer: MixerView) -> SfxModuleView {
        if self.ended() || self.tick(mixer).error is Some {
            self
        } else {
            self.next_row()
        }
    }
}

/// What a tick returned, as mathematical values.
pub open spec fn tick_result(t: TickView) -> Result<Option<i16>, Error> {
    match t.error {
        Some(e) => Err(e),
        None => Ok(t.mark),
    }
}

impl SfxModule {
    pub open spec fn view(&self) -> SfxModuleView {
        SfxModuleView {
            data: self.data@,
            cur_pos: self.cur_pos,
            cur_order: self.cur_order,
            num_order: self.num_order,
            order_table: self.order_table@,
            samples: Seq::new(self.samples@.len(), |i: int| instrument_view(self.samples@[i])),
        }
    }

    /// A module at the first row of the pattern at place `cur_order`.
    pub fn new(
        data: Vec<u8>,
        cur_order: u8,
        num_order: u8,
        order_table: [u8; ORDER_TABLE_SIZE],
        samples: Vec<Option<SfxInstrument>>,
    ) -> (m: SfxModule)
        ensures
            m.data@ == data@,
            m.cur_pos == 0,
            m.cur_order == cur_order,
            m.num_order == num_order,
            m.order_table@ == order_table@,
            m.samples@ == samples@,
    {
        SfxModule { data, cur_pos: 0, cur_order, num_order, order_table, samples }
    }
}

/// The sequencer of the music: the time between two ticks in
/// milliseconds, the module to play, and whether it plays.
pub struct SfxPlayer {
    pub delay: i64,
    pub sfx_module: Option<SfxModule>,
    pub playing: bool,
}

/// The time between two ticks in milliseconds, for a tempo of the module.
pub open spec fn spec_events_delay(delay: u16) -> i64 {
    (delay as int * 60 / 7050) as i64
}

impl SfxPlayer {
    /// A sequencer without music.
    pub fn new() -> (p: SfxPlayer)
        ensures
            p.delay == 0,
            p.sfx_module is None,
            !p.playing,
    {
        SfxPlayer { delay: 0, sfx_module: None, playing: false }
    }

    /// Sets the time between two ticks from a tempo of the module.
    pub fn set_events_delay(&mut self, delay: u16)
        ensures
            final(self).delay == spec_events_delay(delay),
            final(self).sfx_module == old(self).sfx_module,
            final(self).playing == old(self).playing,
    {
        self.delay = (delay as u32 * 60 / 7050) as i64;
    }

    /// Sets the module to play.
    pub fn set_sfx_module(&mut self, module: SfxModule)
        ensures
            final(self).sfx_module == Some(module),
            final(self).delay == old(self).delay,
            final(self).playing == old(self).playing,
    {
        self.sfx_module = Some(module);
    }

    /// Starts the music if a module is set, and returns the time between
    /// two ticks in milliseconds for the timer to run at.
    pub fn start(&mut self) -> (period: Option<i64>)
        ensures
            final(self).sfx_module == old(self).sfx_module,
            final(self).delay == old(self).delay,
            final(self).playing == (old(self).sfx_module is Some),
            period == if old(self).sfx_module is Some {
                Some(old(self).delay)
            } else {
                None
            },
    {
        if self.sfx_module.is_some() {
            self.playing = true;
            Some(self.delay)
        } else {
            self.playing = false;
            None
        }
    }

    /// Stops the music.
    pub fn stop(&mut self)
        ensures
            final(self).sfx_module == old(self).sfx_module,
            final(self).delay == old(self).delay,
            !final(self).playing,
    {
        self.playing = false;
    }

    /// Finds what the note at the cursor asks for on `channel`.
    pub fn handle_pattern(sfx_module: &SfxModule, channel: u8, pattern_data: Buffer) -> (r: Option<PatternResult>)
        requires
            pattern_data.offset + 4 <= pattern_data.data@.len(),
        ensures
            pattern_result_view(r) == sfx_module@.handle_pattern(
                channel,
                spec_word_at(pattern_data.data@, pattern_data.offset as int),
                spec_word_at(pattern_data.data@, pattern_data.offset + 2),
            ),
    {
        let mut pattern_data = pattern_data;
        let note1 = pattern_data.fetch_word();
        let note2 = pattern_data.fetch_word();
        if note1 != NOTE_MARK {
            if note1 == NOTE_STOP {
                return Some(PatternResult::StopChannel(channel));
            }
            let sample_index: usize = ((note2 & 0xf000) >> 12) as usize;
            if sample_index != 0 && sample_index - 1 < sfx_module.samples.len() {
                assert(sfx_module@.samples[sample_index - 1] == instrument_view(sfx_module.samples@[sample_index - 1]));
                match &sfx_module.samples[sample_index - 1] {
                    Some(sample) => {
                        if sample.data.len() >= INSTRUMENT_HEADER {
                            return Some(PatternResult::Pattern(channel, SfxPattern::from_notes(note1, note2, sample)));
                        }
                    },
                    None => {},
                }
            }
        } else {
            return Some(PatternResult::MarkVariable(note2));
        }
        None
    }

    /// Plays one row of the music: does the notes of the four channels on
    /// the mixer and moves the module to the next row. Returns the mark
    /// that the row posts, if any.
    pub fn handle_events(sfx_module: &mut SfxModule, mixer: &mut Mixer) -> (r: Result<Option<i16>, Error>)
        ensures
            r == tick_result(old(sfx_module)@.tick(old(mixer)@)),
            final(mixer)@ == old(sfx_module)@.tick(old(mixer)@).mixer,
            final(sfx_module)@ == old(sfx_module)@.after_tick(old(mixer)@),
    {
        if sfx_module.cur_order as usize >= ORDER_TABLE_SIZE {
            return Ok(None);
        }
        let order: usize = sfx_module.order_table[sfx_module.cur_order as usize] as usize;
        let n = sfx_module.data.len();
        if n < ROW_SIZE || order * PATTERN_SIZE > n - ROW_SIZE || sfx_module.cur_pos > n - ROW_SIZE - order
            * PATTERN_SIZE {
            return Ok(None);
        }
        let start: usize = sfx_module.cur_pos + order * PATTERN_SIZE;
        let mut variable_value: Option<i16> = None;
        let mut ch: u8 = 0;
        let ghost module = sfx_module@;
        let ghost goal = module.tick(old(mixer)@);
        while ch < 4
            invariant
                ch <= 4,
                !module.ended(),
                module == old(sfx_module)@,
                sfx_module@ == module,
                start == module.row_start(),
                start + ROW_SIZE <= sfx_module.data@.len(),
                n == sfx_module.data@.len(),
                goal == module.tick(old(mixer)@),
                module.tick_channels(
                    (TickView { mixer: mixer@, mark: variable_value, error: None }),
                    ch,
                ) == goal,
            decreases 4 - ch,
        {
            let at: usize = start + ch as usize * 4;
            let pattern_data = Buffer::with_offset(sfx_module.data.as_slice(), at);
            let result = SfxPlayer::handle_pattern(sfx_module, ch, pattern_data);
            match result {
                Some(PatternResult::StopChannel(channel)) => {
                    mixer.stop_channel(channel);
                },
                Some(PatternResult::MarkVariable(var)) => {
                    variable_value = Some(#[verifier::truncate] (var as i16));
                },
                Some(PatternResult::Pattern(channel, pat)) => {
                    if pat.note1 < NOTE_MIN || pat.note1 >= NOTE_LIMIT {
                        proof {
                            let t = TickView { mixer: mixer@, mark: variable_value, error: None };
                            let t2 = module.tick_channel(t, ch);
                            assert(t2.error is Some);
                            assert(module.tick_channels(t2, (ch + 1) as u8) == t2);
                        }
                        return Err(Error::BankCorrupt);
                    }
                    let period: u32 = pat.note1 as u32 * 2;
                    assert(NOTE_CLOCK as int / period as int <= 0xffff) by (nonlinear_arith)
                        requires
                            period >= 110,
                            NOTE_CLOCK == 7_159_092,
                    ;
                    let freq: u16 = (NOTE_CLOCK / period) as u16;
                    let volume: u8 = #[verifier::truncate] (pat.sample_volume as u8);
                    let ghost pv = pat@;
                    let chunk = MixerChunk::from_sfx_pattern(pat);
                    assert(chunk@ =~= spec_pattern_chunk(pv));
                    mixer.play_channel(channel, chunk, freq, volume);
                },
                None => {},
            }
            ch = ch + 1;
        }
        sfx_module.cur_pos = sfx_module.cur_pos + ROW_SIZE;
        if sfx_module.cur_pos >= PATTERN_SIZE {
            sfx_module.cur_pos = 0;
            sfx_module.cur_order = sfx_module.cur_order + 1;
        }
        Ok(variable_value)
    }

    /// One tick of the timer: plays one row of the music if it plays.
    pub fn tick(&mut self, mixer: &mut Mixer) -> (r: Result<Option<i16>, Error>)
        ensures
            final(self).delay == old(self).delay,
            final(self).playing == old(self).playing,
            !old(self).playing || old(self).sfx_module is None ==> r == Ok::<Option<i16>, Error>(None) && final(mixer)@
                == old(mixer)@ && final(self).sfx_module == old(self).sfx_module,
            old(self).playing && old(self).sfx_module is Some ==> {
                let m = old(self).sfx_module->Some_0@;
                &&& r == tick_result(m.tick(old(mixer)@))
                &&& final(mixer)@ == m.tick(old(mixer)@).mixer
                &&& final(self).sfx_module is Some
                &&& final(self).sfx_module->Some_0@ == m.after_tick(old(mixer)@)
            },
    {
        if !self.playing {
            return Ok(None);
        }
        match self.sfx_module.take() {
            Some(mut module) => {
                let r = SfxPlayer::handle_events(&mut module, mixer);
                self.sfx_module = Some(module);
                r
            },
            None => Ok(None),
        }
    }
}

} // verus!
