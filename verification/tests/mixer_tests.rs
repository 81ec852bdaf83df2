use anotherworld::error::Error;
use anotherworld::mixer::add_clamp;
use anotherworld::mixer::div64;
use anotherworld::mixer::Mixer;
use anotherworld::mixer::MixerChannel;
use anotherworld::mixer::MixerChunk;
use anotherworld::mixer::FREQUENCE_TABLE;
use anotherworld::sfxplayer::SfxInstrument;
use anotherworld::sfxplayer::SfxModule;
use anotherworld::sfxplayer::SfxPattern;
use anotherworld::sfxplayer::SfxPlayer;

#[test]
fn add_clamp_saturates() {
    assert_eq!(add_clamp(100, 27), 127);
    assert_eq!(add_clamp(100, 28), 127);
    assert_eq!(add_clamp(-100, -28), -128);
    assert_eq!(add_clamp(-100, -29), -128);
    assert_eq!(add_clamp(5, -7), -2);
    assert_eq!(add_clamp(i16::MAX, i16::MAX), 127);
    assert_eq!(add_clamp(i16::MIN, i16::MIN), -128);
}

#[test]
fn div64_rounds_towards_zero() {
    assert_eq!(div64(945), 14);
    assert_eq!(div64(-1008), -15);
    assert_eq!(div64(63), 0);
    assert_eq!(div64(-63), 0);
    assert_eq!(div64(-64), -1);
}

#[test]
fn chunk_loops_from_the_end_of_its_first_part() {
    let looping = MixerChunk::new(&[1, 2, 3, 4], 2, 2);
    assert_eq!(looping.loop_pos, 2);
    assert_eq!(looping.loop_len, 2);
    assert_eq!(looping.len, 2);
    assert_eq!(looping.data, vec![1, 2, 3, 4]);
    let once = MixerChunk::new(&[1, 2, 3, 4], 4, 0);
    assert_eq!(once.loop_pos, 0);
}

#[test]
fn channel_step_is_frequency_over_sample_rate() {
    let channel = MixerChannel::new(0x3f, MixerChunk::new(&[0, 0], 2, 0), 22050);
    assert_eq!(channel.chunk_inc, 256);
    assert_eq!(channel.chunk_pos, 0);
    let slow = MixerChannel::new(0x3f, MixerChunk::new(&[0, 0], 2, 0), 11025);
    assert_eq!(slow.chunk_inc, 128);
    let table = MixerChannel::new(1, MixerChunk::new(&[0, 0], 2, 0), FREQUENCE_TABLE[0] as u32);
    assert_eq!(table.chunk_inc, ((0x0cffu32 << 8) / 22050) as usize);
}

#[test]
fn play_clamps_the_volume() {
    let mut mixer = Mixer::new();
    mixer.play_channel(1, MixerChunk::new(&[0, 0], 2, 0), 22050, 0xff);
    assert_eq!(mixer.channels[1].as_ref().unwrap().volume, 0x3f);
    mixer.play_channel(2, MixerChunk::new(&[0, 0], 2, 0), 22050, 0x20);
    assert_eq!(mixer.channels[2].as_ref().unwrap().volume, 0x20);
    assert!(mixer.channels[0].is_none());
    mixer._set_channel_volume(2, 7);
    assert_eq!(mixer.channels[2].as_ref().unwrap().volume, 7);
    mixer._set_channel_volume(0, 7);
    assert!(mixer.channels[0].is_none());
    mixer.stop_channel(1);
    assert!(mixer.channels[1].is_none());
    mixer.stop_all();
    assert!(mixer.channels.iter().all(|c| c.is_none()));
}

#[test]
fn callback_mixes_one_channel() {
    let mut mixer = Mixer::new();
    mixer.play_channel(0, MixerChunk::new(&[0x10, 0x20, 0x30, 0x40], 4, 0), 22050, 0x3f);
    let mut out = [99i8; 6];
    mixer.callback(&mut out);
    assert_eq!(out, [14, 30, 46, 0, 0, 0]);
    assert!(mixer.channels[0].is_none());
}

#[test]
fn callback_takes_samples_as_signed() {
    let mut mixer = Mixer::new();
    mixer.play_channel(3, MixerChunk::new(&[0xf0, 0xf0, 0xf0], 3, 0), 22050, 0x3f);
    let mut out = [0i8; 2];
    mixer.callback(&mut out);
    assert_eq!(out, [-15, -15]);
    assert!(mixer.channels[3].is_some());
    assert_eq!(mixer.channels[3].as_ref().unwrap().chunk_pos, 512);
}

#[test]
fn callback_interpolates_between_samples() {
    let mut mixer = Mixer::new();
    mixer.play_channel(0, MixerChunk::new(&[0, 64, 0, 0], 4, 0), 11025, 0x40);
    let mut out = [0i8; 3];
    mixer.callback(&mut out);
    // positions 0, 0.5 and 1 of the sound at volume 0x3f
    assert_eq!(out, [0, 31, 62]);
}

#[test]
fn callback_saturates_the_sum() {
    let mut mixer = Mixer::new();
    for ch in 0..4u8 {
        mixer.play_channel(ch, MixerChunk::new(&[0x7f, 0x7f, 0x7f], 3, 0), 22050, 0x3f);
    }
    let mut out = [0i8; 2];
    mixer.callback(&mut out);
    assert_eq!(out, [127, 127]);
    for ch in 0..4u8 {
        mixer.play_channel(ch, MixerChunk::new(&[0x80, 0x80, 0x80], 3, 0), 22050, 0x3f);
    }
    mixer.callback(&mut out);
    assert_eq!(out, [-128, -128]);
}

#[test]
fn callback_loops_a_looping_chunk() {
    let mut mixer = Mixer::new();
    mixer.play_channel(0, MixerChunk::new(&[0x40, 0x40, 0x40, 0x40], 2, 2), 22050, 0x3f);
    let mut out = [0i8; 8];
    mixer.callback(&mut out);
    assert!(mixer.channels[0].is_some());
    assert_eq!(out[0], 62);
}

#[test]
fn callback_stops_a_channel_that_leaves_its_samples() {
    let mut mixer = Mixer::new();
    mixer.play_channel(0, MixerChunk::new(&[0x40, 0x40], 100, 0), 22050, 0x3f);
    let mut out = [0i8; 4];
    mixer.callback(&mut out);
    assert_eq!(out, [62, 0, 0, 0]);
    assert!(mixer.channels[0].is_none());
}

#[test]
fn callback_of_silence_is_zero() {
    let mut mixer = Mixer::new();
    let mut out = [5i8; 4];
    mixer.callback(&mut out);
    assert_eq!(out, [0, 0, 0, 0]);
}

fn instrument(volume: u16) -> SfxInstrument {
    // 2 words played once, 1 word repeated, then the samples
    SfxInstrument::new(vec![0, 2, 0, 1, 0, 0, 0, 0, 10, 20, 30, 40, 50, 60], volume)
}

#[test]
fn pattern_reads_the_instrument_header() {
    let p = SfxPattern::from_notes(0x100, 0x1000, &instrument(0x20));
    assert_eq!(p.sample_len, 4);
    assert_eq!(p.loop_len, 2);
    assert_eq!(p.loop_pos, 4);
    assert_eq!(p.sample_buffer, vec![10, 20, 30, 40, 50, 60]);
    assert_eq!(p.sample_volume, 0x20);
    assert_eq!(p.note1, 0x100);
    assert_eq!(p.note2, 0x1000);
    let once = SfxPattern::from_notes(1, 2, &SfxInstrument::new(vec![0, 3, 0, 0, 0, 0, 0, 0], 1));
    assert_eq!(once.sample_len, 6);
    assert_eq!(once.loop_len, 0);
    assert_eq!(once.loop_pos, 0);
    assert!(once.sample_buffer.is_empty());
}

#[test]
fn pattern_volume_effects() {
    assert_eq!(SfxPattern::from_notes(0x100, 0x1510, &instrument(0x20)).sample_volume, 0x30);
    assert_eq!(SfxPattern::from_notes(0x100, 0x15ff, &instrument(0x20)).sample_volume, 0x3f);
    assert_eq!(SfxPattern::from_notes(0x100, 0x1610, &instrument(0x20)).sample_volume, 0x10);
    assert_eq!(SfxPattern::from_notes(0x100, 0x1621, &instrument(0x20)).sample_volume, 0);
    assert_eq!(SfxPattern::from_notes(0x100, 0x1710, &instrument(0x20)).sample_volume, 0x20);
    let chunk = MixerChunk::from_sfx_pattern(SfxPattern::from_notes(0x100, 0x1000, &instrument(0x20)));
    assert_eq!(chunk.len, 4);
    assert_eq!(chunk.loop_len, 2);
    assert_eq!(chunk.loop_pos, 4);
    assert_eq!(chunk.data, vec![10, 20, 30, 40, 50, 60]);
}

fn module(rows: Vec<u8>) -> SfxModule {
    let mut samples = Vec::new();
    samples.push(Some(instrument(0x20)));
    for _ in 1..15 {
        samples.push(None);
    }
    SfxModule::new(rows, 0, 1, [0u8; 0x80], samples)
}

#[test]
fn tick_does_the_notes_of_a_row() {
    let mut rows = vec![0u8; 1024];
    rows[0..4].copy_from_slice(&[0xff, 0xfd, 0x12, 0x34]);
    rows[4..8].copy_from_slice(&[0xff, 0xfe, 0x00, 0x00]);
    rows[8..12].copy_from_slice(&[0x01, 0x00, 0x10, 0x00]);
    rows[12..16].copy_from_slice(&[0x01, 0x00, 0x20, 0x00]);
    let mut m = module(rows);
    let mut mixer = Mixer::new();
    mixer.play_channel(1, MixerChunk::new(&[0, 0], 2, 0), 22050, 1);
    let r = SfxPlayer::handle_events(&mut m, &mut mixer);
    assert_eq!(r, Ok(Some(0x1234)));
    assert!(mixer.channels[0].is_none());
    assert!(mixer.channels[1].is_none());
    assert!(mixer.channels[3].is_none());
    let playing = mixer.channels[2].as_ref().unwrap();
    assert_eq!(playing.volume, 0x20);
    // 7159092 / 512 = 13982 Hz
    assert_eq!(playing.chunk_inc, ((13982u32 << 8) / 22050) as usize);
    assert_eq!(playing.chunk.data, vec![10, 20, 30, 40, 50, 60]);
    assert_eq!(playing.chunk.len, 4);
    assert_eq!(playing.chunk.loop_pos, 4);
    assert_eq!(m.cur_pos, 16);
    assert_eq!(m.cur_order, 0);
}

#[test]
fn tick_goes_to_the_next_pattern_after_the_last_row() {
    let mut m = module(vec![0u8; 2048]);
    m.order_table[1] = 1;
    let mut mixer = Mixer::new();
    for _ in 0..63 {
        assert_eq!(SfxPlayer::handle_events(&mut m, &mut mixer), Ok(None));
    }
    assert_eq!((m.cur_pos, m.cur_order), (1008, 0));
    assert_eq!(SfxPlayer::handle_events(&mut m, &mut mixer), Ok(None));
    assert_eq!((m.cur_pos, m.cur_order), (0, 1));
    assert_eq!(SfxPlayer::handle_events(&mut m, &mut mixer), Ok(None));
    assert_eq!((m.cur_pos, m.cur_order), (16, 1));
}

#[test]
fn tick_of_music_that_has_run_out_does_nothing() {
    let mut m = module(vec![0u8; 8]);
    let mut mixer = Mixer::new();
    assert_eq!(SfxPlayer::handle_events(&mut m, &mut mixer), Ok(None));
    assert_eq!((m.cur_pos, m.cur_order), (0, 0));
    let mut late = module(vec![0u8; 1024]);
    late.cur_order = 0x80;
    assert_eq!(SfxPlayer::handle_events(&mut late, &mut mixer), Ok(None));
    assert_eq!((late.cur_pos, late.cur_order), (0, 0x80));
}

#[test]
fn tick_rejects_a_period_out_of_range() {
    let mut rows = vec![0u8; 1024];
    rows[0..4].copy_from_slice(&[0x00, 0x36, 0x10, 0x00]);
    let mut m = module(rows);
    let mut mixer = Mixer::new();
    assert_eq!(SfxPlayer::handle_events(&mut m, &mut mixer), Err(Error::BankCorrupt));
    assert_eq!(m.cur_pos, 0);
    let mut rows = vec![0u8; 1024];
    rows[0..4].copy_from_slice(&[0x00, 0x37, 0x10, 0x00]);
    let mut m = module(rows);
    assert_eq!(SfxPlayer::handle_events(&mut m, &mut mixer), Ok(None));
    // 7159092 / 110 = 65082 Hz
    assert_eq!(mixer.channels[0].as_ref().unwrap().chunk_inc, ((65082u32 << 8) / 22050) as usize);
}

#[test]
fn player_runs_only_when_started() {
    let mut player = SfxPlayer::new();
    let mut mixer = Mixer::new();
    assert_eq!(player.start(), None);
    assert!(!player.playing);
    player.set_events_delay(7050);
    assert_eq!(player.delay, 60);
    player.set_events_delay(0x4000);
    assert_eq!(player.delay, 139);
    let mut rows = vec![0u8; 1024];
    rows[0..4].copy_from_slice(&[0xff, 0xfd, 0x00, 0x07]);
    player.set_sfx_module(module(rows));
    assert_eq!(player.tick(&mut mixer), Ok(None));
    assert_eq!(player.start(), Some(139));
    assert!(player.playing);
    assert_eq!(player.tick(&mut mixer), Ok(Some(7)));
    assert_eq!(player.sfx_module.as_ref().unwrap().cur_pos, 16);
    player.stop();
    assert_eq!(player.tick(&mut mixer), Ok(None));
    assert_eq!(player.sfx_module.as_ref().unwrap().cur_pos, 16);
}
