use anotherworld::engine::Engine;
use anotherworld::error::Error;
use anotherworld::mixer::Mixer;
use anotherworld::mixer::MixerChunk;
use anotherworld::opcode::Opcode;
use anotherworld::input::InputEvent;
use anotherworld::input::Key;
use anotherworld::player::PlayerDirection;
use anotherworld::player::PlayerInput;
use anotherworld::input::UserInput;
use anotherworld::player::DOWN;
use anotherworld::player::LEFT;
use anotherworld::player::RIGHT;
use anotherworld::player::UP;
use anotherworld::resource::AssetPlatform;
use anotherworld::resource::EntryType;
use anotherworld::resource::MemEntry;
use anotherworld::resource::MemEntryState;
use anotherworld::resource::Resource;
use anotherworld::sfxplayer::SfxPlayer;
use anotherworld::video::Video;
use anotherworld::vm::time_to_sleep;
use anotherworld::vm::Effect;
use anotherworld::vm::Thread;
use anotherworld::vm::VideoBufferSeg;
use anotherworld::vm::VirtualMachine;

const CODE: usize = 0x100;
const POLY: usize = 0x1000;
const POLY2: usize = 0x20000;

fn blank_entry() -> MemEntry {
    MemEntry {
        state: MemEntryState::NotNeeded,
        entry_type: EntryType::Sound,
        buf_ptr: 0,
        unk4: 0,
        rank_num: 0,
        bank_id: 0,
        bank_offset: 0,
        unkc: 0,
        packed_size: 0,
        unk10: 0,
        size: 0,
    }
}

/// A table whose parts 2 and 10 lie in bank 1: a palette, five bytes of
/// bytecode that show a frame and start over, and two bytes of polygons.
fn game_resource() -> Resource {
    let mut resource = Resource::new(AssetPlatform::PC);
    for i in 0..0x80usize {
        let mut e = blank_entry();
        if i == 0x17 || i == 0x7d {
            e = MemEntry { entry_type: EntryType::Palette, bank_id: 1, bank_offset: 0, packed_size: 32, size: 32, ..e };
        } else if i == 0x18 || i == 0x7e {
            e = MemEntry {
                entry_type: EntryType::Bytecode,
                bank_id: 1,
                bank_offset: 32,
                packed_size: 5,
                size: 5,
                rank_num: 2,
                ..e
            };
        } else if i == 0x19 || i == 0x7f {
            e = MemEntry {
                entry_type: EntryType::PolyCinematic,
                bank_id: 1,
                bank_offset: 37,
                packed_size: 2,
                size: 2,
                rank_num: 1,
                ..e
            };
        } else if i == 0x51 {
            e = MemEntry { bank_id: 1, bank_offset: 39, packed_size: 12, size: 12, ..e };
        }
        resource.mem_list.push(e);
    }
    let mut bank = vec![0x0fu8; 32];
    bank.extend_from_slice(&[0x10, 0xff, 0x07, 0x00, 0x00]);
    bank.extend_from_slice(&[0x01, 0x01]);
    bank.extend_from_slice(&[0, 2, 0, 0, 0, 0, 0, 0, 0x40, 0x40, 0x40, 0x40]);
    resource.set_bank(1, bank);
    resource
}

fn machine(code: &[u8]) -> VirtualMachine {
    let mut resource = game_resource();
    resource.seg_bytecode = CODE;
    resource.seg_cinematic = POLY;
    resource.seg_video2 = POLY2;
    resource.memory[CODE..CODE + code.len()].copy_from_slice(code);
    let mut vm = VirtualMachine::with_seed(resource, Video::new(320, 200), 1, 42);
    vm.threads[0].pc = 0;
    assert!(vm.begin_thread(0));
    vm
}

fn run(vm: &mut VirtualMachine, steps: usize) {
    for _ in 0..steps {
        assert!(matches!(vm.step(None), Ok(Effect::Nothing)));
    }
}

fn count(vm: &VirtualMachine, page: usize, color: u8) -> usize {
    vm.video.pages[page].data.iter().filter(|p| **p == color).count()
}

#[test]
fn opcodes_are_decoded() {
    assert_eq!(Opcode::decode(0x00), Ok(Opcode::MovConst));
    assert_eq!(Opcode::decode(0x05), Ok(Opcode::Ret));
    assert_eq!(Opcode::decode(0x0a), Ok(Opcode::CondJmp));
    assert_eq!(Opcode::decode(0x10), Ok(Opcode::BlitFrameBuffer));
    assert_eq!(Opcode::decode(0x1a), Ok(Opcode::PlayMusic));
    assert_eq!(Opcode::decode(0x1b), Err(Error::UnknownOpcode));
    assert_eq!(Opcode::decode(0x3f), Err(Error::UnknownOpcode));
    assert_eq!(Opcode::decode(0x40), Ok(Opcode::DrawPolyBackground(0x40)));
    assert_eq!(Opcode::decode(0x7f), Ok(Opcode::DrawPolyBackground(0x7f)));
    assert_eq!(Opcode::decode(0x80), Ok(Opcode::DrawPolySprite(0x00)));
    assert_eq!(Opcode::decode(0xff), Ok(Opcode::DrawPolySprite(0x7f)));
}

#[test]
fn new_machine() {
    let vm = machine(&[]);
    assert_eq!(vm.variables[0x54], 0x81);
    assert_eq!(vm.variables[0x3c], 42);
    assert_eq!(vm.variables.iter().filter(|v| **v != 0).count(), 2);
    assert_eq!(vm.threads[1], Thread::new());
    assert_eq!(vm.threads[63].pc, 0xffff);
    assert_eq!(vm.stack_ptr, 0);
    assert_eq!(vm.scale, 1);
    let chance = VirtualMachine::new(game_resource(), Video::new(320, 200), 2);
    assert_eq!(chance.variables[0x54], 0x81);
    assert_eq!(chance.scale, 2);
    assert!(chance.threads.iter().all(|t| *t == Thread::new()));
    assert!(chance.requested_next_part.is_none());
}

#[test]
fn bypass_sets_the_protection_variables() {
    let mut vm = machine(&[]);
    vm.bypass_protection();
    assert_eq!((vm.variables[0xbc], vm.variables[0xc6], vm.variables[0xdc], vm.variables[0xf2]), (0x10, 0x80, 33, 4000));
    let mut amiga = VirtualMachine::with_seed(Resource::new(AssetPlatform::Amiga), Video::new(320, 200), 1, 0);
    amiga.bypass_protection();
    assert_eq!(amiga.variables[0xf2], 6000);
    amiga.set_variable(0x10, -3);
    assert_eq!(amiga.variables[0x10], -3);
}

#[test]
fn arithmetic_instructions() {
    let mut vm = machine(&[
        0x00, 0x01, 0x7f, 0xff, // v1 = 0x7fff
        0x01, 0x02, 0x01, // v2 = v1
        0x03, 0x02, 0x00, 0x01, // v2 += 1
        0x02, 0x01, 0x02, // v1 += v2
        0x13, 0x01, 0x02, // v1 -= v2
        0x00, 0x03, 0x0f, 0x0f, // v3 = 0x0f0f
        0x14, 0x03, 0x00, 0xff, // v3 &= 0x00ff
        0x15, 0x03, 0xf0, 0x00, // v3 |= 0xf000
        0x16, 0x03, 0x00, 0x04, // v3 <<= 4
        0x17, 0x03, 0x00, 0x08, // v3 >>= 8
        0x16, 0x03, 0x00, 0x10, // v3 <<= 16
    ]);
    run(&mut vm, 1);
    assert_eq!((vm.variables[1], vm.script_ptr), (0x7fff, 4));
    run(&mut vm, 1);
    assert_eq!((vm.variables[2], vm.script_ptr), (0x7fff, 7));
    run(&mut vm, 1);
    assert_eq!((vm.variables[2], vm.script_ptr), (-0x8000, 11));
    run(&mut vm, 1);
    assert_eq!((vm.variables[1], vm.script_ptr), (-1, 14));
    run(&mut vm, 1);
    assert_eq!((vm.variables[1], vm.script_ptr), (0x7fff, 17));
    run(&mut vm, 2);
    assert_eq!(vm.variables[3], 0x000f);
    run(&mut vm, 1);
    assert_eq!(vm.variables[3], 0xf00fu16 as i16);
    run(&mut vm, 1);
    assert_eq!(vm.variables[3], 0x00f0);
    run(&mut vm, 1);
    assert_eq!(vm.variables[3], 0);
    vm.variables[3] = -1;
    run(&mut vm, 1);
    assert_eq!((vm.variables[3], vm.script_ptr), (0, 41));
}

#[test]
fn jumps() {
    let mut vm = machine(&[
        0x07, 0x00, 0x05, // jmp 5
        0xff, 0xff, //
        0x00, 0x01, 0x00, 0x02, // v1 = 2
        0x09, 0x01, 0x00, 0x09, // v1 -= 1; jump to 9 unless 0
        0x06, // pause
    ]);
    run(&mut vm, 1);
    assert_eq!(vm.script_ptr, 5);
    run(&mut vm, 2);
    assert_eq!((vm.variables[1], vm.script_ptr), (1, 9));
    run(&mut vm, 1);
    assert_eq!((vm.variables[1], vm.script_ptr), (0, 13));
    assert!(!vm.goto_next_thread);
    run(&mut vm, 1);
    assert!(vm.goto_next_thread);
    assert_eq!(vm.script_ptr, 14);
    vm.end_thread(0);
    assert_eq!(vm.threads[0].pc, 14);
}

fn cond(op: u8, b: i16, operand: &[u8]) -> bool {
    let mut code = vec![0x0a, op, 0x01];
    code.extend_from_slice(operand);
    code.extend_from_slice(&[0x12, 0x34]);
    let len = code.len();
    let mut vm = machine(&code);
    vm.variables[1] = b;
    vm.variables[2] = 7;
    run(&mut vm, 1);
    if vm.script_ptr == 0x1234 {
        true
    } else {
        assert_eq!(vm.script_ptr, len);
        false
    }
}

#[test]
fn conditional_jumps() {
    assert!(cond(0x00, 5, &[5]));
    assert!(!cond(0x00, 5, &[6]));
    assert!(cond(0x01, 5, &[6]));
    assert!(!cond(0x01, 5, &[5]));
    assert!(cond(0x02, 6, &[5]));
    assert!(!cond(0x02, 5, &[5]));
    assert!(cond(0x03, 5, &[5]));
    assert!(!cond(0x03, 4, &[5]));
    assert!(cond(0x04, 4, &[5]));
    assert!(!cond(0x04, 5, &[5]));
    assert!(cond(0x05, 5, &[5]));
    assert!(!cond(0x05, 6, &[5]));
    assert!(!cond(0x06, 5, &[5]));
    assert!(!cond(0x07, 5, &[5]));
    // a byte operand is not negative
    assert!(cond(0x04, -1, &[0xff]));
    // a word operand is signed
    assert!(cond(0x40, -2, &[0xff, 0xfe]));
    assert!(cond(0x44, -3, &[0xff, 0xfe]));
    assert!(!cond(0x42, -3, &[0xff, 0xfe]));
    // a variable operand
    assert!(cond(0x80, 7, &[0x02]));
    assert!(cond(0xc2, 8, &[0x02]));
    assert!(!cond(0x84, 7, &[0x02]));
}

#[test]
fn calls_and_returns() {
    let mut vm = machine(&[
        0x04, 0x00, 0x04, // call 4
        0x06, // pause
        0x05, // ret
    ]);
    run(&mut vm, 1);
    assert_eq!((vm.script_ptr, vm.stack_ptr, vm.script_stack_calls[0]), (4, 1, 3));
    run(&mut vm, 1);
    assert_eq!((vm.script_ptr, vm.stack_ptr), (3, 0));
    vm.script_ptr = 4;
    assert!(matches!(vm.step(None), Err(Error::StackUnderflow)));
    let mut deep = machine(&[0x04, 0x00, 0x00]);
    run(&mut deep, 255);
    assert_eq!(deep.stack_ptr, 255);
    assert!(matches!(deep.step(None), Err(Error::StackOverflow)));
    assert_eq!(deep.stack_ptr, 255);
}

#[test]
fn thread_requests_are_taken_over_between_frames() {
    let mut vm = machine(&[
        0x08, 0x05, 0x01, 0x23, // thread 5 goes on at 0x123
        0x0c, 0x02, 0x04, 0x01, // threads 2 to 4 are paused
        0x0c, 0x06, 0x47, 0x02, // threads 6 and 7 become inactive
        0x0c, 0x04, 0x03, // nothing: 3 is below 4, and the mode is not read
        0x0c, 0x02, 0x03, 0x00, // threads 2 and 3 run on
        0x11, // kill
    ]);
    vm.threads[5].pc = 9;
    vm.threads[6].pc = 1;
    run(&mut vm, 5);
    assert_eq!(vm.script_ptr, 19);
    assert_eq!(vm.threads[5].requested_pc_offset, Some(0x123));
    assert_eq!(vm.threads[5].pc, 9);
    assert!(!vm.threads[2].is_channel_active_requested);
    assert!(!vm.threads[3].is_channel_active_requested);
    assert!(vm.threads[4].is_channel_active_requested);
    assert!(!vm.threads[4].is_channel_active_current);
    assert!(!vm.threads[1].is_channel_active_requested);
    assert_eq!(vm.threads[6].requested_pc_offset, Some(0xfffe));
    assert_eq!(vm.threads[7].requested_pc_offset, Some(0xfffe));
    assert_eq!(vm.threads[8].requested_pc_offset, None);
    assert_eq!(vm.threads[6].pc, 1);
    run(&mut vm, 1);
    assert!(vm.goto_next_thread);
    vm.end_thread(0);
    assert_eq!(vm.threads[0].pc, 0xffff);
    assert!(matches!(vm.check_thread_requests(), Ok(Effect::Nothing)));
    assert_eq!(vm.threads[5].pc, 0x123);
    assert_eq!(vm.threads[5].requested_pc_offset, None);
    assert_eq!(vm.threads[6].pc, 0xffff);
    assert!(vm.threads[4].is_channel_active_current);
    assert!(!vm.begin_thread(0));
    assert!(!vm.begin_thread(4));
    assert!(!vm.begin_thread(6));
    assert!(vm.begin_thread(5));
    assert_eq!((vm.script_ptr, vm.stack_ptr, vm.goto_next_thread), (0x123, 0, false));
}

#[test]
fn thread_instructions_reject_bad_operands() {
    let mut vm = machine(&[0x08, 0x40, 0x00, 0x00]);
    assert!(matches!(vm.step(None), Err(Error::UnknownOpcode)));
    let mut vm = machine(&[0x0c, 0x00, 0x01, 0x03]);
    assert!(matches!(vm.step(None), Err(Error::UnknownOpcode)));
    assert!(vm.threads.iter().all(|t| t.requested_pc_offset.is_none() && !t.is_channel_active_requested));
    let mut vm = machine(&[0x1b]);
    assert!(matches!(vm.step(None), Err(Error::UnknownOpcode)));
    let mut vm = machine(&[]);
    vm.resource.seg_bytecode = 600 * 1024;
    assert!(matches!(vm.step(None), Err(Error::BankCorrupt)));
    vm.resource.seg_bytecode = 600 * 1024 - 2;
    vm.resource.memory[600 * 1024 - 2] = 0x07;
    assert!(matches!(vm.step(None), Err(Error::BankCorrupt)));
    assert!(matches!(vm.fetch_byte(), Ok(0)));
    assert!(matches!(vm.fetch_word(), Err(Error::BankCorrupt)));
}

#[test]
fn mark_of_the_music_goes_into_its_variable() {
    let mut vm = machine(&[0x01, 0x01, 0xf4, 0x06]);
    assert!(matches!(vm.step(Some(0x77)), Ok(Effect::Nothing)));
    assert_eq!(vm.variables[0xf4], 0x77);
    assert_eq!(vm.variables[1], 0x77);
    run(&mut vm, 1);
    assert_eq!(vm.variables[0xf4], 0x77);
}

#[test]
fn video_instructions() {
    let mut vm = machine(&[
        0x0d, 0x01, // draw on page 1
        0x0e, 0x00, 0x07, // fill page 0 with 7
        0x0f, 0x00, 0x03, // copy page 0 to page 3
        0x12, 0x00, 0x03, 0x02, 0x14, 0x06, // text 3 at cell 2, row 20, colour 6
        0x0b, 0x01, 0x00, // palette 1
        0x0b, 0x20, 0x00, // no palette
        0x10, 0xff, // show
    ]);
    vm.resource.seg_palettes = 0x4000;
    for b in vm.resource.memory[0x4020..0x4040].iter_mut() {
        *b = 0x0f;
    }
    vm.variables[0xff] = 5;
    vm.variables[0xf7] = 9;
    run(&mut vm, 1);
    assert_eq!(vm.video.cur_page_ptr1, 1);
    run(&mut vm, 2);
    assert_eq!(count(&vm, 0, 7), 64000);
    assert_eq!(count(&vm, 3, 7), 64000);
    run(&mut vm, 1);
    let mut text = Video::new(320, 200);
    text.change_page_ptr1(1);
    text.draw_string(6, 2, 20, "2", 1);
    assert_eq!(vm.video.pages[1].data, text.pages[1].data);
    assert!(count(&vm, 1, 6) > 0);
    run(&mut vm, 1);
    assert_eq!(vm.video.palette_requested.as_ref().unwrap().entries[0].r, 0xfc);
    run(&mut vm, 1);
    assert_eq!(vm.script_ptr, 20);
    match vm.step(None) {
        Ok(Effect::Blit(Some(palette), 5)) => assert_eq!(palette.entries[15].g, 0),
        _ => panic!("no frame"),
    }
    assert!(vm.goto_next_thread);
    assert_eq!(vm.variables[0xf7], 0);
    assert_eq!((vm.video.cur_page_ptr2, vm.video.cur_page_ptr3), (1, 2));
    assert!(vm.video.palette_requested.is_none());
}

#[test]
fn copy_video_page_scrolls_by_its_variable() {
    let mut vm = machine(&[0x0f, 0x81, 0x00]);
    vm.variables[0xf9] = 3;
    vm.video.pages[1].data[0] = 9;
    run(&mut vm, 1);
    assert_eq!(vm.video.pages[0].data[3 * 320], 9);
}

#[test]
fn sound_stop_on_zero_volume() {
    let mut vm = machine(&[0x18, 0x00, 0x51, 0x00, 0x00, 0x00]);
    let mut mixer = Mixer::new();
    let mut player = SfxPlayer::new();
    mixer.play_channel(0, MixerChunk::new(&[0x40; 64], 64, 0), 22050, 0x3f);
    let mut out = [0i8; 4];
    mixer.callback(&mut out);
    assert_eq!(out, [62, 62, 62, 62]);
    let effect = vm.step(None).unwrap();
    assert!(matches!(effect, Effect::StopChannel(0)));
    effect.apply(&mut mixer, &mut player);
    mixer.callback(&mut out);
    assert_eq!(out, [0, 0, 0, 0]);
    assert_eq!(vm.script_ptr, 6);
}

#[test]
fn play_sound_plays_a_loaded_sound() {
    let mut vm = machine(&[
        0x18, 0x00, 0x51, 0x01, 0xff, 0x06, // sound 0x51, rate 1, volume 255, channel 6
        0x19, 0x00, 0x51, // load 0x51
        0x18, 0x00, 0x51, 0x01, 0xff, 0x06, //
        0x18, 0x00, 0x51, 0x28, 0x01, 0x00, // no such rate
        0x18, 0x00, 0x51, 0x28, 0x00, 0x07, // silence channel 3
    ]);
    run(&mut vm, 2);
    assert_eq!(vm.resource.mem_list[0x51].state, MemEntryState::Loaded);
    match vm.step(None) {
        Ok(Effect::PlayChannel(channel, chunk, frequency, volume)) => {
            assert_eq!((channel, frequency, volume), (2, 0x0dc3, 0x3f));
            assert_eq!(chunk.data, vec![0x40, 0x40, 0x40, 0x40]);
            assert_eq!((chunk.len, chunk.loop_len), (4, 0));
            let mut mixer = Mixer::new();
            let mut player = SfxPlayer::new();
            Effect::PlayChannel(channel, chunk, frequency, volume).apply(&mut mixer, &mut player);
            assert_eq!(mixer.channels[2].as_ref().unwrap().volume, 0x3f);
        }
        _ => panic!("no sound"),
    }
    assert!(matches!(vm.step(None), Err(Error::UnknownOpcode)));
    assert!(matches!(vm.step(None), Ok(Effect::StopChannel(3))));
}

#[test]
fn play_music_instructions() {
    let mut vm = machine(&[
        0x1a, 0x00, 0x00, 0x12, 0x34, 0x00, // tempo
        0x1a, 0x00, 0x00, 0x00, 0x00, 0x00, // stop
        0x1a, 0x00, 0x40, 0x00, 0x00, 0x02, // no music loaded
        0x1a, 0x00, 0x40, 0x00, 0x00, 0x02, //
        0x1a, 0x00, 0x40, 0x00, 0x07, 0x02, //
    ]);
    let mut mixer = Mixer::new();
    let mut player = SfxPlayer::new();
    let effect = vm.step(None).unwrap();
    assert!(matches!(effect, Effect::SetMusicDelay(0x1234)));
    effect.apply(&mut mixer, &mut player);
    assert_eq!(player.delay, 39);
    assert!(matches!(vm.step(None), Ok(Effect::StopMusic)));
    run(&mut vm, 1);
    let music = 0x3000;
    vm.resource.mem_list[0x40] = MemEntry {
        state: MemEntryState::Loaded,
        entry_type: EntryType::Music,
        buf_ptr: music,
        size: 0xc0 + 16,
        ..blank_entry()
    };
    vm.resource.memory[music + 1] = 0x50;
    match vm.step(None) {
        Ok(Effect::StartMusic(module, delay)) => {
            assert_eq!(delay, 0x50);
            assert_eq!(module.cur_order, 2);
            assert_eq!(module.data.len(), 16);
            Effect::StartMusic(module, delay).apply(&mut mixer, &mut player);
            assert!(player.playing);
            assert_eq!(player.delay, 0);
            assert!(player.sfx_module.is_some());
            Effect::StopAudio.apply(&mut mixer, &mut player);
            assert!(!player.playing);
        }
        _ => panic!("no music"),
    }
    match vm.step(None) {
        Ok(Effect::StartMusic(_, delay)) => assert_eq!(delay, 7),
        _ => panic!("no music"),
    }
    assert_eq!(vm.script_ptr, 30);
}

#[test]
fn update_memlist_instructions() {
    let mut vm = machine(&[
        0x19, 0x00, 0x51, // load 0x51
        0x19, 0x00, 0x00, // free
        0x19, 0x3e, 0x82, // part 3
        0x19, 0x00, 0x52, // bank 0: nothing
    ]);
    run(&mut vm, 1);
    assert_eq!(vm.resource.mem_list[0x51].state, MemEntryState::Loaded);
    assert_eq!(vm.resource.script_cur_ptr, 12);
    assert!(matches!(vm.step(None), Ok(Effect::StopAudio)));
    assert_eq!(vm.resource.script_cur_ptr, 0);
    run(&mut vm, 1);
    assert_eq!(vm.requested_next_part, Some(0x3e82));
    run(&mut vm, 1);
    assert_eq!(vm.script_ptr, 12);
    assert_eq!(vm.resource.mem_list[0x52].state, MemEntryState::NotNeeded);
}

#[test]
fn update_memlist_takes_over_a_background() {
    let mut vm = machine(&[0x19, 0x00, 0x53]);
    vm.resource.mem_list[0x53] = MemEntry {
        entry_type: EntryType::PolyAnim,
        bank_id: 1,
        bank_offset: 0,
        packed_size: 32,
        size: 32,
        ..blank_entry()
    };
    run(&mut vm, 1);
    assert!(!vm.resource.copy_vid_ptr);
    // plane 0 of the background starts with 32 bytes 0x0f
    assert_eq!(&vm.video.pages[0].data[0..8], &[0, 0, 0, 0, 1, 1, 1, 1]);
    assert_eq!(count(&vm, 0, 1), 32 * 4);
    let mut wide = machine(&[0x19, 0x00, 0x53]);
    wide.resource.mem_list[0x53] = vm.resource.mem_list[0x53];
    wide.scale = 2;
    assert!(matches!(wide.step(None), Err(Error::HostVideo)));
}

fn leaf_at(vm: &mut VirtualMachine, at: usize) {
    vm.resource.memory[at..at + 12].copy_from_slice(&[0xc5, 4, 4, 4, 4, 0, 4, 4, 0, 4, 0, 0]);
}

#[test]
fn draw_poly_background() {
    let mut vm = machine(&[0x40, 0x01, 50, 60, 0x41, 0x00, 50, 210]);
    leaf_at(&mut vm, POLY + 0x8002);
    leaf_at(&mut vm, POLY + 0x8200);
    run(&mut vm, 1);
    assert_eq!(vm.script_ptr, 4);
    assert_eq!(count(&vm, 2, 5), 20);
    assert_eq!(vm.video.pages[2].data[58 * 320 + 48], 5);
    assert_eq!(vm.video.pages[2].data[61 * 320 + 52], 5);
    run(&mut vm, 1);
    // moved up to the last row and 11 to the right
    assert_eq!(vm.video.pages[2].data[199 * 320 + 59], 5);
    assert_eq!(vm.video.pages[2].data[199 * 320 + 63], 5);
    assert_eq!(vm.video.pages[2].data[199 * 320 + 64], 0);
    assert_eq!(count(&vm, 2, 5), 20 + 15);
}

#[test]
fn draw_poly_sprite() {
    let mut vm = machine(&[
        0x80, 0x00, 0x01, 0x00, 50, 0x00, 60, // place in words
        0x95, 0x00, 0x01, 0x01, 0x02, 0x03, // place and zoom in variables
        0xbf, 0x00, 0x01, 10, 100, // byte plus 0x100, second segment
        0xaa, 0x00, 0x01, 10, 20, 0x80, // byte plus 0x100, zoom in a byte
    ]);
    leaf_at(&mut vm, POLY + 2);
    leaf_at(&mut vm, POLY2 + 2);
    vm.variables[1] = 100;
    vm.variables[2] = 150;
    vm.variables[3] = 0x80;
    run(&mut vm, 1);
    assert_eq!(vm.script_ptr, 7);
    assert_eq!(count(&vm, 2, 5), 20);
    assert_eq!(vm.video.pages[2].data[58 * 320 + 48], 5);
    run(&mut vm, 1);
    assert_eq!(vm.script_ptr, 13);
    // twice the size: 8 rows of 9 pixels
    assert_eq!(count(&vm, 2, 5), 20 + 72);
    assert_eq!(vm.video.pages[2].data[146 * 320 + 96], 5);
    assert_eq!(vm.video.pages[2].data[153 * 320 + 104], 5);
    assert!(matches!(vm.video_buffer_seg, VideoBufferSeg::Cinematic));
    run(&mut vm, 1);
    assert_eq!(vm.script_ptr, 18);
    assert!(matches!(vm.video_buffer_seg, VideoBufferSeg::Video2));
    assert_eq!(vm.video.pages[2].data[98 * 320 + 264], 5);
    assert_eq!(count(&vm, 2, 5), 20 + 72 + 20);
    run(&mut vm, 1);
    assert_eq!(vm.script_ptr, 24);
    assert_eq!(vm.video.pages[2].data[16 * 320 + 262], 5);
    assert_eq!(count(&vm, 2, 5), 20 + 72 + 20 + 72);
}

#[test]
fn draw_poly_rejects_malformed_polygons() {
    let mut vm = machine(&[0x80, 0x00, 0x01, 0x00, 50, 0x00, 60]);
    vm.resource.memory[POLY + 2..POLY + 6].copy_from_slice(&[0xc5, 4, 4, 3]);
    assert!(matches!(vm.step(None), Err(Error::BankCorrupt)));
    assert_eq!(count(&vm, 2, 0), 64000);
    let mut vm = machine(&[0x80, 0x00, 0x01, 0x00, 50, 0x00, 60]);
    vm.resource.seg_cinematic = 600 * 1024 + 1;
    assert!(matches!(vm.step(None), Err(Error::BankCorrupt)));
}

fn frame(vm: &mut VirtualMachine, input: PlayerInput, blits: &mut Vec<i16>) -> bool {
    vm.check_thread_requests().unwrap();
    if !vm.update_player_input(input) {
        return false;
    }
    for thread in 0..64 {
        if vm.begin_thread(thread) {
            while !vm.goto_next_thread {
                if let Effect::Blit(_, slices) = vm.step(None).unwrap() {
                    blits.push(slices);
                }
            }
            vm.end_thread(thread);
        }
    }
    true
}

#[test]
fn boot_and_show_the_introduction() {
    let mut vm = VirtualMachine::with_seed(game_resource(), Video::new(320, 200), 1, 1);
    assert!(matches!(vm.init_for_part(0x3e81), Ok(Effect::StopAudio)));
    assert_eq!(vm.threads[0].pc, 0);
    assert!(vm.threads[1..].iter().all(|t| *t == Thread::new()));
    let mut blits = Vec::new();
    let mut frames = 0;
    while blits.len() < 60 {
        assert!(frame(&mut vm, PlayerInput::new(), &mut blits));
        frames += 1;
        assert!(frames <= 60);
    }
    assert_eq!(vm.variables[0xe4], 0x14);
    assert_eq!(vm.resource.current_part_id, 0x3e81);
    assert_eq!(vm.resource.seg_palettes, vm.resource.mem_list[0x17].buf_ptr);
    assert_eq!(vm.resource.mem_list[0x17].state, MemEntryState::Loaded);
    assert_eq!(anotherworld::parts::part(vm.resource.current_part_id).unwrap().palette, 0x17);
    assert_eq!(vm.resource.seg_bytecode, 0);
    assert_eq!(vm.resource.seg_cinematic, 5);
}

#[test]
fn password_part_detection() {
    let mut vm = VirtualMachine::with_seed(game_resource(), Video::new(320, 200), 1, 1);
    vm.init_for_part(0x3e89).unwrap();
    let mut keys = UserInput::new();
    let input = keys.process_events(&[InputEvent::KeyDown(Key::Letter(b'Q'))]);
    assert_eq!(input.last_char, 'Q');
    let mut blits = Vec::new();
    assert!(frame(&mut vm, input, &mut blits));
    assert_eq!(blits.len(), 1);
    assert_eq!(vm.variables[0xda], 0x51);
    // on another part the character is not taken
    let mut intro = VirtualMachine::with_seed(game_resource(), Video::new(320, 200), 1, 1);
    intro.init_for_part(0x3e81).unwrap();
    assert!(frame(&mut intro, input, &mut blits));
    assert_eq!(intro.variables[0xda], 0);
}

#[test]
fn pause_timing() {
    let mut vm = VirtualMachine::with_seed(game_resource(), Video::new(320, 200), 1, 1);
    vm.init_for_part(0x3e81).unwrap();
    vm.variables[0xff] = 5;
    let mut now: u64 = 1000;
    let mut shown = Vec::new();
    while shown.len() < 10 {
        let mut blits = Vec::new();
        assert!(frame(&mut vm, PlayerInput::new(), &mut blits));
        now += 3;
        for slices in blits {
            assert_eq!(slices, 5);
            now += vm.frame_delay(slices, now);
            vm.blit_done(now);
            shown.push(now);
        }
    }
    assert!(shown[9] - shown[0] >= 900);
    assert_eq!(shown[9] - shown[0], 900);
    assert_eq!(time_to_sleep(5, 1000, 1000), 100);
    assert_eq!(time_to_sleep(5, 1040, 1000), 60);
    assert_eq!(time_to_sleep(5, 1100, 1000), 0);
    assert_eq!(time_to_sleep(5, 2000, 1000), 0);
    assert_eq!(time_to_sleep(0, 1000, 1000), 0);
    assert_eq!(time_to_sleep(-5, 1000, 1000), 0);
    assert_eq!(time_to_sleep(5, 900, 1000), 100);
    assert_eq!(time_to_sleep(i16::MAX, 0, 0), 655340);
}

#[test]
fn part_switch_is_made_at_the_start_of_a_frame() {
    let mut vm = VirtualMachine::with_seed(game_resource(), Video::new(320, 200), 1, 1);
    vm.init_for_part(0x3e81).unwrap();
    vm.requested_next_part = Some(0x3e89);
    vm.threads[0].requested_pc_offset = Some(3);
    assert!(matches!(vm.check_thread_requests(), Ok(Effect::StopAudio)));
    assert_eq!(vm.resource.current_part_id, 0x3e89);
    assert_eq!(vm.requested_next_part, None);
    assert_eq!(vm.threads[0].pc, 0);
    assert_eq!(vm.resource.mem_list[0x7e].state, MemEntryState::Loaded);
    assert_eq!(vm.resource.mem_list[0x18].state, MemEntryState::NotNeeded);
    // the entries of part 3 name bank 0: nothing is loaded for them
    vm.requested_next_part = Some(0x3e82);
    assert!(matches!(vm.check_thread_requests(), Ok(Effect::StopAudio)));
    assert_eq!(vm.resource.current_part_id, 0x3e82);
    assert_eq!(vm.resource.script_cur_ptr, 0);
    assert!(vm.resource.mem_list.iter().all(|e| e.state == MemEntryState::NotNeeded));
    let mut bad = VirtualMachine::with_seed(game_resource(), Video::new(320, 200), 1, 1);
    bad.requested_next_part = Some(0x4000);
    assert!(matches!(bad.check_thread_requests(), Err(Error::InvalidPart)));
    assert_eq!(bad.requested_next_part, Some(0x4000));
    assert_eq!(bad.variables[0xe4], 0x14);
}

fn input_with(bits: u8, button: bool) -> PlayerInput {
    PlayerInput { direction: PlayerDirection { bits }, button, ..PlayerInput::new() }
}

#[test]
fn input_goes_into_the_variables_of_the_hero() {
    let mut vm = machine(&[]);
    assert!(vm.update_player_input(input_with(RIGHT | DOWN, true)));
    assert_eq!((vm.variables[0xe5], vm.variables[0xfb], vm.variables[0xfc]), (1, 1, 1));
    assert_eq!((vm.variables[0xfd], vm.variables[0xfa], vm.variables[0xfe]), (5, 1, 0x85));
    assert!(vm.update_player_input(input_with(LEFT | UP, false)));
    assert_eq!((vm.variables[0xe5], vm.variables[0xfb], vm.variables[0xfc]), (-1, -1, -1));
    assert_eq!((vm.variables[0xfd], vm.variables[0xfa], vm.variables[0xfe]), (10, 0, 10));
    assert!(vm.update_player_input(input_with(LEFT | RIGHT | UP | DOWN, false)));
    assert_eq!((vm.variables[0xe5], vm.variables[0xfc], vm.variables[0xfd]), (-1, -1, 15));
    assert!(vm.update_player_input(PlayerInput::new()));
    assert_eq!((vm.variables[0xe5], vm.variables[0xfc], vm.variables[0xfd], vm.variables[0xfe]), (0, 0, 0, 0));
    assert!(!vm.update_player_input(PlayerInput { quit: true, ..input_with(LEFT, true) }));
    assert_eq!((vm.variables[0xfc], vm.variables[0xfa]), (0, 0));
}

#[test]
fn code_key_asks_for_the_last_part() {
    let mut vm = machine(&[]);
    let code = PlayerInput { code: true, ..PlayerInput::new() };
    vm.resource.current_part_id = 0x3e83;
    vm.update_player_input(code);
    assert_eq!(vm.requested_next_part, Some(0x3e89));
    for part in [0x3e80u16, 0x3e89] {
        let mut vm = machine(&[]);
        vm.resource.current_part_id = part;
        vm.update_player_input(code);
        assert_eq!(vm.requested_next_part, None);
    }
    let mut vm = machine(&[]);
    vm.resource.current_part_id = 0x3e89;
    vm.variables[0xda] = 1;
    vm.update_player_input(PlayerInput { last_char: 'a', ..PlayerInput::new() });
    assert_eq!(vm.variables[0xda], 1);
    vm.update_player_input(PlayerInput { last_char: '\x08', ..PlayerInput::new() });
    assert_eq!(vm.variables[0xda], 8);
    vm.update_player_input(PlayerInput { last_char: 'Z', quit: true, ..PlayerInput::new() });
    assert_eq!(vm.variables[0xda], 0x5a);
    vm.update_player_input(PlayerInput::default());
    assert_eq!(vm.variables[0xda], 0);
}

#[test]
fn events_become_input() {
    let mut keys = UserInput::new();
    let input = keys.process_events(&[
        InputEvent::KeyDown(Key::Left),
        InputEvent::KeyDown(Key::Letter(b'W')),
        InputEvent::KeyDown(Key::Space),
        InputEvent::KeyDown(Key::Letter(b'C')),
        InputEvent::Other,
    ]);
    assert_eq!(input.direction.bits, LEFT | UP);
    assert!(input.direction.contains(LEFT));
    assert!(!input.direction.contains(LEFT | RIGHT));
    assert!(input.button && input.code && !input.quit);
    assert_eq!(input.last_char, 'C');
    let input = keys.process_events(&[InputEvent::KeyUp(Key::Letter(b'A')), InputEvent::KeyUp(Key::Return)]);
    assert_eq!(input.direction.bits, UP);
    assert!(!input.button && !input.code);
    assert_eq!(input.last_char, '\0');
    let input = keys.process_events(&[
        InputEvent::KeyDown(Key::Backspace),
        InputEvent::KeyDown(Key::Letter(b'S')),
        InputEvent::KeyDown(Key::Letter(b'D')),
        InputEvent::KeyDown(Key::Letter(b'1')),
        InputEvent::KeyUp(Key::Up),
        InputEvent::KeyDown(Key::Other),
    ]);
    assert_eq!(input.direction.bits, DOWN | RIGHT);
    assert_eq!(input.last_char, 'D');
    assert!(keys.process_events(&[InputEvent::KeyDown(Key::Escape)]).quit);
    assert!(keys.process_events(&[]).quit);
    assert!(UserInput::new().process_events(&[InputEvent::Quit]).quit);
    let mut d = PlayerDirection::empty();
    d.insert(LEFT | DOWN);
    d.remove(LEFT);
    assert_eq!(d.bits, DOWN);
}

#[test]
fn execute_thread_runs_until_the_thread_is_done() {
    let code = [0x00, 0x01, 0x00, 0x01, 0x00, 0x02, 0x00, 0x02, 0x06, 0x00, 0x03, 0x00, 0x03];
    let mut vm = machine(&code);
    assert!(matches!(vm.execute_thread(Some(5), 100), Ok(Effect::Nothing)));
    assert!(vm.goto_next_thread);
    assert_eq!((vm.variables[1], vm.variables[2], vm.variables[3], vm.variables[0xf4]), (1, 2, 0, 5));
    assert_eq!(vm.script_ptr, 9);
    assert!(matches!(vm.execute_thread(None, 100), Ok(Effect::Nothing)));
    assert_eq!(vm.script_ptr, 9);
    let mut vm = machine(&code);
    assert!(matches!(vm.execute_thread(None, 1), Ok(Effect::Nothing)));
    assert!(!vm.goto_next_thread);
    assert_eq!((vm.variables[1], vm.variables[2], vm.script_ptr), (1, 0, 4));
    assert!(matches!(vm.execute_thread(None, 0), Ok(Effect::Nothing)));
    assert_eq!(vm.script_ptr, 4);
    let mut vm = machine(&[0x00, 0x01, 0x00, 0x01, 0x10, 0xfe, 0x00, 0x02, 0x00, 0x02]);
    assert!(matches!(vm.execute_thread(None, 100), Ok(Effect::Blit(None, 0))));
    assert!(vm.goto_next_thread);
    assert_eq!((vm.variables[1], vm.variables[2], vm.script_ptr), (1, 0, 6));
    let mut vm = machine(&[0x00, 0x01, 0x00, 0x01, 0x1b]);
    assert!(matches!(vm.execute_thread(None, 100), Err(Error::UnknownOpcode)));
    assert_eq!(vm.variables[1], 1);
}

#[test]
fn host_frame_runs_each_thread_in_turn() {
    let mut vm = machine(&[
        0x00, 0x01, 0x00, 0x01, 0x06, // thread 0: v1 = 1; pause
        0x03, 0x02, 0x00, 0x05, 0x10, 0xff, // thread 3: v2 += 5; show
        0x03, 0x02, 0x00, 0x01, 0x06, // v2 += 1; pause
        0x11, // thread 9: kill
    ]);
    vm.goto_next_thread = true;
    vm.threads[3].pc = 5;
    vm.threads[9].pc = 16;
    vm.threads[10].pc = 0;
    vm.threads[10].is_channel_active_current = true;
    let (thread, running, r) = vm.host_frame(0, false, None, 1000);
    assert!(matches!(r, Ok(Effect::Blit(None, 0))));
    assert_eq!((thread, running), (3, true));
    assert_eq!((vm.variables[1], vm.variables[2]), (1, 5));
    assert_eq!(vm.threads[0].pc, 5);
    assert_eq!(vm.threads[3].pc, 5);
    let (thread, running, r) = vm.host_frame(thread, running, None, 1000);
    assert!(matches!(r, Ok(Effect::Nothing)));
    assert_eq!((thread, running), (64, false));
    assert_eq!(vm.threads[3].pc, 11);
    assert_eq!(vm.threads[9].pc, 0xffff);
    assert_eq!(vm.threads[10].pc, 0);
    // the next frame goes on where the threads stopped
    let (thread, running, r) = vm.host_frame(0, false, None, 1);
    assert!(matches!(r, Ok(Effect::Nothing)));
    assert_eq!((thread, running), (0, true));
    assert_eq!(vm.script_ptr, 9);
    assert_eq!(vm.variables[2], 10);
    let (thread, running, r) = vm.host_frame(thread, running, None, 1000);
    assert!(matches!(r, Ok(Effect::Blit(None, 0))));
    assert_eq!((thread, running), (0, true));
    assert_eq!(vm.variables[2], 10);
    let (thread, running, r) = vm.host_frame(thread, running, None, 1000);
    assert!(matches!(r, Ok(Effect::Nothing)));
    assert_eq!((thread, running), (64, false));
    assert_eq!(vm.variables[2], 11);
    assert_eq!(vm.threads[0].pc, 11);
    assert_eq!(vm.threads[3].pc, 16);
    let (thread, _, r) = vm.host_frame(64, true, None, 1000);
    assert!(matches!(r, Ok(Effect::Nothing)));
    assert_eq!(thread, 64);
}

#[test]
fn two_runs_are_alike() {
    let trace = |seed: i16| {
        let mut vm = VirtualMachine::with_seed(game_resource(), Video::new(320, 200), 1, seed);
        vm.init_for_part(0x3e81).unwrap();
        let code = [
            0x19, 0x00, 0x51, // load sound 0x51
            0x01, 0xf9, 0x3c, // scroll by the random seed
            0x0e, 0x01, 0x05, // fill page 1
            0x0f, 0x81, 0x00, // copy it to page 0, scrolled
            0x03, 0x3c, 0x00, 0x01, // seed += 1
            0x18, 0x00, 0x51, 0x02, 0x05, 0x01, // play the sound
            0x10, 0x00, // show page 0
            0x07, 0x00, 0x00, // start over
        ];
        vm.resource.memory[0..code.len()].copy_from_slice(&code);
        let mut effects = Vec::new();
        let mut frames = Vec::new();
        for _ in 0..20 {
            vm.check_thread_requests().unwrap();
            let (mut thread, mut running) = (0, false);
            while thread < 64 {
                let (t, r, effect) = vm.host_frame(thread, running, None, 16);
                thread = t;
                running = r;
                match effect.unwrap() {
                    Effect::Nothing => {}
                    Effect::Blit(_, slices) => {
                        effects.push(format!("blit {}", slices));
                        frames.push(vm.video.front_page().data.clone());
                    }
                    Effect::StopChannel(c) => effects.push(format!("stop {}", c)),
                    Effect::PlayChannel(c, chunk, f, v) => effects.push(format!("play {} {:?} {} {}", c, chunk.data, f, v)),
                    _ => effects.push(String::from("music")),
                }
            }
        }
        (effects, frames, vm.variables)
    };
    let first = trace(7);
    let second = trace(7);
    assert_eq!(first.0, second.0);
    assert_eq!(first.1, second.1);
    assert_eq!(first.2, second.2);
    assert_eq!(first.1.len(), 20);
    assert!(first.0.len() >= 20);
    let other = trace(8);
    assert_ne!(first.1, other.1);
}

#[test]
fn engine_starts_with_the_part_of_a_number() {
    let vm = VirtualMachine::with_seed(game_resource(), Video::new(320, 200), 1, 1);
    match Engine::new(vm, 2) {
        Ok((engine, effect)) => {
            assert!(matches!(effect, Effect::StopAudio));
            assert_eq!(engine.vm.resource.current_part_id, 0x3e81);
            assert_eq!(engine.vm.variables[0xe4], 0x14);
            assert_eq!(engine.vm.threads[0].pc, 0);
        }
        Err(e) => panic!("{:?}", e),
    }
    let vm = VirtualMachine::with_seed(game_resource(), Video::new(320, 200), 1, 1);
    match Engine::new(vm, 10) {
        Ok((engine, _)) => assert_eq!(engine.vm.resource.current_part_id, 0x3e89),
        Err(e) => panic!("{:?}", e),
    }
    for number in [0u8, 11, 255] {
        let vm = VirtualMachine::with_seed(game_resource(), Video::new(320, 200), 1, 1);
        assert!(matches!(Engine::new(vm, number), Err(Error::InvalidPart)));
    }
    let vm = VirtualMachine::with_seed(Resource::new(AssetPlatform::PC), Video::new(320, 200), 1, 1);
    assert!(matches!(Engine::new(vm, 2), Err(Error::MemlistCorrupt)));
}

#[test]
fn part_switch_to_no_part_is_refused() {
    let mut vm = VirtualMachine::with_seed(game_resource(), Video::new(320, 200), 1, 1);
    assert!(matches!(vm.init_for_part(0), Err(Error::InvalidPart)));
    assert_eq!(vm.resource.current_part_id, 0);
    assert!(vm.threads.iter().all(|t| *t == Thread::new()));
}
