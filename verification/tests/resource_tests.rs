use anotherworld::error::Error;
use anotherworld::parts::game_part;
use anotherworld::parts::part;
use anotherworld::resource::bank_file_name;
use anotherworld::resource::memlist_file_name;
use anotherworld::resource::parse_entries;
use anotherworld::resource::AssetPlatform;
use anotherworld::resource::EntryType;
use anotherworld::resource::MemEntry;
use anotherworld::resource::MemEntryState;
use anotherworld::resource::Resource;
use anotherworld::resource::MEM_BLOCK_SIZE;
use anotherworld::resource::VIDEO_REGION_START;

fn record(state: u8, kind: u8, rank: u8, bank_id: u8, bank_offset: u32, packed_size: u16, size: u16) -> Vec<u8> {
    let mut r = vec![state, kind, 0x12, 0x34, 0xab, 0xcd, rank, bank_id];
    r.extend_from_slice(&bank_offset.to_be_bytes());
    r.extend_from_slice(&[0x0c, 0x0d]);
    r.extend_from_slice(&packed_size.to_be_bytes());
    r.extend_from_slice(&[0x10, 0x11]);
    r.extend_from_slice(&size.to_be_bytes());
    r
}

/// A table of 0x80 entries of which those of part 2 lie in bank 1.
fn memlist() -> Vec<u8> {
    let mut table = Vec::new();
    for i in 0..0x80u32 {
        let r = match i {
            0x17 => record(0, 3, 1, 1, 0, 4, 4),
            0x18 => record(0, 4, 3, 1, 4, 6, 6),
            0x19 => record(0, 5, 3, 1, 10, 2, 2),
            0x30 => record(0, 2, 0, 1, 0, 4, 4),
            0x31 => record(0, 0, 9, 1, 12, 12, 1),
            0x32 => record(0, 0, 0, 0, 0, 4, 4),
            0x33 => record(0, 0, 0, 2, 0, 4, 4),
            0x34 => record(0, 0, 0, 1, 100, 4, 4),
            0x35 => record(0, 0, 0, 1, 24, 12, 1),
            0x36 => record(0, 9, 0, 1, 0, 2, 2),
            _ => record(0, 0, 0, 0, 0, 0, 0),
        };
        table.extend_from_slice(&r);
    }
    table.push(0xff);
    table
}

fn bank_one() -> Vec<u8> {
    let mut bank = vec![0xa0, 0xa1, 0xa2, 0xa3, 0xb0, 0xb1, 0xb2, 0xb3, 0xb4, 0xb5, 0xc0, 0xc1];
    // a packed resource that unpacks to one byte 0x41
    bank.extend_from_slice(&[0, 0, 0x30, 0x40, 0, 0, 0x30, 0x40, 0, 0, 0, 1]);
    // the same with a wrong checksum
    bank.extend_from_slice(&[0, 0, 0x30, 0x40, 0, 0, 0x30, 0x41, 0, 0, 0, 1]);
    bank
}

fn resource() -> Resource {
    let mut resource = Resource::new(AssetPlatform::PC);
    resource.read_memlist(&memlist()).unwrap();
    resource.set_bank(1, bank_one());
    resource
}

#[test]
fn states_and_kinds_from_bytes() {
    assert_eq!(MemEntryState::from_u8(0), Ok(MemEntryState::NotNeeded));
    assert_eq!(MemEntryState::from_u8(1), Ok(MemEntryState::Loaded));
    assert_eq!(MemEntryState::from_u8(2), Ok(MemEntryState::LoadMe));
    assert_eq!(MemEntryState::from_u8(0xff), Ok(MemEntryState::EndOfMemList));
    assert_eq!(MemEntryState::from_u8(3), Err(Error::MemlistCorrupt));
    assert_eq!(EntryType::from_u8(0), EntryType::Sound);
    assert_eq!(EntryType::from_u8(1), EntryType::Music);
    assert_eq!(EntryType::from_u8(2), EntryType::PolyAnim);
    assert_eq!(EntryType::from_u8(3), EntryType::Palette);
    assert_eq!(EntryType::from_u8(4), EntryType::Bytecode);
    assert_eq!(EntryType::from_u8(5), EntryType::PolyCinematic);
    assert_eq!(EntryType::from_u8(6), EntryType::Unknown(6));
}

#[test]
fn parse_entries_reads_records() {
    let mut data = record(1, 4, 7, 3, 0x0102_0304, 0x0506, 0x0708);
    data.extend_from_slice(&record(0, 9, 0, 0, 0, 0, 0));
    data.push(0xff);
    let entries = parse_entries(&data, 0).unwrap();
    assert_eq!(entries.len(), 2);
    assert_eq!(
        entries[0],
        MemEntry {
            state: MemEntryState::Loaded,
            entry_type: EntryType::Bytecode,
            buf_ptr: 0x1234,
            unk4: 0xabcd,
            rank_num: 7,
            bank_id: 3,
            bank_offset: 0x0102_0304,
            unkc: 0x0c0d,
            packed_size: 0x0506,
            unk10: 0x1011,
            size: 0x0708,
        }
    );
    assert_eq!(entries[1].entry_type, EntryType::Unknown(9));
    assert_eq!(parse_entries(&data, 20).unwrap().len(), 1);
    assert!(parse_entries(&data, 40).unwrap().is_empty());
}

#[test]
fn parse_entries_rejects_corrupt_tables() {
    let mut data = record(1, 4, 7, 3, 0, 0, 0);
    assert_eq!(parse_entries(&data, 0), Err(Error::MemlistCorrupt));
    assert_eq!(parse_entries(&data, 20), Err(Error::MemlistCorrupt));
    data.push(7);
    assert_eq!(parse_entries(&data, 0), Err(Error::MemlistCorrupt));
    assert_eq!(parse_entries(&data[0..10], 0), Err(Error::MemlistCorrupt));
    let mut resource = Resource::new(AssetPlatform::PC);
    assert_eq!(resource.read_memlist(&data), Err(Error::MemlistCorrupt));
    assert!(resource.mem_list.is_empty());
}

#[test]
fn memlist_offset_in_an_executable() {
    let mut data = vec![0u8; 3000];
    for b in data[2950..2970].iter_mut() {
        *b = 0xff;
    }
    assert_eq!(Resource::find_memlist_offset(&data), Ok(30));
    for b in data[100..119].iter_mut() {
        *b = 0xff;
    }
    assert_eq!(Resource::find_memlist_offset(&data), Ok(30));
    data[119] = 0xff;
    assert_eq!(Resource::find_memlist_offset(&data), Err(Error::MemlistCorrupt));
    assert_eq!(Resource::find_memlist_offset(&vec![0u8; 5000]), Err(Error::MemlistCorrupt));
    assert_eq!(Resource::find_memlist_offset(&vec![0xffu8; 5000]), Err(Error::MemlistCorrupt));
    let mut long_run = vec![0u8; 2920];
    long_run.extend_from_slice(&[0xff; 40]);
    assert_eq!(Resource::find_memlist_offset(&long_run), Ok(0));
}

#[test]
fn memlist_of_an_executable() {
    let mut exe = vec![0x4eu8; 30];
    for i in 0..146u32 {
        exe.extend_from_slice(&record(0, (i % 6) as u8, i as u8, 1, i, 2, 2));
    }
    exe.extend_from_slice(&[0xff; 20]);
    exe.extend_from_slice(&[1, 2, 3]);
    let mut amiga = Resource::detect_platform(true, true);
    assert_eq!(amiga.asset_platform, AssetPlatform::Amiga);
    assert_eq!(amiga.read_memlist(&exe), Ok(()));
    assert_eq!(amiga.mem_list.len(), 146);
    assert_eq!(amiga.mem_list[145].rank_num, 145);
    assert_eq!(amiga.mem_list[7].bank_offset, 7);
    let mut atari = Resource::detect_platform(false, true);
    assert_eq!(atari.asset_platform, AssetPlatform::AtariST);
    assert_eq!(atari.read_memlist(&[0u8; 100]), Err(Error::MemlistCorrupt));
    assert!(atari.mem_list.is_empty());
    assert_eq!(Resource::detect_platform(false, false).asset_platform, AssetPlatform::PC);
}

#[test]
fn file_names() {
    assert_eq!(bank_file_name(AssetPlatform::PC, 0x0d), "Bank0d");
    assert_eq!(bank_file_name(AssetPlatform::Amiga, 0x0d), "bank0D");
    assert_eq!(bank_file_name(AssetPlatform::AtariST, 0x0d), "BANK0D");
    assert_eq!(bank_file_name(AssetPlatform::PC, 0x01), "Bank01");
    assert_eq!(bank_file_name(AssetPlatform::PC, 0xfe), "Bankfe");
    assert_eq!(bank_file_name(AssetPlatform::AtariST, 0xa9), "BANKA9");
    assert_eq!(memlist_file_name(AssetPlatform::PC), "Memlist.bin");
    assert_eq!(memlist_file_name(AssetPlatform::Amiga), "another");
    assert_eq!(memlist_file_name(AssetPlatform::AtariST), "START.PRG");
}

#[test]
fn parts_of_the_game() {
    assert_eq!(game_part(1), Ok(0x3e80));
    assert_eq!(game_part(2), Ok(0x3e81));
    assert_eq!(game_part(10), Ok(0x3e89));
    assert_eq!(game_part(0), Err(Error::InvalidPart));
    assert_eq!(game_part(11), Err(Error::InvalidPart));
    let intro = part(0x3e81).unwrap();
    assert_eq!((intro.palette, intro.code, intro.video1, intro.video2), (0x17, 0x18, 0x19, None));
    let third = part(0x3e82).unwrap();
    assert_eq!((third.palette, third.code, third.video1, third.video2), (0x1a, 0x1b, 0x1c, Some(0x11)));
    let last = part(0x3e89).unwrap();
    assert_eq!((last.palette, last.code, last.video1, last.video2), (0x7d, 0x7e, 0x7f, None));
    assert!(part(0x3e7f).is_none());
    assert!(part(0x3e8a).is_none());
}

#[test]
fn new_resource_is_empty() {
    let resource = Resource::new(AssetPlatform::Amiga);
    assert_eq!(resource.memory.len(), 600 * 1024);
    assert!(resource.memory.iter().all(|b| *b == 0));
    assert_eq!(resource.vid_cur_ptr, 600 * 1024 - 32 * 1024);
    assert_eq!(resource.vid_bak_ptr, VIDEO_REGION_START);
    assert_eq!(resource.script_cur_ptr, 0);
    assert_eq!(resource.current_part_id, 0);
    assert!(!resource.copy_vid_ptr);
    assert!(resource.banks.iter().all(|b| b.is_none()));
    assert_eq!(MEM_BLOCK_SIZE, 614400);
}

#[test]
fn setup_part_loads_by_rank() {
    let mut resource = resource();
    let loaded = resource.setup_part(0x3e81).unwrap();
    assert_eq!(loaded, vec![0x19, 0x18, 0x17]);
    assert_eq!(resource.current_part_id, 0x3e81);
    assert_eq!(resource.seg_cinematic, 0);
    assert_eq!(resource.seg_bytecode, 2);
    assert_eq!(resource.seg_palettes, 8);
    assert_eq!(resource.script_cur_ptr, 12);
    assert_eq!(resource.script_bak_ptr, 12);
    assert_eq!(&resource.memory[0..13], &[0xc0, 0xc1, 0xb0, 0xb1, 0xb2, 0xb3, 0xb4, 0xb5, 0xa0, 0xa1, 0xa2, 0xa3, 0]);
    for (i, e) in resource.mem_list.iter().enumerate() {
        if i == 0x17 || i == 0x18 || i == 0x19 {
            assert_eq!(e.state, MemEntryState::Loaded);
        } else {
            assert_eq!(e.state, MemEntryState::NotNeeded);
        }
    }
    assert_eq!(resource.mem_list[0x18].buf_ptr, 2);
    let sum: usize = resource
        .mem_list
        .iter()
        .filter(|e| e.state == MemEntryState::Loaded && e.entry_type != EntryType::PolyAnim)
        .map(|e| e.size)
        .sum();
    assert_eq!(resource.script_cur_ptr, sum);
    assert!(resource.script_cur_ptr <= resource.vid_bak_ptr);
    assert_eq!(resource.read_byte(2), 0xb0);
    assert_eq!(resource.read_word(2), 0xb0b1);
}

#[test]
fn setup_part_again_changes_nothing() {
    let mut resource = resource();
    resource.setup_part(0x3e81).unwrap();
    resource.memory[0] = 0x77;
    assert_eq!(resource.setup_part(0x3e81), Ok(Vec::new()));
    assert_eq!(resource.memory[0], 0x77);
    // an id that is no part is refused even when it is the current one
    let mut fresh = Resource::new(AssetPlatform::PC);
    assert_eq!(fresh.current_part_id, 0);
    assert_eq!(fresh.setup_part(0), Err(Error::InvalidPart));
    assert_eq!(fresh.current_part_id, 0);
    let mut odd = Resource::new(AssetPlatform::PC);
    odd.read_memlist(&memlist()).unwrap();
    odd.set_bank(1, bank_one());
    odd.current_part_id = 0x1234;
    let before = odd.mem_list.clone();
    assert_eq!(odd.setup_part(0x1234), Err(Error::InvalidPart));
    assert_eq!(odd.mem_list, before);
    assert_eq!((odd.current_part_id, odd.script_cur_ptr, odd.seg_bytecode), (0x1234, 0, 0));
    assert!(odd.memory.iter().all(|b| *b == 0));
}

#[test]
fn setup_part_rejects_unknown_parts() {
    let mut resource = resource();
    assert_eq!(resource.setup_part(0x3e7f), Err(Error::InvalidPart));
    assert_eq!(resource.setup_part(0x3e8a), Err(Error::InvalidPart));
    assert_eq!(resource.setup_part(1), Err(Error::InvalidPart));
    assert_eq!(resource.current_part_id, 0);
    let mut short = Resource::new(AssetPlatform::PC);
    let mut table = record(0, 0, 0, 0, 0, 0, 0);
    table.push(0xff);
    short.read_memlist(&table).unwrap();
    assert_eq!(short.setup_part(0x3e81), Err(Error::MemlistCorrupt));
    assert_eq!(short.mem_list[0].state, MemEntryState::NotNeeded);
}

#[test]
fn setup_part_needs_the_bank() {
    let mut resource = Resource::new(AssetPlatform::PC);
    resource.read_memlist(&memlist()).unwrap();
    assert_eq!(resource.setup_part(0x3e81), Err(Error::AssetNotFound));
    assert_eq!(resource.current_part_id, 0);
    assert!(resource.memory.iter().all(|b| *b == 0));
    resource.set_bank(1, vec![1, 2, 3]);
    assert_eq!(resource.setup_part(0x3e81), Err(Error::BankCorrupt));
}

#[test]
fn load_memory_entry_loads_once() {
    let mut resource = resource();
    resource.setup_part(0x3e81).unwrap();
    assert_eq!(resource.load_memory_entry(0x31), Ok(vec![0x31]));
    assert_eq!(resource.mem_list[0x31].state, MemEntryState::Loaded);
    assert_eq!(resource.mem_list[0x31].buf_ptr, 12);
    assert_eq!(resource.memory[12], 0x41);
    assert_eq!(resource.script_cur_ptr, 13);
    assert_eq!(resource.script_bak_ptr, 12);
    assert_eq!(resource.load_memory_entry(0x31), Ok(Vec::new()));
    assert_eq!(resource.script_cur_ptr, 13);
    assert_eq!(resource.load_memory_entry(0x1000), Ok(Vec::new()));
}

#[test]
fn load_refuses_what_does_not_fit() {
    let mut resource = resource();
    resource.script_cur_ptr = VIDEO_REGION_START - 3;
    assert_eq!(resource.load_memory_entry(0x17), Ok(Vec::new()));
    assert_eq!(resource.mem_list[0x17].state, MemEntryState::NotNeeded);
    assert_eq!(resource.script_cur_ptr, VIDEO_REGION_START - 3);
    resource.script_cur_ptr = VIDEO_REGION_START - 4;
    assert_eq!(resource.load_memory_entry(0x17), Ok(vec![0x17]));
    assert_eq!(resource.script_cur_ptr, VIDEO_REGION_START);
    assert_eq!(resource.mem_list[0x17].buf_ptr, VIDEO_REGION_START - 4);
}

#[test]
fn load_passes_over_bank_zero() {
    let mut resource = resource();
    assert_eq!(resource.load_memory_entry(0x32), Ok(Vec::new()));
    assert_eq!(resource.mem_list[0x32].state, MemEntryState::NotNeeded);
    assert_eq!(resource.script_cur_ptr, 0);
}

#[test]
fn load_reports_missing_and_corrupt_banks() {
    let mut resource = resource();
    assert_eq!(resource.load_memory_entry(0x33), Err(Error::AssetNotFound));
    assert_eq!(resource.mem_list[0x33].state, MemEntryState::LoadMe);
    resource.mem_list[0x33].state = MemEntryState::NotNeeded;
    assert_eq!(resource.load_memory_entry(0x34), Err(Error::BankCorrupt));
    assert!(resource.memory.iter().all(|b| *b == 0));
}

#[test]
fn crc_failure() {
    let mut resource = resource();
    resource.setup_part(0x3e81).unwrap();
    let before = resource.memory.clone();
    assert_eq!(resource.load_memory_entry(0x35), Err(Error::ChecksumMismatch));
    assert_eq!(resource.memory, before);
    assert_eq!(resource.script_cur_ptr, 12);
    assert_eq!(resource.mem_list[0x35].state, MemEntryState::LoadMe);
    // a part whose bytecode is corrupt is not set up
    let mut table = memlist();
    let corrupt = record(0, 4, 9, 1, 24, 12, 1);
    table[0x18 * 20..0x19 * 20].copy_from_slice(&corrupt);
    let mut broken = Resource::new(AssetPlatform::PC);
    broken.read_memlist(&table).unwrap();
    broken.set_bank(1, bank_one());
    assert_eq!(broken.setup_part(0x3e81), Err(Error::ChecksumMismatch));
    assert!(broken.memory.iter().all(|b| *b == 0));
    assert_eq!(broken.current_part_id, 0);
    assert_eq!(broken.script_cur_ptr, 0);
}

#[test]
fn load_in_order_of_rank_with_ties() {
    let mut table = Vec::new();
    let ranks = [2u8, 5, 5, 0, 7, 5];
    for r in ranks.iter() {
        table.extend_from_slice(&record(2, 0, *r, 1, 0, 2, 2));
    }
    table.push(0xff);
    let mut resource = Resource::new(AssetPlatform::PC);
    resource.read_memlist(&table).unwrap();
    resource.set_bank(1, bank_one());
    assert_eq!(resource.find_next_load(), Some(4));
    assert_eq!(resource.load_marked_as_needed(), Ok(vec![4, 5, 2, 1, 0, 3]));
    assert_eq!(resource.find_next_load(), None);
    assert_eq!(resource.mem_list[4].buf_ptr, 0);
    assert_eq!(resource.mem_list[3].buf_ptr, 10);
    assert_eq!(resource.script_cur_ptr, 12);
}

#[test]
fn backgrounds_go_to_their_region() {
    let mut resource = resource();
    resource.setup_part(0x3e81).unwrap();
    assert_eq!(resource.load_memory_entry(0x30), Ok(vec![0x30]));
    assert!(resource.copy_vid_ptr);
    assert_eq!(resource.mem_list[0x30].state, MemEntryState::NotNeeded);
    assert_eq!(resource.script_cur_ptr, 12);
    assert_eq!(&resource.memory[VIDEO_REGION_START..VIDEO_REGION_START + 4], &[0xa0, 0xa1, 0xa2, 0xa3]);
}

#[test]
fn invalidate_resource_frees_what_came_after_the_part() {
    let mut resource = resource();
    resource.setup_part(0x3e81).unwrap();
    resource.load_memory_entry(0x31).unwrap();
    resource.load_memory_entry(0x36).unwrap();
    assert_eq!(resource.mem_list[0x36].state, MemEntryState::Loaded);
    assert_eq!(resource.script_cur_ptr, 15);
    resource.invalidate_resource();
    assert_eq!(resource.script_cur_ptr, 12);
    assert_eq!(resource.mem_list[0x36].state, MemEntryState::NotNeeded);
    assert_eq!(resource.mem_list[0x31].state, MemEntryState::Loaded);
    assert_eq!(resource.mem_list[0x18].state, MemEntryState::Loaded);
    resource.invalidate_all();
    assert!(resource.mem_list.iter().all(|e| e.state == MemEntryState::NotNeeded));
    assert_eq!(resource.script_cur_ptr, 0);
}

#[test]
fn video_page_data_of_bit_planes() {
    let mut pc = Resource::new(AssetPlatform::PC);
    let v = VIDEO_REGION_START;
    pc.memory[v] = 0x80;
    pc.memory[v + 8000] = 0xc0;
    pc.memory[v + 16000] = 0x20;
    pc.memory[v + 24000] = 0x01;
    pc.memory[v + 7999] = 0x01;
    let page = pc.video_page_data();
    assert_eq!(page.len(), 64000);
    assert_eq!(&page[0..8], &[3, 2, 4, 0, 0, 0, 0, 8]);
    assert_eq!(page[63999], 1);
    assert_eq!(page[63998], 0);
    let mut atari = Resource::new(AssetPlatform::AtariST);
    atari.memory[v] = 0x80;
    atari.memory[v + 2] = 0x80;
    atari.memory[v + 4] = 0x40;
    atari.memory[v + 6] = 0x40;
    atari.memory[v + 1] = 0x80;
    atari.memory[v + 8] = 0x01;
    atari.memory[v + 15] = 0x01;
    let page = atari.video_page_data();
    assert_eq!(&page[0..3], &[3, 12, 0]);
    assert_eq!(page[8], 1);
    assert_eq!(page[23], 1);
    assert_eq!(page[31], 8);
}

#[test]
fn mixer_chunk_of_a_sound() {
    let mut resource = resource();
    resource.setup_part(0x3e81).unwrap();
    assert!(resource.get_entry_mixer_chunk(0x31).is_none());
    let base = 100;
    resource.memory[base..base + 14].copy_from_slice(&[0, 2, 0, 1, 0, 0, 0, 0, 1, 2, 3, 4, 5, 6]);
    resource.mem_list[0x31].state = MemEntryState::Loaded;
    resource.mem_list[0x31].buf_ptr = base;
    let chunk = resource.get_entry_mixer_chunk(0x31).unwrap();
    assert_eq!(chunk.len, 4);
    assert_eq!(chunk.loop_len, 2);
    assert_eq!(chunk.loop_pos, 4);
    assert_eq!(chunk.data, vec![1, 2, 3, 4, 5, 6]);
    resource.memory[base + 2] = 0;
    resource.memory[base + 3] = 0;
    let once = resource.get_entry_mixer_chunk(0x31).unwrap();
    assert_eq!((once.len, once.loop_len, once.loop_pos), (4, 0, 0));
    assert_eq!(once.data, vec![1, 2, 3, 4]);
    assert!(resource.get_entry_mixer_chunk(0x1000).is_none());
    resource.mem_list[0x31].buf_ptr = MEM_BLOCK_SIZE - 7;
    assert!(resource.get_entry_mixer_chunk(0x31).is_none());
}

fn with_music() -> Resource {
    let mut resource = resource();
    let sound = 1000;
    resource.memory[sound..sound + 14].copy_from_slice(&[0, 2, 0, 1, 9, 9, 9, 9, 7, 7, 7, 7, 5, 6]);
    resource.mem_list[0x31].state = MemEntryState::Loaded;
    resource.mem_list[0x31].buf_ptr = sound;
    resource.mem_list[0x31].size = 14;
    let music = 2000;
    resource.mem_list[0x40].state = MemEntryState::Loaded;
    resource.mem_list[0x40].entry_type = EntryType::Music;
    resource.mem_list[0x40].buf_ptr = music;
    resource.mem_list[0x40].size = 0xc0 + 1024;
    resource.memory[music] = 0x12;
    resource.memory[music + 1] = 0x34;
    // the first instrument is sound 0x31 at volume 0x20
    resource.memory[music + 2..music + 6].copy_from_slice(&[0x00, 0x31, 0x00, 0x20]);
    resource.memory[music + 0x3e] = 0x01;
    resource.memory[music + 0x3f] = 0x05;
    resource.memory[music + 0x40] = 0x00;
    resource.memory[music + 0x41] = 0x03;
    resource.memory[music + 0xc0] = 0xff;
    resource.memory[music + 0xc1] = 0xfd;
    resource
}

#[test]
fn sfx_module_of_a_music_resource() {
    let resource = with_music();
    let mut delay = 0u16;
    let module = resource.load_sfx_module(0x40, &mut delay, 3).unwrap().unwrap();
    assert_eq!(delay, 0x1234);
    assert_eq!(module.cur_order, 3);
    assert_eq!(module.num_order, 5);
    assert_eq!(module.cur_pos, 0);
    assert_eq!(module.order_table[1], 3);
    assert_eq!(module.data.len(), 1024);
    assert_eq!(&module.data[0..2], &[0xff, 0xfd]);
    assert_eq!(module.samples.len(), 15);
    let first = module.samples[0].as_ref().unwrap();
    assert_eq!(first.volume, 0x20);
    assert_eq!(first.data, vec![0, 2, 0, 1, 9, 9, 9, 9, 0, 0, 0, 0, 5, 6]);
    assert!(module.samples[1..].iter().all(|s| s.is_none()));
    let mut delay = 77u16;
    assert!(resource.load_sfx_module(0x40, &mut delay, 0).unwrap().is_some());
    assert_eq!(delay, 77);
    assert!(resource.load_sfx_module(0x31, &mut delay, 0).unwrap().is_none());
    assert!(resource.load_sfx_module(0x41, &mut delay, 0).unwrap().is_none());
    assert!(resource.load_sfx_module(0x1000, &mut delay, 0).unwrap().is_none());
}

#[test]
fn sfx_module_needs_its_instruments() {
    let mut resource = with_music();
    resource.mem_list[0x31].state = MemEntryState::NotNeeded;
    let mut delay = 0u16;
    assert!(matches!(resource.load_sfx_module(0x40, &mut delay, 0), Err(Error::BankCorrupt)));
    assert_eq!(delay, 0);
    resource.mem_list[0x31].state = MemEntryState::Loaded;
    resource.mem_list[0x40].size = 0xbf;
    assert!(matches!(resource.load_sfx_module(0x40, &mut delay, 0), Err(Error::BankCorrupt)));
    resource.mem_list[0x40].size = 0xc0;
    assert_eq!(resource.load_sfx_module(0x40, &mut delay, 0).unwrap().unwrap().data.len(), 0);
    assert!(matches!(resource.prepare_instrument(2002), Ok(Some(_))));
    assert!(matches!(resource.prepare_instrument(2006), Ok(None)));
}

#[test]
fn read_bank_takes_the_bytes_of_an_entry() {
    let bank = [1u8, 2, 3, 4, 5];
    let mut table = record(2, 0, 0, 1, 1, 3, 3);
    table.push(0xff);
    let entry = parse_entries(&table, 0).unwrap()[0];
    match Resource::read_bank(&bank, &entry) {
        Ok(b) => assert_eq!(b.data(), Ok(vec![2, 3, 4])),
        Err(e) => panic!("{:?}", e),
    }
    let beyond = MemEntry { bank_offset: 3, ..entry };
    assert!(matches!(Resource::read_bank(&bank, &beyond), Err(Error::BankCorrupt)));
    let packed = MemEntry { bank_offset: 0, packed_size: 5, size: 9, ..entry };
    assert!(matches!(Resource::read_bank(&bank, &packed), Ok(anotherworld::bank::Bank::Compressed(_))));
}

#[test]
fn loaded_entries_lie_apart_in_the_order_of_loading() {
    let mut resource = resource();
    resource.setup_part(0x3e81).unwrap();
    let loaded: Vec<usize> =
        (0..resource.mem_list.len()).filter(|i| resource.mem_list[*i].state == MemEntryState::Loaded).collect();
    assert_eq!(loaded, vec![0x17, 0x18, 0x19]);
    for i in loaded.iter() {
        let a = resource.mem_list[*i];
        assert!(a.buf_ptr + a.size <= resource.script_cur_ptr);
        for j in loaded.iter() {
            let b = resource.mem_list[*j];
            if a.rank_num > b.rank_num || (a.rank_num == b.rank_num && i > j) {
                assert!(a.buf_ptr + a.size <= b.buf_ptr);
                assert!(a.buf_ptr < b.buf_ptr);
            }
        }
    }
}
