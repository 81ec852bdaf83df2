use crate::bank::bytes_result;
use crate::bank::spec_unpack;
use crate::bank::Bank;
use crate::buffer::long_at;
use crate::buffer::spec_long_at;
use crate::buffer::spec_word_at;
use crate::buffer::word_at;
use crate::error::Error;
use crate::mixer::spec_chunk;
use crate::mixer::MixerChunk;
use crate::mixer::MixerChunkView;
use crate::sfxplayer::instrument_view;
use crate::sfxplayer::InstrumentView;
use crate::sfxplayer::SfxInstrument;
use crate::sfxplayer::SfxModule;
use crate::sfxplayer::SfxModuleView;
use crate::sfxplayer::ORDER_TABLE_SIZE;
use crate::parts::part;
use crate::parts::spec_is_part;
use crate::parts::spec_part;
use vstd::prelude::*;
use vstd::slice::slice_subrange;
use vstd::slice::slice_to_vec;
use vstd::string::StringExecFns;

verus! {

/// Size of the arena that resources are loaded into.
pub const MEM_BLOCK_SIZE: usize = 600 * 1024;

/// Size of the region at the end of the arena that holds a background.
pub const VIDEO_REGION: usize = 0x800 * 16;

/// Where the region for backgrounds starts.
pub const VIDEO_REGION_START: usize = 600 * 1024 - 0x800 * 16;

/// Size of a record of the resource table.
pub const MEMLIST_ENTRY_SIZE: usize = 20;

/// The state byte that ends the resource table.
pub const MEMLIST_END: u8 = 0xff;

/// Banks have ids below this.
pub const NUM_BANKS: usize = 0x100;

/// How far the start of the resource table lies before the last byte of
/// the run of 0xff bytes that ends it in an executable.
pub const MEMLIST_BACK: usize = 2939;

/// Length of the run of 0xff bytes that ends the resource table.
pub const MEMLIST_RUN: usize = 20;

/// The machine that the assets were made for.
#[derive(Copy, Clone, Debug, PartialEq, Eq, Structural)]
pub enum AssetPlatform {
    PC,
    Amiga,
    AtariST,
}

/// The state of a resource.
#[derive(Copy, Clone, Debug, PartialEq, Eq, Structural)]
pub enum MemEntryState {
    NotNeeded,
    Loaded,
    LoadMe,
    EndOfMemList,
}

/// The state that a state byte of the resource table stands for.
pub open spec fn spec_state_from_u8(val: u8) -> Result<MemEntryState, Error> {
    if val == 0 {
        Ok(MemEntryState::NotNeeded)
    } else if val == 1 {
        Ok(MemEntryState::Loaded)
    } else if val == 2 {
        Ok(MemEntryState::LoadMe)
    } else if val == MEMLIST_END {
        Ok(MemEntryState::EndOfMemList)
    } else {
        Err(Error::MemlistCorrupt)
    }
}

impl MemEntryState {
    /// The state that a state byte of the resource table stands for. A
    /// byte that stands for no state makes the table corrupt.
    pub fn from_u8(val: u8) -> (r: Result<MemEntryState, Error>)
        ensures
            r == spec_state_from_u8(val),
    {
        if val == 0 {
            Ok(MemEntryState::NotNeeded)
        } else if val == 1 {
            Ok(MemEntryState::Loaded)
        } else if val == 2 {
            Ok(MemEntryState::LoadMe)
        } else if val == MEMLIST_END {
            Ok(MemEntryState::EndOfMemList)
        } else {
            Err(Error::MemlistCorrupt)
        }
    }
}

/// The kind of a resource.
#[derive(Copy, Clone, Debug, PartialEq, Eq, Structural)]
pub enum EntryType {
    Sound,
    Music,
    PolyAnim,
    Palette,
    Bytecode,
    PolyCinematic,
    Unknown(u8),
}

/// The kind that a type byte of the resource table stands for.
pub open spec fn spec_type_from_u8(val: u8) -> EntryType {
    if val == 0 {
        EntryType::Sound
    } else if val == 1 {
        EntryType::Music
    } else if val == 2 {
        EntryType::PolyAnim
    } else if val == 3 {
        EntryType::Palette
    } else if val == 4 {
        EntryType::Bytecode
    } else if val == 5 {
        EntryType::PolyCinematic
    } else {
        EntryType::Unknown(val)
    }
}

impl EntryType {
    /// The kind that a type byte of the resource table stands for.
    pub fn from_u8(val: u8) -> (r: EntryType)
        ensures
            r == spec_type_from_u8(val),
    {
        if val == 0 {
            EntryType::Sound
        } else if val == 1 {
            EntryType::Music
        } else if val == 2 {
            EntryType::PolyAnim
        } else if val == 3 {
            EntryType::Palette
        } else if val == 4 {
            EntryType::Bytecode
        } else if val == 5 {
            EntryType::PolyCinematic
        } else {
            EntryType::Unknown(val)
        }
    }
}

/// One resource of the resource table: its state and kind, where it is
/// in the arena once loaded, its rank in the order of loading, and where
/// it is in which bank, packed to which size from which size.
#[derive(Copy, Clone, Debug, PartialEq, Eq, Structural)]
pub struct MemEntry {
    pub state: MemEntryState,
    pub entry_type: EntryType,
    pub buf_ptr: usize,
    pub unk4: u16,
    pub rank_num: u8,
    pub bank_id: u8,
    pub bank_offset: u32,
    pub unkc: u16,
    pub packed_size: usize,
    pub unk10: u16,
    pub size: usize,
}

/// The record of the resource table that starts at `pos` in `data`, with
/// the state `state`.
pub open spec fn spec_entry_at(data: Seq<u8>, pos: int, state: MemEntryState) -> MemEntry {
    MemEntry {
        state,
        entry_type: spec_type_from_u8(data[pos + 1]),
        buf_ptr: spec_word_at(data, pos + 2) as usize,
        unk4: spec_word_at(data, pos + 4),
        rank_num: data[pos + 6],
        bank_id: data[pos + 7],
        bank_offset: spec_long_at(data, pos + 8),
        unkc: spec_word_at(data, pos + 12),
        packed_size: spec_word_at(data, pos + 14) as usize,
        unk10: spec_word_at(data, pos + 16),
        size: spec_word_at(data, pos + 18) as usize,
    }
}

/// The records of the resource table from `pos` on, up to the record
/// whose state byte is 0xff. A table that ends before that record, or a
/// state byte that stands for no state, makes the table corrupt.
pub open spec fn spec_read_entries(data: Seq<u8>, pos: int) -> Result<Seq<MemEntry>, Error>
    decreases data.len() - pos,
{
    if pos < 0 || pos >= data.len() {
        Err(Error::MemlistCorrupt)
    } else {
        match spec_state_from_u8(data[pos]) {
            Err(e) => Err(e),
            Ok(MemEntryState::EndOfMemList) => Ok(Seq::empty()),
            Ok(state) => if pos + MEMLIST_ENTRY_SIZE > data.len() {
                Err(Error::MemlistCorrupt)
            } else {
                match spec_read_entries(data, pos + MEMLIST_ENTRY_SIZE) {
                    Err(e) => Err(e),
                    Ok(rest) => Ok(seq![spec_entry_at(data, pos, state)] + rest),
                }
            },
        }
    }
}

/// Whether a run of twenty 0xff bytes ends at index `e` of `data`.
pub open spec fn spec_is_run_end(data: Seq<u8>, e: int) -> bool {
    MEMLIST_RUN - 1 <= e < data.len() && forall|k: int| e - MEMLIST_RUN < k <= e ==> #[trigger] data[k] == MEMLIST_END
}

/// Whether `e` is where the first run of twenty 0xff bytes of `data` ends.
pub open spec fn spec_is_first_run_end(data: Seq<u8>, e: int) -> bool {
    spec_is_run_end(data, e) && forall|f: int| 0 <= f < e ==> !spec_is_run_end(data, f)
}

/// The name of the file that holds the resource table.
pub fn memlist_file_name(asset_platform: AssetPlatform) -> (r: &'static str)
    ensures
        r == match asset_platform {
            AssetPlatform::PC => "Memlist.bin",
            AssetPlatform::Amiga => "another",
            AssetPlatform::AtariST => "START.PRG",
        },
{
    match asset_platform {
        AssetPlatform::PC => "Memlist.bin",
        AssetPlatform::Amiga => "another",
        AssetPlatform::AtariST => "START.PRG",
    }
}

/// The hexadecimal digits in lower case.
pub const HEX_DIGITS_LOWER: [&'static str; 16] = [
    "0", "1", "2", "3", "4", "5", "6", "7", "8", "9", "a", "b", "c", "d", "e", "f",
];

/// The hexadecimal digits in upper case.
pub const HEX_DIGITS_UPPER: [&'static str; 16] = [
    "0", "1", "2", "3", "4", "5", "6", "7", "8", "9", "A", "B", "C", "D", "E", "F",
];

/// The hexadecimal digit of the low four bits of a number.
pub open spec fn spec_hex_digit(d: u8, upper: bool) -> &'static str {
    if upper {
        HEX_DIGITS_UPPER[(d % 16) as int]
    } else {
        HEX_DIGITS_LOWER[(d % 16) as int]
    }
}

/// The hexadecimal digit of the low four bits of a number.
pub fn hex_digit(d: u8, upper: bool) -> (r: &'static str)
    ensures
        r == spec_hex_digit(d, upper),
{
    if upper {
        HEX_DIGITS_UPPER[(d % 16) as usize]
    } else {
        HEX_DIGITS_LOWER[(d % 16) as usize]
    }
}

/// What the names of the bank files start with.
pub open spec fn spec_bank_prefix(asset_platform: AssetPlatform) -> &'static str {
    match asset_platform {
        AssetPlatform::PC => "Bank",
        AssetPlatform::Amiga => "bank",
        AssetPlatform::AtariST => "BANK",
    }
}

/// The name of the file of a bank: a prefix and the id in two
/// hexadecimal digits, in lower case for the PC and in upper case else.
pub fn bank_file_name(asset_platform: AssetPlatform, bank_id: u8) -> (r: String)
    ensures
        r@ == spec_bank_prefix(asset_platform)@ + spec_hex_digit(bank_id / 16, asset_platform != AssetPlatform::PC)@
            + spec_hex_digit(bank_id % 16, asset_platform != AssetPlatform::PC)@,
{
    let upper = match asset_platform {
        AssetPlatform::PC => false,
        _ => true,
    };
    let prefix = match asset_platform {
        AssetPlatform::PC => "Bank",
        AssetPlatform::Amiga => "bank",
        AssetPlatform::AtariST => "BANK",
    };
    let mut name = String::from_str(prefix);
    name.append(hex_digit(bank_id / 16, upper));
    name.append(hex_digit(bank_id % 16, upper));
    name
}

/// What a bank holds for a resource: the bytes at the offset of the
/// resource, unpacked if the packed size is not the size. A resource
/// that does not lie in the bank makes the bank corrupt.
pub open spec fn spec_read_bank(bank: Seq<u8>, entry: MemEntry) -> Result<Seq<u8>, Error> {
    if entry.bank_offset + entry.packed_size > bank.len() {
        Err(Error::BankCorrupt)
    } else {
        let raw = bank.subrange(entry.bank_offset as int, entry.bank_offset + entry.packed_size);
        if entry.packed_size == entry.size {
            Ok(raw)
        } else {
            spec_unpack(raw)
        }
    }
}

/// The bytes of a resource in a bank, as they are kept.
pub open spec fn spec_bank_entry(bank: Bank) -> (bool, Seq<u8>) {
    match bank {
        Bank::Uncompressed(d) => (false, d@),
        Bank::Compressed(d) => (true, d@),
    }
}

/// Reads one record of the resource table.
pub fn read_entry(data: &[u8], pos: usize, state: MemEntryState) -> (r: MemEntry)
    requires
        pos + MEMLIST_ENTRY_SIZE <= data@.len(),
    ensures
        r == spec_entry_at(data@, pos as int, state),
{
    let n = data.len();
    MemEntry {
        state,
        entry_type: EntryType::from_u8(data[pos + 1]),
        buf_ptr: word_at(data, pos + 2) as usize,
        unk4: word_at(data, pos + 4),
        rank_num: data[pos + 6],
        bank_id: data[pos + 7],
        bank_offset: long_at(data, pos + 8),
        unkc: word_at(data, pos + 12),
        packed_size: word_at(data, pos + 14) as usize,
        unk10: word_at(data, pos + 16),
        size: word_at(data, pos + 18) as usize,
    }
}

/// Reads the records of a resource table from `start` on.
pub fn parse_entries(data: &[u8], start: usize) -> (r: Result<Vec<MemEntry>, Error>)
    ensures
        match spec_read_entries(data@, start as int) {
            Ok(entries) => r is Ok && r->Ok_0@ == entries,
            Err(e) => r == Err::<Vec<MemEntry>, Error>(e),
        },
{
    let n = data.len();
    let mut entries: Vec<MemEntry> = Vec::new();
    let mut pos: usize = start;
    let ghost goal = spec_read_entries(data@, start as int);
    loop
        invariant
            n == data@.len(),
            goal == spec_read_entries(data@, start as int),
            goal == match spec_read_entries(data@, pos as int) {
                Ok(rest) => Ok(entries@ + rest),
                Err(e) => Err(e),
            },
        decreases n - pos,
    {
        if pos >= n {
            return Err(Error::MemlistCorrupt);
        }
        let state = match MemEntryState::from_u8(data[pos]) {
            Ok(state) => state,
            Err(e) => {
                return Err(e);
            },
        };
        if let MemEntryState::EndOfMemList = state {
            assert(entries@ + Seq::<MemEntry>::empty() =~= entries@);
            return Ok(entries);
        }
        if n - pos < MEMLIST_ENTRY_SIZE {
            return Err(Error::MemlistCorrupt);
        }
        let ghost before = entries@;
        let entry = read_entry(data, pos, state);
        entries.push(entry);
        proof {
            let rest = spec_read_entries(data@, pos + MEMLIST_ENTRY_SIZE);
            if rest is Ok {
                assert(before + (seq![entry] + rest->Ok_0) =~= entries@ + rest->Ok_0);
            }
        }
        pos = pos + MEMLIST_ENTRY_SIZE;
    }
}

/// The resource manager: the resource table, the arena with its two
/// cursors and the region for backgrounds, the contents of the banks,
/// and where the resources of the current part lie in the arena.
pub struct Resource {
    pub mem_list: Vec<MemEntry>,
    pub memory: Vec<u8>,
    pub banks: Vec<Option<Vec<u8>>>,
    pub current_part_id: u16,
    pub script_bak_ptr: usize,
    pub script_cur_ptr: usize,
    pub vid_bak_ptr: usize,
    pub vid_cur_ptr: usize,
    pub seg_palettes: usize,
    pub seg_bytecode: usize,
    pub seg_cinematic: usize,
    pub seg_video2: usize,
    pub copy_vid_ptr: bool,
    pub asset_platform: AssetPlatform,
}

/// A resource manager as mathematical values.
#[verifier::ext_equal]
pub struct ResourceView {
    pub mem_list: Seq<MemEntry>,
    pub memory: Seq<u8>,
    pub banks: Seq<Option<Seq<u8>>>,
    pub current_part_id: u16,
    pub script_bak_ptr: usize,
    pub script_cur_ptr: usize,
    pub vid_bak_ptr: usize,
    pub vid_cur_ptr: usize,
    pub seg_palettes: usize,
    pub seg_bytecode: usize,
    pub seg_cinematic: usize,
    pub seg_video2: usize,
    pub copy_vid_ptr: bool,
    pub asset_platform: AssetPlatform,
}

/// The contents of a bank, as mathematical values.
pub open spec fn bank_view(b: Option<Vec<u8>>) -> Option<Seq<u8>> {
    match b {
        Some(d) => Some(d@),
        None => None,
    }
}

/// An entry with another state.
pub open spec fn spec_with_state(e: MemEntry, state: MemEntryState) -> MemEntry {
    MemEntry { state, ..e }
}

/// Whether entry `i` is loaded before entry `j` when both are to load:
/// the higher rank first, and of two of one rank the later in the table.
pub open spec fn spec_loads_before(mem_list: Seq<MemEntry>, i: int, j: int) -> bool {
    mem_list[i].rank_num > mem_list[j].rank_num || (mem_list[i].rank_num == mem_list[j].rank_num && i > j)
}

/// The entry to load first among the first `k` entries, or -1 if none
/// of them is to load.
pub open spec fn spec_next_load(mem_list: Seq<MemEntry>, k: nat) -> int
    decreases k,
{
    if k == 0 {
        -1
    } else {
        let prev = spec_next_load(mem_list, (k - 1) as nat);
        if mem_list[k - 1].state == MemEntryState::LoadMe && (prev < 0 || mem_list[k - 1].rank_num
            >= mem_list[prev].rank_num) {
            k - 1
        } else {
            prev
        }
    }
}

/// How many of the first `k` entries are to load.
pub open spec fn spec_count_load_me(mem_list: Seq<MemEntry>, k: nat) -> nat
    decreases k,
{
    if k == 0 {
        0
    } else {
        spec_count_load_me(mem_list, (k - 1) as nat) + if mem_list[k - 1].state == MemEntryState::LoadMe {
            1nat
        } else {
            0nat
        }
    }
}

/// What an entry takes of the arena below the region for backgrounds:
/// its size if it is loaded and no background, else nothing.
pub open spec fn spec_arena_share(e: MemEntry) -> int {
    if e.state == MemEntryState::Loaded && e.entry_type != EntryType::PolyAnim {
        e.size as int
    } else {
        0
    }
}

/// The sizes of the loaded entries that are no backgrounds, among the
/// first `k` entries, summed.
pub open spec fn spec_loaded_size(mem_list: Seq<MemEntry>, k: nat) -> int
    decreases k,
{
    if k == 0 {
        0
    } else {
        spec_loaded_size(mem_list, (k - 1) as nat) + spec_arena_share(mem_list[k - 1])
    }
}

/// What loading the marked entries came to: the resource manager after
/// it, the entries loaded, in order, and the error that ended it.
#[verifier::ext_equal]
pub struct LoadRun {
    pub view: ResourceView,
    pub loaded: Seq<int>,
    pub error: Option<Error>,
}

impl ResourceView {
    /// An arena of `MEM_BLOCK_SIZE` bytes with the region for backgrounds
    /// at its end, a slot for each bank, and cursors below that region.
    pub open spec fn wf(self) -> bool {
        &&& self.memory.len() == MEM_BLOCK_SIZE
        &&& self.banks.len() == NUM_BANKS
        &&& self.vid_bak_ptr == VIDEO_REGION_START
        &&& self.vid_cur_ptr == VIDEO_REGION_START
        &&& self.script_cur_ptr <= self.vid_bak_ptr
        &&& self.script_bak_ptr <= self.vid_bak_ptr
    }

    /// One entry in another state.
    pub open spec fn with_state(self, idx: int, state: MemEntryState) -> ResourceView {
        ResourceView { mem_list: self.mem_list.update(idx, spec_with_state(self.mem_list[idx], state)), ..self }
    }

    /// No entry needed and the arena empty.
    pub open spec fn invalidate_all(self) -> ResourceView {
        ResourceView {
            mem_list: Seq::new(self.mem_list.len(), |i: int| spec_with_state(self.mem_list[i], MemEntryState::NotNeeded)),
            script_cur_ptr: 0,
            ..self
        }
    }

    /// The backgrounds and the entries of unknown kind not needed, and
    /// the arena as it was when the part was set up.
    pub open spec fn invalidate_resource(self) -> ResourceView {
        ResourceView {
            mem_list: Seq::new(
                self.mem_list.len(),
                |i: int|
                    match self.mem_list[i].entry_type {
                        EntryType::PolyAnim | EntryType::Unknown(_) => spec_with_state(
                            self.mem_list[i],
                            MemEntryState::NotNeeded,
                        ),
                        _ => self.mem_list[i],
                    },
            ),
            script_cur_ptr: self.script_bak_ptr,
            ..self
        }
    }

    /// Where an entry is loaded: a background at the start of the region
    /// for backgrounds, anything else at the cursor. Nowhere, if it does
    /// not fit there.
    pub open spec fn load_destination(self, e: MemEntry) -> Option<usize> {
        if e.entry_type == EntryType::PolyAnim {
            if e.size <= MEM_BLOCK_SIZE - self.vid_cur_ptr {
                Some(self.vid_cur_ptr)
            } else {
                None
            }
        } else if e.size > self.vid_bak_ptr - self.script_cur_ptr {
            None
        } else {
            Some(self.script_cur_ptr)
        }
    }

    /// The bytes of an entry as its bank gives them. A bank that is not
    /// there is an asset not found; bytes of another length than the
    /// size of the entry make the bank corrupt.
    pub open spec fn entry_data(self, e: MemEntry) -> Result<Seq<u8>, Error> {
        match self.banks[e.bank_id as int] {
            None => Err(Error::AssetNotFound),
            Some(bank) => match spec_read_bank(bank, e) {
                Err(x) => Err(x),
                Ok(d) => if d.len() != e.size {
                    Err(Error::BankCorrupt)
                } else {
                    Ok(d)
                },
            },
        }
    }

    /// The arena with bytes written at `dest`.
    pub open spec fn written(self, dest: int, data: Seq<u8>) -> Seq<u8> {
        Seq::new(
            self.memory.len(),
            |k: int|
                if dest <= k < dest + data.len() {
                    data[k - dest]
                } else {
                    self.memory[k]
                },
        )
    }

    /// One entry loaded, and whether its bank was read. An entry that
    /// does not fit or that names bank 0 is not needed any more and
    /// nothing is read. A background goes to its region, is not needed
    /// any more, and is flagged for the renderer. Any other entry goes to
    /// the cursor, which moves past it, and is loaded at that place. An
    /// error leaves all as it was.
    pub open spec fn load_entry(self, idx: int) -> (ResourceView, Result<bool, Error>) {
        let e = self.mem_list[idx];
        match self.load_destination(e) {
            None => (self.with_state(idx, MemEntryState::NotNeeded), Ok(false)),
            Some(dest) => if e.bank_id == 0 {
                (self.with_state(idx, MemEntryState::NotNeeded), Ok(false))
            } else {
                match self.entry_data(e) {
                    Err(x) => (self, Err(x)),
                    Ok(data) => if e.entry_type == EntryType::PolyAnim {
                        (
                            ResourceView {
                                memory: self.written(dest as int, data),
                                copy_vid_ptr: true,
                                ..self.with_state(idx, MemEntryState::NotNeeded)
                            },
                            Ok(true),
                        )
                    } else {
                        (
                            ResourceView {
                                memory: self.written(dest as int, data),
                                mem_list: self.mem_list.update(
                                    idx,
                                    MemEntry { state: MemEntryState::Loaded, buf_ptr: dest, ..e },
                                ),
                                script_cur_ptr: (self.script_cur_ptr + e.size) as usize,
                                ..self
                            },
                            Ok(true),
                        )
                    },
                }
            },
        }
    }

    /// The marked entries loaded, at most `fuel` of them: the entry of
    /// the highest rank first, and of entries of one rank the last in
    /// the table. The first error ends it.
    pub open spec fn load_all(self, fuel: nat) -> LoadRun
        decreases fuel,
    {
        let i = spec_next_load(self.mem_list, self.mem_list.len());
        if fuel == 0 || i < 0 {
            LoadRun { view: self, loaded: Seq::empty(), error: None }
        } else {
            let (next, outcome) = self.load_entry(i);
            match outcome {
                Err(e) => LoadRun { view: next, loaded: Seq::empty(), error: Some(e) },
                Ok(loaded) => {
                    let rest = next.load_all((fuel - 1) as nat);
                    LoadRun {
                        view: rest.view,
                        loaded: if loaded {
                            seq![i] + rest.loaded
                        } else {
                            rest.loaded
                        },
                        error: rest.error,
                    }
                },
            }
        }
    }

    /// All marked entries loaded.
    pub open spec fn load_marked_as_needed(self) -> LoadRun {
        self.load_all(self.mem_list.len())
    }

    /// One entry marked and the marked entries loaded, if the entry is
    /// in the table and not needed. Else nothing happens.
    pub open spec fn load_memory_entry(self, resource_id: u16) -> LoadRun {
        if resource_id < self.mem_list.len() && self.mem_list[resource_id as int].state == MemEntryState::NotNeeded {
            self.with_state(resource_id as int, MemEntryState::LoadMe).load_marked_as_needed()
        } else {
            LoadRun { view: self, loaded: Seq::empty(), error: None }
        }
    }

    /// The entries of a part marked, all others not needed, and the
    /// arena empty.
    pub open spec fn marked_for_part(self, part_id: u16) -> ResourceView {
        let p = spec_part(part_id);
        let v = self.invalidate_all().with_state(p.palette as int, MemEntryState::LoadMe).with_state(
            p.code as int,
            MemEntryState::LoadMe,
        ).with_state(p.video1 as int, MemEntryState::LoadMe);
        match p.video2 {
            Some(i) => v.with_state(i as int, MemEntryState::LoadMe),
            None => v,
        }
    }

    /// Whether the table has the entries of a part.
    pub open spec fn has_part(self, part_id: u16) -> bool {
        let p = spec_part(part_id);
        &&& p.palette < self.mem_list.len()
        &&& p.code < self.mem_list.len()
        &&& p.video1 < self.mem_list.len()
        &&& p.video2 is Some ==> p.video2->Some_0 < self.mem_list.len()
    }

    /// The segments of a part set to where its entries lie, and the part
    /// made the current one.
    pub open spec fn with_segments(self, part_id: u16) -> ResourceView {
        let p = spec_part(part_id);
        ResourceView {
            seg_palettes: self.mem_list[p.palette as int].buf_ptr,
            seg_bytecode: self.mem_list[p.code as int].buf_ptr,
            seg_cinematic: self.mem_list[p.video1 as int].buf_ptr,
            seg_video2: match p.video2 {
                Some(i) => self.mem_list[i as int].buf_ptr,
                None => self.seg_video2,
            },
            current_part_id: part_id,
            script_bak_ptr: self.script_cur_ptr,
            ..self
        }
    }

    /// A part set up. An id that is not that of a part is an invalid
    /// part, whatever the current part is, and leaves all as it was. The
    /// part that is current already is left as it is. A table without
    /// the entries of the part is corrupt, which leaves all as it was
    /// too. Else the entries of the part are loaded into the empty arena
    /// and the segments set; an error while loading leaves the part that
    /// was current and the segments as they were.
    pub open spec fn setup_part(self, part_id: u16) -> LoadRun {
        if !spec_is_part(part_id) {
            LoadRun { view: self, loaded: Seq::empty(), error: Some(Error::InvalidPart) }
        } else if part_id == self.current_part_id {
            LoadRun { view: self, loaded: Seq::empty(), error: None }
        } else if !self.has_part(part_id) {
            LoadRun { view: self, loaded: Seq::empty(), error: Some(Error::MemlistCorrupt) }
        } else {
            let run = self.marked_for_part(part_id).load_marked_as_needed();
            if run.error is Some {
                run
            } else {
                LoadRun { view: run.view.with_segments(part_id), ..run }
            }
        }
    }
}

/// Whether an entry is one of those of a part.
pub open spec fn spec_in_part(part_id: u16, i: int) -> bool {
    let p = spec_part(part_id);
    i == p.palette || i == p.code || i == p.video1 || (p.video2 is Some && i == p.video2->Some_0)
}

impl ResourceView {
    /// Whether the arena is laid out in the order of loading: every
    /// loaded entry lies below the cursor, of two loaded entries the one
    /// that loads first lies wholly below the other, and every loaded
    /// entry loads before every entry that is still marked.
    pub open spec fn laid_out(self) -> bool {
        &&& forall|i: int|
            0 <= i < self.mem_list.len() && (#[trigger] self.mem_list[i]).state == MemEntryState::Loaded
                ==> self.mem_list[i].buf_ptr + self.mem_list[i].size <= self.script_cur_ptr
        &&& forall|i: int, j: int|
            #![trigger self.mem_list[i], self.mem_list[j]]
            0 <= i < self.mem_list.len() && 0 <= j < self.mem_list.len() && self.mem_list[i].state
                == MemEntryState::Loaded && self.mem_list[j].state == MemEntryState::Loaded && spec_loads_before(
                self.mem_list,
                i,
                j,
            ) ==> self.mem_list[i].buf_ptr + self.mem_list[i].size <= self.mem_list[j].buf_ptr
        &&& forall|i: int, j: int|
            #![trigger self.mem_list[i], self.mem_list[j]]
            0 <= i < self.mem_list.len() && 0 <= j < self.mem_list.len() && self.mem_list[i].state
                == MemEntryState::Loaded && self.mem_list[j].state == MemEntryState::LoadMe ==> spec_loads_before(
                self.mem_list,
                i,
                j,
            )
    }

    /// Whether the current part, its segments and the cursor that it
    /// left are those of `other`.
    pub open spec fn same_part(self, other: ResourceView) -> bool {
        &&& self.current_part_id == other.current_part_id
        &&& self.seg_palettes == other.seg_palettes
        &&& self.seg_bytecode == other.seg_bytecode
        &&& self.seg_cinematic == other.seg_cinematic
        &&& self.seg_video2 == other.seg_video2
        &&& self.script_bak_ptr == other.script_bak_ptr
    }

    /// Whether no entry has another state than marked or not needed.
    pub open spec fn nothing_loaded(self) -> bool {
        forall|i: int|
            0 <= i < self.mem_list.len() ==> (#[trigger] self.mem_list[i]).state == MemEntryState::LoadMe
                || self.mem_list[i].state == MemEntryState::NotNeeded
    }

    /// An arena without loaded entries is laid out in the order of
    /// loading.
    pub proof fn lemma_nothing_loaded_is_laid_out(self)
        requires
            self.nothing_loaded(),
        ensures
            self.laid_out(),
    {
    }

    /// The entries of a part marked: nothing is loaded, and every marked
    /// entry is one of the part.
    pub proof fn lemma_marked_for_part(self, part_id: u16)
        requires
            spec_is_part(part_id),
            self.has_part(part_id),
        ensures
            self.marked_for_part(part_id).nothing_loaded(),
            self.marked_for_part(part_id).mem_list.len() == self.mem_list.len(),
            self.marked_for_part(part_id).script_cur_ptr == 0,
            forall|i: int|
                0 <= i < self.mem_list.len() && !spec_in_part(part_id, i) ==> (#[trigger] self.marked_for_part(
                    part_id,
                ).mem_list[i]).state == MemEntryState::NotNeeded,
    {
    }

    /// A load that fails changes nothing: no byte of the arena, no
    /// cursor, and no entry, so that the entry stays marked where it was.
    pub proof fn lemma_failed_load_changes_nothing(self, idx: int)
        requires
            self.load_entry(idx).1 is Err,
        ensures
            self.load_entry(idx).0 == self,
            self.load_entry(idx).0.memory == self.memory,
            self.load_entry(idx).0.script_cur_ptr == self.script_cur_ptr,
            self.load_entry(idx).0.mem_list[idx] == self.mem_list[idx],
    {
    }

    /// An entry whose packed bytes leave a checksum behind is not loaded:
    /// where it has a place in the arena and names a bank that is there,
    /// the load fails with a checksum mismatch.
    pub proof fn lemma_checksum_failure_fails_the_load(self, idx: int)
        requires
            self.load_destination(self.mem_list[idx]) is Some,
            self.mem_list[idx].bank_id != 0,
            self.entry_data(self.mem_list[idx]) == Err::<Seq<u8>, Error>(Error::ChecksumMismatch),
        ensures
            self.load_entry(idx) == (self, Err::<bool, Error>(Error::ChecksumMismatch)),
    {
    }

    /// An entry that is no background, has a place in the arena, names a
    /// bank and reads well is loaded at the cursor, which moves past it.
    pub proof fn lemma_good_load_loads(self, idx: int)
        requires
            self.wf(),
            0 <= idx < self.mem_list.len(),
            self.mem_list[idx].entry_type != EntryType::PolyAnim,
            self.load_destination(self.mem_list[idx]) is Some,
            self.mem_list[idx].bank_id != 0,
            self.entry_data(self.mem_list[idx]) is Ok,
        ensures
            self.load_entry(idx).1 == Ok::<bool, Error>(true),
            self.load_entry(idx).0.mem_list[idx].state == MemEntryState::Loaded,
            self.load_entry(idx).0.mem_list[idx].buf_ptr == self.script_cur_ptr,
            self.load_entry(idx).0.script_cur_ptr == self.script_cur_ptr + self.mem_list[idx].size,
            self.load_entry(idx).0.memory.subrange(
                self.script_cur_ptr as int,
                self.script_cur_ptr + self.mem_list[idx].size,
            ) == self.entry_data(self.mem_list[idx])->Ok_0,
    {
        let e = self.mem_list[idx];
        let data = self.entry_data(e)->Ok_0;
        assert(self.load_entry(idx).0.memory.subrange(self.script_cur_ptr as int, self.script_cur_ptr + e.size) =~= data);
    }

    /// Loading the entry that is next in the order of loading keeps the
    /// arena laid out in that order, and changes no other entry.
    pub proof fn lemma_load_entry_keeps_order(self, idx: int)
        requires
            self.laid_out(),
            0 <= idx < self.mem_list.len(),
            self.mem_list[idx].state == MemEntryState::LoadMe,
            forall|j: int|
                0 <= j < self.mem_list.len() && j != idx && (#[trigger] self.mem_list[j]).state == MemEntryState::LoadMe
                    ==> spec_loads_before(self.mem_list, idx, j),
        ensures
            self.load_entry(idx).0.laid_out(),
            self.load_entry(idx).0.mem_list.len() == self.mem_list.len(),
            forall|j: int|
                0 <= j < self.mem_list.len() && j != idx ==> (#[trigger] self.load_entry(idx).0.mem_list[j])
                    == self.mem_list[j],
            self.load_entry(idx).0.mem_list[idx].rank_num == self.mem_list[idx].rank_num,
            self.load_entry(idx).0.mem_list[idx].entry_type == self.mem_list[idx].entry_type,
            self.load_entry(idx).1 is Ok ==> self.load_entry(idx).0.mem_list[idx].state != MemEntryState::LoadMe,
            self.load_entry(idx).1 == Ok::<bool, Error>(true) ==> self.load_entry(idx).0.mem_list[idx].state
                == MemEntryState::Loaded || self.mem_list[idx].entry_type == EntryType::PolyAnim,
            self.load_entry(idx).1 == Ok::<bool, Error>(false) ==> self.load_entry(idx).0.mem_list[idx].state
                == MemEntryState::NotNeeded,
            self.load_entry(idx).0.mem_list[idx].state == MemEntryState::Loaded ==> self.mem_list[idx].entry_type
                != EntryType::PolyAnim,
            self.load_entry(idx).0.mem_list[idx].state != MemEntryState::EndOfMemList,
            self.load_entry(idx).0.same_part(self),
    {
        let next = self.load_entry(idx).0;
        assert forall|i: int, j: int|
            0 <= i < next.mem_list.len() && 0 <= j < next.mem_list.len() implies spec_loads_before(next.mem_list, i, j)
            == spec_loads_before(self.mem_list, i, j) by {
            assert(next.mem_list[i].rank_num == self.mem_list[i].rank_num);
            assert(next.mem_list[j].rank_num == self.mem_list[j].rank_num);
        }
    }
}

/// What the entry to load next is: one of the marked entries, which
/// loads before every other, or none if no entry is marked.
pub proof fn lemma_next_load(mem_list: Seq<MemEntry>, k: nat)
    requires
        k <= mem_list.len(),
    ensures
        -1 <= spec_next_load(mem_list, k) < k,
        spec_next_load(mem_list, k) >= 0 ==> mem_list[spec_next_load(mem_list, k)].state == MemEntryState::LoadMe,
        spec_next_load(mem_list, k) >= 0 ==> forall|j: int|
            0 <= j < k && j != spec_next_load(mem_list, k) && (#[trigger] mem_list[j]).state == MemEntryState::LoadMe
                ==> spec_loads_before(mem_list, spec_next_load(mem_list, k), j),
        spec_next_load(mem_list, k) < 0 ==> forall|j: int|
            0 <= j < k ==> (#[trigger] mem_list[j]).state != MemEntryState::LoadMe,
    decreases k,
{
    if k > 0 {
        lemma_next_load(mem_list, (k - 1) as nat);
    }
}

impl ResourceView {
    /// Loading the marked entries keeps the arena laid out in the order
    /// of loading, whether it ends well or with an error. It changes
    /// marked entries only; an entry that gets loaded is in the list of
    /// loads, and an entry of the list is loaded unless it is a
    /// background.
    pub proof fn lemma_load_all(self, fuel: nat)
        requires
            self.laid_out(),
        ensures
            self.load_all(fuel).view.laid_out(),
            self.load_all(fuel).view.mem_list.len() == self.mem_list.len(),
            self.load_all(fuel).view.same_part(self),
            forall|j: int|
                0 <= j < self.mem_list.len() && (#[trigger] self.mem_list[j]).state != MemEntryState::LoadMe
                    ==> self.load_all(fuel).view.mem_list[j] == self.mem_list[j],
            forall|j: int|
                0 <= j < self.mem_list.len() ==> (#[trigger] self.load_all(fuel).view.mem_list[j]).rank_num
                    == self.mem_list[j].rank_num && self.load_all(fuel).view.mem_list[j].entry_type
                    == self.mem_list[j].entry_type,
            forall|j: int|
                0 <= j < self.mem_list.len() && self.mem_list[j].state == MemEntryState::LoadMe && (
                #[trigger] self.load_all(fuel).view.mem_list[j]).state == MemEntryState::Loaded ==> self.load_all(
                    fuel,
                ).loaded.contains(j) && self.mem_list[j].entry_type != EntryType::PolyAnim,
            forall|j: int|
                0 <= j < self.mem_list.len() && self.mem_list[j].state == MemEntryState::LoadMe ==> (
                #[trigger] self.load_all(fuel).view.mem_list[j]).state != MemEntryState::EndOfMemList,
            forall|j: int|
                0 <= j < self.mem_list.len() && (#[trigger] self.load_all(fuel).view.mem_list[j]).state
                    == MemEntryState::LoadMe ==> self.load_all(fuel).view.mem_list[j] == self.mem_list[j],
            forall|a: int|
                0 <= a < self.load_all(fuel).loaded.len() ==> 0 <= (#[trigger] self.load_all(fuel).loaded[a])
                    < self.mem_list.len() && self.mem_list[self.load_all(fuel).loaded[a]].state
                    == MemEntryState::LoadMe && (self.load_all(fuel).view.mem_list[self.load_all(
                    fuel,
                ).loaded[a]].state == MemEntryState::Loaded || self.mem_list[self.load_all(
                    fuel,
                ).loaded[a]].entry_type == EntryType::PolyAnim),
        decreases fuel,
    {
        let i = spec_next_load(self.mem_list, self.mem_list.len());
        lemma_next_load(self.mem_list, self.mem_list.len());
        if fuel != 0 && i >= 0 {
            self.lemma_load_entry_keeps_order(i);
            let (next, outcome) = self.load_entry(i);
            match outcome {
                Err(e) => {},
                Ok(read) => {
                    next.lemma_load_all((fuel - 1) as nat);
                    let rest = next.load_all((fuel - 1) as nat);
                    let run = self.load_all(fuel);
                    if read {
                        assert(run.loaded == seq![i] + rest.loaded);
                        assert(run.loaded[0] == i);
                        assert forall|a: int| 0 < a < run.loaded.len() implies run.loaded[a] == rest.loaded[a - 1] by {}
                        assert forall|j: int|
                            0 <= j < self.mem_list.len() && self.mem_list[j].state == MemEntryState::LoadMe && (
                            #[trigger] run.view.mem_list[j]).state == MemEntryState::Loaded implies run.loaded.contains(
                            j,
                        ) && self.mem_list[j].entry_type != EntryType::PolyAnim by {
                            if j != i {
                                assert(rest.loaded.contains(j));
                                let b = choose|b: int| 0 <= b < rest.loaded.len() && rest.loaded[b] == j;
                                assert(run.loaded[b + 1] == j);
                            }
                        }
                    }
                },
            }
        }
    }

    /// Loading that ends with an error stops at the entry that failed:
    /// that entry is the next to load and still marked, and loading it
    /// fails with that error and changes nothing. So nothing of it is in
    /// the arena, and the arena and the cursor are as the loads before it
    /// left them.
    pub proof fn lemma_load_all_stops_at_the_failure(self, fuel: nat)
        requires
            self.load_all(fuel).error is Some,
        ensures
            ({
                let view = self.load_all(fuel).view;
                let i = spec_next_load(view.mem_list, view.mem_list.len());
                &&& 0 <= i < view.mem_list.len()
                &&& view.mem_list[i].state == MemEntryState::LoadMe
                &&& view.load_entry(i) == (view, Err::<bool, Error>(self.load_all(fuel).error->Some_0))
            }),
        decreases fuel,
    {
        let i = spec_next_load(self.mem_list, self.mem_list.len());
        lemma_next_load(self.mem_list, self.mem_list.len());
        if fuel != 0 && i >= 0 {
            let (next, outcome) = self.load_entry(i);
            match outcome {
                Err(e) => {},
                Ok(read) => {
                    next.lemma_load_all_stops_at_the_failure((fuel - 1) as nat);
                },
            }
        }
    }

    /// What loading one entry changes: that entry at most, whose rank
    /// stays; the cursor does not go back; and an entry that gets loaded
    /// lies from the old cursor up to the new one.
    pub proof fn lemma_load_entry_places(self, idx: int)
        requires
            0 <= idx < self.mem_list.len(),
            self.mem_list[idx].state == MemEntryState::LoadMe,
        ensures
            self.load_entry(idx).0.mem_list.len() == self.mem_list.len(),
            forall|j: int|
                0 <= j < self.mem_list.len() && j != idx ==> (#[trigger] self.load_entry(idx).0.mem_list[j])
                    == self.mem_list[j],
            self.load_entry(idx).0.mem_list[idx].rank_num == self.mem_list[idx].rank_num,
            self.load_entry(idx).0.script_cur_ptr >= self.script_cur_ptr,
            self.load_entry(idx).1 is Ok ==> self.load_entry(idx).0.mem_list[idx].state != MemEntryState::LoadMe,
            self.load_entry(idx).0.mem_list[idx].state == MemEntryState::Loaded ==> self.load_entry(
                idx,
            ).0.mem_list[idx].buf_ptr == self.script_cur_ptr && self.load_entry(idx).0.script_cur_ptr
                == self.script_cur_ptr + self.load_entry(idx).0.mem_list[idx].size,
    {
    }

    /// Entries that one loading loads lie in the arena in the order of
    /// loading: each lies between the cursor before the loading and the
    /// cursor after it, and of two of them the one of the higher rank,
    /// or of two of one rank the later in the table, lies wholly below
    /// the other.
    pub proof fn lemma_load_all_orders_places(self, fuel: nat)
        ensures
            self.load_all(fuel).view.mem_list.len() == self.mem_list.len(),
            self.load_all(fuel).view.script_cur_ptr >= self.script_cur_ptr,
            forall|j: int|
                0 <= j < self.mem_list.len() && (#[trigger] self.mem_list[j]).state != MemEntryState::LoadMe
                    ==> self.load_all(fuel).view.mem_list[j] == self.mem_list[j],
            forall|j: int|
                0 <= j < self.mem_list.len() ==> (#[trigger] self.load_all(fuel).view.mem_list[j]).rank_num
                    == self.mem_list[j].rank_num,
            forall|i: int|
                0 <= i < self.mem_list.len() && self.mem_list[i].state == MemEntryState::LoadMe && (
                #[trigger] self.load_all(fuel).view.mem_list[i]).state == MemEntryState::Loaded
                    ==> self.script_cur_ptr <= self.load_all(fuel).view.mem_list[i].buf_ptr && self.load_all(
                    fuel,
                ).view.mem_list[i].buf_ptr + self.load_all(fuel).view.mem_list[i].size <= self.load_all(
                    fuel,
                ).view.script_cur_ptr,
            forall|i: int, j: int|
                #![trigger self.load_all(fuel).view.mem_list[i], self.load_all(fuel).view.mem_list[j]]
                0 <= i < self.mem_list.len() && 0 <= j < self.mem_list.len() && self.mem_list[i].state
                    == MemEntryState::LoadMe && self.mem_list[j].state == MemEntryState::LoadMe && self.load_all(
                    fuel,
                ).view.mem_list[i].state == MemEntryState::Loaded && self.load_all(fuel).view.mem_list[j].state
                    == MemEntryState::Loaded && spec_loads_before(self.mem_list, i, j) ==> self.load_all(
                    fuel,
                ).view.mem_list[i].buf_ptr + self.load_all(fuel).view.mem_list[i].size <= self.load_all(
                    fuel,
                ).view.mem_list[j].buf_ptr,
        decreases fuel,
    {
        let idx = spec_next_load(self.mem_list, self.mem_list.len());
        lemma_next_load(self.mem_list, self.mem_list.len());
        if fuel != 0 && idx >= 0 {
            self.lemma_load_entry_places(idx);
            let (next, outcome) = self.load_entry(idx);
            if outcome is Ok {
                next.lemma_load_all_orders_places((fuel - 1) as nat);
                let after = self.load_all(fuel).view;
                assert(after == next.load_all((fuel - 1) as nat).view);
                assert(after.mem_list[idx] == next.mem_list[idx]);
                assert forall|i: int, j: int|
                    #![trigger after.mem_list[i], after.mem_list[j]]
                    0 <= i < self.mem_list.len() && 0 <= j < self.mem_list.len() && self.mem_list[i].state
                        == MemEntryState::LoadMe && self.mem_list[j].state == MemEntryState::LoadMe
                        && after.mem_list[i].state == MemEntryState::Loaded && after.mem_list[j].state
                        == MemEntryState::Loaded && spec_loads_before(self.mem_list, i, j) implies after.mem_list[i].buf_ptr
                    + after.mem_list[i].size <= after.mem_list[j].buf_ptr by {
                    assert(next.mem_list[i].rank_num == self.mem_list[i].rank_num);
                    assert(next.mem_list[j].rank_num == self.mem_list[j].rank_num);
                    if i != idx && j != idx {
                        assert(next.mem_list[i] == self.mem_list[i]);
                        assert(next.mem_list[j] == self.mem_list[j]);
                        assert(spec_loads_before(next.mem_list, i, j));
                    } else if j == idx && i != idx {
                        assert(spec_loads_before(self.mem_list, idx, i));
                    } else if i == idx && j != idx {
                        assert(next.mem_list[j] == self.mem_list[j]);
                    }
                }
            }
        }
    }

    /// Two loaded entries of an arena laid out in the order of loading
    /// lie apart, and both below the cursor.
    pub proof fn lemma_loaded_entries_lie_apart(self, i: int, j: int)
        requires
            self.laid_out(),
            0 <= i < self.mem_list.len(),
            0 <= j < self.mem_list.len(),
            i != j,
            self.mem_list[i].state == MemEntryState::Loaded,
            self.mem_list[j].state == MemEntryState::Loaded,
        ensures
            self.mem_list[i].buf_ptr + self.mem_list[i].size <= self.mem_list[j].buf_ptr || self.mem_list[j].buf_ptr
                + self.mem_list[j].size <= self.mem_list[i].buf_ptr,
            self.mem_list[i].buf_ptr + self.mem_list[i].size <= self.script_cur_ptr,
            self.mem_list[j].buf_ptr + self.mem_list[j].size <= self.script_cur_ptr,
    {
        assert(spec_loads_before(self.mem_list, i, j) || spec_loads_before(self.mem_list, j, i));
    }

    /// Of two loaded entries of an arena laid out in the order of
    /// loading, the one of the higher rank lies wholly below the other,
    /// and of two of one rank the later in the table. It lies at a lower
    /// place unless it is empty.
    pub proof fn lemma_rank_orders_places(self, i: int, j: int)
        requires
            self.laid_out(),
            0 <= i < self.mem_list.len(),
            0 <= j < self.mem_list.len(),
            self.mem_list[i].state == MemEntryState::Loaded,
            self.mem_list[j].state == MemEntryState::Loaded,
            self.mem_list[i].rank_num > self.mem_list[j].rank_num || (self.mem_list[i].rank_num
                == self.mem_list[j].rank_num && i > j),
        ensures
            self.mem_list[i].buf_ptr + self.mem_list[i].size <= self.mem_list[j].buf_ptr,
            self.mem_list[i].size > 0 ==> self.mem_list[i].buf_ptr < self.mem_list[j].buf_ptr,
    {
        assert(spec_loads_before(self.mem_list, i, j));
    }
}

impl ResourceView {
    /// Whether a part is set up with the loads of the list: the arena is
    /// laid out in the order of loading, the segments are where the
    /// entries of the part lie, the part is the current one, every entry
    /// is loaded or not needed, and the loaded entries are just those
    /// entries of the part that are no backgrounds and are in the list.
    pub open spec fn part_is_set_up(self, part_id: u16, loaded: Seq<int>) -> bool {
        &&& self.laid_out()
        &&& self.current_part_id == part_id
        &&& self.seg_palettes == self.mem_list[spec_part(part_id).palette as int].buf_ptr
        &&& self.seg_bytecode == self.mem_list[spec_part(part_id).code as int].buf_ptr
        &&& self.seg_cinematic == self.mem_list[spec_part(part_id).video1 as int].buf_ptr
        &&& self.script_bak_ptr == self.script_cur_ptr
        &&& forall|i: int|
            0 <= i < self.mem_list.len() ==> (#[trigger] self.mem_list[i]).state == MemEntryState::Loaded
                || self.mem_list[i].state == MemEntryState::NotNeeded
        &&& forall|i: int|
            0 <= i < self.mem_list.len() ==> ((#[trigger] self.mem_list[i]).state == MemEntryState::Loaded
                <==> spec_in_part(part_id, i) && self.mem_list[i].entry_type != EntryType::PolyAnim
                && loaded.contains(i))
    }

    /// Whether loading stands at an entry that fails with `e`: the arena
    /// is laid out in the order of loading, the entry to load next is
    /// still marked, and loading it fails with `e` and changes nothing.
    pub open spec fn stands_at_failure(self, e: Error) -> bool {
        let i = spec_next_load(self.mem_list, self.mem_list.len());
        &&& self.laid_out()
        &&& 0 <= i < self.mem_list.len()
        &&& self.mem_list[i].state == MemEntryState::LoadMe
        &&& self.load_entry(i) == (self, Err::<bool, Error>(e))
    }

    /// Loading with enough fuel for every marked entry leaves no entry
    /// marked, unless it ends with an error.
    pub proof fn lemma_load_all_loads_all(self, fuel: nat)
        requires
            spec_count_load_me(self.mem_list, self.mem_list.len()) <= fuel,
        ensures
            self.load_all(fuel).error is None ==> forall|j: int|
                0 <= j < self.load_all(fuel).view.mem_list.len() ==> (#[trigger] self.load_all(fuel).view.mem_list[j]).state
                    != MemEntryState::LoadMe,
        decreases fuel,
    {
        let n = self.mem_list.len();
        let i = spec_next_load(self.mem_list, n);
        lemma_next_load(self.mem_list, n);
        if i >= 0 {
            lemma_count_load_me_bounds(self.mem_list, i, n);
        }
        if fuel != 0 && i >= 0 {
            let (next, outcome) = self.load_entry(i);
            match outcome {
                Err(e) => {},
                Ok(read) => {
                    assert(next.mem_list =~= self.mem_list.update(i, next.mem_list[i]));
                    lemma_count_load_me_update(self.mem_list, i, next.mem_list[i], n);
                    next.lemma_load_all_loads_all((fuel - 1) as nat);
                },
            }
        }
    }

    /// What setting up a part comes to. An id that is no part is an
    /// invalid part and changes nothing. An error leaves the part that
    /// was current and its segments; an error of a load leaves the
    /// loading at the entry that failed, of which nothing is in the
    /// arena. A new part that is set up is laid out in the order of
    /// loading, and just its entries that were read and are no
    /// backgrounds are loaded.
    pub proof fn lemma_setup_part(self, part_id: u16)
        ensures
            !spec_is_part(part_id) ==> self.setup_part(part_id).error == Some(Error::InvalidPart) && self.setup_part(
                part_id,
            ).view == self,
            self.setup_part(part_id).error is Some ==> self.setup_part(part_id).view.same_part(self),
            self.setup_part(part_id).error is Some && spec_is_part(part_id) && self.has_part(part_id)
                ==> self.setup_part(part_id).view.stands_at_failure(self.setup_part(part_id).error->Some_0),
            self.setup_part(part_id).error is None && part_id != self.current_part_id ==> self.setup_part(
                part_id,
            ).view.part_is_set_up(part_id, self.setup_part(part_id).loaded),
    {
        if spec_is_part(part_id) && part_id != self.current_part_id && self.has_part(part_id) {
            let marked = self.marked_for_part(part_id);
            let n = marked.mem_list.len();
            self.lemma_marked_for_part(part_id);
            marked.lemma_nothing_loaded_is_laid_out();
            marked.lemma_load_all(n);
            lemma_count_load_me_bounds(marked.mem_list, 0, n);
            marked.lemma_load_all_loads_all(n);
            let run = marked.load_all(n);
            if run.error is Some {
                marked.lemma_load_all_stops_at_the_failure(n);
            } else {
                let done = run.view.with_segments(part_id);
                assert(done.laid_out());
                assert forall|i: int| 0 <= i < done.mem_list.len() implies ((#[trigger] done.mem_list[i]).state
                    == MemEntryState::Loaded <==> spec_in_part(part_id, i) && done.mem_list[i].entry_type
                    != EntryType::PolyAnim && run.loaded.contains(i)) by {
                    assert(done.mem_list[i] == run.view.mem_list[i]);
                    if run.loaded.contains(i) {
                        let a = choose|a: int| 0 <= a < run.loaded.len() && run.loaded[a] == i;
                        assert(run.loaded[a] == i);
                    }
                }
                assert forall|i: int| 0 <= i < done.mem_list.len() implies (#[trigger] done.mem_list[i]).state
                    == MemEntryState::Loaded || done.mem_list[i].state == MemEntryState::NotNeeded by {
                    assert(done.mem_list[i] == run.view.mem_list[i]);
                }
            }
        }
    }
}

/// The indices of entries that a load returned, as mathematical values.
pub open spec fn loaded_view(v: Seq<usize>) -> Seq<int> {
    Seq::new(v.len(), |i: int| v[i] as int)
}

/// What a load returned, as mathematical values.
pub open spec fn load_result(r: Result<Vec<usize>, Error>) -> (Seq<int>, Option<Error>) {
    match r {
        Ok(v) => (loaded_view(v@), None),
        Err(e) => (Seq::empty(), Some(e)),
    }
}

/// What a load came to, as it is returned: the entries loaded, or the
/// error.
pub open spec fn run_result(run: LoadRun) -> (Seq<int>, Option<Error>) {
    match run.error {
        Some(e) => (Seq::empty(), Some(e)),
        None => (run.loaded, None),
    }
}

/// Entries that leave the state of being marked lower the count of
/// marked entries by one.
pub proof fn lemma_count_load_me_update(mem_list: Seq<MemEntry>, i: int, e: MemEntry, k: nat)
    requires
        0 <= i < mem_list.len(),
        k <= mem_list.len(),
        mem_list[i].state == MemEntryState::LoadMe,
        e.state != MemEntryState::LoadMe,
    ensures
        spec_count_load_me(mem_list.update(i, e), k) == spec_count_load_me(mem_list, k) - if i < k {
            1int
        } else {
            0int
        },
    decreases k,
{
    if k > 0 {
        lemma_count_load_me_update(mem_list, i, e, (k - 1) as nat);
    }
}

/// A marked entry among the first `k` makes their count of marked
/// entries positive, and the count is at most `k`.
pub proof fn lemma_count_load_me_bounds(mem_list: Seq<MemEntry>, i: int, k: nat)
    requires
        k <= mem_list.len(),
    ensures
        spec_count_load_me(mem_list, k) <= k,
        0 <= i < k && mem_list[i].state == MemEntryState::LoadMe ==> spec_count_load_me(mem_list, k) >= 1,
    decreases k,
{
    if k > 0 {
        lemma_count_load_me_bounds(mem_list, i, (k - 1) as nat);
    }
}

/// What a change of one entry does to the summed sizes of the loaded
/// entries.
pub proof fn lemma_loaded_size_update(mem_list: Seq<MemEntry>, i: int, e: MemEntry, k: nat)
    requires
        0 <= i < mem_list.len(),
        k <= mem_list.len(),
    ensures
        spec_loaded_size(mem_list.update(i, e), k) == spec_loaded_size(mem_list, k) + if i < k {
            spec_arena_share(e) - spec_arena_share(mem_list[i])
        } else {
            0
        },
    decreases k,
{
    if k > 0 {
        lemma_loaded_size_update(mem_list, i, e, (k - 1) as nat);
    }
}

/// A table without loaded entries has summed sizes of 0.
pub proof fn lemma_loaded_size_none(mem_list: Seq<MemEntry>, k: nat)
    requires
        k <= mem_list.len(),
        forall|i: int| 0 <= i < k ==> (#[trigger] mem_list[i]).state != MemEntryState::Loaded,
    ensures
        spec_loaded_size(mem_list, k) == 0,
    decreases k,
{
    if k > 0 {
        lemma_loaded_size_none(mem_list, (k - 1) as nat);
    }
}

impl Resource {
    pub open spec fn view(&self) -> ResourceView {
        ResourceView {
            mem_list: self.mem_list@,
            memory: self.memory@,
            banks: Seq::new(self.banks@.len(), |i: int| bank_view(self.banks@[i])),
            current_part_id: self.current_part_id,
            script_bak_ptr: self.script_bak_ptr,
            script_cur_ptr: self.script_cur_ptr,
            vid_bak_ptr: self.vid_bak_ptr,
            vid_cur_ptr: self.vid_cur_ptr,
            seg_palettes: self.seg_palettes,
            seg_bytecode: self.seg_bytecode,
            seg_cinematic: self.seg_cinematic,
            seg_video2: self.seg_video2,
            copy_vid_ptr: self.copy_vid_ptr,
            asset_platform: self.asset_platform,
        }
    }

    /// The invariant of a resource manager.
    pub open spec fn wf(&self) -> bool {
        self@.wf()
    }

    /// A resource manager with an empty table, an arena of zeros and no
    /// banks.
    pub fn new(asset_platform: AssetPlatform) -> (r: Resource)
        ensures
            r.wf(),
            r@.mem_list == Seq::<MemEntry>::empty(),
            r@.memory == Seq::new(MEM_BLOCK_SIZE as nat, |i: int| 0u8),
            r@.banks == Seq::new(NUM_BANKS as nat, |i: int| None::<Seq<u8>>),
            r@.current_part_id == 0,
            r@.script_bak_ptr == 0,
            r@.script_cur_ptr == 0,
            r@.seg_palettes == 0,
            r@.seg_bytecode == 0,
            r@.seg_cinematic == 0,
            r@.seg_video2 == 0,
            !r@.copy_vid_ptr,
            r@.asset_platform == asset_platform,
    {
        let memory = vec![0u8; MEM_BLOCK_SIZE];
        let mut banks: Vec<Option<Vec<u8>>> = Vec::new();
        let mut k: usize = 0;
        while k < NUM_BANKS
            invariant
                k <= NUM_BANKS,
                banks@.len() == k,
                forall|i: int| 0 <= i < k ==> banks@[i] is None,
            decreases NUM_BANKS - k,
        {
            banks.push(None);
            k = k + 1;
        }
        let r = Resource {
            mem_list: Vec::new(),
            memory,
            banks,
            current_part_id: 0,
            script_bak_ptr: 0,
            script_cur_ptr: 0,
            vid_bak_ptr: VIDEO_REGION_START,
            vid_cur_ptr: VIDEO_REGION_START,
            seg_palettes: 0,
            seg_bytecode: 0,
            seg_cinematic: 0,
            seg_video2: 0,
            copy_vid_ptr: false,
            asset_platform,
        };
        assert(r@.memory =~= Seq::new(MEM_BLOCK_SIZE as nat, |i: int| 0u8));
        assert(r@.banks =~= Seq::new(NUM_BANKS as nat, |i: int| None::<Seq<u8>>));
        r
    }

    /// A resource manager for the assets found: those of the Amiga if
    /// its executable is there, else those of the Atari ST if its
    /// executable is there, else those of the PC.
    pub fn detect_platform(has_amiga_executable: bool, has_atari_executable: bool) -> (r: Resource)
        ensures
            r.wf(),
            r@.mem_list == Seq::<MemEntry>::empty(),
            r@.asset_platform == if has_amiga_executable {
                AssetPlatform::Amiga
            } else if has_atari_executable {
                AssetPlatform::AtariST
            } else {
                AssetPlatform::PC
            },
    {
        let asset_platform = if has_amiga_executable {
            AssetPlatform::Amiga
        } else if has_atari_executable {
            AssetPlatform::AtariST
        } else {
            AssetPlatform::PC
        };
        Resource::new(asset_platform)
    }

    /// Where the resource table starts in an executable: `MEMLIST_BACK`
    /// bytes before the end of the first run of twenty 0xff bytes.
    pub fn find_memlist_offset(data: &[u8]) -> (r: Result<usize, Error>)
        ensures
            match r {
                Ok(offset) => spec_is_first_run_end(data@, offset + MEMLIST_BACK),
                Err(e) => e == Error::MemlistCorrupt && forall|f: int|
                    spec_is_first_run_end(data@, f) ==> f < MEMLIST_BACK,
            },
    {
        let n = data.len();
        let mut count: usize = 0;
        let mut k: usize = 0;
        while k < n
            invariant
                k <= n,
                n == data@.len(),
                count < MEMLIST_RUN,
                count <= k,
                forall|f: int| 0 <= f < k ==> !spec_is_run_end(data@, f),
                forall|m: int| k - count <= m < k ==> #[trigger] data@[m] == MEMLIST_END,
                count < k ==> data@[k - count - 1] != MEMLIST_END,
            decreases n - k,
        {
            if data[k] == MEMLIST_END {
                count = count + 1;
            } else {
                count = 0;
            }
            if count == MEMLIST_RUN {
                assert(spec_is_run_end(data@, k as int));
                if k < MEMLIST_BACK {
                    return Err(Error::MemlistCorrupt);
                }
                return Ok(k - MEMLIST_BACK);
            }
            assert(!spec_is_run_end(data@, k as int)) by {
                if count == 0 {
                    assert(data@[k as int] != MEMLIST_END);
                } else if count <= k {
                    assert(data@[k - count] != MEMLIST_END);
                }
            }
            k = k + 1;
        }
        Err(Error::MemlistCorrupt)
    }

    /// Takes the bytes of a resource out of the contents of its bank.
    pub fn read_bank(bank: &[u8], mem_entry: &MemEntry) -> (r: Result<Bank, Error>)
        ensures
            mem_entry.bank_offset + mem_entry.packed_size > bank@.len() ==> r is Err && r->Err_0 == Error::BankCorrupt,
            mem_entry.bank_offset + mem_entry.packed_size <= bank@.len() ==> r is Ok && spec_bank_entry(r->Ok_0) == (
                mem_entry.packed_size != mem_entry.size,
                bank@.subrange(mem_entry.bank_offset as int, mem_entry.bank_offset + mem_entry.packed_size),
            ),
    {
        let n = bank.len();
        let offset = mem_entry.bank_offset as usize;
        if offset > n || mem_entry.packed_size > n - offset {
            return Err(Error::BankCorrupt);
        }
        let data = slice_to_vec(slice_subrange(bank, offset, offset + mem_entry.packed_size));
        if mem_entry.packed_size == mem_entry.size {
            Ok(Bank::Uncompressed(data))
        } else {
            Ok(Bank::Compressed(data))
        }
    }

    /// Hands the resource manager the contents of a bank file.
    pub fn set_bank(&mut self, bank_id: u8, data: Vec<u8>)
        requires
            old(self).wf(),
        ensures
            final(self).wf(),
            final(self)@ == (ResourceView { banks: old(self)@.banks.update(bank_id as int, Some(data@)), ..old(self)@ }),
    {
        self.banks[bank_id as usize] = Some(data);
        assert(self@.banks =~= old(self)@.banks.update(bank_id as int, Some(data@)));
    }

    /// Reads the records of a resource table from `start` on and adds
    /// them to the table. A corrupt table adds nothing.
    pub fn read_entries(&mut self, data: &[u8], start: usize) -> (r: Result<(), Error>)
        ensures
            match spec_read_entries(data@, start as int) {
                Ok(entries) => r is Ok && final(self)@ == (ResourceView {
                    mem_list: old(self)@.mem_list + entries,
                    ..old(self)@
                }),
                Err(e) => r == Err::<(), Error>(e) && final(self)@ == old(self)@,
            },
    {
        match parse_entries(data, start) {
            Ok(mut entries) => {
                self.mem_list.append(&mut entries);
                Ok(())
            },
            Err(e) => Err(e),
        }
    }

    /// Reads the resource table from the file that holds it: from its
    /// start in the table file of the PC, and from where the table lies
    /// in the executable of the Amiga or of the Atari ST.
    pub fn read_memlist(&mut self, data: &[u8]) -> (r: Result<(), Error>)
        ensures
            r is Err ==> final(self)@ == old(self)@,
            old(self)@.asset_platform == AssetPlatform::PC ==> match spec_read_entries(data@, 0) {
                Ok(entries) => r is Ok && final(self)@ == (ResourceView {
                    mem_list: old(self)@.mem_list + entries,
                    ..old(self)@
                }),
                Err(e) => r == Err::<(), Error>(e),
            },
            old(self)@.asset_platform != AssetPlatform::PC ==> (r is Ok <==> exists|offset: int|
                spec_is_first_run_end(data@, offset + MEMLIST_BACK) && 0 <= offset && (#[trigger] spec_read_entries(
                    data@,
                    offset,
                )) is Ok),
            old(self)@.asset_platform != AssetPlatform::PC && r is Ok ==> exists|offset: int|
                spec_is_first_run_end(data@, offset + MEMLIST_BACK) && spec_read_entries(data@, offset) is Ok
                    && final(self)@ == (ResourceView {
                    mem_list: old(self)@.mem_list + spec_read_entries(data@, offset)->Ok_0,
                    ..old(self)@
                }),
    {
        match self.asset_platform {
            AssetPlatform::PC => self.read_entries(data, 0),
            _ => {
                match Resource::find_memlist_offset(data) {
                    Ok(offset) => {
                        let r = self.read_entries(data, offset);
                        r
                    },
                    Err(e) => Err(e),
                }
            },
        }
    }

    /// Reads a byte of the arena.
    pub fn read_byte(&self, index: usize) -> (r: u8)
        requires
            index < self@.memory.len(),
        ensures
            r == self@.memory[index as int],
    {
        self.memory[index]
    }

    /// Reads a big-endian word of the arena.
    pub fn read_word(&self, index: usize) -> (r: u16)
        requires
            index + 2 <= self@.memory.len(),
        ensures
            r == spec_word_at(self@.memory, index as int),
    {
        word_at(self.memory.as_slice(), index)
    }

    /// Marks every entry as not needed and empties the arena.
    pub fn invalidate_all(&mut self)
        requires
            old(self).wf(),
        ensures
            final(self).wf(),
            final(self)@ == old(self)@.invalidate_all(),
    {
        let n = self.mem_list.len();
        let mut k: usize = 0;
        while k < n
            invariant
                k <= n,
                n == self.mem_list@.len(),
                n == old(self).mem_list@.len(),
                forall|i: int| 0 <= i < k ==> self.mem_list@[i] == spec_with_state(old(self).mem_list@[i], MemEntryState::NotNeeded),
                forall|i: int| k <= i < n ==> self.mem_list@[i] == old(self).mem_list@[i],
                self@ == (ResourceView { mem_list: self.mem_list@, ..old(self)@ }),
            decreases n - k,
        {
            let e = self.mem_list[k];
            self.mem_list[k] = MemEntry { state: MemEntryState::NotNeeded, ..e };
            k = k + 1;
        }
        self.script_cur_ptr = 0;
        assert(self@.mem_list =~= old(self)@.invalidate_all().mem_list);
    }

    /// Marks the backgrounds and the entries of unknown kind as not
    /// needed, and takes the arena back to where it was when the
    /// current part was set up.
    pub fn invalidate_resource(&mut self)
        requires
            old(self).wf(),
        ensures
            final(self).wf(),
            final(self)@ == old(self)@.invalidate_resource(),
    {
        let n = self.mem_list.len();
        let mut k: usize = 0;
        while k < n
            invariant
                k <= n,
                n == self.mem_list@.len(),
                n == old(self).mem_list@.len(),
                forall|i: int| 0 <= i < k ==> self.mem_list@[i] == old(self)@.invalidate_resource().mem_list[i],
                forall|i: int| k <= i < n ==> self.mem_list@[i] == old(self).mem_list@[i],
                self@ == (ResourceView { mem_list: self.mem_list@, ..old(self)@ }),
            decreases n - k,
        {
            let e = self.mem_list[k];
            match e.entry_type {
                EntryType::PolyAnim | EntryType::Unknown(_) => {
                    self.mem_list[k] = MemEntry { state: MemEntryState::NotNeeded, ..e };
                },
                _ => {},
            }
            k = k + 1;
        }
        self.script_cur_ptr = self.script_bak_ptr;
        assert(self@.mem_list =~= old(self)@.invalidate_resource().mem_list);
    }

    /// Sets the state of an entry.
    pub fn set_state(&mut self, idx: usize, state: MemEntryState)
        requires
            idx < old(self)@.mem_list.len(),
        ensures
            final(self)@ == old(self)@.with_state(idx as int, state),
    {
        let e = self.mem_list[idx];
        self.mem_list[idx] = MemEntry { state, ..e };
    }

    /// Finds the entry to load next: of the marked entries the one of
    /// the highest rank, and of those of one rank the last in the table.
    pub fn find_next_load(&self) -> (r: Option<usize>)
        ensures
            match r {
                Some(i) => i == spec_next_load(self@.mem_list, self@.mem_list.len()) && i < self@.mem_list.len()
                    && self@.mem_list[i as int].state == MemEntryState::LoadMe && forall|j: int|
                    0 <= j < self@.mem_list.len() && j != i && (#[trigger] self@.mem_list[j]).state
                        == MemEntryState::LoadMe ==> spec_loads_before(self@.mem_list, i as int, j),
                None => spec_next_load(self@.mem_list, self@.mem_list.len()) == -1 && forall|j: int|
                    0 <= j < self@.mem_list.len() ==> (#[trigger] self@.mem_list[j]).state != MemEntryState::LoadMe,
            },
    {
        let n = self.mem_list.len();
        let mut best: Option<usize> = None;
        let mut k: usize = 0;
        while k < n
            invariant
                k <= n,
                n == self.mem_list@.len(),
                match best {
                    Some(i) => i == spec_next_load(self@.mem_list, k as nat) && i < k && self@.mem_list[i as int].state
                        == MemEntryState::LoadMe && forall|j: int|
                        0 <= j < k && j != i && (#[trigger] self@.mem_list[j]).state == MemEntryState::LoadMe
                            ==> spec_loads_before(self@.mem_list, i as int, j),
                    None => spec_next_load(self@.mem_list, k as nat) == -1 && forall|j: int|
                        0 <= j < k ==> (#[trigger] self@.mem_list[j]).state != MemEntryState::LoadMe,
                },
            decreases n - k,
        {
            if self.mem_list[k].state == MemEntryState::LoadMe {
                match best {
                    Some(i) => {
                        if self.mem_list[k].rank_num >= self.mem_list[i].rank_num {
                            best = Some(k);
                        }
                    },
                    None => {
                        best = Some(k);
                    },
                }
            }
            k = k + 1;
        }
        best
    }
}

impl Resource {
    /// Writes bytes into the arena at `dest`.
    pub fn write_memory(&mut self, dest: usize, data: &Vec<u8>)
        requires
            dest + data@.len() <= old(self)@.memory.len(),
        ensures
            final(self)@ == (ResourceView { memory: old(self)@.written(dest as int, data@), ..old(self)@ }),
    {
        let n = data.len();
        let total = self.memory.len();
        let mut k: usize = 0;
        while k < n
            invariant
                k <= n,
                n == data@.len(),
                total == self@.memory.len(),
                dest + n <= self@.memory.len(),
                self@.memory.len() == old(self)@.memory.len(),
                self@ == (ResourceView { memory: self@.memory, ..old(self)@ }),
                forall|m: int|
                    0 <= m < self@.memory.len() ==> #[trigger] self@.memory[m] == if dest <= m < dest + k {
                        data@[m - dest]
                    } else {
                        old(self)@.memory[m]
                    },
            decreases n - k,
        {
            self.memory[dest + k] = data[k];
            k = k + 1;
        }
        assert(self@.memory =~= old(self)@.written(dest as int, data@));
    }

    /// The bytes of an entry as its bank gives them.
    pub fn entry_data(&self, idx: usize) -> (r: Result<Vec<u8>, Error>)
        requires
            self.wf(),
            idx < self@.mem_list.len(),
        ensures
            bytes_result(r) == self@.entry_data(self@.mem_list[idx as int]),
    {
        let e = self.mem_list[idx];
        assert(self@.banks[e.bank_id as int] == bank_view(self.banks@[e.bank_id as int]));
        match &self.banks[e.bank_id as usize] {
            None => Err(Error::AssetNotFound),
            Some(bank) => {
                let entry = match Resource::read_bank(bank.as_slice(), &e) {
                    Ok(entry) => entry,
                    Err(x) => {
                        return Err(x);
                    },
                };
                match entry.data() {
                    Err(x) => Err(x),
                    Ok(data) => {
                        if data.len() != e.size {
                            Err(Error::BankCorrupt)
                        } else {
                            Ok(data)
                        }
                    },
                }
            },
        }
    }

    /// Loads one entry. Returns whether its bank was read: an entry that
    /// does not fit in the arena or that names bank 0 is marked as not
    /// needed instead. An error changes nothing.
    pub fn load_entry(&mut self, idx: usize) -> (r: Result<bool, Error>)
        requires
            old(self).wf(),
            idx < old(self)@.mem_list.len(),
        ensures
            final(self).wf(),
            (final(self)@, r) == old(self)@.load_entry(idx as int),
            r is Err ==> final(self)@ == old(self)@,
            final(self)@.mem_list.len() == old(self)@.mem_list.len(),
            forall|j: int|
                0 <= j < old(self)@.mem_list.len() && j != idx ==> #[trigger] final(self)@.mem_list[j] == old(self)@.mem_list[j],
            final(self)@.mem_list[idx as int].rank_num == old(self)@.mem_list[idx as int].rank_num,
            r is Ok ==> final(self)@.mem_list[idx as int].state != MemEntryState::LoadMe,
            old(self)@.mem_list[idx as int].state != MemEntryState::Loaded ==> final(self)@.script_cur_ptr - old(self)@.script_cur_ptr
                == spec_arena_share(final(self)@.mem_list[idx as int]),
    {
        let e = self.mem_list[idx];
        let dest: usize = match e.entry_type {
            EntryType::PolyAnim => {
                if e.size > MEM_BLOCK_SIZE - self.vid_cur_ptr {
                    self.set_state(idx, MemEntryState::NotNeeded);
                    return Ok(false);
                }
                self.vid_cur_ptr
            },
            _ => {
                if e.size > self.vid_bak_ptr - self.script_cur_ptr {
                    self.set_state(idx, MemEntryState::NotNeeded);
                    return Ok(false);
                }
                self.script_cur_ptr
            },
        };
        if e.bank_id == 0 {
            self.set_state(idx, MemEntryState::NotNeeded);
            return Ok(false);
        }
        let data = match self.entry_data(idx) {
            Ok(data) => data,
            Err(x) => {
                return Err(x);
            },
        };
        self.write_memory(dest, &data);
        if let EntryType::PolyAnim = e.entry_type {
            self.copy_vid_ptr = true;
            self.set_state(idx, MemEntryState::NotNeeded);
        } else {
            self.mem_list[idx] = MemEntry { state: MemEntryState::Loaded, buf_ptr: dest, ..e };
            self.script_cur_ptr = self.script_cur_ptr + e.size;
        }
        assert(self@ =~= old(self)@.load_entry(idx as int).0);
        Ok(true)
    }

    /// Loads every marked entry: the entry of the highest rank first,
    /// and of entries of one rank the last in the table. Returns the
    /// entries whose banks were read, in that order. The first error
    /// ends the loading and leaves the entries not yet loaded marked.
    pub fn load_marked_as_needed(&mut self) -> (r: Result<Vec<usize>, Error>)
        requires
            old(self).wf(),
        ensures
            final(self).wf(),
            final(self)@ == old(self)@.load_marked_as_needed().view,
            load_result(r) == run_result(old(self)@.load_marked_as_needed()),
            final(self)@.mem_list.len() == old(self)@.mem_list.len(),
            r is Ok ==> forall|j: int|
                0 <= j < final(self)@.mem_list.len() ==> (#[trigger] final(self)@.mem_list[j]).state
                    != MemEntryState::LoadMe,
            r is Ok ==> forall|a: int, b: int|
                0 <= a < b < r->Ok_0@.len() ==> spec_loads_before(
                    old(self)@.mem_list,
                    #[trigger] r->Ok_0@[a] as int,
                    #[trigger] r->Ok_0@[b] as int,
                ),
            r is Ok ==> forall|a: int|
                0 <= a < r->Ok_0@.len() ==> (#[trigger] r->Ok_0@[a]) < old(self)@.mem_list.len() && old(self)@.mem_list[r->Ok_0@[a] as int].state == MemEntryState::LoadMe,
            r is Ok && (forall|j: int|
                0 <= j < old(self)@.mem_list.len() ==> (#[trigger] old(self)@.mem_list[j]).state
                    != MemEntryState::Loaded) && old(self)@.script_cur_ptr == 0 ==> final(self)@.script_cur_ptr
                == spec_loaded_size(final(self)@.mem_list, final(self)@.mem_list.len()),
    {
        let n = self.mem_list.len();
        let mut loaded: Vec<usize> = Vec::new();
        let mut fuel: usize = n;
        let ghost goal = old(self)@.load_marked_as_needed();
        let ghost clean = (forall|j: int|
            0 <= j < old(self)@.mem_list.len() ==> (#[trigger] old(self)@.mem_list[j]).state != MemEntryState::Loaded)
            && old(self)@.script_cur_ptr == 0;
        proof {
            lemma_count_load_me_bounds(self@.mem_list, 0, n as nat);
            if clean {
                lemma_loaded_size_none(self@.mem_list, n as nat);
            }
            assert(loaded_view(loaded@) =~= Seq::<int>::empty());
            assert forall|j: int| 0 <= j < n && (#[trigger] self@.mem_list[j]).state == MemEntryState::LoadMe implies spec_count_load_me(
                self@.mem_list,
                n as nat,
            ) >= 1 by {
                lemma_count_load_me_bounds(self@.mem_list, j, n as nat);
            }
        }
        while fuel > 0
            invariant
                self.wf(),
                n == self@.mem_list.len(),
                n == old(self)@.mem_list.len(),
                goal == old(self)@.load_marked_as_needed(),
                goal.view == self@.load_all(fuel as nat).view,
                goal.error == self@.load_all(fuel as nat).error,
                goal.loaded == loaded_view(loaded@) + self@.load_all(fuel as nat).loaded,
                spec_count_load_me(self@.mem_list, n as nat) <= fuel,
                forall|j: int|
                    0 <= j < n && (#[trigger] self@.mem_list[j]).state == MemEntryState::LoadMe ==> spec_count_load_me(
                        self@.mem_list,
                        n as nat,
                    ) >= 1,
                forall|j: int| 0 <= j < n ==> (#[trigger] self@.mem_list[j]).rank_num == old(self)@.mem_list[j].rank_num,
                forall|j: int|
                    0 <= j < n && (#[trigger] self@.mem_list[j]).state == MemEntryState::LoadMe ==> old(self)@.mem_list[j].state == MemEntryState::LoadMe,
                forall|a: int, b: int|
                    0 <= a < b < loaded@.len() ==> spec_loads_before(
                        old(self)@.mem_list,
                        #[trigger] loaded@[a] as int,
                        #[trigger] loaded@[b] as int,
                    ),
                forall|a: int|
                    0 <= a < loaded@.len() ==> (#[trigger] loaded@[a]) < n && old(self)@.mem_list[loaded@[a] as int].state
                        == MemEntryState::LoadMe,
                forall|a: int, j: int|
                    0 <= a < loaded@.len() && 0 <= j < n && (#[trigger] self@.mem_list[j]).state == MemEntryState::LoadMe
                        ==> spec_loads_before(old(self)@.mem_list, #[trigger] loaded@[a] as int, j),
                clean ==> self@.script_cur_ptr == spec_loaded_size(self@.mem_list, n as nat),
            ensures
                self.wf(),
                n == self@.mem_list.len(),
                goal.view == self@,
                goal.error is None,
                goal.loaded == loaded_view(loaded@),
                forall|j: int| 0 <= j < n ==> (#[trigger] self@.mem_list[j]).state != MemEntryState::LoadMe,
                forall|a: int, b: int|
                    0 <= a < b < loaded@.len() ==> spec_loads_before(
                        old(self)@.mem_list,
                        #[trigger] loaded@[a] as int,
                        #[trigger] loaded@[b] as int,
                    ),
                forall|a: int|
                    0 <= a < loaded@.len() ==> (#[trigger] loaded@[a]) < n && old(self)@.mem_list[loaded@[a] as int].state
                        == MemEntryState::LoadMe,
                clean ==> self@.script_cur_ptr == spec_loaded_size(self@.mem_list, n as nat),
            decreases fuel,
        {
            let idx = match self.find_next_load() {
                Some(idx) => idx,
                None => {
                    break ;
                },
            };
            let ghost before = self@;
            let ghost log_before = loaded_view(loaded@);
            let r = self.load_entry(idx);
            match r {
                Err(e) => {
                    return Err(e);
                },
                Ok(read) => {
                    proof {
                        lemma_count_load_me_update(before.mem_list, idx as int, self@.mem_list[idx as int], n as nat);
                        assert(self@.mem_list =~= before.mem_list.update(idx as int, self@.mem_list[idx as int]));
                        lemma_loaded_size_update(before.mem_list, idx as int, self@.mem_list[idx as int], n as nat);
                    }
                    if read {
                        loaded.push(idx);
                        assert(loaded_view(loaded@) =~= log_before + seq![idx as int]);
                        proof {
                            let rest = self@.load_all((fuel - 1) as nat).loaded;
                            assert((log_before + seq![idx as int]) + rest =~= log_before + (seq![idx as int] + rest));
                        }
                    }
                },
            }
            fuel = fuel - 1;
            proof {
                assert forall|j: int| 0 <= j < n && (#[trigger] self@.mem_list[j]).state == MemEntryState::LoadMe implies spec_count_load_me(
                    self@.mem_list,
                    n as nat,
                ) >= 1 by {
                    lemma_count_load_me_bounds(self@.mem_list, j, n as nat);
                }
            }
        }
        Ok(loaded)
    }

    /// Loads an entry that is not needed yet, and with it any other
    /// marked entry. Returns the entries whose banks were read. An entry
    /// that is loaded already, or that the table does not have, loads
    /// nothing.
    pub fn load_memory_entry(&mut self, resource_id: u16) -> (r: Result<Vec<usize>, Error>)
        requires
            old(self).wf(),
        ensures
            final(self).wf(),
            final(self)@ == old(self)@.load_memory_entry(resource_id).view,
            load_result(r) == run_result(old(self)@.load_memory_entry(resource_id)),
    {
        let idx = resource_id as usize;
        if idx < self.mem_list.len() && self.mem_list[idx].state == MemEntryState::NotNeeded {
            self.set_state(idx, MemEntryState::LoadMe);
            self.load_marked_as_needed()
        } else {
            let loaded: Vec<usize> = Vec::new();
            assert(loaded_view(loaded@) =~= Seq::<int>::empty());
            Ok(loaded)
        }
    }

    /// Does the work of `setup_part`: refuses an id that is no part,
    /// leaves the current part alone, and else marks and loads the
    /// entries of the part and sets its segments.
    fn load_part(&mut self, part_id: u16) -> (r: Result<Vec<usize>, Error>)
        requires
            old(self).wf(),
        ensures
            final(self).wf(),
            final(self)@ == old(self)@.setup_part(part_id).view,
            load_result(r) == run_result(old(self)@.setup_part(part_id)),
            r is Ok ==> loaded_view(r->Ok_0@) == old(self)@.setup_part(part_id).loaded,
            r is Ok && part_id != old(self)@.current_part_id ==> final(self)@.script_cur_ptr == spec_loaded_size(
                final(self)@.mem_list,
                final(self)@.mem_list.len(),
            ) && final(self)@.script_cur_ptr <= final(self)@.vid_bak_ptr && final(self)@.current_part_id == part_id,
            r is Ok ==> forall|a: int, b: int|
                0 <= a < b < r->Ok_0@.len() ==> spec_loads_before(
                    old(self)@.mem_list,
                    #[trigger] r->Ok_0@[a] as int,
                    #[trigger] r->Ok_0@[b] as int,
                ),
    {
        let p = match part(part_id) {
            Some(p) => p,
            None => {
                return Err(Error::InvalidPart);
            },
        };
        if part_id == self.current_part_id {
            let loaded: Vec<usize> = Vec::new();
            assert(loaded_view(loaded@) =~= Seq::<int>::empty());
            return Ok(loaded);
        }
        let n = self.mem_list.len();
        let has_video2 = match p.video2 {
            Some(i) => i < n,
            None => true,
        };
        if p.palette >= n || p.code >= n || p.video1 >= n || !has_video2 {
            return Err(Error::MemlistCorrupt);
        }
        self.invalidate_all();
        self.set_state(p.palette, MemEntryState::LoadMe);
        self.set_state(p.code, MemEntryState::LoadMe);
        self.set_state(p.video1, MemEntryState::LoadMe);
        match p.video2 {
            Some(i) => {
                self.set_state(i, MemEntryState::LoadMe);
            },
            None => {},
        }
        assert(self@ == old(self)@.marked_for_part(part_id));
        let ghost marked = self@;
        let loaded = match self.load_marked_as_needed() {
            Ok(loaded) => loaded,
            Err(e) => {
                return Err(e);
            },
        };
        self.seg_palettes = self.mem_list[p.palette].buf_ptr;
        self.seg_bytecode = self.mem_list[p.code].buf_ptr;
        self.seg_cinematic = self.mem_list[p.video1].buf_ptr;
        match p.video2 {
            Some(i) => {
                self.seg_video2 = self.mem_list[i].buf_ptr;
            },
            None => {},
        }
        self.current_part_id = part_id;
        self.script_bak_ptr = self.script_cur_ptr;
        assert(self@ =~= marked.load_marked_as_needed().view.with_segments(part_id));
        Ok(loaded)
    }

    /// Sets up a part of the game: marks every entry as not needed,
    /// empties the arena, loads the palettes, the bytecode and the
    /// polygons of the part, and notes where they lie. Returns the
    /// entries whose banks were read, in the order of loading. An id that
    /// is no part is refused and nothing changes; the part that is
    /// current already is left as it is. A load that fails ends the
    /// setup with nothing of the failing entry in the arena, and the
    /// part that was current stays.
    pub fn setup_part(&mut self, part_id: u16) -> (r: Result<Vec<usize>, Error>)
        requires
            old(self).wf(),
        ensures
            final(self).wf(),
            final(self)@ == old(self)@.setup_part(part_id).view,
            load_result(r) == run_result(old(self)@.setup_part(part_id)),
            !spec_is_part(part_id) ==> r == Err::<Vec<usize>, Error>(Error::InvalidPart) && final(self)@ == old(self)@,
            r is Ok && part_id != old(self)@.current_part_id ==> final(self)@.script_cur_ptr == spec_loaded_size(
                final(self)@.mem_list,
                final(self)@.mem_list.len(),
            ) && final(self)@.script_cur_ptr <= final(self)@.vid_bak_ptr && final(self)@.current_part_id == part_id,
            r is Ok ==> forall|a: int, b: int|
                0 <= a < b < r->Ok_0@.len() ==> spec_loads_before(
                    old(self)@.mem_list,
                    #[trigger] r->Ok_0@[a] as int,
                    #[trigger] r->Ok_0@[b] as int,
                ),
            r is Ok && part_id != old(self)@.current_part_id ==> final(self)@.part_is_set_up(
                part_id,
                loaded_view(r->Ok_0@),
            ),
            r is Err ==> final(self)@.same_part(old(self)@),
            r is Err && spec_is_part(part_id) && old(self)@.has_part(part_id) ==> final(self)@.stands_at_failure(
                r->Err_0,
            ),
    {
        proof {
            self@.lemma_setup_part(part_id);
        }
        self.load_part(part_id)
    }
}

/// Number of bytes of a background in the arena.
pub const PAGE_BYTES: usize = 8000;

/// Number of pixels of a background.
pub const PAGE_PIXELS: usize = 64000;

/// Where the patterns of a music resource start.
pub const MUSIC_PATTERNS: usize = 0xc0;

/// Where the order table of a music resource starts.
pub const MUSIC_ORDER_TABLE: usize = 0x40;

/// Where a music resource gives the number of places of its order table.
pub const MUSIC_NUM_ORDER: usize = 0x3e;

/// Number of instruments of a music resource.
pub const MUSIC_INSTRUMENTS: usize = 15;

/// Size of the header of a sound resource.
pub const SOUND_HEADER: usize = 8;

/// Bit `j` of a byte of a bit plane, counted from the left.
pub open spec fn spec_plane_bit(b: u8, j: int) -> u8 {
    if (b << (j as u32)) & 0x80 != 0 {
        1u8
    } else {
        0u8
    }
}

/// The pixel that four bytes of four bit planes give in column `j`, the
/// first plane in the highest bit.
pub open spec fn spec_planar_pixel(plane3: u8, plane2: u8, plane1: u8, plane0: u8, j: int) -> u8 {
    (((((spec_plane_bit(plane3, j) << 1) | spec_plane_bit(plane2, j)) << 1) | spec_plane_bit(plane1, j)) << 1) | spec_plane_bit(
        plane0,
        j,
    )
}

/// An instrument that a function returned, as mathematical values.
pub open spec fn instrument_result(r: Result<Option<SfxInstrument>, Error>) -> Result<Option<InstrumentView>, Error> {
    match r {
        Ok(i) => Ok(instrument_view(i)),
        Err(e) => Err(e),
    }
}

/// A sound that a function returned, as mathematical values.
pub open spec fn chunk_view(c: Option<MixerChunk>) -> Option<MixerChunkView> {
    match c {
        Some(c) => Some(c@),
        None => None,
    }
}

/// A music module that a function returned, as mathematical values.
pub open spec fn module_result(r: Result<Option<SfxModule>, Error>) -> Result<Option<SfxModuleView>, Error> {
    match r {
        Ok(Some(m)) => Ok(Some(m@)),
        Ok(None) => Ok(None),
        Err(e) => Err(e),
    }
}

impl ResourceView {
    /// Where byte `k` of each bit plane of the background lies in the
    /// arena: one after the other for the PC and the Amiga, and in
    /// pairs every eight bytes for the Atari ST.
    pub open spec fn page_byte_offset(self, k: int) -> int {
        match self.asset_platform {
            AssetPlatform::AtariST => self.vid_cur_ptr + 8 * (k / 2) + k % 2,
            _ => self.vid_cur_ptr + k,
        }
    }

    /// Pixel `n` of the background in the arena. On the PC and the Amiga
    /// the four bit planes lie `PAGE_BYTES` bytes apart, on the Atari ST
    /// two bytes apart; the last plane gives the highest bit.
    pub open spec fn page_pixel(self, n: int) -> u8 {
        let off = self.page_byte_offset(n / 8);
        match self.asset_platform {
            AssetPlatform::AtariST => spec_planar_pixel(
                self.memory[off + 6],
                self.memory[off + 4],
                self.memory[off + 2],
                self.memory[off],
                n % 8,
            ),
            _ => spec_planar_pixel(
                self.memory[off + 3 * PAGE_BYTES],
                self.memory[off + 2 * PAGE_BYTES],
                self.memory[off + PAGE_BYTES],
                self.memory[off],
                n % 8,
            ),
        }
    }

    /// The background in the arena, a byte for each pixel.
    pub open spec fn video_page_data(self) -> Seq<u8> {
        Seq::new(PAGE_PIXELS as nat, |n: int| self.page_pixel(n))
    }

    /// The sound of a loaded entry: its first two words give the
    /// lengths, in words, of the part played once and of the repeated
    /// part, and the samples follow the header. There is none for an
    /// entry that is not loaded or whose samples do not lie in the arena.
    pub open spec fn mixer_chunk(self, resource_id: u16) -> Option<MixerChunkView> {
        let e = self.mem_list[resource_id as int];
        let len = spec_word_at(self.memory, e.buf_ptr as int) * 2;
        let loop_len = spec_word_at(self.memory, e.buf_ptr + 2) * 2;
        if resource_id >= self.mem_list.len() || e.state != MemEntryState::Loaded || e.buf_ptr + SOUND_HEADER
            > self.memory.len() || e.buf_ptr + SOUND_HEADER + len + loop_len > self.memory.len() {
            None
        } else {
            Some(
                spec_chunk(
                    self.memory.subrange(e.buf_ptr + SOUND_HEADER, e.buf_ptr + SOUND_HEADER + len + loop_len),
                    len as usize,
                    loop_len as usize,
                ),
            )
        }
    }

    /// The instrument that the record at `at` of a music resource
    /// describes: the id of a sound entry, 0 for none, and a volume. The
    /// instrument is the sound resource with the bytes 8 to 11 set to 0.
    /// An id that is not that of a loaded sound in the arena makes the
    /// bank corrupt.
    pub open spec fn instrument(self, at: int) -> Result<Option<InstrumentView>, Error> {
        let id = spec_word_at(self.memory, at);
        let e = self.mem_list[id as int];
        if id == 0 {
            Ok(None)
        } else if id >= self.mem_list.len() || e.state != MemEntryState::Loaded || e.entry_type != EntryType::Sound
            || e.buf_ptr + e.size > self.memory.len() {
            Err(Error::BankCorrupt)
        } else if e.size == 0 {
            Ok(None)
        } else {
            Ok(
                Some(
                    InstrumentView {
                        data: Seq::new(
                            e.size as nat,
                            |k: int|
                                if 8 <= k < 12 {
                                    0u8
                                } else {
                                    self.memory[e.buf_ptr + k]
                                },
                        ),
                        volume: spec_word_at(self.memory, at + 2),
                    },
                ),
            )
        }
    }

    /// The first `count` instruments of the records that start at `base`.
    pub open spec fn instruments(self, base: int, count: nat) -> Result<Seq<Option<InstrumentView>>, Error>
        decreases count,
    {
        if count == 0 {
            Ok(Seq::empty())
        } else {
            match self.instruments(base, (count - 1) as nat) {
                Err(e) => Err(e),
                Ok(prev) => match self.instrument(base + 4 * (count - 1)) {
                    Err(e) => Err(e),
                    Ok(i) => Ok(prev.push(i)),
                },
            }
        }
    }

    /// An error in the first instruments is the error of all of them.
    pub proof fn lemma_instruments_err(self, base: int, s: nat, n: nat, e: Error)
        requires
            s <= n,
            self.instruments(base, s) == Err::<Seq<Option<InstrumentView>>, Error>(e),
        ensures
            self.instruments(base, n) == Err::<Seq<Option<InstrumentView>>, Error>(e),
        decreases n,
    {
        if s < n {
            self.lemma_instruments_err(base, s, (n - 1) as nat, e);
        }
    }

    /// Whether an entry is a loaded music resource.
    pub open spec fn is_music(self, resource_id: u16) -> bool {
        resource_id < self.mem_list.len() && self.mem_list[resource_id as int].state == MemEntryState::Loaded
            && self.mem_list[resource_id as int].entry_type == EntryType::Music
    }

    /// The music module of an entry, set to start at place `pos` of its
    /// order table. An entry that is not a loaded music resource has
    /// none. A resource that is too short for its header, or that does
    /// not lie in the arena, makes the bank corrupt.
    pub open spec fn sfx_module(self, resource_id: u16, pos: u8) -> Result<Option<SfxModuleView>, Error> {
        let e = self.mem_list[resource_id as int];
        if !self.is_music(resource_id) {
            Ok(None)
        } else if e.size < MUSIC_PATTERNS || e.buf_ptr + e.size > self.memory.len() {
            Err(Error::BankCorrupt)
        } else {
            match self.instruments(e.buf_ptr + 2, MUSIC_INSTRUMENTS as nat) {
                Err(x) => Err(x),
                Ok(samples) => Ok(
                    Some(
                        SfxModuleView {
                            data: self.memory.subrange(e.buf_ptr + MUSIC_PATTERNS, e.buf_ptr + e.size),
                            cur_pos: 0,
                            cur_order: pos,
                            num_order: spec_word_at(self.memory, e.buf_ptr + MUSIC_NUM_ORDER) as u8,
                            order_table: self.memory.subrange(e.buf_ptr + MUSIC_ORDER_TABLE, e.buf_ptr + MUSIC_PATTERNS),
                            samples,
                        },
                    ),
                ),
            }
        }
    }

    /// The tempo of the music of an entry: `delay`, or the first word of
    /// the resource if `delay` is 0.
    pub open spec fn sfx_delay(self, resource_id: u16, delay: u16) -> u16 {
        if delay == 0 {
            spec_word_at(self.memory, self.mem_list[resource_id as int].buf_ptr as int)
        } else {
            delay
        }
    }
}

/// Bit `j` of a byte of a bit plane, counted from the left.
pub fn plane_bit(b: u8, j: u32) -> (r: u8)
    requires
        j < 8,
    ensures
        r == spec_plane_bit(b, j as int),
{
    if (b << j) & 0x80 != 0 {
        1
    } else {
        0
    }
}

/// The pixel that four bytes of four bit planes give in column `j`.
pub fn planar_pixel(plane3: u8, plane2: u8, plane1: u8, plane0: u8, j: u32) -> (r: u8)
    requires
        j < 8,
    ensures
        r == spec_planar_pixel(plane3, plane2, plane1, plane0, j as int),
{
    (((((plane_bit(plane3, j) << 1) | plane_bit(plane2, j)) << 1) | plane_bit(plane1, j)) << 1) | plane_bit(plane0, j)
}

impl Resource {
    /// Unpacks the background in the arena into a byte for each pixel.
    pub fn video_page_data(&self) -> (buf: Vec<u8>)
        requires
            self.wf(),
        ensures
            buf@ == self@.video_page_data(),
    {
        let mut buf: Vec<u8> = Vec::new();
        let mut k: usize = 0;
        while k < PAGE_BYTES
            invariant
                k <= PAGE_BYTES,
                self.wf(),
                buf@.len() == 8 * k,
                forall|n: int| 0 <= n < 8 * k ==> #[trigger] buf@[n] == self@.page_pixel(n),
            decreases PAGE_BYTES - k,
        {
            let (plane3, plane2, plane1, plane0) = match self.asset_platform {
                AssetPlatform::AtariST => {
                    let off: usize = self.vid_cur_ptr + 8 * (k / 2) + k % 2;
                    (self.memory[off + 6], self.memory[off + 4], self.memory[off + 2], self.memory[off])
                },
                _ => {
                    let off: usize = self.vid_cur_ptr + k;
                    (
                        self.memory[off + 3 * PAGE_BYTES],
                        self.memory[off + 2 * PAGE_BYTES],
                        self.memory[off + PAGE_BYTES],
                        self.memory[off],
                    )
                },
            };
            let mut j: u32 = 0;
            while j < 8
                invariant
                    j <= 8,
                    k < PAGE_BYTES,
                    buf@.len() == 8 * k + j,
                    forall|n: int| 0 <= n < 8 * k + j ==> #[trigger] buf@[n] == self@.page_pixel(n),
                    forall|jj: int| 0 <= jj < 8 ==> self@.page_pixel(8 * k + jj) == spec_planar_pixel(plane3, plane2, plane1, plane0, jj),
                decreases 8 - j,
            {
                buf.push(planar_pixel(plane3, plane2, plane1, plane0, j));
                j = j + 1;
            }
            k = k + 1;
        }
        assert(buf@ =~= self@.video_page_data());
        buf
    }

    /// The sound of a loaded entry, made ready for the mixer.
    pub fn get_entry_mixer_chunk(&self, resource_id: u16) -> (r: Option<MixerChunk>)
        ensures
            chunk_view(r) == self@.mixer_chunk(resource_id),
    {
        let id = resource_id as usize;
        if id >= self.mem_list.len() {
            return None;
        }
        let entry = self.mem_list[id];
        let total = self.memory.len();
        if entry.state != MemEntryState::Loaded || total < SOUND_HEADER || entry.buf_ptr > total - SOUND_HEADER {
            return None;
        }
        let memory = self.memory.as_slice();
        let len: usize = word_at(memory, entry.buf_ptr) as usize * 2;
        let loop_len: usize = word_at(memory, entry.buf_ptr + 2) as usize * 2;
        let data_len: usize = len + loop_len;
        if data_len > total - SOUND_HEADER - entry.buf_ptr {
            return None;
        }
        let start: usize = entry.buf_ptr + SOUND_HEADER;
        Some(MixerChunk::new(slice_subrange(memory, start, start + data_len), len, loop_len))
    }

    /// Makes the instrument that the record at `at` of a music resource
    /// describes.
    pub fn prepare_instrument(&self, at: usize) -> (r: Result<Option<SfxInstrument>, Error>)
        requires
            at + 4 <= self@.memory.len(),
        ensures
            instrument_result(r) == self@.instrument(at as int),
    {
        let memory = self.memory.as_slice();
        let total = memory.len();
        let resource_id = word_at(memory, at) as usize;
        if resource_id == 0 {
            return Ok(None);
        }
        let volume = word_at(memory, at + 2);
        if resource_id >= self.mem_list.len() {
            return Err(Error::BankCorrupt);
        }
        let entry = self.mem_list[resource_id];
        if entry.state != MemEntryState::Loaded || entry.entry_type != EntryType::Sound || entry.buf_ptr > total
            || entry.size > total - entry.buf_ptr {
            return Err(Error::BankCorrupt);
        }
        if entry.size == 0 {
            return Ok(None);
        }
        let mut data: Vec<u8> = Vec::new();
        let mut k: usize = 0;
        while k < entry.size
            invariant
                k <= entry.size,
                total == self@.memory.len(),
                entry.buf_ptr + entry.size <= total,
                data@.len() == k,
                forall|m: int|
                    0 <= m < k ==> #[trigger] data@[m] == if 8 <= m < 12 {
                        0u8
                    } else {
                        self@.memory[entry.buf_ptr + m]
                    },
            decreases entry.size - k,
        {
            if 8 <= k && k < 12 {
                data.push(0);
            } else {
                data.push(self.memory[entry.buf_ptr + k]);
            }
            k = k + 1;
        }
        let instrument = SfxInstrument::new(data, volume);
        assert(instrument_view(Some(instrument))->Some_0 =~= self@.instrument(at as int)->Ok_0->Some_0);
        Ok(Some(instrument))
    }

    /// Makes the music module of a loaded music entry, set to start at
    /// place `pos` of its order table. A `delay` of 0 is replaced by the
    /// tempo that the resource gives.
    #[verifier::loop_isolation(false)]
    pub fn load_sfx_module(&self, resource_id: u16, delay: &mut u16, pos: u8) -> (r: Result<Option<SfxModule>, Error>)
        ensures
            module_result(r) == self@.sfx_module(resource_id, pos),
            *final(delay) == if r is Ok && r->Ok_0 is Some {
                self@.sfx_delay(resource_id, *old(delay))
            } else {
                *old(delay)
            },
    {
        let id = resource_id as usize;
        if id >= self.mem_list.len() {
            return Ok(None);
        }
        let entry = self.mem_list[id];
        if entry.state != MemEntryState::Loaded || entry.entry_type != EntryType::Music {
            return Ok(None);
        }
        let memory = self.memory.as_slice();
        let total = memory.len();
        if entry.size < MUSIC_PATTERNS || entry.buf_ptr > total || entry.size > total - entry.buf_ptr {
            return Err(Error::BankCorrupt);
        }
        let base = entry.buf_ptr;
        let num_order: u8 = #[verifier::truncate] (word_at(memory, base + MUSIC_NUM_ORDER) as u8);
        let mut order_table = [0u8;ORDER_TABLE_SIZE];
        let mut i: usize = 0;
        while i < ORDER_TABLE_SIZE
            invariant
                i <= ORDER_TABLE_SIZE,
                total == memory@.len(),
                base + MUSIC_PATTERNS <= total,
                forall|m: int| 0 <= m < i ==> #[trigger] order_table@[m] == memory@[base + MUSIC_ORDER_TABLE + m],
            decreases ORDER_TABLE_SIZE - i,
        {
            order_table[i] = memory[base + MUSIC_ORDER_TABLE + i];
            i = i + 1;
        }
        let mut samples: Vec<Option<SfxInstrument>> = Vec::new();
        let mut s: usize = 0;
        assert(Seq::new(0nat, |m: int| instrument_view(samples@[m])) =~= Seq::<Option<InstrumentView>>::empty());
        while s < MUSIC_INSTRUMENTS
            invariant
                s <= MUSIC_INSTRUMENTS,
                total == self@.memory.len(),
                base + MUSIC_PATTERNS <= total,
                samples@.len() == s,
                self@.instruments(base + 2, s as nat) == Ok::<Seq<Option<InstrumentView>>, Error>(
                    Seq::new(s as nat, |m: int| instrument_view(samples@[m])),
                ),
            decreases MUSIC_INSTRUMENTS - s,
        {
            let ghost before = Seq::new(s as nat, |m: int| instrument_view(samples@[m]));
            match self.prepare_instrument(base + 2 + s * 4) {
                Ok(instrument) => {
                    samples.push(instrument);
                    assert(Seq::new((s + 1) as nat, |m: int| instrument_view(samples@[m])) =~= before.push(
                        instrument_view(instrument),
                    ));
                },
                Err(e) => {
                    proof {
                        assert(self@.instruments(base + 2, (s + 1) as nat) == Err::<Seq<Option<InstrumentView>>, Error>(e));
                        self@.lemma_instruments_err(base + 2, (s + 1) as nat, MUSIC_INSTRUMENTS as nat, e);
                    }
                    return Err(e);
                },
            }
            s = s + 1;
        }
        if *delay == 0 {
            *delay = word_at(memory, base);
        }
        let data = slice_to_vec(slice_subrange(memory, base + MUSIC_PATTERNS, base + entry.size));
        let module = SfxModule::new(data, pos, num_order, order_table, samples);
        assert(module@.samples =~= self@.instruments(base + 2, MUSIC_INSTRUMENTS as nat)->Ok_0);
        assert(module@.order_table =~= self@.memory.subrange(base + MUSIC_ORDER_TABLE, base + MUSIC_PATTERNS));
        Ok(Some(module))
    }
}

impl ResourceView {
    /// Loading an entry keeps the resource manager well formed.
    pub proof fn lemma_load_entry_wf(self, idx: int)
        requires
            self.wf(),
            0 <= idx < self.mem_list.len(),
        ensures
            self.load_entry(idx).0.wf(),
            self.load_entry(idx).0.mem_list.len() == self.mem_list.len(),
    {
    }

    /// Loading the marked entries keeps the resource manager well formed.
    pub proof fn lemma_load_all_wf(self, fuel: nat)
        requires
            self.wf(),
        ensures
            self.load_all(fuel).view.wf(),
        decreases fuel,
    {
        let i = spec_next_load(self.mem_list, self.mem_list.len());
        lemma_next_load(self.mem_list, self.mem_list.len());
        if fuel != 0 && i >= 0 {
            self.lemma_load_entry_wf(i);
            let (next, outcome) = self.load_entry(i);
            if outcome is Ok {
                next.lemma_load_all_wf((fuel - 1) as nat);
            }
        }
    }

    /// Loading one more entry keeps the resource manager well formed.
    pub proof fn lemma_load_memory_entry_wf(self, resource_id: u16)
        requires
            self.wf(),
        ensures
            self.load_memory_entry(resource_id).view.wf(),
    {
        if resource_id < self.mem_list.len() && self.mem_list[resource_id as int].state == MemEntryState::NotNeeded {
            let marked = self.with_state(resource_id as int, MemEntryState::LoadMe);
            marked.lemma_load_all_wf(marked.mem_list.len());
        }
    }

    /// Setting up a part keeps the resource manager well formed.
    pub proof fn lemma_setup_part_wf(self, part_id: u16)
        requires
            self.wf(),
        ensures
            self.setup_part(part_id).view.wf(),
    {
        if spec_is_part(part_id) && part_id != self.current_part_id && self.has_part(part_id) {
            let marked = self.marked_for_part(part_id);
            marked.lemma_load_all_wf(marked.mem_list.len());
        }
    }
}

} // verus!
