use crate::buffer::Buffer;
use crate::error::Error;
use crate::mixer::FREQUENCE_TABLE;
use crate::mixer::MAX_VOLUME;
use crate::parts::GAME_PART_FIRST;
use crate::polygon::Point;
use crate::util::resize;
use crate::video::Palette;
use crate::vm::COLOR_BLACK;
use crate::vm::DEFAULT_ZOOM;
use crate::vm::Effect;
use crate::vm::INACTIVE_THREAD;
use crate::vm::NUM_PALETTES;
use crate::vm::PALETTE_BYTES;
use crate::vm::VM_VARIABLE_PAUSE_SLICES;
use crate::vm::VM_VARIABLE_SCROLL_Y;
use crate::vm::VideoBufferSeg;
use crate::vm::VirtualMachine;
use crate::vm::VmView;
use crate::vm::channel_of;
use crate::vm::effect_result;
use vstd::prelude::*;
use vstd::slice::slice_subrange;

verus! {

impl VirtualMachine {
    /// Stages the palette whose number is the high byte of the operand.
    /// A number of `NUM_PALETTES` or more is passed over.
    #[verifier::rlimit(50)]
    pub fn op_set_palette(&mut self) -> (r: Result<Effect, Error>)
        requires
            old(self).wf(),
        ensures
            final(self).wf(),
            final(self)@ == old(self)@.op_set_palette().0,
            effect_result(r) == old(self)@.op_set_palette().1,
    {
        proof {
            reveal(VmView::op_set_palette);
        }
        if !self.has_bytes(2) {
            return Err(Error::BankCorrupt);
        }
        let palette_id = self.word_at(0);
        self.script_ptr = self.script_ptr + 2;
        let palette_id: u8 = #[verifier::truncate] ((palette_id >> 8) as u8);
        if palette_id >= NUM_PALETTES {
            return Ok(Effect::Nothing);
        }
        let total = self.resource.memory.len();
        let palette_offset: usize = palette_id as usize * PALETTE_BYTES;
        let seg = self.resource.seg_palettes;
        if seg > total || palette_offset + PALETTE_BYTES > total - seg {
            return Err(Error::BankCorrupt);
        }
        let start: usize = seg + palette_offset;
        let palette = Palette::from_bytes(
            slice_subrange(self.resource.memory.as_slice(), start, start + PALETTE_BYTES),
        );
        self.video.stage_palette(palette);
        Ok(Effect::Nothing)
    }

    /// Chooses the page to draw on.
    pub fn op_select_video_page(&mut self) -> (r: Result<Effect, Error>)
        requires
            old(self).wf(),
        ensures
            final(self).wf(),
            final(self)@ == old(self)@.op_select_video_page().0,
            effect_result(r) == old(self)@.op_select_video_page().1,
    {
        proof {
            reveal(VmView::op_select_video_page);
        }
        if !self.has_bytes(1) {
            return Err(Error::BankCorrupt);
        }
        let frame_buffer_id = self.byte_at(0);
        self.script_ptr = self.script_ptr + 1;
        self.video.change_page_ptr1(frame_buffer_id);
        Ok(Effect::Nothing)
    }

    /// Fills a page with a colour.
    pub fn op_fill_video_page(&mut self) -> (r: Result<Effect, Error>)
        requires
            old(self).wf(),
        ensures
            final(self).wf(),
            final(self)@ == old(self)@.op_fill_video_page().0,
            effect_result(r) == old(self)@.op_fill_video_page().1,
    {
        proof {
            reveal(VmView::op_fill_video_page);
        }
        if !self.has_bytes(2) {
            return Err(Error::BankCorrupt);
        }
        let page_id = self.byte_at(0);
        let color = self.byte_at(1);
        self.script_ptr = self.script_ptr + 2;
        self.video.fill_video_page(page_id, color);
        Ok(Effect::Nothing)
    }

    /// Copies a page to another, scrolled by the scroll variable.
    pub fn op_copy_video_page(&mut self) -> (r: Result<Effect, Error>)
        requires
            old(self).wf(),
        ensures
            final(self).wf(),
            final(self)@ == old(self)@.op_copy_video_page().0,
            effect_result(r) == old(self)@.op_copy_video_page().1,
    {
        proof {
            reveal(VmView::op_copy_video_page);
        }
        if !self.has_bytes(2) {
            return Err(Error::BankCorrupt);
        }
        let src_page_id = self.byte_at(0);
        let dst_page_id = self.byte_at(1);
        self.script_ptr = self.script_ptr + 2;
        let vscroll = self.variables[VM_VARIABLE_SCROLL_Y];
        self.video.copy_page(src_page_id, dst_page_id, vscroll);
        Ok(Effect::Nothing)
    }

    /// Makes a frame ready to show and ends the run of the thread for
    /// this frame. The host shows the front page when the frame time is
    /// over.
    pub fn op_blit_frame_buffer(&mut self) -> (r: Result<Effect, Error>)
        requires
            old(self).wf(),
        ensures
            final(self).wf(),
            final(self)@ == old(self)@.op_blit_frame_buffer().0,
            effect_result(r) == old(self)@.op_blit_frame_buffer().1,
    {
        proof {
            reveal(VmView::op_blit_frame_buffer);
        }
        if !self.has_bytes(1) {
            return Err(Error::BankCorrupt);
        }
        let page_id = self.byte_at(0);
        self.script_ptr = self.script_ptr + 1;
        let pause_slices = self.variables[VM_VARIABLE_PAUSE_SLICES];
        self.variables[0xf7] = 0;
        let palette = self.video.update_display(page_id);
        self.goto_next_thread = true;
        Ok(Effect::Blit(palette, pause_slices))
    }

    /// Makes the thread inactive and ends its run.
    pub fn op_kill_thread(&mut self) -> (r: Result<Effect, Error>)
        requires
            old(self).wf(),
        ensures
            final(self).wf(),
            final(self)@ == old(self)@.op_kill_thread().0,
            effect_result(r) == old(self)@.op_kill_thread().1,
    {
        proof {
            reveal(VmView::op_kill_thread);
        }
        self.script_ptr = INACTIVE_THREAD;
        self.goto_next_thread = true;
        Ok(Effect::Nothing)
    }

    /// Draws a text of the table of texts.
    pub fn op_draw_string(&mut self) -> (r: Result<Effect, Error>)
        requires
            old(self).wf(),
        ensures
            final(self).wf(),
            final(self)@ == old(self)@.op_draw_string().0,
            effect_result(r) == old(self)@.op_draw_string().1,
    {
        proof {
            reveal(VmView::op_draw_string);
        }
        if !self.has_bytes(5) {
            return Err(Error::BankCorrupt);
        }
        let string_id = self.word_at(0);
        let x = self.byte_at(2) as u16;
        let y = self.byte_at(3) as u16;
        let color = self.byte_at(4);
        self.script_ptr = self.script_ptr + 5;
        self.video.draw_string_id(color, x, y, string_id, self.scale);
        Ok(Effect::Nothing)
    }

    /// Plays a sound on a channel, or silences the channel if the volume
    /// is 0. The channel is taken modulo 4. A sound that is not loaded is
    /// passed over; a rate that the table of rates does not have is an
    /// unknown opcode.
    #[verifier::rlimit(50)]
    pub fn op_play_sound(&mut self) -> (r: Result<Effect, Error>)
        requires
            old(self).wf(),
        ensures
            final(self).wf(),
            final(self)@ == old(self)@.op_play_sound().0,
            effect_result(r) == old(self)@.op_play_sound().1,
    {
        proof {
            reveal(VmView::op_play_sound);
        }
        if !self.has_bytes(5) {
            return Err(Error::BankCorrupt);
        }
        let resource_id = self.word_at(0);
        let freq = self.byte_at(2);
        let vol = self.byte_at(3);
        let channel = self.byte_at(4);
        self.script_ptr = self.script_ptr + 5;
        if vol == 0 {
            return Ok(Effect::StopChannel(channel_of(channel)));
        }
        match self.resource.get_entry_mixer_chunk(resource_id) {
            None => Ok(Effect::Nothing),
            Some(chunk) => {
                if freq >= 40 {
                    return Err(Error::UnknownOpcode);
                }
                let frequence = FREQUENCE_TABLE[freq as usize];
                let vol = if vol > MAX_VOLUME {
                    MAX_VOLUME
                } else {
                    vol
                };
                Ok(Effect::PlayChannel(channel_of(channel), chunk, frequence, vol))
            },
        }
    }

    /// Plays the music of a resource from a place of its order table, or
    /// sets the tempo if the resource is 0 and the tempo is not, or stops
    /// the music if both are 0.
    #[verifier::rlimit(50)]
    pub fn op_play_music(&mut self) -> (r: Result<Effect, Error>)
        requires
            old(self).wf(),
        ensures
            final(self).wf(),
            final(self)@ == old(self)@.op_play_music().0,
            effect_result(r) == old(self)@.op_play_music().1,
    {
        proof {
            reveal(VmView::op_play_music);
        }
        if !self.has_bytes(5) {
            return Err(Error::BankCorrupt);
        }
        let resource_id = self.word_at(0);
        let delay = self.word_at(2);
        let pos = self.byte_at(4);
        self.script_ptr = self.script_ptr + 5;
        if resource_id != 0 {
            let mut delay = delay;
            match self.resource.load_sfx_module(resource_id, &mut delay, pos) {
                Err(e) => Err(e),
                Ok(None) => Ok(Effect::Nothing),
                Ok(Some(module)) => Ok(Effect::StartMusic(module, delay)),
            }
        } else if delay != 0 {
            Ok(Effect::SetMusicDelay(delay))
        } else {
            Ok(Effect::StopMusic)
        }
    }

    /// Takes over the background that the resources hold as page 0, if
    /// they flag one.
    #[verifier::rlimit(50)]
    pub fn refresh_background(&mut self) -> (r: Result<Effect, Error>)
        requires
            old(self).wf(),
        ensures
            final(self).wf(),
            final(self)@ == old(self)@.refresh_background().0,
            effect_result(r) == old(self)@.refresh_background().1,
    {
        if !self.resource.copy_vid_ptr {
            return Ok(Effect::Nothing);
        }
        if self.scale > 0xffff {
            return Err(Error::HostVideo);
        }
        proof {
            self.video@.lemma_dims();
        }
        let f: u64 = self.scale as u64;
        let page_size: u64 = (self.video.width * self.video.height) as u64;
        assert(f * f <= 0xffff * 0xffff) by (nonlinear_arith)
            requires
                f <= 0xffff,
        ;
        assert((320 * f) * (200 * f) == 64000 * (f * f)) by (nonlinear_arith);
        if self.scale != 1 && 64000 * (f * f) != page_size {
            return Err(Error::HostVideo);
        }
        let mut data = self.resource.video_page_data();
        if self.scale != 1 {
            data = resize(data.as_slice(), self.scale as u16);
        }
        if data.len() as u64 != page_size {
            return Err(Error::HostVideo);
        }
        self.video.copy_page_buffer(data.as_slice());
        self.resource.copy_vid_ptr = false;
        Ok(Effect::Nothing)
    }

    /// Frees what is loaded besides the part for resource 0, asks for
    /// the switch to a part for the id of a part or more, and else loads
    /// a resource and takes over a background that comes with it.
    #[verifier::rlimit(50)]
    pub fn op_update_memlist(&mut self) -> (r: Result<Effect, Error>)
        requires
            old(self).wf(),
        ensures
            final(self).wf(),
            final(self)@ == old(self)@.op_update_memlist().0,
            effect_result(r) == old(self)@.op_update_memlist().1,
    {
        proof {
            reveal(VmView::op_update_memlist);
        }
        if !self.has_bytes(2) {
            return Err(Error::BankCorrupt);
        }
        let resource_id = self.word_at(0);
        self.script_ptr = self.script_ptr + 2;
        if resource_id == 0 {
            self.resource.invalidate_resource();
            Ok(Effect::StopAudio)
        } else if resource_id >= GAME_PART_FIRST {
            self.requested_next_part = Some(resource_id);
            Ok(Effect::Nothing)
        } else {
            match self.resource.load_memory_entry(resource_id) {
                Err(e) => Err(e),
                Ok(_) => self.refresh_background(),
            }
        }
    }

    /// Draws the polygons at place `offset` of a segment of the arena.
    #[verifier::rlimit(50)]
    pub fn draw_polygons(&mut self, segment: usize, offset: usize, color: u8, zoom: u32, point: Point) -> (r: Result<
        Effect,
        Error,
    >)
        requires
            old(self).wf(),
        ensures
            final(self).wf(),
            final(self)@ == old(self)@.draw_polygons(segment, offset, color, zoom, point).0,
            effect_result(r) == old(self)@.draw_polygons(segment, offset, color, zoom, point).1,
    {
        let total = self.resource.memory.len();
        if segment > total {
            return Err(Error::BankCorrupt);
        }
        let data = slice_subrange(self.resource.memory.as_slice(), segment, total);
        let mut buffer = Buffer::with_offset(data, offset);
        match self.video.read_and_draw_polygon(&mut buffer, color, zoom, point) {
            Ok(()) => Ok(Effect::Nothing),
            Err(e) => Err(e),
        }
    }

    /// Draws a polygon as a sprite: from the second segment for the bits
    /// 11 of the flags, else from the cinematic segment, at twice the
    /// place that the first operand gives, scaled to the display.
    #[verifier::rlimit(50)]
    pub fn op_draw_poly_sprite(&mut self, val: u8) -> (r: Result<Effect, Error>)
        requires
            old(self).wf(),
        ensures
            final(self).wf(),
            final(self)@ == old(self)@.op_draw_poly_sprite(val).0,
            effect_result(r) == old(self)@.op_draw_poly_sprite(val).1,
    {
        proof {
            reveal(VmView::op_draw_poly_sprite);
        }
        let x_word = val & 0x30 == 0;
        let y_word = val & 0x0c == 0;
        let zoom_kind = val & 3;
        let y_at: usize = if x_word {
            4
        } else {
            3
        };
        let zoom_at: usize = y_at + if y_word {
            2
        } else {
            1
        };
        let len: usize = zoom_at + if zoom_kind == 1 || zoom_kind == 2 {
            1
        } else {
            0
        };
        if !self.has_bytes(len) {
            return Err(Error::BankCorrupt);
        }
        let offset: usize = self.word_at(0).wrapping_mul(2) as usize;
        let x: i32 = if x_word {
            self.word_at(2) as i32
        } else if val & 0x30 == 0x10 {
            self.variables[self.byte_at(2) as usize] as i32
        } else {
            self.byte_at(2) as i32 + 0x100
        };
        let y: i32 = if y_word {
            self.word_at(y_at) as i32
        } else if val & 0x0c == 0x04 {
            self.variables[self.byte_at(y_at) as usize] as i32
        } else {
            self.byte_at(y_at) as i32
        };
        let zoom: u32 = if zoom_kind == 1 {
            #[verifier::truncate]
            (self.variables[self.byte_at(zoom_at) as usize] as u32)
        } else if zoom_kind == 2 {
            self.byte_at(zoom_at) as u32
        } else {
            DEFAULT_ZOOM
        };
        let video2 = zoom_kind == 3;
        self.video_buffer_seg = if video2 {
            VideoBufferSeg::Video2
        } else {
            VideoBufferSeg::Cinematic
        };
        self.script_ptr = self.script_ptr + len;
        let segment = if video2 {
            self.resource.seg_video2
        } else {
            self.resource.seg_cinematic
        };
        let scale: i32 = #[verifier::truncate] (self.scale as i32);
        let point = Point { x: x.wrapping_mul(scale), y: y.wrapping_mul(scale) };
        self.draw_polygons(segment, offset, COLOR_BLACK, zoom.wrapping_mul(self.scale), point)
    }

    /// Draws a polygon of the background from the cinematic segment, at
    /// twice the place that the opcode and the first operand give. A
    /// place below the page is moved up to its last row and as far to
    /// the right.
    #[verifier::rlimit(50)]
    pub fn op_draw_poly_background(&mut self, val: u8) -> (r: Result<Effect, Error>)
        requires
            old(self).wf(),
        ensures
            final(self).wf(),
            final(self)@ == old(self)@.op_draw_poly_background(val).0,
            effect_result(r) == old(self)@.op_draw_poly_background(val).1,
    {
        proof {
            reveal(VmView::op_draw_poly_background);
        }
        if !self.has_bytes(3) {
            return Err(Error::BankCorrupt);
        }
        let lsb = self.byte_at(0);
        let msb = val & 0x7f;
        assert(val & 0x7f <= 0x7f) by (bit_vector);
        let offset: usize = (msb as usize * 0x100 + lsb as usize) * 2;
        self.video_buffer_seg = VideoBufferSeg::Cinematic;
        let mut x: i32 = self.byte_at(1) as i32;
        let mut y: i32 = self.byte_at(2) as i32;
        self.script_ptr = self.script_ptr + 3;
        proof {
            self.video@.lemma_dims();
        }
        let last_row: i32 = (self.video.height - 1) as i32;
        if y > last_row {
            x = x + (y - last_row);
            y = last_row;
        }
        let scale: i32 = #[verifier::truncate] (self.scale as i32);
        let point = Point { x: x.wrapping_mul(scale), y: y.wrapping_mul(scale) };
        let segment = self.resource.seg_cinematic;
        self.draw_polygons(segment, offset, COLOR_BLACK, DEFAULT_ZOOM.wrapping_mul(self.scale), point)
    }
}

} // verus!
