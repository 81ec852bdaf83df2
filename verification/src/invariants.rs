use crate::buffer::spec_be_u16;
use crate::error::Error;
use crate::opcode::spec_decode;
use crate::opcode::Opcode;
use crate::polygon::spec_read_polygons;
use crate::polygon::Point;
use crate::polygon::MAX_DEPTH;
use crate::util::spec_resize;
use crate::video::NUM_PAGES;
use crate::vm::EffectView;
use crate::vm::VideoBufferSeg;
use crate::vm::VmView;
use crate::vm::COLOR_BLACK;
use crate::vm::DEFAULT_ZOOM;
use crate::vm::NUM_THREADS;
use crate::vm::VM_VARIABLE_MUS_MARK;
use vstd::prelude::*;

verus! {

/// Whether thread `i` has the place and the pause after an instruction
/// that it had before it, and a place that was asked of it is still
/// asked of it.
pub open spec fn spec_keeps_threads(v: VmView, after: (VmView, Result<EffectView, Error>), i: int) -> bool {
    &&& after.0.threads.len() == NUM_THREADS
    &&& after.0.threads[i].pc == v.threads[i].pc
    &&& after.0.threads[i].is_channel_active_current == v.threads[i].is_channel_active_current
    &&& v.threads[i].requested_pc_offset is Some ==> after.0.threads[i].requested_pc_offset is Some
}

/// `op_set_set_vect` leaves the threads' places and pauses alone.
pub proof fn lemma_op_set_set_vect_keeps_threads(v: VmView, i: int)
    requires
        v.threads.len() == NUM_THREADS,
        0 <= i < NUM_THREADS,
    ensures
        spec_keeps_threads(v, v.op_set_set_vect(), i),
{
    reveal(VmView::op_set_set_vect);
}

/// `op_set_palette` leaves the threads' places and pauses alone.
pub proof fn lemma_op_set_palette_keeps_threads(v: VmView, i: int)
    requires
        v.threads.len() == NUM_THREADS,
        0 <= i < NUM_THREADS,
    ensures
        spec_keeps_threads(v, v.op_set_palette(), i),
{
    reveal(VmView::op_set_palette);
}

/// `op_reset_thread` leaves the threads' places and pauses alone.
pub proof fn lemma_op_reset_thread_keeps_threads(v: VmView, i: int)
    requires
        v.threads.len() == NUM_THREADS,
        0 <= i < NUM_THREADS,
    ensures
        spec_keeps_threads(v, v.op_reset_thread(), i),
{
    reveal(VmView::op_reset_thread);
}

/// `op_select_video_page` leaves the threads' places and pauses alone.
pub proof fn lemma_op_select_video_page_keeps_threads(v: VmView, i: int)
    requires
        v.threads.len() == NUM_THREADS,
        0 <= i < NUM_THREADS,
    ensures
        spec_keeps_threads(v, v.op_select_video_page(), i),
{
    reveal(VmView::op_select_video_page);
}

/// `op_fill_video_page` leaves the threads' places and pauses alone.
pub proof fn lemma_op_fill_video_page_keeps_threads(v: VmView, i: int)
    requires
        v.threads.len() == NUM_THREADS,
        0 <= i < NUM_THREADS,
    ensures
        spec_keeps_threads(v, v.op_fill_video_page(), i),
{
    reveal(VmView::op_fill_video_page);
}

/// `op_copy_video_page` leaves the threads' places and pauses alone.
pub proof fn lemma_op_copy_video_page_keeps_threads(v: VmView, i: int)
    requires
        v.threads.len() == NUM_THREADS,
        0 <= i < NUM_THREADS,
    ensures
        spec_keeps_threads(v, v.op_copy_video_page(), i),
{
    reveal(VmView::op_copy_video_page);
}

/// `op_blit_frame_buffer` leaves the threads' places and pauses alone.
pub proof fn lemma_op_blit_frame_buffer_keeps_threads(v: VmView, i: int)
    requires
        v.threads.len() == NUM_THREADS,
        0 <= i < NUM_THREADS,
    ensures
        spec_keeps_threads(v, v.op_blit_frame_buffer(), i),
{
    reveal(VmView::op_blit_frame_buffer);
}

/// `op_draw_string` leaves the threads' places and pauses alone.
pub proof fn lemma_op_draw_string_keeps_threads(v: VmView, i: int)
    requires
        v.threads.len() == NUM_THREADS,
        0 <= i < NUM_THREADS,
    ensures
        spec_keeps_threads(v, v.op_draw_string(), i),
{
    reveal(VmView::op_draw_string);
}

/// `op_play_sound` leaves the threads' places and pauses alone.
pub proof fn lemma_op_play_sound_keeps_threads(v: VmView, i: int)
    requires
        v.threads.len() == NUM_THREADS,
        0 <= i < NUM_THREADS,
    ensures
        spec_keeps_threads(v, v.op_play_sound(), i),
{
    reveal(VmView::op_play_sound);
}

/// `op_play_music` leaves the threads' places and pauses alone.
pub proof fn lemma_op_play_music_keeps_threads(v: VmView, i: int)
    requires
        v.threads.len() == NUM_THREADS,
        0 <= i < NUM_THREADS,
    ensures
        spec_keeps_threads(v, v.op_play_music(), i),
{
    reveal(VmView::op_play_music);
}

/// `op_update_memlist` leaves the threads' places and pauses alone.
pub proof fn lemma_op_update_memlist_keeps_threads(v: VmView, i: int)
    requires
        v.threads.len() == NUM_THREADS,
        0 <= i < NUM_THREADS,
    ensures
        spec_keeps_threads(v, v.op_update_memlist(), i),
{
    reveal(VmView::op_update_memlist);
}

/// `op_draw_poly_sprite` leaves the threads' places and pauses alone.
pub proof fn lemma_op_draw_poly_sprite_keeps_threads(v: VmView, val: u8, i: int)
    requires
        v.threads.len() == NUM_THREADS,
        0 <= i < NUM_THREADS,
    ensures
        spec_keeps_threads(v, v.op_draw_poly_sprite(val), i),
{
    reveal(VmView::op_draw_poly_sprite);
}

/// `op_draw_poly_background` leaves the threads' places and pauses alone.
pub proof fn lemma_op_draw_poly_background_keeps_threads(v: VmView, val: u8, i: int)
    requires
        v.threads.len() == NUM_THREADS,
        0 <= i < NUM_THREADS,
    ensures
        spec_keeps_threads(v, v.op_draw_poly_background(val), i),
{
    reveal(VmView::op_draw_poly_background);
}

/// The instructions that compute and branch leave the threads' places
/// and pauses alone.
pub proof fn lemma_plain_keeps_threads(v: VmView, i: int)
    requires
        v.threads.len() == NUM_THREADS,
        0 <= i < NUM_THREADS,
    ensures
        spec_keeps_threads(v, v.op_mov_const(), i),
        spec_keeps_threads(v, v.op_mov(), i),
        spec_keeps_threads(v, v.op_add(), i),
        spec_keeps_threads(v, v.op_add_const(), i),
        spec_keeps_threads(v, v.op_sub(), i),
        spec_keeps_threads(v, v.op_and(), i),
        spec_keeps_threads(v, v.op_or(), i),
        spec_keeps_threads(v, v.op_shl(), i),
        spec_keeps_threads(v, v.op_shr(), i),
        spec_keeps_threads(v, v.op_call(), i),
        spec_keeps_threads(v, v.op_ret(), i),
        spec_keeps_threads(v, v.op_pause_thread(), i),
        spec_keeps_threads(v, v.op_jmp(), i),
        spec_keeps_threads(v, v.op_jnz(), i),
        spec_keeps_threads(v, v.op_cond_jmp(), i),
        spec_keeps_threads(v, v.op_kill_thread(), i),
{
    reveal(VmView::op_mov_const);
    reveal(VmView::op_mov);
    reveal(VmView::op_add);
    reveal(VmView::op_add_const);
    reveal(VmView::op_sub);
    reveal(VmView::op_and);
    reveal(VmView::op_or);
    reveal(VmView::op_shl);
    reveal(VmView::op_shr);
    reveal(VmView::op_call);
    reveal(VmView::op_ret);
    reveal(VmView::op_pause_thread);
    reveal(VmView::op_jmp);
    reveal(VmView::op_jnz);
    reveal(VmView::op_cond_jmp);
    reveal(VmView::op_kill_thread);
}

/// What an instruction does once it is read leaves the threads' places
/// and pauses alone.
pub proof fn lemma_execute_keeps_threads(v: VmView, opcode: Opcode, i: int)
    requires
        v.threads.len() == NUM_THREADS,
        0 <= i < NUM_THREADS,
    ensures
        spec_keeps_threads(v, v.execute(opcode), i),
{
    lemma_plain_keeps_threads(v, i);
    lemma_op_set_set_vect_keeps_threads(v, i);
    lemma_op_set_palette_keeps_threads(v, i);
    lemma_op_reset_thread_keeps_threads(v, i);
    lemma_op_select_video_page_keeps_threads(v, i);
    lemma_op_fill_video_page_keeps_threads(v, i);
    lemma_op_copy_video_page_keeps_threads(v, i);
    lemma_op_blit_frame_buffer_keeps_threads(v, i);
    lemma_op_draw_string_keeps_threads(v, i);
    lemma_op_play_sound_keeps_threads(v, i);
    lemma_op_play_music_keeps_threads(v, i);
    lemma_op_update_memlist_keeps_threads(v, i);
    match opcode {
        Opcode::DrawPolySprite(val) => {
            lemma_op_draw_poly_sprite_keeps_threads(v, val, i);
        },
        Opcode::DrawPolyBackground(val) => {
            lemma_op_draw_poly_background_keeps_threads(v, val, i);
        },
        _ => {},
    }
}

/// An instruction leaves the threads' places and pauses alone: it only
/// ever changes what is asked of a thread from the next frame on. So no
/// instruction of a thread sees a request of another thread taken over.
pub proof fn lemma_step_keeps_threads(v: VmView, mark: Option<i16>, i: int)
    requires
        v.threads.len() == NUM_THREADS,
        0 <= i < NUM_THREADS,
    ensures
        spec_keeps_threads(v, v.step(mark), i),
{
    let marked = match mark {
        Some(m) => v.set_var(VM_VARIABLE_MUS_MARK as int, m),
        None => v,
    };
    if marked.has_bytes(1) {
        match spec_decode(marked.byte(0)) {
            Err(e) => {},
            Ok(opcode) => {
                lemma_execute_keeps_threads(marked.skip(1), opcode, i);
            },
        }
    }
}

/// Taking over a background keeps the machine well formed.
pub proof fn lemma_refresh_background_keeps_wf(v: VmView)
    requires
        v.wf(),
    ensures
        v.refresh_background().0.wf(),
{
    let data = v.resource.video_page_data();
    let image = if v.scale == 1 {
        data
    } else {
        spec_resize(data, v.scale as u16)
    };
    if v.resource.copy_vid_ptr && !(v.scale > 0xffff || image.len() != v.video.width * v.video.height) {
        let after = v.video.copy_page_buffer(image);
        assert forall|i: int| 0 <= i < NUM_PAGES implies (#[trigger] after.pages[i]).len() == after.width
            * after.height by {
            assert(v.video.pages[i].len() == v.video.width * v.video.height);
        }
    }
}

/// Drawing the polygons of a segment keeps the machine well formed.
pub proof fn lemma_draw_polygons_keeps_wf(v: VmView, segment: usize, offset: usize, color: u8, zoom: u32, point: Point)
    requires
        v.wf(),
    ensures
        v.draw_polygons(segment, offset, color, zoom, point).0.wf(),
{
    if segment <= v.resource.memory.len() {
        match spec_read_polygons(
            v.resource.memory.subrange(segment as int, v.resource.memory.len() as int),
            offset as int,
            color,
            zoom,
            point,
            MAX_DEPTH as nat,
        ) {
            Err(e) => {},
            Ok(t) => {
                v.video.lemma_draw_items_wf(t.0);
            },
        }
    }
}

/// `op_set_set_vect` keeps the machine well formed.
pub proof fn lemma_op_set_set_vect_keeps_wf(v: VmView)
    requires
        v.wf(),
    ensures
        v.op_set_set_vect().0.wf(),
{
    reveal(VmView::op_set_set_vect);
}

/// `op_reset_thread` keeps the machine well formed.
pub proof fn lemma_op_reset_thread_keeps_wf(v: VmView)
    requires
        v.wf(),
    ensures
        v.op_reset_thread().0.wf(),
{
    reveal(VmView::op_reset_thread);
}

/// `op_set_palette` keeps the machine well formed.
pub proof fn lemma_op_set_palette_keeps_wf(v: VmView)
    requires
        v.wf(),
    ensures
        v.op_set_palette().0.wf(),
{
    reveal(VmView::op_set_palette);
}

/// `op_select_video_page` keeps the machine well formed.
pub proof fn lemma_op_select_video_page_keeps_wf(v: VmView)
    requires
        v.wf(),
    ensures
        v.op_select_video_page().0.wf(),
{
    reveal(VmView::op_select_video_page);
}

/// `op_fill_video_page` keeps the machine well formed.
pub proof fn lemma_op_fill_video_page_keeps_wf(v: VmView)
    requires
        v.wf(),
    ensures
        v.op_fill_video_page().0.wf(),
{
    reveal(VmView::op_fill_video_page);
}

/// `op_copy_video_page` keeps the machine well formed.
pub proof fn lemma_op_copy_video_page_keeps_wf(v: VmView)
    requires
        v.wf(),
    ensures
        v.op_copy_video_page().0.wf(),
{
    reveal(VmView::op_copy_video_page);
}

/// `op_blit_frame_buffer` keeps the machine well formed.
pub proof fn lemma_op_blit_frame_buffer_keeps_wf(v: VmView)
    requires
        v.wf(),
    ensures
        v.op_blit_frame_buffer().0.wf(),
{
    reveal(VmView::op_blit_frame_buffer);
}

/// `op_play_sound` keeps the machine well formed.
pub proof fn lemma_op_play_sound_keeps_wf(v: VmView)
    requires
        v.wf(),
    ensures
        v.op_play_sound().0.wf(),
{
    reveal(VmView::op_play_sound);
}

/// `op_play_music` keeps the machine well formed.
pub proof fn lemma_op_play_music_keeps_wf(v: VmView)
    requires
        v.wf(),
    ensures
        v.op_play_music().0.wf(),
{
    reveal(VmView::op_play_music);
}

/// `op_draw_string` keeps the machine well formed.
pub proof fn lemma_op_draw_string_keeps_wf(v: VmView)
    requires
        v.wf(),
    ensures
        v.op_draw_string().0.wf(),
{
    reveal(VmView::op_draw_string);
    v.video.lemma_draw_string_id_wf(v.byte(4), v.byte(2) as u16, v.byte(3) as u16, v.word(0), v.scale);
}

/// `op_update_memlist` keeps the machine well formed.
pub proof fn lemma_op_update_memlist_keeps_wf(v: VmView)
    requires
        v.wf(),
    ensures
        v.op_update_memlist().0.wf(),
{
    reveal(VmView::op_update_memlist);
    let next = v.skip(2);
    v.resource.lemma_load_memory_entry_wf(v.word(0));
    let run = v.resource.load_memory_entry(v.word(0));
    lemma_refresh_background_keeps_wf(next.with_resource(run.view));
}

/// `op_draw_poly_sprite` keeps the machine well formed.
pub proof fn lemma_op_draw_poly_sprite_keeps_wf(v: VmView, flags: u8)
    requires
        v.wf(),
    ensures
        v.op_draw_poly_sprite(flags).0.wf(),
{
    reveal(VmView::op_draw_poly_sprite);
    let video2 = flags & 3 == 3;
    let moved = VmView {
        video_buffer_seg: if video2 {
            VideoBufferSeg::Video2
        } else {
            VideoBufferSeg::Cinematic
        },
        ..v.skip(v.sprite_len(flags))
    };
    lemma_draw_polygons_keeps_wf(
        moved,
        if video2 {
            v.resource.seg_video2
        } else {
            v.resource.seg_cinematic
        },
        v.word(0).wrapping_mul(2) as usize,
        COLOR_BLACK,
        v.sprite_zoom(flags).wrapping_mul(v.scale),
        Point {
            x: v.sprite_x(flags).wrapping_mul(v.scale as i32),
            y: v.sprite_y(flags).wrapping_mul(v.scale as i32),
        },
    );
}

/// `op_draw_poly_background` keeps the machine well formed.
pub proof fn lemma_op_draw_poly_background_keeps_wf(v: VmView, val: u8)
    requires
        v.wf(),
    ensures
        v.op_draw_poly_background(val).0.wf(),
{
    reveal(VmView::op_draw_poly_background);
    let h = v.byte(2) - (v.video.height - 1);
    let x = if h > 0 {
        v.byte(1) + h
    } else {
        v.byte(1) as int
    };
    let y = if h > 0 {
        v.video.height - 1
    } else {
        v.byte(2) as int
    };
    lemma_draw_polygons_keeps_wf(
        (VmView { video_buffer_seg: VideoBufferSeg::Cinematic, ..v.skip(3) }),
        v.resource.seg_cinematic,
        (spec_be_u16(val & 0x7f, v.byte(0)) * 2) as usize,
        COLOR_BLACK,
        DEFAULT_ZOOM.wrapping_mul(v.scale),
        Point { x: (x as i32).wrapping_mul(v.scale as i32), y: (y as i32).wrapping_mul(v.scale as i32) },
    );
}

/// The instructions that compute and branch keep the machine well
/// formed.
pub proof fn lemma_plain_keeps_wf(v: VmView)
    requires
        v.wf(),
    ensures
        v.op_mov_const().0.wf(),
        v.op_mov().0.wf(),
        v.op_add().0.wf(),
        v.op_add_const().0.wf(),
        v.op_sub().0.wf(),
        v.op_and().0.wf(),
        v.op_or().0.wf(),
        v.op_shl().0.wf(),
        v.op_shr().0.wf(),
        v.op_call().0.wf(),
        v.op_ret().0.wf(),
        v.op_pause_thread().0.wf(),
        v.op_jmp().0.wf(),
        v.op_jnz().0.wf(),
        v.op_cond_jmp().0.wf(),
        v.op_kill_thread().0.wf(),
{
    reveal(VmView::op_mov_const);
    reveal(VmView::op_mov);
    reveal(VmView::op_add);
    reveal(VmView::op_add_const);
    reveal(VmView::op_sub);
    reveal(VmView::op_and);
    reveal(VmView::op_or);
    reveal(VmView::op_shl);
    reveal(VmView::op_shr);
    reveal(VmView::op_call);
    reveal(VmView::op_ret);
    reveal(VmView::op_pause_thread);
    reveal(VmView::op_jmp);
    reveal(VmView::op_jnz);
    reveal(VmView::op_cond_jmp);
    reveal(VmView::op_kill_thread);
}

/// What an instruction does once it is read keeps the machine well
/// formed.
pub proof fn lemma_execute_keeps_wf(v: VmView, opcode: Opcode)
    requires
        v.wf(),
    ensures
        v.execute(opcode).0.wf(),
{
    lemma_plain_keeps_wf(v);
    lemma_op_set_set_vect_keeps_wf(v);
    lemma_op_reset_thread_keeps_wf(v);
    lemma_op_set_palette_keeps_wf(v);
    lemma_op_select_video_page_keeps_wf(v);
    lemma_op_fill_video_page_keeps_wf(v);
    lemma_op_copy_video_page_keeps_wf(v);
    lemma_op_blit_frame_buffer_keeps_wf(v);
    lemma_op_play_sound_keeps_wf(v);
    lemma_op_play_music_keeps_wf(v);
    lemma_op_draw_string_keeps_wf(v);
    lemma_op_update_memlist_keeps_wf(v);
    match opcode {
        Opcode::DrawPolySprite(val) => {
            lemma_op_draw_poly_sprite_keeps_wf(v, val);
        },
        Opcode::DrawPolyBackground(val) => {
            lemma_op_draw_poly_background_keeps_wf(v, val);
        },
        _ => {},
    }
}

/// An instruction keeps the machine well formed, whether it goes well
/// or fails.
pub proof fn lemma_step_keeps_wf(v: VmView, mark: Option<i16>)
    requires
        v.wf(),
    ensures
        v.step(mark).0.wf(),
{
    let marked = match mark {
        Some(m) => v.set_var(VM_VARIABLE_MUS_MARK as int, m),
        None => v,
    };
    if marked.has_bytes(1) {
        match spec_decode(marked.byte(0)) {
            Err(e) => {},
            Ok(opcode) => {
                lemma_execute_keeps_wf(marked.skip(1), opcode);
            },
        }
    }
}

/// Making the machine ready for a part keeps it well formed.
pub proof fn lemma_init_for_part_keeps_wf(v: VmView, part_id: u16)
    requires
        v.wf(),
    ensures
        v.init_for_part(part_id).0.wf(),
{
    let marked = v.set_var(0xe4, 0x14);
    marked.resource.lemma_setup_part_wf(part_id);
    let run = marked.resource.setup_part(part_id);
    lemma_refresh_background_keeps_wf(marked.with_resource(run.view));
}

/// The start of a frame keeps the machine well formed.
pub proof fn lemma_check_thread_requests_keeps_wf(v: VmView)
    requires
        v.wf(),
    ensures
        v.check_thread_requests().0.wf(),
{
    match v.requested_next_part {
        None => {},
        Some(part_id) => {
            lemma_init_for_part_keeps_wf(v, part_id);
        },
    }
}

/// The threads run only what they were asked to at the start of the
/// frame: taking over the requests leaves no request of a place behind.
pub proof fn lemma_sync_clears_requests(v: VmView, i: int)
    requires
        0 <= i < v.threads.len(),
    ensures
        v.threads_synced().threads[i].requested_pc_offset is None,
        v.threads_synced().threads[i].is_channel_active_current == v.threads[i].is_channel_active_requested,
{
}

} // verus!
