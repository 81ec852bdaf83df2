pub use crate::polygon::Point;
pub use crate::polygon::Polygon;
use vstd::prelude::*;

verus! {

/// Number of entries of a palette.
pub const NUM_COLORS: usize = 16;

/// Number of pages that the renderer draws into.
pub const NUM_PAGES: usize = 4;

/// Page id that stands for the front page.
pub const PAGE_FRONT: u8 = 0xfe;

/// Page id that stands for the spare page.
pub const PAGE_SPARE: u8 = 0xff;

/// One palette entry.
#[derive(Copy, Clone, Debug, PartialEq, Eq, Structural)]
pub struct Color {
    pub r: u8,
    pub g: u8,
    pub b: u8,
    pub a: u8,
}

/// Sixteen colours.
#[derive(Copy, Clone, Debug)]
pub struct Palette {
    pub entries: [Color; NUM_COLORS],
}

/// A four-bit colour component widened to eight bits.
pub open spec fn spec_expand(x: u8) -> u8 {
    ((x << 2) | (x >> 2)) << 2
}

/// The colour that two raw palette bytes spell: red in the low nibble of
/// the first byte, green and blue in the high and low nibble of the second.
pub open spec fn spec_color(c1: u8, c2: u8) -> Color {
    Color { r: spec_expand(c1 & 0x0f), g: spec_expand((c2 & 0xf0) >> 4), b: spec_expand(c2 & 0x0f), a: 0xff }
}

/// A four-bit colour component widened to eight bits.
pub fn expand(x: u8) -> (r: u8)
    ensures
        r == spec_expand(x),
{
    ((x << 2) | (x >> 2)) << 2
}

/// The colours that 32 raw palette bytes spell, two bytes for each.
pub open spec fn spec_palette(bytes: Seq<u8>) -> Seq<Color> {
    Seq::new(NUM_COLORS as nat, |i: int| spec_color(bytes[2 * i], bytes[2 * i + 1]))
}

/// A staged palette as mathematical values.
pub open spec fn palette_view(p: Option<Palette>) -> Option<Seq<Color>> {
    match p {
        Some(p) => Some(p.entries@),
        None => None,
    }
}

impl Palette {
    /// Builds a palette from 32 raw bytes, two for each entry.
    pub fn from_bytes(buffer: &[u8]) -> (p: Palette)
        requires
            buffer@.len() >= 2 * NUM_COLORS,
        ensures
            p.entries@ == spec_palette(buffer@),
    {
        let mut entries = [Color { r: 0, g: 0, b: 0, a: 0 };NUM_COLORS];
        let mut i: usize = 0;
        while i < NUM_COLORS
            invariant
                i <= NUM_COLORS,
                buffer@.len() >= 2 * NUM_COLORS,
                forall|k: int|
                    0 <= k < i ==> entries[k] == spec_color(
                        #[trigger] buffer@[2 * k],
                        buffer@[2 * k + 1],
                    ),
            decreases NUM_COLORS - i,
        {
            let c1 = buffer[i * 2];
            let c2 = buffer[i * 2 + 1];
            let r = expand(c1 & 0x0f);
            let g = expand((c2 & 0xf0) >> 4);
            let b = expand(c2 & 0x0f);
            entries[i] = Color { r, g, b, a: 0xff };
            i = i + 1;
        }
        assert(entries@ =~= spec_palette(buffer@));
        Palette { entries }
    }
}

/// One page of paletted pixels, a byte each, row after row.
pub struct Page {
    pub data: Vec<u8>,
}

impl Page {
    /// A page of `page_size` pixels of colour 0.
    pub fn new(page_size: usize) -> (p: Page)
        ensures
            p.data@ == Seq::new(page_size as nat, |i: int| 0u8),
    {
        let data = vec![0u8; page_size];
        assert(data@ =~= Seq::new(page_size as nat, |i: int| 0u8));
        Page { data }
    }
}

/// The pixels of all pages, page by page.
pub open spec fn pages_view(pages: Seq<Page>) -> Seq<Seq<u8>> {
    Seq::new(pages.len(), |i: int| pages[i].data@)
}

/// The renderer: four pages, the three page roles and a staged palette.
pub struct Video {
    pub pages: Vec<Page>,
    pub palette_requested: Option<Palette>,
    pub cur_page_ptr1: usize,
    pub cur_page_ptr2: usize,
    pub cur_page_ptr3: usize,
    pub width: usize,
    pub height: usize,
}

/// What a renderer holds, as mathematical values.
#[verifier::ext_equal]
pub struct VideoView {
    pub pages: Seq<Seq<u8>>,
    pub palette_requested: Option<Seq<Color>>,
    pub ptr1: usize,
    pub ptr2: usize,
    pub ptr3: usize,
    pub width: usize,
    pub height: usize,
}

impl VideoView {
    /// Four pages of `width * height` pixels, and three roles that each
    /// name one of them.
    pub open spec fn wf(self) -> bool {
        &&& self.pages.len() == NUM_PAGES
        &&& forall|i: int| 0 <= i < NUM_PAGES ==> (#[trigger] self.pages[i]).len() == self.width * self.height
        &&& self.ptr1 < NUM_PAGES
        &&& self.ptr2 < NUM_PAGES
        &&& self.ptr3 < NUM_PAGES
        &&& 0 < self.width
        &&& 0 < self.height
        &&& self.width * self.height <= 0x7fff_ffff
    }

    /// The same page roles, page size and staged palette as `other`.
    pub open spec fn same_frame(self, other: VideoView) -> bool {
        &&& self.ptr1 == other.ptr1
        &&& self.ptr2 == other.ptr2
        &&& self.ptr3 == other.ptr3
        &&& self.width == other.width
        &&& self.height == other.height
        &&& self.palette_requested == other.palette_requested
    }

    /// Each side of a page fits in an `i32`.
    pub proof fn lemma_dims(self)
        requires
            self.wf(),
        ensures
            self.width <= 0x7fff_ffff,
            self.height <= 0x7fff_ffff,
    {
        let w = self.width as int;
        let h = self.height as int;
        assert(w <= w * h && h <= w * h) by (nonlinear_arith)
            requires
                0 < w,
                0 < h,
        ;
    }

    /// The page that a page id names: 0 to 3 name a page, 0xfe the front
    /// page, 0xff the spare page, and any other id page 0.
    pub open spec fn page_id(self, page_id: u8) -> usize {
        if page_id <= 3 {
            page_id as usize
        } else if page_id == PAGE_SPARE {
            self.ptr3
        } else if page_id == PAGE_FRONT {
            self.ptr2
        } else {
            0
        }
    }

    /// The draw page set to what `page_id` names.
    pub open spec fn select_page(self, page_id: u8) -> VideoView {
        VideoView { ptr1: self.page_id(page_id), ..self }
    }

    /// The first pixels of a page replaced by pixels of `from`: pixel
    /// `dst_i + k` by pixel `src_i + k` of `from`, for the places before
    /// `upto`.
    pub open spec fn copy_span(self, q: int, from: Seq<u8>, dst_i: int, src_i: int, upto: int) -> VideoView {
        VideoView {
            pages: self.pages.update(
                q,
                Seq::new(
                    self.pages[q].len(),
                    |k: int|
                        if dst_i <= k < upto {
                            from[k - dst_i + src_i]
                        } else {
                            self.pages[q][k]
                        },
                ),
            ),
            ..self
        }
    }

    /// Whether a copy from the page id `src` takes no scroll: the ids of
    /// the front and the spare page, an id without bit 7, or one with bit 6.
    pub open spec fn copy_is_plain(src: u8) -> bool {
        src >= PAGE_FRONT || src & 0x80 == 0 || src & 0x40 != 0
    }

    /// One page copied to another. A plain copy takes the whole page that
    /// `src` names, bit 6 left out of the id. A scrolled copy takes the
    /// page that the low two bits of `src` name and moves it down by
    /// `vscroll` rows, up if `vscroll` is negative; the rows that come
    /// from outside the page stay as they are, and a scroll of a page or
    /// more copies nothing. A copy of a page id to itself does nothing.
    pub open spec fn copy_page(self, src: u8, dst: u8, vscroll: i16) -> VideoView {
        let q = self.page_id(dst) as int;
        if src == dst {
            self
        } else if Self::copy_is_plain(src) {
            let s = if src < PAGE_FRONT {
                src & 0xbf
            } else {
                src
            };
            VideoView { pages: self.pages.update(q, self.pages[self.page_id(s) as int]), ..self }
        } else if -self.height < vscroll < self.height {
            let from = self.pages[(src & 3) as int];
            if vscroll < 0 {
                self.copy_span(q, from, 0, -vscroll * self.width, (self.height + vscroll) * self.width)
            } else {
                self.copy_span(q, from, vscroll * self.width, 0, self.height * self.width)
            }
        } else {
            self
        }
    }

    /// Page 0 replaced by `buffer`.
    pub open spec fn copy_page_buffer(self, buffer: Seq<u8>) -> VideoView {
        VideoView { pages: self.pages.update(0, buffer), ..self }
    }

    /// The page roles after a frame is shown: 0xff swaps the front page
    /// and the spare page, 0xfe keeps the front page, and any other id makes
    /// the page that it names the front page. The staged palette is taken.
    pub open spec fn blit(self, page_id: u8) -> VideoView {
        if page_id == PAGE_SPARE {
            VideoView { ptr2: self.ptr3, ptr3: self.ptr2, palette_requested: None, ..self }
        } else if page_id == PAGE_FRONT {
            VideoView { palette_requested: None, ..self }
        } else {
            VideoView { ptr2: self.page_id(page_id), palette_requested: None, ..self }
        }
    }

    /// Every pixel of the page that `page_id` names set to `color`.
    pub open spec fn fill_page(self, page_id: u8, color: u8) -> VideoView {
        let q = self.page_id(page_id) as int;
        VideoView { pages: self.pages.update(q, Seq::new(self.pages[q].len(), |i: int| color)), ..self }
    }
}

impl Video {
    pub open spec fn view(&self) -> VideoView {
        VideoView {
            pages: pages_view(self.pages@),
            palette_requested: palette_view(self.palette_requested),
            ptr1: self.cur_page_ptr1,
            ptr2: self.cur_page_ptr2,
            ptr3: self.cur_page_ptr3,
            width: self.width,
            height: self.height,
        }
    }

    /// The invariant of a renderer.
    pub open spec fn wf(&self) -> bool {
        self@.wf()
    }

    /// A renderer with four black pages of `width * height` pixels. Page 2
    /// is the draw page and the front page, page 1 the spare page.
    pub fn new(width: usize, height: usize) -> (v: Video)
        requires
            0 < width,
            0 < height,
            width * height <= 0x7fff_ffff,
        ensures
            v.wf(),
            v@.width == width,
            v@.height == height,
            v@.ptr1 == 2,
            v@.ptr2 == 2,
            v@.ptr3 == 1,
            v@.palette_requested is None,
            forall|i: int| 0 <= i < NUM_PAGES ==> v@.pages[i] == Seq::new((width * height) as nat, |k: int| 0u8),
    {
        assert(width * height <= 0x7fff_ffff);
        let page_size = width * height;
        let mut pages: Vec<Page> = Vec::new();
        pages.push(Page::new(page_size));
        pages.push(Page::new(page_size));
        pages.push(Page::new(page_size));
        pages.push(Page::new(page_size));
        Video {
            pages,
            palette_requested: None,
            cur_page_ptr1: 2,
            cur_page_ptr2: 2,
            cur_page_ptr3: 1,
            width,
            height,
        }
    }

    /// The page that a page id names.
    pub fn get_page_id(&self, page_id: u8) -> (q: usize)
        ensures
            q == self@.page_id(page_id),
    {
        if page_id <= 3 {
            page_id as usize
        } else if page_id == PAGE_SPARE {
            self.cur_page_ptr3
        } else if page_id == PAGE_FRONT {
            self.cur_page_ptr2
        } else {
            0
        }
    }

    /// The page that a page id names.
    pub fn get_page(&self, page_id: u8) -> (p: &Page)
        requires
            self.wf(),
        ensures
            p.data@ == self@.pages[self@.page_id(page_id) as int],
    {
        let q = self.get_page_id(page_id);
        &self.pages[q]
    }

    /// Makes the page that `page_id` names the draw page.
    pub fn change_page_ptr1(&mut self, page_id: u8)
        requires
            old(self).wf(),
        ensures
            final(self).wf(),
            final(self)@ == old(self)@.select_page(page_id),
    {
        self.cur_page_ptr1 = self.get_page_id(page_id);
    }

    /// Sets every pixel of the page that `page_id` names to `color`.
    pub fn fill_video_page(&mut self, page_id: u8, color: u8)
        requires
            old(self).wf(),
        ensures
            final(self).wf(),
            final(self)@ == old(self)@.fill_page(page_id, color),
    {
        let q = self.get_page_id(page_id);
        let n = self.pages[q].data.len();
        let mut i: usize = 0;
        while i < n
            invariant
                i <= n,
                q < NUM_PAGES,
                self.pages.len() == NUM_PAGES,
                n == self.pages[q as int].data@.len(),
                n == old(self).pages[q as int].data@.len(),
                forall|k: int| 0 <= k < i ==> self.pages[q as int].data@[k] == color,
                forall|p: int| 0 <= p < NUM_PAGES && p != q ==> self.pages[p] == old(self).pages[p],
                self.palette_requested == old(self).palette_requested,
                self.cur_page_ptr1 == old(self).cur_page_ptr1,
                self.cur_page_ptr2 == old(self).cur_page_ptr2,
                self.cur_page_ptr3 == old(self).cur_page_ptr3,
                self.width == old(self).width,
                self.height == old(self).height,
            decreases n - i,
        {
            self.pages[q].data[i] = color;
            i = i + 1;
        }
        assert(self@.pages =~~= old(self)@.fill_page(page_id, color).pages);
    }

    /// Replaces the pixels of one page.
    pub fn set_page(&mut self, q: usize, data: Vec<u8>)
        requires
            old(self).wf(),
            q < NUM_PAGES,
            data@.len() == old(self).width * old(self).height,
        ensures
            final(self).wf(),
            final(self)@.same_frame(old(self)@),
            final(self)@.pages == old(self)@.pages.update(q as int, data@),
    {
        self.pages[q] = Page { data };
        assert(self@.pages =~~= old(self)@.pages.update(q as int, data@));
    }

    /// Copies one page to another, scrolled by `vscroll` rows where the
    /// source id asks for it.
    pub fn copy_page(&mut self, src_page_id: u8, dst_page_id: u8, vscroll: i16)
        requires
            old(self).wf(),
        ensures
            final(self).wf(),
            final(self)@.same_frame(old(self)@),
            final(self)@ == old(self)@.copy_page(src_page_id, dst_page_id, vscroll),
    {
        if src_page_id == dst_page_id {
            return ;
        }
        proof {
            self@.lemma_dims();
        }
        let q = self.get_page_id(dst_page_id);
        if src_page_id >= PAGE_FRONT || src_page_id & 0x80 == 0 || src_page_id & 0x40 != 0 {
            let s = if src_page_id < PAGE_FRONT {
                src_page_id & 0xbf
            } else {
                src_page_id
            };
            let data = self.get_page(s).data.clone();
            self.set_page(q, data);
            assert(self@ =~~= old(self)@.copy_page(src_page_id, dst_page_id, vscroll));
        } else {
            let width = self.width;
            let height = self.height;
            let vs: i64 = vscroll as i64;
            if -(height as i64) < vs && vs < height as i64 {
                let p: usize = (src_page_id & 3) as usize;
                assert(p < NUM_PAGES) by (bit_vector)
                    requires
                        p == (src_page_id & 3) as usize,
                ;
                let from = self.get_page(src_page_id & 3).data.clone();
                assert(self@.page_id(src_page_id & 3) == p);
                let rows: usize = if vs < 0 {
                    (height as i64 + vs) as usize
                } else {
                    (height as i64 - vs) as usize
                };
                let shift: usize = if vs < 0 {
                    (-vs) as usize
                } else {
                    vs as usize
                };
                assert(shift * width + rows * width == height * width) by (nonlinear_arith)
                    requires
                        shift + rows == height,
                ;
                assert(shift * width >= 0 && rows * width >= 0) by (nonlinear_arith)
                    requires
                        shift >= 0,
                        rows >= 0,
                        width >= 0,
                ;
                let count: usize = rows * width;
                let src_i: usize = if vs < 0 {
                    shift * width
                } else {
                    0
                };
                let dst_i: usize = if vs < 0 {
                    0
                } else {
                    shift * width
                };
                let mut k: usize = 0;
                assert(self@ =~~= old(self)@.copy_span(q as int, from@, dst_i as int, src_i as int, dst_i as int));
                while k < count
                    invariant
                        k <= count,
                        q < NUM_PAGES,
                        src_i + count <= from@.len(),
                        dst_i + count <= self.width * self.height,
                        from@.len() == self.width * self.height,
                        self.wf(),
                        old(self).wf(),
                        self@.same_frame(old(self)@),
                        self@ == old(self)@.copy_span(q as int, from@, dst_i as int, src_i as int, dst_i + k),
                    decreases count - k,
                {
                    self.put_pixel(q, dst_i + k, from[src_i + k]);
                    k = k + 1;
                    assert(self@ =~~= old(self)@.copy_span(q as int, from@, dst_i as int, src_i as int, dst_i + k));
                }
                assert(vscroll < 0 ==> -vscroll * self.width == src_i && (self.height + vscroll) * self.width == count)
                    by (nonlinear_arith)
                    requires
                        vs == vscroll,
                        vs < 0 ==> shift == -vs && rows == self.height + vs && src_i == shift * self.width,
                        count == rows * self.width,
                ;
                assert(vscroll >= 0 ==> vscroll * self.width == dst_i) by (nonlinear_arith)
                    requires
                        vs == vscroll,
                        vs >= 0 ==> shift == vs && dst_i == shift * self.width,
                ;
            }
        }
    }

    /// Replaces page 0 by an image of the size of a page.
    pub fn copy_page_buffer(&mut self, buffer: &[u8])
        requires
            old(self).wf(),
            buffer@.len() == old(self).width * old(self).height,
        ensures
            final(self).wf(),
            final(self)@.same_frame(old(self)@),
            final(self)@ == old(self)@.copy_page_buffer(buffer@),
    {
        let data = vstd::slice::slice_to_vec(buffer);
        self.set_page(0, data);
    }

    /// Makes ready the frame to show: sets the page roles as `page_id`
    /// asks and hands out the staged palette, if there is one. The frame
    /// itself is the front page.
    pub fn update_display(&mut self, page_id: u8) -> (palette: Option<Palette>)
        requires
            old(self).wf(),
        ensures
            final(self).wf(),
            final(self)@ == old(self)@.blit(page_id),
            palette_view(palette) == old(self)@.palette_requested,
    {
        if page_id != PAGE_FRONT {
            if page_id == PAGE_SPARE {
                let front = self.cur_page_ptr2;
                self.cur_page_ptr2 = self.cur_page_ptr3;
                self.cur_page_ptr3 = front;
            } else {
                self.cur_page_ptr2 = self.get_page_id(page_id);
            }
        }
        let palette = self.palette_requested;
        self.palette_requested = None;
        palette
    }

    /// Stages a palette: the next frame shown is shown with it.
    pub fn stage_palette(&mut self, palette: Palette)
        requires
            old(self).wf(),
        ensures
            final(self).wf(),
            final(self)@ == (VideoView { palette_requested: Some(palette.entries@), ..old(self)@ }),
    {
        self.palette_requested = Some(palette);
    }

    /// The page that is shown.
    pub fn front_page(&self) -> (p: &Page)
        requires
            self.wf(),
        ensures
            p.data@ == self@.pages[self@.ptr2 as int],
    {
        &self.pages[self.cur_page_ptr2]
    }
}

} // verus!
