use crate::buffer::spec_word_at;
use crate::buffer::word_at;
use crate::buffer::Buffer;
use crate::error::Error;
use crate::video::Video;
use crate::video::VideoView;
use vstd::prelude::*;

verus! {

/// Polygons have fewer vertices than this.
pub const MAX_POINTS: usize = 50;

/// A position on a page, or relative to another position.
#[derive(Copy, Clone, Debug, PartialEq, Eq, Structural)]
pub struct Point {
    pub x: i32,
    pub y: i32,
}

/// A polygon as the polygon stream holds it: the size of its bounding
/// box and its vertices, relative to the corner of that box. The
/// vertices run down one side and come back up the other.
pub struct Polygon {
    pub bbw: u32,
    pub bbh: u32,
    pub points: Vec<Point>,
}

/// A polygon as mathematical values.
#[verifier::ext_equal]
pub struct PolygonView {
    pub bbw: u32,
    pub bbh: u32,
    pub points: Seq<Point>,
}

impl PolygonView {
    /// An even number of vertices, fewer than `MAX_POINTS`.
    pub open spec fn wf(self) -> bool {
        self.points.len() % 2 == 0 && self.points.len() < MAX_POINTS
    }
}

impl Polygon {
    pub open spec fn view(&self) -> PolygonView {
        PolygonView { bbw: self.bbw, bbh: self.bbh, points: self.points@ }
    }

    /// The invariant of a polygon.
    pub open spec fn wf(&self) -> bool {
        self@.wf()
    }

    /// The number of vertices.
    pub fn num_points(&self) -> (n: usize)
        ensures
            n == self@.points.len(),
    {
        self.points.len()
    }
}

/// A chain of nested groups can be this long. A longer one comes back to
/// a word offset that it has already visited, and so would never end.
pub const MAX_DEPTH: usize = 0x8001;

/// A polygon to draw, with its colour and the place of its centre.
#[verifier::ext_equal]
pub struct DrawItem {
    pub polygon: PolygonView,
    pub color: u8,
    pub point: Point,
}

/// A length of the polygon stream scaled by `zoom / 64`.
pub open spec fn spec_scale(b: u8, zoom: u32) -> u32 {
    ((b as int * zoom as int) / 64) as u32
}

/// A coordinate of the polygon stream scaled by `zoom / 64`.
pub open spec fn spec_coord(b: u8, zoom: u32) -> i32 {
    spec_scale(b, zoom) as i32
}

/// A coordinate wrapped round to 16 bits with a sign.
pub open spec fn spec_wrap16(v: i32) -> i32 {
    (v as i16) as i32
}

/// The `n` vertices that start at `pos` in `data`, two bytes each.
pub open spec fn spec_points(data: Seq<u8>, pos: int, zoom: u32, n: nat) -> Seq<Point> {
    Seq::new(n, |k: int| Point { x: spec_coord(data[pos + 2 * k], zoom), y: spec_coord(data[pos + 2 * k + 1], zoom) })
}

/// The polygon that starts at `pos` in `data`: the width and height of
/// its box, the number of vertices, and the vertices. The number of
/// vertices has to be even and less than `MAX_POINTS`, and the stream has
/// to hold all of them.
pub open spec fn spec_read_vertices(data: Seq<u8>, pos: int, zoom: u32) -> Result<PolygonView, Error> {
    if pos < 0 || pos + 3 > data.len() {
        Err(Error::BankCorrupt)
    } else {
        let n = data[pos + 2] as nat;
        if n % 2 != 0 || n >= MAX_POINTS || pos + 3 + 2 * n > data.len() {
            Err(Error::BankCorrupt)
        } else {
            Ok(
                PolygonView {
                    bbw: spec_scale(data[pos], zoom),
                    bbh: spec_scale(data[pos + 1], zoom),
                    points: spec_points(data, pos + 3, zoom, n),
                },
            )
        }
    }
}

/// Where the entry of a child that starts at `pos` ends: after four
/// bytes, or after six when the entry sets a colour.
pub open spec fn spec_child_end(data: Seq<u8>, pos: int) -> int {
    if spec_word_at(data, pos) & 0x8000 != 0 {
        if pos + 6 <= data.len() {
            pos + 6
        } else {
            data.len() as int
        }
    } else {
        pos + 4
    }
}

/// What the polygon stream `data` holds at `pos`: the polygons to draw,
/// in order, and the position after the command. A first byte of 0xc0 or
/// more starts one polygon, whose colour is the low six bits of that byte
/// if `color` has bit 7 set. Otherwise the low six bits have to be 2 for
/// a group; any other command holds nothing.
pub open spec fn spec_read_polygons(data: Seq<u8>, pos: int, color: u8, zoom: u32, point: Point, depth: nat) -> Result<
    (Seq<DrawItem>, int),
    Error,
>
    decreases depth, 2nat, 0nat,
{
    if pos < 0 || pos >= data.len() {
        Err(Error::BankCorrupt)
    } else {
        let i = data[pos];
        if i >= 0xc0 {
            let c = if color & 0x80 != 0 {
                i & 0x3f
            } else {
                color
            };
            match spec_read_vertices(data, pos + 1, zoom) {
                Ok(polygon) => Ok((seq![DrawItem { polygon, color: c, point }], pos + 4 + 2 * polygon.points.len())),
                Err(e) => Err(e),
            }
        } else if i & 0x3f == 2 {
            spec_read_hierarchy(data, pos + 1, zoom, point, depth)
        } else {
            Ok((Seq::empty(), pos + 1))
        }
    }
}

/// The group whose header starts at `pos`: the offset of its origin,
/// taken off `point`, the number of children less one, and the children.
/// The places of the origin and of the children wrap round to 16 bits.
pub open spec fn spec_read_hierarchy(data: Seq<u8>, pos: int, zoom: u32, point: Point, depth: nat) -> Result<(Seq<DrawItem>, int), Error>
    decreases depth, 1nat, 0nat,
{
    if depth == 0 || pos < 0 || pos + 3 > data.len() {
        Err(Error::BankCorrupt)
    } else {
        let pt = Point {
            x: spec_wrap16(point.x.wrapping_sub(spec_coord(data[pos], zoom))),
            y: spec_wrap16(point.y.wrapping_sub(spec_coord(data[pos + 1], zoom))),
        };
        spec_read_children(data, pos + 3, zoom, pt, data[pos + 2] as nat + 1, depth)
    }
}

/// The `remaining` children whose entries start at `pos`. An entry is a
/// word that gives half the position of the child's command, with bit 15
/// set if a colour byte and a padding byte follow the entry, and the
/// offset of the child from the origin `pt` of the group.
pub open spec fn spec_read_children(data: Seq<u8>, pos: int, zoom: u32, pt: Point, remaining: nat, depth: nat) -> Result<
    (Seq<DrawItem>, int),
    Error,
>
    decreases depth, 0nat, remaining,
{
    if remaining == 0 {
        Ok((Seq::empty(), pos))
    } else if depth == 0 || pos < 0 || pos + 4 > data.len() {
        Err(Error::BankCorrupt)
    } else {
        let raw = spec_word_at(data, pos);
        let po = Point {
            x: spec_wrap16(pt.x.wrapping_add(spec_coord(data[pos + 2], zoom))),
            y: spec_wrap16(pt.y.wrapping_add(spec_coord(data[pos + 3], zoom))),
        };
        if raw & 0x8000 != 0 && pos + 5 > data.len() {
            Err(Error::BankCorrupt)
        } else {
            let color = if raw & 0x8000 != 0 {
                data[pos + 4] & 0x7f
            } else {
                0xffu8
            };
            match spec_read_polygons(data, (raw & 0x7fff) as int * 2, color, zoom, po, (depth - 1) as nat) {
                Err(e) => Err(e),
                Ok(first) => match spec_read_children(
                    data,
                    spec_child_end(data, pos),
                    zoom,
                    pt,
                    (remaining - 1) as nat,
                    depth,
                ) {
                    Err(e) => Err(e),
                    Ok(rest) => Ok((first.0 + rest.0, rest.1)),
                },
            }
        }
    }
}

/// A group of one child that lies at the origin of the group holds what
/// the command of the child holds, read with the colour of the child and
/// at the place of the group wrapped round to 16 bits.
pub proof fn lemma_group_of_one_child(data: Seq<u8>, pos: int, color: u8, zoom: u32, point: Point, depth: nat)
    requires
        0 <= pos,
        pos + 8 <= data.len(),
        depth > 0,
        data[pos] < 0xc0,
        data[pos] & 0x3f == 2,
        data[pos + 1] == 0,
        data[pos + 2] == 0,
        data[pos + 3] == 0,
        spec_word_at(data, pos + 4) & 0x8000 == 0,
        data[pos + 6] == 0,
        data[pos + 7] == 0,
        spec_coord(0, zoom) == 0,
        spec_wrap16(point.x) == point.x,
        spec_wrap16(point.y) == point.y,
    ensures
        match spec_read_polygons(
            data,
            (spec_word_at(data, pos + 4) & 0x7fff) as int * 2,
            0xff,
            zoom,
            point,
            (depth - 1) as nat,
        ) {
            Ok(child) => spec_read_polygons(data, pos, color, zoom, point, depth) == Ok::<(Seq<DrawItem>, int), Error>(
                (child.0, pos + 8),
            ),
            Err(e) => spec_read_polygons(data, pos, color, zoom, point, depth) == Err::<(Seq<DrawItem>, int), Error>(
                e,
            ),
        },
{
    let raw = spec_word_at(data, pos + 4);
    let child = spec_read_polygons(data, (raw & 0x7fff) as int * 2, 0xff, zoom, point, (depth - 1) as nat);
    assert(point.x.wrapping_sub(0) == point.x);
    assert(point.y.wrapping_sub(0) == point.y);
    assert(point.x.wrapping_add(0) == point.x);
    assert(point.y.wrapping_add(0) == point.y);
    let rest = spec_read_children(data, spec_child_end(data, pos + 4), zoom, point, 0, depth);
    assert(rest == Ok::<(Seq<DrawItem>, int), Error>((Seq::empty(), pos + 8)));
    if child is Ok {
        assert(child->Ok_0.0 + Seq::<DrawItem>::empty() =~= child->Ok_0.0);
    }
}

/// A polygon to draw as mathematical values.
pub open spec fn item_view(t: (Polygon, u8, Point)) -> DrawItem {
    DrawItem { polygon: t.0@, color: t.1, point: t.2 }
}

/// Polygons to draw as mathematical values.
pub open spec fn items_view(v: Seq<(Polygon, u8, Point)>) -> Seq<DrawItem> {
    Seq::new(v.len(), |k: int| item_view(v[k]))
}

/// Every polygon of the list has an even number of vertices, fewer than
/// `MAX_POINTS`.
pub open spec fn items_wf(v: Seq<(Polygon, u8, Point)>) -> bool {
    forall|k: int| 0 <= k < v.len() ==> (#[trigger] v[k]).0.wf()
}

/// What a parse returned, as mathematical values.
pub open spec fn parsed(r: Result<(Vec<(Polygon, u8, Point)>, usize), Error>) -> Result<(Seq<DrawItem>, int), Error> {
    match r {
        Ok(t) => Ok((items_view(t.0@), t.1 as int)),
        Err(e) => Err(e),
    }
}

/// A polygon that a parse returned, as mathematical values.
pub open spec fn parsed_polygon(r: Result<Polygon, Error>) -> Result<PolygonView, Error> {
    match r {
        Ok(p) => Ok(p@),
        Err(e) => Err(e),
    }
}

/// A length of the polygon stream scaled by `zoom / 64`.
pub fn scale(b: u8, zoom: u32) -> (r: u32)
    ensures
        r == spec_scale(b, zoom),
{
    assert(b as u64 * zoom as u64 <= 0xff * 0xffff_ffff) by (nonlinear_arith)
        requires
            b <= 0xff,
            zoom <= 0xffff_ffff,
    ;
    #[verifier::truncate]
    (((b as u64 * zoom as u64) / 64) as u32)
}

/// A coordinate of the polygon stream scaled by `zoom / 64`.
pub fn coord(b: u8, zoom: u32) -> (r: i32)
    ensures
        r == spec_coord(b, zoom),
{
    #[verifier::truncate]
    (scale(b, zoom) as i32)
}

/// A coordinate wrapped round to 16 bits with a sign.
pub fn wrap16(v: i32) -> (r: i32)
    ensures
        r == spec_wrap16(v),
{
    (#[verifier::truncate] (v as i16)) as i32
}

/// Reads the polygon at `pos` of `data`.
pub fn parse_vertices(data: &[u8], pos: usize, zoom: u32) -> (r: Result<Polygon, Error>)
    ensures
        parsed_polygon(r) == spec_read_vertices(data@, pos as int, zoom),
        r is Ok ==> r->Ok_0.wf() && pos + 3 + 2 * r->Ok_0@.points.len() <= data@.len(),
{
    let len = data.len();
    if len < 3 || pos > len - 3 {
        return Err(Error::BankCorrupt);
    }
    let bbw = scale(data[pos], zoom);
    let bbh = scale(data[pos + 1], zoom);
    let n = data[pos + 2] as usize;
    if n % 2 != 0 || n >= MAX_POINTS || len - (pos + 3) < 2 * n {
        return Err(Error::BankCorrupt);
    }
    let mut points: Vec<Point> = Vec::new();
    let mut k: usize = 0;
    while k < n
        invariant
            k <= n,
            n < MAX_POINTS,
            len == data@.len(),
            pos + 3 + 2 * n <= data@.len(),
            points@.len() == k,
            forall|m: int| 0 <= m < k ==> #[trigger] points@[m] == spec_points(data@, pos + 3, zoom, n as nat)[m],
        decreases n - k,
    {
        let x = coord(data[pos + 3 + 2 * k], zoom);
        let y = coord(data[pos + 3 + 2 * k + 1], zoom);
        points.push(Point { x, y });
        k = k + 1;
    }
    assert(points@ =~= spec_points(data@, pos + 3, zoom, n as nat));
    Ok(Polygon { bbw, bbh, points })
}

impl Polygon {
    /// Reads a polygon at the cursor and moves the cursor past it. On an
    /// error the cursor stays.
    pub fn read_vertices(buffer: &mut Buffer, zoom: u32) -> (r: Result<Polygon, Error>)
        ensures
            parsed_polygon(r) == spec_read_vertices(old(buffer).data@, old(buffer).offset as int, zoom),
            r is Ok ==> r->Ok_0.wf(),
            final(buffer).data@ == old(buffer).data@,
            final(buffer).offset == if r is Ok {
                old(buffer).offset + 3 + 2 * r->Ok_0@.points.len()
            } else {
                old(buffer).offset as int
            },
    {
        let r = parse_vertices(buffer.data, buffer.offset, zoom);
        if let Ok(p) = &r {
            let len = buffer.data.len();
            buffer.offset = buffer.offset + 3 + 2 * p.points.len();
        }
        r
    }
}

/// Reads the command at `pos` of the polygon stream `data`.
pub fn parse_polygons(data: &[u8], pos: usize, color: u8, zoom: u32, point: Point, depth: usize) -> (r: Result<
    (Vec<(Polygon, u8, Point)>, usize),
    Error,
>)
    ensures
        parsed(r) == spec_read_polygons(data@, pos as int, color, zoom, point, depth as nat),
        r is Ok ==> items_wf(r->Ok_0.0@) && r->Ok_0.1 <= data@.len(),
    decreases depth, 2nat, 0nat,
{
    let len = data.len();
    if pos >= len {
        return Err(Error::BankCorrupt);
    }
    let i = data[pos];
    if i >= 0xc0 {
        let c = if color & 0x80 != 0 {
            i & 0x3f
        } else {
            color
        };
        match parse_vertices(data, pos + 1, zoom) {
            Ok(polygon) => {
                let end = pos + 4 + 2 * polygon.points.len();
                let mut items: Vec<(Polygon, u8, Point)> = Vec::new();
                items.push((polygon, c, point));
                assert(items_view(items@) =~~= seq![DrawItem { polygon: polygon@, color: c, point }]);
                Ok((items, end))
            },
            Err(e) => Err(e),
        }
    } else if i & 0x3f == 2 {
        parse_hierarchy(data, pos + 1, zoom, point, depth)
    } else {
        let items: Vec<(Polygon, u8, Point)> = Vec::new();
        assert(items_view(items@) =~~= Seq::<DrawItem>::empty());
        Ok((items, pos + 1))
    }
}

/// Reads the group whose header starts at `pos` of the polygon stream
/// `data`.
pub fn parse_hierarchy(data: &[u8], pos: usize, zoom: u32, point: Point, depth: usize) -> (r: Result<
    (Vec<(Polygon, u8, Point)>, usize),
    Error,
>)
    ensures
        parsed(r) == spec_read_hierarchy(data@, pos as int, zoom, point, depth as nat),
        r is Ok ==> items_wf(r->Ok_0.0@) && r->Ok_0.1 <= data@.len(),
    decreases depth, 1nat, 0nat,
{
    let len = data.len();
    if depth == 0 || len < 3 || pos > len - 3 {
        return Err(Error::BankCorrupt);
    }
    let pt = Point {
        x: wrap16(point.x.wrapping_sub(coord(data[pos], zoom))),
        y: wrap16(point.y.wrapping_sub(coord(data[pos + 1], zoom))),
    };
    let children: usize = data[pos + 2] as usize + 1;
    let mut polygons: Vec<(Polygon, u8, Point)> = Vec::new();
    let mut cur: usize = pos + 3;
    let mut remaining: usize = children;
    let ghost goal = spec_read_children(data@, pos + 3, zoom, pt, children as nat, depth as nat);
    assert(items_view(polygons@) =~~= Seq::<DrawItem>::empty());
    while remaining > 0
        invariant
            len == data@.len(),
            depth > 0,
            cur <= len,
            items_wf(polygons@),
            goal == spec_read_hierarchy(data@, pos as int, zoom, point, depth as nat),
            goal == match spec_read_children(data@, cur as int, zoom, pt, remaining as nat, depth as nat) {
                Err(e) => Err(e),
                Ok(rest) => Ok((items_view(polygons@) + rest.0, rest.1)),
            },
        decreases remaining,
    {
        if len - cur < 4 {
            return Err(Error::BankCorrupt);
        }
        let raw: u16 = word_at(data, cur);
        let po = Point {
            x: wrap16(pt.x.wrapping_add(coord(data[cur + 2], zoom))),
            y: wrap16(pt.y.wrapping_add(coord(data[cur + 3], zoom))),
        };
        let mut color: u8 = 0xff;
        let mut next: usize = cur + 4;
        if raw & 0x8000 != 0 {
            if len - cur < 5 {
                return Err(Error::BankCorrupt);
            }
            color = data[cur + 4] & 0x7f;
            next = if len - cur >= 6 {
                cur + 6
            } else {
                len
            };
        }
        let offset: usize = (raw & 0x7fff) as usize * 2;
        let ghost before = items_view(polygons@);
        match parse_polygons(data, offset, color, zoom, po, depth - 1) {
            Err(e) => {
                return Err(e);
            },
            Ok(sub) => {
                let mut items = sub.0;
                let ghost first = items_view(items@);
                polygons.append(&mut items);
                assert(items_view(polygons@) =~~= before + first);
                proof {
                    let rest = spec_read_children(data@, next as int, zoom, pt, (remaining - 1) as nat, depth as nat);
                    if rest is Ok {
                        assert((before + first) + rest->Ok_0.0 =~= before + (first + rest->Ok_0.0));
                    }
                }
            },
        }
        cur = next;
        remaining = remaining - 1;
    }
    assert(items_view(polygons@) + Seq::<DrawItem>::empty() =~= items_view(polygons@));
    Ok((polygons, cur))
}

impl VideoView {
    /// The polygons of `items` drawn one after the other.
    pub open spec fn draw_items(self, items: Seq<DrawItem>) -> VideoView
        decreases items.len(),
    {
        if items.len() == 0 {
            self
        } else {
            self.draw_items(items.drop_last()).fill_polygon(items.last().polygon, items.last().color, items.last().point)
        }
    }
}

impl Video {
    /// Reads the command at the cursor of a polygon stream and returns
    /// the polygons that it holds, in the order in which they are drawn,
    /// each with its colour and the place of its centre. The cursor moves
    /// past the command; on an error it stays.
    pub fn read_polygons(&self, buffer: &mut Buffer, color: u8, zoom: u32, point: Point) -> (r: Result<
        Vec<(Polygon, u8, Point)>,
        Error,
    >)
        ensures
            final(buffer).data@ == old(buffer).data@,
            match spec_read_polygons(old(buffer).data@, old(buffer).offset as int, color, zoom, point, MAX_DEPTH as nat) {
                Ok(t) => r is Ok && items_view(r->Ok_0@) == t.0 && final(buffer).offset == t.1,
                Err(e) => r == Err::<Vec<(Polygon, u8, Point)>, Error>(e) && final(buffer).offset == old(buffer).offset,
            },
            r is Ok ==> items_wf(r->Ok_0@),
    {
        match parse_polygons(buffer.data, buffer.offset, color, zoom, point, MAX_DEPTH) {
            Ok(t) => {
                buffer.offset = t.1;
                Ok(t.0)
            },
            Err(e) => Err(e),
        }
    }

    /// Reads the group at the cursor of a polygon stream, after its
    /// command byte. The cursor moves past the group; on an error it stays.
    pub fn read_polygon_hierarchy(&self, buffer: &mut Buffer, zoom: u32, point: Point) -> (r: Result<
        Vec<(Polygon, u8, Point)>,
        Error,
    >)
        ensures
            final(buffer).data@ == old(buffer).data@,
            match spec_read_hierarchy(old(buffer).data@, old(buffer).offset as int, zoom, point, MAX_DEPTH as nat) {
                Ok(t) => r is Ok && items_view(r->Ok_0@) == t.0 && final(buffer).offset == t.1,
                Err(e) => r == Err::<Vec<(Polygon, u8, Point)>, Error>(e) && final(buffer).offset == old(buffer).offset,
            },
            r is Ok ==> items_wf(r->Ok_0@),
    {
        match parse_hierarchy(buffer.data, buffer.offset, zoom, point, MAX_DEPTH) {
            Ok(t) => {
                buffer.offset = t.1;
                Ok(t.0)
            },
            Err(e) => Err(e),
        }
    }

    /// Reads the command at the cursor of a polygon stream and draws the
    /// polygons that it holds. When the stream is malformed nothing is
    /// drawn.
    pub fn read_and_draw_polygon(&mut self, buffer: &mut Buffer, color: u8, zoom: u32, point: Point) -> (r: Result<(), Error>)
        requires
            old(self).wf(),
        ensures
            final(self).wf(),
            final(self)@.same_frame(old(self)@),
            final(buffer).data@ == old(buffer).data@,
            match spec_read_polygons(old(buffer).data@, old(buffer).offset as int, color, zoom, point, MAX_DEPTH as nat) {
                Ok(t) => r is Ok && final(self)@ == old(self)@.draw_items(t.0) && final(buffer).offset == t.1,
                Err(e) => r == Err::<(), Error>(e) && final(self)@ == old(self)@ && final(buffer).offset == old(buffer).offset,
            },
    {
        let items = match self.read_polygons(buffer, color, zoom, point) {
            Ok(items) => items,
            Err(e) => {
                return Err(e);
            },
        };
        let ghost views = items_view(items@);
        let n = items.len();
        let mut k: usize = 0;
        assert(views.take(0) =~= Seq::<DrawItem>::empty());
        while k < n
            invariant
                k <= n,
                n == items@.len(),
                views == items_view(items@),
                items_wf(items@),
                self.wf(),
                self@.same_frame(old(self)@),
                self@ == old(self)@.draw_items(views.take(k as int)),
            decreases n - k,
        {
            self.fill_polygon(&items[k].0, items[k].1, items[k].2);
            k = k + 1;
            assert(views.take(k as int).drop_last() =~= views.take(k - 1));
        }
        assert(views.take(n as int) =~= views);
        Ok(())
    }
}

impl VideoView {
    /// Drawing polygons keeps the renderer well formed and its page
    /// roles.
    pub proof fn lemma_draw_items_wf(self, items: Seq<DrawItem>)
        requires
            self.wf(),
        ensures
            self.draw_items(items).wf(),
            self.draw_items(items).same_frame(self),
        decreases items.len(),
    {
        if items.len() != 0 {
            self.lemma_draw_items_wf(items.drop_last());
            self.draw_items(items.drop_last()).lemma_fill_polygon_wf(
                items.last().polygon,
                items.last().color,
                items.last().point,
            );
        }
    }
}

} // verus!
