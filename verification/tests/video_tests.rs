use anotherworld::buffer::Buffer;
use anotherworld::error::Error;
use anotherworld::polygon::coord;
use anotherworld::polygon::scale;
use anotherworld::polygon::Point;
use anotherworld::polygon::Polygon;
use anotherworld::raster::calc_step;
use anotherworld::raster::half;
use anotherworld::raster::slope;
use anotherworld::strings::string_entry;
use anotherworld::util::resize;
use anotherworld::video::expand;
use anotherworld::video::Color;
use anotherworld::video::Page;
use anotherworld::video::Palette;
use anotherworld::video::Video;

const W: usize = 320;

fn rectangle() -> Polygon {
    Polygon {
        bbw: 4,
        bbh: 4,
        points: vec![Point { x: 4, y: 0 }, Point { x: 4, y: 4 }, Point { x: 0, y: 4 }, Point { x: 0, y: 0 }],
    }
}

fn count(page: &Page, color: u8) -> usize {
    page.data.iter().filter(|p| **p == color).count()
}

fn row_span(page: &Page, y: usize, color: u8) -> Option<(usize, usize)> {
    let row = &page.data[y * W..(y + 1) * W];
    let first = row.iter().position(|p| *p == color)?;
    let last = row.iter().rposition(|p| *p == color)?;
    Some((first, last))
}

#[test]
fn palette_expands_four_bits_to_eight() {
    assert_eq!(expand(0x0f), 0xfc);
    assert_eq!(expand(0x05), 0x54);
    assert_eq!(expand(0x00), 0x00);
    let mut raw = [0u8; 32];
    raw[0] = 0x0f;
    raw[1] = 0xf0;
    raw[2] = 0x05;
    raw[3] = 0x5a;
    let palette = Palette::from_bytes(&raw);
    assert_eq!(palette.entries[0], Color { r: 0xfc, g: 0xfc, b: 0x00, a: 0xff });
    assert_eq!(palette.entries[1], Color { r: 0x54, g: 0x54, b: 0xa8, a: 0xff });
    assert_eq!(palette.entries[15], Color { r: 0, g: 0, b: 0, a: 0xff });
}

#[test]
fn new_video_has_black_pages() {
    let video = Video::new(320, 200);
    assert_eq!(video.pages.len(), 4);
    for page in video.pages.iter() {
        assert_eq!(page.data.len(), 64000);
        assert!(page.data.iter().all(|p| *p == 0));
    }
    assert_eq!((video.cur_page_ptr1, video.cur_page_ptr2, video.cur_page_ptr3), (2, 2, 1));
    assert!(video.palette_requested.is_none());
    assert_eq!(Page::new(5).data, vec![0, 0, 0, 0, 0]);
}

#[test]
fn page_ids_resolve() {
    let mut video = Video::new(320, 200);
    assert_eq!(video.get_page_id(0), 0);
    assert_eq!(video.get_page_id(3), 3);
    assert_eq!(video.get_page_id(0xfe), 2);
    assert_eq!(video.get_page_id(0xff), 1);
    assert_eq!(video.get_page_id(4), 0);
    assert_eq!(video.get_page_id(0x80), 0);
    video.change_page_ptr1(0xff);
    assert_eq!(video.cur_page_ptr1, 1);
    video.change_page_ptr1(9);
    assert_eq!(video.cur_page_ptr1, 0);
}

#[test]
fn fill_video_page_fills_one_page() {
    let mut video = Video::new(320, 200);
    video.fill_video_page(1, 7);
    assert_eq!(count(&video.pages[1], 7), 64000);
    assert_eq!(count(&video.pages[0], 0), 64000);
    video.fill_video_page(0xfe, 3);
    assert_eq!(count(&video.pages[2], 3), 64000);
    assert_eq!(count(video.get_page(0xfe), 3), 64000);
}

#[test]
fn copy_page_copies_a_whole_page() {
    let mut video = Video::new(320, 200);
    video.fill_video_page(1, 7);
    video.copy_page(1, 2, 5);
    assert_eq!(count(&video.pages[2], 7), 64000);
    video.fill_video_page(3, 4);
    video.copy_page(0x43, 0, 0);
    assert_eq!(count(&video.pages[0], 4), 64000);
    video.copy_page(3, 3, 0);
    assert_eq!(count(&video.pages[3], 4), 64000);
}

#[test]
fn copy_page_scrolls_down_and_up() {
    let mut video = Video::new(320, 200);
    video.pages[1].data[0] = 9;
    video.pages[1].data[2 * W + 5] = 8;
    video.fill_video_page(0, 1);
    video.copy_page(0x81, 0, 2);
    assert_eq!(video.pages[0].data[2 * W], 9);
    assert_eq!(video.pages[0].data[4 * W + 5], 8);
    assert_eq!(video.pages[0].data[0], 1);
    assert_eq!(video.pages[0].data[2 * W - 1], 1);
    assert_eq!(video.pages[0].data[2 * W + 1], 0);
    video.fill_video_page(0, 1);
    video.copy_page(0x81, 0, -2);
    assert_eq!(video.pages[0].data[5], 8);
    assert_eq!(video.pages[0].data[198 * W], 1);
    assert_eq!(video.pages[0].data[198 * W - 1], 0);
    video.fill_video_page(0, 1);
    video.copy_page(0x81, 0, 200);
    assert_eq!(count(&video.pages[0], 1), 64000);
    video.copy_page(0x81, 0, -200);
    assert_eq!(count(&video.pages[0], 1), 64000);
    video.copy_page(0x81, 0, 199);
    assert_eq!(video.pages[0].data[199 * W], 9);
    assert_eq!(count(&video.pages[0], 1), 64000 - 320);
}

#[test]
fn copy_page_with_bit_six_does_not_scroll() {
    let mut video = Video::new(320, 200);
    video.pages[0].data[0] = 9;
    video.fill_video_page(2, 1);
    video.copy_page(0xc1, 2, 2);
    assert_eq!(video.pages[2].data[0], 9);
    assert_eq!(count(&video.pages[2], 0), 64000 - 1);
}

#[test]
fn copy_page_buffer_replaces_page_zero() {
    let mut video = Video::new(320, 200);
    let image = vec![6u8; 64000];
    video.copy_page_buffer(&image);
    assert_eq!(count(&video.pages[0], 6), 64000);
    assert_eq!(count(&video.pages[1], 0), 64000);
}

#[test]
fn update_display_sets_the_front_page() {
    let mut video = Video::new(320, 200);
    assert!(video.update_display(0xff).is_none());
    assert_eq!((video.cur_page_ptr2, video.cur_page_ptr3), (1, 2));
    video.update_display(0xfe);
    assert_eq!((video.cur_page_ptr2, video.cur_page_ptr3), (1, 2));
    video.update_display(3);
    assert_eq!((video.cur_page_ptr2, video.cur_page_ptr3), (3, 2));
    video.stage_palette(Palette::from_bytes(&[0x0f; 32]));
    let palette = video.update_display(0xfe).unwrap();
    assert_eq!(palette.entries[3].r, 0xfc);
    assert!(video.palette_requested.is_none());
    video.fill_video_page(3, 2);
    assert_eq!(count(video.front_page(), 2), 64000);
}

#[test]
fn edge_steps() {
    assert_eq!(slope(0), 0x4000);
    assert_eq!(slope(2), 0x2000);
    assert_eq!(slope(3), 5461);
    assert_eq!(slope(-3), -5461);
    assert_eq!(slope(i32::MIN), 0);
    assert_eq!(calc_step(&Point { x: 0, y: 0 }, &Point { x: 4, y: 2 }), (0x20000, 2));
    assert_eq!(calc_step(&Point { x: 0, y: 0 }, &Point { x: 3, y: -3 }), (-65532, 0xfffd));
    assert_eq!(calc_step(&Point { x: 1, y: 5 }, &Point { x: 3, y: 5 }), (0x20000, 0));
    assert_eq!(half(5), 2);
    assert_eq!(half(-5), -2);
    assert_eq!(half(i32::MIN), -1073741824);
}

#[test]
fn fill_polygon_fills_a_rectangle() {
    let mut video = Video::new(320, 200);
    video.fill_polygon(&rectangle(), 5, Point { x: 10, y: 10 });
    assert_eq!(count(&video.pages[2], 5), 20);
    for y in 8..12 {
        assert_eq!(row_span(&video.pages[2], y, 5), Some((8, 12)));
    }
    assert_eq!(row_span(&video.pages[2], 7, 5), None);
    assert_eq!(row_span(&video.pages[2], 12, 5), None);
    assert_eq!(rectangle().num_points(), 4);
}

#[test]
fn fill_polygon_clips_to_the_page() {
    let mut video = Video::new(320, 200);
    video.fill_polygon(&rectangle(), 5, Point { x: 0, y: 0 });
    assert_eq!(count(&video.pages[2], 5), 6);
    assert_eq!(row_span(&video.pages[2], 0, 5), Some((0, 2)));
    assert_eq!(row_span(&video.pages[2], 1, 5), Some((0, 2)));
    video.fill_polygon(&rectangle(), 6, Point { x: 319, y: 199 });
    assert_eq!(row_span(&video.pages[2], 199, 6), Some((317, 319)));
    assert_eq!(count(&video.pages[2], 6), 9);
    video.fill_polygon(&rectangle(), 7, Point { x: 400, y: 10 });
    video.fill_polygon(&rectangle(), 7, Point { x: 10, y: 300 });
    video.fill_polygon(&rectangle(), 7, Point { x: -10, y: 10 });
    video.fill_polygon(&rectangle(), 7, Point { x: 10, y: -10 });
    assert_eq!(count(&video.pages[2], 7), 0);
}

#[test]
fn fill_polygon_draws_a_point() {
    let mut video = Video::new(320, 200);
    let mut point = rectangle();
    point.bbw = 0;
    point.bbh = 1;
    video.fill_polygon(&point, 0x33, Point { x: 3, y: 2 });
    assert_eq!(video.pages[2].data[2 * W + 3], 0x33);
    assert_eq!(count(&video.pages[2], 0x33), 1);
    video.fill_polygon(&point, 0x33, Point { x: 320, y: 2 });
    video.fill_polygon(&point, 0x33, Point { x: 3, y: -1 });
    assert_eq!(count(&video.pages[2], 0x33), 1);
}

#[test]
fn fill_polygon_blends_and_copies() {
    let mut video = Video::new(320, 200);
    video.fill_video_page(2, 0xff);
    video.fill_polygon(&rectangle(), 0x10, Point { x: 10, y: 10 });
    assert_eq!(count(&video.pages[2], 0x7f), 20);
    video.fill_video_page(0, 0x0c);
    video.fill_polygon(&rectangle(), 0x11, Point { x: 100, y: 100 });
    assert_eq!(count(&video.pages[2], 0x0c), 20);
    video.fill_polygon(&rectangle(), 0xff, Point { x: 200, y: 100 });
    assert_eq!(count(&video.pages[2], 0x0c), 40);
    video.fill_video_page(2, 0x05);
    video.fill_polygon(&rectangle(), 0x10, Point { x: 10, y: 10 });
    assert_eq!(count(&video.pages[2], 0x0d), 20);
}

#[test]
fn fill_polygon_follows_a_slanted_edge() {
    let mut video = Video::new(320, 200);
    let slanted = Polygon {
        bbw: 8,
        bbh: 4,
        points: vec![Point { x: 4, y: 0 }, Point { x: 8, y: 4 }, Point { x: 0, y: 4 }, Point { x: 0, y: 0 }],
    };
    video.fill_polygon(&slanted, 5, Point { x: 20, y: 20 });
    assert_eq!(row_span(&video.pages[2], 18, 5), Some((16, 20)));
    assert_eq!(row_span(&video.pages[2], 19, 5), Some((16, 21)));
    assert_eq!(row_span(&video.pages[2], 20, 5), Some((16, 22)));
    assert_eq!(row_span(&video.pages[2], 21, 5), Some((16, 23)));
    assert_eq!(count(&video.pages[2], 5), 5 + 6 + 7 + 8);
}

#[test]
fn mirrored_polygon_gives_a_mirrored_image() {
    let slanted = Polygon {
        bbw: 8,
        bbh: 4,
        points: vec![Point { x: 4, y: 0 }, Point { x: 8, y: 4 }, Point { x: 0, y: 4 }, Point { x: 0, y: 0 }],
    };
    let mirrored = Polygon {
        bbw: 8,
        bbh: 4,
        points: vec![Point { x: 8, y: 0 }, Point { x: 8, y: 4 }, Point { x: 0, y: 4 }, Point { x: 4, y: 0 }],
    };
    let mut video = Video::new(320, 200);
    video.change_page_ptr1(1);
    video.fill_polygon(&slanted, 5, Point { x: 20, y: 20 });
    video.change_page_ptr1(2);
    video.fill_polygon(&mirrored, 5, Point { x: 20, y: 20 });
    for y in 0..200 {
        let a = row_span(&video.pages[1], y, 5);
        let b = row_span(&video.pages[2], y, 5);
        match (a, b) {
            (None, None) => {}
            (Some((a1, a2)), Some((b1, b2))) => {
                let m1 = 40 - a2 as i32;
                let m2 = 40 - a1 as i32;
                assert!((b1 as i32 - m1).abs() <= 1, "row {}", y);
                assert!((b2 as i32 - m2).abs() <= 1, "row {}", y);
            }
            _ => panic!("row {} is drawn in one image only", y),
        }
    }
    assert_eq!(count(&video.pages[1], 5), count(&video.pages[2], 5));
}

#[test]
fn scaling_by_zoom() {
    assert_eq!(scale(10, 64), 10);
    assert_eq!(scale(10, 128), 20);
    assert_eq!(scale(10, 32), 5);
    assert_eq!(scale(255, 0x40), 255);
    assert_eq!(scale(3, 0x20), 1);
    assert_eq!(coord(200, 64), 200);
    assert_eq!(coord(7, 96), 10);
}

#[test]
fn read_vertices_reads_a_polygon() {
    let data = [8u8, 6, 4, 1, 2, 3, 4, 5, 6, 7, 8, 99];
    let mut buffer = Buffer::with_offset(&data, 0);
    let polygon = Polygon::read_vertices(&mut buffer, 128).unwrap();
    assert_eq!((polygon.bbw, polygon.bbh), (16, 12));
    assert_eq!(
        polygon.points,
        vec![Point { x: 2, y: 4 }, Point { x: 6, y: 8 }, Point { x: 10, y: 12 }, Point { x: 14, y: 16 }]
    );
    assert_eq!(buffer.offset, 11);
}

#[test]
fn read_vertices_rejects_malformed_polygons() {
    let odd = [8u8, 6, 3, 1, 2, 3, 4, 5, 6];
    let mut buffer = Buffer::with_offset(&odd, 0);
    assert!(matches!(Polygon::read_vertices(&mut buffer, 64), Err(Error::BankCorrupt)));
    assert_eq!(buffer.offset, 0);
    let many = [0u8; 200];
    let mut data = many.to_vec();
    data[2] = 50;
    let mut buffer = Buffer::with_offset(&data, 0);
    assert!(matches!(Polygon::read_vertices(&mut buffer, 64), Err(Error::BankCorrupt)));
    let short = [8u8, 6, 4, 1, 2, 3];
    let mut buffer = Buffer::with_offset(&short, 0);
    assert!(matches!(Polygon::read_vertices(&mut buffer, 64), Err(Error::BankCorrupt)));
    let mut buffer = Buffer::with_offset(&short, 5);
    assert!(matches!(Polygon::read_vertices(&mut buffer, 64), Err(Error::BankCorrupt)));
    data[2] = 48;
    let mut buffer = Buffer::with_offset(&data, 0);
    assert_eq!(Polygon::read_vertices(&mut buffer, 64).unwrap().points.len(), 48);
}

fn leaf() -> Vec<u8> {
    vec![0xc5, 4, 4, 4, 4, 0, 4, 4, 0, 4, 0, 0]
}

#[test]
fn read_polygons_reads_a_leaf() {
    let video = Video::new(320, 200);
    let data = leaf();
    let mut buffer = Buffer::with_offset(&data, 0);
    let items = video.read_polygons(&mut buffer, 0xff, 64, Point { x: 10, y: 10 }).unwrap();
    assert_eq!(items.len(), 1);
    assert_eq!(items[0].1, 5);
    assert_eq!(items[0].2, Point { x: 10, y: 10 });
    assert_eq!(items[0].0.points, rectangle().points);
    assert_eq!(buffer.offset, 12);
    let mut buffer = Buffer::with_offset(&data, 0);
    let items = video.read_polygons(&mut buffer, 0x07, 64, Point { x: 10, y: 10 }).unwrap();
    assert_eq!(items[0].1, 7);
}

#[test]
fn read_polygons_passes_over_unknown_commands() {
    let video = Video::new(320, 200);
    let data = [0x01u8, 0, 0];
    let mut buffer = Buffer::with_offset(&data, 0);
    assert!(video.read_polygons(&mut buffer, 0xff, 64, Point { x: 0, y: 0 }).unwrap().is_empty());
    assert_eq!(buffer.offset, 1);
    let mut buffer = Buffer::with_offset(&data, 3);
    assert!(matches!(video.read_polygons(&mut buffer, 0xff, 64, Point { x: 0, y: 0 }), Err(Error::BankCorrupt)));
    assert_eq!(buffer.offset, 3);
}

#[test]
fn polygon_hierarchy_offset() {
    let mut stream = vec![0x02u8, 0, 0, 0, 0x00, 0x04, 0, 0];
    stream.extend_from_slice(&leaf());
    let mut grouped = Video::new(320, 200);
    let mut buffer = Buffer::with_offset(&stream, 0);
    grouped.read_and_draw_polygon(&mut buffer, 0xff, 64, Point { x: 50, y: 60 }).unwrap();
    assert_eq!(buffer.offset, 8);
    let mut direct = Video::new(320, 200);
    let mut buffer = Buffer::with_offset(&stream, 8);
    direct.read_and_draw_polygon(&mut buffer, 0xff, 64, Point { x: 50, y: 60 }).unwrap();
    assert_eq!(grouped.pages[2].data, direct.pages[2].data);
    assert_eq!(count(&grouped.pages[2], 5), 20);
    assert_eq!(row_span(&grouped.pages[2], 58, 5), Some((48, 52)));
}

#[test]
fn polygon_hierarchy_moves_and_colours_children() {
    // origin 10 left and 20 up; two children, the second with a colour of its own
    let mut stream = vec![0x02u8, 10, 20, 1, 0x00, 0x0a, 3, 4, 0x80, 0x0a, 100, 50, 0x83, 0];
    stream.extend_from_slice(&[0, 0, 0, 0, 0, 0]);
    stream.extend_from_slice(&leaf());
    let video = Video::new(320, 200);
    let mut buffer = Buffer::with_offset(&stream, 1);
    let items = video.read_polygon_hierarchy(&mut buffer, 64, Point { x: 50, y: 60 }).unwrap();
    assert_eq!(items.len(), 2);
    assert_eq!(items[0].2, Point { x: 43, y: 44 });
    assert_eq!(items[0].1, 5);
    assert_eq!(items[1].2, Point { x: 140, y: 90 });
    assert_eq!(items[1].1, 3);
    assert_eq!(buffer.offset, 14);
    let mut buffer = Buffer::with_offset(&stream, 0);
    let again = video.read_polygons(&mut buffer, 0xff, 64, Point { x: 50, y: 60 }).unwrap();
    assert_eq!(again.len(), 2);
    assert_eq!(buffer.offset, 14);
}

#[test]
fn polygon_hierarchy_rejects_a_child_beyond_the_stream() {
    let stream = vec![0x02u8, 0, 0, 0, 0x10, 0x00, 0, 0];
    let mut video = Video::new(320, 200);
    let mut buffer = Buffer::with_offset(&stream, 0);
    assert_eq!(
        video.read_and_draw_polygon(&mut buffer, 0xff, 64, Point { x: 50, y: 60 }),
        Err(Error::BankCorrupt)
    );
    assert_eq!(buffer.offset, 0);
    assert_eq!(count(&video.pages[2], 0), 64000);
    let cut = vec![0x02u8, 0, 0, 0, 0x00];
    let mut buffer = Buffer::with_offset(&cut, 0);
    assert_eq!(
        video.read_and_draw_polygon(&mut buffer, 0xff, 64, Point { x: 50, y: 60 }),
        Err(Error::BankCorrupt)
    );
}

#[test]
fn draw_char_draws_a_glyph() {
    let mut video = Video::new(320, 200);
    video.draw_char(b'A', 1, 10, 6, 2, 1);
    let page = &video.pages[2];
    assert_eq!(row_span(page, 10, 6), Some((9, 12)));
    assert_eq!(row_span(page, 11, 6), Some((8, 13)));
    assert_eq!(page.data[11 * W + 9], 0);
    assert_eq!(row_span(page, 13, 6), Some((8, 13)));
    assert_eq!(count(page, 6), 4 + 2 + 2 + 6 + 2 + 2 + 2);
    assert_eq!(row_span(page, 17, 6), None);
    video.draw_char(b'A', 40, 10, 7, 2, 1);
    video.draw_char(b'A', 1, 193, 7, 2, 1);
    video.draw_char(0x1f, 1, 10, 7, 2, 1);
    video.draw_char(0x80, 1, 10, 7, 2, 1);
    video.draw_char(b'A', 1, 10, 7, 4, 1);
    video.draw_char(b'A', 1, 10, 7, 2, 0);
    video.draw_char(b'A', 39, 10, 7, 2, 2);
    video.draw_char(b'A', 1, 192, 7, 2, 2);
    assert_eq!(count(&video.pages[2], 7), 0);
    video.draw_char(b' ', 1, 10, 7, 2, 1);
    assert_eq!(count(&video.pages[2], 6), 20);
}

#[test]
fn draw_char_scales_the_glyph() {
    let mut video = Video::new(640, 400);
    video.draw_char(b'A', 1, 10, 6, 0, 2);
    let page = &video.pages[0];
    let row = |y: usize| {
        let r = &page.data[y * 640..(y + 1) * 640];
        (r.iter().position(|p| *p == 6), r.iter().rposition(|p| *p == 6))
    };
    assert_eq!(row(20), (Some(18), Some(25)));
    assert_eq!(row(21), (Some(18), Some(25)));
    assert_eq!(row(22), (Some(16), Some(27)));
    assert_eq!(row(19), (None, None));
    assert_eq!(count(page, 6), 20 * 4);
}

#[test]
fn draw_string_wraps_on_line_feed() {
    let mut video = Video::new(320, 200);
    video.draw_string(6, 2, 20, "A\nA", 1);
    let page = &video.pages[2];
    assert_eq!(row_span(page, 20, 6), Some((17, 20)));
    assert_eq!(row_span(page, 28, 6), Some((17, 20)));
    assert_eq!(count(page, 6), 40);
    let mut video = Video::new(320, 200);
    video.draw_string(6, 2, 20, "AA", 1);
    assert_eq!(row_span(&video.pages[2], 20, 6), Some((17, 28)));
    assert_eq!(count(&video.pages[2], 6), 40);
}

#[test]
fn draw_string_id_looks_the_text_up() {
    assert_eq!(string_entry(0x003), Some("2"));
    assert_eq!(string_entry(0x049), Some("Delphine Software"));
    assert_eq!(string_entry(0x000), None);
    assert_eq!(string_entry(0xffff), None);
    let mut by_id = Video::new(320, 200);
    by_id.draw_string_id(6, 2, 20, 0x049, 1);
    let mut by_text = Video::new(320, 200);
    by_text.draw_string(6, 2, 20, "Delphine Software", 1);
    assert_eq!(by_id.pages[2].data, by_text.pages[2].data);
    assert!(count(&by_id.pages[2], 6) > 0);
    let mut unknown = Video::new(320, 200);
    unknown.draw_string_id(6, 2, 20, 0xffff, 1);
    assert_eq!(count(&unknown.pages[2], 0), 64000);
}

#[test]
fn draw_lines_and_points() {
    let mut video = Video::new(320, 200);
    video.draw_line_n(5, 3, 9, 1);
    assert_eq!(row_span(&video.pages[2], 1, 9), Some((3, 5)));
    video.fill_video_page(0, 4);
    video.draw_line_p(0, 319, 0, 2);
    assert_eq!(row_span(&video.pages[2], 2, 4), Some((0, 319)));
    video.draw_line_blend(2, 4, 0, 1);
    assert_eq!(video.pages[2].data[W + 2], 0x08);
    assert_eq!(video.pages[2].data[W + 3], 0x09);
    assert_eq!(video.pages[2].data[W + 5], 0x09);
    assert_eq!(video.pages[2].data[W + 1], 0x00);
    video.draw_point(0x21, Point { x: 319, y: 199 });
    assert_eq!(video.pages[2].data[63999], 0x21);
    video.put_pixel(1, 7, 3);
    assert_eq!(video.get_pixel(1, 7), 3);
}

#[test]
fn resize_repeats_each_pixel() {
    let mut image = vec![0u8; 64000];
    image[0] = 1;
    image[1] = 2;
    image[320] = 3;
    image[63999] = 4;
    let big = resize(&image, 2);
    assert_eq!(big.len(), 256000);
    assert_eq!(&big[0..4], &[1, 1, 2, 2]);
    assert_eq!(&big[640..644], &[1, 1, 2, 2]);
    assert_eq!(&big[1280..1283], &[3, 3, 0]);
    assert_eq!(big[255999], 4);
    assert_eq!(big[255999 - 640], 4);
    assert_eq!(big[255998], 4);
    assert_eq!(big[255997], 0);
    assert_eq!(resize(&image, 1), image);
    assert!(resize(&image, 0).is_empty());
}

#[test]
fn polygon_hierarchy_wraps_places_to_sixteen_bits() {
    let mut stream = vec![0x02u8, 0, 0, 0, 0x00, 0x04, 20, 30];
    stream.extend_from_slice(&leaf());
    let video = Video::new(320, 200);
    let mut buffer = Buffer::with_offset(&stream, 0);
    let items = video.read_polygons(&mut buffer, 0xff, 64, Point { x: 0xfff0, y: 0x1_0005 }).unwrap();
    assert_eq!(items[0].2, Point { x: 4, y: 35 });
    let mut buffer = Buffer::with_offset(&stream, 0);
    let items = video.read_polygons(&mut buffer, 0xff, 64, Point { x: 0x7ff0, y: -40 }).unwrap();
    assert_eq!(items[0].2, Point { x: -0x8000 + 4, y: -10 });
}
