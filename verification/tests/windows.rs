use ommatidium::border::OmmaBorder;
use ommatidium::cell::{blank_cell, corner_cell, horiz_cell, vert_cell, wall_cell, OmmaCell};
use ommatidium::color::OmmaColor;
use ommatidium::pad::OmmaPad;
use ommatidium::session::Session;
use ommatidium::object::{Object, ObjectBuilder};
use ommatidium::term::OmmaTerm;
use ommatidium::window::{Window, WindowBuilder};
use ommatidium::IdCounters;

fn glyph(ch: char) -> OmmaCell {
    OmmaCell::new(ch, None, None, 0)
}

fn session(ids: &mut IdCounters) -> Session {
    Session::new_headless(ids, 50, 50).unwrap()
}

fn back(session: &Session, x: usize, y: usize) -> OmmaCell {
    session.term().cell_at(x, y).unwrap()
}

#[test]
fn test_window() {
    let mut ids = IdCounters::new();
    let mut s = session(&mut ids);
    let first = s.new_window(4, 3).offset(2, 1).submit(&mut ids, &mut s).unwrap();
    let second = s.new_window(4, 3).offset(2, 1).submit(&mut ids, &mut s).unwrap();
    assert!(first == 1);
    assert!(second == 2);
    let window = s.window(first).unwrap();
    assert!(window.id() == 1);
    assert!(window.offset_y() == 1);
    assert!(window.offset_x() == 2);
    assert!(window.height() == 3);
    assert!(window.width() == 4);
    let window2 = s.window(second).unwrap();
    assert!(window2.id() == 2);
}

#[test]
fn set_ommacell() {
    let mut ids = IdCounters::new();
    let mut s = session(&mut ids);
    let window_id = s.new_window(10, 10).offset(5, 5).submit(&mut ids, &mut s).unwrap();
    s.window(window_id).unwrap().set_ommacell(3, 3, &OmmaCell::new('@', None, None, 0)).unwrap();
}

#[test]
fn get_ommacell() {
    let mut ids = IdCounters::new();
    let mut s = session(&mut ids);
    let window_id = s.new_window(10, 10).offset(5, 5).submit(&mut ids, &mut s).unwrap();
    s.window(window_id).unwrap().set_ommacell(3, 4, &OmmaCell::new('@', None, None, 0)).unwrap();
    let ommacell = s.window(window_id).unwrap().get_ommacell(3, 4).unwrap();
    assert!(ommacell.ch == '@');
}

#[test]
fn window_set_then_get_everywhere() {
    let mut ids = IdCounters::new();
    let mut s = session(&mut ids);
    let id = s.new_window(4, 3).submit(&mut ids, &mut s).unwrap();
    let w = s.window(id).unwrap();
    for x in 0..4 {
        for y in 0..3 {
            let cell = OmmaCell::new('a', Some(OmmaColor::new(x as u8, y as u8, 9)), None, 7);
            w.set_ommacell(x, y, &cell).unwrap();
            assert_eq!(w.get_ommacell(x, y).unwrap(), cell);
        }
    }
    assert_eq!(w.get_ommacell(0, 0).unwrap().fg, Some(OmmaColor::new(0, 0, 9)));
    assert_eq!(w.get_ommacell(3, 2).unwrap().fg, Some(OmmaColor::new(3, 2, 9)));
}

#[test]
fn window_set_and_get_outside_fail() {
    let mut ids = IdCounters::new();
    let mut s = session(&mut ids);
    let id = s.new_window(4, 3).submit(&mut ids, &mut s).unwrap();
    let w = s.window(id).unwrap();
    let e = w.set_ommacell(4, 0, &wall_cell()).err().unwrap();
    assert_eq!(e.body(), "window_id 1 invalid ommacell write to 4:0 (max 4:3)");
    let e = w.set_ommacell(0, 3, &wall_cell()).err().unwrap();
    assert_eq!(e.body(), "window_id 1 invalid ommacell write to 0:3 (max 4:3)");
    let e = w.get_ommacell(4, 0).err().unwrap();
    assert_eq!(e.body(), "window_id 1 invalid ommacell read from 4:0 (max 4:3)");
    let e = w.get_ommacell(0, 3).err().unwrap();
    assert_eq!(e.body(), "window_id 1 invalid ommacell read from 0:3 (max 4:3)");
    assert!(w.get_ommacell(usize::MAX, usize::MAX).is_err());
    assert_eq!(w.get_ommacell(3, 2).unwrap(), OmmaCell::transparent());
}

#[test]
fn window_fill_fills_and_counts_the_view() {
    let mut ids = IdCounters::new();
    let mut s = session(&mut ids);
    let id = s.new_window(4, 3).submit(&mut ids, &mut s).unwrap();
    let w = s.window(id).unwrap();
    assert_eq!(w.fill(&wall_cell()).unwrap(), 12);
    for x in 0..4 {
        for y in 0..3 {
            assert_eq!(w.get_ommacell(x, y).unwrap(), wall_cell());
        }
    }
    assert_eq!(w.view_width(), 4);
    assert_eq!(w.view_height(), 3);
}

#[test]
fn window_fill_of_an_empty_window_counts_nothing() {
    let mut ids = IdCounters::new();
    let mut s = session(&mut ids);
    let id = s.new_window(0, 3).submit(&mut ids, &mut s).unwrap();
    assert_eq!(s.window(id).unwrap().fill(&wall_cell()).unwrap(), 0);
}

#[test]
fn window_builder_fill_fills_the_buffer() {
    let mut ids = IdCounters::new();
    let mut s = session(&mut ids);
    let id = s.new_window(2, 2).fill(&wall_cell()).submit(&mut ids, &mut s).unwrap();
    let w = s.window(id).unwrap();
    assert_eq!(w.get_ommacell(0, 0).unwrap(), wall_cell());
    assert_eq!(w.get_ommacell(1, 1).unwrap(), wall_cell());
}

#[test]
fn window_unnamed_gets_a_name_from_its_id() {
    let mut ids = IdCounters::new();
    let mut s = session(&mut ids);
    let a = s.new_window(1, 1).submit(&mut ids, &mut s).unwrap();
    let b = s.new_window(1, 1).name("Dialog".to_string()).hidden().submit(&mut ids, &mut s).unwrap();
    assert_eq!(s.window(a).unwrap().to_string(), "V:1:Unnamed Window #1");
    assert_eq!(s.window(b).unwrap().to_string(), "H:2:Dialog");
    assert_eq!(s.window(0).unwrap().to_string(), "V:0:System Window");
}

#[test]
fn window_getters_follow_the_builder() {
    let mut ids = IdCounters::new();
    let mut s = session(&mut ids);
    let parent = s.new_window(9, 9).submit(&mut ids, &mut s).unwrap();
    let id = WindowBuilder::new(7, 5)
        .parent(parent)
        .offset(3, 4)
        .scroll(1, 1)
        .pad_raw(1, 2, 3, 4)
        .submit(&mut ids, &mut s)
        .unwrap();
    let w = s.window(id).unwrap();
    assert_eq!(w.id(), 2);
    assert_eq!(w.parent_id(), 1);
    assert_eq!(w.offset_x(), 3);
    assert_eq!(w.offset_y(), 4);
    assert_eq!(w.width(), 7);
    assert_eq!(w.height(), 5);
    assert_eq!(w.view_width(), 7);
    assert_eq!(w.view_height(), 5);
    assert_eq!(w.pad_top(), 1);
    assert_eq!(w.pad_bottom(), 2);
    assert_eq!(w.pad_left(), 3);
    assert_eq!(w.pad_right(), 4);
    assert!(!w.is_hidden());
    assert!(w.is_border_hidden());
}

#[test]
fn window_pad_counts_the_border() {
    let mut ids = IdCounters::new();
    let mut s = session(&mut ids);
    let id = s
        .new_window(9, 9)
        .pad(&OmmaPad::new(1, 2, 3, 4))
        .border_mono(&wall_cell())
        .submit(&mut ids, &mut s)
        .unwrap();
    let w = s.window(id).unwrap();
    assert_eq!((w.pad_top(), w.pad_bottom(), w.pad_left(), w.pad_right()), (2, 3, 4, 5));
    w.set_border_hidden();
    assert_eq!((w.pad_top(), w.pad_bottom(), w.pad_left(), w.pad_right()), (2, 3, 4, 5));
    w.remove_border();
    assert_eq!((w.pad_top(), w.pad_bottom(), w.pad_left(), w.pad_right()), (1, 2, 3, 4));
}

#[test]
fn window_pad_stops_at_the_largest_number() {
    let mut ids = IdCounters::new();
    let mut s = session(&mut ids);
    let id = s
        .new_window(2, 2)
        .pad_mono(usize::MAX)
        .border_mono(&wall_cell())
        .submit(&mut ids, &mut s)
        .unwrap();
    assert_eq!(s.window(id).unwrap().pad_left(), usize::MAX);
    assert_eq!(s.render().unwrap(), 2500);
}

#[test]
fn window_border_hidden_flag() {
    let mut ids = IdCounters::new();
    let mut s = session(&mut ids);
    let id = s.new_window(3, 3).submit(&mut ids, &mut s).unwrap();
    let w = s.window(id).unwrap();
    assert!(w.is_border_hidden());
    w.toggle_border_hidden();
    w.set_border_hidden();
    w.clear_border_hidden();
    assert!(w.is_border_hidden());
    w.set_border(&OmmaBorder::new_mono(&wall_cell()));
    assert!(!w.is_border_hidden());
    w.toggle_border_hidden();
    assert!(w.is_border_hidden());
    w.toggle_border_hidden();
    assert!(!w.is_border_hidden());
    w.set_border_hidden();
    assert!(w.is_border_hidden());
    w.clear_border_hidden();
    assert!(!w.is_border_hidden());
    w.remove_border();
    assert!(w.is_border_hidden());
}

#[test]
fn window_builder_border_hidden() {
    let mut ids = IdCounters::new();
    let mut s = session(&mut ids);
    let a = s.new_window(3, 3).border_hidden().submit(&mut ids, &mut s).unwrap();
    let b = s
        .new_window(3, 3)
        .border(&OmmaBorder::new_mono(&wall_cell()))
        .border_hidden()
        .submit(&mut ids, &mut s)
        .unwrap();
    assert_eq!(s.window(a).unwrap().pad_top(), 0);
    assert!(s.window(b).unwrap().is_border_hidden());
    assert_eq!(s.window(b).unwrap().pad_top(), 1);
    s.window(b).unwrap().clear_border_hidden();
    assert!(!s.window(b).unwrap().is_border_hidden());
}

#[test]
fn window_hidden_flag() {
    let mut ids = IdCounters::new();
    let mut s = session(&mut ids);
    let id = s.new_window(3, 3).submit(&mut ids, &mut s).unwrap();
    let w = s.window(id).unwrap();
    assert!(!w.is_hidden());
    w.toggle_hidden();
    assert!(w.is_hidden());
    w.toggle_hidden();
    assert!(!w.is_hidden());
    w.set_hidden();
    w.set_hidden();
    assert!(w.is_hidden());
    w.clear_hidden();
    assert!(!w.is_hidden());
}

#[test]
fn window_remove_child_takes_the_first_entry() {
    let mut ids = IdCounters::new();
    let mut s = session(&mut ids);
    let a = s.new_window(1, 1).fill(&glyph('a')).submit(&mut ids, &mut s).unwrap();
    let b = s.new_window(1, 1).fill(&glyph('b')).submit(&mut ids, &mut s).unwrap();
    s.render().unwrap();
    assert_eq!(back(&s, 0, 0), glyph('b'));
    s.window(0).unwrap().remove_child(b).unwrap();
    s.render().unwrap();
    assert_eq!(back(&s, 0, 0), glyph('a'));
    let e = s.window(0).unwrap().remove_child(b).err().unwrap();
    assert_eq!(e.body(), "error removing window 2 from parent 0, not owned");
    s.window(0).unwrap().add_child(b);
    s.window(0).unwrap().add_child(a);
    s.render().unwrap();
    assert_eq!(back(&s, 0, 0), glyph('a'));
    s.window(0).unwrap().remove_child(a).unwrap();
    s.render().unwrap();
    assert_eq!(back(&s, 0, 0), glyph('a'));
    s.window(0).unwrap().remove_child(a).unwrap();
    s.render().unwrap();
    assert_eq!(back(&s, 0, 0), glyph('b'));
}

#[test]
fn window_string_raw_writes_one_cell_for_each_character() {
    let mut ids = IdCounters::new();
    let mut s = session(&mut ids);
    let id = s.new_window(8, 2).submit(&mut ids, &mut s).unwrap();
    let w = s.window(id).unwrap();
    let ink = OmmaCell::new('?', Some(OmmaColor::new(0, 255, 0)), None, 3);
    assert_eq!(w.string_raw(2, 1, &ink, "Yes!".to_string()).unwrap(), 4);
    assert_eq!(w.get_ommacell(1, 1).unwrap(), OmmaCell::transparent());
    assert_eq!(w.get_ommacell(2, 1).unwrap(), OmmaCell::new('Y', Some(OmmaColor::new(0, 255, 0)), None, 3));
    assert_eq!(w.get_ommacell(3, 1).unwrap().ch, 'e');
    assert_eq!(w.get_ommacell(4, 1).unwrap().ch, 's');
    assert_eq!(w.get_ommacell(5, 1).unwrap().ch, '!');
    assert_eq!(w.get_ommacell(6, 1).unwrap(), OmmaCell::transparent());
    assert_eq!(w.get_ommacell(2, 0).unwrap(), OmmaCell::transparent());
}

#[test]
fn window_string_raw_counts_bytes() {
    let mut ids = IdCounters::new();
    let mut s = session(&mut ids);
    let id = s.new_window(8, 1).submit(&mut ids, &mut s).unwrap();
    let w = s.window(id).unwrap();
    assert_eq!(w.string_raw(0, 0, &blank_cell(), "h\u{e9}".to_string()).unwrap(), 3);
    assert_eq!(w.get_ommacell(0, 0).unwrap().ch, 'h');
    assert_eq!(w.get_ommacell(1, 0).unwrap().ch, '\u{e9}');
    assert_eq!(w.get_ommacell(2, 0).unwrap(), OmmaCell::transparent());
    assert_eq!(w.string_raw(7, 0, &blank_cell(), String::new()).unwrap(), 0);
}

#[test]
fn window_string_raw_that_ends_in_the_last_column_fits() {
    let mut ids = IdCounters::new();
    let mut s = session(&mut ids);
    let id = s.new_window(8, 2).submit(&mut ids, &mut s).unwrap();
    let w = s.window(id).unwrap();
    let ink = OmmaCell::new('?', None, Some(OmmaColor::new(9, 8, 7)), 1);
    assert_eq!(w.string_raw(0, 0, &ink, "12345678".to_string()).unwrap(), 8);
    for (i, ch) in "12345678".chars().enumerate() {
        assert_eq!(
            w.get_ommacell(i, 0).unwrap(),
            OmmaCell::new(ch, None, Some(OmmaColor::new(9, 8, 7)), 1)
        );
    }
    assert_eq!(w.string_raw(5, 1, &ink, "abc".to_string()).unwrap(), 3);
    assert_eq!(w.get_ommacell(4, 1).unwrap(), OmmaCell::transparent());
    assert_eq!(w.get_ommacell(5, 1).unwrap().ch, 'a');
    assert_eq!(w.get_ommacell(7, 1).unwrap().ch, 'c');
    assert_eq!(w.string_raw(8, 1, &ink, String::new()).unwrap(), 0);
}

#[test]
fn window_string_raw_that_does_not_fit_fails() {
    let mut ids = IdCounters::new();
    let mut s = session(&mut ids);
    let id = s.new_window(8, 2).submit(&mut ids, &mut s).unwrap();
    let w = s.window(id).unwrap();
    assert_eq!(w.string_raw(0, 0, &blank_cell(), "1234567".to_string()).unwrap(), 7);
    let e = w.string_raw(0, 0, &blank_cell(), "123456789".to_string()).err().unwrap();
    assert_eq!(e.body(), "window_id 1 invalid write_window_string 0:0 (max 7:1) = 123456789");
    let e = w.string_raw(5, 1, &blank_cell(), "abcd".to_string()).err().unwrap();
    assert_eq!(e.body(), "window_id 1 invalid write_window_string 5:1 (max 7:1) = abcd");
    let e = w.string_raw(9, 1, &blank_cell(), String::new()).err().unwrap();
    assert_eq!(e.body(), "window_id 1 invalid write_window_string 9:1 (max 7:1) = ");
    let e = w.string_raw(0, 2, &blank_cell(), "a".to_string()).err().unwrap();
    assert_eq!(e.body(), "window_id 1 invalid write_window_string 0:2 (max 7:1) = a");
    assert!(w.string_raw(usize::MAX, 0, &blank_cell(), "a".to_string()).is_err());
    assert_eq!(w.get_ommacell(6, 0).unwrap().ch, '7');
    assert_eq!(w.get_ommacell(7, 0).unwrap(), OmmaCell::transparent());
    assert_eq!(w.get_ommacell(5, 1).unwrap(), OmmaCell::transparent());
}

#[test]
fn window_string_raw_measures_the_fit_in_characters() {
    let mut ids = IdCounters::new();
    let mut s = session(&mut ids);
    let id = s.new_window(5, 1).submit(&mut ids, &mut s).unwrap();
    let w = s.window(id).unwrap();
    assert_eq!(w.string_raw(2, 0, &blank_cell(), "\u{e9}\u{e8}\u{ea}".to_string()).unwrap(), 6);
    assert_eq!(w.get_ommacell(1, 0).unwrap(), OmmaCell::transparent());
    assert_eq!(w.get_ommacell(2, 0).unwrap().ch, '\u{e9}');
    assert_eq!(w.get_ommacell(3, 0).unwrap().ch, '\u{e8}');
    assert_eq!(w.get_ommacell(4, 0).unwrap().ch, '\u{ea}');
    let e = w.string_raw(3, 0, &blank_cell(), "\u{e9}\u{e8}\u{ea}".to_string()).err().unwrap();
    assert_eq!(
        e.body(),
        "window_id 1 invalid write_window_string 3:0 (max 4:0) = \u{e9}\u{e8}\u{ea}"
    );
}

#[test]
fn window_string_raw_of_nothing_into_a_window_without_columns() {
    let mut ids = IdCounters::new();
    let mut s = session(&mut ids);
    let id = s.new_window(0, 1).submit(&mut ids, &mut s).unwrap();
    let w = s.window(id).unwrap();
    assert_eq!(w.string_raw(0, 0, &blank_cell(), String::new()).unwrap(), 0);
    assert!(w.string_raw(0, 0, &blank_cell(), "a".to_string()).is_err());
}

#[test]
fn window_string_raw_into_an_empty_window_fails() {
    let mut ids = IdCounters::new();
    let mut s = session(&mut ids);
    let id = s.new_window(0, 0).submit(&mut ids, &mut s).unwrap();
    let e = s.window(id).unwrap().string_raw(0, 0, &blank_cell(), String::new()).err().unwrap();
    assert_eq!(e.body(), "window_id 1 invalid write_window_string 0:0 (max 0:0) = ");
}

#[test]
fn blit_draws_the_content_at_the_offset() {
    let mut ids = IdCounters::new();
    let mut s = session(&mut ids);
    let id = s.new_window(3, 2).offset(4, 5).fill(&wall_cell()).submit(&mut ids, &mut s).unwrap();
    s.window(id).unwrap().set_ommacell(2, 1, &glyph('z')).unwrap();
    s.render().unwrap();
    assert_eq!(back(&s, 4, 5), wall_cell());
    assert_eq!(back(&s, 6, 5), wall_cell());
    assert_eq!(back(&s, 6, 6), glyph('z'));
    assert_eq!(back(&s, 3, 5), blank_cell());
    assert_eq!(back(&s, 7, 5), blank_cell());
    assert_eq!(back(&s, 4, 4), blank_cell());
    assert_eq!(back(&s, 4, 7), blank_cell());
}

#[test]
fn blit_corners_take_precedence_over_edges() {
    let mut ids = IdCounters::new();
    let mut s = session(&mut ids);
    let tl = glyph('1');
    let tr = glyph('2');
    let bl = glyph('3');
    let br = glyph('4');
    let mut border = OmmaBorder::new(&horiz_cell(), &vert_cell(), &corner_cell());
    border.border_top = glyph('t');
    border.border_bottom = glyph('b');
    border.border_left = glyph('l');
    border.border_right = glyph('r');
    border.border_corner_tl = tl;
    border.border_corner_tr = tr;
    border.border_corner_bl = bl;
    border.border_corner_br = br;
    s.new_window(4, 3).offset(1, 1).fill(&wall_cell()).border(&border).submit(&mut ids, &mut s).unwrap();
    s.render().unwrap();
    assert_eq!(back(&s, 1, 1), tl);
    assert_eq!(back(&s, 4, 1), tr);
    assert_eq!(back(&s, 1, 3), bl);
    assert_eq!(back(&s, 4, 3), br);
    assert_eq!(back(&s, 2, 1), glyph('t'));
    assert_eq!(back(&s, 3, 1), glyph('t'));
    assert_eq!(back(&s, 2, 3), glyph('b'));
    assert_eq!(back(&s, 1, 2), glyph('l'));
    assert_eq!(back(&s, 4, 2), glyph('r'));
    assert_eq!(back(&s, 2, 2), wall_cell());
    assert_eq!(back(&s, 3, 2), wall_cell());
}

#[test]
fn blit_content_sits_inside_border_and_pad() {
    let mut ids = IdCounters::new();
    let mut s = session(&mut ids);
    let id = s
        .new_window(7, 7)
        .offset(10, 10)
        .border_mono(&glyph('B'))
        .pad_mono(1)
        .submit(&mut ids, &mut s)
        .unwrap();
    s.window(id).unwrap().set_ommacell(0, 0, &glyph('a')).unwrap();
    s.window(id).unwrap().set_ommacell(2, 2, &glyph('c')).unwrap();
    s.window(id).unwrap().set_ommacell(3, 3, &glyph('d')).unwrap();
    s.render().unwrap();
    assert_eq!(back(&s, 10, 10), glyph('B'));
    assert_eq!(back(&s, 16, 16), glyph('B'));
    assert_eq!(back(&s, 11, 11), blank_cell());
    assert_eq!(back(&s, 15, 15), blank_cell());
    assert_eq!(back(&s, 12, 12), glyph('a'));
    assert_eq!(back(&s, 14, 14), glyph('c'));
    assert_eq!(back(&s, 15, 14), blank_cell());
}

#[test]
fn blit_unbordered_pad_leaves_its_outer_ring_to_the_parent() {
    let mut ids = IdCounters::new();
    let mut s = session(&mut ids);
    s.new_window(10, 10).fill(&glyph('X')).submit(&mut ids, &mut s).unwrap();
    s.new_window(6, 6).offset(1, 1).pad_mono(2).fill(&wall_cell()).submit(&mut ids, &mut s).unwrap();
    s.render().unwrap();
    assert_eq!(back(&s, 0, 0), glyph('X'));
    assert_eq!(back(&s, 1, 1), glyph('X'));
    assert_eq!(back(&s, 6, 6), glyph('X'));
    assert_eq!(back(&s, 1, 4), glyph('X'));
    assert_eq!(back(&s, 2, 2), blank_cell());
    assert_eq!(back(&s, 5, 5), blank_cell());
    assert_eq!(back(&s, 3, 3), wall_cell());
    assert_eq!(back(&s, 4, 4), wall_cell());
    assert_eq!(back(&s, 7, 7), glyph('X'));
}

#[test]
fn blit_hidden_border_leaves_a_blank_ring() {
    let mut ids = IdCounters::new();
    let mut s = session(&mut ids);
    s.new_window(10, 10).fill(&glyph('X')).submit(&mut ids, &mut s).unwrap();
    s.new_window(4, 4)
        .offset(1, 1)
        .border_mono(&glyph('B'))
        .border_hidden()
        .fill(&wall_cell())
        .submit(&mut ids, &mut s)
        .unwrap();
    s.render().unwrap();
    assert_eq!(back(&s, 1, 1), blank_cell());
    assert_eq!(back(&s, 4, 4), blank_cell());
    assert_eq!(back(&s, 2, 1), blank_cell());
    assert_eq!(back(&s, 2, 2), wall_cell());
    assert_eq!(back(&s, 3, 3), wall_cell());
    assert_eq!(back(&s, 5, 5), glyph('X'));
}

#[test]
fn blit_pad_wider_than_the_view_draws_no_content() {
    let mut ids = IdCounters::new();
    let mut s = session(&mut ids);
    s.new_window(3, 3).pad_mono(2).border_mono(&glyph('B')).fill(&wall_cell()).submit(&mut ids, &mut s).unwrap();
    s.render().unwrap();
    assert_eq!(back(&s, 0, 0), glyph('B'));
    assert_eq!(back(&s, 1, 1), blank_cell());
    assert_eq!(back(&s, 2, 2), glyph('B'));
    assert_eq!(back(&s, 3, 3), blank_cell());
}

fn arena(builders: Vec<WindowBuilder>) -> Vec<Window> {
    let mut windows = vec![WindowBuilder::new(1, 1).virt().build(0)];
    let mut id = 1;
    for builder in builders {
        windows.push(builder.build(id));
        windows[0].add_child(id);
        id += 1;
    }
    windows
}

#[test]
fn blit_counts_content_and_padding_but_no_border() {
    let cases = vec![
        (WindowBuilder::new(3, 3).fill(&wall_cell()), 9u32),
        (WindowBuilder::new(3, 3).fill(&wall_cell()).border_mono(&glyph('B')), 9),
        (WindowBuilder::new(3, 3), 0),
        (WindowBuilder::new(4, 4).pad_mono(1).fill(&wall_cell()), 4),
        (WindowBuilder::new(4, 4).pad_mono(1).border_mono(&glyph('B')), 16),
        (WindowBuilder::new(4, 4).pad_mono(2), 4),
        (WindowBuilder::new(3, 3).fill(&wall_cell()).virt(), 0),
        (WindowBuilder::new(3, 3).fill(&wall_cell()).hidden(), 0),
    ];
    for (builder, expected) in cases {
        let windows = arena(vec![builder]);
        let objects: Vec<Object> = Vec::new();
        let mut term = OmmaTerm::new_mock(50, 50).unwrap();
        assert_eq!(windows[1].blit(&windows, &objects, &mut term, 0, 0).unwrap(), expected);
        let mut term = OmmaTerm::new_mock(50, 50).unwrap();
        assert_eq!(windows[0].blit(&windows, &objects, &mut term, 0, 0).unwrap(), expected);
    }
}

#[test]
fn blit_adds_the_parent_offset() {
    let windows = arena(vec![WindowBuilder::new(2, 2).offset(1, 2).fill(&wall_cell())]);
    let objects: Vec<Object> = Vec::new();
    let mut term = OmmaTerm::new_mock(50, 50).unwrap();
    assert_eq!(windows[1].blit(&windows, &objects, &mut term, 10, 20).unwrap(), 4);
    assert_eq!(term.cell_at(11, 22), Some(wall_cell()));
    assert_eq!(term.cell_at(12, 23), Some(wall_cell()));
    assert_eq!(term.cell_at(10, 22), Some(blank_cell()));
    assert_eq!(term.cell_at(13, 23), Some(blank_cell()));
    assert_eq!(term.cell_at(1, 2), Some(blank_cell()));
}

#[test]
fn blit_outside_the_terminal_fails_at_the_first_cell_outside() {
    let windows = arena(vec![WindowBuilder::new(2, 2).offset(49, 49).fill(&wall_cell())]);
    let objects: Vec<Object> = Vec::new();
    let mut term = OmmaTerm::new_mock(50, 50).unwrap();
    let e = windows[0].blit(&windows, &objects, &mut term, 0, 0).err().unwrap();
    assert_eq!(e.body(), "invalid put cell at 49:50 (max 50:50)");
    assert_eq!(term.cell_at(49, 49), Some(wall_cell()));
}

#[test]
fn blit_of_a_transparent_cell_outside_the_terminal_fails_too() {
    let windows = arena(vec![WindowBuilder::new(1, 1).offset(50, 0)]);
    let objects: Vec<Object> = Vec::new();
    let mut term = OmmaTerm::new_mock(50, 50).unwrap();
    let e = windows[0].blit(&windows, &objects, &mut term, 0, 0).err().unwrap();
    assert_eq!(e.body(), "invalid put cell at 50:0 (max 50:50)");
}

#[test]
fn blit_far_outside_the_terminal_fails_without_overflow() {
    let windows = arena(vec![WindowBuilder::new(2, 1).offset(usize::MAX, usize::MAX).fill(&wall_cell())]);
    let objects: Vec<Object> = Vec::new();
    let mut term = OmmaTerm::new_mock(50, 50).unwrap();
    let e = windows[1].blit(&windows, &objects, &mut term, 7, 7).err().unwrap();
    assert_eq!(
        e.body(),
        format!("invalid put cell at {}:{} (max 50:50)", usize::MAX, usize::MAX)
    );
}

#[test]
fn blit_border_outside_the_terminal_fails() {
    let windows = arena(vec![WindowBuilder::new(3, 3).offset(47, 48).border_mono(&glyph('B'))]);
    let objects: Vec<Object> = Vec::new();
    let mut term = OmmaTerm::new_mock(50, 50).unwrap();
    let e = windows[0].blit(&windows, &objects, &mut term, 0, 0).err().unwrap();
    assert_eq!(e.body(), "invalid put cell at 47:50 (max 50:50)");
}

#[test]
fn blit_of_an_empty_view_draws_no_border() {
    let windows = arena(vec![
        WindowBuilder::new(0, 3).offset(2, 2).border_mono(&glyph('B')),
        WindowBuilder::new(3, 0).offset(2, 2).border_mono(&glyph('B')),
    ]);
    let objects: Vec<Object> = Vec::new();
    let mut term = OmmaTerm::new_mock(10, 10).unwrap();
    assert_eq!(windows[0].blit(&windows, &objects, &mut term, 0, 0).unwrap(), 0);
    for x in 0..10 {
        for y in 0..10 {
            assert_eq!(term.cell_at(x, y), Some(blank_cell()));
        }
    }
}

#[test]
fn blit_hidden_window_draws_nothing_of_its_subtree() {
    let mut windows = arena(vec![
        WindowBuilder::new(3, 3).fill(&wall_cell()).hidden(),
        WindowBuilder::new(2, 2).parent(1).fill(&glyph('c')),
    ]);
    windows[0].remove_child(2).unwrap();
    windows[1].add_child(2);
    let objects = vec![ObjectBuilder::new().parent(1).cell(&glyph('o')).build(0)];
    windows[1].add_object(0);
    let mut term = OmmaTerm::new_mock(10, 10).unwrap();
    assert_eq!(windows[1].blit(&windows, &objects, &mut term, 0, 0).unwrap(), 0);
    assert_eq!(windows[0].blit(&windows, &objects, &mut term, 0, 0).unwrap(), 0);
    for x in 0..10 {
        for y in 0..10 {
            assert_eq!(term.cell_at(x, y), Some(blank_cell()));
        }
    }
    windows[1].clear_hidden();
    assert_eq!(windows[0].blit(&windows, &objects, &mut term, 0, 0).unwrap(), 14);
    assert_eq!(term.cell_at(0, 0), Some(glyph('o')));
    assert_eq!(term.cell_at(1, 1), Some(glyph('c')));
    assert_eq!(term.cell_at(2, 2), Some(wall_cell()));
}

#[test]
fn blit_virtual_window_draws_only_what_is_below_it() {
    let mut windows = arena(vec![
        WindowBuilder::new(4, 4).offset(1, 1).fill(&wall_cell()).border_mono(&glyph('B')).virt(),
        WindowBuilder::new(1, 1).parent(1).fill(&glyph('c')),
    ]);
    windows[0].remove_child(2).unwrap();
    windows[1].add_child(2);
    let objects = vec![ObjectBuilder::new().parent(1).offset(1, 0).cell(&glyph('o')).build(0)];
    windows[1].add_object(0);
    let mut term = OmmaTerm::new_mock(10, 10).unwrap();
    assert_eq!(windows[0].blit(&windows, &objects, &mut term, 0, 0).unwrap(), 2);
    assert_eq!(term.cell_at(1, 1), Some(blank_cell()));
    assert_eq!(term.cell_at(2, 2), Some(glyph('c')));
    assert_eq!(term.cell_at(3, 2), Some(glyph('o')));
    assert_eq!(term.cell_at(3, 3), Some(blank_cell()));
    assert_eq!(term.cell_at(4, 4), Some(blank_cell()));
}

#[test]
fn blit_later_children_cover_earlier_ones_and_objects_cover_children() {
    let windows = {
        let mut windows = arena(vec![
            WindowBuilder::new(3, 1).fill(&glyph('a')),
            WindowBuilder::new(2, 1).fill(&glyph('b')),
        ]);
        windows[0].add_object(0);
        windows
    };
    let objects = vec![ObjectBuilder::new().cell(&glyph('o')).build(0)];
    let mut term = OmmaTerm::new_mock(10, 10).unwrap();
    assert_eq!(windows[0].blit(&windows, &objects, &mut term, 0, 0).unwrap(), 6);
    assert_eq!(term.cell_at(0, 0), Some(glyph('o')));
    assert_eq!(term.cell_at(1, 0), Some(glyph('b')));
    assert_eq!(term.cell_at(2, 0), Some(glyph('a')));
}

#[test]
fn blit_children_stand_in_the_content_of_their_parent() {
    let mut windows = arena(vec![
        WindowBuilder::new(6, 6).offset(2, 3).border_mono(&glyph('B')).pad_raw(1, 0, 2, 0),
        WindowBuilder::new(1, 1).parent(1).offset(1, 1).fill(&glyph('c')),
    ]);
    windows[0].remove_child(2).unwrap();
    windows[1].add_child(2);
    let objects: Vec<Object> = Vec::new();
    let mut term = OmmaTerm::new_mock(20, 20).unwrap();
    windows[0].blit(&windows, &objects, &mut term, 0, 0).unwrap();
    assert_eq!(term.cell_at(2 + 3 + 1, 3 + 2 + 1), Some(glyph('c')));
}

#[test]
fn blit_self_owned_window_fails() {
    let mut windows = arena(vec![WindowBuilder::new(2, 2).fill(&wall_cell())]);
    windows[1].add_child(1);
    let objects: Vec<Object> = Vec::new();
    let mut term = OmmaTerm::new_mock(10, 10).unwrap();
    let e = windows[0].blit(&windows, &objects, &mut term, 0, 0).err().unwrap();
    assert_eq!(e.body(), "failed to blit window 1 due to self own");
    assert_eq!(term.cell_at(0, 0), Some(wall_cell()));
}

#[test]
fn blit_passes_over_the_root_listing_itself() {
    let mut windows = arena(vec![WindowBuilder::new(2, 2).fill(&wall_cell())]);
    windows[0].remove_child(1).unwrap();
    windows[0].add_child(0);
    windows[0].add_child(1);
    let objects: Vec<Object> = Vec::new();
    let mut term = OmmaTerm::new_mock(10, 10).unwrap();
    assert_eq!(windows[0].blit(&windows, &objects, &mut term, 0, 0).unwrap(), 4);
    assert_eq!(term.cell_at(1, 1), Some(wall_cell()));
}

#[test]
fn blit_transparent_cell_leaves_the_parent_showing() {
    let mut ids = IdCounters::new();
    let mut s = session(&mut ids);
    let parent = s.new_window(5, 5).fill(&glyph('X')).submit(&mut ids, &mut s).unwrap();
    let child = s.new_window(3, 3).parent(parent).fill(&wall_cell()).submit(&mut ids, &mut s).unwrap();
    s.window(child).unwrap().set_ommacell(1, 1, &OmmaCell::transparent()).unwrap();
    s.render().unwrap();
    assert_eq!(back(&s, 0, 0), wall_cell());
    assert_eq!(back(&s, 1, 1), glyph('X'));
    assert_eq!(back(&s, 2, 2), wall_cell());
    assert_eq!(back(&s, 3, 3), glyph('X'));
}

#[test]
fn blit_transparent_cell_with_colours_is_transparent_too() {
    let mut ids = IdCounters::new();
    let mut s = session(&mut ids);
    s.new_window(2, 2).fill(&glyph('X')).submit(&mut ids, &mut s).unwrap();
    let ghost = OmmaCell::new('\0', Some(OmmaColor::new(1, 2, 3)), None, 5);
    s.new_window(2, 2).fill(&ghost).submit(&mut ids, &mut s).unwrap();
    s.render().unwrap();
    assert_eq!(back(&s, 0, 0), glyph('X'));
    assert_eq!(back(&s, 1, 1), glyph('X'));
}
