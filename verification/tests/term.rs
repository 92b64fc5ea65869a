use ommatidium::cell::{blank_cell, wall_cell, OmmaCell};
use ommatidium::color::OmmaColor;
use ommatidium::term::{terminfo, OmmaTerm, Probe};

#[test]
fn terminfo_gives_the_size() {
    assert_eq!(terminfo(Probe::Size { rows: 24, cols: 80 }).unwrap(), (24, 80));
}

#[test]
fn terminfo_refuses_a_zero_dimension() {
    let e = terminfo(Probe::Size { rows: 0, cols: 80 }).err().unwrap();
    assert_eq!(e.body(), "zero dimension in terminal 0 by 80");
    let e = terminfo(Probe::Size { rows: 24, cols: 0 }).err().unwrap();
    assert_eq!(e.body(), "zero dimension in terminal 24 by 0");
}

#[test]
fn terminfo_reports_a_failed_probe() {
    let e = terminfo(Probe::Failed { ret: -1 }).err().unwrap();
    assert_eq!(e.body(), "ioctl(TIOCGWINSZ) failed with -1");
    let e = terminfo(Probe::NotATerminal).err().unwrap();
    assert_eq!(e.body(), "failed to open stdio, invalid terminal");
    let e = terminfo(Probe::Unsupported).err().unwrap();
    assert_eq!(e.body(), "terminfo is only compatible with *nix currently");
}

#[test]
fn term_new_enters_the_alternate_screen_and_hides_the_cursor() {
    let mut term = OmmaTerm::new(Probe::Size { rows: 3, cols: 4 }).unwrap();
    assert_eq!(term.max_row(), 3);
    assert_eq!(term.max_col(), 4);
    assert_eq!(term.to_string(), "3 by 4");
    assert_eq!(term.take_output(), "\x1b[?1049h\x1b[?25l");
    assert_eq!(term.take_output(), "");
    assert_eq!(term.cell_at(3, 2), Some(blank_cell()));
    assert_eq!(term.cell_at(4, 0), None);
    assert_eq!(term.cell_at(0, 3), None);
}

#[test]
fn term_new_fails_on_a_bad_probe() {
    let e = OmmaTerm::new(Probe::Size { rows: 0, cols: 0 }).err().unwrap();
    assert_eq!(e.body(), "zero dimension in terminal 0 by 0");
    let e = OmmaTerm::new(Probe::NotATerminal).err().unwrap();
    assert_eq!(e.body(), "failed to open stdio, invalid terminal");
}

#[test]
fn term_close_restores_a_real_screen() {
    let mut term = OmmaTerm::new(Probe::Size { rows: 1, cols: 1 }).unwrap();
    let _ = term.take_output();
    term.move_cursor(0, 0).unwrap();
    assert_eq!(term.close(), "\x1b[1;1H\x1b[?25h\x1b[?1049l");
}

#[test]
fn term_close_of_a_mock_only_shows_the_cursor() {
    let term = OmmaTerm::new_mock(2, 2).unwrap();
    assert_eq!(term.close(), "\x1b[?25h");
}

#[test]
fn term_mock_queues_nothing() {
    let mut term = OmmaTerm::new_mock(50, 50).unwrap();
    assert_eq!(term.take_output(), "");
    assert_eq!(term.max_row(), 50);
    assert_eq!(term.max_col(), 50);
}

#[test]
fn term_move_cursor_counts_from_one() {
    let mut term = OmmaTerm::new_mock(10, 20).unwrap();
    term.move_cursor(19, 9).unwrap();
    term.move_cursor(0, 0).unwrap();
    assert_eq!(term.take_output(), "\x1b[10;20H\x1b[1;1H");
}

#[test]
fn term_move_cursor_outside_fails() {
    let mut term = OmmaTerm::new_mock(10, 20).unwrap();
    let e = term.move_cursor(20, 3).err().unwrap();
    assert_eq!(e.body(), "invalid cursor move 3:20 (max 9:19)");
    let e = term.move_cursor(3, 10).err().unwrap();
    assert_eq!(e.body(), "invalid cursor move 10:3 (max 9:19)");
    assert_eq!(term.take_output(), "");
}

#[test]
fn term_move_cursor_on_an_empty_terminal_fails() {
    let mut term = OmmaTerm::new_mock(0, 0).unwrap();
    let e = term.move_cursor(0, 0).err().unwrap();
    assert_eq!(e.body(), "invalid cursor move 0:0 (max 0:0)");
}

#[test]
fn term_put_cell_at_writes_and_counts() {
    let mut term = OmmaTerm::new_mock(5, 7).unwrap();
    assert_eq!(term.put_cell_at(6, 4, &wall_cell()).unwrap(), 1);
    assert_eq!(term.cell_at(6, 4), Some(wall_cell()));
    assert_eq!(term.cell_at(4, 6), None);
    assert_eq!(term.cell_at(5, 4), Some(blank_cell()));
}

#[test]
fn term_put_cell_at_passes_over_a_transparent_cell() {
    let mut term = OmmaTerm::new_mock(5, 7).unwrap();
    term.put_cell_at(1, 1, &wall_cell()).unwrap();
    assert_eq!(term.put_cell_at(1, 1, &OmmaCell::transparent()).unwrap(), 0);
    assert_eq!(term.cell_at(1, 1), Some(wall_cell()));
}

#[test]
fn term_put_cell_at_outside_fails() {
    let mut term = OmmaTerm::new_mock(5, 7).unwrap();
    let e = term.put_cell_at(7, 0, &wall_cell()).err().unwrap();
    assert_eq!(e.body(), "invalid put cell at 7:0 (max 7:5)");
    let e = term.put_cell_at(0, 5, &OmmaCell::transparent()).err().unwrap();
    assert_eq!(e.body(), "invalid put cell at 0:5 (max 7:5)");
}

#[test]
fn term_put_cell_at_on_an_empty_terminal_fails() {
    let mut term = OmmaTerm::new_mock(0, 0).unwrap();
    let e = term.put_cell_at(0, 0, &wall_cell()).err().unwrap();
    assert_eq!(e.body(), "invalid put cell at 0:0 (max 0:0)");
}

#[test]
fn term_render_cell_at_emits_move_colours_and_character() {
    let mut term = OmmaTerm::new_mock(5, 7).unwrap();
    let cell = OmmaCell::new('q', Some(OmmaColor::new(1, 2, 3)), None, 0);
    term.render_cell_at(2, 4, &cell).unwrap();
    assert_eq!(term.take_output(), "\x1b[5;3H\x1b[38;2;1;2;3m\x1b[49mq");
    assert_eq!(term.cell_at(2, 4), Some(blank_cell()));
}

#[test]
fn term_render_cell_at_outside_fails() {
    let mut term = OmmaTerm::new_mock(5, 7).unwrap();
    let e = term.render_cell_at(7, 4, &wall_cell()).err().unwrap();
    assert_eq!(e.body(), "invalid cursor move 4:7 (max 4:6)");
    assert_eq!(term.take_output(), "");
}

#[test]
fn term_render_redraws_every_cell_column_by_column() {
    let mut term = OmmaTerm::new_mock(2, 2).unwrap();
    term.put_cell_at(1, 0, &wall_cell()).unwrap();
    assert_eq!(term.render().unwrap(), 4);
    let frame = "\x1b[1;1H\x1b[39m\x1b[49m \x1b[2;1H\x1b[39m\x1b[49m \x1b[1;2H\x1b[39m\x1b[49m#\x1b[2;2H\x1b[39m\x1b[49m ";
    assert_eq!(term.take_output(), frame);
    assert_eq!(term.render().unwrap(), 4);
    assert_eq!(term.take_output(), frame);
}

#[test]
fn term_render_of_an_empty_terminal_is_empty() {
    let mut term = OmmaTerm::new_mock(0, 3).unwrap();
    assert_eq!(term.render().unwrap(), 0);
    assert_eq!(term.take_output(), "");
}

#[test]
fn term_read_key_gives_the_keys_in_order() {
    let mut term = OmmaTerm::new_mock(2, 2).unwrap();
    assert_eq!(term.read_key().unwrap(), None);
    term.push_key(b'a');
    term.push_key(0x03);
    term.push_key(0xe9);
    assert_eq!(term.read_key().unwrap(), Some('a'));
    assert_eq!(term.read_key().unwrap(), Some('\x03'));
    assert_eq!(term.read_key().unwrap(), Some('\u{e9}'));
    assert_eq!(term.read_key().unwrap(), None);
}

#[test]
fn grid_of_one_cell_everywhere() {
    let grid = ommatidium::draw::new_grid(3, 2, wall_cell());
    assert_eq!(grid.len(), 3);
    for column in &grid {
        assert_eq!(column.len(), 2);
        for cell in column {
            assert_eq!(*cell, wall_cell());
        }
    }
    assert!(ommatidium::draw::grid_has_size(&grid, 3, 2));
    assert!(!ommatidium::draw::grid_has_size(&grid, 2, 3));
    assert!(!ommatidium::draw::grid_has_size(&grid, 3, 3));
    assert!(ommatidium::draw::grid_is_opaque(&grid));
    let mut grid = grid;
    grid[2][1] = OmmaCell::transparent();
    assert!(!ommatidium::draw::grid_is_opaque(&grid));
    grid[1].pop();
    assert!(!ommatidium::draw::grid_has_size(&grid, 3, 2));
    assert!(ommatidium::draw::new_grid(0, 5, wall_cell()).is_empty());
}

#[test]
fn term_is_well_formed_after_drawing() {
    let mut term = OmmaTerm::new_mock(3, 3).unwrap();
    assert!(term.is_wf());
    term.put_cell_at(1, 1, &wall_cell()).unwrap();
    term.put_cell_at(1, 2, &OmmaCell::transparent()).unwrap();
    assert!(term.put_cell_at(3, 3, &wall_cell()).is_err());
    term.render().unwrap();
    assert!(term.is_wf());
}
