use matrix_logs::color::Color;
use matrix_logs::column::ColumnMat;
use matrix_logs::matrix::{frame_pause, Args, Matrix};
use matrix_logs::ring::{CircularCharQueue, Direction};

const BLANK: (char, Color) = (' ', Color::Default);

fn args(direction: Direction) -> Args {
    Args {
        color: Color::Red,
        highlight_color: Color::Green,
        highlight_threshold: 1,
        frequency: 100,
        direction,
        spaces: 1,
    }
}

fn read_all(q: &mut CircularCharQueue, dir: Direction, n: usize) -> Vec<(char, Color)> {
    let mut out = Vec::new();
    for _ in 0..n {
        out.push(q.get_next(&dir));
    }
    out
}

fn drain_column(col: &mut ColumnMat, ticks: usize, spaces: u16) -> Vec<(char, Color)> {
    for _ in 0..ticks {
        col.tick(spaces);
    }
    let mut out = Vec::new();
    for _ in 0..col.height() {
        out.push(col.get_next(&Direction::Top));
    }
    out
}

#[test]
fn ansi_codes() {
    assert_eq!(Color::Default.to_ansi(), "\u{1b}[0;0m");
    assert_eq!(Color::Black.to_ansi(), "\u{1b}[0;30m");
    assert_eq!(Color::Red.to_ansi(), "\u{1b}[0;31m");
    assert_eq!(Color::Green.to_ansi(), "\u{1b}[0;32m");
    assert_eq!(Color::Yellow.to_ansi(), "\u{1b}[0;33m");
    assert_eq!(Color::Blue.to_ansi(), "\u{1b}[0;34m");
    assert_eq!(Color::Magenta.to_ansi(), "\u{1b}[0;35m");
    assert_eq!(Color::Cyan.to_ansi(), "\u{1b}[0;36m");
    assert_eq!(Color::White.to_ansi(), "\u{1b}[0;37m");
}

#[test]
fn new_buffer_is_blank() {
    let mut q = CircularCharQueue::new(4);
    assert_eq!(q.capacity(), 4);
    assert_eq!(read_all(&mut q, Direction::Bottom, 6), vec![BLANK; 6]);
}

#[test]
fn empty_buffer_reads_blank() {
    let mut q = CircularCharQueue::new(0);
    q.push_back('x', Color::Red);
    assert_eq!(q.get_next(&Direction::Top), BLANK);
}

#[test]
fn wraparound_toward_top_in_push_order() {
    let mut q = CircularCharQueue::new(3);
    for c in ['a', 'b', 'c', 'd', 'e'] {
        q.push_back(c, Color::Blue);
    }
    let got: Vec<char> = read_all(&mut q, Direction::Top, 3).iter().map(|c| c.0).collect();
    assert_eq!(got, vec!['c', 'd', 'e']);
}

#[test]
fn wraparound_spiral_in_push_order() {
    let mut q = CircularCharQueue::new(4);
    for c in ['a', 'b', 'c', 'd', 'e', 'f'] {
        q.push_back(c, Color::Cyan);
    }
    let got: Vec<char> = read_all(&mut q, Direction::SpiralRight, 4).iter().map(|c| c.0).collect();
    assert_eq!(got, vec!['c', 'd', 'e', 'f']);
}

#[test]
fn wraparound_toward_bottom() {
    let mut q = CircularCharQueue::new(3);
    for c in ['a', 'b', 'c', 'd', 'e'] {
        q.push_back(c, Color::Blue);
    }
    let got: Vec<char> = read_all(&mut q, Direction::Bottom, 3).iter().map(|c| c.0).collect();
    assert_eq!(got, vec!['c', 'e', 'd']);

    let mut q2 = CircularCharQueue::new(2);
    for c in ['a', 'b', 'c'] {
        q2.push_back(c, Color::Blue);
    }
    let got2: Vec<char> = read_all(&mut q2, Direction::Bottom, 2).iter().map(|c| c.0).collect();
    assert_eq!(got2, vec!['b', 'c']);
}

#[test]
fn push_sets_read_cursor_on_write_cursor() {
    let mut q = CircularCharQueue::new(3);
    q.push_back('a', Color::Red);
    // the write cursor moved from slot 0 to slot 2, which still holds a blank
    assert_eq!(q.get_next(&Direction::Bottom), BLANK);
    assert_eq!(q.get_next(&Direction::Bottom), ('a', Color::Red));
}

#[test]
fn push_blanks_pushes_n_blanks() {
    let mut q = CircularCharQueue::new(3);
    q.push_back('a', Color::Red);
    q.push_back('b', Color::Red);
    q.push_back('c', Color::Red);
    q.push_blanks(2);
    let got = read_all(&mut q, Direction::Top, 3);
    assert_eq!(got, vec![('c', Color::Red), BLANK, BLANK]);
}

#[test]
fn idle_column_emits_blanks() {
    let mut col = ColumnMat::new(5, Color::Red, Color::Green, 2);
    col.tick(1);
    col.tick(1);
    col.tick(1);
    assert_eq!(col.pending(), 0);
    let got = drain_column(&mut col, 2, 1);
    assert_eq!(got, vec![BLANK; 5]);
    assert_eq!(col.pending(), 0);
}

#[test]
fn line_drain_highlights_prefix() {
    let mut col = ColumnMat::new(6, Color::Red, Color::Green, 2);
    col.add_line(String::from("hello"));
    assert_eq!(col.pending(), 1);
    let got = drain_column(&mut col, 6, 1);
    assert_eq!(
        got,
        vec![
            ('h', Color::Green),
            ('e', Color::Green),
            ('l', Color::Red),
            ('l', Color::Red),
            ('o', Color::Red),
            BLANK,
        ]
    );
    assert_eq!(col.pending(), 0);
}

#[test]
fn line_leaves_with_last_char() {
    let mut col = ColumnMat::new(4, Color::Red, Color::Green, 1);
    col.add_line(String::from("ab"));
    col.tick(1);
    assert_eq!(col.pending(), 1);
    col.tick(1);
    assert_eq!(col.pending(), 0);
}

#[test]
fn every_tick_pushes_one_cell() {
    // a column of height 1 shows the last pushed cell after every tick
    let mut col = ColumnMat::new(1, Color::Red, Color::Green, 1);
    col.add_line(String::from("ab"));
    col.add_line(String::from("c"));
    let mut seen = Vec::new();
    for _ in 0..7 {
        col.tick(2);
        seen.push(col.get_next(&Direction::Top));
    }
    assert_eq!(
        seen,
        vec![
            ('a', Color::Green),
            ('b', Color::Red),
            BLANK,
            BLANK,
            ('c', Color::Green),
            BLANK,
            BLANK,
        ]
    );
}

#[test]
fn empty_lines_skipped_without_spacer() {
    let mut col = ColumnMat::new(2, Color::Red, Color::Green, 1);
    col.add_line(String::new());
    col.add_line(String::new());
    col.add_line(String::from("z"));
    let got = drain_column(&mut col, 1, 0);
    assert_eq!(got, vec![BLANK, ('z', Color::Green)]);
    assert_eq!(col.pending(), 0);
}

#[test]
fn empty_line_with_spacers_is_a_gap() {
    let mut col = ColumnMat::new(4, Color::Red, Color::Green, 1);
    col.add_line(String::new());
    col.add_line(String::from("z"));
    let got = drain_column(&mut col, 4, 2);
    assert_eq!(got, vec![BLANK, BLANK, ('z', Color::Green), BLANK]);
}

#[test]
fn threshold_longer_than_line() {
    let mut col = ColumnMat::new(3, Color::Red, Color::Yellow, 10);
    col.add_line(String::from("xyz"));
    let got = drain_column(&mut col, 3, 1);
    assert_eq!(got, vec![('x', Color::Yellow), ('y', Color::Yellow), ('z', Color::Yellow)]);
}

#[test]
fn spacer_count_blanks_between_lines() {
    let mut col = ColumnMat::new(5, Color::Red, Color::Green, 0);
    col.add_line(String::from("a"));
    col.add_line(String::from("b"));
    // a, then one blank on each of the next 3 ticks, then b
    let got = drain_column(&mut col, 5, 3);
    assert_eq!(got, vec![('a', Color::Red), BLANK, BLANK, BLANK, ('b', Color::Red)]);
}

#[test]
fn no_spacer_between_lines() {
    let mut col = ColumnMat::new(3, Color::Red, Color::Green, 0);
    col.add_line(String::from("a"));
    col.add_line(String::from("b"));
    // each line leaves with its last character: a, b, then an idle blank
    let got = drain_column(&mut col, 3, 0);
    assert_eq!(got, vec![('a', Color::Red), ('b', Color::Red), BLANK]);
}

#[test]
fn empty_line_gives_spacer_only() {
    let mut col = ColumnMat::new(2, Color::Red, Color::Green, 1);
    col.add_line(String::new());
    col.add_line(String::from("q"));
    let got = drain_column(&mut col, 2, 1);
    assert_eq!(got, vec![BLANK, ('q', Color::Green)]);
}

#[test]
fn multibyte_characters_drain_one_per_tick() {
    let mut col = ColumnMat::new(3, Color::Red, Color::Green, 1);
    col.add_line(String::from("é→z"));
    let got = drain_column(&mut col, 3, 1);
    assert_eq!(got, vec![('é', Color::Green), ('→', Color::Red), ('z', Color::Red)]);
}

#[test]
fn two_lines_end_to_end() {
    let mut col = ColumnMat::new(6, Color::Red, Color::Green, 1);
    col.add_line(String::from("A"));
    col.add_line(String::from("BB"));
    let got = drain_column(&mut col, 6, 1);
    assert_eq!(
        got,
        vec![
            ('A', Color::Green),
            BLANK,
            ('B', Color::Green),
            ('B', Color::Red),
            BLANK,
            BLANK,
        ]
    );
}

#[test]
fn spiral_length_formula() {
    assert_eq!(Matrix::get_spiral_length(24, 80), 208);
    assert_eq!(Matrix::get_spiral_length(u16::MAX, u16::MAX), 262140);
}

#[test]
fn get_columns_shapes() {
    let cols = Matrix::get_columns(7, 3, 20, &args(Direction::Bottom));
    assert_eq!(cols.len(), 7);
    assert!(cols.iter().all(|c| c.height() == 3 && c.pending() == 0));
    let ray = Matrix::get_columns(7, 3, 20, &args(Direction::SpiralRight));
    assert_eq!(ray.len(), 1);
    assert_eq!(ray[0].height(), 20);
}

#[test]
fn new_matrix_directional() {
    let m = Matrix::new(80, 24, args(Direction::Top));
    assert_eq!(m.width(), 80);
    assert_eq!(m.height(), 24);
    assert_eq!(m.center(), (40, 12));
    assert_eq!(m.spiral_length(), 208);
    assert_eq!(m.column_count(), 80);
    assert_eq!(m.column(79).height(), 24);
}

#[test]
fn new_matrix_spiral() {
    let m = Matrix::new(80, 24, args(Direction::SpiralRight));
    assert_eq!(m.column_count(), 1);
    assert_eq!(m.column(0).height(), 208);
}

#[test]
fn resize_rebuilds_columns() {
    let mut m = Matrix::new(4, 3, args(Direction::Bottom));
    m.add_line_at(String::from("abc"), 1);
    m.tick_all();
    assert!(!m.update_mat(4, 3));
    assert_eq!(m.column(1).pending(), 1);
    assert!(m.update_mat(6, 5));
    assert_eq!(m.width(), 6);
    assert_eq!(m.height(), 5);
    assert_eq!(m.center(), (3, 2));
    assert_eq!(m.spiral_length(), 22);
    assert_eq!(m.column_count(), 6);
    for i in 0..6 {
        assert_eq!(m.column(i).height(), 5);
        assert_eq!(m.column(i).pending(), 0);
    }
    let frame = m.directional_exec();
    let blank_row = "\u{1b}[0;0m \u{1b}[0;0m".repeat(6) + "\u{1b}[0;0m\n";
    assert_eq!(frame, blank_row.repeat(5));
}

#[test]
fn resize_spiral_ray_length() {
    let mut m = Matrix::new(10, 10, args(Direction::SpiralRight));
    assert!(m.update_mat(30, 12));
    assert_eq!(m.column_count(), 1);
    assert_eq!(m.column(0).height(), 84);
    assert_eq!(m.column(0).pending(), 0);
}

#[test]
fn add_line_at_uses_draw_modulo_count() {
    let mut m = Matrix::new(5, 2, args(Direction::Bottom));
    m.add_line_at(String::from("x"), 13);
    for i in 0..5 {
        assert_eq!(m.column(i).pending(), if i == 3 { 1 } else { 0 });
    }
}

#[test]
fn add_line_without_columns_is_dropped() {
    let mut m = Matrix::new(0, 2, args(Direction::Top));
    assert_eq!(m.column_count(), 0);
    m.add_line_at(String::from("x"), 3);
    m.route_line(String::from("y"));
    assert_eq!(m.column_count(), 0);
}

#[test]
fn route_line_reaches_one_column() {
    let mut m = Matrix::new(7, 2, args(Direction::Top));
    m.route_line(String::from("hello"));
    m.route_line(String::from("world"));
    let total: usize = (0..7).map(|i| m.column(i).pending()).sum();
    assert_eq!(total, 2);
}

#[test]
fn directional_frame_text() {
    let mut m = Matrix::new(2, 2, args(Direction::Bottom));
    m.add_line_at(String::from("ab"), 0);
    m.tick_all();
    m.tick_all();
    // column 0 holds a (green, slot 0) and b (red, slot 1), read cursor on slot 0
    let frame = m.directional_exec();
    let r = "\u{1b}[0;0m";
    let expected = format!(
        "\u{1b}[0;32ma{r}{r} {r}{r}\n\u{1b}[0;31mb{r}{r} {r}{r}\n"
    );
    assert_eq!(frame, expected);
}

#[test]
fn directional_frame_toward_top() {
    let mut m = Matrix::new(1, 3, args(Direction::Top));
    m.add_line_at(String::from("ab"), 0);
    m.tick_all();
    m.tick_all();
    let frame = m.directional_exec();
    let r = "\u{1b}[0;0m";
    let expected = format!("{r} {r}{r}\n\u{1b}[0;32ma{r}{r}\n\u{1b}[0;31mb{r}{r}\n");
    assert_eq!(frame, expected);
}

#[test]
fn spiral_frame_skips_off_screen() {
    let mut m = Matrix::new(10, 6, args(Direction::SpiralRight));
    m.add_line_at(String::from("xyz"), 0);
    m.tick_all();
    m.tick_all();
    m.tick_all();
    assert_eq!(m.spiral_length(), 32);
    // center is (5, 3); one offset per ray position 1..32
    let mut offsets = vec![(1, 1), (-6, 0), (4, -3), (0, 3)];
    offsets.resize(31, (100, 100));
    let placed = m.spiral_exec(&offsets);
    assert_eq!(placed.len(), 2);
    assert_eq!((placed[0].0, placed[0].1), (6, 4));
    assert_eq!((placed[1].0, placed[1].1), (9, 0));
    // the ray advanced 31 cells, the skipped ones too: the next frame
    // starts on the 32nd cell, the last one pushed
    let mut again = vec![(100, 100); 31];
    again[0] = (0, 0);
    let placed2 = m.spiral_exec(&again);
    assert_eq!(placed2.len(), 1);
    assert_eq!(placed2[0], (5, 3, ('z', Color::Red)));
}

#[test]
fn spiral_frame_reads_ray_in_order() {
    let mut m = Matrix::new(10, 6, args(Direction::SpiralRight));
    m.add_line_at(String::from("xyz"), 0);
    m.tick_all();
    m.tick_all();
    m.tick_all();
    let placed = m.spiral_exec(&vec![(0, 0); 31]);
    assert_eq!(placed.len(), 31);
    let cells: Vec<(char, Color)> = placed.iter().map(|p| p.2).collect();
    // reading starts at the oldest slot: 29 blanks, then the pushed cells in order
    assert_eq!(cells[..29].to_vec(), vec![BLANK; 29]);
    assert_eq!(cells[29..].to_vec(), vec![('x', Color::Green), ('y', Color::Red)]);
}

#[test]
fn tick_all_ticks_every_column() {
    let mut m = Matrix::new(3, 2, args(Direction::Top));
    m.add_line_at(String::from("abc"), 0);
    m.add_line_at(String::from("d"), 2);
    m.tick_all();
    m.tick_all();
    assert_eq!(m.column(0).pending(), 1);
    assert_eq!(m.column(2).pending(), 0);
}

#[test]
fn frame_pause_clamps_to_zero() {
    assert_eq!(frame_pause(100, 30_000), 70_000);
    assert_eq!(frame_pause(100, 100_000), 0);
    assert_eq!(frame_pause(100, 250_000), 0);
    assert_eq!(frame_pause(0, 0), 0);
    assert_eq!(frame_pause(u64::MAX, 0), u64::MAX as u128 * 1000);
}
