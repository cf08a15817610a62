use kernel::io::PortOp;
use kernel::sync::Once;
use kernel::term::{Character, Color, Terminal, TextColor};
use kernel::timer::Timer;

fn line(t: &Terminal, n: usize) -> Vec<u8> {
    t.buffer[n].iter().map(|c| c.0.byte).collect()
}

fn text(t: &Terminal, n: usize) -> String {
    line(t, n).iter().map(|b| if *b == 0 { ' ' } else { *b as char }).collect::<String>().trim_end().to_string()
}

fn cursor(pos: u16) -> Vec<PortOp> {
    let at = 24 * 80 + pos;
    vec![
        PortOp::Out16(0x3D4, 14),
        PortOp::Out16(0x3D5, at >> 8),
        PortOp::Out16(0x3D4, 15),
        PortOp::Out16(0x3D5, at),
    ]
}

#[test]
fn a_text_colour_holds_the_foreground_low_and_the_background_high() {
    assert_eq!(TextColor::new(Color::White, Color::Black), TextColor(0x0F));
    assert_eq!(TextColor::new(Color::White, Color::Red), TextColor(0x4F));
    assert_eq!(TextColor::new(Color::Black, Color::White), TextColor(0xF0));
    assert_eq!(TextColor::new(Color::LightGray, Color::Blue), TextColor(0x17));
    assert_eq!(TextColor::default(), TextColor(0x0F));
    assert_eq!(Color::Pink.code(), 13);
}

#[test]
fn a_new_terminal_is_blank() {
    let t = Terminal::default();
    assert_eq!(t.pos, 0);
    assert_eq!(t.color, TextColor(0x0F));
    assert!(t.queue.is_empty());
    for n in 0..25 {
        assert!(t.buffer[n].iter().all(|c| c.0 == Character::new(0, TextColor(0x0F))));
    }
}

#[test]
fn bytes_go_to_the_last_line_and_move_the_cursor() {
    let mut t = Terminal::default();
    t.write_byte(b'a');
    t.write_byte(b'b');
    assert_eq!(text(&t, 24), "ab");
    assert_eq!(t.pos, 2);
    assert_eq!(t.buffer[24][0].0, Character::new(b'a', TextColor(0x0F)));
    let mut expected = cursor(1);
    expected.extend(cursor(2));
    assert_eq!(t.take_queue(), expected);
}

#[test]
fn a_line_break_moves_the_screen_up() {
    let mut t = Terminal::default();
    t.write_str("one\ntwo\nthree");
    assert_eq!(text(&t, 22), "one");
    assert_eq!(text(&t, 23), "two");
    assert_eq!(text(&t, 24), "three");
    assert_eq!(t.pos, 5);
}

#[test]
fn newline_clears_what_was_written_in_the_last_line() {
    let mut t = Terminal::default();
    t.write_str("abc");
    t.take_queue();
    t.newline();
    assert_eq!(line(&t, 23)[..4], *b"abc\0");
    assert_eq!(line(&t, 24)[..4], *b"\0\0\0\0");
    assert_eq!(t.pos, 0);
    assert_eq!(t.take_queue(), cursor(0));
}

#[test]
fn the_first_line_is_lost_when_the_screen_moves_up() {
    let mut t = Terminal::default();
    for n in 0..26u8 {
        t.write_byte(b'a' + n);
        t.write_byte(b'\n');
    }
    // 26 lines were written and 25 line breaks more than fill the screen:
    // the last line is empty and the first letters are gone.
    assert_eq!(text(&t, 24), "");
    assert_eq!(text(&t, 23), "z");
    assert_eq!(text(&t, 0), "c");
}

#[test]
fn the_last_column_is_never_written() {
    let mut t = Terminal::default();
    for _ in 0..79 {
        t.write_byte(b'x');
    }
    assert_eq!(t.pos, 79);
    assert_eq!(line(&t, 24)[78], b'x');
    assert_eq!(line(&t, 24)[79], 0);
    // The next byte moves the screen up first.
    t.write_byte(b'y');
    assert_eq!(t.pos, 1);
    assert_eq!(line(&t, 23)[78], b'x');
    assert_eq!(line(&t, 23)[79], 0);
    assert_eq!(line(&t, 24)[0], b'y');
    // Only the columns that had been written are cleared, all 79 of them.
    assert_eq!(line(&t, 24)[1], 0);
}

#[test]
fn write_at_puts_text_anywhere_without_moving_the_next_column() {
    let mut t = Terminal::default();
    t.write_str("ab");
    t.take_queue();
    t.set_color(Color::Yellow, Color::Blue);
    t.write_at("xyz", 3, 10);
    assert_eq!(line(&t, 3)[9..14], *b"\0xyz\0");
    assert_eq!(t.buffer[3][10].0.color, TextColor(0x1E));
    assert_eq!(t.pos, 2);
    // The cursor is told of its unchanged place once for each byte.
    let mut expected = cursor(2);
    expected.extend(cursor(2));
    expected.extend(cursor(2));
    assert_eq!(t.take_queue(), expected);
}

#[test]
fn write_at_puts_the_last_column_a_line_lower() {
    let mut t = Terminal::default();
    t.write_at("abc", 5, 77);
    assert_eq!(line(&t, 5)[77], b'a');
    assert_eq!(line(&t, 5)[78], b'b');
    assert_eq!(line(&t, 5)[79], 0);
    assert_eq!(line(&t, 6)[79], b'c');
}

#[test]
fn write_at_never_writes_below_the_last_line() {
    let mut t = Terminal::default();
    t.write_at("q", 1000, 0);
    assert_eq!(line(&t, 24)[0], b'q');
    t.write_at("r", 24, 79);
    assert_eq!(line(&t, 24)[79], b'r');
}

#[test]
fn write_at_ends_at_a_line_break_and_moves_the_screen_up() {
    let mut t = Terminal::default();
    t.write_at("ab\ncd", 24, 0);
    assert_eq!(text(&t, 23), "ab");
    // Nothing had been written through the cursor, so nothing of the last
    // line is cleared, and what follows the line break is dropped.
    assert_eq!(text(&t, 24), "ab");
    assert_eq!(t.pos, 0);
}

#[test]
fn set_color_changes_new_text_only() {
    let mut t = Terminal::default();
    t.write_byte(b'a');
    t.set_color(Color::White, Color::Red);
    t.write_byte(b'b');
    assert_eq!(t.buffer[24][0].0.color, TextColor(0x0F));
    assert_eq!(t.buffer[24][1].0.color, TextColor(0x4F));
}

#[test]
fn the_cursor_is_put_behind_the_text() {
    let mut t = Terminal::default();
    t.pos = 0x4F;
    t.move_cursor();
    // 24 * 80 + 79 = 1999 = 0x07CF
    assert_eq!(
        t.take_queue(),
        vec![
            PortOp::Out16(0x3D4, 14),
            PortOp::Out16(0x3D5, 0x07),
            PortOp::Out16(0x3D4, 15),
            PortOp::Out16(0x3D5, 0x07CF),
        ]
    );
}

#[test]
fn a_tick_shows_the_count_in_the_top_right_corner() {
    let mut screen = Once::new();
    let mut timer = Timer::default();
    assert_eq!(timer.count(), 0);
    for _ in 0..9 {
        timer.tick(&mut screen);
    }
    {
        let t = screen.call_once(|| panic!("the cell is empty")).force();
        assert_eq!(line(t, 0)[77..], *b"\09\0");
        assert_eq!(t.pos, 0);
    }
    timer.tick(&mut screen);
    assert_eq!(timer.count(), 10);
    {
        let t = screen.call_once(|| panic!("the cell is empty")).force();
        assert_eq!(line(t, 0)[76..], *b"\010\0");
    }
    for _ in 10..100 {
        timer.tick(&mut screen);
    }
    assert_eq!(timer.count(), 100);
    {
        let t = screen.call_once(|| panic!("the cell is empty")).force();
        assert_eq!(line(t, 0)[75..], *b"\0100\0");
    }
    assert!(!screen.call_once(|| panic!("the cell is empty")).try_lock().is_none());
}

#[test]
fn the_counter_goes_on_beyond_any_number_of_ticks() {
    let mut screen = Once::new();
    let mut timer = Timer::default();
    for n in 1..=12_345usize {
        timer.tick(&mut screen);
        assert_eq!(timer.count(), n);
    }
    let t = screen.call_once(|| panic!("the cell is empty")).force();
    assert_eq!(line(t, 0)[73..], *b"\012345\0");
    // Nothing of the screen but the corner is touched.
    assert!(line(t, 0)[..74].iter().all(|b| *b == 0));
    assert!(line(t, 1).iter().all(|b| *b == 0));
    assert_eq!(t.pos, 0);
}
