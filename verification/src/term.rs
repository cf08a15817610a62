//! The text screen: 25 lines of 80 characters, written from the last line
//! upwards.

use crate::io::{Io, Port, PortOp, Volatile};
use crate::sync::{Global, Mutex, Once, OnceState};
use vstd::prelude::*;
use vstd::string::StringSliceAdditionalSpecFns;

verus! {

/// The colours of the text screen.
#[allow(dead_code)]
#[derive(Debug, Clone, Copy, PartialEq, Eq)]
pub enum Color {
    Black,
    Blue,
    Green,
    Cyan,
    Red,
    Magenta,
    Brown,
    LightGray,
    DarkGray,
    LightBlue,
    LightGreen,
    LightCyan,
    LightRed,
    Pink,
    Yellow,
    White,
}

impl Color {
    /// The number of the colour.
    pub open spec fn spec_code(self) -> u8 {
        match self {
            Color::Black => 0,
            Color::Blue => 1,
            Color::Green => 2,
            Color::Cyan => 3,
            Color::Red => 4,
            Color::Magenta => 5,
            Color::Brown => 6,
            Color::LightGray => 7,
            Color::DarkGray => 8,
            Color::LightBlue => 9,
            Color::LightGreen => 10,
            Color::LightCyan => 11,
            Color::LightRed => 12,
            Color::Pink => 13,
            Color::Yellow => 14,
            Color::White => 15,
        }
    }

    /// The number of the colour.
    #[verifier::when_used_as_spec(spec_code)]
    pub fn code(self) -> (n: u8)
        ensures
            n == self.spec_code(),
            n < 16,
    {
        match self {
            Color::Black => 0,
            Color::Blue => 1,
            Color::Green => 2,
            Color::Cyan => 3,
            Color::Red => 4,
            Color::Magenta => 5,
            Color::Brown => 6,
            Color::LightGray => 7,
            Color::DarkGray => 8,
            Color::LightBlue => 9,
            Color::LightGreen => 10,
            Color::LightCyan => 11,
            Color::LightRed => 12,
            Color::Pink => 13,
            Color::Yellow => 14,
            Color::White => 15,
        }
    }
}

/// Combined foreground and background [`Color`] of a character: the
/// foreground in the low four bits, the background in the high four.
#[derive(Debug, Clone, Copy, PartialEq, Eq, Structural)]
pub struct TextColor(pub u8);

proof fn lemma_color_byte(fg: u8, bg: u8)
    by (bit_vector)
    requires
        fg < 16,
        bg < 16,
    ensures
        (fg | (bg << 4u8)) == fg + 16 * bg,
{
}

impl TextColor {
    /// The attribute byte of the two colours.
    pub open spec fn of(fg: Color, bg: Color) -> TextColor {
        TextColor((fg.spec_code() + 16 * bg.spec_code()) as u8)
    }

    /// The attribute for text in `fg` on `bg`.
    pub fn new(fg: Color, bg: Color) -> (c: TextColor)
        ensures
            c == Self::of(fg, bg),
    {
        let f = fg.code();
        let b = bg.code();
        proof {
            lemma_color_byte(f, b);
        }
        TextColor(f | (b << 4))
    }

    /// White on black.
    pub fn default() -> (c: TextColor)
        ensures
            c == Self::of(Color::White, Color::Black),
    {
        TextColor::new(Color::White, Color::Black)
    }
}

/// One cell of the screen: a character and its colours.
#[derive(Debug, Clone, Copy, PartialEq, Eq, Structural)]
pub struct Character {
    pub byte: u8,
    pub color: TextColor,
}

impl Character {
    /// The cell that shows `byte` in `color`.
    pub fn new(byte: u8, color: TextColor) -> (ch: Character)
        ensures
            ch == (Character { byte, color }),
    {
        Character { byte, color }
    }
}

/// Handles writing to the text screen.
///
/// Text goes to the last line, from column `pos` on. When the line is full
/// or ends, the screen moves up by a line.
pub struct Terminal {
    pub buffer: [[Volatile<Character>; 80]; 25],
    pub pos: usize,
    pub color: TextColor,
    /// The port accesses that have been decided and not yet carried out.
    pub queue: Vec<PortOp>,
}

/// The four accesses that move the cursor of the screen to column `pos` of
/// the last line.
pub open spec fn cursor_writes(pos: usize) -> Seq<PortOp> {
    let at = (24 * 80 + pos) as u16;
    seq![
        PortOp::Out16(0x03D4, 14),
        PortOp::Out16(0x03D5, at / 0x100),
        PortOp::Out16(0x03D4, 15),
        PortOp::Out16(0x03D5, at),
    ]
}

/// The cursor accesses of `count` characters in a row, none of which moves
/// the cursor away from column `pos`.
pub open spec fn repeated_cursor_writes(pos: usize, count: nat) -> Seq<PortOp>
    decreases count,
{
    if count == 0 {
        Seq::empty()
    } else {
        repeated_cursor_writes(pos, (count - 1) as nat) + cursor_writes(pos)
    }
}

proof fn lemma_cursor_word(at: u16)
    by (bit_vector)
    ensures
        at >> 8 == at / 0x100,
{
}

/// The screen as rows of cells.
pub type Screen = Seq<Seq<Character>>;

/// The screen after it has moved up by a line: each line but the last holds
/// what the line below it held, and in the last line the first `pos` cells
/// are empty cells in `color`.
pub open spec fn scrolled(screen: Screen, pos: usize, color: TextColor) -> Screen {
    Seq::new(
        25,
        |line: int|
            Seq::new(
                80,
                |col: int|
                    if line < 24 {
                        screen[line + 1][col]
                    } else if col < pos {
                        Character { byte: 0, color }
                    } else {
                        screen[24][col]
                    },
            ),
    )
}

/// The index of the first line break in `text`, or the length of `text` if
/// there is none.
pub open spec fn first_break(text: Seq<u8>) -> int
    decreases text.len(),
{
    if text.len() == 0 {
        0
    } else if text[0] == 0x0A {
        0
    } else {
        1 + first_break(text.drop_first())
    }
}

/// `first_break` finds the first line break.
pub proof fn lemma_first_break(text: Seq<u8>)
    ensures
        0 <= first_break(text) <= text.len(),
        forall|k: int| 0 <= k < first_break(text) ==> text[k] != 0x0A,
        first_break(text) < text.len() ==> text[first_break(text)] == 0x0A,
    decreases text.len(),
{
    if text.len() > 0 && text[0] != 0x0A {
        lemma_first_break(text.drop_first());
        assert forall|k: int| 0 <= k < first_break(text) implies text[k] != 0x0A by {
            if k > 0 {
                assert(text.drop_first()[k - 1] == text[k]);
            }
        }
    }
}

/// The line in which [`Terminal::write_at`] puts the character that goes to
/// column `col`, when it was asked to write in line `line`: the line
/// below for the last column, and never a line beyond the last.
pub open spec fn line_for(line: usize, col: int) -> int {
    let wanted = if col >= 79 {
        line + 1
    } else {
        line as int
    };
    if wanted >= 24 {
        24
    } else {
        wanted
    }
}

/// What a terminal holds: the screen, the column of the next character in
/// the last line, the colours of new text, and the queued port accesses.
pub struct TerminalState {
    pub screen: Screen,
    pub pos: usize,
    pub color: TextColor,
    pub queue: Seq<PortOp>,
}

impl TerminalState {
    /// An empty screen with white text on black, the next character going
    /// to the first column, and nothing queued.
    pub open spec fn blank() -> TerminalState {
        TerminalState {
            screen: Seq::new(
                25,
                |line: int|
                    Seq::new(
                        80,
                        |col: int|
                            Character { byte: 0, color: TextColor::of(Color::White, Color::Black) },
                    ),
            ),
            pos: 0,
            color: TextColor::of(Color::White, Color::Black),
            queue: Seq::empty(),
        }
    }

    /// The screen has 25 lines of 80 cells and the next column lies in the
    /// line.
    pub open spec fn wf(self) -> bool {
        &&& self.pos <= 79
        &&& self.screen.len() == 25
        &&& forall|line: int| 0 <= line < 25 ==> (#[trigger] self.screen[line]).len() == 80
    }

    /// The state with the accesses queued that move the cursor to the next
    /// column.
    pub open spec fn cursor_moved(self) -> TerminalState {
        TerminalState { queue: self.queue + cursor_writes(self.pos), ..self }
    }

    /// The state after the screen has moved up by a line.
    pub open spec fn newline(self) -> TerminalState {
        TerminalState {
            screen: scrolled(self.screen, self.pos, self.color),
            pos: 0,
            color: self.color,
            queue: self.queue + cursor_writes(0),
        }
    }

    /// The state after the cell `ch` has been written: a line break moves
    /// the screen up, and any other character goes to the next column of
    /// the last line, after the screen has moved up if that column is the
    /// last one.
    pub open spec fn put(self, ch: Character) -> TerminalState {
        if ch.byte == 0x0A {
            self.newline()
        } else {
            let s = if self.pos == 79 {
                self.newline()
            } else {
                self
            };
            TerminalState {
                screen: s.screen.update(24, s.screen[24].update(s.pos as int, ch)),
                pos: (s.pos + 1) as usize,
                color: s.color,
                queue: s.queue + cursor_writes((s.pos + 1) as usize),
            }
        }
    }

    /// The state after the bytes of `text` have been written one by one in
    /// the colours of the terminal.
    pub open spec fn put_bytes(self, text: Seq<u8>) -> TerminalState
        decreases text.len(),
    {
        if text.len() == 0 {
            self
        } else {
            self.put_bytes(text.drop_last()).put(Character { byte: text.last(), color: self.color })
        }
    }

    /// The state after the first `count` bytes of `text` have been written
    /// from column `pos` of line `line` on. The cursor accesses are queued
    /// once for each byte.
    pub open spec fn overwritten(self, text: Seq<u8>, count: int, line: usize, pos: usize) -> TerminalState {
        TerminalState {
            screen: Seq::new(
                25,
                |l: int|
                    Seq::new(
                        80,
                        |c: int|
                            if pos <= c < pos + count && l == line_for(line, c) {
                                Character { byte: text[c - pos], color: self.color }
                            } else {
                                self.screen[l][c]
                            },
                    ),
            ),
            queue: self.queue + repeated_cursor_writes(self.pos, count as nat),
            ..self
        }
    }

    /// The state after `text` has been written from column `pos` of line
    /// `line` on: the bytes before the first line break are written, and
    /// the screen moves up by a line if there is a line break.
    pub open spec fn write_at(self, text: Seq<u8>, line: usize, pos: usize) -> TerminalState {
        let written = self.overwritten(text, first_break(text), line, pos);
        if first_break(text) < text.len() {
            written.newline()
        } else {
            written
        }
    }
}

impl View for Terminal {
    type V = TerminalState;

    open spec fn view(&self) -> TerminalState {
        TerminalState {
            screen: Seq::new(
                25,
                |line: int| Seq::new(80, |col: int| self.buffer@[line]@[col].value()),
            ),
            pos: self.pos,
            color: self.color,
            queue: self.queue@,
        }
    }
}

impl Terminal {
    /// The column of the next character lies in the line.
    pub open spec fn wf(self) -> bool {
        self.pos <= 79
    }

    /// A terminal over an empty screen, with white text on black.
    pub fn default() -> (t: Terminal)
        ensures
            t.wf(),
            t@ == TerminalState::blank(),
    {
        let color = TextColor::default();
        let t = Terminal {
            buffer: [[Volatile::new(Character::new(0, color)); 80]; 25],
            pos: 0,
            color,
            queue: Vec::new(),
        };
        proof {
            assert forall|l: int| 0 <= l < 25 implies t@.screen[l] =~= TerminalState::blank().screen[l] by {}
            assert(t@.screen =~= TerminalState::blank().screen);
            assert(t@.queue =~= TerminalState::blank().queue);
        }
        t
    }

    /// Queue the accesses that put the cursor of the screen where the next
    /// character goes.
    pub fn move_cursor(&mut self)
        requires
            old(self).wf(),
        ensures
            final(self)@ == old(self)@.cursor_moved(),
            final(self).buffer == old(self).buffer,
    {
        let mut d4: Port<u16> = Port::new(0x03D4);
        let mut d5: Port<u16> = Port::new(0x03D5);
        let pos: u16 = (24 * 80) + (self.pos as u16);
        proof {
            lemma_cursor_word(pos);
        }
        self.queue.push(d4.write(14));
        self.queue.push(d5.write(pos >> 8));
        self.queue.push(d4.write(15));
        self.queue.push(d5.write(pos));
        assert(self.queue@ =~= old(self).queue@ + cursor_writes(old(self).pos));
    }

    /// Move all lines on the screen up one row, removing the top row, and
    /// go back to the first column.
    pub fn newline(&mut self)
        requires
            old(self).wf(),
        ensures
            final(self).wf(),
            final(self)@ == old(self)@.newline(),
    {
        let ghost before = self@.screen;
        let mut line: usize = 1;
        while line < 25
            invariant
                1 <= line <= 25,
                self.pos == old(self).pos,
                self.color == old(self).color,
                self.queue == old(self).queue,
                forall|l: int, c: int|
                    0 <= l < 25 && 0 <= c < 80 ==> (#[trigger] self.buffer@[l]@[c]).value() == if l
                        < line - 1 {
                        before[l + 1][c]
                    } else {
                        before[l][c]
                    },
            decreases 25 - line,
        {
            let mut col: usize = 0;
            while col < 80
                invariant
                    1 <= line < 25,
                    col <= 80,
                    self.pos == old(self).pos,
                    self.color == old(self).color,
                    self.queue == old(self).queue,
                    forall|l: int, c: int|
                        0 <= l < 25 && 0 <= c < 80 ==> (#[trigger] self.buffer@[l]@[c]).value()
                            == if l < line - 1 || (l == line - 1 && c < col) {
                            before[l + 1][c]
                        } else {
                            before[l][c]
                        },
                decreases 80 - col,
            {
                let ch = self.buffer[line][col].read();
                self.buffer[line - 1][col].write(ch);
                col += 1;
            }
            line += 1;
        }
        let mut c: usize = 0;
        while c < self.pos
            invariant
                c <= self.pos <= 79,
                self.pos == old(self).pos,
                self.color == old(self).color,
                self.queue == old(self).queue,
                forall|l: int, k: int|
                    0 <= l < 25 && 0 <= k < 80 ==> (#[trigger] self.buffer@[l]@[k]).value() == if l
                        < 24 {
                        before[l + 1][k]
                    } else if k < c {
                        Character { byte: 0, color: self.color }
                    } else {
                        before[l][k]
                    },
            decreases self.pos - c,
        {
            let blank = Character::new(0u8, self.color);
            self.buffer[24][c].write(blank);
            c += 1;
        }
        self.pos = 0;
        self.move_cursor();
        proof {
            let after = self@.screen;
            let wanted = scrolled(before, old(self).pos, old(self).color);
            assert forall|l: int| 0 <= l < 25 implies after[l] =~= wanted[l] by {
                assert forall|k: int| 0 <= k < 80 implies after[l][k] == wanted[l][k] by {
                    assert(after[l][k] == self.buffer@[l]@[k].value());
                }
            }
            assert(after =~= wanted);
        }
    }

    /// Write a `Character` to the screen.
    pub fn write_character(&mut self, ch: Character)
        requires
            old(self).wf(),
        ensures
            final(self).wf(),
            final(self)@ == old(self)@.put(ch),
    {
        match ch.byte {
            0x0A => {
                return self.newline();
            },
            _ => {
                if self.pos == 79 {
                    self.newline();
                }
            },
        }
        let ghost middle = self@;
        self.buffer[24][self.pos].write(ch);
        self.pos += 1;
        self.move_cursor();
        proof {
            let wanted = middle.screen.update(24, middle.screen[24].update(middle.pos as int, ch));
            assert forall|l: int| 0 <= l < 25 implies self@.screen[l] =~= wanted[l] by {
                assert forall|k: int| 0 <= k < 80 implies self@.screen[l][k] == wanted[l][k] by {
                    assert(middle.screen[l][k] == old(self)@.put(ch).screen[l][k] || (l == 24 && k
                        == middle.pos));
                }
            }
            assert(self@.screen =~= wanted);
        }
    }

    /// Write `text` from column `pos` of line `line` on, in the colours of
    /// the terminal and without moving the place of the next character.
    /// The text ends at its first line break, which moves the screen up.
    /// What comes before the line break has to fit into the line.
    pub fn write_bytes_at(&mut self, text: &[u8], line: usize, pos: usize)
        requires
            old(self).wf(),
            pos + first_break(text@) <= 80,
            line < usize::MAX,
        ensures
            final(self).wf(),
            final(self)@ == old(self)@.write_at(text@, line, pos),
    {
        let mut row = line;
        let mut col = pos;
        let mut i: usize = 0;
        proof {
            lemma_first_break(text@);
            let start = old(self)@.overwritten(text@, 0, line, pos);
            assert forall|l: int| 0 <= l < 25 implies start.screen[l] =~= self@.screen[l] by {}
            assert(start.screen =~= self@.screen);
            assert(start.queue =~= self@.queue);
        }
        while i < text.len()
            invariant
                i <= text@.len(),
                i <= first_break(text@),
                0 <= first_break(text@) <= text@.len(),
                forall|k: int| 0 <= k < first_break(text@) ==> text@[k] != 0x0A,
                first_break(text@) < text@.len() ==> text@[first_break(text@)] == 0x0A,
                pos + first_break(text@) <= 80,
                col == pos + i,
                line < usize::MAX,
                row == line || row == 24 || (row == line + 1 && col > 79),
                row == line || line >= 24 || col > 79,
                self.wf(),
                self@ == old(self)@.overwritten(text@, i as int, line, pos),
            decreases text@.len() - i,
        {
            let byte = text[i];
            let ch = Character::new(byte, self.color);
            match ch.byte {
                0x0A => {
                    assert(i == first_break(text@)) by {
                        if i < first_break(text@) {
                            assert(text@[i as int] != 0x0A);
                        }
                    }
                    return self.newline();
                },
                _ => {
                    if col >= 79 {
                        row += 1;
                    }
                },
            }
            if row >= 24 {
                row = 24;
            }
            assert(row == line_for(line, col as int));
            let ghost middle = self@;
            self.buffer[row][col].write(ch);
            col += 1;
            self.move_cursor();
            i += 1;
            proof {
                let wanted = old(self)@.overwritten(text@, i as int, line, pos);
                assert forall|l: int| 0 <= l < 25 implies self@.screen[l] =~= wanted.screen[l] by {
                    assert forall|k: int| 0 <= k < 80 implies self@.screen[l][k]
                        == wanted.screen[l][k] by {
                        assert(middle.screen[l][k] == old(self)@.overwritten(
                            text@,
                            i - 1,
                            line,
                            pos,
                        ).screen[l][k]);
                    }
                }
                assert(self@.screen =~= wanted.screen);
                assert(repeated_cursor_writes(self.pos, i as nat) == repeated_cursor_writes(
                    self.pos,
                    (i - 1) as nat,
                ) + cursor_writes(self.pos));
                assert(self@.queue =~= wanted.queue);
            }
        }
    }

    /// Write `text` from column `pos` of line `line` on. See
    /// [`write_bytes_at`](Terminal::write_bytes_at).
    pub fn write_at(&mut self, text: &str, line: usize, pos: usize)
        requires
            old(self).wf(),
            pos + first_break(text.spec_bytes()) <= 80,
            line < usize::MAX,
        ensures
            final(self).wf(),
            final(self)@ == old(self)@.write_at(text.spec_bytes(), line, pos),
    {
        self.write_bytes_at(text.as_bytes(), line, pos)
    }

    /// Set the default foreground and background [`Color`] for the
    /// [`Terminal`].
    pub fn set_color(&mut self, fg: Color, bg: Color)
        ensures
            final(self)@ == (TerminalState { color: TextColor::of(fg, bg), ..old(self)@ }),
            final(self).buffer == old(self).buffer,
    {
        self.color = TextColor::new(fg, bg);
    }

    /// Write a byte to the screen, using the [`Terminal`]'s default color.
    pub fn write_byte(&mut self, byte: u8)
        requires
            old(self).wf(),
        ensures
            final(self).wf(),
            final(self)@ == old(self)@.put(Character { byte, color: old(self).color }),
    {
        self.write_character(Character::new(byte, self.color));
    }

    /// Write the bytes of `s` to the screen one by one.
    pub fn write_str(&mut self, s: &str)
        requires
            old(self).wf(),
        ensures
            final(self).wf(),
            final(self)@ == old(self)@.put_bytes(s.spec_bytes()),
    {
        let bytes = s.as_bytes();
        let mut i: usize = 0;
        assert(bytes@.take(0) =~= Seq::<u8>::empty());
        while i < bytes.len()
            invariant
                i <= bytes@.len(),
                self.wf(),
                self.color == old(self).color,
                self@ == old(self)@.put_bytes(bytes@.take(i as int)),
            decreases bytes@.len() - i,
        {
            proof {
                assert(bytes@.take(i + 1).drop_last() =~= bytes@.take(i as int));
                lemma_put_bytes_keeps_color(old(self)@, bytes@.take(i as int));
            }
            self.write_byte(bytes[i]);
            i += 1;
        }
        assert(bytes@.take(bytes@.len() as int) =~= bytes@);
    }

    /// Hand over the accesses that have been queued, in the order in which
    /// they are to be carried out.
    pub fn take_queue(&mut self) -> (ops: Vec<PortOp>)
        ensures
            ops@ == old(self)@.queue,
            final(self)@ == (TerminalState { queue: Seq::empty(), ..old(self)@ }),
            final(self).buffer == old(self).buffer,
    {
        let mut ops: Vec<PortOp> = Vec::new();
        core::mem::swap(&mut ops, &mut self.queue);
        assert(self@.queue =~= Seq::<PortOp>::empty());
        ops
    }
}

/// Writing text does not change the colours of the terminal.
pub proof fn lemma_put_bytes_keeps_color(state: TerminalState, text: Seq<u8>)
    ensures
        state.put_bytes(text).color == state.color,
    decreases text.len(),
{
    if text.len() > 0 {
        lemma_put_bytes_keeps_color(state, text.drop_last());
    }
}

impl Terminal {
    /// Whether `value` is a terminal as [`Terminal::default`] constructs it.
    pub open spec fn initial(value: Self) -> bool {
        value.wf() && value@ == TerminalState::blank()
    }
}

impl Global for Terminal {
    /// A new instance is free and [`initial`](Terminal::initial).
    fn global(cell: &mut Once<Mutex<Self>>) -> (instance: &mut Mutex<Self>)
        ensures
            old(cell).state() == OnceState::Empty ==> !instance.is_locked() && Self::initial(
                instance.data(),
            ),
    {
        cell.call_once(construct)
    }
}

/// The mutex around a fresh terminal.
fn construct() -> (m: Mutex<Terminal>)
    ensures
        !m.is_locked(),
        Terminal::initial(m.data()),
{
    Mutex::new(Terminal::default())
}

} // verus!
