//! A screen that keeps the pixels it was handed, and the layout of the
//! keypad on a keyboard.

use crate::chip8::display::Display;
use vstd::prelude::*;

verus! {

/// A screen held in memory: the pixel buffer that was drawn last.
pub struct Screen {
    pub data: [u8; 2048],
}

/// The pixels among the first `n` of `data` that are lit, as pairs of column
/// and row, in the order of the buffer.
pub open spec fn lit_cells_before(data: Seq<u8>, n: nat) -> Seq<(u8, u8)>
    decreases n,
{
    if n == 0 {
        Seq::empty()
    } else {
        let p = (n - 1) as int;
        let rest = lit_cells_before(data, (n - 1) as nat);
        if data[p] != 0 {
            rest.push(((p % 64) as u8, (p / 64) as u8))
        } else {
            rest
        }
    }
}

/// The cell at column `x` and row `y` is among the lit cells exactly if its
/// pixel is not 0.
pub proof fn lemma_lit_cells(data: Seq<u8>, n: nat, x: u8, y: u8)
    requires
        n <= data.len(),
        n <= 2048,
    ensures
        lit_cells_before(data, n).contains((x, y)) <==> (x < 64 && x + 64 * y < n && data[x + 64
            * y] != 0),
    decreases n,
{
    if n > 0 {
        let p = (n - 1) as int;
        let rest = lit_cells_before(data, (n - 1) as nat);
        lemma_lit_cells(data, (n - 1) as nat, x, y);
        let cell = ((p % 64) as u8, (p / 64) as u8);
        if data[p] != 0 {
            let all = rest.push(cell);
            assert(all.last() == cell);
            assert(all.drop_last() =~= rest);
            if all.contains((x, y)) {
                let i = choose|i: int| 0 <= i < all.len() && all[i] == (x, y);
                if i < rest.len() {
                    assert(rest[i] == (x, y));
                    assert(rest.contains((x, y)));
                }
            }
            if rest.contains((x, y)) {
                let i = choose|i: int| 0 <= i < rest.len() && rest[i] == (x, y);
                assert(all[i] == (x, y));
            }
            if cell == (x, y) {
                assert(all[all.len() - 1] == (x, y));
            }
        }
    } else {
        assert(!lit_cells_before(data, 0).contains((x, y)));
    }
}

impl Screen {
    /// A blank screen.
    pub fn new() -> (screen: Screen)
        ensures
            screen.data@ == Seq::new(2048, |p: int| 0u8),
    {
        let screen = Screen { data: [0u8;2048] };
        assert(screen.data@ =~= Seq::new(2048, |p: int| 0u8));
        screen
    }

    /// The lit pixels as pairs of column and row, row after row: what a
    /// renderer has to fill.
    pub fn lit_cells(&self) -> (cells: Vec<(u8, u8)>)
        ensures
            cells@ == lit_cells_before(self.data@, 2048),
    {
        let mut cells: Vec<(u8, u8)> = Vec::new();
        let mut p: usize = 0;
        while p < 2048
            invariant
                p <= 2048,
                cells@ == lit_cells_before(self.data@, p as nat),
            decreases 2048 - p,
        {
            if self.data[p] != 0 {
                cells.push(((p % 64) as u8, (p / 64) as u8));
            }
            p += 1;
        }
        cells
    }
}

impl Display for Screen {
    fn clear(&mut self)
        ensures
            final(self).data@ == Seq::new(2048, |p: int| 0u8),
    {
        self.data = [0u8;2048];
        assert(self.data@ =~= Seq::new(2048, |p: int| 0u8));
    }

    fn draw(&mut self, pixels: [u8; 2048])
        ensures
            final(self).data == pixels,
    {
        self.data = pixels;
    }
}

/// The keyboard scancode that stands for the key `key` of the keypad, with
/// scancodes numbered as in the USB usage tables for keyboards: the keys 0
/// to 9 are the digits of the numeric pad and the keys A to F are the
/// letters A to F.
pub open spec fn keypad_scancode(key: u8) -> int {
    if key == 0 {
        98
    } else if key <= 9 {
        88 + key
    } else {
        key - 6
    }
}

/// The scancode of the key `key`, or `None` if `key` is over 0xF.
pub fn scancode_for_key(key: u8) -> (code: Option<i32>)
    ensures
        key < 16 ==> code == Some(keypad_scancode(key) as i32),
        key >= 16 ==> code is None,
{
    if key == 0 {
        Some(98)
    } else if key <= 9 {
        Some(88 + key as i32)
    } else if key < 16 {
        Some(key as i32 - 6)
    } else {
        None
    }
}

/// The key of the keypad that the scancode `code` stands for, or `None` if
/// it stands for none.
pub fn key_for_scancode(code: i32) -> (key: Option<u8>)
    ensures
        match key {
            Some(key) => key < 16 && keypad_scancode(key) == code,
            None => forall|key: u8| key < 16 ==> keypad_scancode(key) != code,
        },
{
    if code == 98 {
        Some(0)
    } else if 89 <= code && code <= 97 {
        Some((code - 88) as u8)
    } else if 4 <= code && code <= 9 {
        Some((code + 6) as u8)
    } else {
        None
    }
}

/// No two keys of the keypad share a scancode.
pub proof fn lemma_keypad_scancodes_differ(a: u8, b: u8)
    requires
        a < 16,
        b < 16,
        keypad_scancode(a) == keypad_scancode(b),
    ensures
        a == b,
{
}

} // verus!
