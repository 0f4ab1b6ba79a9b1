//! What a front end decides, free of any windowing library: which keyboard
//! events press which key of the machine, and which rectangles of a window
//! show the framebuffer.

use vstd::prelude::*;

verus! {

/// The keys of the keyboard that a front end tells apart.
#[derive(Clone, Copy, Debug, PartialEq, Eq, Structural)]
pub enum Key {
    Num1,
    Num2,
    Num3,
    Num4,
    Q,
    W,
    E,
    R,
    A,
    S,
    D,
    F,
    Z,
    X,
    C,
    V,
    /// The key that closes the window.
    Escape,
    /// Any other key.
    Other,
}

/// An event of the window, as far as the machine is concerned.
#[derive(Clone, Copy, Debug, PartialEq, Eq, Structural)]
pub enum InputEvent {
    /// The window was asked to close.
    Quit,
    /// A key went down.
    KeyDown(Key),
    /// A key came up.
    KeyUp(Key),
    /// Anything else.
    Other,
}

/// What the front end does about an event.
#[derive(Clone, Copy, Debug, PartialEq, Eq, Structural)]
pub enum InputAction {
    /// Stop running.
    Stop,
    /// Set the state of the machine's key with this index.
    SetKey(u8, bool),
    /// Nothing.
    Ignore,
}

/// The keyboard keys that stand for the machine's sixteen keys, in the order
/// of the machine's key indices: four rows of the keyboard, left to right.
pub open spec fn key_layout() -> Seq<Key> {
    seq![
        Key::Num1, Key::Num2, Key::Num3, Key::Num4,
        Key::Q, Key::W, Key::E, Key::R,
        Key::A, Key::S, Key::D, Key::F,
        Key::Z, Key::X, Key::C, Key::V,
    ]
}

/// Whether a keyboard key stands for one of the machine's keys.
pub open spec fn is_mapped(key: Key) -> bool {
    exists|index: int| 0 <= index < 16 && #[trigger] key_layout()[index] == key
}

/// What an event asks for: closing the window or pressing escape stops the
/// front end, a mapped key going down or coming up sets the machine's key,
/// and everything else is ignored.
pub open spec fn action_matches(event: InputEvent, action: InputAction) -> bool {
    match event {
        InputEvent::Quit => action == InputAction::Stop,
        InputEvent::KeyDown(Key::Escape) => action == InputAction::Stop,
        InputEvent::KeyDown(key) => if is_mapped(key) {
            action matches InputAction::SetKey(index, pressed) && pressed && index < 16
                && key_layout()[index as int] == key
        } else {
            action == InputAction::Ignore
        },
        InputEvent::KeyUp(key) => if is_mapped(key) {
            action matches InputAction::SetKey(index, pressed) && !pressed && index < 16
                && key_layout()[index as int] == key
        } else {
            action == InputAction::Ignore
        },
        InputEvent::Other => action == InputAction::Ignore,
    }
}

/// The index of the machine's key that a keyboard key stands for, if any.
pub fn key_index(key: Key) -> (index: Option<u8>)
    ensures
        index matches Some(i) ==> i < 16 && key_layout()[i as int] == key,
        index is None ==> !is_mapped(key),
{
    let index = match key {
        Key::Num1 => Some(0u8),
        Key::Num2 => Some(1u8),
        Key::Num3 => Some(2u8),
        Key::Num4 => Some(3u8),
        Key::Q => Some(4u8),
        Key::W => Some(5u8),
        Key::E => Some(6u8),
        Key::R => Some(7u8),
        Key::A => Some(8u8),
        Key::S => Some(9u8),
        Key::D => Some(10u8),
        Key::F => Some(11u8),
        Key::Z => Some(12u8),
        Key::X => Some(13u8),
        Key::C => Some(14u8),
        Key::V => Some(15u8),
        Key::Escape => None,
        Key::Other => None,
    };
    proof {
        let layout = key_layout();
        assert(layout[0] == Key::Num1 && layout[1] == Key::Num2 && layout[2] == Key::Num3
            && layout[3] == Key::Num4);
        assert(layout[4] == Key::Q && layout[5] == Key::W && layout[6] == Key::E && layout[7]
            == Key::R);
        assert(layout[8] == Key::A && layout[9] == Key::S && layout[10] == Key::D && layout[11]
            == Key::F);
        assert(layout[12] == Key::Z && layout[13] == Key::X && layout[14] == Key::C && layout[15]
            == Key::V);
    }
    index
}

/// Decides what to do about one event of the window.
pub fn handle_event(event: InputEvent) -> (action: InputAction)
    ensures
        action_matches(event, action),
{
    match event {
        InputEvent::Quit => InputAction::Stop,
        InputEvent::KeyDown(Key::Escape) => InputAction::Stop,
        InputEvent::KeyDown(key) => match key_index(key) {
            Some(index) => InputAction::SetKey(index, true),
            None => InputAction::Ignore,
        },
        InputEvent::KeyUp(key) => match key_index(key) {
            Some(index) => InputAction::SetKey(index, false),
            None => InputAction::Ignore,
        },
        InputEvent::Other => InputAction::Ignore,
    }
}

/// No two of the machine's keys share a keyboard key, so the index that an
/// event sets is the only one that its key stands for.
pub proof fn lemma_key_layout_injective(first: int, second: int)
    requires
        0 <= first < 16,
        0 <= second < 16,
        key_layout()[first] == key_layout()[second],
    ensures
        first == second,
{
    let layout = key_layout();
    assert(layout[0] == Key::Num1 && layout[1] == Key::Num2 && layout[2] == Key::Num3 && layout[3]
        == Key::Num4);
    assert(layout[4] == Key::Q && layout[5] == Key::W && layout[6] == Key::E && layout[7]
        == Key::R);
    assert(layout[8] == Key::A && layout[9] == Key::S && layout[10] == Key::D && layout[11]
        == Key::F);
    assert(layout[12] == Key::Z && layout[13] == Key::X && layout[14] == Key::C && layout[15]
        == Key::V);
}

/// The side, in window pixels, of the square that shows one pixel of the
/// framebuffer.
pub const PIXEL_SIZE: u32 = 10;

/// A rectangle of the window.
#[derive(Clone, Copy, Debug, PartialEq, Eq, Structural)]
pub struct Rectangle {
    /// Left edge.
    pub x: i32,
    /// Top edge.
    pub y: i32,
    /// Width.
    pub width: u32,
    /// Height.
    pub height: u32,
}

/// The square of the window that shows the pixel in column `x` of row `y`.
pub open spec fn pixel_rectangle(x: int, y: int) -> Rectangle {
    Rectangle {
        x: (x * PIXEL_SIZE) as i32,
        y: (y * PIXEL_SIZE) as i32,
        width: PIXEL_SIZE,
        height: PIXEL_SIZE,
    }
}

/// The squares of the lit pixels among the first `count` pixels of the
/// framebuffer, counted column by column from the left and down each column.
pub open spec fn lit_rectangles_among(display: Seq<Seq<bool>>, count: int) -> Seq<Rectangle>
    decreases count,
{
    if count <= 0 {
        Seq::empty()
    } else {
        let earlier = lit_rectangles_among(display, count - 1);
        let x = (count - 1) / 32;
        let y = (count - 1) % 32;
        if display[y][x] {
            earlier.push(pixel_rectangle(x, y))
        } else {
            earlier
        }
    }
}

/// The rows of a framebuffer as sequences.
pub open spec fn rows_of(display: &[[bool; 64]; 32]) -> Seq<Seq<bool>> {
    Seq::new(32, |y: int| display@[y]@)
}

/// The squares of the window to fill for a framebuffer: one for each lit
/// pixel, column by column from the left and down each column.
pub fn lit_rectangles(display: &[[bool; 64]; 32]) -> (rectangles: Vec<Rectangle>)
    ensures
        rectangles@ == lit_rectangles_among(rows_of(display), 2048),
{
    let mut rectangles: Vec<Rectangle> = Vec::new();
    let mut x: usize = 0;
    while x < 64
        invariant
            x <= 64,
            rectangles@ == lit_rectangles_among(rows_of(display), x * 32),
        decreases 64 - x,
    {
        let mut y: usize = 0;
        while y < 32
            invariant
                x < 64,
                y <= 32,
                rectangles@ == lit_rectangles_among(rows_of(display), x * 32 + y),
            decreases 32 - y,
        {
            if display[y][x] {
                rectangles.push(
                    Rectangle {
                        x: x as i32 * PIXEL_SIZE as i32,
                        y: y as i32 * PIXEL_SIZE as i32,
                        width: PIXEL_SIZE,
                        height: PIXEL_SIZE,
                    },
                );
            }
            proof {
                let count = x * 32 + y + 1;
                assert((count - 1) / 32 == x && (count - 1) % 32 == y);
                assert(rows_of(display)[y as int][x as int] == display@[y as int]@[x as int]);
            }
            y += 1;
        }
        x += 1;
    }
    rectangles
}

} // verus!
