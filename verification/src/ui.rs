//! What the host interface decides: which key of the keyboard is which key
//! of the keypad, where the lit pixels go on the screen, when a frame is
//! due, and when the tone has to be switched.

use vstd::prelude::*;
use crate::framebuffer::{grid_of, Frame};

verus! {

/// The side of the square, in screen points, that one pixel takes up.
pub const PIXEL_SIZE: u32 = 14;

/// The width of the gap left around the lit part of a pixel.
pub const BORDER_SIZE: u32 = 1;

/// The side of the lit part of a pixel.
pub const PIXEL_INNER_SIZE: u32 = 12;

/// The width of the screen in points.
pub const SCREEN_WIDTH: u32 = 896;

/// The height of the screen in points.
pub const SCREEN_HEIGHT: u32 = 448;

/// What the host's input means to the machine.
#[derive(Clone, Copy, Debug, PartialEq, Eq, Structural)]
pub enum Event {
    /// The key of the keypad with this index went down.
    KeyPress(u8),
    /// The key of the keypad with this index went up.
    KeyUnpress(u8),
    /// The user wants to leave.
    Quit,
}

/// The keys of the host keyboard that mean something to the emulator.
#[derive(Clone, Copy, Debug, PartialEq, Eq, Structural)]
pub enum Keycode {
    Num1,
    Num2,
    Num3,
    Num4,
    Q,
    W,
    E,
    R,
    A,
    S,
    D,
    F,
    Z,
    X,
    C,
    V,
    Space,
    /// Any other key.
    Other,
}

/// An event of the host, reduced to what the mapping reads of it.
#[derive(Clone, Copy, Debug, PartialEq, Eq, Structural)]
pub enum HostEvent {
    /// The window was closed.
    Quit,
    /// A key went down; `repeat` tells a key held down from a fresh press.
    KeyDown { keycode: Option<Keycode>, repeat: bool },
    /// A key went up.
    KeyUp { keycode: Option<Keycode>, repeat: bool },
    /// Anything else.
    Other,
}

/// The key of the keypad that a key of the keyboard stands for. The left
/// four columns of the keyboard's four upper rows mirror the keypad:
///
/// ```text
/// 1 2 3 4      1 2 3 C
/// Q W E R  ->  4 5 6 D
/// A S D F      7 8 9 E
/// Z X C V      A 0 B F
/// ```
pub open spec fn keypad_index(key: Keycode) -> Option<u8> {
    match key {
        Keycode::Num1 => Some(0x1u8),
        Keycode::Num2 => Some(0x2u8),
        Keycode::Num3 => Some(0x3u8),
        Keycode::Num4 => Some(0xCu8),
        Keycode::Q => Some(0x4u8),
        Keycode::W => Some(0x5u8),
        Keycode::E => Some(0x6u8),
        Keycode::R => Some(0xDu8),
        Keycode::A => Some(0x7u8),
        Keycode::S => Some(0x8u8),
        Keycode::D => Some(0x9u8),
        Keycode::F => Some(0xEu8),
        Keycode::Z => Some(0xAu8),
        Keycode::X => Some(0x0u8),
        Keycode::C => Some(0xBu8),
        Keycode::V => Some(0xFu8),
        Keycode::Space => None,
        Keycode::Other => None,
    }
}

/// What a host event means to the machine, if anything: closing the window
/// or a fresh press of the space bar quits, a fresh press or release of a
/// mapped key presses or releases its key of the keypad, and everything
/// else, repeats included, means nothing.
pub open spec fn event_of(host: Option<HostEvent>) -> Option<Event> {
    match host {
        Some(HostEvent::Quit) => Some(Event::Quit),
        Some(HostEvent::KeyDown { keycode: Some(key), repeat }) => {
            if repeat {
                None
            } else if key == Keycode::Space {
                Some(Event::Quit)
            } else {
                match keypad_index(key) {
                    Some(k) => Some(Event::KeyPress(k)),
                    None => None,
                }
            }
        },
        Some(HostEvent::KeyUp { keycode: Some(key), repeat }) => {
            if repeat {
                None
            } else {
                match keypad_index(key) {
                    Some(k) => Some(Event::KeyUnpress(k)),
                    None => None,
                }
            }
        },
        _ => None,
    }
}

/// The key of the keypad that `key` stands for.
pub fn keypad_key(key: Keycode) -> (r: Option<u8>)
    ensures
        r == keypad_index(key),
        r matches Some(k) ==> k < 16,
{
    match key {
        Keycode::X => Some(0x0),
        Keycode::Num1 => Some(0x1),
        Keycode::Num2 => Some(0x2),
        Keycode::Num3 => Some(0x3),
        Keycode::Q => Some(0x4),
        Keycode::W => Some(0x5),
        Keycode::E => Some(0x6),
        Keycode::A => Some(0x7),
        Keycode::S => Some(0x8),
        Keycode::D => Some(0x9),
        Keycode::Z => Some(0xA),
        Keycode::C => Some(0xB),
        Keycode::Num4 => Some(0xC),
        Keycode::R => Some(0xD),
        Keycode::F => Some(0xE),
        Keycode::V => Some(0xF),
        _ => None,
    }
}

/// Tells what a host event, or the lack of one, means to the machine.
pub fn match_event(host: Option<HostEvent>) -> (r: Option<Event>)
    ensures
        r == event_of(host),
        r matches Some(Event::KeyPress(k)) ==> k < 16,
        r matches Some(Event::KeyUnpress(k)) ==> k < 16,
{
    match host {
        Some(HostEvent::Quit) => Some(Event::Quit),
        Some(HostEvent::KeyDown { keycode: Some(key), repeat: false }) => {
            if key == Keycode::Space {
                return Some(Event::Quit);
            }
            match keypad_key(key) {
                Some(k) => Some(Event::KeyPress(k)),
                None => None,
            }
        },
        Some(HostEvent::KeyUp { keycode: Some(key), repeat: false }) => {
            match keypad_key(key) {
                Some(k) => Some(Event::KeyUnpress(k)),
                None => None,
            }
        },
        _ => None,
    }
}

/// Every key of the keypad has exactly one key of the keyboard.
pub proof fn lemma_keypad_covered(k: u8)
    requires
        k < 16,
    ensures
        exists|key: Keycode| keypad_index(key) == Some(k),
        forall|a: Keycode, b: Keycode|
            keypad_index(a) == Some(k) && keypad_index(b) == Some(k) ==> a == b,
{
    let key = if k == 0 {
        Keycode::X
    } else if k == 1 {
        Keycode::Num1
    } else if k == 2 {
        Keycode::Num2
    } else if k == 3 {
        Keycode::Num3
    } else if k == 4 {
        Keycode::Q
    } else if k == 5 {
        Keycode::W
    } else if k == 6 {
        Keycode::E
    } else if k == 7 {
        Keycode::A
    } else if k == 8 {
        Keycode::S
    } else if k == 9 {
        Keycode::D
    } else if k == 10 {
        Keycode::Z
    } else if k == 11 {
        Keycode::C
    } else if k == 12 {
        Keycode::Num4
    } else if k == 13 {
        Keycode::R
    } else if k == 14 {
        Keycode::F
    } else {
        Keycode::V
    };
    assert(keypad_index(key) == Some(k));
}

/// A rectangle of the screen: its top left corner, width and height.
#[derive(Clone, Copy, Debug, PartialEq, Eq, Structural)]
pub struct PixelRect {
    pub x: i32,
    pub y: i32,
    pub w: u32,
    pub h: u32,
}

/// The rectangle that the pixel in row `row`, column `col`, lights up.
pub open spec fn rect_at(row: int, col: int) -> PixelRect {
    PixelRect {
        x: (PIXEL_SIZE * col + BORDER_SIZE) as i32,
        y: (PIXEL_SIZE * row + BORDER_SIZE) as i32,
        w: PIXEL_INNER_SIZE,
        h: PIXEL_INNER_SIZE,
    }
}

/// The rectangles of the lit ones among the first `n` cells of `grid`,
/// counted row by row.
pub open spec fn lit_rects_upto(grid: Seq<Seq<u32>>, n: int) -> Seq<PixelRect>
    decreases n,
{
    if n <= 0 {
        Seq::empty()
    } else {
        let before = lit_rects_upto(grid, n - 1);
        let row = (n - 1) / 64;
        let col = (n - 1) % 64;
        if grid[row][col] != 0 {
            before.push(rect_at(row, col))
        } else {
            before
        }
    }
}

/// The rectangles to fill for `frame`: one for each lit pixel, row by row
/// and within a row from left to right.
pub fn lit_rects(frame: &Frame) -> (rects: Vec<PixelRect>)
    ensures
        rects@ == lit_rects_upto(grid_of(*frame), 2048),
{
    let mut rects: Vec<PixelRect> = Vec::new();
    let mut i: usize = 0;
    while i < 32
        invariant
            i <= 32,
            rects@ == lit_rects_upto(grid_of(*frame), 64 * i),
        decreases 32 - i,
    {
        let mut j: usize = 0;
        while j < 64
            invariant
                i < 32,
                j <= 64,
                rects@ == lit_rects_upto(grid_of(*frame), 64 * i + j),
            decreases 64 - j,
        {
            if frame[i][j] != 0 {
                let x: i32 = (PIXEL_SIZE * (j as u32) + BORDER_SIZE) as i32;
                let y: i32 = (PIXEL_SIZE * (i as u32) + BORDER_SIZE) as i32;
                rects.push(PixelRect { x, y, w: PIXEL_INNER_SIZE, h: PIXEL_INNER_SIZE });
            }
            assert((64 * i + j) / 64 == i && (64 * i + j) % 64 == j);
            j = j + 1;
        }
        i = i + 1;
    }
    rects
}

/// Every rectangle of a frame lies on the screen.
pub proof fn lemma_rect_on_screen(row: int, col: int)
    requires
        0 <= row < 32,
        0 <= col < 64,
    ensures
        0 <= rect_at(row, col).x,
        rect_at(row, col).x + rect_at(row, col).w <= SCREEN_WIDTH,
        0 <= rect_at(row, col).y,
        rect_at(row, col).y + rect_at(row, col).h <= SCREEN_HEIGHT,
{
}

/// The milliseconds that the frames of one cycle of three last: 50 in all,
/// for 60 frames a second.
pub open spec fn frame_interval(idx: int) -> u32 {
    if idx == 2 {
        16
    } else {
        17
    }
}

/// The interval that follows interval `idx`.
pub open spec fn next_interval(idx: u8) -> u8 {
    if idx >= 2 {
        0
    } else {
        (idx + 1) as u8
    }
}

/// Decides, from the host's millisecond clock, when the next frame is due.
#[derive(Clone, Copy, Debug, PartialEq, Eq, Structural)]
pub struct FrameClock {
    /// The clock at the last frame.
    pub last_frame_ms: u32,
    /// Which of the three intervals runs.
    pub frame_idx: u8,
}

impl FrameClock {
    /// A clock whose first interval starts at `now_ms`.
    pub fn new(now_ms: u32) -> (c: FrameClock)
        ensures
            c.last_frame_ms == now_ms,
            c.frame_idx == 0,
    {
        FrameClock { last_frame_ms: now_ms, frame_idx: 0 }
    }

    /// The time from the last frame to `now_ms` on a clock that wraps round
    /// at 2^32.
    pub open spec fn elapsed(self, now_ms: u32) -> int {
        (now_ms - self.last_frame_ms) % 0x1_0000_0000
    }

    /// Whether a frame is due at `now_ms`: more than the running interval
    /// has passed since the last one.
    pub open spec fn due(self, now_ms: u32) -> bool {
        self.elapsed(now_ms) > frame_interval(self.frame_idx as int)
    }

    /// Tells whether a frame is due at `now_ms`. If so, the next interval
    /// starts at `now_ms`; if not, nothing changes.
    pub fn frame_sync(&mut self, now_ms: u32) -> (sync: bool)
        ensures
            sync == old(self).due(now_ms),
            sync ==> final(self).last_frame_ms == now_ms && final(self).frame_idx == next_interval(
                old(self).frame_idx,
            ),
            !sync ==> *final(self) == *old(self),
    {
        let interval: u32 = if self.frame_idx == 2 { 16 } else { 17 };
        let sync = now_ms.wrapping_sub(self.last_frame_ms) > interval;
        if sync {
            self.last_frame_ms = now_ms;
            self.frame_idx = if self.frame_idx >= 2 { 0 } else { self.frame_idx + 1 };
        }
        sync
    }
}

/// The three intervals follow each other in a circle.
pub proof fn lemma_intervals_cycle(idx: u8)
    requires
        idx < 3,
    ensures
        next_interval(idx) == (idx + 1) % 3,
        next_interval(next_interval(next_interval(idx))) == idx,
        frame_interval(idx as int) + frame_interval(next_interval(idx) as int) + frame_interval(
            next_interval(next_interval(idx)) as int,
        ) == 50,
{
}

/// What the host has to do to the tone.
#[derive(Clone, Copy, Debug, PartialEq, Eq, Structural)]
pub enum ToneAction {
    /// Start the tone.
    Resume,
    /// Stop the tone.
    Pause,
    /// Leave the tone as it is.
    Keep,
}

/// Remembers whether the tone sounds, so that the host's audio device is
/// touched only when that changes.
#[derive(Clone, Copy, Debug, PartialEq, Eq, Structural)]
pub struct ToneSwitch {
    /// Whether the tone sounds.
    pub is_on: bool,
}

impl ToneSwitch {
    /// A switch for a silent device.
    pub fn new() -> (s: ToneSwitch)
        ensures
            !s.is_on,
    {
        ToneSwitch { is_on: false }
    }

    /// The tone is wanted: the device is to be resumed unless it sounds.
    pub fn on(&mut self) -> (action: ToneAction)
        ensures
            final(self).is_on,
            action == if old(self).is_on {
                ToneAction::Keep
            } else {
                ToneAction::Resume
            },
    {
        if self.is_on {
            return ToneAction::Keep;
        }
        self.is_on = true;
        ToneAction::Resume
    }

    /// The tone is not wanted: the device is to be paused if it sounds.
    pub fn off(&mut self) -> (action: ToneAction)
        ensures
            !final(self).is_on,
            action == if old(self).is_on {
                ToneAction::Pause
            } else {
                ToneAction::Keep
            },
    {
        if !self.is_on {
            return ToneAction::Keep;
        }
        self.is_on = false;
        ToneAction::Pause
    }
}

} // verus!
