//! What the window loop decides between two polls of the host window.

use vstd::prelude::*;
use crate::cli::Color;
use crate::cli::color_label;
use crate::frame::frame_covers;
use crate::frame::pixel_index;
use crate::frame::update_buffer;

verus! {

/// The width and the height that the window is opened with.
pub const INITIAL_SIZE: (usize, usize) = (300, 300);

/// A key of the host keyboard, as far as the window loop tells keys apart.
#[derive(Clone, Copy, Debug, PartialEq, Eq, Structural)]
pub enum KeyKind {
    /// The key `Q`.
    Quit,
    /// The left or the right shift key.
    Shift,
    /// Any other key.
    Other,
}

/// Whether the pressed keys ask for the window to close: `Q` together with
/// a shift key.
pub open spec fn kill_chord(keys: Seq<KeyKind>) -> bool {
    keys.contains(KeyKind::Quit) && keys.contains(KeyKind::Shift)
}

/// Whether the pressed keys ask for the window to close.
pub fn kill_keys_pressed(keys: &[KeyKind]) -> (kill: bool)
    ensures
        kill == kill_chord(keys@),
{
    let mut quit = false;
    let mut shift = false;
    let mut i: usize = 0;
    while i < keys.len()
        invariant
            i <= keys@.len(),
            quit == keys@.take(i as int).contains(KeyKind::Quit),
            shift == keys@.take(i as int).contains(KeyKind::Shift),
        decreases keys@.len() - i,
    {
        let ghost seen = keys@.take(i as int);
        let ghost next = keys@.take(i + 1);
        assert(next =~= seen.push(keys@[i as int]));
        assert(forall|k: KeyKind| next.contains(k) <==> seen.contains(k) || k == keys@[i as int]) by {
            assert forall|k: KeyKind| next.contains(k) implies seen.contains(k) || k == keys@[i as int] by {
                let j = choose|j: int| 0 <= j < next.len() && next[j] == k;
                if j < i {
                    assert(seen[j] == k);
                }
            }
            assert forall|k: KeyKind| seen.contains(k) || k == keys@[i as int] implies next.contains(
                k,
            ) by {
                if seen.contains(k) {
                    let j = choose|j: int| 0 <= j < seen.len() && seen[j] == k;
                    assert(next[j] == k);
                } else {
                    assert(next[i as int] == k);
                }
            }
        }
        match keys[i] {
            KeyKind::Quit => {
                quit = true;
            },
            KeyKind::Shift => {
                shift = true;
            },
            KeyKind::Other => {},
        }
        i += 1;
    }
    assert(keys@.take(keys@.len() as int) =~= keys@);
    quit && shift
}

/// What the window loop does after a poll.
#[derive(Clone, Copy, Debug, PartialEq, Eq, Structural)]
pub enum FrameAction {
    /// Leave the loop and close the window.
    Quit,
    /// Paint a frame for the size and focus now held, and present it.
    Redraw,
    /// Nothing changed: present nothing.
    Idle,
}

/// What the window loop remembers between polls: the canvas size and the
/// focus that the last frame was painted for, and whether a frame is due
/// whatever the next poll reports.
#[derive(Clone, Copy, Debug, PartialEq, Eq)]
pub struct WindowState {
    pub size: (usize, usize),
    pub is_focused: bool,
    pub redraw: bool,
}

impl WindowState {
    /// The state before the first poll: the initial size, focused, and a
    /// frame due.
    pub fn new() -> (state: WindowState)
        ensures
            state == (WindowState { size: INITIAL_SIZE, is_focused: true, redraw: true }),
    {
        WindowState { size: INITIAL_SIZE, is_focused: true, redraw: true }
    }

    /// Whether a poll that reports `size` and `is_focused` calls for a new
    /// frame: one is due already, or the size or the focus has changed.
    pub open spec fn is_dirty(self, size: (usize, usize), is_focused: bool) -> bool {
        self.redraw || size != self.size || is_focused != self.is_focused
    }

    /// Takes in one poll of the host window. The kill chord ends the loop
    /// and leaves the state as it is. Otherwise the state takes over the
    /// reported size and focus with no frame due, and the action says
    /// whether a frame has to be painted for them.
    pub fn observe(&mut self, keys: &[KeyKind], size: (usize, usize), is_focused: bool) -> (action:
        FrameAction)
        ensures
            kill_chord(keys@) ==> action == FrameAction::Quit && *final(self) == *old(self),
            !kill_chord(keys@) ==> {
                &&& *final(self) == (WindowState { size, is_focused, redraw: false })
                &&& action == if old(self).is_dirty(size, is_focused) {
                    FrameAction::Redraw
                } else {
                    FrameAction::Idle
                }
            },
    {
        if kill_keys_pressed(keys) {
            return FrameAction::Quit;
        }
        let mut redraw = self.redraw;
        if size.0 != self.size.0 || size.1 != self.size.1 {
            self.size = size;
            redraw = true;
        }
        if is_focused != self.is_focused {
            self.is_focused = is_focused;
            redraw = true;
        }
        self.redraw = false;
        if redraw {
            FrameAction::Redraw
        } else {
            FrameAction::Idle
        }
    }
}

/// `Vec::capacity` gives the number of elements that the vector can hold
/// without allocating again. Nothing is claimed of it.
#[verifier::external_body]
fn capacity_of(buffer: &Vec<u32>) -> (capacity: usize) {
    buffer.capacity()
}

/// `Vec::shrink_to_fit` gives spare capacity back and keeps the elements.
#[verifier::external_body]
fn shrink_to_fit(buffer: &mut Vec<u32>)
    ensures
        final(buffer)@ == old(buffer)@,
{
    buffer.shrink_to_fit()
}

/// Whether a canvas of this size can be painted: its sides fit the
/// coordinate type and its pixels can be counted.
pub open spec fn paintable(size: (usize, usize)) -> bool {
    &&& size.0 <= isize::MAX
    &&& size.1 <= isize::MAX
    &&& size.0 * size.1 <= usize::MAX
}

/// Sizes `buffer` to the canvas and paints a frame into it. A buffer that
/// holds more than twice the pixels it needs gives the spare room back. A
/// canvas that cannot be painted leaves the buffer as it is, and `false`
/// is returned.
pub fn render_frame(buffer: &mut Vec<u32>, color: Color, size: (usize, usize), is_focused: bool) -> (painted:
    bool)
    ensures
        painted == paintable(size),
        !painted ==> final(buffer)@ == old(buffer)@,
        painted ==> final(buffer)@.len() == size.0 * size.1,
        painted ==> forall|x: int, y: int|
            0 <= x < size.0 && 0 <= y < size.1 ==> final(buffer)@[#[trigger] pixel_index(
                size.0 as int,
                x,
                y,
            )] == if frame_covers(size.0 as nat, size.1 as nat, is_focused, x, y) {
                color.foreground
            } else {
                color.background
            },
{
    if size.0 > isize::MAX as usize || size.1 > isize::MAX as usize {
        return false;
    }
    let required_pixels = match size.0.checked_mul(size.1) {
        Some(pixels) => pixels,
        None => {
            return false;
        },
    };
    buffer.clear();
    buffer.resize(required_pixels, color.background);
    let oversized = match required_pixels.checked_mul(2) {
        Some(twice) => capacity_of(buffer) > twice,
        None => false,
    };
    if oversized {
        shrink_to_fit(buffer);
    }
    update_buffer(buffer.as_mut_slice(), color, size, is_focused);
    true
}

/// The title of the window: the one that was asked for, or else the name
/// of the program and the colour pair.
pub open spec fn title_text(color: Color, title_override: Option<Seq<char>>) -> Seq<char> {
    match title_override {
        Some(title) => title,
        None => "window_debug - "@ + color_label(color),
    }
}

/// The title of the window.
pub fn window_title(color: &Color, title_override: Option<&str>) -> (title: String)
    ensures
        title@ == title_text(
            *color,
            match title_override {
                Some(asked) => Some(asked@),
                None => None,
            },
        ),
{
    match title_override {
        Some(asked) => String::from_str(asked),
        None => {
            let label = color.label();
            String::from_str("window_debug - ").concat(label.as_str())
        },
    }
}

} // verus!
