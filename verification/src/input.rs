use vstd::prelude::*;

verus! {

/// The buttons and directions of the console, each a bit (or, for the
/// generic directions, the two bits of the pad and the circle pad).
#[derive(Clone, Copy, Debug, PartialEq, Eq, Structural)]
pub enum InputBits {
    KeyA,
    KeyB,
    KeySelect,
    KeyStart,
    KeyDRight,
    KeyDLeft,
    KeyDUp,
    KeyDDown,
    KeyR,
    KeyL,
    KeyX,
    KeyY,
    KeyTouch,
    KeyCPadRight,
    KeyCPadLeft,
    KeyCPadUp,
    KeyCPadDown,
    KeyUp,
    KeyDown,
    KeyLeft,
    KeyRight,
}

/// The bit mask of a button or direction.
pub open spec fn input_mask(b: InputBits) -> u32 {
    match b {
        InputBits::KeyA => 1u32 << 0u32,
        InputBits::KeyB => 1u32 << 1u32,
        InputBits::KeySelect => 1u32 << 2u32,
        InputBits::KeyStart => 1u32 << 3u32,
        InputBits::KeyDRight => 1u32 << 4u32,
        InputBits::KeyDLeft => 1u32 << 5u32,
        InputBits::KeyDUp => 1u32 << 6u32,
        InputBits::KeyDDown => 1u32 << 7u32,
        InputBits::KeyR => 1u32 << 8u32,
        InputBits::KeyL => 1u32 << 9u32,
        InputBits::KeyX => 1u32 << 10u32,
        InputBits::KeyY => 1u32 << 11u32,
        InputBits::KeyTouch => 1u32 << 20u32,
        InputBits::KeyCPadRight => 1u32 << 28u32,
        InputBits::KeyCPadLeft => 1u32 << 29u32,
        InputBits::KeyCPadUp => 1u32 << 30u32,
        InputBits::KeyCPadDown => 1u32 << 31u32,
        InputBits::KeyUp => (1u32 << 6u32) | (1u32 << 30u32),
        InputBits::KeyDown => (1u32 << 7u32) | (1u32 << 31u32),
        InputBits::KeyLeft => (1u32 << 5u32) | (1u32 << 29u32),
        InputBits::KeyRight => (1u32 << 4u32) | (1u32 << 28u32),
    }
}

/// The single buttons and pad directions, each one bit of the console's
/// button state: everything but the generic directions.
pub open spec fn is_single(b: InputBits) -> bool {
    !(b is KeyUp || b is KeyDown || b is KeyLeft || b is KeyRight)
}

/// The position of the console's bit for a single button.
pub open spec fn console_bit(b: InputBits) -> u32 {
    match b {
        InputBits::KeyA => 0,
        InputBits::KeyB => 1,
        InputBits::KeySelect => 2,
        InputBits::KeyStart => 3,
        InputBits::KeyDRight => 4,
        InputBits::KeyDLeft => 5,
        InputBits::KeyDUp => 6,
        InputBits::KeyDDown => 7,
        InputBits::KeyR => 8,
        InputBits::KeyL => 9,
        InputBits::KeyX => 10,
        InputBits::KeyY => 11,
        InputBits::KeyTouch => 20,
        InputBits::KeyCPadRight => 28,
        InputBits::KeyCPadLeft => 29,
        InputBits::KeyCPadUp => 30,
        _ => 31,
    }
}

/// Two different bits below 32 are two different, non-overlapping masks.
proof fn lemma_one_bit(k: u32, j: u32)
    by (bit_vector)
    requires
        k < 32,
        j < 32,
    ensures
        (1u32 << k) != 0,
        k != j ==> (1u32 << k) & (1u32 << j) == 0,
{
}

/// The console's button bits: A, B, Select and Start are bits 0 to 3 (Start
/// is 8, Select 4), and so on as the console numbers them; each single
/// button is one bit and no two share one; each generic direction is the
/// pad's and the circle pad's bits together.
pub proof fn lemma_button_masks()
    ensures
        input_mask(InputBits::KeyA) == 1,
        input_mask(InputBits::KeyB) == 2,
        input_mask(InputBits::KeySelect) == 4,
        input_mask(InputBits::KeyStart) == 8,
        forall|b: InputBits| is_single(b) ==> #[trigger] input_mask(b) == 1u32 << console_bit(b),
        forall|b: InputBits| is_single(b) ==> #[trigger] input_mask(b) != 0,
        forall|a: InputBits, b: InputBits|
            is_single(a) && is_single(b) && a != b ==> #[trigger] input_mask(a) & #[trigger] input_mask(b)
                == 0,
        input_mask(InputBits::KeyUp) == input_mask(InputBits::KeyDUp) | input_mask(InputBits::KeyCPadUp),
        input_mask(InputBits::KeyDown) == input_mask(InputBits::KeyDDown) | input_mask(
            InputBits::KeyCPadDown,
        ),
        input_mask(InputBits::KeyLeft) == input_mask(InputBits::KeyDLeft) | input_mask(
            InputBits::KeyCPadLeft,
        ),
        input_mask(InputBits::KeyRight) == input_mask(InputBits::KeyDRight) | input_mask(
            InputBits::KeyCPadRight,
        ),
{
    assert((1u32 << 0u32) == 1u32 && (1u32 << 1u32) == 2u32 && (1u32 << 2u32) == 4u32 && (1u32 << 3u32)
        == 8u32) by (bit_vector);
    assert forall|b: InputBits| is_single(b) implies #[trigger] input_mask(b) != 0 by {
        lemma_one_bit(console_bit(b), 0);
    }
    assert forall|a: InputBits, b: InputBits|
        is_single(a) && is_single(b) && a != b implies #[trigger] input_mask(a) & #[trigger] input_mask(b) == 0 by {
        lemma_one_bit(console_bit(a), console_bit(b));
    }
}

impl InputBits {
    /// The bit mask of the button or direction.
    pub fn bits(self) -> (m: u32)
        ensures
            m == input_mask(self),
    {
        match self {
            InputBits::KeyA => 1u32 << 0u32,
            InputBits::KeyB => 1u32 << 1u32,
            InputBits::KeySelect => 1u32 << 2u32,
            InputBits::KeyStart => 1u32 << 3u32,
            InputBits::KeyDRight => 1u32 << 4u32,
            InputBits::KeyDLeft => 1u32 << 5u32,
            InputBits::KeyDUp => 1u32 << 6u32,
            InputBits::KeyDDown => 1u32 << 7u32,
            InputBits::KeyR => 1u32 << 8u32,
            InputBits::KeyL => 1u32 << 9u32,
            InputBits::KeyX => 1u32 << 10u32,
            InputBits::KeyY => 1u32 << 11u32,
            InputBits::KeyTouch => 1u32 << 20u32,
            InputBits::KeyCPadRight => 1u32 << 28u32,
            InputBits::KeyCPadLeft => 1u32 << 29u32,
            InputBits::KeyCPadUp => 1u32 << 30u32,
            InputBits::KeyCPadDown => 1u32 << 31u32,
            InputBits::KeyUp => (1u32 << 6u32) | (1u32 << 30u32),
            InputBits::KeyDown => (1u32 << 7u32) | (1u32 << 31u32),
            InputBits::KeyLeft => (1u32 << 5u32) | (1u32 << 29u32),
            InputBits::KeyRight => (1u32 << 4u32) | (1u32 << 28u32),
        }
    }
}

/// The buttons held, pressed this frame and released this frame, as bit masks.
#[derive(Clone, Copy, Debug, PartialEq, Eq, Structural)]
pub struct InputState {
    keys_held: u32,
    keys_down: u32,
    keys_up: u32,
}

impl InputState {
    pub closed spec fn held(&self) -> u32 {
        self.keys_held
    }

    pub closed spec fn down(&self) -> u32 {
        self.keys_down
    }

    pub closed spec fn up(&self) -> u32 {
        self.keys_up
    }

    /// The state with the given masks.
    pub fn new(keys_held: u32, keys_down: u32, keys_up: u32) -> (out: Self)
        ensures
            out.held() == keys_held,
            out.down() == keys_down,
            out.up() == keys_up,
    {
        InputState { keys_held, keys_down, keys_up }
    }

    /// No button held, pressed or released.
    pub fn zero() -> (out: Self)
        ensures
            out.held() == 0 && out.down() == 0 && out.up() == 0,
    {
        InputState { keys_held: 0, keys_down: 0, keys_up: 0 }
    }

    /// Whether Start was pressed this frame.
    pub fn start_pressed(&self) -> (b: bool)
        ensures
            b == (self.down() & input_mask(InputBits::KeyStart) != 0),
    {
        self.keys_down & InputBits::KeyStart.bits() != 0
    }
}

/// What a platform provides to the engine to read the buttons.
pub trait InputManager {
    /// Reads the buttons for this frame.
    fn scan(&mut self) -> InputState;

    /// Whether the application should keep running.
    fn should_continue(&self) -> bool;
}

} // verus!
