//! What is known of each key and each mouse button from one frame to the
//! next.

use vstd::prelude::*;

verus! {

/// Number of keys, and number of mouse buttons, that are followed.
pub const INPUT_ELEMENTS: usize = 256;

/// The state of a key or of a mouse button.
#[derive(Debug, Clone, Copy, PartialEq, Eq, Structural)]
pub enum InputElementState {
    Released,
    JustPressed,
    Held,
    JustReleased,
}

impl InputElementState {
    /// Whether the element is down.
    pub open spec fn spec_held(self) -> bool {
        self == InputElementState::JustPressed || self == InputElementState::Held
    }

    /// The state after an event that says the element is down (`pressed`)
    /// or up.
    pub open spec fn spec_from_old_new(old: InputElementState, pressed: bool) -> InputElementState {
        if old.spec_held() {
            if pressed {
                InputElementState::Held
            } else {
                InputElementState::JustReleased
            }
        } else {
            if pressed {
                InputElementState::JustPressed
            } else {
                InputElementState::Released
            }
        }
    }

    /// The state in the next frame where no event comes: what was just
    /// pressed is held, what was just released is at rest.
    pub open spec fn spec_settled(self) -> InputElementState {
        match self {
            InputElementState::JustPressed => InputElementState::Held,
            InputElementState::JustReleased => InputElementState::Released,
            _ => self,
        }
    }

    pub fn from_old_new(old: InputElementState, pressed: bool) -> (state: Self)
        ensures
            state == InputElementState::spec_from_old_new(old, pressed),
    {
        if old.held() {
            if pressed {
                Self::Held
            } else {
                Self::JustReleased
            }
        } else {
            if pressed {
                Self::JustPressed
            } else {
                Self::Released
            }
        }
    }

    pub fn held(&self) -> (r: bool)
        ensures
            r == self.spec_held(),
    {
        match self {
            InputElementState::JustPressed | InputElementState::Held => true,
            _ => false,
        }
    }

    /// Whether the state changed in this frame.
    pub fn not_held(&self) -> (r: bool)
        ensures
            r == (*self == InputElementState::JustReleased || *self
                == InputElementState::JustPressed),
    {
        match self {
            InputElementState::JustReleased | InputElementState::JustPressed => true,
            _ => false,
        }
    }

    pub fn just_pressed(&self) -> (r: bool)
        ensures
            r == (*self == InputElementState::JustPressed),
    {
        match self {
            InputElementState::JustPressed => true,
            _ => false,
        }
    }

    pub fn just_released(&self) -> (r: bool)
        ensures
            r == (*self == InputElementState::JustReleased),
    {
        match self {
            InputElementState::JustReleased => true,
            _ => false,
        }
    }

    fn settled(self) -> (state: Self)
        ensures
            state == self.spec_settled(),
    {
        match self {
            InputElementState::JustPressed => InputElementState::Held,
            InputElementState::JustReleased => InputElementState::Released,
            _ => self,
        }
    }
}

/// The states of the keys and of the mouse buttons, and whether the window
/// was asked to close.
#[derive(Clone, Copy)]
pub struct Input {
    keys: [InputElementState; 256],
    buttons: [InputElementState; 256],
    close_requested: bool,
}

/// What the input holds.
pub struct InputView {
    pub keys: Seq<InputElementState>,
    pub buttons: Seq<InputElementState>,
    pub close_requested: bool,
}

impl View for Input {
    type V = InputView;

    closed spec fn view(&self) -> InputView {
        InputView {
            keys: self.keys@,
            buttons: self.buttons@,
            close_requested: self.close_requested,
        }
    }
}

impl Input {
    /// Every key and button at rest.
    pub fn new() -> (input: Self)
        ensures
            input@.keys.len() == INPUT_ELEMENTS,
            input@.buttons.len() == INPUT_ELEMENTS,
            forall|i: int| 0 <= i < INPUT_ELEMENTS ==> #[trigger] input@.keys[i] == InputElementState::Released,
            forall|i: int|
                0 <= i < INPUT_ELEMENTS ==> #[trigger] input@.buttons[i] == InputElementState::Released,
            !input@.close_requested,
    {
        Self {
            keys: [InputElementState::Released;256],
            buttons: [InputElementState::Released;256],
            close_requested: false,
        }
    }

    /// Ends a frame: every key and every button settles.
    pub fn reset_deltas(&mut self)
        ensures
            final(self)@.keys.len() == INPUT_ELEMENTS,
            final(self)@.buttons.len() == INPUT_ELEMENTS,
            forall|i: int|
                0 <= i < INPUT_ELEMENTS ==> #[trigger] final(self)@.keys[i] == old(
                    self,
                )@.keys[i].spec_settled(),
            forall|i: int|
                0 <= i < INPUT_ELEMENTS ==> #[trigger] final(self)@.buttons[i] == old(
                    self,
                )@.buttons[i].spec_settled(),
            final(self)@.close_requested == old(self)@.close_requested,
    {
        let mut i: usize = 0;
        while i < 256
            invariant
                i <= 256,
                self.close_requested == old(self).close_requested,
                forall|k: int| 0 <= k < i ==> #[trigger] self.keys@[k] == old(self).keys@[k].spec_settled(),
                forall|k: int| i <= k < 256 ==> #[trigger] self.keys@[k] == old(self).keys@[k],
                forall|k: int|
                    0 <= k < i ==> #[trigger] self.buttons@[k] == old(self).buttons@[k].spec_settled(),
                forall|k: int| i <= k < 256 ==> #[trigger] self.buttons@[k] == old(self).buttons@[k],
            decreases 256 - i,
        {
            self.keys[i] = self.keys[i].settled();
            self.buttons[i] = self.buttons[i].settled();
            i += 1;
        }
    }

    /// Takes in that the key with number `index` went down (`pressed`) or
    /// up. Says whether there is such a key.
    pub fn key_event(&mut self, index: usize, pressed: bool) -> (known: bool)
        ensures
            known == (index < INPUT_ELEMENTS),
            final(self)@.buttons == old(self)@.buttons,
            final(self)@.close_requested == old(self)@.close_requested,
            final(self)@.keys == if known {
                old(self)@.keys.update(
                    index as int,
                    InputElementState::spec_from_old_new(old(self)@.keys[index as int], pressed),
                )
            } else {
                old(self)@.keys
            },
    {
        if index < 256 {
            self.keys[index] = InputElementState::from_old_new(self.keys[index], pressed);
            true
        } else {
            false
        }
    }

    /// Takes in that the mouse button with number `index` went down
    /// (`pressed`) or up. Says whether there is such a button.
    pub fn button_event(&mut self, index: usize, pressed: bool) -> (known: bool)
        ensures
            known == (index < INPUT_ELEMENTS),
            final(self)@.keys == old(self)@.keys,
            final(self)@.close_requested == old(self)@.close_requested,
            final(self)@.buttons == if known {
                old(self)@.buttons.update(
                    index as int,
                    InputElementState::spec_from_old_new(old(self)@.buttons[index as int], pressed),
                )
            } else {
                old(self)@.buttons
            },
    {
        if index < 256 {
            self.buttons[index] = InputElementState::from_old_new(self.buttons[index], pressed);
            true
        } else {
            false
        }
    }

    /// Takes in that the window was asked to close.
    pub fn request_close(&mut self)
        ensures
            final(self)@.keys == old(self)@.keys,
            final(self)@.buttons == old(self)@.buttons,
            final(self)@.close_requested,
    {
        self.close_requested = true;
    }

    /// The state of the key with number `index`.
    pub fn key(&self, index: usize) -> (state: InputElementState)
        requires
            index < INPUT_ELEMENTS,
        ensures
            state == self@.keys[index as int],
    {
        self.keys[index]
    }

    /// The state of the mouse button with number `index`.
    pub fn button(&self, index: usize) -> (state: InputElementState)
        requires
            index < INPUT_ELEMENTS,
        ensures
            state == self@.buttons[index as int],
    {
        self.buttons[index]
    }

    pub fn close_requested(&self) -> (r: bool)
        ensures
            r == self@.close_requested,
    {
        self.close_requested
    }
}

} // verus!
