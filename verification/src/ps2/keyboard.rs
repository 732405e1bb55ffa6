//! The PS/2 keyboard on the controller's first port, speaking scancode set 2.
//!
//! In set 2 a key press sends the key's make code and a release sends the
//! break prefix 0xF0 followed by the same code. The keyboard keeps whether it
//! has just seen the break prefix, and for each byte received decides whether
//! a key was pressed.

use vstd::prelude::*;

verus! {

/// The byte that announces a key release.
pub const BREAK_PREFIX: u8 = 0xF0;

/// Keyboard command: get or set the scancode set.
pub const GET_SET_SCANCODE_SET: u8 = 0xF0;

/// Keyboard command: enable scanning.
pub const ENABLE_SCANNING: u8 = 0xF4;

/// The scancode set the keyboard is switched to.
pub const SCANCODE_SET: u8 = 2;

/// Whether the keyboard is waiting for a new code or for the code of a key
/// being released.
#[derive(Clone, Copy, PartialEq, Eq, Structural, Debug)]
pub enum State {
    Wait,
    Break,
}

/// One step of setting up the keyboard.
#[derive(Clone, Copy, PartialEq, Eq, Structural, Debug)]
pub enum KeyboardSetup {
    /// Enable the controller's first port, with its interrupt when `true`.
    EnablePort1(bool),
    /// Send a command byte to the device.
    DeviceCommand(u8),
    /// Send a command byte and its argument to the device.
    DeviceCommandWithData(u8, u8),
}

/// The keyboard's reaction to byte `key` in state `state`: the next state and
/// the code of the key pressed, if one was.
pub open spec fn scancode_step(state: State, key: u8) -> (State, Option<u8>) {
    if key == BREAK_PREFIX {
        (State::Break, None)
    } else if state == State::Break {
        (State::Wait, None)
    } else {
        (State::Wait, Some(key))
    }
}

/// The PS/2 keyboard.
pub struct PS2Keyboard {
    state: State,
}

impl PS2Keyboard {
    /// The state of the keyboard.
    pub closed spec fn current(&self) -> State {
        self.state
    }

    /// A keyboard waiting for a new code.
    pub fn new() -> (r: Self)
        ensures
            r.current() == State::Wait,
    {
        PS2Keyboard { state: State::Wait }
    }

    /// The setup steps: enable port 1 with its interrupt, enable scanning,
    /// then select scancode set 2.
    pub fn init(&self) -> (r: Vec<KeyboardSetup>)
        ensures
            r@ == seq![
                KeyboardSetup::EnablePort1(true),
                KeyboardSetup::DeviceCommand(ENABLE_SCANNING),
                KeyboardSetup::DeviceCommandWithData(GET_SET_SCANCODE_SET, SCANCODE_SET),
            ],
    {
        let mut steps: Vec<KeyboardSetup> = Vec::new();
        steps.push(KeyboardSetup::EnablePort1(true));
        steps.push(KeyboardSetup::DeviceCommand(ENABLE_SCANNING));
        steps.push(KeyboardSetup::DeviceCommandWithData(GET_SET_SCANCODE_SET, SCANCODE_SET));
        steps
    }

    /// Handles byte `key` read from the keyboard: the break prefix starts a
    /// release, the code after it ends the release, and any other code is a
    /// key press, whose code is returned for display.
    pub fn irq_handler(&mut self, key: u8) -> (r: Option<u8>)
        ensures
            (final(self).current(), r) == scancode_step(old(self).current(), key),
    {
        if key == BREAK_PREFIX {
            self.state = State::Break;
            return None;
        }
        if self.state == State::Break {
            self.state = State::Wait;
            return None;
        }
        Some(key)
    }
}

/// The state after the bytes of `codes`, and the codes of the keys pressed.
pub open spec fn scancode_run(state: State, codes: Seq<u8>) -> (State, Seq<u8>)
    decreases codes.len(),
{
    if codes.len() == 0 {
        (state, Seq::empty())
    } else {
        let (next, pressed) = scancode_step(state, codes[0]);
        let (last, rest) = scancode_run(next, codes.drop_first());
        (
            last,
            match pressed {
                Some(k) => seq![k] + rest,
                None => rest,
            },
        )
    }
}

/// The bytes a set 2 keyboard sends for key events: `(code, true)` is a
/// press, sent as the code; `(code, false)` a release, sent as the break
/// prefix and the code.
pub open spec fn encode_events(events: Seq<(u8, bool)>) -> Seq<u8>
    decreases events.len(),
{
    if events.len() == 0 {
        Seq::empty()
    } else {
        (if events[0].1 {
            seq![events[0].0]
        } else {
            seq![BREAK_PREFIX, events[0].0]
        }) + encode_events(events.drop_first())
    }
}

/// The codes of the presses among `events`, in order.
pub open spec fn pressed_keys(events: Seq<(u8, bool)>) -> Seq<u8>
    decreases events.len(),
{
    if events.len() == 0 {
        Seq::empty()
    } else {
        (if events[0].1 {
            seq![events[0].0]
        } else {
            Seq::empty()
        }) + pressed_keys(events.drop_first())
    }
}

/// Fed the bytes of any sequence of presses and releases, starting while
/// waiting, the keyboard reports exactly the keys pressed, in order, and
/// ends waiting again.
pub proof fn lemma_reports_presses(events: Seq<(u8, bool)>)
    requires
        forall|i: int| 0 <= i < events.len() ==> events[i].0 != BREAK_PREFIX,
    ensures
        scancode_run(State::Wait, encode_events(events)) == (State::Wait, pressed_keys(events)),
    decreases events.len(),
{
    if events.len() == 0 {
        assert(encode_events(events) == Seq::<u8>::empty());
    } else {
        let rest = events.drop_first();
        assert forall|i: int| 0 <= i < rest.len() implies rest[i].0 != BREAK_PREFIX by {
            assert(rest[i] == events[i + 1]);
        }
        lemma_reports_presses(rest);
        let k = events[0].0;
        let tail = encode_events(rest);
        if events[0].1 {
            let codes = seq![k] + tail;
            assert(codes.drop_first() =~= tail);
            assert(codes[0] == k);
            assert(encode_events(events) == codes);
            assert(pressed_keys(events) == seq![k] + pressed_keys(rest));
            assert(scancode_run(State::Wait, codes) == (
                scancode_run(State::Wait, tail).0,
                seq![k] + scancode_run(State::Wait, tail).1,
            ));
        } else {
            let codes = seq![BREAK_PREFIX, k] + tail;
            assert(codes.drop_first() =~= seq![k] + tail);
            assert((seq![k] + tail).drop_first() =~= tail);
            assert(codes[0] == BREAK_PREFIX);
            assert((seq![k] + tail)[0] == k);
            assert(Seq::<u8>::empty() + pressed_keys(rest) =~= pressed_keys(rest));
            assert(encode_events(events) == codes);
            assert(pressed_keys(events) == pressed_keys(rest));
            assert(scancode_run(State::Break, seq![k] + tail) == scancode_run(State::Wait, tail));
            assert(scancode_run(State::Wait, codes) == scancode_run(State::Break, seq![k] + tail));
        }
    }
}

} // verus!
