//! Front-panel keys on the TCA6408 expander: P0 center, P1 right, P2 down,
//! P3 left, P4 up, each reading low while pressed.
use vstd::prelude::*;

verus! {

#[derive(Copy, Clone, Debug, PartialEq, Eq, Structural)]
pub enum KeyEvent {
    Left,
    Right,
    Center,
}

/// The panel expander's four registers as last read.
#[derive(Copy, Clone, Debug, PartialEq, Eq)]
pub struct Snapshot {
    pub input: u8,
    pub output: u8,
    pub polarity: u8,
    pub config: u8,
}

pub open spec fn spec_key_event(bit: u8) -> Option<KeyEvent> {
    if bit == 0 {
        Some(KeyEvent::Center)
    } else if bit == 1 {
        Some(KeyEvent::Right)
    } else if bit == 3 {
        Some(KeyEvent::Left)
    } else {
        None
    }
}

/// The event a key press on pin `bit` raises; down and up raise none.
pub fn key_event(bit: u8) -> (e: Option<KeyEvent>)
    ensures
        e == spec_key_event(bit),
{
    match bit {
        0 => Some(KeyEvent::Center),
        1 => Some(KeyEvent::Right),
        3 => Some(KeyEvent::Left),
        _ => None,
    }
}

pub open spec fn spec_dir_name(bit: u8) -> Seq<char> {
    if bit == 0 {
        "center"@
    } else if bit == 1 {
        "right"@
    } else if bit == 2 {
        "down"@
    } else if bit == 3 {
        "left"@
    } else if bit == 4 {
        "up"@
    } else {
        "p?"@
    }
}

/// The direction name of a key pin.
pub fn dir_name(bit: u8) -> (s: &'static str)
    ensures
        s@ == spec_dir_name(bit),
{
    match bit {
        0 => "center",
        1 => "right",
        2 => "down",
        3 => "left",
        4 => "up",
        _ => "p?",
    }
}

/// Whether key pin `bit` reads low (pressed) in `inputs`.
pub open spec fn key_low(inputs: u8, bit: int) -> bool {
    (inputs >> (bit as u8)) & 1 == 0
}

pub(crate) fn is_low(inputs: u8, bit: u8) -> (b: bool)
    requires
        bit < 5,
    ensures
        b == key_low(inputs, bit as int),
{
    assert((inputs & (1u8 << bit) == 0) == ((inputs >> bit) & 1 == 0)) by (bit_vector)
        requires
            bit < 5,
    ;
    (inputs & (1u8 << bit)) == 0
}

/// Which of the five keys read pressed in `inputs`.
pub fn pressed_from_inputs(inputs: u8) -> (pressed: [bool; 5])
    ensures
        forall|i: int| 0 <= i < 5 ==> pressed@[i] == key_low(inputs, i),
{
    let mut pressed = [false, false, false, false, false];
    let mut bit: u8 = 0;
    while bit < 5
        invariant
            0 <= bit <= 5,
            pressed@.len() == 5,
            forall|i: int| 0 <= i < bit ==> pressed@[i] == key_low(inputs, i),
        decreases 5 - bit,
    {
        pressed[bit as usize] = is_low(inputs, bit);
        bit = bit + 1;
    }
    pressed
}

/// The events raised by the keys `bit..5` going down, in pin order.
pub open spec fn press_events(pressed: Seq<bool>, inputs: u8, bit: int) -> Seq<KeyEvent>
    decreases 5 - bit,
{
    if bit >= 5 {
        Seq::empty()
    } else {
        let rest = press_events(pressed, inputs, bit + 1);
        if key_low(inputs, bit) && !pressed[bit] && spec_key_event(bit as u8) is Some {
            seq![spec_key_event(bit as u8).unwrap()] + rest
        } else {
            rest
        }
    }
}

/// Takes a new reading of the key pins: every key that reads low and was not
/// pressed raises its event (in pin order) and becomes pressed; every key that
/// reads high is released.
pub fn scan_keys(inputs: u8, pressed: &mut [bool; 5]) -> (events: Vec<KeyEvent>)
    ensures
        forall|i: int| 0 <= i < 5 ==> final(pressed)@[i] == key_low(inputs, i),
        events@ == press_events(old(pressed)@, inputs, 0),
{
    let ghost before = pressed@;
    let mut events: Vec<KeyEvent> = Vec::new();
    let mut bit: u8 = 0;
    while bit < 5
        invariant
            0 <= bit <= 5,
            pressed@.len() == 5,
            before.len() == 5,
            forall|i: int| 0 <= i < bit ==> pressed@[i] == key_low(inputs, i),
            forall|i: int| bit <= i < 5 ==> pressed@[i] == before[i],
            events@ + press_events(before, inputs, bit as int) == press_events(before, inputs, 0),
        decreases 5 - bit,
    {
        let idx = bit as usize;
        let low = is_low(inputs, bit);
        if low && !pressed[idx] {
            pressed[idx] = true;
            if let Some(event) = key_event(bit) {
                let ghost prev = events@;
                events.push(event);
                assert(events@ + press_events(before, inputs, bit + 1) =~= prev + press_events(
                    before,
                    inputs,
                    bit as int,
                ));
            }
        }
        if !low && pressed[idx] {
            pressed[idx] = false;
        }
        bit = bit + 1;
    }
    assert(events@ + press_events(before, inputs, 5) =~= events@);
    events
}

/// A key held down raises its event once: a second identical reading raises
/// nothing.
pub proof fn lemma_held_key_raises_once(pressed: Seq<bool>, inputs: u8)
    requires
        pressed.len() == 5,
        forall|i: int| 0 <= i < 5 ==> pressed[i] == key_low(inputs, i),
    ensures
        press_events(pressed, inputs, 0) == Seq::<KeyEvent>::empty(),
{
    assert(press_events(pressed, inputs, 5) == Seq::<KeyEvent>::empty());
    assert(press_events(pressed, inputs, 4) == Seq::<KeyEvent>::empty());
    assert(press_events(pressed, inputs, 3) == Seq::<KeyEvent>::empty());
    assert(press_events(pressed, inputs, 2) == Seq::<KeyEvent>::empty());
    assert(press_events(pressed, inputs, 1) == Seq::<KeyEvent>::empty());
}

} // verus!
