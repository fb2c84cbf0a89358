//! Five-way joystick input: direction priority, debouncing, menu navigation
//! and the per-button debouncer with a repeat delay.
use vstd::prelude::*;

verus! {

#[derive(Debug, Clone, Copy, PartialEq, Eq, Structural)]
pub enum JoystickDirection {
    Up,
    Down,
    Left,
    Right,
    Center,
    Idle,
}

/// The five switches read at one instant (true while pressed).
#[derive(Debug, Clone, Copy, PartialEq, Eq, Structural)]
pub struct JoystickReading {
    pub up: bool,
    pub down: bool,
    pub left: bool,
    pub right: bool,
    pub center: bool,
}

/// The direction a reading stands for: up, down, left, right, center in
/// that order of priority.
pub open spec fn spec_direction(r: JoystickReading) -> JoystickDirection {
    if r.up {
        JoystickDirection::Up
    } else if r.down {
        JoystickDirection::Down
    } else if r.left {
        JoystickDirection::Left
    } else if r.right {
        JoystickDirection::Right
    } else if r.center {
        JoystickDirection::Center
    } else {
        JoystickDirection::Idle
    }
}

pub fn current_direction(r: JoystickReading) -> (d: JoystickDirection)
    ensures
        d == spec_direction(r),
{
    if r.up {
        JoystickDirection::Up
    } else if r.down {
        JoystickDirection::Down
    } else if r.left {
        JoystickDirection::Left
    } else if r.right {
        JoystickDirection::Right
    } else if r.center {
        JoystickDirection::Center
    } else {
        JoystickDirection::Idle
    }
}

/// Reports a direction once it has been read unchanged on four successive
/// polls.
#[derive(Debug, Clone, Copy, PartialEq, Eq, Structural)]
pub struct JoystickHandler {
    pub last_direction: JoystickDirection,
    pub debounce_counter: u8,
}

impl JoystickHandler {
    pub fn new() -> (h: Self)
        ensures
            h == (JoystickHandler { last_direction: JoystickDirection::Idle, debounce_counter: 0 }),
    {
        JoystickHandler { last_direction: JoystickDirection::Idle, debounce_counter: 0 }
    }

    /// Takes one poll: a changed direction restarts the count, the same
    /// direction counts up to 3 and is reported from then on (unless idle).
    pub fn read_direction(&mut self, reading: JoystickReading) -> (r: Option<JoystickDirection>)
        ensures
            ({
                let d = spec_direction(reading);
                if d != old(self).last_direction {
                    *final(self) == (JoystickHandler { last_direction: d, debounce_counter: 0 })
                        && r is None
                } else if old(self).debounce_counter < 3 {
                    *final(self) == (JoystickHandler {
                        debounce_counter: (old(self).debounce_counter + 1) as u8,
                        ..*old(self)
                    }) && r is None
                } else {
                    *final(self) == *old(self) && r == if d != JoystickDirection::Idle {
                        Some(d)
                    } else {
                        None
                    }
                }
            }),
    {
        let d = current_direction(reading);
        if d == self.last_direction {
            if self.debounce_counter < 3 {
                self.debounce_counter = self.debounce_counter + 1;
                return None;
            }
        } else {
            self.debounce_counter = 0;
            self.last_direction = d;
            return None;
        }
        if d != JoystickDirection::Idle {
            Some(d)
        } else {
            None
        }
    }
}

/// Where the cursor of a menu of `n` items goes from `k`: up and down move
/// it by one, wrapping around; other directions leave it.
pub open spec fn menu_move(k: int, n: int, d: JoystickDirection) -> int {
    match d {
        JoystickDirection::Up => (k + n - 1) % n,
        JoystickDirection::Down => (k + 1) % n,
        _ => k,
    }
}

/// Up moves to the previous item, and from the first item to the last.
pub proof fn lemma_menu_up(k: int, n: int)
    requires
        0 <= k < n,
    ensures
        menu_move(k, n, JoystickDirection::Up) == if k > 0 { k - 1 } else { n - 1 },
{
    if k > 0 {
        vstd::arithmetic::div_mod::lemma_mod_add_multiples_vanish(k - 1, n);
        vstd::arithmetic::div_mod::lemma_small_mod((k - 1) as nat, n as nat);
    } else {
        vstd::arithmetic::div_mod::lemma_small_mod((n - 1) as nat, n as nat);
    }
}

/// Down moves to the next item, and from the last item to the first.
pub proof fn lemma_menu_down(k: int, n: int)
    requires
        0 <= k < n,
    ensures
        menu_move(k, n, JoystickDirection::Down) == if k + 1 < n { k + 1 } else { 0 },
{
    if k + 1 < n {
        vstd::arithmetic::div_mod::lemma_small_mod((k + 1) as nat, n as nat);
    } else {
        vstd::arithmetic::div_mod::lemma_mod_self_0(n);
    }
}

/// Up then down (or down then up) brings the cursor back where it was, and
/// the cursor never leaves the menu.
pub proof fn lemma_menu_up_down_restores(k: int, n: int)
    requires
        0 <= k < n,
    ensures
        0 <= menu_move(k, n, JoystickDirection::Up) < n,
        0 <= menu_move(k, n, JoystickDirection::Down) < n,
        menu_move(menu_move(k, n, JoystickDirection::Up), n, JoystickDirection::Down) == k,
        menu_move(menu_move(k, n, JoystickDirection::Down), n, JoystickDirection::Up) == k,
{
    lemma_menu_up(k, n);
    lemma_menu_down(k, n);
    let u = menu_move(k, n, JoystickDirection::Up);
    let d = menu_move(k, n, JoystickDirection::Down);
    lemma_menu_down(u, n);
    lemma_menu_up(d, n);
}

/// A cursor over a non-empty menu.
pub struct MenuNavigator {
    current_item: usize,
    menu_items: &'static [&'static str],
}

impl MenuNavigator {
    #[verifier::type_invariant]
    closed spec fn in_menu(&self) -> bool {
        self.current_item < self.menu_items@.len()
    }

    pub closed spec fn current(&self) -> usize {
        self.current_item
    }

    pub closed spec fn items(&self) -> Seq<&'static str> {
        self.menu_items@
    }

    pub fn new(items: &'static [&'static str]) -> (m: Self)
        requires
            items@.len() > 0,
        ensures
            m.current() == 0,
            m.items() == items@,
    {
        MenuNavigator { current_item: 0, menu_items: items }
    }

    /// Up and down move the cursor, wrapping around; center selects (returns
    /// true); other directions do nothing.
    pub fn handle_joystick(&mut self, direction: JoystickDirection) -> (selected: bool)
        ensures
            final(self).items() == old(self).items(),
            0 < old(self).items().len(),
            old(self).current() < old(self).items().len(),
            final(self).current() < old(self).items().len(),
            selected == (direction == JoystickDirection::Center),
            final(self).current() as int == menu_move(
                old(self).current() as int,
                old(self).items().len() as int,
                direction,
            ),
    {
        proof {
            use_type_invariant(&*self);
        }
        let n = self.menu_items.len();
        match direction {
            JoystickDirection::Up => {
                let next = if self.current_item > 0 {
                    self.current_item - 1
                } else {
                    n - 1
                };
                proof {
                    lemma_menu_up(self.current_item as int, n as int);
                }
                self.current_item = next;
                false
            },
            JoystickDirection::Down => {
                let next = if self.current_item < n - 1 {
                    self.current_item + 1
                } else {
                    0
                };
                proof {
                    lemma_menu_down(self.current_item as int, n as int);
                }
                self.current_item = next;
                false
            },
            JoystickDirection::Center => true,
            _ => false,
        }
    }

    pub fn get_current_item(&self) -> (r: (usize, &'static str))
        ensures
            r.0 == self.current(),
            r.0 < self.items().len(),
            r.1 == self.items()[r.0 as int],
    {
        proof {
            use_type_invariant(self);
        }
        (self.current_item, self.menu_items[self.current_item])
    }
}

#[derive(Debug, Clone, Copy, PartialEq, Eq, Structural)]
pub enum Button {
    Up,
    Down,
    Left,
    Right,
    Center,
}

#[derive(Debug, Clone, Copy, PartialEq, Eq, Structural)]
pub struct ButtonDebounceState {
    pub current_state: bool,
    pub stable_state: bool,
    pub counter: u8,
    pub last_press_time: u64,
}

/// A button never seen pressed.
pub open spec fn released_button() -> ButtonDebounceState {
    ButtonDebounceState { current_state: false, stable_state: false, counter: 0, last_press_time: 0 }
}

impl ButtonDebounceState {
    pub fn new() -> (s: Self)
        ensures
            s == released_button(),
    {
        ButtonDebounceState { current_state: false, stable_state: false, counter: 0, last_press_time: 0 }
    }
}

/// One button after a poll, and whether the poll is a press to report: a
/// raw level that holds for `threshold` polls becomes the stable level, and a
/// stable rise is reported when at least `repeat_delay_ms` passed since the
/// last reported press.
pub open spec fn debounce_step(s: ButtonDebounceState, raw: bool, now_ms: u64, threshold: u8, repeat_delay_ms: u64) -> (
    ButtonDebounceState,
    bool,
) {
    let s1 = if raw == s.current_state {
        if s.counter < threshold {
            ButtonDebounceState { counter: (s.counter + 1) as u8, ..s }
        } else {
            s
        }
    } else {
        ButtonDebounceState { current_state: raw, counter: 0, ..s }
    };
    if s1.counter >= threshold {
        let s2 = ButtonDebounceState { stable_state: s1.current_state, ..s1 };
        if s2.stable_state && !s1.stable_state && now_ms >= s1.last_press_time + repeat_delay_ms {
            (ButtonDebounceState { last_press_time: now_ms, ..s2 }, true)
        } else {
            (s2, false)
        }
    } else {
        (s1, false)
    }
}

pub open spec fn button_at(i: int) -> Button {
    if i == 0 {
        Button::Up
    } else if i == 1 {
        Button::Down
    } else if i == 2 {
        Button::Left
    } else if i == 3 {
        Button::Right
    } else {
        Button::Center
    }
}

/// Debounces the five buttons of a joystick.
pub struct TestDebouncer {
    pub buttons: [ButtonDebounceState; 5],
    pub debounce_threshold: u8,
    pub repeat_delay_ms: u64,
}

/// The presses reported by the buttons `i..5` of a poll, in button order.
pub open spec fn reported_presses(
    buttons: Seq<ButtonDebounceState>,
    raw: Seq<bool>,
    now_ms: u64,
    threshold: u8,
    delay: u64,
    i: int,
) -> Seq<Button>
    decreases 5 - i,
{
    if i >= 5 {
        Seq::empty()
    } else {
        let rest = reported_presses(buttons, raw, now_ms, threshold, delay, i + 1);
        if debounce_step(buttons[i], raw[i], now_ms, threshold, delay).1 {
            seq![button_at(i)] + rest
        } else {
            rest
        }
    }
}

impl TestDebouncer {
    pub fn new(debounce_threshold: u8, repeat_delay_ms: u64) -> (d: Self)
        ensures
            d.debounce_threshold == debounce_threshold,
            d.repeat_delay_ms == repeat_delay_ms,
            forall|i: int| 0 <= i < 5 ==> #[trigger] d.buttons@[i] == released_button(),
    {
        let b = ButtonDebounceState::new();
        TestDebouncer { buttons: [b, b, b, b, b], debounce_threshold, repeat_delay_ms }
    }

    /// Polls the five buttons (up, down, left, right, center) and returns the
    /// presses to report, in that order.
    pub fn update(&mut self, reading: JoystickReading, current_time_ms: u64) -> (pressed: Vec<Button>)
        requires
            forall|i: int|
                0 <= i < 5 ==> old(self).buttons@[i].last_press_time + old(self).repeat_delay_ms
                    <= u64::MAX,
        ensures
            ({
                let raw = seq![reading.up, reading.down, reading.left, reading.right, reading.center];
                &&& final(self).debounce_threshold == old(self).debounce_threshold
                &&& final(self).repeat_delay_ms == old(self).repeat_delay_ms
                &&& forall|i: int|
                    0 <= i < 5 ==> #[trigger] final(self).buttons@[i] == debounce_step(
                        old(self).buttons@[i],
                        raw[i],
                        current_time_ms,
                        old(self).debounce_threshold,
                        old(self).repeat_delay_ms,
                    ).0
                &&& pressed@ == reported_presses(
                    old(self).buttons@,
                    raw,
                    current_time_ms,
                    old(self).debounce_threshold,
                    old(self).repeat_delay_ms,
                    0,
                )
            }),
    {
        let raw_states = [reading.up, reading.down, reading.left, reading.right, reading.center];
        let button_types = [Button::Up, Button::Down, Button::Left, Button::Right, Button::Center];
        let ghost raw = seq![reading.up, reading.down, reading.left, reading.right, reading.center];
        assert(raw_states@ =~= raw);
        let ghost before = self.buttons@;
        let threshold = self.debounce_threshold;
        let delay = self.repeat_delay_ms;
        let mut pressed: Vec<Button> = Vec::new();
        let mut i: usize = 0;
        while i < 5
            invariant
                0 <= i <= 5,
                raw_states@ == raw,
                button_types@ == seq![Button::Up, Button::Down, Button::Left, Button::Right, Button::Center],
                before.len() == 5,
                self.buttons@.len() == 5,
                threshold == old(self).debounce_threshold,
                delay == old(self).repeat_delay_ms,
                self.debounce_threshold == threshold,
                self.repeat_delay_ms == delay,
                before == old(self).buttons@,
                forall|j: int| 0 <= j < 5 ==> before[j].last_press_time + delay <= u64::MAX,
                forall|j: int|
                    0 <= j < i ==> #[trigger] self.buttons@[j] == debounce_step(
                        before[j],
                        raw[j],
                        current_time_ms,
                        threshold,
                        delay,
                    ).0,
                forall|j: int| i <= j < 5 ==> #[trigger] self.buttons@[j] == before[j],
                pressed@ + reported_presses(before, raw, current_time_ms, threshold, delay, i as int)
                    == reported_presses(before, raw, current_time_ms, threshold, delay, 0),
            decreases 5 - i,
        {
            let mut b = self.buttons[i];
            let raw_state = raw_states[i];
            if raw_state == b.current_state {
                if b.counter < threshold {
                    b.counter = b.counter + 1;
                }
            } else {
                b.current_state = raw_state;
                b.counter = 0;
            }
            let mut report = false;
            if b.counter >= threshold {
                let previous_stable_state = b.stable_state;
                b.stable_state = b.current_state;
                if b.stable_state && !previous_stable_state {
                    if current_time_ms >= b.last_press_time + delay {
                        b.last_press_time = current_time_ms;
                        report = true;
                    }
                }
            }
            assert((b, report) == debounce_step(before[i as int], raw[i as int], current_time_ms, threshold, delay));
            self.buttons[i] = b;
            if report {
                let ghost prev = pressed@;
                pressed.push(button_types[i]);
                assert(button_types@[i as int] == button_at(i as int));
                assert(pressed@ + reported_presses(before, raw, current_time_ms, threshold, delay, i + 1)
                    =~= prev + reported_presses(before, raw, current_time_ms, threshold, delay, i as int));
            }
            i = i + 1;
        }
        assert(pressed@ + reported_presses(before, raw, current_time_ms, threshold, delay, 5) =~= pressed@);
        pressed
    }

    /// The stable level of a button.
    pub fn get_button_state(&self, button: Button) -> (b: bool)
        ensures
            b == self.buttons@[match button {
                Button::Up => 0int,
                Button::Down => 1,
                Button::Left => 2,
                Button::Right => 3,
                Button::Center => 4,
            }].stable_state,
    {
        let index: usize = match button {
            Button::Up => 0,
            Button::Down => 1,
            Button::Left => 2,
            Button::Right => 3,
            Button::Center => 4,
        };
        self.buttons[index].stable_state
    }

    /// The raw level, stable level and counter of a button.
    pub fn get_debug_info(&self, button: Button) -> (r: (bool, bool, u8))
        ensures
            ({
                let s = self.buttons@[match button {
                    Button::Up => 0int,
                    Button::Down => 1,
                    Button::Left => 2,
                    Button::Right => 3,
                    Button::Center => 4,
                }];
                r == (s.current_state, s.stable_state, s.counter)
            }),
    {
        let index: usize = match button {
            Button::Up => 0,
            Button::Down => 1,
            Button::Left => 2,
            Button::Right => 3,
            Button::Center => 4,
        };
        let state = self.buttons[index];
        (state.current_state, state.stable_state, state.counter)
    }
}

} // verus!
