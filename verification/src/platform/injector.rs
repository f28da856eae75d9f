//! Remote input on a Windows desktop: which events are accepted, and what they become.
use crate::bytes::unsigned_pattern;
use crate::desktop::input::input_failure;
use crate::error::{DcError, DcErrorView};
use crate::platform::windows_keys::{key_input, windows_key_input, KeyInput};
use crate::protocol::{InputEvent, KeyboardKey};
use vstd::prelude::*;

verus! {

/// The flag of a pointer that moves.
pub const MOUSEEVENTF_MOVE: u32 = 0x0001;

pub const MOUSEEVENTF_LEFTDOWN: u32 = 0x0002;

pub const MOUSEEVENTF_LEFTUP: u32 = 0x0004;

pub const MOUSEEVENTF_RIGHTDOWN: u32 = 0x0008;

pub const MOUSEEVENTF_RIGHTUP: u32 = 0x0010;

pub const MOUSEEVENTF_MIDDLEDOWN: u32 = 0x0020;

pub const MOUSEEVENTF_MIDDLEUP: u32 = 0x0040;

/// The flag of the vertical wheel.
pub const MOUSEEVENTF_WHEEL: u32 = 0x0800;

/// The flag of the horizontal wheel.
pub const MOUSEEVENTF_HWHEEL: u32 = 0x1000;

/// The flag of a place that is given for the whole screen.
pub const MOUSEEVENTF_ABSOLUTE: u32 = 0x8000;

/// The largest turn of a wheel in one event.
pub const MAX_WHEEL_DELTA: i32 = 12_000;

/// The largest place on a screen whose sides are counted from zero to this number.
pub const ABSOLUTE_RANGE: i32 = 65_535;

/// A mouse event as Windows takes it.
#[derive(Clone, Copy, Debug, Eq, PartialEq, Structural)]
pub struct MouseInput {
    pub dx: i32,
    pub dy: i32,
    pub data: u32,
    pub flags: u32,
}

/// An event as Windows takes it.
#[derive(Clone, Copy, Debug, Eq, PartialEq, Structural)]
pub enum WindowsInput {
    Mouse(MouseInput),
    Key(KeyInput),
}

/// The buttons and keys that are held down through a [`WindowsInputInjector`].
pub struct HeldInput {
    pub buttons: u8,
    pub keys: Seq<KeyboardKey>,
}

/// Why an event is refused on a screen of a size, if it is.
pub open spec fn refusal(event: InputEvent, screen_width: i32, screen_height: i32) -> Option<
    DcErrorView,
> {
    match event {
        InputEvent::Pointer { x, y, buttons } => if buttons > 7 {
            Some(DcErrorView::InvalidInput("pointer contains unsupported button bits"@))
        } else if x < 0 || y < 0 {
            Some(DcErrorView::InvalidInput("pointer coordinates must be non-negative"@))
        } else if screen_width <= 0 || screen_height <= 0 || x >= screen_width || y
            >= screen_height {
            Some(DcErrorView::InvalidInput("pointer coordinates are outside the primary desktop"@))
        } else {
            None
        },
        InputEvent::Wheel { delta_x, delta_y } => if delta_x > MAX_WHEEL_DELTA || delta_x
            < -MAX_WHEEL_DELTA || delta_y > MAX_WHEEL_DELTA || delta_y < -MAX_WHEEL_DELTA {
            Some(DcErrorView::InvalidInput("wheel delta exceeds the per-event limit"@))
        } else {
            None
        },
        InputEvent::Key { .. } => None,
    }
}

/// A place on a side of the screen, counted over the absolute range.
pub open spec fn normalized(place: int, extent: int) -> int {
    place * ABSOLUTE_RANGE / (if extent > 2 {
        extent - 1
    } else {
        1
    })
}

/// Whether a button is among those that are down.
pub open spec fn holds(buttons: u8, mask: u8) -> bool {
    buttons / mask % 2 == 1
}

/// A button that goes down or up.
pub open spec fn button_event(flags: u32) -> WindowsInput {
    WindowsInput::Mouse(MouseInput { dx: 0, dy: 0, data: 0, flags })
}

/// The event for one button, where it changed.
pub open spec fn button_change(before: u8, after: u8, mask: u8, down: u32, up: u32) -> Seq<
    WindowsInput,
> {
    if holds(before, mask) == holds(after, mask) {
        Seq::empty()
    } else if holds(after, mask) {
        seq![button_event(down)]
    } else {
        seq![button_event(up)]
    }
}

/// The event for one wheel, where it turned.
pub open spec fn wheel_turn(delta: i32, flags: u32) -> Seq<WindowsInput> {
    if delta == 0 {
        Seq::empty()
    } else {
        seq![WindowsInput::Mouse(
            MouseInput { dx: 0, dy: 0, data: unsigned_pattern(delta) as u32, flags },
        )]
    }
}

impl HeldInput {
    /// What an accepted event becomes: the pointer's move and then the buttons that changed, the
    /// wheels that turned, or the key.
    pub open spec fn inputs(
        self,
        event: InputEvent,
        screen_width: i32,
        screen_height: i32,
    ) -> Seq<WindowsInput> {
        match event {
            InputEvent::Pointer { x, y, buttons } => seq![
                WindowsInput::Mouse(
                    MouseInput {
                        dx: normalized(x as int, screen_width as int) as i32,
                        dy: normalized(y as int, screen_height as int) as i32,
                        data: 0,
                        flags: (MOUSEEVENTF_MOVE + MOUSEEVENTF_ABSOLUTE) as u32,
                    },
                ),
            ] + button_change(self.buttons, buttons, 1, MOUSEEVENTF_LEFTDOWN, MOUSEEVENTF_LEFTUP)
                + button_change(self.buttons, buttons, 2, MOUSEEVENTF_RIGHTDOWN, MOUSEEVENTF_RIGHTUP)
                + button_change(
                self.buttons,
                buttons,
                4,
                MOUSEEVENTF_MIDDLEDOWN,
                MOUSEEVENTF_MIDDLEUP,
            ),
            InputEvent::Wheel { delta_x, delta_y } => wheel_turn(delta_x, MOUSEEVENTF_HWHEEL)
                + wheel_turn(delta_y, MOUSEEVENTF_WHEEL),
            InputEvent::Key { key, pressed } => seq![WindowsInput::Key(key_input(key, pressed))],
        }
    }

    /// What is held once an event was injected.
    pub open spec fn after(self, event: InputEvent) -> HeldInput {
        match event {
            InputEvent::Pointer { buttons, .. } => HeldInput {
                buttons: (buttons % 8) as u8,
                ..self
            },
            InputEvent::Wheel { .. } => self,
            InputEvent::Key { key, pressed } => if !pressed {
                HeldInput { keys: without(self.keys, key), ..self }
            } else if self.keys.contains(key) {
                self
            } else {
                HeldInput { keys: self.keys.push(key), ..self }
            },
        }
    }

    /// The events that let go of everything: the keys, the last one first, and then the buttons.
    pub open spec fn releases(self) -> Seq<WindowsInput> {
        key_releases(self.keys) + button_change(
            self.buttons,
            0,
            1,
            MOUSEEVENTF_LEFTDOWN,
            MOUSEEVENTF_LEFTUP,
        ) + button_change(self.buttons, 0, 2, MOUSEEVENTF_RIGHTDOWN, MOUSEEVENTF_RIGHTUP)
            + button_change(self.buttons, 0, 4, MOUSEEVENTF_MIDDLEDOWN, MOUSEEVENTF_MIDDLEUP)
    }

    /// No key is held twice, and no other buttons than the three.
    pub open spec fn facts(self) -> bool {
        &&& self.buttons <= 7
        &&& self.keys.no_duplicates()
    }
}

/// Keys without one of them.
pub open spec fn without(keys: Seq<KeyboardKey>, key: KeyboardKey) -> Seq<KeyboardKey>
    decreases keys.len(),
{
    if keys.len() == 0 {
        keys
    } else if keys.last() == key {
        without(keys.drop_last(), key)
    } else {
        without(keys.drop_last(), key).push(keys.last())
    }
}

/// What stays of keys without one of them.
proof fn lemma_without(keys: Seq<KeyboardKey>, key: KeyboardKey)
    ensures
        !without(keys, key).contains(key),
        forall|held: KeyboardKey|
            held != key ==> (#[trigger] without(keys, key).contains(held) <==> keys.contains(held)),
        keys.no_duplicates() ==> without(keys, key).no_duplicates(),
    decreases keys.len(),
{
    if keys.len() > 0 {
        let before = keys.drop_last();
        let rest = without(before, key);
        lemma_without(before, key);
        let last = keys.last();
        assert forall|held: KeyboardKey| #[trigger] keys.contains(held) <==> before.contains(held)
            || held == last by {
            if keys.contains(held) && held != last {
                let i = choose|i: int| 0 <= i < keys.len() && keys[i] == held;
                assert(before[i] == held);
            }
            if before.contains(held) {
                let i = choose|i: int| 0 <= i < before.len() && before[i] == held;
                assert(keys[i] == held);
            }
            assert(keys[keys.len() - 1] == last);
        }
        assert forall|held: KeyboardKey| #[trigger] rest.push(last).contains(held)
            <==> rest.contains(held) || held == last by {
            if rest.push(last).contains(held) && held != last {
                let i = choose|i: int|
                    0 <= i < rest.push(last).len() && rest.push(last)[i] == held;
                assert(rest[i] == held);
            }
            if rest.contains(held) {
                let i = choose|i: int| 0 <= i < rest.len() && rest[i] == held;
                assert(rest.push(last)[i] == held);
            }
            assert(rest.push(last)[rest.len() as int] == last);
        }
        if keys.no_duplicates() {
            assert(!before.contains(last)) by {
                if before.contains(last) {
                    let i = choose|i: int| 0 <= i < before.len() && before[i] == last;
                    assert(keys[i] == keys[keys.len() - 1]);
                }
            }
            assert(before.no_duplicates());
            if last != key {
                let whole = rest.push(last);
                assert(!rest.contains(last));
                assert forall|i: int, j: int|
                    0 <= i < whole.len() && 0 <= j < whole.len() && i != j implies whole[i]
                    != whole[j] by {
                    if i == rest.len() {
                        assert(rest.contains(rest[j]));
                    } else if j == rest.len() {
                        assert(rest.contains(rest[i]));
                    }
                }
            }
        }
    }
}

/// The events that let go of keys, the last one first.
pub open spec fn key_releases(keys: Seq<KeyboardKey>) -> Seq<WindowsInput> {
    Seq::new(
        keys.len(),
        |i: int| WindowsInput::Key(key_input(keys[keys.len() - 1 - i], false)),
    )
}

/// Windows desktop input. Pointer coordinates use physical desktop pixels; mouse button bits are
/// left=1, right=2, middle=4.
pub struct WindowsInputInjector {
    buttons: u8,
    pressed_keys: Vec<KeyboardKey>,
}

impl View for WindowsInputInjector {
    type V = HeldInput;

    closed spec fn view(&self) -> HeldInput {
        HeldInput { buttons: self.buttons, keys: self.pressed_keys@ }
    }
}

fn push_button(events: &mut Vec<WindowsInput>, before: u8, after: u8, mask: u8, down: u32, up: u32)
    requires
        mask > 0,
    ensures
        final(events)@ == old(events)@ + button_change(before, after, mask, down, up),
{
    let held = before / mask % 2 == 1;
    let holds_now = after / mask % 2 == 1;
    if held != holds_now {
        let flags: u32 = if holds_now {
            down
        } else {
            up
        };
        events.push(WindowsInput::Mouse(MouseInput { dx: 0, dy: 0, data: 0, flags }));
    }
    assert(events@ =~= old(events)@ + button_change(before, after, mask, down, up));
}

fn push_wheel(events: &mut Vec<WindowsInput>, delta: i32, flags: u32)
    ensures
        final(events)@ == old(events)@ + wheel_turn(delta, flags),
{
    if delta != 0 {
        let data: u32 = if delta < 0 {
            (0x1_0000_0000i64 + delta as i64) as u32
        } else {
            delta as u32
        };
        events.push(WindowsInput::Mouse(MouseInput { dx: 0, dy: 0, data, flags }));
    }
    assert(events@ =~= old(events)@ + wheel_turn(delta, flags));
}

/// A place on the screen lies inside the absolute range.
proof fn lemma_normalized(place: int, extent: int)
    requires
        0 <= place < extent,
    ensures
        0 <= place * ABSOLUTE_RANGE,
        0 <= normalized(place, extent) <= ABSOLUTE_RANGE,
{
    if extent > 2 {
        let steps = extent - 1;
        assert(0 <= place * 65_535 <= steps * 65_535) by (nonlinear_arith)
            requires
                0 <= place <= steps,
        ;
        assert(0 <= place * 65_535 / steps <= 65_535) by (nonlinear_arith)
            requires
                0 <= place * 65_535 <= steps * 65_535,
                steps > 0,
        ;
    }
}

fn normalize(place: i32, extent: i32) -> (result: i32)
    requires
        0 <= place < extent,
    ensures
        result == normalized(place as int, extent as int),
{
    proof {
        lemma_normalized(place as int, extent as int);
    }
    let steps: i64 = if extent > 2 {
        extent as i64 - 1
    } else {
        1
    };
    (place as i64 * 65_535 / steps) as i32
}

impl WindowsInputInjector {
    #[verifier::type_invariant]
    spec fn well_formed(self) -> bool {
        self@.facts()
    }

    pub fn new() -> (injector: WindowsInputInjector)
        ensures
            injector@ == (HeldInput { buttons: 0, keys: Seq::empty() }),
    {
        WindowsInputInjector { buttons: 0, pressed_keys: Vec::new() }
    }

    /// What an event becomes on a screen of a size, or why it is refused.
    pub fn plan(&self, event: &InputEvent, screen_width: i32, screen_height: i32) -> (result:
        Result<Vec<WindowsInput>, DcError>)
        ensures
            match result {
                Ok(inputs) => {
                    &&& refusal(*event, screen_width, screen_height) is None
                    &&& inputs@ == self@.inputs(*event, screen_width, screen_height)
                },
                Err(error) => refusal(*event, screen_width, screen_height) == Some(error@),
            },
    {
        let mut inputs: Vec<WindowsInput> = Vec::new();
        match *event {
            InputEvent::Pointer { x, y, buttons } => {
                if buttons > 7 {
                    return Err(DcError::invalid_input("pointer contains unsupported button bits"));
                }
                if x < 0 || y < 0 {
                    return Err(DcError::invalid_input("pointer coordinates must be non-negative"));
                }
                if screen_width <= 0 || screen_height <= 0 || x >= screen_width || y
                    >= screen_height {
                    return Err(
                        DcError::invalid_input(
                            "pointer coordinates are outside the primary desktop",
                        ),
                    );
                }
                inputs.push(
                    WindowsInput::Mouse(
                        MouseInput {
                            dx: normalize(x, screen_width),
                            dy: normalize(y, screen_height),
                            data: 0,
                            flags: MOUSEEVENTF_MOVE + MOUSEEVENTF_ABSOLUTE,
                        },
                    ),
                );
                push_button(
                    &mut inputs,
                    self.buttons,
                    buttons,
                    1,
                    MOUSEEVENTF_LEFTDOWN,
                    MOUSEEVENTF_LEFTUP,
                );
                push_button(
                    &mut inputs,
                    self.buttons,
                    buttons,
                    2,
                    MOUSEEVENTF_RIGHTDOWN,
                    MOUSEEVENTF_RIGHTUP,
                );
                push_button(
                    &mut inputs,
                    self.buttons,
                    buttons,
                    4,
                    MOUSEEVENTF_MIDDLEDOWN,
                    MOUSEEVENTF_MIDDLEUP,
                );
            },
            InputEvent::Wheel { delta_x, delta_y } => {
                if delta_x > MAX_WHEEL_DELTA || delta_x < -MAX_WHEEL_DELTA || delta_y
                    > MAX_WHEEL_DELTA || delta_y < -MAX_WHEEL_DELTA {
                    return Err(DcError::invalid_input("wheel delta exceeds the per-event limit"));
                }
                push_wheel(&mut inputs, delta_x, MOUSEEVENTF_HWHEEL);
                push_wheel(&mut inputs, delta_y, MOUSEEVENTF_WHEEL);
            },
            InputEvent::Key { key, pressed } => {
                inputs.push(WindowsInput::Key(windows_key_input(key, pressed)));
            },
        }
        assert(inputs@ =~= self@.inputs(*event, screen_width, screen_height));
        Ok(inputs)
    }

    /// Records that everything that an event became was injected.
    pub fn injected(&mut self, event: &InputEvent)
        ensures
            final(self)@ == old(self)@.after(*event),
    {
        proof {
            use_type_invariant(&*self);
        }
        match *event {
            InputEvent::Pointer { buttons, .. } => {
                self.buttons = buttons % 8;
            },
            InputEvent::Wheel { .. } => {},
            InputEvent::Key { key, pressed } => {
                let mut kept: Vec<KeyboardKey> = Vec::new();
                let mut found = false;
                let mut index: usize = 0;
                let ghost keys = self.pressed_keys@;
                assert(keys.take(0) =~= Seq::empty());
                while index < self.pressed_keys.len()
                    invariant
                        keys == self.pressed_keys@,
                        index <= keys.len(),
                        kept@ == without(keys.take(index as int), key),
                        found == keys.take(index as int).contains(key),
                    decreases keys.len() - index,
                {
                    let held = self.pressed_keys[index];
                    proof {
                        let next = keys.take(index + 1);
                        assert(next.drop_last() =~= keys.take(index as int));
                        assert(next.last() == held);
                        if keys.take(index as int).contains(key) {
                            let i = choose|i: int|
                                0 <= i < index && keys.take(index as int)[i] == key;
                            assert(next[i] == key);
                        }
                        if held == key {
                            assert(next[index as int] == key);
                        }
                        if next.contains(key) && held != key {
                            let i = choose|i: int| 0 <= i < next.len() && next[i] == key;
                            assert(keys.take(index as int)[i] == key);
                        }
                    }
                    if held == key {
                        found = true;
                    } else {
                        kept.push(held);
                    }
                    index = index + 1;
                }
                assert(keys.take(index as int) =~= keys);
                if !pressed {
                    proof {
                        lemma_without(keys, key);
                    }
                    self.pressed_keys = kept;
                } else if !found {
                    let mut pressed_keys: Vec<KeyboardKey> = Vec::new();
                    std::mem::swap(&mut pressed_keys, &mut self.pressed_keys);
                    pressed_keys.push(key);
                    self.pressed_keys = pressed_keys;
                }
            },
        }
    }

    /// Lets go of everything that is held.
    pub fn release(self) -> (inputs: Vec<WindowsInput>)
        ensures
            inputs@ == self@.releases(),
    {
        let mut inputs: Vec<WindowsInput> = Vec::new();
        let mut left: usize = self.pressed_keys.len();
        let ghost keys = self.pressed_keys@;
        while left > 0
            invariant
                keys == self.pressed_keys@,
                left <= keys.len(),
                inputs@ == key_releases(keys).take(keys.len() - left),
            decreases left,
        {
            left = left - 1;
            inputs.push(WindowsInput::Key(windows_key_input(self.pressed_keys[left], false)));
            assert(inputs@ =~= key_releases(keys).take(keys.len() - left));
        }
        assert(key_releases(keys).take(keys.len() as int) =~= key_releases(keys));
        push_button(
            &mut inputs,
            self.buttons,
            0,
            1,
            MOUSEEVENTF_LEFTDOWN,
            MOUSEEVENTF_LEFTUP,
        );
        push_button(
            &mut inputs,
            self.buttons,
            0,
            2,
            MOUSEEVENTF_RIGHTDOWN,
            MOUSEEVENTF_RIGHTUP,
        );
        push_button(
            &mut inputs,
            self.buttons,
            0,
            4,
            MOUSEEVENTF_MIDDLEDOWN,
            MOUSEEVENTF_MIDDLEUP,
        );
        inputs
    }
}

impl Default for WindowsInputInjector {
    fn default() -> (injector: WindowsInputInjector)
        ensures
            injector@ == (HeldInput { buttons: 0, keys: Seq::empty() }),
    {
        WindowsInputInjector::new()
    }
}

/// What a viewer checked against a desktop is accepted by a host whose screen has that size.
pub proof fn law_checked_input_is_accepted(event: InputEvent, width: u32, height: u32)
    requires
        width <= i32::MAX,
        height <= i32::MAX,
        input_failure(event, width, height) is None,
    ensures
        refusal(event, width as i32, height as i32) is None,
{
}

/// The pointer reaches both ends of the screen and never leaves it: places count up from zero at
/// the first pixel to the whole range at the last one.
pub proof fn law_pointer_spans_the_screen(place: int, extent: int)
    requires
        0 <= place < extent,
    ensures
        0 <= normalized(place, extent) <= ABSOLUTE_RANGE,
        normalized(0, extent) == 0,
        extent > 1 ==> normalized(extent - 1, extent) == ABSOLUTE_RANGE,
        place > 0 ==> normalized(place - 1, extent) <= normalized(place, extent),
{
    lemma_normalized(place, extent);
    if extent > 2 {
        let steps = extent - 1;
        assert(steps * 65_535 / steps == 65_535) by (nonlinear_arith)
            requires
                steps > 0,
        ;
        assert(0int * 65_535 / steps == 0) by (nonlinear_arith)
            requires
                steps > 0,
        ;
        if place > 0 {
            assert((place - 1) * 65_535 / steps <= place * 65_535 / steps) by (nonlinear_arith)
                requires
                    steps > 0,
                    place > 0,
            ;
        }
    }
}

/// After a key was pressed and let go it is not held any more, and nothing else has changed; after
/// it was pressed it is held.
pub proof fn law_key_is_held_until_released(held: HeldInput, key: KeyboardKey, other: KeyboardKey)
    requires
        held.facts(),
    ensures
        ({
            let down = held.after(InputEvent::Key { key, pressed: true });
            let up = down.after(InputEvent::Key { key, pressed: false });
            &&& down.facts()
            &&& up.facts()
            &&& down.keys.contains(key)
            &&& !up.keys.contains(key)
            &&& other != key ==> (up.keys.contains(other) <==> held.keys.contains(other))
            &&& up.buttons == held.buttons
        }),
{
    let down = held.after(InputEvent::Key { key, pressed: true });
    lemma_without(down.keys, key);
    if !held.keys.contains(key) {
        assert(down.keys[held.keys.len() as int] == key);
        assert(down.keys.contains(other) <==> held.keys.contains(other) || other == key) by {
            if down.keys.contains(other) && other != key {
                let i = choose|i: int| 0 <= i < down.keys.len() && down.keys[i] == other;
                assert(held.keys[i] == other);
            }
            if held.keys.contains(other) {
                let i = choose|i: int| 0 <= i < held.keys.len() && held.keys[i] == other;
                assert(down.keys[i] == other);
            }
        }
    }
}

/// Letting go of everything lets go of each key and each button that is held; where nothing is
/// held there is nothing to let go.
pub proof fn law_everything_held_is_released(held: HeldInput, key: KeyboardKey)
    requires
        held.facts(),
    ensures
        held.keys.contains(key) ==> held.releases().contains(
            WindowsInput::Key(key_input(key, false)),
        ),
        holds(held.buttons, 1) ==> held.releases().contains(button_event(MOUSEEVENTF_LEFTUP)),
        holds(held.buttons, 2) ==> held.releases().contains(button_event(MOUSEEVENTF_RIGHTUP)),
        holds(held.buttons, 4) ==> held.releases().contains(button_event(MOUSEEVENTF_MIDDLEUP)),
        held.keys.len() == 0 && held.buttons == 0 ==> held.releases().len() == 0,
{
    let keys = key_releases(held.keys);
    let left = button_change(held.buttons, 0, 1, MOUSEEVENTF_LEFTDOWN, MOUSEEVENTF_LEFTUP);
    let right = button_change(held.buttons, 0, 2, MOUSEEVENTF_RIGHTDOWN, MOUSEEVENTF_RIGHTUP);
    let middle = button_change(held.buttons, 0, 4, MOUSEEVENTF_MIDDLEDOWN, MOUSEEVENTF_MIDDLEUP);
    let all = held.releases();
    assert(all == keys + left + right + middle);
    if held.keys.contains(key) {
        let i = choose|i: int| 0 <= i < held.keys.len() && held.keys[i] == key;
        assert(all[held.keys.len() - 1 - i] == WindowsInput::Key(key_input(key, false)));
    }
    if holds(held.buttons, 1) {
        assert(all[keys.len() as int] == button_event(MOUSEEVENTF_LEFTUP));
    }
    if holds(held.buttons, 2) {
        assert(all[(keys.len() + left.len()) as int] == button_event(MOUSEEVENTF_RIGHTUP));
    }
    if holds(held.buttons, 4) {
        assert(all[(keys.len() + left.len() + right.len()) as int] == button_event(
            MOUSEEVENTF_MIDDLEUP,
        ));
    }
}

/// The mouse event of a button.
pub open spec fn pushes(flags: u32) -> WindowsInput {
    WindowsInput::Mouse(MouseInput { dx: 0, dy: 0, data: 0, flags })
}

/// A pointer event moves the pointer first, to the share of the screen at which it stands, told in
/// 65,535 parts from edge to edge. Then each button that was not held and now is goes down and each
/// that was held and now is not goes up, the left one, the right one and the middle one, and no other
/// event is made.
pub proof fn law_pointer_moves_and_presses(
    held: HeldInput,
    x: i32,
    y: i32,
    buttons: u8,
    screen_width: i32,
    screen_height: i32,
)
    requires
        held.facts(),
        buttons <= 7,
        0 <= x < screen_width,
        0 <= y < screen_height,
        screen_width > 1,
        screen_height > 1,
    ensures
        ({
            let event = InputEvent::Pointer { x, y, buttons };
            let inputs = held.inputs(event, screen_width, screen_height);
            let before = held.buttons;
            &&& refusal(event, screen_width, screen_height) is None
            &&& inputs[0] matches WindowsInput::Mouse(place) && {
                &&& place.flags == 0x8001
                &&& place.data == 0
                &&& place.dx * (screen_width - 1) <= x * 65_535 < (place.dx + 1) * (screen_width - 1)
                &&& place.dy * (screen_height - 1) <= y * 65_535 < (place.dy + 1) * (screen_height
                    - 1)
            }
            &&& inputs.skip(1) == (if before % 2 == buttons % 2 {
                Seq::empty()
            } else if buttons % 2 == 1 {
                seq![pushes(0x02)]
            } else {
                seq![pushes(0x04)]
            }) + (if before / 2 % 2 == buttons / 2 % 2 {
                Seq::empty()
            } else if buttons / 2 % 2 == 1 {
                seq![pushes(0x08)]
            } else {
                seq![pushes(0x10)]
            }) + (if before / 4 == buttons / 4 {
                Seq::empty()
            } else if buttons / 4 == 1 {
                seq![pushes(0x20)]
            } else {
                seq![pushes(0x40)]
            })
            &&& held.after(event).buttons == buttons
            &&& held.after(event).keys == held.keys
        }),
{
    let event = InputEvent::Pointer { x, y, buttons };
    let inputs = held.inputs(event, screen_width, screen_height);
    lemma_share(x as int, screen_width as int);
    lemma_share(y as int, screen_height as int);
    let changes = button_change(held.buttons, buttons, 1, MOUSEEVENTF_LEFTDOWN, MOUSEEVENTF_LEFTUP)
        + button_change(held.buttons, buttons, 2, MOUSEEVENTF_RIGHTDOWN, MOUSEEVENTF_RIGHTUP)
        + button_change(held.buttons, buttons, 4, MOUSEEVENTF_MIDDLEDOWN, MOUSEEVENTF_MIDDLEUP);
    assert(inputs.skip(1) =~= changes);
}

proof fn lemma_share(place: int, extent: int)
    requires
        0 <= place < extent,
        1 < extent <= i32::MAX,
    ensures
        0 <= normalized(place, extent) <= 65_535,
        normalized(place, extent) * (extent - 1) <= place * 65_535 < (normalized(place, extent) + 1)
            * (extent - 1),
{
    let parts = extent - 1;
    let product = place * 65_535;
    vstd::arithmetic::div_mod::lemma_fundamental_div_mod(product, parts);
    vstd::arithmetic::div_mod::lemma_mod_bound(product, parts);
    let share = product / parts;
    assert(share * parts == parts * share && (share + 1) * parts == parts * share + parts)
        by (nonlinear_arith);
    assert(0 <= share <= 65_535) by (nonlinear_arith)
        requires
            product == parts * share + product % parts,
            0 <= product % parts < parts,
            0 <= product <= 65_535 * parts,
            parts > 0,
    ;
}

/// A wheel event turns the horizontal wheel, then the vertical one, each by its own delta, which
/// negative numbers tell in the upper half of the range, and not at all by zero.
pub proof fn law_wheels_turn_by_their_delta(
    held: HeldInput,
    delta_x: i32,
    delta_y: i32,
    screen_width: i32,
    screen_height: i32,
)
    ensures
        ({
            let event = InputEvent::Wheel { delta_x, delta_y };
            let inputs = held.inputs(event, screen_width, screen_height);
            let turned = |delta: i32, flags: u32|
                WindowsInput::Mouse(
                    MouseInput {
                        dx: 0,
                        dy: 0,
                        data: (if delta < 0 {
                            delta + 0x1_0000_0000
                        } else {
                            delta as int
                        }) as u32,
                        flags,
                    },
                );
            &&& refusal(event, screen_width, screen_height) is None <==> -12_000 <= delta_x
                && delta_x <= 12_000 && -12_000 <= delta_y && delta_y <= 12_000
            &&& delta_x == 0 && delta_y == 0 ==> inputs.len() == 0
            &&& delta_x != 0 && delta_y == 0 ==> inputs =~= seq![turned(delta_x, 0x1000)]
            &&& delta_x == 0 && delta_y != 0 ==> inputs =~= seq![turned(delta_y, 0x0800)]
            &&& delta_x != 0 && delta_y != 0 ==> inputs =~= seq![
                turned(delta_x, 0x1000),
                turned(delta_y, 0x0800),
            ]
            &&& held.after(event) == held
        }),
{
}

/// A pointer is refused off the screen and with a button that does not exist; a key never is, and is
/// told as it is.
pub proof fn law_pointer_stays_on_the_screen(
    held: HeldInput,
    x: i32,
    y: i32,
    buttons: u8,
    key: KeyboardKey,
    pressed: bool,
    screen_width: i32,
    screen_height: i32,
)
    ensures
        refusal(InputEvent::Pointer { x, y, buttons }, screen_width, screen_height) is None <==> 0
            <= x && x < screen_width && 0 <= y && y < screen_height && buttons < 8,
        refusal(InputEvent::Key { key, pressed }, screen_width, screen_height) is None,
        held.inputs(InputEvent::Key { key, pressed }, screen_width, screen_height) == seq![
            WindowsInput::Key(key_input(key, pressed)),
        ],
        held.after(InputEvent::Key { key, pressed: true }).keys == held.keys
            || !held.keys.contains(key) && held.after(InputEvent::Key { key, pressed: true }).keys
            == held.keys.push(key),
{
}

/// What is held is released from the last key back to the first, and then the buttons; nothing else
/// is made.
pub proof fn law_last_key_is_released_first(held: HeldInput, index: int)
    requires
        held.facts(),
        0 <= index < held.keys.len(),
    ensures
        held.releases()[index] == WindowsInput::Key(
            key_input(held.keys[held.keys.len() - 1 - index], false),
        ),
        held.releases().skip(held.keys.len() as int) == (if held.buttons % 2 == 1 {
            seq![pushes(0x04)]
        } else {
            Seq::empty()
        }) + (if held.buttons / 2 % 2 == 1 {
            seq![pushes(0x10)]
        } else {
            Seq::empty()
        }) + (if held.buttons / 4 == 1 {
            seq![pushes(0x40)]
        } else {
            Seq::empty()
        }),
{
    let buttons = button_change(held.buttons, 0, 1, MOUSEEVENTF_LEFTDOWN, MOUSEEVENTF_LEFTUP)
        + button_change(held.buttons, 0, 2, MOUSEEVENTF_RIGHTDOWN, MOUSEEVENTF_RIGHTUP)
        + button_change(held.buttons, 0, 4, MOUSEEVENTF_MIDDLEDOWN, MOUSEEVENTF_MIDDLEUP);
    assert(held.releases().skip(held.keys.len() as int) =~= buttons);
}

} // verus!
