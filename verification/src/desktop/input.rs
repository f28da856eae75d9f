//! Limits on the input that a peer may send.
use crate::error::{DcError, DcErrorView};
use crate::protocol::types::InputEvent;
use vstd::prelude::*;

verus! {

/// A coordinate lies outside a desktop of the given extent. An extent that does not fit a signed
/// number leaves no coordinate inside.
pub open spec fn outside(coordinate: i32, extent: u32) -> bool {
    coordinate < 0 || extent > i32::MAX || coordinate >= extent
}

/// A wheel movement is larger than one event may carry.
pub open spec fn excessive(delta: i32) -> bool {
    delta > 12_000 || delta < -12_000
}

/// Why an input event is refused, if it is.
pub open spec fn input_failure(event: InputEvent, width: u32, height: u32) -> Option<DcErrorView> {
    match event {
        InputEvent::Pointer { x, y, buttons } => if buttons > 7 {
            Some(DcErrorView::InvalidInput("pointer contains unsupported button bits"@))
        } else if outside(x, width) || outside(y, height) {
            Some(DcErrorView::InvalidInput("pointer position is outside the desktop"@))
        } else {
            None
        },
        InputEvent::Wheel { delta_x, delta_y } => if excessive(delta_x) || excessive(delta_y) {
            Some(DcErrorView::InvalidInput("wheel delta exceeds the per-event limit"@))
        } else {
            None
        },
        InputEvent::Key { .. } => None,
    }
}

fn is_outside(coordinate: i32, extent: u32) -> (result: bool)
    ensures
        result == outside(coordinate, extent),
{
    coordinate < 0 || extent > 0x7fff_ffff || coordinate as u32 >= extent
}

/// Checks an input event against the desktop it is meant for.
pub fn validate_input(event: &InputEvent, width: u32, height: u32) -> (result: Result<(), DcError>)
    ensures
        match result {
            Ok(_) => input_failure(*event, width, height) is None,
            Err(e) => input_failure(*event, width, height) == Some(e@),
        },
{
    match event {
        InputEvent::Pointer { x, y, buttons } => {
            // The three lowest bits are the left, right and middle buttons.
            if *buttons > 7 {
                return Err(DcError::invalid_input("pointer contains unsupported button bits"));
            }
            if is_outside(*x, width) || is_outside(*y, height) {
                return Err(DcError::invalid_input("pointer position is outside the desktop"));
            }
        },
        InputEvent::Wheel { delta_x, delta_y } => {
            if *delta_x > 12_000 || *delta_x < -12_000 || *delta_y > 12_000 || *delta_y < -12_000 {
                return Err(DcError::invalid_input("wheel delta exceeds the per-event limit"));
            }
        },
        InputEvent::Key { .. } => {},
    }
    Ok(())
}

/// Input is taken exactly where the pointer is on the desktop and presses none but the three buttons,
/// and where the wheel turns by no more than a hundred notches. Keys are always taken.
pub proof fn law_input_on_the_desktop_is_taken(
    x: i32,
    y: i32,
    buttons: u8,
    delta_x: i32,
    delta_y: i32,
    key: InputEvent,
    width: u32,
    height: u32,
)
    requires
        width < 0x8000_0000,
        height < 0x8000_0000,
        key is Key,
    ensures
        input_failure(InputEvent::Pointer { x, y, buttons }, width, height) is None <==> 0 <= x
            && x < width && 0 <= y && y < height && buttons < 8,
        input_failure(InputEvent::Wheel { delta_x, delta_y }, width, height) is None <==> -12_000
            <= delta_x && delta_x <= 12_000 && -12_000 <= delta_y && delta_y <= 12_000,
        input_failure(key, width, height) is None,
{
}

} // verus!
