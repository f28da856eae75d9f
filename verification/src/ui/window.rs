//! The size of a new preview window.
use vstd::prelude::*;

verus! {

/// The width that a window gets at most where the screen's size is not known.
pub const MAX_INITIAL_WIDTH: usize = 1_280;

/// The height that a window gets at most where the screen's size is not known.
pub const MAX_INITIAL_HEIGHT: usize = 720;

/// The height of the screen that is left free for the window's frame.
pub const WINDOW_DECORATION_HEIGHT: usize = 80;

/// The space for a window on a screen.
pub open spec fn window_space(screen: Option<(usize, usize)>) -> (int, int) {
    match screen {
        Some((width, height)) => (
            width as int,
            if height < WINDOW_DECORATION_HEIGHT {
                0
            } else {
                height - WINDOW_DECORATION_HEIGHT
            },
        ),
        None => (MAX_INITIAL_WIDTH as int, MAX_INITIAL_HEIGHT as int),
    }
}

/// A quotient rounded to the nearest number, a half up.
pub open spec fn rounded(value: int, divisor: int) -> int {
    if 2 * (value % divisor) >= divisor {
        value / divisor + 1
    } else {
        value / divisor
    }
}

pub open spec fn at_least_one(value: int) -> int {
    if value < 1 {
        1
    } else {
        value
    }
}

/// The size of a window for a picture: the picture's own size where it fits, else the largest
/// size with the picture's proportions.
pub open spec fn window_size(width: int, height: int, space: (int, int)) -> (int, int) {
    if width <= space.0 && height <= space.1 {
        (width, height)
    } else if width > 0 && space.0 * height <= space.1 * width {
        (at_least_one(space.0), at_least_one(rounded(height * space.0, width)))
    } else {
        (at_least_one(rounded(width * space.1, height)), at_least_one(space.1))
    }
}

proof fn lemma_product(first: int, second: int)
    requires
        0 <= first <= u64::MAX,
        0 <= second <= u64::MAX,
    ensures
        0 <= first * second <= u64::MAX * u64::MAX,
{
    assert(0 <= first * second <= u64::MAX * u64::MAX) by (nonlinear_arith)
        requires
            0 <= first <= u64::MAX,
            0 <= second <= u64::MAX,
    ;
}

/// A rounded quotient is near the quotient, and not above a bound of it.
proof fn lemma_rounded(value: int, divisor: int, bound: int)
    requires
        0 <= value,
        0 < divisor,
        value <= bound * divisor,
    ensures
        0 <= rounded(value, divisor) <= bound,
        -divisor < 2 * (rounded(value, divisor) * divisor - value) <= divisor,
{
    let quotient = value / divisor;
    let rest = value % divisor;
    vstd::arithmetic::div_mod::lemma_fundamental_div_mod(value, divisor);
    assert(divisor * quotient == quotient * divisor && (quotient + 1) * divisor == quotient * divisor
        + divisor) by (nonlinear_arith);
    assert(0 <= quotient) by (nonlinear_arith)
        requires
            0 <= value,
            0 < divisor,
            quotient == value / divisor,
    ;
    assert(quotient <= bound && (rest > 0 ==> quotient + 1 <= bound)) by (nonlinear_arith)
        requires
            0 < divisor,
            0 <= rest < divisor,
            value == quotient * divisor + rest,
            value <= bound * divisor,
    ;
}

/// Divides a product, rounded to the nearest number.
fn scale(first: usize, second: usize, divisor: usize, Ghost(bound): Ghost<int>) -> (result: usize)
    requires
        0 < divisor,
        first * second <= bound * divisor,
        bound <= usize::MAX,
    ensures
        result == at_least_one(rounded(first * second, divisor as int)),
{
    proof {
        lemma_product(first as int, second as int);
        lemma_rounded(first * second, divisor as int, bound);
    }
    let value: u128 = first as u128 * second as u128;
    let quotient: u128 = value / divisor as u128;
    let rest: u128 = value % divisor as u128;
    let nearest: u128 = if 2 * rest >= divisor as u128 {
        quotient + 1
    } else {
        quotient
    };
    if nearest < 1 {
        1
    } else {
        nearest as usize
    }
}

/// The size of a window that shows a picture, on a screen whose size may not be known.
pub fn initial_window_size(width: usize, height: usize, screen: Option<(usize, usize)>) -> (size: (
    usize,
    usize,
))
    ensures
        (size.0 as int, size.1 as int) == window_size(
            width as int,
            height as int,
            window_space(screen),
        ),
{
    let (max_width, max_height): (usize, usize) = match screen {
        Some((screen_width, screen_height)) => (
            screen_width,
            if screen_height < WINDOW_DECORATION_HEIGHT {
                0
            } else {
                screen_height - WINDOW_DECORATION_HEIGHT
            },
        ),
        None => (MAX_INITIAL_WIDTH, MAX_INITIAL_HEIGHT),
    };
    if width <= max_width && height <= max_height {
        return (width, height);
    }
    proof {
        lemma_product(max_width as int, height as int);
        lemma_product(max_height as int, width as int);
        assert(height * max_width == max_width * height) by (nonlinear_arith);
        assert(width * max_height == max_height * width) by (nonlinear_arith);
        assert(width == 0 ==> max_height * width == 0) by (nonlinear_arith);
        assert(height == 0 ==> max_width * height == 0) by (nonlinear_arith);
    }
    if width > 0 && max_width as u128 * height as u128 <= max_height as u128 * width as u128 {
        let scaled: usize = scale(height, max_width, width, Ghost(max_height as int));
        (if max_width < 1 {
            1
        } else {
            max_width
        }, scaled)
    } else {
        let scaled: usize = scale(width, max_height, height, Ghost(max_width as int));
        (scaled, if max_height < 1 {
            1
        } else {
            max_height
        })
    }
}

/// A window fits into its space, and its sides have the proportions of the picture up to the
/// rounding of one side to a whole number.
pub proof fn law_window_keeps_proportions(width: int, height: int, space: (int, int))
    requires
        0 < width,
        0 < height,
        0 < space.0,
        0 < space.1,
    ensures
        ({
            let size = window_size(width, height, space);
            let difference = 2 * (size.0 * height - size.1 * width);
            &&& 0 < size.0 <= space.0
            &&& 0 < size.1 <= space.1
            &&& (-width <= difference <= width || size.1 == 1) || (-height <= difference <= height
                || size.0 == 1)
        }),
{
    assert(height * space.0 == space.0 * height) by (nonlinear_arith);
    assert(width * space.1 == space.1 * width) by (nonlinear_arith);
    if width <= space.0 && height <= space.1 {
        assert(width * height == height * width) by (nonlinear_arith);
    } else if space.0 * height <= space.1 * width {
        assert(height * space.0 >= 0) by (nonlinear_arith)
            requires
                height > 0,
                space.0 > 0,
        ;
        lemma_rounded(height * space.0, width, space.1);
    } else {
        assert(width * space.1 >= 0) by (nonlinear_arith)
            requires
                width > 0,
                space.1 > 0,
        ;
        lemma_rounded(width * space.1, height, space.0);
    }
}

/// A picture that fits the space is shown as it is; a larger one fills the space in one direction.
/// The space is the screen without eighty rows, or 1280 by 720 where the screen is not known.
pub proof fn law_window_fills_its_space(
    width: int,
    height: int,
    space: (int, int),
    screen: Option<(usize, usize)>,
)
    requires
        0 < width,
        0 < height,
        0 < space.0,
        0 < space.1,
    ensures
        ({
            let size = window_size(width, height, space);
            &&& width <= space.0 && height <= space.1 ==> size == (width, height)
            &&& width > space.0 || height > space.1 ==> size.0 == space.0 || size.1 == space.1
        }),
        screen is None ==> window_space(screen) == (1280int, 720int),
        screen matches Some(size) ==> window_space(screen).0 == size.0 && window_space(screen).1
            == (if size.1 >= 80 {
            size.1 - 80
        } else {
            0
        }),
{
}

/// The side of a larger picture that does not fill the space is the whole number next to what the
/// proportions ask for; of two that are as near it is the larger one.
pub proof fn law_window_side_is_the_nearest(width: int, height: int, space: (int, int))
    requires
        0 < width,
        0 < height,
        0 < space.0,
        0 < space.1,
        width > space.0 || height > space.1,
    ensures
        ({
            let size = window_size(width, height, space);
            &&& height * space.0 <= width * space.1 ==> size.0 == space.0 && (size.1 == 1 || -width
                < 2 * (size.1 * width - height * space.0) <= width)
            &&& height * space.0 > width * space.1 ==> size.1 == space.1 && (size.0 == 1 || -height
                < 2 * (size.0 * height - width * space.1) <= height)
        }),
{
    assert(height * space.0 == space.0 * height) by (nonlinear_arith);
    assert(width * space.1 == space.1 * width) by (nonlinear_arith);
    assert(height * space.0 >= 0) by (nonlinear_arith)
        requires
            height > 0,
            space.0 > 0,
    ;
    assert(width * space.1 >= 0) by (nonlinear_arith)
        requires
            width > 0,
            space.1 > 0,
    ;
    if height * space.0 <= width * space.1 {
        lemma_rounded(height * space.0, width, space.1);
    } else {
        lemma_rounded(width * space.1, height, space.0);
    }
}

} // verus!
