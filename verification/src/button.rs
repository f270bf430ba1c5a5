//! A GPIO push button wired active-low with a pull-up: pressed reads as a
//! low level. The pin read goes through the trusted `embedded_hal` call;
//! what comes back depends on the hardware, so nothing more than the
//! active-low inversion is stated.

use vstd::prelude::*;

verus! {

/// Reads the pin's current level through the HAL. The result depends on
/// the hardware at the moment of the call; a read error answers `None`.
///
/// Relies on `embedded_hal::digital::InputPin::is_low`.
#[verifier::external_body]
fn pin_is_low<P: embedded_hal::digital::InputPin>(pin: &mut P) -> (r: Option<bool>) {
    pin.is_low().ok()
}

/// Button on a pull-up input pin, active-low: the caller configures the
/// pin as a pull-up input before wrapping it.
pub struct Button<P> {
    pin: P,
}

impl<P> Button<P> where P: embedded_hal::digital::InputPin {
    /// Wrap a configured pull-up input pin.
    pub fn new(pin: P) -> Button<P> {
        Button { pin }
    }

    /// Whether the button is currently held down: the pin reads low
    /// (active-low wiring, button to ground). A read error counts as
    /// released.
    pub fn is_pressed(&mut self) -> bool {
        match pin_is_low(&mut self.pin) {
            Some(low) => low,
            None => false,
        }
    }

    /// Whether the button is currently up.
    pub fn is_released(&mut self) -> bool {
        !self.is_pressed()
    }
}

} // verus!
