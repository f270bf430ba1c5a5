//! The button wrapper and the plain board configuration values.

use core::convert::Infallible;

use embedded_hal::digital::ErrorType;
use embedded_hal::digital::InputPin;
use pico_bsp::inland_ks0061_default_i2c_address;
use pico_bsp::Button;
use pico_bsp::ServoSpec;
use pico_bsp::UsbHidConfig;

struct FakePin {
    level_low: bool,
}

impl ErrorType for FakePin {
    type Error = Infallible;
}

impl InputPin for FakePin {
    fn is_high(&mut self) -> Result<bool, Infallible> {
        Ok(!self.level_low)
    }

    fn is_low(&mut self) -> Result<bool, Infallible> {
        Ok(self.level_low)
    }
}

struct BrokenPin;

impl ErrorType for BrokenPin {
    type Error = embedded_hal::digital::ErrorKind;
}

impl InputPin for BrokenPin {
    fn is_high(&mut self) -> Result<bool, Self::Error> {
        Err(embedded_hal::digital::ErrorKind::Other)
    }

    fn is_low(&mut self) -> Result<bool, Self::Error> {
        Err(embedded_hal::digital::ErrorKind::Other)
    }
}

#[test]
fn low_level_means_pressed() {
    let mut b = Button::new(FakePin { level_low: true });
    assert!(b.is_pressed());
    assert!(!b.is_released());
}

#[test]
fn high_level_means_released() {
    let mut b = Button::new(FakePin { level_low: false });
    assert!(!b.is_pressed());
    assert!(b.is_released());
}

#[test]
fn read_error_counts_as_released() {
    let mut b = Button::new(BrokenPin);
    assert!(!b.is_pressed());
    assert!(b.is_released());
}

#[test]
fn default_i2c_address_is_0x27() {
    assert_eq!(inland_ks0061_default_i2c_address(), 0x27);
}

#[test]
fn usb_hid_defaults() {
    let c = UsbHidConfig::default();
    assert_eq!(c.vendor_id, 0xc0de);
    assert_eq!(c.product_id, 0xcafe);
    assert!(c.manufacturer.is_none());
    assert!(c.product.is_none());
    assert!(c.serial_number.is_none());
    assert_eq!(c.max_power, 100);
    assert_eq!(c.max_packet_size, 64);
}

#[test]
fn usb_hid_config_update_syntax() {
    let c = UsbHidConfig { product: Some("USB Keyboard"), ..UsbHidConfig::default() };
    assert_eq!(c.product, Some("USB Keyboard"));
    assert_eq!(c.vendor_id, 0xc0de);
}

#[test]
fn servo_presets_carry_their_datasheet_values() {
    let ks = ServoSpec::inland_ks0209();
    assert_eq!(ks.frame_us, 20_000);
    assert_eq!(ks.pulse_min_us, 1_000);
    assert_eq!(ks.pulse_max_us, 2_000);
    assert_eq!(ks.angle_min_mdeg, 0);
    assert_eq!(ks.angle_max_mdeg, 90_000);
    let mg = ServoSpec::makerhawk_mg995();
    assert_eq!(mg.frame_us, 20_000);
    assert_eq!(mg.pulse_min_us, 500);
    assert_eq!(mg.pulse_max_us, 2_500);
    assert_eq!(mg.angle_max_mdeg, 180_000);
}
