//! Bounded-resource output encoding for a small microcontroller board:
//! fixed-width display text validation and splitting, a circular log buffer
//! with a throttled refresh policy, and an exact integer PWM timing solver
//! for servo control. The hardware transports (I2C, SPI, PWM registers,
//! GPIO, USB) live outside this crate; everything here is pure, verified
//! computation on plain values.

mod button;
mod ks0061;
mod lcd;
mod oled;
mod servo;
mod text;
mod usb;

pub use text::validate_line;
pub use text::split_content;
pub use text::take_preview;
pub use text::LineError;
pub use text::SplitError;

pub use lcd::LcdContent;
pub use lcd::LcdError;
pub use lcd::LcdString;
pub use lcd::LcdStringError;

pub use ks0061::inland_ks0061_default_i2c_address;
pub use ks0061::InlandKs0061Content;
pub use ks0061::InlandKs0061ContentError;
pub use ks0061::InlandKs0061I2cDisplayError;
pub use ks0061::InlandKs0061Line;
pub use ks0061::INLAND_KS0061_COLS;
pub use ks0061::INLAND_KS0061_DEFAULT_I2C_ADDRESS;
pub use ks0061::INLAND_KS0061_MAX_CHARS_PER_LINE;
pub use ks0061::INLAND_KS0061_MAX_CHARS_TOTAL;
pub use ks0061::INLAND_KS0061_ROWS;

pub use oled::validate_text_lines;
pub use oled::validate_text_slice;
pub use oled::InlandSh1106OledError;
pub use oled::LogRingBuffer;
pub use oled::RefreshThrottle;
pub use oled::ThrottledLog;
pub use oled::INLAND_SH1106_HEIGHT;
pub use oled::INLAND_SH1106_LOGS_REFRESH_INTERVAL_MS;
pub use oled::INLAND_SH1106_MAX_CHARS_PER_LINE;
pub use oled::INLAND_SH1106_MAX_TEXT_LINES;
pub use oled::INLAND_SH1106_TEXT_LINE_HEIGHT;
pub use oled::INLAND_SH1106_WIDTH;

pub use servo::angle_to_duty;
pub use servo::us_to_counts;
pub use servo::ServoConfig;
pub use servo::ServoError;
pub use servo::ServoSpec;

pub use button::Button;

pub use usb::UsbHidConfig;
pub use usb::UsbHidError;
