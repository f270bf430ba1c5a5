//! The OLED text mode, the circular log buffer, and the refresh throttle.

use pico_bsp::InlandSh1106OledError;
use pico_bsp::LogRingBuffer;
use pico_bsp::ThrottledLog;
use pico_bsp::validate_text_lines;
use pico_bsp::validate_text_slice;

#[test]
fn text_within_geometry_is_accepted() {
    let lines = validate_text_lines("boot\nwifi up\nready").expect("three short lines fit");
    assert_eq!(lines, vec!["boot", "wifi up", "ready"]);
}

#[test]
fn empty_text_is_one_empty_line() {
    let lines = validate_text_lines("").expect("empty text fits");
    assert_eq!(lines, vec![""]);
}

#[test]
fn trailing_newline_opens_a_final_empty_segment() {
    let lines = validate_text_lines("a\n").expect("two segments fit");
    assert_eq!(lines, vec!["a", ""]);
}

#[test]
fn ten_lines_fit_eleven_do_not() {
    let ten = vec!["x"; 10].join("\n");
    assert_eq!(validate_text_lines(&ten).expect("ten lines fit").len(), 10);
    let eleven = vec!["x"; 11].join("\n");
    match validate_text_lines(&eleven) {
        Err(InlandSh1106OledError::TooManyLines { actual_lines, max_lines }) => {
            assert_eq!(actual_lines, 11);
            assert_eq!(max_lines, 10);
        }
        other => panic!("expected TooManyLines, got {:?}", other),
    }
}

#[test]
fn over_length_line_is_located() {
    let long: String = "z".repeat(33);
    let text = format!("ok\n{}\nok", long);
    match validate_text_lines(&text) {
        Err(InlandSh1106OledError::LineTooLong { line_index, actual_chars, max_chars }) => {
            assert_eq!(line_index, 1);
            assert_eq!(actual_chars, 33);
            assert_eq!(max_chars, 32);
        }
        other => panic!("expected LineTooLong, got {:?}", other),
    }
}

#[test]
fn over_length_line_wins_over_line_count() {
    // Twelve segments, the fourth over-length: the scan meets it first.
    let long: String = "w".repeat(40);
    let text = format!("a\nb\nc\n{}\ne\nf\ng\nh\ni\nj\nk\nl", long);
    match validate_text_lines(&text) {
        Err(InlandSh1106OledError::LineTooLong { line_index, actual_chars, .. }) => {
            assert_eq!(line_index, 3);
            assert_eq!(actual_chars, 40);
        }
        other => panic!("expected LineTooLong, got {:?}", other),
    }
}

#[test]
fn pre_split_lines_check_count_before_length() {
    // For lines handed in already split, the row count is checked first,
    // even when an early row is also over-length.
    let mut eleven: Vec<String> = vec!["q".repeat(40)];
    eleven.extend((0..10).map(|_| String::new()));
    match validate_text_slice(&eleven) {
        Err(InlandSh1106OledError::TooManyLines { actual_lines, max_lines }) => {
            assert_eq!(actual_lines, 11);
            assert_eq!(max_lines, 10);
        }
        other => panic!("expected TooManyLines, got {:?}", other),
    }
    let bad_row: Vec<String> = vec!["ok".to_string(), "q".repeat(33)];
    match validate_text_slice(&bad_row) {
        Err(InlandSh1106OledError::LineTooLong { line_index, actual_chars, max_chars }) => {
            assert_eq!(line_index, 1);
            assert_eq!(actual_chars, 33);
            assert_eq!(max_chars, 32);
        }
        other => panic!("expected LineTooLong, got {:?}", other),
    }
    assert!(validate_text_slice(&vec!["a".to_string(), "b".to_string()]).is_ok());
}

#[test]
fn ring_starts_empty_and_renders_blank_rows() {
    let ring = LogRingBuffer::new();
    assert_eq!(ring.len(), 0);
    let frame = ring.render();
    assert_eq!(frame.len(), 10);
    assert!(frame.iter().all(|l| l.is_empty()));
}

#[test]
fn ring_pads_empty_rows_first() {
    let mut ring = LogRingBuffer::new();
    ring.push("one");
    ring.push("two");
    ring.push("three");
    assert_eq!(ring.len(), 3);
    let frame = ring.render();
    assert_eq!(frame.len(), 10);
    assert!(frame[..7].iter().all(|l| l.is_empty()));
    assert_eq!(frame[7..], ["one", "two", "three"]);
}

#[test]
fn ring_retains_the_last_ten_in_order() {
    // 13 insertions into 10 slots: exactly the last 10 stay, oldest first.
    let mut ring = LogRingBuffer::new();
    for i in 0..13 {
        ring.push(&format!("msg{}", i));
    }
    assert_eq!(ring.len(), 10);
    let frame = ring.render();
    let expected: Vec<String> = (3..13).map(|i| format!("msg{}", i)).collect();
    assert_eq!(frame, expected);
}

#[test]
fn ring_truncates_to_32_characters() {
    let mut ring = LogRingBuffer::new();
    ring.push(&"a".repeat(40));
    let frame = ring.render();
    assert_eq!(frame[9], "a".repeat(32));
}

#[test]
fn two_logs_within_the_interval_render_once() {
    let mut log = ThrottledLog::new();
    // Never rendered and dirty: the first call renders at once.
    let first = log.log("boot", 1_000);
    assert!(first.is_some());
    log.confirm_rendered(1_000);
    // Both following calls fall inside the 75 ms interval: no render.
    assert!(log.log("a", 1_010).is_none());
    assert!(log.log("b", 1_074).is_none());
    // Once the interval has passed, the next call renders again.
    let later = log.log("c", 1_075);
    assert!(later.is_some());
}

#[test]
fn flush_renders_exactly_when_dirty() {
    let mut log = ThrottledLog::new();
    let first = log.log("boot", 2_000);
    assert!(first.is_some());
    log.confirm_rendered(2_000);
    // Clean buffer: even a forced flush has nothing to do.
    assert!(log.flush(2_001).is_none());
    // Dirty buffer: a forced flush renders regardless of elapsed time.
    assert!(log.log("x", 2_010).is_none());
    let frame = log.flush(2_011).expect("dirty buffer must flush");
    assert_eq!(frame.len(), 10);
    log.confirm_rendered(2_011);
    assert!(log.flush(2_012).is_none());
}

#[test]
fn failed_render_leaves_state_dirty_for_retry() {
    let mut log = ThrottledLog::new();
    let frame = log.log("boot", 3_000);
    assert!(frame.is_some());
    // The transport rejected the write: no confirmation. A flush still
    // hands the frame back.
    assert!(log.flush(3_001).is_some());
}

#[test]
fn rendered_frames_always_fit_the_panel() {
    let mut log = ThrottledLog::new();
    log.log(&"m".repeat(60), 0);
    let frame = log.log("tail", 1_000).expect("due: never rendered");
    assert!(validate_text_slice(&frame).is_ok());
}

#[test]
fn throttled_frame_shows_newest_at_the_bottom() {
    let mut log = ThrottledLog::new();
    log.log("first", 0);
    let frame = log.log("second", 1_000).expect("due: never rendered");
    assert_eq!(frame.len(), 10);
    assert_eq!(frame[8], "first");
    assert_eq!(frame[9], "second");
    assert!(frame[..8].iter().all(|l| l.is_empty()));
}
