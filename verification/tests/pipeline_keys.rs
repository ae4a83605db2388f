use wattle_core::font::{get_char_raster, Config, GLYPH_HEIGHT, GLYPH_WIDTH};
use wattle_core::keys::{KeyDecoder, KeyPress};
use wattle_core::pipeline::{ScancodeStream, SCANCODE_QUEUE_SIZE};
use wattle_core::shell::{dispatch, line_step, LineAction, ShellReply};

#[test]
fn overflow_keeps_the_first_capacity_bytes_in_order() {
    // Pushing 1..=200 into the capacity-128 queue without draining loses
    // bytes 129..=200; the drain yields exactly the first 128, in order.
    let mut pipeline = ScancodeStream::new();
    for b in 1..=200u8 {
        pipeline.add_scancode(b);
    }
    let drained = pipeline.drain();
    let expected: Vec<u8> = (1..=SCANCODE_QUEUE_SIZE as u8).collect();
    assert_eq!(drained, expected);
    assert_eq!(pipeline.dropped, 200 - SCANCODE_QUEUE_SIZE as u64);
}

#[test]
fn pipeline_is_fifo() {
    let mut pipeline = ScancodeStream::new();
    let waker = futures_util::task::noop_waker();
    pipeline.add_scancode(9);
    pipeline.add_scancode(7);
    assert_eq!(pipeline.poll_scancode(&waker), Some(9));
    assert_eq!(pipeline.poll_scancode(&waker), Some(7));
    assert_eq!(pipeline.poll_scancode(&waker), None);
}

#[test]
fn resumed_consumer_drains_everything_pushed() {
    let mut pipeline = ScancodeStream::new();
    let waker = futures_util::task::noop_waker();
    // The consumer finds the queue empty and suspends (registering its waker).
    assert_eq!(pipeline.poll_scancode(&waker), None);
    // The producer pushes several bytes; the first push delivers the wake.
    for b in [3u8, 1, 4, 1, 5] {
        pipeline.add_scancode(b);
    }
    // Once resumed, the consumer sees every byte pushed so far.
    assert_eq!(pipeline.drain(), vec![3, 1, 4, 1, 5]);
    assert_eq!(pipeline.dropped, 0);
}

#[test]
fn glyph_raster_has_fixed_geometry() {
    let raster = get_char_raster('A');
    assert_eq!(raster.len(), GLYPH_HEIGHT);
    for row in &raster {
        assert_eq!(row.len(), GLYPH_WIDTH);
    }
    let config = Config::font();
    assert_eq!(config.width, GLYPH_WIDTH);
    assert_eq!(config.height, GLYPH_HEIGHT);
}

#[test]
fn glyphs_carry_real_coverage() {
    // A visible letter has inked cells; a space has none. This would fail
    // if the font lookup returned its input or a constant raster.
    let letter = get_char_raster('A');
    assert!(letter.iter().any(|row| row.iter().any(|&t| t > 0)));
    let space = get_char_raster(' ');
    assert!(space.iter().all(|row| row.iter().all(|&t| t == 0)));
    let fallback = get_char_raster('\u{2603}');
    assert!(fallback.iter().any(|row| row.iter().any(|&t| t > 0)));
    assert_ne!(letter, get_char_raster('B'));
}

#[test]
fn scancodes_decode_to_characters() {
    let mut decoder = KeyDecoder::new();
    // Scancode set 1: 0x02 is the '1' key press.
    match decoder.feed(0x02) {
        Some(KeyPress::Char(c)) => assert_eq!(c, '1'),
        other => panic!("expected a character, got {:?}", other.is_some()),
    }
    // 0x1E is the 'a' key press.
    let mut decoder = KeyDecoder::new();
    match decoder.feed(0x1E) {
        Some(KeyPress::Char(c)) => assert_eq!(c, 'a'),
        _ => panic!("expected a character"),
    }
}

#[test]
fn extended_scancodes_need_two_bytes() {
    let mut decoder = KeyDecoder::new();
    // 0xE0 opens an extended sequence and completes nothing by itself.
    assert!(decoder.feed(0xE0).is_none());
    // 0x48 then completes the up-arrow key, which is not a character.
    match decoder.feed(0x48) {
        Some(KeyPress::Raw(code)) => assert_eq!(code, pc_keyboard::KeyCode::ArrowUp),
        _ => panic!("expected a named key"),
    }
}

#[test]
fn line_editing() {
    let mut line: Vec<char> = Vec::new();
    assert_eq!(line_step(&mut line, KeyPress::Char('h')), LineAction::Echoed('h'));
    assert_eq!(line_step(&mut line, KeyPress::Char('i')), LineAction::Echoed('i'));
    assert_eq!(line, vec!['h', 'i']);
    assert_eq!(line_step(&mut line, KeyPress::Char('\u{8}')), LineAction::Erased);
    assert_eq!(line, vec!['h']);
    assert_eq!(
        line_step(&mut line, KeyPress::Raw(pc_keyboard::KeyCode::ArrowRight)),
        LineAction::Ignored
    );
    assert_eq!(line, vec!['h']);
    assert_eq!(line_step(&mut line, KeyPress::Char('\n')), LineAction::Submitted);
    assert_eq!(line, vec!['h']);
    let mut empty: Vec<char> = Vec::new();
    assert_eq!(line_step(&mut empty, KeyPress::Char('\u{8}')), LineAction::Ignored);
    assert!(empty.is_empty());
}

#[test]
fn command_dispatch() {
    assert_eq!(dispatch(&Vec::new()), ShellReply::Empty);
    assert_eq!(dispatch(&"help".chars().collect()), ShellReply::Help);
    assert_eq!(dispatch(&"clear".chars().collect()), ShellReply::Clear);
    assert_eq!(dispatch(&"helpp".chars().collect()), ShellReply::NotFound);
    assert_eq!(dispatch(&"clea".chars().collect()), ShellReply::NotFound);
}

#[test]
fn malformed_scancodes_are_discarded() {
    // Scancode 0 is not a valid make code in scancode set 1: the decoder
    // reports nothing, and decoding resumes cleanly with the next byte.
    let mut decoder = KeyDecoder::new();
    assert!(decoder.feed(0x00).is_none());
    match decoder.feed(0x1E) {
        Some(KeyPress::Char(c)) => assert_eq!(c, 'a'),
        _ => panic!("expected a character after the discarded byte"),
    }
}

struct CountingWaker {
    wakes: std::sync::atomic::AtomicUsize,
}

impl futures_util::task::ArcWake for CountingWaker {
    fn wake_by_ref(arc_self: &std::sync::Arc<Self>) {
        arc_self.wakes.fetch_add(1, std::sync::atomic::Ordering::SeqCst);
    }
}

#[test]
fn wakes_are_delivered_exactly_once_per_registration() {
    let counter = std::sync::Arc::new(CountingWaker {
        wakes: std::sync::atomic::AtomicUsize::new(0),
    });
    let waker = futures_util::task::waker(counter.clone());
    let count = |c: &std::sync::Arc<CountingWaker>| c.wakes.load(std::sync::atomic::Ordering::SeqCst);

    let mut pipeline = ScancodeStream::new();
    // A push with no consumer registered wakes nobody.
    pipeline.add_scancode(1);
    assert_eq!(count(&counter), 0);
    pipeline.drain();

    // The consumer suspends; several pushes before it runs again coalesce
    // into exactly one wake.
    assert_eq!(pipeline.poll_scancode(&waker), None);
    pipeline.add_scancode(2);
    pipeline.add_scancode(3);
    pipeline.add_scancode(4);
    assert_eq!(count(&counter), 1);
    // The resumed consumer observes every byte pushed up to that point.
    assert_eq!(pipeline.drain(), vec![2, 3, 4]);

    // A fresh registration earns a fresh wake.
    assert_eq!(pipeline.poll_scancode(&waker), None);
    pipeline.add_scancode(5);
    assert_eq!(count(&counter), 2);
}
