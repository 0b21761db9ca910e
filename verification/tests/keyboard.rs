use jura_os::task::keyboard::{
    add_scancode, print_keypress, ScancodeChannel, ScancodeStream, Signal, StreamError,
    QUEUE_CAPACITY,
};
use jura_os::task::line_editor::{Response, PROMPT};
use jura_os::task::Poll;

fn text(response: &Response) -> String {
    match response {
        Response::Print(chars) => chars.iter().collect(),
        other => panic!("expected text, got {:?}", other),
    }
}

#[test]
fn stream_yields_codes_in_the_order_pushed() {
    let mut channel: ScancodeChannel<u32> = ScancodeChannel::new();
    let mut stream = ScancodeStream::new(&mut channel).unwrap();
    let codes: Vec<u8> = vec![0x23, 0x17, 0x1c, 0x00, 0xff, 0x23];
    for code in &codes {
        assert_eq!(add_scancode(&mut channel, *code), Signal::Delivered(None));
    }
    let mut yielded = Vec::new();
    for _ in 0..codes.len() {
        match stream.poll_next(&mut channel, 7) {
            Poll::Ready(code) => yielded.push(code),
            Poll::Pending => panic!("the stream suspended early"),
        }
    }
    assert_eq!(yielded, codes);
    assert_eq!(stream.poll_next(&mut channel, 7), Poll::Pending);
}

#[test]
fn full_queue_drops_only_the_excess_tail() {
    let mut channel: ScancodeChannel<u32> = ScancodeChannel::new();
    let mut stream = ScancodeStream::new(&mut channel).unwrap();
    assert_eq!(QUEUE_CAPACITY, 100);
    for i in 0..130u32 {
        let outcome = add_scancode(&mut channel, i as u8);
        if i < 100 {
            assert_eq!(outcome, Signal::Delivered(None));
        } else {
            assert_eq!(outcome, Signal::Dropped);
        }
    }
    for i in 0..100u32 {
        assert_eq!(stream.poll_next(&mut channel, 1), Poll::Ready(i as u8));
    }
    assert_eq!(stream.poll_next(&mut channel, 1), Poll::Pending);
}

#[test]
fn queue_takes_codes_again_after_a_pop() {
    let mut channel: ScancodeChannel<u32> = ScancodeChannel::new();
    let mut stream = ScancodeStream::new(&mut channel).unwrap();
    for i in 0..100u8 {
        assert_eq!(add_scancode(&mut channel, i), Signal::Delivered(None));
    }
    assert_eq!(add_scancode(&mut channel, 200), Signal::Dropped);
    assert_eq!(stream.poll_next(&mut channel, 1), Poll::Ready(0));
    assert_eq!(add_scancode(&mut channel, 201), Signal::Delivered(None));
    for i in 1..100u8 {
        assert_eq!(stream.poll_next(&mut channel, 1), Poll::Ready(i));
    }
    assert_eq!(stream.poll_next(&mut channel, 1), Poll::Ready(201));
}

#[test]
fn code_pushed_between_first_look_and_registration_is_not_lost() {
    let mut channel: ScancodeChannel<u32> = ScancodeChannel::new();
    let mut stream = ScancodeStream::new(&mut channel).unwrap();
    // An earlier poll suspended and left its handle behind.
    assert_eq!(stream.poll_next(&mut channel, 1), Poll::Pending);
    // The next poll looks and finds nothing ...
    assert_eq!(stream.poll_ready(&mut channel), None);
    // ... the interrupt fires and wakes the handle of the earlier poll ...
    assert_eq!(add_scancode(&mut channel, 0x2a), Signal::Delivered(Some(1)));
    // ... and the poll goes on: it registers, looks again and finds the code.
    stream.poll_register(&mut channel, 2);
    assert_eq!(stream.poll_recheck(&mut channel), Poll::Ready(0x2a));
    // The handle registered just before was withdrawn.
    assert_eq!(add_scancode(&mut channel, 0x2b), Signal::Delivered(None));
}

#[test]
fn suspended_consumer_is_handed_out_by_the_next_signal() {
    let mut channel: ScancodeChannel<u32> = ScancodeChannel::new();
    let mut stream = ScancodeStream::new(&mut channel).unwrap();
    assert_eq!(stream.poll_next(&mut channel, 41), Poll::Pending);
    assert_eq!(add_scancode(&mut channel, 9), Signal::Delivered(Some(41)));
    assert_eq!(add_scancode(&mut channel, 10), Signal::Delivered(None));
    assert_eq!(stream.poll_next(&mut channel, 42), Poll::Ready(9));
    assert_eq!(stream.poll_next(&mut channel, 42), Poll::Ready(10));
}

#[test]
fn later_registration_replaces_the_earlier_one() {
    let mut channel: ScancodeChannel<u32> = ScancodeChannel::new();
    let mut stream = ScancodeStream::new(&mut channel).unwrap();
    assert_eq!(stream.poll_next(&mut channel, 1), Poll::Pending);
    assert_eq!(stream.poll_next(&mut channel, 2), Poll::Pending);
    assert_eq!(add_scancode(&mut channel, 9), Signal::Delivered(Some(2)));
}

#[test]
fn signal_before_the_stream_exists_is_reported() {
    let mut channel: ScancodeChannel<u32> = ScancodeChannel::new();
    assert_eq!(add_scancode(&mut channel, 1), Signal::Uninitialized);
    let mut stream = ScancodeStream::new(&mut channel).unwrap();
    assert_eq!(stream.poll_next(&mut channel, 1), Poll::Pending);
}

#[test]
fn second_stream_is_refused() {
    let mut channel: ScancodeChannel<u32> = ScancodeChannel::new();
    let mut stream = ScancodeStream::new(&mut channel).unwrap();
    assert_eq!(add_scancode(&mut channel, 5), Signal::Delivered(None));
    assert!(matches!(ScancodeStream::new(&mut channel), Err(StreamError::AlreadyConstructed)));
    assert!(matches!(print_keypress(&mut channel), Err(StreamError::AlreadyConstructed)));
    // The refusal left the queue as it was.
    assert_eq!(stream.poll_next(&mut channel, 1), Poll::Ready(5));
}

#[test]
fn keyboard_task_prints_the_prompt_then_echoes_typed_keys() {
    let mut channel: ScancodeChannel<u32> = ScancodeChannel::new();
    let mut task = print_keypress(&mut channel).unwrap();
    match task.step(&mut channel, 1, 24) {
        Poll::Ready(response) => assert_eq!(text(&response), PROMPT),
        Poll::Pending => panic!("the first step prints the prompt"),
    }
    assert_eq!(task.step(&mut channel, 1, 24), Poll::Pending);
    // Scan code set 1: 0x23 is `h` down, 0xa3 is `h` up, 0x17 is `i` down,
    // 0x1c is the return key down.
    for code in [0x23u8, 0xa3, 0x17, 0x1c] {
        add_scancode(&mut channel, code);
    }
    match task.step(&mut channel, 1, 24) {
        Poll::Ready(response) => assert_eq!(text(&response), "h"),
        Poll::Pending => panic!("a code was queued"),
    }
    assert_eq!(task.step(&mut channel, 1, 24), Poll::Ready(Response::Nothing));
    match task.step(&mut channel, 1, 24) {
        Poll::Ready(response) => assert_eq!(text(&response), "i"),
        Poll::Pending => panic!("a code was queued"),
    }
    match task.step(&mut channel, 1, 24) {
        Poll::Ready(response) => assert_eq!(text(&response), format!("\nhi\n\n{}", PROMPT)),
        Poll::Pending => panic!("a code was queued"),
    }
    assert_eq!(task.step(&mut channel, 1, 24), Poll::Pending);
}
