use embedded_hal_sim::serial::split;
use embedded_hal_sim::serial::IdleRead;
use embedded_hal_sim::serial::LineEvent;
use embedded_hal_sim::serial::Port;
use embedded_hal_sim::serial::ReadStep;
use embedded_hal_sim::serial::Refusal;
use embedded_hal_sim::serial::Uart;
use embedded_hal_sim::serial::WriteError;
use embedded_hal_sim::serial::MAX_BUFFER;
use std::time::Duration;

fn drain(port: &mut Port) -> Vec<u8> {
    let mut bytes = Vec::new();
    while let Ok(byte) = port.receiver().try_recv() {
        bytes.push(byte);
    }
    bytes
}

#[test]
fn the_buffer_limit_is_a_quarter_of_the_address_space() {
    assert_eq!(MAX_BUFFER, usize::MAX >> 2);
}

#[test]
fn what_one_port_writes_the_other_receives_in_order() {
    let (mut uart, mut stimulus) = Uart::new(Duration::from_millis(20), 10);
    assert_eq!(uart.try_write(b"hello"), Ok(()));
    assert_eq!(drain(stimulus.port()), b"hello");
    assert_eq!(drain(uart.port()), b"");
    assert_eq!(stimulus.try_write(&[1, 2, 3]), Ok(()));
    assert_eq!(stimulus.try_write(&[4]), Ok(()));
    assert_eq!(drain(uart.port()), [1, 2, 3, 4]);
}

#[test]
fn a_port_keeps_its_timeout() {
    let (mut uart, mut stimulus) = Uart::new(Duration::from_millis(20), 10);
    assert_eq!(uart.port().timeout(), Duration::from_millis(20));
    assert_eq!(stimulus.port().timeout(), Duration::from_millis(20));
}

#[test]
fn writing_nothing_succeeds() {
    let (mut uart, mut stimulus) = Uart::new(Duration::from_millis(1), 0);
    assert_eq!(uart.try_write(&[]), Ok(()));
    assert_eq!(drain(stimulus.port()), b"");
}

#[test]
fn a_full_queue_cuts_a_write_short() {
    let (mut uart, mut stimulus) = Uart::new(Duration::from_millis(1), 2);
    assert_eq!(
        uart.try_write(&[1, 2, 3, 4, 5]),
        Err(WriteError { sent: 3, refusal: Refusal::Full })
    );
    assert_eq!(uart.try_write(&[6]), Err(WriteError { sent: 0, refusal: Refusal::Full }));
    assert_eq!(drain(stimulus.port()), [1, 2, 3]);
    assert_eq!(uart.try_write(&[7, 8]), Ok(()));
    assert_eq!(drain(stimulus.port()), [7, 8]);
}

#[test]
fn a_queue_without_buffer_holds_one_byte() {
    let (mut a, mut b) = split::new(Duration::from_millis(1), 0);
    assert_eq!(a.try_write(&[9, 8]), Err(WriteError { sent: 1, refusal: Refusal::Full }));
    assert_eq!(drain(b.port()), [9]);
}

#[test]
fn a_closed_queue_refuses_every_byte() {
    let (mut uart, stimulus) = Uart::new(Duration::from_millis(1), 4);
    drop(stimulus);
    assert_eq!(uart.try_write(&[1, 2]), Err(WriteError { sent: 0, refusal: Refusal::Closed }));
}

#[test]
fn split_ports_are_joined_to_each_other() {
    let (mut a, mut b) = split::new(Duration::from_millis(5), 8);
    assert_eq!(a.try_write(b"ping"), Ok(()));
    assert_eq!(b.try_write(b"pong"), Ok(()));
    assert_eq!(drain(b.port()), b"ping");
    assert_eq!(drain(a.port()), b"pong");
    assert_eq!(a.port().timeout(), Duration::from_millis(5));
}

#[test]
fn ports_come_in_pairs() {
    let (mut a, mut b) = Port::pair(Duration::from_secs(1), 1);
    assert_eq!(a.try_write(&[0x55]), Ok(()));
    assert_eq!(drain(&mut b), [0x55]);
    assert_eq!(b.timeout(), Duration::from_secs(1));
}

#[test]
fn a_read_collects_bytes_until_the_line_is_idle() {
    let mut dst = [0u8; 8];
    let mut read = IdleRead::new();
    assert_eq!(read.step(&dst), ReadStep::Wait);
    assert_eq!(read.on_event(&mut dst, LineEvent::Byte(b'a')), ReadStep::Wait);
    assert_eq!(read.on_event(&mut dst, LineEvent::Byte(b'b')), ReadStep::Wait);
    assert_eq!(read.on_event(&mut dst, LineEvent::Idle), ReadStep::Done(2));
    assert_eq!(dst, [b'a', b'b', 0, 0, 0, 0, 0, 0]);
    assert_eq!(read.step(&dst), ReadStep::Done(2));
}

#[test]
fn a_read_ends_when_the_buffer_is_full() {
    let mut dst = [0u8; 2];
    let mut read = IdleRead::new();
    assert_eq!(read.on_event(&mut dst, LineEvent::Byte(1)), ReadStep::Wait);
    assert_eq!(read.on_event(&mut dst, LineEvent::Byte(2)), ReadStep::Done(2));
    assert_eq!(read.on_event(&mut dst, LineEvent::Byte(3)), ReadStep::Done(2));
    assert_eq!(dst, [1, 2]);
}

#[test]
fn a_read_into_no_room_is_over_at_once() {
    let mut dst = [0u8; 0];
    let mut read = IdleRead::new();
    assert_eq!(read.step(&dst), ReadStep::Done(0));
    assert_eq!(read.on_event(&mut dst, LineEvent::Byte(1)), ReadStep::Done(0));
}

#[test]
fn an_idle_line_gives_an_empty_frame() {
    let mut dst = [7u8; 3];
    let mut read = IdleRead::new();
    assert_eq!(read.on_event(&mut dst, LineEvent::Idle), ReadStep::Done(0));
    assert_eq!(read.on_event(&mut dst, LineEvent::Byte(1)), ReadStep::Done(0));
    assert_eq!(dst, [7, 7, 7]);
}

#[test]
fn a_burst_is_read_as_one_frame() {
    let events = [
        LineEvent::Byte(10),
        LineEvent::Byte(20),
        LineEvent::Byte(30),
        LineEvent::Idle,
        LineEvent::Byte(40),
    ];
    let mut dst = [0xEE; 5];
    assert_eq!(IdleRead::replay(&events, &mut dst), (3, 4));
    assert_eq!(dst, [10, 20, 30, 0xEE, 0xEE]);
}

#[test]
fn a_pause_parts_two_frames() {
    let events = [
        LineEvent::Byte(1),
        LineEvent::Byte(2),
        LineEvent::Idle,
        LineEvent::Byte(3),
        LineEvent::Idle,
    ];
    let mut dst = [0u8; 4];
    let (count, taken) = IdleRead::replay(&events, &mut dst);
    assert_eq!((count, taken), (2, 3));
    assert_eq!(&dst[..count], [1, 2]);
    let (count, taken) = IdleRead::replay(&events[taken..], &mut dst);
    assert_eq!((count, taken), (1, 2));
    assert_eq!(&dst[..count], [3]);
}

#[test]
fn a_burst_that_fills_the_buffer_leaves_its_pause_on_the_line() {
    let events = [LineEvent::Byte(1), LineEvent::Byte(2), LineEvent::Idle, LineEvent::Byte(3)];
    let mut dst = [0u8; 2];
    assert_eq!(IdleRead::replay(&events, &mut dst), (2, 2));
    assert_eq!(dst, [1, 2]);
    assert_eq!(IdleRead::replay(&events[2..], &mut dst), (0, 1));
    assert_eq!(IdleRead::replay(&events[3..], &mut dst), (1, 1));
    assert_eq!(dst, [3, 2]);
}

#[test]
fn a_line_that_ends_ends_the_replay() {
    let mut dst = [0u8; 4];
    assert_eq!(IdleRead::replay(&[LineEvent::Byte(5)], &mut dst), (1, 1));
    assert_eq!(IdleRead::replay(&[], &mut dst), (0, 0));
    assert_eq!(dst, [5, 0, 0, 0]);
}

#[test]
fn each_port_feeds_the_other_and_not_itself() {
    let (mut uart, mut stimulus) = Uart::new(Duration::from_millis(1), 4);
    let to_stimulus = uart.port().sender().clone();
    let to_uart = stimulus.port().sender().clone();
    assert!(to_stimulus.is_connected_to(stimulus.port().receiver()));
    assert!(to_uart.is_connected_to(uart.port().receiver()));
    assert!(!to_stimulus.is_connected_to(uart.port().receiver()));
    assert!(!to_uart.is_connected_to(stimulus.port().receiver()));
    let (mut a, mut b) = split::new(Duration::from_millis(1), 4);
    let to_b = a.port().sender().clone();
    assert!(to_b.is_connected_to(b.port().receiver()));
    assert!(!to_b.is_connected_to(a.port().receiver()));
}

#[test]
fn the_two_directions_do_not_mix() {
    let (mut uart, mut stimulus) = Uart::new(Duration::from_millis(1), 8);
    assert_eq!(uart.try_write(&[1, 2]), Ok(()));
    assert_eq!(stimulus.try_write(&[7]), Ok(()));
    assert_eq!(uart.try_write(&[3]), Ok(()));
    assert_eq!(stimulus.try_write(&[8, 9]), Ok(()));
    assert_eq!(drain(stimulus.port()), [1, 2, 3]);
    assert_eq!(drain(uart.port()), [7, 8, 9]);
}
