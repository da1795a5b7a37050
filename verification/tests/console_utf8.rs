use kernel_core::console::framebuffer::Framebuffer;
use kernel_core::console::utf8::{decode_stop, Resume, Utf8Decoder};
use kernel_core::console::Console;
use kernel_core::platform::uart::UartTranscript;
use kernel_core::syscall::fd::{console_finish_stream, console_start_line, console_write, FlushCounter};

#[test]
fn whole_characters_decode_at_once() {
    let mut d = Utf8Decoder::new();
    assert_eq!(d.push("héllo €".as_bytes()), "héllo €".chars().collect::<Vec<_>>());
    assert!(!d.is_pending());
}

#[test]
fn a_character_split_across_writes_is_kept_until_whole() {
    let mut d = Utf8Decoder::new();
    assert_eq!(d.push(&[b'a', 0xe2, 0x82]), vec!['a']);
    assert!(d.is_pending());
    assert_eq!(d.push(&[0xac, b'b']), vec!['€', 'b']);
    assert!(!d.is_pending());
}

#[test]
fn invalid_bytes_become_replacement_characters() {
    let mut d = Utf8Decoder::new();
    assert_eq!(d.push(&[b'a', 0xff, b'b']), vec!['a', '\u{FFFD}', 'b']);
    assert_eq!(d.push(&[0xe2, 0x28, 0xa1]), vec!['\u{FFFD}', '(', '\u{FFFD}']);
    let lossy: Vec<char> = String::from_utf8_lossy(&[0xf0, 0x90, 0x80, b'x', 0xc0, 0xaf]).chars().collect();
    assert_eq!(d.push(&[0xf0, 0x90, 0x80, b'x', 0xc0, 0xaf]), lossy);
}

#[test]
fn an_unfinished_character_ends_as_one_replacement() {
    let mut d = Utf8Decoder::new();
    assert_eq!(d.push(&[0xf0, 0x9f]), Vec::<char>::new());
    assert_eq!(d.finish(), vec!['\u{FFFD}']);
    assert_eq!(d.finish(), Vec::<char>::new());
}

#[test]
fn console_output_is_drawn_mirrored_and_counted() {
    let mut console = Console::new(Framebuffer { width: 800, height: 160, stride: 3200 });
    let mut uart = UartTranscript::new();
    let mut decoder = Utf8Decoder::new();
    let mut flushes = FlushCounter::new();
    console_write(&mut console, &mut uart, &mut decoder, &mut flushes, b"hi\n\xe2\x82");
    assert_eq!(console.cursor(), (1, 0));
    assert_eq!(uart.take_bytes(), b"hi\r\n\xe2\x82".to_vec());
    console_write(&mut console, &mut uart, &mut decoder, &mut flushes, b"\xac!");
    assert_eq!(console.cursor(), (1, 2));
    console_write(&mut console, &mut uart, &mut decoder, &mut flushes, b"\xe2");
    console_finish_stream(&mut console, &mut decoder);
    assert_eq!(console.cursor(), (1, 3));
    console_start_line(&mut console, &mut decoder);
    assert_eq!(console.cursor(), (2, 0));
    flushes.report_and_reset(&mut uart);
    let sent = uart.take_bytes();
    assert!(sent.ends_with(b"[testhooks] console_flushes=3\r\n"));
}

#[test]
fn one_stop_of_decoding_keeps_replaces_or_finishes() {
    let bytes = "aé".as_bytes();
    assert_eq!(decode_stop(bytes, 3, None), (vec!['a', 'é'], Resume::Done));
    let bytes = [b'a', 0xc3];
    assert_eq!(decode_stop(&bytes, 1, None), (vec!['a'], Resume::Pending(1)));
    let bytes = [b'a', 0xff, b'b'];
    assert_eq!(decode_stop(&bytes, 1, Some(1)), (vec!['a', '\u{FFFD}'], Resume::From(2)));
    let e = std::str::from_utf8(&bytes).unwrap_err();
    assert_eq!((e.valid_up_to(), e.error_len()), (1, Some(1)));
}
