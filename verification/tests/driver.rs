use std::cell::RefCell;
use std::rc::Rc;

use esp01::serial::{read_until_at_response, read_until_prompt, Error as SerialError, NbError};
use esp01::{
    ATResponse, ConnectionType, Error, Esp8266, LongTimer, Millisecond, OutputPin, SerialRead,
    SerialWrite, TransmissionStep,
};

/// A receiver that replays a byte script, then reports "no byte yet"
/// forever; the script is shared, so a test can feed later phases after the
/// driver has taken ownership of the receiver.
#[derive(Clone)]
struct ScriptRx {
    data: Rc<RefCell<Vec<u8>>>,
}

impl ScriptRx {
    fn new(data: &[u8]) -> ScriptRx {
        ScriptRx { data: Rc::new(RefCell::new(data.to_vec())) }
    }

    fn feed(&self, more: &[u8]) {
        self.data.borrow_mut().extend_from_slice(more);
    }

    fn remaining(&self) -> usize {
        self.data.borrow().len()
    }
}

impl SerialRead for ScriptRx {
    type Error = u8;

    fn read_byte(&mut self) -> Result<u8, NbError<u8>> {
        let mut data = self.data.borrow_mut();
        if data.is_empty() {
            Err(NbError::WouldBlock)
        } else {
            Ok(data.remove(0))
        }
    }
}

/// A receiver that always fails with a hardware error.
struct BrokenRx;

impl SerialRead for BrokenRx {
    type Error = u8;

    fn read_byte(&mut self) -> Result<u8, NbError<u8>> {
        Err(NbError::Other(7))
    }
}

/// A transmitter that records everything written through it.
struct RecordTx {
    sent: Rc<RefCell<Vec<u8>>>,
}

impl SerialWrite for RecordTx {
    type Error = u8;

    fn write_byte(&mut self, byte: u8) -> Result<(), u8> {
        self.sent.borrow_mut().push(byte);
        Ok(())
    }
}

/// A timer whose countdown has always already elapsed: scans that would
/// wait observe an exhausted timer at the first idle poll.
struct ExpiredTimer;

impl LongTimer for ExpiredTimer {
    fn start(&mut self, _duration: Millisecond) {}

    fn wait(&mut self) -> bool {
        true
    }
}

/// A pin that always obeys.
struct GoodPin;

impl OutputPin for GoodPin {
    type Error = u8;

    fn set_high(&mut self) -> Result<(), u8> {
        Ok(())
    }

    fn set_low(&mut self) -> Result<(), u8> {
        Ok(())
    }
}

fn fresh_buffer() -> Vec<u8> {
    vec![0u8; 13]
}

#[test]
fn matcher_exact_fit() {
    // Buffer holds exactly "OK\r\n" written in order; offset wrapped to 0.
    let buffer = [79u8, 75, 13, 10];
    assert!(esp01::compare_circular_buffer(&buffer, 0, b"OK\r\n"));
    assert!(!esp01::compare_circular_buffer(&buffer, 1, b"OK\r\n"));
}

#[test]
fn matcher_wrapped_tail() {
    // With the oldest byte at index 2, the live contents in arrival order
    // are buffer[2], buffer[0], buffer[1]: the bytes of "K\r\n" wrapped
    // around the end of the storage.
    let buffer = [13u8, 10, 75];
    assert!(esp01::compare_circular_buffer(&buffer, 2, b"K\r\n"));
    assert!(esp01::compare_circular_buffer(&buffer, 2, b"OK\r\n"));
    assert!(!esp01::compare_circular_buffer(&buffer, 2, b"A\r\n"));
}

#[test]
fn matcher_pattern_shorter_than_buffer() {
    let buffer = [88u8, 88, 79, 75, 13, 10];
    assert!(esp01::compare_circular_buffer(&buffer, 0, b"\r\n"));
    assert!(esp01::compare_circular_buffer(&buffer, 0, b"OK\r\n"));
    assert!(!esp01::compare_circular_buffer(&buffer, 0, b"ERROR\r\n"));
}

#[test]
fn matcher_buffer_shorter_than_pattern() {
    // Only the overlap is compared, so a two-byte buffer matching the tail
    // of the pattern counts as a match.
    let buffer = [13u8, 10];
    assert!(esp01::compare_circular_buffer(&buffer, 0, b"ERROR\r\n"));
}

#[test]
fn matcher_large_offset_reduced() {
    let buffer = [79u8, 75, 13, 10];
    // Offsets equal modulo the length behave alike.
    assert!(esp01::compare_circular_buffer(&buffer, 4, b"OK\r\n"));
    assert!(esp01::compare_circular_buffer(&buffer, 8, b"OK\r\n"));
}

#[test]
fn classifier_recognizes_each_pattern() {
    let ok = [79u8, 75, 13, 10];
    assert_eq!(esp01::parse_at_response(&ok, 0), Some(ATResponse::Okay));
    let error = [69u8, 82, 82, 79, 82, 13, 10];
    assert_eq!(esp01::parse_at_response(&error, 0), Some(ATResponse::Error));
    let busy = *b"busy p...\r\n";
    assert_eq!(esp01::parse_at_response(&busy, 0), Some(ATResponse::Busy));
    let got_ip = *b"WIFI GOT IP\r\n";
    assert_eq!(esp01::parse_at_response(&got_ip, 0), Some(ATResponse::WiFiGotIp));
}

#[test]
fn classifier_rejects_garbage() {
    let noise = *b"garbage\r\nnope";
    assert_eq!(esp01::parse_at_response(&noise, 0), None);
    let empty: [u8; 0] = [];
    // An empty buffer trivially matches every pattern on zero bytes, and the
    // priority order picks the first.
    assert_eq!(esp01::parse_at_response(&empty, 0), Some(ATResponse::Okay));
}

#[test]
fn scanner_returns_at_exact_byte_and_not_before() {
    let mut rx = ScriptRx::new(b"junk OK\r\ntrailing");
    let mut timer = ExpiredTimer;
    let mut buffer = fresh_buffer();
    let r = read_until_at_response(&mut rx, &mut timer, Millisecond(5000), &mut buffer);
    assert!(matches!(r, Ok(ATResponse::Okay)));
    // The scan stopped on the byte that completed "OK\r\n" and consumed
    // nothing after it.
    assert_eq!(rx.remaining(), b"trailing".len());
}

#[test]
fn scanner_classifies_got_ip_through_garbage() {
    let mut rx = ScriptRx::new(b"garbage\r\nWIFI GOT IP\r\n");
    let mut timer = ExpiredTimer;
    let mut buffer = fresh_buffer();
    let r = read_until_at_response(&mut rx, &mut timer, Millisecond(10000), &mut buffer);
    assert!(matches!(r, Ok(ATResponse::WiFiGotIp)));
    assert_eq!(rx.remaining(), 0);
}

#[test]
fn scanner_times_out_with_exhausted_timer() {
    // No byte ever arrives and the timer is exhausted: the scan must report
    // a timeout, not hang.
    let mut rx = ScriptRx::new(b"");
    let mut timer = ExpiredTimer;
    let mut buffer = fresh_buffer();
    let r = read_until_at_response(&mut rx, &mut timer, Millisecond(5000), &mut buffer);
    assert!(matches!(r, Err(SerialError::TimedOut)));
}

#[test]
fn scanner_times_out_on_nonmatching_bytes() {
    // Bytes arrive but never complete a pattern; once the script runs dry
    // the exhausted timer ends the scan with a timeout.
    let mut rx = ScriptRx::new(b"nothing to see here");
    let mut timer = ExpiredTimer;
    let mut buffer = fresh_buffer();
    let r = read_until_at_response(&mut rx, &mut timer, Millisecond(5000), &mut buffer);
    assert!(matches!(r, Err(SerialError::TimedOut)));
}

#[test]
fn scanner_propagates_hardware_error() {
    let mut rx = BrokenRx;
    let mut timer = ExpiredTimer;
    let mut buffer = fresh_buffer();
    let r = read_until_at_response(&mut rx, &mut timer, Millisecond(5000), &mut buffer);
    assert!(matches!(r, Err(SerialError::Read(7))));
}

#[test]
fn prompt_scan_skips_other_bytes() {
    let mut rx = ScriptRx::new(b"ab>rest");
    let mut timer = ExpiredTimer;
    let mut buffer = vec![0u8; 1];
    let r = read_until_prompt(&mut rx, &mut timer, Millisecond(5000), &mut buffer);
    assert!(matches!(r, Ok(())));
    assert_eq!(rx.remaining(), b"rest".len());
}

#[test]
fn prompt_scan_times_out_without_prompt() {
    let mut rx = ScriptRx::new(b"no prompt");
    let mut timer = ExpiredTimer;
    let mut buffer = vec![0u8; 1];
    let r = read_until_prompt(&mut rx, &mut timer, Millisecond(5000), &mut buffer);
    assert!(matches!(r, Err(SerialError::TimedOut)));
}

#[test]
fn port_renders_as_decimal_text() {
    let command = esp01::commands::cipstart_command(&ConnectionType::Tcp, "example.org", 8080);
    assert_eq!(command, b"AT+CIPSTART=\"TCP\",\"example.org\",8080\r\n".to_vec());
}

#[test]
fn largest_port_fits_five_digits() {
    let command = esp01::commands::cipstart_command(&ConnectionType::Udp, "h", 65535);
    assert_eq!(command, b"AT+CIPSTART=\"UDP\",\"h\",65535\r\n".to_vec());
}

#[test]
fn cipsend_renders_length() {
    let command = esp01::commands::cipsend_command(2047);
    assert_eq!(command, b"AT+CIPSEND=2047\r\n".to_vec());
}

#[test]
fn at_command_wraps_with_prefix_and_crlf() {
    let line = esp01::commands::at_command("E0");
    assert_eq!(line, b"ATE0\r\n".to_vec());
}

#[test]
fn connection_type_text() {
    assert_eq!(ConnectionType::Tcp.as_str(), "TCP");
    assert_eq!(ConnectionType::Udp.as_str(), "UDP");
}

#[test]
fn seconds_convert_to_milliseconds() {
    let ms = Millisecond::from(esp01::Second(8));
    assert_eq!(ms.0, 8000);
}

fn build_driver(
    script: &[u8],
) -> (
    Result<Esp8266<RecordTx, ScriptRx, ExpiredTimer, GoodPin>, Error<SerialError<u8>, u8, u8>>,
    Rc<RefCell<Vec<u8>>>,
    ScriptRx,
) {
    let sent = Rc::new(RefCell::new(Vec::new()));
    let tx = RecordTx { sent: Rc::clone(&sent) };
    let rx = ScriptRx::new(script);
    let feeder = rx.clone();
    (Esp8266::new(tx, rx, ExpiredTimer, GoodPin), sent, feeder)
}

#[test]
fn construction_succeeds_through_cold_boot_garbage() {
    let (driver, sent, _feeder) = build_driver(b"garbage\r\nWIFI GOT IP\r\nOK\r\n");
    assert!(driver.is_ok());
    // Bring-up transmits exactly the echo-off command.
    assert_eq!(*sent.borrow(), b"ATE0\r\n".to_vec());
}

#[test]
fn construction_reports_timeout_when_module_is_silent() {
    let (driver, _sent, _feeder) = build_driver(b"");
    assert!(matches!(driver, Err(Error::RxError(SerialError::TimedOut))));
}

#[test]
fn send_data_walks_the_three_steps() {
    let (driver, sent, feeder) = build_driver(b"garbage\r\nWIFI GOT IP\r\nOK\r\n");
    let mut driver = driver.unwrap_or_else(|_| panic!("construction failed"));
    // Connect is acknowledged, the prompt arrives, the payload is
    // acknowledged, and so is the close.
    feeder.feed(b"OK\r\n>OK\r\nOK\r\n");
    let r = driver.send_data(ConnectionType::Tcp, "192.168.1.1", 80, "hi");
    assert!(r.is_ok());
    let expected: Vec<u8> = [
        b"ATE0\r\n".as_ref(),
        b"AT+CIPSTART=\"TCP\",\"192.168.1.1\",80\r\n",
        b"AT+CIPSEND=2\r\n",
        b"hi",
        b"AT+CIPCLOSE\r\n",
    ]
    .concat();
    assert_eq!(*sent.borrow(), expected);
}

#[test]
fn send_data_tags_a_failing_close() {
    let (driver, _sent, feeder) = build_driver(b"garbage\r\nWIFI GOT IP\r\nOK\r\n");
    let mut driver = driver.unwrap_or_else(|_| panic!("construction failed"));
    feeder.feed(b"OK\r\n>OK\r\nERROR\r\n");
    let r = driver.send_data(ConnectionType::Tcp, "192.168.1.1", 80, "hi");
    match r {
        Err(te) => {
            assert_eq!(te.step, TransmissionStep::Close);
            assert!(matches!(te.cause, Error::UnexpectedResponse(ATResponse::Error)));
        },
        Ok(()) => panic!("close was expected to fail"),
    }
}

#[test]
fn send_data_accepts_a_payload_of_2047_bytes() {
    let (driver, sent, feeder) = build_driver(b"garbage\r\nWIFI GOT IP\r\nOK\r\n");
    let mut driver = driver.unwrap_or_else(|_| panic!("construction failed"));
    feeder.feed(b"OK\r\n>OK\r\nOK\r\n");
    let payload = "x".repeat(2047);
    let r = driver.send_data(ConnectionType::Udp, "example.org", 53, &payload);
    assert!(r.is_ok());
    let stream = sent.borrow();
    let needle = b"AT+CIPSEND=2047\r\n";
    assert!(stream.windows(needle.len()).any(|w| w == needle));
}

/// A pin that always refuses.
struct BadPin;

impl OutputPin for BadPin {
    type Error = u8;

    fn set_high(&mut self) -> Result<(), u8> {
        Err(3)
    }

    fn set_low(&mut self) -> Result<(), u8> {
        Err(3)
    }
}

/// A transmitter that always refuses.
struct BrokenTx;

impl SerialWrite for BrokenTx {
    type Error = u8;

    fn write_byte(&mut self, _byte: u8) -> Result<(), u8> {
        Err(9)
    }
}

#[test]
fn construction_retries_through_bad_responses() {
    // Two recognizable but wrong responses are tolerated as cold-boot noise
    // before the got-IP message arrives.
    let (driver, sent, _feeder) = build_driver(b"ERROR\r\nERROR\r\nWIFI GOT IP\r\nOK\r\n");
    assert!(driver.is_ok());
    assert_eq!(*sent.borrow(), b"ATE0\r\n".to_vec());
}

#[test]
fn construction_fails_on_broken_pin() {
    let rx = ScriptRx::new(b"");
    let sent = Rc::new(RefCell::new(Vec::new()));
    let tx = RecordTx { sent: Rc::clone(&sent) };
    let driver = Esp8266::new(tx, rx, ExpiredTimer, BadPin);
    assert!(matches!(driver, Err(Error::PinError(3))));
    // The reset never got as far as talking to the module.
    assert!(sent.borrow().is_empty());
}

#[test]
fn connect_step_reports_busy_module() {
    let (driver, _sent, feeder) = build_driver(b"garbage\r\nWIFI GOT IP\r\nOK\r\n");
    let mut driver = driver.unwrap_or_else(|_| panic!("construction failed"));
    feeder.feed(b"busy p...\r\n");
    let r = driver.send_data(ConnectionType::Tcp, "10.0.0.1", 80, "hi");
    match r {
        Err(te) => {
            assert_eq!(te.step, TransmissionStep::Connect);
            assert!(matches!(te.cause, Error::UnexpectedResponse(ATResponse::Busy)));
        },
        Ok(()) => panic!("connect was expected to fail"),
    }
}

#[test]
fn send_step_reports_missing_prompt() {
    let (driver, _sent, feeder) = build_driver(b"garbage\r\nWIFI GOT IP\r\nOK\r\n");
    let mut driver = driver.unwrap_or_else(|_| panic!("construction failed"));
    // The connect is acknowledged but the data-entry prompt never arrives.
    feeder.feed(b"OK\r\n");
    let r = driver.send_data(ConnectionType::Tcp, "10.0.0.1", 80, "hi");
    match r {
        Err(te) => {
            assert_eq!(te.step, TransmissionStep::Send);
            assert!(matches!(te.cause, Error::RxError(SerialError::TimedOut)));
        },
        Ok(()) => panic!("send was expected to fail"),
    }
}

#[test]
fn broken_transmitter_reports_tx_error() {
    let rx = ScriptRx::new(b"");
    let driver = Esp8266::new(BrokenTx, rx, ExpiredTimer, GoodPin);
    // Bring-up fails while waiting for the got-IP message, long before the
    // first transmitted byte; a silent module is a receive timeout.
    assert!(matches!(driver, Err(Error::RxError(SerialError::TimedOut))));

    // Driving the transmitter directly shows the write failure.
    let mut tx = BrokenTx;
    let r = esp01::serial::write_all(&mut tx, b"AT\r\n");
    assert_eq!(r, Err(9));
}

#[test]
fn power_cycle_operations_succeed() {
    let (driver, _sent, feeder) = build_driver(b"garbage\r\nWIFI GOT IP\r\nOK\r\n");
    let mut driver = driver.unwrap_or_else(|_| panic!("construction failed"));
    assert!(driver.power_down().is_ok());
    feeder.feed(b"garbage\r\nWIFI GOT IP\r\nOK\r\n");
    assert!(driver.reset().is_ok());
    assert!(driver.pull_some_current().is_ok());
}

/// A timer that reports expiry only after a fixed number of polls.
struct CountdownTimer {
    polls_left: u32,
}

impl LongTimer for CountdownTimer {
    fn start(&mut self, _duration: Millisecond) {
        self.polls_left = 5;
    }

    fn wait(&mut self) -> bool {
        if self.polls_left == 0 {
            true
        } else {
            self.polls_left -= 1;
            false
        }
    }
}

#[test]
fn scanner_keeps_polling_until_the_timer_fires() {
    let mut rx = ScriptRx::new(b"");
    let mut timer = CountdownTimer { polls_left: 0 };
    let mut buffer = fresh_buffer();
    let r = read_until_at_response(&mut rx, &mut timer, Millisecond(5000), &mut buffer);
    assert!(matches!(r, Err(SerialError::TimedOut)));
    // The timer was armed by the scan and polled down to expiry.
    assert_eq!(timer.polls_left, 0);
}

#[test]
fn power_up_tolerates_255_failures_before_success() {
    // 255 recognizable-but-wrong responses, then the got-IP message on the
    // 256th wait: bring-up must still succeed.
    let mut script = Vec::new();
    for _ in 0..255 {
        script.extend_from_slice(b"ERROR\r\n");
    }
    script.extend_from_slice(b"WIFI GOT IP\r\nOK\r\n");
    let (driver, sent, _feeder) = build_driver(&script);
    assert!(driver.is_ok());
    assert_eq!(*sent.borrow(), b"ATE0\r\n".to_vec());
}

#[test]
fn power_up_gives_up_after_256_failures() {
    // One more wrong response than the retry budget: the last one is
    // reported as what was actually seen.
    let mut script = Vec::new();
    for _ in 0..256 {
        script.extend_from_slice(b"ERROR\r\n");
    }
    let (driver, _sent, _feeder) = build_driver(&script);
    assert!(matches!(driver, Err(Error::UnexpectedResponse(ATResponse::Error))));
}

#[test]
fn acceptance_decision_matches_each_outcome() {
    let accepted: Result<(), Error<SerialError<u8>, u8, u8>> =
        esp01::accept_response(Ok(ATResponse::Okay), &ATResponse::Okay);
    assert!(accepted.is_ok());
    let wrong: Result<(), Error<SerialError<u8>, u8, u8>> =
        esp01::accept_response(Ok(ATResponse::Busy), &ATResponse::Okay);
    assert!(matches!(wrong, Err(Error::UnexpectedResponse(ATResponse::Busy))));
    let failed: Result<(), Error<SerialError<u8>, u8, u8>> =
        esp01::accept_response(Err(SerialError::TimedOut), &ATResponse::WiFiGotIp);
    assert!(matches!(failed, Err(Error::RxError(SerialError::TimedOut))));
}
