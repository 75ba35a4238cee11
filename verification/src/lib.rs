//! Driver for an AT-command WiFi radio module behind a byte-oriented serial
//! link and a chip-enable pin: it brings the module up, opens TCP or UDP
//! connections, transmits bounded payloads and tears connections down, all
//! by non-blocking polling under fixed timeouts and without dynamic growth
//! of any scratch buffer.

pub mod commands;
pub mod response;
pub mod serial;
pub mod timing;

use vstd::prelude::*;
use vstd::string::StringSliceAdditionalSpecFns;

verus! {

pub use crate::response::{ATResponse, compare_circular_buffer, parse_at_response};
pub use crate::serial::{NbError, SerialRead, SerialWrite};
pub use crate::timing::{LongTimer, Millisecond, Second};

use crate::response::AT_RESPONSE_BUFFER_SIZE;

/// Error type for the whole engine: every fallible operation of the driver
/// funnels into it. `T`, `R` and `P` are the error types of the serial
/// transmitter, the serial receiver and the chip-enable pin.
#[derive(Debug)]
pub enum Error<R, T, P> {
    /// Serial transmission errors.
    TxError(T),
    /// Serial reception errors, the receive timeout included.
    RxError(R),
    /// Chip-enable pin errors.
    PinError(P),
    /// A valid terminal response arrived, but not the expected one; carries
    /// what was actually seen.
    UnexpectedResponse(ATResponse),
    /// Text rendering failed.
    Fmt,
    /// A fixed-capacity buffer could not hold the required content.
    Capacity,
}

/// The step of a data transmission that the engine is in. Used in
/// `TransmissionError` to report where things went wrong.
#[derive(Clone, Copy, PartialEq, Eq, Structural, Debug)]
pub enum TransmissionStep {
    Connect,
    Send,
    Close,
}

/// Error indicating failure to transmit a message, tagged with the step of
/// the three-step transmission protocol that produced it.
#[derive(Debug)]
pub struct TransmissionError<R, T, P> {
    pub step: TransmissionStep,
    pub cause: Error<R, T, P>,
}

impl<R, T, P> TransmissionError<R, T, P> {
    /// Tags the error of `cause`, if any, with the given transmission step.
    pub fn try_step<RetType>(step: TransmissionStep, cause: Result<RetType, Error<R, T, P>>) -> (r:
        Result<RetType, Self>)
        ensures
            match cause {
                Ok(value) => r matches Ok(v) && v == value,
                Err(e) => r matches Err(te) && te.step == step && te.cause == e,
            },
    {
        match cause {
            Ok(value) => Ok(value),
            Err(e) => Err(TransmissionError { step, cause: e }),
        }
    }
}

/// Whether a connection is opened over TCP or UDP.
#[derive(Clone, Copy, PartialEq, Eq, Structural, Debug)]
pub enum ConnectionType {
    Tcp,
    Udp,
}

impl ConnectionType {
    /// The type as the text that the connect command quotes.
    pub fn as_str(&self) -> (r: &str)
        ensures
            r@ == match *self {
                ConnectionType::Tcp => "TCP"@,
                ConnectionType::Udp => "UDP"@,
            },
    {
        match *self {
            ConnectionType::Tcp => "TCP",
            ConnectionType::Udp => "UDP",
        }
    }
}

/// A digital output pin, driven high or low, fallibly: the contract of the
/// chip-enable line. The caller's hardware integration supplies the
/// implementation, so nothing is promised about the outcome.
pub trait OutputPin {
    type Error;

    /// Drives the pin high.
    fn set_high(&mut self) -> Result<(), Self::Error>;

    /// Drives the pin low.
    fn set_low(&mut self) -> Result<(), Self::Error>;
}

/// The startup wait: the module gets up to ten seconds to report its IP.
const STARTUP_TIMEOUT_SECONDS: u32 = 10;

/// The wait for every other command's terminal response.
const DEFAULT_TIMEOUT_SECONDS: u32 = 5;

/// Classification of the outcome of one cold-start wait for the got-IP
/// message.
#[derive(Clone, Copy, PartialEq, Eq, Structural, Debug)]
pub enum StartupAttempt {
    /// The got-IP message arrived.
    GotIp,
    /// The wait timed out: no module answered at all.
    TimedOut,
    /// Anything else went wrong, such as cold-boot garbage classifying as a
    /// different terminal response.
    Failed,
}

/// What the power-up retry loop does after one classified wait outcome.
#[derive(Clone, Copy, PartialEq, Eq, Structural, Debug)]
pub enum StartupAction {
    /// The module is up: go on to disable echo.
    Proceed,
    /// Give up and report the outcome's error.
    Abort,
    /// Count one more failure and wait again.
    Retry,
}

/// The decision the power-up retry loop takes after one wait for the got-IP
/// message: proceed on success; abort at once on a receive timeout, which
/// signals that no module is present rather than transient noise; tolerate
/// up to 255 other consecutive failures, which cold-boot garbage provokes,
/// before giving up.
pub open spec fn spec_startup_step(outcome: StartupAttempt, error_count: int) -> StartupAction {
    match outcome {
        StartupAttempt::GotIp => StartupAction::Proceed,
        StartupAttempt::TimedOut => StartupAction::Abort,
        StartupAttempt::Failed => if error_count < 255 {
            StartupAction::Retry
        } else {
            StartupAction::Abort
        },
    }
}

/// Runnable form of `spec_startup_step`: the single decision point of the
/// power-up retry loop.
pub fn startup_step(outcome: StartupAttempt, error_count: u8) -> (r: StartupAction)
    ensures
        r == spec_startup_step(outcome, error_count as int),
{
    match outcome {
        StartupAttempt::GotIp => StartupAction::Proceed,
        StartupAttempt::TimedOut => StartupAction::Abort,
        StartupAttempt::Failed => if error_count < 255 {
            StartupAction::Retry
        } else {
            StartupAction::Abort
        },
    }
}

/// The classified outcome that the power-up retry loop ends with, given the
/// classified outcomes of its successive waits and the failures already
/// counted: the outcome of the first attempt on which `spec_startup_step`
/// does not decide to retry, or `None` if the given attempts run out first.
pub open spec fn spec_startup_verdict_from(
    attempts: Seq<StartupAttempt>,
    error_count: int,
) -> Option<StartupAttempt>
    decreases attempts.len(),
{
    if attempts.len() == 0 {
        None
    } else {
        match spec_startup_step(attempts[0], error_count) {
            StartupAction::Retry => spec_startup_verdict_from(attempts.drop_first(), error_count + 1),
            _ => Some(attempts[0]),
        }
    }
}

/// The classified outcome that a whole power-up ends with, starting with no
/// failures counted.
pub open spec fn spec_startup_verdict(attempts: Seq<StartupAttempt>) -> Option<StartupAttempt> {
    spec_startup_verdict_from(attempts, 0)
}

/// Law: with at most 255 failures, none of them a timeout, before an attempt
/// on which the got-IP message arrives, the power-up retry loop still ends
/// in success.
pub proof fn lemma_startup_retry_tolerates_failures(attempts: Seq<StartupAttempt>, k: int)
    requires
        0 <= k <= 255,
        k < attempts.len(),
        forall|j: int| 0 <= j < k ==> attempts[j] == StartupAttempt::Failed,
        attempts[k] == StartupAttempt::GotIp,
    ensures
        spec_startup_verdict(attempts) == Some(StartupAttempt::GotIp),
{
    lemma_startup_skips_failures(attempts, 0, k);
}

/// The retry loop walks over consecutive failures while they fit the retry
/// budget, and its verdict is the first attempt that either got the IP
/// message or timed out.
proof fn lemma_startup_skips_failures(attempts: Seq<StartupAttempt>, error_count: int, k: int)
    requires
        0 <= error_count,
        0 <= k,
        k < attempts.len(),
        error_count + k <= 255,
        forall|j: int| 0 <= j < k ==> attempts[j] == StartupAttempt::Failed,
        attempts[k] != StartupAttempt::Failed,
    ensures
        spec_startup_verdict_from(attempts, error_count) == Some(attempts[k]),
    decreases k,
{
    if k > 0 {
        assert(attempts[0] == StartupAttempt::Failed);
        let rest = attempts.drop_first();
        assert(rest[k - 1] == attempts[k]);
        assert forall|j: int| 0 <= j < k - 1 implies rest[j] == StartupAttempt::Failed by {
            assert(attempts[j + 1] == StartupAttempt::Failed);
        }
        lemma_startup_skips_failures(rest, error_count + 1, k - 1);
    }
}

/// Law: a receive timeout aborts the power-up at once: on the very first
/// attempt it is the verdict with no retries consumed, and after any run of
/// tolerated failures it is still the verdict, whatever retries were still
/// unspent.
pub proof fn lemma_startup_timeout_aborts(attempts: Seq<StartupAttempt>, k: int)
    requires
        0 <= k <= 255,
        k < attempts.len(),
        forall|j: int| 0 <= j < k ==> attempts[j] == StartupAttempt::Failed,
        attempts[k] == StartupAttempt::TimedOut,
    ensures
        spec_startup_verdict(attempts) == Some(StartupAttempt::TimedOut),
{
    lemma_startup_skips_failures(attempts, 0, k);
}

/// How one wait-for-got-IP outcome classifies for the retry policy.
pub open spec fn spec_startup_class<R, T, P>(
    outcome: Result<(), Error<crate::serial::Error<R>, T, P>>,
) -> StartupAttempt {
    match outcome {
        Ok(()) => StartupAttempt::GotIp,
        Err(Error::RxError(crate::serial::Error::TimedOut)) => StartupAttempt::TimedOut,
        Err(_) => StartupAttempt::Failed,
    }
}

/// Runnable form of `spec_startup_class`.
fn startup_class<R, T, P>(outcome: &Result<(), Error<crate::serial::Error<R>, T, P>>) -> (r:
    StartupAttempt)
    ensures
        r == spec_startup_class(*outcome),
{
    match outcome {
        Ok(()) => StartupAttempt::GotIp,
        Err(Error::RxError(crate::serial::Error::TimedOut)) => StartupAttempt::TimedOut,
        Err(_) => StartupAttempt::Failed,
    }
}

/// How the outcome of a terminal-response scan decides a command's fate:
/// the expected response is success; any other recognized response is
/// reported as unexpected, carrying what was actually seen; a scan failure
/// is a receive error, the timeout included.
pub open spec fn spec_accept_response<R, T, P>(
    outcome: Result<ATResponse, crate::serial::Error<R>>,
    expected: ATResponse,
) -> Result<(), Error<crate::serial::Error<R>, T, P>> {
    match outcome {
        Ok(response) => if response == expected {
            Ok(())
        } else {
            Err(Error::UnexpectedResponse(response))
        },
        Err(e) => Err(Error::RxError(e)),
    }
}

/// Runnable form of `spec_accept_response`: the single decision point
/// between a scan's outcome and a command's success.
pub fn accept_response<R, T, P>(
    outcome: Result<ATResponse, crate::serial::Error<R>>,
    expected: &ATResponse,
) -> (r: Result<(), Error<crate::serial::Error<R>, T, P>>)
    ensures
        r == spec_accept_response::<R, T, P>(outcome, *expected),
{
    match outcome {
        Ok(response) => {
            if response == *expected {
                Ok(())
            } else {
                Err(Error::UnexpectedResponse(response))
            }
        },
        Err(e) => Err(Error::RxError(e)),
    }
}

/// Some response scan, started from the fresh zeroed buffer, could vouch
/// for recognizing `response` at the exact byte its pattern completed: the
/// shape that an acknowledged command's success is tied to.
pub open spec fn scan_vouches(response: ATResponse) -> bool {
    exists|stream: Seq<u8>, scanned: Seq<u8>|
        #[trigger] crate::serial::scan_recognized(
            crate::response::fresh_scan_buffer(),
            stream,
            scanned,
            response,
        )
}

/// Some prompt scan, started from the fresh one-byte buffer, could vouch
/// for the data-entry prompt arriving as its last received byte.
pub open spec fn prompt_vouches() -> bool {
    exists|stream: Seq<u8>, scanned: Seq<u8>|
        #[trigger] crate::serial::prompt_recognized(
            crate::serial::fresh_prompt_buffer(),
            stream,
            scanned,
        )
}

/// The driver for the WiFi module: it exclusively owns the serial
/// transmitter and receiver, the countdown timer and the chip-enable pin for
/// its whole lifetime.
pub struct Esp8266<Tx, Rx, Timer, Rst> where
    Tx: SerialWrite,
    Rx: SerialRead,
    Timer: LongTimer,
    Rst: OutputPin,
 {
    tx: Tx,
    rx: Rx,
    timer: Timer,
    chip_enable_pin: Rst,
}

impl<Tx, Rx, Timer, Rst> Esp8266<Tx, Rx, Timer, Rst> where
    Tx: SerialWrite,
    Rx: SerialRead,
    Timer: LongTimer,
    Rst: OutputPin,
 {
    /// The transmitter component, as public contracts speak of it.
    pub closed spec fn spec_tx(self) -> Tx {
        self.tx
    }

    /// The receiver component, as public contracts speak of it.
    pub closed spec fn spec_rx(self) -> Rx {
        self.rx
    }

    /// The timer component, as public contracts speak of it.
    pub closed spec fn spec_timer(self) -> Timer {
        self.timer
    }

    /// The chip-enable pin component, as public contracts speak of it.
    pub closed spec fn spec_chip_enable_pin(self) -> Rst {
        self.chip_enable_pin
    }

    /// Sets up the driver and configures the device for future use by
    /// resetting it, so a constructed driver has attempted bring-up.
    ///
    /// `tx` and `rx` carry the serial communication, `timer` bounds every
    /// wait, and `chip_enable_pin` must be connected to the chip-enable line
    /// of the device.
    pub fn new(tx: Tx, rx: Rx, timer: Timer, chip_enable_pin: Rst) -> (r: Result<
        Self,
        Error<crate::serial::Error<Rx::Error>, Tx::Error, Rst::Error>,
    >)
        ensures
            r matches Ok(_) ==> (scan_vouches(ATResponse::WiFiGotIp) && scan_vouches(
                ATResponse::Okay,
            )),
            r matches Err(e) ==> !(e is Fmt) && !(e is Capacity),
    {
        let mut result = Esp8266 { tx, rx, timer, chip_enable_pin };
        match result.reset() {
            Ok(()) => Ok(result),
            Err(e) => Err(e),
        }
    }

    /// Sends `data` over a fresh connection in three steps — connect,
    /// send, close — and tags any failure with the step it happened in.
    /// Steps already completed are not rolled back. The payload must be
    /// under the module's 2048-byte packet ceiling.
    pub fn send_data(
        &mut self,
        connection_type: ConnectionType,
        address: &str,
        port: u16,
        data: &str,
    ) -> (r: Result<(), TransmissionError<crate::serial::Error<Rx::Error>, Tx::Error, Rst::Error>>)
        requires
            data.spec_bytes().len() < 2048,
        ensures
            final(self).spec_chip_enable_pin() == old(self).spec_chip_enable_pin(),
            r matches Ok(()) ==> (scan_vouches(ATResponse::Okay) && prompt_vouches()),
            r matches Err(te) ==> (te.cause is TxError || te.cause is RxError || (te.cause matches
            Error::UnexpectedResponse(other) && other != ATResponse::Okay)),
    {
        let tcp_start_result = self.start_tcp_connection(connection_type, address, port);
        match TransmissionError::try_step(TransmissionStep::Connect, tcp_start_result) {
            Ok(()) => {},
            Err(e) => { return Err(e); },
        }
        let send_result = self.transmit_data(data);
        match TransmissionError::try_step(TransmissionStep::Send, send_result) {
            Ok(()) => {},
            Err(e) => { return Err(e); },
        }
        TransmissionError::try_step(TransmissionStep::Close, self.close_connection())
    }

    /// Closes the open connection and requires the module to acknowledge;
    /// the chip-enable pin is untouched.
    pub fn close_connection(&mut self) -> (r: Result<
        (),
        Error<crate::serial::Error<Rx::Error>, Tx::Error, Rst::Error>,
    >)
        ensures
            final(self).spec_chip_enable_pin() == old(self).spec_chip_enable_pin(),
            r matches Ok(()) ==> scan_vouches(ATResponse::Okay),
            r matches Err(e) ==> (e is TxError || e is RxError || (e matches
            Error::UnexpectedResponse(other) && other != ATResponse::Okay)),
    {
        match self.send_at_command("+CIPCLOSE") {
            Ok(()) => {},
            Err(e) => { return Err(e); },
        }
        self.wait_for_ok(Millisecond::from(Second(DEFAULT_TIMEOUT_SECONDS)))
    }

    /// Turns the device off by driving chip-enable low; the serial halves
    /// and the timer are untouched.
    pub fn power_down(&mut self) -> (r: Result<
        (),
        Error<crate::serial::Error<Rx::Error>, Tx::Error, Rst::Error>,
    >)
        ensures
            final(self).spec_tx() == old(self).spec_tx(),
            final(self).spec_rx() == old(self).spec_rx(),
            final(self).spec_timer() == old(self).spec_timer(),
            r matches Err(e) ==> e is PinError,
    {
        match self.chip_enable_pin.set_low() {
            Ok(()) => Ok(()),
            Err(e) => Err(Error::PinError(e)),
        }
    }

    /// Resets the device: drives chip-enable low, lets it settle for ten
    /// milliseconds, and powers the device back up.
    pub fn reset(&mut self) -> (r: Result<
        (),
        Error<crate::serial::Error<Rx::Error>, Tx::Error, Rst::Error>,
    >)
        ensures
            r matches Ok(()) ==> (scan_vouches(ATResponse::WiFiGotIp) && scan_vouches(
                ATResponse::Okay,
            )),
            r matches Err(e) ==> !(e is Fmt) && !(e is Capacity),
    {
        match self.power_down() {
            Ok(()) => {},
            Err(e) => { return Err(e); },
        }
        self.timer.start(Millisecond(10));
        self.block_on_timer();
        self.power_up()
    }

    /// Turns the device back on by driving chip-enable high, waits for it to
    /// report its IP — retrying through the garbage the module emits on cold
    /// boot, as `spec_startup_step` decides — and then turns command echo
    /// off.
    pub fn power_up(&mut self) -> (r: Result<
        (),
        Error<crate::serial::Error<Rx::Error>, Tx::Error, Rst::Error>,
    >)
        ensures
            r matches Ok(()) ==> (scan_vouches(ATResponse::WiFiGotIp) && scan_vouches(
                ATResponse::Okay,
            )),
            r matches Err(e) ==> !(e is Fmt) && !(e is Capacity),
    {
        match self.chip_enable_pin.set_high() {
            Ok(()) => {},
            Err(e) => { return Err(Error::PinError(e)); },
        }
        // The module sends a bunch of garbage over the serial port before
        // starting properly, so wait again until valid data or a timeout.
        let mut error_count: u8 = 0;
        loop
            invariant
                error_count <= 255,
            ensures
                scan_vouches(ATResponse::WiFiGotIp),
            decreases 255 - error_count,
        {
            let outcome = self.wait_for_got_ip(Millisecond::from(Second(STARTUP_TIMEOUT_SECONDS)));
            let class = startup_class(&outcome);
            match startup_step(class, error_count) {
                StartupAction::Proceed => { break; },
                StartupAction::Retry => {
                    error_count = error_count + 1;
                },
                StartupAction::Abort => {
                    match outcome {
                        Err(e) => { return Err(e); },
                        Ok(()) => {
                            proof {
                                assert(false);
                            }
                            break;
                        },
                    }
                },
            }
        }
        // Turn off echo on the device and wait for it to process that
        // command.
        match self.send_at_command("E0") {
            Ok(()) => {},
            Err(e) => { return Err(e); },
        }
        match self.wait_for_ok(Millisecond::from(Second(DEFAULT_TIMEOUT_SECONDS))) {
            Ok(()) => {},
            Err(e) => { return Err(e); },
        }
        Ok(())
    }

    /// Pulses chip-enable high for half a second and back low: a maintenance
    /// operation that exercises the module's current draw without a full
    /// bring-up.
    pub fn pull_some_current(&mut self) -> (r: Result<
        (),
        Error<crate::serial::Error<Rx::Error>, Tx::Error, Rst::Error>,
    >)
        ensures
            final(self).spec_tx() == old(self).spec_tx(),
            final(self).spec_rx() == old(self).spec_rx(),
            r matches Err(e) ==> e is PinError,
    {
        match self.chip_enable_pin.set_high() {
            Ok(()) => {},
            Err(e) => { return Err(Error::PinError(e)); },
        }
        self.timer.start(Millisecond(500));
        self.block_on_timer();
        match self.chip_enable_pin.set_low() {
            Ok(()) => Ok(()),
            Err(e) => Err(Error::PinError(e)),
        }
    }

    /// Spins on the timer until its countdown elapses: the one place where a
    /// delay is awaited without expecting data. The spin is bounded, because
    /// nothing proves that a hardware timer ever fires.
    fn block_on_timer(&mut self)
        ensures
            final(self).tx == old(self).tx,
            final(self).rx == old(self).rx,
            final(self).chip_enable_pin == old(self).chip_enable_pin,
    {
        let mut polls: u64 = 0;
        loop
            invariant
                self.tx == old(self).tx,
                self.rx == old(self).rx,
                self.chip_enable_pin == old(self).chip_enable_pin,
                polls <= crate::serial::POLL_BUDGET,
            decreases crate::serial::POLL_BUDGET - polls,
        {
            if polls == crate::serial::POLL_BUDGET {
                return ;
            }
            polls = polls + 1;
            if self.timer.wait() {
                return ;
            }
        }
    }

    /// Sends the payload over the open connection: announces its length,
    /// awaits the data-entry prompt, sends the raw bytes and requires the
    /// module to acknowledge.
    fn transmit_data(&mut self, data: &str) -> (r: Result<
        (),
        Error<crate::serial::Error<Rx::Error>, Tx::Error, Rst::Error>,
    >)
        requires
            data.spec_bytes().len() < 2048,
        ensures
            final(self).chip_enable_pin == old(self).chip_enable_pin,
            r matches Ok(()) ==> (scan_vouches(ATResponse::Okay) && prompt_vouches()),
            r matches Err(e) ==> (e is TxError || e is RxError || (e matches
            Error::UnexpectedResponse(other) && other != ATResponse::Okay)),
    {
        match self.start_transmission(data.len()) {
            Ok(()) => {},
            Err(e) => { return Err(e); },
        }
        match self.wait_for_prompt(Millisecond::from(Second(DEFAULT_TIMEOUT_SECONDS))) {
            Ok(()) => {},
            Err(e) => { return Err(e); },
        }
        match self.send_raw(data.as_bytes()) {
            Ok(()) => {},
            Err(e) => { return Err(e); },
        }
        self.wait_for_ok(Millisecond::from(Second(DEFAULT_TIMEOUT_SECONDS)))
    }

    /// Transmits the connect command for the given destination and requires
    /// the module to acknowledge. The port is rendered as decimal text into
    /// a fixed five-byte scratch buffer, which a 16-bit port always fits.
    fn start_tcp_connection(
        &mut self,
        connection_type: ConnectionType,
        address: &str,
        port: u16,
    ) -> (r: Result<(), Error<crate::serial::Error<Rx::Error>, Tx::Error, Rst::Error>>)
        ensures
            final(self).chip_enable_pin == old(self).chip_enable_pin,
            r matches Ok(()) ==> scan_vouches(ATResponse::Okay),
            r matches Err(e) ==> (e is TxError || e is RxError || (e matches
            Error::UnexpectedResponse(other) && other != ATResponse::Okay)),
    {
        let command = crate::commands::cipstart_command(&connection_type, address, port);
        match self.send_raw(command.as_slice()) {
            Ok(()) => {},
            Err(e) => { return Err(e); },
        }
        self.wait_for_ok(Millisecond::from(Second(DEFAULT_TIMEOUT_SECONDS)))
    }

    /// Transmits the command announcing a payload of `message_length` bytes.
    /// Only lengths under the module's 2048-byte packet ceiling are allowed.
    fn start_transmission(&mut self, message_length: usize) -> (r: Result<
        (),
        Error<crate::serial::Error<Rx::Error>, Tx::Error, Rst::Error>,
    >)
        requires
            message_length < 2048,
        ensures
            final(self).rx == old(self).rx,
            final(self).timer == old(self).timer,
            final(self).chip_enable_pin == old(self).chip_enable_pin,
            r matches Err(e) ==> e is TxError,
    {
        let command = crate::commands::cipsend_command(message_length as u16);
        self.send_raw(command.as_slice())
    }

    /// Sends the command line `"AT<command>\r\n"` to the device; the
    /// receiver, the timer and the chip-enable pin are untouched.
    fn send_at_command(&mut self, command: &str) -> (r: Result<
        (),
        Error<crate::serial::Error<Rx::Error>, Tx::Error, Rst::Error>,
    >)
        ensures
            final(self).rx == old(self).rx,
            final(self).timer == old(self).timer,
            final(self).chip_enable_pin == old(self).chip_enable_pin,
            r matches Err(e) ==> e is TxError,
    {
        let line = crate::commands::at_command(command);
        self.send_raw(line.as_slice())
    }

    /// Scans for a terminal response in a fresh zeroed buffer sized to the
    /// longest recognized pattern, and decides the command's fate by
    /// `spec_accept_response`: there is a scan outcome — on success one that
    /// a scan can vouch for, recognized at the exact byte its pattern
    /// completed — whose acceptance against the expected response the result
    /// is. The transmitter and the chip-enable pin are untouched.
    fn wait_for_at_response(&mut self, expected_response: &ATResponse, timeout: Millisecond) -> (r:
        Result<(), Error<crate::serial::Error<Rx::Error>, Tx::Error, Rst::Error>>)
        ensures
            final(self).tx == old(self).tx,
            final(self).chip_enable_pin == old(self).chip_enable_pin,
            exists|outcome: Result<ATResponse, crate::serial::Error<Rx::Error>>|
                {
                    &&& r == #[trigger] spec_accept_response::<Rx::Error, Tx::Error, Rst::Error>(
                        outcome,
                        *expected_response,
                    )
                    &&& (outcome matches Ok(response) ==> scan_vouches(response))
                },
            r matches Ok(()) ==> scan_vouches(*expected_response),
            r matches Err(e) ==> (e is RxError || (e matches Error::UnexpectedResponse(other)
                && other != *expected_response)),
    {
        let mut buffer: Vec<u8> = Vec::new();
        let mut i: usize = 0;
        while i < AT_RESPONSE_BUFFER_SIZE
            invariant
                buffer@.len() == i,
                i <= AT_RESPONSE_BUFFER_SIZE,
                forall|k: int| 0 <= k < i ==> buffer@[k] == 0u8,
            decreases AT_RESPONSE_BUFFER_SIZE - i,
        {
            buffer.push(0);
            i = i + 1;
        }
        proof {
            assert(buffer@ =~= crate::response::fresh_scan_buffer());
        }
        let ghost pre = buffer@;
        let response = crate::serial::read_until_at_response(
            &mut self.rx,
            &mut self.timer,
            timeout,
            &mut buffer,
        );
        let ghost outcome = response;
        let r = accept_response(response, expected_response);
        proof {
            match outcome {
                Ok(recognized) => {
                    let stream = choose|stream: Seq<u8>|
                        crate::serial::scan_recognized(pre, stream, buffer@, recognized);
                    assert(crate::serial::scan_recognized(
                        crate::response::fresh_scan_buffer(),
                        stream,
                        buffer@,
                        recognized,
                    ));
                },
                Err(_) => {},
            }
        }
        r
    }

    /// Waits for the module to acknowledge with `"OK\r\n"`: exactly
    /// `wait_for_at_response` with `Okay` expected.
    fn wait_for_ok(&mut self, timeout: Millisecond) -> (r: Result<
        (),
        Error<crate::serial::Error<Rx::Error>, Tx::Error, Rst::Error>,
    >)
        ensures
            final(self).tx == old(self).tx,
            final(self).chip_enable_pin == old(self).chip_enable_pin,
            exists|outcome: Result<ATResponse, crate::serial::Error<Rx::Error>>|
                {
                    &&& r == #[trigger] spec_accept_response::<Rx::Error, Tx::Error, Rst::Error>(
                        outcome,
                        ATResponse::Okay,
                    )
                    &&& (outcome matches Ok(response) ==> scan_vouches(response))
                },
            r matches Ok(()) ==> scan_vouches(ATResponse::Okay),
            r matches Err(e) ==> (e is RxError || (e matches Error::UnexpectedResponse(other)
                && other != ATResponse::Okay)),
    {
        self.wait_for_at_response(&ATResponse::Okay, timeout)
    }

    /// Waits for the module to report `"WIFI GOT IP\r\n"`: exactly
    /// `wait_for_at_response` with `WiFiGotIp` expected.
    fn wait_for_got_ip(&mut self, timeout: Millisecond) -> (r: Result<
        (),
        Error<crate::serial::Error<Rx::Error>, Tx::Error, Rst::Error>,
    >)
        ensures
            final(self).tx == old(self).tx,
            final(self).chip_enable_pin == old(self).chip_enable_pin,
            exists|outcome: Result<ATResponse, crate::serial::Error<Rx::Error>>|
                {
                    &&& r == #[trigger] spec_accept_response::<Rx::Error, Tx::Error, Rst::Error>(
                        outcome,
                        ATResponse::WiFiGotIp,
                    )
                    &&& (outcome matches Ok(response) ==> scan_vouches(response))
                },
            r matches Ok(()) ==> scan_vouches(ATResponse::WiFiGotIp),
            r matches Err(e) ==> (e is RxError || (e matches Error::UnexpectedResponse(other)
                && other != ATResponse::WiFiGotIp)),
    {
        self.wait_for_at_response(&ATResponse::WiFiGotIp, timeout)
    }

    /// Waits for the module's data-entry prompt `'>'` in a one-byte buffer,
    /// ignoring every other byte.
    fn wait_for_prompt(&mut self, timeout: Millisecond) -> (r: Result<
        (),
        Error<crate::serial::Error<Rx::Error>, Tx::Error, Rst::Error>,
    >)
        ensures
            final(self).tx == old(self).tx,
            final(self).chip_enable_pin == old(self).chip_enable_pin,
            r matches Ok(()) ==> prompt_vouches(),
            r matches Err(e) ==> e is RxError,
    {
        let mut buffer: Vec<u8> = Vec::new();
        buffer.push(0);
        proof {
            assert(buffer@ =~= crate::serial::fresh_prompt_buffer());
        }
        let ghost pre = buffer@;
        match crate::serial::read_until_prompt(&mut self.rx, &mut self.timer, timeout, &mut buffer) {
            Ok(()) => {
                proof {
                    let stream = choose|stream: Seq<u8>|
                        crate::serial::prompt_recognized(pre, stream, buffer@);
                    assert(crate::serial::prompt_recognized(
                        crate::serial::fresh_prompt_buffer(),
                        stream,
                        buffer@,
                    ));
                }
                Ok(())
            },
            Err(e) => Err(Error::RxError(e)),
        }
    }

    /// Writes raw bytes to the serial transmitter; the receiver, the timer
    /// and the chip-enable pin are untouched.
    fn send_raw(&mut self, bytes: &[u8]) -> (r: Result<
        (),
        Error<crate::serial::Error<Rx::Error>, Tx::Error, Rst::Error>,
    >)
        ensures
            final(self).rx == old(self).rx,
            final(self).timer == old(self).timer,
            final(self).chip_enable_pin == old(self).chip_enable_pin,
            r matches Err(e) ==> e is TxError,
    {
        match crate::serial::write_all(&mut self.tx, bytes) {
            Ok(()) => Ok(()),
            Err(e) => Err(Error::TxError(e)),
        }
    }
}

} // verus!
