use vstd::prelude::*;
use vstd::arithmetic::div_mod::{lemma_add_mod_noop, lemma_mod_bound, lemma_small_mod};
use crate::response::{ATResponse, parse_at_response, spec_parse_at_response};
use crate::timing::{LongTimer, Millisecond};

verus! {

/// Outcome of polling a non-blocking serial read that has not produced a
/// byte: either none is available yet, or the hardware reported an error of
/// its own type `E`.
#[derive(Debug)]
pub enum NbError<E> {
    WouldBlock,
    Other(E),
}

/// A byte transmitter. The caller's hardware integration supplies the
/// implementation, so nothing is promised about the outcome: every user
/// must be correct whatever comes back.
pub trait SerialWrite {
    type Error;

    /// Writes one byte, blocking until the transmitter has accepted it or
    /// has failed with its own error.
    fn write_byte(&mut self, byte: u8) -> Result<(), Self::Error>;
}

/// A byte receiver: reads one byte, non-blockingly and fallibly. As with
/// `SerialWrite`, nothing is promised about the outcome.
pub trait SerialRead {
    type Error;

    /// Attempts to read one byte.
    fn read_byte(&mut self) -> Result<u8, NbError<Self::Error>>;
}

/// Errors of the receive path: the scan timed out before a recognized
/// message arrived, or the receiver itself failed with its own error.
#[derive(Debug)]
pub enum Error<E> {
    TimedOut,
    Read(E),
}

/// Writes every byte of `bytes` in order and stops at the first hardware
/// error.
pub fn write_all<Tx: SerialWrite>(tx: &mut Tx, bytes: &[u8]) -> (r: Result<(), Tx::Error>) {
    let mut i: usize = 0;
    while i < bytes.len()
        invariant
            i <= bytes@.len(),
        decreases bytes@.len() - i,
    {
        match tx.write_byte(bytes[i]) {
            Ok(()) => {},
            Err(e) => { return Err(e); },
        }
        i = i + 1;
    }
    Ok(())
}

/// How many times a scan polls an idle receiver or a running timer before
/// giving up: large enough never to be reached before any realistic timer
/// expires, and needed because nothing proves that a hardware timer ever
/// fires.
pub const POLL_BUDGET: u64 = 0xffff_ffff_ffff_ffff;

/// The contents of a circular buffer that started as `init` after the bytes
/// of `stream` have been written into it one at a time, the first byte at
/// index 0 and each later byte right after the previous one, wrapping
/// around modulo the buffer length.
pub open spec fn ring_after(init: Seq<u8>, stream: Seq<u8>) -> Seq<u8>
    decreases stream.len(),
{
    if stream.len() == 0 || init.len() == 0 {
        init
    } else {
        ring_after(init, stream.drop_last()).update(
            ((stream.len() - 1) as int) % (init.len() as int),
            stream.last(),
        )
    }
}

/// No proper prefix of `stream`, fed into a scan buffer that started as
/// `init`, classifies as a terminal response: the response recognized after
/// the whole of `stream`, if any, is recognized at the exact byte where its
/// pattern's last byte is written, and not before.
pub open spec fn no_early_match(init: Seq<u8>, stream: Seq<u8>) -> bool {
    forall|j: int|
        0 < j < stream.len() ==> spec_parse_at_response(
            #[trigger] ring_after(init, stream.take(j)),
            j % (init.len() as int),
        ) is None
}

/// No prefix of `stream`, the whole of it included, classifies as a
/// terminal response.
pub open spec fn no_match_through(init: Seq<u8>, stream: Seq<u8>) -> bool {
    forall|j: int|
        0 < j <= stream.len() ==> spec_parse_at_response(
            #[trigger] ring_after(init, stream.take(j)),
            j % (init.len() as int),
        ) is None
}

/// A successful scan: the received `stream`, written into a buffer that
/// started as `init`, left it as `scanned`; the last received byte made the
/// classifier recognize `response`; and no proper prefix of the stream was
/// recognized — the scan returned at the exact byte where the pattern
/// completed, and not before.
pub open spec fn scan_recognized(
    init: Seq<u8>,
    stream: Seq<u8>,
    scanned: Seq<u8>,
    response: ATResponse,
) -> bool {
    &&& ring_after(init, stream) == scanned
    &&& stream.len() > 0
    &&& spec_parse_at_response(scanned, stream.len() as int % init.len() as int) == Some(response)
    &&& no_early_match(init, stream)
}

/// A failed scan: the received `stream` left the buffer as `scanned` and no
/// prefix of it, the whole included, was recognized.
pub open spec fn scan_unmatched(init: Seq<u8>, stream: Seq<u8>, scanned: Seq<u8>) -> bool {
    &&& ring_after(init, stream) == scanned
    &&& no_match_through(init, stream)
}

/// Scans the receiver for a terminal AT response: pulls bytes
/// non-blockingly, writes each into the circular scan buffer, reclassifies
/// the buffer after every byte, and gives up with `TimedOut` once the timer
/// armed with `timeout` expires before a byte is available. A hardware
/// error of the receiver propagates immediately.
///
/// On success there is a received byte stream that drove the buffer to its
/// final state, whose last byte completed the recognized response and no
/// proper prefix of which was recognized; on failure no prefix of the
/// received stream was recognized.
pub fn read_until_at_response<Rx: SerialRead, Timer: LongTimer>(
    rx: &mut Rx,
    timer: &mut Timer,
    timeout: Millisecond,
    buffer: &mut Vec<u8>,
) -> (r: Result<ATResponse, Error<Rx::Error>>)
    requires
        old(buffer)@.len() > 0,
    ensures
        final(buffer)@.len() == old(buffer)@.len(),
        match r {
            Ok(response) => exists|stream: Seq<u8>|
                #[trigger] scan_recognized(old(buffer)@, stream, final(buffer)@, response),
            Err(_) => exists|stream: Seq<u8>|
                #[trigger] scan_unmatched(old(buffer)@, stream, final(buffer)@),
        },
{
    let ghost init: Seq<u8> = buffer@;
    let ghost mut received: Seq<u8> = Seq::empty();
    let cap: usize = buffer.len();
    timer.start(timeout);
    let mut offset: usize = 0;
    let mut polls: u64 = 0;
    loop
        invariant
            init == old(buffer)@,
            cap == init.len(),
            cap > 0,
            buffer@ == ring_after(init, received),
            buffer@.len() == cap,
            offset as int == received.len() as int % cap as int,
            offset < cap,
            no_match_through(init, received),
            polls <= POLL_BUDGET,
        decreases POLL_BUDGET - polls,
    {
        if polls == POLL_BUDGET {
            // The poll budget ran out before the timer fired: give up as a
            // timeout rather than poll forever.
            proof {
                assert(scan_unmatched(init, received, buffer@));
            }
            return Err(Error::TimedOut);
        }
        polls = polls + 1;
        match rx.read_byte() {
            Ok(byte) => {
                let ghost previous = received;
                buffer[offset] = byte;
                proof {
                    received = received.push(byte);
                    assert(received.drop_last() =~= previous);
                    assert(ring_after(init, received) == buffer@);
                }
                offset = offset + 1;
                if offset == cap {
                    offset = 0;
                }
                proof {
                    lemma_advanced_offset(previous.len() as int, cap as int);
                    assert(offset as int == received.len() as int % cap as int);
                    assert forall|j: int| 0 < j < received.len() implies spec_parse_at_response(
                        #[trigger] ring_after(init, received.take(j)),
                        j % (cap as int),
                    ) is None by {
                        assert(received.take(j) =~= previous.take(j));
                    }
                }
                match parse_at_response(buffer.as_slice(), offset) {
                    Some(response) => {
                        proof {
                            assert(received.take(received.len() as int) =~= received);
                            assert(scan_recognized(init, received, buffer@, response));
                        }
                        return Ok(response);
                    },
                    None => {
                        proof {
                            assert forall|j: int|
                                0 < j <= received.len() implies spec_parse_at_response(
                                #[trigger] ring_after(init, received.take(j)),
                                j % (cap as int),
                            ) is None by {
                                if j < received.len() {
                                    assert(received.take(j) =~= previous.take(j));
                                } else {
                                    assert(received.take(j) =~= received);
                                }
                            }
                        }
                    },
                }
            },
            Err(NbError::WouldBlock) => {
                if timer.wait() {
                    proof {
                        assert(scan_unmatched(init, received, buffer@));
                    }
                    return Err(Error::TimedOut);
                }
            },
            Err(NbError::Other(e)) => {
                proof {
                    assert(scan_unmatched(init, received, buffer@));
                }
                return Err(Error::Read(e));
            },
        }
    }
}

/// After one more byte, the write offset advances by one, modulo the
/// buffer length.
proof fn lemma_advanced_offset(count: int, cap: int)
    requires
        count >= 0,
        cap > 0,
    ensures
        (count % cap + 1) % cap == (count + 1) % cap,
        count % cap + 1 < cap ==> count % cap + 1 == (count + 1) % cap,
        count % cap + 1 == cap ==> (count + 1) % cap == 0,
{
    vstd::arithmetic::div_mod::lemma_mod_self_0(cap);
    lemma_add_mod_noop(count, 1, cap);
    lemma_mod_bound(count, cap);
    if cap == 1 {
        lemma_small_mod(0, 1);
    } else {
        lemma_small_mod(1, cap as nat);
    }
    if count % cap + 1 < cap {
        lemma_small_mod((count % cap + 1) as nat, cap as nat);
    }
}

/// True iff the scan buffer currently shows the module's data-entry prompt:
/// its first cell holds the single byte `'>'`.
pub open spec fn spec_prompt_present(buffer: Seq<u8>) -> bool {
    buffer.len() > 0 && buffer[0] == 62u8
}

/// No proper prefix of `stream`, fed into a scan buffer that started as
/// `init`, shows the prompt.
pub open spec fn no_early_prompt(init: Seq<u8>, stream: Seq<u8>) -> bool {
    forall|j: int|
        0 < j < stream.len() ==> !spec_prompt_present(#[trigger] ring_after(init, stream.take(j)))
}

/// No prefix of `stream`, the whole of it included, shows the prompt.
pub open spec fn no_prompt_through(init: Seq<u8>, stream: Seq<u8>) -> bool {
    forall|j: int|
        0 < j <= stream.len() ==> !spec_prompt_present(#[trigger] ring_after(init, stream.take(j)))
}

/// The one-byte scan buffer that every wait for the data-entry prompt
/// starts from.
pub open spec fn fresh_prompt_buffer() -> Seq<u8> {
    seq![0u8]
}

/// A successful prompt scan: the received `stream` left the one-byte buffer
/// as `scanned`; the last received byte was the prompt and showed in the
/// buffer; and no earlier received byte was the prompt.
pub open spec fn prompt_recognized(init: Seq<u8>, stream: Seq<u8>, scanned: Seq<u8>) -> bool {
    &&& ring_after(init, stream) == scanned
    &&& stream.len() > 0
    &&& spec_prompt_present(scanned)
    &&& no_early_prompt(init, stream)
}

/// A failed prompt scan: no received byte was the prompt.
pub open spec fn prompt_unseen(init: Seq<u8>, stream: Seq<u8>, scanned: Seq<u8>) -> bool {
    &&& ring_after(init, stream) == scanned
    &&& no_prompt_through(init, stream)
}

/// Scans the receiver until the single prompt byte `'>'` arrives in the
/// one-byte scan buffer, with its own timeout; every other byte is written
/// into the buffer, seen not to be the prompt, and ignored. On success the
/// last received byte, and none before it, was the prompt; on failure no
/// received byte was.
pub fn read_until_prompt<Rx: SerialRead, Timer: LongTimer>(
    rx: &mut Rx,
    timer: &mut Timer,
    timeout: Millisecond,
    buffer: &mut Vec<u8>,
) -> (r: Result<(), Error<Rx::Error>>)
    requires
        old(buffer)@.len() == 1,
    ensures
        final(buffer)@.len() == old(buffer)@.len(),
        match r {
            Ok(()) => exists|stream: Seq<u8>|
                #[trigger] prompt_recognized(old(buffer)@, stream, final(buffer)@),
            Err(_) => exists|stream: Seq<u8>|
                #[trigger] prompt_unseen(old(buffer)@, stream, final(buffer)@),
        },
{
    let ghost init: Seq<u8> = buffer@;
    let ghost mut received: Seq<u8> = Seq::empty();
    timer.start(timeout);
    let mut polls: u64 = 0;
    loop
        invariant
            init == old(buffer)@,
            init.len() == 1,
            buffer@ == ring_after(init, received),
            buffer@.len() == 1,
            no_prompt_through(init, received),
            polls <= POLL_BUDGET,
        decreases POLL_BUDGET - polls,
    {
        if polls == POLL_BUDGET {
            // The poll budget ran out before the timer fired: give up as a
            // timeout rather than poll forever.
            proof {
                assert(prompt_unseen(init, received, buffer@));
            }
            return Err(Error::TimedOut);
        }
        polls = polls + 1;
        match rx.read_byte() {
            Ok(byte) => {
                let ghost previous = received;
                buffer[0] = byte;
                proof {
                    received = received.push(byte);
                    assert(received.drop_last() =~= previous);
                    assert((received.len() - 1) as int % init.len() as int == 0) by {
                        lemma_mod_bound((received.len() - 1) as int, 1);
                    }
                    assert(ring_after(init, received) == buffer@);
                    assert forall|j: int| 0 < j < received.len() implies !spec_prompt_present(
                        #[trigger] ring_after(init, received.take(j)),
                    ) by {
                        assert(received.take(j) =~= previous.take(j));
                    }
                }
                if buffer[0] == 62 {
                    proof {
                        assert(received.take(received.len() as int) =~= received);
                        assert(prompt_recognized(init, received, buffer@));
                    }
                    return Ok(());
                }
                proof {
                    assert forall|j: int| 0 < j <= received.len() implies !spec_prompt_present(
                        #[trigger] ring_after(init, received.take(j)),
                    ) by {
                        if j < received.len() {
                            assert(received.take(j) =~= previous.take(j));
                        } else {
                            assert(received.take(j) =~= received);
                        }
                    }
                }
            },
            Err(NbError::WouldBlock) => {
                if timer.wait() {
                    proof {
                        assert(prompt_unseen(init, received, buffer@));
                    }
                    return Err(Error::TimedOut);
                }
            },
            Err(NbError::Other(e)) => {
                proof {
                    assert(prompt_unseen(init, received, buffer@));
                }
                return Err(Error::Read(e));
            },
        }
    }
}

} // verus!
