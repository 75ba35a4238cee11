use vstd::prelude::*;
use vstd::arithmetic::div_mod::{
    lemma_fundamental_div_mod, lemma_mod_bound, lemma_mod_multiples_vanish, lemma_small_mod,
    lemma_mod_add_multiples_vanish,
};

verus! {

/// The terminal responses of the module that this driver can recognize.
///
/// This does not contain every message the module can emit, but it does
/// contain every terminal status line that the commands sent by this driver
/// can provoke.
#[derive(Clone, Copy, PartialEq, Eq, Structural, Debug)]
pub enum ATResponse {
    Okay,
    Error,
    Busy,
    WiFiGotIp,
}

/// The bytes of `"OK\r\n"`.
pub open spec fn ok_pattern() -> Seq<u8> {
    seq![79u8, 75u8, 13u8, 10u8]
}

/// The bytes of `"ERROR\r\n"`.
pub open spec fn error_pattern() -> Seq<u8> {
    seq![69u8, 82u8, 82u8, 79u8, 82u8, 13u8, 10u8]
}

/// The bytes of `"busy p...\r\n"`, the module's literal truncated busy line.
pub open spec fn busy_pattern() -> Seq<u8> {
    seq![98u8, 117u8, 115u8, 121u8, 32u8, 112u8, 46u8, 46u8, 46u8, 13u8, 10u8]
}

/// The bytes of `"WIFI GOT IP\r\n"`, the longest recognized response.
pub open spec fn got_ip_pattern() -> Seq<u8> {
    seq![87u8, 73u8, 70u8, 73u8, 32u8, 71u8, 79u8, 84u8, 32u8, 73u8, 80u8, 13u8, 10u8]
}

/// The terminal pattern that classifies as the given response.
pub open spec fn response_pattern(response: ATResponse) -> Seq<u8> {
    match response {
        ATResponse::Okay => ok_pattern(),
        ATResponse::Error => error_pattern(),
        ATResponse::Busy => busy_pattern(),
        ATResponse::WiFiGotIp => got_ip_pattern(),
    }
}

/// Length of the longest recognized response, `"WIFI GOT IP\r\n"`: the size
/// every response scan buffer is allocated with.
pub const AT_RESPONSE_BUFFER_SIZE: usize = 13;

/// The zeroed scan buffer that every wait for a terminal response starts
/// from: fixed-size, allocated fresh per wait, discarded when the wait
/// returns.
pub open spec fn fresh_scan_buffer() -> Seq<u8> {
    Seq::new(AT_RESPONSE_BUFFER_SIZE as nat, |i: int| 0u8)
}

/// Index into a circular buffer of length `len` of the byte written `back`
/// positions before the most recent one, when `offset` is the index that the
/// next byte would be written at (equivalently, of the oldest live byte).
pub open spec fn ring_index(len: int, offset: int, back: int) -> int {
    (offset - 1 - back) % len
}

/// The byte of the circular buffer `back` positions from its newest byte.
pub open spec fn ring_byte_from_back(buffer: Seq<u8>, offset: int, back: int) -> u8 {
    buffer[ring_index(buffer.len() as int, offset, back)]
}

/// The byte of `pattern` located `back` positions from its last byte.
pub open spec fn pattern_byte_from_back(pattern: Seq<u8>, back: int) -> u8 {
    pattern[pattern.len() - 1 - back]
}

/// True iff the most recently written bytes of the circular buffer equal the
/// tail of `pattern`, comparing only the `min(buffer.len(), pattern.len())`
/// bytes that both hold, from the back: the comparison is tail-anchored and
/// tolerates either side being shorter than the other.
pub open spec fn tail_matches(buffer: Seq<u8>, offset: int, pattern: Seq<u8>) -> bool {
    forall|i: int|
        0 <= i < vstd::math::min(buffer.len() as int, pattern.len() as int) ==> #[trigger]
            ring_byte_from_back(buffer, offset, i) == pattern_byte_from_back(pattern, i)
}

/// Which terminal response, if any, the circular buffer currently ends with,
/// trying the recognized patterns in a fixed priority order.
pub open spec fn spec_parse_at_response(buffer: Seq<u8>, offset: int) -> Option<ATResponse> {
    if tail_matches(buffer, offset, ok_pattern()) {
        Some(ATResponse::Okay)
    } else if tail_matches(buffer, offset, error_pattern()) {
        Some(ATResponse::Error)
    } else if tail_matches(buffer, offset, busy_pattern()) {
        Some(ATResponse::Busy)
    } else if tail_matches(buffer, offset, got_ip_pattern()) {
        Some(ATResponse::WiFiGotIp)
    } else {
        None
    }
}

/// Law: the classifier never reports a wrong variant: whenever it
/// recognizes a response, the buffer's tail actually matches that
/// response's own pattern, and any byte sequence whose tail matches no
/// recognized pattern classifies as no match.
pub proof fn lemma_classifier_sound(buffer: Seq<u8>, offset: int)
    ensures
        spec_parse_at_response(buffer, offset) matches Some(response) ==> tail_matches(
            buffer,
            offset,
            response_pattern(response),
        ),
        (forall|response: ATResponse|
            !tail_matches(buffer, offset, #[trigger] response_pattern(response)))
            ==> spec_parse_at_response(buffer, offset) is None,
{
    assert(response_pattern(ATResponse::Okay) == ok_pattern());
    assert(response_pattern(ATResponse::Error) == error_pattern());
    assert(response_pattern(ATResponse::Busy) == busy_pattern());
    assert(response_pattern(ATResponse::WiFiGotIp) == got_ip_pattern());
}

/// Compares the content of a circular buffer with another buffer. The
/// comparison is done from the back, and if one buffer is longer than the
/// other, only the shared number of bytes is compared.
///
/// `offset` is the index of the oldest byte of the circular buffer, which is
/// also where the next byte would be written; any offset is accepted and is
/// reduced modulo the buffer length first.
pub fn compare_circular_buffer(circular_buffer: &[u8], offset: usize, comparison: &[u8]) -> (r:
    bool)
    ensures
        r == tail_matches(circular_buffer@, offset as int, comparison@),
{
    let len: usize = circular_buffer.len();
    let comparison_len: usize = comparison.len();
    if len == 0 {
        return true;
    }
    let comparison_length: usize = if len < comparison_len {
        len
    } else {
        comparison_len
    };
    // Reduce the offset so that the index arithmetic below stays in bounds:
    // `%` on usize agrees with the mathematical modulo for these operands.
    let off: usize = offset % len;
    proof {
        lemma_mod_bound(offset as int, len as int);
    }
    let mut i: usize = 0;
    while i < comparison_length
        invariant
            len == circular_buffer@.len(),
            comparison_len == comparison@.len(),
            len > 0,
            off == offset as int % len as int,
            off < len,
            comparison_length == vstd::math::min(len as int, comparison_len as int),
            0 <= i <= comparison_length,
            forall|k: int|
                0 <= k < i ==> #[trigger] ring_byte_from_back(circular_buffer@, offset as int, k)
                    == pattern_byte_from_back(comparison@, k),
        decreases comparison_length - i,
    {
        let back: usize = i + 1;
        let circular_index: usize = if off >= back {
            off - back
        } else {
            len - back + off
        };
        proof {
            lemma_ring_index_reduced(len as int, offset as int, i as int);
            if off >= back {
                lemma_small_mod((off - back) as nat, len as nat);
            } else {
                lemma_mod_add_multiples_vanish(off as int - back, len as int);
                lemma_small_mod((len - back + off) as nat, len as nat);
            }
            assert(circular_index as int == ring_index(len as int, offset as int, i as int));
        }
        let comparison_index: usize = comparison_len - 1 - i;
        if circular_buffer[circular_index] != comparison[comparison_index] {
            proof {
                assert(ring_byte_from_back(circular_buffer@, offset as int, i as int)
                    != pattern_byte_from_back(comparison@, i as int));
            }
            return false;
        }
        i = i + 1;
    }
    true
}

/// Reducing the write offset modulo the buffer length leaves every ring
/// index unchanged.
proof fn lemma_ring_index_reduced(len: int, offset: int, back: int)
    requires
        len > 0,
        offset >= 0,
    ensures
        ring_index(len, offset % len, back) == ring_index(len, offset, back),
{
    lemma_fundamental_div_mod(offset, len);
    let q = offset / len;
    assert(offset - 1 - back == len * q + (offset % len - 1 - back));
    lemma_mod_multiples_vanish(q, offset % len - 1 - back, len);
}

/// Parses the circular buffer as an AT command response, returning the
/// classified terminal response if one is recognized at its tail and `None`
/// otherwise. The patterns are tried in a fixed priority order, so exactly
/// one response can be recognized at a time.
pub fn parse_at_response(buffer: &[u8], offset: usize) -> (r: Option<ATResponse>)
    ensures
        r == spec_parse_at_response(buffer@, offset as int),
{
    let ok = ok_pattern_bytes();
    let error = error_pattern_bytes();
    let busy = busy_pattern_bytes();
    let got_ip = got_ip_pattern_bytes();
    if compare_circular_buffer(buffer, offset, ok.as_slice()) {
        Some(ATResponse::Okay)
    } else if compare_circular_buffer(buffer, offset, error.as_slice()) {
        Some(ATResponse::Error)
    } else if compare_circular_buffer(buffer, offset, busy.as_slice()) {
        Some(ATResponse::Busy)
    } else if compare_circular_buffer(buffer, offset, got_ip.as_slice()) {
        Some(ATResponse::WiFiGotIp)
    } else {
        None
    }
}

/// The bytes of `"OK\r\n"`, as runnable data.
fn ok_pattern_bytes() -> (r: Vec<u8>)
    ensures
        r@ == ok_pattern(),
{
    let mut v: Vec<u8> = Vec::new();
    v.push(79);
    v.push(75);
    v.push(13);
    v.push(10);
    proof {
        assert(v@ =~= ok_pattern());
    }
    v
}

/// The bytes of `"ERROR\r\n"`, as runnable data.
fn error_pattern_bytes() -> (r: Vec<u8>)
    ensures
        r@ == error_pattern(),
{
    let mut v: Vec<u8> = Vec::new();
    v.push(69);
    v.push(82);
    v.push(82);
    v.push(79);
    v.push(82);
    v.push(13);
    v.push(10);
    proof {
        assert(v@ =~= error_pattern());
    }
    v
}

/// The bytes of `"busy p...\r\n"`, as runnable data.
fn busy_pattern_bytes() -> (r: Vec<u8>)
    ensures
        r@ == busy_pattern(),
{
    let mut v: Vec<u8> = Vec::new();
    v.push(98);
    v.push(117);
    v.push(115);
    v.push(121);
    v.push(32);
    v.push(112);
    v.push(46);
    v.push(46);
    v.push(46);
    v.push(13);
    v.push(10);
    proof {
        assert(v@ =~= busy_pattern());
    }
    v
}

/// The bytes of `"WIFI GOT IP\r\n"`, as runnable data.
fn got_ip_pattern_bytes() -> (r: Vec<u8>)
    ensures
        r@ == got_ip_pattern(),
{
    let mut v: Vec<u8> = Vec::new();
    v.push(87);
    v.push(73);
    v.push(70);
    v.push(73);
    v.push(32);
    v.push(71);
    v.push(79);
    v.push(84);
    v.push(32);
    v.push(73);
    v.push(80);
    v.push(13);
    v.push(10);
    proof {
        assert(v@ =~= got_ip_pattern());
    }
    v
}

} // verus!
