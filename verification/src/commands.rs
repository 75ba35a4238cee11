use vstd::prelude::*;
use vstd::string::StringSliceAdditionalSpecFns;
use vstd::arithmetic::div_mod::lemma_fundamental_div_mod;

verus! {

/// The decimal digits of `n`, as ASCII bytes, most significant first, with
/// no sign and no leading zeros (a single `'0'` for zero).
pub open spec fn dec_digits(n: nat) -> Seq<u8>
    decreases n,
{
    if n < 10 {
        seq![(48 + n) as u8]
    } else {
        dec_digits(n / 10).push((48 + n % 10) as u8)
    }
}

/// The number that a sequence of ASCII decimal digits denotes, read most
/// significant first.
pub open spec fn dec_value(digits: Seq<u8>) -> int
    decreases digits.len(),
{
    if digits.len() == 0 {
        0
    } else {
        dec_value(digits.drop_last()) * 10 + (digits.last() as int - 48)
    }
}

/// How long decimal renderings are: one digit per power of ten. In
/// particular a 16-bit value never needs more than five digits, so the
/// five-byte scratch buffer that a port number is rendered into can never
/// overflow, and a rendering needing six or more digits is impossible.
pub proof fn lemma_dec_digits_len(n: nat)
    ensures
        dec_digits(n).len() >= 1,
        n < 10 ==> dec_digits(n).len() == 1,
        n < 100 ==> dec_digits(n).len() <= 2,
        n < 1000 ==> dec_digits(n).len() <= 3,
        n < 10000 ==> dec_digits(n).len() <= 4,
        n < 100000 ==> dec_digits(n).len() <= 5,
    decreases n,
{
    if n >= 10 {
        lemma_dec_digits_len(n / 10);
    }
}

/// Law: the decimal rendering of any 16-bit port number fits the five-byte
/// scratch buffer it is rendered into.
pub proof fn lemma_port_digits_fit(port: u16)
    ensures
        1 <= dec_digits(port as nat).len() <= 5,
{
    lemma_dec_digits_len(port as nat);
}

/// Law: reading a decimal rendering back as a number yields the value that
/// was rendered.
pub proof fn lemma_dec_digits_round_trip(n: nat)
    ensures
        dec_value(dec_digits(n)) == n,
    decreases n,
{
    if n < 10 {
        let digits = dec_digits(n);
        assert(digits =~= seq![(48 + n) as u8]);
        assert(digits.drop_last() =~= Seq::<u8>::empty());
        assert(dec_value(digits.drop_last()) == 0);
        assert(digits.last() == (48 + n) as u8);
        assert(dec_value(digits) == 0 * 10 + ((48 + n) as u8 as int - 48));
    } else {
        lemma_dec_digits_round_trip(n / 10);
        let digits = dec_digits(n);
        assert(digits =~= dec_digits(n / 10).push((48 + n % 10) as u8));
        assert(digits.drop_last() =~= dec_digits(n / 10));
        assert(digits.last() == (48 + n % 10) as u8);
        assert(dec_value(digits) == dec_value(dec_digits(n / 10)) * 10 + ((48 + n % 10) as u8 as int
            - 48));
        lemma_fundamental_div_mod(n as int, 10);
        assert(dec_value(digits) == (n / 10) * 10 + n % 10);
    }
}

/// Renders a 16-bit value as decimal text.
///
/// Relies on `itoa::fmt`, which writes exactly the decimal digits of the
/// value, most significant first, with no sign, padding or leading zeros,
/// into the given writer; the writer is an `arrayvec::ArrayString` of five
/// bytes, which a 16-bit value's digits always fit (`lemma_port_digits_fit`),
/// so the write cannot fail.
#[verifier::external_body]
fn decimal_digits_u16(value: u16) -> (r: Vec<u8>)
    ensures
        r@ == dec_digits(value as nat),
{
    let mut text = arrayvec::ArrayString::<[u8; 5]>::new();
    let _ = itoa::fmt(&mut text, value);
    text.as_bytes().to_vec()
}

/// The bytes of `"AT"`, the prefix of every command line.
pub open spec fn at_prefix() -> Seq<u8> {
    seq![65u8, 84u8]
}

/// The bytes of `"\r\n"`, the terminator of every command line.
pub open spec fn crlf() -> Seq<u8> {
    seq![13u8, 10u8]
}

/// The whole command line `"AT<command>\r\n"` for a command given as bytes.
pub open spec fn spec_at_command(command: Seq<u8>) -> Seq<u8> {
    at_prefix() + command + crlf()
}

/// The bytes of `"TCP"` or `"UDP"`: the connection type as it is quoted
/// inside the connect command.
pub open spec fn connection_type_bytes(connection_type: crate::ConnectionType) -> Seq<u8> {
    match connection_type {
        crate::ConnectionType::Tcp => seq![84u8, 67u8, 80u8],
        crate::ConnectionType::Udp => seq![85u8, 68u8, 80u8],
    }
}

/// The bytes of `"AT+CIPSTART=\""`.
pub open spec fn cipstart_prefix() -> Seq<u8> {
    seq![65u8, 84u8, 43u8, 67u8, 73u8, 80u8, 83u8, 84u8, 65u8, 82u8, 84u8, 61u8, 34u8]
}

/// The whole connect command
/// `AT+CIPSTART="<TCP|UDP>","<address>",<port>\r\n`, over the bytes of the
/// destination address.
pub open spec fn spec_cipstart_command(
    connection_type: crate::ConnectionType,
    address: Seq<u8>,
    port: u16,
) -> Seq<u8> {
    cipstart_prefix() + connection_type_bytes(connection_type) + seq![34u8, 44u8, 34u8] + address
        + seq![34u8, 44u8] + dec_digits(port as nat) + crlf()
}

/// The bytes of `"AT+CIPSEND="`.
pub open spec fn cipsend_prefix() -> Seq<u8> {
    seq![65u8, 84u8, 43u8, 67u8, 73u8, 80u8, 83u8, 69u8, 78u8, 68u8, 61u8]
}

/// The whole transmission-start command `AT+CIPSEND=<length>\r\n`.
pub open spec fn spec_cipsend_command(length: nat) -> Seq<u8> {
    cipsend_prefix() + dec_digits(length) + crlf()
}

/// Builds the command line `"AT<command>\r\n"`.
pub fn at_command(command: &str) -> (r: Vec<u8>)
    ensures
        r@ == spec_at_command(command.spec_bytes()),
{
    let mut line: Vec<u8> = Vec::new();
    line.push(65);
    line.push(84);
    line.extend_from_slice(command.as_bytes());
    line.push(13);
    line.push(10);
    proof {
        assert(line@ =~= spec_at_command(command.spec_bytes()));
    }
    line
}

/// Builds the connect command
/// `AT+CIPSTART="<TCP|UDP>","<address>",<port>\r\n`, rendering the port as
/// decimal text; a 16-bit port always fits its five-byte scratch buffer.
pub fn cipstart_command(
    connection_type: &crate::ConnectionType,
    address: &str,
    port: u16,
) -> (r: Vec<u8>)
    ensures
        r@ == spec_cipstart_command(*connection_type, address.spec_bytes(), port),
{
    let mut line: Vec<u8> = Vec::new();
    line.push(65);
    line.push(84);
    line.push(43);
    line.push(67);
    line.push(73);
    line.push(80);
    line.push(83);
    line.push(84);
    line.push(65);
    line.push(82);
    line.push(84);
    line.push(61);
    line.push(34);
    match connection_type {
        crate::ConnectionType::Tcp => {
            line.push(84);
            line.push(67);
            line.push(80);
        },
        crate::ConnectionType::Udp => {
            line.push(85);
            line.push(68);
            line.push(80);
        },
    }
    line.push(34);
    line.push(44);
    line.push(34);
    line.extend_from_slice(address.as_bytes());
    line.push(34);
    line.push(44);
    let mut digits = decimal_digits_u16(port);
    line.append(&mut digits);
    line.push(13);
    line.push(10);
    proof {
        assert(line@ =~= spec_cipstart_command(*connection_type, address.spec_bytes(), port));
    }
    line
}

/// Builds the transmission-start command `AT+CIPSEND=<length>\r\n` for a
/// payload length under the module's 2048-byte packet ceiling.
pub fn cipsend_command(length: u16) -> (r: Vec<u8>)
    requires
        length < 2048,
    ensures
        r@ == spec_cipsend_command(length as nat),
{
    let mut line: Vec<u8> = Vec::new();
    line.push(65);
    line.push(84);
    line.push(43);
    line.push(67);
    line.push(73);
    line.push(80);
    line.push(83);
    line.push(69);
    line.push(78);
    line.push(68);
    line.push(61);
    let mut digits = decimal_digits_u16(length);
    line.append(&mut digits);
    line.push(13);
    line.push(10);
    proof {
        assert(line@ =~= spec_cipsend_command(length as nat));
    }
    line
}

} // verus!
