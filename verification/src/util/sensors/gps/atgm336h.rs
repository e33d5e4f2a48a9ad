//! The satellite receiver.
//!
//! The receiver reports its fix as one line of text, framed like every sentence of the
//! NMEA family: `$`, a body, `*`, and the exclusive-or of the body's bytes as two
//! hexadecimal digits. The body of a fix is `PFIX,<latitude>,<longitude>,<altitude>,<speed>`
//! with latitude and longitude in degrees, altitude in metres and speed in metres per
//! second, each a plain decimal numeral. Nothing is taken from a reply whose frame,
//! checksum or fields are not in order.

use crate::util::decimal::{numeral_value, parse_numeral};
use crate::util::scan::{find_byte, first_index};
use crate::util::sensors::{
    register_read, views, DeviceError, Sensor, Transaction, TransactionView,
};
use vstd::prelude::*;
use vstd::slice::slice_subrange;

verus! {

/// The register from which the receiver's output is read.
pub const STREAM: u8 = 0xFD;

/// The most bytes that one read takes from the receiver.
pub const STREAM_BURST_LEN: usize = 32;

/// The code of `$`, which opens a sentence.
pub const DOLLAR: u8 = 0x24;

/// The code of `*`, which closes the body of a sentence.
pub const STAR: u8 = 0x2A;

/// The code of `,`, which separates the fields of a body.
pub const COMMA: u8 = 0x2C;

/// The number of fraction digits kept of a latitude or longitude.
pub const ANGLE_PLACES: usize = 7;

/// The number of fraction digits kept of an altitude or speed.
pub const LENGTH_PLACES: usize = 2;

/// A right angle in units of 1e-7 degree: the largest latitude.
pub const MAX_LATITUDE: i64 = 900_000_000;

/// A straight angle in units of 1e-7 degree: the largest longitude.
pub const MAX_LONGITUDE: i64 = 1_800_000_000;

/// One fix: latitude and longitude as counts of 1e-7 degree, altitude in metres and
/// speed in metres per second as counts of hundredths.
#[derive(Debug, Clone, Copy, PartialEq, Eq, Structural)]
pub struct GpsData {
    pub latitude: i64,
    pub longitude: i64,
    pub altitude: i64,
    pub speed: i64,
}

/// The driver of the satellite receiver.
#[derive(Debug)]
pub struct Gps {
    address: u8,
}

/// The first field of the body of a fix: `PFIX`.
pub open spec fn fix_tag() -> Seq<u8> {
    seq![0x50, 0x46, 0x49, 0x58]
}

/// The sentence that tells the receiver to report its fix: `$PFIX,1*1A` and a line end.
pub open spec fn enable_fix_command() -> Seq<u8> {
    seq![0x24, 0x50, 0x46, 0x49, 0x58, 0x2C, 0x31, 0x2A, 0x31, 0x41, 0x0D, 0x0A]
}

/// The exclusive-or of all of `bytes`, starting from zero.
pub open spec fn xor_bytes(bytes: Seq<u8>) -> u8
    decreases bytes.len(),
{
    if bytes.len() == 0 {
        0
    } else {
        xor_bytes(bytes.drop_last()) ^ bytes.last()
    }
}

/// The number that a hexadecimal digit stands for, in either case of the letters.
pub open spec fn hex_digit(b: u8) -> Option<u8> {
    if 0x30 <= b <= 0x39 {
        Some((b - 0x30) as u8)
    } else if 0x41 <= b <= 0x46 {
        Some((b - 0x41 + 10) as u8)
    } else if 0x61 <= b <= 0x66 {
        Some((b - 0x61 + 10) as u8)
    } else {
        None
    }
}

/// The byte that two hexadecimal digits write, the high one first.
pub open spec fn hex_pair(high: u8, low: u8) -> Option<u8> {
    match (hex_digit(high), hex_digit(low)) {
        (Some(h), Some(l)) => Some((h * 16 + l) as u8),
        _ => None,
    }
}

/// The body of the first sentence in a reply: what stands between the first `$` and the
/// first `*` behind it, provided that two hexadecimal digits follow the `*` and write
/// the exclusive-or of the body. Bytes before the `$` and behind the checksum do not
/// count.
pub open spec fn sentence_body(reply: Seq<u8>) -> Option<Seq<u8>> {
    let start = first_index(reply, DOLLAR, 0);
    let star = first_index(reply, STAR, start + 1);
    if star + 2 < reply.len() && hex_pair(reply[star + 1], reply[star + 2]) == Some(
        xor_bytes(reply.subrange(start + 1, star)),
    ) {
        Some(reply.subrange(start + 1, star))
    } else {
        None
    }
}

/// The fix that a body reports: five fields, of which the first is the tag and the
/// others are latitude, longitude, altitude and speed. The latitude lies within a right
/// angle of the equator, the longitude within a straight angle of the prime meridian,
/// and the speed is not negative.
pub open spec fn fix_in(body: Seq<u8>) -> Option<GpsData> {
    let c0 = first_index(body, COMMA, 0);
    let c1 = first_index(body, COMMA, c0 + 1);
    let c2 = first_index(body, COMMA, c1 + 1);
    let c3 = first_index(body, COMMA, c2 + 1);
    let c4 = first_index(body, COMMA, c3 + 1);
    if c3 < body.len() && c4 == body.len() && body.subrange(0, c0) == fix_tag() {
        let latitude = numeral_value(body.subrange(c0 + 1, c1), ANGLE_PLACES as nat);
        let longitude = numeral_value(body.subrange(c1 + 1, c2), ANGLE_PLACES as nat);
        let altitude = numeral_value(body.subrange(c2 + 1, c3), LENGTH_PLACES as nat);
        let speed = numeral_value(body.subrange(c3 + 1, c4), LENGTH_PLACES as nat);
        if latitude is Some && longitude is Some && altitude is Some && speed is Some
            && -MAX_LATITUDE <= latitude->0 <= MAX_LATITUDE && -MAX_LONGITUDE <= longitude->0
            <= MAX_LONGITUDE && 0 <= speed->0 {
            Some(
                GpsData {
                    latitude: latitude->0 as i64,
                    longitude: longitude->0 as i64,
                    altitude: altitude->0 as i64,
                    speed: speed->0 as i64,
                },
            )
        } else {
            None
        }
    } else {
        None
    }
}

/// The exclusive-or of all of `bytes`, starting from zero.
pub fn fold_xor(bytes: &[u8]) -> (sum: u8)
    ensures
        sum == xor_bytes(bytes@),
{
    let len = bytes.len();
    let mut sum: u8 = 0;
    let mut i: usize = 0;
    assert(bytes@.subrange(0, 0) =~= Seq::<u8>::empty());
    while i < len
        invariant
            len == bytes@.len(),
            i <= len,
            sum == xor_bytes(bytes@.subrange(0, i as int)),
        decreases len - i,
    {
        proof {
            let longer = bytes@.subrange(0, i + 1);
            assert(longer.drop_last() =~= bytes@.subrange(0, i as int));
            assert(longer.last() == bytes@[i as int]);
        }
        sum = sum ^ bytes[i];
        i = i + 1;
    }
    assert(bytes@.subrange(0, len as int) =~= bytes@);
    sum
}

/// The number that a hexadecimal digit stands for.
pub fn read_hex_digit(b: u8) -> (value: Option<u8>)
    ensures
        value == hex_digit(b),
{
    if 0x30 <= b && b <= 0x39 {
        Some(b - 0x30)
    } else if 0x41 <= b && b <= 0x46 {
        Some(b - 0x41 + 10)
    } else if 0x61 <= b && b <= 0x66 {
        Some(b - 0x61 + 10)
    } else {
        None
    }
}

/// The byte that two hexadecimal digits write, the high one first.
pub fn read_hex_pair(high: u8, low: u8) -> (value: Option<u8>)
    ensures
        value == hex_pair(high, low),
{
    match (read_hex_digit(high), read_hex_digit(low)) {
        (Some(h), Some(l)) => Some(h * 16 + l),
        _ => None,
    }
}

/// Whether `field` is the tag of a fix.
fn is_fix_tag(field: &[u8]) -> (yes: bool)
    ensures
        yes == (field@ == fix_tag()),
{
    let yes = field.len() == 4 && field[0] == 0x50 && field[1] == 0x46 && field[2] == 0x49
        && field[3] == 0x58;
    proof {
        if yes {
            assert(field@ =~= fix_tag());
        }
    }
    yes
}

/// Reads the fix that a body reports.
pub fn parse_fix(body: &[u8]) -> (fix: Option<GpsData>)
    ensures
        fix == fix_in(body@),
{
    let len = body.len();
    let c0 = find_byte(body, COMMA, 0);
    if c0 >= len {
        proof {
            lemma_commas_end(body@, c0 as int);
        }
        return None;
    }
    let c1 = find_byte(body, COMMA, c0 + 1);
    if c1 >= len {
        proof {
            lemma_commas_end(body@, c1 as int);
        }
        return None;
    }
    let c2 = find_byte(body, COMMA, c1 + 1);
    if c2 >= len {
        proof {
            lemma_commas_end(body@, c2 as int);
        }
        return None;
    }
    let c3 = find_byte(body, COMMA, c2 + 1);
    if c3 >= len {
        return None;
    }
    let c4 = find_byte(body, COMMA, c3 + 1);
    if c4 != len {
        return None;
    }
    if !is_fix_tag(slice_subrange(body, 0, c0)) {
        return None;
    }
    let latitude = parse_numeral(slice_subrange(body, c0 + 1, c1), ANGLE_PLACES);
    let longitude = parse_numeral(slice_subrange(body, c1 + 1, c2), ANGLE_PLACES);
    let altitude = parse_numeral(slice_subrange(body, c2 + 1, c3), LENGTH_PLACES);
    let speed = parse_numeral(slice_subrange(body, c3 + 1, c4), LENGTH_PLACES);
    match (latitude, longitude, altitude, speed) {
        (Some(latitude), Some(longitude), Some(altitude), Some(speed)) => {
            if -MAX_LATITUDE <= latitude && latitude <= MAX_LATITUDE && -MAX_LONGITUDE
                <= longitude && longitude <= MAX_LONGITUDE && 0 <= speed {
                Some(GpsData { latitude, longitude, altitude, speed })
            } else {
                None
            }
        },
        _ => None,
    }
}

/// Behind the end of a sequence every search ends at the end.
proof fn lemma_commas_end(body: Seq<u8>, from: int)
    requires
        from >= body.len(),
    ensures
        first_index(body, COMMA, from + 1) == body.len(),
        first_index(body, COMMA, from) == body.len(),
{
}

impl Sensor for Gps {
    type Data = GpsData;

    closed spec fn address(&self) -> u8 {
        self.address
    }

    /// Tell the receiver to report its fix.
    open spec fn init_writes(&self) -> Seq<TransactionView> {
        seq![TransactionView { address: self.address(), write: enable_fix_command(), read_len: 0 }]
    }

    open spec fn measurement_request(&self) -> TransactionView {
        register_read(self.address(), STREAM, STREAM_BURST_LEN as nat)
    }

    /// A reply holds a fix where it holds a sentence with a valid frame and checksum
    /// whose body reports one.
    open spec fn measurement(&self, reply: Seq<u8>) -> Result<GpsData, DeviceError> {
        match sentence_body(reply) {
            Some(body) => match fix_in(body) {
                Some(fix) => Ok(fix),
                None => Err(DeviceError::Decode),
            },
            None => Err(DeviceError::Decode),
        }
    }

    fn new(address: u8) -> (sensor: Self) {
        Gps { address }
    }

    fn init(&self) -> (writes: Vec<Transaction>) {
        let command: Vec<u8> = vec![
            0x24, 0x50, 0x46, 0x49, 0x58, 0x2C, 0x31, 0x2A, 0x31, 0x41, 0x0D, 0x0A,
        ];
        assert(command@ =~= enable_fix_command());
        let mut writes: Vec<Transaction> = Vec::new();
        writes.push(Transaction { address: self.address, write: command, read_len: 0 });
        assert(views(writes@) =~= self.init_writes());
        writes
    }

    fn request(&self) -> (read: Transaction) {
        Transaction::read_registers(self.address, STREAM, STREAM_BURST_LEN)
    }

    fn get_measurement(&self, reply: &[u8]) -> (data: Result<GpsData, DeviceError>) {
        let len = reply.len();
        let start = find_byte(reply, DOLLAR, 0);
        if start >= len {
            return Err(DeviceError::Decode);
        }
        let star = find_byte(reply, STAR, start + 1);
        if star >= len || len - star <= 2 {
            return Err(DeviceError::Decode);
        }
        let body = slice_subrange(reply, start + 1, star);
        match read_hex_pair(reply[star + 1], reply[star + 2]) {
            Some(sum) => {
                if sum != fold_xor(body) {
                    return Err(DeviceError::Decode);
                }
            },
            None => {
                return Err(DeviceError::Decode);
            },
        }
        match parse_fix(body) {
            Some(fix) => Ok(fix),
            None => Err(DeviceError::Decode),
        }
    }
}

} // verus!
