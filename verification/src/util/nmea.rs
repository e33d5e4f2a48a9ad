//! The telemetry reading of one polling cycle and its encoding as text sentences.
//!
//! A sentence is `$`, a body of comma-separated fields, `*`, the checksum of the body as
//! a decimal numeral, and a carriage return and line feed. The checksum is the
//! exclusive-or of the character codes of the body.

use crate::util::decimal::{
    decimal_digits, decimal_value, fixed_text, is_digit, lemma_decimal_digits_are_digits,
    lemma_decimal_value_of_digits, lemma_two_places_chars, magnitude, push_decimal, push_fixed,
    push_scaled, round_half_even, scaled_text,
};
use crate::util::scan::{first_index, lemma_first_index_skips};
use vstd::prelude::*;
use vstd::string::*;
use vstd::utf8::is_ascii_chars;

verus! {

/// Where the aircraft is. Latitude and longitude are counts of 1e-7 degree, the altitude
/// is a count of hundredths of a metre.
#[derive(Debug, Clone, Copy, PartialEq, Eq, Structural)]
pub struct Position {
    latitude: i64,
    longitude: i64,
    altitude: i64,
}

/// How the aircraft moves, each quantity as a count of hundredths: speed in m/s, heading
/// in degrees, acceleration along three axes in m/s^2.
#[derive(Debug, Clone, Copy, PartialEq, Eq, Structural)]
pub struct Motion {
    speed: i64,
    heading: i64,
    acceleration_x: i64,
    acceleration_y: i64,
    acceleration_z: i64,
}

/// The air around the aircraft, each quantity as a count of hundredths: static pressure
/// in hPa, temperature in degrees Celsius, average climb rate in m/s.
#[derive(Debug, Clone, Copy, PartialEq, Eq, Structural)]
pub struct Environment {
    static_pressure: i64,
    temperature: i64,
    average_cps: i64,
}

/// The reading of one polling cycle.
#[derive(Debug, Clone, Copy, PartialEq, Eq, Structural)]
pub struct NMEAData {
    position: Position,
    motion: Motion,
    environment: Environment,
}

/// The sentences that a reading can be encoded as.
#[derive(Clone, Copy, Debug, PartialEq, Eq, Structural)]
pub enum NMEASentenceType {
    Pov,
    Peya,
    Peyi,
}

impl Position {
    /// The latitude in units of 1e-7 degree.
    pub closed spec fn latitude(&self) -> int {
        self.latitude as int
    }

    /// The longitude in units of 1e-7 degree.
    pub closed spec fn longitude(&self) -> int {
        self.longitude as int
    }

    /// The altitude in hundredths of a metre.
    pub closed spec fn altitude(&self) -> int {
        self.altitude as int
    }
}

impl Motion {
    /// The speed in hundredths of a metre per second.
    pub closed spec fn speed(&self) -> int {
        self.speed as int
    }

    /// The heading in hundredths of a degree.
    pub closed spec fn heading(&self) -> int {
        self.heading as int
    }

    /// The acceleration along the first axis in hundredths of a metre per second squared.
    pub closed spec fn acceleration_x(&self) -> int {
        self.acceleration_x as int
    }

    /// The acceleration along the second axis in hundredths of a metre per second squared.
    pub closed spec fn acceleration_y(&self) -> int {
        self.acceleration_y as int
    }

    /// The acceleration along the third axis in hundredths of a metre per second squared.
    pub closed spec fn acceleration_z(&self) -> int {
        self.acceleration_z as int
    }
}

impl Environment {
    /// The static pressure in hundredths of a hectopascal.
    pub closed spec fn static_pressure(&self) -> int {
        self.static_pressure as int
    }

    /// The temperature in hundredths of a degree Celsius.
    pub closed spec fn temperature(&self) -> int {
        self.temperature as int
    }

    /// The average climb rate in hundredths of a metre per second.
    pub closed spec fn average_cps(&self) -> int {
        self.average_cps as int
    }
}

/// The body of the sentence that reports pressure, temperature and climb rate.
pub open spec fn pov_body(e: Environment) -> Seq<char> {
    "POV,P,"@ + scaled_text(e.static_pressure()) + ",T,"@ + fixed_text(e.temperature()) + ",E,"@
        + scaled_text(e.average_cps())
}

/// The body of the sentence that reports pressure, altitude, climb rate and temperature.
pub open spec fn peya_body(p: Position, e: Environment) -> Seq<char> {
    "PEYA,"@ + scaled_text(e.static_pressure()) + ",,"@ + scaled_text(p.altitude()) + ",,,,,"@
        + scaled_text(e.average_cps()) + ","@ + fixed_text(e.temperature()) + ","@
}

/// The body of the sentence that reports attitude and acceleration. The heading stands
/// in the bank, pitch and heading fields alike.
pub open spec fn peyi_body(m: Motion) -> Seq<char> {
    "PEYI,"@ + fixed_text(m.heading()) + ","@ + fixed_text(m.heading()) + ",,,,"@ + scaled_text(
        m.acceleration_x(),
    ) + ","@ + scaled_text(m.acceleration_y()) + ","@ + scaled_text(m.acceleration_z()) + ",,"@
        + fixed_text(m.heading()) + ","@
}

/// The exclusive-or of the codes of all characters of `text`, starting from zero.
pub open spec fn xor_fold(text: Seq<char>) -> u8
    decreases text.len(),
{
    if text.len() == 0 {
        0
    } else {
        xor_fold(text.drop_last()) ^ (text.last() as u8)
    }
}

/// The position of the first `*` of `text` behind its first character, or the length of
/// `text` where there is none.
pub open spec fn star_index(text: Seq<char>) -> int {
    first_index(text, '*', 1)
}

/// What the checksum of a message covers: the characters behind the first one, up to
/// the first `*` among them.
pub open spec fn checked_part(msg: Seq<char>) -> Seq<char> {
    if msg.len() == 0 {
        msg
    } else {
        msg.subrange(1, star_index(msg))
    }
}

/// A sentence made of a body: the frame, the checksum and the line end around it.
pub open spec fn framed(body: Seq<char>) -> Seq<char> {
    seq!['$'] + body + seq!['*'] + decimal_digits(xor_fold(body) as nat) + seq!['\r', '\n']
}

/// Whether `c` may stand in a sentence body: a character of the 7-bit set other than the
/// two frame marks and the two line-end characters.
pub open spec fn is_body_char(c: char) -> bool {
    c <= '\u{7f}' && c != '$' && c != '*' && c != '\r' && c != '\n'
}

/// Whether `text` holds body characters only.
pub open spec fn is_body_text(text: Seq<char>) -> bool {
    forall|i: int| 0 <= i < text.len() ==> is_body_char(#[trigger] text[i])
}

/// Whether `text` has the shape of a sentence: it opens with `$`, ends with a carriage
/// return and line feed, and holds exactly one `*`, with nothing but body characters
/// between the `$` and that `*`.
pub open spec fn is_well_framed(text: Seq<char>) -> bool {
    let star = star_index(text);
    &&& text.len() >= 4
    &&& text[0] == '$'
    &&& 1 <= star < text.len() - 2
    &&& forall|i: int| 0 <= i < text.len() ==> (#[trigger] text[i] == '*' <==> i == star)
    &&& is_body_text(text.subrange(1, star))
    &&& text[text.len() - 2] == '\r'
    &&& text[text.len() - 1] == '\n'
}

/// Whether the number written between the `*` and the line end of `text` is the
/// checksum of what stands between the `$` and the `*`.
pub open spec fn checksum_agrees(text: Seq<char>) -> bool {
    let star = star_index(text);
    let digits = text.subrange(star + 1, text.len() - 2);
    &&& 1 <= star < text.len() - 2
    &&& forall|i: int| 0 <= i < digits.len() ==> is_digit(#[trigger] digits[i])
    &&& decimal_value(digits) == xor_fold(text.subrange(1, star))
}

impl NMEAData {
    /// Where the aircraft is.
    pub closed spec fn position(&self) -> Position {
        self.position
    }

    /// How the aircraft moves.
    pub closed spec fn motion(&self) -> Motion {
        self.motion
    }

    /// The air around the aircraft.
    pub closed spec fn environment(&self) -> Environment {
        self.environment
    }

    /// The body of the sentence of the given kind for this reading.
    pub open spec fn body(&self, kind: NMEASentenceType) -> Seq<char> {
        match kind {
            NMEASentenceType::Pov => pov_body(self.environment()),
            NMEASentenceType::Peya => peya_body(self.position(), self.environment()),
            NMEASentenceType::Peyi => peyi_body(self.motion()),
        }
    }

    /// The whole sentence of the given kind for this reading.
    pub open spec fn sentence(&self, kind: NMEASentenceType) -> Seq<char> {
        framed(self.body(kind))
    }

    /// A position from latitude and longitude in units of 1e-7 degree and altitude in
    /// hundredths of a metre.
    pub fn build_position(latitude: i64, longitude: i64, altitude: i64) -> (p: Position)
        ensures
            p.latitude() == latitude,
            p.longitude() == longitude,
            p.altitude() == altitude,
    {
        Position { latitude, longitude, altitude }
    }

    /// The motion from speed, heading and acceleration along three axes, each in
    /// hundredths.
    pub fn build_motion(
        speed: i64,
        heading: i64,
        acceleration_x: i64,
        acceleration_y: i64,
        acceleration_z: i64,
    ) -> (m: Motion)
        ensures
            m.speed() == speed,
            m.heading() == heading,
            m.acceleration_x() == acceleration_x,
            m.acceleration_y() == acceleration_y,
            m.acceleration_z() == acceleration_z,
    {
        Motion { speed, heading, acceleration_x, acceleration_y, acceleration_z }
    }

    /// The environment from static pressure, temperature and average climb rate, each in
    /// hundredths.
    pub fn build_environment(static_pressure: i64, temperature: i64, average_cps: i64) -> (e:
        Environment)
        ensures
            e.static_pressure() == static_pressure,
            e.temperature() == temperature,
            e.average_cps() == average_cps,
    {
        Environment { static_pressure, temperature, average_cps }
    }

    /// The reading of one cycle from its three parts.
    pub fn new(position: Position, motion: Motion, environment: Environment) -> (data: Self)
        ensures
            data.position() == position,
            data.motion() == motion,
            data.environment() == environment,
    {
        Self { position, motion, environment }
    }

    /// Encodes this reading as the sentence of the given kind.
    pub fn get_data_string(&self, data_type: NMEASentenceType) -> (text: String)
        ensures
            text@ == self.sentence(data_type),
            is_well_framed(text@),
            checksum_agrees(text@),
    {
        let mut data = match data_type {
            NMEASentenceType::Pov => self.get_pov(),
            NMEASentenceType::Peya => self.get_peya(),
            NMEASentenceType::Peyi => self.get_peyi(),
        };
        proof {
            lemma_body_is_plain(*self, data_type);
            lemma_checked_part_of_opened(self.body(data_type));
            assert(is_ascii_chars(data@));
        }
        let checksum = Self::nmea_checksum(data.as_str());
        push_decimal(&mut data, checksum as u64);
        data.append("\r\n");
        proof {
            reveal_strlit("\r\n");
            assert(data@ =~= self.sentence(data_type));
            lemma_sentence_is_well_framed(*self, data_type);
            lemma_checksum_round_trip(*self, data_type);
        }
        data
    }

    fn get_pov(&self) -> (text: String)
        ensures
            text@ == seq!['$'] + pov_body(self.environment()) + seq!['*'],
    {
        let mut text = String::new();
        text.append("$");
        text.append("POV,P,");
        push_scaled(&mut text, self.environment.static_pressure);
        text.append(",T,");
        push_fixed(&mut text, self.environment.temperature);
        text.append(",E,");
        push_scaled(&mut text, self.environment.average_cps);
        text.append("*");
        proof {
            reveal_strlit("$");
            reveal_strlit("*");
            assert(text@ =~= seq!['$'] + pov_body(self.environment()) + seq!['*']);
        }
        text
    }

    fn get_peya(&self) -> (text: String)
        ensures
            text@ == seq!['$'] + peya_body(self.position(), self.environment()) + seq!['*'],
    {
        let mut text = String::new();
        text.append("$");
        text.append("PEYA,");
        push_scaled(&mut text, self.environment.static_pressure);
        text.append(",,");
        push_scaled(&mut text, self.position.altitude);
        text.append(",,,,,");
        push_scaled(&mut text, self.environment.average_cps);
        text.append(",");
        push_fixed(&mut text, self.environment.temperature);
        text.append(",");
        text.append("*");
        proof {
            reveal_strlit("$");
            reveal_strlit("*");
            assert(text@ =~= seq!['$'] + peya_body(self.position(), self.environment()) + seq![
                '*',
            ]);
        }
        text
    }

    fn get_peyi(&self) -> (text: String)
        ensures
            text@ == seq!['$'] + peyi_body(self.motion()) + seq!['*'],
    {
        let mut text = String::new();
        text.append("$");
        text.append("PEYI,");
        push_fixed(&mut text, self.motion.heading);
        text.append(",");
        push_fixed(&mut text, self.motion.heading);
        text.append(",,,,");
        push_scaled(&mut text, self.motion.acceleration_x);
        text.append(",");
        push_scaled(&mut text, self.motion.acceleration_y);
        text.append(",");
        push_scaled(&mut text, self.motion.acceleration_z);
        text.append(",,");
        push_fixed(&mut text, self.motion.heading);
        text.append(",");
        text.append("*");
        proof {
            reveal_strlit("$");
            reveal_strlit("*");
            assert(text@ =~= seq!['$'] + peyi_body(self.motion()) + seq!['*']);
        }
        text
    }

    /// The checksum of a message: the exclusive-or of the codes of the characters behind
    /// the first one, up to the first `*` among them.
    pub fn nmea_checksum(msg: &str) -> (sum: u8)
        requires
            is_ascii_chars(msg@),
        ensures
            sum == xor_fold(checked_part(msg@)),
    {
        let bytes = msg.as_bytes();
        proof {
            is_ascii_spec_bytes(msg);
            assert(bytes@.len() == msg@.len());
        }
        let len = bytes.len();
        let mut sum: u8 = 0;
        if len == 0 {
            return sum;
        }
        let mut i: usize = 1;
        assert(msg@.subrange(1, 1) =~= Seq::<char>::empty());
        while i < len && bytes[i] != 42u8
            invariant
                len == msg@.len(),
                bytes@.len() == msg@.len(),
                forall|k: int| 0 <= k < msg@.len() ==> bytes@[k] == msg@[k] as u8,
                is_ascii_chars(msg@),
                1 <= i <= len,
                star_index(msg@) == first_index(msg@, '*', i as int),
                sum == xor_fold(msg@.subrange(1, i as int)),
            decreases len - i,
        {
            proof {
                let longer = msg@.subrange(1, i + 1);
                assert(longer.drop_last() =~= msg@.subrange(1, i as int));
                assert(longer.last() == msg@[i as int]);
                assert(msg@[i as int] != '*');
            }
            sum = sum ^ bytes[i];
            i = i + 1;
        }
        proof {
            if i < len {
                lemma_code_of_star(msg@[i as int]);
            }
        }
        sum
    }
}

/// No character stands before the one with code zero.
proof fn lemma_char_is_not_below_zero(c: char)
    ensures
        '\0' <= c,
{
}

/// Among the characters of the 7-bit set, only `*` has the code 42.
proof fn lemma_code_of_star(c: char)
    requires
        c <= '\u{7f}',
        c as u8 == 42u8,
    ensures
        c == '*',
{
}

/// Two texts of body characters make a text of body characters.
proof fn lemma_plain_concat(first: Seq<char>, second: Seq<char>)
    requires
        is_body_text(first),
        is_body_text(second),
    ensures
        is_body_text(first + second),
{
    let both = first + second;
    assert forall|i: int| 0 <= i < both.len() implies is_body_char(#[trigger] both[i]) by {
        if i < first.len() {
            assert(both[i] == first[i]);
        } else {
            assert(both[i] == second[i - first.len()]);
        }
    }
}

/// The text of a quantity, in either form, holds body characters only.
proof fn lemma_numeral_is_plain(v: int)
    ensures
        is_body_text(fixed_text(v)),
        is_body_text(scaled_text(v)),
{
    lemma_two_places_chars(v < 0, magnitude(v));
    lemma_two_places_chars(v < 0, round_half_even(magnitude(v), 100));
}

/// A text of body characters stays one when a quantity and a separator follow it.
proof fn lemma_plain_field(before: Seq<char>, numeral: Seq<char>, after: Seq<char>)
    requires
        is_body_text(before),
        is_body_text(numeral),
        is_body_text(after),
    ensures
        is_body_text(before + numeral + after),
{
    lemma_plain_concat(before, numeral);
    lemma_plain_concat(before + numeral, after);
}

/// The fixed parts of the three sentence bodies hold body characters only.
proof fn lemma_labels_are_plain()
    ensures
        is_body_text("POV,P,"@),
        is_body_text(",T,"@),
        is_body_text(",E,"@),
        is_body_text("PEYA,"@),
        is_body_text("PEYI,"@),
        is_body_text(","@),
        is_body_text(",,"@),
        is_body_text(",,,,"@),
        is_body_text(",,,,,"@),
{
    assert(is_body_text("POV,P,"@)) by {
        reveal_strlit("POV,P,");
    }
    assert(is_body_text(",T,"@)) by {
        reveal_strlit(",T,");
    }
    assert(is_body_text(",E,"@)) by {
        reveal_strlit(",E,");
    }
    assert(is_body_text("PEYA,"@)) by {
        reveal_strlit("PEYA,");
    }
    assert(is_body_text("PEYI,"@)) by {
        reveal_strlit("PEYI,");
    }
    assert(is_body_text(","@)) by {
        reveal_strlit(",");
    }
    assert(is_body_text(",,"@)) by {
        reveal_strlit(",,");
    }
    assert(is_body_text(",,,,"@)) by {
        reveal_strlit(",,,,");
    }
    assert(is_body_text(",,,,,"@)) by {
        reveal_strlit(",,,,,");
    }
}

/// Every sentence body holds body characters only: no frame mark and no line end.
pub proof fn lemma_body_is_plain(data: NMEAData, kind: NMEASentenceType)
    ensures
        is_body_text(data.body(kind)),
{
    lemma_labels_are_plain();
    let e = data.environment();
    let p = data.position();
    let m = data.motion();
    lemma_numeral_is_plain(e.static_pressure());
    lemma_numeral_is_plain(e.temperature());
    lemma_numeral_is_plain(e.average_cps());
    lemma_numeral_is_plain(p.altitude());
    lemma_numeral_is_plain(m.heading());
    lemma_numeral_is_plain(m.acceleration_x());
    lemma_numeral_is_plain(m.acceleration_y());
    lemma_numeral_is_plain(m.acceleration_z());
    match kind {
        NMEASentenceType::Pov => {
            let t1 = "POV,P,"@ + scaled_text(e.static_pressure()) + ",T,"@;
            let t2 = t1 + fixed_text(e.temperature()) + ",E,"@;
            lemma_plain_field("POV,P,"@, scaled_text(e.static_pressure()), ",T,"@);
            lemma_plain_field(t1, fixed_text(e.temperature()), ",E,"@);
            lemma_plain_concat(t2, scaled_text(e.average_cps()));
        },
        NMEASentenceType::Peya => {
            let t1 = "PEYA,"@ + scaled_text(e.static_pressure()) + ",,"@;
            let t2 = t1 + scaled_text(p.altitude()) + ",,,,,"@;
            let t3 = t2 + scaled_text(e.average_cps()) + ","@;
            lemma_plain_field("PEYA,"@, scaled_text(e.static_pressure()), ",,"@);
            lemma_plain_field(t1, scaled_text(p.altitude()), ",,,,,"@);
            lemma_plain_field(t2, scaled_text(e.average_cps()), ","@);
            lemma_plain_field(t3, fixed_text(e.temperature()), ","@);
        },
        NMEASentenceType::Peyi => {
            let t1 = "PEYI,"@ + fixed_text(m.heading()) + ","@;
            let t2 = t1 + fixed_text(m.heading()) + ",,,,"@;
            let t3 = t2 + scaled_text(m.acceleration_x()) + ","@;
            let t4 = t3 + scaled_text(m.acceleration_y()) + ","@;
            let t5 = t4 + scaled_text(m.acceleration_z()) + ",,"@;
            lemma_plain_field("PEYI,"@, fixed_text(m.heading()), ","@);
            lemma_plain_field(t1, fixed_text(m.heading()), ",,,,"@);
            lemma_plain_field(t2, scaled_text(m.acceleration_x()), ","@);
            lemma_plain_field(t3, scaled_text(m.acceleration_y()), ","@);
            lemma_plain_field(t4, scaled_text(m.acceleration_z()), ",,"@);
            lemma_plain_field(t5, fixed_text(m.heading()), ","@);
        },
    }
}

/// The checksum of a body that is opened by `$` and closed by `*` covers the body.
proof fn lemma_checked_part_of_opened(body: Seq<char>)
    requires
        is_body_text(body),
    ensures
        checked_part(seq!['$'] + body + seq!['*']) == body,
        is_ascii_chars(seq!['$'] + body + seq!['*']),
{
    let msg = seq!['$'] + body + seq!['*'];
    assert forall|i: int| 1 <= i < 1 + body.len() implies msg[i] != '*' by {
        assert(msg[i] == body[i - 1]);
    }
    let star = body.len() as int + 1;
    lemma_first_index_skips(msg, '*', 1, star);
    assert(msg[star] == '*');
    assert(msg.subrange(1, star) =~= body);
    assert forall|i: int| 0 <= i < msg.len() implies '\0' <= #[trigger] msg[i] <= '\u{7f}' by {
        if 1 <= i < star {
            assert(msg[i] == body[i - 1]);
            assert(is_body_char(body[i - 1]));
        } else if i == 0 {
            assert(msg[i] == '$');
        } else {
            assert(msg[i] == '*');
        }
        lemma_char_is_not_below_zero(msg[i]);
    }
}

/// Every sentence opens with `$`, ends with a carriage return and line feed, and holds
/// exactly one `*`, with nothing but body characters between the `$` and the `*`.
pub proof fn lemma_sentence_is_well_framed(data: NMEAData, kind: NMEASentenceType)
    ensures
        is_well_framed(data.sentence(kind)),
{
    let body = data.body(kind);
    let digits = decimal_digits(xor_fold(body) as nat);
    let text = data.sentence(kind);
    lemma_body_is_plain(data, kind);
    lemma_decimal_digits_are_digits(xor_fold(body) as nat);
    lemma_sentence_star(body);
    let star = body.len() as int + 1;
    assert forall|i: int| 0 <= i < text.len() implies (#[trigger] text[i] == '*' <==> i == star) by {
        if 1 <= i < star {
            assert(text[i] == body[i - 1]);
        } else if star < i < star + 1 + digits.len() {
            assert(text[i] == digits[i - star - 1]);
        }
    }
    assert(text.subrange(1, star) =~= body);
}

/// In a framed body without `*`, the first `*` stands right behind the body.
proof fn lemma_sentence_star(body: Seq<char>)
    requires
        is_body_text(body),
    ensures
        star_index(framed(body)) == 1 + body.len(),
{
    let text = framed(body);
    assert forall|i: int| 1 <= i < 1 + body.len() implies text[i] != '*' by {
        assert(text[i] == body[i - 1]);
    }
    let star = body.len() as int + 1;
    lemma_first_index_skips(text, '*', 1, star);
    assert(text[star] == '*');
}

/// Reading back the number behind the `*` of a sentence gives the exclusive-or of the
/// character codes between its `$` and its `*`.
pub proof fn lemma_checksum_round_trip(data: NMEAData, kind: NMEASentenceType)
    ensures
        checksum_agrees(data.sentence(kind)),
{
    let body = data.body(kind);
    let sum = xor_fold(body) as nat;
    let text = data.sentence(kind);
    lemma_body_is_plain(data, kind);
    lemma_sentence_star(body);
    lemma_decimal_digits_are_digits(sum);
    lemma_decimal_value_of_digits(sum);
    let star = body.len() as int + 1;
    assert(text.subrange(1, star) =~= body);
    assert(text.subrange(star + 1, text.len() - 2) =~= decimal_digits(sum));
}

/// Encoding depends on nothing but the reading and the kind of sentence: two texts that
/// both encode one reading as one kind are the same, character for character.
pub proof fn lemma_encoding_is_repeatable(
    data: NMEAData,
    kind: NMEASentenceType,
    first: Seq<char>,
    second: Seq<char>,
)
    requires
        first == data.sentence(kind),
        second == data.sentence(kind),
    ensures
        first == second,
{
}

} // verus!
