//! The packets exchanged with the rotator over the radio.
//!
//! A command is eleven bytes: the marker `0xFF`, the packet number (4), the azimuth in
//! hundredths of a degree (2), the angle from the zenith in hundredths of a degree (2),
//! the power relays (1) and the checksum (1). A report is fourteen bytes: the marker, the
//! packet number (4), the two angles (2 and 2), the signal and noise levels at the
//! rotator, the relays, the checksum, and the level that the radio module appends to
//! every packet that it receives.
use vstd::prelude::*;

use crate::angle::{AzAngle, ElAngle, ZENITH};
use crate::buffers::{packet_bytes, CommandPacket, CMD_PACKET_SIZE};
use crate::checksum::{
    crc8_digest, crc8_lte, crc_detects_one_changed_byte, crc_residue_is_zero,
};
use crate::context::Report;
use crate::relays::Relays;
use crate::wire::{
    be16, be16_at, be16_bytes, be16_round_trip, be16_weighs_its_bytes, be16_writes_back, be32,
    be32_at, be32_bytes, be32_round_trip, be32_weighs_its_bytes, be32_writes_back, read_be16,
    read_be32,
};

verus! {

/// First byte of every packet.
pub const MARKER: u8 = 0xFF;

/// Bytes in a report, with the level that the radio module appends.
pub const REPORT_SIZE: usize = 14;

/// Bytes of a report under its checksum.
pub const REPORT_BODY_SIZE: usize = 12;

/// Why a received packet is refused.
#[derive(Clone, Copy, Debug, PartialEq, Eq, Structural)]
pub enum Error {
    /// It does not have the length of a report.
    Length,
    /// It does not start with the marker.
    Marker,
    /// Its checksum does not match.
    Crc,
    /// It does not carry the number of the last command.
    Number,
    /// Its azimuth is not one that the rotator can take.
    Azimuth,
    /// Its angle from the zenith lies below the horizon.
    ElevationField,
    /// Its elevation is not one that the rotator can take.
    Elevation,
    /// Its relay byte stands for no state of the relays.
    Relays,
}

/// The fields of a report whose framing, checksum and number are in order.
#[derive(Clone, Copy, Debug, PartialEq, Eq, Structural)]
pub struct Response {
    /// Packet number.
    pub seq: u32,
    /// Azimuth in hundredths of a degree.
    pub az: u16,
    /// Angle from the zenith in hundredths of a degree.
    pub el: u16,
    /// Signal level at the rotator.
    pub signal: u8,
    /// Noise level at the rotator.
    pub noise: u8,
    /// Relay byte.
    pub relays: u8,
    /// Signal level of the report itself.
    pub rssi: u8,
}

/// A command packet up to its checksum.
pub open spec fn command_body(seq: u32, az: AzAngle, el: ElAngle, rly: u8) -> Seq<u8> {
    seq![MARKER] + be32(seq) + be16(az.centi) + be16(el.from_zenith_spec()) + seq![rly]
}

/// A whole command packet.
pub open spec fn command_bytes(seq: u32, az: AzAngle, el: ElAngle, rly: u8) -> Seq<u8> {
    command_body(seq, az, el, rly).push(crc8_lte(command_body(seq, az, el, rly)))
}

/// A report up to its checksum.
pub open spec fn report_body(r: Response) -> Seq<u8> {
    seq![MARKER] + be32(r.seq) + be16(r.az) + be16(r.el) + seq![r.signal, r.noise, r.relays]
}

/// A whole report, as the radio module hands it over.
pub open spec fn report_bytes(r: Response) -> Seq<u8> {
    report_body(r) + seq![crc8_lte(report_body(r)), r.rssi]
}

/// The fields that stand in a packet of a report's length.
pub open spec fn fields_of(buf: Seq<u8>) -> Response {
    Response {
        seq: be32_at(buf, 1),
        az: be16_at(buf, 5),
        el: be16_at(buf, 7),
        signal: buf[9],
        noise: buf[10],
        relays: buf[11],
        rssi: buf[13],
    }
}

/// What a controller whose last command was numbered `seq` makes of a received packet.
/// The first test that fails decides.
pub open spec fn checked(seq: u32, buf: Seq<u8>) -> Result<Response, Error> {
    if buf.len() != REPORT_SIZE {
        Err(Error::Length)
    } else if buf[0] != MARKER {
        Err(Error::Marker)
    } else if buf[12] != crc8_lte(buf.subrange(0, REPORT_BODY_SIZE as int)) {
        Err(Error::Crc)
    } else if be32_at(buf, 1) != seq {
        Err(Error::Number)
    } else {
        Ok(fields_of(buf))
    }
}

impl Response {
    /// Azimuth in whole degrees, rounded down.
    pub open spec fn az_degrees_spec(self) -> u16 {
        self.az / 100
    }

    /// Elevation above the horizon in whole degrees, rounded down, unless the field lies
    /// below the horizon.
    pub open spec fn el_degrees_spec(self) -> Option<u16> {
        if self.el <= ZENITH {
            Some(((ZENITH - self.el) / 100) as u16)
        } else {
            None
        }
    }

    /// Azimuth in whole degrees, rounded down.
    pub fn az_degrees(&self) -> (r: u16)
        ensures
            r == self.az_degrees_spec(),
    {
        self.az / 100
    }

    /// Elevation above the horizon in whole degrees, rounded down, unless the field lies
    /// below the horizon.
    pub fn el_degrees(&self) -> (r: Option<u16>)
        ensures
            r == self.el_degrees_spec(),
    {
        if self.el <= ZENITH {
            Some((ZENITH - self.el) / 100)
        } else {
            None
        }
    }

    /// What becomes of the response, given whether its two angles are ones that the
    /// rotator can take and what its relay byte stands for. The first fault decides.
    pub open spec fn accepted(
        self,
        az_ok: bool,
        el_ok: bool,
        relays: Option<Relays>,
    ) -> Result<Report, Error> {
        if !az_ok {
            Err(Error::Azimuth)
        } else if self.el > ZENITH {
            Err(Error::ElevationField)
        } else if !el_ok {
            Err(Error::Elevation)
        } else {
            match relays {
                Some(relays) => Ok(
                    Report {
                        az: AzAngle { centi: (self.az_degrees_spec() * 100) as u16 },
                        el: ElAngle { centi: ((ZENITH - self.el) / 100 * 100) as u16 },
                        signal_s: self.signal,
                        noise_s: self.noise,
                        signal_m: self.rssi,
                        relays,
                    },
                ),
                None => Err(Error::Relays),
            }
        }
    }

    /// Turns the response into a report, or says why it is refused.
    pub fn accept(&self, az_ok: bool, el_ok: bool, relays: Option<Relays>) -> (r: Result<
        Report,
        Error,
    >)
        ensures
            r == self.accepted(az_ok, el_ok, relays),
            r matches Ok(report) ==> report.el.wf(),
    {
        if !az_ok {
            return Err(Error::Azimuth);
        }
        let el: u16 = match self.el_degrees() {
            Some(el) => el,
            None => {
                return Err(Error::ElevationField);
            },
        };
        if !el_ok {
            return Err(Error::Elevation);
        }
        match relays {
            Some(relays) => Ok(
                Report {
                    az: AzAngle { centi: self.az_degrees() * 100 },
                    el: ElAngle { centi: el * 100 },
                    signal_s: self.signal,
                    noise_s: self.noise,
                    signal_m: self.rssi,
                    relays,
                },
            ),
            None => Err(Error::Relays),
        }
    }
}

/// The controller's side of the exchange.
#[derive(Clone, Copy, Debug, PartialEq, Eq, Structural)]
pub struct Protocol {
    seq: u32,
}

impl Protocol {
    /// The number of the last packet.
    pub closed spec fn view(self) -> u32 {
        self.seq
    }

    /// Packets are numbered from `rnd` on.
    pub fn new(rnd: u32) -> (r: Self)
        ensures
            r@ == rnd,
    {
        Protocol { seq: rnd }
    }

    /// Goes on to the next packet number.
    pub fn next_seq(&mut self)
        requires
            old(self)@ < u32::MAX,
        ensures
            final(self)@ == old(self)@ + 1,
    {
        self.seq = self.seq + 1;
    }

    /// The number of the last packet.
    pub fn get_seq(&self) -> (r: u32)
        ensures
            r == self@,
    {
        self.seq
    }

    /// The checksum of a block.
    pub fn crc8(&self, block: &[u8]) -> (r: u8)
        ensures
            r == crc8_lte(block@),
    {
        crc8_digest(block)
    }

    /// Puts together the command that asks for the two angles and, with the byte `rly`,
    /// for a state of the power relays.
    pub fn make_command(&mut self, az: &AzAngle, el: &ElAngle, rly: u8) -> (r: Result<
        CommandPacket,
        Error,
    >)
        ensures
            r is Ok,
            packet_bytes(r->Ok_0) == command_bytes(old(self)@, *az, *el, rly),
            *final(self) == *old(self),
    {
        let mut payload = CommandPacket::new();
        let seq_bytes_be: [u8; 4] = be32_bytes(self.seq);
        let az_bytes_be: [u8; 2] = be16_bytes(az.centi);
        // the rotator counts the angle from the zenith
        let el_bytes_be: [u8; 2] = be16_bytes(el.from_zenith());

        payload.push(MARKER);
        payload.extend_from_slice(&seq_bytes_be);
        payload.extend_from_slice(&az_bytes_be);
        payload.extend_from_slice(&el_bytes_be);
        payload.push(rly);
        proof {
            assert(packet_bytes(payload) =~= command_body(self@, *az, *el, rly));
        }

        let crc8: u8 = self.crc8(payload.as_slice());
        payload.push(crc8);
        Ok(payload)
    }

    /// Checks the framing, the checksum and the number of a received packet and reads
    /// its fields.
    pub fn check_response(&self, buf: &[u8]) -> (r: Result<Response, Error>)
        ensures
            r == checked(self@, buf@),
    {
        if buf.len() != REPORT_SIZE {
            return Err(Error::Length);
        }
        if buf[0] != MARKER {
            return Err(Error::Marker);
        }
        let crc8: u8 = self.crc8(vstd::slice::slice_subrange(buf, 0, REPORT_BODY_SIZE));
        if buf[12] != crc8 {
            return Err(Error::Crc);
        }
        let seq: u32 = read_be32(buf, 1);
        if seq != self.seq {
            return Err(Error::Number);
        }
        Ok(
            Response {
                seq,
                az: read_be16(buf, 5),
                el: read_be16(buf, 7),
                signal: buf[9],
                noise: buf[10],
                relays: buf[11],
                rssi: buf[13],
            },
        )
    }
}

/// A report in the agreed form is read back field by field if it answers the last command,
/// and refused if it carries any other number.
pub proof fn report_reads_back(last: u32, r: Response)
    ensures
        checked(last, report_bytes(r)) == (if r.seq != last {
            Err::<Response, Error>(Error::Number)
        } else {
            Ok::<Response, Error>(r)
        }),
{
    let buf = report_bytes(r);
    assert(buf.subrange(0, REPORT_BODY_SIZE as int) =~= report_body(r));
    assert(buf.subrange(1, 5) =~= be32(r.seq));
    assert(buf.subrange(5, 7) =~= be16(r.az));
    assert(buf.subrange(7, 9) =~= be16(r.el));
    be32_round_trip(r.seq, buf, 1);
    be16_round_trip(r.az, buf, 5);
    be16_round_trip(r.el, buf, 7);
}

/// A packet that is accepted is one in the agreed form: it is the report of the fields
/// that were read from it, and it carries the number of the last command.
pub proof fn accepted_packet_is_a_report(last: u32, buf: Seq<u8>)
    requires
        checked(last, buf) is Ok,
    ensures
        buf == report_bytes(checked(last, buf)->Ok_0),
        checked(last, buf)->Ok_0.seq == last,
{
    let r = checked(last, buf)->Ok_0;
    let body = buf.subrange(0, REPORT_BODY_SIZE as int);
    be32_writes_back(buf, 1);
    be16_writes_back(buf, 5);
    be16_writes_back(buf, 7);
    assert(body =~= seq![buf[0]] + buf.subrange(1, 5) + buf.subrange(5, 7) + buf.subrange(7, 9)
        + seq![buf[9], buf[10], buf[11]]);
    assert(body == report_body(r));
    assert(buf =~= body + seq![buf[12], buf[13]]);
}

/// A packet that answered one command is refused as an answer to any other: an old report
/// cannot be passed off as a new one.
pub proof fn old_report_is_refused(earlier: u32, last: u32, buf: Seq<u8>)
    requires
        checked(earlier, buf) is Ok,
        earlier != last,
    ensures
        checked(last, buf) == Err::<Response, Error>(Error::Number),
{
}

/// An accepted packet in which one byte up to the checksum was changed is refused.
pub proof fn changed_report_is_refused(last: u32, buf: Seq<u8>, i: int, b: u8)
    requires
        checked(last, buf) is Ok,
        0 <= i <= REPORT_BODY_SIZE,
        b != buf[i],
    ensures
        checked(last, buf.update(i, b)) is Err,
{
    let changed = buf.update(i, b);
    let body = buf.subrange(0, REPORT_BODY_SIZE as int);
    let changed_body = changed.subrange(0, REPORT_BODY_SIZE as int);
    if i < REPORT_BODY_SIZE {
        assert(changed_body =~= body.update(i, b));
        crc_detects_one_changed_byte(body, i, b);
    } else {
        assert(changed_body =~= body);
    }
}

/// A report that echoes the two angle fields of a command is read as the angles that
/// were commanded, rounded down to whole degrees.
pub proof fn echoed_angles_read_back(
    seq: u32,
    az: AzAngle,
    el: ElAngle,
    rly: u8,
    last: u32,
    buf: Seq<u8>,
)
    requires
        el.wf(),
        checked(last, buf) is Ok,
        buf.subrange(5, 9) == command_bytes(seq, az, el, rly).subrange(5, 9),
    ensures
        checked(last, buf)->Ok_0.az_degrees_spec() == az.centi / 100,
        checked(last, buf)->Ok_0.el_degrees_spec() == Some((el.centi / 100) as u16),
{
    let cmd = command_bytes(seq, az, el, rly);
    let part = buf.subrange(5, 9);
    assert(cmd.subrange(5, 9) =~= be16(az.centi) + be16(el.from_zenith_spec()));
    assert(buf.subrange(5, 7) =~= part.subrange(0, 2));
    assert(buf.subrange(7, 9) =~= part.subrange(2, 4));
    assert(part.subrange(0, 2) =~= be16(az.centi));
    assert(part.subrange(2, 4) =~= be16(el.from_zenith_spec()));
    be16_round_trip(az.centi, buf, 5);
    be16_round_trip(el.from_zenith_spec(), buf, 7);
}

/// Two commands with the same bytes are the same command.
pub proof fn commands_are_distinct(
    seq1: u32,
    az1: AzAngle,
    el1: ElAngle,
    rly1: u8,
    seq2: u32,
    az2: AzAngle,
    el2: ElAngle,
    rly2: u8,
)
    requires
        el1.wf(),
        el2.wf(),
        command_bytes(seq1, az1, el1, rly1) == command_bytes(seq2, az2, el2, rly2),
    ensures
        seq1 == seq2,
        az1 == az2,
        el1 == el2,
        rly1 == rly2,
{
    let cmd = command_bytes(seq1, az1, el1, rly1);
    assert(cmd.subrange(1, 5) =~= be32(seq1));
    assert(cmd.subrange(1, 5) =~= be32(seq2));
    assert(cmd.subrange(5, 7) =~= be16(az1.centi));
    assert(cmd.subrange(5, 7) =~= be16(az2.centi));
    assert(cmd.subrange(7, 9) =~= be16(el1.from_zenith_spec()));
    assert(cmd.subrange(7, 9) =~= be16(el2.from_zenith_spec()));
    assert(cmd[9] == rly1);
    assert(cmd[9] == rly2);
    be32_round_trip(seq1, cmd, 1);
    be32_round_trip(seq2, cmd, 1);
    be16_round_trip(az1.centi, cmd, 5);
    be16_round_trip(az2.centi, cmd, 5);
    be16_round_trip(el1.from_zenith_spec(), cmd, 7);
    be16_round_trip(el2.from_zenith_spec(), cmd, 7);
}

/// A command is eleven bytes and divides without remainder by the checksum's generator.
pub proof fn command_is_closed_by_its_checksum(seq: u32, az: AzAngle, el: ElAngle, rly: u8)
    ensures
        command_bytes(seq, az, el, rly).len() == CMD_PACKET_SIZE,
        crc8_lte(command_bytes(seq, az, el, rly)) == 0,
{
    crc_residue_is_zero(command_body(seq, az, el, rly));
}

/// What each byte of a command is: the marker, the packet number, the azimuth in hundredths
/// of a degree, what is missing to 90 degrees of elevation, the relay byte as it was given,
/// and the checksum of all that.
pub proof fn command_says_what_was_asked(seq: u32, az: AzAngle, el: ElAngle, rly: u8)
    ensures
        ({
            let cmd = command_bytes(seq, az, el, rly);
            &&& cmd.len() == 11
            &&& cmd[0] == 0xFF
            &&& ((cmd[1] * 256 + cmd[2]) * 256 + cmd[3]) * 256 + cmd[4] == seq
            &&& cmd[5] * 256 + cmd[6] == az.centi
            &&& el.centi <= 9000 ==> cmd[7] * 256 + cmd[8] + el.centi == 9000
            &&& el.centi > 9000 ==> cmd[7] == 0 && cmd[8] == 0
            &&& cmd[9] == rly
            &&& cmd[10] == crc8_lte(cmd.take(10))
        }),
{
    let cmd = command_bytes(seq, az, el, rly);
    be32_weighs_its_bytes(seq);
    be16_weighs_its_bytes(az.centi);
    be16_weighs_its_bytes(el.from_zenith_spec());
    assert(cmd.take(10) =~= command_body(seq, az, el, rly));
    assert(cmd.subrange(1, 5) =~= be32(seq));
    assert(cmd.subrange(5, 7) =~= be16(az.centi));
    assert(cmd.subrange(7, 9) =~= be16(el.from_zenith_spec()));
    assert(cmd[1] == be32(seq)[0] && cmd[2] == be32(seq)[1] && cmd[3] == be32(seq)[2] && cmd[4]
        == be32(seq)[3]);
    assert(cmd[5] == be16(az.centi)[0] && cmd[6] == be16(az.centi)[1]);
    assert(cmd[7] == be16(el.from_zenith_spec())[0] && cmd[8] == be16(el.from_zenith_spec())[1]);
}

/// By which of its bytes a packet is accepted or refused, and what is then read from it:
/// the first of length, marker, checksum and number that is wrong decides.
pub proof fn packet_is_judged_by_its_bytes(last: u32, buf: Seq<u8>)
    ensures
        ({
            let length = buf.len() == 14;
            let marker = buf[0] == 0xFF;
            let crc = buf[12] == crc8_lte(buf.take(12));
            let number = ((buf[1] * 256 + buf[2]) * 256 + buf[3]) * 256 + buf[4] == last;
            &&& checked(last, buf) == Err::<Response, Error>(Error::Length) <==> !length
            &&& checked(last, buf) == Err::<Response, Error>(Error::Marker) <==> length && !marker
            &&& checked(last, buf) == Err::<Response, Error>(Error::Crc) <==> length && marker
                && !crc
            &&& checked(last, buf) == Err::<Response, Error>(Error::Number) <==> length && marker
                && crc && !number
            &&& checked(last, buf) is Ok <==> length && marker && crc && number
        }),
        checked(last, buf) matches Ok(r) ==> {
            &&& r.seq == last
            &&& r.az == buf[5] * 256 + buf[6]
            &&& r.el == buf[7] * 256 + buf[8]
            &&& r.signal == buf[9]
            &&& r.noise == buf[10]
            &&& r.relays == buf[11]
            &&& r.rssi == buf[13]
        },
{
    assert(buf.len() == 14 ==> buf.take(12) =~= buf.subrange(0, 12));
    let (a, b, c, d) = (buf[1] as int, buf[2] as int, buf[3] as int, buf[4] as int);
    assert(((a * 256 + b) * 256 + c) * 256 + d == a * 0x100_0000 + b * 0x1_0000 + c * 256 + d);
    assert(be32_at(buf, 1) == ((a * 256 + b) * 256 + c) * 256 + d);
}

/// The degrees of a response are its angles rounded down: from them up to the angle there
/// is less than a degree. The elevation is what the field leaves of 90 degrees, and there is
/// none if it leaves nothing.
pub proof fn degrees_are_rounded_down(r: Response)
    ensures
        r.az_degrees_spec() * 100 <= r.az < r.az_degrees_spec() * 100 + 100,
        r.el_degrees_spec() is Some <==> r.el <= 9000,
        r.el_degrees_spec() matches Some(d) ==> d * 100 <= 9000 - r.el < d * 100 + 100,
{
}

/// A response is refused for its azimuth, its elevation field, its elevation or its relay
/// byte, whichever is the first at fault, and for nothing else. Otherwise the report holds
/// whole degrees, less than one below the angles of the response, and its levels.
pub proof fn response_is_taken_over(r: Response, az_ok: bool, el_ok: bool, relays: Option<Relays>)
    ensures
        ({
            let result = r.accepted(az_ok, el_ok, relays);
            let field = r.el <= 9000;
            &&& result == Err::<Report, Error>(Error::Azimuth) <==> !az_ok
            &&& result == Err::<Report, Error>(Error::ElevationField) <==> az_ok && !field
            &&& result == Err::<Report, Error>(Error::Elevation) <==> az_ok && field && !el_ok
            &&& result == Err::<Report, Error>(Error::Relays) <==> az_ok && field && el_ok
                && relays is None
            &&& result is Ok <==> az_ok && field && el_ok && relays is Some
            &&& result matches Ok(report) ==> {
                &&& report.az.centi % 100 == 0
                &&& report.az.centi <= r.az < report.az.centi + 100
                &&& report.el.centi % 100 == 0
                &&& report.el.centi <= 9000 - r.el < report.el.centi + 100
                &&& report.signal_s == r.signal
                &&& report.noise_s == r.noise
                &&& report.signal_m == r.rssi
                &&& relays == Some(report.relays)
            }
        }),
{
}

} // verus!
