//! The session with the camera: the transport it runs over, the fixed
//! responses it expects, and the handshake that starts, speeds up and ends it.

use crate::messaging::{unframed, CameraCommand, DataPacket, EncodingError, FrameError};
use vstd::prelude::*;

verus! {

/// The camera's acknowledgement.
pub const OK_RESPONSE: [u8; 2] = [0x06, 0x00];

/// The camera's answer to a unit inquiry: "1020F90X/N90S", NUL, ETX, ACK.
pub const EXPECTED_UNIT_INQUIRY_RESPONSE: [u8; 16] = [
    0x31,
    0x30,
    0x32,
    0x30,
    0x46,
    0x39,
    0x30,
    0x58,
    0x2F,
    0x4E,
    0x39,
    0x30,
    0x53,
    0x00,
    0x03,
    0x06,
];

/// What the camera echoes when a fast session ends: end of transmission, twice.
pub const END_OF_TRANSMISSION: [u8; 2] = [0x04, 0x04];

/// The line speed of a new session.
pub const DEFAULT_BAUD_RATE: u32 = 1200;

/// The line speed of a fast session.
pub const FAST_BAUD_RATE: u32 = 9600;

/// How long the camera is given to settle after a wakeup or a change of speed.
pub const SETTLE_DELAY_MS: u64 = 200;

/// A failure of the byte channel itself.
#[derive(Debug, Clone, Copy, PartialEq, Eq, Structural)]
pub enum TransportError {
    /// The device could not be opened.
    Open,
    /// Reading failed.
    Read,
    /// Writing failed.
    Write,
    /// The requested bytes did not arrive in time.
    Timeout,
    /// The input buffer could not be cleared.
    ClearInput,
    /// The line speed could not be changed.
    SetBaudRate,
}

/// A fixed response that did not come as expected.
#[derive(Debug, Clone, Copy, PartialEq, Eq, Structural)]
pub enum ValidationError {
    /// The acknowledgement was not `06 00`.
    OkResponse,
    /// The camera did not identify itself as expected.
    UnitInquiryResponse,
    /// The end of a fast session was not echoed.
    EndOfTransmissionEcho,
}

/// A sequence of bytes too short to hold a 16-bit value at an offset.
#[derive(Debug, Clone, Copy, PartialEq, Eq, Structural)]
pub struct RangeError {
    pub offset: usize,
    pub length: usize,
}

/// A 16-bit value that is not four binary-coded decimal digits.
#[derive(Debug, Clone, Copy, PartialEq, Eq, Structural)]
pub struct BcdError {
    pub encoded: u16,
}

/// Any failure of an exchange with the camera.
#[derive(Debug, Clone, Copy, PartialEq, Eq, Structural)]
pub enum CameraError {
    Transport(TransportError),
    Frame(FrameError),
    Validation(ValidationError),
    Encoding(EncodingError),
    Range(RangeError),
    Bcd(BcdError),
    /// A memo holder setting byte with the enabled flag but no known value.
    UnknownSetting(u8),
}

/// Checks received bytes against the fixed response that was expected; any
/// difference, in length or in any byte, fails with `kind`.
pub fn validate_response(received: &Vec<u8>, expected: &[u8], kind: ValidationError) -> (r: Result<
    (),
    CameraError,
>)
    ensures
        r == (if received@ == expected@ {
            Ok::<(), CameraError>(())
        } else {
            Err(CameraError::Validation(kind))
        }),
{
    if received.len() != expected.len() {
        return Err(CameraError::Validation(kind));
    }
    let mut i: usize = 0;
    while i < expected.len()
        invariant
            received@.len() == expected@.len(),
            0 <= i <= expected@.len(),
            received@.subrange(0, i as int) == expected@.subrange(0, i as int),
        decreases expected@.len() - i,
    {
        if received[i] != expected[i] {
            return Err(CameraError::Validation(kind));
        }
        assert(received@.subrange(0, i + 1) =~= received@.subrange(0, i as int).push(received@[i as int]));
        assert(expected@.subrange(0, i + 1) =~= expected@.subrange(0, i as int).push(expected@[i as int]));
        i += 1;
    }
    assert(received@ =~= received@.subrange(0, i as int));
    assert(expected@ =~= expected@.subrange(0, i as int));
    Ok(())
}

/// A request made of the transport.
pub ghost enum TransportOp {
    Write(Seq<u8>),
    Read(nat),
    ClearInput,
    SetBaudRate(u32),
    Delay(u64),
}

/// What the transport answered to a request.
pub ghost enum TransportReply {
    Done,
    Bytes(Seq<u8>),
    Failed(TransportError),
}

/// One request of the transport and its answer.
pub ghost struct Exchange {
    pub op: TransportOp,
    pub reply: TransportReply,
}

/// One step of an exchange with the camera.
pub ghost enum Step {
    /// Write these bytes.
    Send(Seq<u8>),
    /// Let the camera settle for this many milliseconds.
    Wait(u64),
    /// Discard whatever waits in the input buffer.
    Clear,
    /// Switch the line to this speed.
    Speed(u32),
    /// Read as many bytes as the given response has; they must be exactly it.
    Expect(Seq<u8>, ValidationError),
    /// Read a framed data packet with a payload of this many bytes.
    ReadPacket(nat),
}

/// The transport request that a step makes.
pub open spec fn step_op(step: Step) -> TransportOp {
    match step {
        Step::Send(bytes) => TransportOp::Write(bytes),
        Step::Wait(ms) => TransportOp::Delay(ms),
        Step::Clear => TransportOp::ClearInput,
        Step::Speed(rate) => TransportOp::SetBaudRate(rate),
        Step::Expect(response, _) => TransportOp::Read(response.len()),
        Step::ReadPacket(length) => TransportOp::Read(length + 3),
    }
}

/// The failure with which a step ends, given the transport's answer; none
/// where the exchange goes on.
pub open spec fn step_error(step: Step, reply: TransportReply) -> Option<CameraError> {
    match reply {
        TransportReply::Failed(e) => Some(CameraError::Transport(e)),
        TransportReply::Bytes(bytes) => match step {
            Step::Expect(response, kind) => if bytes == response {
                None
            } else {
                Some(CameraError::Validation(kind))
            },
            Step::ReadPacket(_) => match unframed(bytes) {
                Ok(_) => None,
                Err(e) => Some(CameraError::Frame(e)),
            },
            _ => None,
        },
        TransportReply::Done => None,
    }
}

/// The payload of a data packet that an exchange read.
pub open spec fn packet_payload(exchange: Exchange) -> Seq<u8> {
    match exchange.reply {
        TransportReply::Bytes(bytes) => match unframed(bytes) {
            Ok(payload) => payload,
            Err(_) => Seq::empty(),
        },
        _ => Seq::empty(),
    }
}

/// `ex` records the steps taken in order, up to and including the first one
/// that failed, and `r` is that failure; with no failure every step was taken.
pub open spec fn ran(steps: Seq<Step>, ex: Seq<Exchange>, r: Result<(), CameraError>) -> bool {
    &&& 0 < ex.len() <= steps.len()
    &&& forall|k: int| 0 <= k < ex.len() ==> (#[trigger] ex[k]).op == step_op(steps[k])
    &&& forall|k: int|
        0 <= k < ex.len() - 1 ==> step_error(steps[k], (#[trigger] ex[k]).reply) is None
    &&& match step_error(steps[ex.len() - 1], ex.last().reply) {
        Some(e) => r == Err::<(), CameraError>(e),
        None => ex.len() == steps.len() && r == Ok::<(), CameraError>(()),
    }
}

/// The exchanges recorded in `after` that came after those in `before`
/// were a run of `steps` with outcome `r`.
pub open spec fn performed(
    steps: Seq<Step>,
    before: Seq<Exchange>,
    after: Seq<Exchange>,
    r: Result<(), CameraError>,
) -> bool {
    &&& before.len() <= after.len()
    &&& after.subrange(0, before.len() as int) == before
    &&& ran(steps, after.subrange(before.len() as int, after.len() as int), r)
}

/// Success or the failure, without the value.
pub open spec fn status<A>(r: Result<A, CameraError>) -> Result<(), CameraError> {
    match r {
        Ok(_) => Ok(()),
        Err(e) => Err(e),
    }
}

/// Two runs one after the other, the first of which went through, are a run
/// of both step sequences.
pub proof fn lemma_performed_then(
    a: Seq<Step>,
    b: Seq<Step>,
    x: Seq<Exchange>,
    y: Seq<Exchange>,
    z: Seq<Exchange>,
    r: Result<(), CameraError>,
)
    requires
        performed(a, x, y, Ok(())),
        performed(b, y, z, r),
    ensures
        performed(a + b, x, z, r),
{
    let e1 = y.subrange(x.len() as int, y.len() as int);
    let e2 = z.subrange(y.len() as int, z.len() as int);
    let e = z.subrange(x.len() as int, z.len() as int);
    assert(z.subrange(0, x.len() as int) =~= y.subrange(0, x.len() as int));
    assert(e =~= e1 + e2);
    let steps = a + b;
    assert forall|k: int| 0 <= k < e.len() implies (#[trigger] e[k]).op == step_op(steps[k]) by {
        if k >= e1.len() {
            assert(e[k] == e2[k - e1.len()]);
        }
    }
    assert forall|k: int| 0 <= k < e.len() - 1 implies step_error(
        steps[k],
        (#[trigger] e[k]).reply,
    ) is None by {
        if k >= e1.len() {
            assert(e[k] == e2[k - e1.len()]);
        }
    }
    assert(e.last() == e2.last());
}

/// A run that failed part way through a prefix of the steps is a run of all
/// of them.
pub proof fn lemma_performed_stopped(
    done: Seq<Step>,
    steps: Seq<Step>,
    x: Seq<Exchange>,
    y: Seq<Exchange>,
    e: CameraError,
)
    requires
        performed(done, x, y, Err(e)),
        done.len() <= steps.len(),
        steps.subrange(0, done.len() as int) == done,
    ensures
        performed(steps, x, y, Err(e)),
{
    let ex = y.subrange(x.len() as int, y.len() as int);
    assert forall|k: int| 0 <= k < ex.len() implies (#[trigger] ex[k]).op == step_op(steps[k]) by {
        assert(steps[k] == done[k]);
    }
    assert forall|k: int| 0 <= k < ex.len() - 1 implies step_error(
        steps[k],
        (#[trigger] ex[k]).reply,
    ) is None by {
        assert(steps[k] == done[k]);
    }
    assert(steps[ex.len() - 1] == done[ex.len() - 1]);
}

proof fn lemma_first_step(
    steps: Seq<Step>,
    x: Seq<Exchange>,
    z: Seq<Exchange>,
    r: Result<(), CameraError>,
)
    requires
        steps.len() > 0,
        performed(seq![steps[0]], x, z, r),
    ensures
        performed(steps.subrange(0, 1), x, z, r),
        r is Err || steps.len() == 1 ==> performed(steps, x, z, r),
{
    assert(steps.subrange(0, 1) =~= seq![steps[0]]);
    if r is Err {
        lemma_performed_stopped(seq![steps[0]], steps, x, z, r->Err_0);
    }
    if steps.len() == 1 {
        assert(steps =~= seq![steps[0]]);
    }
}

proof fn lemma_next_step(
    steps: Seq<Step>,
    k: int,
    x: Seq<Exchange>,
    y: Seq<Exchange>,
    z: Seq<Exchange>,
    r: Result<(), CameraError>,
)
    requires
        0 < k < steps.len(),
        performed(steps.subrange(0, k), x, y, Ok(())),
        performed(seq![steps[k]], y, z, r),
    ensures
        performed(steps.subrange(0, k + 1), x, z, r),
        r is Err || k + 1 == steps.len() ==> performed(steps, x, z, r),
{
    lemma_performed_then(steps.subrange(0, k), seq![steps[k]], x, y, z, r);
    assert(steps.subrange(0, k) + seq![steps[k]] =~= steps.subrange(0, k + 1));
    if r is Err {
        lemma_performed_stopped(steps.subrange(0, k + 1), steps, x, z, r->Err_0);
    }
    if k + 1 == steps.len() {
        assert(steps.subrange(0, k + 1) =~= steps);
    }
}

/// The steps that start a session: wake the camera, let it settle, discard
/// what it may have sent, ask it to identify itself and check the answer.
pub open spec fn start_session_steps() -> Seq<Step> {
    seq![
        Step::Send(CameraCommand::Wakeup.encoded()->Ok_0),
        Step::Wait(SETTLE_DELAY_MS),
        Step::Clear,
        Step::Send(CameraCommand::UnitInquiry.encoded()->Ok_0),
        Step::Expect(EXPECTED_UNIT_INQUIRY_RESPONSE@, ValidationError::UnitInquiryResponse),
    ]
}

/// The steps that speed a session up: ask for the faster speed, wait for the
/// acknowledgement, let the camera settle, switch the line over.
pub open spec fn fast_session_steps() -> Seq<Step> {
    seq![
        Step::Send(CameraCommand::IncreaseBaudRate.encoded()->Ok_0),
        Step::Expect(OK_RESPONSE@, ValidationError::OkResponse),
        Step::Wait(SETTLE_DELAY_MS),
        Step::Speed(FAST_BAUD_RATE),
    ]
}

/// The steps that end a fast session: send end of transmission, wait for its
/// echo, let the camera settle, switch the line back to the default speed.
pub open spec fn end_fast_session_steps() -> Seq<Step> {
    seq![
        Step::Send(END_OF_TRANSMISSION@),
        Step::Expect(END_OF_TRANSMISSION@, ValidationError::EndOfTransmissionEcho),
        Step::Wait(SETTLE_DELAY_MS),
        Step::Speed(DEFAULT_BAUD_RATE),
    ]
}

/// Once every transport call of a session start has gone through, the
/// session starts exactly when the camera identifies itself with the
/// expected answer; any other answer, even one byte off, is a validation
/// failure.
pub proof fn lemma_session_start_outcome(
    before: Seq<Exchange>,
    after: Seq<Exchange>,
    r: Result<(), CameraError>,
    response: Seq<u8>,
)
    requires
        performed(start_session_steps(), before, after, r),
        after.len() == before.len() + start_session_steps().len(),
        after.last().reply == TransportReply::Bytes(response),
    ensures
        r is Ok <==> response == EXPECTED_UNIT_INQUIRY_RESPONSE@,
        response != EXPECTED_UNIT_INQUIRY_RESPONSE@ ==> r == Err::<(), CameraError>(
            CameraError::Validation(ValidationError::UnitInquiryResponse),
        ),
{
    let ex = after.subrange(before.len() as int, after.len() as int);
    assert(ex.last() == after.last());
}

/// The answer recorded for a transport call that returns bytes.
pub open spec fn bytes_reply(r: Result<Vec<u8>, TransportError>) -> TransportReply {
    match r {
        Ok(bytes) => TransportReply::Bytes(bytes@),
        Err(e) => TransportReply::Failed(e),
    }
}

/// A byte channel to the camera: blocking reads and writes, clearing of the
/// input buffer, changes of line speed, and a way to wait.
pub trait SerialInterface {
    /// Reads the given number of bytes, blocking until they have come.
    fn read(&mut self, length: usize) -> Result<Vec<u8>, TransportError>;

    /// Writes the given bytes, blocking until they are sent.
    fn write(&mut self, data: &Vec<u8>) -> Result<(), TransportError>;

    /// Discards what waits in the input buffer and returns it.
    fn clear_input(&mut self) -> Result<Vec<u8>, TransportError>;

    /// Sets the line speed.
    fn set_baud_rate(&mut self, baud_rate: u32) -> Result<(), TransportError>;

    /// Waits the given number of milliseconds.
    fn delay(&mut self, milliseconds: u64);
}

/// A session with the camera over a serial transport, with a record of every
/// request made of the transport and its answer.
pub struct SerialCameraConnection<T: SerialInterface> {
    serial: T,
    log: Ghost<Seq<Exchange>>,
}

impl<T: SerialInterface> SerialCameraConnection<T> {
    /// The requests made of the transport so far, with their answers.
    pub closed spec fn exchanges(&self) -> Seq<Exchange> {
        self.log@
    }

    pub fn new(serial: T) -> (r: SerialCameraConnection<T>)
        ensures
            r.exchanges() == Seq::<Exchange>::empty(),
    {
        SerialCameraConnection { serial, log: Ghost(Seq::empty()) }
    }

    fn send_bytes(&mut self, data: &Vec<u8>) -> (r: Result<(), CameraError>)
        ensures
            performed(seq![Step::Send(data@)], old(self).exchanges(), final(self).exchanges(), r),
    {
        let written = self.serial.write(data);
        let r = match written {
            Ok(()) => Ok(()),
            Err(e) => Err(CameraError::Transport(e)),
        };
        let ghost reply = match written {
            Ok(()) => TransportReply::Done,
            Err(e) => TransportReply::Failed(e),
        };
        let ghost before = self.log@;
        self.log = Ghost(self.log@.push(Exchange { op: TransportOp::Write(data@), reply }));
        assert(self.log@.subrange(0, before.len() as int) =~= before);
        assert(self.log@.subrange(before.len() as int, self.log@.len() as int) =~= seq![
            Exchange { op: TransportOp::Write(data@), reply },
        ]);
        r
    }

    fn settle(&mut self, milliseconds: u64)
        ensures
            performed(
                seq![Step::Wait(milliseconds)],
                old(self).exchanges(),
                final(self).exchanges(),
                Ok(()),
            ),
    {
        self.serial.delay(milliseconds);
        let ghost before = self.log@;
        let ghost exchange = Exchange {
            op: TransportOp::Delay(milliseconds),
            reply: TransportReply::Done,
        };
        self.log = Ghost(self.log@.push(exchange));
        assert(self.log@.subrange(0, before.len() as int) =~= before);
        assert(self.log@.subrange(before.len() as int, self.log@.len() as int) =~= seq![exchange]);
    }

    fn clear(&mut self) -> (r: Result<(), CameraError>)
        ensures
            performed(seq![Step::Clear], old(self).exchanges(), final(self).exchanges(), r),
    {
        let cleared = self.serial.clear_input();
        let ghost reply = bytes_reply(cleared);
        let ghost before = self.log@;
        let ghost exchange = Exchange { op: TransportOp::ClearInput, reply };
        self.log = Ghost(self.log@.push(exchange));
        assert(self.log@.subrange(0, before.len() as int) =~= before);
        assert(self.log@.subrange(before.len() as int, self.log@.len() as int) =~= seq![exchange]);
        match cleared {
            Ok(_) => Ok(()),
            Err(e) => Err(CameraError::Transport(e)),
        }
    }

    fn change_speed(&mut self, baud_rate: u32) -> (r: Result<(), CameraError>)
        ensures
            performed(
                seq![Step::Speed(baud_rate)],
                old(self).exchanges(),
                final(self).exchanges(),
                r,
            ),
    {
        let changed = self.serial.set_baud_rate(baud_rate);
        let ghost reply = match changed {
            Ok(()) => TransportReply::Done,
            Err(e) => TransportReply::Failed(e),
        };
        let ghost before = self.log@;
        let ghost exchange = Exchange { op: TransportOp::SetBaudRate(baud_rate), reply };
        self.log = Ghost(self.log@.push(exchange));
        assert(self.log@.subrange(0, before.len() as int) =~= before);
        assert(self.log@.subrange(before.len() as int, self.log@.len() as int) =~= seq![exchange]);
        match changed {
            Ok(()) => Ok(()),
            Err(e) => Err(CameraError::Transport(e)),
        }
    }

    fn read_bytes(&mut self, length: usize) -> (r: Result<Vec<u8>, CameraError>)
        ensures
            final(self).exchanges().len() == old(self).exchanges().len() + 1,
            final(self).exchanges().subrange(0, old(self).exchanges().len() as int)
                == old(self).exchanges(),
            final(self).exchanges().last().op == TransportOp::Read(length as nat),
            match r {
                Ok(bytes) => final(self).exchanges().last().reply == TransportReply::Bytes(bytes@),
                Err(e) => e is Transport && final(self).exchanges().last().reply
                    == TransportReply::Failed(e->Transport_0),
            },
    {
        let received = self.serial.read(length);
        let ghost reply = bytes_reply(received);
        let ghost before = self.log@;
        self.log = Ghost(
            self.log@.push(Exchange { op: TransportOp::Read(length as nat), reply }),
        );
        assert(self.log@.subrange(0, before.len() as int) =~= before);
        match received {
            Ok(bytes) => Ok(bytes),
            Err(e) => Err(CameraError::Transport(e)),
        }
    }

    fn expect_response(&mut self, expected: &[u8], kind: ValidationError) -> (r: Result<
        (),
        CameraError,
    >)
        ensures
            performed(
                seq![Step::Expect(expected@, kind)],
                old(self).exchanges(),
                final(self).exchanges(),
                r,
            ),
    {
        let ghost before = self.exchanges();
        let received = self.read_bytes(expected.len());
        assert(self.exchanges().subrange(before.len() as int, self.exchanges().len() as int)
            =~= seq![self.exchanges().last()]);
        match received {
            Ok(bytes) => validate_response(&bytes, expected, kind),
            Err(e) => Err(e),
        }
    }

    /// Sends a command; a command that cannot be encoded fails before the
    /// transport is used.
    pub fn send_command(&mut self, command: &CameraCommand) -> (r: Result<(), CameraError>)
        ensures
            match command.encoded() {
                Ok(bytes) => performed(
                    seq![Step::Send(bytes)],
                    old(self).exchanges(),
                    final(self).exchanges(),
                    r,
                ),
                Err(e) => r == Err::<(), CameraError>(CameraError::Encoding(e))
                    && final(self).exchanges() == old(self).exchanges(),
            },
    {
        match command.encode() {
            Ok(bytes) => self.send_bytes(&bytes),
            Err(e) => Err(CameraError::Encoding(e)),
        }
    }

    /// Reads the two bytes of an acknowledgement and checks them.
    pub fn expect_ok_response(&mut self) -> (r: Result<(), CameraError>)
        ensures
            performed(
                seq![Step::Expect(OK_RESPONSE@, ValidationError::OkResponse)],
                old(self).exchanges(),
                final(self).exchanges(),
                r,
            ),
    {
        self.expect_response(OK_RESPONSE.as_slice(), ValidationError::OkResponse)
    }

    /// Reads a framed data packet with a payload of the given length.
    pub fn expect_data_packet(&mut self, payload_length: u8) -> (r: Result<DataPacket, CameraError>)
        ensures
            performed(
                seq![Step::ReadPacket(payload_length as nat)],
                old(self).exchanges(),
                final(self).exchanges(),
                status(r),
            ),
            r is Ok ==> r->Ok_0.bytes@ == packet_payload(final(self).exchanges().last()),
    {
        let ghost before = self.exchanges();
        let expected_length: usize = payload_length as usize + 3;
        let received = self.read_bytes(expected_length);
        assert(self.exchanges().subrange(before.len() as int, self.exchanges().len() as int)
            =~= seq![self.exchanges().last()]);
        match received {
            Ok(bytes) => match DataPacket::deserialize(&bytes) {
                Ok(packet) => Ok(packet),
                Err(e) => Err(CameraError::Frame(e)),
            },
            Err(e) => Err(e),
        }
    }

    /// Starts a session at the default speed: wakes the camera up and checks
    /// that it identifies itself as expected.
    pub fn start_new_session(&mut self) -> (r: Result<(), CameraError>)
        ensures
            performed(start_session_steps(), old(self).exchanges(), final(self).exchanges(), r),
    {
        let ghost steps = start_session_steps();
        let ghost t0 = self.exchanges();
        let r = self.send_command(&CameraCommand::Wakeup);
        proof {
            lemma_first_step(steps, t0, self.exchanges(), r);
        }
        if r.is_err() {
            return r;
        }
        let ghost t1 = self.exchanges();
        self.settle(SETTLE_DELAY_MS);
        proof {
            lemma_next_step(steps, 1, t0, t1, self.exchanges(), Ok(()));
        }
        let ghost t2 = self.exchanges();
        // The camera answers the wakeup only if it was awake already; what it
        // sent is of no interest.
        let r = self.clear();
        proof {
            lemma_next_step(steps, 2, t0, t2, self.exchanges(), r);
        }
        if r.is_err() {
            return r;
        }
        let ghost t3 = self.exchanges();
        let r = self.send_command(&CameraCommand::UnitInquiry);
        proof {
            lemma_next_step(steps, 3, t0, t3, self.exchanges(), r);
        }
        if r.is_err() {
            return r;
        }
        let ghost t4 = self.exchanges();
        let r = self.expect_response(
            EXPECTED_UNIT_INQUIRY_RESPONSE.as_slice(),
            ValidationError::UnitInquiryResponse,
        );
        proof {
            lemma_next_step(steps, 4, t0, t4, self.exchanges(), r);
        }
        r
    }

    /// Switches a started session to the faster line speed.
    pub fn upgrade_to_fast_session(&mut self) -> (r: Result<(), CameraError>)
        ensures
            performed(fast_session_steps(), old(self).exchanges(), final(self).exchanges(), r),
    {
        let ghost steps = fast_session_steps();
        let ghost t0 = self.exchanges();
        let r = self.send_command(&CameraCommand::IncreaseBaudRate);
        proof {
            lemma_first_step(steps, t0, self.exchanges(), r);
        }
        if r.is_err() {
            return r;
        }
        let ghost t1 = self.exchanges();
        let r = self.expect_ok_response();
        proof {
            lemma_next_step(steps, 1, t0, t1, self.exchanges(), r);
        }
        if r.is_err() {
            return r;
        }
        let ghost t2 = self.exchanges();
        self.settle(SETTLE_DELAY_MS);
        proof {
            lemma_next_step(steps, 2, t0, t2, self.exchanges(), Ok(()));
        }
        let ghost t3 = self.exchanges();
        let r = self.change_speed(FAST_BAUD_RATE);
        proof {
            lemma_next_step(steps, 3, t0, t3, self.exchanges(), r);
        }
        r
    }

    /// Signs off from a fast session and returns the line to the default
    /// speed; without the camera's echo the speed stays as it is.
    pub fn end_fast_session(&mut self) -> (r: Result<(), CameraError>)
        ensures
            performed(end_fast_session_steps(), old(self).exchanges(), final(self).exchanges(), r),
    {
        let ghost steps = end_fast_session_steps();
        let ghost t0 = self.exchanges();
        let end_of_transmission: Vec<u8> = vec![0x04, 0x04];
        assert(end_of_transmission@ =~= END_OF_TRANSMISSION@);
        let r = self.send_bytes(&end_of_transmission);
        proof {
            lemma_first_step(steps, t0, self.exchanges(), r);
        }
        if r.is_err() {
            return r;
        }
        let ghost t1 = self.exchanges();
        let r = self.expect_response(
            END_OF_TRANSMISSION.as_slice(),
            ValidationError::EndOfTransmissionEcho,
        );
        proof {
            lemma_next_step(steps, 1, t0, t1, self.exchanges(), r);
        }
        if r.is_err() {
            return r;
        }
        let ghost t2 = self.exchanges();
        self.settle(SETTLE_DELAY_MS);
        proof {
            lemma_next_step(steps, 2, t0, t2, self.exchanges(), Ok(()));
        }
        let ghost t3 = self.exchanges();
        let r = self.change_speed(DEFAULT_BAUD_RATE);
        proof {
            lemma_next_step(steps, 3, t0, t3, self.exchanges(), r);
        }
        r
    }
}

/// The operations of a session with the camera.
pub trait CameraInterface {
    /// Sends the given command.
    fn send_command(&mut self, command: &CameraCommand) -> Result<(), CameraError>;

    /// Expects the camera's acknowledgement.
    fn expect_ok_response(&mut self) -> Result<(), CameraError>;

    /// Starts a new session at the default speed.
    fn start_new_session(&mut self) -> Result<(), CameraError>;

    /// Switches a started session to the faster speed.
    fn upgrade_to_fast_session(&mut self) -> Result<(), CameraError>;

    /// Ends a fast session, returning to the default speed.
    fn end_fast_session(&mut self) -> Result<(), CameraError>;

    /// Expects a data packet with a payload of the given length.
    fn expect_data_packet(&mut self, payload_length: u8) -> Result<DataPacket, CameraError>;
}

impl<T: SerialInterface> CameraInterface for SerialCameraConnection<T> {
    fn send_command(&mut self, command: &CameraCommand) -> Result<(), CameraError> {
        SerialCameraConnection::<T>::send_command(self, command)
    }

    fn expect_ok_response(&mut self) -> Result<(), CameraError> {
        SerialCameraConnection::<T>::expect_ok_response(self)
    }

    fn start_new_session(&mut self) -> Result<(), CameraError> {
        SerialCameraConnection::<T>::start_new_session(self)
    }

    fn upgrade_to_fast_session(&mut self) -> Result<(), CameraError> {
        SerialCameraConnection::<T>::upgrade_to_fast_session(self)
    }

    fn end_fast_session(&mut self) -> Result<(), CameraError> {
        SerialCameraConnection::<T>::end_fast_session(self)
    }

    fn expect_data_packet(&mut self, payload_length: u8) -> Result<DataPacket, CameraError> {
        SerialCameraConnection::<T>::expect_data_packet(self, payload_length)
    }
}

} // verus!
