//! Byte-level messages: framed data packets and the encoding of commands.

use vstd::arithmetic::div_mod::lemma_add_mod_noop;
use vstd::prelude::*;

verus! {

/// First byte of a framed data packet.
pub const PACKET_START: u8 = 0x02;

/// Last byte of a framed data packet.
pub const PACKET_END: u8 = 0x03;

/// The packet checksum as the device computes it: a running sum of the
/// payload bytes, reduced modulo 255 after every addition.
pub open spec fn checksum(payload: Seq<u8>) -> nat
    decreases payload.len(),
{
    if payload.len() == 0 {
        0
    } else {
        ((checksum(payload.drop_last()) + payload.last()) % 255) as nat
    }
}

/// The framed form of a payload: start byte, payload, checksum, end byte.
pub open spec fn framed(payload: Seq<u8>) -> Seq<u8> {
    seq![PACKET_START] + payload + seq![checksum(payload) as u8, PACKET_END]
}

/// Why a byte sequence is not a valid framed data packet.
#[derive(Debug, Clone, Copy, PartialEq, Eq, Structural)]
pub enum FrameError {
    /// Fewer than four bytes.
    TooShort,
    /// The first byte is not the start byte.
    BadStart,
    /// The last byte is not the end byte.
    BadEnd,
    /// The checksum byte does not match the payload.
    BadChecksum,
}

/// The payload of a framed data packet, checked in this order: length,
/// start byte, end byte, checksum.
pub open spec fn unframed(data: Seq<u8>) -> Result<Seq<u8>, FrameError> {
    if data.len() < 4 {
        Err(FrameError::TooShort)
    } else if data[0] != PACKET_START {
        Err(FrameError::BadStart)
    } else if data.last() != PACKET_END {
        Err(FrameError::BadEnd)
    } else if checksum(data.subrange(1, data.len() - 2)) != data[data.len() - 2] as nat {
        Err(FrameError::BadChecksum)
    } else {
        Ok(data.subrange(1, data.len() - 2))
    }
}

/// A data packet: the payload carried between the framing bytes.
pub struct DataPacket {
    pub bytes: Vec<u8>,
}

impl DataPacket {
    /// Frames the payload: start byte, payload, checksum, end byte.
    pub fn serialize(&self) -> (r: Vec<u8>)
        ensures
            r@ == framed(self.bytes@),
    {
        let mut serialized: Vec<u8> = Vec::new();
        serialized.push(PACKET_START);
        let mut i: usize = 0;
        while i < self.bytes.len()
            invariant
                0 <= i <= self.bytes.len(),
                serialized@ == seq![PACKET_START] + self.bytes@.subrange(0, i as int),
            decreases self.bytes.len() - i,
        {
            serialized.push(self.bytes[i]);
            i += 1;
            assert(self.bytes@.subrange(0, i as int) =~= self.bytes@.subrange(0, i - 1).push(
                self.bytes@[i - 1],
            ));
        }
        serialized.push(DataPacket::calculate_checksum(self.bytes.as_slice()));
        serialized.push(PACKET_END);
        assert(self.bytes@.subrange(0, self.bytes@.len() as int) =~= self.bytes@);
        assert(serialized@ =~= framed(self.bytes@));
        serialized
    }

    /// Reads a framed data packet back into its payload.
    pub fn deserialize(data: &Vec<u8>) -> (r: Result<DataPacket, FrameError>)
        ensures
            match r {
                Ok(packet) => unframed(data@) == Ok::<Seq<u8>, FrameError>(packet.bytes@),
                Err(e) => unframed(data@) == Err::<Seq<u8>, FrameError>(e),
            },
            data@.len() < 4 ==> r == Err::<DataPacket, FrameError>(FrameError::TooShort),
    {
        if data.len() < 4 {
            return Err(FrameError::TooShort);
        }
        if data[0] != PACKET_START {
            return Err(FrameError::BadStart);
        }
        if data[data.len() - 1] != PACKET_END {
            return Err(FrameError::BadEnd);
        }
        let checksum_index: usize = data.len() - 2;
        let mut payload: Vec<u8> = Vec::new();
        let mut i: usize = 1;
        while i < checksum_index
            invariant
                1 <= i <= checksum_index,
                checksum_index == data@.len() - 2,
                payload@ == data@.subrange(1, i as int),
            decreases checksum_index - i,
        {
            payload.push(data[i]);
            i += 1;
            assert(data@.subrange(1, i as int) =~= data@.subrange(1, i - 1).push(data@[i - 1]));
        }
        let expected_checksum = DataPacket::calculate_checksum(payload.as_slice());
        if expected_checksum != data[checksum_index] {
            return Err(FrameError::BadChecksum);
        }
        Ok(DataPacket { bytes: payload })
    }

    /// The running checksum of the given bytes.
    fn calculate_checksum(data: &[u8]) -> (r: u8)
        ensures
            r as nat == checksum(data@),
    {
        let mut sum: u16 = 0;
        let mut i: usize = 0;
        while i < data.len()
            invariant
                0 <= i <= data@.len(),
                sum as nat == checksum(data@.subrange(0, i as int)),
                sum < 255,
            decreases data@.len() - i,
        {
            assert(data@.subrange(0, i + 1).drop_last() =~= data@.subrange(0, i as int));
            sum = sum + data[i] as u16;
            sum = sum % 255;
            i += 1;
        }
        assert(data@.subrange(0, data@.len() as int) =~= data@);
        sum as u8
    }
}

/// The plain sum of a byte sequence.
pub open spec fn byte_sum(s: Seq<u8>) -> int
    decreases s.len(),
{
    if s.len() == 0 {
        0
    } else {
        byte_sum(s.drop_last()) + s.last()
    }
}

/// Reducing after every addition gives the plain sum reduced once.
pub proof fn lemma_checksum_is_sum_mod(s: Seq<u8>)
    ensures
        checksum(s) == byte_sum(s) % 255,
        checksum(s) < 255,
    decreases s.len(),
{
    if s.len() > 0 {
        lemma_checksum_is_sum_mod(s.drop_last());
        lemma_add_mod_noop(byte_sum(s.drop_last()), s.last() as int, 255);
        assert((s.last() as int) % 255 == s.last() as int % 255);
        lemma_add_mod_noop(checksum(s.drop_last()) as int, s.last() as int, 255);
    }
}

proof fn lemma_byte_sum_update(s: Seq<u8>, j: int, v: u8)
    requires
        0 <= j < s.len(),
    ensures
        byte_sum(s.update(j, v)) == byte_sum(s) - s[j] + v,
    decreases s.len(),
{
    if j == s.len() - 1 {
        assert(s.update(j, v).drop_last() =~= s.drop_last());
    } else {
        assert(s.update(j, v).drop_last() =~= s.drop_last().update(j, v));
        lemma_byte_sum_update(s.drop_last(), j, v);
    }
}

/// Reading back a framed payload gives the payload, for every payload of at
/// least one byte (an empty payload frames to three bytes, which is too short).
pub proof fn lemma_round_trip(payload: Seq<u8>)
    requires
        payload.len() >= 1,
    ensures
        unframed(framed(payload)) == Ok::<Seq<u8>, FrameError>(payload),
{
    let f = framed(payload);
    lemma_checksum_is_sum_mod(payload);
    assert(f.subrange(1, f.len() - 2) =~= payload);
}

/// Changing one byte of a framed packet makes it fail to read back, unless
/// the byte is a payload byte and the old and new values are equal modulo
/// 255 (0x00 and 0xFF), which the checksum cannot tell apart.
pub proof fn lemma_single_byte_change_rejected(payload: Seq<u8>, i: int, v: u8)
    requires
        0 <= i < framed(payload).len(),
        v != framed(payload)[i],
        1 <= i <= payload.len() ==> (v as int) % 255 != (payload[i - 1] as int) % 255,
    ensures
        unframed(framed(payload).update(i, v)) is Err,
{
    let f = framed(payload);
    let g = f.update(i, v);
    let n = g.len();
    lemma_checksum_is_sum_mod(payload);
    if n >= 4 && g[0] == PACKET_START && g.last() == PACKET_END {
        if i == n - 2 {
            assert(g.subrange(1, n - 2) =~= payload);
        } else {
            assert(1 <= i <= payload.len());
            assert(g.subrange(1, n - 2) =~= payload.update(i - 1, v));
            lemma_byte_sum_update(payload, i - 1, v);
            lemma_checksum_is_sum_mod(payload.update(i - 1, v));
            let a = byte_sum(payload);
            let x = payload[i - 1] as int;
            assert((a - x + v) % 255 != a % 255) by {
                lemma_add_mod_noop(a - x, v as int, 255);
                lemma_add_mod_noop(a - x, x, 255);
            }
        }
    }
}

/// The high byte of a 16-bit value.
pub open spec fn high_byte(v: u16) -> u8 {
    (v / 256) as u8
}

/// The low byte of a 16-bit value.
pub open spec fn low_byte(v: u16) -> u8 {
    (v % 256) as u8
}

/// The bytes of a memory read request.
pub open spec fn read_memory_bytes(memory_space: u8, address: u16, length: u8) -> Seq<u8> {
    seq![0x01u8, 0x20, 0x80, memory_space, high_byte(address), low_byte(address), 0x00, length, 0x03]
}

/// The bytes of a memory write request: a header that gives the address and
/// the number of values, followed by the values as a framed data packet.
pub open spec fn write_to_memory_bytes(address: u16, values: Seq<u8>) -> Seq<u8> {
    seq![0x01u8, 0x20, 0x81, 0x00, high_byte(address), low_byte(address), 0x00, values.len() as u8]
        + framed(values)
}

/// The largest number of values that one memory write carries.
pub const MAX_WRITE_VALUES: usize = 255;

/// A command that cannot be put into bytes: a memory write with more values
/// than one request carries.
#[derive(Debug, Clone, Copy, PartialEq, Eq, Structural)]
pub struct EncodingError {
    /// The number of values that was asked for.
    pub length: usize,
}

/// A command to the camera.
#[derive(Debug)]
pub enum CameraCommand {
    /// Wakes the camera up.
    Wakeup,
    /// Asks the camera to identify itself.
    UnitInquiry,
    /// Triggers auto-focus.
    Focus,
    /// Releases the shutter.
    Shoot,
    /// Reads `length` bytes starting at `address` of the given memory space.
    ReadMemory { memory_space: u8, address: u16, length: u8 },
    /// Writes `values` starting at `address` of memory space 0.
    WriteToMemory { address: u16, values: Vec<u8> },
    /// Asks for the memo holder's roll number and byte count.
    ReadMemoHolderInfo,
    /// Asks the camera to switch the line to 9600 baud.
    IncreaseBaudRate,
}

impl CameraCommand {
    /// The bytes that carry this command, or why there are none.
    pub open spec fn encoded(&self) -> Result<Seq<u8>, EncodingError> {
        match self {
            CameraCommand::Wakeup => Ok(seq![0x00u8]),
            CameraCommand::UnitInquiry => Ok(seq![0x53u8, 0x31, 0x30, 0x30, 0x30, 0x05]),
            CameraCommand::Focus => Ok(seq![0x01u8, 0x20, 0x86, 0x00, 0x00, 0x00, 0x00, 0x00, 0x03]),
            CameraCommand::Shoot => Ok(seq![0x01u8, 0x20, 0x85, 0x00, 0x00, 0x00, 0x00, 0x00, 0x03]),
            CameraCommand::ReadMemory { memory_space, address, length } => Ok(
                read_memory_bytes(*memory_space, *address, *length),
            ),
            CameraCommand::WriteToMemory { address, values } => if values@.len()
                > MAX_WRITE_VALUES {
                Err(EncodingError { length: values@.len() as usize })
            } else {
                Ok(write_to_memory_bytes(*address, values@))
            },
            CameraCommand::ReadMemoHolderInfo => Ok(
                seq![0x01u8, 0x20, 0x88, 0x00, 0x00, 0x00, 0x00, 0x00, 0x03],
            ),
            CameraCommand::IncreaseBaudRate => Ok(
                seq![0x01u8, 0x20, 0x87, 0x05, 0x00, 0x00, 0x00, 0x00, 0x03],
            ),
        }
    }

    /// The bytes that carry this command; fails, before anything is sent,
    /// for a memory write of more than 255 values.
    pub fn encode(&self) -> (r: Result<Vec<u8>, EncodingError>)
        ensures
            match r {
                Ok(bytes) => self.encoded() == Ok::<Seq<u8>, EncodingError>(bytes@),
                Err(e) => self.encoded() == Err::<Seq<u8>, EncodingError>(e),
            },
    {
        match self {
            CameraCommand::Wakeup => {
                let bytes = vec![0x00];
                assert(bytes@ =~= seq![0x00u8]);
                Ok(bytes)
            },
            CameraCommand::UnitInquiry => {
                let bytes = vec![0x53, 0x31, 0x30, 0x30, 0x30, 0x05];
                assert(bytes@ =~= seq![0x53u8, 0x31, 0x30, 0x30, 0x30, 0x05]);
                Ok(bytes)
            },
            CameraCommand::Focus => {
                let bytes = vec![0x01, 0x20, 0x86, 0x00, 0x00, 0x00, 0x00, 0x00, 0x03];
                assert(bytes@ =~= seq![0x01u8, 0x20, 0x86, 0x00, 0x00, 0x00, 0x00, 0x00, 0x03]);
                Ok(bytes)
            },
            CameraCommand::Shoot => {
                let bytes = vec![0x01, 0x20, 0x85, 0x00, 0x00, 0x00, 0x00, 0x00, 0x03];
                assert(bytes@ =~= seq![0x01u8, 0x20, 0x85, 0x00, 0x00, 0x00, 0x00, 0x00, 0x03]);
                Ok(bytes)
            },
            CameraCommand::ReadMemory { memory_space, address, length } => Ok(
                CameraCommand::build_read_memory_command(*memory_space, *address, *length),
            ),
            CameraCommand::WriteToMemory { address, values } => {
                if values.len() > MAX_WRITE_VALUES {
                    Err(EncodingError { length: values.len() })
                } else {
                    Ok(CameraCommand::build_write_to_memory_command(*address, values))
                }
            },
            CameraCommand::ReadMemoHolderInfo => {
                let bytes = vec![0x01, 0x20, 0x88, 0x00, 0x00, 0x00, 0x00, 0x00, 0x03];
                assert(bytes@ =~= seq![0x01u8, 0x20, 0x88, 0x00, 0x00, 0x00, 0x00, 0x00, 0x03]);
                Ok(bytes)
            },
            CameraCommand::IncreaseBaudRate => {
                let bytes = vec![0x01, 0x20, 0x87, 0x05, 0x00, 0x00, 0x00, 0x00, 0x03];
                assert(bytes@ =~= seq![0x01u8, 0x20, 0x87, 0x05, 0x00, 0x00, 0x00, 0x00, 0x03]);
                Ok(bytes)
            },
        }
    }

    /// The bytes that carry this command; empty for a memory write of more
    /// than 255 values, which cannot be sent.
    pub fn get_bytes(&self) -> (r: Vec<u8>)
        ensures
            match self.encoded() {
                Ok(bytes) => r@ == bytes,
                Err(_) => r@.len() == 0,
            },
    {
        match self.encode() {
            Ok(bytes) => bytes,
            Err(_) => Vec::new(),
        }
    }

    fn build_read_memory_command(memory_space: u8, address: u16, length: u8) -> (r: Vec<u8>)
        ensures
            r@ == read_memory_bytes(memory_space, address, length),
    {
        let r = vec![
            0x01,
            0x20,
            0x80,
            memory_space,
            (address / 256) as u8,
            (address % 256) as u8,
            0x00,
            length,
            0x03,
        ];
        assert(r@ =~= read_memory_bytes(memory_space, address, length));
        r
    }

    fn build_write_to_memory_command(address: u16, values: &Vec<u8>) -> (r: Vec<u8>)
        requires
            values@.len() <= MAX_WRITE_VALUES,
        ensures
            r@ == write_to_memory_bytes(address, values@),
    {
        let data_packet = DataPacket { bytes: values.clone() };
        assert(data_packet.bytes@ =~= values@);
        let mut data_packet = data_packet.serialize();
        let mut write_packet = vec![
            0x01,
            0x20,
            0x81,
            0x00,
            (address / 256) as u8,
            (address % 256) as u8,
            0x00,
            values.len() as u8,
        ];
        write_packet.append(&mut data_packet);
        assert(write_packet@ =~= write_to_memory_bytes(address, values@));
        write_packet
    }
}

} // verus!
