//! Where the camera keeps its shooting data, and how it is set up: decoding of
//! the memory areas that describe the memo holder and its ring buffer.

use crate::camera_interface::{
    packet_payload, performed, status, BcdError, CameraError, RangeError, SerialCameraConnection,
    SerialInterface, Step,
};
use crate::camera_interface::{lemma_performed_stopped, lemma_performed_then, Exchange};
use crate::messaging::{read_memory_bytes, CameraCommand, DataPacket};
use vstd::prelude::*;

verus! {

/// Where the ring buffer's bounds are kept.
pub const RING_BUFFER_ADDRESS: u16 = 0xFD00;

/// Where the memo holder setting is kept.
pub const MEMO_HOLDER_SETTING_ADDRESS: u16 = 0xFD40;

/// Where the memo holder's pointers are kept.
pub const MEMO_HOLDER_ADDRESSES_ADDRESS: u16 = 0xFD42;

/// The bit of the setting byte that says the memo holder stores anything.
pub const MEMO_HOLDER_ENABLED_FLAG: u8 = 0x40;

/// How much the memo holder stores for each frame.
#[derive(Debug, Clone, Copy, PartialEq, Eq, Structural)]
pub enum MemoHolderSetting {
    DoNotStore,
    Minimum,
    Intermediate,
    Full,
}

impl MemoHolderSetting {
    /// The number of bytes stored for each frame.
    pub open spec fn bytes_per_frame(self) -> u8 {
        match self {
            MemoHolderSetting::DoNotStore => 0,
            MemoHolderSetting::Minimum => 2,
            MemoHolderSetting::Intermediate => 4,
            MemoHolderSetting::Full => 6,
        }
    }

    pub fn get_bytes_per_frame(&self) -> (r: u8)
        ensures
            r == self.bytes_per_frame(),
    {
        match self {
            MemoHolderSetting::DoNotStore => 0,
            MemoHolderSetting::Minimum => 2,
            MemoHolderSetting::Intermediate => 4,
            MemoHolderSetting::Full => 6,
        }
    }
}

/// The roll being recorded and how many bytes it holds so far.
#[derive(Debug, Clone, Copy, PartialEq, Eq, Structural)]
pub struct MemoHolderInfo {
    pub roll_id: u16,
    pub bytes_to_read: u16,
}

/// The bounds of the ring buffer that holds the shooting data.
#[derive(Debug, Clone, Copy, PartialEq, Eq, Structural)]
pub struct RingBufferAddresses {
    pub start: u16,
    pub end: u16,
}

/// Pointers into the memo holder area.
#[derive(Debug, Clone, Copy, PartialEq, Eq, Structural)]
pub struct MemoHolderAddresses {
    pub start: u16,
    pub current_roll_start: u16,
    pub current: u16,
}

/// The little-endian 16-bit value at `offset`, or the range error when fewer
/// than two bytes are there.
pub open spec fn le_u16_at(bytes: Seq<u8>, offset: int) -> Result<u16, CameraError> {
    if offset + 1 >= bytes.len() {
        Err(CameraError::Range(RangeError { offset: offset as usize, length: bytes.len() as usize }))
    } else {
        Ok((bytes[offset] + 256 * bytes[offset + 1]) as u16)
    }
}

/// The `k`-th 4-bit digit of a value, least significant first.
pub open spec fn nibble(value: u16, k: nat) -> int {
    (value as int / place16(k)) % 16
}

/// The place value of the `k`-th 4-bit digit of a 16-bit value.
pub open spec fn place16(k: nat) -> int {
    if k == 0 {
        1
    } else if k == 1 {
        16
    } else if k == 2 {
        256
    } else {
        4096
    }
}

/// The value of four binary-coded decimal digits, or the error when a digit
/// is above 9.
pub open spec fn bcd_value(encoded: u16) -> Result<u16, CameraError> {
    if nibble(encoded, 0) > 9 || nibble(encoded, 1) > 9 || nibble(encoded, 2) > 9 || nibble(
        encoded,
        3,
    ) > 9 {
        Err(CameraError::Bcd(BcdError { encoded }))
    } else {
        Ok(
            (nibble(encoded, 0) + 10 * nibble(encoded, 1) + 100 * nibble(encoded, 2) + 1000
                * nibble(encoded, 3)) as u16,
        )
    }
}

/// The memo holder setting that a setting byte stands for: nothing is stored
/// while the enabled flag is clear; with it set, only three values are known.
pub open spec fn setting_of(value: u8) -> Result<MemoHolderSetting, CameraError> {
    if value & MEMO_HOLDER_ENABLED_FLAG == 0 {
        Ok(MemoHolderSetting::DoNotStore)
    } else if value == 0x45 {
        Ok(MemoHolderSetting::Minimum)
    } else if value == 0x4E {
        Ok(MemoHolderSetting::Intermediate)
    } else if value == 0x5F {
        Ok(MemoHolderSetting::Full)
    } else {
        Err(CameraError::UnknownSetting(value))
    }
}

/// Reads a little-endian 16-bit value at the given offset.
pub fn read_little_endian_u16(bytes: &Vec<u8>, start_index: usize) -> (r: Result<u16, CameraError>)
    ensures
        r == le_u16_at(bytes@, start_index as int),
{
    if bytes.len() < 2 || start_index > bytes.len() - 2 {
        return Err(
            CameraError::Range(RangeError { offset: start_index, length: bytes.len() }),
        );
    }
    let low = bytes[start_index] as u16;
    let high = bytes[start_index + 1] as u16;
    Ok(low + high * 256)
}

/// Reads four binary-coded decimal digits.
pub fn read_4_digit_bcd(encoded: u16) -> (r: Result<u16, CameraError>)
    ensures
        r == bcd_value(encoded),
{
    let digits: [u16; 4] = [
        encoded % 16,
        (encoded / 16) % 16,
        (encoded / 256) % 16,
        (encoded / 4096) % 16,
    ];
    let mut i: usize = 0;
    while i < 4
        invariant
            0 <= i <= 4,
            forall|k: int| 0 <= k < 4 ==> digits[k] as int == nibble(encoded, k as nat),
            forall|k: int| 0 <= k < i ==> digits[k] <= 9,
        decreases 4 - i,
    {
        if digits[i] > 9 {
            return Err(CameraError::Bcd(BcdError { encoded }));
        }
        i += 1;
    }
    Ok(digits[0] + digits[1] * 10 + digits[2] * 100 + digits[3] * 1000)
}

/// Decodes the memo holder setting byte.
pub fn memo_holder_setting_from_byte(value: u8) -> (r: Result<MemoHolderSetting, CameraError>)
    ensures
        r == setting_of(value),
{
    if value & MEMO_HOLDER_ENABLED_FLAG == 0 {
        return Ok(MemoHolderSetting::DoNotStore);
    }
    match value {
        0x45 => Ok(MemoHolderSetting::Minimum),
        0x4E => Ok(MemoHolderSetting::Intermediate),
        0x5F => Ok(MemoHolderSetting::Full),
        _ => Err(CameraError::UnknownSetting(value)),
    }
}

/// The steps of a query: send the request, then read a data packet with a
/// payload of `length` bytes.
pub open spec fn query_steps(request: Seq<u8>, length: nat) -> Seq<Step> {
    seq![Step::Send(request), Step::ReadPacket(length)]
}

/// The steps of reading `length` bytes at `address` of memory space 0.
pub open spec fn memory_query_steps(address: u16, length: u8) -> Seq<Step> {
    query_steps(read_memory_bytes(0, address, length), length as nat)
}

/// The ring buffer bounds held in a payload: start, then end.
pub open spec fn ring_buffer_addresses_from(p: Seq<u8>) -> Result<RingBufferAddresses, CameraError> {
    match le_u16_at(p, 0) {
        Err(e) => Err(e),
        Ok(start) => match le_u16_at(p, 2) {
            Err(e) => Err(e),
            Ok(end) => Ok(RingBufferAddresses { start, end }),
        },
    }
}

/// The memo holder pointers held in a payload: current, start, then the
/// start of the current roll.
pub open spec fn memo_holder_addresses_from(p: Seq<u8>) -> Result<MemoHolderAddresses, CameraError> {
    match le_u16_at(p, 0) {
        Err(e) => Err(e),
        Ok(current) => match le_u16_at(p, 2) {
            Err(e) => Err(e),
            Ok(start) => match le_u16_at(p, 4) {
                Err(e) => Err(e),
                Ok(current_roll_start) => Ok(MemoHolderAddresses { start, current_roll_start, current }),
            },
        },
    }
}

/// The memo holder setting held in the first byte of a payload.
pub open spec fn memo_holder_setting_from(p: Seq<u8>) -> Result<MemoHolderSetting, CameraError> {
    if p.len() == 0 {
        Err(CameraError::Range(RangeError { offset: 0, length: 0 }))
    } else {
        setting_of(p[0])
    }
}

/// The memo holder info held in a payload: the byte count at offset 2, and
/// the roll number, in binary-coded decimal, at offset 0.
pub open spec fn memo_holder_info_from(p: Seq<u8>) -> Result<MemoHolderInfo, CameraError> {
    match le_u16_at(p, 2) {
        Err(e) => Err(e),
        Ok(bytes_to_read) => match le_u16_at(p, 0) {
            Err(e) => Err(e),
            Ok(raw) => match bcd_value(raw) {
                Err(e) => Err(e),
                Ok(roll_id) => Ok(MemoHolderInfo { roll_id, bytes_to_read }),
            },
        },
    }
}

/// What a query returns: the decoded payload when every step went through,
/// else the failure of the step that stopped it.
pub open spec fn query_result<A>(
    steps: Seq<Step>,
    before: Seq<Exchange>,
    after: Seq<Exchange>,
    decoded: Result<A, CameraError>,
    r: Result<A, CameraError>,
) -> bool {
    if performed(steps, before, after, Ok(())) {
        r == decoded
    } else {
        performed(steps, before, after, status(r))
    }
}

/// Sends a request and reads the data packet that answers it.
pub(crate) fn query<S: SerialInterface>(
    camera: &mut SerialCameraConnection<S>,
    command: &CameraCommand,
    length: u8,
) -> (r: Result<DataPacket, CameraError>)
    requires
        command.encoded() is Ok,
    ensures
        performed(
            query_steps(command.encoded()->Ok_0, length as nat),
            old(camera).exchanges(),
            final(camera).exchanges(),
            status(r),
        ),
        r is Ok ==> r->Ok_0.bytes@ == packet_payload(final(camera).exchanges().last()),
{
    let ghost steps = query_steps(command.encoded()->Ok_0, length as nat);
    let ghost t0 = camera.exchanges();
    let sent = camera.send_command(command);
    if let Err(e) = sent {
        proof {
            assert(steps.subrange(0, 1) =~= seq![steps[0]]);
            lemma_performed_stopped(seq![steps[0]], steps, t0, camera.exchanges(), e);
        }
        return Err(e);
    }
    let ghost t1 = camera.exchanges();
    let packet = camera.expect_data_packet(length);
    proof {
        lemma_performed_then(seq![steps[0]], seq![steps[1]], t0, t1, camera.exchanges(), status(packet));
        assert(seq![steps[0]] + seq![steps[1]] =~= steps);
    }
    packet
}

/// Reads the bounds of the ring buffer.
pub fn get_ring_buffer_addresses<S: SerialInterface>(camera: &mut SerialCameraConnection<S>) -> (r:
    Result<RingBufferAddresses, CameraError>)
    ensures
        query_result(
            memory_query_steps(RING_BUFFER_ADDRESS, 4),
            old(camera).exchanges(),
            final(camera).exchanges(),
            ring_buffer_addresses_from(packet_payload(final(camera).exchanges().last())),
            r,
        ),
{
    let command = CameraCommand::ReadMemory {
        memory_space: 0,
        address: RING_BUFFER_ADDRESS,
        length: 4,
    };
    let data_packet = match query(camera, &command, 4) {
        Ok(packet) => packet,
        Err(e) => return Err(e),
    };
    let start = match read_little_endian_u16(&data_packet.bytes, 0) {
        Ok(v) => v,
        Err(e) => return Err(e),
    };
    let end = match read_little_endian_u16(&data_packet.bytes, 2) {
        Ok(v) => v,
        Err(e) => return Err(e),
    };
    Ok(RingBufferAddresses { start, end })
}

/// Reads the memo holder's pointers.
pub fn get_memo_holder_addresses<S: SerialInterface>(camera: &mut SerialCameraConnection<S>) -> (r:
    Result<MemoHolderAddresses, CameraError>)
    ensures
        query_result(
            memory_query_steps(MEMO_HOLDER_ADDRESSES_ADDRESS, 6),
            old(camera).exchanges(),
            final(camera).exchanges(),
            memo_holder_addresses_from(packet_payload(final(camera).exchanges().last())),
            r,
        ),
{
    let command = CameraCommand::ReadMemory {
        memory_space: 0,
        address: MEMO_HOLDER_ADDRESSES_ADDRESS,
        length: 6,
    };
    let data_packet = match query(camera, &command, 6) {
        Ok(packet) => packet,
        Err(e) => return Err(e),
    };
    let current = match read_little_endian_u16(&data_packet.bytes, 0) {
        Ok(v) => v,
        Err(e) => return Err(e),
    };
    let start = match read_little_endian_u16(&data_packet.bytes, 2) {
        Ok(v) => v,
        Err(e) => return Err(e),
    };
    let current_roll_start = match read_little_endian_u16(&data_packet.bytes, 4) {
        Ok(v) => v,
        Err(e) => return Err(e),
    };
    Ok(MemoHolderAddresses { start, current_roll_start, current })
}

/// Reads the memo holder setting.
pub fn get_memo_holder_setting<S: SerialInterface>(camera: &mut SerialCameraConnection<S>) -> (r:
    Result<MemoHolderSetting, CameraError>)
    ensures
        query_result(
            memory_query_steps(MEMO_HOLDER_SETTING_ADDRESS, 1),
            old(camera).exchanges(),
            final(camera).exchanges(),
            memo_holder_setting_from(packet_payload(final(camera).exchanges().last())),
            r,
        ),
{
    let command = CameraCommand::ReadMemory {
        memory_space: 0,
        address: MEMO_HOLDER_SETTING_ADDRESS,
        length: 1,
    };
    let data_packet = match query(camera, &command, 1) {
        Ok(packet) => packet,
        Err(e) => return Err(e),
    };
    if data_packet.bytes.len() == 0 {
        return Err(CameraError::Range(RangeError { offset: 0, length: 0 }));
    }
    memo_holder_setting_from_byte(data_packet.bytes[0])
}

/// Reads the roll number and byte count of the memo holder.
pub fn get_memo_holder_info<S: SerialInterface>(camera: &mut SerialCameraConnection<S>) -> (r:
    Result<MemoHolderInfo, CameraError>)
    ensures
        query_result(
            query_steps(CameraCommand::ReadMemoHolderInfo.encoded()->Ok_0, 4),
            old(camera).exchanges(),
            final(camera).exchanges(),
            memo_holder_info_from(packet_payload(final(camera).exchanges().last())),
            r,
        ),
{
    let data_packet = match query(camera, &CameraCommand::ReadMemoHolderInfo, 4) {
        Ok(packet) => packet,
        Err(e) => return Err(e),
    };
    let bytes_to_read = match read_little_endian_u16(&data_packet.bytes, 2) {
        Ok(v) => v,
        Err(e) => return Err(e),
    };
    let roll_id_raw = match read_little_endian_u16(&data_packet.bytes, 0) {
        Ok(v) => v,
        Err(e) => return Err(e),
    };
    let roll_id = match read_4_digit_bcd(roll_id_raw) {
        Ok(v) => v,
        Err(e) => return Err(e),
    };
    Ok(MemoHolderInfo { roll_id, bytes_to_read })
}

} // verus!
