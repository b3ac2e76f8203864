use std::cell::RefCell;
use std::collections::VecDeque;
use std::rc::Rc;

use nikon_serial::camera_interface::{
    BcdError, CameraError, RangeError, SerialCameraConnection, SerialInterface, TransportError,
};
use nikon_serial::messaging::{CameraCommand, DataPacket};
use nikon_serial::shooting_data::{
    get_memo_holder_addresses, get_memo_holder_info, get_memo_holder_setting,
    get_ring_buffer_addresses, memo_holder_setting_from_byte, read_4_digit_bcd,
    read_little_endian_u16, MemoHolderSetting,
};

/// A transport that answers reads from a script and records what was
/// written and how much was read.
struct ScriptedSerial {
    reads: VecDeque<Result<Vec<u8>, TransportError>>,
    written: Rc<RefCell<Vec<Vec<u8>>>>,
    read_lengths: Rc<RefCell<Vec<usize>>>,
}

impl SerialInterface for ScriptedSerial {
    fn read(&mut self, length: usize) -> Result<Vec<u8>, TransportError> {
        self.read_lengths.borrow_mut().push(length);
        self.reads.pop_front().unwrap_or(Err(TransportError::Timeout))
    }

    fn write(&mut self, data: &Vec<u8>) -> Result<(), TransportError> {
        self.written.borrow_mut().push(data.clone());
        Ok(())
    }

    fn clear_input(&mut self) -> Result<Vec<u8>, TransportError> {
        Ok(Vec::new())
    }

    fn set_baud_rate(&mut self, _baud_rate: u32) -> Result<(), TransportError> {
        Ok(())
    }

    fn delay(&mut self, _milliseconds: u64) {}
}

struct Probe {
    camera: SerialCameraConnection<ScriptedSerial>,
    written: Rc<RefCell<Vec<Vec<u8>>>>,
    read_lengths: Rc<RefCell<Vec<usize>>>,
}

/// A camera that answers the next read with the given payload, framed.
fn camera_answering(payload: Vec<u8>) -> Probe {
    let written = Rc::new(RefCell::new(Vec::new()));
    let read_lengths = Rc::new(RefCell::new(Vec::new()));
    let serial = ScriptedSerial {
        reads: vec![Ok(DataPacket { bytes: payload }.serialize())].into_iter().collect(),
        written: written.clone(),
        read_lengths: read_lengths.clone(),
    };
    Probe { camera: SerialCameraConnection::new(serial), written, read_lengths }
}

fn read_memory_request(address: u16, length: u8) -> Vec<u8> {
    CameraCommand::ReadMemory { memory_space: 0, address, length }.get_bytes()
}

#[test]
fn should_read_ring_buffer_addresses_correctly() {
    let mut probe = camera_answering(vec![0xAB, 0xCD, 0x12, 0x34]);
    let result = get_ring_buffer_addresses(&mut probe.camera).unwrap();
    assert_eq!(result.start, 0xCDAB);
    assert_eq!(result.end, 0x3412);
    assert_eq!(vec![read_memory_request(0xFD00, 4)], *probe.written.borrow());
    assert_eq!(vec![4 + 3], *probe.read_lengths.borrow());
}

#[test]
fn should_read_shooting_data_addresses_correctly() {
    let mut probe = camera_answering(vec![0x98, 0x76, 0xAB, 0xCD, 0x12, 0x34]);
    let result = get_memo_holder_addresses(&mut probe.camera).unwrap();
    assert_eq!(result.start, 0xCDAB);
    assert_eq!(result.current_roll_start, 0x3412);
    assert_eq!(result.current, 0x7698);
    assert_eq!(vec![read_memory_request(0xFD42, 6)], *probe.written.borrow());
    assert_eq!(vec![6 + 3], *probe.read_lengths.borrow());
}

#[test]
fn frame_length_for_no_data_should_be_correct() {
    let setting = MemoHolderSetting::DoNotStore;
    assert_eq!(0, setting.get_bytes_per_frame());
}

#[test]
fn frame_length_for_minimum_data_should_be_correct() {
    let setting = MemoHolderSetting::Minimum;
    assert_eq!(2, setting.get_bytes_per_frame());
}

#[test]
fn frame_length_for_intermediate_data_should_be_correct() {
    let setting = MemoHolderSetting::Intermediate;
    assert_eq!(4, setting.get_bytes_per_frame());
}

#[test]
fn frame_length_for_full_data_should_be_correct() {
    let setting = MemoHolderSetting::Full;
    assert_eq!(6, setting.get_bytes_per_frame());
}

fn memo_holder_setting_test(camera_value: u8, expected_result: MemoHolderSetting) {
    let mut probe = camera_answering(vec![camera_value]);
    let result = get_memo_holder_setting(&mut probe.camera).unwrap();
    assert_eq!(expected_result, result);
    assert_eq!(vec![read_memory_request(0xFD40, 1)], *probe.written.borrow());
    assert_eq!(vec![1 + 3], *probe.read_lengths.borrow());
}

#[test]
fn should_read_disabled_memo_holder_settings_correctly() {
    memo_holder_setting_test(0x00, MemoHolderSetting::DoNotStore);
    memo_holder_setting_test(0x05, MemoHolderSetting::DoNotStore);
    memo_holder_setting_test(0x0E, MemoHolderSetting::DoNotStore);
    memo_holder_setting_test(0x1F, MemoHolderSetting::DoNotStore);
}

#[test]
fn should_read_minimum_memo_holder_setting_correctly() {
    memo_holder_setting_test(0x45, MemoHolderSetting::Minimum);
}

#[test]
fn should_read_intermediate_memo_holder_setting_correctly() {
    memo_holder_setting_test(0x4E, MemoHolderSetting::Intermediate);
}

#[test]
fn should_read_full_memo_holder_setting_correctly() {
    memo_holder_setting_test(0x5F, MemoHolderSetting::Full);
}

#[test]
fn should_raise_error_on_unknown_memo_holder_setting_with_enabled_flag() {
    let mut probe = camera_answering(vec![0x41]);
    let result = get_memo_holder_setting(&mut probe.camera);
    assert!(result.is_err());
}

#[test]
fn memo_holder_setting_decodes_every_byte() {
    for value in 0..=255u8 {
        let expected = if value & 0x40 == 0 {
            Ok(MemoHolderSetting::DoNotStore)
        } else if value == 0x45 {
            Ok(MemoHolderSetting::Minimum)
        } else if value == 0x4E {
            Ok(MemoHolderSetting::Intermediate)
        } else if value == 0x5F {
            Ok(MemoHolderSetting::Full)
        } else {
            Err(CameraError::UnknownSetting(value))
        };
        assert_eq!(expected, memo_holder_setting_from_byte(value), "value {:02X}", value);
    }
    // The flag decides even where the other bits match a known value.
    assert_eq!(Ok(MemoHolderSetting::DoNotStore), memo_holder_setting_from_byte(0x05));
    assert_eq!(Ok(MemoHolderSetting::DoNotStore), memo_holder_setting_from_byte(0x1F));
    assert_eq!(Err(CameraError::UnknownSetting(0x41)), memo_holder_setting_from_byte(0x41));
}

#[test]
fn should_read_little_endian_u16_correctly() {
    let bytes: Vec<u8> = vec![0x12, 0x34, 0x56, 0x78];
    assert_eq!(0x7856, read_little_endian_u16(&bytes, 2).unwrap());

    let bytes: Vec<u8> = vec![0x12, 0x34];
    assert_eq!(0x3412, read_little_endian_u16(&bytes, 0).unwrap());
}

#[test]
fn should_return_error_if_not_enough_bytes_for_little_endian_u16() {
    let bytes: Vec<u8> = vec![0x11];
    assert!(read_little_endian_u16(&bytes, 0).is_err());
}

#[test]
fn should_return_error_if_not_enough_bytes_remaining_for_little_endian_u16() {
    let bytes: Vec<u8> = vec![0xAA, 0xBB, 0xCC];
    assert!(read_little_endian_u16(&bytes, 2).is_err());
}

#[test]
fn little_endian_u16_reports_the_range() {
    let bytes: Vec<u8> = vec![0xAA, 0xBB, 0xCC];
    assert_eq!(
        Err(CameraError::Range(RangeError { offset: 2, length: 3 })),
        read_little_endian_u16(&bytes, 2)
    );
    assert_eq!(
        Err(CameraError::Range(RangeError { offset: usize::MAX, length: 3 })),
        read_little_endian_u16(&bytes, usize::MAX)
    );
    assert_eq!(
        Err(CameraError::Range(RangeError { offset: 0, length: 0 })),
        read_little_endian_u16(&Vec::new(), 0)
    );
    assert_eq!(Ok(0xFFFF), read_little_endian_u16(&vec![0xFF, 0xFF], 0));
}

#[test]
fn should_read_4_digit_bcd_correctly() {
    let encoded: u16 = 0x3162;
    assert_eq!(3162, read_4_digit_bcd(encoded).unwrap());
}

#[test]
fn should_return_error_if_4_digit_bcd_is_invalid() {
    let encoded: u16 = 0x101A;
    assert!(read_4_digit_bcd(encoded).is_err());
}

#[test]
fn bcd_edges() {
    assert_eq!(Ok(0), read_4_digit_bcd(0x0000));
    assert_eq!(Ok(9999), read_4_digit_bcd(0x9999));
    assert_eq!(Ok(1337), read_4_digit_bcd(0x1337));
    for bad in [0x000A, 0x00A0, 0x0A00, 0xA000, 0xFFFF] {
        assert_eq!(Err(CameraError::Bcd(BcdError { encoded: bad })), read_4_digit_bcd(bad));
    }
}

#[test]
fn should_read_memo_holder_info_correctly() {
    let mut probe = camera_answering(vec![0x37, 0x13, 0xCD, 0xAB]);
    let result = get_memo_holder_info(&mut probe.camera).unwrap();
    assert_eq!(result.roll_id, 1337);
    assert_eq!(result.bytes_to_read, 0xABCD);
    assert_eq!(vec![CameraCommand::ReadMemoHolderInfo.get_bytes()], *probe.written.borrow());
    assert_eq!(vec![4 + 3], *probe.read_lengths.borrow());
}

#[test]
fn memo_holder_info_with_bad_roll_number_fails() {
    let mut probe = camera_answering(vec![0x3A, 0x13, 0xCD, 0xAB]);
    assert_eq!(
        Err(CameraError::Bcd(BcdError { encoded: 0x133A })),
        get_memo_holder_info(&mut probe.camera)
    );
}

#[test]
fn short_payload_is_a_range_error() {
    let mut probe = camera_answering(vec![0xAB, 0xCD, 0x12]);
    assert_eq!(
        Err(CameraError::Range(RangeError { offset: 2, length: 3 })),
        get_ring_buffer_addresses(&mut probe.camera)
    );
}
