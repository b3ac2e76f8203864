use nikon_serial::camera_interface::EXPECTED_UNIT_INQUIRY_RESPONSE;
use nikon_serial::messaging::{CameraCommand, DataPacket, EncodingError, FrameError};

#[test]
fn expected_unit_inquiry_response_should_be_correct() {
    let expected: [u8; 16] = [0x31, 0x30, 0x32, 0x30, 0x46, 0x39, 0x30, 0x58, 0x2F, 0x4E, 0x39, 0x30, 0x53, 0x00, 0x03, 0x06];
    assert_eq!(&expected, &EXPECTED_UNIT_INQUIRY_RESPONSE);
}

#[test]
fn test_read_memory_command() {
    let cmd = CameraCommand::ReadMemory { memory_space: 0xA1, address: 0xB2C3, length: 0xD4 };
    let expected: Vec<u8> = vec![0x01, 0x20, 0x80, 0xA1, 0xB2, 0xC3, 0x00, 0xD4, 0x03];
    assert_eq!(expected, cmd.get_bytes());
}

#[test]
fn test_write_memory_command() {
    let cmd = CameraCommand::WriteToMemory { address: 0xAABB, values: vec![0x0C, 0x0D, 0x0E] };
    let expected: Vec<u8> = vec![
        0x01, 0x20, 0x81,
        0x00,
        0xAA, 0xBB,
        0x00,
        0x03, // length
        0x02, // start
        0x0C, 0x0D, 0x0E, // payload
        0x27, // checksum
        0x03, // end
    ];
    assert_eq!(expected, cmd.get_bytes());
}

#[test]
fn test_write_memory_command_with_large_checksum() {
    let cmd = CameraCommand::WriteToMemory { address: 0x1122, values: vec![0xFA, 0x10] };
    let expected: Vec<u8> = vec![
        0x01, 0x20, 0x81,
        0x00,
        0x11, 0x22,
        0x00,
        0x02, // length
        0x02, // start
        0xFA, 0x10, // payload
        0x0B, // checksum
        0x03, // end
    ];
    assert_eq!(expected, cmd.get_bytes());
}

#[test]
fn write_memory_with_too_many_values_should_return_empty_bytes() {
    let cmd = CameraCommand::WriteToMemory { address: 0xAABB, values: vec![0x00; 256] };
    assert!(cmd.get_bytes().is_empty());
}

#[test]
fn test_unit_inquiry_command() {
    let cmd = CameraCommand::UnitInquiry;
    let expected: Vec<u8> = vec![0x53, 0x31, 0x30, 0x30, 0x30, 0x05];
    assert_eq!(expected, cmd.get_bytes());
}

#[test]
fn test_wakeup_command() {
    let cmd = CameraCommand::Wakeup;
    let expected: Vec<u8> = vec![0x00];
    assert_eq!(expected, cmd.get_bytes());
}

#[test]
fn test_camera_focus_command() {
    let cmd = CameraCommand::Focus;
    let expected: Vec<u8> = vec![0x01, 0x20, 0x86, 0x00, 0x00, 0x00, 0x00, 0x00, 0x03];
    assert_eq!(expected, cmd.get_bytes());
}

#[test]
fn test_camera_shoot_command() {
    let cmd = CameraCommand::Shoot;
    let expected: Vec<u8> = vec![0x01, 0x20, 0x85, 0x00, 0x00, 0x00, 0x00, 0x00, 0x03];
    assert_eq!(expected, cmd.get_bytes());
}

#[test]
fn too_short_data_packet_should_be_error() {
    let packet: Vec<u8> = vec![0x02, 0x00, 0x03];
    assert!(DataPacket::deserialize(&packet).is_err());
}

#[test]
fn data_packet_with_wrong_checksum_should_be_error() {
    let packet: Vec<u8> = vec![0x02, 0x04, 0x03, 0x06, 0x03];
    assert!(DataPacket::deserialize(&packet).is_err());
}

#[test]
fn data_packet_with_wrong_start_should_be_error() {
    let packet: Vec<u8> = vec![0x01, 0x04, 0x03, 0x07, 0x03];
    assert!(DataPacket::deserialize(&packet).is_err());
}

#[test]
fn data_packet_with_wrong_end_should_be_error() {
    let packet: Vec<u8> = vec![0x02, 0x04, 0x03, 0x07, 0x04];
    assert!(DataPacket::deserialize(&packet).is_err());
}

#[test]
fn data_packet_should_be_deserialized_correctly() {
    let expected_payload: Vec<u8> = vec![0x04, 0x03];
    let packet: Vec<u8> = vec![0x02, 0x04, 0x03, 0x07, 0x03];
    let result = DataPacket::deserialize(&packet);
    match result {
        Ok(deserialized) => {
            assert_eq!(&expected_payload, &deserialized.bytes);
        }
        Err(_) => assert!(false),
    }
}

#[test]
fn data_packet_with_large_checksum_should_be_deserialized_correctly() {
    let expected_payload: Vec<u8> = vec![0xFA, 0x0A, 0x04];
    // 250 + 10 + 4: 264 -> 9
    let packet: Vec<u8> = vec![0x02, 0xFA, 0x0A, 0x04, 0x09, 0x03];
    let result = DataPacket::deserialize(&packet);
    match result {
        Ok(deserialized) => {
            assert_eq!(&expected_payload, &deserialized.bytes);
        }
        Err(_) => assert!(false),
    }
}

#[test]
fn data_packet_should_be_serialized_correctly() {
    let packet = DataPacket { bytes: vec![0x04, 0x03] };
    let expected: Vec<u8> = vec![0x02, 0x04, 0x03, 0x07, 0x03];
    assert_eq!(expected, packet.serialize());
}

fn frame_error(data: Vec<u8>) -> Option<FrameError> {
    match DataPacket::deserialize(&data) {
        Ok(_) => None,
        Err(e) => Some(e),
    }
}

#[test]
fn each_frame_error_is_reported() {
    assert_eq!(Some(FrameError::TooShort), frame_error(vec![0x02, 0x00, 0x03]));
    assert_eq!(Some(FrameError::BadStart), frame_error(vec![0x01, 0x04, 0x03, 0x07, 0x03]));
    assert_eq!(Some(FrameError::BadEnd), frame_error(vec![0x02, 0x04, 0x03, 0x07, 0x04]));
    assert_eq!(Some(FrameError::BadChecksum), frame_error(vec![0x02, 0x04, 0x03, 0x06, 0x03]));
}

#[test]
fn sequences_shorter_than_four_bytes_are_too_short() {
    assert_eq!(Some(FrameError::TooShort), frame_error(vec![]));
    assert_eq!(Some(FrameError::TooShort), frame_error(vec![0x02]));
    assert_eq!(Some(FrameError::TooShort), frame_error(vec![0x02, 0x03]));
    assert_eq!(Some(FrameError::TooShort), frame_error(vec![0x02, 0x00, 0x03]));
}

#[test]
fn serialized_payloads_read_back() {
    let payloads: Vec<Vec<u8>> = vec![
        vec![0x00],
        vec![0xFF],
        vec![0x0C, 0x0D, 0x0E],
        vec![0xFF; 255],
        (0..=255).map(|b| b as u8).collect(),
    ];
    for payload in payloads {
        let framed = DataPacket { bytes: payload.clone() }.serialize();
        let read_back = DataPacket::deserialize(&framed).unwrap();
        assert_eq!(payload, read_back.bytes);
    }
}

#[test]
fn checksum_is_reduced_after_every_addition() {
    // 0xFF + 0xFF = 510; 510 mod 255 = 0.
    let framed = DataPacket { bytes: vec![0xFF, 0xFF] }.serialize();
    assert_eq!(vec![0x02, 0xFF, 0xFF, 0x00, 0x03], framed);
    // 0xFE + 0x01 = 255 -> 0; the checksum never reaches 255.
    let framed = DataPacket { bytes: vec![0xFE, 0x01] }.serialize();
    assert_eq!(vec![0x02, 0xFE, 0x01, 0x00, 0x03], framed);
}

#[test]
fn changing_one_byte_of_a_frame_is_detected() {
    let framed = DataPacket { bytes: vec![0x11, 0x22, 0x33] }.serialize();
    for i in 0..framed.len() {
        for v in 0..=255u8 {
            if v == framed[i] {
                continue;
            }
            let mut changed = framed.clone();
            changed[i] = v;
            assert!(DataPacket::deserialize(&changed).is_err(), "byte {} set to {:02X}", i, v);
        }
    }
}

#[test]
fn swapping_zero_and_ff_in_the_payload_keeps_the_checksum() {
    let framed = DataPacket { bytes: vec![0x00, 0x22] }.serialize();
    let mut changed = framed.clone();
    changed[1] = 0xFF;
    let read_back = DataPacket::deserialize(&changed).unwrap();
    assert_eq!(vec![0xFF, 0x22], read_back.bytes);
}

#[test]
fn encode_refuses_more_than_255_values() {
    let cmd = CameraCommand::WriteToMemory { address: 0xAABB, values: vec![0x00; 256] };
    assert_eq!(Err(EncodingError { length: 256 }), cmd.encode());
}

#[test]
fn encode_accepts_exactly_255_values() {
    let cmd = CameraCommand::WriteToMemory { address: 0x0102, values: vec![0x01; 255] };
    let bytes = cmd.encode().unwrap();
    assert_eq!(8 + 255 + 3, bytes.len());
    assert_eq!(&[0x01, 0x20, 0x81, 0x00, 0x01, 0x02, 0x00, 0xFF, 0x02], &bytes[..9]);
    // 255 ones: the running sum returns to 0 at every 255th byte.
    assert_eq!(&[0x00, 0x03], &bytes[bytes.len() - 2..]);
}

#[test]
fn encode_gives_the_same_bytes_as_get_bytes() {
    let cmd = CameraCommand::ReadMemory { memory_space: 0, address: 0xFD00, length: 4 };
    assert_eq!(Ok(vec![0x01, 0x20, 0x80, 0x00, 0xFD, 0x00, 0x00, 0x04, 0x03]), cmd.encode());
    let cmd = CameraCommand::WriteToMemory { address: 0xAABB, values: vec![] };
    assert_eq!(Ok(vec![0x01, 0x20, 0x81, 0x00, 0xAA, 0xBB, 0x00, 0x00, 0x02, 0x00, 0x03]), cmd.encode());
}

#[test]
fn fixed_commands_have_their_op_codes() {
    assert_eq!(vec![0x01, 0x20, 0x87, 0x05, 0x00, 0x00, 0x00, 0x00, 0x03], CameraCommand::IncreaseBaudRate.get_bytes());
    assert_eq!(vec![0x01, 0x20, 0x88, 0x00, 0x00, 0x00, 0x00, 0x00, 0x03], CameraCommand::ReadMemoHolderInfo.get_bytes());
}
