use audiolink::pipewire::{
    can_deinterleave, deinterleave, startup_outcome, PipewireIncomingMessage,
    PipewireOutgoingMessage, StartupError,
};

fn bytes_of(samples: &[f32]) -> Vec<u8> {
    let mut bytes = Vec::new();
    for sample in samples {
        bytes.extend_from_slice(&sample.to_le_bytes());
    }
    bytes
}

fn floats(words: &[u32]) -> Vec<f32> {
    words.iter().map(|word| f32::from_bits(*word)).collect()
}

#[test]
fn a_word_is_read_least_significant_byte_first() {
    let (left, right) = deinterleave(&[0x78, 0x56, 0x34, 0x12], 1, 4);
    assert_eq!(left, vec![0x12345678]);
    assert_eq!(right, Vec::<u32>::new());
    let (left, _) = deinterleave(&[0xff, 0xff, 0xff, 0xff], 1, 4);
    assert_eq!(left, vec![u32::MAX]);
    let (left, _) = deinterleave(&[0x00, 0x00, 0x80, 0x3f], 1, 4);
    assert_eq!(floats(&left), vec![1.0]);
}

#[test]
fn stereo_buffer_splits_into_left_and_right() {
    let bytes = bytes_of(&[1.0, 10.0, 2.0, 20.0, 3.0, 30.0]);
    let (left, right) = deinterleave(&bytes, 2, 24);
    assert_eq!(floats(&left), vec![1.0, 2.0, 3.0]);
    assert_eq!(floats(&right), vec![10.0, 20.0, 30.0]);
}

#[test]
fn mono_buffer_has_no_right_block() {
    let bytes = bytes_of(&[1.0, 2.0, 3.0]);
    let (left, right) = deinterleave(&bytes, 1, 12);
    assert_eq!(floats(&left), vec![1.0, 2.0, 3.0]);
    assert!(right.is_empty());
}

#[test]
fn no_channels_give_no_blocks() {
    let (left, right) = deinterleave(&[1, 2, 3], 0, 400);
    assert!(left.is_empty());
    assert!(right.is_empty());
}

#[test]
fn channels_beyond_the_second_are_dropped() {
    let bytes = bytes_of(&[1.0, 10.0, 100.0, 2.0, 20.0, 200.0]);
    let (left, right) = deinterleave(&bytes, 3, 24);
    assert_eq!(floats(&left), vec![1.0, 2.0]);
    assert_eq!(floats(&right), vec![10.0, 20.0]);
}

#[test]
fn a_last_frame_may_be_incomplete() {
    let bytes = bytes_of(&[1.0, 10.0, 2.0]);
    let (left, right) = deinterleave(&bytes, 2, 12);
    assert_eq!(floats(&left), vec![1.0, 2.0]);
    assert_eq!(floats(&right), vec![10.0]);
}

#[test]
fn chunk_size_counts_whole_samples_only() {
    let bytes = bytes_of(&[1.0, 10.0, 2.0, 20.0]);
    let (left, right) = deinterleave(&bytes, 2, 11);
    assert_eq!(floats(&left), vec![1.0]);
    assert_eq!(floats(&right), vec![10.0]);
    let (left, right) = deinterleave(&bytes, 2, 3);
    assert!(left.is_empty());
    assert!(right.is_empty());
}

#[test]
fn more_channels_than_samples() {
    let bytes = bytes_of(&[7.0]);
    let (left, right) = deinterleave(&bytes, 2, 4);
    assert_eq!(floats(&left), vec![7.0]);
    assert!(right.is_empty());
    let (left, right) = deinterleave(&bytes, u32::MAX, 4);
    assert_eq!(floats(&left), vec![7.0]);
    assert!(right.is_empty());
}

#[test]
fn a_buffer_must_hold_its_chunk() {
    let bytes = bytes_of(&[1.0, 2.0]);
    assert!(can_deinterleave(&bytes, 2, 8));
    assert!(can_deinterleave(&bytes, 2, 7));
    assert!(can_deinterleave(&bytes, 2, 11));
    assert!(!can_deinterleave(&bytes, 2, 12));
    assert!(!can_deinterleave(&bytes, 1, u32::MAX));
    assert!(can_deinterleave(&bytes, 0, u32::MAX));
    assert!(can_deinterleave(&[], 5, 3));
}

#[test]
fn ready_ends_startup_well() {
    assert_eq!(startup_outcome(Some(PipewireIncomingMessage::<f32>::Ready)), Ok(()));
}

#[test]
fn data_before_ready_ends_startup_well() {
    assert_eq!(startup_outcome(Some(PipewireIncomingMessage::LeftChannelData(vec![0.5f32]))), Ok(()));
    assert_eq!(
        startup_outcome(Some(PipewireIncomingMessage::RightChannelData(Vec::<f32>::new()))),
        Ok(())
    );
}

#[test]
fn an_error_fails_startup_with_its_cause() {
    let first = PipewireIncomingMessage::<f32>::Error(String::from("no device"));
    assert_eq!(startup_outcome(Some(first)), Err(StartupError::Worker(String::from("no device"))));
}

#[test]
fn a_closed_transport_fails_startup() {
    assert_eq!(startup_outcome::<f32>(None), Err(StartupError::Disconnected));
}

#[test]
fn terminate_is_the_only_command() {
    let command = PipewireOutgoingMessage::Terminate;
    assert!(matches!(command, PipewireOutgoingMessage::Terminate));
    assert_eq!(command, PipewireOutgoingMessage::Terminate);
}
