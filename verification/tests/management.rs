use webgateway::shared::mnt_protocols::{
    encode_varint, write_zigzag_varint, VarintStep, ZigZagVarintReader,
};

fn read_all(bytes: &[u8]) -> Vec<VarintStep> {
    let mut reader = ZigZagVarintReader::new();
    bytes.iter().map(|b| reader.feed(*b)).collect()
}

#[test]
fn numbers_are_written_in_groups_of_seven_bits() {
    assert_eq!(encode_varint(0), vec![0x00]);
    assert_eq!(encode_varint(1), vec![0x01]);
    assert_eq!(encode_varint(127), vec![0x7f]);
    assert_eq!(encode_varint(128), vec![0x80, 0x01]);
    assert_eq!(encode_varint(300), vec![0xac, 0x02]);
    assert_eq!(encode_varint(u64::MAX), vec![0xff; 9].into_iter().chain([0x01]).collect::<Vec<u8>>());
}

#[test]
fn lengths_are_written_doubled() {
    assert_eq!(write_zigzag_varint(0), vec![0x00]);
    assert_eq!(write_zigzag_varint(1), vec![0x02]);
    assert_eq!(write_zigzag_varint(64), vec![0x80, 0x01]);
    assert_eq!(write_zigzag_varint(150), vec![0xac, 0x02]);
    // the highest bit comes round to the lowest place
    assert_eq!(write_zigzag_varint(1u64 << 63), vec![0x01]);
}

#[test]
fn lengths_are_read_byte_by_byte() {
    assert_eq!(read_all(&[0x00]), vec![VarintStep::Done(0)]);
    assert_eq!(read_all(&[0x02]), vec![VarintStep::Done(1)]);
    assert_eq!(read_all(&[0xac, 0x02]), vec![VarintStep::More, VarintStep::Done(150)]);
    // an odd number: the half, with its lowest bit turned over
    assert_eq!(read_all(&[0x03]), vec![VarintStep::Done(0)]);
    assert_eq!(read_all(&[0x05]), vec![VarintStep::Done(3)]);
}

#[test]
fn written_lengths_are_read_back() {
    for value in [0u64, 1, 2, 63, 64, 127, 128, 4096, 1 << 20, (1 << 32) + 5, (1 << 63) - 1] {
        let bytes = write_zigzag_varint(value);
        let steps = read_all(&bytes);
        assert_eq!(steps.last(), Some(&VarintStep::Done(value)), "{}", value);
        assert!(steps[..steps.len() - 1].iter().all(|s| *s == VarintStep::More));
    }
}

#[test]
fn reader_starts_afresh_after_a_number() {
    let mut reader = ZigZagVarintReader::new();
    assert_eq!(reader.feed(0x80), VarintStep::More);
    assert_eq!(reader.feed(0x01), VarintStep::Done(64));
    assert_eq!(reader.feed(0x04), VarintStep::Done(2));
}

#[test]
fn eleven_bytes_are_too_long() {
    let steps = read_all(&[0x80; 10]);
    assert_eq!(&steps[..9], &[VarintStep::More; 9]);
    assert_eq!(steps[9], VarintStep::TooLong);
    // ten bytes are a number of 64 bits, cut to them
    let mut bytes = vec![0xff; 9];
    bytes.push(0x7f);
    assert_eq!(read_all(&bytes).last(), Some(&VarintStep::Done((u64::MAX >> 1) - 1)));
}
