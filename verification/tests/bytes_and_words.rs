use negicon_hub::bytes::{make_i16, make_u16, make_u32, split_i16, split_u16, split_u32};
use negicon_hub::waveform::{frame_words, words_frame, Reception};

#[test]
fn make_and_split_sixteen_bits() {
    assert_eq!(make_u16(0x12, 0x34), 0x1234);
    assert_eq!(make_u16(0xff, 0xff), 0xffff);
    assert_eq!(split_u16(0x1234), (0x12, 0x34));
    assert_eq!(make_i16(0xff, 0xfe), -2);
    assert_eq!(make_i16(0x80, 0x00), i16::MIN);
    assert_eq!(make_i16(0x7f, 0xff), i16::MAX);
    assert_eq!(make_i16(0x00, 0x39), 0x39);
    assert_eq!(split_i16(-2), (0xff, 0xfe));
    assert_eq!(split_i16(i16::MIN), (0x80, 0x00));
    assert_eq!(split_i16(i16::MAX), (0x7f, 0xff));
    for v in [i16::MIN, -12345, -1, 0, 1, 255, 256, 12345, i16::MAX] {
        let (hi, lo) = split_i16(v);
        assert_eq!(make_i16(hi, lo), v);
        assert_eq!([hi, lo], v.to_be_bytes());
    }
}

#[test]
fn make_and_split_words() {
    assert_eq!(make_u32(0x12, 0x34, 0x56, 0x78), 0x12345678);
    assert_eq!(make_u32(0xff, 0xff, 0xff, 0xff), u32::MAX);
    assert_eq!(split_u32(0x12345678), (0x12, 0x34, 0x56, 0x78));
    assert_eq!(split_u32(0x80000001), (0x80, 0, 0, 1));
}

#[test]
fn frame_is_two_big_endian_words() {
    let frame = [0x85, 0x12, 0x34, 0xff, 0xfe, 0xab, 0xcd, 0x00];
    assert_eq!(frame_words(&frame), (0x851234ff, 0xfeabcd00));
    assert_eq!(words_frame(0x851234ff, 0xfeabcd00), frame);
    let (a, b) = frame_words(&[1, 0, 0, 0, 0x39, 39, 0, 0]);
    assert_eq!((a, b), (0x01000000, 0x39270000));
    assert_eq!(words_frame(a, b), [1, 0, 0, 0, 0x39, 39, 0, 0]);
}

#[test]
fn reception_takes_two_words() {
    let r = Reception::start();
    assert_eq!(r, Reception::AwaitFirst);
    assert_eq!(r.reply(), None);
    let r = r.on_word(None);
    assert_eq!(r, Reception::AwaitFirst);
    let r = r.on_word(Some(0x01020304));
    assert_eq!(r, Reception::AwaitSecond(0x01020304));
    assert_eq!(r.reply(), None);
    let r = r.on_word(None).on_word(None);
    assert_eq!(r, Reception::AwaitSecond(0x01020304));
    let r = r.on_word(Some(0x05060708));
    assert_eq!(r, Reception::Complete(0x01020304, 0x05060708));
    assert_eq!(r.reply(), Some([1, 2, 3, 4, 5, 6, 7, 8]));
    assert_eq!(r.on_word(Some(9)), r);
}
