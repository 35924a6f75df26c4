use teensy_audio::io::interleave::{deinterleave, interleave_l, interleave_lr, interleave_r, silence};

#[test]
fn interleave_lr_basic() {
    let left = [100i16, -200, 300, -400];
    let right = [500i16, -600, 700, -800];
    let mut dest = [0u32; 8];

    interleave_lr(&mut dest, &left, &right);

    for i in 0..4 {
        assert_eq!((dest[i * 2] >> 16) as i16, left[i], "left mismatch at frame {i}");
        assert_eq!((dest[i * 2 + 1] >> 16) as i16, right[i], "right mismatch at frame {i}");
        assert_eq!(dest[i * 2] & 0xFFFF, 0, "left low bits at frame {i}");
        assert_eq!(dest[i * 2 + 1] & 0xFFFF, 0, "right low bits at frame {i}");
    }
}

#[test]
fn interleave_l_zeroes_right() {
    let left = [1000i16, -2000];
    let mut dest = [0xFFFF_FFFFu32; 4];

    interleave_l(&mut dest, &left);

    assert_eq!((dest[0] >> 16) as i16, 1000);
    assert_eq!(dest[1], 0);
    assert_eq!((dest[2] >> 16) as i16, -2000);
    assert_eq!(dest[3], 0);
}

#[test]
fn interleave_r_zeroes_left() {
    let right = [3000i16, -4000];
    let mut dest = [0xFFFF_FFFFu32; 4];

    interleave_r(&mut dest, &right);

    assert_eq!(dest[0], 0);
    assert_eq!((dest[1] >> 16) as i16, 3000);
    assert_eq!(dest[2], 0);
    assert_eq!((dest[3] >> 16) as i16, -4000);
}

#[test]
fn deinterleave_basic() {
    let src = [
        (100u16 as u32) << 16,
        (500u16 as u32) << 16,
        ((-200i16 as u16) as u32) << 16,
        ((-600i16 as u16) as u32) << 16,
    ];
    let mut left = [0i16; 2];
    let mut right = [0i16; 2];

    deinterleave(&src, &mut left, &mut right);

    assert_eq!(left, [100, -200]);
    assert_eq!(right, [500, -600]);
}

#[test]
fn roundtrip_preserves_data() {
    let orig_left = [i16::MIN, -1, 0, 1, i16::MAX, 12345, -12345, 0];
    let orig_right = [0, i16::MAX, i16::MIN, 42, -42, 100, -100, 0];
    let mut packed = [0u32; 16];

    interleave_lr(&mut packed, &orig_left, &orig_right);

    let mut left = [0i16; 8];
    let mut right = [0i16; 8];
    deinterleave(&packed, &mut left, &mut right);

    assert_eq!(left, orig_left);
    assert_eq!(right, orig_right);
}

#[test]
fn empty_slices() {
    let mut dest: [u32; 0] = [];
    interleave_lr(&mut dest, &[], &[]);
    interleave_l(&mut dest, &[]);
    interleave_r(&mut dest, &[]);

    let mut left: [i16; 0] = [];
    let mut right: [i16; 0] = [];
    deinterleave(&[], &mut left, &mut right);
}

#[test]
fn silence_zeroes_buffer() {
    let mut buf = [0xDEAD_BEEFu32; 8];
    silence(&mut buf);
    assert!(buf.iter().all(|&x| x == 0));
}

#[test]
fn extreme_values() {
    let left = [i16::MIN, i16::MAX];
    let right = [i16::MAX, i16::MIN];
    let mut packed = [0u32; 4];

    interleave_lr(&mut packed, &left, &right);

    let mut out_left = [0i16; 2];
    let mut out_right = [0i16; 2];
    deinterleave(&packed, &mut out_left, &mut out_right);

    assert_eq!(out_left, [i16::MIN, i16::MAX]);
    assert_eq!(out_right, [i16::MAX, i16::MIN]);
}

#[test]
fn interleave_lr_exact_words() {
    let mut dest = [0u32; 2];
    interleave_lr(&mut dest, &[-1], &[1]);
    assert_eq!(dest, [0xFFFF_0000, 0x0001_0000]);
}
