use websocket_lite::{mask_aligned_copy, mask_aligned_in_place, mask_copy, mask_in_place, mask_u8_copy, mask_u8_in_place, Mask};

static DATA: &[u8] = b"abcdefghijklmnopqrstuvwxyz123456789";

static MASKED_DATA: &[u8] = b"\
    \x9ebce\
    \x9afgi\
    \x96jkm\
    \x92noq\
    \x8ersu\
    \x8avwy\
    \x86z13\
    \xcc457\
    \xc889";

#[test]
fn mask_can_mask() {
    let mask = Mask::from(0xff000001u32.to_be());
    let mut data = DATA.to_vec();
    mask_in_place(&mut data, mask);

    assert_eq!(b'a' ^ 0xff, data[0]);
    assert_eq!(b'd' ^ 0x01, data[3]);
    assert_eq!(MASKED_DATA, &data[..]);

    mask_in_place(&mut data, mask);
    assert_eq!(DATA, &data[..]);
}

#[test]
fn masking_twice_gives_data_back() {
    for mask in [0u32, 1, 0x1234_5678, u32::MAX] {
        for len in 0..12 {
            let orig: Vec<u8> = (0..len).map(|i| (i * 37 + 5) as u8).collect();
            let mut data = orig.clone();
            mask_in_place(&mut data, Mask(mask));
            mask_in_place(&mut data, Mask(mask));
            assert_eq!(orig, data);
        }
    }
}

#[test]
fn mask_copy_matches_in_place() {
    let mask = Mask(0xa1b2_c3d4);
    let mut in_place = DATA.to_vec();
    mask_in_place(&mut in_place, mask);
    let mut copy = vec![0u8; DATA.len()];
    mask_copy(&mut copy, DATA, mask);
    assert_eq!(in_place, copy);
    assert_ne!(copy, DATA.to_vec());
}

#[test]
fn key_bytes_start_with_least_significant() {
    let mut data = vec![0u8; 6];
    mask_in_place(&mut data, Mask(0x0403_0201));
    assert_eq!(data, vec![1, 2, 3, 4, 1, 2]);
}

#[test]
fn u8_masking_returns_the_continuing_mask() {
    let mut head = vec![0u8; 3];
    let next = mask_u8_in_place(&mut head, 0x0403_0201);
    assert_eq!(head, vec![1, 2, 3]);
    assert_eq!(next, 0x0302_0104);

    let mut tail = vec![0u8; 2];
    let after = mask_u8_copy(&mut tail, &[0, 0], next);
    assert_eq!(tail, vec![4, 1]);
    assert_eq!(after, 0x0104_0302);
}

#[test]
fn aligned_masking_xors_words() {
    let mut words = vec![0u32, 0xffff_ffff, 0x1234_5678];
    mask_aligned_in_place(&mut words, 0x0f0f_0f0f);
    assert_eq!(words, vec![0x0f0f_0f0f, 0xf0f0_f0f0, 0x1d3b_5977]);
    let mut out = vec![0u32; 3];
    mask_aligned_copy(&mut out, &words, 0x0f0f_0f0f);
    assert_eq!(out, vec![0, 0xffff_ffff, 0x1234_5678]);
}
