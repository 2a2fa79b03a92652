use redactor::fingerprint::fingerprint;

#[test]
fn fingerprint_of_small_image() {
    assert_eq!(fingerprint(2, 1, &[1, 2, 3, 4, 5, 6, 7, 8]), 17979663824539465917);
}

#[test]
fn fingerprint_of_empty_image_is_zero() {
    assert_eq!(fingerprint(0, 0, &[]), 0);
}

#[test]
fn fingerprint_of_large_image_samples_every_fourth_byte() {
    let bytes: Vec<u8> = (0..=255u8).collect();
    assert_eq!(fingerprint(8, 8, &bytes), 13649777265285347720);
}

#[test]
fn fingerprint_ignores_bytes_between_samples() {
    let bytes: Vec<u8> = (0..=255u8).collect();
    let mut changed = bytes.clone();
    // 256 bytes: a step of 4, so index 5 is never read.
    changed[5] = 99;
    assert_eq!(fingerprint(8, 8, &bytes), fingerprint(8, 8, &changed));
}

#[test]
fn fingerprint_sees_sampled_bytes_and_dimensions() {
    let bytes: Vec<u8> = (0..=255u8).collect();
    let mut changed = bytes.clone();
    changed[4] = 99;
    assert_ne!(fingerprint(8, 8, &bytes), fingerprint(8, 8, &changed));
    assert_ne!(fingerprint(8, 8, &bytes), fingerprint(16, 4, &bytes));
}
