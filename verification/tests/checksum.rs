use eleanor::checksum::Checksum;

fn sum(chunks: &[&[u8]]) -> u64 {
    let mut checksum = Checksum::new();
    for chunk in chunks {
        checksum.write(chunk);
    }
    checksum.finish()
}

#[test]
fn nothing_written_gives_one() {
    assert_eq!(Checksum::new().finish(), 1);
    assert_eq!(sum(&[&[]]), 1);
}

#[test]
fn known_checksums() {
    assert_eq!(sum(&[b"Wikipedia"]), 0x11E6_0398);
    assert_eq!(sum(&[b"a"]), 0x0062_0062);
    assert_eq!(sum(&[&[0]]), 0x0001_0001);
    assert_eq!(sum(&[&[0, 1, 2], &[3, 4, 5]]), 0x0029_0010);
}

#[test]
fn the_sums_wrap_at_the_modulus() {
    // 257 bytes of 255 make a = 1 + 65535 = 65536, which is 15 mod 65521.
    let bytes = [255u8; 257];
    let checksum = sum(&[&bytes]);
    assert_eq!(checksum & 0xffff, 15);
    assert_eq!(checksum, u64::from(adler::adler32_slice(&bytes)));
}

#[test]
fn the_same_bytes_give_the_same_checksum() {
    let bytes: Vec<u8> = (0..5000u32).map(|i| (i * 31 % 251) as u8).collect();
    assert_eq!(sum(&[&bytes]), sum(&[&bytes]));
}

#[test]
fn cutting_into_chunks_changes_nothing() {
    let bytes: Vec<u8> = (0..70_000u32).map(|i| (i * 7 % 256) as u8).collect();
    let whole = sum(&[&bytes]);
    assert_eq!(whole, u64::from(adler::adler32_slice(&bytes)));
    for cut in [0, 1, 3, 4, 5551, 5552, 22208, 22209, 69_999, 70_000] {
        assert_eq!(sum(&[&bytes[..cut], &bytes[cut..]]), whole);
    }
    let mut byte_by_byte = Checksum::new();
    for byte in &bytes[..300] {
        byte_by_byte.write(&[*byte]);
    }
    assert_eq!(byte_by_byte.finish(), sum(&[&bytes[..300]]));
}

#[test]
fn exchanging_two_packets_changes_the_checksum() {
    assert_ne!(sum(&[&[1, 2], &[3, 4]]), sum(&[&[3, 4], &[1, 2]]));
    assert_ne!(sum(&[b"ab"]), sum(&[b"ba"]));
}

#[test]
fn replacing_a_byte_changes_the_checksum() {
    assert_ne!(sum(&[b"abc"]), sum(&[b"abd"]));
    assert_ne!(sum(&[b"abc"]), sum(&[b"bbc"]));
}

#[test]
fn cutting_off_the_end_changes_the_checksum() {
    assert_ne!(sum(&[b"abc"]), sum(&[b"ab"]));
    assert_ne!(sum(&[&[1, 2, 0]]), sum(&[&[1, 2]]));
}

#[test]
fn a_zero_byte_can_go_unnoticed_only_when_the_byte_sum_is_zero() {
    // 257 bytes of 255 minus 15 bring the byte sum to 65521, which is zero.
    let mut bytes = vec![255u8; 256];
    bytes.push(240);
    let before = sum(&[&bytes]);
    assert_eq!(before & 0xffff, 0);
    bytes.push(0);
    assert_eq!(sum(&[&bytes]), before);
}

#[test]
fn the_checksum_fits_in_32_bits() {
    let bytes = [255u8; 100_000];
    assert!(sum(&[&bytes]) <= u64::from(u32::MAX));
}
