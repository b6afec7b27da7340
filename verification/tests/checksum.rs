use tusk_php::checksum::{sha256_hex, to_hex};
use tusk_php::text::eq_ignoring_case;

#[test]
fn bytes_are_written_in_lower_case() {
    assert_eq!(to_hex(&[]), "");
    assert_eq!(to_hex(&[0x00, 0x0a, 0x9f, 0xff]), "000a9fff");
    for byte in 0..=255u8 {
        assert_eq!(to_hex(&[byte]), format!("{:02x}", byte));
    }
}

#[test]
fn the_checksum_is_sha256() {
    assert_eq!(
        sha256_hex(b""),
        "e3b0c44298fc1c149afbf4c8996fb92427ae41e4649b934ca495991b7852b855"
    );
    assert_eq!(
        sha256_hex(b"abc"),
        "ba7816bf8f01cfea414140de5dae2223b00361a396177a9cb410ff61f20015ad"
    );
    let long = vec![0x61u8; 1000];
    assert_eq!(
        sha256_hex(&long),
        "41edece42d63e8d9bf515a9ba6932e1c20cbc9f5a5d134645adb5db1b9737ea3"
    );
}

#[test]
fn bytes_that_are_written_alike_are_equal() {
    for a in 0..=255u8 {
        for b in 0..=255u8 {
            let alike = eq_ignoring_case(&to_hex(&[a]), &to_hex(&[b]).to_uppercase());
            assert_eq!(alike, a == b);
        }
    }
}
