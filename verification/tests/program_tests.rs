use turtl::compile::compile;
use turtl::program::{load, Error, Program};

fn lines(xs: &[&str]) -> Vec<String> {
    xs.iter().map(|&x| x.into()).collect()
}

#[test]
fn empty_program_digest_is_sha3_of_nothing() {
    // SHA3-256 of the empty byte image
    let expected = [
        0xa7u8, 0xff, 0xc6, 0xf8, 0xbf, 0x1e, 0xd7, 0x66, 0x51, 0xc1, 0x47, 0x56, 0xa0, 0x61,
        0xd6, 0x62, 0xf5, 0x80, 0xff, 0x4d, 0xe4, 0x3b, 0x49, 0xfa, 0x82, 0xd8, 0x0a, 0x4b,
        0x80, 0xf8, 0x43, 0x4a,
    ];
    let p = Program::new();
    assert_eq!(p.hash, expected.to_vec());
    assert_eq!(p.bytecode.len(), 0);
    assert_eq!(p.runtime_id, 0);
    assert!(p.check_hash());
}

#[test]
fn check_hash_detects_tampering() {
    let mut p = compile(lines(&["MOVI %r1 $5"])).unwrap();
    assert!(p.check_hash());
    p.bytecode[0] ^= 1;
    assert!(!p.check_hash());
}

#[test]
fn save_load_round_trip() {
    let p = compile(lines(&["MOVI %r1 $13", "MOVI %r2 $16", "ADDR %r3 %r1 %r2"])).unwrap();
    let bytes = p.to_bytes();
    assert_eq!(bytes.len(), 32 + 8 + 8 * 3);
    let q = load(bytes.as_slice()).unwrap();
    assert_eq!(q.bytecode, p.bytecode);
    assert_eq!(q.hash, p.hash);
    assert_eq!(q.runtime_id, 0);
    assert!(q.check_hash());
}

#[test]
fn bit_flip_fails_the_checksum() {
    let p = compile(lines(&["MOVI %r1 $13", "MOVI %r2 $16"])).unwrap();
    let bytes = p.to_bytes();
    // flip one bit in each byte of the persisted bytecode region in turn
    for pos in 40..bytes.len() {
        let mut tampered = bytes.clone();
        tampered[pos] ^= 0x10;
        assert!(matches!(load(tampered.as_slice()), Err(Error::WrongSum)));
    }
}

#[test]
fn flipped_digest_fails_the_checksum() {
    let p = compile(lines(&["MOVI %r1 $13"])).unwrap();
    let mut bytes = p.to_bytes();
    bytes[0] ^= 1;
    assert!(matches!(load(bytes.as_slice()), Err(Error::WrongSum)));
}

#[test]
fn malformed_records_are_refused() {
    // too short to hold the header
    assert!(matches!(load(&[0u8; 16]), Err(Error::Malformed)));
    // trailing bytes that are not a whole word
    let p = compile(lines(&["MOVI %r1 $13"])).unwrap();
    let mut bytes = p.to_bytes();
    bytes.push(0);
    assert!(matches!(load(bytes.as_slice()), Err(Error::Malformed)));
    // a word count that disagrees with the payload
    let mut bytes2 = p.to_bytes();
    bytes2[32] = 7;
    assert!(matches!(load(bytes2.as_slice()), Err(Error::Malformed)));
}

#[test]
fn load_resets_the_runtime_id() {
    let mut p = compile(lines(&["MOVI %r1 $13"])).unwrap();
    p.runtime_id = 999;
    let bytes = p.to_bytes();
    let q = load(bytes.as_slice()).unwrap();
    assert_eq!(q.runtime_id, 0);
}
