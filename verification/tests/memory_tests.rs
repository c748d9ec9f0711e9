use turtl::memory::Memory;

#[test]
fn new_memory_is_zeroed() {
    let m = Memory::new(64);
    assert_eq!(m.capacity(), 64);
    let all = m.read(0, 64).unwrap();
    assert_eq!(all, vec![0u8; 64]);
}

#[test]
fn write_then_read_back() {
    let mut m = Memory::new(64);
    m.write(&[1, 2, 3], 10).unwrap();
    assert_eq!(m.read(10, 13).unwrap(), vec![1, 2, 3]);
    // surrounding bytes untouched
    assert_eq!(m.read(9, 10).unwrap(), vec![0]);
    assert_eq!(m.read(13, 14).unwrap(), vec![0]);
}

#[test]
fn overrunning_write_is_refused_whole() {
    let mut m = Memory::new(16);
    // the write must end strictly inside the buffer
    assert!(m.write(&[9, 9, 9], 14).is_err());
    assert!(m.write(&[9, 9, 9], 13).is_err());
    assert!(m.write(&[9, 9, 9], 12).is_ok());
    // the refused writes changed nothing
    let all = m.read(0, 12).unwrap();
    assert_eq!(all, vec![0u8; 12]);
}

#[test]
fn out_of_bounds_read_is_refused() {
    let m = Memory::new(16);
    assert!(m.read(0, 17).is_err());
    assert!(m.read(17, 17).is_err());
    assert!(m.read(8, 4).is_err());
    assert!(m.read(0, 16).is_ok());
    assert!(m.read(16, 16).is_ok());
}
