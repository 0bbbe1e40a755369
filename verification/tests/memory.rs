use icc::Memory;

#[test]
fn read_returns_the_image() {
    let memory = Memory::new(vec![3, -1, 99]);
    assert_eq!(memory.read(0), 3);
    assert_eq!(memory.read(1), -1);
    assert_eq!(memory.read(2), 99);
}

#[test]
fn read_beyond_the_image_is_zero() {
    let memory = Memory::new(vec![3, -1, 99]);
    assert_eq!(memory.read(3), 0);
    assert_eq!(memory.read(1_000_000_000), 0);
    assert_eq!(memory.read(usize::MAX), 0);
}

#[test]
fn read_after_write_returns_the_value() {
    let mut memory = Memory::new(vec![3, -1, 99]);
    memory.write(1, 42);
    memory.write(700, -7);
    assert_eq!(memory.read(1), 42);
    assert_eq!(memory.read(700), -7);
    assert_eq!(memory.read(0), 3);
    assert_eq!(memory.read(2), 99);
    assert_eq!(memory.read(699), 0);
    assert_eq!(memory.read(701), 0);
    memory.write(700, 8);
    assert_eq!(memory.read(700), 8);
}

#[test]
fn write_of_zero_is_a_write() {
    let mut memory = Memory::new(vec![5]);
    memory.write(0, 0);
    memory.write(9, 0);
    assert_eq!(memory.read(0), 0);
    assert_eq!(memory.read(9), 0);
}
