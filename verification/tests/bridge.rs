use circom_scotia::{Element, SafeMemory, WitnessError};

fn element(limbs: Vec<u32>) -> Element {
    Element { limbs }
}

/// A region too small for one element is refused at construction.
#[test]
fn region_must_fit_one_element() {
    assert_eq!(SafeMemory::new(1, 2).unwrap_err(), WitnessError::MemoryError);
    assert_eq!(SafeMemory::new(4, 0).unwrap_err(), WitnessError::MemoryError);
    assert!(SafeMemory::new(2, 2).is_ok());
}

/// Writing an element and reading it back hands the same element through.
#[test]
fn write_read_round_trip() {
    let mut memory = SafeMemory::new(8, 2).unwrap();
    memory.write_element(&element(vec![0xcafe_f00d, 42])).unwrap();
    assert_eq!(memory.read_element(), element(vec![0xcafe_f00d, 42]));

    // A second exchange reuses the same region.
    memory.write_element(&element(vec![7, 0])).unwrap();
    assert_eq!(memory.read_element(), element(vec![7, 0]));
}

/// An element whose encoding is not the detected width is refused and the
/// region stays untouched.
#[test]
fn wrong_width_is_memory_error() {
    let mut memory = SafeMemory::new(8, 2).unwrap();
    memory.write_element(&element(vec![5, 6])).unwrap();
    let before = memory.data.clone();
    assert_eq!(memory.write_element(&element(vec![1])), Err(WitnessError::MemoryError));
    assert_eq!(memory.write_element(&element(vec![1, 2, 3])), Err(WitnessError::MemoryError));
    assert_eq!(memory.data, before);
    assert_eq!(memory.read_element(), element(vec![5, 6]));
}

/// An element the executable left as a single short machine word reads
/// back zero-extended to the detected width, denoting the same integer.
#[test]
fn short_encoding_zero_extends() {
    let mut memory = SafeMemory::new(8, 3).unwrap();
    memory.write_element(&element(vec![42, 7, 9])).unwrap();
    // Interpreted as the short form, only the first word counts.
    assert_eq!(memory.read_short_element(), element(vec![42, 0, 0]));
    // Interpreted as the long form, all limbs count.
    assert_eq!(memory.read_element(), element(vec![42, 7, 9]));
}

/// A fresh region is zeroed, so a read before any write gives the zero
/// element.
#[test]
fn fresh_region_reads_zero() {
    let memory = SafeMemory::new(4, 3).unwrap();
    assert_eq!(memory.read_element(), element(vec![0, 0, 0]));
}
