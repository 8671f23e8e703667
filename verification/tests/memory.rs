use benchy::{read_resident_bytes, PeakMemory};

#[test]
fn peak_memory_of_no_sample_is_missing() {
    let sampler = PeakMemory::new();
    assert_eq!(sampler.peak(), None);
}

#[test]
fn peak_memory_is_the_largest_sample() {
    let mut sampler = PeakMemory::new();
    sampler.observe(Some(100));
    assert_eq!(sampler.peak(), Some(100));
    sampler.observe(Some(300));
    sampler.observe(Some(200));
    assert_eq!(sampler.peak(), Some(300));
    sampler.observe(Some(300));
    assert_eq!(sampler.peak(), Some(300));
    sampler.observe(Some(usize::MAX));
    assert_eq!(sampler.peak(), Some(usize::MAX));
}

#[test]
fn peak_memory_passes_over_missing_readings() {
    let mut sampler = PeakMemory::new();
    sampler.observe(None);
    assert_eq!(sampler.peak(), None);
    sampler.observe(Some(50));
    sampler.observe(None);
    assert_eq!(sampler.peak(), Some(50));
    sampler.observe(Some(0));
    assert_eq!(sampler.peak(), Some(50));
}

#[test]
fn peak_memory_of_zero_is_a_measurement() {
    let mut sampler = PeakMemory::new();
    sampler.observe(Some(0));
    assert_eq!(sampler.peak(), Some(0));
}

#[test]
fn resident_bytes_are_the_second_field_times_the_page_size() {
    assert_eq!(read_resident_bytes(b"12345 678 90 1 0 234 0\n", 4096), Some(678 * 4096));
    assert_eq!(read_resident_bytes(b"1 2", 1), Some(2));
    assert_eq!(read_resident_bytes(b"1 2\n", 8), Some(16));
    assert_eq!(read_resident_bytes(b"size 0 rest", 4096), Some(0));
    assert_eq!(read_resident_bytes(b" 7 8", 10), Some(70));
    assert_eq!(read_resident_bytes(b"1 007 3", 10), Some(70));
}

#[test]
fn resident_bytes_of_a_line_without_a_second_number_are_missing() {
    assert_eq!(read_resident_bytes(b"", 4096), None);
    assert_eq!(read_resident_bytes(b"12345", 4096), None);
    assert_eq!(read_resident_bytes(b"12345\n", 4096), None);
    assert_eq!(read_resident_bytes(b"12345 ", 4096), None);
    assert_eq!(read_resident_bytes(b"12345  678", 4096), None);
    assert_eq!(read_resident_bytes(b"12345\n678 9", 4096), None);
    assert_eq!(read_resident_bytes(b"12345 67x 9", 4096), None);
    assert_eq!(read_resident_bytes(b"12345 -67 9", 4096), None);
    assert_eq!(read_resident_bytes(b"12345 +67 9", 4096), None);
    assert_eq!(read_resident_bytes(b"12345 6.7 9", 4096), None);
    assert_eq!(read_resident_bytes(b"12345 67\t9", 4096), None);
}

#[test]
fn resident_bytes_without_a_page_size_are_missing() {
    assert_eq!(read_resident_bytes(b"12345 678 90", 0), None);
}

#[test]
fn resident_bytes_beyond_a_byte_count_are_missing() {
    let most = format!("1 {} 3", usize::MAX);
    assert_eq!(read_resident_bytes(most.as_bytes(), 1), Some(usize::MAX));
    assert_eq!(read_resident_bytes(most.as_bytes(), 2), None);
    let more = format!("1 {}0 3", usize::MAX);
    assert_eq!(read_resident_bytes(more.as_bytes(), 1), None);
    let much_more = format!("1 {}{} 3", usize::MAX, usize::MAX);
    assert_eq!(read_resident_bytes(much_more.as_bytes(), 1), None);
    let half = format!("1 {} 3", usize::MAX / 2 + 1);
    assert_eq!(read_resident_bytes(half.as_bytes(), 2), None);
    assert_eq!(read_resident_bytes(half.as_bytes(), 1), Some(usize::MAX / 2 + 1));
}
