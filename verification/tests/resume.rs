use partdl::part::Part;

#[test]
fn resume_partial_segment() {
    let mut p = Part::new(2, 250, 250);
    p.set_offset(100);
    assert_eq!(p.index, 2);
    assert_eq!(p.offset, 350);
    assert_eq!(p.size, 150);
    assert!(p.needs_fetch());
}

#[test]
fn resume_complete_segment() {
    let mut p = Part::new(1, 0, 250);
    p.set_offset(250);
    assert_eq!(p.offset, 250);
    assert_eq!(p.size, 0);
    assert!(!p.needs_fetch());
}

#[test]
fn resume_overfull_segment() {
    let mut p = Part::new(3, 500, 250);
    p.set_offset(300);
    assert_eq!(p.size, 0);
    assert!(!p.needs_fetch());
}

#[test]
fn range_header_first_part() {
    let p = Part::new(1, 0, 250);
    assert_eq!(p.to_string(), "bytes=0-249");
}

#[test]
fn range_header_last_part() {
    let p = Part::new(4, 750, 251);
    assert_eq!(p.to_string(), "bytes=750-1000");
}

#[test]
fn range_header_after_resume() {
    let mut p = Part::new(2, 250, 250);
    p.set_offset(100);
    assert_eq!(p.to_string(), "bytes=350-499");
}
