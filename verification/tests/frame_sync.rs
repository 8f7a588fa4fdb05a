use ceaser::frame::{FramePhase, FrameSync};

fn run_one_frame(s: &mut FrameSync, image_index: usize) {
    let _slot = s.begin_frame();
    s.image_acquired(image_index);
    s.fence_observed();
    assert!(s.recording_allowed());
    s.begin_recording();
    s.submitted();
    s.presented();
}

#[test]
fn new_synchronizer_is_idle_with_nothing_in_flight() {
    let s = FrameSync::new(3);
    assert_eq!(s.amount_of_images, 3);
    assert_eq!(s.current_image, 0);
    assert_eq!(s.in_flight, vec![false, false, false]);
    assert_eq!(s.phase, FramePhase::Idle);
}

#[test]
fn cursor_rotates_through_all_slots() {
    let mut s = FrameSync::new(3);
    let mut slots = Vec::new();
    for frame in 0..6usize {
        let image = frame % 3;
        slots.push(s.begin_frame());
        s.image_acquired(image);
        s.fence_observed();
        s.begin_recording();
        s.submitted();
        s.presented();
    }
    assert_eq!(slots, vec![1, 2, 0, 1, 2, 0]);
}

#[test]
fn consecutive_submissions_to_a_slot_never_overlap() {
    // After a submission against image slot 1, its fence is pending: a new
    // frame that acquires slot 1 may not re-record its command buffer until
    // the fence wait has been observed.
    let mut s = FrameSync::new(2);
    run_one_frame(&mut s, 1);
    assert!(s.in_flight[1]);
    s.begin_frame();
    s.image_acquired(1);
    assert!(!s.recording_allowed());
    s.fence_observed();
    assert!(s.recording_allowed());
    assert!(!s.in_flight[1]);
}

#[test]
fn submission_marks_the_acquired_slot_in_flight() {
    let mut s = FrameSync::new(3);
    run_one_frame(&mut s, 2);
    assert_eq!(s.in_flight, vec![false, false, true]);
    run_one_frame(&mut s, 0);
    assert_eq!(s.in_flight, vec![true, false, true]);
}

#[test]
fn fence_wait_clears_only_the_acquired_slot() {
    let mut s = FrameSync::new(2);
    run_one_frame(&mut s, 0);
    run_one_frame(&mut s, 1);
    assert_eq!(s.in_flight, vec![true, true]);
    s.begin_frame();
    s.image_acquired(0);
    s.fence_observed();
    assert_eq!(s.in_flight, vec![false, true]);
}
