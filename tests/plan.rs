use simd_test::plan::{plan_dot, DotError, LANES};

#[test]
fn eight_elements_make_one_full_group() {
    let p = plan_dot(8, 8).unwrap();
    assert_eq!(p.len, 8);
    assert_eq!(p.groups, 1);
    assert_eq!(p.tail_start, 8);
    assert_eq!(p.tail_len(), 0);
    assert_eq!(p.group_start(0), 0);
}

#[test]
fn sixteen_elements_make_two_groups() {
    let p = plan_dot(16, 16).unwrap();
    assert_eq!(p.groups, 2);
    assert_eq!(p.group_start(1), 8);
    assert_eq!(p.tail_start, 16);
    assert_eq!(p.tail_len(), 0);
}

#[test]
fn empty_inputs_have_no_groups_and_no_tail() {
    let p = plan_dot(0, 0).unwrap();
    assert_eq!(p.groups, 0);
    assert_eq!(p.tail_start, 0);
    assert_eq!(p.tail_len(), 0);
}

#[test]
fn ten_elements_leave_a_tail_of_two() {
    let p = plan_dot(10, 10).unwrap();
    assert_eq!(p.groups, 1);
    assert_eq!(p.tail_start, 8);
    assert_eq!(p.tail_len(), 2);
}

#[test]
fn fewer_than_one_group_is_all_tail() {
    let p = plan_dot(7, 7).unwrap();
    assert_eq!(p.groups, 0);
    assert_eq!(p.tail_start, 0);
    assert_eq!(p.tail_len(), 7);
}

#[test]
fn benchmark_size_is_whole_groups() {
    let p = plan_dot(4096, 4096).unwrap();
    assert_eq!(p.groups, 512);
    assert_eq!(p.group_start(511), 4088);
    assert_eq!(p.group_start(511) + LANES, p.len);
    assert_eq!(p.tail_len(), 0);
}

#[test]
fn different_lengths_are_refused() {
    assert_eq!(plan_dot(10, 9), Err(DotError::LengthMismatch { left: 10, right: 9 }));
    assert_eq!(plan_dot(9, 10), Err(DotError::LengthMismatch { left: 9, right: 10 }));
    assert_eq!(plan_dot(0, 8), Err(DotError::LengthMismatch { left: 0, right: 8 }));
}

#[test]
fn lane_width_is_eight() {
    assert_eq!(LANES, 8);
}
