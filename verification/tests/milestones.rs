use scene_config::milestones::Milestones;

fn frames(m: &Milestones) -> Vec<usize> {
    m.get_milestones().into_iter().copied().collect()
}

#[test]
fn milestones_come_in_ascending_order() {
    let mut m = Milestones::new();
    m.add_from_c3d(30);
    m.add_user_generated(10);
    m.add_from_c3d(20);
    m.add_user_generated(20);
    assert_eq!(frames(&m), vec![10, 20, 30]);
}

#[test]
fn default_forgets_every_milestone() {
    let mut m = Milestones::new();
    m.add_from_c3d(3);
    m.add_user_generated(5);
    m.default();
    assert!(m.get_milestones().is_empty());
    m.add_from_c3d(7);
    m._remove_all_milestones();
    assert!(m.get_milestones().is_empty());
}

#[test]
fn removing_a_milestone_leaves_the_others() {
    let mut m = Milestones::new();
    m.add_from_c3d(1);
    m.add_from_c3d(2);
    m.add_from_c3d(3);
    m.remove_milestone(2);
    assert_eq!(frames(&m), vec![1, 3]);
    m.remove_milestone(9);
    assert_eq!(frames(&m), vec![1, 3]);
}

#[test]
fn only_the_milestones_of_the_user_are_removed() {
    let mut m = Milestones::new();
    m.add_from_c3d(1);
    m.add_user_generated(2);
    m.add_from_c3d(3);
    m.add_user_generated(4);
    m.add_user_generated(3);
    m.add_from_c3d(4);
    m.remove_user_generated_milestones();
    assert_eq!(frames(&m), vec![1, 4]);
}

#[test]
fn the_previous_milestone_lies_before_the_frame_ahead() {
    let mut m = Milestones::new();
    m.add_from_c3d(10);
    m.add_from_c3d(20);
    m.add_from_c3d(30);
    assert_eq!(m.get_prev_milestone(25), 20);
    assert_eq!(m.get_prev_milestone(21), 10);
    assert_eq!(m.get_prev_milestone(22), 20);
    assert_eq!(m.get_prev_milestone(11), 0);
    assert_eq!(m.get_prev_milestone(1), 0);
    assert_eq!(m.get_prev_milestone(1000), 30);
}

#[test]
fn the_next_milestone_lies_behind_the_frame() {
    let mut m = Milestones::new();
    m.add_from_c3d(10);
    m.add_from_c3d(20);
    m.add_from_c3d(30);
    assert_eq!(m.get_next_milestone(0), 10);
    assert_eq!(m.get_next_milestone(10), 20);
    assert_eq!(m.get_next_milestone(29), 30);
    assert_eq!(m.get_next_milestone(30), 0);
    assert_eq!(Milestones::new().get_next_milestone(0), 0);
}

#[test]
fn without_milestones_frame_zero_has_no_previous_one() {
    let m = Milestones::new();
    assert_eq!(m.get_prev_milestone(0), 0);
    assert_eq!(m.get_prev_milestone(5), 0);
    let mut n = Milestones::new();
    n.add_from_c3d(3);
    n.remove_milestone(3);
    assert_eq!(n.get_prev_milestone(0), 0);
}
