use std::rc::Rc;

use engine2d::animation::{Animation, AnimationData};
use engine2d::objects::Rect;

fn clip(durations: &[usize], looping: bool) -> Rc<AnimationData> {
    let frames = durations
        .iter()
        .enumerate()
        .map(|(i, d)| (Rect::new(10 * i as i32, 0, 10, 10), *d))
        .collect();
    Rc::new(AnimationData { frames, looping })
}

fn run(a: &mut Animation, ticks: usize) {
    for _ in 0..ticks {
        a.animate();
    }
}

#[test]
fn new_animation_starts_at_the_first_frame() {
    let data = clip(&[2, 3, 1], true);
    let a = Animation::new(&data);
    assert_eq!(a.frame_index(), 0);
    assert_eq!(a.frame_ticks(), 0);
    assert_eq!(a.get_current_frame(), Rect::new(0, 0, 10, 10));
}

#[test]
fn looping_clip_advances_and_wraps() {
    let data = clip(&[2, 3, 1], true);
    let mut a = Animation::new(&data);
    run(&mut a, 1);
    assert_eq!((a.frame_index(), a.frame_ticks()), (0, 1));
    run(&mut a, 1);
    assert_eq!((a.frame_index(), a.frame_ticks()), (1, 0));
    assert_eq!(a.get_current_frame(), Rect::new(10, 0, 10, 10));
    run(&mut a, 2);
    assert_eq!((a.frame_index(), a.frame_ticks()), (1, 2));
    run(&mut a, 1);
    assert_eq!((a.frame_index(), a.frame_ticks()), (2, 0));
    assert_eq!(a.get_current_frame(), Rect::new(20, 0, 10, 10));
    run(&mut a, 1);
    assert_eq!((a.frame_index(), a.frame_ticks()), (0, 0));
    assert_eq!(a.get_current_frame(), Rect::new(0, 0, 10, 10));
}

#[test]
fn looping_clip_has_the_period_of_its_total_duration() {
    let data = clip(&[2, 3, 1], true);
    let mut a = Animation::new(&data);
    let mut first_lap = Vec::new();
    for _ in 0..6 {
        first_lap.push((a.frame_index(), a.frame_ticks()));
        a.animate();
    }
    assert_eq!(first_lap, vec![(0, 0), (0, 1), (1, 0), (1, 1), (1, 2), (2, 0)]);
    for lap in 0..5 {
        for step in 0..6 {
            assert_eq!((a.frame_index(), a.frame_ticks()), first_lap[step], "lap {}", lap);
            a.animate();
        }
    }
}

#[test]
fn clip_that_does_not_loop_holds_its_last_frame() {
    let data = Rc::new(AnimationData {
        frames: vec![(Rect::new(0, 0, 4, 4), 1), (Rect::new(4, 0, 4, 4), 1)],
        looping: false,
    });
    let mut a = Animation::new(&data);
    assert_eq!(a.frame_index(), 0);
    for _ in 0..50 {
        a.animate();
        assert_eq!(a.frame_index(), 1);
        assert_eq!(a.frame_ticks(), 0);
        assert_eq!(a.get_current_frame(), Rect::new(4, 0, 4, 4));
    }
}

#[test]
fn clip_of_one_frame_stays_on_it() {
    for looping in [false, true] {
        let data = clip(&[3], looping);
        let mut a = Animation::new(&data);
        let mut seen = Vec::new();
        for _ in 0..7 {
            a.animate();
            seen.push((a.frame_index(), a.frame_ticks()));
        }
        assert_eq!(seen, vec![(0, 1), (0, 2), (0, 0), (0, 1), (0, 2), (0, 0), (0, 1)]);
    }
}

#[test]
fn set_animation_to_the_same_clip_keeps_the_cursor() {
    let data = clip(&[2, 3, 1], true);
    let mut a = Animation::new(&data);
    run(&mut a, 3);
    assert_eq!((a.frame_index(), a.frame_ticks()), (1, 1));
    a.set_animation(&data, false);
    assert_eq!((a.frame_index(), a.frame_ticks()), (1, 1));
    // An equal clip behind another handle is the same clip.
    let twin = clip(&[2, 3, 1], true);
    a.set_animation(&twin, false);
    assert_eq!((a.frame_index(), a.frame_ticks()), (1, 1));
}

#[test]
fn set_animation_with_force_starts_over() {
    let data = clip(&[2, 3, 1], true);
    let mut a = Animation::new(&data);
    run(&mut a, 3);
    a.set_animation(&data, true);
    assert_eq!((a.frame_index(), a.frame_ticks()), (0, 0));
}

#[test]
fn set_animation_to_another_clip_starts_it() {
    let data = clip(&[2, 3, 1], true);
    let mut a = Animation::new(&data);
    run(&mut a, 3);
    let other = clip(&[2, 3, 1], false);
    a.set_animation(&other, false);
    assert_eq!((a.frame_index(), a.frame_ticks()), (0, 0));
    run(&mut a, 40);
    assert_eq!(a.frame_index(), 2);
    let longer = clip(&[2, 3, 2], false);
    a.set_animation(&longer, false);
    assert_eq!((a.frame_index(), a.frame_ticks()), (0, 0));
}

#[test]
fn clips_are_compared_by_what_they_hold() {
    let a = clip(&[2, 3, 1], true);
    assert!(a.same_as(&clip(&[2, 3, 1], true)));
    assert!(!a.same_as(&clip(&[2, 3, 1], false)));
    assert!(!a.same_as(&clip(&[2, 3], true)));
    assert!(!a.same_as(&clip(&[2, 3, 1, 1], true)));
    assert!(!a.same_as(&clip(&[2, 4, 1], true)));
    let moved = AnimationData {
        frames: vec![
            (Rect::new(0, 0, 10, 10), 2),
            (Rect::new(10, 1, 10, 10), 3),
            (Rect::new(20, 0, 10, 10), 1),
        ],
        looping: true,
    };
    assert!(!a.same_as(&moved));
}

#[test]
fn clips_without_frames_or_with_empty_frames_are_not_valid() {
    assert!(clip(&[1], false).is_valid());
    assert!(clip(&[2, 3, 1], true).is_valid());
    assert!(!clip(&[], true).is_valid());
    assert!(!clip(&[2, 0, 1], true).is_valid());
    assert!(!clip(&[0], false).is_valid());
}
