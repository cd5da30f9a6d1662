use portals::accumulation::{Accumulator, Changes};

fn steady() -> Changes {
    Changes {
        reset: false,
        loaded: false,
        cleared: false,
        settings_edited: false,
        scene_edited: false,
        camera_moved: false,
        hopped: false,
    }
}

#[test]
fn a_new_accumulator_is_empty() {
    assert_eq!(Accumulator::new().accumulated_frames, 0);
}

#[test]
fn steady_frames_count_up_by_one() {
    let mut acc = Accumulator::new();
    for expected in 0u32..5 {
        assert_eq!(acc.frame(steady().changed()), expected);
        assert_eq!(acc.accumulated_frames, expected + 1);
    }
}

#[test]
fn any_change_restarts_the_count() {
    let each = [
        Changes { reset: true, ..steady() },
        Changes { loaded: true, ..steady() },
        Changes { cleared: true, ..steady() },
        Changes { settings_edited: true, ..steady() },
        Changes { scene_edited: true, ..steady() },
        Changes { camera_moved: true, ..steady() },
        Changes { hopped: true, ..steady() },
    ];
    for change in each {
        assert!(change.changed());
        let mut acc = Accumulator { accumulated_frames: 41 };
        assert_eq!(acc.frame(change.changed()), 0);
        assert_eq!(acc.accumulated_frames, 1);
        assert_eq!(acc.frame(steady().changed()), 1);
        assert_eq!(acc.accumulated_frames, 2);
    }
}

#[test]
fn nothing_changed_is_no_change() {
    assert!(!steady().changed());
}

#[test]
fn clear_empties_the_accumulation() {
    let mut acc = Accumulator { accumulated_frames: 17 };
    acc.clear();
    assert_eq!(acc.accumulated_frames, 0);
    assert_eq!(acc.frame(false), 0);
    assert_eq!(acc.accumulated_frames, 1);
}

#[test]
fn loading_a_scene_restarts_the_count() {
    let mut acc = Accumulator::new();
    acc.frame(false);
    acc.frame(false);
    acc.frame(false);
    assert_eq!(acc.accumulated_frames, 3);
    let loaded = Changes { loaded: true, ..steady() };
    assert_eq!(acc.frame(loaded.changed()), 0);
}

#[test]
fn a_change_is_allowed_at_the_largest_count() {
    let mut acc = Accumulator { accumulated_frames: u32::MAX };
    assert_eq!(acc.frame(true), 0);
    assert_eq!(acc.accumulated_frames, 1);
    let mut near = Accumulator { accumulated_frames: u32::MAX - 1 };
    assert_eq!(near.frame(false), u32::MAX - 1);
    assert_eq!(near.accumulated_frames, u32::MAX);
}
