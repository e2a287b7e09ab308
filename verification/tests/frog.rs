use froggy::animate::animate_sprite;
use froggy::animate::AnimationIndices;
use froggy::frog::create_child;
use froggy::frog::eyes::FrogEyes;
use froggy::frog::spawn_frog;
use froggy::frog::ATLAS_COLUMNS;
use froggy::frog::ATLAS_ROWS;
use froggy::frog::FRAME_DURATION;

#[test]
fn child_starts_on_its_first_tile() {
    let child = create_child(AnimationIndices { first: 6, last: 8 });
    assert_eq!(child.index, 6);
    assert_eq!(child.indices, AnimationIndices { first: 6, last: 8 });
    assert!(!child.timer.just_finished());
}

#[test]
fn child_timer_runs_a_fifth_of_a_second() {
    let mut child = create_child(AnimationIndices { first: 6, last: 8 });
    child.timer.tick(FRAME_DURATION - 1);
    assert!(!child.timer.just_finished());
    child.timer.tick(1);
    assert!(child.timer.just_finished());
    child.timer.tick(FRAME_DURATION - 1);
    assert!(!child.timer.just_finished());
    child.timer.tick(1);
    assert!(child.timer.just_finished());
}

#[test]
fn frog_is_spawned_with_body_eyes_and_mouth() {
    let frog = spawn_frog();
    assert_eq!(frog.body.indices, AnimationIndices { first: 0, last: 2 });
    assert_eq!(frog.body.index, 0);
    assert_eq!(frog.eyes.indices, AnimationIndices { first: 3, last: 4 });
    assert_eq!(frog.eyes.index, 3);
    assert_eq!(frog.eyes_state, FrogEyes::Open);
    assert_eq!(frog.mouth.indices, AnimationIndices { first: 12, last: 14 });
    assert_eq!(frog.mouth.index, 12);
}

#[test]
fn frog_tiles_lie_on_the_sprite_sheet() {
    assert_eq!(ATLAS_COLUMNS * ATLAS_ROWS, 16);
    let frog = spawn_frog();
    for indices in [frog.body.indices, frog.eyes.indices, frog.mouth.indices] {
        assert!(indices.first <= indices.last);
        assert!(indices.last < ATLAS_COLUMNS * ATLAS_ROWS);
    }
    assert!(FrogEyes::Blinking.indices().last < ATLAS_COLUMNS * ATLAS_ROWS);
}

#[test]
fn parts_are_animated_independently() {
    let mut frog = spawn_frog();
    animate_sprite(&frog.body.indices, &mut frog.body.timer, &mut frog.body.index, FRAME_DURATION);
    assert_eq!(frog.body.index, 1);
    assert_eq!(frog.mouth.index, 12);
    assert!(!frog.mouth.timer.just_finished());
    animate_sprite(
        &frog.mouth.indices,
        &mut frog.mouth.timer,
        &mut frog.mouth.index,
        FRAME_DURATION - 1,
    );
    assert_eq!(frog.mouth.index, 12);
    animate_sprite(&frog.mouth.indices, &mut frog.mouth.timer, &mut frog.mouth.index, 1);
    assert_eq!(frog.mouth.index, 13);
    assert_eq!(frog.body.index, 1);
}

#[test]
fn a_second_of_frames_moves_each_part_five_tiles_on() {
    // 5 * 200_000_003 = 1_000_000_015: five intervals end within 61 frames
    // of 16_666_667 ns, the fifth in the last of them.
    let mut frog = spawn_frog();
    for _ in 0..61 {
        animate_sprite(&frog.body.indices, &mut frog.body.timer, &mut frog.body.index, 16_666_667);
        animate_sprite(&frog.eyes.indices, &mut frog.eyes.timer, &mut frog.eyes.index, 16_666_667);
        animate_sprite(
            &frog.mouth.indices,
            &mut frog.mouth.timer,
            &mut frog.mouth.index,
            16_666_667,
        );
    }
    assert_eq!(frog.body.index, 5 % 3);
    assert_eq!(frog.eyes.index, 3 + 5 % 2);
    assert_eq!(frog.mouth.index, 12 + 5 % 3);
}
