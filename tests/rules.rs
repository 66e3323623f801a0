use box_game::input::{decode, input, BoxInput, Intent};
use box_game::rules::{
    axis_action, choose_target, increase_frame_system, needs_respawn, new_score, player_axes,
    respawn_slot, speed_multiplier_milli, top_score, update_score, update_scores, AxisAction,
    FrameCount, Score,
};

#[test]
fn input_sets_one_bit_per_direction() {
    assert_eq!(input(true, false, false, false), BoxInput { inp: 1 });
    assert_eq!(input(false, true, false, false), BoxInput { inp: 2 });
    assert_eq!(input(false, false, true, false), BoxInput { inp: 4 });
    assert_eq!(input(false, false, false, true), BoxInput { inp: 8 });
    assert_eq!(input(true, true, true, true), BoxInput { inp: 15 });
    assert_eq!(input(false, false, false, false), BoxInput { inp: 0 });
}

#[test]
fn decode_ignores_high_bits() {
    let i = decode(0xf5);
    assert_eq!(i, Intent { up: true, down: false, left: true, right: false });
}

#[test]
fn contradictory_input_decays_like_no_input() {
    let both = player_axes(decode(0b0011));
    let neither = player_axes(decode(0));
    assert_eq!(both.1, AxisAction::Friction);
    assert_eq!(both.1, neither.1);
    assert_eq!(player_axes(decode(0b1100)).0, AxisAction::Friction);
}

#[test]
fn single_direction_accelerates() {
    assert_eq!(axis_action(true, false), AxisAction::Decrease);
    assert_eq!(axis_action(false, true), AxisAction::Increase);
    assert_eq!(axis_action(false, false), AxisAction::Friction);
    let up = player_axes(decode(1));
    assert_eq!(up, (AxisAction::Friction, AxisAction::Decrease));
    let right = player_axes(decode(8));
    assert_eq!(right, (AxisAction::Increase, AxisAction::Friction));
}

#[test]
fn frame_counter_advances_by_one() {
    let mut f = FrameCount { frame: 41 };
    increase_frame_system(&mut f);
    assert_eq!(f.frame, 42);
}

#[test]
fn first_frames_of_a_single_player() {
    let s0 = update_score(new_score(), false, 0);
    assert_eq!(s0.current, 0);
    assert!(needs_respawn(s0));
    assert_eq!(respawn_slot(0), 0);
    let s1 = update_score(s0, false, 1);
    assert_eq!(s1.current, 1);
    assert_eq!(s1.highscore, 1);
    assert!(!needs_respawn(s1));
}

#[test]
fn collision_resets_current_and_keeps_highscore() {
    let s = Score { highscore: 30, current: 12, last_death_frame: 88 };
    let r = update_score(s, true, 100);
    assert_eq!(r, Score { highscore: 30, current: 0, last_death_frame: 100 });
    assert!(needs_respawn(r));
}

#[test]
fn highscore_never_drops_over_ticks() {
    let mut s = new_score();
    let mut best = 0;
    for frame in 0u32..50 {
        s = update_score(s, frame % 7 == 3, frame);
        assert!(s.highscore >= best);
        best = s.highscore;
    }
    assert_eq!(best, 6);
}

#[test]
fn update_scores_scores_each_player() {
    let scores = vec![
        Score { highscore: 5, current: 4, last_death_frame: 6 },
        Score { highscore: 2, current: 1, last_death_frame: 9 },
    ];
    let r = update_scores(&scores, &vec![false, true], 11);
    assert_eq!(r[0], Score { highscore: 5, current: 5, last_death_frame: 6 });
    assert_eq!(r[1], Score { highscore: 2, current: 0, last_death_frame: 11 });
}

#[test]
fn respawn_slot_depends_on_frame_only() {
    assert_eq!(respawn_slot(37), 37);
    assert_eq!(respawn_slot(37), respawn_slot(37));
    assert_eq!(respawn_slot(237), 37);
    assert_eq!(respawn_slot(100), 0);
}

#[test]
fn top_score_and_speed_multiplier() {
    assert_eq!(top_score(&vec![]), 0);
    let scores = vec![
        Score { highscore: 700, current: 0, last_death_frame: 0 },
        Score { highscore: 2500, current: 3, last_death_frame: 0 },
        Score { highscore: 40, current: 1, last_death_frame: 0 },
    ];
    assert_eq!(top_score(&scores), 2500);
    assert_eq!(speed_multiplier_milli(700), 700);
    assert_eq!(speed_multiplier_milli(2000), 2000);
    assert_eq!(speed_multiplier_milli(2500), 2000);
    assert_eq!(speed_multiplier_milli(0), 0);
}

#[test]
fn target_prefers_last_player_beating_highscore() {
    let calm = Score { highscore: 9, current: 3, last_death_frame: 0 };
    let beating = Score { highscore: 3, current: 4, last_death_frame: 0 };
    assert_eq!(choose_target(&vec![calm, calm, calm], 2), 2);
    assert_eq!(choose_target(&vec![beating, calm, calm], 2), 0);
    assert_eq!(choose_target(&vec![beating, calm, beating], 1), 2);
}
