use led_life::control::{Action, Controller};
use led_life::life::{complement_board, init_board, Generator, Grid};
use nanorand::Pcg64;

fn block() -> Grid {
    let mut g: Grid = [[0u8; 5]; 5];
    g[1][1] = 1;
    g[1][2] = 1;
    g[2][1] = 1;
    g[2][2] = 1;
    g
}

#[test]
fn button_a_reseeds_before_anything_else() {
    let mut ctl = Controller { ignore_b_frames: 0, frames_waited: 3 };
    let mut grid = block();
    let mut rng = Generator::new(Pcg64::new_seed(99));
    let mut same_seed = Generator::new(Pcg64::new_seed(99));
    let act = ctl.step(&mut grid, &mut rng, true, true);
    assert_eq!(act, Action::Reseed);
    assert_eq!(grid, init_board(&mut same_seed));
    assert_eq!(ctl.frames_waited, 0);
    assert_eq!(ctl.ignore_b_frames, 0);
}

#[test]
fn press_during_debounce_does_not_flip() {
    let mut ctl = Controller { ignore_b_frames: 3, frames_waited: 0 };
    let mut grid = block();
    let mut rng = Generator::new(Pcg64::new_seed(1));
    let act = ctl.step(&mut grid, &mut rng, false, true);
    assert_ne!(act, Action::Flip);
    assert_eq!(act, Action::Advance);
    assert_eq!(grid, block());
    assert_eq!(ctl.ignore_b_frames, 2);
}

#[test]
fn press_outside_debounce_flips_and_arms_debounce() {
    let mut ctl = Controller::new();
    let mut grid = block();
    let mut rng = Generator::new(Pcg64::new_seed(1));
    let act = ctl.step(&mut grid, &mut rng, false, true);
    assert_eq!(act, Action::Flip);
    let mut expected = block();
    complement_board(&mut expected);
    assert_eq!(grid, expected);
    assert_eq!(ctl.ignore_b_frames, 4);
}

#[test]
fn settled_grid_restarts_on_fifth_frame() {
    let mut ctl = Controller { ignore_b_frames: 0, frames_waited: 4 };
    let mut grid: Grid = [[0u8; 5]; 5];
    let mut rng = Generator::new(Pcg64::new_seed(5));
    let mut same_seed = Generator::new(Pcg64::new_seed(5));
    let act = ctl.step(&mut grid, &mut rng, false, false);
    assert_eq!(act, Action::Restart);
    assert_eq!(ctl.frames_waited, 0);
    assert_eq!(grid, init_board(&mut same_seed));
}

#[test]
fn settled_grid_waits_before_restart() {
    let mut ctl = Controller::new();
    let mut grid: Grid = [[0u8; 5]; 5];
    let mut rng = Generator::new(Pcg64::new_seed(5));
    for expected in 1..5u8 {
        assert_eq!(ctl.step(&mut grid, &mut rng, false, false), Action::Wait);
        assert_eq!(ctl.frames_waited, expected);
        assert_eq!(grid, [[0u8; 5]; 5]);
    }
    assert_eq!(ctl.step(&mut grid, &mut rng, false, false), Action::Restart);
    assert_eq!(ctl.frames_waited, 0);
}

#[test]
fn live_grid_advances_and_resets_settle() {
    let mut ctl = Controller { ignore_b_frames: 0, frames_waited: 2 };
    let mut grid: Grid = [[0u8; 5]; 5];
    grid[2][1] = 1;
    grid[2][2] = 1;
    grid[2][3] = 1;
    let mut rng = Generator::new(Pcg64::new_seed(5));
    assert_eq!(ctl.step(&mut grid, &mut rng, false, false), Action::Advance);
    assert_eq!(ctl.frames_waited, 0);
    let mut expected: Grid = [[0u8; 5]; 5];
    expected[1][2] = 1;
    expected[2][2] = 1;
    expected[3][2] = 1;
    assert_eq!(grid, expected);
}

#[test]
fn debounce_counts_down_to_zero() {
    let mut ctl = Controller { ignore_b_frames: 1, frames_waited: 0 };
    let mut grid = block();
    let mut rng = Generator::new(Pcg64::new_seed(5));
    ctl.step(&mut grid, &mut rng, false, false);
    assert_eq!(ctl.ignore_b_frames, 0);
    ctl.step(&mut grid, &mut rng, false, false);
    assert_eq!(ctl.ignore_b_frames, 0);
}

#[test]
fn select_action_follows_priority() {
    let ctl = Controller { ignore_b_frames: 0, frames_waited: 0 };
    assert_eq!(ctl.select_action(true, true, true), Action::Reseed);
    assert_eq!(ctl.select_action(false, true, true), Action::Flip);
    assert_eq!(ctl.select_action(false, false, true), Action::Wait);
    assert_eq!(ctl.select_action(false, false, false), Action::Advance);
    let waiting = Controller { ignore_b_frames: 2, frames_waited: 4 };
    assert_eq!(waiting.select_action(false, true, true), Action::Restart);
}

#[test]
fn frames_without_reseed_leave_generator_alone() {
    let mut ctl = Controller::new();
    let mut rng = Generator::new(Pcg64::new_seed(11));
    let mut untouched = Generator::new(Pcg64::new_seed(11));

    let mut live = block();
    assert_eq!(ctl.step(&mut live, &mut rng, false, false), Action::Advance);
    assert_eq!(ctl.step(&mut live, &mut rng, false, true), Action::Flip);
    let mut dead: Grid = [[0u8; 5]; 5];
    assert_eq!(ctl.step(&mut dead, &mut rng, false, false), Action::Wait);

    assert_eq!(init_board(&mut rng), init_board(&mut untouched));
}

#[test]
fn flip_resets_settle_counter() {
    let mut ctl = Controller { ignore_b_frames: 0, frames_waited: 3 };
    let mut grid: Grid = [[0u8; 5]; 5];
    let mut rng = Generator::new(Pcg64::new_seed(3));
    assert_eq!(ctl.step(&mut grid, &mut rng, false, true), Action::Flip);
    assert_eq!(ctl.frames_waited, 0);
    assert_eq!(grid, [[1u8; 5]; 5]);
}
