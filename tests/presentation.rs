use rusty_runner::atlas::PoseAtlas;
use rusty_runner::controller::{InputSnapshot, SimulationState, POSE_PERIOD_NANOS};
use rusty_runner::presentation::{DrawCommand, Placement, TILE_COUNT};

fn tiles(commands: &[DrawCommand]) -> Vec<Placement> {
    commands
        .iter()
        .filter_map(|c| match c {
            DrawCommand::Tile(p) => Some(*p),
            _ => None,
        })
        .collect()
}

fn runners(commands: &[DrawCommand]) -> Vec<DrawCommand> {
    commands.iter().copied().filter(|c| matches!(c, DrawCommand::Runner { .. })).collect()
}

#[test]
fn frame_is_clear_tiles_layer_runner_present() {
    let s = SimulationState::new();
    let atlas = PoseAtlas::sample();
    let commands = s.draw(&atlas);
    assert_eq!(commands.len(), 32);
    assert_eq!(commands[0], DrawCommand::Clear);
    assert!(commands[1..29].iter().all(|c| matches!(c, DrawCommand::Tile(_))));
    assert_eq!(
        commands[29],
        DrawCommand::GroundLayer(Placement {
            x_halves: 0,
            y_halves: 1050,
            scale_x_percent: 100,
            scale_y_percent: 100,
            offset_x_halves: 1500,
            offset_y_halves: 1500,
        })
    );
    assert!(matches!(commands[30], DrawCommand::Runner { .. }));
    assert_eq!(commands[31], DrawCommand::Present);
}

#[test]
fn frame_has_twenty_eight_tiles_skipping_the_gap() {
    for (pos, pose) in [(0i64, 0usize), (-40, 9), (1_000_000, 5)] {
        let s = SimulationState::starting_at(pos, pose);
        let commands = s.draw(&PoseAtlas::sample());
        let t = tiles(&commands);
        assert_eq!(t.len(), 28);
        assert_eq!(t.len(), TILE_COUNT);
        let xs: Vec<i64> = t.iter().map(|p| p.x_halves).collect();
        let expected: Vec<i64> = (0..30i64).filter(|i| *i != 5 && *i != 6).map(|i| 150 * i).collect();
        assert_eq!(xs, expected);
        for p in &t {
            assert_eq!(p.y_halves, 0);
            assert_eq!(p.scale_x_percent, 50);
            assert_eq!(p.scale_y_percent, 50);
        }
    }
}

#[test]
fn one_runner_command_with_current_pose_region() {
    let atlas = PoseAtlas::sample();
    let mut s = SimulationState::new();
    for k in 0..25 {
        let commands = s.draw(&atlas);
        let r = runners(&commands);
        assert_eq!(r.len(), 1);
        match r[0] {
            DrawCommand::Runner { source, clip, at } => {
                assert_eq!(source, atlas.region(s.pose()));
                assert_eq!(clip.scale_x_percent, 22);
                assert_eq!(clip.scale_y_percent, 20);
                assert_eq!(at.x_halves, s.position_halves());
                assert_eq!(at.y_halves, 874);
            }
            _ => unreachable!(),
        }
        let input = InputSnapshot { move_left: k % 3 == 0, move_right: k % 2 == 0 };
        s.update(POSE_PERIOD_NANOS, input);
    }
}

#[test]
fn runner_follows_position_and_pose() {
    let atlas = PoseAtlas::sample();
    let mut s = SimulationState::new();
    for _ in 0..10 {
        s.update(POSE_PERIOD_NANOS, InputSnapshot { move_left: false, move_right: true });
    }
    s.update(POSE_PERIOD_NANOS, InputSnapshot { move_left: true, move_right: false });
    let commands = s.draw(&atlas);
    match runners(&commands)[0] {
        DrawCommand::Runner { source, at, .. } => {
            assert_eq!(at.x_halves, 19);
            assert_eq!(source, atlas.region(1));
        }
        _ => unreachable!(),
    }
}
