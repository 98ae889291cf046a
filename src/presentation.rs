use crate::atlas::{PoseAtlas, Region};
use crate::controller::{RunnerView, SimulationState, POSE_COUNT};
use vstd::prelude::*;

verus! {

/// Number of tile slots along the ground.
pub const TILE_SLOTS: u32 = 30;

/// The first slot left empty, for a break in the scenery.
pub const GAP_FIRST: u32 = 5;

/// The second slot left empty.
pub const GAP_SECOND: u32 = 6;

/// Number of tiles placed: every slot but the two of the gap.
pub const TILE_COUNT: usize = 28;

/// Horizontal distance between two tile slots.
pub const TILE_SPACING: i64 = 75;

/// Scale of each ground tile, in percent.
pub const TILE_SCALE_PERCENT: u32 = 50;

/// Vertical position of the ground layer.
pub const GROUND_Y: i64 = 525;

/// Offset of the ground layer, on both axes.
pub const GROUND_OFFSET: i64 = 750;

/// Horizontal scale of the runner's pose, in percent.
pub const RUNNER_SCALE_X_PERCENT: u32 = 22;

/// Vertical scale of the runner's pose, in percent.
pub const RUNNER_SCALE_Y_PERCENT: u32 = 20;

/// Vertical baseline the runner stands on.
pub const RUNNER_BASELINE: i64 = 437;

/// Where and how large something is drawn: destination and offset in
/// half-units, scale in percent.
#[derive(Clone, Copy, Debug, PartialEq, Eq, Structural)]
pub struct Placement {
    pub x_halves: i64,
    pub y_halves: i64,
    pub scale_x_percent: u32,
    pub scale_y_percent: u32,
    pub offset_x_halves: i64,
    pub offset_y_halves: i64,
}

/// One instruction to the rendering surface.
#[derive(Clone, Copy, Debug, PartialEq, Eq, Structural)]
pub enum DrawCommand {
    /// Clear the frame.
    Clear,
    /// Add one ground tile to the ground layer.
    Tile(Placement),
    /// Draw the ground layer gathered so far.
    GroundLayer(Placement),
    /// Draw the runner: the `source` region of the pose sheet, scaled by
    /// `clip`, at `at`.
    Runner { source: Region, clip: Placement, at: Placement },
    /// Show the frame.
    Present,
}

/// The slot of the `k`-th tile placed: the slots in order, skipping the gap.
pub open spec fn tile_slot(k: int) -> int {
    if k < GAP_FIRST {
        k
    } else {
        k + 2
    }
}

pub open spec fn tile_placement(slot: int) -> Placement {
    Placement {
        x_halves: (2 * TILE_SPACING * slot) as i64,
        y_halves: 0,
        scale_x_percent: TILE_SCALE_PERCENT,
        scale_y_percent: TILE_SCALE_PERCENT,
        offset_x_halves: 0,
        offset_y_halves: 0,
    }
}

pub open spec fn tile_commands() -> Seq<DrawCommand> {
    Seq::new(TILE_COUNT as nat, |k: int| DrawCommand::Tile(tile_placement(tile_slot(k))))
}

pub open spec fn ground_layer_placement() -> Placement {
    Placement {
        x_halves: 0,
        y_halves: (2 * GROUND_Y) as i64,
        scale_x_percent: 100,
        scale_y_percent: 100,
        offset_x_halves: (2 * GROUND_OFFSET) as i64,
        offset_y_halves: (2 * GROUND_OFFSET) as i64,
    }
}

pub open spec fn runner_clip() -> Placement {
    Placement {
        x_halves: 0,
        y_halves: 0,
        scale_x_percent: RUNNER_SCALE_X_PERCENT,
        scale_y_percent: RUNNER_SCALE_Y_PERCENT,
        offset_x_halves: 0,
        offset_y_halves: 0,
    }
}

pub open spec fn runner_placement(position_halves: int) -> Placement {
    Placement {
        x_halves: position_halves as i64,
        y_halves: (2 * RUNNER_BASELINE) as i64,
        scale_x_percent: 100,
        scale_y_percent: 100,
        offset_x_halves: 0,
        offset_y_halves: 0,
    }
}

/// The draw commands of one frame: clear, the ground tiles and their layer,
/// the runner in its current pose at its position, and present.
pub open spec fn frame(v: RunnerView, atlas: Seq<Region>) -> Seq<DrawCommand> {
    seq![DrawCommand::Clear] + tile_commands() + seq![
        DrawCommand::GroundLayer(ground_layer_placement()),
        DrawCommand::Runner {
            source: atlas[v.pose as int],
            clip: runner_clip(),
            at: runner_placement(v.position_halves),
        },
        DrawCommand::Present,
    ]
}

/// Number of tiles placed before slot `slot` is looked at.
spec fn placed_before(slot: int) -> int {
    if slot <= GAP_FIRST {
        slot
    } else if slot == GAP_SECOND {
        GAP_FIRST as int
    } else {
        slot - 2
    }
}

impl SimulationState {
    /// The draw commands of the frame that shows this state.
    pub fn draw(&self, atlas: &PoseAtlas) -> (r: Vec<DrawCommand>)
        requires
            self.wf(),
            atlas.wf(),
        ensures
            r@ == frame(self@, atlas@),
    {
        let mut commands: Vec<DrawCommand> = Vec::new();
        commands.push(DrawCommand::Clear);
        let mut slot: u32 = 0;
        let mut placed: usize = 0;
        while slot < TILE_SLOTS
            invariant
                slot <= TILE_SLOTS,
                placed == placed_before(slot as int),
                commands@ =~= seq![DrawCommand::Clear] + Seq::new(
                    placed as nat,
                    |k: int| DrawCommand::Tile(tile_placement(tile_slot(k))),
                ),
            decreases TILE_SLOTS - slot,
        {
            if slot != GAP_FIRST && slot != GAP_SECOND {
                assert(0 <= 2 * TILE_SPACING * (slot as i64) < 2 * TILE_SPACING * TILE_SLOTS)
                    by (nonlinear_arith)
                    requires
                        slot < TILE_SLOTS,
                ;
                let tile = Placement {
                    x_halves: 2 * TILE_SPACING * (slot as i64),
                    y_halves: 0,
                    scale_x_percent: TILE_SCALE_PERCENT,
                    scale_y_percent: TILE_SCALE_PERCENT,
                    offset_x_halves: 0,
                    offset_y_halves: 0,
                };
                assert(tile == tile_placement(tile_slot(placed as int)));
                commands.push(DrawCommand::Tile(tile));
                placed = placed + 1;
            }
            slot = slot + 1;
        }
        commands.push(
            DrawCommand::GroundLayer(
                Placement {
                    x_halves: 0,
                    y_halves: 2 * GROUND_Y,
                    scale_x_percent: 100,
                    scale_y_percent: 100,
                    offset_x_halves: 2 * GROUND_OFFSET,
                    offset_y_halves: 2 * GROUND_OFFSET,
                },
            ),
        );
        let clip = Placement {
            x_halves: 0,
            y_halves: 0,
            scale_x_percent: RUNNER_SCALE_X_PERCENT,
            scale_y_percent: RUNNER_SCALE_Y_PERCENT,
            offset_x_halves: 0,
            offset_y_halves: 0,
        };
        let at = Placement {
            x_halves: self.position_halves(),
            y_halves: 2 * RUNNER_BASELINE,
            scale_x_percent: 100,
            scale_y_percent: 100,
            offset_x_halves: 0,
            offset_y_halves: 0,
        };
        commands.push(DrawCommand::Runner { source: atlas.region(self.pose()), clip, at });
        commands.push(DrawCommand::Present);
        commands
    }
}

/// Number of commands of `s` that satisfy `p`.
pub open spec fn count_where(s: Seq<DrawCommand>, p: spec_fn(DrawCommand) -> bool) -> nat
    decreases s.len(),
{
    if s.len() == 0 {
        0
    } else {
        count_where(s.drop_last(), p) + if p(s.last()) {
            1nat
        } else {
            0nat
        }
    }
}

pub open spec fn is_tile() -> spec_fn(DrawCommand) -> bool {
    |c: DrawCommand| c is Tile
}

pub open spec fn is_runner() -> spec_fn(DrawCommand) -> bool {
    |c: DrawCommand| c is Runner
}

proof fn lemma_count_concat(a: Seq<DrawCommand>, b: Seq<DrawCommand>, p: spec_fn(DrawCommand) -> bool)
    ensures
        count_where(a + b, p) == count_where(a, p) + count_where(b, p),
    decreases b.len(),
{
    if b.len() > 0 {
        assert((a + b).drop_last() =~= a + b.drop_last());
        lemma_count_concat(a, b.drop_last(), p);
    } else {
        assert(a + b =~= a);
    }
}

proof fn lemma_count_uniform(s: Seq<DrawCommand>, p: spec_fn(DrawCommand) -> bool)
    ensures
        (forall|i: int| 0 <= i < s.len() ==> #[trigger] p(s[i])) ==> count_where(s, p) == s.len(),
        (forall|i: int| 0 <= i < s.len() ==> !#[trigger] p(s[i])) ==> count_where(s, p) == 0,
    decreases s.len(),
{
    if s.len() > 0 {
        let init = s.drop_last();
        assert forall|i: int| 0 <= i < init.len() implies init[i] == s[i] by {}
        lemma_count_uniform(init, p);
        assert(s.last() == s[s.len() - 1]);
    }
}

/// Whatever the state, a frame places exactly the tiles of every slot but the
/// two of the gap: as many tile commands as slots less two.
pub proof fn lemma_frame_tile_count(v: RunnerView, atlas: Seq<Region>)
    requires
        v.pose < POSE_COUNT,
        atlas.len() == POSE_COUNT,
    ensures
        count_where(frame(v, atlas), is_tile()) == TILE_COUNT,
        TILE_COUNT == TILE_SLOTS - 2,
{
    let head = seq![DrawCommand::Clear];
    let tail = frame(v, atlas).subrange(1 + TILE_COUNT as int, frame(v, atlas).len() as int);
    assert(frame(v, atlas) =~= head + tile_commands() + tail);
    lemma_count_concat(head + tile_commands(), tail, is_tile());
    lemma_count_concat(head, tile_commands(), is_tile());
    lemma_count_uniform(head, is_tile());
    lemma_count_uniform(tile_commands(), is_tile());
    lemma_count_uniform(tail, is_tile());
}

/// Whatever the state, a frame holds exactly one runner command, and it draws
/// the atlas region of the pose shown.
pub proof fn lemma_frame_runner(v: RunnerView, atlas: Seq<Region>)
    requires
        v.pose < POSE_COUNT,
        atlas.len() == POSE_COUNT,
    ensures
        count_where(frame(v, atlas), is_runner()) == 1,
        forall|i: int|
            0 <= i < frame(v, atlas).len() ==> (#[trigger] frame(v, atlas)[i] matches DrawCommand::Runner {
                source,
                ..
            } ==> source == atlas[v.pose as int]),
{
    let f = frame(v, atlas);
    let n = 1 + TILE_COUNT as int;
    let before = f.subrange(0, n + 1);
    let runner = f.subrange(n + 1, n + 2);
    let after = f.subrange(n + 2, f.len() as int);
    assert(f =~= before + runner + after);
    lemma_count_concat(before + runner, after, is_runner());
    lemma_count_concat(before, runner, is_runner());
    lemma_count_uniform(before, is_runner());
    lemma_count_uniform(runner, is_runner());
    lemma_count_uniform(after, is_runner());
}

} // verus!
