use crate::controller::POSE_COUNT;
use vstd::prelude::*;

verus! {

/// A rectangle of a sprite sheet, in hundredths of the sheet's width and height.
#[derive(Clone, Copy, Debug, PartialEq, Eq, Structural)]
pub struct Region {
    pub x: u32,
    pub y: u32,
    pub w: u32,
    pub h: u32,
}

/// Number of poses on one row of the sample sheet.
pub const SHEET_COLUMNS: u32 = 5;

/// Width of one pose on the sample sheet.
pub const POSE_WIDTH: u32 = 20;

/// Height of one pose on the sample sheet.
pub const POSE_HEIGHT: u32 = 50;

/// Distance from the top of one row of poses to the top of the next.
pub const ROW_PITCH: u32 = 55;

/// The region of pose `k` on the sample sheet: five poses a row, two rows.
pub open spec fn sample_region(k: int) -> Region {
    Region {
        x: (POSE_WIDTH * (k % SHEET_COLUMNS as int)) as u32,
        y: (ROW_PITCH * (k / SHEET_COLUMNS as int)) as u32,
        w: POSE_WIDTH,
        h: POSE_HEIGHT,
    }
}

pub open spec fn sample_regions() -> Seq<Region> {
    Seq::new(POSE_COUNT as nat, |k: int| sample_region(k))
}

/// The sheet regions of the runner's poses, one for each pose index.
pub struct PoseAtlas {
    regions: Vec<Region>,
}

impl View for PoseAtlas {
    type V = Seq<Region>;

    closed spec fn view(&self) -> Seq<Region> {
        self.regions@
    }
}

impl PoseAtlas {
    pub open spec fn wf(&self) -> bool {
        self@.len() == POSE_COUNT
    }

    /// The atlas of the sample runner sheet.
    pub fn sample() -> (r: PoseAtlas)
        ensures
            r.wf(),
            r@ == sample_regions(),
    {
        let mut regions: Vec<Region> = Vec::new();
        let mut k: u32 = 0;
        while k < POSE_COUNT as u32
            invariant
                k <= POSE_COUNT,
                regions@ =~= Seq::new(k as nat, |j: int| sample_region(j)),
            decreases POSE_COUNT - k,
        {
            let region = Region {
                x: POSE_WIDTH * (k % SHEET_COLUMNS),
                y: ROW_PITCH * (k / SHEET_COLUMNS),
                w: POSE_WIDTH,
                h: POSE_HEIGHT,
            };
            assert(region == sample_region(k as int));
            regions.push(region);
            k = k + 1;
        }
        PoseAtlas { regions }
    }

    /// An atlas of the given regions, in pose order; `None` unless there is
    /// exactly one region for each pose.
    pub fn from_regions(regions: Vec<Region>) -> (r: Option<PoseAtlas>)
        ensures
            r is Some <==> regions@.len() == POSE_COUNT,
            r matches Some(a) ==> a.wf() && a@ == regions@,
    {
        if regions.len() == POSE_COUNT {
            Some(PoseAtlas { regions })
        } else {
            None
        }
    }

    /// The region of pose `pose`.
    pub fn region(&self, pose: usize) -> (r: Region)
        requires
            self.wf(),
            pose < POSE_COUNT,
        ensures
            r == self@[pose as int],
    {
        self.regions[pose]
    }
}

} // verus!
