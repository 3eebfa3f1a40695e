//! The build menu's tower selector: cycles through the tower kinds on
//! offer and builds a tower of the kind currently selected.

use vstd::prelude::*;

use crate::assets::{archer_tower_info, mage_tower_info};
use crate::geometry::Point;
use crate::tower::{Tower, TowerInfo};

verus! {

/// A cursor over the tower kinds on offer.
#[derive(Debug, Clone)]
pub struct TowerSelector {
    /// The kinds on offer, in menu order.
    pub opts: Vec<TowerInfo>,
    /// The kind currently selected.
    pub idx: usize,
}

impl TowerSelector {
    /// Whether the selector is one the simulation admits.
    pub open spec fn wf(self) -> bool {
        &&& self.opts@.len() > 0
        &&& self.idx < self.opts@.len()
        &&& forall|i: int| 0 <= i < self.opts@.len() ==> (#[trigger] self.opts@[i]).wf()
    }

    /// A selector over the stock offer: the archer tower, then the mage
    /// tower, with the archer tower selected.
    pub fn new() -> (s: TowerSelector)
        ensures
            s.wf(),
            s.idx == 0,
            s.opts@.len() == 2,
            s.opts@[0] == crate::assets::spec_archer_tower_info(),
            s.opts@[1] == crate::assets::spec_mage_tower_info(),
    {
        let mut opts: Vec<TowerInfo> = Vec::new();
        opts.push(archer_tower_info());
        opts.push(mage_tower_info());
        TowerSelector { opts, idx: 0 }
    }

    /// The kind currently selected.
    pub fn current(&self) -> (i: TowerInfo)
        requires
            self.wf(),
        ensures
            i == self.opts@[self.idx as int],
    {
        self.opts[self.idx]
    }

    /// A tower of the selected kind at the given position.
    pub fn produce_current(&self, position: Point) -> (t: Tower)
        requires
            self.wf(),
            position.wf(),
        ensures
            t == (Tower {
                aim: crate::tower::Aim { target: None },
                position,
                cooldown_elapsed: 0,
                type_info: self.opts@[self.idx as int],
            }),
            t.wf(),
    {
        Tower::new(position, self.current())
    }

    /// Move the cursor to the next kind, wrapping around at the end.
    pub fn to_next(&mut self)
        requires
            old(self).wf(),
        ensures
            final(self).opts@ == old(self).opts@,
            final(self).idx == if old(self).idx + 1 < old(self).opts@.len() {
                old(self).idx + 1
            } else {
                0
            },
            final(self).wf(),
    {
        let n = self.opts.len();
        if self.idx + 1 >= n {
            self.idx = 0;
        } else {
            self.idx += 1;
        }
    }
}

impl Default for TowerSelector {
    /// The stock selector.
    fn default() -> (s: TowerSelector)
        ensures
            s.wf(),
            s.idx == 0,
            s.opts@.len() == 2,
    {
        TowerSelector::new()
    }
}

} // verus!
