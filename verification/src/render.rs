//! The render step: composite the current colour and write it to the
//! outputs only where it differs from what was written last.

use crate::color_state::{ColorState, LockUnavailable};
use crate::rgb_led::{composited, LogicalColor, PhysicalColor};
use vstd::prelude::*;

verus! {

impl PhysicalColor {
    /// All three outputs off.
    pub fn off() -> (res: PhysicalColor)
        ensures
            res == (PhysicalColor { r: 0, g: 0, b: 0 }),
    {
        PhysicalColor { r: 0, g: 0, b: 0 }
    }

    /// The duty of each output, one per channel: red, green, blue.
    pub fn duties(&self) -> (res: [u32; 3])
        ensures
            res@ == seq![self.r as u32, self.g as u32, self.b as u32],
    {
        let res: [u32; 3] = [self.r as u32, self.g as u32, self.b as u32];
        assert(res@ =~= seq![self.r as u32, self.g as u32, self.b as u32]);
        res
    }
}

/// What the render loop remembers between ticks.
#[derive(Clone, Copy, Debug, PartialEq, Eq, Structural)]
pub struct RenderLoop {
    pub last_rendered: PhysicalColor,
}

impl RenderLoop {
    /// What a tick writes to the outputs, if anything: the composited colour
    /// where it differs from the last one written. A tick that could not
    /// read the record writes nothing.
    pub open spec fn written(self, snapshot: Result<LogicalColor, LockUnavailable>) -> Option<
        PhysicalColor,
    > {
        match snapshot {
            Ok(color) => if composited(color) == self.last_rendered {
                None
            } else {
                Some(composited(color))
            },
            Err(_) => None,
        }
    }

    /// The loop after a tick: it remembers what the tick wrote.
    pub open spec fn ticked(self, snapshot: Result<LogicalColor, LockUnavailable>) -> RenderLoop {
        match self.written(snapshot) {
            Some(color) => RenderLoop { last_rendered: color },
            None => self,
        }
    }

    /// A loop that has rendered nothing yet: the outputs are off.
    pub fn new() -> (res: RenderLoop)
        ensures
            res.last_rendered == (PhysicalColor { r: 0, g: 0, b: 0 }),
    {
        RenderLoop { last_rendered: PhysicalColor::off() }
    }

    /// One tick on a given outcome of reading the record. Returns the colour
    /// to write to the outputs, or `None` where nothing is to be written.
    pub fn tick(&mut self, snapshot: Result<LogicalColor, LockUnavailable>) -> (res: Option<
        PhysicalColor,
    >)
        ensures
            res == old(self).written(snapshot),
            *final(self) == old(self).ticked(snapshot),
    {
        match snapshot {
            Ok(color) => {
                let current = color.get_updated_channels();
                if current != self.last_rendered {
                    self.last_rendered = current;
                    Some(current)
                } else {
                    None
                }
            },
            Err(_) => None,
        }
    }

    /// One tick on the shared record.
    pub fn tick_on(&mut self, state: &ColorState) -> (res: Option<PhysicalColor>)
        ensures
            exists|snapshot: Result<LogicalColor, LockUnavailable>|
                res == #[trigger] old(self).written(snapshot) && *final(self) == old(self).ticked(
                    snapshot,
                ),
    {
        self.tick(state.snapshot())
    }
}

/// A tick on a colour that the tick before it already saw writes nothing.
pub proof fn lemma_unchanged_color_is_not_rewritten(start: RenderLoop, color: LogicalColor)
    ensures
        start.ticked(Ok(color)).last_rendered == composited(color),
        start.ticked(Ok(color)).written(Ok(color)).is_none(),
        start.ticked(Ok(color)).ticked(Ok(color)) == start.ticked(Ok(color)),
{
}

/// A tick on a colour that renders otherwise than the one the tick before it
/// saw writes the new rendering, once.
pub proof fn lemma_changed_color_is_written(
    start: RenderLoop,
    earlier: LogicalColor,
    later: LogicalColor,
)
    requires
        composited(later) != composited(earlier),
    ensures
        start.ticked(Ok(earlier)).written(Ok(later)) == Some(composited(later)),
        start.ticked(Ok(earlier)).ticked(Ok(later)).written(Ok(later)).is_none(),
{
}

} // verus!
