use vstd::prelude::*;

use crate::frame::Frame;
use crate::ratio::Ratio;
use crate::rect::PixelRect;

verus! {

/// Identifies which HUD layout is in use.
#[derive(Debug, Clone, Copy, PartialEq, Eq, Structural)]
pub enum HudType {
    Manemon,
}

/// A whole number of filled gauge units plus a fractional fill of the
/// current unit.
#[derive(Debug, Clone, Copy, PartialEq, Eq, Structural)]
pub struct GaugeValue {
    pub whole: u32,
    pub frac: Ratio,
}

impl GaugeValue {
    /// A reading bounded by `max` units: at `max` the fraction is exactly
    /// zero, below `max` it is strictly less than one, so the value is
    /// strictly below `whole + 1`.
    pub open spec fn wf(self, max: u32) -> bool {
        &&& self.frac.wf()
        &&& self.whole <= max
        &&& (self.whole == max ==> self.frac.is_zero())
        &&& (self.whole < max ==> !self.frac.is_one())
    }
}

/// HP reading for a single frame. Each player's value is None if
/// unreadable.
#[derive(Debug, Clone, Copy, PartialEq, Eq, Structural)]
pub struct HpReading {
    pub p1: Option<Ratio>,
    pub p2: Option<Ratio>,
}

/// SA gauge reading for a single frame: stock count plus bar fill, from
/// zero to three stocks. Each player's value is None if unreadable.
#[derive(Debug, Clone, Copy, PartialEq, Eq, Structural)]
pub struct SaReading {
    pub p1: Option<GaugeValue>,
    pub p2: Option<GaugeValue>,
}

/// OD (Drive) gauge state for a single player.
#[derive(Debug, Clone, Copy, PartialEq, Eq, Structural)]
pub enum OdValue {
    /// Normal drive gauge: zero (empty) to six (full) segments.
    Normal(GaugeValue),
    /// Burnout recovery: zero (just entered) to one (fully recovered).
    Burnout(Ratio),
}

/// OD gauge reading for a single frame. Each player's value is None if
/// unreadable.
#[derive(Debug, Clone, Copy, PartialEq, Eq, Structural)]
pub struct OdReading {
    pub p1: Option<OdValue>,
    pub p2: Option<OdValue>,
}

/// A region to draw on debug frames, with an RGB line color.
#[derive(Debug, Clone, Copy)]
pub struct DebugRegion {
    pub rect: PixelRect,
    pub color: (u8, u8, u8),
}

/// Common interface that every HUD layout implementation must provide.
/// Each implementation fixes, as specification functions, what it reads
/// from a frame; the executable methods return exactly those values, and
/// every reading they produce is within its documented bounds.
pub trait Hud: Sized {
    /// The layout's geometry is the intended one.
    spec fn wf(&self) -> bool;

    /// The frame has the resolution this layout supports.
    spec fn frame_ok(&self, frame: Frame) -> bool;

    spec fn spec_hud_type(&self) -> HudType;

    spec fn spec_detect_hud(&self, frame: Frame) -> bool;

    spec fn spec_analyze_hp(&self, frame: Frame) -> HpReading;

    spec fn spec_analyze_sa(&self, frame: Frame) -> SaReading;

    spec fn spec_analyze_od(&self, frame: Frame) -> OdReading;

    spec fn spec_debug_regions(&self) -> Seq<DebugRegion>;

    /// Return the type of this HUD.
    fn hud_type(&self) -> (t: HudType)
        ensures
            t == self.spec_hud_type(),
    ;

    /// Detect whether this HUD is present in the frame.
    fn detect_hud(&self, frame: &Frame) -> (r: bool)
        requires
            self.wf(),
            self.frame_ok(*frame),
        ensures
            r == self.spec_detect_hud(*frame),
    ;

    /// Read HP fill ratios from a single frame.
    fn analyze_hp(&self, frame: &Frame) -> (r: HpReading)
        requires
            self.wf(),
            self.frame_ok(*frame),
        ensures
            r == self.spec_analyze_hp(*frame),
            match r.p1 {
                Some(x) => x.wf(),
                None => true,
            },
            match r.p2 {
                Some(x) => x.wf(),
                None => true,
            },
    ;

    /// Read SA gauge levels (zero to three stocks) from a single frame.
    fn analyze_sa(&self, frame: &Frame) -> (r: SaReading)
        requires
            self.wf(),
            self.frame_ok(*frame),
        ensures
            r == self.spec_analyze_sa(*frame),
            match r.p1 {
                Some(v) => v.wf(3),
                None => true,
            },
            match r.p2 {
                Some(v) => v.wf(3),
                None => true,
            },
    ;

    /// Read OD (Drive) gauge levels from a single frame.
    fn analyze_od(&self, frame: &Frame) -> (r: OdReading)
        requires
            self.wf(),
            self.frame_ok(*frame),
        ensures
            r == self.spec_analyze_od(*frame),
            match r.p1 {
                Some(OdValue::Normal(v)) => v.wf(6),
                Some(OdValue::Burnout(b)) => b.wf(),
                None => true,
            },
            match r.p2 {
                Some(OdValue::Normal(v)) => v.wf(6),
                Some(OdValue::Burnout(b)) => b.wf(),
                None => true,
            },
    ;

    /// Return the regions to draw on debug frames.
    fn debug_regions(&self) -> (v: Vec<DebugRegion>)
        requires
            self.wf(),
        ensures
            v@ == self.spec_debug_regions(),
    ;
}

} // verus!
