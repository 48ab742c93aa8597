//! Anchors collected over the passes of one frame.
use crate::ieee;
use crate::witness::anchor;
use crate::witness::anchor::Anchor;
use crate::witness::error::{ErrorView, Result};
use vstd::prelude::*;

verus! {

/// A semantic target as one pass drew it, in logical coordinates.
#[derive(Debug)]
pub struct PassTarget {
    pub name: String,
    pub rect: [u32; 4],
    pub focused: bool,
}

/// The targets of the pass under way.
///
/// A pass that a frame discards leaves nothing behind: its replacement begins
/// anew.
#[derive(Debug)]
pub struct AnchorPass {
    targets: Vec<PassTarget>,
}

impl View for AnchorPass {
    type V = Seq<PassTarget>;

    closed spec fn view(&self) -> Seq<PassTarget> {
        self.targets@
    }
}

impl Default for AnchorPass {
    fn default() -> (pass: Self)
        ensures
            pass@ == Seq::<PassTarget>::empty(),
    {
        AnchorPass { targets: Vec::new() }
    }
}

/// Whether scaling a rectangle can come out so.
pub open spec fn scales<M: Fn([u32; 4], u32) -> [u32; 4]>(
    scale: &M,
    target: PassTarget,
    pixels_per_point: u32,
    scaled: [u32; 4],
) -> bool {
    scale.ensures((target.rect, pixels_per_point), scaled)
}

/// Whether a target can become an anchor.
pub open spec fn becomes<M: Fn([u32; 4], u32) -> [u32; 4]>(
    scale: &M,
    target: PassTarget,
    pixels_per_point: u32,
    made: Anchor,
) -> bool {
    &&& scales(scale, target, pixels_per_point, made.rect)
    &&& ieee::positive(pixels_per_point)
    &&& anchor::anchor_objection(target.name@, made.rect@) is None
    &&& made.name@ == target.name@
    &&& made.focused == target.focused
}

/// Whether a target can become some anchor.
pub open spec fn succeeds<M: Fn([u32; 4], u32) -> [u32; 4]>(
    scale: &M,
    target: PassTarget,
    pixels_per_point: u32,
) -> bool {
    exists|made: Anchor| #[trigger] becomes(scale, target, pixels_per_point, made)
}

/// Whether a target can fail to become an anchor, for a reason.
pub open spec fn fails<M: Fn([u32; 4], u32) -> [u32; 4]>(
    scale: &M,
    target: PassTarget,
    pixels_per_point: u32,
    error: ErrorView,
) -> bool {
    exists|scaled: [u32; 4]| #[trigger]
        scales(scale, target, pixels_per_point, scaled) && if !ieee::positive(pixels_per_point) {
            error == (ErrorView::Anchor {
                name: target.name@,
                detail: "pixels per point must be positive and finite"@,
            })
        } else {
            anchor::anchor_objection(target.name@, scaled@) matches Some(detail) && error == (
            ErrorView::Anchor { name: target.name@, detail })
        }
}

impl AnchorPass {
    /// Begin a pass: forget what an earlier one drew.
    pub fn reset(&mut self)
        ensures
            final(self)@ == Seq::<PassTarget>::empty(),
    {
        self.targets = Vec::new();
    }

    /// Register a semantic target from painter-only code.
    pub fn record_rect(&mut self, name: String, rect: [u32; 4])
        ensures
            final(self)@ == old(self)@.push(PassTarget { name, rect, focused: false }),
    {
        self.targets.push(PassTarget { name, rect, focused: false });
    }

    /// Register a semantic target from a widget, with its keyboard focus.
    pub fn record_response(&mut self, name: String, rect: [u32; 4], focused: bool)
        ensures
            final(self)@ == old(self)@.push(PassTarget { name, rect, focused }),
    {
        self.targets.push(PassTarget { name, rect, focused });
    }

    /// Consume the pass's targets in physical-pixel coordinates. `scale`
    /// multiplies a rectangle's edges.
    pub fn take<M: Fn([u32; 4], u32) -> [u32; 4]>(&mut self, pixels_per_point: u32, scale: &M) -> (
        anchors: Result<Vec<Anchor>>)
        requires
            forall|rect: [u32; 4]| #[trigger] scale.requires((rect, pixels_per_point)),
        ensures
            final(self)@ == Seq::<PassTarget>::empty(),
            match anchors {
                Ok(anchors) => anchors@.len() == old(self)@.len() && forall|i: int|
                    0 <= i < anchors@.len() ==> becomes(
                        scale,
                        old(self)@[i],
                        pixels_per_point,
                        #[trigger] anchors@[i],
                    ),
                Err(error) => exists|i: int|
                    0 <= i < old(self)@.len() && fails(
                        scale,
                        #[trigger] old(self)@[i],
                        pixels_per_point,
                        error@,
                    ) && forall|j: int|
                        0 <= j < i ==> succeeds(
                            scale,
                            #[trigger] old(self)@[j],
                            pixels_per_point,
                        ),
            },
    {
        let mut targets: Vec<PassTarget> = Vec::new();
        std::mem::swap(&mut targets, &mut self.targets);
        let mut anchors: Vec<Anchor> = Vec::new();
        let mut index: usize = 0;
        while index < targets.len()
            invariant
                index <= targets.len(),
                targets@ == old(self)@,
                self@ == Seq::<PassTarget>::empty(),
                forall|rect: [u32; 4]| #[trigger] scale.requires((rect, pixels_per_point)),
                anchors@.len() == index,
                forall|i: int|
                    0 <= i < index ==> becomes(
                        scale,
                        targets@[i],
                        pixels_per_point,
                        #[trigger] anchors@[i],
                    ),
            decreases targets.len() - index,
        {
            let target = &targets[index];
            let scaled = scale(target.rect, pixels_per_point);
            assert(scales(scale, targets@[index as int], pixels_per_point, scaled));
            match Anchor::logical(target.name.as_str(), scaled, pixels_per_point) {
                Ok(anchor) => {
                    anchors.push(anchor.with_focus(target.focused));
                },
                Err(error) => {
                    assert(fails(scale, targets@[index as int], pixels_per_point, error@));
                    assert forall|j: int| 0 <= j < index implies succeeds(
                        scale,
                        #[trigger] targets@[j],
                        pixels_per_point,
                    ) by {
                        assert(becomes(scale, targets@[j], pixels_per_point, anchors@[j]));
                    }
                    return Err(error);
                },
            }
            index += 1;
        }
        Ok(anchors)
    }
}

/// An anchor keeps its target's name and focus, has the rectangle that scaling gave, and is
/// only made at a positive density.
pub proof fn law_anchors_keep_their_targets<M: Fn([u32; 4], u32) -> [u32; 4]>(
    scale: &M,
    target: PassTarget,
    pixels_per_point: u32,
    made: Anchor,
)
    requires
        becomes(scale, target, pixels_per_point, made),
    ensures
        made.name@ == target.name@ && made.focused == target.focused,
        scale.ensures((target.rect, pixels_per_point), made.rect),
        0 < pixels_per_point < 0x7f80_0000,
{
}

} // verus!
