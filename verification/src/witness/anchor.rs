//! Named hit-test rectangles and staged product frames.
//!
//! Coordinates and scales are held as IEEE 754 binary32 bit patterns, so that
//! finiteness and order are decided on integers.
use crate::ieee::{exceeds, is_finite, INFINITE_BITS};
use crate::ieee;
use crate::text::same;
use crate::witness::clock;
use crate::witness::clock::{FrameObservation, ProductInstant};
use crate::witness::error::{Error, ErrorView, Result};
use vstd::prelude::*;

verus! {

/// Named hit-test rectangle in physical, window-relative pixels: left, top,
/// right, and bottom edges.
#[derive(Debug, PartialEq)]
pub struct Anchor {
    pub name: String,
    pub rect: [u32; 4],
    pub focused: bool,
}

impl Clone for Anchor {
    fn clone(&self) -> (copy: Self)
        ensures
            copy == *self,
    {
        Anchor { name: self.name.clone(), rect: self.rect, focused: self.focused }
    }
}

/// Why an anchor is not usable, when it is not.
pub open spec fn anchor_objection(name: Seq<char>, rect: Seq<u32>) -> Option<Seq<char>> {
    if name.len() == 0 {
        Some("name is empty"@)
    } else if !(ieee::finite(rect[0]) && ieee::finite(rect[1]) && ieee::finite(rect[2])
        && ieee::finite(rect[3])) {
        Some("rectangle is not finite"@)
    } else if ieee::rank(rect[0]) > ieee::rank(rect[2]) || ieee::rank(rect[1]) > ieee::rank(rect[3]) {
        Some("rectangle is inverted"@)
    } else {
        None
    }
}

impl Anchor {
    /// Forge an anchor from a physical rectangle.
    pub fn physical(name: &str, rect: [u32; 4]) -> (forged: Result<Self>)
        ensures
            match forged {
                Ok(anchor) => anchor_objection(name@, rect@) is None && anchor.name@ == name@
                    && anchor.rect == rect && !anchor.focused,
                Err(error) => anchor_objection(name@, rect@) matches Some(detail) && error@ == (
                ErrorView::Anchor { name: name@, detail }),
            },
    {
        let anchor = Anchor { name: name.to_owned(), rect, focused: false };
        match anchor.validate() {
            Ok(_) => Ok(anchor),
            Err(error) => Err(error),
        }
    }

    /// Forge an anchor from a logical rectangle that was multiplied by
    /// `pixels_per_point` into `scaled`.
    pub fn logical(name: &str, scaled: [u32; 4], pixels_per_point: u32) -> (forged: Result<Self>)
        ensures
            match forged {
                Ok(anchor) => ieee::positive(pixels_per_point) && anchor_objection(name@, scaled@) is None
                    && anchor.name@ == name@ && anchor.rect == scaled && !anchor.focused,
                Err(error) => if !ieee::positive(pixels_per_point) {
                    error@ == (ErrorView::Anchor {
                        name: name@,
                        detail: "pixels per point must be positive and finite"@,
                    })
                } else {
                    anchor_objection(name@, scaled@) matches Some(detail) && error@ == (
                    ErrorView::Anchor { name: name@, detail })
                },
            },
    {
        if !scale_is_usable(pixels_per_point) {
            return Err(
                Error::Anchor {
                    name: name.to_owned(),
                    detail: "pixels per point must be positive and finite",
                },
            );
        }
        Self::physical(name, scaled)
    }

    /// Mark whether the anchor's control holds keyboard focus.
    pub fn with_focus(self, focused: bool) -> (anchor: Self)
        ensures
            anchor.name == self.name,
            anchor.rect == self.rect,
            anchor.focused == focused,
    {
        Anchor { name: self.name, rect: self.rect, focused }
    }

    /// Demand a named, finite rectangle with edges in order.
    pub fn validate(&self) -> (verdict: Result<()>)
        ensures
            match verdict {
                Ok(_) => anchor_objection(self.name@, self.rect@) is None,
                Err(error) => anchor_objection(self.name@, self.rect@) matches Some(detail)
                    && error@ == (ErrorView::Anchor { name: self.name@, detail }),
            },
    {
        if self.name.as_str().is_empty() {
            return Err(Error::Anchor { name: self.name.clone(), detail: "name is empty" });
        }
        if !(is_finite(self.rect[0]) && is_finite(self.rect[1]) && is_finite(self.rect[2])
            && is_finite(self.rect[3])) {
            return Err(
                Error::Anchor { name: self.name.clone(), detail: "rectangle is not finite" },
            );
        }
        if exceeds(self.rect[0], self.rect[2]) || exceeds(self.rect[1], self.rect[3]) {
            return Err(Error::Anchor { name: self.name.clone(), detail: "rectangle is inverted" });
        }
        Ok(())
    }
}

/// Decide whether a frame scale is positive and finite.
pub fn scale_is_usable(pixels_per_point: u32) -> (verdict: bool)
    ensures
        verdict == ieee::positive(pixels_per_point),
{
    0 < pixels_per_point && pixels_per_point < INFINITE_BITS
}

/// Whether an earlier anchor bears the same name.
pub open spec fn repeats(anchors: Seq<Anchor>, index: int) -> bool {
    exists|i: int| 0 <= i < index && #[trigger] anchors[i].name@ == anchors[index].name@
}

/// Why one anchor of a frame is not usable, when it is not: its own fault
/// first, then a repeated name.
pub open spec fn member_objection(anchors: Seq<Anchor>, index: int) -> Option<Seq<char>> {
    if anchor_objection(anchors[index].name@, anchors[index].rect@) is Some {
        anchor_objection(anchors[index].name@, anchors[index].rect@)
    } else if repeats(anchors, index) {
        Some("name is duplicated in one frame"@)
    } else {
        None
    }
}

/// The failure of a set of anchors, when it has one: that of its first
/// unusable member.
pub open spec fn anchors_fault(anchors: Seq<Anchor>, from: int) -> Option<ErrorView>
    decreases anchors.len() - from,
{
    if from >= anchors.len() {
        None
    } else {
        match member_objection(anchors, from) {
            Some(detail) => Some(ErrorView::Anchor { name: anchors[from].name@, detail }),
            None => anchors_fault(anchors, from + 1),
        }
    }
}

/// Demand usable anchors with distinct names.
pub fn validate_anchors(anchors: &Vec<Anchor>) -> (verdict: Result<()>)
    ensures
        match verdict {
            Ok(_) => anchors_fault(anchors@, 0) is None,
            Err(error) => anchors_fault(anchors@, 0) == Some(error@),
        },
{
    let mut index: usize = 0;
    while index < anchors.len()
        invariant
            index <= anchors.len(),
            anchors_fault(anchors@, 0) == anchors_fault(anchors@, index as int),
        decreases anchors.len() - index,
    {
        match anchors[index].validate() {
            Ok(_) => {},
            Err(error) => {
                return Err(error);
            },
        }
        let mut earlier: usize = 0;
        while earlier < index
            invariant
                earlier <= index < anchors.len(),
                anchors_fault(anchors@, 0) == anchors_fault(anchors@, index as int),
                anchor_objection(anchors@[index as int].name@, anchors@[index as int].rect@) is None,
                forall|i: int|
                    0 <= i < earlier ==> #[trigger] anchors@[i].name@ != anchors@[index as int].name@,
            decreases index - earlier,
        {
            if same(anchors[earlier].name.as_str(), anchors[index].name.as_str()) {
                assert(repeats(anchors@, index as int));
                return Err(
                    Error::Anchor {
                        name: anchors[index].name.clone(),
                        detail: "name is duplicated in one frame",
                    },
                );
            }
            earlier += 1;
        }
        assert(!repeats(anchors@, index as int));
        index += 1;
    }
    Ok(())
}

/// Anchors admitted together are each usable and bear distinct names.
pub proof fn law_admitted_anchors_are_distinct(anchors: Seq<Anchor>)
    requires
        anchors_fault(anchors, 0) is None,
    ensures
        forall|i: int|
            0 <= i < anchors.len() ==> anchor_objection(
                (#[trigger] anchors[i]).name@,
                anchors[i].rect@,
            ) is None,
        forall|i: int, j: int|
            0 <= i < j < anchors.len() ==> (#[trigger] anchors[i]).name@ != (
            #[trigger] anchors[j]).name@,
{
    assert forall|j: int| 0 <= j < anchors.len() implies member_objection(
        anchors,
        j,
    ) is None by {
        lemma_members_admitted(anchors, 0, j);
    }
    assert forall|i: int, j: int| 0 <= i < j < anchors.len() implies (
    #[trigger] anchors[i]).name@ != (#[trigger] anchors[j]).name@ by {
        assert(member_objection(anchors, j) is None);
        assert(!repeats(anchors, j));
    }
    assert forall|i: int| 0 <= i < anchors.len() implies anchor_objection(
        (#[trigger] anchors[i]).name@,
        anchors[i].rect@,
    ) is None by {
        assert(member_objection(anchors, i) is None);
    }
}

proof fn lemma_members_admitted(anchors: Seq<Anchor>, from: int, member: int)
    requires
        0 <= from <= member < anchors.len(),
        anchors_fault(anchors, from) is None,
    ensures
        member_objection(anchors, member) is None,
    decreases member - from,
{
    if from < member {
        lemma_members_admitted(anchors, from + 1, member);
    }
}

/// Product observation captured before witness serialization.
pub struct PendingFrame<T> {
    frame: u64,
    begun_ns: u64,
    observed_ns: u64,
    pixels_per_point: u32,
    anchors: Vec<Anchor>,
    state: T,
}

/// Content of a [`PendingFrame`].
pub struct PendingFrameView<T> {
    pub frame: u64,
    pub begun_ns: u64,
    pub observed_ns: u64,
    pub pixels_per_point: u32,
    pub anchors: Seq<Anchor>,
    pub state: T,
}

impl<T> View for PendingFrame<T> {
    type V = PendingFrameView<T>;

    closed spec fn view(&self) -> PendingFrameView<T> {
        PendingFrameView {
            frame: self.frame,
            begun_ns: self.begun_ns,
            observed_ns: self.observed_ns,
            pixels_per_point: self.pixels_per_point,
            anchors: self.anchors@,
            state: self.state,
        }
    }
}

/// The failure of a frame, when it has one: its scale's, then its anchors'.
pub open spec fn frame_fault(pixels_per_point: u32, anchors: Seq<Anchor>) -> Option<ErrorView> {
    if !ieee::positive(pixels_per_point) {
        Some(
            ErrorView::Anchor {
                name: "<frame>"@,
                detail: "pixels per point must be positive and finite"@,
            },
        )
    } else {
        anchors_fault(anchors, 0)
    }
}

impl<T> PendingFrame<T> {
    /// Forge telemetry observed now.
    pub fn forge(frame: u64, pixels_per_point: u32, anchors: Vec<Anchor>, state: T) -> (forged:
        Result<Self>)
        ensures
            match forged {
                Ok(pending) => frame_fault(pixels_per_point, anchors@) is None && pending@.frame
                    == frame && pending@.begun_ns == pending@.observed_ns && clock::clocked(
                    pending@.observed_ns,
                )
                    && pending@.pixels_per_point == pixels_per_point && pending@.anchors
                    == anchors@ && pending@.state == state,
                Err(error) => frame_fault(pixels_per_point, anchors@) == Some(error@),
            },
    {
        let now = ProductInstant::now();
        match FrameObservation::from_instants(now, now) {
            Ok(observation) => Self::forge_at(observation, frame, pixels_per_point, anchors, state),
            Err(error) => Err(error),
        }
    }

    /// Forge telemetry against timestamps captured around product-state work.
    pub fn forge_at(
        observation: FrameObservation,
        frame: u64,
        pixels_per_point: u32,
        anchors: Vec<Anchor>,
        state: T,
    ) -> (forged: Result<Self>)
        ensures
            match forged {
                Ok(pending) => frame_fault(pixels_per_point, anchors@) is None && pending@ == (
                PendingFrameView {
                    frame,
                    begun_ns: observation.begun_ns(),
                    observed_ns: observation.observed_ns(),
                    pixels_per_point,
                    anchors: anchors@,
                    state,
                }),
                Err(error) => frame_fault(pixels_per_point, anchors@) == Some(error@),
            },
    {
        if !scale_is_usable(pixels_per_point) {
            return Err(
                Error::Anchor {
                    name: "<frame>".to_owned(),
                    detail: "pixels per point must be positive and finite",
                },
            );
        }
        match validate_anchors(&anchors) {
            Ok(_) => {},
            Err(error) => {
                return Err(error);
            },
        }
        let (begun_ns, observed_ns) = observation.bounds();
        Ok(PendingFrame { frame, begun_ns, observed_ns, pixels_per_point, anchors, state })
    }

    /// When the frame's product work completed.
    pub fn observed_ns(&self) -> (ns: u64)
        ensures
            ns == self@.observed_ns,
    {
        self.observed_ns
    }

    /// When the frame began.
    pub fn begun_ns(&self) -> (ns: u64)
        ensures
            ns == self@.begun_ns,
    {
        self.begun_ns
    }

    /// Product frame number.
    pub fn frame(&self) -> (frame: u64)
        ensures
            frame == self@.frame,
    {
        self.frame
    }

    /// Release the scale, the anchors, and the product state.
    pub fn into_parts(self) -> (parts: (u32, Vec<Anchor>, T))
        ensures
            parts.0 == self@.pixels_per_point,
            parts.1@ == self@.anchors,
            parts.2 == self@.state,
    {
        (self.pixels_per_point, self.anchors, self.state)
    }
}

// ---------------------------------------------------------------------------
// Laws of admission
// ---------------------------------------------------------------------------

/// Whether an anchor can be hit: it is named, its edges are finite, and neither its left
/// edge lies right of its right edge nor its top edge below its bottom edge.
pub open spec fn can_be_hit(name: Seq<char>, rect: Seq<u32>) -> bool {
    &&& name.len() > 0
    &&& ieee::finite(rect[0])
    &&& ieee::finite(rect[1])
    &&& ieee::finite(rect[2])
    &&& ieee::finite(rect[3])
    &&& ieee::rank(rect[0]) <= ieee::rank(rect[2])
    &&& ieee::rank(rect[1]) <= ieee::rank(rect[3])
}

/// An anchor is forged exactly where it can be hit, with the name and the edges that it
/// was given, and without focus until it is told to have it.
pub proof fn law_forged_anchors_can_be_hit(
    name: &str,
    rect: [u32; 4],
    scale: u32,
    physical: Result<Anchor>,
    logical: Result<Anchor>,
)
    requires
        Anchor::physical.ensures((name, rect), physical),
        Anchor::logical.ensures((name, rect, scale), logical),
    ensures
        physical is Ok <==> can_be_hit(name@, rect@),
        physical matches Ok(anchor) ==> anchor.name@ == name@ && anchor.rect@ == rect@
            && !anchor.focused,
        logical is Ok <==> can_be_hit(name@, rect@) && 0 < scale < 0x7f80_0000,
        logical matches Ok(anchor) ==> anchor.name@ == name@ && anchor.rect@ == rect@
            && !anchor.focused,
{
}

proof fn lemma_all_admitted(anchors: Seq<Anchor>, from: int)
    requires
        0 <= from,
    ensures
        anchors_fault(anchors, from) is None <==> forall|i: int|
            from <= i < anchors.len() ==> #[trigger] member_objection(anchors, i) is None,
    decreases anchors.len() - from,
{
    if from < anchors.len() {
        lemma_all_admitted(anchors, from + 1);
        assert(anchors_fault(anchors, from) is None ==> member_objection(anchors, from) is None);
    }
}

/// Anchors are admitted together exactly where each can be hit and no two bear one name.
pub proof fn law_anchors_are_admitted_together(anchors: &Vec<Anchor>, verdict: Result<()>)
    requires
        validate_anchors.ensures((anchors,), verdict),
    ensures
        verdict is Ok <==> {
            &&& forall|i: int|
                0 <= i < anchors@.len() ==> can_be_hit(
                    (#[trigger] anchors@[i]).name@,
                    anchors@[i].rect@,
                )
            &&& forall|i: int, j: int|
                0 <= i < j < anchors@.len() ==> (#[trigger] anchors@[i]).name@ != (
                #[trigger] anchors@[j]).name@
        },
{
    let list = anchors@;
    lemma_all_admitted(list, 0);
    if verdict is Ok {
        law_admitted_anchors_are_distinct(list);
    } else {
        let bad = choose|i: int|
            0 <= i < list.len() && !(#[trigger] member_objection(list, i) is None);
        if can_be_hit(list[bad].name@, list[bad].rect@) {
            assert(repeats(list, bad));
            let other = choose|i: int| 0 <= i < bad && #[trigger] list[i].name@ == list[bad].name@;
            assert(list[other].name@ == list[bad].name@);
        }
    }
}

/// A staged frame keeps what it was forged from, and is refused exactly where its scale is
/// not positive and finite or its anchors are not admitted together.
pub proof fn law_staged_frames_keep_their_telemetry<T>(
    observation: FrameObservation,
    frame: u64,
    scale: u32,
    anchors: Vec<Anchor>,
    state: T,
    forged: Result<PendingFrame<T>>,
    verdict: Result<()>,
)
    requires
        PendingFrame::<T>::forge_at.ensures(
            (observation, frame, scale, anchors, state),
            forged,
        ),
        validate_anchors.ensures((&anchors,), verdict),
    ensures
        forged is Ok <==> 0 < scale < 0x7f80_0000 && verdict is Ok,
        forged matches Ok(pending) ==> {
            &&& pending@.frame == frame
            &&& pending@.begun_ns == observation.begun_ns()
            &&& pending@.observed_ns == observation.observed_ns()
            &&& pending@.pixels_per_point == scale
            &&& pending@.anchors == anchors@
            &&& pending@.state == state
        },
{
}

} // verus!
