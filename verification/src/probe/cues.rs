//! The cues that waits look for.
use crate::error::{Error, Result};
use crate::probe;
use crate::probe::wait::Inspection;
use crate::probe::{Probe, ProbeFrame};
use crate::text;
use crate::text::{copy_bytes, decimal_text, glue2, glue3};
use crate::witness::anchor::Anchor;
use vstd::prelude::*;

verus! {

/// A cue that is either there or not, with nothing to say when it is not.
pub fn inspect_whether(held: bool) -> (verdict: Inspection)
    ensures
        verdict is Ok == held,
        verdict matches Err(mismatch) ==> mismatch is None,
{
    if held {
        Ok(())
    } else {
        Err(None)
    }
}

/// A cue that says why it is not there.
pub fn inspect_checked(verdict: std::result::Result<(), String>) -> (inspection: Inspection)
    ensures
        match verdict {
            Ok(_) => inspection is Ok,
            Err(mismatch) => inspection matches Err(Some(found)) && found == mismatch,
        },
{
    match verdict {
        Ok(_) => Ok(()),
        Err(mismatch) => Err(Some(mismatch)),
    }
}

// ---------------------------------------------------------------------------
// Targets
// ---------------------------------------------------------------------------

/// What waiting for a target is called.
pub fn anchor_wait(name: &str) -> (waiting: String)
    ensures
        waiting@ == "witness anchor `"@ + name@ + "`"@,
{
    glue3("witness anchor `", name, "`")
}

/// Whether a frame shows a target.
pub fn inspect_anchor<S>(frame: &ProbeFrame<S>, name: &str) -> (verdict: Inspection)
    ensures
        verdict is Ok == (probe::anchor_named(frame.anchors@, name@) is Some),
        verdict matches Err(mismatch) ==> mismatch is None,
{
    inspect_whether(frame.anchor(name).is_some())
}

impl Probe {
    /// The target of a matching frame.
    pub fn resolve_anchor<S>(&self, frame: &ProbeFrame<S>, name: &str) -> (found: Result<Anchor>)
        ensures
            match found {
                Ok(found) => probe::anchor_named(frame.anchors@, name@) == Some(found),
                Err(error) => probe::anchor_named(frame.anchors@, name@) is None && error@
                    == probe::refused(
                    self@.path,
                    "anchor `"@ + name@ + "` vanished from the matching frame"@,
                ),
            },
    {
        match frame.anchor(name) {
            Some(anchor) => Ok(anchor.clone()),
            None => Err(
                Error::Probe {
                    path: copy_bytes(self.path().as_slice()),
                    detail: glue3("anchor `", name, "` vanished from the matching frame"),
                },
            ),
        }
    }

    /// The focused target of a matching frame.
    pub fn resolve_focus<S>(&self, frame: &ProbeFrame<S>, name: &str) -> (found: Result<Anchor>)
        ensures
            match found {
                Ok(found) => probe::focused_named(frame.anchors@, name@) == Some(found),
                Err(error) => probe::focused_named(frame.anchors@, name@) is None && error@
                    == probe::refused(
                    self@.path,
                    "focused anchor `"@ + name@ + "` vanished from the matching frame"@,
                ),
            },
    {
        match frame.focused_anchor(name) {
            Some(anchor) => Ok(anchor.clone()),
            None => Err(
                Error::Probe {
                    path: copy_bytes(self.path().as_slice()),
                    detail: glue3("focused anchor `", name, "` vanished from the matching frame"),
                },
            ),
        }
    }
}

// ---------------------------------------------------------------------------
// Focus
// ---------------------------------------------------------------------------

/// A text in double quotes, escaped as a literal.
pub uninterp spec fn quoted(text: Seq<char>) -> Seq<char>;

/// The `Debug` rendering of a text: quoted, and escaped where a literal would
/// escape it. It depends on the text alone; [`quoted`] names it.
#[verifier::external_body]
fn quoted_text(text: &str) -> (quoted: String)
    ensures
        quoted@ == self::quoted(text@),
{
    format!("{text:?}")
}

/// The quoted names of focused anchors, with commas between them.
pub open spec fn focused_names(anchors: Seq<Anchor>) -> Seq<char>
    decreases anchors.len(),
{
    if anchors.len() == 0 {
        seq![]
    } else {
        let rest = focused_names(anchors.drop_last());
        if !anchors.last().focused {
            rest
        } else if any_focused(anchors.drop_last()) {
            rest + ", "@ + quoted(anchors.last().name@)
        } else {
            quoted(anchors.last().name@)
        }
    }
}

/// Whether an anchor holds focus.
pub open spec fn any_focused(anchors: Seq<Anchor>) -> bool {
    exists|i: int| 0 <= i < anchors.len() && (#[trigger] anchors[i]).focused
}

/// Why a target does not hold focus.
pub open spec fn unfocused(anchors: Seq<Anchor>, name: Seq<char>) -> Seq<char> {
    (if probe::anchor_named(anchors, name) is Some {
        "target is present but unfocused"@
    } else {
        "target is absent"@
    }) + "; focused anchors: ["@ + focused_names(anchors) + "]"@
}

fn list_focused(anchors: &Vec<Anchor>) -> (names: String)
    ensures
        names@ == focused_names(anchors@),
{
    let mut names = String::new();
    let mut some = false;
    let mut index: usize = 0;
    assert(anchors@.take(0) =~= seq![]);
    assert(names@ =~= seq![]);
    while index < anchors.len()
        invariant
            index <= anchors.len(),
            some == any_focused(anchors@.take(index as int)),
            names@ == focused_names(anchors@.take(index as int)),
            !some ==> names@ == Seq::<char>::empty(),
        decreases anchors.len() - index,
    {
        let ghost front = anchors@.take(index as int);
        let ghost whole = anchors@.take(index + 1);
        assert(whole.drop_last() =~= front);
        assert(whole.last() == anchors@[index as int]);
        let held = anchors[index].focused;
        proof {
            if held {
                assert(whole[index as int].focused);
            }
            if any_focused(front) {
                let i = choose|i: int| 0 <= i < front.len() && (#[trigger] front[i]).focused;
                assert(whole[i].focused);
            }
            if any_focused(whole) && !held {
                let i = choose|i: int| 0 <= i < whole.len() && (#[trigger] whole[i]).focused;
                assert(front[i].focused);
            }
        }
        if held {
            if some {
                names.append(", ");
            }
            names.append(quoted_text(anchors[index].name.as_str()).as_str());
            assert(!some ==> names@ =~= quoted(anchors@[index as int].name@));
            some = true;
        }
        index = index + 1;
    }
    assert(anchors@.take(index as int) =~= anchors@);
    names
}

/// What waiting for focus is called.
pub fn focus_wait(name: &str) -> (waiting: String)
    ensures
        waiting@ == "focus on witness anchor `"@ + name@ + "`"@,
{
    glue3("focus on witness anchor `", name, "`")
}

/// Whether a frame shows a target that owns keyboard focus, and if not, which
/// targets do.
pub fn inspect_focus<S>(frame: &ProbeFrame<S>, name: &str) -> (verdict: std::result::Result<
    (),
    String,
>)
    ensures
        match verdict {
            Ok(_) => probe::focused_named(frame.anchors@, name@) is Some,
            Err(mismatch) => probe::focused_named(frame.anchors@, name@) is None && mismatch@
                == unfocused(frame.anchors@, name@),
        },
{
    if frame.focused_anchor(name).is_some() {
        return Ok(());
    }
    let target = if frame.anchor(name).is_some() {
        "target is present but unfocused"
    } else {
        "target is absent"
    };
    let mut mismatch = glue2(target, "; focused anchors: [");
    mismatch.append(list_focused(&frame.anchors).as_str());
    mismatch.append("]");
    Err(mismatch)
}

// ---------------------------------------------------------------------------
// Presentation
// ---------------------------------------------------------------------------

/// What waiting for a fresh observation is called.
pub fn fresh_wait(prior: u64) -> (waiting: String)
    ensures
        waiting@ == "surface-presented observation newer than "@ + text::decimal(prior as nat),
{
    glue2("surface-presented observation newer than ", decimal_text(prior as u128).as_str())
}

/// Whether a frame was presented after a given one.
pub fn inspect_fresh<S>(frame: &ProbeFrame<S>, prior: u64) -> (verdict: Inspection)
    ensures
        verdict is Ok == (frame.surface_sequence > prior),
        verdict matches Err(mismatch) ==> mismatch is None,
{
    inspect_whether(frame.surface_sequence > prior)
}

/// What waiting for the first presented frame is called.
pub fn presented_wait() -> (waiting: &'static str)
    ensures
        waiting@ == "first product frame to reach surface present"@,
{
    "first product frame to reach surface present"
}

/// Whether a frame was presented.
pub fn inspect_presented<S>(frame: &ProbeFrame<S>) -> (verdict: Inspection)
    ensures
        verdict is Ok == (frame.surface_sequence > 0),
        verdict matches Err(mismatch) ==> mismatch is None,
{
    inspect_whether(frame.surface_sequence > 0)
}

/// A cue is there exactly where the frame shows it: a target where an anchor bears its
/// name, its focus where such an anchor holds it, and a fresh frame where it was presented
/// after the given one.
pub proof fn law_cues_are_there_when_shown<S>(
    frame: &ProbeFrame<S>,
    name: &str,
    prior: u64,
    target: Inspection,
    focus: std::result::Result<(), String>,
    fresh: Inspection,
    presented: Inspection,
)
    requires
        inspect_anchor::<S>.ensures((frame, name), target),
        inspect_focus::<S>.ensures((frame, name), focus),
        inspect_fresh::<S>.ensures((frame, prior), fresh),
        inspect_presented::<S>.ensures((frame,), presented),
    ensures
        target is Ok <==> exists|i: int|
            0 <= i < frame.anchors@.len() && (#[trigger] frame.anchors@[i]).name@ == name@,
        focus is Ok ==> exists|i: int|
            0 <= i < frame.anchors@.len() && (#[trigger] frame.anchors@[i]).name@ == name@
                && frame.anchors@[i].focused,
        probe::unambiguous(frame.anchors@) && (exists|i: int|
            0 <= i < frame.anchors@.len() && (#[trigger] frame.anchors@[i]).name@ == name@
                && frame.anchors@[i].focused) ==> focus is Ok,
        fresh is Ok <==> frame.surface_sequence > prior,
        presented is Ok <==> frame.surface_sequence > 0,
{
    let anchors = frame.anchors@;
    probe::lemma_anchor_found(anchors, name@);
    if probe::unambiguous(anchors) && (exists|i: int|
        0 <= i < anchors.len() && (#[trigger] anchors[i]).name@ == name@ && anchors[i].focused) {
        let i = choose|i: int|
            0 <= i < anchors.len() && (#[trigger] anchors[i]).name@ == name@ && anchors[i].focused;
        let at = probe::anchor_place(anchors, name@);
        assert(anchors[at].name@ == name@);
        if i < at {
            assert(anchors[i].name@ != anchors[at].name@);
        } else if at < i {
            assert(anchors[at].name@ != anchors[i].name@);
        }
    }
}

} // verus!
