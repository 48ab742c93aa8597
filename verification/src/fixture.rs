//! The black-box fixture application: its command line, its audits, and its
//! window's state.
use crate::error::Source;
use crate::ospath;
use crate::ospath::with_extension;
use crate::text;
use crate::text::{bytes_equal, copy_bytes, decimal_text, glue2, glue3, glue4, lossy_text};
use vstd::prelude::*;

verus! {

// ---------------------------------------------------------------------------
// Command line
// ---------------------------------------------------------------------------

/// What the command line asks for.
#[derive(Debug)]
pub enum Errand {
    /// Open the window.
    Window,
    /// Audit that a file cannot be read.
    TryRead(Vec<u8>),
    /// Audit that a file cannot be written.
    TryWrite(Vec<u8>),
    /// Leave with a message and a status.
    Leave(Farewell),
}

/// Last words, and the status to leave with.
#[derive(Debug)]
pub struct Farewell {
    pub message: String,
    pub status: i32,
}

/// Content of an [`Errand`].
#[verifier::ext_equal]
pub enum ErrandView {
    Window,
    TryRead(Seq<u8>),
    TryWrite(Seq<u8>),
    Leave { message: Seq<char>, status: i32 },
}

impl View for Errand {
    type V = ErrandView;

    open spec fn view(&self) -> ErrandView {
        match self {
            Errand::Window => ErrandView::Window,
            Errand::TryRead(path) => ErrandView::TryRead(path@),
            Errand::TryWrite(path) => ErrandView::TryWrite(path@),
            Errand::Leave(farewell) => ErrandView::Leave {
                message: farewell.message@,
                status: farewell.status,
            },
        }
    }
}

/// What arguments ask for.
pub open spec fn errand_of(arguments: Seq<Seq<u8>>) -> ErrandView {
    if arguments.len() == 0 {
        ErrandView::Window
    } else if arguments[0] != text::word("--try-read") && arguments[0] != text::word("--try-write") {
        ErrandView::Leave {
            message: "unknown fixture flag `"@ + text::lossy(arguments[0]) + "`"@,
            status: 64,
        }
    } else if arguments.len() == 1 {
        ErrandView::Leave {
            message: text::lossy(arguments[0]) + " requires a path"@,
            status: 64,
        }
    } else if arguments[0] == text::word("--try-read") {
        ErrandView::TryRead(arguments[1])
    } else {
        ErrandView::TryWrite(arguments[1])
    }
}

/// Read the command line, without the program's own name.
pub fn parse_errand(arguments: &Vec<Vec<u8>>) -> (errand: Errand)
    ensures
        errand@ == errand_of(text::views(arguments@)),
{
    if arguments.len() == 0 {
        return Errand::Window;
    }
    assert(text::views(arguments@)[0] == arguments@[0]@);
    let flag = arguments[0].as_slice();
    let read = bytes_equal(flag, "--try-read".as_bytes());
    let write = bytes_equal(flag, "--try-write".as_bytes());
    if !read && !write {
        return Errand::Leave(
            Farewell {
                message: glue3("unknown fixture flag `", lossy_text(flag).as_str(), "`"),
                status: 64,
            },
        );
    }
    if arguments.len() == 1 {
        return Errand::Leave(
            Farewell { message: glue2(lossy_text(flag).as_str(), " requires a path"), status: 64 },
        );
    }
    assert(text::views(arguments@)[1] == arguments@[1]@);
    let path = copy_bytes(arguments[1].as_slice());
    if read {
        Errand::TryRead(path)
    } else {
        Errand::TryWrite(path)
    }
}

/// Judge an attempt to read a file that must be invisible.
pub fn audit_hidden(path: &Vec<u8>, outcome: std::result::Result<(), Source>) -> (farewell: Farewell)
    ensures
        match outcome {
            Ok(_) => farewell.status == 70 && farewell.message@
                == "HERMETICITY BREACH: isolated application read `"@ + text::lossy(path@) + "`"@,
            Err(source) => farewell.status == 73 && farewell.message@
                == "undeclared real file is invisible to test: `"@ + text::lossy(path@)
                + "` denied: "@ + source.text@,
        },
{
    match outcome {
        Ok(_) => Farewell {
            message: glue3(
                "HERMETICITY BREACH: isolated application read `",
                lossy_text(path.as_slice()).as_str(),
                "`",
            ),
            status: 70,
        },
        Err(source) => Farewell {
            message: glue4(
                "undeclared real file is invisible to test: `",
                lossy_text(path.as_slice()).as_str(),
                "` denied: ",
                source.text.as_str(),
            ),
            status: 73,
        },
    }
}

/// Judge an attempt to write a file that must be out of reach.
pub fn audit_denial(path: &Vec<u8>, outcome: std::result::Result<(), Source>) -> (farewell: Farewell)
    ensures
        match outcome {
            Ok(_) => farewell.status == 70 && farewell.message@
                == "HERMETICITY BREACH: test application wrote `"@ + text::lossy(path@) + "`"@,
            Err(source) => farewell.status == 73 && farewell.message@
                == "would write real file from test: `"@ + text::lossy(path@) + "` denied: "@
                + source.text@,
        },
{
    match outcome {
        Ok(_) => Farewell {
            message: glue3(
                "HERMETICITY BREACH: test application wrote `",
                lossy_text(path.as_slice()).as_str(),
                "`",
            ),
            status: 70,
        },
        Err(source) => Farewell {
            message: glue4(
                "would write real file from test: `",
                lossy_text(path.as_slice()).as_str(),
                "` denied: ",
                source.text.as_str(),
            ),
            status: 73,
        },
    }
}

// ---------------------------------------------------------------------------
// The window
// ---------------------------------------------------------------------------

/// State behind the fixture's window.
#[derive(Debug)]
pub struct Fixture {
    probe: Option<Vec<u8>>,
    count: u64,
    f2_count: u64,
    violet: bool,
    text: String,
    drag_value: u32,
}

/// Content of a [`Fixture`].
#[verifier::ext_equal]
pub struct FixtureView {
    /// Where the window reports itself.
    pub probe: Option<Seq<u8>>,
    pub count: u64,
    pub f2_count: u64,
    pub violet: bool,
    pub text: Seq<char>,
    /// The slider's value, as its bits.
    pub drag_value: u32,
}

impl View for Fixture {
    type V = FixtureView;

    closed spec fn view(&self) -> FixtureView {
        FixtureView {
            probe: match self.probe {
                Some(path) => Some(path@),
                None => None,
            },
            count: self.count,
            f2_count: self.f2_count,
            violet: self.violet,
            text: self.text@,
            drag_value: self.drag_value,
        }
    }
}

/// What a frame paints before its widgets answer.
#[derive(Debug)]
pub struct Paint {
    /// Background color.
    pub fill: (u8, u8, u8),
    pub count_label: String,
}

/// A rectangle, as the bits of its left, top, right, and bottom edges.
pub type RectBits = [u32; 4];

/// What a frame's widgets answered.
#[derive(Debug)]
pub struct Interaction {
    pub frame: u64,
    pub increment: RectBits,
    pub increment_clicked: bool,
    pub toggle: RectBits,
    pub toggle_clicked: bool,
    pub text: RectBits,
    /// The text field's content after its edits.
    pub edited: String,
    pub text_focused: bool,
    pub drag: RectBits,
    /// The slider's value after its moves, as its bits.
    pub dragged: u32,
    pub pointer_inside: bool,
}

/// A named widget in a report.
#[derive(Debug)]
pub struct FixtureAnchor {
    pub name: &'static str,
    pub rect: RectBits,
}

/// Semantic state in a report.
#[derive(Debug)]
pub struct FixtureState {
    pub count: u64,
    pub f2_count: u64,
    pub violet: bool,
    pub text: String,
    pub text_focused: bool,
    pub drag_value: u32,
    pub pointer_inside: bool,
}

/// What a frame reports of itself.
#[derive(Debug)]
pub struct FixtureProbe {
    pub frame: u64,
    pub anchors: Vec<FixtureAnchor>,
    pub state: FixtureState,
}

impl FixtureView {
    /// The state after a frame began.
    pub open spec fn begun(self, f2: bool) -> Self {
        FixtureView {
            f2_count: if f2 && self.f2_count < u64::MAX {
                (self.f2_count + 1) as u64
            } else {
                self.f2_count
            },
            ..self
        }
    }

    /// The state after a frame's widgets answered.
    pub open spec fn settled(self, input: Interaction) -> Self {
        FixtureView {
            count: if input.increment_clicked {
                (self.count + 1) as u64
            } else {
                self.count
            },
            violet: self.violet != input.toggle_clicked,
            text: input.edited@,
            drag_value: input.dragged,
            ..self
        }
    }

    /// The background color.
    pub open spec fn fill(self) -> (u8, u8, u8) {
        if self.violet {
            (74, 28, 126)
        } else {
            (14, 62, 72)
        }
    }

    /// Whether a report shows this state after these answers.
    pub open spec fn reported(self, input: Interaction, report: FixtureProbe) -> bool {
        &&& report.frame == input.frame
        &&& report.anchors@.len() == 4
        &&& report.anchors@[0].name@ == "increment"@ && report.anchors@[0].rect == input.increment
        &&& report.anchors@[1].name@ == "toggle"@ && report.anchors@[1].rect == input.toggle
        &&& report.anchors@[2].name@ == "text"@ && report.anchors@[2].rect == input.text
        &&& report.anchors@[3].name@ == "drag"@ && report.anchors@[3].rect == input.drag
        &&& report.state.count == self.count
        &&& report.state.f2_count == self.f2_count
        &&& report.state.violet == self.violet
        &&& report.state.text@ == self.text
        &&& report.state.text_focused == input.text_focused
        &&& report.state.drag_value == self.drag_value
        &&& report.state.pointer_inside == input.pointer_inside
    }
}

fn anchor(name: &'static str, rect: RectBits) -> (anchor: FixtureAnchor)
    ensures
        anchor.name == name,
        anchor.rect == rect,
{
    FixtureAnchor { name, rect }
}

impl Fixture {
    /// A fresh window, reporting to a path when one was given.
    pub fn new(probe: Option<Vec<u8>>) -> (fixture: Self)
        ensures
            fixture@ == (FixtureView {
                probe: match probe {
                    Some(path) => Some(path@),
                    None => None,
                },
                count: 0,
                f2_count: 0,
                violet: false,
                text: Seq::empty(),
                drag_value: 0,
            }),
    {
        let text = String::new();
        assert(text@ =~= Seq::<char>::empty());
        Fixture { probe, count: 0, f2_count: 0, violet: false, text, drag_value: 0 }
    }

    /// Begin a frame: take the key press, and say what to paint.
    pub fn begin(&mut self, f2: bool) -> (paint: Paint)
        ensures
            final(self)@ == old(self)@.begun(f2),
            paint.fill == old(self)@.fill(),
            paint.count_label@ == "Count: "@ + text::decimal(old(self)@.count as nat),
    {
        if f2 && self.f2_count < u64::MAX {
            self.f2_count = self.f2_count + 1;
        }
        let fill: (u8, u8, u8) = if self.violet {
            (74, 28, 126)
        } else {
            (14, 62, 72)
        };
        Paint { fill, count_label: glue2("Count: ", decimal_text(self.count as u128).as_str()) }
    }

    /// End a frame: take what its widgets answered, and make the report for the
    /// probe's path when there is one.
    pub fn ui(&mut self, input: &Interaction) -> (report: Option<(Vec<u8>, FixtureProbe)>)
        requires
            input.increment_clicked ==> old(self)@.count < u64::MAX,
        ensures
            final(self)@ == old(self)@.settled(*input),
            match report {
                Some((path, report)) => old(self)@.probe == Some(path@) && old(self)@.settled(
                    *input,
                ).reported(*input, report),
                None => old(self)@.probe is None,
            },
    {
        if input.increment_clicked {
            self.count = self.count + 1;
        }
        if input.toggle_clicked {
            self.violet = !self.violet;
        }
        self.text = input.edited.clone();
        self.drag_value = input.dragged;
        match &self.probe {
            None => None,
            Some(path) => {
                let mut anchors: Vec<FixtureAnchor> = Vec::new();
                anchors.push(anchor("increment", input.increment));
                anchors.push(anchor("toggle", input.toggle));
                anchors.push(anchor("text", input.text));
                anchors.push(anchor("drag", input.drag));
                let report = FixtureProbe {
                    frame: input.frame,
                    anchors,
                    state: FixtureState {
                        count: self.count,
                        f2_count: self.f2_count,
                        violet: self.violet,
                        text: self.text.clone(),
                        text_focused: input.text_focused,
                        drag_value: self.drag_value,
                        pointer_inside: input.pointer_inside,
                    },
                };
                Some((copy_bytes(path.as_slice()), report))
            },
        }
    }
}

/// Where a report is written before it takes a path's place.
pub fn temporary_path(path: &Vec<u8>) -> (temporary: Vec<u8>)
    ensures
        temporary@ == ospath::with_extension_of(path@, text::word("tmp")),
{
    with_extension(path.as_slice(), "tmp")
}

// ---------------------------------------------------------------------------
// Laws
// ---------------------------------------------------------------------------

/// A fixture without arguments opens its window, one of its two flags with a path audits
/// that path, and anything else leaves with a usage error.
pub proof fn law_errands_follow_their_flag(arguments: Vec<Vec<u8>>, errand: Errand)
    requires
        parse_errand.ensures((&arguments,), errand),
    ensures
        errand@ is Window <==> arguments@.len() == 0,
        arguments@.len() >= 2 && arguments@[0]@ == text::word("--try-write") ==> errand@
            == ErrandView::TryWrite(arguments@[1]@),
        arguments@.len() >= 2 && arguments@[0]@ == text::word("--try-read") ==> errand@
            == ErrandView::TryRead(arguments@[1]@),
        arguments@.len() == 1 ==> (errand@ matches ErrandView::Leave { status, .. } && status == 64),
        arguments@.len() > 0 && arguments@[0]@ != text::word("--try-read") && arguments@[0]@
            != text::word("--try-write") ==> (errand@ matches ErrandView::Leave { status, .. }
            && status == 64),
{
    let all = text::views(arguments@);
    assert(text::word("--try-write") != text::word("--try-read")) by {
        reveal_strlit("--try-write");
        reveal_strlit("--try-read");
        vstd::utf8::encode_utf8_decode_utf8("--try-write"@);
        vstd::utf8::encode_utf8_decode_utf8("--try-read"@);
    }
    if arguments@.len() > 0 {
        assert(all[0] == arguments@[0]@);
    }
    if arguments@.len() > 1 {
        assert(all[1] == arguments@[1]@);
    }
}

/// An audit fails exactly where the sandbox let the attempt through.
pub proof fn law_audits_tell_breaches_apart(
    path: Vec<u8>,
    outcome: std::result::Result<(), Source>,
    hidden: Farewell,
    denied: Farewell,
)
    requires
        audit_hidden.ensures((&path, outcome), hidden),
        audit_denial.ensures((&path, outcome), denied),
    ensures
        hidden.status == 70 <==> outcome is Ok,
        denied.status == 70 <==> outcome is Ok,
        hidden.status == 73 <==> outcome is Err,
        denied.status == 73 <==> outcome is Err,
{
}

/// A click counts one more, a toggle turns the color, and everything else of the window is
/// what its widgets answered.
pub proof fn law_windows_answer_their_widgets(before: FixtureView, input: Interaction, f2: bool)
    requires
        before.count < u64::MAX,
    ensures
        ({
            let after = before.settled(input);
            let begun = before.begun(f2);
            &&& after.count == before.count + if input.increment_clicked {
                1int
            } else {
                0
            }
            &&& after.violet <==> (before.violet && !input.toggle_clicked) || (!before.violet
                && input.toggle_clicked)
            &&& after.text == input.edited@
            &&& after.drag_value == input.dragged
            &&& after.f2_count == before.f2_count
            &&& after.probe == before.probe
            &&& begun.f2_count == before.f2_count || (f2 && begun.f2_count == before.f2_count + 1)
            &&& f2 && before.f2_count < u64::MAX ==> begun.f2_count == before.f2_count + 1
            &&& !f2 ==> begun == before
            &&& before.violet ==> before.fill() == (74u8, 28u8, 126u8)
            &&& !before.violet ==> before.fill() == (14u8, 62u8, 72u8)
        }),
{
}

} // verus!
