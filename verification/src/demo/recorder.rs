//! The film and the trace of a story.
use crate::demo::encoder;
use crate::demo::encoder::{Encoder, EncoderView, EncodingProfile};
use crate::demo::paint;
use crate::demo::paint::{paint_scene, Point, Rect, Scene};
use crate::duration::Duration;
use crate::error::{io, Error, ErrorView, Result, Source};
use crate::host;
use crate::host::{make, make_directory};
use crate::ospath;
use crate::ospath::{extension, with_extension};
use crate::pixels::{Frame, FrameView};
use crate::service::unit::CommandOutput;
use crate::story::{demand, StoryCue, StoryEvent, StoryFact};
use crate::text;
use crate::text::{bytes_equal, copy_bytes, glue2, glue4, lossy_text};
use vstd::prelude::*;

verus! {

/// The schema of the execution trace.
pub const TRACE_SCHEMA: &'static str = "egui-demo.trace/2";

pub const TARGET_FLIGHT_MS: u64 = 220;

pub const TARGET_REST_MS: u64 = 100;

pub const ACTION_REST_MS: u64 = 160;

pub const OBSERVATION_REST_MS: u64 = 220;

pub const CHAPTER_REST_MS: u64 = 1_500;

// ---------------------------------------------------------------------------
// Policy
// ---------------------------------------------------------------------------

/// Immutable encoding policy for one story film.
#[derive(Debug)]
pub struct RecorderConfig {
    output: Vec<u8>,
    frames_per_second: u32,
    encoding_profile: EncodingProfile,
}

/// Content of a [`RecorderConfig`].
#[verifier::ext_equal]
pub struct RecorderConfigView {
    pub output: Seq<u8>,
    pub frames_per_second: u32,
    pub encoding_profile: EncodingProfile,
}

impl View for RecorderConfig {
    type V = RecorderConfigView;

    closed spec fn view(&self) -> RecorderConfigView {
        RecorderConfigView {
            output: self.output@,
            frames_per_second: self.frames_per_second,
            encoding_profile: self.encoding_profile,
        }
    }
}

impl RecorderConfig {
    #[verifier::type_invariant]
    spec fn inv(self) -> bool {
        self.frames_per_second > 0
    }

    /// A film at a path: sixty frames per second, encoded as proof.
    pub fn new(output: &Vec<u8>) -> (config: Self)
        ensures
            config@ == (RecorderConfigView {
                output: output@,
                frames_per_second: 60,
                encoding_profile: EncodingProfile::Proof,
            }),
    {
        RecorderConfig {
            output: copy_bytes(output.as_slice()),
            frames_per_second: 60,
            encoding_profile: EncodingProfile::Proof,
        }
    }

    /// Sample at another rate.
    pub fn frames_per_second(self, frames_per_second: u32) -> (config: Self)
        requires
            frames_per_second > 0,
        ensures
            config@ == (RecorderConfigView { frames_per_second, ..self@ }),
    {
        RecorderConfig {
            output: self.output,
            frames_per_second,
            encoding_profile: self.encoding_profile,
        }
    }

    /// Encode by another profile.
    pub fn encoding_profile(self, encoding_profile: EncodingProfile) -> (config: Self)
        ensures
            config@ == (RecorderConfigView { encoding_profile, ..self@ }),
    {
        proof {
            use_type_invariant(&self);
        }
        RecorderConfig {
            output: self.output,
            frames_per_second: self.frames_per_second,
            encoding_profile,
        }
    }

    /// The sampling rate.
    pub fn rate(&self) -> (rate: u32)
        ensures
            rate == self@.frames_per_second,
            rate > 0,
    {
        proof {
            use_type_invariant(self);
        }
        self.frames_per_second
    }

    /// The encoding profile.
    pub fn profile(&self) -> (profile: EncodingProfile)
        ensures
            profile == self@.encoding_profile,
    {
        self.encoding_profile
    }
}

// ---------------------------------------------------------------------------
// Film clock
// ---------------------------------------------------------------------------

/// A count brought into thirty-two bits.
pub open spec fn counted(count: nat) -> u32 {
    if count > u32::MAX {
        u32::MAX
    } else {
        count as u32
    }
}

/// Film frames of a span at a rate: rounded up, and at least one.
pub open spec fn frames_of(span: nat, rate: nat) -> u32 {
    let whole = (span * rate + 999_999_999) / 1_000_000_000;
    counted(
        if whole < 1 {
            1
        } else {
            whole
        },
    )
}

/// Film frames whose time has come once a span elapsed: the first one is due at
/// once.
pub open spec fn frames_elapsed(span: nat, rate: nat) -> u32 {
    counted(span * rate / 1_000_000_000 + 1)
}

/// Count the film frames of a span.
pub fn frames(duration: Duration, rate: u32) -> (count: u32)
    ensures
        count == frames_of(duration@, rate as nat),
        count >= 1,
{
    let nanos: u128 = duration.as_nanos();
    assert(nanos * rate <= 18_446_744_073_709_551_615_999_999_999 * 4_294_967_295)
        by (nonlinear_arith)
        requires
            0 <= nanos <= 18_446_744_073_709_551_615_999_999_999,
            0 <= rate <= 4_294_967_295,
    ;
    let whole: u128 = (nanos * rate as u128 + 999_999_999) / 1_000_000_000;
    let count: u128 = if whole < 1 {
        1
    } else {
        whole
    };
    if count > 4_294_967_295 {
        4_294_967_295
    } else {
        count as u32
    }
}

/// Count the film frames whose time has come.
pub fn frames_due(elapsed: Duration, rate: u32) -> (count: u32)
    ensures
        count == frames_elapsed(elapsed@, rate as nat),
        count >= 1,
{
    let nanos: u128 = elapsed.as_nanos();
    assert(nanos * rate <= 18_446_744_073_709_551_615_999_999_999 * 4_294_967_295)
        by (nonlinear_arith)
        requires
            0 <= nanos <= 18_446_744_073_709_551_615_999_999_999,
            0 <= rate <= 4_294_967_295,
    ;
    let count: u128 = nanos * rate as u128 / 1_000_000_000 + 1;
    if count > 4_294_967_295 {
        4_294_967_295
    } else {
        count as u32
    }
}

/// A stretch of film: the frames it has, and those written.
#[derive(Clone, Copy, Debug, PartialEq, Eq, Structural)]
pub struct Interval {
    pub count: u32,
    pub phase: u32,
}

/// Where a stretch of film stands after a sample, once a span elapsed: every
/// frame whose time has come, at least one more than before, and never more than
/// the stretch has.
pub open spec fn advanced(interval: Interval, elapsed: nat, rate: nat) -> u32 {
    let due = frames_elapsed(elapsed, rate);
    let held = if due < interval.count {
        due
    } else {
        interval.count
    };
    if held < interval.phase + 1 {
        (interval.phase + 1) as u32
    } else {
        held
    }
}

impl Interval {
    /// A stretch with nothing written.
    pub fn begin(duration: Duration, rate: u32) -> (interval: Self)
        ensures
            interval.count == frames_of(duration@, rate as nat),
            interval.count >= 1,
            interval.phase == 0,
    {
        Interval { count: frames(duration, rate), phase: 0 }
    }

    /// Whether frames are missing.
    pub fn pending(&self) -> (pending: bool)
        ensures
            pending == (self.phase < self.count),
    {
        self.phase < self.count
    }

    /// Where the stretch stands after a sample.
    pub fn due(&self, elapsed: Duration, rate: u32) -> (due: u32)
        requires
            self.phase < self.count,
        ensures
            due == advanced(*self, elapsed@, rate as nat),
            self.phase < due <= self.count,
    {
        let due: u32 = frames_due(elapsed, rate);
        let held: u32 = if due < self.count {
            due
        } else {
            self.count
        };
        if held < self.phase + 1 {
            self.phase + 1
        } else {
            held
        }
    }
}

/// When to sample next, as spans since the stretch began: at the phase's tick, less
/// what the last sample cost; at once when that lies behind.
pub open spec fn sampling(period: nat, phase: u32, cost: nat, elapsed: nat) -> nat {
    let tick = period * phase as nat;
    if tick > cost && tick - cost > elapsed {
        (tick - cost - elapsed) as nat
    } else {
        0
    }
}

/// How long to rest before the next sample.
pub fn rest(period: Duration, phase: u32, capture_cost: Duration, elapsed: Duration) -> (rest:
    Duration)
    requires
        period@ * phase <= crate::duration::LONGEST_NS,
    ensures
        rest@ == sampling(period@, phase, capture_cost@, elapsed@),
{
    let tick: u128 = period.saturating_mul(phase).as_nanos();
    let cost: u128 = capture_cost.as_nanos();
    let gone: u128 = elapsed.as_nanos();
    if tick > cost && tick - cost > gone {
        let rest: u128 = tick - cost - gone;
        Duration::new((rest / 1_000_000_000) as u64, (rest % 1_000_000_000) as u32)
    } else {
        Duration::zero()
    }
}

/// Every sample advances a stretch of film, and none takes it past its end. Where
/// samples keep up with the clock, the stretch stands exactly where the clock
/// does.
pub proof fn law_the_film_clock_always_advances(interval: Interval, elapsed: nat, rate: nat)
    requires
        interval.phase < interval.count,
    ensures
        interval.phase < advanced(interval, elapsed, rate) <= interval.count,
        interval.phase < frames_elapsed(elapsed, rate) <= interval.count ==> advanced(
            interval,
            elapsed,
            rate,
        ) == frames_elapsed(elapsed, rate),
        frames_elapsed(elapsed, rate) >= interval.count ==> advanced(interval, elapsed, rate)
            == interval.count,
{
}

// ---------------------------------------------------------------------------
// Direction
// ---------------------------------------------------------------------------

/// What a stretch of film shows.
#[allow(inconsistent_fields)]
#[derive(Clone, Copy, Debug)]
pub enum Shot<'a> {
    /// The pointer flies to its target.
    Flight { origin: Point, destination: Point },
    /// The pointer rests on its target.
    Aim { pointer: Point },
    /// The pointer acts.
    Action { pointer: Option<Point> },
    /// The product settles.
    Settled { pointer: Option<Point> },
    /// A chapter begins.
    Chapter { title: &'a str },
}

/// The scene of one frame of a shot.
pub open spec fn shows(shot: Shot<'_>, phase: u32, count: u32, scene: Scene<'_>) -> bool {
    match shot {
        Shot::Flight { origin, destination } => scene matches Scene::Target { pointer } && pointer.x
            == paint::between(origin.x, destination.x, (phase + 1) as u32, count) && pointer.y
            == paint::between(origin.y, destination.y, (phase + 1) as u32, count),
        Shot::Aim { pointer } => scene == (Scene::Target { pointer }),
        Shot::Action { pointer } => scene == (Scene::Action { pointer, phase, phases: count }),
        Shot::Settled { pointer } => scene == (Scene::Settled { pointer }),
        Shot::Chapter { title } => scene == (Scene::Chapter { title }),
    }
}

/// Compose one frame of a shot.
pub fn compose<'a>(shot: Shot<'a>, phase: u32, count: u32) -> (scene: Scene<'a>)
    requires
        phase < count,
    ensures
        shows(shot, phase, count, scene),
{
    match shot {
        Shot::Flight { origin, destination } => {
            proof {
                paint::law_transport_reaches_its_destination(
                    origin.x,
                    destination.x,
                    (phase + 1) as u32,
                    count,
                );
                paint::law_transport_reaches_its_destination(
                    origin.y,
                    destination.y,
                    (phase + 1) as u32,
                    count,
                );
            }
            Scene::Target { pointer: origin.lerp(destination, phase + 1, count) }
        },
        Shot::Aim { pointer } => Scene::Target { pointer },
        Shot::Action { pointer } => Scene::Action { pointer, phase, phases: count },
        Shot::Settled { pointer } => Scene::Settled { pointer },
        Shot::Chapter { title } => Scene::Chapter { title },
    }
}

/// One stretch of film to record.
#[derive(Clone, Copy, Debug)]
pub struct Take<'a> {
    pub duration: Duration,
    pub shot: Shot<'a>,
    /// Where the pointer stands once the stretch is recorded.
    pub arrives: Option<Point>,
}

/// Synchronous story observer producing a film and its typed execution trace.
#[derive(Debug)]
pub struct Recorder {
    config: RecorderConfig,
    trace_path: Vec<u8>,
    encoder: Option<Encoder>,
    pointer: Option<Point>,
    target: Option<Rect>,
    frames_written: u64,
    sealed: bool,
}

/// Content of a [`Recorder`].
#[verifier::ext_equal]
pub struct RecorderView {
    pub config: RecorderConfigView,
    pub trace_path: Seq<u8>,
    pub encoder: Option<EncoderView>,
    pub pointer: Option<Point>,
    pub target: Option<Rect>,
    pub frames_written: u64,
    pub sealed: bool,
}

impl View for Recorder {
    type V = RecorderView;

    closed spec fn view(&self) -> RecorderView {
        RecorderView {
            config: self.config@,
            trace_path: self.trace_path@,
            encoder: match self.encoder {
                Some(encoder) => Some(encoder@),
                None => None,
            },
            pointer: self.pointer,
            target: self.target,
            frames_written: self.frames_written,
            sealed: self.sealed,
        }
    }
}

/// Where the trace of a film goes.
pub open spec fn trace_of(film: Seq<u8>) -> Seq<u8> {
    ospath::with_extension_of(film, text::word("events.jsonl"))
}

impl RecorderView {
    /// A recorder that has recorded nothing.
    pub open spec fn fresh(config: RecorderConfigView) -> Self {
        RecorderView {
            config,
            trace_path: trace_of(config.output),
            encoder: None,
            pointer: None,
            target: None,
            frames_written: 0,
            sealed: false,
        }
    }
}

impl Recorder {
    /// Make a recorder, with its directory and its trace file.
    pub fn forge<
        C: FnOnce(&Vec<u8>) -> std::result::Result<(), Source>,
        F: FnOnce(&Vec<u8>) -> std::result::Result<(), Source>,
    >(config: RecorderConfig, create_directory: C, create_file: F) -> (recorder: Result<Self>)
        requires
            ospath::extension_of(config@.output) == Some(text::word("mp4"))
                ==> host::directory_makeable(create_directory, config@.output),
            ospath::extension_of(config@.output) == Some(text::word("mp4"))
                && host::makes_directory(
                create_directory,
                "create demo artifact directory"@,
                config@.output,
                Ok(()),
            ) ==> host::makeable(create_file, trace_of(config@.output)),
        ensures
            match recorder {
                Ok(recorder) => ospath::extension_of(config@.output) == Some(text::word("mp4"))
                    && host::makes_directory(
                    create_directory,
                    "create demo artifact directory"@,
                    config@.output, Ok(())) && host::makes(
                    create_file,
                    "create story event trace"@,
                    trace_of(config@.output),
                    Ok(()),
                ) && recorder@ == RecorderView::fresh(config@),
                Err(error) => if ospath::extension_of(config@.output) != Some(text::word("mp4")) {
                    error@ == (ErrorView::Verdict {
                        detail: "egui-demo output must be an .mp4 file: "@ + text::lossy(
                            config@.output,
                        ),
                    })
                } else {
                    ||| host::makes_directory(
                    create_directory,
                    "create demo artifact directory"@,
                    config@.output, Err(error@))
                    ||| host::makes_directory(
                    create_directory,
                    "create demo artifact directory"@,
                    config@.output, Ok(())) && host::makes(
                        create_file,
                        "create story event trace"@,
                        trace_of(config@.output),
                        Err(error@),
                    )
                },
            },
    {
        let film = match extension(config.output.as_slice()) {
            Some(found) => bytes_equal(found.as_slice(), "mp4".as_bytes()),
            None => false,
        };
        let objection = glue2(
            "egui-demo output must be an .mp4 file: ",
            lossy_text(config.output.as_slice()).as_str(),
        );
        match demand(film, objection.as_str()) {
            Ok(_) => {},
            Err(error) => {
                return Err(error);
            },
        }
        match make_directory(create_directory, "create demo artifact directory", &config.output) {
            Ok(unit) => {
                assert(unit == ());
            },
            Err(error) => {
                return Err(error);
            },
        }
        let trace_path = with_extension(config.output.as_slice(), "events.jsonl");
        match make(create_file, "create story event trace", &trace_path) {
            Ok(unit) => {
                assert(unit == ());
            },
            Err(error) => {
                return Err(error);
            },
        }
        Ok(
            Recorder {
                config,
                trace_path,
                encoder: None,
                pointer: None,
                target: None,
                frames_written: 0,
                sealed: false,
            },
        )
    }

    /// Where the film goes.
    pub fn output(&self) -> (path: &Vec<u8>)
        ensures
            path@ == self@.config.output,
    {
        &self.config.output
    }

    /// Where the trace goes.
    pub fn trace_path(&self) -> (path: &Vec<u8>)
        ensures
            path@ == self@.trace_path,
    {
        &self.trace_path
    }

    /// Film frames written so far.
    pub fn frames_written(&self) -> (count: u64)
        ensures
            count == self@.frames_written,
    {
        self.frames_written
    }

    /// The film's policy.
    pub fn config(&self) -> (config: &RecorderConfig)
        ensures
            config@ == self@.config,
    {
        &self.config
    }

    /// Film frames of a span.
    pub fn frames(&self, duration: Duration) -> (count: u32)
        ensures
            count == frames_of(duration@, self@.config.frames_per_second as nat),
    {
        frames(duration, self.config.rate())
    }

    /// Film frames whose time has come.
    pub fn frames_due(&self, elapsed: Duration) -> (count: u32)
        ensures
            count == frames_elapsed(elapsed@, self@.config.frames_per_second as nat),
    {
        frames_due(elapsed, self.config.rate())
    }

    /// Begin a stretch of film.
    pub fn interval(&self, duration: Duration) -> (interval: Interval)
        ensures
            interval.count == frames_of(duration@, self@.config.frames_per_second as nat),
            interval.count >= 1,
            interval.phase == 0,
    {
        Interval::begin(duration, self.config.rate())
    }
}

/// A take, by what it shows for how long, and where it leaves the pointer.
pub open spec fn is_take(
    take: Take<'_>,
    duration: nat,
    shot: Shot<'_>,
    arrives: Option<Point>,
) -> bool {
    take.duration@ == duration && take.shot == shot && take.arrives == arrives
}

/// A place of the pointer in the stream, on the film.
pub open spec fn on_film(pointer: [i16; 2]) -> Point {
    Point { x: pointer[0] as i32, y: pointer[1] as i32 }
}

impl RecorderView {
    /// What an event sets before its film is recorded: an aim its target, an
    /// action its place.
    pub open spec fn directed(self, event: StoryEvent<'_>) -> Self {
        match event {
            StoryEvent::Fact(StoryFact::PointerAimed { anchor, .. }) => RecorderView {
                target: match anchor {
                    Some(anchor) => Some(around(anchor.rect)),
                    None => None,
                },
                ..self
            },
            StoryEvent::Fact(
                StoryFact::ActionDispatched { pointer: Some(pointer), .. },
            ) => RecorderView { pointer: Some(on_film(pointer)), ..self },
            _ => self,
        }
    }

    /// Whether these takes record an event.
    pub open spec fn scripts(self, event: StoryEvent<'_>, takes: Seq<Take<'_>>) -> bool {
        match event {
            StoryEvent::Cue(StoryCue::Chapter { title }) => takes.len() == 1 && is_take(
                takes[0],
                CHAPTER_REST_MS as nat * 1_000_000,
                Shot::Chapter { title },
                None,
            ),
            StoryEvent::Cue(StoryCue::Hold { duration }) => takes.len() == 1 && is_take(
                takes[0],
                duration@,
                Shot::Settled { pointer: self.pointer },
                None,
            ),
            StoryEvent::Cue(StoryCue::Tempo { .. }) => takes.len() == 0,
            StoryEvent::Fact(StoryFact::TargetResolved { .. }) => takes.len() == 0,
            StoryEvent::Fact(StoryFact::PointerAimed { pointer, .. }) => takes.len() == 2 && is_take(
                takes[0],
                TARGET_FLIGHT_MS as nat * 1_000_000,
                Shot::Flight {
                    origin: match self.pointer {
                        Some(origin) => origin,
                        None => on_film(pointer),
                    },
                    destination: on_film(pointer),
                },
                Some(on_film(pointer)),
            ) && is_take(
                takes[1],
                TARGET_REST_MS as nat * 1_000_000,
                Shot::Aim { pointer: on_film(pointer) },
                None,
            ),
            StoryEvent::Fact(StoryFact::ActionDispatched { pointer, .. }) => takes.len() == 1
                && is_take(
                takes[0],
                ACTION_REST_MS as nat * 1_000_000,
                Shot::Action {
                    pointer: match pointer {
                        Some(pointer) => Some(on_film(pointer)),
                        None => self.pointer,
                    },
                },
                None,
            ),
            StoryEvent::Fact(StoryFact::ObservationMatched { .. }) => takes.len() == 1 && is_take(
                takes[0],
                OBSERVATION_REST_MS as nat * 1_000_000,
                Shot::Settled { pointer: self.pointer },
                None,
            ),
        }
    }
}

/// How long takes last together.
pub open spec fn film_time(takes: Seq<Take<'_>>) -> nat
    decreases takes.len(),
{
    if takes.len() == 0 {
        0
    } else {
        film_time(takes.drop_last()) + takes.last().duration@
    }
}

/// The frames of takes together, at a rate.
pub open spec fn film_frames(takes: Seq<Take<'_>>, rate: nat) -> nat
    decreases takes.len(),
{
    if takes.len() == 0 {
        0
    } else {
        film_frames(takes.drop_last(), rate) + frames_of(takes.last().duration@, rate) as nat
    }
}

/// Whether the film of an event lasts its time, in nanoseconds: a hold the span that
/// was asked for, a chapter a second and a half, and a fact long enough to be seen. What
/// only concerns the story's pace, or finds a target that nothing aims at yet, takes no
/// film.
pub open spec fn lasts_its_time(event: StoryEvent<'_>, takes: Seq<Take<'_>>) -> bool {
    match event {
        StoryEvent::Cue(StoryCue::Hold { duration }) => film_time(takes) == duration@
            && takes.len() > 0,
        StoryEvent::Cue(StoryCue::Chapter { .. }) => film_time(takes) == 1_500_000_000,
        StoryEvent::Cue(StoryCue::Tempo { .. }) => takes.len() == 0,
        StoryEvent::Fact(StoryFact::TargetResolved { .. }) => takes.len() == 0,
        StoryEvent::Fact(StoryFact::PointerAimed { .. }) => film_time(takes) == 320_000_000,
        StoryEvent::Fact(StoryFact::ActionDispatched { .. }) => film_time(takes)
            == 160_000_000,
        StoryEvent::Fact(StoryFact::ObservationMatched { .. }) => film_time(takes)
            == 220_000_000,
    }
}

/// A place of the event stream as a place of the film: the same coordinates.
pub open spec fn same_place(point: Point, place: [i16; 2]) -> bool {
    point.x == place[0] && point.y == place[1]
}

/// Whether every take shows what its event tells: a chapter its title, a hold and an
/// observation the settled product, an action the place that it acts at, and an aim the
/// pointer on its way from where it stood to its target, and then on its target.
pub open spec fn shows_its_subject(
    event: StoryEvent<'_>,
    pointer: Option<Point>,
    takes: Seq<Take<'_>>,
) -> bool {
    forall|i: int|
        0 <= i < takes.len() ==> match event {
            StoryEvent::Cue(StoryCue::Chapter { title }) => (#[trigger] takes[i]).shot == (
            Shot::Chapter { title }),
            StoryEvent::Fact(StoryFact::PointerAimed { pointer: target, .. }) => match (
            #[trigger] takes[i]).shot {
                Shot::Flight { origin, destination } => i == 0 && same_place(destination, target)
                    && origin == match pointer {
                    Some(origin) => origin,
                    None => destination,
                },
                Shot::Aim { pointer } => i > 0 && same_place(pointer, target),
                _ => false,
            },
            StoryEvent::Fact(StoryFact::ActionDispatched { pointer: acted, .. }) => (
            #[trigger] takes[i]).shot matches Shot::Action { pointer: shown } && match acted {
                Some(place) => shown matches Some(point) && same_place(point, place),
                None => shown == pointer,
            },
            _ => (#[trigger] takes[i]).shot == (Shot::Settled { pointer }),
        }
}

/// Where takes leave the pointer.
pub open spec fn pointer_behind(pointer: Option<Point>, takes: Seq<Take<'_>>) -> Option<Point>
    decreases takes.len(),
{
    if takes.len() == 0 {
        pointer
    } else if takes.last().arrives is Some {
        takes.last().arrives
    } else {
        pointer_behind(pointer, takes.drop_last())
    }
}

/// Whether the pointer stands where an event puts it once its film is recorded: on the
/// target of an aim, at the place of an action, and otherwise where it stood.
pub open spec fn leaves_the_pointer(
    event: StoryEvent<'_>,
    directed: Option<Point>,
    before: Option<Point>,
    takes: Seq<Take<'_>>,
) -> bool {
    match event {
        StoryEvent::Fact(StoryFact::PointerAimed { pointer, .. }) => pointer_behind(
            directed,
            takes,
        ) matches Some(point) && same_place(point, pointer),
        StoryEvent::Fact(
            StoryFact::ActionDispatched { pointer: Some(pointer), .. },
        ) => pointer_behind(directed, takes) matches Some(point) && same_place(point, pointer),
        _ => pointer_behind(directed, takes) == before,
    }
}

/// The film of a hold lasts exactly as long as the hold, and the film of a chapter, an
/// aim, an action, or an observation some time. At a sampling rate the film of a hold
/// has the frames that its span needs, and every film of an event has a frame.
pub proof fn law_film_lasts_as_long_as_its_event(
    recorder: RecorderView,
    event: StoryEvent<'_>,
    takes: Seq<Take<'_>>,
)
    requires
        recorder.scripts(event, takes),
    ensures
        lasts_its_time(event, takes),
        forall|rate: nat|
            takes.len() > 0 ==> #[trigger] film_frames(takes, rate) >= 1,
        event matches StoryEvent::Cue(StoryCue::Hold { duration }) ==> forall|rate: nat|
            duration@ * rate <= 4_000_000_000_000_000_000 ==> duration@ * rate
                <= 1_000_000_000 * #[trigger] film_frames(takes, rate) && (duration@ > 0 && rate > 0
                ==> 1_000_000_000 * (film_frames(takes, rate) - 1) < duration@ * rate),
{
    reveal_with_fuel(film_time, 3);
    reveal_with_fuel(film_frames, 3);
    assert forall|rate: nat| takes.len() > 0 implies #[trigger] film_frames(takes, rate) >= 1 by {
        assert(frames_of(takes.last().duration@, rate) >= 1);
    }
    if let StoryEvent::Cue(StoryCue::Hold { duration }) = event {
        assert forall|rate: nat| duration@ * rate <= 4_000_000_000_000_000_000 implies duration@
            * rate <= 1_000_000_000 * #[trigger] film_frames(takes, rate) && (duration@ > 0 && rate
            > 0 ==> 1_000_000_000 * (film_frames(takes, rate) - 1) < duration@ * rate) by {
            assert(takes.drop_last().len() == 0);
            assert(film_frames(takes, rate) == frames_of(duration@, rate));
            if duration@ > 0 && rate > 0 {
                assert(duration@ * rate > 0) by (nonlinear_arith)
                    requires
                        duration@ > 0,
                        rate > 0,
                ;
            }
        }
    }
}

/// What a film shows is what its event tells.
pub proof fn law_film_shows_its_event(
    recorder: RecorderView,
    event: StoryEvent<'_>,
    takes: Seq<Take<'_>>,
)
    requires
        recorder.scripts(event, takes),
    ensures
        shows_its_subject(event, recorder.pointer, takes),
{
}

/// The pointer stands where the story's pointer does, once the film of an event is
/// recorded.
pub proof fn law_film_follows_the_pointer(
    recorder: RecorderView,
    event: StoryEvent<'_>,
    takes: Seq<Take<'_>>,
)
    requires
        recorder.scripts(event, takes),
    ensures
        leaves_the_pointer(event, recorder.directed(event).pointer, recorder.pointer, takes),
{
    reveal_with_fuel(pointer_behind, 3);
}

/// A span is given as many frames as it needs at a rate, and no more, but for the one
/// frame that every span has and the largest number that is counted.
pub proof fn law_frames_cover_their_span(duration: Duration, rate: u32, count: u32)
    requires
        frames.ensures((duration, rate), count),
    ensures
        count >= 1,
        count < u32::MAX ==> duration@ * rate <= 1_000_000_000 * count,
        count > 1 ==> 1_000_000_000 * (count - 1) < duration@ * rate,
{
    assert(0 <= duration@ * rate) by (nonlinear_arith);
}

/// A frame is due as soon as its tick has come: the first one at once, and each further
/// one a period later.
pub proof fn law_frames_are_due_at_their_ticks(elapsed: Duration, rate: u32, count: u32)
    requires
        frames_due.ensures((elapsed, rate), count),
    ensures
        count >= 1,
        1_000_000_000 * (count - 1) <= elapsed@ * rate,
        count < u32::MAX ==> elapsed@ * rate < 1_000_000_000 * count,
{
    assert(0 <= elapsed@ * rate) by (nonlinear_arith);
}

/// A sample is taken so that it is finished when its tick comes, or at once where it is
/// too late for that.
pub proof fn law_samples_meet_their_ticks(
    period: Duration,
    phase: u32,
    cost: Duration,
    elapsed: Duration,
    pause: Duration,
)
    requires
        period@ * phase <= crate::duration::LONGEST_NS,
        rest.ensures((period, phase, cost, elapsed), pause),
    ensures
        pause@ > 0 ==> elapsed@ + pause@ + cost@ == period@ * phase,
        pause@ == 0 <==> elapsed@ + cost@ >= period@ * phase || cost@ >= period@ * phase,
{
}

/// A flight ends on its destination, an aim and an action show the place that they are
/// at, and no shot turns into another one.
pub proof fn law_shots_become_their_scenes(shot: Shot<'_>, phase: u32, count: u32, scene: Scene<'_>)
    requires
        phase < count,
        compose.ensures((shot, phase, count), scene),
    ensures
        match shot {
            Shot::Flight { origin, destination } => scene matches Scene::Target { pointer } && (
            phase + 1 == count ==> pointer == destination) && (origin == destination ==> pointer
                == destination),
            Shot::Aim { pointer } => scene == (Scene::Target { pointer }),
            Shot::Action { pointer } => scene == (Scene::Action { pointer, phase, phases: count }),
            Shot::Settled { pointer } => scene == (Scene::Settled { pointer }),
            Shot::Chapter { title } => scene == (Scene::Chapter { title }),
        },
{
    if let Shot::Flight { origin, destination } = shot {
        paint::law_transport_reaches_its_destination(
            origin.x,
            destination.x,
            (phase + 1) as u32,
            count,
        );
        paint::law_transport_reaches_its_destination(
            origin.y,
            destination.y,
            (phase + 1) as u32,
            count,
        );
    }
}

/// The smallest rectangle of whole pixels that holds an anchor's.
pub open spec fn around(rect: [u32; 4]) -> Rect {
    Rect {
        left: crate::ieee::floor_of(rect[0]),
        top: crate::ieee::floor_of(rect[1]),
        right: crate::ieee::ceil_of(rect[2]),
        bottom: crate::ieee::ceil_of(rect[3]),
    }
}

impl Recorder {
    /// Decide what film records an event.
    pub fn direct<'a>(&mut self, event: StoryEvent<'a>) -> (takes: Vec<Take<'a>>)
        ensures
            old(self)@.scripts(event, takes@),
            final(self)@ == old(self)@.directed(event),
            lasts_its_time(event, takes@),
            shows_its_subject(event, old(self)@.pointer, takes@),
            leaves_the_pointer(event, final(self)@.pointer, old(self)@.pointer, takes@),
    {
        let ghost before = self@;
        let mut takes: Vec<Take<'a>> = Vec::new();
        match event {
            StoryEvent::Cue(StoryCue::Chapter { title }) => {
                takes.push(
                    Take {
                        duration: Duration::from_millis(CHAPTER_REST_MS),
                        shot: Shot::Chapter { title },
                        arrives: None,
                    },
                );
            },
            StoryEvent::Cue(StoryCue::Hold { duration }) => {
                takes.push(
                    Take { duration, shot: Shot::Settled { pointer: self.pointer }, arrives: None },
                );
            },
            StoryEvent::Cue(StoryCue::Tempo { .. }) => {},
            StoryEvent::Fact(StoryFact::TargetResolved { .. }) => {},
            StoryEvent::Fact(StoryFact::PointerAimed { pointer, anchor, .. }) => {
                let destination = Point::at((pointer[0], pointer[1]));
                assert(destination == on_film(pointer));
                let origin = match self.pointer {
                    Some(origin) => origin,
                    None => destination,
                };
                self.target = match anchor {
                    Some(anchor) => Some(Rect::around(anchor.rect)),
                    None => None,
                };
                takes.push(
                    Take {
                        duration: Duration::from_millis(TARGET_FLIGHT_MS),
                        shot: Shot::Flight { origin, destination },
                        arrives: Some(destination),
                    },
                );
                takes.push(
                    Take {
                        duration: Duration::from_millis(TARGET_REST_MS),
                        shot: Shot::Aim { pointer: destination },
                        arrives: None,
                    },
                );
            },
            StoryEvent::Fact(StoryFact::ActionDispatched { pointer, .. }) => {
                if let Some(pointer) = pointer {
                    let place = Point::at((pointer[0], pointer[1]));
                    assert(place == on_film(pointer));
                    self.pointer = Some(place);
                }
                takes.push(
                    Take {
                        duration: Duration::from_millis(ACTION_REST_MS),
                        shot: Shot::Action { pointer: self.pointer },
                        arrives: None,
                    },
                );
            },
            StoryEvent::Fact(StoryFact::ObservationMatched { .. }) => {
                takes.push(
                    Take {
                        duration: Duration::from_millis(OBSERVATION_REST_MS),
                        shot: Shot::Settled { pointer: self.pointer },
                        arrives: None,
                    },
                );
            },
        }
        proof {
            law_film_lasts_as_long_as_its_event(before, event, takes@);
            law_film_shows_its_event(before, event, takes@);
            law_film_follows_the_pointer(before, event, takes@);
        }
        takes
    }

    /// A take is recorded: the pointer stands where the take leaves it.
    pub fn arrive(&mut self, take: &Take<'_>)
        ensures
            final(self)@ == (RecorderView {
                pointer: match take.arrives {
                    Some(place) => Some(place),
                    None => old(self)@.pointer,
                },
                ..old(self)@
            }),
    {
        if let Some(place) = take.arrives {
            self.pointer = Some(place);
        }
    }
}

// ---------------------------------------------------------------------------
// Frames
// ---------------------------------------------------------------------------

/// A product frame with a scene painted over it.
pub open spec fn pictured(frame: FrameView, target: Option<Rect>, scene: Scene<'_>) -> Seq<u8> {
    paint::scenic(frame.rgba, frame.width as u32, frame.height as u32, target, scene)
}

/// Whether a frame can be painted over.
pub open spec fn filmable(frame: FrameView, target: Option<Rect>, scene: Scene<'_>) -> bool {
    &&& frame.width <= i32::MAX
    &&& frame.height <= i32::MAX
    &&& paint::paintable(frame.width as u32, target, scene)
}

/// Whether a sink can take a frame's bytes, or fail.
pub open spec fn sinks<W: FnOnce(&Vec<u8>) -> std::result::Result<(), Source>>(
    sink: W,
    rgba: Seq<u8>,
    outcome: std::result::Result<(), Source>,
) -> bool {
    exists|bytes: &Vec<u8>| bytes@ == rgba && #[trigger] sink.ensures((bytes,), outcome)
}

/// Whether an encoder can take a frame, or fail so.
pub open spec fn takes_frame<W: FnOnce(&Vec<u8>) -> std::result::Result<(), Source>>(
    encoder: EncoderView,
    sink: W,
    frame: FrameView,
    rgba: Seq<u8>,
    outcome: std::result::Result<(), ErrorView>,
) -> bool {
    match encoder.frame_objection(frame.width as u32, frame.height as u32, rgba.len()) {
        Some(detail) => outcome == Err::<(), _>(ErrorView::Verdict { detail }),
        None => {
            ||| sinks(sink, rgba, Ok(())) && outcome == Ok::<(), ErrorView>(())
            ||| exists|source: Source| #[trigger]
                sinks(sink, rgba, Err(source)) && outcome == Err::<(), _>(
                    ErrorView::Io {
                        operation: "write egui-demo frame"@,
                        path: encoder.output,
                        source: source@,
                    },
                )
        },
    }
}

/// Whether a recorder can have its encoder so, or fail so: the one it has, or a
/// new one of the frame's extents.
pub open spec fn has_encoder<L: FnOnce(&Vec<Vec<u8>>) -> std::result::Result<bool, Source>>(
    recorder: RecorderView,
    start: L,
    frame: FrameView,
    encoder: std::result::Result<EncoderView, ErrorView>,
) -> bool {
    match recorder.encoder {
        Some(own) => encoder == Ok::<_, ErrorView>(own),
        None => exists|started: std::result::Result<bool, Source>| #[trigger]
            starts(
                start,
                encoder::ignition(
                    recorder.config.output,
                    frame.width as u32,
                    frame.height as u32,
                    recorder.config.frames_per_second,
                    recorder.config.encoding_profile,
                ),
                started,
            ) && encoder == match encoder::start_failure(
                recorder.config.output,
                frame.width as u32,
                frame.height as u32,
                started,
            ) {
                Some(error) => Err(error),
                None => Ok::<_, ErrorView>(
                    encoder::ignited(
                        recorder.config.output,
                        frame.width as u32,
                        frame.height as u32,
                        recorder.config.encoding_profile,
                    ),
                ),
            },
    }
}

/// Whether starting an encoder can come to an outcome.
pub open spec fn starts<L: FnOnce(&Vec<Vec<u8>>) -> std::result::Result<bool, Source>>(
    start: L,
    line: Seq<Seq<u8>>,
    outcome: std::result::Result<bool, Source>,
) -> bool {
    exists|arguments: &Vec<Vec<u8>>|
        text::views(arguments@) == line && #[trigger] start.ensures((arguments,), outcome)
}

/// Whether writing a scene can come to an outcome and leave the recorder so. Only
/// a frame that the encoder took is counted.
pub open spec fn writes<
    L: FnOnce(&Vec<Vec<u8>>) -> std::result::Result<bool, Source>,
    W: FnOnce(&Vec<u8>) -> std::result::Result<(), Source>,
>(
    recorder: RecorderView,
    start: L,
    sink: W,
    frame: FrameView,
    scene: Scene<'_>,
    outcome: std::result::Result<(), ErrorView>,
    after: RecorderView,
) -> bool {
    exists|encoder: std::result::Result<EncoderView, ErrorView>| #[trigger]
        has_encoder(recorder, start, frame, encoder) && match encoder {
            Err(error) => outcome == Err::<(), _>(error) && after == recorder,
            Ok(own) => takes_frame(
                own,
                sink,
                frame,
                pictured(frame, recorder.target, scene),
                outcome,
            ) && after == (RecorderView {
                encoder: Some(own),
                frames_written: if outcome is Ok {
                    (recorder.frames_written + 1) as u64
                } else {
                    recorder.frames_written
                },
                ..recorder
            }),
        }
}

/// Whether a scene may be written: the encoder is started where there is none, and
/// takes the painted frame, and no other, where it objects to nothing.
pub open spec fn writable<
    L: FnOnce(&Vec<Vec<u8>>) -> std::result::Result<bool, Source>,
    W: FnOnce(&Vec<u8>) -> std::result::Result<(), Source>,
>(recorder: RecorderView, start: L, sink: W, frame: FrameView, scene: Scene<'_>) -> bool {
    let rgba = pictured(frame, recorder.target, scene);
    &&& recorder.encoder is None ==> encoder::runnable(
        start,
        encoder::ignition(
            recorder.config.output,
            frame.width as u32,
            frame.height as u32,
            recorder.config.frames_per_second,
            recorder.config.encoding_profile,
        ),
    )
    &&& forall|own: EncoderView| #[trigger]
        has_encoder(recorder, start, frame, Ok(own)) && own.frame_objection(
            frame.width as u32,
            frame.height as u32,
            rgba.len(),
        ) is None ==> host::makeable(sink, rgba)
}

impl Recorder {
    /// Write one scene over a product frame. The first one starts the encoder.
    pub fn write_scene<
        L: FnOnce(&Vec<Vec<u8>>) -> std::result::Result<bool, Source>,
        W: FnOnce(&Vec<u8>) -> std::result::Result<(), Source>,
    >(&mut self, frame: &Frame, scene: Scene<'_>, start: L, sink: W) -> (outcome: Result<()>)
        requires
            filmable(frame@, old(self)@.target, scene),
            old(self)@.frames_written < u64::MAX,
            writable(old(self)@, start, sink, frame@, scene),
        ensures
            writes(
                old(self)@,
                start,
                sink,
                frame@,
                scene,
                host::told(outcome),
                final(self)@,
            ),
    {
        let ghost before = self@;
        let width: u32 = frame.width();
        let height: u32 = frame.height();
        let mut rgba = copy_bytes(frame.rgba());
        paint_scene(&mut rgba, width, height, self.target, scene);
        assert(rgba@ == pictured(frame@, before.target, scene));
        let encoder = match self.encoder.take() {
            Some(encoder) => encoder,
            None => {
                match Encoder::ignite(
                    &self.config.output,
                    width,
                    height,
                    self.config.frames_per_second,
                    self.config.encoding_profile,
                    start,
                ) {
                    Ok(encoder) => {
                        proof {
                            let line = encoder::ignition(
                                before.config.output,
                                width,
                                height,
                                before.config.frames_per_second,
                                before.config.encoding_profile,
                            );
                            let started = choose|started: std::result::Result<bool, Source>|
                                #[trigger] encoder::runs(start, line, started)
                                    && encoder::start_failure(
                                    before.config.output,
                                    width,
                                    height,
                                    started,
                                ) is None;
                            assert(starts(start, line, started));
                        }
                        encoder
                    },
                    Err(error) => {
                        proof {
                            let line = encoder::ignition(
                                before.config.output,
                                width,
                                height,
                                before.config.frames_per_second,
                                before.config.encoding_profile,
                            );
                            let started = choose|started: std::result::Result<bool, Source>|
                                #[trigger] encoder::runs(start, line, started)
                                    && encoder::start_failure(
                                    before.config.output,
                                    width,
                                    height,
                                    started,
                                ) == Some(error@);
                            assert(starts(start, line, started));
                        }
                        assert(has_encoder(before, start, frame@, Err(error@)));
                        assert(self@ =~= before);
                        return Err(error);
                    },
                }
            },
        };
        assert(has_encoder(before, start, frame@, Ok(encoder@)));
        let written = encoder.write(width, height, &rgba, sink);
        let ghost own = encoder@;
        self.encoder = Some(encoder);
        match written {
            Ok(unit) => {
                assert(unit == ());
                proof {
                    if own.frame_objection(width, height, rgba@.len()) is None {
                        assert(sinks(sink, rgba@, Ok(())));
                    }
                }
                assert(takes_frame(own, sink, frame@, rgba@, Ok(())));
                self.frames_written = self.frames_written + 1;
                Ok(())
            },
            Err(error) => {
                proof {
                    if own.frame_objection(width, height, rgba@.len()) is None {
                        let source = choose|source: Source| #[trigger]
                            sink.ensures((&rgba,), Err(source)) && error@ == (ErrorView::Io {
                                operation: "write egui-demo frame"@,
                                path: own.output,
                                source: source@,
                            });
                        assert(sinks(sink, rgba@, Err(source)));
                    }
                }
                assert(takes_frame(own, sink, frame@, rgba@, Err(error@)));
                Err(error)
            },
        }
    }
}

/// Whether every frame of a shot can be painted.
pub open spec fn shootable(frame: FrameView, target: Option<Rect>, shot: Shot<'_>, count: u32) -> bool {
    forall|phase: u32, scene: Scene<'_>|
        phase < count && #[trigger] shows(shot, phase, count, scene) ==> filmable(
            frame,
            target,
            scene,
        )
}

/// Whether writing one frame of a shot can come to an outcome and leave the
/// recorder so.
pub open spec fn films<
    L: FnOnce(&Vec<Vec<u8>>) -> std::result::Result<bool, Source>,
    W: FnOnce(&Vec<u8>) -> std::result::Result<(), Source>,
>(
    recorder: RecorderView,
    start: L,
    sink: W,
    frame: FrameView,
    shot: Shot<'_>,
    interval: Interval,
    outcome: std::result::Result<(), ErrorView>,
    after: RecorderView,
) -> bool {
    exists|scene: Scene<'_>| #[trigger]
        shows(shot, interval.phase, interval.count, scene) && writes(
            recorder,
            start,
            sink,
            frame,
            scene,
            outcome,
            after,
        )
}

impl Recorder {
    /// Write a sample of the product as the next frame of a stretch. While the
    /// stretch lags behind its clock, the freshest sample fills every elapsed tick,
    /// so that neither compression nor capture latency can stretch world time.
    pub fn film<
        L: FnOnce(&Vec<Vec<u8>>) -> std::result::Result<bool, Source>,
        W: FnOnce(&Vec<u8>) -> std::result::Result<(), Source>,
    >(&mut self, interval: Interval, frame: &Frame, shot: Shot<'_>, start: L, sink: W) -> (next:
        Result<Interval>)
        requires
            interval.phase < interval.count,
            shootable(frame@, old(self)@.target, shot, interval.count),
            old(self)@.frames_written < u64::MAX,
            forall|scene: Scene<'_>| #[trigger]
                shows(shot, interval.phase, interval.count, scene) ==> writable(
                    old(self)@,
                    start,
                    sink,
                    frame@,
                    scene,
                ),
        ensures
            match next {
                Ok(next) => films(
                    old(self)@,
                    start,
                    sink,
                    frame@,
                    shot,
                    interval,
                    Ok(()),
                    final(self)@,
                ) && next == (Interval { count: interval.count, phase: (interval.phase + 1) as u32 })
                    && final(self)@.frames_written == old(self)@.frames_written + 1,
                Err(error) => films(
                    old(self)@,
                    start,
                    sink,
                    frame@,
                    shot,
                    interval,
                    Err(error@),
                    final(self)@,
                ) && final(self)@.frames_written == old(self)@.frames_written,
            },
    {
        let scene = compose(shot, interval.phase, interval.count);
        assert(shows(shot, interval.phase, interval.count, scene));
        match self.write_scene(frame, scene, start, sink) {
            Ok(unit) => {
                assert(unit == ());
                Ok(Interval { count: interval.count, phase: interval.phase + 1 })
            },
            Err(error) => Err(error),
        }
    }
}

// ---------------------------------------------------------------------------
// Trace
// ---------------------------------------------------------------------------

/// A span in nanoseconds, brought into sixty-four bits.
pub open spec fn stamped(elapsed: nat) -> u64 {
    if elapsed > u64::MAX {
        u64::MAX
    } else {
        elapsed as u64
    }
}

/// What the trace tells beside an event.
#[derive(Clone, Copy, Debug)]
pub struct TraceStamp {
    pub schema: &'static str,
    pub elapsed_ns: u64,
    pub film_frame: u64,
}

impl Recorder {
    /// Stamp a traced event, once a span elapsed since the recorder was made.
    pub fn stamp(&self, elapsed: Duration) -> (stamp: TraceStamp)
        ensures
            stamp.schema@ == TRACE_SCHEMA@,
            stamp.elapsed_ns == stamped(elapsed@),
            stamp.film_frame == self@.frames_written,
    {
        let nanos: u128 = elapsed.as_nanos();
        let elapsed_ns: u64 = if nanos > 18_446_744_073_709_551_615 {
            18_446_744_073_709_551_615
        } else {
            nanos as u64
        };
        TraceStamp { schema: TRACE_SCHEMA, elapsed_ns, film_frame: self.frames_written }
    }

    /// An event that could not be serialized.
    pub fn serialize_failure(&self, fault: &str) -> (error: Error)
        ensures
            error@ == (ErrorView::Verdict {
                detail: "serialize story event trace "@ + text::lossy(self@.trace_path) + ": "@
                    + fault@,
            }),
    {
        Error::Verdict {
            detail: glue4(
                "serialize story event trace ",
                lossy_text(self.trace_path.as_slice()).as_str(),
                ": ",
                fault,
            ),
        }
    }

    /// An event that could not be appended.
    pub fn append_failure(&self, source: Source) -> (error: Error)
        ensures
            error@ == (ErrorView::Io {
                operation: "append story event trace"@,
                path: self@.trace_path,
                source: source@,
            }),
    {
        io("append story event trace", &self.trace_path, source)
    }
}

// ---------------------------------------------------------------------------
// End
// ---------------------------------------------------------------------------

/// Whether sealing a recorder can come to an outcome and leave it so.
pub open spec fn seals<
    F: FnOnce() -> std::result::Result<(), Source>,
    C: FnOnce() -> std::result::Result<CommandOutput, Source>,
>(
    recorder: RecorderView,
    flush: F,
    wait: C,
    outcome: std::result::Result<(), ErrorView>,
    after: RecorderView,
) -> bool {
    if recorder.sealed {
        outcome == Ok::<(), ErrorView>(()) && after == recorder
    } else {
        ||| exists|source: Source| #[trigger]
            flush.ensures((), Err(source)) && outcome == Err::<(), _>(
                ErrorView::Io {
                    operation: "flush story event trace"@,
                    path: recorder.trace_path,
                    source: source@,
                },
            ) && after == recorder
        ||| flush.ensures((), Ok(())) && match recorder.encoder {
            None => outcome == Err::<(), _>(
                ErrorView::Verdict { detail: "story emitted no recordable surface frames"@ },
            ) && after == recorder,
            Some(encoder) => exists|closed: EncoderView| #[trigger]
                encoder.seals(wait, outcome, closed) && after == (RecorderView {
                    encoder: Some(closed),
                    sealed: outcome is Ok,
                    ..recorder
                }),
        }
    }
}

/// Whether a recorder may be sealed: its trace is flushed, and once that succeeded
/// its encoder is sealed. A sealed one needs neither.
pub open spec fn sealable<
    F: FnOnce() -> std::result::Result<(), Source>,
    C: FnOnce() -> std::result::Result<CommandOutput, Source>,
>(recorder: RecorderView, flush: F, wait: C) -> bool {
    !recorder.sealed ==> {
        &&& flush.requires(())
        &&& flush.ensures((), Ok(())) ==> (recorder.encoder matches Some(encoder)
            ==> encoder.sealable(wait))
    }
}

impl Recorder {
    /// End the recording once: flush the trace, and seal the capture.
    pub fn seal<
        F: FnOnce() -> std::result::Result<(), Source>,
        C: FnOnce() -> std::result::Result<CommandOutput, Source>,
    >(&mut self, flush: F, wait: C) -> (outcome: Result<()>)
        requires
            sealable(old(self)@, flush, wait),
        ensures
            seals(old(self)@, flush, wait, host::told(outcome), final(self)@),
    {
        if self.sealed {
            return Ok(());
        }
        let ghost before = self@;
        match flush() {
            Ok(unit) => {
                assert(unit == ());
            },
            Err(source) => {
                return Err(io("flush story event trace", &self.trace_path, source));
            },
        }
        let mut encoder = match self.encoder.take() {
            Some(encoder) => encoder,
            None => {
                assert(self@ =~= before);
                return Err(
                    Error::Verdict {
                        detail: "story emitted no recordable surface frames".to_owned(),
                    },
                );
            },
        };
        let ghost own = encoder@;
        let outcome = encoder.seal(wait);
        assert(own.seals(wait, host::told(outcome), encoder@));
        self.encoder = Some(encoder);
        match outcome {
            Ok(unit) => {
                assert(unit == ());
                self.sealed = true;
                Ok(())
            },
            Err(error) => Err(error),
        }
    }

    /// Publish the sealed capture. Call this after terminating the product so
    /// an offline showpiece transcode cannot contend with an idle live app.
    pub fn publish<
        F: FnOnce() -> std::result::Result<(), Source>,
        C: FnOnce() -> std::result::Result<CommandOutput, Source>,
        T: FnOnce(&Vec<Vec<u8>>) -> std::result::Result<CommandOutput, Source>,
        D: FnOnce(&Vec<u8>) -> std::result::Result<(), Source>,
    >(self, flush: F, wait: C, run: T, remove: D) -> (recorder: Result<Self>)
        requires
            sealable(self@, flush, wait),
            forall|between: RecorderView| #[trigger]
                seals(self@, flush, wait, Ok(()), between) ==> (between.encoder matches Some(
                    encoder,
                ) ==> encoder.publishable(wait, run, remove)),
        ensures
            exists|between: RecorderView, after: RecorderView| #[trigger]
                publication(
                    self@,
                    flush,
                    wait,
                    run,
                    remove,
                    between,
                    outcome_of(recorder),
                    after,
                ) && (recorder matches Ok(recorder) ==> recorder@ == after),
    {
        let ghost before = self@;
        let mut recorder = self;
        let ghost mut between = before;
        let mut encoder: Encoder;
        let outcome: Result<()>;
        if recorder.sealed {
            assert(seals(before, flush, wait, Ok(()), before));
            encoder = match recorder.encoder.take() {
                Some(encoder) => encoder,
                None => {
                    let error = vanished();
                    assert(publication(before, flush, wait, run, remove, before, Err(error@), before));
                    return Err(error);
                },
            };
            let ghost own = encoder@;
            outcome = encoder.publish(wait, run, remove);
            proof {
                let told = host::told(outcome);
                let (sealed, middle) = choose|
                    sealed: std::result::Result<(), ErrorView>,
                    middle: EncoderView,
                | #[trigger]
                    own.seals(wait, sealed, middle) && match sealed {
                        Err(error) => told == Err::<(), _>(error) && encoder@ == middle,
                        Ok(_) => middle.publishes(run, remove, told, encoder@),
                    };
                assert(works(own, wait, run, remove, sealed, middle, told, encoder@));
            }
        } else {
            match recorder.seal(flush, wait) {
                Ok(unit) => {
                    assert(unit == ());
                },
                Err(error) => {
                    assert(publication(
                        before,
                        flush,
                        wait,
                        run,
                        remove,
                        recorder@,
                        Err(error@),
                        recorder@,
                    ));
                    return Err(error);
                },
            }
            proof {
                between = recorder@;
            }
            assert(seals(before, flush, wait, Ok(()), between));
            encoder = match recorder.encoder.take() {
                Some(encoder) => encoder,
                None => {
                    return Err(vanished());
                },
            };
            let ghost own = encoder@;
            assert(own.capture_sealed);
            assert(own.seals(wait, Ok(()), own));
            outcome = encoder.publish_sealed(run, remove);
            assert(works(own, wait, run, remove, Ok(()), own, host::told(outcome), encoder@));
        }
        let ghost told = host::told(outcome);
        let ghost after = encoder@;
        recorder.encoder = Some(encoder);
        assert(recorder@ =~= (RecorderView { encoder: Some(after), ..between }));
        assert(publishes(between, wait, run, remove, told, recorder@));
        assert(publication(before, flush, wait, run, remove, between, told, recorder@));
        match outcome {
            Ok(unit) => {
                assert(unit == ());
                Ok(recorder)
            },
            Err(error) => Err(error),
        }
    }

    /// What giving the recorder up demands: whether to flush the trace, and what
    /// its encoder demands, if it has one.
    pub fn abandon(&mut self) -> (demands: (bool, Option<(bool, Option<Vec<u8>>)>))
        ensures
            demands.0 == !old(self)@.sealed,
            match (old(self)@.encoder, demands.1) {
                (Some(encoder), Some((wait, remove))) => wait == (!encoder.capture_sealed
                    && encoder.running) && match remove {
                    Some(capture) => encoder.profile == EncodingProfile::Showpiece
                        && !encoder.published && capture@ == encoder.capture,
                    None => encoder.profile != EncodingProfile::Showpiece || encoder.published,
                },
                (None, None) => true,
                _ => false,
            },
            final(self)@ == (RecorderView { encoder: None, ..old(self)@ }),
    {
        let encoder = match self.encoder.take() {
            Some(encoder) => {
                let mut encoder = encoder;
                Some(encoder.abandon())
            },
            None => None,
        };
        (!self.sealed, encoder)
    }
}

fn vanished() -> (error: Error)
    ensures
        error@ == (ErrorView::Verdict { detail: "egui-demo encoder vanished before publication"@ }),
{
    Error::Verdict { detail: "egui-demo encoder vanished before publication".to_owned() }
}

/// What a returned recorder tells of the outcome.
pub open spec fn outcome_of(recorder: Result<Recorder>) -> std::result::Result<(), ErrorView> {
    match recorder {
        Ok(_) => Ok(()),
        Err(error) => Err(error@),
    }
}

/// Whether publishing a recorder can come to an outcome and leave it so, where
/// sealing leaves it as `between`.
pub open spec fn publication<
    F: FnOnce() -> std::result::Result<(), Source>,
    C: FnOnce() -> std::result::Result<CommandOutput, Source>,
    T: FnOnce(&Vec<Vec<u8>>) -> std::result::Result<CommandOutput, Source>,
    D: FnOnce(&Vec<u8>) -> std::result::Result<(), Source>,
>(
    recorder: RecorderView,
    flush: F,
    wait: C,
    run: T,
    remove: D,
    between: RecorderView,
    outcome: std::result::Result<(), ErrorView>,
    after: RecorderView,
) -> bool {
    ||| (outcome matches Err(error) && seals(recorder, flush, wait, Err(error), between)) && after
        == between
    ||| seals(recorder, flush, wait, Ok(()), between) && publishes(
        between,
        wait,
        run,
        remove,
        outcome,
        after,
    )
}

/// Whether publishing a sealed recorder can come to an outcome and leave it so.
pub open spec fn publishes<
    C: FnOnce() -> std::result::Result<CommandOutput, Source>,
    T: FnOnce(&Vec<Vec<u8>>) -> std::result::Result<CommandOutput, Source>,
    D: FnOnce(&Vec<u8>) -> std::result::Result<(), Source>,
>(
    recorder: RecorderView,
    wait: C,
    run: T,
    remove: D,
    outcome: std::result::Result<(), ErrorView>,
    after: RecorderView,
) -> bool {
    match recorder.encoder {
        None => outcome == Err::<(), _>(
            ErrorView::Verdict { detail: "egui-demo encoder vanished before publication"@ },
        ) && after == recorder,
        Some(encoder) => exists|
            sealed: std::result::Result<(), ErrorView>,
            middle: EncoderView,
            published: EncoderView,
        | #[trigger]
            works(encoder, wait, run, remove, sealed, middle, outcome, published) && after == (
            RecorderView { encoder: Some(published), ..recorder }),
    }
}

/// Whether publishing an encoder can come to an outcome and leave it so, where
/// sealing comes to `sealed` and leaves it as `middle`.
pub open spec fn works<
    C: FnOnce() -> std::result::Result<CommandOutput, Source>,
    T: FnOnce(&Vec<Vec<u8>>) -> std::result::Result<CommandOutput, Source>,
    D: FnOnce(&Vec<u8>) -> std::result::Result<(), Source>,
>(
    encoder: EncoderView,
    wait: C,
    run: T,
    remove: D,
    sealed: std::result::Result<(), ErrorView>,
    middle: EncoderView,
    outcome: std::result::Result<(), ErrorView>,
    published: EncoderView,
) -> bool {
    encoder.seals(wait, sealed, middle) && match sealed {
        Err(error) => outcome == Err::<(), _>(error) && published == middle,
        Ok(_) => middle.publishes(run, remove, outcome, published),
    }
}

} // verus!
