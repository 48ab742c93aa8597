//! The film encoder's life: from its command line to the published film.
use crate::error::{io, Error, ErrorView, Result, Source, SourceKind};
use crate::ospath;
use crate::ospath::with_extension;
use crate::service::unit::CommandOutput;
use crate::host;
use crate::text;
use crate::text::{copy_bytes, decimal_text, glue2, glue3, glue4, lossy_text, push_bytes, push_word, push_words};
use vstd::prelude::*;
use vstd::utf8::*;

verus! {

// ---------------------------------------------------------------------------
// Profiles
// ---------------------------------------------------------------------------

/// H.264 cost and fidelity policy, independent of temporal sampling.
#[derive(Clone, Copy, Debug, Eq, PartialEq, Structural)]
pub enum EncodingProfile {
    /// Fast artifact suitable for exercising recording in an acceptance rail.
    Proof,
    /// Presentation artifact with expensive, animation-tuned compression.
    Showpiece,
}

impl Default for EncodingProfile {
    fn default() -> (profile: Self)
        ensures
            profile == EncodingProfile::Proof,
    {
        EncodingProfile::Proof
    }
}

impl EncodingProfile {
    /// The compression preset.
    pub open spec fn preset(self) -> &'static str {
        match self {
            EncodingProfile::Proof => "veryfast",
            EncodingProfile::Showpiece => "slow",
        }
    }

    /// The constant rate factor.
    pub open spec fn factor(self) -> &'static str {
        match self {
            EncodingProfile::Proof => "18",
            EncodingProfile::Showpiece => "12",
        }
    }

    /// The content that compression is tuned for.
    pub open spec fn tune(self) -> Option<&'static str> {
        match self {
            EncodingProfile::Proof => None,
            EncodingProfile::Showpiece => Some("animation"),
        }
    }

    /// Compression preset, constant rate factor, and tuning.
    pub fn x264(self) -> (settings: (&'static str, &'static str, Option<&'static str>))
        ensures
            settings.0 == self.preset(),
            settings.1 == self.factor(),
            settings.2 == self.tune(),
    {
        match self {
            EncodingProfile::Proof => ("veryfast", "18", None),
            EncodingProfile::Showpiece => ("slow", "12", Some("animation")),
        }
    }

    /// Whether a lossless capture precedes the film.
    pub fn stages_lossless_capture(self) -> (staged: bool)
        ensures
            staged == (self == EncodingProfile::Showpiece),
    {
        match self {
            EncodingProfile::Proof => false,
            EncodingProfile::Showpiece => true,
        }
    }
}

// ---------------------------------------------------------------------------
// Command lines
// ---------------------------------------------------------------------------

/// Where live frames are encoded to: beside the film when a lossless capture is
/// staged, and else to the film itself.
pub open spec fn capture_of(output: Seq<u8>, profile: EncodingProfile) -> Seq<u8> {
    match profile {
        EncodingProfile::Proof => output,
        EncodingProfile::Showpiece => ospath::with_extension_of(
            output,
            text::word("capture.mkv"),
        ),
    }
}

/// A frame's extents, in words.
pub open spec fn geometry(width: u32, height: u32) -> Seq<char> {
    text::decimal(width as nat) + "x"@ + text::decimal(height as nat)
}

fn geometry_text(width: u32, height: u32) -> (text: String)
    ensures
        text@ == geometry(width, height),
{
    glue3(
        decimal_text(width as u128).as_str(),
        "x",
        decimal_text(height as u128).as_str(),
    )
}

/// What the film's own compression demands.
pub open spec fn film_arguments(profile: EncodingProfile) -> Seq<Seq<u8>> {
    text::words(
        seq![
            "-vf",
            "pad=ceil(iw/2)*2:ceil(ih/2)*2",
            "-c:v",
            "libx264",
            "-preset",
            profile.preset(),
            "-crf",
            profile.factor(),
            "-pix_fmt",
            "yuv420p",
            "-movflags",
            "+faststart",
        ],
    )
}

/// How live frames are compressed.
pub open spec fn live_arguments(profile: EncodingProfile) -> Seq<Seq<u8>> {
    match profile {
        EncodingProfile::Proof => film_arguments(profile),
        EncodingProfile::Showpiece => text::words(
            seq![
                "-c:v",
                "libx264rgb",
                "-preset",
                "ultrafast",
                "-qp",
                "0",
                "-pix_fmt",
                "bgr0",
            ],
        ),
    }
}

/// The command that encodes raw live frames.
pub open spec fn ignition(
    output: Seq<u8>,
    width: u32,
    height: u32,
    frames_per_second: u32,
    profile: EncodingProfile,
) -> Seq<Seq<u8>> {
    (text::words(
        seq![
            "ffmpeg",
            "-hide_banner",
            "-loglevel",
            "error",
            "-y",
            "-f",
            "rawvideo",
            "-pixel_format",
            "rgba",
            "-video_size",
        ],
    ) + seq![
        encode_utf8(geometry(width, height)),
        text::word("-framerate"),
        encode_utf8(text::decimal(frames_per_second as nat)),
    ] + text::words(seq!["-i", "pipe:0", "-an"]) + live_arguments(profile)).push(
        capture_of(output, profile),
    )
}

/// The command that turns a lossless capture into the film.
pub open spec fn transcode(
    capture: Seq<u8>,
    output: Seq<u8>,
    profile: EncodingProfile,
) -> Seq<Seq<u8>> {
    (text::words(seq!["ffmpeg", "-hide_banner", "-loglevel", "error", "-y", "-i"]).push(capture)
        + text::words(seq!["-an"]) + film_arguments(profile) + (match profile.tune() {
        Some(tune) => text::words(seq!["-tune", tune]),
        None => seq![],
    })).push(output)
}

fn capture_path(output: &Vec<u8>, profile: EncodingProfile) -> (capture: Vec<u8>)
    ensures
        capture@ == capture_of(output@, profile),
{
    match profile {
        EncodingProfile::Proof => copy_bytes(output.as_slice()),
        EncodingProfile::Showpiece => with_extension(output.as_slice(), "capture.mkv"),
    }
}

fn push_film_arguments(line: &mut Vec<Vec<u8>>, profile: EncodingProfile)
    ensures
        text::views(final(line)@) == text::views(old(line)@) + film_arguments(profile),
{
    let (preset, factor, _) = profile.x264();
    push_words(
        line,
        &[
            "-vf",
            "pad=ceil(iw/2)*2:ceil(ih/2)*2",
            "-c:v",
            "libx264",
            "-preset",
            preset,
            "-crf",
            factor,
            "-pix_fmt",
            "yuv420p",
            "-movflags",
            "+faststart",
        ],
    );
    assert(text::views(line@) =~= text::views(old(line)@) + film_arguments(profile));
}

/// Assemble the command that encodes raw live frames.
pub fn ignition_line(
    output: &Vec<u8>,
    width: u32,
    height: u32,
    frames_per_second: u32,
    profile: EncodingProfile,
) -> (line: Vec<Vec<u8>>)
    ensures
        text::views(line@) == ignition(output@, width, height, frames_per_second, profile),
{
    let mut line: Vec<Vec<u8>> = Vec::new();
    push_words(
        &mut line,
        &[
            "ffmpeg",
            "-hide_banner",
            "-loglevel",
            "error",
            "-y",
            "-f",
            "rawvideo",
            "-pixel_format",
            "rgba",
            "-video_size",
        ],
    );
    push_word(&mut line, geometry_text(width, height).as_str());
    push_word(&mut line, "-framerate");
    push_word(&mut line, decimal_text(frames_per_second as u128).as_str());
    push_words(&mut line, &["-i", "pipe:0", "-an"]);
    match profile {
        EncodingProfile::Proof => {
            push_film_arguments(&mut line, profile);
        },
        EncodingProfile::Showpiece => {
            push_words(
                &mut line,
                &[
                    "-c:v",
                    "libx264rgb",
                    "-preset",
                    "ultrafast",
                    "-qp",
                    "0",
                    "-pix_fmt",
                    "bgr0",
                ],
            );
        },
    }
    push_bytes(&mut line, capture_path(output, profile).as_slice());
    assert(text::views(line@) =~= ignition(output@, width, height, frames_per_second, profile));
    line
}

// ---------------------------------------------------------------------------
// Life
// ---------------------------------------------------------------------------

/// A film encoder: where it stands between its ignition and the published film.
#[derive(Debug)]
pub struct Encoder {
    output: Vec<u8>,
    capture: Vec<u8>,
    encoding_profile: EncodingProfile,
    running: bool,
    open: bool,
    width: u32,
    height: u32,
    frame_bytes: usize,
    capture_sealed: bool,
    published: bool,
}

/// Content of an [`Encoder`].
#[verifier::ext_equal]
pub struct EncoderView {
    pub output: Seq<u8>,
    pub capture: Seq<u8>,
    pub profile: EncodingProfile,
    /// Whether the encoder process was not waited for yet.
    pub running: bool,
    /// Whether frames can be written.
    pub open: bool,
    pub width: u32,
    pub height: u32,
    pub frame_bytes: nat,
    pub capture_sealed: bool,
    pub published: bool,
}

impl View for Encoder {
    type V = EncoderView;

    closed spec fn view(&self) -> EncoderView {
        EncoderView {
            output: self.output@,
            capture: self.capture@,
            profile: self.encoding_profile,
            running: self.running,
            open: self.open,
            width: self.width,
            height: self.height,
            frame_bytes: self.frame_bytes as nat,
            capture_sealed: self.capture_sealed,
            published: self.published,
        }
    }
}

/// What became of an attempt to start the encoder: whether it exposed its input.
pub open spec fn start_failure(
    output: Seq<u8>,
    width: u32,
    height: u32,
    started: std::result::Result<bool, Source>,
) -> Option<ErrorView> {
    match started {
        Err(source) => if source.kind == SourceKind::NotFound {
            Some(ErrorView::MissingTool("ffmpeg"@))
        } else {
            Some(
                ErrorView::Io {
                    operation: "spawn egui-demo encoder"@,
                    path: output,
                    source: source@,
                },
            )
        },
        Ok(false) => Some(
            ErrorView::Verdict { detail: "ffmpeg did not expose its raw-video input"@ },
        ),
        Ok(true) => if width * height * 4 > usize::MAX {
            Some(
                ErrorView::Verdict {
                    detail: "egui-demo frame geometry "@ + geometry(width, height)
                        + " exceeds platform limits"@,
                },
            )
        } else {
            None
        },
    }
}

/// Whether running a command line can come to an outcome.
pub open spec fn runs<T, R: FnOnce(&Vec<Vec<u8>>) -> std::result::Result<T, Source>>(
    run: R,
    line: Seq<Seq<u8>>,
    outcome: std::result::Result<T, Source>,
) -> bool {
    exists|arguments: &Vec<Vec<u8>>|
        text::views(arguments@) == line && #[trigger] run.ensures((arguments,), outcome)
}

/// Whether a command line may be run. Of no other line is anything known.
pub open spec fn runnable<T, R: FnOnce(&Vec<Vec<u8>>) -> std::result::Result<T, Source>>(
    run: R,
    line: Seq<Seq<u8>>,
) -> bool {
    forall|arguments: &Vec<Vec<u8>>|
        text::views(arguments@) == line ==> #[trigger] run.requires((arguments,))
}

/// The encoder just after its ignition.
pub open spec fn ignited(
    output: Seq<u8>,
    width: u32,
    height: u32,
    profile: EncodingProfile,
) -> EncoderView {
    EncoderView {
        output,
        capture: capture_of(output, profile),
        profile,
        running: true,
        open: true,
        width,
        height,
        frame_bytes: (width * height * 4) as nat,
        capture_sealed: false,
        published: false,
    }
}

/// A helper command that failed.
pub open spec fn command_failure(target: Seq<u8>, output: CommandOutput) -> Option<ErrorView> {
    if output.success {
        None
    } else {
        Some(
            ErrorView::Command {
                command: "ffmpeg -> "@ + text::lossy(target),
                status: output.status@,
                stderr: text::lossy(output.stderr@),
            },
        )
    }
}

/// Demand that a helper command succeeded.
pub fn demand_command(output: CommandOutput, target: &Vec<u8>) -> (verdict: Result<()>)
    ensures
        match verdict {
            Ok(_) => command_failure(target@, output) is None,
            Err(error) => command_failure(target@, output) == Some(error@),
        },
{
    if output.success {
        Ok(())
    } else {
        Err(
            Error::Command {
                command: glue2("ffmpeg -> ", lossy_text(target.as_slice()).as_str()),
                status: output.status,
                stderr: lossy_text(output.stderr.as_slice()),
            },
        )
    }
}

fn frame_size(width: u32, height: u32) -> (bytes: Option<usize>)
    ensures
        match bytes {
            Some(bytes) => bytes == width * height * 4,
            None => width * height * 4 > usize::MAX,
        },
{
    let ghost area = width * height;
    assert(0 <= area <= 0xffff_fffe_0000_0001) by (nonlinear_arith)
        requires
            area == width * height,
            0 <= width <= 0xffff_ffff,
            0 <= height <= 0xffff_ffff,
    ;
    let wide: u128 = width as u128 * height as u128 * 4;
    if wide > usize::MAX as u128 {
        None
    } else {
        Some(wide as usize)
    }
}

impl EncoderView {
    /// Why a frame cannot be written, when it cannot.
    pub open spec fn frame_objection(self, width: u32, height: u32, bytes: nat) -> Option<Seq<char>> {
        if width != self.width || height != self.height {
            Some(
                "egui-demo frame geometry changed from "@ + geometry(self.width, self.height)
                    + " to "@ + geometry(width, height),
            )
        } else if bytes != self.frame_bytes {
            Some(
                "egui-demo frame has "@ + text::decimal(bytes) + " RGBA bytes, expected "@
                    + text::decimal(self.frame_bytes),
            )
        } else if !self.open {
            Some("egui-demo film was written after encoder closure"@)
        } else {
            None
        }
    }

    /// The encoder once its process was waited for, or could not be.
    pub open spec fn closed(self, waited: std::result::Result<CommandOutput, Source>) -> EncoderView {
        EncoderView {
            open: false,
            running: false,
            capture_sealed: waited is Ok,
            published: self.published || ((waited matches Ok(output) && output.success)
                && self.profile == EncodingProfile::Proof),
            ..self
        }
    }

    /// What closing the encoder comes to.
    pub open spec fn closing(self, waited: std::result::Result<CommandOutput, Source>) -> std::result::Result<
        (),
        ErrorView,
    > {
        match waited {
            Err(source) => Err(
                ErrorView::Io {
                    operation: "wait for egui-demo encoder"@,
                    path: self.output,
                    source: source@,
                },
            ),
            Ok(output) => match command_failure(self.capture, output) {
                Some(error) => Err(error),
                None => Ok(()),
            },
        }
    }

    /// Whether sealing can come to an outcome and leave the encoder so.
    pub open spec fn seals<C: FnOnce() -> std::result::Result<CommandOutput, Source>>(
        self,
        wait: C,
        outcome: std::result::Result<(), ErrorView>,
        after: EncoderView,
    ) -> bool {
        if self.capture_sealed {
            outcome == Ok::<(), ErrorView>(()) && after == self
        } else if !self.running {
            outcome == Err::<(), _>(
                ErrorView::Verdict {
                    detail: "egui-demo encoder process vanished before closure"@,
                },
            ) && after == (EncoderView { open: false, ..self })
        } else {
            exists|waited: std::result::Result<CommandOutput, Source>| #[trigger]
                wait.ensures((), waited) && outcome == self.closing(waited) && after
                    == self.closed(waited)
        }
    }
}

impl Encoder {
    /// Start the encoder. `start` runs a command line with its input piped, and
    /// tells whether the input is there.
    pub fn ignite<L: FnOnce(&Vec<Vec<u8>>) -> std::result::Result<bool, Source>>(
        output: &Vec<u8>,
        width: u32,
        height: u32,
        frames_per_second: u32,
        encoding_profile: EncodingProfile,
        start: L,
    ) -> (encoder: Result<Self>)
        requires
            runnable(
                start,
                ignition(output@, width, height, frames_per_second, encoding_profile),
            ),
        ensures
            exists|started: std::result::Result<bool, Source>| #[trigger]
                runs(
                    start,
                    ignition(output@, width, height, frames_per_second, encoding_profile),
                    started,
                ) && match encoder {
                    Ok(encoder) => start_failure(output@, width, height, started) is None
                        && encoder@ == ignited(output@, width, height, encoding_profile),
                    Err(error) => start_failure(output@, width, height, started) == Some(error@),
                },
    {
        let line = ignition_line(output, width, height, frames_per_second, encoding_profile);
        let started = start(&line);
        assert(runs(
            start,
            ignition(output@, width, height, frames_per_second, encoding_profile),
            started,
        ));
        match started {
            Err(source) => {
                if source.kind == SourceKind::NotFound {
                    return Err(Error::MissingTool("ffmpeg"));
                }
                return Err(io("spawn egui-demo encoder", output, source));
            },
            Ok(exposed) => {
                if !exposed {
                    return Err(
                        Error::Verdict {
                            detail: "ffmpeg did not expose its raw-video input".to_owned(),
                        },
                    );
                }
            },
        }
        match frame_size(width, height) {
            None => Err(
                Error::Verdict {
                    detail: glue3(
                        "egui-demo frame geometry ",
                        geometry_text(width, height).as_str(),
                        " exceeds platform limits",
                    ),
                },
            ),
            Some(frame_bytes) => Ok(
                Encoder {
                    output: copy_bytes(output.as_slice()),
                    capture: capture_path(output, encoding_profile),
                    encoding_profile,
                    running: true,
                    open: true,
                    width,
                    height,
                    frame_bytes,
                    capture_sealed: false,
                    published: false,
                },
            ),
        }
    }

    /// Write one frame. `sink` takes the frame's bytes.
    pub fn write<W: FnOnce(&Vec<u8>) -> std::result::Result<(), Source>>(
        &self,
        width: u32,
        height: u32,
        rgba: &Vec<u8>,
        sink: W,
    ) -> (outcome: Result<()>)
        requires
            self@.frame_objection(width, height, rgba@.len()) is None ==> sink.requires((rgba,)),
        ensures
            match self@.frame_objection(width, height, rgba@.len()) {
                Some(detail) => outcome matches Err(error) && error@ == (ErrorView::Verdict {
                    detail,
                }),
                None => match outcome {
                    Ok(_) => sink.ensures((rgba,), Ok(())),
                    Err(error) => exists|source: Source| #[trigger]
                        sink.ensures((rgba,), Err(source)) && error@ == (ErrorView::Io {
                            operation: "write egui-demo frame"@,
                            path: self@.output,
                            source: source@,
                        }),
                },
            },
    {
        if width != self.width || height != self.height {
            return Err(
                Error::Verdict {
                    detail: glue4(
                        "egui-demo frame geometry changed from ",
                        geometry_text(self.width, self.height).as_str(),
                        " to ",
                        geometry_text(width, height).as_str(),
                    ),
                },
            );
        }
        if rgba.len() != self.frame_bytes {
            return Err(
                Error::Verdict {
                    detail: glue4(
                        "egui-demo frame has ",
                        decimal_text(rgba.len() as u128).as_str(),
                        " RGBA bytes, expected ",
                        decimal_text(self.frame_bytes as u128).as_str(),
                    ),
                },
            );
        }
        if !self.open {
            return Err(
                Error::Verdict {
                    detail: "egui-demo film was written after encoder closure".to_owned(),
                },
            );
        }
        match sink(rgba) {
            Ok(unit) => {
                assert(unit == ());
                Ok(())
            },
            Err(source) => Err(io("write egui-demo frame", &self.output, source)),
        }
    }

    /// Close the encoder's input and wait for it, once. `wait` closes and waits.
    pub fn seal<C: FnOnce() -> std::result::Result<CommandOutput, Source>>(&mut self, wait: C) -> (
        outcome: Result<()>)
        requires
            old(self)@.sealable(wait),
        ensures
            old(self)@.seals(wait, host::told(outcome), final(self)@),
    {
        if self.capture_sealed {
            return Ok(());
        }
        self.open = false;
        if !self.running {
            return Err(
                Error::Verdict {
                    detail: "egui-demo encoder process vanished before closure".to_owned(),
                },
            );
        }
        self.running = false;
        let ghost before = old(self)@;
        let waited = wait();
        let ghost seen = waited;
        match waited {
            Err(source) => Err(io("wait for egui-demo encoder", &self.output, source)),
            Ok(output) => {
                self.capture_sealed = true;
                match demand_command(output, &self.capture) {
                    Ok(unit) => {
                        assert(unit == ());
                        if !self.encoding_profile.stages_lossless_capture() {
                            self.published = true;
                        }
                        assert(self@ =~= before.closed(seen));
                        Ok(())
                    },
                    Err(error) => {
                        assert(self@ =~= before.closed(seen));
                        Err(error)
                    },
                }
            },
        }
    }

    /// Assemble the command that turns the lossless capture into the film.
    pub fn transcode_line(&self) -> (line: Vec<Vec<u8>>)
        ensures
            text::views(line@) == transcode(self@.capture, self@.output, self@.profile),
    {
        let (_, _, tune) = self.encoding_profile.x264();
        let mut line: Vec<Vec<u8>> = Vec::new();
        push_words(&mut line, &["ffmpeg", "-hide_banner", "-loglevel", "error", "-y", "-i"]);
        push_bytes(&mut line, self.capture.as_slice());
        push_words(&mut line, &["-an"]);
        push_film_arguments(&mut line, self.encoding_profile);
        if let Some(tune) = tune {
            push_words(&mut line, &["-tune", tune]);
        }
        push_bytes(&mut line, self.output.as_slice());
        assert(text::views(line@) =~= transcode(self@.capture, self@.output, self@.profile));
        line
    }

    /// Publish the film: seal the capture, and where it is a lossless one, turn
    /// it into the film and remove it.
    pub fn publish<
        C: FnOnce() -> std::result::Result<CommandOutput, Source>,
        T: FnOnce(&Vec<Vec<u8>>) -> std::result::Result<CommandOutput, Source>,
        D: FnOnce(&Vec<u8>) -> std::result::Result<(), Source>,
    >(&mut self, wait: C, run: T, remove: D) -> (outcome: Result<()>)
        requires
            old(self)@.publishable(wait, run, remove),
        ensures
            exists|sealed: std::result::Result<(), ErrorView>, between: EncoderView| #[trigger]
                old(self)@.seals(wait, sealed, between) && match sealed {
                    Err(error) => host::told(outcome) == Err::<(), _>(error) && final(self)@ == between,
                    Ok(_) => between.publishes(run, remove, host::told(outcome), final(self)@),
                },
    {
        let ghost before = self@;
        match self.seal(wait) {
            Ok(unit) => {
                assert(unit == ());
            },
            Err(error) => {
                assert(before.seals(wait, Err(error@), self@));
                return Err(error);
            },
        }
        let ghost between = self@;
        assert(before.seals(wait, Ok(()), between));
        self.publish_sealed(run, remove)
    }

    /// Publish the film of a sealed capture: where it is a lossless one, turn it into
    /// the film and remove it.
    pub fn publish_sealed<
        T: FnOnce(&Vec<Vec<u8>>) -> std::result::Result<CommandOutput, Source>,
        D: FnOnce(&Vec<u8>) -> std::result::Result<(), Source>,
    >(&mut self, run: T, remove: D) -> (outcome: Result<()>)
        requires
            old(self)@.finishable(run, remove),
        ensures
            old(self)@.publishes(run, remove, host::told(outcome), final(self)@),
    {
        let ghost between = self@;
        if self.published {
            return Ok(());
        }
        let line = self.transcode_line();
        let ran = run(&line);
        assert(runs(run, transcode(between.capture, between.output, between.profile), ran));
        match ran {
            Err(source) => {
                return Err(io("spawn egui-demo showpiece transcode", &self.output, source));
            },
            Ok(output) => {
                assert(runs(
                    run,
                    transcode(between.capture, between.output, between.profile),
                    Ok(output),
                ));
                match demand_command(output, &self.output) {
                    Ok(unit) => {
                        assert(unit == ());
                    },
                    Err(error) => {
                        return Err(error);
                    },
                }
            },
        }
        match remove(&self.capture) {
            Ok(unit) => {
                assert(unit == ());
                assert(removes(remove, between.capture, Ok(())));
                self.published = true;
                assert(self@ =~= (EncoderView { published: true, ..between }));
                Ok(())
            },
            Err(source) => {
                assert(removes(remove, between.capture, Err(source)));
                Err(io("remove lossless egui-demo capture", &self.capture, source))
            },
        }
    }

    /// What giving the encoder up demands: whether to wait for its process, and
    /// the lossless capture to remove, if it was not published.
    pub fn abandon(&mut self) -> (demands: (bool, Option<Vec<u8>>))
        ensures
            demands.0 == (!old(self)@.capture_sealed && old(self)@.running),
            match demands.1 {
                Some(capture) => old(self)@.profile == EncodingProfile::Showpiece
                    && !old(self)@.published && capture@ == old(self)@.capture,
                None => old(self)@.profile != EncodingProfile::Showpiece || old(self)@.published,
            },
            final(self)@ == if old(self)@.capture_sealed {
                old(self)@
            } else {
                EncoderView { open: false, running: false, ..old(self)@ }
            },
    {
        let mut wait = false;
        if !self.capture_sealed {
            wait = self.running;
            self.open = false;
            self.running = false;
        }
        let remove = if self.encoding_profile.stages_lossless_capture() && !self.published {
            Some(copy_bytes(self.capture.as_slice()))
        } else {
            None
        };
        (wait, remove)
    }
}

impl EncoderView {
    /// Whether the encoder may be sealed: it is waited for only while it runs.
    pub open spec fn sealable<C: FnOnce() -> std::result::Result<CommandOutput, Source>>(
        self,
        wait: C,
    ) -> bool {
        !self.capture_sealed && self.running ==> wait.requires(())
    }

    /// Whether a sealed capture may be published: it is encoded once, and removed
    /// only once that succeeded. A published film needs neither.
    pub open spec fn finishable<
        T: FnOnce(&Vec<Vec<u8>>) -> std::result::Result<CommandOutput, Source>,
        D: FnOnce(&Vec<u8>) -> std::result::Result<(), Source>,
    >(self, run: T, remove: D) -> bool {
        let line = transcode(self.capture, self.output, self.profile);
        !self.published ==> {
            &&& runnable(run, line)
            &&& forall|output: CommandOutput| #[trigger]
                runs(run, line, Ok(output)) && command_failure(self.output, output) is None
                    ==> host::makeable(remove, self.capture)
        }
    }

    /// Whether the encoder may be sealed and then published.
    pub open spec fn publishable<
        C: FnOnce() -> std::result::Result<CommandOutput, Source>,
        T: FnOnce(&Vec<Vec<u8>>) -> std::result::Result<CommandOutput, Source>,
        D: FnOnce(&Vec<u8>) -> std::result::Result<(), Source>,
    >(self, wait: C, run: T, remove: D) -> bool {
        &&& self.sealable(wait)
        &&& forall|between: EncoderView| #[trigger]
            self.seals(wait, Ok(()), between) ==> between.finishable(run, remove)
    }
}

/// Whether removing a file can come to an outcome.
pub open spec fn removes<D: FnOnce(&Vec<u8>) -> std::result::Result<(), Source>>(
    remove: D,
    path: Seq<u8>,
    outcome: std::result::Result<(), Source>,
) -> bool {
    exists|place: &Vec<u8>| place@ == path && #[trigger] remove.ensures((place,), outcome)
}

impl EncoderView {
    /// Whether publishing a sealed capture can come to an outcome and leave the
    /// encoder so.
    pub open spec fn publishes<
        T: FnOnce(&Vec<Vec<u8>>) -> std::result::Result<CommandOutput, Source>,
        D: FnOnce(&Vec<u8>) -> std::result::Result<(), Source>,
    >(self, run: T, remove: D, outcome: std::result::Result<(), ErrorView>, after: EncoderView) -> bool {
        if self.published {
            outcome == Ok::<(), ErrorView>(()) && after == self
        } else {
            exists|ran: std::result::Result<CommandOutput, Source>| #[trigger]
                runs(run, transcode(self.capture, self.output, self.profile), ran) && match ran {
                    Err(source) => outcome == Err::<(), _>(
                        ErrorView::Io {
                            operation: "spawn egui-demo showpiece transcode"@,
                            path: self.output,
                            source: source@,
                        },
                    ) && after == self,
                    Ok(output) => match command_failure(self.output, output) {
                        Some(error) => outcome == Err::<(), _>(error) && after == self,
                        None => self.clears(remove, outcome, after),
                    },
                }
        }
    }

    /// Whether removing the lossless capture can come to an outcome and leave the
    /// encoder so.
    pub open spec fn clears<D: FnOnce(&Vec<u8>) -> std::result::Result<(), Source>>(
        self,
        remove: D,
        outcome: std::result::Result<(), ErrorView>,
        after: EncoderView,
    ) -> bool {
        ||| removes(remove, self.capture, Ok(())) && outcome == Ok::<(), ErrorView>(()) && after
            == (EncoderView { published: true, ..self })
        ||| exists|source: Source| #[trigger]
            removes(remove, self.capture, Err(source)) && outcome == Err::<(), _>(
                ErrorView::Io {
                    operation: "remove lossless egui-demo capture"@,
                    path: self.capture,
                    source: source@,
                },
            ) && after == self
    }
}

/// A film that is published needs no more work: publishing it again neither
/// waits, encodes, nor removes anything.
pub proof fn law_published_films_stay_published<
    C: FnOnce() -> std::result::Result<CommandOutput, Source>,
    T: FnOnce(&Vec<Vec<u8>>) -> std::result::Result<CommandOutput, Source>,
    D: FnOnce(&Vec<u8>) -> std::result::Result<(), Source>,
>(
    encoder: EncoderView,
    wait: C,
    run: T,
    remove: D,
    sealed: std::result::Result<(), ErrorView>,
    between: EncoderView,
    outcome: std::result::Result<(), ErrorView>,
    after: EncoderView,
)
    requires
        encoder.capture_sealed,
        encoder.published,
        encoder.seals(wait, sealed, between),
        between.publishes(run, remove, outcome, after),
    ensures
        sealed is Ok,
        outcome is Ok,
        after == encoder,
{
}

/// Live frames are encoded as raw pixels of their own size and rate, the proof straight into
/// the film with fast compression, the showpiece losslessly into a capture beside it.
pub proof fn law_frames_are_encoded_by_their_profile(
    output: Vec<u8>,
    width: u32,
    height: u32,
    rate: u32,
    profile: EncodingProfile,
    line: Vec<Vec<u8>>,
)
    requires
        ignition_line.ensures((&output, width, height, rate, profile), line),
    ensures
        ({
            let line = text::views(line@);
            let lossless = profile == EncodingProfile::Showpiece;
            &&& line[0] == text::word("ffmpeg")
            &&& line[3] == text::word("error")
            &&& line[4] == text::word("-y")
            &&& line[5] == text::word("-f") && line[6] == text::word("rawvideo")
            &&& line[7] == text::word("-pixel_format") && line[8] == text::word("rgba")
            &&& line[9] == text::word("-video_size") && line[10] == encode_utf8(
                text::decimal(width as nat) + "x"@ + text::decimal(height as nat),
            )
            &&& line[11] == text::word("-framerate") && line[12] == encode_utf8(
                text::decimal(rate as nat),
            )
            &&& line[13] == text::word("-i") && line[14] == text::word("pipe:0")
            &&& line[15] == text::word("-an")
            &&& !lossless ==> line.len() == 29 && line[16] == text::word("-vf") && line[17]
                == text::word("pad=ceil(iw/2)*2:ceil(ih/2)*2") && line[18] == text::word("-c:v")
                && line[19] == text::word("libx264") && line[20] == text::word("-preset")
                && line[21] == text::word("veryfast") && line[22] == text::word("-crf")
                && line[23] == text::word("18") && line[24] == text::word("-pix_fmt") && line[25]
                == text::word("yuv420p") && line[26] == text::word("-movflags") && line[27]
                == text::word("+faststart") && line[28] == output@
            &&& lossless ==> line.len() == 25 && line[16] == text::word("-c:v") && line[17]
                == text::word("libx264rgb") && line[18] == text::word("-preset") && line[19]
                == text::word("ultrafast") && line[20] == text::word("-qp") && line[21]
                == text::word("0") && line[22] == text::word("-pix_fmt") && line[23]
                == text::word("bgr0") && line[24] == ospath::with_extension_of(
                output@,
                text::word("capture.mkv"),
            )
        }),
{
}

/// A lossless capture becomes the film by slow compression tuned for animation.
pub proof fn law_captures_become_their_film(encoder: Encoder, line: Vec<Vec<u8>>)
    requires
        Encoder::transcode_line.ensures((&encoder,), line),
        encoder@.profile == EncodingProfile::Showpiece,
    ensures
        text::views(line@) == seq![
            text::word("ffmpeg"),
            text::word("-hide_banner"),
            text::word("-loglevel"),
            text::word("error"),
            text::word("-y"),
            text::word("-i"),
            encoder@.capture,
            text::word("-an"),
            text::word("-vf"),
            text::word("pad=ceil(iw/2)*2:ceil(ih/2)*2"),
            text::word("-c:v"),
            text::word("libx264"),
            text::word("-preset"),
            text::word("slow"),
            text::word("-crf"),
            text::word("12"),
            text::word("-pix_fmt"),
            text::word("yuv420p"),
            text::word("-movflags"),
            text::word("+faststart"),
            text::word("-tune"),
            text::word("animation"),
            encoder@.output,
        ],
{
}

/// Only frames of the film's own size are written, whole, and only while the encoder takes
/// them.
pub proof fn law_written_frames_fit_their_film<W: FnOnce(&Vec<u8>) -> std::result::Result<(), Source>>(
    encoder: Encoder,
    width: u32,
    height: u32,
    rgba: Vec<u8>,
    sink: W,
    outcome: Result<()>,
)
    requires
        Encoder::write.ensures((&encoder, width, height, &rgba, sink), outcome),
    ensures
        outcome is Ok ==> width == encoder@.width && height == encoder@.height && rgba@.len()
            == encoder@.frame_bytes && encoder@.open && sink.ensures((&rgba,), Ok(())),
        width != encoder@.width || height != encoder@.height || rgba@.len() != encoder@.frame_bytes
            || !encoder@.open ==> (outcome matches Err(error) && error@ is Verdict),
        width == encoder@.width && height == encoder@.height && rgba@.len() == encoder@.frame_bytes
            && encoder@.open ==> (outcome matches Err(error) ==> error@ is Io),
{
}

/// An encoder starts open, for frames of four bytes a pixel, with nothing sealed or
/// published.
pub proof fn law_encoders_start_open<L: FnOnce(&Vec<Vec<u8>>) -> std::result::Result<bool, Source>>(
    output: Vec<u8>,
    width: u32,
    height: u32,
    rate: u32,
    profile: EncodingProfile,
    start: L,
    encoder: Encoder,
)
    requires
        Encoder::ignite.ensures((&output, width, height, rate, profile, start), Ok(encoder)),
    ensures
        encoder@.output == output@,
        encoder@.profile == profile,
        encoder@.width == width && encoder@.height == height,
        encoder@.frame_bytes == width * height * 4,
        encoder@.open && encoder@.running,
        !encoder@.capture_sealed && !encoder@.published,
        encoder@.capture == output@ <== profile == EncodingProfile::Proof,
        encoder@.capture == ospath::with_extension_of(output@, text::word("capture.mkv")) <== profile
            == EncodingProfile::Showpiece,
        exists|line: &Vec<Vec<u8>>| #[trigger]
            start.ensures((line,), Ok::<bool, Source>(true)),
{
}

/// Sealing closes the encoder for good: it succeeds only where the encoder did, and then
/// the proof is published and the showpiece is not yet.
pub proof fn law_sealed_encoders_are_closed<
    C: FnOnce() -> std::result::Result<CommandOutput, Source>,
>(
    before: EncoderView,
    wait: C,
    outcome: std::result::Result<(), ErrorView>,
    after: EncoderView,
)
    requires
        before.seals(wait, outcome, after),
        !before.capture_sealed,
    ensures
        !after.open,
        !after.running,
        outcome is Ok ==> exists|output: CommandOutput| #[trigger]
            wait.ensures((), Ok::<CommandOutput, Source>(output)) && output.success,
        outcome is Ok ==> after.capture_sealed,
        !before.published ==> (after.published <==> outcome is Ok && before.profile
            == EncodingProfile::Proof),
        after.output == before.output && after.capture == before.capture && after.profile
            == before.profile,
{
    if before.running {
        let waited = choose|waited: std::result::Result<CommandOutput, Source>| #[trigger]
            wait.ensures((), waited) && outcome == before.closing(waited) && after == before.closed(
                waited,
            );
        if let Ok(output) = waited {
            assert(wait.ensures((), Ok::<CommandOutput, Source>(output)));
        }
    }
}

/// A film becomes published only once it was encoded and its capture removed, and a failure
/// leaves everything as it was.
pub proof fn law_films_are_published_after_their_capture<
    T: FnOnce(&Vec<Vec<u8>>) -> std::result::Result<CommandOutput, Source>,
    D: FnOnce(&Vec<u8>) -> std::result::Result<(), Source>,
>(
    before: EncoderView,
    run: T,
    remove: D,
    outcome: std::result::Result<(), ErrorView>,
    after: EncoderView,
)
    requires
        before.publishes(run, remove, outcome, after),
        !before.published,
    ensures
        after.published <==> outcome is Ok,
        after.published ==> (exists|capture: &Vec<u8>|
            capture@ == before.capture && #[trigger] remove.ensures((capture,), Ok::<(), Source>(())))
            && (exists|line: &Vec<Vec<u8>>, output: CommandOutput| #[trigger]
            run.ensures((line,), Ok::<CommandOutput, Source>(output)) && output.success),
        outcome is Err ==> after == before,
        after == (EncoderView { published: after.published, ..before }),
{
    let ran = choose|ran: std::result::Result<CommandOutput, Source>| #[trigger]
        runs(run, transcode(before.capture, before.output, before.profile), ran) && match ran {
            Err(source) => outcome is Err && after == before,
            Ok(output) => match command_failure(before.output, output) {
                Some(error) => outcome == Err::<(), _>(error) && after == before,
                None => before.clears(remove, outcome, after),
            },
        };
    let line = choose|arguments: &Vec<Vec<u8>>|
        text::views(arguments@) == transcode(before.capture, before.output, before.profile)
            && #[trigger] run.ensures((arguments,), ran);
    if let Ok(output) = ran {
        assert(run.ensures((line,), Ok::<CommandOutput, Source>(output)));
    }
}

} // verus!
