//! A window session: its guarded actions, and what it leaves beneath the owned
//! tree.
use crate::error::{io, Error, ErrorView, Result, Source};
use crate::ospath;
use crate::pixels::Frame;
use crate::testbed::Testbed;
use crate::text;
use crate::text::{characters, glue2, glue3, text_bytes};
use crate::timing::ActionReceipt;
use vstd::prelude::*;
use vstd::utf8::*;

verus! {

/// Files that a window session writes.
#[derive(Debug)]
pub struct SessionPaths {
    /// One line for every action.
    pub transcript: Vec<u8>,
    /// The last captured frame.
    pub latest_capture: Vec<u8>,
}

/// A unit's name with its dots replaced.
pub open spec fn stem_of(unit: Seq<char>) -> Seq<char> {
    Seq::new(
        unit.len(),
        |i: int|
            if unit[i] == '.' {
                '_'
            } else {
                unit[i]
            },
    )
}

/// A unit's name as the stem of a file name.
pub fn stem(unit: &str) -> (stem: String)
    ensures
        stem@ == stem_of(unit@),
{
    let spelled = characters(unit);
    let mut stem = String::new();
    let mut index: usize = 0;
    while index < spelled.len()
        invariant
            index <= spelled.len(),
            spelled@ == unit@,
            stem@ =~= stem_of(unit@).take(index as int),
        decreases spelled.len() - index,
    {
        let c: char = spelled[index];
        stem.push(
            if c == '.' {
                '_'
            } else {
                c
            },
        );
        index = index + 1;
    }
    assert(stem_of(unit@).take(index as int) =~= stem_of(unit@));
    stem
}

impl SessionPaths {
    /// The files of a unit's window session.
    pub fn forge(testbed: &Testbed, unit: &str) -> (paths: Self)
        ensures
            paths.transcript@ == ospath::joined(
                testbed@.root,
                ospath::joined(
                    text::word("diagnostics"),
                    encode_utf8(stem_of(unit@) + "-actions.jsonl"@),
                ),
            ),
            paths.latest_capture@ == ospath::joined(
                testbed@.root,
                encode_utf8("captures/"@ + stem_of(unit@) + "-latest.png"@),
            ),
    {
        let stem = stem(unit);
        let transcript = glue2(stem.as_str(), "-actions.jsonl");
        let capture = glue3("captures/", stem.as_str(), "-latest.png");
        SessionPaths {
            transcript: testbed.diagnostic_path(&text_bytes(transcript.as_str())),
            latest_capture: testbed.host_path(&text_bytes(capture.as_str())),
        }
    }
}

// ---------------------------------------------------------------------------
// Guarded actions
// ---------------------------------------------------------------------------

/// Whether proving the application alive can come to an outcome.
pub open spec fn proves<E: FnOnce(&str) -> Result<()>>(ensure: E, waiting: Seq<char>, outcome: Result<
    (),
>) -> bool {
    exists|name: &str| name@ == waiting && #[trigger] ensure.ensures((name,), outcome)
}

/// Whether recording a performed action can come to an outcome.
pub open spec fn records<K: FnOnce(&ActionReceipt) -> Result<()>>(
    record: K,
    performed: Result<ActionReceipt>,
    outcome: Result<ActionReceipt>,
) -> bool {
    match performed {
        Err(_) => outcome == performed,
        Ok(receipt) => exists|told: Result<()>| #[trigger]
            record.ensures((&receipt,), told) && match told {
                Ok(_) => outcome == performed,
                Err(error) => outcome == Err::<ActionReceipt, Error>(error),
            },
    }
}

/// Act on the window of an application that is alive, and record the action. Each
/// step is taken only when the one before succeeded.
pub fn act<
    E: FnOnce(&str) -> Result<()>,
    G: FnOnce() -> Result<ActionReceipt>,
    K: FnOnce(&ActionReceipt) -> Result<()>,
>(waiting: &str, ensure: E, perform: G, record: K) -> (receipt: Result<ActionReceipt>)
    requires
        forall|name: &str| name@ == waiting@ ==> #[trigger] ensure.requires((name,)),
        proves(ensure, waiting@, Ok(())) ==> perform.requires(()),
        forall|receipt: &ActionReceipt|
            proves(ensure, waiting@, Ok(())) && perform.ensures((), Ok(*receipt))
                ==> #[trigger] record.requires((receipt,)),
    ensures
        exists|alive: Result<()>| #[trigger]
            proves(ensure, waiting@, alive) && match alive {
                Err(error) => receipt == Err::<ActionReceipt, Error>(error),
                Ok(_) => exists|performed: Result<ActionReceipt>| #[trigger]
                    perform.ensures((), performed) && records(record, performed, receipt),
            },
{
    let alive = ensure(waiting);
    assert(proves(ensure, waiting@, alive));
    match alive {
        Ok(unit) => {
            assert(unit == ());
            assert(proves(ensure, waiting@, Ok(())));
        },
        Err(error) => {
            return Err(error);
        },
    }
    let performed = perform();
    let ghost given = performed;
    assert(perform.ensures((), given));
    match performed {
        Err(error) => {
            assert(records(record, given, Err(error)));
            Err(error)
        },
        Ok(receipt) => {
            let told = record(&receipt);
            assert(record.ensures((&receipt,), told));
            match told {
                Ok(_) => {
                    assert(records(record, given, Ok(receipt)));
                    Ok(receipt)
                },
                Err(error) => {
                    assert(records(record, given, Err(error)));
                    Err(error)
                },
            }
        },
    }
}

/// Keep what a wait for pixels came to: a frame is saved, and a failure leaves a
/// last capture behind.
pub fn remember_result<K: FnOnce(&Frame) -> Result<()>, C: FnOnce() -> Result<Frame>>(
    result: Result<Frame>,
    save: K,
    capture: C,
) -> (frame: Result<Frame>)
    requires
        forall|frame: &Frame| result == Ok::<Frame, Error>(*frame) ==> #[trigger] save.requires((frame,)),
        result is Err ==> capture.requires(()),
    ensures
        match result {
            Ok(seen) => exists|saved: Result<()>| #[trigger]
                save.ensures((&seen,), saved) && match saved {
                    Ok(_) => frame == result,
                    Err(error) => frame == Err::<Frame, Error>(error),
                },
            Err(_) => frame == result && exists|last: Result<Frame>| #[trigger]
                capture.ensures((), last),
        },
{
    match result {
        Ok(frame) => match save(&frame) {
            Ok(_) => Ok(frame),
            Err(error) => Err(error),
        },
        Err(error) => {
            let _capture = capture();
            Err(error)
        },
    }
}

/// Sample the pixels of a surface once its presentation was awaited. A failed wait
/// leaves a last capture behind, whatever becomes of it.
pub fn sample_presented<T, C: FnOnce() -> Result<Frame>>(presented: Result<T>, capture: C) -> (frame:
    Result<Frame>)
    requires
        capture.requires(()),
    ensures
        exists|sampled: Result<Frame>| #[trigger]
            capture.ensures((), sampled) && match presented {
                Ok(_) => frame == sampled,
                Err(error) => frame == Err::<Frame, Error>(error),
            },
{
    let sampled = capture();
    match presented {
        Ok(_) => sampled,
        Err(error) => Err(error),
    }
}

/// How a line of the transcript can fail to be written.
#[derive(Debug)]
pub enum TranscriptFault {
    /// The entry could not be encoded.
    Encode(String),
    /// The line could not be ended.
    Write(Source),
    /// The line could not be flushed.
    Flush(Source),
}

/// Report a line of the transcript that was not written.
pub fn transcript_failure(fault: TranscriptFault) -> (error: Error)
    ensures
        error@ == match fault {
            TranscriptFault::Encode(detail) => ErrorView::X11 {
                operation: "write action transcript"@,
                detail: detail@,
            },
            TranscriptFault::Write(source) => ErrorView::Io {
                operation: "write X11 action transcript"@,
                path: text::word("<transcript>"),
                source: source@,
            },
            TranscriptFault::Flush(source) => ErrorView::Io {
                operation: "flush X11 action transcript"@,
                path: text::word("<transcript>"),
                source: source@,
            },
        },
{
    match fault {
        TranscriptFault::Encode(detail) => Error::X11 {
            operation: "write action transcript",
            detail,
        },
        TranscriptFault::Write(source) => io(
            "write X11 action transcript",
            &text_bytes("<transcript>"),
            source,
        ),
        TranscriptFault::Flush(source) => io(
            "flush X11 action transcript",
            &text_bytes("<transcript>"),
            source,
        ),
    }
}

// ---------------------------------------------------------------------------
// Replies
// ---------------------------------------------------------------------------

/// Why the server did not answer a request.
#[derive(Debug)]
pub struct ReplyFault {
    /// Whether the window that the request names is gone.
    pub window: bool,
    pub text: String,
}

/// Judge a reply about a window: a window that is gone answers nothing, and any
/// other fault is a failure.
pub fn reply<T>(operation: &'static str, result: std::result::Result<T, ReplyFault>) -> (answer: Result<
    Option<T>,
>)
    ensures
        match result {
            Ok(value) => answer == Ok::<Option<T>, Error>(Some(value)),
            Err(fault) => if fault.window {
                answer == Ok::<Option<T>, Error>(None)
            } else {
                answer matches Err(error) && error@ == (ErrorView::X11 {
                    operation: operation@,
                    detail: fault.text@,
                })
            },
        },
{
    match result {
        Ok(value) => Ok(Some(value)),
        Err(fault) => if fault.window {
            Ok(None)
        } else {
            Err(Error::X11 { operation, detail: fault.text })
        },
    }
}

// ---------------------------------------------------------------------------
// Laws
// ---------------------------------------------------------------------------

/// A session's files are named after its unit, without dots: the transcript among the
/// diagnostics, and the latest frame among the captures.
pub proof fn law_sessions_write_under_their_unit(
    testbed: Testbed,
    unit: &str,
    paths: SessionPaths,
    stem: String,
    i: int,
)
    requires
        SessionPaths::forge.ensures((&testbed, unit), paths),
        self::stem.ensures((unit,), stem),
        0 <= i < unit@.len(),
    ensures
        stem@.len() == unit@.len(),
        stem@[i] == if unit@[i] == '.' {
            '_'
        } else {
            unit@[i]
        },
        !stem@.contains('.'),
        paths.transcript@ == ospath::joined(
            testbed@.root,
            ospath::joined(text::word("diagnostics"), encode_utf8(stem@ + "-actions.jsonl"@)),
        ),
        paths.latest_capture@ == ospath::joined(
            testbed@.root,
            encode_utf8("captures/"@ + stem@ + "-latest.png"@),
        ),
{
}

/// An action is taken only on an application that lives, and succeeds only where it was
/// performed and recorded.
pub proof fn law_actions_are_guarded_and_recorded<
    E: FnOnce(&str) -> Result<()>,
    G: FnOnce() -> Result<ActionReceipt>,
    K: FnOnce(&ActionReceipt) -> Result<()>,
>(waiting: &str, ensure: E, perform: G, record: K, receipt: ActionReceipt)
    requires
        act::<E, G, K>.ensures((waiting, ensure, perform, record), Ok(receipt)),
    ensures
        exists|name: &str|
            name@ == waiting@ && #[trigger] ensure.ensures((name,), Ok::<(), Error>(())),
        perform.ensures((), Ok::<ActionReceipt, Error>(receipt)),
        record.ensures((&receipt,), Ok::<(), Error>(())),
{
    let alive = choose|alive: Result<()>| #[trigger]
        proves(ensure, waiting@, alive) && match alive {
            Err(error) => false,
            Ok(_) => exists|performed: Result<ActionReceipt>| #[trigger]
                perform.ensures((), performed) && records(record, performed, Ok(receipt)),
        };
    if let Ok(unit) = alive {
        assert(unit == ());
    }
    let performed = choose|performed: Result<ActionReceipt>| #[trigger]
        perform.ensures((), performed) && records(record, performed, Ok(receipt));
    assert(performed == Ok::<ActionReceipt, Error>(receipt));
    let told = choose|told: Result<()>| #[trigger]
        record.ensures((&receipt,), told) && match told {
            Ok(_) => true,
            Err(error) => false,
        };
    if let Ok(unit) = told {
        assert(unit == ());
    }
}

/// A frame is given only once it was saved, and a failed wait still leaves a last capture.
pub proof fn law_frames_are_given_once_saved<
    K: FnOnce(&Frame) -> Result<()>,
    C: FnOnce() -> Result<Frame>,
>(result: Result<Frame>, save: K, capture: C, frame: Result<Frame>)
    requires
        remember_result::<K, C>.ensures((result, save, capture), frame),
    ensures
        frame matches Ok(given) ==> result == frame && exists|saved: Result<()>| #[trigger]
            save.ensures((&given,), saved) && saved is Ok,
        result is Err ==> frame == result && exists|last: Result<Frame>| #[trigger]
            capture.ensures((), last),
{
}

/// Pixels are sampled of a surface that was presented, and a failed wait stays failed.
pub proof fn law_samples_follow_their_presentation<T, C: FnOnce() -> Result<Frame>>(
    presented: Result<T>,
    capture: C,
    frame: Result<Frame>,
)
    requires
        sample_presented::<T, C>.ensures((presented, capture), frame),
    ensures
        frame is Ok ==> presented is Ok && capture.ensures((), frame),
        presented matches Err(error) ==> frame == Err::<Frame, Error>(error),
{
}

/// A window that is gone answers nothing, and every other fault is a failure.
pub proof fn law_gone_windows_answer_nothing<T>(
    operation: &'static str,
    result: std::result::Result<T, ReplyFault>,
    answer: Result<Option<T>>,
)
    requires
        reply::<T>.ensures((operation, result), answer),
    ensures
        result matches Ok(value) ==> answer == Ok::<Option<T>, Error>(Some(value)),
        answer is Err <==> (result matches Err(fault) && !fault.window),
        answer == Ok::<Option<T>, Error>(None) ==> (result matches Err(fault) && fault.window),
{
}

} // verus!
