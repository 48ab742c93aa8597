//! The low-tax frame journal: a sealed header followed by fixed-size records.
use crate::bytes;
use crate::bytes::{extend, narrow_length, push_little_endian, read_little_endian};
use crate::text;
use crate::text::{bytes_equal, copy_bytes, copy_range, decimal_text, glue2, glue3, glue5, same, strict_text};
use crate::witness::error::{Error, ErrorView, Result};
use vstd::prelude::*;
use vstd::utf8::*;

verus! {

/// `EGUIFRM` and a terminating zero.
pub const FRAME_MAGIC: [u8; 8] = [69, 71, 85, 73, 70, 82, 77, 0];

/// Version of the record layout.
pub const FRAME_SCHEMA: u32 = 2;

/// Five sixty-four-bit fields.
pub const FRAME_RECORD_BYTES: usize = 40;

/// One lossless frame sample in the standard low-tax journal.
#[derive(Clone, Copy, Debug, Eq, PartialEq, Structural)]
pub struct FrameSample {
    pub frame: u64,
    pub surface_sequence: u64,
    pub begun_ns: u64,
    pub observed_ns: u64,
    pub surface_presented_ns: u64,
}

// ---------------------------------------------------------------------------
// Writing
// ---------------------------------------------------------------------------

/// A sealed journal header: magic, schema, and the length-prefixed launch seal.
pub open spec fn sealed_header(magic: Seq<u8>, schema: u32, launch: Seq<char>) -> Seq<u8> {
    magic + bytes::little_endian(schema as nat, 4) + bytes::little_endian(
        encode_utf8(launch).len(),
        4,
    ) + encode_utf8(launch)
}

/// Forge a sealed journal header, when the launch seal's length can be stated.
pub(crate) fn forge_header(magic: &[u8], schema: u32, launch: &str) -> (header:
    std::result::Result<Vec<u8>, String>)
    ensures
        match header {
            Ok(header) => encode_utf8(launch@).len() <= u32::MAX && header@ == sealed_header(
                magic@,
                schema,
                launch@,
            ),
            Err(fault) => encode_utf8(launch@).len() > u32::MAX && fault@
                == bytes::length_fault(encode_utf8(launch@).len() as usize),
        },
{
    let seal = launch.as_bytes();
    let length: u32 = match narrow_length(seal.len()) {
        Ok(length) => length,
        Err(fault) => {
            return Err(fault);
        },
    };
    let mut header: Vec<u8> = copy_bytes(magic);
    push_little_endian(&mut header, schema as u64, 4);
    push_little_endian(&mut header, length as u64, 4);
    extend(&mut header, seal);
    Ok(header)
}

/// Begin a frame journal sealed to one launch.
pub fn open_frame_journal(path: &Vec<u8>, launch: &str) -> (header: Result<Vec<u8>>)
    ensures
        match header {
            Ok(header) => encode_utf8(launch@).len() <= u32::MAX && header@ == sealed_header(
                FRAME_MAGIC@,
                FRAME_SCHEMA,
                launch@,
            ),
            Err(error) => encode_utf8(launch@).len() > u32::MAX && error@ == (
            ErrorView::FrameJournal {
                path: path@,
                detail: "launch seal is too long: "@ + bytes::length_fault(
                    encode_utf8(launch@).len() as usize,
                ),
            }),
        },
{
    let magic = FRAME_MAGIC;
    match forge_header(magic.as_slice(), FRAME_SCHEMA, launch) {
        Ok(header) => Ok(header),
        Err(fault) => Err(
            Error::FrameJournal {
                path: copy_bytes(path.as_slice()),
                detail: glue2("launch seal is too long: ", fault.as_str()),
            },
        ),
    }
}

/// The wire form of one sample.
pub open spec fn record(sample: FrameSample) -> Seq<u8> {
    bytes::little_endian(sample.frame as nat, 8) + bytes::little_endian(
        sample.surface_sequence as nat,
        8,
    ) + bytes::little_endian(sample.begun_ns as nat, 8) + bytes::little_endian(
        sample.observed_ns as nat,
        8,
    ) + bytes::little_endian(sample.surface_presented_ns as nat, 8)
}

/// The wire form of a run of samples.
pub open spec fn records(samples: Seq<FrameSample>) -> Seq<u8>
    decreases samples.len(),
{
    if samples.len() == 0 {
        Seq::empty()
    } else {
        record(samples[0]) + records(samples.skip(1))
    }
}

/// Append one sample to a journal's output.
pub fn append_frame(output: &mut Vec<u8>, sample: FrameSample)
    ensures
        final(output)@ == old(output)@ + record(sample),
{
    push_little_endian(output, sample.frame, 8);
    push_little_endian(output, sample.surface_sequence, 8);
    push_little_endian(output, sample.begun_ns, 8);
    push_little_endian(output, sample.observed_ns, 8);
    push_little_endian(output, sample.surface_presented_ns, 8);
    assert(output@ =~= old(output)@ + record(sample));
}

// ---------------------------------------------------------------------------
// Reading
// ---------------------------------------------------------------------------

/// An invalid journal at a path.
pub open spec fn invalid(path: Seq<u8>, detail: Seq<char>) -> ErrorView {
    ErrorView::FrameJournal { path, detail }
}

/// The sample whose record starts at `at`.
pub open spec fn sample_at(bytes: Seq<u8>, at: int) -> FrameSample {
    FrameSample {
        frame: bytes::value_of(bytes.subrange(at, at + 8)) as u64,
        surface_sequence: bytes::value_of(bytes.subrange(at + 8, at + 16)) as u64,
        begun_ns: bytes::value_of(bytes.subrange(at + 16, at + 24)) as u64,
        observed_ns: bytes::value_of(bytes.subrange(at + 24, at + 32)) as u64,
        surface_presented_ns: bytes::value_of(bytes.subrange(at + 32, at + 40)) as u64,
    }
}

/// The complete samples that follow a header of `start` bytes.
pub open spec fn samples_from(bytes: Seq<u8>, start: int) -> Seq<FrameSample> {
    Seq::new(
        ((bytes.len() - start) / 40) as nat,
        |i: int| sample_at(bytes, start + 40 * i),
    )
}

/// Consecutive samples whose order regresses: the presentation sequence must
/// grow, and neither the frame number nor the frame start may fall.
pub open spec fn regresses(before: FrameSample, after: FrameSample) -> bool {
    ||| after.surface_sequence <= before.surface_sequence
    ||| after.frame < before.frame
    ||| after.begun_ns < before.begun_ns
}

/// A sample whose own timestamps are in order.
pub open spec fn coherent(sample: FrameSample) -> bool {
    sample.begun_ns <= sample.observed_ns <= sample.surface_presented_ns
}

/// Samples in journal order.
pub open spec fn progressive(samples: Seq<FrameSample>) -> bool {
    forall|i: int|
        0 <= i < samples.len() - 1 ==> !regresses(#[trigger] samples[i], samples[i + 1])
}

/// The first sample at or after `from` whose own timestamps are out of order.
pub open spec fn first_incoherent(samples: Seq<FrameSample>, from: int) -> Option<FrameSample>
    decreases samples.len() - from,
{
    if from >= samples.len() {
        None
    } else if !coherent(samples[from]) {
        Some(samples[from])
    } else {
        first_incoherent(samples, from + 1)
    }
}

/// Why a run of samples is not a journal, when it is not.
pub open spec fn samples_objection(samples: Seq<FrameSample>) -> Option<Seq<char>> {
    if !progressive(samples) {
        Some("frame order regressed"@)
    } else {
        match first_incoherent(samples, 0) {
            Some(sample) => Some(
                "frame "@ + text::decimal(sample.frame as nat) + " timestamps regress"@,
            ),
            None => None,
        }
    }
}

/// What a journal's bytes hold for a launch: its complete samples, or why they
/// are refused.
pub open spec fn journal_reading(
    path: Seq<u8>,
    bytes: Seq<u8>,
    launch: Seq<char>,
) -> std::result::Result<Seq<FrameSample>, ErrorView> {
    let schema = bytes::value_of(bytes.subrange(8, 12));
    let seal_len = bytes::value_of(bytes.subrange(12, 16)) as int;
    let seal = bytes.subrange(16, 16 + seal_len);
    let samples = samples_from(bytes, 16 + seal_len);
    if bytes.len() < 8 {
        Err(invalid(path, "truncated header"@))
    } else if bytes.take(8) != FRAME_MAGIC@ {
        Err(invalid(path, "magic mismatch"@))
    } else if bytes.len() < 12 {
        Err(invalid(path, "truncated header"@))
    } else if schema != FRAME_SCHEMA {
        Err(invalid(path, "expected schema 2, found "@ + text::decimal(schema)))
    } else if bytes.len() < 16 {
        Err(invalid(path, "truncated header"@))
    } else if bytes.len() - 16 < seal_len {
        Err(invalid(path, "truncated header"@))
    } else if !valid_utf8(seal) {
        Err(invalid(path, "launch seal is not UTF-8: "@ + text::utf8_fault(seal)))
    } else if decode_utf8(seal) != launch {
        Err(
            invalid(
                path,
                "launch nonce mismatch: expected `"@ + launch + "`, found `"@ + decode_utf8(seal)
                    + "`"@,
            ),
        )
    } else {
        match samples_objection(samples) {
            Some(detail) => Err(invalid(path, detail)),
            None => Ok(samples),
        }
    }
}

fn invalid_journal(path: &Vec<u8>, detail: String) -> (error: Error)
    ensures
        error@ == invalid(path@, detail@),
{
    Error::FrameJournal { path: copy_bytes(path.as_slice()), detail }
}

/// Demand `count` more bytes past the cursor.
pub fn demand_bytes(path: &Vec<u8>, bytes: &[u8], cursor: usize, count: usize) -> (verdict: Result<
    (),
>)
    ensures
        match verdict {
            Ok(_) => cursor + count <= bytes@.len() || count == 0,
            Err(error) => bytes@.len() - cursor < count && count > 0 && error@ == invalid(
                path@,
                "truncated header"@,
            ),
        },
{
    let left: usize = if cursor <= bytes.len() {
        bytes.len() - cursor
    } else {
        0
    };
    if left < count {
        Err(invalid_journal(path, "truncated header".to_owned()))
    } else {
        Ok(())
    }
}

/// Take a little-endian field at the cursor and advance past it.
pub fn take_u32(path: &Vec<u8>, bytes: &[u8], cursor: &mut usize) -> (field: Result<u32>)
    ensures
        match field {
            Ok(value) => *old(cursor) + 4 <= bytes@.len() && *final(cursor) == *old(cursor) + 4
                && value == bytes::value_of(
                bytes@.subrange(*old(cursor) as int, *old(cursor) + 4),
            ),
            Err(error) => *old(cursor) + 4 > bytes@.len() && *final(cursor) == *old(cursor)
                && error@ == invalid(path@, "truncated header"@),
        },
{
    match demand_bytes(path, bytes, *cursor, 4) {
        Ok(_) => {},
        Err(error) => {
            return Err(error);
        },
    }
    let value: u64 = read_little_endian(bytes, *cursor, 4);
    assert(*cursor + 4 <= bytes.len());
    proof {
        bytes::lemma_reach();
    }
    *cursor = *cursor + 4;
    Ok(value as u32)
}

/// Demand journal order between samples and within each.
pub fn validate_samples(path: &Vec<u8>, samples: &Vec<FrameSample>) -> (verdict: Result<()>)
    ensures
        match verdict {
            Ok(_) => samples_objection(samples@) is None,
            Err(error) => samples_objection(samples@) matches Some(detail) && error@ == invalid(
                path@,
                detail,
            ),
        },
{
    let mut index: usize = 1;
    while index < samples.len()
        invariant
            1 <= index,
            index <= samples.len() || samples.len() == 0,
            forall|i: int|
                0 <= i < index - 1 ==> !regresses(#[trigger] samples@[i], samples@[i + 1]),
        decreases samples.len() - index,
    {
        let before = samples[index - 1];
        let after = samples[index];
        if after.surface_sequence <= before.surface_sequence || after.frame < before.frame
            || after.begun_ns < before.begun_ns {
            assert(regresses(samples@[index - 1], samples@[index - 1 + 1]));
            assert(!progressive(samples@));
            return Err(invalid_journal(path, "frame order regressed".to_owned()));
        }
        index += 1;
    }
    let mut index: usize = 0;
    while index < samples.len()
        invariant
            index <= samples.len(),
            progressive(samples@),
            first_incoherent(samples@, 0) == first_incoherent(samples@, index as int),
        decreases samples.len() - index,
    {
        let sample = samples[index];
        if !(sample.begun_ns <= sample.observed_ns && sample.observed_ns
            <= sample.surface_presented_ns) {
            return Err(
                invalid_journal(
                    path,
                    glue3("frame ", decimal_text(sample.frame as u128).as_str(), " timestamps regress"),
                ),
            );
        }
        index += 1;
    }
    Ok(())
}

/// Read all complete records from the bytes of a live frame journal.
pub fn read_frame_journal(path: &Vec<u8>, bytes: &Vec<u8>, expected_launch: &str) -> (reading:
    Result<Vec<FrameSample>>)
    ensures
        match reading {
            Ok(samples) => journal_reading(path@, bytes@, expected_launch@) == Ok::<_, ErrorView>(
                samples@,
            ),
            Err(error) => journal_reading(path@, bytes@, expected_launch@) == Err::<
                Seq<FrameSample>,
                _,
            >(error@),
        },
{
    let input = bytes.as_slice();
    let magic = FRAME_MAGIC;
    match demand_bytes(path, input, 0, 8) {
        Ok(_) => {},
        Err(error) => {
            return Err(error);
        },
    }
    let prefix = copy_range(input, 0, 8);
    assert(prefix@ =~= bytes@.take(8));
    if !bytes_equal(prefix.as_slice(), magic.as_slice()) {
        return Err(invalid_journal(path, "magic mismatch".to_owned()));
    }
    let mut cursor: usize = 8;
    let schema: u32 = match take_u32(path, input, &mut cursor) {
        Ok(schema) => schema,
        Err(error) => {
            return Err(error);
        },
    };
    if schema != FRAME_SCHEMA {
        return Err(
            invalid_journal(
                path,
                glue2("expected schema 2, found ", decimal_text(schema as u128).as_str()),
            ),
        );
    }
    let launch_bytes: usize = match take_u32(path, input, &mut cursor) {
        Ok(length) => length as usize,
        Err(error) => {
            return Err(error);
        },
    };
    match demand_bytes(path, input, cursor, launch_bytes) {
        Ok(_) => {},
        Err(error) => {
            return Err(error);
        },
    }
    assert(cursor + launch_bytes <= bytes.len());
    let seal = copy_range(input, cursor, cursor + launch_bytes);
    let launch = match strict_text(seal.as_slice()) {
        Ok(launch) => launch,
        Err(fault) => {
            return Err(
                invalid_journal(path, glue2("launch seal is not UTF-8: ", fault.as_str())),
            );
        },
    };
    if !same(launch.as_str(), expected_launch) {
        return Err(
            invalid_journal(
                path,
                glue5(
                    "launch nonce mismatch: expected `",
                    expected_launch,
                    "`, found `",
                    launch.as_str(),
                    "`",
                ),
            ),
        );
    }
    cursor = cursor + launch_bytes;
    let ghost start = cursor as int;
    let complete: usize = (bytes.len() - cursor) / FRAME_RECORD_BYTES;
    let mut samples: Vec<FrameSample> = Vec::new();
    let mut index: usize = 0;
    while index < complete
        invariant
            index <= complete,
            input@ == bytes@,
            0 <= start <= bytes.len(),
            complete == (bytes.len() - start) / 40,
            cursor == start + 40 * index,
            samples@ =~= samples_from(bytes@, start).take(index as int),
        decreases complete - index,
    {
        assert(start + 40 * (index + 1) <= bytes.len());
        let sample = FrameSample {
            frame: read_little_endian(input, cursor, 8),
            surface_sequence: read_little_endian(input, cursor + 8, 8),
            begun_ns: read_little_endian(input, cursor + 16, 8),
            observed_ns: read_little_endian(input, cursor + 24, 8),
            surface_presented_ns: read_little_endian(input, cursor + 32, 8),
        };
        cursor += FRAME_RECORD_BYTES;
        assert(sample == sample_at(bytes@, start + 40 * index));
        samples.push(sample);
        index += 1;
    }
    assert(samples@ =~= samples_from(bytes@, start));
    match validate_samples(path, &samples) {
        Ok(_) => Ok(samples),
        Err(error) => Err(error),
    }
}

// ---------------------------------------------------------------------------
// Laws
// ---------------------------------------------------------------------------

proof fn lemma_record(sample: FrameSample)
    ensures
        record(sample).len() == 40,
{
    bytes::lemma_little_endian(sample.frame as nat, 8);
    bytes::lemma_little_endian(sample.surface_sequence as nat, 8);
    bytes::lemma_little_endian(sample.begun_ns as nat, 8);
    bytes::lemma_little_endian(sample.observed_ns as nat, 8);
    bytes::lemma_little_endian(sample.surface_presented_ns as nat, 8);
}

proof fn lemma_record_reads_back(bytes: Seq<u8>, at: int, sample: FrameSample)
    requires
        0 <= at,
        at + 40 <= bytes.len(),
        bytes.subrange(at, at + 40) == record(sample),
    ensures
        sample_at(bytes, at) == sample,
{
    bytes::lemma_reach();
    bytes::lemma_little_endian(sample.frame as nat, 8);
    bytes::lemma_little_endian(sample.surface_sequence as nat, 8);
    bytes::lemma_little_endian(sample.begun_ns as nat, 8);
    bytes::lemma_little_endian(sample.observed_ns as nat, 8);
    bytes::lemma_little_endian(sample.surface_presented_ns as nat, 8);
    let wire = bytes.subrange(at, at + 40);
    assert(bytes.subrange(at, at + 8) =~= wire.subrange(0, 8));
    assert(bytes.subrange(at + 8, at + 16) =~= wire.subrange(8, 16));
    assert(bytes.subrange(at + 16, at + 24) =~= wire.subrange(16, 24));
    assert(bytes.subrange(at + 24, at + 32) =~= wire.subrange(24, 32));
    assert(bytes.subrange(at + 32, at + 40) =~= wire.subrange(32, 40));
    assert(wire.subrange(0, 8) =~= bytes::little_endian(sample.frame as nat, 8));
    assert(wire.subrange(8, 16) =~= bytes::little_endian(sample.surface_sequence as nat, 8));
    assert(wire.subrange(16, 24) =~= bytes::little_endian(sample.begun_ns as nat, 8));
    assert(wire.subrange(24, 32) =~= bytes::little_endian(sample.observed_ns as nat, 8));
    assert(wire.subrange(32, 40) =~= bytes::little_endian(sample.surface_presented_ns as nat, 8));
}

proof fn lemma_records(samples: Seq<FrameSample>, index: int)
    requires
        0 <= index < samples.len(),
    ensures
        records(samples).len() == 40 * samples.len(),
        records(samples).subrange(40 * index, 40 * index + 40) == record(samples[index]),
    decreases samples.len(),
{
    lemma_record(samples[0]);
    let rest = samples.skip(1);
    if rest.len() > 0 {
        lemma_records(rest, if index > 0 { index - 1 } else { 0 });
    } else {
        assert(records(rest).len() == 0);
    }
    let wire = records(samples);
    if index == 0 {
        assert(wire.subrange(0, 40) =~= record(samples[0]));
    } else {
        assert(wire.subrange(40 * index, 40 * index + 40) =~= records(rest).subrange(
            40 * (index - 1),
            40 * (index - 1) + 40,
        ));
    }
}

proof fn lemma_first_incoherent(samples: Seq<FrameSample>, from: int)
    requires
        0 <= from,
        forall|i: int| 0 <= i < samples.len() ==> coherent(#[trigger] samples[i]),
    ensures
        first_incoherent(samples, from) is None,
    decreases samples.len() - from,
{
    if from < samples.len() {
        lemma_first_incoherent(samples, from + 1);
    }
}

/// A journal gives back every sample appended under its launch seal, in order,
/// whatever fraction of a further record has been written behind them.
pub proof fn law_journal_round_trips(
    path: Seq<u8>,
    launch: Seq<char>,
    samples: Seq<FrameSample>,
    tail: Seq<u8>,
)
    requires
        encode_utf8(launch).len() <= u32::MAX,
        progressive(samples),
        forall|i: int| 0 <= i < samples.len() ==> coherent(#[trigger] samples[i]),
        tail.len() < 40,
    ensures
        journal_reading(
            path,
            sealed_header(FRAME_MAGIC@, FRAME_SCHEMA, launch) + records(samples) + tail,
            launch,
        ) == Ok::<Seq<FrameSample>, ErrorView>(samples),
{
    broadcast use vstd::utf8::encode_utf8_decode_utf8;
    broadcast use vstd::utf8::encode_utf8_valid_utf8;

    let seal = encode_utf8(launch);
    let header = sealed_header(FRAME_MAGIC@, FRAME_SCHEMA, launch);
    let bytes = header + records(samples) + tail;
    bytes::lemma_reach();
    bytes::lemma_little_endian(FRAME_SCHEMA as nat, 4);
    bytes::lemma_little_endian(seal.len(), 4);
    assert(FRAME_MAGIC@.len() == 8);
    assert(header.len() == 16 + seal.len());
    assert(bytes.take(8) =~= FRAME_MAGIC@);
    assert(bytes.subrange(8, 12) =~= bytes::little_endian(FRAME_SCHEMA as nat, 4));
    assert(bytes.subrange(12, 16) =~= bytes::little_endian(seal.len(), 4));
    let start = 16 + seal.len() as int;
    assert(bytes.subrange(16, start) =~= seal);
    if samples.len() > 0 {
        lemma_records(samples, 0);
    }
    assert(records(samples).len() == 40 * samples.len());
    let read = samples_from(bytes, start);
    assert((bytes.len() - start) / 40 == samples.len());
    assert forall|i: int| 0 <= i < samples.len() implies #[trigger] read[i] == samples[i] by {
        lemma_records(samples, i);
        let at = start + 40 * i;
        assert(bytes.subrange(at, at + 40) =~= records(samples).subrange(40 * i, 40 * i + 40));
        lemma_record_reads_back(bytes, at, samples[i]);
    }
    assert(read =~= samples);
    lemma_first_incoherent(samples, 0);
}

/// Appending samples one after another writes the run they form.
pub proof fn law_appending_extends_the_run(samples: Seq<FrameSample>, sample: FrameSample)
    ensures
        records(samples.push(sample)) == records(samples) + record(sample),
    decreases samples.len(),
{
    let longer = samples.push(sample);
    if samples.len() == 0 {
        assert(longer.skip(1) =~= Seq::<FrameSample>::empty());
        assert(records(longer.skip(1)) =~= Seq::<u8>::empty());
        assert(records(longer) =~= records(samples) + record(sample));
    } else {
        assert(longer.skip(1) =~= samples.skip(1).push(sample));
        law_appending_extends_the_run(samples.skip(1), sample);
        assert(records(longer) =~= records(samples) + record(sample));
    }
}

/// A journal sealed to another launch never yields samples.
pub proof fn law_foreign_launch_is_refused(
    path: Seq<u8>,
    bytes: Seq<u8>,
    launch: Seq<char>,
    foreign: Seq<char>,
)
    requires
        launch != foreign,
        journal_reading(path, bytes, launch) is Ok,
    ensures
        journal_reading(path, bytes, foreign) is Err,
{
}

/// Whether bytes begin with a header of a schema that seals a journal to a launch: eight
/// bytes of a name, the schema, and the length of the seal in four bytes each, and the seal
/// itself.
pub open spec fn begins_sealed(
    bytes: Seq<u8>,
    name: Seq<u8>,
    schema: int,
    launch: Seq<char>,
) -> bool {
    let seal = encode_utf8(launch);
    &&& bytes.len() >= 16 + seal.len()
    &&& forall|i: int| 0 <= i < 8 ==> #[trigger] bytes[i] == name[i]
    &&& bytes::four(bytes, 8) == schema
    &&& bytes::four(bytes, 12) == seal.len()
    &&& forall|i: int| 0 <= i < seal.len() ==> bytes[16 + i] == #[trigger] seal[i]
}

/// The name of a frame journal.
pub open spec fn frame_journal_name() -> Seq<u8> {
    seq![
        'E' as u8,
        'G' as u8,
        'U' as u8,
        'I' as u8,
        'F' as u8,
        'R' as u8,
        'M' as u8,
        0u8,
    ]
}

pub proof fn lemma_begins_sealed(bytes: Seq<u8>, name: Seq<u8>, schema: u32, launch: Seq<char>)
    requires
        name.len() == 8,
        encode_utf8(launch).len() <= u32::MAX,
        bytes.len() >= sealed_header(name, schema, launch).len(),
        bytes.take(sealed_header(name, schema, launch).len() as int) == sealed_header(
            name,
            schema,
            launch,
        ),
    ensures
        begins_sealed(bytes, name, schema as int, launch),
        sealed_header(name, schema, launch).len() == 16 + encode_utf8(launch).len(),
{
    let seal = encode_utf8(launch);
    let header = sealed_header(name, schema, launch);
    bytes::lemma_reach();
    bytes::lemma_little_endian(schema as nat, 4);
    bytes::lemma_little_endian(seal.len(), 4);
    assert(header.len() == 16 + seal.len());
    assert forall|i: int| 0 <= i < header.len() implies bytes[i] == #[trigger] header[i] by {
        assert(bytes.take(header.len() as int)[i] == bytes[i]);
    }
    assert(header.subrange(8, 12) =~= bytes::little_endian(schema as nat, 4));
    assert(header.subrange(12, 16) =~= bytes::little_endian(seal.len(), 4));
    assert(header.subrange(16, header.len() as int) =~= seal);
    bytes::law_fields_spell_their_number(header, 8);
    bytes::law_fields_spell_their_number(header, 12);
    assert forall|i: int| 0 <= i < 8 implies #[trigger] bytes[i] == name[i] by {
        assert(header[i] == name[i]);
    }
    assert forall|i: int| 0 <= i < seal.len() implies bytes[16 + i] == #[trigger] seal[i] by {
        assert(header[16 + i] == seal[i]);
    }
    assert(bytes::four(bytes, 8) == bytes::four(header, 8)) by {
        assert(bytes[8] == header[8] && bytes[9] == header[9] && bytes[10] == header[10]
            && bytes[11] == header[11]);
    }
    assert(bytes::four(bytes, 12) == bytes::four(header, 12)) by {
        assert(bytes[12] == header[12] && bytes[13] == header[13] && bytes[14] == header[14]
            && bytes[15] == header[15]);
    }
}

/// A frame journal begins with its name, the second schema, and the launch's seal.
pub proof fn law_frame_journals_begin_sealed(path: &Vec<u8>, launch: &str, header: Vec<u8>)
    requires
        open_frame_journal.ensures((path, launch), Ok(header)),
    ensures
        header@.len() == 16 + encode_utf8(launch@).len(),
        begins_sealed(header@, frame_journal_name(), 2, launch@),
{
    assert(FRAME_MAGIC@ =~= frame_journal_name());
    assert(header@.take(header@.len() as int) =~= header@);
    lemma_begins_sealed(header@, FRAME_MAGIC@, FRAME_SCHEMA, launch@);
}

/// Whether a record of a frame journal tells a frame: its five numbers in eight bytes
/// each, the frame's own, that of its surface, and when it began, was observed, and was
/// presented.
pub open spec fn tells_frame(bytes: Seq<u8>, at: int, sample: FrameSample) -> bool {
    &&& bytes::eight(bytes, at) == sample.frame
    &&& bytes::eight(bytes, at + 8) == sample.surface_sequence
    &&& bytes::eight(bytes, at + 16) == sample.begun_ns
    &&& bytes::eight(bytes, at + 24) == sample.observed_ns
    &&& bytes::eight(bytes, at + 32) == sample.surface_presented_ns
}

proof fn lemma_sample_at(bytes: Seq<u8>, at: int)
    requires
        0 <= at,
        at + 40 <= bytes.len(),
    ensures
        tells_frame(bytes, at, sample_at(bytes, at)),
{
    bytes::law_fields_spell_their_number(bytes, at);
    bytes::law_fields_spell_their_number(bytes, at + 8);
    bytes::law_fields_spell_their_number(bytes, at + 16);
    bytes::law_fields_spell_their_number(bytes, at + 24);
    bytes::law_fields_spell_their_number(bytes, at + 32);
}

/// A written record has forty bytes, and tells the frame that it was written from.
pub proof fn law_records_tell_their_frame(sample: FrameSample)
    ensures
        record(sample).len() == 40,
        tells_frame(record(sample), 0, sample),
{
    let bytes = record(sample);
    bytes::lemma_reach();
    bytes::lemma_little_endian(sample.frame as nat, 8);
    bytes::lemma_little_endian(sample.surface_sequence as nat, 8);
    bytes::lemma_little_endian(sample.begun_ns as nat, 8);
    bytes::lemma_little_endian(sample.observed_ns as nat, 8);
    bytes::lemma_little_endian(sample.surface_presented_ns as nat, 8);
    assert(bytes.subrange(0, 8) =~= bytes::little_endian(sample.frame as nat, 8));
    assert(bytes.subrange(8, 16) =~= bytes::little_endian(sample.surface_sequence as nat, 8));
    assert(bytes.subrange(16, 24) =~= bytes::little_endian(sample.begun_ns as nat, 8));
    assert(bytes.subrange(24, 32) =~= bytes::little_endian(sample.observed_ns as nat, 8));
    assert(bytes.subrange(32, 40) =~= bytes::little_endian(
        sample.surface_presented_ns as nat,
        8,
    ));
    lemma_sample_at(bytes, 0);
}

/// Reading a frame journal gives the frame of each complete record, in order, and only
/// where the journal is sealed to the launch, each frame was presented later than the one
/// before it without its number or its start falling back, and no frame ends before it
/// begins.
pub proof fn law_frame_journals_are_read_in_order(
    path: &Vec<u8>,
    bytes: &Vec<u8>,
    launch: &str,
    samples: Vec<FrameSample>,
)
    requires
        read_frame_journal.ensures((path, bytes, launch), Ok(samples)),
    ensures
        begins_sealed(bytes@, frame_journal_name(), 2, launch@),
        ({
            let start = 16 + encode_utf8(launch@).len();
            &&& samples@.len() == (bytes@.len() - start) / 40
            &&& forall|i: int|
                0 <= i < samples@.len() ==> tells_frame(
                    bytes@,
                    start + 40 * i,
                    #[trigger] samples@[i],
                )
        }),
        forall|i: int|
            0 <= i < samples@.len() ==> (#[trigger] samples@[i]).begun_ns <= samples@[i].observed_ns
                && samples@[i].observed_ns <= samples@[i].surface_presented_ns,
        forall|i: int, j: int|
            0 <= i < j < samples@.len() ==> (#[trigger] samples@[i]).surface_sequence < (
            #[trigger] samples@[j]).surface_sequence && samples@[i].frame <= samples@[j].frame
                && samples@[i].begun_ns <= samples@[j].begun_ns,
{
    broadcast use vstd::utf8::decode_utf8_encode_utf8;

    let all = bytes@;
    let length = bytes::value_of(all.subrange(12, 16)) as int;
    let seal = all.subrange(16, 16 + length);
    assert(encode_utf8(launch@) == seal);
    bytes::law_fields_spell_their_number(all, 8);
    bytes::law_fields_spell_their_number(all, 12);
    assert(FRAME_MAGIC@ =~= frame_journal_name());
    assert forall|i: int| 0 <= i < 8 implies #[trigger] all[i] == frame_journal_name()[i] by {
        assert(all.take(8)[i] == all[i]);
    }
    let start = 16 + length;
    assert forall|i: int| 0 <= i < samples@.len() implies tells_frame(
        all,
        start + 40 * i,
        #[trigger] samples@[i],
    ) by {
        assert(samples@[i] == sample_at(all, start + 40 * i));
        lemma_sample_at(all, start + 40 * i);
    }
    assert forall|i: int| 0 <= i < samples@.len() implies coherent(#[trigger] samples@[i]) by {
        lemma_coherent_from(samples@, 0, i);
    }
    assert forall|i: int, j: int| 0 <= i < j < samples@.len() implies (
    #[trigger] samples@[i]).surface_sequence < (#[trigger] samples@[j]).surface_sequence
        && samples@[i].frame <= samples@[j].frame && samples@[i].begun_ns
        <= samples@[j].begun_ns by {
        lemma_progress(samples@, i, j);
    }
}

proof fn lemma_coherent_from(samples: Seq<FrameSample>, from: int, index: int)
    requires
        first_incoherent(samples, from) is None,
        0 <= from <= index < samples.len(),
    ensures
        coherent(samples[index]),
    decreases index - from,
{
    if from < index {
        lemma_coherent_from(samples, from + 1, index);
    }
}

proof fn lemma_progress(samples: Seq<FrameSample>, earlier: int, later: int)
    requires
        progressive(samples),
        0 <= earlier < later < samples.len(),
    ensures
        samples[earlier].surface_sequence < samples[later].surface_sequence,
        samples[earlier].frame <= samples[later].frame,
        samples[earlier].begun_ns <= samples[later].begun_ns,
    decreases later - earlier,
{
    assert(!regresses(samples[later - 1], samples[later]));
    if earlier < later - 1 {
        lemma_progress(samples, earlier, later - 1);
    }
}

} // verus!
