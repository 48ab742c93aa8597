//! The canonical semantic observation journal: a sealed header followed by
//! length-prefixed records.
use crate::bytes;
use crate::bytes::{extend, narrow_length, push_little_endian, read_little_endian};
use crate::error::{Source, SourceKind, SourceView};
use crate::text;
use crate::text::{bytes_equal, copy_bytes, copy_range, decimal_text, glue2, glue3, glue5, same, strict_text};
use crate::witness::error::{Error, ErrorView, Result};
use crate::witness::frame_journal;
use crate::witness::frame_journal::forge_header;
use vstd::prelude::*;
use vstd::utf8::*;

verus! {

/// `EGUIOBS` and a terminating zero.
pub const OBSERVATION_MAGIC: [u8; 8] = [69, 71, 85, 73, 79, 66, 83, 0];

/// Version of the record layout.
pub const OBSERVATION_SCHEMA: u32 = 1;

/// The longest record and launch seal a reader accepts.
pub const MAX_OBSERVATION_BYTES: usize = 67_108_864;

/// An invalid journal at a path.
pub open spec fn invalid(path: Seq<u8>, detail: Seq<char>) -> ErrorView {
    ErrorView::ObservationJournal { path, detail }
}

fn invalid_observation_journal(path: &Vec<u8>, detail: String) -> (error: Error)
    ensures
        error@ == invalid(path@, detail@),
{
    Error::ObservationJournal { path: copy_bytes(path.as_slice()), detail }
}

// ---------------------------------------------------------------------------
// Writing
// ---------------------------------------------------------------------------

/// Begin an observation journal sealed to one launch.
pub fn open_observation_journal(path: &Vec<u8>, launch: &str) -> (header: Result<Vec<u8>>)
    ensures
        match header {
            Ok(header) => encode_utf8(launch@).len() <= u32::MAX && header@
                == frame_journal::sealed_header(OBSERVATION_MAGIC@, OBSERVATION_SCHEMA, launch@),
            Err(error) => encode_utf8(launch@).len() > u32::MAX && error@ == invalid(
                path@,
                "launch seal is too long: "@ + bytes::length_fault(
                    encode_utf8(launch@).len() as usize,
                ),
            ),
        },
{
    let magic = OBSERVATION_MAGIC;
    match forge_header(magic.as_slice(), OBSERVATION_SCHEMA, launch) {
        Ok(header) => Ok(header),
        Err(fault) => Err(
            invalid_observation_journal(path, glue2("launch seal is too long: ", fault.as_str())),
        ),
    }
}

/// The wire form of one record.
pub open spec fn framed(record: Seq<u8>) -> Seq<u8> {
    bytes::little_endian(record.len(), 4) + record
}

/// The wire form of a run of records.
pub open spec fn framed_run(records: Seq<Seq<u8>>) -> Seq<u8>
    decreases records.len(),
{
    if records.len() == 0 {
        Seq::empty()
    } else {
        framed(records[0]) + framed_run(records.skip(1))
    }
}

/// Append one record to a journal's output.
pub fn append_observation(output: &mut Vec<u8>, path: &Vec<u8>, record: &[u8]) -> (appended: Result<
    (),
>)
    ensures
        match appended {
            Ok(_) => record@.len() <= u32::MAX && final(output)@ == old(output)@ + framed(record@),
            Err(error) => record@.len() > u32::MAX && final(output)@ == old(output)@ && error@
                == invalid(
                path@,
                "record is too large: "@ + bytes::length_fault(record@.len() as usize),
            ),
        },
{
    match narrow_length(record.len()) {
        Ok(length) => {
            push_little_endian(output, length as u64, 4);
            extend(output, record);
            assert(output@ =~= old(output)@ + framed(record@));
            Ok(())
        },
        Err(fault) => Err(
            invalid_observation_journal(path, glue2("record is too large: ", fault.as_str())),
        ),
    }
}

// ---------------------------------------------------------------------------
// Reading
// ---------------------------------------------------------------------------

/// What scanning unread bytes finds: the complete records, the bytes they
/// consume, and the length of a record too long to accept, which ends the scan
/// right behind its length field.
#[verifier::ext_equal]
pub struct Scan {
    pub records: Seq<Seq<u8>>,
    pub consumed: nat,
    pub oversized: Option<nat>,
}

/// Scan unread bytes.
pub open spec fn scan(unread: Seq<u8>) -> Scan
    decreases unread.len(),
{
    let length = bytes::value_of(unread.take(4));
    if unread.len() < 4 {
        Scan { records: Seq::empty(), consumed: 0, oversized: None }
    } else if length > MAX_OBSERVATION_BYTES {
        Scan { records: Seq::empty(), consumed: 4, oversized: Some(length) }
    } else if unread.len() - 4 < length {
        Scan { records: Seq::empty(), consumed: 0, oversized: None }
    } else {
        let rest = scan(unread.skip(4 + length as int));
        Scan {
            records: seq![unread.subrange(4, 4 + length as int)] + rest.records,
            consumed: 4 + length + rest.consumed,
            oversized: rest.oversized,
        }
    }
}

/// A header that ends before it is complete.
pub open spec fn short_header(path: Seq<u8>) -> ErrorView {
    ErrorView::Io {
        operation: "read header from"@,
        path,
        source: SourceView {
            kind: SourceKind::UnexpectedEof,
            text: "failed to fill whole buffer"@,
        },
    }
}

/// The length of a journal's header, or why the journal is refused.
pub open spec fn opening(path: Seq<u8>, bytes: Seq<u8>, launch: Seq<char>) -> std::result::Result<
    nat,
    ErrorView,
> {
    let schema = bytes::value_of(bytes.subrange(8, 12));
    let seal_len = bytes::value_of(bytes.subrange(12, 16));
    let seal = bytes.subrange(16, 16 + seal_len as int);
    if bytes.len() < 8 {
        Err(short_header(path))
    } else if bytes.take(8) != OBSERVATION_MAGIC@ {
        Err(invalid(path, "magic mismatch"@))
    } else if bytes.len() < 12 {
        Err(short_header(path))
    } else if schema != OBSERVATION_SCHEMA {
        Err(invalid(path, "expected schema 1, found "@ + text::decimal(schema)))
    } else if bytes.len() < 16 {
        Err(short_header(path))
    } else if seal_len > MAX_OBSERVATION_BYTES {
        Err(invalid(path, "launch seal is unreasonably large"@))
    } else if bytes.len() - 16 < seal_len {
        Err(short_header(path))
    } else if !valid_utf8(seal) {
        Err(invalid(path, "launch seal is not UTF-8: "@ + text::utf8_fault(seal)))
    } else if decode_utf8(seal) != launch {
        Err(
            invalid(
                path,
                "launch nonce mismatch: expected `"@ + launch + "`, found `"@ + decode_utf8(seal)
                    + "`"@,
            ),
        )
    } else {
        Ok(16 + seal_len)
    }
}

fn header_shortfall(path: &Vec<u8>) -> (error: Error)
    ensures
        error@ == short_header(path@),
        !error.absent(),
{
    Error::Io {
        operation: "read header from",
        path: copy_bytes(path.as_slice()),
        source: Source {
            kind: SourceKind::UnexpectedEof,
            text: "failed to fill whole buffer".to_owned(),
        },
    }
}

/// Check a journal's header and give its length.
pub fn open_observation_reader(path: &Vec<u8>, bytes: &[u8], expected_launch: &str) -> (opened:
    Result<usize>)
    ensures
        match opened {
            Ok(length) => length <= bytes@.len() && opening(path@, bytes@, expected_launch@)
                == Ok::<nat, ErrorView>(length as nat),
            Err(error) => opening(path@, bytes@, expected_launch@) == Err::<nat, _>(error@)
                && !error.absent(),
        },
{
    let magic = OBSERVATION_MAGIC;
    if bytes.len() < 8 {
        return Err(header_shortfall(path));
    }
    let prefix = copy_range(bytes, 0, 8);
    assert(prefix@ =~= bytes@.take(8));
    if !bytes_equal(prefix.as_slice(), magic.as_slice()) {
        return Err(invalid_observation_journal(path, "magic mismatch".to_owned()));
    }
    if bytes.len() < 12 {
        return Err(header_shortfall(path));
    }
    proof {
        bytes::lemma_reach();
    }
    let schema: u64 = read_little_endian(bytes, 8, 4);
    if schema != OBSERVATION_SCHEMA as u64 {
        return Err(
            invalid_observation_journal(
                path,
                glue2("expected schema 1, found ", decimal_text(schema as u128).as_str()),
            ),
        );
    }
    if bytes.len() < 16 {
        return Err(header_shortfall(path));
    }
    let length: u64 = read_little_endian(bytes, 12, 4);
    if length > MAX_OBSERVATION_BYTES as u64 {
        return Err(
            invalid_observation_journal(path, "launch seal is unreasonably large".to_owned()),
        );
    }
    let length: usize = length as usize;
    if bytes.len() - 16 < length {
        return Err(header_shortfall(path));
    }
    let seal = copy_range(bytes, 16, 16 + length);
    let launch = match strict_text(seal.as_slice()) {
        Ok(launch) => launch,
        Err(fault) => {
            return Err(
                invalid_observation_journal(
                    path,
                    glue2("launch seal is not UTF-8: ", fault.as_str()),
                ),
            );
        },
    };
    if !same(launch.as_str(), expected_launch) {
        return Err(
            invalid_observation_journal(
                path,
                glue5(
                    "launch nonce mismatch: expected `",
                    expected_launch,
                    "`, found `",
                    launch.as_str(),
                    "`",
                ),
            ),
        );
    }
    Ok(16 + length)
}

/// One step of a scan.
pub enum Step {
    /// A complete record, consuming its frame.
    Record(Vec<u8>),
    /// Nothing complete yet; the partial frame stays unread.
    Partial,
}

/// Read the record at the start of `bytes[from..]`.
pub fn read_observation(bytes: &[u8], from: usize, path: &Vec<u8>) -> (step: Result<Step>)
    requires
        from <= bytes@.len(),
    ensures
        ({
            let unread = bytes@.skip(from as int);
            let length = bytes::value_of(unread.take(4));
            match step {
                Ok(Step::Record(record)) => unread.len() >= 4 + length && length
                    <= MAX_OBSERVATION_BYTES && record@ == unread.subrange(4, 4 + length as int),
                Ok(Step::Partial) => unread.len() < 4 || (length <= MAX_OBSERVATION_BYTES
                    && unread.len() < 4 + length),
                Err(error) => unread.len() >= 4 && length > MAX_OBSERVATION_BYTES && error@
                    == invalid(
                    path@,
                    "record length "@ + text::decimal(length) + " exceeds 67108864 bytes"@,
                ),
            }
        }),
{
    let left: usize = bytes.len() - from;
    if left < 4 {
        return Ok(Step::Partial);
    }
    proof {
        bytes::lemma_reach();
        assert(bytes@.skip(from as int).take(4) =~= bytes@.subrange(from as int, from + 4));
    }
    let length: u64 = read_little_endian(bytes, from, 4);
    if length > MAX_OBSERVATION_BYTES as u64 {
        return Err(
            invalid_observation_journal(
                path,
                glue3(
                    "record length ",
                    decimal_text(length as u128).as_str(),
                    " exceeds 67108864 bytes",
                ),
            ),
        );
    }
    let length: usize = length as usize;
    if left - 4 < length {
        return Ok(Step::Partial);
    }
    let record = copy_range(bytes, from + 4, from + 4 + length);
    assert(record@ =~= bytes@.skip(from as int).subrange(4, 4 + length as int));
    Ok(Step::Record(record))
}

/// Incremental reader for the canonical semantic observation journal.
#[derive(Debug)]
pub struct ObservationJournal {
    path: Vec<u8>,
    launch: String,
    opened: bool,
    position: u64,
}

/// Content of an [`ObservationJournal`].
#[verifier::ext_equal]
pub struct ObservationJournalView {
    pub path: Seq<u8>,
    pub launch: Seq<char>,
    /// Whether the header has been accepted.
    pub opened: bool,
    /// Bytes of the journal already consumed.
    pub position: nat,
}

impl View for ObservationJournal {
    type V = ObservationJournalView;

    closed spec fn view(&self) -> ObservationJournalView {
        ObservationJournalView {
            path: self.path@,
            launch: self.launch@,
            opened: self.opened,
            position: self.position as nat,
        }
    }
}

impl ObservationJournalView {
    /// The reader after meeting `unread`, the journal's bytes past its position.
    pub open spec fn after(self, unread: Seq<u8>) -> ObservationJournalView {
        if self.opened {
            ObservationJournalView { position: self.position + scan(unread).consumed, ..self }
        } else {
            match opening(self.path, unread, self.launch) {
                Ok(header) => ObservationJournalView {
                    opened: true,
                    position: self.position + header + scan(unread.skip(header as int)).consumed,
                    ..self
                },
                Err(_) => self,
            }
        }
    }

    /// What the reader gives for `unread`.
    pub open spec fn reading(self, unread: Seq<u8>) -> std::result::Result<
        Seq<Seq<u8>>,
        ErrorView,
    > {
        if self.opened {
            accepted(self.path, scan(unread))
        } else {
            match opening(self.path, unread, self.launch) {
                Ok(header) => accepted(self.path, scan(unread.skip(header as int))),
                Err(error) => Err(error),
            }
        }
    }
}

/// A scan's records, unless it met a record too long to accept.
pub open spec fn accepted(path: Seq<u8>, found: Scan) -> std::result::Result<
    Seq<Seq<u8>>,
    ErrorView,
> {
    match found.oversized {
        Some(length) => Err(
            invalid(
                path,
                "record length "@ + text::decimal(length) + " exceeds 67108864 bytes"@,
            ),
        ),
        None => Ok(found.records),
    }
}

impl ObservationJournal {
    /// A reader at the start of the journal of one launch.
    pub fn sealed(path: &Vec<u8>, launch: &str) -> (journal: Self)
        ensures
            journal@ == (ObservationJournalView {
                path: path@,
                launch: launch@,
                opened: false,
                position: 0,
            }),
    {
        ObservationJournal {
            path: copy_bytes(path.as_slice()),
            launch: launch.to_owned(),
            opened: false,
            position: 0,
        }
    }

    /// Bytes of the journal already consumed: where unread bytes start.
    pub fn position(&self) -> (position: u64)
        ensures
            position == self@.position,
    {
        self.position
    }

    /// The journal's path.
    pub fn path(&self) -> (path: &Vec<u8>)
        ensures
            path@ == self@.path,
    {
        &self.path
    }

    /// Consume every complete record of `unread`, the journal's bytes past
    /// [`Self::position`]. A partial record stays unread.
    pub fn read_new_bytes(&mut self, unread: &[u8]) -> (records: Result<Vec<Vec<u8>>>)
        requires
            old(self)@.position + unread@.len() <= u64::MAX,
        ensures
            final(self)@ == old(self)@.after(unread@),
            match records {
                Ok(records) => old(self)@.reading(unread@) == Ok::<_, ErrorView>(
                    text::views(records@),
                ),
                Err(error) => old(self)@.reading(unread@) == Err::<Seq<Seq<u8>>, _>(error@)
                    && !error.absent(),
            },
    {
        let mut from: usize = 0;
        if !self.opened {
            match open_observation_reader(&self.path, unread, self.launch.as_str()) {
                Ok(header) => {
                    from = header;
                    self.opened = true;
                },
                Err(error) => {
                    return Err(error);
                },
            }
        }
        let ghost start = from as int;
        let ghost found = scan(unread@.skip(start));
        let ghost origin = old(self)@.position;
        let mut records: Vec<Vec<u8>> = Vec::new();
        assert(old(self)@.opened ==> unread@.skip(0) =~= unread@);
        proof {
            assert(text::views(records@) =~= Seq::<Seq<u8>>::empty());
        }
        loop
            invariant
                0 <= start <= from <= unread@.len(),
                found == scan(unread@.skip(start)),
                found.records =~= text::views(records@) + scan(unread@.skip(from as int)).records,
                found.consumed == from - start + scan(unread@.skip(from as int)).consumed,
                found.oversized == scan(unread@.skip(from as int)).oversized,
                origin + unread@.len() <= u64::MAX,
                origin == self.position,
                self.path@ == old(self)@.path,
                self.launch@ == old(self)@.launch,
                self.opened,
                origin == old(self)@.position,
                old(self)@.opened ==> start == 0 && unread@.skip(start) == unread@,
                !old(self)@.opened ==> opening(old(self)@.path, unread@, old(self)@.launch)
                    == Ok::<nat, ErrorView>(start as nat),
            decreases unread@.len() - from,
        {
            let ghost rest = unread@.skip(from as int);
            match read_observation(unread, from, &self.path) {
                Ok(Step::Record(record)) => {
                    let ghost before = text::views(records@);
                    let ghost length = record@.len() as int;
                    assert(rest.skip(4 + length) =~= unread@.skip(from + 4 + length));
                    assert(from + 4 + record@.len() <= unread.len());
                    from = from + 4 + record.len();
                    records.push(record);
                    assert(text::views(records@) =~= before.push(record@));
                },
                Ok(Step::Partial) => {
                    self.position = self.position + from as u64;
                    assert(found.records =~= text::views(records@));
                    return Ok(records);
                },
                Err(error) => {
                    self.position = self.position + from as u64 + 4;
                    return Err(error);
                },
            }
        }
    }

    /// Consume and decode every complete record of `unread`. A record that does
    /// not decode fails the whole reading, though it is consumed.
    pub fn read_new<T, D: Fn(&Vec<u8>) -> std::result::Result<T, String>>(
        &mut self,
        unread: &[u8],
        decode: &D,
    ) -> (values: Result<Vec<T>>)
        requires
            old(self)@.position + unread@.len() <= u64::MAX,
            forall|record: &Vec<u8>| #[trigger] decode.requires((record,)),
        ensures
            final(self)@ == old(self)@.after(unread@),
            match old(self)@.reading(unread@) {
                Err(error) => values matches Err(found) && found@ == error,
                Ok(records) => match values {
                    Ok(values) => values@.len() == records.len() && forall|i: int|
                        0 <= i < records.len() ==> decodes(decode, records[i], Ok(#[trigger] values@[i])),
                    Err(found) => undecodable(decode, records, old(self)@.path, found@),
                },
            },
    {
        let records = match self.read_new_bytes(unread) {
            Ok(records) => records,
            Err(error) => {
                return Err(error);
            },
        };
        let ghost contents = text::views(records@);
        let mut values: Vec<T> = Vec::new();
        let mut index: usize = 0;
        while index < records.len()
            invariant
                index <= records.len(),
                values@.len() == index,
                contents == text::views(records@),
                self@ == old(self)@.after(unread@),
                self@.path == old(self)@.path,
                old(self)@.reading(unread@) == Ok::<_, ErrorView>(contents),
                forall|record: &Vec<u8>| #[trigger] decode.requires((record,)),
                forall|i: int|
                    0 <= i < index ==> decodes(decode, contents[i], Ok(#[trigger] values@[i])),
            decreases records.len() - index,
        {
            match decode(&records[index]) {
                Ok(value) => {
                    assert(decodes(decode, contents[index as int], Ok::<T, String>(value)));
                    values.push(value);
                },
                Err(fault) => {
                    assert(decodes(decode, contents[index as int], Err::<T, String>(fault)));
                    let error = invalid_observation_journal(
                        &self.path,
                        glue2("decode record: ", fault.as_str()),
                    );
                    assert(error@ == invalid(old(self)@.path, "decode record: "@ + fault@));
                    assert forall|j: int| 0 <= j < index implies decodable(
                        decode,
                        #[trigger] contents[j],
                    ) by {
                        assert(decodes(decode, contents[j], Ok(values@[j])));
                    }
                    assert(undecodable(decode, contents, old(self)@.path, error@));
                    return Err(error);
                },
            }
            index += 1;
        }
        Ok(values)
    }
}

/// A decoder can give `outcome` for a record.
pub open spec fn decodes<T, D: Fn(&Vec<u8>) -> std::result::Result<T, String>>(
    decode: &D,
    record: Seq<u8>,
    outcome: std::result::Result<T, String>,
) -> bool {
    exists|bytes: &Vec<u8>| bytes@ == record && #[trigger] decode.ensures((bytes,), outcome)
}

/// A decoder can accept a record.
pub open spec fn decodable<T, D: Fn(&Vec<u8>) -> std::result::Result<T, String>>(
    decode: &D,
    record: Seq<u8>,
) -> bool {
    exists|value: T| #[trigger] decodes(decode, record, Ok::<T, String>(value))
}

/// A decoder can accept the first records and refuse the next with the cause
/// that `error` reports.
pub open spec fn undecodable<T, D: Fn(&Vec<u8>) -> std::result::Result<T, String>>(
    decode: &D,
    records: Seq<Seq<u8>>,
    path: Seq<u8>,
    error: ErrorView,
) -> bool {
    exists|i: int, fault: String|
        0 <= i < records.len() && #[trigger] decodes(decode, records[i], Err::<T, String>(fault))
            && error == invalid(path, "decode record: "@ + fault@) && forall|j: int|
            0 <= j < i ==> decodable(decode, #[trigger] records[j])
}

// ---------------------------------------------------------------------------
// Laws
// ---------------------------------------------------------------------------

/// A run of acceptable records reads back whole.
pub proof fn law_records_round_trip(records: Seq<Seq<u8>>)
    requires
        forall|i: int|
            0 <= i < records.len() ==> (#[trigger] records[i]).len() <= MAX_OBSERVATION_BYTES,
    ensures
        scan(framed_run(records)) == (Scan {
            records,
            consumed: framed_run(records).len(),
            oversized: None,
        }),
    decreases records.len(),
{
    let wire = framed_run(records);
    if records.len() == 0 {
        assert(scan(wire).records =~= records);
    } else {
        let rest = records.skip(1);
        let length = records[0].len();
        law_records_round_trip(rest);
        bytes::lemma_reach();
        bytes::lemma_little_endian(length, 4);
        assert(wire.take(4) =~= bytes::little_endian(length, 4));
        assert(wire.subrange(4, 4 + length as int) =~= records[0]);
        assert(wire.skip(4 + length as int) =~= framed_run(rest));
        assert(scan(wire).records =~= records);
    }
}

/// Reading a growing journal in pieces gives the records of reading it at once:
/// what a partial record holds is retained until the rest of it arrives.
pub proof fn law_partial_records_are_retained(earlier: Seq<u8>, later: Seq<u8>)
    requires
        scan(earlier).oversized is None,
    ensures
        scan(earlier).consumed <= earlier.len(),
        scan(earlier + later).records == scan(earlier).records + scan(
            earlier.skip(scan(earlier).consumed as int) + later,
        ).records,
        scan(earlier + later).consumed == scan(earlier).consumed + scan(
            earlier.skip(scan(earlier).consumed as int) + later,
        ).consumed,
        scan(earlier + later).oversized == scan(
            earlier.skip(scan(earlier).consumed as int) + later,
        ).oversized,
    decreases earlier.len(),
{
    let whole = earlier + later;
    let length = bytes::value_of(earlier.take(4));
    if earlier.len() < 4 || earlier.len() - 4 < length {
        assert(earlier.skip(0) =~= earlier);
        assert(scan(whole).records =~= scan(earlier).records + scan(whole).records);
    } else {
        let frame = 4 + length as int;
        let rest = earlier.skip(frame);
        law_partial_records_are_retained(rest, later);
        assert(whole.take(4) =~= earlier.take(4));
        assert(whole.subrange(4, frame) =~= earlier.subrange(4, frame));
        assert(whole.skip(frame) =~= rest + later);
        assert(rest.skip(scan(rest).consumed as int) =~= earlier.skip(
            scan(earlier).consumed as int,
        ));
        assert(scan(whole).records =~= scan(earlier).records + scan(
            earlier.skip(scan(earlier).consumed as int) + later,
        ).records);
    }
}

/// A sealed journal opens for its own launch and is positioned at its records.
pub proof fn law_header_opens(path: Seq<u8>, launch: Seq<char>, body: Seq<u8>)
    requires
        encode_utf8(launch).len() <= MAX_OBSERVATION_BYTES,
    ensures
        ({
            let header = frame_journal::sealed_header(
                OBSERVATION_MAGIC@,
                OBSERVATION_SCHEMA,
                launch,
            );
            &&& opening(path, header + body, launch) == Ok::<nat, ErrorView>(header.len())
            &&& (header + body).skip(header.len() as int) == body
        }),
{
    broadcast use vstd::utf8::encode_utf8_decode_utf8;
    broadcast use vstd::utf8::encode_utf8_valid_utf8;

    let seal = encode_utf8(launch);
    let header = frame_journal::sealed_header(OBSERVATION_MAGIC@, OBSERVATION_SCHEMA, launch);
    let bytes = header + body;
    bytes::lemma_reach();
    bytes::lemma_little_endian(OBSERVATION_SCHEMA as nat, 4);
    bytes::lemma_little_endian(seal.len(), 4);
    assert(OBSERVATION_MAGIC@.len() == 8);
    assert(header.len() == 16 + seal.len());
    assert(bytes.take(8) =~= OBSERVATION_MAGIC@);
    assert(bytes.subrange(8, 12) =~= bytes::little_endian(OBSERVATION_SCHEMA as nat, 4));
    assert(bytes.subrange(12, 16) =~= bytes::little_endian(seal.len(), 4));
    assert(bytes.subrange(16, 16 + seal.len() as int) =~= seal);
    assert(bytes.skip(header.len() as int) =~= body);
}

/// What was appended to a sealed journal, a reader of the same launch gives back:
/// every record, whole and in order, with nothing left unread.
pub proof fn law_journals_read_back(path: Seq<u8>, launch: Seq<char>, records: Seq<Seq<u8>>)
    requires
        encode_utf8(launch).len() <= MAX_OBSERVATION_BYTES,
        forall|i: int|
            0 <= i < records.len() ==> (#[trigger] records[i]).len() <= MAX_OBSERVATION_BYTES,
    ensures
        ({
            let bytes = frame_journal::sealed_header(
                OBSERVATION_MAGIC@,
                OBSERVATION_SCHEMA,
                launch,
            ) + framed_run(records);
            let reader = ObservationJournalView { path, launch, opened: false, position: 0 };
            &&& reader.reading(bytes) == Ok::<_, ErrorView>(records)
            &&& reader.after(bytes).opened
            &&& reader.after(bytes).position == bytes.len()
        }),
{
    law_header_opens(path, launch, framed_run(records));
    law_records_round_trip(records);
}

/// A reader that meets a growing journal piece by piece gives each record exactly
/// once: what it gives for two pieces is what it would give for both at once.
pub proof fn law_growing_journals_are_read_once(
    reader: ObservationJournalView,
    earlier: Seq<u8>,
    later: Seq<u8>,
)
    requires
        reader.opened,
        reader.reading(earlier) is Ok,
    ensures
        ({
            let resumed = reader.after(earlier);
            let left = earlier.skip(resumed.position - reader.position) + later;
            &&& reader.after(earlier + later) == resumed.after(left)
            &&& match (reader.reading(earlier), resumed.reading(left)) {
                (Ok(first), Ok(second)) => reader.reading(earlier + later)
                    == Ok::<Seq<Seq<u8>>, ErrorView>(first + second),
                (_, fault) => reader.reading(earlier + later) == fault,
            }
        }),
{
    law_partial_records_are_retained(earlier, later);
}

/// The name of an observation journal.
pub open spec fn observation_journal_name() -> Seq<u8> {
    seq![
        'E' as u8,
        'G' as u8,
        'U' as u8,
        'I' as u8,
        'O' as u8,
        'B' as u8,
        'S' as u8,
        0u8,
    ]
}

/// An observation journal begins with its name, the first schema, and the launch's seal.
pub proof fn law_observation_journals_begin_sealed(path: &Vec<u8>, launch: &str, header: Vec<u8>)
    requires
        open_observation_journal.ensures((path, launch), Ok(header)),
    ensures
        header@.len() == 16 + encode_utf8(launch@).len(),
        frame_journal::begins_sealed(header@, observation_journal_name(), 1, launch@),
{
    assert(OBSERVATION_MAGIC@ =~= observation_journal_name());
    assert(header@.take(header@.len() as int) =~= header@);
    frame_journal::lemma_begins_sealed(
        header@,
        OBSERVATION_MAGIC@,
        OBSERVATION_SCHEMA,
        launch@,
    );
}

/// A reader admits only a journal of its own name and schema that is sealed to its launch,
/// and begins to read right behind the seal.
pub proof fn law_readers_admit_their_own_launch(
    path: &Vec<u8>,
    bytes: &[u8],
    launch: &str,
    start: usize,
)
    requires
        open_observation_reader.ensures((path, bytes, launch), Ok(start)),
    ensures
        frame_journal::begins_sealed(bytes@, observation_journal_name(), 1, launch@),
        start == 16 + encode_utf8(launch@).len(),
{
    broadcast use vstd::utf8::decode_utf8_encode_utf8;

    let all = bytes@;
    let length = bytes::value_of(all.subrange(12, 16)) as int;
    let seal = all.subrange(16, 16 + length);
    assert(encode_utf8(launch@) == seal);
    bytes::law_fields_spell_their_number(all, 8);
    bytes::law_fields_spell_their_number(all, 12);
    assert(OBSERVATION_MAGIC@ =~= observation_journal_name());
    assert forall|i: int| 0 <= i < 8 implies #[trigger] all[i] == observation_journal_name()[i] by {
        assert(all.take(8)[i] == all[i]);
    }
}

/// A record is framed by its length in four bytes, and nothing else.
pub proof fn law_records_are_framed_by_their_length(record: Seq<u8>)
    requires
        record.len() <= u32::MAX,
    ensures
        framed(record).len() == 4 + record.len(),
        bytes::four(framed(record), 0) == record.len(),
        framed(record).skip(4) =~= record,
{
    bytes::lemma_reach();
    bytes::lemma_little_endian(record.len(), 4);
    assert(framed(record).subrange(0, 4) =~= bytes::little_endian(record.len(), 4));
    bytes::law_fields_spell_their_number(framed(record), 0);
}

/// A record is read only once it is complete, and then whole: as many bytes as its length
/// tells, right behind the length. A length beyond sixty-four mebibytes is refused at once.
pub proof fn law_only_complete_records_are_read(
    bytes: &[u8],
    from: usize,
    path: &Vec<u8>,
    step: Result<Step>,
)
    requires
        from <= bytes@.len(),
        read_observation.ensures((bytes, from, path), step),
    ensures
        ({
            let left = bytes@.len() - from;
            let length = bytes::four(bytes@, from as int);
            let limit = 64 * 1024 * 1024;
            &&& step is Err <==> left >= 4 && length > limit
            &&& (step matches Ok(Step::Partial)) <==> left < 4 || (length <= limit && left < 4
                + length)
            &&& step matches Ok(Step::Record(record)) ==> left >= 4 + length && record@
                =~= bytes@.subrange(from + 4, from + 4 + length)
        }),
{
    let unread = bytes@.skip(from as int);
    if unread.len() >= 4 {
        bytes::law_fields_spell_their_number(bytes@, from as int);
        assert(unread.take(4) =~= bytes@.subrange(from as int, from + 4));
    }
}

} // verus!
