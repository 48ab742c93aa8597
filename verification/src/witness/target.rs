//! Canonical names of semantic application Targets.
use crate::text;
use crate::text::{split_bytes, text_bytes};
use crate::witness::error::{Error, ErrorView, Result};
use vstd::prelude::*;
use vstd::utf8::*;

verus! {

/// ASCII lowercase letter.
pub open spec fn lowercase(byte: u8) -> bool {
    97 <= byte <= 122
}

/// ASCII decimal digit.
pub open spec fn decimal_digit(byte: u8) -> bool {
    48 <= byte <= 57
}

/// ASCII letter or digit.
pub open spec fn alphanumeric(byte: u8) -> bool {
    lowercase(byte) || decimal_digit(byte) || 65 <= byte <= 90
}

/// A byte that stands for itself in an identity: a letter, a digit, or one of
/// `-`, `.`, `_`, `~`.
pub open spec fn unreserved(byte: u8) -> bool {
    alphanumeric(byte) || byte == 45 || byte == 46 || byte == 95 || byte == 126
}

/// Uppercase hexadecimal digit.
pub open spec fn uppercase_hex(byte: u8) -> bool {
    decimal_digit(byte) || 65 <= byte <= 70
}

/// Value of an uppercase hexadecimal digit.
pub open spec fn hex_digit_value(byte: u8) -> int {
    if decimal_digit(byte) {
        byte - 48
    } else {
        byte - 55
    }
}

/// The byte named by two hexadecimal digits.
pub open spec fn escaped(high: u8, low: u8) -> u8 {
    (16 * hex_digit_value(high) + hex_digit_value(low)) as u8
}

/// A kebab-case segment: lowercase letters and digits in runs joined by single
/// hyphens, starting with a letter.
pub open spec fn kebab(segment: Seq<u8>) -> bool {
    &&& segment.len() > 0
    &&& lowercase(segment[0])
    &&& alphanumeric(segment.last())
    &&& forall|i: int|
        0 <= i < segment.len() ==> lowercase(#[trigger] segment[i]) || decimal_digit(segment[i])
            || segment[i] == 45
    &&& forall|i: int|
        0 <= i < segment.len() - 1 ==> !(#[trigger] segment[i] == 45 && segment[i + 1] == 45)
}

/// A spelling made of unreserved bytes and canonical percent escapes: uppercase
/// digits, never naming an unreserved byte.
pub open spec fn percent_encoded(spelling: Seq<u8>) -> bool
    decreases spelling.len(),
{
    if spelling.len() == 0 {
        true
    } else if spelling[0] == 37 {
        &&& spelling.len() >= 3
        &&& uppercase_hex(spelling[1])
        &&& uppercase_hex(spelling[2])
        &&& !unreserved(escaped(spelling[1], spelling[2]))
        &&& percent_encoded(spelling.skip(3))
    } else {
        unreserved(spelling[0]) && percent_encoded(spelling.skip(1))
    }
}

/// A nonempty canonical identity spelling.
pub open spec fn identity(spelling: Seq<u8>) -> bool {
    spelling.len() > 0 && percent_encoded(spelling)
}

/// Why a wire spelling is not a Target name, when it is not.
///
/// A name is `owner.semantic.path[/identity...]`: a kebab-case owner, one or
/// more kebab-case path segments, and canonically encoded runtime identities.
pub open spec fn objection(name: Seq<u8>) -> Option<Seq<char>> {
    let parts = text::pieces(name, 47u8);
    let segments = text::pieces(parts[0], 46u8);
    if name.len() > 512 {
        Some("name exceeds 512 bytes"@)
    } else if !kebab(segments[0]) {
        Some("owner is not a kebab-case segment"@)
    } else if segments.len() == 1 || !(forall|i: int|
        1 <= i < segments.len() ==> kebab(#[trigger] segments[i])) {
        Some("semantic path requires one or more kebab-case segments"@)
    } else if !(forall|i: int| 1 <= i < parts.len() ==> identity(#[trigger] parts[i])) {
        Some("runtime identity is empty or not canonically encoded"@)
    } else {
        None
    }
}

/// Canonical serialized identity of one semantic application Target.
///
/// A name has an owning kebab-case namespace, a dotted semantic path, and an
/// optional slash-delimited tuple of encoded runtime identities:
/// `owner.semantic.path[/identity...]`. Semantic material always precedes the
/// first slash. Identity components admit ASCII unreserved characters and
/// canonical percent escapes.
#[derive(Debug, Eq, Hash, Ord, PartialEq, PartialOrd)]
pub struct TargetName {
    name: String,
}

impl View for TargetName {
    type V = Seq<char>;

    closed spec fn view(&self) -> Seq<char> {
        self.name@
    }
}

impl TargetName {
    #[verifier::type_invariant]
    spec fn canonical(self) -> bool {
        objection(encode_utf8(self.name@)) is None
    }

    /// Admit one canonical Target wire name.
    pub fn new(name: &str) -> (admitted: Result<Self>)
        ensures
            match admitted {
                Ok(target) => objection(encode_utf8(name@)) is None && target@ == name@,
                Err(error) => objection(encode_utf8(name@)) matches Some(detail) && error@ == (
                ErrorView::TargetName { name: name@, detail }),
            },
    {
        match validate(name) {
            Ok(_) => Ok(TargetName { name: name.to_owned() }),
            Err(error) => Err(error),
        }
    }

    /// Borrow the canonical wire spelling.
    pub fn as_str(&self) -> (name: &str)
        ensures
            name@ == self@,
            objection(encode_utf8(self@)) is None,
    {
        proof {
            use_type_invariant(self);
        }
        self.name.as_str()
    }

    /// Release the canonical wire spelling.
    pub fn into_string(self) -> (name: String)
        ensures
            name@ == self@,
            objection(encode_utf8(self@)) is None,
    {
        proof {
            use_type_invariant(&self);
        }
        self.name
    }
}

impl Clone for TargetName {
    fn clone(&self) -> (copy: Self)
        ensures
            copy@ == self@,
    {
        proof {
            use_type_invariant(self);
        }
        TargetName { name: self.name.clone() }
    }
}

impl AsRef<str> for TargetName {
    fn as_ref(&self) -> (name: &str)
        ensures
            name@ == self@,
    {
        self.as_str()
    }
}

impl TryFrom<&str> for TargetName {
    type Error = Error;

    fn try_from(name: &str) -> (admitted: Result<Self>)
        ensures
            match admitted {
                Ok(target) => objection(encode_utf8(name@)) is None && target@ == name@,
                Err(error) => objection(encode_utf8(name@)) matches Some(detail) && error@ == (
                ErrorView::TargetName { name: name@, detail }),
            },
    {
        Self::new(name)
    }
}

impl vstd::std_specs::convert::TryFromSpecImpl<&str> for TargetName {
    open spec fn obeys_try_from_spec() -> bool {
        false
    }

    open spec fn try_from_spec(name: &str) -> Result<Self> {
        arbitrary()
    }
}

impl TryFrom<String> for TargetName {
    type Error = Error;

    fn try_from(name: String) -> (admitted: Result<Self>)
        ensures
            match admitted {
                Ok(target) => objection(encode_utf8(name@)) is None && target@ == name@,
                Err(error) => objection(encode_utf8(name@)) matches Some(detail) && error@ == (
                ErrorView::TargetName { name: name@, detail }),
            },
    {
        Self::new(name.as_str())
    }
}

impl vstd::std_specs::convert::TryFromSpecImpl<String> for TargetName {
    open spec fn obeys_try_from_spec() -> bool {
        false
    }

    open spec fn try_from_spec(name: String) -> Result<Self> {
        arbitrary()
    }
}

fn fault(name: &str, detail: &'static str) -> (error: Error)
    ensures
        error@ == (ErrorView::TargetName { name: name@, detail: detail@ }),
{
    Error::TargetName { name: name.to_owned(), detail }
}

/// Check a wire spelling against the Target grammar.
pub fn validate(name: &str) -> (verdict: Result<()>)
    ensures
        match verdict {
            Ok(_) => objection(encode_utf8(name@)) is None,
            Err(error) => objection(encode_utf8(name@)) matches Some(detail) && error@ == (
            ErrorView::TargetName { name: name@, detail }),
        },
{
    let bytes = text_bytes(name);
    let ghost whole = encode_utf8(name@);
    if bytes.len() > 512 {
        return Err(fault(name, "name exceeds 512 bytes"));
    }
    let parts = split_bytes(bytes.as_slice(), 47);
    proof {
        text::lemma_pieces_nonempty(bytes@, 47u8);
        assert(text::views(parts@)[0] == parts@[0]@);
    }
    let segments = split_bytes(parts[0].as_slice(), 46);
    proof {
        text::lemma_pieces_nonempty(parts@[0]@, 46u8);
        assert(text::views(segments@)[0] == segments@[0]@);
    }
    if !valid_kebab(segments[0].as_slice()) {
        return Err(fault(name, "owner is not a kebab-case segment"));
    }
    if segments.len() == 1 {
        return Err(fault(name, "semantic path requires one or more kebab-case segments"));
    }
    let mut index: usize = 1;
    while index < segments.len()
        invariant
            1 <= index <= segments.len(),
            whole == encode_utf8(name@),
            whole.len() <= 512,
            text::views(parts@) == text::pieces(whole, 47u8),
            parts.len() > 0,
            text::views(segments@) == text::pieces(text::views(parts@)[0], 46u8),
            kebab(text::views(segments@)[0]),
            forall|i: int| 1 <= i < index ==> kebab(#[trigger] text::views(segments@)[i]),
        decreases segments.len() - index,
    {
        if !valid_kebab(segments[index].as_slice()) {
            assert(!kebab(text::views(segments@)[index as int]));
            return Err(fault(name, "semantic path requires one or more kebab-case segments"));
        }
        index += 1;
    }
    let mut index: usize = 1;
    while index < parts.len()
        invariant
            1 <= index <= parts.len(),
            whole == encode_utf8(name@),
            whole.len() <= 512,
            text::views(parts@) == text::pieces(whole, 47u8),
            text::views(segments@) == text::pieces(text::views(parts@)[0], 46u8),
            segments.len() > 1,
            kebab(text::views(segments@)[0]),
            forall|i: int|
                1 <= i < segments.len() ==> kebab(#[trigger] text::views(segments@)[i]),
            forall|i: int| 1 <= i < index ==> identity(#[trigger] text::views(parts@)[i]),
        decreases parts.len() - index,
    {
        if !valid_identity(parts[index].as_slice()) {
            assert(!identity(text::views(parts@)[index as int]));
            return Err(fault(name, "runtime identity is empty or not canonically encoded"));
        }
        index += 1;
    }
    Ok(())
}

fn is_lowercase(byte: u8) -> (verdict: bool)
    ensures
        verdict == lowercase(byte),
{
    97 <= byte && byte <= 122
}

fn is_decimal_digit(byte: u8) -> (verdict: bool)
    ensures
        verdict == decimal_digit(byte),
{
    48 <= byte && byte <= 57
}

fn is_alphanumeric(byte: u8) -> (verdict: bool)
    ensures
        verdict == alphanumeric(byte),
{
    is_lowercase(byte) || is_decimal_digit(byte) || (65 <= byte && byte <= 90)
}

fn is_unreserved(byte: u8) -> (verdict: bool)
    ensures
        verdict == unreserved(byte),
{
    is_alphanumeric(byte) || byte == 45 || byte == 46 || byte == 95 || byte == 126
}

/// Check one kebab-case segment.
pub fn valid_kebab(segment: &[u8]) -> (verdict: bool)
    ensures
        verdict == kebab(segment@),
{
    if segment.len() == 0 || !is_lowercase(segment[0]) || !is_alphanumeric(
        segment[segment.len() - 1],
    ) {
        return false;
    }
    let mut index: usize = 0;
    while index < segment.len()
        invariant
            index <= segment.len(),
            forall|i: int|
                0 <= i < index ==> lowercase(#[trigger] segment@[i]) || decimal_digit(segment@[i])
                    || segment@[i] == 45,
            forall|i: int|
                0 <= i < index && i < segment.len() - 1 ==> !(#[trigger] segment@[i] == 45
                    && segment@[i + 1] == 45),
        decreases segment.len() - index,
    {
        let byte: u8 = segment[index];
        if !(is_lowercase(byte) || is_decimal_digit(byte) || byte == 45) {
            assert(!kebab(segment@)) by {
                let _ = segment@[index as int];
            }
            return false;
        }
        if byte == 45 && index + 1 < segment.len() && segment[index + 1] == 45 {
            assert(!kebab(segment@)) by {
                let _ = segment@[index as int];
            }
            return false;
        }
        index += 1;
    }
    true
}

/// Check one runtime identity.
pub fn valid_identity(spelling: &[u8]) -> (verdict: bool)
    ensures
        verdict == identity(spelling@),
{
    if spelling.len() == 0 {
        return false;
    }
    let mut index: usize = 0;
    assert(spelling@.skip(0) =~= spelling@);
    while index < spelling.len()
        invariant
            index <= spelling.len(),
            spelling.len() > 0,
            percent_encoded(spelling@) == percent_encoded(spelling@.skip(index as int)),
        decreases spelling.len() - index,
    {
        let byte: u8 = spelling[index];
        let ghost rest = spelling@.skip(index as int);
        if byte == 37 {
            if spelling.len() - index < 3 || !canonical_hex(spelling[index + 1]) || !canonical_hex(
                spelling[index + 2],
            ) {
                return false;
            }
            let decoded: u8 = hex_value(spelling[index + 1]) * 16 + hex_value(spelling[index + 2]);
            assert(decoded == escaped(rest[1], rest[2]));
            if is_unreserved(decoded) {
                return false;
            }
            assert(rest.skip(3) =~= spelling@.skip(index + 3));
            index += 3;
        } else if is_unreserved(byte) {
            assert(rest.skip(1) =~= spelling@.skip(index + 1));
            index += 1;
        } else {
            return false;
        }
    }
    true
}

fn canonical_hex(byte: u8) -> (verdict: bool)
    ensures
        verdict == uppercase_hex(byte),
{
    is_decimal_digit(byte) || (65 <= byte && byte <= 70)
}

fn hex_value(byte: u8) -> (value: u8)
    requires
        uppercase_hex(byte),
    ensures
        value == hex_digit_value(byte),
        value < 16,
{
    if is_decimal_digit(byte) {
        byte - 48
    } else {
        byte - 55
    }
}

// ---------------------------------------------------------------------------
// Identities
// ---------------------------------------------------------------------------

/// The uppercase hexadecimal digit of a value below sixteen.
pub open spec fn hex_digit(value: int) -> u8 {
    if value < 10 {
        (48 + value) as u8
    } else {
        (55 + value) as u8
    }
}

/// The canonical spelling of an identity.
pub open spec fn encode_identity(bytes: Seq<u8>) -> Seq<u8>
    decreases bytes.len(),
{
    if bytes.len() == 0 {
        Seq::empty()
    } else if unreserved(bytes[0]) {
        seq![bytes[0]] + encode_identity(bytes.skip(1))
    } else {
        seq![37u8, hex_digit(bytes[0] as int / 16), hex_digit(bytes[0] as int % 16)]
            + encode_identity(bytes.skip(1))
    }
}

/// The identity behind a spelling.
pub open spec fn decode_identity(spelling: Seq<u8>) -> Seq<u8>
    decreases spelling.len(),
{
    if spelling.len() == 0 {
        Seq::empty()
    } else if spelling[0] == 37 && spelling.len() >= 3 {
        seq![escaped(spelling[1], spelling[2])] + decode_identity(spelling.skip(3))
    } else {
        seq![spelling[0]] + decode_identity(spelling.skip(1))
    }
}

/// Every admitted spelling is the one canonical spelling of its identity, so two
/// admitted spellings name the same identity only when they are equal.
pub proof fn law_spelling_is_canonical(spelling: Seq<u8>)
    requires
        percent_encoded(spelling),
    ensures
        encode_identity(decode_identity(spelling)) == spelling,
    decreases spelling.len(),
{
    if spelling.len() == 0 {
    } else if spelling[0] == 37 {
        let byte = escaped(spelling[1], spelling[2]);
        let rest = spelling.skip(3);
        law_spelling_is_canonical(rest);
        assert(decode_identity(spelling).skip(1) =~= decode_identity(rest));
        assert(byte as int == 16 * hex_digit_value(spelling[1]) + hex_digit_value(spelling[2]));
        assert(byte as int / 16 == hex_digit_value(spelling[1]));
        assert(byte as int % 16 == hex_digit_value(spelling[2]));
        assert(encode_identity(decode_identity(spelling)) =~= spelling);
    } else {
        let rest = spelling.skip(1);
        law_spelling_is_canonical(rest);
        assert(decode_identity(spelling).skip(1) =~= decode_identity(rest));
        assert(encode_identity(decode_identity(spelling)) =~= spelling);
    }
}

/// Every nonempty runtime identity has an admitted spelling, and that spelling
/// reads back as the identity.
pub proof fn law_every_identity_is_spellable(bytes: Seq<u8>)
    ensures
        percent_encoded(encode_identity(bytes)),
        bytes.len() > 0 ==> identity(encode_identity(bytes)),
        decode_identity(encode_identity(bytes)) == bytes,
    decreases bytes.len(),
{
    if bytes.len() > 0 {
        let rest = bytes.skip(1);
        law_every_identity_is_spellable(rest);
        let spelling = encode_identity(bytes);
        if unreserved(bytes[0]) {
            assert(spelling.skip(1) =~= encode_identity(rest));
        } else {
            assert(spelling.skip(3) =~= encode_identity(rest));
            let byte = bytes[0] as int;
            assert(hex_digit_value(hex_digit(byte / 16)) == byte / 16);
            assert(hex_digit_value(hex_digit(byte % 16)) == byte % 16);
            assert(escaped(spelling[1], spelling[2]) == bytes[0]);
        }
        assert(decode_identity(spelling) =~= bytes);
    }
}

/// Identity material never reaches the semantic part: everything before the
/// first slash of a name is free of slashes.
pub proof fn law_semantics_precede_identity(name: Seq<u8>)
    ensures
        forall|i: int|
            0 <= i < text::pieces(name, 47u8)[0].len() ==> #[trigger] text::pieces(
                name,
                47u8,
            )[0][i] != 47,
{
    text::lemma_first_of_bounds(name, 47u8);
}

proof fn lemma_pieces_hold_all(
    items: Seq<u8>,
    mark: u8,
    fits: spec_fn(u8) -> bool,
)
    requires
        forall|k: int, j: int|
            0 <= k < text::pieces(items, mark).len() && 0 <= j < text::pieces(items, mark)[k].len()
                ==> fits(#[trigger] text::pieces(items, mark)[k][j]),
    ensures
        forall|i: int| 0 <= i < items.len() ==> #[trigger] items[i] == mark || fits(items[i]),
    decreases items.len(),
{
    let cut = text::first_of(items, mark) as int;
    text::lemma_first_of_bounds(items, mark);
    let all = text::pieces(items, mark);
    if cut >= items.len() {
        assert forall|i: int| 0 <= i < items.len() implies #[trigger] items[i] == mark || fits(
            items[i],
        ) by {
            assert(all[0][i] == items[i]);
            assert(fits(all[0][i]));
        }
    } else {
        let rest = items.skip(cut + 1);
        let others = text::pieces(rest, mark);
        assert forall|k: int, j: int|
            0 <= k < others.len() && 0 <= j < others[k].len() implies fits(
            #[trigger] others[k][j],
        ) by {
            assert(all[k + 1] == others[k]);
            assert(fits(all[k + 1][j]));
        }
        lemma_pieces_hold_all(rest, mark, fits);
        assert forall|i: int| 0 <= i < items.len() implies #[trigger] items[i] == mark || fits(
            items[i],
        ) by {
            if i < cut {
                assert(all[0] == items.take(cut));
                assert(all[0][i] == items[i]);
                assert(fits(all[0][i]));
            } else if i > cut {
                assert(rest[i - cut - 1] == items[i]);
            }
        }
    }
}

proof fn lemma_encoded_bytes(spelling: Seq<u8>, index: int)
    requires
        percent_encoded(spelling),
        0 <= index < spelling.len(),
    ensures
        unreserved(spelling[index]) || spelling[index] == 37,
    decreases spelling.len(),
{
    if spelling[0] == 37 {
        if index >= 3 {
            lemma_encoded_bytes(spelling.skip(3), index - 3);
        }
    } else if index >= 1 {
        lemma_encoded_bytes(spelling.skip(1), index - 1);
    }
}

/// An admitted name is kept as it is spelled. It has no more than half a kibibyte, begins
/// with a lowercase letter, and names an owner and a path: before its first slash there are
/// lowercase letters, digits, hyphens, and dots only, and a dot among them. Nowhere in it is
/// there a byte that would need escaping.
pub proof fn law_admitted_names_are_spelled_plainly(name: &str, admitted: TargetName)
    requires
        TargetName::new.ensures((name,), Ok(admitted)),
    ensures
        admitted@ == name@,
        ({
            let bytes = encode_utf8(name@);
            let cut = text::first_of(bytes, '/' as u8) as int;
            &&& 0 < bytes.len() <= 512
            &&& 'a' as u8 <= bytes[0] <= 'z' as u8
            &&& forall|i: int|
                0 <= i < cut ==> 'a' as u8 <= #[trigger] bytes[i] <= 'z' as u8 || '0' as u8
                    <= bytes[i] <= '9' as u8 || bytes[i] == '-' as u8 || bytes[i] == '.' as u8
            &&& exists|i: int| 0 < i < cut && #[trigger] bytes[i] == '.' as u8
            &&& forall|i: int|
                0 <= i < bytes.len() ==> unreserved(#[trigger] bytes[i]) || bytes[i] == '%' as u8
                    || bytes[i] == '/' as u8
        }),
{
    let bytes = encode_utf8(name@);
    let parts = text::pieces(bytes, 47u8);
    let semantic = parts[0];
    let segments = text::pieces(semantic, 46u8);
    let cut = text::first_of(bytes, 47u8) as int;
    text::lemma_first_of_bounds(bytes, 47u8);
    text::lemma_first_of_bounds(semantic, 46u8);
    assert(semantic =~= bytes.take(cut));
    let plain = |byte: u8| lowercase(byte) || decimal_digit(byte) || byte == 45;
    assert forall|k: int, j: int|
        0 <= k < segments.len() && 0 <= j < segments[k].len() implies plain(
        #[trigger] segments[k][j],
    ) by {
        assert(kebab(segments[k]));
    }
    lemma_pieces_hold_all(semantic, 46u8, plain);
    assert forall|i: int| 0 <= i < cut implies lowercase(#[trigger] bytes[i]) || decimal_digit(
        bytes[i],
    ) || bytes[i] == 45 || bytes[i] == 46 by {
        assert(semantic[i] == bytes[i]);
    }
    let dot = text::first_of(semantic, 46u8) as int;
    assert(dot < semantic.len());
    assert(bytes[dot] == semantic[dot]);
    assert(segments[0] == semantic.take(dot));
    assert(kebab(segments[0]));
    assert(segments[0][0] == bytes[0]);
    let fits = |byte: u8| unreserved(byte) || byte == 37;
    assert forall|k: int, j: int| 0 <= k < parts.len() && 0 <= j < parts[k].len() implies fits(
        #[trigger] parts[k][j],
    ) by {
        if k == 0 {
            assert(bytes[j] == semantic[j]);
        } else {
            assert(identity(parts[k]));
            lemma_encoded_bytes(parts[k], j);
        }
    }
    lemma_pieces_hold_all(bytes, 47u8, fits);
}

/// A runtime identity is admitted exactly where it is the canonical spelling of some bytes,
/// of which there is at least one.
pub proof fn law_identities_are_canonical_spellings(spelling: &[u8], verdict: bool)
    requires
        valid_identity.ensures((spelling,), verdict),
    ensures
        verdict <==> exists|bytes: Seq<u8>|
            bytes.len() > 0 && #[trigger] encode_identity(bytes) == spelling@,
{
    if verdict {
        law_spelling_is_canonical(spelling@);
        let bytes = decode_identity(spelling@);
        assert(encode_identity(bytes) == spelling@);
    }
    if exists|bytes: Seq<u8>| bytes.len() > 0 && #[trigger] encode_identity(bytes) == spelling@ {
        let bytes = choose|bytes: Seq<u8>|
            bytes.len() > 0 && #[trigger] encode_identity(bytes) == spelling@;
        law_every_identity_is_spellable(bytes);
    }
}

/// A segment is admitted exactly where it is made of runs of lowercase letters and digits
/// with single hyphens between them, and begins with a letter.
pub proof fn law_segments_are_runs_joined_by_hyphens(segment: &[u8], verdict: bool)
    requires
        valid_kebab.ensures((segment,), verdict),
    ensures
        verdict <==> {
            &&& segment@.len() > 0
            &&& 'a' as u8 <= segment@[0] <= 'z' as u8
            &&& forall|i: int|
                0 <= i < segment@.len() ==> 'a' as u8 <= #[trigger] segment@[i] <= 'z' as u8
                    || '0' as u8 <= segment@[i] <= '9' as u8 || (segment@[i] == '-' as u8 && 0 < i
                    && i + 1 < segment@.len() && segment@[i + 1] != '-' as u8)
        },
{
    let list = segment@;
    if verdict {
        assert forall|i: int| 0 <= i < list.len() implies 'a' as u8 <= #[trigger] list[i]
            <= 'z' as u8 || '0' as u8 <= list[i] <= '9' as u8 || (list[i] == '-' as u8 && 0 < i && i
            + 1 < list.len() && list[i + 1] != '-' as u8) by {}
    }
    if list.len() > 0 {
        assert(list[list.len() - 1] == list.last());
    }
}

} // verus!
