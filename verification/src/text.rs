//! Text and byte-string primitives shared by every diagnostic and argument
//! vector: decimal rendering, whitespace trimming, line and field splitting.
use vstd::prelude::*;
use vstd::utf8::*;

verus! {

/// `String::push`: appends one character to the end of the text.
pub assume_specification[ String::push ](s: &mut String, c: char)
    ensures
        final(s)@ == old(s)@.push(c),
;

// ---------------------------------------------------------------------------
// Equality and copying
// ---------------------------------------------------------------------------

/// Byte-string equality.
pub fn bytes_equal(left: &[u8], right: &[u8]) -> (same: bool)
    ensures
        same == (left@ == right@),
{
    if left.len() != right.len() {
        return false;
    }
    let mut index: usize = 0;
    while index < left.len()
        invariant
            index <= left.len(),
            left.len() == right.len(),
            forall|i: int| 0 <= i < index ==> left@[i] == right@[i],
        decreases left.len() - index,
    {
        if left[index] != right[index] {
            return false;
        }
        index += 1;
    }
    assert(left@ =~= right@);
    true
}

/// Two texts are equal when their UTF-8 encodings are.
pub proof fn lemma_bytes_determine_text(left: Seq<char>, right: Seq<char>)
    ensures
        encode_utf8(left) == encode_utf8(right) ==> left == right,
{
    broadcast use vstd::utf8::encode_utf8_decode_utf8;

    assert(decode_utf8(encode_utf8(left)) == left);
    assert(decode_utf8(encode_utf8(right)) == right);
}

/// Text equality.
pub fn same(left: &str, right: &str) -> (same: bool)
    ensures
        same == (left@ == right@),
{
    proof {
        lemma_bytes_determine_text(left@, right@);
    }
    bytes_equal(left.as_bytes(), right.as_bytes())
}

/// An owned copy of a byte string.
pub fn copy_bytes(bytes: &[u8]) -> (copy: Vec<u8>)
    ensures
        copy@ == bytes@,
{
    let mut copy: Vec<u8> = Vec::new();
    copy.extend_from_slice(bytes);
    assert(copy@ =~= bytes@);
    copy
}

/// The UTF-8 bytes of a text, as an owned byte string.
pub fn text_bytes(text: &str) -> (bytes: Vec<u8>)
    ensures
        bytes@ == encode_utf8(text@),
{
    copy_bytes(text.as_bytes())
}

/// The characters of a text.
pub fn characters(text: &str) -> (characters: Vec<char>)
    ensures
        characters@ == text@,
{
    let mut characters: Vec<char> = Vec::new();
    for c in it: text.chars()
        invariant
            characters@ =~= text@.take(it.index()),
            it.seq() == text@,
    {
        assert(text@.take(it.index() + 1) =~= text@.take(it.index()).push(c));
        characters.push(c);
    }
    assert(text@.take(text@.len() as int) =~= text@);
    characters
}

/// The text spelled by a run of characters.
pub fn spell(characters: &[char]) -> (text: String)
    ensures
        text@ == characters@,
{
    let mut text = String::new();
    let mut index: usize = 0;
    while index < characters.len()
        invariant
            index <= characters.len(),
            text@ == characters@.take(index as int),
        decreases characters.len() - index,
    {
        text.push(characters[index]);
        assert(characters@.take(index + 1) =~= characters@.take(index as int).push(
            characters@[index as int],
        ));
        index += 1;
    }
    assert(characters@.take(characters@.len() as int) =~= characters@);
    text
}

// ---------------------------------------------------------------------------
// Decimal numerals
// ---------------------------------------------------------------------------

/// The numeral of one decimal digit.
pub open spec fn digit(value: nat) -> char {
    (48 + value) as char
}

/// The shortest decimal numeral of a natural number.
pub open spec fn decimal(value: nat) -> Seq<char>
    decreases value,
{
    if value < 10 {
        seq![digit(value)]
    } else {
        decimal(value / 10).push(digit(value % 10))
    }
}

/// The shortest decimal numeral of an integer, with a leading minus if negative.
pub open spec fn signed_decimal(value: int) -> Seq<char> {
    if value < 0 {
        seq!['-'] + decimal((-value) as nat)
    } else {
        decimal(value as nat)
    }
}

fn digit_character(value: u8) -> (c: char)
    requires
        value < 10,
    ensures
        c == digit(value as nat),
{
    match value {
        0 => '0',
        1 => '1',
        2 => '2',
        3 => '3',
        4 => '4',
        5 => '5',
        6 => '6',
        7 => '7',
        8 => '8',
        _ => '9',
    }
}

/// The lower-case hexadecimal digit of a value below sixteen.
pub open spec fn hex_digit(value: nat) -> char {
    if value < 10 {
        ('0' as int + value) as char
    } else {
        ('a' as int + value - 10) as char
    }
}

/// The shortest lower-case hexadecimal numeral of a natural number.
pub open spec fn hexadecimal(value: nat) -> Seq<char>
    decreases value,
{
    if value < 16 {
        seq![hex_digit(value)]
    } else {
        hexadecimal(value / 16).push(hex_digit(value % 16))
    }
}

/// Render a number in hexadecimal.
pub fn hexadecimal_text(value: u32) -> (text: String)
    ensures
        text@ == hexadecimal(value as nat),
    decreases value,
{
    let mut text = if value < 16 {
        String::new()
    } else {
        hexadecimal_text(value / 16)
    };
    let low: u8 = (value % 16) as u8;
    let c: char = if low < 10 {
        (48 + low) as char
    } else {
        (87 + low) as char
    };
    text.push(c);
    assert(value < 16 ==> text@ =~= seq![hex_digit(value as nat)]);
    text
}

/// Render a natural number in decimal.
pub fn decimal_text(value: u128) -> (text: String)
    ensures
        text@ == decimal(value as nat),
    decreases value,
{
    if value < 10 {
        let mut text = String::new();
        text.push(digit_character(value as u8));
        assert(text@ =~= seq![digit(value as nat)]);
        text
    } else {
        let mut text = decimal_text(value / 10);
        text.push(digit_character((value % 10) as u8));
        text
    }
}

/// Render an integer in decimal.
pub fn signed_decimal_text(value: i64) -> (text: String)
    ensures
        text@ == signed_decimal(value as int),
{
    if value < 0 {
        let mut text = String::new();
        text.push('-');
        let magnitude: u128 = (-(value as i128)) as u128;
        text.append(decimal_text(magnitude).as_str());
        assert(text@ =~= seq!['-'] + decimal((-value) as nat));
        text
    } else {
        decimal_text(value as u128)
    }
}

// ---------------------------------------------------------------------------
// Splitting
// ---------------------------------------------------------------------------

/// Index of the first `mark` in `items`, or its length when there is none.
pub open spec fn first_of<T>(items: Seq<T>, mark: T) -> nat
    decreases items.len(),
{
    if items.len() == 0 || items[0] == mark {
        0
    } else {
        1 + first_of(items.skip(1), mark)
    }
}

/// An index free of earlier marks, that holds a mark or ends the sequence, is
/// the first one.
pub proof fn lemma_first_of<T>(items: Seq<T>, mark: T, index: int)
    requires
        0 <= index <= items.len(),
        forall|i: int| 0 <= i < index ==> items[i] != mark,
        index < items.len() ==> items[index] == mark,
    ensures
        first_of(items, mark) == index,
    decreases items.len(),
{
    if index > 0 {
        assert forall|i: int| 0 <= i < index - 1 implies items.skip(1)[i] != mark by {
            assert(items.skip(1)[i] == items[i + 1]);
        }
        lemma_first_of(items.skip(1), mark, index - 1);
    }
}

/// The first mark is in range, and nothing before it equals the mark.
pub proof fn lemma_first_of_bounds<T>(items: Seq<T>, mark: T)
    ensures
        first_of(items, mark) <= items.len(),
        forall|i: int| 0 <= i < first_of(items, mark) ==> items[i] != mark,
        first_of(items, mark) < items.len() ==> items[first_of(items, mark) as int] == mark,
    decreases items.len(),
{
    if items.len() > 0 && items[0] != mark {
        lemma_first_of_bounds(items.skip(1), mark);
        assert forall|i: int| 0 <= i < first_of(items, mark) implies items[i] != mark by {
            if i > 0 {
                assert(items[i] == items.skip(1)[i - 1]);
            }
        }
    }
}

/// The runs of `items` between marks: one more than there are marks.
pub open spec fn pieces<T>(items: Seq<T>, mark: T) -> Seq<Seq<T>>
    decreases items.len(),
    via pieces_shrink::<T>
{
    let cut = first_of(items, mark) as int;
    if cut >= items.len() {
        seq![items]
    } else {
        seq![items.take(cut)] + pieces(items.skip(cut + 1), mark)
    }
}

#[via_fn]
proof fn pieces_shrink<T>(items: Seq<T>, mark: T) {
    lemma_first_of_bounds(items, mark);
}

/// Splitting always yields a first piece.
pub proof fn lemma_pieces_nonempty<T>(items: Seq<T>, mark: T)
    ensures
        pieces(items, mark).len() > 0,
{
}

/// Index of the first `mark` at or after `from`, or the length.
pub fn seek_byte(bytes: &[u8], from: usize, mark: u8) -> (index: usize)
    requires
        from <= bytes.len(),
    ensures
        from <= index <= bytes.len(),
        index - from == first_of(bytes@.skip(from as int), mark),
{
    let mut index: usize = from;
    while index < bytes.len() && bytes[index] != mark
        invariant
            from <= index <= bytes.len(),
            forall|i: int| from <= i < index ==> bytes@[i] != mark,
        decreases bytes.len() - index,
    {
        index += 1;
    }
    proof {
        lemma_first_of(bytes@.skip(from as int), mark, index - from);
    }
    index
}

/// Contents of a list of byte strings.
pub open spec fn views(list: Seq<Vec<u8>>) -> Seq<Seq<u8>> {
    Seq::new(list.len(), |i: int| list[i]@)
}

/// Contents of a list of texts.
pub open spec fn strings(list: Seq<String>) -> Seq<Seq<char>> {
    Seq::new(list.len(), |i: int| list[i]@)
}

/// Split a byte string at every `mark`.
pub fn split_bytes(bytes: &[u8], mark: u8) -> (list: Vec<Vec<u8>>)
    ensures
        views(list@) == pieces(bytes@, mark),
{
    let mut list: Vec<Vec<u8>> = Vec::new();
    let mut from: usize = 0;
    assert(bytes@.skip(0) =~= bytes@);
    loop
        invariant
            from <= bytes.len(),
            views(list@) + pieces(bytes@.skip(from as int), mark) =~= pieces(bytes@, mark),
        decreases bytes.len() - from,
    {
        let cut: usize = seek_byte(bytes, from, mark);
        let piece: Vec<u8> = copy_range(bytes, from, cut);
        let ghost before = views(list@);
        let ghost rest = bytes@.skip(from as int);
        list.push(piece);
        assert(views(list@) =~= before.push(piece@));
        if cut >= bytes.len() {
            assert(piece@ =~= rest);
            assert(pieces(rest, mark) =~= seq![rest]);
            return list;
        }
        proof {
            let at = cut - from;
            assert(piece@ =~= rest.take(at));
            assert(rest.skip(at + 1) =~= bytes@.skip(cut + 1));
            assert(pieces(rest, mark) == seq![rest.take(at)] + pieces(rest.skip(at + 1), mark));
        }
        from = cut + 1;
    }
}

/// An owned copy of `bytes[from..to]`.
pub fn copy_range(bytes: &[u8], from: usize, to: usize) -> (copy: Vec<u8>)
    requires
        from <= to <= bytes.len(),
    ensures
        copy@ == bytes@.subrange(from as int, to as int),
{
    let mut copy: Vec<u8> = Vec::new();
    let mut index: usize = from;
    while index < to
        invariant
            from <= index <= to <= bytes.len(),
            copy@ == bytes@.subrange(from as int, index as int),
        decreases to - index,
    {
        copy.push(bytes[index]);
        assert(bytes@.subrange(from as int, index + 1) =~= bytes@.subrange(
            from as int,
            index as int,
        ).push(bytes@[index as int]));
        index += 1;
    }
    copy
}

// ---------------------------------------------------------------------------
// Whitespace, lines, and search
// ---------------------------------------------------------------------------

/// The Unicode `White_Space` property.
pub open spec fn white_space(c: char) -> bool {
    let v = c as u32;
    ||| 0x9 <= v <= 0xd
    ||| v == 0x20
    ||| v == 0x85
    ||| v == 0xa0
    ||| v == 0x1680
    ||| 0x2000 <= v <= 0x200a
    ||| v == 0x2028
    ||| v == 0x2029
    ||| v == 0x202f
    ||| v == 0x205f
    ||| v == 0x3000
}

/// Whether a character is Unicode whitespace.
pub fn is_white_space(c: char) -> (white: bool)
    ensures
        white == white_space(c),
{
    let v: u32 = c as u32;
    (0x9 <= v && v <= 0xd) || v == 0x20 || v == 0x85 || v == 0xa0 || v == 0x1680 || (0x2000 <= v
        && v <= 0x200a) || v == 0x2028 || v == 0x2029 || v == 0x202f || v == 0x205f || v == 0x3000
}

/// The text without its leading whitespace.
pub open spec fn trim_start(text: Seq<char>) -> Seq<char>
    decreases text.len(),
{
    if text.len() > 0 && white_space(text[0]) {
        trim_start(text.skip(1))
    } else {
        text
    }
}

/// The text without its trailing whitespace.
pub open spec fn trim_end(text: Seq<char>) -> Seq<char>
    decreases text.len(),
{
    if text.len() > 0 && white_space(text.last()) {
        trim_end(text.drop_last())
    } else {
        text
    }
}

/// The text without surrounding whitespace.
pub open spec fn trim(text: Seq<char>) -> Seq<char> {
    trim_end(trim_start(text))
}

/// Copy a text without its leading whitespace.
pub fn trim_start_text(text: &str) -> (trimmed: String)
    ensures
        trimmed@ == trim_start(text@),
{
    let characters = characters(text);
    let mut from: usize = 0;
    assert(characters@.skip(0) =~= characters@);
    while from < characters.len() && is_white_space(characters[from])
        invariant
            from <= characters.len(),
            trim_start(characters@.skip(from as int)) == trim_start(characters@),
        decreases characters.len() - from,
    {
        assert(characters@.skip(from as int).skip(1) =~= characters@.skip(from + 1));
        from += 1;
    }
    spell_range(&characters, from, characters.len())
}

/// Copy a text without its surrounding whitespace.
pub fn trim_text(text: &str) -> (trimmed: String)
    ensures
        trimmed@ == trim(text@),
{
    let started = trim_start_text(text);
    let characters = characters(started.as_str());
    let mut to: usize = characters.len();
    assert(characters@.take(to as int) =~= characters@);
    while to > 0 && is_white_space(characters[to - 1])
        invariant
            to <= characters.len(),
            trim_end(characters@.take(to as int)) == trim_end(characters@),
        decreases to,
    {
        assert(characters@.take(to as int).drop_last() =~= characters@.take(to - 1));
        to -= 1;
    }
    assert(characters@.take(to as int) =~= characters@.subrange(0, to as int));
    spell_range(&characters, 0, to)
}

/// The text spelled by `characters[from..to]`.
pub fn spell_range(characters: &Vec<char>, from: usize, to: usize) -> (text: String)
    requires
        from <= to <= characters.len(),
    ensures
        text@ == characters@.subrange(from as int, to as int),
        to == characters.len() ==> text@ == characters@.skip(from as int),
{
    let mut text = String::new();
    let mut index: usize = from;
    while index < to
        invariant
            from <= index <= to <= characters.len(),
            text@ == characters@.subrange(from as int, index as int),
        decreases to - index,
    {
        text.push(characters[index]);
        assert(characters@.subrange(from as int, index + 1) =~= characters@.subrange(
            from as int,
            index as int,
        ).push(characters@[index as int]));
        index += 1;
    }
    assert(to == characters.len() ==> text@ =~= characters@.skip(from as int));
    text
}

/// Whether `whole` holds `part` starting at `at`.
pub open spec fn occurs_at<T>(whole: Seq<T>, part: Seq<T>, at: int) -> bool {
    &&& 0 <= at
    &&& at + part.len() <= whole.len()
    &&& forall|i: int| 0 <= i < part.len() ==> #[trigger] whole[at + i] == part[i]
}

/// Whether `whole` holds `part` as a contiguous run.
pub open spec fn contains_run<T>(whole: Seq<T>, part: Seq<T>) -> bool {
    exists|at: int| #[trigger] occurs_at(whole, part, at)
}

/// Whether `whole` begins with `part`.
pub open spec fn begins_with<T>(whole: Seq<T>, part: Seq<T>) -> bool {
    occurs_at(whole, part, 0)
}

fn matches_at(whole: &[char], part: &[char], at: usize) -> (found: bool)
    ensures
        found == occurs_at(whole@, part@, at as int),
{
    if part.len() > whole.len() || at > whole.len() - part.len() {
        return false;
    }
    let mut index: usize = 0;
    while index < part.len()
        invariant
            index <= part.len(),
            at + part.len() <= whole.len(),
            forall|i: int| 0 <= i < index ==> #[trigger] whole@[at + i] == part@[i],
        decreases part.len() - index,
    {
        if whole[at + index] != part[index] {
            assert(whole@[at + index as int] != part@[index as int]);
            return false;
        }
        index += 1;
    }
    true
}

/// Whether a text contains another.
pub fn contains(whole: &str, part: &str) -> (found: bool)
    ensures
        found == contains_run(whole@, part@),
{
    let hay = characters(whole);
    let needle = characters(part);
    if needle.len() > hay.len() {
        return false;
    }
    let mut at: usize = 0;
    while at <= hay.len() - needle.len()
        invariant
            hay@ == whole@,
            needle@ == part@,
            needle.len() <= hay.len(),
            at <= hay.len() - needle.len() + 1,
            forall|i: int| 0 <= i < at ==> !#[trigger] occurs_at(hay@, needle@, i),
        decreases hay.len() - needle.len() + 1 - at,
    {
        if matches_at(hay.as_slice(), needle.as_slice(), at) {
            return true;
        }
        at += 1;
    }
    false
}

/// Whether a text begins with another.
pub fn starts_with(whole: &str, part: &str) -> (found: bool)
    ensures
        found == begins_with(whole@, part@),
{
    let whole = characters(whole);
    let part = characters(part);
    matches_at(whole.as_slice(), part.as_slice(), 0)
}

/// The remainder of a text past a prefix, when it has that prefix.
pub fn strip_prefix(whole: &str, prefix: &str) -> (rest: Option<String>)
    ensures
        match rest {
            Some(rest) => begins_with(whole@, prefix@) && rest@ == whole@.skip(
                prefix@.len() as int,
            ),
            None => !begins_with(whole@, prefix@),
        },
{
    let whole = characters(whole);
    let prefix = characters(prefix);
    if matches_at(whole.as_slice(), prefix.as_slice(), 0) {
        Some(spell_range(&whole, prefix.len(), whole.len()))
    } else {
        None
    }
}

/// The two sides of the first `mark` in a text.
pub fn split_once(text: &str, mark: char) -> (sides: Option<(String, String)>)
    ensures
        match sides {
            Some((left, right)) => first_of(text@, mark) < text@.len() && left@ == text@.take(
                first_of(text@, mark) as int,
            ) && right@ == text@.skip(
                first_of(text@, mark) as int + 1,
            ),
            None => first_of(text@, mark) == text@.len(),
        },
{
    let characters = characters(text);
    let mut index: usize = 0;
    while index < characters.len() && characters[index] != mark
        invariant
            index <= characters.len(),
            forall|i: int| 0 <= i < index ==> characters@[i] != mark,
        decreases characters.len() - index,
    {
        index += 1;
    }
    proof {
        lemma_first_of(text@, mark, index as int);
    }
    if index == characters.len() {
        None
    } else {
        let left = spell_range(&characters, 0, index);
        assert(left@ =~= text@.take(index as int));
        Some((left, spell_range(&characters, index + 1, characters.len())))
    }
}

/// One line without the carriage return of its line ending.
pub open spec fn line_body(line: Seq<char>) -> Seq<char> {
    if line.len() > 0 && line.last() == '\r' {
        line.drop_last()
    } else {
        line
    }
}

/// The lines of a text: each ends at a line feed, optionally preceded by a
/// carriage return, and a final unterminated line counts when nonempty.
pub open spec fn lines(text: Seq<char>) -> Seq<Seq<char>>
    decreases text.len(),
    via lines_shrink
{
    let cut = first_of(text, '\n') as int;
    if text.len() == 0 {
        Seq::empty()
    } else if cut >= text.len() {
        seq![text]
    } else {
        seq![line_body(text.take(cut))] + lines(text.skip(cut + 1))
    }
}

#[via_fn]
proof fn lines_shrink(text: Seq<char>) {
    lemma_first_of_bounds(text, '\n');
}

/// Split a text into lines.
pub fn split_lines(text: &str) -> (list: Vec<String>)
    ensures
        strings(list@) == lines(text@),
{
    let characters = characters(text);
    let mut list: Vec<String> = Vec::new();
    let mut from: usize = 0;
    assert(characters@.skip(0) =~= characters@);
    while from < characters.len()
        invariant
            from <= characters.len(),
            strings(list@) + lines(characters@.skip(from as int)) =~= lines(characters@),
        decreases characters.len() - from,
    {
        let ghost rest = characters@.skip(from as int);
        let ghost before = strings(list@);
        let mut cut: usize = from;
        while cut < characters.len() && characters[cut] != '\n'
            invariant
                from <= cut <= characters.len(),
                forall|i: int| from <= i < cut ==> characters@[i] != '\n',
            decreases characters.len() - cut,
        {
            cut += 1;
        }
        proof {
            lemma_first_of(rest, '\n', cut - from);
        }
        if cut == characters.len() {
            let line = spell_range(&characters, from, cut);
            list.push(line);
            assert(strings(list@) =~= before.push(line@));
            assert(lines(rest) =~= seq![rest]);
            assert(characters@.skip(cut as int) =~= Seq::<char>::empty());
            from = cut;
        } else {
            let mut to: usize = cut;
            if cut > from && characters[cut - 1] == '\r' {
                to = cut - 1;
            }
            let line = spell_range(&characters, from, to);
            list.push(line);
            proof {
                assert(strings(list@) =~= before.push(line@));
                assert(line@ =~= line_body(rest.take(cut - from)));
                assert(rest.skip(cut - from + 1) =~= characters@.skip(cut + 1));
                assert(lines(rest) == seq![line_body(rest.take(cut - from))] + lines(
                    rest.skip(cut - from + 1),
                ));
            }
            from = cut + 1;
        }
    }
    assert(characters@.skip(from as int) =~= Seq::<char>::empty());
    list
}

// ---------------------------------------------------------------------------
// Argument vectors
// ---------------------------------------------------------------------------

/// The UTF-8 spelling of a literal.
pub open spec fn word(text: &str) -> Seq<u8> {
    encode_utf8(text@)
}

/// The UTF-8 spellings of a list of literals.
pub open spec fn words(list: Seq<&str>) -> Seq<Seq<u8>> {
    Seq::new(list.len(), |i: int| word(list[i]))
}

/// Append one literal argument.
pub fn push_word(arguments: &mut Vec<Vec<u8>>, text: &str)
    ensures
        views(final(arguments)@) == views(old(arguments)@).push(word(text)),
{
    arguments.push(text_bytes(text));
    assert(views(arguments@) =~= views(old(arguments)@).push(word(text)));
}

/// Append a copy of one argument.
pub fn push_bytes(arguments: &mut Vec<Vec<u8>>, bytes: &[u8])
    ensures
        views(final(arguments)@) == views(old(arguments)@).push(bytes@),
{
    arguments.push(copy_bytes(bytes));
    assert(views(arguments@) =~= views(old(arguments)@).push(bytes@));
}

/// Append a list of literal arguments.
pub fn push_words(arguments: &mut Vec<Vec<u8>>, list: &[&str])
    ensures
        views(final(arguments)@) == views(old(arguments)@) + words(list@),
{
    let mut index: usize = 0;
    assert(views(old(arguments)@) =~= views(old(arguments)@) + words(list@.take(0)));
    while index < list.len()
        invariant
            index <= list.len(),
            views(arguments@) =~= views(old(arguments)@) + words(list@.take(index as int)),
        decreases list.len() - index,
    {
        push_word(arguments, list[index]);
        assert(words(list@.take(index + 1)) =~= words(list@.take(index as int)).push(
            word(list@[index as int]),
        ));
        index += 1;
    }
    assert(list@.take(index as int) =~= list@);
}

/// Append copies of a list of arguments.
pub fn push_all(arguments: &mut Vec<Vec<u8>>, list: &Vec<Vec<u8>>)
    ensures
        views(final(arguments)@) == views(old(arguments)@) + views(list@),
{
    let mut index: usize = 0;
    assert(views(old(arguments)@) =~= views(old(arguments)@) + views(list@.take(0)));
    while index < list.len()
        invariant
            index <= list.len(),
            views(arguments@) =~= views(old(arguments)@) + views(list@.take(index as int)),
        decreases list.len() - index,
    {
        push_bytes(arguments, list[index].as_slice());
        assert(views(list@.take(index + 1)) =~= views(list@.take(index as int)).push(
            list@[index as int]@,
        ));
        index += 1;
    }
    assert(list@.take(index as int) =~= list@);
}

// ---------------------------------------------------------------------------
// UTF-8
// ---------------------------------------------------------------------------

/// The text that lossy UTF-8 decoding gives for a byte string.
pub uninterp spec fn lossy(bytes: Seq<u8>) -> Seq<char>;

/// `String::from_utf8_lossy`: decodes a byte string, replacing malformed runs.
/// A well-formed byte string decodes to exactly its characters; what malformed
/// runs become is left to the name [`lossy`].
#[verifier::external_body]
pub(crate) fn lossy_text(bytes: &[u8]) -> (text: String)
    ensures
        text@ == lossy(bytes@),
        valid_utf8(bytes@) ==> text@ == decode_utf8(bytes@),
{
    String::from_utf8_lossy(bytes).into_owned()
}

/// The diagnostic that strict UTF-8 decoding gives for a malformed byte string.
pub uninterp spec fn utf8_fault(bytes: Seq<u8>) -> Seq<char>;

/// `std::str::from_utf8`: decodes exactly the well-formed byte strings, and
/// otherwise gives the rendered decoding error, which [`utf8_fault`] names.
#[verifier::external_body]
pub(crate) fn strict_text(bytes: &[u8]) -> (text: Result<String, String>)
    ensures
        match text {
            Ok(text) => valid_utf8(bytes@) && text@ == decode_utf8(bytes@),
            Err(fault) => !valid_utf8(bytes@) && fault@ == utf8_fault(bytes@),
        },
{
    std::str::from_utf8(bytes).map(str::to_owned).map_err(|error| error.to_string())
}

// ---------------------------------------------------------------------------
// Concatenation
// ---------------------------------------------------------------------------

/// The concatenation of two texts.
pub fn glue2(a: &str, b: &str) -> (text: String)
    ensures
        text@ == a@ + b@,
{
    let mut text = a.to_owned();
    text.append(b);
    text
}

/// The concatenation of three texts.
pub fn glue3(a: &str, b: &str, c: &str) -> (text: String)
    ensures
        text@ == a@ + b@ + c@,
{
    let mut text = a.to_owned();
    text.append(b);
    text.append(c);
    text
}

/// The concatenation of four texts.
pub fn glue4(a: &str, b: &str, c: &str, d: &str) -> (text: String)
    ensures
        text@ == a@ + b@ + c@ + d@,
{
    let mut text = a.to_owned();
    text.append(b);
    text.append(c);
    text.append(d);
    text
}

/// The concatenation of five texts.
pub fn glue5(a: &str, b: &str, c: &str, d: &str, e: &str) -> (text: String)
    ensures
        text@ == a@ + b@ + c@ + d@ + e@,
{
    let mut text = a.to_owned();
    text.append(b);
    text.append(c);
    text.append(d);
    text.append(e);
    text
}

/// The concatenation of six texts.
pub fn glue6(a: &str, b: &str, c: &str, d: &str, e: &str, f: &str) -> (text: String)
    ensures
        text@ == a@ + b@ + c@ + d@ + e@ + f@,
{
    let mut text = a.to_owned();
    text.append(b);
    text.append(c);
    text.append(d);
    text.append(e);
    text.append(f);
    text
}

// ---------------------------------------------------------------------------
// Integers
// ---------------------------------------------------------------------------

/// ASCII decimal digits alone.
pub open spec fn all_digits(text: Seq<char>) -> bool {
    forall|i: int| 0 <= i < text.len() ==> '0' <= #[trigger] text[i] <= '9'
}

/// The value of decimal digits, most significant first.
pub open spec fn digits_value(text: Seq<char>) -> nat
    decreases text.len(),
{
    if text.len() == 0 {
        0
    } else {
        10 * digits_value(text.drop_last()) + (text.last() as nat - '0' as nat) as nat
    }
}

/// The number a text spells: an optional plus sign, then digits.
pub open spec fn natural(text: Seq<char>) -> Option<int> {
    let body = if text.len() > 0 && text[0] == '+' {
        text.skip(1)
    } else {
        text
    };
    if body.len() > 0 && all_digits(body) {
        Some(digits_value(body) as int)
    } else {
        None
    }
}

/// The number a text spells: an optional sign, then digits.
pub open spec fn integer(text: Seq<char>) -> Option<int> {
    if text.len() > 0 && text[0] == '-' {
        if text.len() > 1 && all_digits(text.skip(1)) {
            Some(-(digits_value(text.skip(1)) as int))
        } else {
            None
        }
    } else {
        natural(text)
    }
}

/// The diagnostic for a text that is no thirty-two-bit signed integer.
pub uninterp spec fn i32_fault(text: Seq<char>) -> Seq<char>;

/// `str::parse::<i32>`: reads an optional sign followed by digits, within range,
/// and otherwise gives the rendered parsing error, which [`i32_fault`] names.
#[verifier::external_body]
pub(crate) fn parse_i32(text: &str) -> (value: Result<i32, String>)
    ensures
        match value {
            Ok(value) => integer(text@) == Some(value as int),
            Err(fault) => !(integer(text@) matches Some(value) && i32::MIN <= value <= i32::MAX)
                && fault@ == i32_fault(text@),
        },
{
    text.parse::<i32>().map_err(|error| error.to_string())
}

/// The diagnostic for a text that is no thirty-two-bit unsigned integer.
pub uninterp spec fn u32_fault(text: Seq<char>) -> Seq<char>;

/// `str::parse::<u32>`: reads an optional plus sign followed by digits, within
/// range, and otherwise gives the rendered parsing error, which [`u32_fault`]
/// names.
#[verifier::external_body]
pub(crate) fn parse_u32(text: &str) -> (value: Result<u32, String>)
    ensures
        match value {
            Ok(value) => natural(text@) == Some(value as int),
            Err(fault) => !(natural(text@) matches Some(value) && value <= u32::MAX) && fault@
                == u32_fault(text@),
        },
{
    text.parse::<u32>().map_err(|error| error.to_string())
}

// ---------------------------------------------------------------------------
// Tails
// ---------------------------------------------------------------------------

/// Bytes of a character in UTF-8.
pub open spec fn width(c: char) -> nat {
    if (c as u32) < 0x80 {
        1
    } else if (c as u32) < 0x800 {
        2
    } else if (c as u32) < 0x10000 {
        3
    } else {
        4
    }
}

/// Bytes of a text in UTF-8.
pub open spec fn byte_len(text: Seq<char>) -> nat
    decreases text.len(),
{
    if text.len() == 0 {
        0
    } else {
        byte_len(text.drop_last()) + width(text.last())
    }
}

/// Characters whose bytes all lie within the first `budget` bytes.
pub open spec fn fitting(text: Seq<char>, budget: int) -> nat
    decreases text.len(),
{
    if byte_len(text) <= budget || text.len() == 0 {
        text.len()
    } else {
        fitting(text.drop_last(), budget)
    }
}

/// The last `limit` bytes of a text, extended to a whole character.
pub open spec fn tail_of(text: Seq<char>, limit: nat) -> Seq<char> {
    let budget = byte_len(text) - limit;
    if budget <= 0 {
        text
    } else {
        text.skip(fitting(text, budget) as int)
    }
}

fn char_width(c: char) -> (bytes: usize)
    ensures
        bytes == width(c),
{
    let v: u32 = c as u32;
    if v < 0x80 {
        1
    } else if v < 0x800 {
        2
    } else if v < 0x10000 {
        3
    } else {
        4
    }
}

proof fn lemma_byte_len_grows(text: Seq<char>, count: int)
    requires
        0 <= count <= text.len(),
    ensures
        byte_len(text.take(count)) <= byte_len(text),
        count <= byte_len(text.take(count)) <= 4 * count,
    decreases text.len() - count,
{
    lemma_byte_len_bounds(text.take(count));
    if count < text.len() {
        lemma_byte_len_grows(text, count + 1);
        assert(text.take(count + 1).drop_last() =~= text.take(count));
    } else {
        assert(text.take(count) =~= text);
    }
}

proof fn lemma_byte_len_bounds(text: Seq<char>)
    ensures
        text.len() <= byte_len(text) <= 4 * text.len(),
    decreases text.len(),
{
    if text.len() > 0 {
        lemma_byte_len_bounds(text.drop_last());
    }
}

proof fn lemma_fitting(text: Seq<char>, budget: int, count: int)
    requires
        0 <= count <= text.len(),
        0 <= budget,
        byte_len(text.take(count)) <= budget,
        count < text.len() ==> byte_len(text.take(count + 1)) > budget,
    ensures
        fitting(text, budget) == count,
    decreases text.len(),
{
    if count == text.len() {
        assert(text.take(count) =~= text);
    } else {
        lemma_byte_len_grows(text, count + 1);
        let shorter = text.drop_last();
        assert(shorter.take(count) =~= text.take(count));
        if count < shorter.len() {
            assert(shorter.take(count + 1) =~= text.take(count + 1));
        }
        lemma_fitting(shorter, budget, count);
    }
}

/// Copy the last `limit` bytes of a text, extended to a whole character.
pub fn tail_text(text: &str, limit: usize) -> (tail: String)
    ensures
        tail@ == tail_of(text@, limit as nat),
{
    let characters = characters(text);
    let mut total: u128 = 0;
    let mut index: usize = 0;
    assert(text@.take(0) =~= Seq::<char>::empty());
    while index < characters.len()
        invariant
            index <= characters.len(),
            characters@ == text@,
            total == byte_len(text@.take(index as int)),
            total <= 4 * index,
            index <= usize::MAX,
        decreases characters.len() - index,
    {
        assert(text@.take(index + 1).drop_last() =~= text@.take(index as int));
        total += char_width(characters[index]) as u128;
        index += 1;
    }
    assert(text@.take(index as int) =~= text@);
    if total <= limit as u128 {
        return spell_range(&characters, 0, characters.len());
    }
    let budget: u128 = total - limit as u128;
    let mut used: u128 = 0;
    let mut start: usize = 0;
    while start < characters.len()
        invariant
            start <= characters.len(),
            characters@ == text@,
            used == byte_len(text@.take(start as int)),
            used <= 4 * start,
            used <= budget,
        ensures
            start <= characters.len(),
            byte_len(text@.take(start as int)) <= budget,
            start < characters.len() ==> byte_len(text@.take(start + 1)) > budget,
        decreases characters.len() - start,
    {
        assert(text@.take(start + 1).drop_last() =~= text@.take(start as int));
        let step: u128 = char_width(characters[start]) as u128;
        if used + step > budget {
            break;
        }
        used += step;
        start += 1;
    }
    proof {
        lemma_fitting(text@, budget as int, start as int);
    }
    spell_range(&characters, start, characters.len())
}

// ---------------------------------------------------------------------------
// Laws
// ---------------------------------------------------------------------------

proof fn lemma_decimal(value: nat)
    ensures
        decimal(value).len() > 0,
        all_digits(decimal(value)),
        digits_value(decimal(value)) == value,
        value > 0 ==> decimal(value)[0] != '0',
    decreases value,
{
    if value < 10 {
        let numeral = decimal(value);
        assert(numeral =~= seq![digit(value)]);
        assert(numeral.drop_last() =~= Seq::<char>::empty());
        assert(digits_value(numeral.drop_last()) == 0);
        assert(numeral.last() as nat == 48 + value);
    } else {
        let front = decimal(value / 10);
        let last = digit(value % 10);
        let numeral = decimal(value);
        lemma_decimal(value / 10);
        assert(numeral == front.push(last));
        assert(numeral.drop_last() =~= front);
        assert(last as nat == 48 + value % 10);
        assert forall|i: int| 0 <= i < numeral.len() implies '0' <= #[trigger] numeral[i] <= '9' by {
            if i < front.len() {
                assert(numeral[i] == front[i]);
            }
        }
        assert(numeral[0] == front[0]);
    }
}

/// A numeral reads back as the number it was made of, and begins with a zero only for zero
/// itself.
pub proof fn law_numerals_read_back(value: u128, numeral: String, signed: i64, signed_numeral: String)
    requires
        decimal_text.ensures((value,), numeral),
        signed_decimal_text.ensures((signed,), signed_numeral),
    ensures
        natural(numeral@) == Some(value as int),
        integer(signed_numeral@) == Some(signed as int),
        value > 0 ==> numeral@[0] != '0',
        value < 10 ==> numeral@.len() == 1,
{
    lemma_decimal(value as nat);
    assert(numeral@[0] != '+') by {
        assert('0' <= numeral@[0] <= '9');
    }
    if signed < 0 {
        let size = (-signed) as nat;
        lemma_decimal(size);
        assert(signed_numeral@.skip(1) =~= decimal(size));
    } else {
        lemma_decimal(signed as nat);
        assert('0' <= signed_numeral@[0] <= '9');
    }
}

/// Different numbers have different numerals.
pub proof fn law_numerals_tell_numbers_apart(left: nat, right: nat)
    ensures
        decimal(left) == decimal(right) <==> left == right,
{
    lemma_decimal(left);
    lemma_decimal(right);
}

proof fn lemma_trim_start(text: Seq<char>)
    ensures
        exists|space: Seq<char>|
            text == #[trigger] (space + trim_start(text)) && forall|i: int|
                0 <= i < space.len() ==> white_space(#[trigger] space[i]),
        trim_start(text).len() > 0 ==> !white_space(trim_start(text)[0]),
    decreases text.len(),
{
    if text.len() > 0 && white_space(text[0]) {
        let rest = text.skip(1);
        lemma_trim_start(rest);
        let space = choose|space: Seq<char>|
            rest == #[trigger] (space + trim_start(rest)) && forall|i: int|
                0 <= i < space.len() ==> white_space(#[trigger] space[i]);
        let longer = seq![text[0]] + space;
        assert(text =~= seq![text[0]] + rest);
        assert(text =~= longer + trim_start(text));
    } else {
        assert(text =~= Seq::<char>::empty() + trim_start(text));
    }
}

proof fn lemma_trim_end(text: Seq<char>)
    ensures
        exists|space: Seq<char>|
            text == #[trigger] (trim_end(text) + space) && forall|i: int|
                0 <= i < space.len() ==> white_space(#[trigger] space[i]),
        trim_end(text).len() > 0 ==> !white_space(trim_end(text).last()),
        trim_end(text).len() > 0 ==> trim_end(text)[0] == text[0],
    decreases text.len(),
{
    if text.len() > 0 && white_space(text.last()) {
        let rest = text.drop_last();
        lemma_trim_end(rest);
        let space = choose|space: Seq<char>|
            rest == #[trigger] (trim_end(rest) + space) && forall|i: int|
                0 <= i < space.len() ==> white_space(#[trigger] space[i]);
        let longer = space.push(text.last());
        assert(text =~= rest.push(text.last()));
        assert(text =~= trim_end(text) + longer);
    } else {
        assert(text =~= trim_end(text) + Seq::<char>::empty());
    }
}

/// Trimming takes white space from both ends and nothing else.
pub proof fn law_trimming_takes_only_the_space_around(text: &str, trimmed: String)
    requires
        trim_text.ensures((text,), trimmed),
    ensures
        exists|before: Seq<char>, after: Seq<char>|
            text@ == #[trigger] (before + trimmed@ + after) && (forall|i: int|
                0 <= i < before.len() ==> white_space(#[trigger] before[i])) && (forall|i: int|
                0 <= i < after.len() ==> white_space(#[trigger] after[i])),
        trimmed@.len() > 0 ==> !white_space(trimmed@[0]) && !white_space(trimmed@.last()),
        white_space(' ') && white_space('\n') && white_space('\t') && !white_space('a'),
{
    let middle = trim_start(text@);
    lemma_trim_start(text@);
    lemma_trim_end(middle);
    let before = choose|space: Seq<char>|
        text@ == #[trigger] (space + middle) && forall|i: int|
            0 <= i < space.len() ==> white_space(#[trigger] space[i]);
    let after = choose|space: Seq<char>|
        middle == #[trigger] (trim_end(middle) + space) && forall|i: int|
            0 <= i < space.len() ==> white_space(#[trigger] space[i]);
    assert(text@ =~= before + trimmed@ + after);
}

/// A text is cut at every mark: what comes before the first one is the first piece, and the
/// rest is cut in the same way.
pub proof fn law_pieces_lie_between_their_marks<T>(first: Seq<T>, mark: T, rest: Seq<T>)
    requires
        !first.contains(mark),
    ensures
        pieces(first, mark) == seq![first],
        pieces(first.push(mark) + rest, mark) == seq![first] + pieces(rest, mark),
{
    let whole = first.push(mark) + rest;
    let cut = first.len() as int;
    assert forall|i: int| 0 <= i < cut implies whole[i] != mark by {
        assert(whole[i] == first[i]);
        assert(first.contains(first[i]));
    }
    assert(whole[cut] == mark);
    lemma_first_of(whole, mark, cut);
    assert(whole.take(cut) =~= first);
    assert(whole.skip(cut + 1) =~= rest);
    assert forall|i: int| 0 <= i < first.len() implies first[i] != mark by {
        assert(first.contains(first[i]));
    }
    lemma_first_of(first, mark, first.len() as int);
}

/// A line ends at its line feed, without the carriage return before it, and the rest is read
/// in the same way.
pub proof fn law_lines_end_at_their_breaks(line: Seq<char>, rest: Seq<char>)
    requires
        !line.contains('\n'),
    ensures
        line.len() > 0 ==> lines(line) == seq![line],
        lines(Seq::<char>::empty()).len() == 0,
        line.len() == 0 || line.last() != '\r' ==> lines(line.push('\n') + rest) == seq![line]
            + lines(rest),
        lines(line.push('\r').push('\n') + rest) == seq![line] + lines(rest),
{
    let whole = line.push('\n') + rest;
    let cut = line.len() as int;
    assert forall|i: int| 0 <= i < cut implies line[i] != '\n' by {
        assert(line.contains(line[i]));
    }
    assert forall|i: int| 0 <= i < cut implies whole[i] != '\n' by {
        assert(whole[i] == line[i]);
    }
    lemma_first_of(whole, '\n', cut);
    assert(whole.take(cut) =~= line);
    assert(whole.skip(cut + 1) =~= rest);
    lemma_first_of(line, '\n', cut);
    let other = line.push('\r').push('\n') + rest;
    assert forall|i: int| 0 <= i < cut + 1 implies other[i] != '\n' by {
        if i < cut {
            assert(other[i] == line[i]);
        }
    }
    lemma_first_of(other, '\n', cut + 1);
    assert(other.take(cut + 1) =~= line.push('\r'));
    assert(other.skip(cut + 2) =~= rest);
    assert(line.push('\r').drop_last() =~= line);
}

/// The tail of a text is its end, and a text that fits is its own tail.
pub proof fn law_tails_are_ends(text: &str, limit: usize, tail: String)
    requires
        tail_text.ensures((text, limit), tail),
    ensures
        exists|front: Seq<char>| text@ == #[trigger] (front + tail@),
        byte_len(text@) <= limit ==> tail@ == text@,
{
    let budget = byte_len(text@) - limit;
    if budget <= 0 {
        assert(text@ =~= Seq::<char>::empty() + tail@);
    } else {
        let count = fitting(text@, budget) as int;
        lemma_fitting_bound(text@, budget);
        assert(text@ =~= text@.take(count) + tail@);
    }
}

proof fn lemma_fitting_bound(text: Seq<char>, budget: int)
    ensures
        fitting(text, budget) <= text.len(),
    decreases text.len(),
{
    if text.len() > 0 {
        lemma_fitting_bound(text.drop_last(), budget);
    }
}

} // verus!
