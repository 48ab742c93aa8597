//! Host tools, and identities made from kernel randomness.
use crate::error::{io, Error, ErrorView, Result, Source, SourceView};
use crate::ospath;
use crate::ospath::join_text;
use crate::text;
use crate::text::{characters, decimal_text, glue3, glue5, push_words, spell, split_bytes, text_bytes, trim_text};
use vstd::prelude::*;

verus! {

// ---------------------------------------------------------------------------
// Tools
// ---------------------------------------------------------------------------

/// Whether asking about a path can be answered so.
pub open spec fn answered<F: Fn(&Vec<u8>) -> bool>(is_file: &F, path: Seq<u8>, verdict: bool) -> bool {
    exists|candidate: &Vec<u8>|
        candidate@ == path && #[trigger] is_file.ensures((candidate,), verdict)
}

/// Whether every path can be asked about.
pub open spec fn askable<F: Fn(&Vec<u8>) -> bool>(is_file: &F) -> bool {
    forall|candidate: &Vec<u8>| #[trigger] is_file.requires((candidate,))
}

/// Where a tool would be in one directory of a search path.
pub open spec fn candidate(path: Seq<u8>, name: Seq<u8>, at: int) -> Seq<u8> {
    ospath::joined(text::pieces(path, 58u8)[at], name)
}

/// Whether the tool is missing from the first directories of a search path.
pub open spec fn missing_before<F: Fn(&Vec<u8>) -> bool>(
    is_file: &F,
    path: Seq<u8>,
    name: Seq<u8>,
    count: int,
) -> bool {
    forall|at: int| 0 <= at < count ==> answered(is_file, #[trigger] candidate(path, name, at), false)
}

/// Whether a directory is the first of a search path to hold the tool.
pub open spec fn found_at<F: Fn(&Vec<u8>) -> bool>(
    is_file: &F,
    path: Seq<u8>,
    name: Seq<u8>,
    at: int,
) -> bool {
    &&& 0 <= at < text::pieces(path, 58u8).len()
    &&& answered(is_file, candidate(path, name, at), true)
    &&& missing_before(is_file, path, name, at)
}

/// Whether a path is the tool's in the first directory that holds it.
pub open spec fn holds<F: Fn(&Vec<u8>) -> bool>(
    is_file: &F,
    path: Seq<u8>,
    name: Seq<u8>,
    tool: Seq<u8>,
) -> bool {
    exists|at: int| #[trigger]
        found_at(is_file, path, name, at) && tool == candidate(path, name, at)
}

/// Whether a search for a tool can end so.
pub open spec fn searched<F: Fn(&Vec<u8>) -> bool>(
    is_file: &F,
    path: Option<Seq<u8>>,
    name: Seq<u8>,
    found: Option<Seq<u8>>,
) -> bool {
    match path {
        None => found is None,
        Some(path) => match found {
            Some(tool) => holds(is_file, path, name, tool),
            None => missing_before(is_file, path, name, text::pieces(path, 58u8).len() as int),
        },
    }
}

/// The content of an optional path.
pub open spec fn told(path: Option<Vec<u8>>) -> Option<Seq<u8>> {
    match path {
        Some(path) => Some(path@),
        None => None,
    }
}

/// Look for a tool in the directories of a search path, in order.
pub fn find_tool<F: Fn(&Vec<u8>) -> bool>(path: &Option<Vec<u8>>, name: &str, is_file: &F) -> (found:
    Option<Vec<u8>>)
    requires
        askable(is_file),
    ensures
        searched(is_file, told(*path), text::word(name), told(found)),
{
    match path {
        None => None,
        Some(list) => {
            let directories = split_bytes(list.as_slice(), 58);
            let ghost all = text::pieces(list@, 58u8);
            assert(text::views(directories@) == all);
            let mut at: usize = 0;
            while at < directories.len()
                invariant
                    at <= directories.len(),
                    askable(is_file),
                    told(*path) == Some(list@),
                    all == text::pieces(list@, 58u8),
                    text::views(directories@) == all,
                    missing_before(is_file, list@, text::word(name), at as int),
                decreases directories.len() - at,
            {
                assert(all[at as int] == directories@[at as int]@);
                let tool = join_text(directories[at].as_slice(), name);
                assert(tool@ == candidate(list@, text::word(name), at as int));
                let held = is_file(&tool);
                assert(answered(is_file, tool@, held));
                if held {
                    assert(found_at(is_file, list@, text::word(name), at as int));
                    let found = Some(tool);
                    assert(told(found) == Some(tool@));
                    assert(holds(is_file, list@, text::word(name), tool@));
                    assert(searched(is_file, Some(list@), text::word(name), Some(tool@)));
                    return found;
                }
                at += 1;
            }
            None
        },
    }
}

/// Demand a tool from the search path.
pub fn require_tool<F: Fn(&Vec<u8>) -> bool>(
    path: &Option<Vec<u8>>,
    name: &'static str,
    is_file: &F,
) -> (verdict: Result<()>)
    requires
        askable(is_file),
    ensures
        match verdict {
            Ok(_) => exists|tool: Seq<u8>| #[trigger]
                searched(is_file, told(*path), text::word(name), Some(tool)),
            Err(error) => searched(is_file, told(*path), text::word(name), None) && error@
                == ErrorView::MissingTool(name@),
        },
{
    match find_tool(path, name, is_file) {
        Some(tool) => {
            assert(searched(is_file, told(*path), text::word(name), Some(tool@)));
            Ok(())
        },
        None => Err(Error::MissingTool(name)),
    }
}

// ---------------------------------------------------------------------------
// Cookies
// ---------------------------------------------------------------------------

/// The value of a hexadecimal digit.
pub open spec fn hex_value(byte: u8) -> Option<u8> {
    if 48 <= byte <= 57 {
        Some((byte - 48) as u8)
    } else if 65 <= byte <= 70 {
        Some((byte - 55) as u8)
    } else if 97 <= byte <= 102 {
        Some((byte - 87) as u8)
    } else {
        None
    }
}

fn read_digit(byte: u8) -> (value: Option<u8>)
    ensures
        value == hex_value(byte),
        value matches Some(value) ==> value < 16,
{
    if 48 <= byte && byte <= 57 {
        Some(byte - 48)
    } else if 65 <= byte && byte <= 70 {
        Some(byte - 55)
    } else if 97 <= byte && byte <= 102 {
        Some(byte - 87)
    } else {
        None
    }
}

/// Whether a character is a hexadecimal digit.
pub open spec fn hex_character(c: char) -> bool {
    ('0' <= c && c <= '9') || ('A' <= c && c <= 'F') || ('a' <= c && c <= 'f')
}

/// A text without the occurrences of a character.
pub open spec fn without(text: Seq<char>, mark: char) -> Seq<char>
    decreases text.len(),
{
    if text.len() == 0 {
        Seq::empty()
    } else if text.last() == mark {
        without(text.drop_last(), mark)
    } else {
        without(text.drop_last(), mark).push(text.last())
    }
}

/// Whether a text is a 128-bit hexadecimal cookie.
pub open spec fn is_cookie(text: Seq<char>) -> bool {
    text.len() == 32 && forall|i: int| 0 <= i < text.len() ==> hex_character(#[trigger] text[i])
}

/// The cookie spelled by a kernel UUID.
pub open spec fn cookie_of(uuid: Seq<char>) -> Seq<char> {
    without(text::trim(uuid), '-')
}

/// What a read of the kernel's UUID yields: a cookie, or why there is none.
pub open spec fn cookie_verdict(uuid: std::result::Result<Seq<char>, SourceView>) -> std::result::Result<
    Seq<char>,
    ErrorView,
> {
    match uuid {
        Err(source) => Err(
            ErrorView::Io {
                operation: "read kernel random UUID"@,
                path: text::word("/proc/sys/kernel/random/uuid"),
                source,
            },
        ),
        Ok(uuid) => if is_cookie(cookie_of(uuid)) {
            Ok(cookie_of(uuid))
        } else {
            Err(
                ErrorView::Containment {
                    layer: "X11 authority"@,
                    detail: "kernel UUID did not yield a 128-bit hexadecimal cookie"@,
                },
            )
        },
    }
}

/// The content of a read.
pub open spec fn heard(read: std::result::Result<String, Source>) -> std::result::Result<
    Seq<char>,
    SourceView,
> {
    match read {
        Ok(text) => Ok(text@),
        Err(source) => Err(source@),
    }
}

/// Make a cookie from the kernel's random UUID.
pub fn random_cookie(uuid: std::result::Result<String, Source>) -> (cookie: Result<String>)
    ensures
        match cookie {
            Ok(cookie) => cookie_verdict(heard(uuid)) == Ok::<Seq<char>, ErrorView>(cookie@),
            Err(error) => cookie_verdict(heard(uuid)) == Err::<Seq<char>, ErrorView>(error@),
        },
{
    let uuid = match uuid {
        Ok(uuid) => uuid,
        Err(source) => {
            return Err(
                io("read kernel random UUID", &text_bytes("/proc/sys/kernel/random/uuid"), source),
            );
        },
    };
    let trimmed = trim_text(uuid.as_str());
    let all = characters(trimmed.as_str());
    let mut kept: Vec<char> = Vec::new();
    let mut hexadecimal: bool = true;
    let mut index: usize = 0;
    assert(all@.take(0) =~= Seq::<char>::empty());
    while index < all.len()
        invariant
            index <= all.len(),
            kept@ == without(all@.take(index as int), '-'),
            hexadecimal == (forall|i: int| 0 <= i < kept@.len() ==> hex_character(#[trigger] kept@[i])),
        decreases all.len() - index,
    {
        let ghost before = kept@;
        assert(all@.take(index + 1).drop_last() =~= all@.take(index as int));
        let c = all[index];
        if c != '-' {
            let digit = ('0' <= c && c <= '9') || ('A' <= c && c <= 'F') || ('a' <= c && c <= 'f');
            kept.push(c);
            assert(kept@[kept@.len() - 1] == c);
            assert(forall|i: int| 0 <= i < before.len() ==> before[i] == #[trigger] kept@[i]);
            proof {
                if !hexadecimal {
                    let bad = choose|i: int|
                        0 <= i < before.len() && !hex_character(#[trigger] before[i]);
                    assert(!hex_character(kept@[bad]));
                }
            }
            hexadecimal = hexadecimal && digit;
        }
        index += 1;
    }
    assert(all@.take(index as int) =~= all@);
    if kept.len() == 32 && hexadecimal {
        Ok(spell(kept.as_slice()))
    } else {
        Err(
            Error::Containment {
                layer: "X11 authority",
                detail: "kernel UUID did not yield a 128-bit hexadecimal cookie".to_owned(),
            },
        )
    }
}

/// The byte that a pair of hexadecimal digits spells; a plus sign may stand in
/// front of a lone digit.
pub open spec fn pair_value(first: u8, second: u8) -> Option<u8> {
    match (hex_value(first), hex_value(second)) {
        (Some(high), Some(low)) => Some((high * 16 + low) as u8),
        (None, Some(low)) => if first == 43 {
            Some(low)
        } else {
            None
        },
        _ => None,
    }
}

/// The byte that a text's pair of digits spells.
pub open spec fn spelled(text: Seq<u8>, at: int) -> Option<u8> {
    pair_value(text[2 * at], text[2 * at + 1])
}

/// The bytes that a text spells pair by pair; an unpaired end is left out.
pub open spec fn unspelled(text: Seq<u8>) -> Option<Seq<u8>> {
    if forall|i: int| 0 <= i < text.len() / 2 ==> #[trigger] spelled(text, i) is Some {
        Some(Seq::new((text.len() / 2) as nat, |i: int| spelled(text, i)->0))
    } else {
        None
    }
}

/// Decode a text of hexadecimal pairs.
pub fn decode_hex(text: &str) -> (bytes: Result<Vec<u8>>)
    ensures
        match bytes {
            Ok(bytes) => unspelled(vstd::utf8::encode_utf8(text@)) == Some(bytes@),
            Err(error) => unspelled(vstd::utf8::encode_utf8(text@)) is None && error@ == (
            ErrorView::Containment {
                layer: "X11 authority"@,
                detail: "generated cookie is not hexadecimal"@,
            }),
        },
{
    let digits = text_bytes(text);
    let mut bytes: Vec<u8> = Vec::new();
    let mut at: usize = 0;
    let count: usize = digits.len() / 2;
    while at < count
        invariant
            at <= count,
            count == digits@.len() / 2,
            digits@ == vstd::utf8::encode_utf8(text@),
            bytes@.len() == at,
            forall|i: int|
                0 <= i < at ==> #[trigger] spelled(digits@, i) == Some(bytes@[i]),
        decreases count - at,
    {
        let first: u8 = digits[2 * at];
        let second: u8 = digits[2 * at + 1];
        let value = match (read_digit(first), read_digit(second)) {
            (Some(high), Some(low)) => {
                assert(high * 16 + low < 256);
                Some(high * 16 + low)
            },
            (None, Some(low)) => if first == 43 {
                Some(low)
            } else {
                None
            },
            _ => None,
        };
        assert(value == spelled(digits@, at as int));
        match value {
            Some(value) => {
                bytes.push(value);
            },
            None => {
                return Err(
                    Error::Containment {
                        layer: "X11 authority",
                        detail: "generated cookie is not hexadecimal".to_owned(),
                    },
                );
            },
        }
        at += 1;
    }
    assert(unspelled(digits@) == Some(bytes@)) by {
        assert(Seq::new((digits@.len() / 2) as nat, |i: int| spelled(digits@, i)->0) =~= bytes@);
    }
    Ok(bytes)
}

/// Every cookie decodes, to sixteen bytes.
pub proof fn law_cookies_decode(cookie: Seq<char>)
    requires
        is_cookie(cookie),
    ensures
        unspelled(vstd::utf8::encode_utf8(cookie)) matches Some(bytes) && bytes.len() == 16,
{
    let digits = vstd::utf8::encode_utf8(cookie);
    assert forall|i: int| 0 <= i < cookie.len() implies (#[trigger] cookie[i]) as u32 <= 127 by {
        assert(hex_character(cookie[i]));
    }
    assert(vstd::utf8::is_ascii_chars(cookie));
    vstd::utf8::is_ascii_chars_encode_utf8(cookie);
    assert forall|i: int| 0 <= i < digits.len() / 2 implies #[trigger] spelled(digits, i) is Some by {
        assert(hex_character(cookie[2 * i]));
        assert(hex_character(cookie[2 * i + 1]));
        assert(digits[2 * i] == cookie[2 * i] as u8);
        assert(digits[2 * i + 1] == cookie[2 * i + 1] as u8);
    }
}

// ---------------------------------------------------------------------------
// Identities
// ---------------------------------------------------------------------------

/// Identity of one universe.
pub open spec fn identity(process: u32, ordinal: u64, nonce: Seq<char>) -> Seq<char> {
    text::decimal(process as nat) + "-"@ + text::decimal(ordinal as nat) + "-"@ + nonce.take(12)
}

/// Name a universe after its process, its ordinal there, and a nonce.
pub fn session_id(process: u32, ordinal: u64, nonce: &str) -> (id: String)
    requires
        is_cookie(nonce@),
    ensures
        id@ == identity(process, ordinal, nonce@),
{
    let all = characters(nonce);
    let head = text::spell_range(&all, 0, 12);
    assert(head@ =~= nonce@.take(12));
    glue5(
        decimal_text(process as u128).as_str(),
        "-",
        decimal_text(ordinal as u128).as_str(),
        "-",
        head.as_str(),
    )
}

/// How the name of a universe's disposable tree begins.
pub fn root_prefix(id: &str) -> (prefix: String)
    ensures
        prefix@ == "egui-tester-"@ + id@ + "-"@,
{
    glue3("egui-tester-", id, "-")
}

/// Directories of a fresh disposable tree.
pub open spec fn layout() -> Seq<Seq<u8>> {
    text::words(
        seq![
            "home",
            "tmp",
            "logs",
            "captures",
            "diagnostics",
            "probes",
            "xdg/config",
            "xdg/cache",
            "xdg/data",
            "xdg/state",
            "xdg/runtime",
        ],
    )
}

/// The directories to create beneath a fresh disposable tree, in order.
pub fn private_directories() -> (directories: Vec<Vec<u8>>)
    ensures
        text::views(directories@) == layout(),
{
    let mut directories: Vec<Vec<u8>> = Vec::new();
    push_words(
        &mut directories,
        &[
            "home",
            "tmp",
            "logs",
            "captures",
            "diagnostics",
            "probes",
            "xdg/config",
            "xdg/cache",
            "xdg/data",
            "xdg/state",
            "xdg/runtime",
        ],
    );
    assert(text::views(directories@) =~= layout());
    directories
}

/// A cookie is thirty-two hexadecimal digits, out of the kernel's own text: every digit of
/// it stands there, and what was left out is a hyphen or the space around.
pub proof fn law_cookies_are_hexadecimal(uuid: String, cookie: String)
    requires
        random_cookie.ensures((Ok(uuid),), Ok(cookie)),
    ensures
        cookie@.len() == 32,
        forall|i: int|
            0 <= i < cookie@.len() ==> ('0' <= #[trigger] cookie@[i] <= '9') || ('a' <= cookie@[i]
                <= 'f') || ('A' <= cookie@[i] <= 'F'),
        !cookie@.contains('-'),
        forall|c: char|
            c != '-' && #[trigger] text::trim(uuid@).contains(c) ==> cookie@.contains(c),
{
    lemma_without(text::trim(uuid@), '-');
}

proof fn lemma_without(text: Seq<char>, mark: char)
    ensures
        !without(text, mark).contains(mark),
        forall|c: char| c != mark && #[trigger] text.contains(c) ==> without(text, mark).contains(c),
    decreases text.len(),
{
    if text.len() > 0 {
        let front = text.drop_last();
        let rest = without(front, mark);
        let whole = without(text, mark);
        lemma_without(front, mark);
        assert forall|c: char| c != mark && #[trigger] text.contains(c) implies whole.contains(
            c,
        ) by {
            let at = choose|at: int| 0 <= at < text.len() && text[at] == c;
            if at < front.len() {
                assert(front[at] == c);
                assert(front.contains(c));
                let to = choose|to: int| 0 <= to < rest.len() && rest[to] == c;
                assert(whole[to] == c);
            } else {
                assert(whole[whole.len() - 1] == c);
            }
        }
        if whole.contains(mark) {
            let at = choose|at: int| 0 <= at < whole.len() && whole[at] == mark;
            if at < rest.len() {
                assert(rest[at] == mark);
                assert(rest.contains(mark));
            }
        }
    }
}

/// Universes are told apart by process, ordinal and nonce, and their trees by their names.
pub proof fn law_universes_are_named_after_their_origin(
    process: u32,
    ordinal: u64,
    nonce: &str,
    id: String,
    name: &str,
    prefix: String,
)
    requires
        is_cookie(nonce@),
        session_id.ensures((process, ordinal, nonce), id),
        root_prefix.ensures((name,), prefix),
    ensures
        id@ == text::decimal(process as nat) + "-"@ + text::decimal(ordinal as nat) + "-"@
            + nonce@.subrange(0, 12),
        prefix@ == "egui-tester-"@ + name@ + "-"@,
{
    assert(nonce@.take(12) =~= nonce@.subrange(0, 12));
}

/// A tool is taken from the first directory of the search path that holds it, and is missing
/// only where none does.
pub proof fn law_tools_are_found_first_on_the_path<F: Fn(&Vec<u8>) -> bool>(
    path: Option<Vec<u8>>,
    name: &str,
    is_file: &F,
    found: Option<Vec<u8>>,
)
    requires
        find_tool::<F>.ensures((&path, name, is_file), found),
    ensures
        path is None ==> found is None,
        found matches Some(tool) ==> (path matches Some(list) && exists|at: int|
            0 <= at < text::pieces(list@, 58u8).len() && tool@ == ospath::joined(
                #[trigger] text::pieces(list@, 58u8)[at],
                text::word(name),
            ) && answered(is_file, tool@, true) && forall|earlier: int|
                0 <= earlier < at ==> answered(
                    is_file,
                    ospath::joined(
                        #[trigger] text::pieces(list@, 58u8)[earlier],
                        text::word(name),
                    ),
                    false,
                )),
        found is None ==> (path matches Some(list) ==> forall|at: int|
            0 <= at < text::pieces(list@, 58u8).len() ==> answered(
                is_file,
                ospath::joined(#[trigger] text::pieces(list@, 58u8)[at], text::word(name)),
                false,
            )),
{
    if let Some(list) = path {
        let name = text::word(name);
        let all = text::pieces(list@, 58u8);
        if let Some(tool) = found {
            let at = choose|at: int| #[trigger]
                found_at(is_file, list@, name, at) && tool@ == candidate(list@, name, at);
            assert(tool@ == ospath::joined(all[at], name));
            assert forall|earlier: int| 0 <= earlier < at implies answered(
                is_file,
                ospath::joined(#[trigger] all[earlier], name),
                false,
            ) by {
                assert(answered(is_file, candidate(list@, name, earlier), false));
            }
        } else {
            assert forall|at: int| 0 <= at < all.len() implies answered(
                is_file,
                ospath::joined(#[trigger] all[at], name),
                false,
            ) by {
                assert(answered(is_file, candidate(list@, name, at), false));
            }
        }
    }
}

} // verus!
