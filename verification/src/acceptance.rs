//! Verdicts of the acceptance programs.
use crate::error::{Error, ErrorView, Result};
use crate::ospath;
use crate::ospath::join_text;
use crate::service::unit::Exit;
use crate::text;
use crate::text::{characters, glue3, glue4, signed_decimal_text, text_bytes};
use vstd::prelude::*;

verus! {

// ---------------------------------------------------------------------------
// Doctor
// ---------------------------------------------------------------------------

/// Whether an application ended well.
pub open spec fn healthy(exit: Exit) -> bool {
    exit.code == 0 && exit.result@ == "success"@
}

/// Judge the host by how a trivial application ended in a universe.
pub fn diagnose(exit: Exit, id: &str) -> (verdict: Result<String>)
    ensures
        match verdict {
            Ok(report) => healthy(exit) && report@
                == "egui-tester host is ready; display, containment, service, and software graphics passed under "@
                + id@,
            Err(error) => !healthy(exit) && error@ == (ErrorView::Command {
                command: "/usr/bin/true"@,
                status: "code "@ + text::signed_decimal(exit.code as int) + ", result "@
                    + exit.result@,
                stderr: exit.stderr@,
            }),
        },
{
    if exit.success() {
        Ok(
            text::glue2(
                "egui-tester host is ready; display, containment, service, and software graphics passed under ",
                id,
            ),
        )
    } else {
        Err(
            Error::Command {
                command: "/usr/bin/true".to_owned(),
                status: glue4(
                    "code ",
                    signed_decimal_text(exit.code as i64).as_str(),
                    ", result ",
                    exit.result.as_str(),
                ),
                stderr: exit.stderr,
            },
        )
    }
}

// ---------------------------------------------------------------------------
// Image board smoke
// ---------------------------------------------------------------------------

/// Demand a command-line argument.
pub fn required(argument: Option<Vec<u8>>, name: &'static str) -> (verdict: Result<Vec<u8>>)
    ensures
        match argument {
            Some(argument) => verdict matches Ok(value) && value@ == argument@,
            None => verdict matches Err(error) && error@ == (ErrorView::Containment {
                layer: "booru acceptance CLI"@,
                detail: "missing "@ + name@
                    + "; usage: booru-acceptance <abv> <booru-root> [artifacts]"@,
            }),
        },
{
    match argument {
        Some(argument) => Ok(argument),
        None => Err(
            Error::Containment {
                layer: "booru acceptance CLI",
                detail: glue3(
                    "missing ",
                    name,
                    "; usage: booru-acceptance <abv> <booru-root> [artifacts]",
                ),
            },
        ),
    }
}

/// Demand a verdict on rendered pixels.
pub fn demand(condition: bool, detail: &str) -> (verdict: Result<()>)
    ensures
        match verdict {
            Ok(_) => condition,
            Err(error) => !condition && error@ == (ErrorView::X11 {
                operation: "adjudicate booru pixels"@,
                detail: detail@,
            }),
        },
{
    if condition {
        Ok(())
    } else {
        Err(Error::X11 { operation: "adjudicate booru pixels", detail: detail.to_owned() })
    }
}

/// A character with ASCII capitals made small.
pub open spec fn small(c: char) -> char {
    if 'A' <= c && c <= 'Z' {
        ((c as u32 + 32) as u32) as char
    } else {
        c
    }
}

/// Whether two texts agree up to ASCII case.
pub open spec fn agree(left: Seq<char>, right: Seq<char>) -> bool {
    left.len() == right.len() && forall|i: int|
        0 <= i < left.len() ==> small(#[trigger] left[i]) == small(right[i])
}

fn make_small(c: char) -> (lower: u32)
    ensures
        lower == small(c) as u32,
{
    if 'A' <= c && c <= 'Z' {
        c as u32 + 32
    } else {
        c as u32
    }
}

/// Whether a state that is text agrees with an expectation up to ASCII case.
pub fn state_is(actual: &Option<String>, expected: &str) -> (verdict: bool)
    ensures
        verdict == match actual {
            Some(actual) => agree(actual@, expected@),
            None => false,
        },
{
    let held = match actual {
        Some(held) => held,
        None => {
            return false;
        },
    };
    let left = characters(held.as_str());
    let right = characters(expected);
    if left.len() != right.len() {
        return false;
    }
    let mut index: usize = 0;
    while index < left.len()
        invariant
            index <= left.len(),
            left.len() == right.len(),
            *actual == Some(*held),
            left@ == held@,
            right@ == expected@,
            forall|i: int| 0 <= i < index ==> small(#[trigger] left@[i]) == small(right@[i]),
        decreases left.len() - index,
    {
        if make_small(left[index]) != make_small(right[index]) {
            assert(small(left@[index as int]) != small(right@[index as int]));
            return false;
        }
        index += 1;
    }
    true
}

/// What to copy into a universe before the viewer starts: from each private path
/// to its fixture.
pub fn seed_demo(checkout: &Vec<u8>) -> (copies: Vec<(Vec<u8>, Vec<u8>)>)
    ensures
        copies@.len() == 2,
        copies@[0].0@ == text::word("xdg/config/adequate_booru_viewer/config.toml"),
        copies@[0].1@ == ospath::joined(
            ospath::joined(checkout@, text::word("demo/wet")),
            text::word("config.toml"),
        ),
        copies@[1].0@ == text::word("xdg/state/adequate_booru_viewer/slate.toml"),
        copies@[1].1@ == ospath::joined(
            ospath::joined(checkout@, text::word("demo/wet")),
            text::word("slate.toml"),
        ),
{
    let demo = join_text(checkout.as_slice(), "demo/wet");
    let mut copies: Vec<(Vec<u8>, Vec<u8>)> = Vec::new();
    copies.push(
        (
            text_bytes("xdg/config/adequate_booru_viewer/config.toml"),
            join_text(demo.as_slice(), "config.toml"),
        ),
    );
    copies.push(
        (
            text_bytes("xdg/state/adequate_booru_viewer/slate.toml"),
            join_text(demo.as_slice(), "slate.toml"),
        ),
    );
    copies
}

/// Whether a persisted slate says that the water is wet.
pub fn slate_is_wet(slate: &Result<String>) -> (verdict: bool)
    ensures
        verdict == match slate {
            Ok(slate) => text::contains_run(slate@, "water = \"wet\""@),
            Err(_) => false,
        },
{
    match slate {
        Ok(slate) => text::contains(slate.as_str(), "water = \"wet\""),
        Err(_) => false,
    }
}

// ---------------------------------------------------------------------------
// Laws
// ---------------------------------------------------------------------------

/// The host is ready exactly when the trivial application ended with code zero and the
/// service agrees; any other end is reported with its code and its error output.
pub proof fn law_hosts_are_judged_by_their_exit(exit: Exit, id: &str, verdict: Result<String>)
    requires
        diagnose.ensures((exit, id), verdict),
    ensures
        verdict is Ok <==> exit.code == 0 && exit.result@ == "success"@,
        verdict matches Err(error) ==> (error@ matches ErrorView::Command { stderr, .. } && stderr
            == exit.stderr@),
{
}

/// Only a failed demand is an error, and it tells what was demanded.
pub proof fn law_demands_fail_when_unmet(
    condition: bool,
    detail: &str,
    verdict: Result<()>,
    argument: Option<Vec<u8>>,
    name: &'static str,
    value: Result<Vec<u8>>,
)
    requires
        demand.ensures((condition, detail), verdict),
        required.ensures((argument, name), value),
    ensures
        verdict is Ok <==> condition,
        verdict matches Err(error) ==> (error@ matches ErrorView::X11 { detail: told, .. } && told
            == detail@),
        value is Ok <==> argument is Some,
        value matches Ok(value) ==> value@ == argument->0@,
{
}

/// States are compared letter by letter, whatever the case of an ASCII letter, and a state
/// that is no text agrees with nothing.
pub proof fn law_states_agree_up_to_case(
    actual: Option<String>,
    expected: &str,
    verdict: bool,
)
    requires
        state_is.ensures((&actual, expected), verdict),
    ensures
        actual is None ==> !verdict,
        actual matches Some(held) ==> (held@ == expected@ ==> verdict),
        actual matches Some(held) ==> (verdict ==> held@.len() == expected@.len() && forall|i: int|
            #![trigger held@[i]]
            0 <= i < held@.len() ==> held@[i] == expected@[i] || ('A' <= held@[i] <= 'Z'
                && expected@[i] as int == held@[i] as int + 32) || ('A' <= expected@[i] <= 'Z'
                && held@[i] as int == expected@[i] as int + 32)),
{
    if let Some(held) = actual {
        if verdict {
            assert forall|i: int| #![trigger held@[i]] 0 <= i < held@.len() implies held@[i]
                == expected@[i] || ('A' <= held@[i] <= 'Z' && expected@[i] as int == held@[i] as int
                + 32) || ('A' <= expected@[i] <= 'Z' && held@[i] as int == expected@[i] as int
                + 32) by {
                assert(small(held@[i]) == small(expected@[i]));
            }
        }
    }
}

/// A slate says that the water is wet exactly where those words stand in it.
pub proof fn law_wet_slates_say_so(slate: Result<String>, verdict: bool)
    requires
        slate_is_wet.ensures((&slate,), verdict),
    ensures
        verdict ==> slate is Ok,
        slate matches Ok(slate) ==> (verdict <==> text::contains_run(
            slate@,
            "water = \"wet\""@,
        )),
{
}

} // verus!
