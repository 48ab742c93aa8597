//! Where the pointer stands to a window.
use crate::error::{Error, ErrorView, Result};
use vstd::prelude::*;

verus! {

/// A place on the screen.
pub type Place = (i16, i16);

/// Extents of a window or of the screen, in pixels.
#[derive(Clone, Copy, Debug, PartialEq, Eq, Structural)]
pub struct Extent {
    pub width: u16,
    pub height: u16,
}

/// A coordinate brought into the protocol's range.
pub open spec fn saturated(value: int) -> int {
    if value > i16::MAX {
        i16::MAX as int
    } else if value < i16::MIN {
        i16::MIN as int
    } else {
        value
    }
}

fn saturate(value: i32) -> (held: i16)
    ensures
        held == saturated(value as int),
{
    if value > 32767 {
        32767
    } else if value < -32768 {
        -32768
    } else {
        value as i16
    }
}

/// The screen place of a window-relative place.
pub fn screen_place(origin: Place, x: i16, y: i16) -> (place: Place)
    ensures
        place.0 == saturated(origin.0 + x),
        place.1 == saturated(origin.1 + y),
{
    (saturate(origin.0 as i32 + x as i32), saturate(origin.1 as i32 + y as i32))
}

/// Whether a window-relative pointer lies outside the window.
pub open spec fn outside(pointer: Place, extent: Extent) -> bool {
    pointer.0 < 0 || pointer.1 < 0 || pointer.0 >= extent.width || pointer.1 >= extent.height
}

/// Decide whether a window-relative pointer lies outside the window.
pub fn pointer_is_outside(pointer: Place, extent: Extent) -> (verdict: bool)
    ensures
        verdict == outside(pointer, extent),
{
    pointer.0 < 0 || pointer.1 < 0 || pointer.0 as i32 >= extent.width as i32 || pointer.1 as i32
        >= extent.height as i32
}

/// The last addressable coordinate of a screen extent.
pub open spec fn last_of(extent: u16) -> int {
    if extent == 0 {
        0
    } else if extent - 1 > i16::MAX {
        i16::MAX as int
    } else {
        extent - 1
    }
}

fn last_coordinate(extent: u16) -> (last: i16)
    ensures
        last == last_of(extent),
{
    if extent == 0 {
        0
    } else if extent - 1 > 32767 {
        32767
    } else {
        (extent - 1) as i16
    }
}

/// The corners of the screen.
pub open spec fn corners(screen: Extent) -> Seq<Place> {
    let right = last_of(screen.width) as i16;
    let bottom = last_of(screen.height) as i16;
    seq![(0i16, 0i16), (right, 0i16), (0i16, bottom), (right, bottom)]
}

/// Whether a screen place lies outside a window at `origin`.
pub open spec fn beyond(place: Place, origin: Place, extent: Extent) -> bool {
    place.0 < origin.0 || place.0 >= origin.0 + extent.width || place.1 < origin.1 || place.1
        >= origin.1 + extent.height
}

/// The corners of the screen that lie outside a window.
pub open spec fn free_corners(origin: Place, extent: Extent, screen: Extent) -> Seq<Place> {
    corners(screen).filter(|place: Place| beyond(place, origin, extent))
}

/// Squared distance of a place from the middle of a window.
pub open spec fn remoteness(place: Place, origin: Place, extent: Extent) -> int {
    let across = place.0 - (origin.0 + extent.width / 2);
    let down = place.1 - (origin.1 + extent.height / 2);
    across * across + down * down
}

/// Whether places are ordered from the most remote to the nearest.
pub open spec fn receding(places: Seq<Place>, origin: Place, extent: Extent) -> bool {
    forall|i: int, j: int|
        0 <= i <= j < places.len() ==> remoteness(#[trigger] places[i], origin, extent)
            >= remoteness(#[trigger] places[j], origin, extent)
}

fn is_beyond(place: Place, origin: Place, extent: Extent) -> (verdict: bool)
    ensures
        verdict == beyond(place, origin, extent),
{
    let x: i32 = place.0 as i32;
    let y: i32 = place.1 as i32;
    let left: i32 = origin.0 as i32;
    let top: i32 = origin.1 as i32;
    x < left || x >= left + extent.width as i32 || y < top || y >= top + extent.height as i32
}

fn measure(place: Place, origin: Place, extent: Extent) -> (remote: i64)
    ensures
        remote == remoteness(place, origin, extent),
{
    let across: i64 = place.0 as i64 - (origin.0 as i64 + (extent.width / 2) as i64);
    let down: i64 = place.1 as i64 - (origin.1 as i64 + (extent.height / 2) as i64);
    assert(0 <= across * across <= 100_000_000_000 && 0 <= down * down <= 100_000_000_000)
        by (nonlinear_arith)
        requires
            -100_000 <= across <= 100_000,
            -100_000 <= down <= 100_000,
    ;
    across * across + down * down
}

/// Insert a place before the first one that is nearer.
fn insert_receding(places: &mut Vec<Place>, place: Place, origin: Place, extent: Extent)
    requires
        receding(old(places)@, origin, extent),
    ensures
        receding(final(places)@, origin, extent),
        final(places)@.to_multiset() == old(places)@.to_multiset().insert(place),
        final(places)@.len() == old(places)@.len() + 1,
{
    let remote: i64 = measure(place, origin, extent);
    let mut index: usize = 0;
    while index < places.len() && measure(places[index], origin, extent) >= remote
        invariant
            index <= places.len(),
            places@ == old(places)@,
            remote == remoteness(place, origin, extent),
            forall|i: int|
                0 <= i < index ==> remoteness(#[trigger] places@[i], origin, extent) >= remote,
        decreases places.len() - index,
    {
        index = index + 1;
    }
    let ghost before = places@;
    places.insert(index, place);
    proof {
        before.to_multiset_ensures();
        assert(places@ == before.insert(index as int, place));
        vstd::seq_lib::to_multiset_insert(before, index as int, place);
        assert forall|i: int, j: int| 0 <= i <= j < places@.len() implies remoteness(
            #[trigger] places@[i],
            origin,
            extent,
        ) >= remoteness(#[trigger] places@[j], origin, extent) by {
            let earlier = if i < index {
                i
            } else {
                i - 1
            };
            let later = if j < index {
                j
            } else {
                j - 1
            };
            if i != index {
                assert(places@[i] == before[earlier]);
            }
            if j != index {
                assert(places@[j] == before[later]);
            }
        }
    }
}

/// Screen corners to which the pointer can be moved to leave a window, the most
/// remote first. Corners at one distance come in any order.
pub fn exterior_candidates(origin: Place, extent: Extent, screen: Extent) -> (found: Result<
    Vec<Place>,
>)
    ensures
        match found {
            Ok(found) => found@.len() > 0 && found@.to_multiset() == free_corners(
                origin,
                extent,
                screen,
            ).to_multiset() && receding(found@, origin, extent) && forall|i: int|
                0 <= i < found@.len() ==> beyond(#[trigger] found@[i], origin, extent),
            Err(error) => free_corners(origin, extent, screen).len() == 0 && error@ == (
            ErrorView::X11 {
                operation: "move pointer outside window"@,
                detail: "client window covers every addressable screen corner"@,
            }),
        },
{
    let right: i16 = last_coordinate(screen.width);
    let bottom: i16 = last_coordinate(screen.height);
    let places: [Place; 4] = [(0i16, 0i16), (right, 0i16), (0i16, bottom), (right, bottom)];
    let ghost all = corners(screen);
    let ghost free = |place: Place| beyond(place, origin, extent);
    assert(places@ =~= all);
    let mut found: Vec<Place> = Vec::new();
    let mut index: usize = 0;
    proof {
        reveal(Seq::filter);
        assert(all.take(0).filter(free) =~= Seq::<Place>::empty());
    }
    while index < 4
        invariant
            index <= 4,
            places@ == all,
            all == corners(screen),
            all.len() == 4,
            free == (|place: Place| beyond(place, origin, extent)),
            receding(found@, origin, extent),
            found@.to_multiset() == all.take(index as int).filter(free).to_multiset(),
            found@.len() == all.take(index as int).filter(free).len(),
        decreases 4 - index,
    {
        let place: Place = places[index];
        proof {
            reveal(Seq::filter);
            assert(all.take(index + 1).drop_last() =~= all.take(index as int));
            all.take(index as int).filter(free).to_multiset_ensures();
        }
        if is_beyond(place, origin, extent) {
            insert_receding(&mut found, place, origin, extent);
        }
        index = index + 1;
    }
    assert(all.take(4) =~= all);
    if found.len() == 0 {
        return Err(
            Error::X11 {
                operation: "move pointer outside window",
                detail: "client window covers every addressable screen corner".to_owned(),
            },
        );
    }
    proof {
        broadcast use vstd::seq_lib::group_filter_ensures;

        let chosen = all.filter(free);
        assert(found@.to_multiset() == chosen.to_multiset());
        found@.to_multiset_ensures();
        chosen.to_multiset_ensures();
        assert forall|i: int| 0 <= i < found@.len() implies beyond(
            #[trigger] found@[i],
            origin,
            extent,
        ) by {
            assert(found@.contains(found@[i]));
            assert(found@.to_multiset().count(found@[i]) > 0);
            assert(chosen.contains(found@[i]));
            let at = choose|at: int| 0 <= at < chosen.len() && chosen[at] == found@[i];
            assert(free(chosen[at]));
        }
    }
    Ok(found)
}

/// A window-relative place lies on the screen that far from the window's corner, as long as
/// the screen reaches so far, and otherwise at the end of the screen.
pub proof fn law_places_are_carried_by_their_window(origin: Place, x: i16, y: i16, place: Place)
    requires
        screen_place.ensures((origin, x, y), place),
    ensures
        -32768 <= origin.0 + x <= 32767 ==> place.0 == origin.0 + x,
        -32768 <= origin.1 + y <= 32767 ==> place.1 == origin.1 + y,
        origin.0 + x > 32767 ==> place.0 == 32767,
        origin.0 + x < -32768 ==> place.0 == -32768,
        origin.1 + y > 32767 ==> place.1 == 32767,
        origin.1 + y < -32768 ==> place.1 == -32768,
{
}

/// A pointer is inside a window exactly when it is over one of its pixels.
pub proof fn law_pointers_are_inside_over_a_pixel(pointer: Place, extent: Extent, verdict: bool)
    requires
        pointer_is_outside.ensures((pointer, extent), verdict),
    ensures
        !verdict <==> 0 <= pointer.0 < extent.width && 0 <= pointer.1 < extent.height,
{
}

/// The places that leave a window are corners of the screen over none of its pixels, no
/// such corner is missing, and none precedes one that is farther from the window's middle.
pub proof fn law_exits_are_free_corners(
    origin: Place,
    extent: Extent,
    screen: Extent,
    found: Vec<Place>,
    place: Place,
)
    requires
        exterior_candidates.ensures((origin, extent, screen), Ok(found)),
        0 < screen.width <= 32768,
        0 < screen.height <= 32768,
    ensures
        found@.contains(place) <==> (place.0 == 0 || place.0 == screen.width - 1) && (place.1 == 0
            || place.1 == screen.height - 1) && !(origin.0 <= place.0 < origin.0 + extent.width
            && origin.1 <= place.1 < origin.1 + extent.height),
        forall|i: int, j: int|
            0 <= i <= j < found@.len() ==> remoteness(#[trigger] found@[i], origin, extent)
                >= remoteness(#[trigger] found@[j], origin, extent),
        remoteness(place, origin, extent) == (place.0 - origin.0 - extent.width / 2) * (place.0
            - origin.0 - extent.width / 2) + (place.1 - origin.1 - extent.height / 2) * (place.1
            - origin.1 - extent.height / 2),
{
    broadcast use vstd::seq_lib::group_filter_ensures;

    let all = corners(screen);
    let free = |place: Place| beyond(place, origin, extent);
    let chosen = all.filter(free);
    assert(chosen == free_corners(origin, extent, screen));
    found@.to_multiset_ensures();
    chosen.to_multiset_ensures();
    assert(found@.contains(place) <==> found@.to_multiset().count(place) > 0);
    assert(chosen.contains(place) <==> chosen.to_multiset().count(place) > 0);
    if chosen.contains(place) {
        let at = choose|at: int| 0 <= at < chosen.len() && chosen[at] == place;
        all.lemma_filter_contains_rev(free, place);
        assert(free(chosen[at]));
    }
    assert(all[0] == (0i16, 0i16) && all[1].1 == 0i16 && all[2].0 == 0i16);
    if all.contains(place) && free(place) {
        let at = choose|at: int| 0 <= at < all.len() && all[at] == place;
        assert(chosen.contains(all[at]));
    }
    if (place.0 == 0 || place.0 == screen.width - 1) && (place.1 == 0 || place.1 == screen.height
        - 1) {
        if place.0 == 0 && place.1 == 0 {
            assert(all[0] == place);
        } else if place.1 == 0 {
            assert(all[1] == place);
        } else if place.0 == 0 {
            assert(all[2] == place);
        } else {
            assert(all[3] == place);
        }
    }
    let across = place.0 - (origin.0 + extent.width / 2);
    let down = place.1 - (origin.1 + extent.height / 2);
    assert(across == place.0 - origin.0 - extent.width / 2);
    assert(down == place.1 - origin.1 - extent.height / 2);
}

} // verus!
