//! Host operations handed in by a caller.
use crate::error::{io, ErrorView, Result, Source};
use crate::ospath;
use crate::ospath::parent;
use vstd::prelude::*;

verus! {

/// The content of an outcome that carries nothing.
pub open spec fn told(outcome: Result<()>) -> std::result::Result<(), ErrorView> {
    match outcome {
        Ok(_) => Ok(()),
        Err(error) => Err(error@),
    }
}

/// Whether making something at a path can come to an outcome.
pub open spec fn makes<C: FnOnce(&Vec<u8>) -> std::result::Result<(), Source>>(
    create: C,
    operation: Seq<char>,
    path: Seq<u8>,
    outcome: std::result::Result<(), ErrorView>,
) -> bool {
    exists|place: &Vec<u8>, made: std::result::Result<(), Source>|
        place@ == path && #[trigger] create.ensures((place,), made) && outcome == match made {
            Ok(_) => Ok(()),
            Err(source) => Err::<(), _>(
                ErrorView::Io { operation, path, source: source@ },
            ),
        }
}

/// Whether making the directory of a file can come to an outcome. A path without
/// a parent needs none.
pub open spec fn makes_directory<C: FnOnce(&Vec<u8>) -> std::result::Result<(), Source>>(
    create: C,
    operation: Seq<char>,
    file: Seq<u8>,
    outcome: std::result::Result<(), ErrorView>,
) -> bool {
    match ospath::parent_of(file) {
        None => outcome == Ok::<(), ErrorView>(()),
        Some(directory) => makes(create, operation, directory, outcome),
    }
}

/// Whether something may be made at a path. Of no other path is anything known.
pub open spec fn makeable<C: FnOnce(&Vec<u8>) -> std::result::Result<(), Source>>(
    create: C,
    path: Seq<u8>,
) -> bool {
    forall|place: &Vec<u8>| place@ == path ==> #[trigger] create.requires((place,))
}

/// Whether the directory of a file may be made.
pub open spec fn directory_makeable<C: FnOnce(&Vec<u8>) -> std::result::Result<(), Source>>(
    create: C,
    file: Seq<u8>,
) -> bool {
    ospath::parent_of(file) matches Some(directory) ==> makeable(create, directory)
}

/// Make something at a path.
pub fn make<C: FnOnce(&Vec<u8>) -> std::result::Result<(), Source>>(
    create: C,
    operation: &'static str,
    path: &Vec<u8>,
) -> (outcome: Result<()>)
    requires
        makeable(create, path@),
    ensures
        makes(create, operation@, path@, told(outcome)),
{
    match create(path) {
        Ok(unit) => {
            assert(unit == ());
            Ok(())
        },
        Err(source) => Err(io(operation, path, source)),
    }
}

/// Make the directory of a file.
pub fn make_directory<C: FnOnce(&Vec<u8>) -> std::result::Result<(), Source>>(
    create: C,
    operation: &'static str,
    file: &Vec<u8>,
) -> (outcome: Result<()>)
    requires
        directory_makeable(create, file@),
    ensures
        makes_directory(create, operation@, file@, told(outcome)),
{
    match parent(file.as_slice()) {
        None => Ok(()),
        Some(directory) => make(create, operation, &directory),
    }
}

/// What is made is made at the asked path, and a failure names that path.
pub proof fn law_things_are_made_where_asked<
    C: FnOnce(&Vec<u8>) -> std::result::Result<(), Source>,
>(create: C, operation: &'static str, path: Vec<u8>, outcome: Result<()>)
    requires
        make::<C>.ensures((create, operation, &path), outcome),
    ensures
        outcome is Ok ==> exists|place: &Vec<u8>|
            place@ == path@ && #[trigger] create.ensures((place,), Ok::<(), Source>(())),
        outcome matches Err(error) ==> (error@ matches ErrorView::Io { path: named, .. } && named
            == path@),
{
    if outcome is Ok {
        let (place, made) = choose|place: &Vec<u8>, made: std::result::Result<(), Source>|
            place@ == path@ && #[trigger] create.ensures((place,), made) && made is Ok;
        if let Ok(unit) = made {
            assert(unit == ());
        }
        assert(create.ensures((place,), Ok::<(), Source>(())));
    }
}

} // verus!
