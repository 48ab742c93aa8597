//! Host graphics devices that an application may be granted.
use crate::error::{io, Error, ErrorView, Result, Source};
use crate::ospath;
use crate::ospath::{parent, sort_unique, starts_with};
use crate::text;
use crate::text::{bytes_equal, copy_bytes, push_bytes, text_bytes};
use vstd::prelude::*;
use vstd::utf8::*;

verus! {

/// ASCII decimal digits alone, at least one.
pub open spec fn slot(name: Seq<u8>) -> bool {
    name.len() > 0 && forall|i: int| 0 <= i < name.len() ==> 48 <= #[trigger] name[i] <= 57
}

/// A control node of the NVIDIA driver.
pub open spec fn control_node(name: Seq<u8>) -> bool {
    ||| name == text::word("nvidiactl")
    ||| name == text::word("nvidia-modeset")
    ||| name == text::word("nvidia-uvm")
    ||| name == text::word("nvidia-uvm-tools")
}

/// A device of the NVIDIA driver: its control nodes, or a numbered card.
pub open spec fn is_nvidia(name: Seq<u8>) -> bool {
    ||| control_node(name)
    ||| text::begins_with(name, text::word("nvidia")) && slot(
        name.skip(text::word("nvidia").len() as int),
    )
}

/// Decide whether a device name belongs to the NVIDIA driver.
pub fn nvidia_device(name: &[u8]) -> (verdict: bool)
    ensures
        verdict == is_nvidia(name@),
{
    if bytes_equal(name, "nvidiactl".as_bytes()) || bytes_equal(name, "nvidia-modeset".as_bytes())
        || bytes_equal(name, "nvidia-uvm".as_bytes()) || bytes_equal(
        name,
        "nvidia-uvm-tools".as_bytes(),
    ) {
        return true;
    }
    let prefix = "nvidia".as_bytes();
    if name.len() <= prefix.len() {
        return false;
    }
    let mut index: usize = 0;
    while index < prefix.len()
        invariant
            index <= prefix.len() < name.len(),
            prefix@ == text::word("nvidia"),
            !control_node(name@),
            forall|i: int| 0 <= i < index ==> #[trigger] name@[0 + i] == prefix@[i],
        decreases prefix.len() - index,
    {
        if name[index] != prefix[index] {
            assert(name@[0 + index as int] != prefix@[index as int]);
            return false;
        }
        index += 1;
    }
    let ghost rest = name@.skip(prefix@.len() as int);
    while index < name.len()
        invariant
            prefix@.len() <= index <= name.len(),
            prefix@ == text::word("nvidia"),
            !control_node(name@),
            rest == name@.skip(prefix@.len() as int),
            forall|i: int| 0 <= i < index - prefix@.len() ==> 48 <= #[trigger] rest[i] <= 57,
        decreases name.len() - index,
    {
        assert(rest[index - prefix@.len()] == name@[index as int]);
        if name[index] < 48 || name[index] > 57 {
            assert(!slot(rest));
            return false;
        }
        index += 1;
    }
    true
}

/// One entry of a device directory: its path, its name, and whether it is a
/// character device, unless that could not be learned.
#[derive(Debug)]
pub struct DeviceEntry {
    pub path: Vec<u8>,
    pub name: Vec<u8>,
    pub character: std::result::Result<bool, Source>,
}

/// An entry worth inspecting: everything in a graphics directory, and the
/// compute and NVIDIA nodes of `/dev` itself.
pub open spec fn candidate(entry: DeviceEntry, graphics_directory: bool) -> bool {
    graphics_directory || entry.name@ == text::word("kfd") || is_nvidia(entry.name@)
}

/// The entries of a device directory, each unless it could not be enumerated.
pub type Listing = Vec<std::result::Result<DeviceEntry, Source>>;

/// The character devices among the candidates of a directory, from `from` on, or
/// the failure of the first entry that could not be enumerated or inspected.
pub open spec fn granted(
    directory: Seq<u8>,
    entries: Seq<std::result::Result<DeviceEntry, Source>>,
    graphics_directory: bool,
    from: int,
) -> std::result::Result<Seq<Seq<u8>>, ErrorView>
    decreases entries.len() - from,
{
    if from >= entries.len() {
        Ok(Seq::empty())
    } else {
        match entries[from] {
            Err(source) => Err(
                ErrorView::Io {
                    operation: "enumerate graphics devices"@,
                    path: directory,
                    source: source@,
                },
            ),
            Ok(entry) => if !candidate(entry, graphics_directory) {
                granted(directory, entries, graphics_directory, from + 1)
            } else {
                match entry.character {
                    Err(source) => Err(
                        ErrorView::Io {
                            operation: "inspect graphics device"@,
                            path: entry.path@,
                            source: source@,
                        },
                    ),
                    Ok(character) => match granted(
                        directory,
                        entries,
                        graphics_directory,
                        from + 1,
                    ) {
                        Ok(rest) => Ok(
                            if character {
                                seq![entry.path@] + rest
                            } else {
                                rest
                            },
                        ),
                        Err(error) => Err(error),
                    },
                }
            },
        }
    }
}

/// What a directory contributes. A graphics directory that cannot be read
/// contributes nothing; `/dev` must be readable.
pub open spec fn portion(
    directory: Seq<u8>,
    listing: std::result::Result<Listing, Source>,
    graphics_directory: bool,
) -> std::result::Result<Seq<Seq<u8>>, ErrorView> {
    match listing {
        Ok(entries) => granted(directory, entries@, graphics_directory, 0),
        Err(source) => if graphics_directory {
            Ok(Seq::empty())
        } else {
            Err(
                ErrorView::Io {
                    operation: "enumerate graphics devices"@,
                    path: directory,
                    source: source@,
                },
            )
        },
    }
}

fn copied(source: &Source) -> (copy: Source)
    ensures
        copy@ == source@,
{
    Source { kind: source.kind, text: source.text.clone() }
}

fn gather(
    directory: &Vec<u8>,
    listing: std::result::Result<Listing, Source>,
    graphics_directory: bool,
) -> (devices: Result<Vec<Vec<u8>>>)
    ensures
        match devices {
            Ok(devices) => portion(directory@, listing, graphics_directory) == Ok::<_, ErrorView>(
                text::views(devices@),
            ),
            Err(error) => portion(directory@, listing, graphics_directory) == Err::<
                Seq<Seq<u8>>,
                _,
            >(error@),
        },
{
    let mut devices: Vec<Vec<u8>> = Vec::new();
    assert(text::views(devices@) =~= Seq::<Seq<u8>>::empty());
    let entries = match listing {
        Ok(entries) => entries,
        Err(source) => {
            if graphics_directory {
                return Ok(devices);
            }
            return Err(io("enumerate graphics devices", directory, source));
        },
    };
    let ghost all = entries@;
    let mut index: usize = 0;
    while index < entries.len()
        invariant
            index <= entries.len(),
            entries@ == all,
            portion(directory@, listing, graphics_directory) == granted(
                directory@,
                all,
                graphics_directory,
                0,
            ),
            match granted(directory@, all, graphics_directory, index as int) {
                Ok(rest) => granted(directory@, all, graphics_directory, 0) == Ok::<_, ErrorView>(
                    text::views(devices@) + rest,
                ),
                Err(error) => granted(directory@, all, graphics_directory, 0) == Err::<
                    Seq<Seq<u8>>,
                    _,
                >(error),
            },
        decreases entries.len() - index,
    {
        let ghost before = text::views(devices@);
        let entry = match &entries[index] {
            Ok(entry) => entry,
            Err(source) => {
                return Err(io("enumerate graphics devices", directory, copied(source)));
            },
        };
        if graphics_directory || bytes_equal(entry.name.as_slice(), "kfd".as_bytes())
            || nvidia_device(entry.name.as_slice()) {
            match &entry.character {
                Err(source) => {
                    return Err(io("inspect graphics device", &entry.path, copied(source)));
                },
                Ok(character) => {
                    if *character {
                        push_bytes(&mut devices, entry.path.as_slice());
                        proof {
                            match granted(directory@, all, graphics_directory, index + 1) {
                                Ok(rest) => {
                                    assert(text::views(devices@) + rest =~= before + (
                                    seq![entry.path@] + rest));
                                },
                                Err(_) => {},
                            }
                        }
                    }
                },
            }
        }
        index += 1;
    }
    assert(text::views(devices@) + Seq::<Seq<u8>>::empty() =~= text::views(devices@));
    Ok(devices)
}

/// Whether listing a directory can come to an outcome.
pub open spec fn lists<L: Fn(&Vec<u8>) -> std::result::Result<Listing, Source>>(
    list: &L,
    directory: Seq<u8>,
    outcome: std::result::Result<Listing, Source>,
) -> bool {
    exists|place: &Vec<u8>| place@ == directory && #[trigger] list.ensures((place,), outcome)
}

/// What the host answers while its graphics devices are enumerated.
pub struct Survey {
    pub dri: std::result::Result<Listing, Source>,
    pub caps: std::result::Result<Listing, Source>,
    pub dev: std::result::Result<Listing, Source>,
}

impl Survey {
    /// What the direct rendering nodes contribute.
    pub open spec fn first(self) -> std::result::Result<Seq<Seq<u8>>, ErrorView> {
        portion(text::word("/dev/dri"), self.dri, true)
    }

    /// What the NVIDIA capability nodes contribute.
    pub open spec fn second(self) -> std::result::Result<Seq<Seq<u8>>, ErrorView> {
        portion(text::word("/dev/nvidia-caps"), self.caps, true)
    }

    /// What `/dev` itself contributes.
    pub open spec fn third(self) -> std::result::Result<Seq<Seq<u8>>, ErrorView> {
        portion(text::word("/dev"), self.dev, false)
    }

    /// Whether the host can answer so. It is asked nothing after a failure.
    pub open spec fn told<L: Fn(&Vec<u8>) -> std::result::Result<Listing, Source>>(
        self,
        list: &L,
    ) -> bool {
        &&& lists(list, text::word("/dev/dri"), self.dri)
        &&& self.first() is Ok ==> {
            &&& lists(list, text::word("/dev/nvidia-caps"), self.caps)
            &&& self.second() is Ok ==> lists(list, text::word("/dev"), self.dev)
        }
    }

    /// The granted devices in the order of their discovery, or why there are none.
    pub open spec fn gathered(self) -> std::result::Result<Seq<Seq<u8>>, ErrorView> {
        match (self.first(), self.second(), self.third()) {
            (Err(error), _, _) => Err(error),
            (_, Err(error), _) => Err(error),
            (_, _, Err(error)) => Err(error),
            (Ok(first), Ok(second), Ok(third)) => if first.len() + second.len() + third.len()
                == 0 {
                Err(
                    ErrorView::Unsupported {
                        capability: "host graphics"@,
                        detail: "no DRM, KFD, or NVIDIA graphics devices are accessible"@,
                    },
                )
            } else {
                Ok(first + second + third)
            },
        }
    }
}

/// Grant the character devices of the graphics directories and the compute and
/// NVIDIA nodes of `/dev`, sorted and without repetition.
pub fn host_graphics_devices<L: Fn(&Vec<u8>) -> std::result::Result<Listing, Source>>(list: &L) -> (
devices: Result<Vec<Vec<u8>>>)
    requires
        forall|directory: &Vec<u8>| #[trigger] list.requires((directory,)),
    ensures
        exists|survey: Survey| #[trigger]
            survey.told(list) && match devices {
                Ok(devices) => survey.gathered() matches Ok(found) && ospath::distils(
                    text::views(devices@),
                    found,
                ),
                Err(error) => survey.gathered() == Err::<Seq<Seq<u8>>, _>(error@),
            },
{
    let ghost mut survey = Survey { dri: arbitrary(), caps: arbitrary(), dev: arbitrary() };
    let directory = text_bytes("/dev/dri");
    let listing = list(&directory);
    assert(lists(list, text::word("/dev/dri"), listing));
    proof {
        survey.dri = listing;
    }
    let mut found = match gather(&directory, listing, true) {
        Ok(found) => found,
        Err(error) => {
            assert(survey.told(list));
            return Err(error);
        },
    };
    let directory = text_bytes("/dev/nvidia-caps");
    let listing = list(&directory);
    assert(lists(list, text::word("/dev/nvidia-caps"), listing));
    proof {
        survey.caps = listing;
    }
    let second = match gather(&directory, listing, true) {
        Ok(second) => second,
        Err(error) => {
            assert(survey.told(list));
            return Err(error);
        },
    };
    let directory = text_bytes("/dev");
    let listing = list(&directory);
    assert(lists(list, text::word("/dev"), listing));
    proof {
        survey.dev = listing;
    }
    assert(survey.told(list));
    let third = match gather(&directory, listing, false) {
        Ok(third) => third,
        Err(error) => {
            return Err(error);
        },
    };
    text::push_all(&mut found, &second);
    text::push_all(&mut found, &third);
    assert(text::views(found@).len() == found@.len());
    if found.len() == 0 {
        return Err(
            Error::Unsupported {
                capability: "host graphics",
                detail: "no DRM, KFD, or NVIDIA graphics devices are accessible".to_owned(),
            },
        );
    }
    assert(survey.gathered() == Ok::<_, ErrorView>(text::views(found@)));
    Ok(sort_unique(&found))
}

/// A path that is `/dev` itself.
pub open spec fn is_dev(path: Seq<u8>) -> bool {
    ospath::components(path) == ospath::components(text::word("/dev"))
}

/// The directories other than `/dev` that hold devices, from `from` on.
pub open spec fn foreign_parents(devices: Seq<Seq<u8>>, from: int) -> Seq<Seq<u8>>
    decreases devices.len() - from,
{
    if from >= devices.len() {
        Seq::empty()
    } else {
        match ospath::parent_of(devices[from]) {
            Some(directory) => if is_dev(directory) {
                foreign_parents(devices, from + 1)
            } else {
                seq![directory] + foreign_parents(devices, from + 1)
            },
            None => foreign_parents(devices, from + 1),
        }
    }
}

fn same_steps(left: &[u8], right: &[u8]) -> (same: bool)
    ensures
        same == (ospath::components(left@) == ospath::components(right@)),
{
    let forward: bool = starts_with(left, right);
    let backward: bool = starts_with(right, left);
    proof {
        if forward && backward {
            assert(ospath::components(left@) =~= ospath::components(right@));
        }
    }
    forward && backward
}

/// The directories to create before devices can be bound into them.
pub fn device_parents(devices: &Vec<Vec<u8>>) -> (parents: Vec<Vec<u8>>)
    ensures
        ospath::distils(text::views(parents@), foreign_parents(text::views(devices@), 0)),
{
    let ghost all = text::views(devices@);
    let mut found: Vec<Vec<u8>> = Vec::new();
    let dev = text_bytes("/dev");
    let mut index: usize = 0;
    assert(text::views(found@) + foreign_parents(all, 0) =~= foreign_parents(all, 0));
    while index < devices.len()
        invariant
            index <= devices.len(),
            all == text::views(devices@),
            dev@ == text::word("/dev"),
            text::views(found@) + foreign_parents(all, index as int) == foreign_parents(all, 0),
        decreases devices.len() - index,
    {
        let ghost before = text::views(found@);
        assert(all[index as int] == devices@[index as int]@);
        match parent(devices[index].as_slice()) {
            Some(directory) => {
                if !same_steps(directory.as_slice(), dev.as_slice()) {
                    push_bytes(&mut found, directory.as_slice());
                    assert(text::views(found@) + foreign_parents(all, index + 1) =~= before
                        + foreign_parents(all, index as int));
                }
            },
            None => {},
        }
        index += 1;
    }
    assert(text::views(found@) =~= foreign_parents(all, 0));
    sort_unique(&found)
}

/// A software renderer's candidate root, with the two files that prove it.
#[derive(Debug)]
pub struct LavapipeCandidate {
    pub root: Vec<u8>,
    pub library: Vec<u8>,
    pub manifest: Vec<u8>,
}

/// A candidate at a root.
pub open spec fn is_candidate_at(candidate: LavapipeCandidate, root: Seq<u8>) -> bool {
    &&& candidate.root@ == root
    &&& candidate.library@ == library_at(root)
    &&& candidate.manifest@ == manifest_at(root)
}

/// The content of a variable.
pub open spec fn told(value: Option<Vec<u8>>) -> Option<Seq<u8>> {
    match value {
        Some(value) => Some(value@),
        None => None,
    }
}

/// The roots to try: the configured one, then the conventional one beneath the
/// home directory.
pub open spec fn lavapipe_roots(configured: Option<Seq<u8>>, home: Option<Seq<u8>>) -> Seq<Seq<u8>> {
    let first = match configured {
        Some(root) => seq![root],
        None => Seq::empty(),
    };
    match home {
        Some(home) => first.push(
            ospath::joined(home, text::word(".local/share/x11-gui-testing/lavapipe")),
        ),
        None => first,
    }
}

fn lavapipe_at(root: &[u8]) -> (candidate: LavapipeCandidate)
    ensures
        is_candidate_at(candidate, root@),
{
    LavapipeCandidate {
        root: copy_bytes(root),
        library: ospath::join_text(root, "usr/lib/libvulkan_lvp.so"),
        manifest: ospath::join_text(root, "usr/share/vulkan/icd.d/lvp_icd.json"),
    }
}

/// List the software renderer's candidate roots in order of preference.
pub fn lavapipe_candidates(configured: &Option<Vec<u8>>, home: &Option<Vec<u8>>) -> (candidates: Vec<
    LavapipeCandidate,
>)
    ensures
        ({
            let roots = lavapipe_roots(told(*configured), told(*home));
            candidates@.len() == roots.len() && forall|i: int|
                0 <= i < roots.len() ==> is_candidate_at(#[trigger] candidates@[i], roots[i])
        }),
{
    let mut candidates: Vec<LavapipeCandidate> = Vec::new();
    match configured {
        Some(root) => {
            candidates.push(lavapipe_at(root.as_slice()));
        },
        None => {},
    }
    match home {
        Some(home) => {
            let root = ospath::join_text(
                home.as_slice(),
                ".local/share/x11-gui-testing/lavapipe",
            );
            candidates.push(lavapipe_at(root.as_slice()));
        },
        None => {},
    }
    candidates
}

/// Whether the host can tell so of a path being a file.
pub open spec fn tells<F: Fn(&Vec<u8>) -> bool>(is_file: &F, path: Seq<u8>, verdict: bool) -> bool {
    exists|place: &Vec<u8>| place@ == path && #[trigger] is_file.ensures((place,), verdict)
}

/// A renderer's library beneath its root.
pub open spec fn library_at(root: Seq<u8>) -> Seq<u8> {
    ospath::joined(root, text::word("usr/lib/libvulkan_lvp.so"))
}

/// A renderer's manifest beneath its root.
pub open spec fn manifest_at(root: Seq<u8>) -> Seq<u8> {
    ospath::joined(root, text::word("usr/share/vulkan/icd.d/lvp_icd.json"))
}

/// Whether the host can have told that a root holds a renderer: both of its files
/// are there.
pub open spec fn proves<F: Fn(&Vec<u8>) -> bool>(is_file: &F, root: Seq<u8>) -> bool {
    tells(is_file, library_at(root), true) && tells(is_file, manifest_at(root), true)
}

/// Whether the host can have told that a root holds no renderer: one of its files
/// is not there.
pub open spec fn refutes<F: Fn(&Vec<u8>) -> bool>(is_file: &F, root: Seq<u8>) -> bool {
    tells(is_file, library_at(root), false) || tells(is_file, manifest_at(root), false)
}

/// Choose the first root that holds a complete renderer.
pub fn lavapipe_root<F: Fn(&Vec<u8>) -> bool>(
    configured: &Option<Vec<u8>>,
    home: &Option<Vec<u8>>,
    is_file: &F,
) -> (root: Result<Vec<u8>>)
    requires
        forall|path: &Vec<u8>| #[trigger] is_file.requires((path,)),
    ensures
        ({
            let roots = lavapipe_roots(told(*configured), told(*home));
            match root {
                Ok(root) => exists|i: int|
                    0 <= i < roots.len() && root@ == #[trigger] roots[i] && proves(
                        is_file,
                        roots[i],
                    ) && forall|j: int| 0 <= j < i ==> refutes(is_file, #[trigger] roots[j]),
                Err(error) => (forall|i: int|
                    0 <= i < roots.len() ==> refutes(is_file, #[trigger] roots[i])) && error@ == (
                ErrorView::Unsupported {
                    capability: "software graphics"@,
                    detail: "lavapipe was not found; set EGUI_TESTER_LAVAPIPE or install the x11-gui-testing lavapipe runtime"@,
                }),
            }
        }),
{
    let candidates = lavapipe_candidates(configured, home);
    let ghost roots = lavapipe_roots(told(*configured), told(*home));
    let mut index: usize = 0;
    while index < candidates.len()
        invariant
            index <= candidates.len(),
            roots == lavapipe_roots(told(*configured), told(*home)),
            candidates@.len() == roots.len(),
            forall|path: &Vec<u8>| #[trigger] is_file.requires((path,)),
            forall|i: int|
                0 <= i < roots.len() ==> is_candidate_at(#[trigger] candidates@[i], roots[i]),
            forall|j: int| 0 <= j < index ==> refutes(is_file, #[trigger] roots[j]),
        decreases candidates.len() - index,
    {
        let candidate = &candidates[index];
        assert(is_candidate_at(candidates@[index as int], roots[index as int]));
        let mut complete: bool = is_file(&candidate.library);
        assert(tells(is_file, library_at(roots[index as int]), complete));
        if complete {
            complete = is_file(&candidate.manifest);
            assert(tells(is_file, manifest_at(roots[index as int]), complete));
        }
        if complete {
            return Ok(copy_bytes(candidate.root.as_slice()));
        }
        index += 1;
    }
    Err(
        Error::Unsupported {
            capability: "software graphics",
            detail: "lavapipe was not found; set EGUI_TESTER_LAVAPIPE or install the x11-gui-testing lavapipe runtime".to_owned(),
        },
    )
}

// ---------------------------------------------------------------------------
// Laws
// ---------------------------------------------------------------------------

/// The NVIDIA driver's nodes are its four control nodes and its numbered cards, and no
/// other name.
pub proof fn law_nvidia_nodes_are_controls_or_cards(name: &[u8], verdict: bool)
    requires
        nvidia_device.ensures((name,), verdict),
    ensures
        verdict <==> {
            ||| name@ == encode_utf8("nvidiactl"@)
            ||| name@ == encode_utf8("nvidia-modeset"@)
            ||| name@ == encode_utf8("nvidia-uvm"@)
            ||| name@ == encode_utf8("nvidia-uvm-tools"@)
            ||| exists|digits: Seq<u8>|
                name@ == #[trigger] (encode_utf8("nvidia"@) + digits) && digits.len() > 0 && forall|
                    i: int,
                |
                    0 <= i < digits.len() ==> '0' as int <= #[trigger] digits[i] <= '9' as int
        },
{
    let prefix = text::word("nvidia");
    if text::begins_with(name@, prefix) && slot(name@.skip(prefix.len() as int)) {
        let digits = name@.skip(prefix.len() as int);
        assert forall|i: int| 0 <= i < prefix.len() implies name@[i] == prefix[i] by {
            assert(name@[0 + i] == prefix[i]);
        }
        assert(name@ =~= prefix + digits);
    }
    if exists|digits: Seq<u8>|
        name@ == #[trigger] (prefix + digits) && digits.len() > 0 && forall|i: int|
            0 <= i < digits.len() ==> '0' as int <= #[trigger] digits[i] <= '9' as int {
        let digits = choose|digits: Seq<u8>|
            name@ == #[trigger] (prefix + digits) && digits.len() > 0 && forall|i: int|
                0 <= i < digits.len() ==> '0' as int <= #[trigger] digits[i] <= '9' as int;
        assert(name@.skip(prefix.len() as int) =~= digits);
    }
}

/// Whether an entry is a character device that a directory grants: in a graphics directory
/// every one, and in another the compute node and the NVIDIA driver's own.
pub open spec fn grants(entry: DeviceEntry, graphics_directory: bool) -> bool {
    &&& entry.character == Ok::<bool, Source>(true)
    &&& graphics_directory || entry.name@ == encode_utf8("kfd"@) || is_nvidia(entry.name@)
}

proof fn lemma_granted(
    directory: Seq<u8>,
    entries: Seq<std::result::Result<DeviceEntry, Source>>,
    graphics_directory: bool,
    from: int,
)
    requires
        0 <= from,
    ensures
        granted(directory, entries, graphics_directory, from) matches Ok(found) ==> {
            &&& forall|i: int| from <= i < entries.len() ==> (#[trigger] entries[i]) is Ok
            &&& forall|i: int|
                from <= i < entries.len() && grants(#[trigger] entries[i]->Ok_0, graphics_directory)
                    ==> found.contains(entries[i]->Ok_0.path@)
            &&& forall|path: Seq<u8>| #[trigger]
                found.contains(path) ==> exists|i: int|
                    from <= i < entries.len() && grants(
                        #[trigger] entries[i]->Ok_0,
                        graphics_directory,
                    ) && entries[i]->Ok_0.path@ == path
        },
    decreases entries.len() - from,
{
    if from < entries.len() {
        lemma_granted(directory, entries, graphics_directory, from + 1);
        if let Ok(found) = granted(directory, entries, graphics_directory, from) {
            let rest = granted(directory, entries, graphics_directory, from + 1)->Ok_0;
            let entry = entries[from]->Ok_0;
            if grants(entry, graphics_directory) {
                assert(found == seq![entry.path@] + rest);
                assert(found[0] == entry.path@);
                assert forall|path: Seq<u8>| rest.contains(path) implies found.contains(path) by {
                    let at = choose|at: int| 0 <= at < rest.len() && rest[at] == path;
                    assert(found[at + 1] == path);
                }
                assert forall|path: Seq<u8>| #[trigger] found.contains(path) implies exists|i: int|
                    from <= i < entries.len() && grants(
                        #[trigger] entries[i]->Ok_0,
                        graphics_directory,
                    ) && entries[i]->Ok_0.path@ == path by {
                    let at = choose|at: int| 0 <= at < found.len() && found[at] == path;
                    if at > 0 {
                        assert(rest[at - 1] == path);
                        assert(rest.contains(path));
                    } else {
                        assert(grants(entries[from]->Ok_0, graphics_directory));
                    }
                }
            } else {
                assert(found == rest);
            }
        }
    }
}

/// A directory contributes exactly the paths of the character devices it grants, and an
/// entry that cannot be enumerated leaves nothing granted.
pub proof fn law_directories_grant_their_devices(
    directory: Seq<u8>,
    entries: Listing,
    graphics_directory: bool,
    found: Seq<Seq<u8>>,
    path: Seq<u8>,
)
    requires
        portion(directory, Ok(entries), graphics_directory) == Ok::<_, ErrorView>(found),
    ensures
        found.contains(path) <==> exists|i: int|
            0 <= i < entries@.len() && grants(#[trigger] entries@[i]->Ok_0, graphics_directory)
                && entries@[i]->Ok_0.path@ == path,
        forall|i: int| 0 <= i < entries@.len() ==> (#[trigger] entries@[i]) is Ok,
{
    lemma_granted(directory, entries@, graphics_directory, 0);
    let given = granted(directory, entries@, graphics_directory, 0)->Ok_0;
    assert(given == found);
    assert(given.contains(path) == found.contains(path));
}

/// Every granted device was found in one of the three device directories, which grants it.
pub proof fn law_granted_devices_were_found(
    survey: Survey,
    devices: Seq<Seq<u8>>,
    dri: Listing,
    caps: Listing,
    dev: Listing,
    path: Seq<u8>,
)
    requires
        survey.dri == Ok::<Listing, Source>(dri),
        survey.caps == Ok::<Listing, Source>(caps),
        survey.dev == Ok::<Listing, Source>(dev),
        survey.gathered() matches Ok(found) && ospath::distils(devices, found),
        devices.contains(path),
    ensures
        (exists|i: int|
            0 <= i < dri@.len() && grants(#[trigger] dri@[i]->Ok_0, true) && dri@[i]->Ok_0.path@
                == path) || (exists|i: int|
            0 <= i < caps@.len() && grants(#[trigger] caps@[i]->Ok_0, true) && caps@[i]->Ok_0.path@
                == path) || (exists|i: int|
            0 <= i < dev@.len() && grants(#[trigger] dev@[i]->Ok_0, false) && dev@[i]->Ok_0.path@
                == path),
{
    let found = survey.gathered()->Ok_0;
    let first = survey.first()->Ok_0;
    let second = survey.second()->Ok_0;
    let third = survey.third()->Ok_0;
    lemma_granted(text::word("/dev/dri"), dri@, true, 0);
    lemma_granted(text::word("/dev/nvidia-caps"), caps@, true, 0);
    lemma_granted(text::word("/dev"), dev@, false, 0);
    assert(ospath::leads(found, path));
    let at = choose|at: int| 0 <= at < found.len() && found[at] == path;
    if at < first.len() {
        assert(first[at] == path);
        assert(first.contains(path));
    } else if at < first.len() + second.len() {
        assert(second[at - first.len()] == path);
        assert(second.contains(path));
    } else {
        assert(third[at - first.len() - second.len()] == path);
        assert(third.contains(path));
    }
}

/// The software renderer is looked for at the configured root first and then beneath the
/// home directory, each time as a library and a manifest beneath the root.
pub proof fn law_renderers_are_sought_where_configured(
    configured: Option<Vec<u8>>,
    home: Option<Vec<u8>>,
    candidates: Vec<LavapipeCandidate>,
)
    requires
        lavapipe_candidates.ensures((&configured, &home), candidates),
    ensures
        configured matches Some(root) ==> candidates@.len() > 0 && candidates@[0].root@ == root@,
        home matches Some(home) ==> candidates@.len() > 0 && candidates@.last().root@
            == ospath::joined(home@, encode_utf8(".local/share/x11-gui-testing/lavapipe"@)),
        candidates@.len() == (if configured is Some {
            1int
        } else {
            0
        }) + (if home is Some {
            1int
        } else {
            0
        }),
        forall|i: int|
            0 <= i < candidates@.len() ==> (#[trigger] candidates@[i]).library@ == ospath::joined(
                candidates@[i].root@,
                encode_utf8("usr/lib/libvulkan_lvp.so"@),
            ) && candidates@[i].manifest@ == ospath::joined(
                candidates@[i].root@,
                encode_utf8("usr/share/vulkan/icd.d/lvp_icd.json"@),
            ),
{
}

} // verus!
