//! A universe from its builder to its display: what is asked of the host, in its
//! order.
use crate::error::{io, Error, ErrorView, Result, Source};
use crate::stage;
use crate::stage::Stage;
use crate::testbed;
use crate::testbed::tools;
use crate::testbed::tools::{random_cookie, root_prefix, session_id};
use crate::testbed::{furnish, furnish_failure, Backend, DisplayServer, Furnish, FurnishView, Testbed, TestbedBuilder, TestbedView};
use crate::text;
use crate::text::text_bytes;
use vstd::prelude::*;

verus! {

/// Whether furnishing a tree, step by step until one fails, can leave the host so, with
/// an outcome.
pub open spec fn furnishes<P: Stage<Furnish, Source>>(
    before: P,
    steps: Seq<FurnishView>,
    outcome: std::result::Result<(), ErrorView>,
    after: P,
) -> bool {
    match outcome {
        Ok(_) => exists|stages: Seq<P>| #[trigger]
            stage::does_all::<Furnish, Source, P>(stages, steps) && stage::spans(
                stages,
                before,
                after,
            ),
        Err(error) => exists|stages: Seq<P>, at: int, source: Source|
            stages[0] == before && #[trigger] stage::fails_at::<Furnish, Source, P>(
                stages,
                steps,
                at,
                source,
                after,
            ) && error == testbed::furnish_fault(steps[at], source),
    }
}

fn furnish_all<P: Stage<Furnish, Source>>(root: &Vec<u8>, host: &mut P) -> (verdict: Result<()>)
    ensures
        furnishes(
            *old(host),
            testbed::furnishing(root@),
            crate::host::told(verdict),
            *final(host),
        ),
{
    let steps = furnish(root);
    let ghost all = testbed::furnishing(root@);
    assert(all == steps@.map_values(|step: Furnish| step@));
    let ghost mut stages: Seq<P> = seq![*host];
    assert(all.take(0) =~= Seq::<FurnishView>::empty());
    let mut index: usize = 0;
    while index < steps.len()
        invariant
            index <= steps.len(),
            all == steps@.map_values(|step: Furnish| step@),
            all == testbed::furnishing(root@),
            stage::does_all::<Furnish, Source, P>(stages, all.take(index as int)),
            stages[0] == *old(host),
            stages.last() == *host,
        decreases steps.len() - index,
    {
        let step = &steps[index];
        assert(all[index as int] == step@);
        match host.perform(step) {
            Ok(unit) => {
                assert(unit == ());
            },
            Err(source) => {
                assert(stage::fails_at::<Furnish, Source, P>(
                    stages,
                    all,
                    index as int,
                    source,
                    *host,
                ));
                return Err(furnish_failure(step, source));
            },
        }
        proof {
            stage::lemma_one_more_act::<Furnish, Source, P>(stages, all, index as int, *host);
            stages = stages.push(*host);
        }
        index += 1;
    }
    assert(all.take(index as int) =~= all);
    Ok(())
}

/// Whether creating a private root under a prefix can come to an outcome.
pub open spec fn creates<T: FnOnce(&str) -> std::result::Result<Vec<u8>, Source>>(
    create_root: T,
    prefix: Seq<char>,
    outcome: std::result::Result<Vec<u8>, Source>,
) -> bool {
    exists|given: &str| given@ == prefix && #[trigger] create_root.ensures((given,), outcome)
}

/// Whether raising a display can come to an outcome.
pub open spec fn displays<W: FnOnce(Backend, &Vec<u8>, &str) -> Result<DisplayServer>>(
    raise_display: W,
    backend: Backend,
    root: Seq<u8>,
    id: Seq<char>,
    outcome: Result<DisplayServer>,
) -> bool {
    exists|place: &Vec<u8>, name: &str|
        place@ == root && name@ == id && #[trigger] raise_display.ensures(
            (backend, place, name),
            outcome,
        )
}

/// Whether a universe of an identity may be housed: its root is created, then
/// furnished, and then its display is raised there.
pub open spec fn housable<
    T: FnOnce(&str) -> std::result::Result<Vec<u8>, Source>,
    P: Stage<Furnish, Source>,
    W: FnOnce(Backend, &Vec<u8>, &str) -> Result<DisplayServer>,
>(backend: Backend, id: Seq<char>, create_root: T, host: P, raise_display: W) -> bool {
    let prefix = "egui-tester-"@ + id + "-"@;
    &&& forall|given: &str| given@ == prefix ==> #[trigger] create_root.requires((given,))
    &&& forall|root: Vec<u8>, furnished: P, place: &Vec<u8>, name: &str|
        #[trigger] creates(create_root, prefix, Ok(root)) && #[trigger] furnishes(
            host,
            testbed::furnishing(root@),
            Ok(()),
            furnished,
        ) && place@ == root@ && name@ == id ==> #[trigger] raise_display.requires(
            (backend, place, name),
        )
}

/// What the host answers while a universe is raised.
pub struct Raising {
    /// Whether the tools were found.
    pub equipped: std::result::Result<(), ErrorView>,
    /// Whether the user manager answered.
    pub manager: Result<()>,
    /// The universe's ordinal in its process.
    pub ordinal: u64,
    /// The kernel's UUID.
    pub uuid: std::result::Result<String, Source>,
    /// The private root.
    pub root: std::result::Result<Vec<u8>, Source>,
    /// Whether the root was furnished.
    pub furnished: std::result::Result<(), ErrorView>,
    /// The display.
    pub display: Result<DisplayServer>,
}

impl Raising {
    /// The nonce of the universe, or why there is none.
    pub open spec fn nonce(self) -> std::result::Result<Seq<char>, ErrorView> {
        tools::cookie_verdict(tools::heard(self.uuid))
    }

    /// Whether the host can answer so. It is asked nothing after a failure.
    pub open spec fn told<
        F: Fn(&Vec<u8>) -> bool,
        M: FnOnce() -> Result<()>,
        C: FnOnce() -> u64,
        U: FnOnce() -> std::result::Result<String, Source>,
        T: FnOnce(&str) -> std::result::Result<Vec<u8>, Source>,
        P: Stage<Furnish, Source>,
        W: FnOnce(Backend, &Vec<u8>, &str) -> Result<DisplayServer>,
    >(
        self,
        backend: Backend,
        process: u32,
        path: Option<Seq<u8>>,
        is_file: &F,
        contact: M,
        claim: C,
        uuid: U,
        create_root: T,
        raise_display: W,
        before: P,
        after: P,
    ) -> bool {
        &&& testbed::equips(path, is_file, self.equipped)
        &&& self.equipped is Ok ==> {
            &&& contact.ensures((), self.manager)
            &&& self.manager is Ok ==> {
                &&& claim.ensures((), self.ordinal)
                &&& uuid.ensures((), self.uuid)
                &&& self.nonce() matches Ok(nonce) ==> {
                    let id = tools::identity(process, self.ordinal, nonce);
                    &&& creates(create_root, "egui-tester-"@ + id + "-"@, self.root)
                    &&& self.root matches Ok(root) ==> {
                        &&& furnishes(before, testbed::furnishing(root@), self.furnished, after)
                        &&& self.furnished is Ok ==> displays(
                            raise_display,
                            backend,
                            root@,
                            id,
                            self.display,
                        )
                    }
                }
            }
        }
        &&& !self.housed() ==> after == before
    }

    /// Whether the universe got a root.
    pub open spec fn housed(self) -> bool {
        self.equipped is Ok && self.manager is Ok && self.nonce() is Ok && self.root is Ok
    }

    /// The universe that the answers make, or why there is none.
    pub open spec fn universe(self, process: u32, sink: Option<Seq<u8>>) -> std::result::Result<
        TestbedView,
        ErrorView,
    > {
        match (self.equipped, self.manager, self.nonce()) {
            (Err(error), _, _) => Err(error),
            (_, Err(error), _) => Err(error@),
            (_, _, Err(error)) => Err(error),
            (Ok(_), Ok(_), Ok(nonce)) => match (self.root, self.furnished, self.display) {
                (Err(source), _, _) => Err(
                    ErrorView::Io {
                        operation: "create private test root"@,
                        path: text::word("/tmp"),
                        source: source@,
                    },
                ),
                (_, Err(error), _) => Err(error),
                (_, _, Err(error)) => Err(error@),
                (Ok(root), Ok(_), Ok(display)) => Ok(
                    TestbedView {
                        id: tools::identity(process, self.ordinal, nonce),
                        root: root@,
                        display: display@,
                        next_app: 1,
                        sink,
                        retained: Seq::empty(),
                    },
                ),
            },
        }
    }
}

/// The content of a raised universe.
pub open spec fn raised(outcome: Result<Testbed>) -> std::result::Result<TestbedView, ErrorView> {
    match outcome {
        Ok(testbed) => Ok(testbed@),
        Err(error) => Err(error@),
    }
}

impl TestbedBuilder {
    /// Raise the universe: its tools are demanded, its user manager is contacted,
    /// its root is created and furnished, and its display is raised. `process`
    /// names the raising process, and `path` is where tools are searched.
    pub fn raise<
        F: Fn(&Vec<u8>) -> bool,
        M: FnOnce() -> Result<()>,
        C: FnOnce() -> u64,
        U: FnOnce() -> std::result::Result<String, Source>,
        T: FnOnce(&str) -> std::result::Result<Vec<u8>, Source>,
        P: Stage<Furnish, Source>,
        W: FnOnce(Backend, &Vec<u8>, &str) -> Result<DisplayServer>,
    >(
        self,
        process: u32,
        path: &Option<Vec<u8>>,
        is_file: &F,
        contact: M,
        claim: C,
        uuid: U,
        create_root: T,
        host: &mut P,
        raise_display: W,
    ) -> (testbed: Result<Testbed>)
        requires
            tools::askable(is_file),
            testbed::equips(tools::told(*path), is_file, Ok(())) ==> contact.requires(()),
            contact.ensures((), Ok::<(), Error>(())) ==> claim.requires(()) && uuid.requires(()),
            forall|ordinal: u64, read: std::result::Result<String, Source>|
                #[trigger] claim.ensures((), ordinal) && #[trigger] uuid.ensures((), read) ==> (
                tools::cookie_verdict(tools::heard(read)) matches Ok(nonce) ==> housable(
                    self.policy(),
                    tools::identity(process, ordinal, nonce),
                    create_root,
                    *old(host),
                    raise_display,
                )),
        ensures
            exists|raising: Raising| #[trigger]
                raising.told(
                    self.policy(),
                    process,
                    tools::told(*path),
                    is_file,
                    contact,
                    claim,
                    uuid,
                    create_root,
                    raise_display,
                    *old(host),
                    *final(host),
                ) && raised(testbed) == raising.universe(process, self.sink()),
    {
        let backend = self.chosen_backend();
        let ghost policy = self.policy();
        let ghost at = tools::told(*path);
        let ghost mut raising = Raising {
            equipped: Ok(()),
            manager: Ok(()),
            ordinal: 0,
            uuid: Err(Source { kind: crate::error::SourceKind::Other, text: arbitrary() }),
            root: Ok(arbitrary()),
            furnished: Ok(()),
            display: Err(Error::MissingTool("")),
        };
        match self.equip(path, is_file) {
            Ok(unit) => {
                assert(unit == ());
            },
            Err(error) => {
                proof {
                    raising.equipped = Err(error@);
                }
                assert(raising.told(
                    policy,
                    process,
                    at,
                    is_file,
                    contact,
                    claim,
                    uuid,
                    create_root,
                    raise_display,
                    *old(host),
                    *host,
                ));
                return Err(error);
            },
        }
        match contact() {
            Ok(unit) => {
                assert(unit == ());
            },
            Err(error) => {
                proof {
                    raising.manager = Err(error);
                }
                assert(raising.told(
                    policy,
                    process,
                    at,
                    is_file,
                    contact,
                    claim,
                    uuid,
                    create_root,
                    raise_display,
                    *old(host),
                    *host,
                ));
                return Err(error);
            },
        }
        let ordinal: u64 = claim();
        let read = uuid();
        proof {
            raising.ordinal = ordinal;
            raising.uuid = read;
        }
        let nonce = match random_cookie(read) {
            Ok(nonce) => nonce,
            Err(error) => {
                assert(raising.told(
                    policy,
                    process,
                    at,
                    is_file,
                    contact,
                    claim,
                    uuid,
                    create_root,
                    raise_display,
                    *old(host),
                    *host,
                ));
                return Err(error);
            },
        };
        let id = session_id(process, ordinal, nonce.as_str());
        let prefix = root_prefix(id.as_str());
        let created = create_root(prefix.as_str());
        proof {
            raising.root = created;
        }
        assert(creates(create_root, "egui-tester-"@ + id@ + "-"@, created));
        let root = match created {
            Ok(root) => {
                assert(creates(create_root, "egui-tester-"@ + id@ + "-"@, Ok(root)));
                root
            },
            Err(source) => {
                assert(raising.told(
                    policy,
                    process,
                    at,
                    is_file,
                    contact,
                    claim,
                    uuid,
                    create_root,
                    raise_display,
                    *old(host),
                    *host,
                ));
                return Err(io("create private test root", &text_bytes("/tmp"), source));
            },
        };
        match furnish_all(&root, host) {
            Ok(unit) => {
                assert(unit == ());
            },
            Err(error) => {
                proof {
                    raising.furnished = Err(error@);
                }
                assert(raising.told(
                    policy,
                    process,
                    at,
                    is_file,
                    contact,
                    claim,
                    uuid,
                    create_root,
                    raise_display,
                    *old(host),
                    *host,
                ));
                return Err(error);
            },
        }
        let display = raise_display(backend, &root, id.as_str());
        proof {
            raising.display = display;
        }
        assert(displays(raise_display, backend, root@, id@, display));
        assert(raising.told(
            policy,
            process,
            at,
            is_file,
            contact,
            claim,
            uuid,
            create_root,
            raise_display,
            *old(host),
            *host,
        ));
        match display {
            Ok(display) => Ok(self.assemble(id, root, display)),
            Err(error) => Err(error),
        }
    }
}

/// A universe is raised only where its tools, its manager, its root and its display are all
/// there; it owns that root and that display, has launched nothing, and retains nothing.
pub proof fn law_universes_are_raised_whole(
    raising: Raising,
    process: u32,
    sink: Option<Seq<u8>>,
    universe: TestbedView,
)
    requires
        raising.universe(process, sink) == Ok::<_, ErrorView>(universe),
    ensures
        raising.equipped is Ok && raising.manager is Ok && raising.furnished is Ok,
        raising.root matches Ok(root) && universe.root == root@,
        raising.display matches Ok(display) && universe.display == display@,
        universe.next_app == 1,
        universe.retained.len() == 0,
        universe.sink == sink,
        exists|nonce: Seq<char>|
            universe.id == text::decimal(process as nat) + "-"@ + text::decimal(
                raising.ordinal as nat,
            ) + "-"@ + #[trigger] nonce.take(12),
{
    let nonce = raising.nonce()->Ok_0;
    assert(universe.id == text::decimal(process as nat) + "-"@ + text::decimal(
        raising.ordinal as nat,
    ) + "-"@ + nonce.take(12));
}

} // verus!
