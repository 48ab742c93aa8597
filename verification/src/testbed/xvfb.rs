//! A private virtual X server.
use crate::error::{io, Error, ErrorView, Result, Source};
use crate::host;
use crate::host::make;
use crate::ospath;
use crate::ospath::join_text;
use crate::poll::Round;
use crate::service::unit;
use crate::service::unit::{trimmed_text, CommandOutput};
use crate::testbed::tools;
use crate::testbed::tools::{decode_hex, random_cookie, require_tool};
use crate::testbed::{DisplayServer, DisplayServerView, X11Config};
use crate::text;
use crate::text::{decimal_text, glue2, glue5, lossy_text, push_bytes, push_word, push_words, text_bytes};
use vstd::prelude::*;
use vstd::utf8::*;

verus! {

/// Displays to try before giving up.
pub const ATTEMPTS: u64 = 24;

/// How a server that was told to start can fail to stand.
#[derive(Debug)]
pub enum StandFault {
    /// The authority file kept its permissions.
    Harden(Source),
    /// The server's log could not be shared with it.
    CloneLog(Source),
    /// The server did not start.
    Spawn(Source),
    /// The server could not be polled.
    Poll(Source),
}

/// What the attempts at one server have in common.
#[verifier::ext_equal]
pub struct Site {
    pub config: X11Config,
    pub root: Seq<u8>,
    /// Number of this process.
    pub process: u32,
    pub cookie: Seq<char>,
}

/// What one attempt came to.
pub struct Attempt {
    pub seed: u64,
    pub authorized: std::result::Result<CommandOutput, Source>,
    pub stood: std::result::Result<bool, StandFault>,
}

/// The display that an attempt tries.
pub open spec fn display_number(process: nat, seed: nat, attempt: nat) -> nat {
    200 + (process + seed + attempt) % 700
}

/// A display's name.
pub open spec fn display_name(display: nat) -> Seq<char> {
    ":"@ + text::decimal(display)
}

/// A display's socket.
pub open spec fn socket(display: nat) -> Seq<u8> {
    encode_utf8("/tmp/.X11-unix/X"@ + text::decimal(display))
}

impl Site {
    /// The server's authority file.
    pub open spec fn authority(self) -> Seq<u8> {
        ospath::joined(self.root, text::word("xauthority"))
    }

    /// The server's log.
    pub open spec fn log(self) -> Seq<u8> {
        ospath::joined(self.root, text::word("logs/xvfb.log"))
    }

    /// Adds a display's cookie to the authority file.
    pub open spec fn authorize_line(self, display: nat) -> Seq<Seq<u8>> {
        seq![
            text::word("xauth"),
            text::word("-f"),
            encode_utf8(text::lossy(self.authority())),
            text::word("add"),
            encode_utf8(display_name(display)),
            text::word("MIT-MAGIC-COOKIE-1"),
            encode_utf8(self.cookie),
        ]
    }

    /// The virtual screen, as the server takes it.
    pub open spec fn geometry(self) -> Seq<char> {
        text::decimal(self.config.width as nat) + "x"@ + text::decimal(self.config.height as nat)
            + "x"@ + text::decimal(self.config.depth as nat)
    }

    /// Starts the server.
    pub open spec fn server_line(self, display: nat) -> Seq<Seq<u8>> {
        seq![
            text::word("Xvfb"),
            encode_utf8(display_name(display)),
            text::word("-screen"),
            text::word("0"),
            encode_utf8(self.geometry()),
            text::word("-nolisten"),
            text::word("tcp"),
            text::word("-noreset"),
            text::word("-auth"),
            self.authority(),
        ]
    }

    /// What an attempt means: whether the server stands, or a failure that ends
    /// the attempts.
    pub open spec fn verdict(self, attempt: Attempt) -> std::result::Result<bool, ErrorView> {
        match attempt.authorized {
            Err(source) => Err(
                ErrorView::Io {
                    operation: "create X11 authority"@,
                    path: text::word("xauth"),
                    source: source@,
                },
            ),
            Ok(output) => if !output.success {
                Err(
                    ErrorView::Command {
                        command: "xauth"@,
                        status: output.status@,
                        stderr: unit::trimmed(output.stderr@),
                    },
                )
            } else {
                match attempt.stood {
                    Ok(stands) => Ok(stands),
                    Err(StandFault::Harden(source)) => Err(
                        ErrorView::Io {
                            operation: "harden private file"@,
                            path: self.authority(),
                            source: source@,
                        },
                    ),
                    Err(StandFault::CloneLog(source)) => Err(
                        ErrorView::Io {
                            operation: "clone Xvfb log"@,
                            path: self.log(),
                            source: source@,
                        },
                    ),
                    Err(StandFault::Spawn(source)) => Err(
                        ErrorView::Io {
                            operation: "spawn Xvfb"@,
                            path: text::word("Xvfb"),
                            source: source@,
                        },
                    ),
                    Err(StandFault::Poll(source)) => Err(
                        ErrorView::Io {
                            operation: "poll Xvfb"@,
                            path: text::word("Xvfb"),
                            source: source@,
                        },
                    ),
                }
            },
        }
    }
}

/// What makes an authority file: the file, and the line that adds a cookie to it.
#[verifier::ext_equal]
pub struct AuthorityOrder {
    pub authority: Seq<u8>,
    pub line: Seq<Seq<u8>>,
}

/// What makes a server stand: its authority file, the line that starts it, and the
/// socket that takes its key.
#[verifier::ext_equal]
pub struct ServerOrder {
    pub authority: Seq<u8>,
    pub line: Seq<Seq<u8>>,
    pub socket: Seq<u8>,
    pub key: Seq<u8>,
}

/// Where servers are raised. Every request changes it, so that how often and in which
/// order it was asked shows in what it has become.
pub trait Yard: Sized {
    /// Whether claiming a display seed can leave the yard so.
    spec fn claims(before: Self, seed: u64, after: Self) -> bool;

    /// Whether making an authority file anew can leave the yard so, with an outcome.
    spec fn authorizes(
        before: Self,
        order: AuthorityOrder,
        outcome: std::result::Result<CommandOutput, Source>,
        after: Self,
    ) -> bool;

    /// Whether making a server stand can leave the yard so, with an outcome.
    spec fn stands(
        before: Self,
        order: ServerOrder,
        outcome: std::result::Result<bool, StandFault>,
        after: Self,
    ) -> bool;

    /// Claim a display seed.
    fn claim(&mut self) -> (seed: u64)
        ensures
            Self::claims(*old(self), seed, *final(self)),
    ;

    /// Remove the authority file, and run the line that makes it anew.
    fn authorize(&mut self, authority: &Vec<u8>, line: &Vec<Vec<u8>>) -> (outcome:
        std::result::Result<CommandOutput, Source>)
        ensures
            Self::authorizes(
                *old(self),
                (AuthorityOrder { authority: authority@, line: text::views(line@) }),
                outcome,
                *final(self),
            ),
    ;

    /// Harden the authority file, start the server, and wait until its socket takes an
    /// authenticated connection.
    fn stand(
        &mut self,
        authority: &Vec<u8>,
        line: &Vec<Vec<u8>>,
        socket: &Vec<u8>,
        key: &Vec<u8>,
    ) -> (outcome: std::result::Result<bool, StandFault>)
        ensures
            Self::stands(
                *old(self),
                (ServerOrder {
                    authority: authority@,
                    line: text::views(line@),
                    socket: socket@,
                    key: key@,
                }),
                outcome,
                *final(self),
            ),
    ;
}

/// A yard on which no server ever stands. It hands out the same seed over and over,
/// and counts what it was asked for.
#[derive(Debug)]
pub struct Wasteland {
    pub claimed: u128,
    pub authorized: u128,
    pub raised: u128,
}

/// A count with one more, as far as it goes.
pub open spec fn counted(before: u128, after: u128) -> bool {
    after == if before < u128::MAX {
        before + 1
    } else {
        before as int
    }
}

fn count(before: u128) -> (after: u128)
    ensures
        counted(before, after),
{
    if before < u128::MAX {
        before + 1
    } else {
        before
    }
}

impl Yard for Wasteland {
    open spec fn claims(before: Self, seed: u64, after: Self) -> bool {
        &&& seed == 0
        &&& counted(before.claimed, after.claimed)
        &&& after.authorized == before.authorized
        &&& after.raised == before.raised
    }

    open spec fn authorizes(
        before: Self,
        order: AuthorityOrder,
        outcome: std::result::Result<CommandOutput, Source>,
        after: Self,
    ) -> bool {
        &&& outcome matches Ok(output) && output.success
        &&& counted(before.authorized, after.authorized)
        &&& after.claimed == before.claimed
        &&& after.raised == before.raised
    }

    open spec fn stands(
        before: Self,
        order: ServerOrder,
        outcome: std::result::Result<bool, StandFault>,
        after: Self,
    ) -> bool {
        &&& outcome matches Ok(stands) && !stands
        &&& counted(before.raised, after.raised)
        &&& after.claimed == before.claimed
        &&& after.authorized == before.authorized
    }

    fn claim(&mut self) -> (seed: u64) {
        self.claimed = count(self.claimed);
        0
    }

    fn authorize(&mut self, _authority: &Vec<u8>, _line: &Vec<Vec<u8>>) -> (outcome:
        std::result::Result<CommandOutput, Source>) {
        self.authorized = count(self.authorized);
        Ok(
            CommandOutput {
                success: true,
                status: String::new(),
                stdout: Vec::new(),
                stderr: Vec::new(),
            },
        )
    }

    fn stand(
        &mut self,
        _authority: &Vec<u8>,
        _line: &Vec<Vec<u8>>,
        _socket: &Vec<u8>,
        _key: &Vec<u8>,
    ) -> (outcome: std::result::Result<bool, StandFault>) {
        self.raised = count(self.raised);
        Ok(false)
    }
}

impl Site {
    /// The display of the attempt with this ordinal.
    pub open spec fn display(self, ordinal: int, attempt: Attempt) -> nat {
        display_number(self.process as nat, attempt.seed as nat, ordinal as nat)
    }

    /// The cookie's bytes.
    pub open spec fn key(self) -> Seq<u8> {
        tools::unspelled(encode_utf8(self.cookie))->0
    }

    /// Whether the attempt with this ordinal can have gone so, by way of these yards:
    /// once its seed was claimed, and once its authority file was made. A server is
    /// only started behind an authority file.
    pub open spec fn attempted_by<Y: Yard>(
        self,
        ordinal: int,
        attempt: Attempt,
        before: Y,
        claimed: Y,
        authorized: Y,
        after: Y,
    ) -> bool {
        let display = self.display(ordinal, attempt);
        &&& Y::claims(before, attempt.seed, claimed)
        &&& Y::authorizes(
            claimed,
            AuthorityOrder { authority: self.authority(), line: self.authorize_line(display) },
            attempt.authorized,
            authorized,
        )
        &&& if attempt.authorized matches Ok(output) && output.success {
            Y::stands(
                authorized,
                ServerOrder {
                    authority: self.authority(),
                    line: self.server_line(display),
                    socket: socket(display),
                    key: self.key(),
                },
                attempt.stood,
                after,
            )
        } else {
            after == authorized
        }
    }

    /// Whether the attempt with this ordinal can have gone so, and left the yard so.
    pub open spec fn attempted<Y: Yard>(
        self,
        ordinal: int,
        attempt: Attempt,
        before: Y,
        after: Y,
    ) -> bool {
        exists|claimed: Y, authorized: Y| #[trigger]
            self.attempted_by(ordinal, attempt, before, claimed, authorized, after)
    }

    /// Whether the attempts can have gone so, each once, by way of these yards, and each
    /// but perhaps the last leaving no server.
    pub open spec fn tried<Y: Yard>(self, yards: Seq<Y>, history: Seq<Attempt>) -> bool {
        &&& history.len() <= ATTEMPTS
        &&& yards.len() == history.len() + 1
        &&& forall|i: int|
            0 <= i < history.len() ==> self.attempted(
                i,
                #[trigger] history[i],
                yards[i],
                yards[i + 1],
            )
        &&& forall|i: int|
            0 <= i < history.len() - 1 ==> self.verdict(#[trigger] history[i]) == Ok::<
                bool,
                ErrorView,
            >(false)
    }

    /// What a run of attempts comes to: the display that stands, or why none
    /// does.
    pub open spec fn outcome(self, history: Seq<Attempt>) -> std::result::Result<nat, ErrorView> {
        let exhausted = ErrorView::Containment {
            layer: "Xvfb"@,
            detail: "could not allocate a private display after 24 attempts"@,
        };
        if history.len() == 0 {
            Err(exhausted)
        } else {
            match self.verdict(history.last()) {
                Err(error) => Err(error),
                Ok(true) => Ok(self.display(history.len() - 1, history.last())),
                Ok(false) => Err(exhausted),
            }
        }
    }

    /// Whether a run of attempts was carried through: it ended in a server or a
    /// failure, or every display was tried.
    pub open spec fn spent(self, history: Seq<Attempt>) -> bool {
        history.len() == ATTEMPTS || (history.len() > 0 && self.verdict(history.last()) != Ok::<
            bool,
            ErrorView,
        >(false))
    }
}

/// The site of a server.
pub open spec fn site(config: X11Config, root: Seq<u8>, process: u32, cookie: Seq<char>) -> Site {
    Site { config, root, process, cookie }
}

impl Site {
    /// Whether a run of attempts concludes so: with the server that stands, or
    /// with the failure.
    pub open spec fn concluded(self, history: Seq<Attempt>, server: Result<DisplayServer>) -> bool {
        &&& self.spent(history)
        &&& match server {
            Ok(server) => server@ matches DisplayServerView::X11 { display, socket: place, cookie: key }
                && self.outcome(history) == Ok::<nat, ErrorView>(display as nat) && place == socket(
                display as nat,
            ) && key == self.key(),
            Err(error) => self.outcome(history) == Err::<nat, ErrorView>(error@),
        }
    }
}

fn authorize_line(authority: &Vec<u8>, display: u16, cookie: &str, Ghost(site): Ghost<Site>) -> (line:
    Vec<Vec<u8>>)
    requires
        authority@ == site.authority(),
        cookie@ == site.cookie,
    ensures
        text::views(line@) == site.authorize_line(display as nat),
{
    let name = glue2(":", decimal_text(display as u128).as_str());
    let mut line: Vec<Vec<u8>> = Vec::new();
    push_words(&mut line, &["xauth", "-f"]);
    push_word(&mut line, lossy_text(authority.as_slice()).as_str());
    push_word(&mut line, "add");
    push_word(&mut line, name.as_str());
    push_word(&mut line, "MIT-MAGIC-COOKIE-1");
    push_word(&mut line, cookie);
    assert(text::views(line@) =~= site.authorize_line(display as nat));
    line
}

fn server_line(authority: &Vec<u8>, display: u16, config: X11Config, Ghost(site): Ghost<Site>) -> (line:
    Vec<Vec<u8>>)
    requires
        authority@ == site.authority(),
        config == site.config,
    ensures
        text::views(line@) == site.server_line(display as nat),
{
    let name = glue2(":", decimal_text(display as u128).as_str());
    let geometry = glue5(
        decimal_text(config.width as u128).as_str(),
        "x",
        decimal_text(config.height as u128).as_str(),
        "x",
        decimal_text(config.depth as u128).as_str(),
    );
    let mut line: Vec<Vec<u8>> = Vec::new();
    push_word(&mut line, "Xvfb");
    push_word(&mut line, name.as_str());
    push_words(&mut line, &["-screen", "0"]);
    push_word(&mut line, geometry.as_str());
    push_words(&mut line, &["-nolisten", "tcp", "-noreset", "-auth"]);
    push_bytes(&mut line, authority.as_slice());
    assert(text::views(line@) =~= site.server_line(display as nat));
    line
}

/// Pick the display that an attempt tries.
pub fn pick_display(process: u32, seed: u64, attempt: u64) -> (display: u16)
    ensures
        display == display_number(process as nat, seed as nat, attempt as nat),
        200 <= display < 900,
{
    let sum: u128 = process as u128 + seed as u128 + attempt as u128;
    200 + (sum % 700) as u16
}

/// Whether the kernel can have answered so.
pub open spec fn told_cookie<U: FnOnce() -> std::result::Result<String, Source>>(
    uuid: U,
    verdict: std::result::Result<Seq<char>, ErrorView>,
) -> bool {
    exists|answer: std::result::Result<String, Source>| #[trigger]
        uuid.ensures((), answer) && tools::cookie_verdict(tools::heard(answer)) == verdict
}

/// Whether a tool can have been found, or found missing.
pub open spec fn equipped<F: Fn(&Vec<u8>) -> bool>(
    path: Option<Seq<u8>>,
    is_file: &F,
    name: Seq<u8>,
    found: bool,
) -> bool {
    if found {
        exists|tool: Seq<u8>| #[trigger] tools::searched(is_file, path, name, Some(tool))
    } else {
        tools::searched(is_file, path, name, None)
    }
}

/// Make ready for a server: find its tools, draw its cookie from the kernel, and
/// create its log. The cookie is what a server is raised with.
pub fn prepare<
    F: Fn(&Vec<u8>) -> bool,
    U: FnOnce() -> std::result::Result<String, Source>,
    L: FnOnce(&Vec<u8>) -> std::result::Result<(), Source>,
>(root: &Vec<u8>, path: &Option<Vec<u8>>, is_file: &F, uuid: U, create_log: L) -> (cookie: Result<
    String,
>)
    requires
        tools::askable(is_file),
        equipped(tools::told(*path), is_file, text::word("Xvfb"), true) && equipped(
            tools::told(*path),
            is_file,
            text::word("xauth"),
            true,
        ) ==> uuid.requires(()),
        forall|cookie: Seq<char>| #[trigger]
            told_cookie(uuid, Ok(cookie)) ==> host::makeable(
                create_log,
                ospath::joined(root@, text::word("logs/xvfb.log")),
            ),
    ensures
        match cookie {
            Ok(cookie) => {
                &&& equipped(tools::told(*path), is_file, text::word("Xvfb"), true)
                &&& equipped(tools::told(*path), is_file, text::word("xauth"), true)
                &&& told_cookie(uuid, Ok(cookie@))
                &&& tools::is_cookie(cookie@)
                &&& host::makes(
                    create_log,
                    "create Xvfb log"@,
                    ospath::joined(root@, text::word("logs/xvfb.log")),
                    Ok(()),
                )
            },
            Err(error) => {
                ||| error@ == ErrorView::MissingTool("Xvfb"@) && equipped(
                    tools::told(*path),
                    is_file,
                    text::word("Xvfb"),
                    false,
                )
                ||| equipped(tools::told(*path), is_file, text::word("Xvfb"), true) && {
                    ||| error@ == ErrorView::MissingTool("xauth"@) && equipped(
                        tools::told(*path),
                        is_file,
                        text::word("xauth"),
                        false,
                    )
                    ||| equipped(tools::told(*path), is_file, text::word("xauth"), true) && {
                        ||| told_cookie(uuid, Err(error@))
                        ||| (exists|cookie: Seq<char>| #[trigger] told_cookie(uuid, Ok(cookie)))
                            && host::makes(
                            create_log,
                            "create Xvfb log"@,
                            ospath::joined(root@, text::word("logs/xvfb.log")),
                            Err(error@),
                        )
                    }
                }
            },
        },
{
    match require_tool(path, "Xvfb", is_file) {
        Ok(_) => {},
        Err(error) => {
            return Err(error);
        },
    }
    match require_tool(path, "xauth", is_file) {
        Ok(_) => {},
        Err(error) => {
            return Err(error);
        },
    }
    let answer = uuid();
    let ghost heard = tools::heard(answer);
    let cookie = match random_cookie(answer) {
        Ok(cookie) => cookie,
        Err(error) => {
            assert(told_cookie(uuid, Err(error@)));
            return Err(error);
        },
    };
    assert(told_cookie(uuid, Ok(cookie@)));
    match make(create_log, "create Xvfb log", &join_text(root.as_slice(), "logs/xvfb.log")) {
        Ok(unit) => {
            assert(unit == ());
            Ok(cookie)
        },
        Err(error) => Err(error),
    }
}

/// How the wait for a server can end.
#[derive(Clone, Copy, Debug, Eq, PartialEq, Structural)]
pub enum Standing {
    /// The server takes authenticated connections.
    Ready,
    /// The server exited.
    Gone,
    /// The server outlived the wait in silence and must be killed.
    Silent,
}

/// One round of the wait for a server. `exited` tells of its process; `admitted`
/// whether its socket is there and took an authenticated connection.
pub fn stand_round(
    expired: bool,
    exited: std::result::Result<bool, Source>,
    admitted: bool,
) -> (round: std::result::Result<Round<Standing>, StandFault>)
    ensures
        match round {
            Ok(Round::Done(standing)) => match standing {
                Standing::Silent => expired,
                Standing::Gone => !expired && exited == Ok::<bool, Source>(true),
                Standing::Ready => !expired && exited == Ok::<bool, Source>(false) && admitted,
            },
            Ok(Round::Again(pause)) => !expired && exited == Ok::<bool, Source>(false) && !admitted
                && pause == 15,
            Err(fault) => exited matches Err(source) && !expired && fault == StandFault::Poll(source),
        },
{
    if expired {
        return Ok(Round::Done(Standing::Silent));
    }
    match exited {
        Err(source) => Err(StandFault::Poll(source)),
        Ok(true) => Ok(Round::Done(Standing::Gone)),
        Ok(false) => if admitted {
            Ok(Round::Done(Standing::Ready))
        } else {
            Ok(Round::Again(15))
        },
    }
}

proof fn lemma_one_more_attempt<Y: Yard>(
    site: Site,
    yards: Seq<Y>,
    history: Seq<Attempt>,
    attempt: Attempt,
    after: Y,
)
    requires
        site.tried(yards, history),
        history.len() < ATTEMPTS,
        site.attempted(history.len() as int, attempt, yards.last(), after),
        forall|i: int|
            0 <= i < history.len() ==> site.verdict(#[trigger] history[i]) == Ok::<
                bool,
                ErrorView,
            >(false),
    ensures
        site.tried(yards.push(after), history.push(attempt)),
{
    let longer = history.push(attempt);
    let passed = yards.push(after);
    assert forall|i: int| 0 <= i < longer.len() implies site.attempted(
        i,
        #[trigger] longer[i],
        passed[i],
        passed[i + 1],
    ) by {
        if i < history.len() {
            assert(longer[i] == history[i]);
        }
    }
    assert forall|i: int| 0 <= i < longer.len() - 1 implies site.verdict(#[trigger] longer[i])
        == Ok::<bool, ErrorView>(false) by {
        assert(longer[i] == history[i]);
    }
}

/// Raise a virtual X server on a private display of a yard.
pub fn raise<Y: Yard>(
    config: X11Config,
    root: &Vec<u8>,
    process: u32,
    cookie: &str,
    yard: &mut Y,
) -> (server: Result<DisplayServer>)
    requires
        tools::is_cookie(cookie@),
    ensures
        exists|yards: Seq<Y>, history: Seq<Attempt>|
            yards[0] == *old(yard) && yards.last() == *final(yard) && #[trigger] site(
                config,
                root@,
                process,
                cookie@,
            ).tried(yards, history) && site(config, root@, process, cookie@).concluded(
                history,
                server,
            ),
{
    let ghost site = self::site(config, root@, process, cookie@);
    proof {
        tools::law_cookies_decode(cookie@);
    }
    let key = match decode_hex(cookie) {
        Ok(key) => key,
        Err(error) => {
            return Err(error);
        },
    };
    let authority = join_text(root.as_slice(), "xauthority");
    let ghost mut yards: Seq<Y> = seq![*yard];
    let ghost mut history: Seq<Attempt> = Seq::empty();
    let mut attempt: u64 = 0;
    while attempt < ATTEMPTS
        invariant
            attempt <= ATTEMPTS,
            history.len() == attempt,
            site == self::site(config, root@, process, cookie@),
            authority@ == site.authority(),
            key@ == site.key(),
            site.tried(yards, history),
            yards[0] == *old(yard),
            yards.last() == *yard,
            forall|i: int|
                0 <= i < history.len() ==> site.verdict(#[trigger] history[i]) == Ok::<
                    bool,
                    ErrorView,
                >(false),
        decreases ATTEMPTS - attempt,
    {
        let ghost before = *yard;
        let seed: u64 = yard.claim();
        let ghost claimed = *yard;
        let display: u16 = pick_display(process, seed, attempt);
        let line = authorize_line(&authority, display, cookie, Ghost(site));
        let authorized = yard.authorize(&authority, &line);
        let ghost allowed = *yard;
        let ghost unstood = Attempt { seed, authorized, stood: Ok(false) };
        assert(site.display(attempt as int, unstood) == display as nat);
        let output = match authorized {
            Err(source) => {
                proof {
                    assert(site.attempted_by(
                        attempt as int,
                        unstood,
                        before,
                        claimed,
                        allowed,
                        allowed,
                    ));
                    lemma_one_more_attempt(site, yards, history, unstood, allowed);
                    yards = yards.push(allowed);
                    history = history.push(unstood);
                    assert(site.tried(yards, history));
                }
                return Err(io("create X11 authority", &text_bytes("xauth"), source));
            },
            Ok(output) => output,
        };
        if !output.success {
            proof {
                assert(site.attempted_by(
                    attempt as int,
                    unstood,
                    before,
                    claimed,
                    allowed,
                    allowed,
                ));
                lemma_one_more_attempt(site, yards, history, unstood, allowed);
                yards = yards.push(allowed);
                history = history.push(unstood);
                assert(site.tried(yards, history));
            }
            return Err(
                Error::Command {
                    command: "xauth".to_owned(),
                    status: output.status,
                    stderr: trimmed_text(&output.stderr),
                },
            );
        }
        let place = text_bytes(
            glue2("/tmp/.X11-unix/X", decimal_text(display as u128).as_str()).as_str(),
        );
        let command = server_line(&authority, display, config, Ghost(site));
        let stood = yard.stand(&authority, &command, &place, &key);
        let ghost made = Attempt { seed, authorized, stood };
        proof {
            assert(site.display(attempt as int, made) == display as nat);
            assert(site.attempted_by(attempt as int, made, before, claimed, allowed, *yard));
            lemma_one_more_attempt(site, yards, history, made, *yard);
            yards = yards.push(*yard);
            history = history.push(made);
            assert(site.tried(yards, history));
        }
        match stood {
            Ok(true) => {
                return Ok(DisplayServer::X11 { display, socket: place, cookie: key });
            },
            Ok(false) => {},
            Err(StandFault::Harden(source)) => {
                return Err(io("harden private file", &authority, source));
            },
            Err(StandFault::CloneLog(source)) => {
                return Err(
                    io("clone Xvfb log", &join_text(root.as_slice(), "logs/xvfb.log"), source),
                );
            },
            Err(StandFault::Spawn(source)) => {
                return Err(io("spawn Xvfb", &text_bytes("Xvfb"), source));
            },
            Err(StandFault::Poll(source)) => {
                return Err(io("poll Xvfb", &text_bytes("Xvfb"), source));
            },
        }
        attempt += 1;
    }
    assert(site.spent(history));
    Err(
        Error::Containment {
            layer: "Xvfb",
            detail: "could not allocate a private display after 24 attempts".to_owned(),
        },
    )
}

proof fn lemma_wasted(site: Site, yards: Seq<Wasteland>, history: Seq<Attempt>, count: int)
    requires
        site.tried(yards, history),
        0 <= count <= history.len(),
        yards[0].claimed == 0 && yards[0].authorized == 0 && yards[0].raised == 0,
    ensures
        yards[count].claimed == count,
        yards[count].authorized == count,
        yards[count].raised == count,
    decreases count,
{
    if count > 0 {
        lemma_wasted(site, yards, history, count - 1);
        assert(site.attempted(count - 1, history[count - 1], yards[count - 1], yards[count]));
    }
}

/// Where no server ever stands, each attempt claims, authorizes, and raises once, and
/// the raising gives up only when every attempt is spent.
pub proof fn law_every_attempt_is_made_once(
    site: Site,
    yards: Seq<Wasteland>,
    history: Seq<Attempt>,
    server: Result<DisplayServer>,
)
    requires
        site.tried(yards, history),
        site.concluded(history, server),
        yards[0].claimed == 0 && yards[0].authorized == 0 && yards[0].raised == 0,
    ensures
        server is Err,
        yards.last().claimed == ATTEMPTS,
        yards.last().authorized == ATTEMPTS,
        yards.last().raised == ATTEMPTS,
{
    lemma_wasted(site, yards, history, history.len() as int);
    if history.len() > 0 {
        let last = history.len() - 1;
        assert(site.attempted(last, history[last], yards[last], yards[last + 1]));
        assert(site.verdict(history.last()) == Ok::<bool, ErrorView>(false));
    }
}

/// A display is private to its attempt: its number is one of the seven hundred from two
/// hundred on, and the next attempt takes the next one, around the end.
pub proof fn law_attempts_take_displays_in_turn(
    process: u32,
    seed: u64,
    attempt: u64,
    display: u16,
    next: u16,
)
    requires
        attempt < u64::MAX,
        pick_display.ensures((process, seed, attempt), display),
        pick_display.ensures((process, seed, (attempt + 1) as u64), next),
    ensures
        200 <= display < 900,
        next == if display == 899 {
            200int
        } else {
            display + 1
        },
        (display - 200 - process - seed - attempt) % 700 == 0,
{
    let sum = process + seed + attempt;
    assert((sum + 1) % 700 == (if sum % 700 == 699 {
        0
    } else {
        sum % 700 + 1
    })) by (nonlinear_arith)
        requires
            sum >= 0,
    ;
}

/// A server is started on its display with the asked screen, closed to the network, and
/// behind the authority file to which its cookie was added.
pub proof fn law_servers_stand_behind_their_cookie(site: Site, display: nat)
    ensures
        ({
            let line = site.server_line(display);
            let name = encode_utf8(":"@ + text::decimal(display));
            let authority = ospath::joined(site.root, text::word("xauthority"));
            let asked = site.authorize_line(display);
            &&& line[0] == text::word("Xvfb") && line[1] == name
            &&& line[2] == text::word("-screen") && line[3] == text::word("0") && line[4]
                == encode_utf8(
                text::decimal(site.config.width as nat) + "x"@ + text::decimal(
                    site.config.height as nat,
                ) + "x"@ + text::decimal(site.config.depth as nat),
            )
            &&& line[5] == text::word("-nolisten") && line[6] == text::word("tcp")
            &&& line[7] == text::word("-noreset")
            &&& line[8] == text::word("-auth") && line[9] == authority
            &&& line.len() == 10
            &&& asked == seq![
                text::word("xauth"),
                text::word("-f"),
                encode_utf8(text::lossy(authority)),
                text::word("add"),
                name,
                text::word("MIT-MAGIC-COOKIE-1"),
                encode_utf8(site.cookie),
            ]
            &&& socket(display) == encode_utf8("/tmp/.X11-unix/X"@ + text::decimal(display))
        }),
{
}

/// A server counts as ready only while it lives and admits its client in time.
pub proof fn law_ready_servers_admit_their_client(
    expired: bool,
    exited: std::result::Result<bool, Source>,
    admitted: bool,
    round: std::result::Result<Round<Standing>, StandFault>,
)
    requires
        stand_round.ensures((expired, exited, admitted), round),
    ensures
        round == Ok::<Round<Standing>, StandFault>(Round::Done(Standing::Ready)) <==> !expired
            && exited == Ok::<bool, Source>(false) && admitted,
        round == Ok::<Round<Standing>, StandFault>(Round::Done(Standing::Gone)) <==> !expired
            && exited == Ok::<bool, Source>(true),
        round == Ok::<Round<Standing>, StandFault>(Round::Done(Standing::Silent)) <==> expired,
{
}

/// A display is handed out only where its authority was made and its server stands, and
/// every failure but a server that does not stand ends the attempts.
pub proof fn law_displays_are_handed_out_standing(site: Site, history: Seq<Attempt>, display: nat)
    requires
        site.outcome(history) == Ok::<nat, ErrorView>(display),
    ensures
        history.len() > 0,
        history.last().authorized matches Ok(output) && output.success,
        history.last().stood == Ok::<bool, StandFault>(true),
        display == 200 + (site.process + history.last().seed + history.len() - 1) % 700,
{
}

} // verus!
