//! Windows of the private X11 display: how they are chosen, and where the
//! pointer stands to them.
use crate::duration::Duration;
use crate::error::{Error, ErrorView, Result};
use crate::poll::Round;
use crate::text;
use crate::text::{characters, contains, glue3, lossy_text, same, spell_range};
use vstd::prelude::*;

verus! {

// ---------------------------------------------------------------------------
// Selection
// ---------------------------------------------------------------------------

/// Top-level window selection law.
#[derive(Debug, Eq, PartialEq)]
pub enum WindowQuery {
    TitleContains(String),
    TitleExact(String),
}

impl Clone for WindowQuery {
    fn clone(&self) -> (copy: Self)
        ensures
            copy@ == self@,
    {
        match self {
            WindowQuery::TitleContains(fragment) => WindowQuery::TitleContains(fragment.clone()),
            WindowQuery::TitleExact(title) => WindowQuery::TitleExact(title.clone()),
        }
    }
}

/// Content of a [`WindowQuery`].
#[verifier::ext_equal]
pub enum WindowQueryView {
    TitleContains(Seq<char>),
    TitleExact(Seq<char>),
}

impl View for WindowQuery {
    type V = WindowQueryView;

    open spec fn view(&self) -> WindowQueryView {
        match self {
            WindowQuery::TitleContains(fragment) => WindowQueryView::TitleContains(fragment@),
            WindowQuery::TitleExact(title) => WindowQueryView::TitleExact(title@),
        }
    }
}

impl WindowQueryView {
    /// Whether a window of this title is meant.
    pub open spec fn admits(self, title: Seq<char>) -> bool {
        match self {
            WindowQueryView::TitleContains(fragment) => text::contains_run(title, fragment),
            WindowQueryView::TitleExact(expected) => title == expected,
        }
    }

    /// What is looked for, in words.
    pub open spec fn words(self) -> Seq<char> {
        match self {
            WindowQueryView::TitleContains(fragment) => "title containing `"@ + fragment + "`"@,
            WindowQueryView::TitleExact(title) => "title `"@ + title + "`"@,
        }
    }
}

impl WindowQuery {
    /// Windows whose title holds a fragment.
    pub fn title_contains(fragment: &str) -> (query: Self)
        ensures
            query@ == WindowQueryView::TitleContains(fragment@),
    {
        WindowQuery::TitleContains(fragment.to_owned())
    }

    /// Windows of one title.
    pub fn title_exact(title: &str) -> (query: Self)
        ensures
            query@ == WindowQueryView::TitleExact(title@),
    {
        WindowQuery::TitleExact(title.to_owned())
    }

    /// Decide whether a window of this title is meant.
    pub fn matches(&self, title: &str) -> (verdict: bool)
        ensures
            verdict == self@.admits(title@),
    {
        match self {
            WindowQuery::TitleContains(fragment) => contains(title, fragment.as_str()),
            WindowQuery::TitleExact(expected) => same(title, expected.as_str()),
        }
    }

    /// Say what is looked for.
    pub fn description(&self) -> (text: String)
        ensures
            text@ == self@.words(),
    {
        match self {
            WindowQuery::TitleContains(fragment) => glue3(
                "title containing `",
                fragment.as_str(),
                "`",
            ),
            WindowQuery::TitleExact(title) => glue3("title `", title.as_str(), "`"),
        }
    }
}

impl From<&str> for WindowQuery {
    fn from(fragment: &str) -> (query: Self)
        ensures
            query@ == WindowQueryView::TitleContains(fragment@),
    {
        WindowQuery::title_contains(fragment)
    }
}

impl vstd::std_specs::convert::FromSpecImpl<&str> for WindowQuery {
    open spec fn obeys_from_spec() -> bool {
        false
    }

    open spec fn from_spec(fragment: &str) -> Self {
        arbitrary()
    }
}

impl From<String> for WindowQuery {
    fn from(fragment: String) -> (query: Self) {
        WindowQuery::TitleContains(fragment)
    }
}

impl vstd::std_specs::convert::FromSpecImpl<String> for WindowQuery {
    open spec fn obeys_from_spec() -> bool {
        true
    }

    open spec fn from_spec(fragment: String) -> Self {
        WindowQuery::TitleContains(fragment)
    }
}

/// A real top-level X11 window.
#[derive(Debug, Eq, PartialEq)]
pub struct Window {
    id: u32,
    title: String,
}

impl Clone for Window {
    fn clone(&self) -> (copy: Self)
        ensures
            copy@ == self@,
    {
        Window { id: self.id, title: self.title.clone() }
    }
}

/// Content of a [`Window`].
#[verifier::ext_equal]
pub struct WindowView {
    pub id: u32,
    pub title: Seq<char>,
}

impl View for Window {
    type V = WindowView;

    closed spec fn view(&self) -> WindowView {
        WindowView { id: self.id, title: self.title@ }
    }
}

impl Window {
    /// A window that the server reported.
    pub fn found(id: u32, title: String) -> (window: Self)
        ensures
            window@ == (WindowView { id, title: title@ }),
    {
        Window { id, title }
    }

    /// The server's identifier of the window.
    pub fn id(&self) -> (id: u32)
        ensures
            id == self@.id,
    {
        self.id
    }

    /// The window's title.
    pub fn title(&self) -> (title: &str)
        ensures
            title@ == self@.title,
    {
        self.title.as_str()
    }
}

/// Text without the zero bytes at its end.
pub open spec fn unterminated(text: Seq<char>) -> Seq<char>
    decreases text.len(),
{
    if text.len() > 0 && text.last() == '\0' {
        unterminated(text.drop_last())
    } else {
        text
    }
}

/// What one of a window's two title properties tells.
#[derive(Debug)]
pub enum TitleStep {
    /// The title is known, or the window is gone.
    Known(Option<String>),
    /// The property is empty; the next one decides.
    Empty,
}

/// Read one title property. `value` is absent when the window is gone.
pub fn title_step(value: Option<Vec<u8>>) -> (step: TitleStep)
    ensures
        match value {
            None => step == TitleStep::Known(None),
            Some(value) => if value@.len() == 0 {
                step == TitleStep::Empty
            } else {
                step matches TitleStep::Known(Some(title)) && title@ == unterminated(
                    text::lossy(value@),
                )
            },
        },
{
    match value {
        None => TitleStep::Known(None),
        Some(value) => {
            if value.len() == 0 {
                return TitleStep::Empty;
            }
            let spelled = characters(lossy_text(value.as_slice()).as_str());
            let ghost whole = spelled@;
            let mut end: usize = spelled.len();
            assert(whole.take(end as int) =~= whole);
            while end > 0 && spelled[end - 1] == '\0'
                invariant
                    end <= spelled.len(),
                    spelled@ == whole,
                    unterminated(whole.take(end as int)) == unterminated(whole),
                decreases end,
            {
                assert(whole.take(end as int).drop_last() =~= whole.take(end - 1));
                end = end - 1;
            }
            assert(whole.subrange(0, end as int) =~= whole.take(end as int));
            TitleStep::Known(Some(spell_range(&spelled, 0, end)))
        },
    }
}

/// The two properties that can hold a window's title, in the order they are read.
#[derive(Clone, Copy, Debug, PartialEq, Eq, Structural)]
pub enum TitleProperty {
    /// The title that the window manager specification names.
    NetName,
    /// The title of older clients.
    Name,
}

/// Whether a title is what a window's properties, read in order, come to.
pub open spec fn titled<R: Fn(TitleProperty) -> Result<Option<Vec<u8>>>>(
    read: &R,
    title: Result<Option<String>>,
) -> bool {
    exists|first: Result<Option<Vec<u8>>>| #[trigger]
        read.ensures((TitleProperty::NetName,), first) && if first matches Ok(Some(value))
            && value@.len() == 0 {
            exists|second: Result<Option<Vec<u8>>>| #[trigger]
                read.ensures((TitleProperty::Name,), second) && spells(second, title)
        } else {
            spells(first, title)
        }
}

/// Whether a title is what one property tells, an empty one telling nothing.
pub open spec fn spells(
    property: Result<Option<Vec<u8>>>,
    title: Result<Option<String>>,
) -> bool {
    match property {
        Err(error) => title == Err::<Option<String>, Error>(error),
        Ok(None) => title == Ok::<Option<String>, Error>(None),
        Ok(Some(value)) => if value@.len() == 0 {
            title == Ok::<Option<String>, Error>(None)
        } else {
            title matches Ok(Some(own)) && own@ == unterminated(text::lossy(value@))
        },
    }
}

/// Read a window's title. The second property is asked for only where the first
/// is empty; a property is absent when the window is gone.
pub fn read_title<R: Fn(TitleProperty) -> Result<Option<Vec<u8>>>>(read: &R) -> (title: Result<
    Option<String>,
>)
    requires
        read.requires((TitleProperty::NetName,)),
        forall|value: Vec<u8>| #[trigger]
            read.ensures((TitleProperty::NetName,), Ok::<_, Error>(Some(value))) && value@.len()
                == 0 ==> read.requires((TitleProperty::Name,)),
    ensures
        titled(read, title),
{
    let first = read(TitleProperty::NetName);
    assert(read.ensures((TitleProperty::NetName,), first));
    match first {
        Err(error) => Err(error),
        Ok(value) => match title_step(value) {
            TitleStep::Known(title) => Ok(title),
            TitleStep::Empty => {
                assert(value matches Some(bytes) && read.ensures(
                    (TitleProperty::NetName,),
                    Ok::<_, Error>(Some(bytes)),
                ));
                let second = read(TitleProperty::Name);
                assert(read.ensures((TitleProperty::Name,), second));
                match second {
                    Err(error) => Err(error),
                    Ok(value) => match title_step(value) {
                        TitleStep::Known(title) => Ok(title),
                        TitleStep::Empty => Ok(None),
                    },
                }
            },
        },
    }
}

// ---------------------------------------------------------------------------
// Search
// ---------------------------------------------------------------------------

/// A breadth-first search of the window tree, carried out one server query at a
/// time.
#[derive(Debug)]
pub struct WindowSearch {
    queue: Vec<u32>,
    children: Vec<u32>,
    next: usize,
    titled: Option<String>,
    matches: Vec<Window>,
}

/// Content of a [`WindowSearch`]: the windows to expand, the children still to
/// consider, the title of the first of them once it is known to match, and the
/// windows found.
#[verifier::ext_equal]
pub struct WindowSearchView {
    pub queue: Seq<u32>,
    pub pending: Seq<u32>,
    pub titled: Option<Seq<char>>,
    pub matches: Seq<WindowView>,
}

/// The contents of windows.
pub open spec fn windows(list: Seq<Window>) -> Seq<WindowView> {
    Seq::new(list.len(), |i: int| list[i]@)
}

/// What the search must learn next.
#[derive(Clone, Copy, Debug, PartialEq, Eq, Structural)]
pub enum SearchStep {
    /// The children of a window.
    Tree(u32),
    /// The title of a window.
    Title(u32),
    /// Whether a window is viewable.
    Visibility(u32),
    /// Nothing: the search is over.
    Finished,
}

impl WindowSearchView {
    /// A search from a root.
    pub open spec fn from_root(root: u32) -> Self {
        WindowSearchView { queue: seq![root], pending: seq![], titled: None, matches: seq![] }
    }

    /// What the search must learn next.
    pub open spec fn step(self) -> SearchStep {
        if self.pending.len() > 0 {
            if self.titled is Some {
                SearchStep::Visibility(self.pending[0])
            } else {
                SearchStep::Title(self.pending[0])
            }
        } else if self.queue.len() > 0 {
            SearchStep::Tree(self.queue[0])
        } else {
            SearchStep::Finished
        }
    }

    /// The search with its first child done.
    pub open spec fn considered(self) -> Self {
        WindowSearchView {
            queue: self.queue.push(self.pending[0]),
            pending: self.pending.skip(1),
            titled: None,
            matches: self.matches,
        }
    }

    /// The search after it learned a window's children.
    pub open spec fn with_children(self, children: Seq<u32>) -> Self {
        WindowSearchView { queue: self.queue.skip(1), pending: children, ..self }
    }

    /// The search after it learned a window's title.
    pub open spec fn with_title(self, query: WindowQueryView, title: Option<Seq<char>>) -> Self {
        if title matches Some(title) && query.admits(title) {
            WindowSearchView { titled: title, ..self }
        } else {
            self.considered()
        }
    }

    /// The search after it learned whether a window is viewable.
    pub open spec fn with_visibility(self, viewable: bool) -> Self {
        let next = self.considered();
        if viewable {
            WindowSearchView {
                matches: self.matches.push(
                    WindowView { id: self.pending[0], title: self.titled.unwrap() },
                ),
                ..next
            }
        } else {
            next
        }
    }
}

impl View for WindowSearch {
    type V = WindowSearchView;

    closed spec fn view(&self) -> WindowSearchView {
        WindowSearchView {
            queue: self.queue@,
            pending: self.children@.skip(self.next as int),
            titled: match self.titled {
                Some(title) => Some(title@),
                None => None,
            },
            matches: windows(self.matches@),
        }
    }
}

impl WindowSearch {
    #[verifier::type_invariant]
    spec fn inv(self) -> bool {
        self.next <= self.children@.len()
    }

    /// Begin a search at a root window.
    pub fn begin(root: u32) -> (search: Self)
        ensures
            search@ == WindowSearchView::from_root(root),
    {
        let mut queue: Vec<u32> = Vec::new();
        queue.push(root);
        let search = WindowSearch {
            queue,
            children: Vec::new(),
            next: 0,
            titled: None,
            matches: Vec::new(),
        };
        assert(search@ =~= WindowSearchView::from_root(root));
        search
    }

    /// What the search must learn next.
    pub fn step(&self) -> (step: SearchStep)
        ensures
            step == self@.step(),
    {
        proof {
            use_type_invariant(self);
        }
        if self.next < self.children.len() {
            if self.titled.is_some() {
                SearchStep::Visibility(self.children[self.next])
            } else {
                SearchStep::Title(self.children[self.next])
            }
        } else if self.queue.len() > 0 {
            SearchStep::Tree(self.queue[0])
        } else {
            SearchStep::Finished
        }
    }

    /// Tell the children of the window that the search asked for. A window that
    /// is gone has none.
    pub fn tree(self, children: Option<Vec<u32>>) -> (next: Self)
        requires
            self@.step() is Tree,
        ensures
            next@ == self@.with_children(
                match children {
                    Some(children) => children@,
                    None => seq![],
                },
            ),
    {
        let ghost before = self@;
        let WindowSearch { queue, children: _, next: _, titled, matches } = self;
        let mut queue = queue;
        let _front: u32 = queue.remove(0);
        let children = match children {
            Some(children) => children,
            None => Vec::new(),
        };
        let next = WindowSearch { queue, children, next: 0, titled, matches };
        assert(next@.queue =~= before.queue.skip(1));
        assert(next@.pending =~= children@);
        next
    }

    /// Tell the title of the window that the search asked for, if it has one.
    pub fn title(self, query: &WindowQuery, title: Option<String>) -> (next: Self)
        requires
            self@.step() is Title,
        ensures
            next@ == self@.with_title(
                query@,
                match title {
                    Some(title) => Some(title@),
                    None => None,
                },
            ),
    {
        proof {
            use_type_invariant(&self);
        }
        match title {
            Some(title) if query.matches(title.as_str()) => WindowSearch {
                queue: self.queue,
                children: self.children,
                next: self.next,
                titled: Some(title),
                matches: self.matches,
            },
            _ => self.consider(),
        }
    }

    /// Tell whether the window that the search asked for is viewable.
    pub fn visibility(self, viewable: bool) -> (next: Self)
        requires
            self@.step() is Visibility,
        ensures
            next@ == self@.with_visibility(viewable),
    {
        proof {
            use_type_invariant(&self);
        }
        let ghost before = self@;
        let WindowSearch { queue, children, next, titled, matches } = self;
        let mut matches = matches;
        if let Some(title) = titled {
            if viewable {
                matches.push(Window { id: children[next], title });
                assert(windows(matches@) =~= before.matches.push(
                    WindowView { id: before.pending[0], title: before.titled.unwrap() },
                ));
            }
        }
        WindowSearch { queue, children, next, titled: None, matches }.consider()
    }

    fn consider(self) -> (next: Self)
        requires
            self@.pending.len() > 0,
        ensures
            next@ == self@.considered(),
    {
        proof {
            use_type_invariant(&self);
        }
        let ghost before = self@;
        let WindowSearch { queue, children, next, titled: _, matches } = self;
        let mut queue = queue;
        assert(next < children@.len());
        assert(children.len() <= usize::MAX);
        queue.push(children[next]);
        let done = WindowSearch { queue, children, next: next + 1, titled: None, matches };
        assert(done@.pending =~= before.pending.skip(1));
        done
    }

    /// The windows found, in the order of the search.
    pub fn into_matches(self) -> (matches: Vec<Window>)
        ensures
            windows(matches@) == self@.matches,
    {
        self.matches
    }
}

/// A window tree that does not change during a search.
pub struct WindowTree {
    pub children: spec_fn(u32) -> Seq<u32>,
    pub title: spec_fn(u32) -> Option<Seq<char>>,
    pub viewable: spec_fn(u32) -> bool,
}

impl WindowTree {
    /// The children of windows, one window after the other.
    pub open spec fn offspring(self, parents: Seq<u32>) -> Seq<u32>
        decreases parents.len(),
    {
        if parents.len() == 0 {
            seq![]
        } else {
            self.offspring(parents.drop_last()) + (self.children)(parents.last())
        }
    }

    /// The windows that a query means, out of the given ones.
    pub open spec fn meant(self, query: WindowQueryView, list: Seq<u32>) -> Seq<WindowView>
        decreases list.len(),
    {
        if list.len() == 0 {
            seq![]
        } else {
            let rest = self.meant(query, list.drop_last());
            match (self.title)(list.last()) {
                Some(title) if query.admits(title) && (self.viewable)(list.last()) => rest.push(
                    WindowView { id: list.last(), title },
                ),
                _ => rest,
            }
        }
    }

    /// The search after the tree answered its question.
    pub open spec fn answered(self, query: WindowQueryView, search: WindowSearchView) -> WindowSearchView {
        match search.step() {
            SearchStep::Tree(window) => search.with_children((self.children)(window)),
            SearchStep::Title(window) => search.with_title(query, (self.title)(window)),
            SearchStep::Visibility(window) => search.with_visibility((self.viewable)(window)),
            SearchStep::Finished => search,
        }
    }

    /// How a search from `root` stands once it expanded the windows `expanded`:
    /// windows are expanded in the order in which they were considered, children
    /// are considered in the order of their parents, and the windows found are
    /// those meant among the children considered so far.
    pub open spec fn searched(
        self,
        query: WindowQueryView,
        root: u32,
        expanded: Seq<u32>,
        search: WindowSearchView,
    ) -> bool {
        let children = self.offspring(expanded);
        let done = children.take(children.len() - search.pending.len());
        &&& search.pending.len() <= children.len()
        &&& children == done + search.pending
        &&& seq![root] + done == expanded + search.queue
        &&& search.matches == self.meant(query, done)
        &&& search.titled matches Some(title) ==> search.pending.len() > 0 && (self.title)(
            search.pending[0],
        ) == Some(title) && query.admits(title)
    }
}

/// A search begins with nothing expanded.
pub proof fn law_search_begins_at_its_root(tree: WindowTree, query: WindowQueryView, root: u32)
    ensures
        tree.searched(query, root, seq![], WindowSearchView::from_root(root)),
{
    let search = WindowSearchView::from_root(root);
    assert(tree.offspring(seq![]) =~= seq![]);
    assert(seq![root] + Seq::<u32>::empty() =~= Seq::<u32>::empty() + search.queue);
}

/// Every answer keeps a search breadth-first: the window whose children were
/// told becomes the last expanded one, and no other answer expands a window.
pub proof fn law_search_stays_breadth_first(
    tree: WindowTree,
    query: WindowQueryView,
    root: u32,
    expanded: Seq<u32>,
    search: WindowSearchView,
)
    requires
        tree.searched(query, root, expanded, search),
    ensures
        tree.searched(
            query,
            root,
            match search.step() {
                SearchStep::Tree(window) => expanded.push(window),
                _ => expanded,
            },
            tree.answered(query, search),
        ),
{
    let children = tree.offspring(expanded);
    let done = children.take(children.len() - search.pending.len());
    let after = tree.answered(query, search);
    match search.step() {
        SearchStep::Tree(window) => {
            let grown = expanded.push(window);
            assert(grown.drop_last() =~= expanded);
            let wider = tree.offspring(grown);
            assert(wider == children + (tree.children)(window));
            assert(done =~= children);
            assert(wider.take(wider.len() - after.pending.len()) =~= children);
            assert(expanded + search.queue =~= grown + search.queue.skip(1));
        },
        SearchStep::Title(window) => {
            if !(after.titled is Some) {
                lemma_considered(tree, query, root, expanded, search, false);
            }
        },
        SearchStep::Visibility(window) => {
            lemma_considered(tree, query, root, expanded, search, (tree.viewable)(window));
        },
        SearchStep::Finished => {},
    }
}

proof fn lemma_considered(
    tree: WindowTree,
    query: WindowQueryView,
    root: u32,
    expanded: Seq<u32>,
    search: WindowSearchView,
    found: bool,
)
    requires
        tree.searched(query, root, expanded, search),
        search.pending.len() > 0,
        found == ((tree.title)(search.pending[0]) matches Some(title) && query.admits(title)
            && (tree.viewable)(search.pending[0])),
        found ==> search.titled is Some,
    ensures
        tree.searched(
            query,
            root,
            expanded,
            if found {
                search.with_visibility(true)
            } else {
                search.considered()
            },
        ),
{
    let children = tree.offspring(expanded);
    let done = children.take(children.len() - search.pending.len());
    let after = if found {
        search.with_visibility(true)
    } else {
        search.considered()
    };
    let more = done.push(search.pending[0]);
    assert(children.take(children.len() - after.pending.len()) =~= more);
    assert(children =~= more + after.pending);
    assert(seq![root] + more =~= (seq![root] + done).push(search.pending[0]));
    assert((expanded + search.queue).push(search.pending[0]) =~= expanded + after.queue);
    assert(more.drop_last() =~= done);
}

/// A finished search has expanded its root and every window it came upon, and
/// has found every window meant among them.
pub proof fn law_finished_search_is_complete(
    tree: WindowTree,
    query: WindowQueryView,
    root: u32,
    expanded: Seq<u32>,
    search: WindowSearchView,
)
    requires
        tree.searched(query, root, expanded, search),
        search.step() is Finished,
    ensures
        expanded == seq![root] + tree.offspring(expanded),
        search.matches == tree.meant(query, tree.offspring(expanded)),
{
    let children = tree.offspring(expanded);
    assert(children.take(children.len() - search.pending.len()) =~= children);
    assert(expanded + search.queue =~= expanded);
}

/// One round of waiting for a window, once the application has proved to be
/// running. `found` holds the windows that match.
pub fn window_round(query: &WindowQuery, found: Vec<Window>, expired: bool, timeout: Duration) -> (
    round: Result<Round<Window>>)
    ensures
        match round {
            Ok(Round::Done(window)) => found@.len() > 0 && window@ == found@[0]@,
            Ok(Round::Again(pause)) => found@.len() == 0 && !expired && pause == 15,
            Err(error) => found@.len() == 0 && expired && error@ == (ErrorView::Timeout {
                waiting: "X11 window with "@ + query@.words(),
                timeout: timeout@,
            }),
        },
{
    if found.len() > 0 {
        let mut found = found;
        return Ok(Round::Done(found.remove(0)));
    }
    if expired {
        return Err(
            Error::Timeout {
                waiting: text::glue2("X11 window with ", query.description().as_str()),
                timeout,
            },
        );
    }
    Ok(Round::Again(15))
}

/// Whether an answer is what looking through a parent's children, in order, for a
/// viewable one of a title comes to. Visibility is asked only of a child of that
/// title, and nothing is asked after the first match or failure.
pub open spec fn finds<N: Fn(u32) -> Result<Option<String>>, V: Fn(u32) -> Result<bool>>(
    title_of: &N,
    viewable: &V,
    children: Seq<u32>,
    title: Seq<char>,
    found: Result<Option<Window>>,
) -> bool
    decreases children.len(),
{
    if children.len() == 0 {
        found == Ok::<Option<Window>, Error>(None)
    } else {
        exists|told: Result<Option<String>>| #[trigger]
            title_of.ensures((children[0],), told) && match told {
                Err(error) => found == Err::<Option<Window>, Error>(error),
                Ok(own) => if own matches Some(own) && own@ == title {
                    exists|seen: Result<bool>| #[trigger]
                        viewable.ensures((children[0],), seen) && match seen {
                            Err(error) => found == Err::<Option<Window>, Error>(error),
                            Ok(true) => found matches Ok(Some(window)) && window@ == (WindowView {
                                id: children[0],
                                title,
                            }),
                            Ok(false) => finds(title_of, viewable, children.skip(1), title, found),
                        }
                } else {
                    finds(title_of, viewable, children.skip(1), title, found)
                },
            }
    }
}

/// Whether a parent's children may be looked through: each for its title, and those
/// of the title for their visibility.
pub open spec fn searchable<N: Fn(u32) -> Result<Option<String>>, V: Fn(u32) -> Result<bool>>(
    title_of: &N,
    viewable: &V,
    children: Seq<u32>,
    title: Seq<char>,
) -> bool {
    forall|i: int|
        0 <= i < children.len() ==> title_of.requires((#[trigger] children[i],)) && forall|
            own: String,
        | #[trigger]
            title_of.ensures((children[i],), Ok::<_, Error>(Some(own))) && own@ == title
                ==> viewable.requires((children[i],))
}

/// Find the first of a parent's children that is viewable under a title.
pub fn find_named_child<N: Fn(u32) -> Result<Option<String>>, V: Fn(u32) -> Result<bool>>(
    children: &Vec<u32>,
    title: &str,
    title_of: &N,
    viewable: &V,
) -> (found: Result<Option<Window>>)
    requires
        searchable(title_of, viewable, children@, title@),
    ensures
        finds(title_of, viewable, children@, title@, found),
{
    let mut index: usize = 0;
    assert(children@.skip(0) =~= children@);
    while index < children.len()
        invariant
            index <= children.len(),
            searchable(title_of, viewable, children@, title@),
            forall|found: Result<Option<Window>>| #[trigger]
                finds(title_of, viewable, children@.skip(index as int), title@, found) ==> finds(
                    title_of,
                    viewable,
                    children@,
                    title@,
                    found,
                ),
        decreases children.len() - index,
    {
        let ghost rest = children@.skip(index as int);
        let child = children[index];
        assert(rest[0] == child);
        assert(rest.skip(1) =~= children@.skip(index + 1));
        assert(children@[index as int] == child);
        let told = title_of(child);
        assert(title_of.ensures((rest[0],), told));
        match told {
            Err(error) => {
                let answer = Err(error);
                assert(finds(title_of, viewable, rest, title@, answer));
                return answer;
            },
            Ok(own) => {
                let named = match &own {
                    Some(own) => same(own.as_str(), title),
                    None => false,
                };
                if named {
                    assert(own matches Some(held) && title_of.ensures(
                        (children@[index as int],),
                        Ok::<_, Error>(Some(held)),
                    ));
                    let seen = viewable(child);
                    assert(viewable.ensures((rest[0],), seen));
                    match seen {
                        Err(error) => {
                            let answer = Err(error);
                            assert(finds(title_of, viewable, rest, title@, answer));
                            return answer;
                        },
                        Ok(true) => {
                            let answer = Ok(Some(Window { id: child, title: title.to_owned() }));
                            assert(finds(title_of, viewable, rest, title@, answer));
                            return answer;
                        },
                        Ok(false) => {},
                    }
                }
                assert forall|found: Result<Option<Window>>| #[trigger]
                    finds(title_of, viewable, children@.skip(index + 1), title@, found) implies finds(
                    title_of,
                    viewable,
                    children@,
                    title@,
                    found,
                ) by {
                    assert(finds(title_of, viewable, rest, title@, found));
                }
            },
        }
        index = index + 1;
    }
    assert(children@.skip(index as int) =~= seq![]);
    let answer = Ok(None);
    assert(finds(title_of, viewable, children@.skip(index as int), title@, answer));
    answer
}

/// What asking a window to close is called.
pub fn close_label(window: &Window) -> (label: String)
    ensures
        label@ == "close window `"@ + window@.title + "`"@,
{
    glue3("close window `", window.title(), "`")
}

/// Refuse to evict a window that nothing embeds.
pub fn demand_embedded(window: &Window, parent: u32, root: u32) -> (verdict: Result<()>)
    ensures
        match verdict {
            Ok(_) => parent != root,
            Err(error) => parent == root && error@ == (ErrorView::X11 {
                operation: "evict embedded window"@,
                detail: "window `"@ + window@.title + "` is already a root child"@,
            }),
        },
{
    if parent == root {
        return Err(
            Error::X11 {
                operation: "evict embedded window",
                detail: glue3("window `", window.title.as_str(), "` is already a root child"),
            },
        );
    }
    Ok(())
}

/// One round of waiting for an evicted window to redock, once the application
/// has proved to be running.
pub fn redock_round(window: &Window, redocked: Option<Window>, expired: bool, timeout: Duration) -> (
    round: Result<Round<Window>>)
    ensures
        match round {
            Ok(Round::Done(found)) => redocked == Some(found),
            Ok(Round::Again(pause)) => redocked is None && !expired && pause == 15,
            Err(error) => redocked is None && expired && error@ == (ErrorView::Timeout {
                waiting: "window `"@ + window@.title + "` to redock"@,
                timeout: timeout@,
            }),
        },
{
    match redocked {
        Some(found) => Ok(Round::Done(found)),
        None => {
            if expired {
                return Err(
                    Error::Timeout {
                        waiting: glue3("window `", window.title.as_str(), "` to redock"),
                        timeout,
                    },
                );
            }
            Ok(Round::Again(15))
        },
    }
}

/// Whether the window manager can activate windows: it lists the request among
/// its features.
pub fn activation_is_supported(features: &Option<Vec<u32>>, request: u32) -> (verdict: bool)
    ensures
        verdict == (features matches Some(features) && features@.contains(request)),
{
    match features {
        Some(list) => {
            let mut index: usize = 0;
            while index < list.len()
                invariant
                    index <= list.len(),
                    features matches Some(told) && told@ == list@,
                    forall|i: int| 0 <= i < index ==> list@[i] != request,
                decreases list.len() - index,
            {
                if list[index] == request {
                    assert(list@[index as int] == request);
                    return true;
                }
                index = index + 1;
            }
            false
        },
        None => false,
    }
}

/// Time allowed for the window manager to activate a window.
pub const ACTIVATION_TIMEOUT_MS: u64 = 2_000;

/// One round of waiting for the window manager to activate a window.
pub fn activation_round(window: &Window, active: Option<u32>, expired: bool) -> (round: Result<
    Round<()>,
>)
    ensures
        match round {
            Ok(Round::Done(_)) => active == Some(window@.id),
            Ok(Round::Again(pause)) => active != Some(window@.id) && !expired && pause == 8,
            Err(error) => active != Some(window@.id) && expired && error@ == (ErrorView::X11 {
                operation: "activate window"@,
                detail: "EWMH window manager did not activate `"@ + window@.title + "` within "@
                    + crate::duration::rendered(2_000_000_000),
            }),
        },
{
    let activated = match active {
        Some(active) => active == window.id,
        None => false,
    };
    if activated {
        return Ok(Round::Done(()));
    }
    if expired {
        return Err(
            Error::X11 {
                operation: "activate window",
                detail: text::glue4(
                    "EWMH window manager did not activate `",
                    window.title.as_str(),
                    "` within ",
                    Duration::from_millis(ACTIVATION_TIMEOUT_MS).text().as_str(),
                ),
            },
        );
    }
    Ok(Round::Again(8))
}

/// An exact query means one title, and a query for a fragment means every title that holds
/// it somewhere.
pub proof fn law_queries_mean_their_titles(query: WindowQuery, title: &str, verdict: bool)
    requires
        WindowQuery::matches.ensures((&query, title), verdict),
    ensures
        query@ matches WindowQueryView::TitleExact(expected) ==> (verdict <==> title@ == expected),
        query@ matches WindowQueryView::TitleContains(fragment) ==> (verdict <==> exists|
            before: Seq<char>,
            after: Seq<char>,
        |
            title@ == #[trigger] (before + fragment + after)),
{
    if let WindowQueryView::TitleContains(fragment) = query@ {
        if verdict {
            let at = choose|at: int| #[trigger] text::occurs_at(title@, fragment, at);
            let before = title@.take(at);
            let after = title@.skip(at + fragment.len());
            assert forall|k: int| at <= k < at + fragment.len() implies title@[k] == fragment[k
                - at] by {
                assert(title@[at + (k - at)] == fragment[k - at]);
            }
            assert(title@ =~= before + fragment + after);
        }
        if exists|before: Seq<char>, after: Seq<char>|
            title@ == #[trigger] (before + fragment + after) {
            let (before, after) = choose|before: Seq<char>, after: Seq<char>|
                title@ == #[trigger] (before + fragment + after);
            assert(text::occurs_at(title@, fragment, before.len() as int));
        }
    }
}

/// The windows meant among some are those of them whose title the query means and that can
/// be seen.
pub proof fn law_meant_windows_are_visible(
    tree: WindowTree,
    query: WindowQueryView,
    list: Seq<u32>,
    window: WindowView,
)
    ensures
        tree.meant(query, list).contains(window) <==> list.contains(window.id) && (tree.title)(
            window.id,
        ) == Some(window.title) && (tree.viewable)(window.id) && query.admits(window.title),
    decreases list.len(),
{
    if list.len() > 0 {
        let front = list.drop_last();
        let last = list.last();
        let rest = tree.meant(query, front);
        let whole = tree.meant(query, list);
        law_meant_windows_are_visible(tree, query, front, window);
        assert(list == front.push(last));
        assert(front.contains(window.id) ==> list.contains(window.id)) by {
            if front.contains(window.id) {
                let at = choose|at: int| 0 <= at < front.len() && front[at] == window.id;
                assert(list[at] == window.id);
            }
        }
        assert(list.contains(window.id) ==> front.contains(window.id) || window.id == last) by {
            if list.contains(window.id) {
                let at = choose|at: int| 0 <= at < list.len() && list[at] == window.id;
                if at < front.len() {
                    assert(front[at] == window.id);
                }
            }
        }
        assert(list[list.len() - 1] == last);
        assert(rest.contains(window) ==> whole.contains(window)) by {
            if rest.contains(window) {
                let at = choose|at: int| 0 <= at < rest.len() && rest[at] == window;
                assert(whole[at] == window);
            }
        }
        if whole.contains(window) {
            let at = choose|at: int| 0 <= at < whole.len() && whole[at] == window;
            if at < rest.len() {
                assert(rest[at] == window);
                assert(rest.contains(window));
            }
        }
        if window.id == last && (tree.title)(last) == Some(window.title) && (tree.viewable)(last)
            && query.admits(window.title) {
            assert(whole.last() == window);
            assert(whole[whole.len() - 1] == window);
        }
    }
}

/// A wait for a window ends with the first one found, and fails only where none was found
/// in time.
pub proof fn law_first_windows_are_taken(
    query: WindowQuery,
    found: Vec<Window>,
    expired: bool,
    timeout: Duration,
    round: Result<Round<Window>>,
)
    requires
        window_round.ensures((&query, found, expired, timeout), round),
    ensures
        found@.len() > 0 ==> (round matches Ok(Round::Done(window)) && window@ == found@[0]@),
        found@.len() == 0 && !expired ==> (round matches Ok(Round::Again(_))),
        found@.len() == 0 && expired ==> (round matches Err(error) && (error@ matches
            ErrorView::Timeout { timeout: limit, .. } && limit == timeout@)),
{
}

/// A child found by its title is one of the children, it answered to that title, and it
/// was seen.
pub proof fn law_found_children_are_named<
    N: Fn(u32) -> Result<Option<String>>,
    V: Fn(u32) -> Result<bool>,
>(title_of: &N, viewable: &V, children: Seq<u32>, title: Seq<char>, window: Window)
    requires
        finds(title_of, viewable, children, title, Ok(Some(window))),
    ensures
        children.contains(window@.id),
        window@.title == title,
        viewable.ensures((window@.id,), Ok::<bool, Error>(true)),
        exists|own: String| #[trigger]
            title_of.ensures((window@.id,), Ok::<_, Error>(Some(own))) && own@ == title,
    decreases children.len(),
{
    let told = choose|told: Result<Option<String>>| #[trigger]
        title_of.ensures((children[0],), told) && match told {
            Err(error) => false,
            Ok(own) => if own matches Some(own) && own@ == title {
                exists|seen: Result<bool>| #[trigger]
                    viewable.ensures((children[0],), seen) && match seen {
                        Err(error) => false,
                        Ok(true) => window@ == (WindowView { id: children[0], title }),
                        Ok(false) => finds(
                            title_of,
                            viewable,
                            children.skip(1),
                            title,
                            Ok(Some(window)),
                        ),
                    }
            } else {
                finds(title_of, viewable, children.skip(1), title, Ok(Some(window)))
            },
        };
    if finds(title_of, viewable, children.skip(1), title, Ok(Some(window))) {
        law_found_children_are_named(title_of, viewable, children.skip(1), title, window);
        let rest = children.skip(1);
        let at = choose|at: int| 0 <= at < rest.len() && rest[at] == window@.id;
        assert(children[at + 1] == window@.id);
    } else {
        assert(children[0] == window@.id);
    }
}

/// Only an embedded window is evicted, an evicted one is awaited until it redocks, and a
/// window counts as activated exactly when it is the active one.
pub proof fn law_windows_are_awaited_by_identity(
    window: Window,
    parent: u32,
    root: u32,
    eviction: Result<()>,
    redocked: Option<Window>,
    active: Option<u32>,
    expired: bool,
    timeout: Duration,
    redocking: Result<Round<Window>>,
    activation: Result<Round<()>>,
    features: Option<Vec<u32>>,
    request: u32,
    supported: bool,
)
    requires
        demand_embedded.ensures((&window, parent, root), eviction),
        redock_round.ensures((&window, redocked, expired, timeout), redocking),
        activation_round.ensures((&window, active, expired), activation),
        activation_is_supported.ensures((&features, request), supported),
    ensures
        eviction is Ok <==> parent != root,
        (redocking matches Ok(Round::Done(_))) <==> redocked is Some,
        redocking matches Ok(Round::Done(found)) ==> redocked == Some(found),
        redocking is Err <==> redocked is None && expired,
        (activation matches Ok(Round::Done(_))) <==> active == Some(window@.id),
        activation is Err <==> active != Some(window@.id) && expired,
        supported <==> (features matches Some(list) && exists|i: int|
            0 <= i < list@.len() && #[trigger] list@[i] == request),
{
}

/// A title is what the first telling property holds up to its trailing zeros.
pub proof fn law_titles_end_before_their_zeros(text: Seq<char>)
    ensures
        exists|zeros: Seq<char>|
            text == #[trigger] (unterminated(text) + zeros) && forall|i: int|
                0 <= i < zeros.len() ==> #[trigger] zeros[i] == '\0',
        unterminated(text).len() > 0 ==> unterminated(text).last() != '\0',
    decreases text.len(),
{
    if text.len() > 0 && text.last() == '\0' {
        let front = text.drop_last();
        law_titles_end_before_their_zeros(front);
        let zeros = choose|zeros: Seq<char>|
            front == #[trigger] (unterminated(front) + zeros) && forall|i: int|
                0 <= i < zeros.len() ==> #[trigger] zeros[i] == '\0';
        assert(unterminated(text) == unterminated(front));
        assert(text =~= front.push('\0'));
        assert(text =~= unterminated(text) + zeros.push('\0'));
    } else {
        assert(text =~= unterminated(text) + Seq::<char>::empty());
    }
}

} // verus!
