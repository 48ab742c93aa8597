//! Unix paths as byte strings: components, confinement, joining, and order.
use crate::order;
use crate::text;
use crate::text::{copy_bytes, copy_range, split_bytes};
use vstd::prelude::*;

verus! {

/// One step of a path.
#[derive(Debug)]
pub enum Component {
    RootDir,
    CurDir,
    ParentDir,
    Normal(Vec<u8>),
}

/// Content of a [`Component`].
#[verifier::ext_equal]
pub enum ComponentView {
    RootDir,
    CurDir,
    ParentDir,
    Normal(Seq<u8>),
}

impl View for Component {
    type V = ComponentView;

    open spec fn view(&self) -> ComponentView {
        match self {
            Component::RootDir => ComponentView::RootDir,
            Component::CurDir => ComponentView::CurDir,
            Component::ParentDir => ComponentView::ParentDir,
            Component::Normal(name) => ComponentView::Normal(name@),
        }
    }
}

/// Content of a run of components.
pub open spec fn steps(list: Seq<Component>) -> Seq<ComponentView> {
    Seq::new(list.len(), |i: int| list[i]@)
}

/// A path from the root.
pub open spec fn absolute(path: Seq<u8>) -> bool {
    path.len() > 0 && path[0] == 47
}

/// The steps spelled by slash-separated pieces. Empty pieces say nothing, nor
/// does `.`, except at the front of a relative path.
pub open spec fn spelled(pieces: Seq<Seq<u8>>, leading: bool) -> Seq<ComponentView>
    decreases pieces.len(),
{
    if pieces.len() == 0 {
        Seq::empty()
    } else {
        let rest = spelled(pieces.skip(1), false);
        if pieces[0].len() == 0 {
            rest
        } else if pieces[0] == seq![46u8] {
            if leading {
                seq![ComponentView::CurDir] + rest
            } else {
                rest
            }
        } else if pieces[0] == seq![46u8, 46u8] {
            seq![ComponentView::ParentDir] + rest
        } else {
            seq![ComponentView::Normal(pieces[0])] + rest
        }
    }
}

/// The steps of a path.
pub open spec fn components(path: Seq<u8>) -> Seq<ComponentView> {
    let body = spelled(text::pieces(path, 47u8), !absolute(path));
    if absolute(path) {
        seq![ComponentView::RootDir] + body
    } else {
        body
    }
}

fn is_dot(piece: &[u8]) -> (dot: bool)
    ensures
        dot == (piece@ == seq![46u8]),
{
    let dot: bool = piece.len() == 1 && piece[0] == 46;
    assert(dot ==> piece@ =~= seq![46u8]);
    dot
}

fn is_dot_dot(piece: &[u8]) -> (dots: bool)
    ensures
        dots == (piece@ == seq![46u8, 46u8]),
{
    let dots: bool = piece.len() == 2 && piece[0] == 46 && piece[1] == 46;
    assert(dots ==> piece@ =~= seq![46u8, 46u8]);
    dots
}

/// Decide whether a path starts at the root.
pub fn is_absolute(path: &[u8]) -> (verdict: bool)
    ensures
        verdict == absolute(path@),
{
    path.len() > 0 && path[0] == 47
}

/// List the steps of a path.
pub fn split_components(path: &[u8]) -> (list: Vec<Component>)
    ensures
        steps(list@) == components(path@),
{
    let pieces = split_bytes(path, 47);
    let ghost parts = text::views(pieces@);
    let rooted: bool = is_absolute(path);
    let mut list: Vec<Component> = Vec::new();
    if rooted {
        list.push(Component::RootDir);
        assert(steps(list@) =~= seq![ComponentView::RootDir]);
    } else {
        assert(steps(list@) =~= Seq::<ComponentView>::empty());
    }
    let mut index: usize = 0;
    assert(parts.skip(0) =~= parts);
    while index < pieces.len()
        invariant
            index <= pieces.len(),
            parts == text::views(pieces@),
            steps(list@) + spelled(parts.skip(index as int), !rooted && index == 0) =~= (if rooted {
                seq![ComponentView::RootDir]
            } else {
                Seq::empty()
            }) + spelled(parts, !rooted),
        decreases pieces.len() - index,
    {
        let ghost before = steps(list@);
        let ghost rest = parts.skip(index as int);
        assert(rest.skip(1) =~= parts.skip(index + 1));
        assert(rest[0] == pieces@[index as int]@);
        let piece = pieces[index].as_slice();
        if piece.len() == 0 {
        } else if is_dot(piece) {
            if !rooted && index == 0 {
                list.push(Component::CurDir);
                assert(steps(list@) =~= before.push(ComponentView::CurDir));
            }
        } else if is_dot_dot(piece) {
            list.push(Component::ParentDir);
            assert(steps(list@) =~= before.push(ComponentView::ParentDir));
        } else {
            list.push(Component::Normal(copy_bytes(piece)));
            assert(steps(list@) =~= before.push(ComponentView::Normal(rest[0])));
        }
        index += 1;
    }
    assert(parts.skip(index as int) =~= Seq::<Seq<u8>>::empty());
    assert(steps(list@) =~= components(path@));
    list
}

// ---------------------------------------------------------------------------
// Confinement
// ---------------------------------------------------------------------------

/// A step that never leaves the directory it starts in.
pub open spec fn descends(step: ComponentView) -> bool {
    step is Normal || step is CurDir
}

/// A nonempty relative path that never climbs.
pub open spec fn confined(path: Seq<u8>) -> bool {
    &&& path.len() > 0
    &&& !absolute(path)
    &&& forall|i: int| 0 <= i < components(path).len() ==> descends(#[trigger] components(path)[i])
}

/// Decide whether a path stays beneath whatever it is joined to.
pub fn confined_relative(path: &[u8]) -> (verdict: bool)
    ensures
        verdict == confined(path@),
{
    if path.len() == 0 || is_absolute(path) {
        return false;
    }
    let list = split_components(path);
    let mut index: usize = 0;
    while index < list.len()
        invariant
            index <= list.len(),
            steps(list@) == components(path@),
            forall|i: int| 0 <= i < index ==> descends(#[trigger] components(path@)[i]),
        decreases list.len() - index,
    {
        assert(components(path@)[index as int] == list@[index as int]@);
        match &list[index] {
            Component::Normal(_) => {},
            Component::CurDir => {},
            _ => {
                assert(!descends(components(path@)[index as int]));
                return false;
            },
        }
        index += 1;
    }
    true
}

/// An absolute path made of names alone.
pub open spec fn normalized(path: Seq<u8>) -> bool {
    &&& absolute(path)
    &&& forall|i: int|
        0 <= i < components(path).len() ==> #[trigger] components(path)[i] is RootDir || components(
            path,
        )[i] is Normal
}

/// Decide whether a path is absolute and free of `.` and `..` steps.
pub fn is_normalized(path: &[u8]) -> (verdict: bool)
    ensures
        verdict == normalized(path@),
{
    if !is_absolute(path) {
        return false;
    }
    let list = split_components(path);
    let mut index: usize = 0;
    while index < list.len()
        invariant
            index <= list.len(),
            steps(list@) == components(path@),
            forall|i: int|
                0 <= i < index ==> #[trigger] components(path@)[i] is RootDir || components(
                    path@,
                )[i] is Normal,
        decreases list.len() - index,
    {
        assert(components(path@)[index as int] == list@[index as int]@);
        match &list[index] {
            Component::Normal(_) => {},
            Component::RootDir => {},
            _ => {
                return false;
            },
        }
        index += 1;
    }
    true
}

fn step_equal(left: &Component, right: &Component) -> (same: bool)
    ensures
        same == (left@ == right@),
{
    match left {
        Component::RootDir => match right {
            Component::RootDir => true,
            _ => false,
        },
        Component::CurDir => match right {
            Component::CurDir => true,
            _ => false,
        },
        Component::ParentDir => match right {
            Component::ParentDir => true,
            _ => false,
        },
        Component::Normal(name) => match right {
            Component::Normal(other) => text::bytes_equal(name.as_slice(), other.as_slice()),
            _ => false,
        },
    }
}

/// A path at or beneath another, step by step.
pub open spec fn within(path: Seq<u8>, base: Seq<u8>) -> bool {
    &&& components(base).len() <= components(path).len()
    &&& forall|i: int|
        0 <= i < components(base).len() ==> #[trigger] components(base)[i] == components(path)[i]
}

/// Decide whether a path lies at or beneath another.
pub fn starts_with(path: &[u8], base: &[u8]) -> (verdict: bool)
    ensures
        verdict == within(path@, base@),
{
    let list = split_components(path);
    let prefix = split_components(base);
    if prefix.len() > list.len() {
        return false;
    }
    let mut index: usize = 0;
    while index < prefix.len()
        invariant
            index <= prefix.len() <= list.len(),
            steps(list@) == components(path@),
            steps(prefix@) == components(base@),
            forall|i: int|
                0 <= i < index ==> #[trigger] components(base@)[i] == components(path@)[i],
        decreases prefix.len() - index,
    {
        assert(components(path@)[index as int] == list@[index as int]@);
        assert(components(base@)[index as int] == prefix@[index as int]@);
        if !step_equal(&prefix[index], &list[index]) {
            return false;
        }
        index += 1;
    }
    true
}

// ---------------------------------------------------------------------------
// Joining
// ---------------------------------------------------------------------------

/// A path beneath a base: an absolute path replaces the base, and a relative
/// one follows it past a slash.
pub open spec fn joined(base: Seq<u8>, path: Seq<u8>) -> Seq<u8> {
    if absolute(path) {
        path
    } else if base.len() > 0 && base.last() != 47 {
        base.push(47) + path
    } else {
        base + path
    }
}

/// Join a path to a base.
pub fn join(base: &[u8], path: &[u8]) -> (whole: Vec<u8>)
    ensures
        whole@ == joined(base@, path@),
{
    if is_absolute(path) {
        return copy_bytes(path);
    }
    let mut whole = copy_bytes(base);
    if base.len() > 0 && base[base.len() - 1] != 47 {
        whole.push(47);
    }
    crate::bytes::extend(&mut whole, path);
    whole
}

/// Join a literal to a base.
pub fn join_text(base: &[u8], path: &str) -> (whole: Vec<u8>)
    ensures
        whole@ == joined(base@, text::word(path)),
{
    join(base, path.as_bytes())
}

proof fn lemma_pieces_concat(front: Seq<u8>, back: Seq<u8>)
    ensures
        text::pieces(front.push(47) + back, 47u8) == text::pieces(front, 47u8) + text::pieces(
            back,
            47u8,
        ),
    decreases front.len(),
{
    let whole = front.push(47) + back;
    let cut = text::first_of(front, 47u8) as int;
    text::lemma_first_of_bounds(front, 47u8);
    text::lemma_first_of(whole, 47u8, cut);
    if cut == front.len() {
        assert(whole.take(cut) =~= front);
        assert(whole.skip(cut + 1) =~= back);
        assert(text::pieces(front, 47u8) =~= seq![front]);
    } else {
        let rest = front.skip(cut + 1);
        lemma_pieces_concat(rest, back);
        assert(whole.take(cut) =~= front.take(cut));
        assert(whole.skip(cut + 1) =~= rest.push(47) + back);
        assert(text::pieces(whole, 47u8) =~= text::pieces(front, 47u8) + text::pieces(back, 47u8));
    }
}

proof fn lemma_spelled_concat(front: Seq<Seq<u8>>, back: Seq<Seq<u8>>, leading: bool)
    requires
        front.len() > 0,
    ensures
        spelled(front + back, leading) == spelled(front, leading) + spelled(back, false),
    decreases front.len(),
{
    let whole = front + back;
    assert(whole.skip(1) =~= front.skip(1) + back);
    if front.len() == 1 {
        assert(front.skip(1) + back =~= back);
        assert(spelled(front.skip(1), false) =~= Seq::<ComponentView>::empty());
    } else {
        lemma_spelled_concat(front.skip(1), back, false);
    }
    assert(spelled(whole, leading) =~= spelled(front, leading) + spelled(back, false));
}

proof fn lemma_spelled_names(pieces: Seq<Seq<u8>>, leading: bool)
    ensures
        spelled(pieces, false) == spelled(pieces, leading) || (spelled(pieces, leading).len() > 0
            && spelled(pieces, leading)[0] is CurDir && spelled(pieces, leading).skip(1) == spelled(
            pieces,
            false,
        )),
{
    if pieces.len() > 0 && pieces[0] == seq![46u8] && leading {
        let rest = spelled(pieces.skip(1), false);
        assert((seq![ComponentView::CurDir] + rest).skip(1) =~= rest);
    }
}

/// A confined path joined to a base stays at or beneath the base: the base's own
/// steps come first, and every further step is a name.
pub proof fn law_confined_paths_never_escape(base: Seq<u8>, path: Seq<u8>)
    requires
        confined(path),
        base.len() > 0,
        base.last() != 47,
    ensures
        within(joined(base, path), base),
        forall|i: int|
            components(base).len() <= i < components(joined(base, path)).len() ==> (
            #[trigger] components(joined(base, path))[i]) is Normal,
{
    let whole = joined(base, path);
    let front = text::pieces(base, 47u8);
    let back = text::pieces(path, 47u8);
    lemma_pieces_concat(base, path);
    text::lemma_pieces_nonempty(base, 47u8);
    let leading = !absolute(base);
    assert(absolute(whole) == absolute(base)) by {
        assert(whole[0] == base[0]);
    }
    lemma_spelled_concat(front, back, leading);
    lemma_spelled_names(back, true);
    assert(components(path) == spelled(back, true));
    lemma_plain_tail(back);
    assert(components(whole) =~= components(base) + spelled(back, false));
    assert forall|i: int| 0 <= i < components(base).len() implies #[trigger] components(base)[i]
        == components(whole)[i] by {}
    assert forall|i: int| components(base).len() <= i < components(whole).len() implies (
    #[trigger] components(whole)[i]) is Normal by {
        let k = i - components(base).len();
        assert(components(whole)[i] == spelled(back, false)[k]);
        if spelled(back, false) == spelled(back, true) {
            assert(descends(components(path)[k]));
        } else {
            assert(spelled(back, true).skip(1)[k] == components(path)[k + 1]);
            assert(descends(components(path)[k + 1]));
        }
    }
}

proof fn lemma_plain_tail(pieces: Seq<Seq<u8>>)
    ensures
        forall|i: int|
            0 <= i < spelled(pieces, false).len() ==> !(#[trigger] spelled(pieces, false)[i]
                is CurDir) && !(spelled(pieces, false)[i] is RootDir),
    decreases pieces.len(),
{
    if pieces.len() > 0 {
        let rest = spelled(pieces.skip(1), false);
        lemma_plain_tail(pieces.skip(1));
        assert forall|i: int| 0 <= i < spelled(pieces, false).len() implies !(#[trigger] spelled(
            pieces,
            false,
        )[i] is CurDir) && !(spelled(pieces, false)[i] is RootDir) by {
            if spelled(pieces, false) != rest && i > 0 {
                assert(spelled(pieces, false)[i] == rest[i - 1]);
            }
        }
    }
}

// ---------------------------------------------------------------------------
// Parents, names, and extensions
// ---------------------------------------------------------------------------

/// Bytes before the first named step: a root slash, or a leading `.`.
pub open spec fn body_start(path: Seq<u8>) -> int {
    if absolute(path) {
        1
    } else if path.len() > 0 && path[0] == 46 && (path.len() == 1 || path[1] == 47) {
        1
    } else {
        0
    }
}

/// Where the last slash-separated piece of the body starts.
pub open spec fn last_piece_start(path: Seq<u8>, end: int) -> int
    decreases end,
{
    if end <= body_start(path) || path[end - 1] == 47 {
        end
    } else {
        last_piece_start(path, end - 1)
    }
}

/// The piece of a path that ends at `end`.
pub open spec fn last_piece(path: Seq<u8>, end: int) -> Seq<u8> {
    path.subrange(last_piece_start(path, end), end)
}

/// Where a path stands before the piece that ends at `end`.
pub open spec fn before_piece(path: Seq<u8>, end: int) -> int {
    let start = last_piece_start(path, end);
    if start > body_start(path) {
        start - 1
    } else {
        start
    }
}

/// Where the last meaningful step of `path[..end]` ends: trailing slashes and
/// `.` pieces say nothing.
pub open spec fn settled(path: Seq<u8>, end: int) -> int
    decreases end,
    via settled_shrinks
{
    if end <= body_start(path) {
        end
    } else if last_piece(path, end).len() == 0 || last_piece(path, end) == seq![46u8] {
        settled(path, before_piece(path, end))
    } else {
        end
    }
}

#[via_fn]
proof fn settled_shrinks(path: Seq<u8>, end: int) {
    lemma_last_piece_start_low(path, end);
}

proof fn lemma_last_piece_start_low(path: Seq<u8>, end: int)
    ensures
        last_piece_start(path, end) <= end,
        end > body_start(path) && (last_piece(path, end).len() == 0 || last_piece(path, end)
            == seq![46u8]) ==> before_piece(path, end) < end,
        before_piece(path, end) >= 0 || end <= 0,
    decreases end,
{
    if end > body_start(path) && path[end - 1] != 47 {
        lemma_last_piece_start_low(path, end - 1);
    }
}

proof fn lemma_piece_bounds(path: Seq<u8>, end: int)
    requires
        body_start(path) <= end <= path.len(),
    ensures
        body_start(path) <= last_piece_start(path, end) <= end,
        body_start(path) <= before_piece(path, end) <= end,
    decreases end,
{
    if end > body_start(path) && path[end - 1] != 47 {
        lemma_piece_bounds(path, end - 1);
    }
}

proof fn lemma_settled_bounds(path: Seq<u8>, end: int)
    requires
        body_start(path) <= end <= path.len(),
    ensures
        body_start(path) <= settled(path, end) <= end,
    decreases end,
{
    lemma_piece_bounds(path, end);
    lemma_last_piece_start_low(path, end);
    if end > body_start(path) && (last_piece(path, end).len() == 0 || last_piece(path, end)
        == seq![46u8]) {
        lemma_settled_bounds(path, before_piece(path, end));
    }
}

fn find_body(path: &[u8]) -> (start: usize)
    ensures
        start == body_start(path@),
        start <= path@.len(),
{
    if is_absolute(path) {
        1
    } else if path.len() > 0 && path[0] == 46 && (path.len() == 1 || path[1] == 47) {
        1
    } else {
        0
    }
}

fn find_piece(path: &[u8], body: usize, end: usize) -> (start: usize)
    requires
        body == body_start(path@),
        body <= end <= path@.len(),
    ensures
        start == last_piece_start(path@, end as int),
        body <= start <= end,
{
    let mut start: usize = end;
    while start > body && path[start - 1] != 47
        invariant
            body == body_start(path@),
            body <= start <= end <= path@.len(),
            last_piece_start(path@, start as int) == last_piece_start(path@, end as int),
        decreases start,
    {
        start -= 1;
    }
    start
}

fn settle(path: &[u8], body: usize, end: usize) -> (at: usize)
    requires
        body == body_start(path@),
        body <= end <= path@.len(),
    ensures
        at == settled(path@, end as int),
        body <= at <= end,
{
    let mut at: usize = end;
    while at > body
        invariant
            body == body_start(path@),
            body <= at <= end <= path@.len(),
            settled(path@, at as int) == settled(path@, end as int),
        ensures
            body <= at <= end,
            at == settled(path@, end as int),
        decreases at,
    {
        proof {
            lemma_piece_bounds(path@, at as int);
            lemma_last_piece_start_low(path@, at as int);
        }
        let start: usize = find_piece(path, body, at);
        let piece = copy_range(path, start, at);
        if piece.len() == 0 || is_dot(piece.as_slice()) {
            at = if start > body {
                start - 1
            } else {
                start
            };
        } else {
            break;
        }
    }
    at
}

/// The directory that holds a path's last step, when it has one.
pub open spec fn parent_of(path: Seq<u8>) -> Option<Seq<u8>> {
    let end = settled(path, path.len() as int);
    if end > body_start(path) {
        Some(path.take(settled(path, before_piece(path, end))))
    } else if body_start(path) == 1 && !absolute(path) {
        Some(Seq::empty())
    } else {
        None
    }
}

/// Find the directory that holds a path's last step.
pub fn parent(path: &[u8]) -> (directory: Option<Vec<u8>>)
    ensures
        match directory {
            Some(directory) => parent_of(path@) == Some(directory@),
            None => parent_of(path@) is None,
        },
{
    let body: usize = find_body(path);
    let end: usize = settle(path, body, path.len());
    if end > body {
        proof {
            lemma_piece_bounds(path@, end as int);
        }
        let start: usize = find_piece(path, body, end);
        let before: usize = if start > body {
            start - 1
        } else {
            start
        };
        let cut: usize = settle(path, body, before);
        let directory = copy_range(path, 0, cut);
        assert(directory@ =~= path@.take(cut as int));
        Some(directory)
    } else if body == 1 && !is_absolute(path) {
        let directory: Vec<u8> = Vec::new();
        assert(directory@ =~= Seq::<u8>::empty());
        Some(directory)
    } else {
        None
    }
}

/// The name of a path's last step, when that step is a name.
pub open spec fn file_name_of(path: Seq<u8>) -> Option<Seq<u8>> {
    let end = settled(path, path.len() as int);
    if end > body_start(path) && last_piece(path, end) != seq![46u8, 46u8] {
        Some(last_piece(path, end))
    } else {
        None
    }
}

/// Index of the last dot before `end`, or -1.
pub open spec fn last_dot(name: Seq<u8>, end: int) -> int
    decreases end,
{
    if end <= 0 {
        -1
    } else if name[end - 1] == 46 {
        end - 1
    } else {
        last_dot(name, end - 1)
    }
}

/// Length of a name without its extension: a leading dot starts none.
pub open spec fn stem_len(name: Seq<u8>) -> int {
    let dot = last_dot(name, name.len() as int);
    if dot <= 0 {
        name.len() as int
    } else {
        dot
    }
}

fn find_stem(name: &[u8]) -> (length: usize)
    ensures
        length == stem_len(name@),
        length <= name@.len(),
{
    let mut end: usize = name.len();
    while end > 0 && name[end - 1] != 46
        invariant
            end <= name@.len(),
            last_dot(name@, end as int) == last_dot(name@, name@.len() as int),
        decreases end,
    {
        end -= 1;
    }
    if end <= 1 {
        name.len()
    } else {
        end - 1
    }
}

/// A path's extension, when its name has one.
pub open spec fn extension_of(path: Seq<u8>) -> Option<Seq<u8>> {
    match file_name_of(path) {
        Some(name) => if stem_len(name) < name.len() {
            Some(name.skip(stem_len(name) + 1))
        } else {
            None
        },
        None => None,
    }
}

/// Find a path's extension.
pub fn extension(path: &[u8]) -> (found: Option<Vec<u8>>)
    ensures
        match found {
            Some(found) => extension_of(path@) == Some(found@),
            None => extension_of(path@) is None,
        },
{
    let body: usize = find_body(path);
    let end: usize = settle(path, body, path.len());
    if end <= body {
        return None;
    }
    let start: usize = find_piece(path, body, end);
    let name = copy_range(path, start, end);
    if is_dot_dot(name.as_slice()) {
        return None;
    }
    let stem: usize = find_stem(name.as_slice());
    if stem < name.len() {
        let found = copy_range(name.as_slice(), stem + 1, name.len());
        assert(found@ =~= name@.skip(stem + 1));
        Some(found)
    } else {
        None
    }
}

/// A path with its extension replaced: everything up to the end of the stem,
/// then the new extension. A path without a name is unchanged.
pub open spec fn with_extension_of(path: Seq<u8>, extension: Seq<u8>) -> Seq<u8> {
    let end = settled(path, path.len() as int);
    match file_name_of(path) {
        Some(name) => path.take(end - name.len() + stem_len(name)).push(46) + extension,
        None => path,
    }
}

/// Replace a path's extension.
pub fn with_extension(path: &[u8], extension: &str) -> (renamed: Vec<u8>)
    ensures
        renamed@ == with_extension_of(path@, text::word(extension)),
{
    let body: usize = find_body(path);
    let end: usize = settle(path, body, path.len());
    if end <= body {
        return copy_bytes(path);
    }
    let start: usize = find_piece(path, body, end);
    let name = copy_range(path, start, end);
    if is_dot_dot(name.as_slice()) {
        return copy_bytes(path);
    }
    let stem: usize = find_stem(name.as_slice());
    assert(start + stem <= path.len());
    let mut renamed = copy_range(path, 0, start + stem);
    assert(renamed@ =~= path@.take(start + stem));
    renamed.push(46);
    crate::bytes::extend(&mut renamed, extension.as_bytes());
    renamed
}

// ---------------------------------------------------------------------------
// Order
// ---------------------------------------------------------------------------

/// Sort key of one step, closed by a mark below every byte.
pub open spec fn step_key(step: ComponentView) -> Seq<int> {
    match step {
        ComponentView::RootDir => seq![0int, -1],
        ComponentView::CurDir => seq![1int, -1],
        ComponentView::ParentDir => seq![2int, -1],
        ComponentView::Normal(name) => seq![3int] + order::key_of(name) + seq![-1int],
    }
}

/// Sort key of a run of steps.
pub open spec fn steps_key(list: Seq<ComponentView>) -> Seq<int>
    decreases list.len(),
{
    if list.len() == 0 {
        Seq::empty()
    } else {
        step_key(list[0]) + steps_key(list.skip(1))
    }
}

/// Sort key of a path: paths order by their steps.
pub open spec fn path_key(path: Seq<u8>) -> Seq<int> {
    steps_key(components(path))
}

/// Paths with the same steps, and no others, share a sort key.
pub proof fn lemma_key_determines_steps(left: Seq<ComponentView>, right: Seq<ComponentView>)
    requires
        steps_key(left) == steps_key(right),
    ensures
        left == right,
    decreases left.len(),
{
    if left.len() == 0 || right.len() == 0 {
        if left.len() > 0 {
            assert(steps_key(left).len() > 0);
        }
        if right.len() > 0 {
            assert(steps_key(right).len() > 0);
        }
        assert(left =~= right);
    } else {
        let lk = step_key(left[0]);
        let rk = step_key(right[0]);
        let lr = steps_key(left.skip(1));
        let rr = steps_key(right.skip(1));
        let whole = lk + lr;
        assert(whole == rk + rr);
        assert(whole[0] == lk[0] && whole[0] == rk[0]);
        assert(lk.len() == rk.len()) by {
            if lk.len() < rk.len() {
                assert(whole[lk.len() - 1] == lk[lk.len() - 1]);
                assert(whole[lk.len() - 1] == rk[lk.len() - 1]);
            } else if rk.len() < lk.len() {
                assert(whole[rk.len() - 1] == rk[rk.len() - 1]);
                assert(whole[rk.len() - 1] == lk[rk.len() - 1]);
            }
        }
        assert(lk =~= whole.take(lk.len() as int));
        assert(rk =~= whole.take(lk.len() as int));
        assert(lr =~= whole.skip(lk.len() as int));
        assert(rr =~= whole.skip(lk.len() as int));
        lemma_key_determines_steps(left.skip(1), right.skip(1));
        match left[0] {
            ComponentView::Normal(ln) => match right[0] {
                ComponentView::Normal(rn) => {
                    assert(order::key_of(ln) =~= lk.subrange(1, lk.len() - 1));
                    assert(order::key_of(rn) =~= rk.subrange(1, rk.len() - 1));
                    order::lemma_key_determines_bytes(ln, rn);
                },
                _ => {},
            },
            _ => {},
        }
        assert(left[0] == right[0]);
        assert forall|i: int| 0 <= i < left.len() implies left[i] == right[i] by {
            if i > 0 {
                assert(left[i] == left.skip(1)[i - 1]);
                assert(right[i] == right.skip(1)[i - 1]);
            }
        }
        assert(left.len() == left.skip(1).len() + 1);
        assert(left =~= right);
    }
}

/// A sort key in memory.
pub open spec fn held(key: Seq<i16>) -> Seq<int> {
    Seq::new(key.len(), |i: int| key[i] as int)
}

/// Compute a path's sort key.
pub fn sort_key(path: &[u8]) -> (key: Vec<i16>)
    ensures
        held(key@) == path_key(path@),
{
    let list = split_components(path);
    let ghost all = components(path@);
    let mut key: Vec<i16> = Vec::new();
    let mut index: usize = 0;
    assert(all.skip(0) =~= all);
    assert(held(key@) + steps_key(all) =~= steps_key(all));
    while index < list.len()
        invariant
            index <= list.len(),
            all == steps(list@),
            held(key@) + steps_key(all.skip(index as int)) == steps_key(all),
        decreases list.len() - index,
    {
        let ghost before = held(key@);
        let ghost rest = all.skip(index as int);
        assert(rest[0] == list@[index as int]@);
        assert(rest.skip(1) =~= all.skip(index + 1));
        match &list[index] {
            Component::RootDir => {
                key.push(0);
                assert(held(key@) =~= before + step_key(rest[0]).drop_last());
            },
            Component::CurDir => {
                key.push(1);
                assert(held(key@) =~= before + step_key(rest[0]).drop_last());
            },
            Component::ParentDir => {
                key.push(2);
                assert(held(key@) =~= before + step_key(rest[0]).drop_last());
            },
            Component::Normal(name) => {
                key.push(3);
                let mut at: usize = 0;
                assert(held(key@) =~= before + seq![3int] + order::key_of(name@).take(0));
                while at < name.len()
                    invariant
                        at <= name.len(),
                        held(key@) == before + seq![3int] + order::key_of(name@).take(at as int),
                    decreases name.len() - at,
                {
                    let ghost was = held(key@);
                    key.push(name[at] as i16);
                    assert(held(key@) =~= was.push(name@[at as int] as int));
                    assert(order::key_of(name@).take(at + 1) =~= order::key_of(name@).take(
                        at as int,
                    ).push(name@[at as int] as int));
                    at += 1;
                }
                assert(order::key_of(name@).take(at as int) =~= order::key_of(name@));
                assert(held(key@) =~= before + step_key(rest[0]).drop_last());
            },
        }
        let ghost open = held(key@);
        key.push(-1);
        assert(held(key@) =~= open.push(-1));
        assert(held(key@) =~= before + step_key(rest[0]));
        assert(held(key@) + steps_key(rest.skip(1)) =~= before + steps_key(rest));
        index += 1;
    }
    assert(all.skip(index as int) =~= Seq::<ComponentView>::empty());
    assert(held(key@) =~= steps_key(all));
    key
}

/// Paths whose steps strictly ascend.
pub open spec fn sorted_paths(list: Seq<Seq<u8>>) -> bool {
    forall|i: int, j: int|
        0 <= i < j < list.len() ==> order::precedes(
            path_key(#[trigger] list[i]),
            path_key(#[trigger] list[j]),
        )
}

/// A list holds a path with the same steps.
pub open spec fn holds(list: Seq<Seq<u8>>, path: Seq<u8>) -> bool {
    exists|i: int| 0 <= i < list.len() && components(#[trigger] list[i]) == components(path)
}

fn compare_keys(left: &Vec<i16>, right: &Vec<i16>) -> (rank: order::Rank)
    ensures
        match rank {
            order::Rank::Before => order::precedes(held(left@), held(right@)),
            order::Rank::Same => held(left@) == held(right@),
            order::Rank::After => order::precedes(held(right@), held(left@)),
        },
{
    let ghost lk = held(left@);
    let ghost rk = held(right@);
    let mut index: usize = 0;
    while index < left.len() && index < right.len() && left[index] == right[index]
        invariant
            index <= left.len(),
            index <= right.len(),
            lk == held(left@),
            rk == held(right@),
            forall|i: int| 0 <= i < index ==> lk[i] == rk[i],
        decreases left.len() - index,
    {
        index += 1;
    }
    proof {
        order::lemma_common_prefix(lk, rk, index as int);
        order::lemma_common_prefix(rk, lk, index as int);
    }
    if index == left.len() {
        if index == right.len() {
            assert(lk =~= rk);
            order::Rank::Same
        } else {
            order::Rank::Before
        }
    } else if index == right.len() {
        order::Rank::After
    } else if left[index] < right[index] {
        order::Rank::Before
    } else {
        order::Rank::After
    }
}

/// Insert a path into a sorted list, unless the list already holds its steps.
pub fn insert_path(list: &mut Vec<Vec<u8>>, path: &[u8])
    requires
        sorted_paths(text::views(old(list)@)),
    ensures
        sorted_paths(text::views(final(list)@)),
        forall|other: Seq<u8>|
            text::views(final(list)@).contains(other) <==> text::views(old(list)@).contains(other)
                || (other == path@ && !holds(text::views(old(list)@), path@)),
        forall|other: Seq<u8>|
            holds(text::views(final(list)@), other) <==> holds(text::views(old(list)@), other)
                || components(other) == components(path@),
{
    let ghost before = text::views(list@);
    let key = sort_key(path);
    let mut at: usize = 0;
    let mut found: bool = false;
    while at < list.len()
        invariant_except_break
            !found,
        invariant
            at <= list.len(),
            list@ == old(list)@,
            before == text::views(list@),
            sorted_paths(before),
            held(key@) == path_key(path@),
            forall|i: int|
                0 <= i < at ==> order::precedes(path_key(#[trigger] before[i]), path_key(path@)),
        ensures
            at <= list.len(),
            found ==> at < list.len() && path_key(before[at as int]) == path_key(path@),
            !found ==> (at < list.len() ==> order::precedes(
                path_key(path@),
                path_key(before[at as int]),
            )),
        decreases list.len() - at,
    {
        let there = sort_key(list[at].as_slice());
        assert(before[at as int] == list@[at as int]@);
        match compare_keys(&there, &key) {
            order::Rank::Before => {},
            order::Rank::Same => {
                found = true;
                break;
            },
            order::Rank::After => {
                break;
            },
        }
        at += 1;
    }
    if found {
        proof {
            lemma_key_determines_steps(components(before[at as int]), components(path@));
            assert(holds(before, path@));
            assert forall|other: Seq<u8>| components(other) == components(path@) implies holds(
                before,
                other,
            ) by {
                assert(components(before[at as int]) == components(other));
            }
        }
        return;
    }
    list.insert(at, copy_bytes(path));
    proof {
        let after = text::views(list@);
        let index = at as int;
        assert(after =~= before.insert(index, path@));
        lemma_path_insertion(before, after, index, path@);
    }
}

proof fn lemma_path_insertion(
    before: Seq<Seq<u8>>,
    after: Seq<Seq<u8>>,
    index: int,
    path: Seq<u8>,
)
    requires
        sorted_paths(before),
        0 <= index <= before.len(),
        after == before.insert(index, path),
        forall|i: int|
            0 <= i < index ==> order::precedes(path_key(#[trigger] before[i]), path_key(path)),
        index < before.len() ==> order::precedes(path_key(path), path_key(before[index])),
    ensures
        sorted_paths(after),
        !holds(before, path),
        forall|other: Seq<u8>|
            after.contains(other) <==> before.contains(other) || other == path,
        forall|other: Seq<u8>|
            holds(after, other) <==> holds(before, other) || components(other) == components(path),
{
    assert forall|i: int| index <= i < before.len() implies order::precedes(
        path_key(path),
        path_key(#[trigger] before[i]),
    ) by {
        if i > index {
            order::lemma_transitive(path_key(path), path_key(before[index]), path_key(before[i]));
        }
    }
    assert forall|i: int, j: int| 0 <= i < j < after.len() implies order::precedes(
        path_key(#[trigger] after[i]),
        path_key(#[trigger] after[j]),
    ) by {
        let bi = if i < index {
            i
        } else {
            i - 1
        };
        let bj = if j < index {
            j
        } else {
            j - 1
        };
        if i == index {
            assert(after[j] == before[bj]);
        } else if j == index {
            assert(after[i] == before[bi]);
        } else {
            assert(after[i] == before[bi]);
            assert(after[j] == before[bj]);
        }
    }
    if holds(before, path) {
        let i = choose|i: int|
            0 <= i < before.len() && components(#[trigger] before[i]) == components(path);
        order::lemma_irreflexive(path_key(path));
        if i < index {
            assert(order::precedes(path_key(before[i]), path_key(path)));
        } else {
            assert(order::precedes(path_key(path), path_key(before[i])));
        }
    }
    assert(after[index] == path);
    assert forall|other: Seq<u8>| after.contains(other) <==> before.contains(other) || other
        == path by {
        if before.contains(other) {
            let i = choose|i: int| 0 <= i < before.len() && before[i] == other;
            assert(after[if i < index { i } else { i + 1 }] == other);
        }
        if after.contains(other) {
            let i = choose|i: int| 0 <= i < after.len() && after[i] == other;
            if i != index {
                assert(before[if i < index { i } else { i - 1 }] == other);
            }
        }
    }
    assert forall|other: Seq<u8>|
        holds(after, other) <==> holds(before, other) || components(other) == components(path) by {
        if holds(before, other) {
            let i = choose|i: int|
                0 <= i < before.len() && components(#[trigger] before[i]) == components(other);
            assert(after[if i < index { i } else { i + 1 }] == before[i]);
        }
        if holds(after, other) {
            let i = choose|i: int|
                0 <= i < after.len() && components(#[trigger] after[i]) == components(other);
            if i != index {
                assert(before[if i < index { i } else { i - 1 }] == after[i]);
            }
        }
        if components(other) == components(path) {
            assert(components(after[index]) == components(other));
        }
    }
}

/// A path's first appearance in a list.
pub open spec fn leads(list: Seq<Seq<u8>>, path: Seq<u8>) -> bool {
    exists|i: int| 0 <= i < list.len() && #[trigger] list[i] == path && !holds(list.take(i), path)
}

/// The sorted paths of a list, the first of those that agree.
pub open spec fn distils(sorted: Seq<Seq<u8>>, list: Seq<Seq<u8>>) -> bool {
    &&& sorted_paths(sorted)
    &&& forall|path: Seq<u8>| #[trigger] sorted.contains(path) <==> leads(list, path)
}

/// Sort paths by their steps, keeping the first of those that agree.
pub fn sort_unique(paths: &Vec<Vec<u8>>) -> (sorted: Vec<Vec<u8>>)
    ensures
        distils(text::views(sorted@), text::views(paths@)),
        forall|path: Seq<u8>|
            holds(text::views(sorted@), path) <==> holds(text::views(paths@), path),
{
    let mut sorted: Vec<Vec<u8>> = Vec::new();
    let ghost all = text::views(paths@);
    let mut index: usize = 0;
    while index < paths.len()
        invariant
            index <= paths.len(),
            all == text::views(paths@),
            sorted_paths(text::views(sorted@)),
            forall|path: Seq<u8>|
                holds(text::views(sorted@), path) <==> holds(all.take(index as int), path),
            forall|path: Seq<u8>|
                text::views(sorted@).contains(path) <==> exists|i: int|
                    0 <= i < index && #[trigger] all[i] == path && !holds(all.take(i), path),
        decreases paths.len() - index,
    {
        let ghost was = text::views(sorted@);
        insert_path(&mut sorted, paths[index].as_slice());
        proof {
            let path = all[index as int];
            assert(path == paths@[index as int]@);
            let shorter = all.take(index as int);
            let longer = all.take(index + 1);
            assert(longer =~= shorter.push(path));
            assert forall|other: Seq<u8>| holds(longer, other) <==> holds(shorter, other)
                || components(other) == components(path) by {
                if holds(shorter, other) {
                    let i = choose|i: int|
                        0 <= i < shorter.len() && components(#[trigger] shorter[i]) == components(
                            other,
                        );
                    assert(longer[i] == shorter[i]);
                }
                if components(other) == components(path) {
                    assert(components(longer[index as int]) == components(other));
                }
                if holds(longer, other) {
                    let i = choose|i: int|
                        0 <= i < longer.len() && components(#[trigger] longer[i]) == components(
                            other,
                        );
                    if i < index {
                        assert(shorter[i] == longer[i]);
                    }
                }
            }
            let now = text::views(sorted@);
            assert forall|other: Seq<u8>|
                now.contains(other) <==> exists|i: int|
                    0 <= i < index + 1 && #[trigger] all[i] == other && !holds(
                        all.take(i),
                        other,
                    ) by {
                if other == path && !holds(shorter, path) {
                    assert(all[index as int] == other);
                }
                if now.contains(other) && was.contains(other) {
                    let i = choose|i: int|
                        0 <= i < index && #[trigger] all[i] == other && !holds(all.take(i), other);
                    assert(all[i] == other);
                }
            }
        }
        index += 1;
    }
    assert(all.take(index as int) =~= all);
    assert forall|path: Seq<u8>| #[trigger] text::views(sorted@).contains(path) <==> leads(
        all,
        path,
    ) by {}
    sorted
}

// ---------------------------------------------------------------------------
// Laws on spellings
// ---------------------------------------------------------------------------

/// Whether a path spells a step at some place: bytes that no separator stands among, between
/// separators or the path's ends.
pub open spec fn spells_step(path: Seq<u8>, from: int, to: int, step: Seq<u8>) -> bool {
    &&& 0 <= from <= to <= path.len()
    &&& path.subrange(from, to) == step
    &&& !step.contains(47u8)
    &&& from == 0 || path[from - 1] == 47
    &&& to == path.len() || path[to] == 47
}

/// Whether a path spells a step somewhere.
pub open spec fn spells(path: Seq<u8>, step: Seq<u8>) -> bool {
    exists|from: int, to: int| #[trigger] spells_step(path, from, to, step)
}

/// Whether a path spells the step that climbs, at some place.
pub open spec fn climbs_at(path: Seq<u8>, from: int, to: int) -> bool {
    spells_step(path, from, to, seq![46u8, 46u8])
}

proof fn lemma_pieces_are_steps(path: Seq<u8>)
    ensures
        forall|i: int|
            0 <= i < text::pieces(path, 47u8).len() ==> spells(
                path,
                #[trigger] text::pieces(path, 47u8)[i],
            ),
        forall|from: int, to: int, step: Seq<u8>| #[trigger]
            spells_step(path, from, to, step) ==> text::pieces(path, 47u8).contains(step),
    decreases path.len(),
{
    let cut = text::first_of(path, 47u8) as int;
    text::lemma_first_of_bounds(path, 47u8);
    let all = text::pieces(path, 47u8);
    if cut >= path.len() {
        assert(all =~= seq![path]);
        assert(path.subrange(0, path.len() as int) =~= path);
        assert(!path.contains(47u8));
        assert(spells_step(path, 0, path.len() as int, all[0]));
        assert forall|from: int, to: int, step: Seq<u8>| #[trigger]
            spells_step(path, from, to, step) implies all.contains(step) by {
            assert(from == 0);
            assert(to == path.len());
            assert(step =~= path);
            assert(all[0] == step);
        }
    } else {
        let first = path.take(cut);
        let rest = path.skip(cut + 1);
        let others = text::pieces(rest, 47u8);
        lemma_pieces_are_steps(rest);
        assert(all == seq![first] + others);
        assert forall|i: int| 0 <= i < all.len() implies spells(path, #[trigger] all[i]) by {
            if i == 0 {
                assert(path.subrange(0, cut) =~= first);
                assert(!first.contains(47u8));
                assert(spells_step(path, 0, cut, all[0]));
            } else {
                assert(all[i] == others[i - 1]);
                let (from, to) = choose|from: int, to: int| #[trigger]
                    spells_step(rest, from, to, others[i - 1]);
                assert(path.subrange(from + cut + 1, to + cut + 1) =~= rest.subrange(from, to));
                assert(spells_step(path, from + cut + 1, to + cut + 1, all[i]));
            }
        }
        assert forall|from: int, to: int, step: Seq<u8>| #[trigger]
            spells_step(path, from, to, step) implies all.contains(step) by {
            if from == 0 {
                if to > cut {
                    assert(step[cut] == path[cut]);
                    assert(step.contains(47u8));
                }
                assert(to == cut);
                assert(step =~= first);
                assert(all[0] == step);
            } else {
                assert(from > cut);
                assert(path[from - 1] == 47);
                assert(rest.subrange(from - cut - 1, to - cut - 1) =~= path.subrange(from, to));
                if from - cut - 1 > 0 {
                    assert(rest[from - cut - 2] == path[from - 1]);
                }
                if to < path.len() {
                    assert(rest[to - cut - 1] == path[to]);
                }
                assert(spells_step(rest, from - cut - 1, to - cut - 1, step));
                assert(others.contains(step));
                let at = choose|at: int| 0 <= at < others.len() && others[at] == step;
                assert(all[at + 1] == step);
            }
        }
    }
}

proof fn lemma_climbing(pieces: Seq<Seq<u8>>, leading: bool)
    ensures
        (forall|i: int|
            0 <= i < spelled(pieces, leading).len() ==> descends(#[trigger] spelled(pieces, leading)[i]))
            <==> !pieces.contains(seq![46u8, 46u8]),
    decreases pieces.len(),
{
    let dots = seq![46u8, 46u8];
    if pieces.len() > 0 {
        let rest = pieces.skip(1);
        lemma_climbing(rest, false);
        let tail = spelled(rest, false);
        let whole = spelled(pieces, leading);
        assert(pieces.contains(dots) <==> pieces[0] == dots || rest.contains(dots)) by {
            if pieces.contains(dots) {
                let at = choose|at: int| 0 <= at < pieces.len() && pieces[at] == dots;
                if at > 0 {
                    assert(rest[at - 1] == dots);
                }
            }
            if rest.contains(dots) {
                let at = choose|at: int| 0 <= at < rest.len() && rest[at] == dots;
                assert(pieces[at + 1] == dots);
            }
        }
        assert(seq![46u8] != dots) by {
            assert(seq![46u8].len() != dots.len());
        }
        assert(Seq::<u8>::empty() != dots) by {
            assert(Seq::<u8>::empty().len() != dots.len());
        }
        if whole == tail {
        } else {
            assert(whole.len() == tail.len() + 1);
            assert(whole.skip(1) =~= tail);
            if forall|i: int| 0 <= i < whole.len() ==> descends(#[trigger] whole[i]) {
                assert(descends(whole[0]));
                assert forall|i: int| 0 <= i < tail.len() implies descends(#[trigger] tail[i]) by {
                    assert(tail[i] == whole[i + 1]);
                }
            }
            if (forall|i: int| 0 <= i < tail.len() ==> descends(#[trigger] tail[i])) && descends(
                whole[0],
            ) {
                assert forall|i: int| 0 <= i < whole.len() implies descends(#[trigger] whole[i]) by {
                    if i > 0 {
                        assert(whole[i] == tail[i - 1]);
                    }
                }
            }
        }
    }
}

/// A path is confined exactly when it is not empty, does not begin at the root, and nowhere
/// spells the step that climbs.
pub proof fn law_confined_paths_never_spell_a_climb(path: &[u8], verdict: bool)
    requires
        confined_relative.ensures((path,), verdict),
    ensures
        verdict <==> path@.len() > 0 && path@[0] != 47 && forall|from: int, to: int|
            !#[trigger] climbs_at(path@, from, to),
{
    let pieces = text::pieces(path@, 47u8);
    let dots = seq![46u8, 46u8];
    lemma_pieces_are_steps(path@);
    lemma_climbing(pieces, true);
    if !absolute(path@) {
        assert(components(path@) == spelled(pieces, true));
    }
    if pieces.contains(dots) {
        let at = choose|at: int| 0 <= at < pieces.len() && pieces[at] == dots;
        assert(spells(path@, pieces[at]));
        let (from, to) = choose|from: int, to: int| #[trigger]
            spells_step(path@, from, to, pieces[at]);
        assert(climbs_at(path@, from, to));
    }
    assert forall|from: int, to: int| #[trigger] climbs_at(path@, from, to) implies pieces.contains(
        dots,
    ) by {
        assert(spells_step(path@, from, to, dots));
    }
}

/// Joining keeps both paths: the second follows the first behind one separator, unless it
/// begins at the root and takes the first one's place.
pub proof fn law_joined_paths_keep_both(base: &[u8], path: &[u8], whole: Vec<u8>)
    requires
        join.ensures((base, path), whole),
    ensures
        path@.len() > 0 && path@[0] == 47 ==> whole@ == path@,
        (path@.len() == 0 || path@[0] != 47) && base@.len() > 0 && base@.last() != 47 ==> whole@
            == base@ + seq![47u8] + path@,
        (path@.len() == 0 || path@[0] != 47) && base@.len() > 0 && base@.last() == 47 ==> whole@
            == base@ + path@,
        base@.len() == 0 ==> whole@ == path@,
{
    assert(base@ + seq![47u8] + path@ =~= base@.push(47u8) + path@);
}

proof fn lemma_named_end(directory: Seq<u8>, name: Seq<u8>)
    requires
        name.len() > 0,
        !name.contains(47u8),
        name != seq![46u8],
        directory.len() > 0,
        directory.last() != 47,
        directory.last() != 46,
    ensures
        ({
            let path = directory.push(47u8) + name;
            let end = path.len() as int;
            &&& body_start(path) <= 1
            &&& body_start(path) <= directory.len()
            &&& settled(path, end) == end
            &&& last_piece_start(path, end) == directory.len() + 1
            &&& last_piece(path, end) == name
            &&& before_piece(path, end) == directory.len()
            &&& body_start(path) < end
        }),
{
    let path = directory.push(47u8) + name;
    let end = path.len() as int;
    let start = directory.len() as int + 1;
    assert(path[0] == directory[0]);
    assert(path[directory.len() as int] == 47);
    assert forall|i: int| start <= i < end implies path[i] != 47 by {
        assert(path[i] == name[i - start]);
        assert(name.contains(name[i - start]));
    }
    lemma_piece_from(path, start, end);
    assert(path.subrange(start, end) =~= name);
}

proof fn lemma_piece_from(path: Seq<u8>, start: int, end: int)
    requires
        body_start(path) < start <= end <= path.len(),
        path[start - 1] == 47,
        forall|i: int| start <= i < end ==> path[i] != 47,
    ensures
        last_piece_start(path, end) == start,
    decreases end - start,
{
    if end > start {
        lemma_piece_from(path, start, end - 1);
    }
}

/// The directory that holds a name is what stands before it, and its name is what stands
/// behind the last separator.
pub proof fn law_names_stand_in_their_directory(directory: Seq<u8>, name: Seq<u8>)
    requires
        name.len() > 0,
        !name.contains(47u8),
        name != seq![46u8],
        name != seq![46u8, 46u8],
        directory.len() > 0,
        directory.last() != 47,
        directory.last() != 46,
    ensures
        parent_of(directory.push(47u8) + name) == Some(directory),
        file_name_of(directory.push(47u8) + name) == Some(name),
{
    let path = directory.push(47u8) + name;
    let end = path.len() as int;
    lemma_named_end(directory, name);
    let at = directory.len() as int;
    assert(path[0] == directory[0]);
    lemma_settled_at(path, at);
    assert(path.take(at) =~= directory);
}

proof fn lemma_settled_at(path: Seq<u8>, end: int)
    requires
        0 < end <= path.len(),
        path[end - 1] != 47,
        path[end - 1] != 46,
    ensures
        settled(path, end) == end,
{
    if end > body_start(path) {
        lemma_piece_bounds(path, end);
        let piece = last_piece(path, end);
        lemma_piece_nonempty(path, end);
        assert(piece.last() == path[end - 1]);
        assert(seq![46u8].last() == 46);
    }
}

proof fn lemma_piece_nonempty(path: Seq<u8>, end: int)
    requires
        body_start(path) < end <= path.len(),
        path[end - 1] != 47,
    ensures
        last_piece_start(path, end) < end,
{
    lemma_piece_bounds(path, end - 1);
}

/// An extension is what follows the last dot of a name, where something stands before that
/// dot; replacing it keeps everything before the dot.
pub proof fn law_extensions_follow_the_last_dot(
    directory: Seq<u8>,
    stem: Seq<u8>,
    ending: Seq<u8>,
    replacement: Seq<u8>,
)
    requires
        stem.len() > 0,
        stem != seq![46u8],
        !stem.contains(47u8),
        !ending.contains(47u8),
        !ending.contains(46u8),
        ending.len() > 0,
        directory.len() > 0,
        directory.last() != 47,
        directory.last() != 46,
    ensures
        extension_of(directory.push(47u8) + (stem.push(46u8) + ending)) == Some(ending),
        with_extension_of(directory.push(47u8) + (stem.push(46u8) + ending), replacement)
            == directory.push(47u8) + (stem.push(46u8) + replacement),
{
    let name = stem.push(46u8) + ending;
    let path = directory.push(47u8) + name;
    assert forall|i: int| 0 <= i < name.len() implies name[i] != 47 by {
        if i < stem.len() {
            assert(name[i] == stem[i]);
            assert(stem.contains(stem[i]));
        } else if i > stem.len() {
            assert(name[i] == ending[i - stem.len() - 1]);
            assert(ending.contains(ending[i - stem.len() - 1]));
        }
    }
    assert(!name.contains(47u8));
    assert(name != seq![46u8]) by {
        assert(name.len() > 1);
    }
    assert(name != seq![46u8, 46u8]) by {
        assert(name.len() >= 3);
    }
    lemma_named_end(directory, name);
    assert(name[stem.len() as int] == 46);
    assert forall|i: int| stem.len() < i < name.len() implies name[i] != 46 by {
        assert(name[i] == ending[i - stem.len() - 1]);
        assert(ending.contains(ending[i - stem.len() - 1]));
    }
    lemma_dot_at(name, stem.len() as int, name.len() as int);
    assert(stem_len(name) == stem.len());
    assert(name.skip(stem.len() as int + 1) =~= ending);
    let kept = path.take(path.len() - name.len() + stem.len());
    assert(kept =~= directory.push(47u8) + stem);
    assert(kept.push(46u8) + replacement =~= directory.push(47u8) + (stem.push(46u8)
        + replacement));
}

proof fn lemma_dot_at(name: Seq<u8>, dot: int, end: int)
    requires
        0 <= dot < end <= name.len(),
        name[dot] == 46,
        forall|i: int| dot < i < end ==> name[i] != 46,
    ensures
        last_dot(name, end) == dot,
    decreases end,
{
    if end - 1 > dot {
        lemma_dot_at(name, dot, end - 1);
    }
}

proof fn lemma_plain_pieces(pieces: Seq<Seq<u8>>)
    ensures
        (forall|i: int|
            0 <= i < spelled(pieces, false).len() ==> (#[trigger] spelled(pieces, false)[i]) is Normal)
            <==> !pieces.contains(seq![46u8, 46u8]),
    decreases pieces.len(),
{
    lemma_climbing(pieces, false);
    lemma_plain_tail(pieces);
    let whole = spelled(pieces, false);
    assert forall|i: int| 0 <= i < whole.len() implies (descends(#[trigger] whole[i])
        <==> whole[i] is Normal) by {}
    if forall|i: int| 0 <= i < whole.len() ==> (#[trigger] whole[i]) is Normal {
        assert forall|i: int| 0 <= i < whole.len() implies descends(#[trigger] whole[i]) by {}
    }
    if forall|i: int| 0 <= i < whole.len() ==> descends(#[trigger] whole[i]) {
        assert forall|i: int| 0 <= i < whole.len() implies (#[trigger] whole[i]) is Normal by {}
    }
}

/// A path is absolute exactly where it begins with a separator, and a normalized one is
/// absolute and nowhere spells the step that climbs.
pub proof fn law_normalized_paths_never_climb(
    path: &[u8],
    absolute: bool,
    normalized: bool,
)
    requires
        is_absolute.ensures((path,), absolute),
        is_normalized.ensures((path,), normalized),
    ensures
        absolute <==> path@.len() > 0 && path@[0] == 47,
        normalized <==> absolute && forall|from: int, to: int|
            !#[trigger] climbs_at(path@, from, to),
{
    let pieces = text::pieces(path@, 47u8);
    let dots = seq![46u8, 46u8];
    lemma_pieces_are_steps(path@);
    lemma_plain_pieces(pieces);
    if absolute {
        let body = spelled(pieces, false);
        let whole = components(path@);
        assert(whole == seq![ComponentView::RootDir] + body);
        assert forall|i: int| 0 <= i < body.len() implies #[trigger] body[i] == whole[i + 1] by {}
        lemma_plain_tail(pieces);
        if self::normalized(path@) {
            assert forall|i: int| 0 <= i < body.len() implies (#[trigger] body[i]) is Normal by {
                assert(whole[i + 1] is RootDir || whole[i + 1] is Normal);
            }
        }
        if forall|i: int| 0 <= i < body.len() ==> (#[trigger] body[i]) is Normal {
            assert forall|i: int| 0 <= i < whole.len() implies #[trigger] whole[i] is RootDir
                || whole[i] is Normal by {
                if i > 0 {
                    assert(whole[i] == body[i - 1]);
                }
            }
        }
    }
    if pieces.contains(dots) {
        let at = choose|at: int| 0 <= at < pieces.len() && pieces[at] == dots;
        assert(spells(path@, pieces[at]));
        let (from, to) = choose|from: int, to: int| #[trigger]
            spells_step(path@, from, to, pieces[at]);
        assert(climbs_at(path@, from, to));
    }
    assert forall|from: int, to: int| #[trigger] climbs_at(path@, from, to) implies pieces.contains(
        dots,
    ) by {
        assert(spells_step(path@, from, to, dots));
    }
}

} // verus!
