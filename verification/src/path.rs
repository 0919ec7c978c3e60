//! Paths, by their components.
use vstd::prelude::*;

verus! {

/// A component of a path.
#[derive(PartialEq, Eq, Debug)]
pub enum PathComponent {
    /// A drive or a share, on Windows. A verbatim one keeps the system from reading `.` and `..`.
    Prefix { text: String, verbatim: bool },
    /// The root.
    RootDir,
    /// `.`
    CurDir,
    /// `..`
    ParentDir,
    /// A name.
    Normal(String),
}

/// What a [`PathComponent`] says.
pub enum PartView {
    Prefix { text: Seq<char>, verbatim: bool },
    RootDir,
    CurDir,
    ParentDir,
    Normal(Seq<char>),
}

impl View for PathComponent {
    type V = PartView;

    open spec fn view(&self) -> PartView {
        match self {
            PathComponent::Prefix { text, verbatim } => PartView::Prefix {
                text: text@,
                verbatim: *verbatim,
            },
            PathComponent::RootDir => PartView::RootDir,
            PathComponent::CurDir => PartView::CurDir,
            PathComponent::ParentDir => PartView::ParentDir,
            PathComponent::Normal(name) => PartView::Normal(name@),
        }
    }
}

/// What the components of a path say.
pub open spec fn parts(path: Seq<PathComponent>) -> Seq<PartView> {
    path.map_values(|component: PathComponent| component@)
}

impl Clone for PathComponent {
    fn clone(&self) -> (copy: Self)
        ensures
            copy == *self,
    {
        match self {
            PathComponent::Prefix { text, verbatim } => PathComponent::Prefix {
                text: text.clone(),
                verbatim: *verbatim,
            },
            PathComponent::RootDir => PathComponent::RootDir,
            PathComponent::CurDir => PathComponent::CurDir,
            PathComponent::ParentDir => PathComponent::ParentDir,
            PathComponent::Normal(name) => PathComponent::Normal(name.clone()),
        }
    }
}

/// The pieces of a text between its slashes.
pub open spec fn pieces(text: Seq<char>) -> Seq<Seq<char>>
    decreases text.len(),
{
    if text.len() == 0 {
        seq![Seq::empty()]
    } else {
        let before = pieces(text.drop_last());
        if text.last() == '/' {
            before.push(Seq::empty())
        } else {
            before.drop_last().push(before.last().push(text.last()))
        }
    }
}

/// The components that the first pieces of a path give.
///
/// An empty piece gives none, and neither does `.`, unless it is the very first.
pub open spec fn parts_of_pieces(pieces: Seq<Seq<char>>) -> Seq<PartView>
    decreases pieces.len(),
{
    if pieces.len() == 0 {
        Seq::empty()
    } else {
        let before = parts_of_pieces(pieces.drop_last());
        let piece = pieces.last();
        if piece.len() == 0 || (piece == seq!['.'] && pieces.len() > 1) {
            before
        } else if piece == seq!['.'] {
            before.push(PartView::CurDir)
        } else if piece == seq!['.', '.'] {
            before.push(PartView::ParentDir)
        } else {
            before.push(PartView::Normal(piece))
        }
    }
}

/// The components of a path that holds no drive or share.
pub open spec fn parts_of(text: Seq<char>) -> Seq<PartView> {
    if text.len() > 0 && text[0] == '/' {
        seq![PartView::RootDir] + parts_of_pieces(pieces(text))
    } else {
        parts_of_pieces(pieces(text))
    }
}

/// A path with slashes for its backslashes. Windows takes both for separators.
pub open spec fn slashed(text: Seq<char>) -> Seq<char> {
    text.map_values(
        |c: char|
            if c == '\\' {
                '/'
            } else {
                c
            },
    )
}

/// Whether a path can begin with a drive or a share: its second place holds a colon, or its first
/// two hold separators.
pub open spec fn may_have_prefix(text: Seq<char>) -> bool {
    text.len() > 1 && (text[1] == ':' || (slashed(text)[0] == '/' && slashed(text)[1] == '/'))
}

/// Whether every system takes a path apart in the same way: it holds no backslash, and cannot begin
/// with a drive or a share.
pub open spec fn is_portable(text: Seq<char>) -> bool {
    !text.contains('\\') && !may_have_prefix(text)
}

/// Whether a path consists of a drive or a share and of what follows it.
///
/// The drive or the share is the beginning of the path, a drive its first two places. Where a
/// separator follows, the rest is taken apart as a path of its own, unless the system is kept from
/// reading it. So it is behind a drive without a separator, unless it begins with `.`.
pub open spec fn taken_apart_behind_prefix(text: Seq<char>, parts: Seq<PartView>) -> bool {
    &&& parts.len() > 0
    &&& parts[0] matches PartView::Prefix { text: prefix, verbatim }
    &&& prefix.len() <= text.len()
    &&& prefix == text.take(prefix.len() as int)
    &&& text[1] == ':' ==> prefix.len() == 2 && !verbatim
    &&& {
        let rest = slashed(text.skip(prefix.len() as int));
        &&& !verbatim && rest.len() > 0 && rest[0] == '/' ==> parts.skip(1) == parts_of(rest)
        &&& text[1] == ':' && pieces(rest)[0] != seq!['.'] ==> parts.skip(1) == parts_of(rest)
    }
}

/// Whether a path is taken apart as some system does it: at its slashes, at its backslashes too, or,
/// where it begins with a drive or a share, behind that.
pub open spec fn taken_apart(text: Seq<char>, parts: Seq<PartView>) -> bool {
    ||| parts == parts_of(text)
    ||| parts == parts_of(slashed(text))
    ||| may_have_prefix(text) && taken_apart_behind_prefix(text, parts)
}

/// There is one way to take a portable path apart.
pub proof fn law_portable_paths_are_taken_apart_alike(text: Seq<char>, parts: Seq<PartView>)
    requires
        is_portable(text),
    ensures
        taken_apart(text, parts) <==> parts == parts_of(text),
{
    assert forall|i: int| 0 <= i < text.len() implies slashed(text)[i] == text[i] by {
        assert(text.contains(text[i]));
    }
    assert(slashed(text) =~= text);
}

/// A path without its root.
pub open spec fn without_root(path: Seq<PartView>) -> Seq<PartView>
    decreases path.len(),
{
    if path.len() == 0 {
        path
    } else if path.last() is RootDir {
        without_root(path.drop_last())
    } else {
        without_root(path.drop_last()).push(path.last())
    }
}

/// One more component on a path that the system does not read `.` and `..` in.
pub open spec fn step_verbatim(path: Seq<PartView>, component: PartView) -> Seq<PartView> {
    match component {
        PartView::RootDir => path.take(1).push(component),
        PartView::CurDir => path,
        PartView::ParentDir => if path.len() > 0 && path.last() is Normal {
            path.drop_last()
        } else {
            path
        },
        _ => path.push(component),
    }
}

/// A path with the components of another on it, `.` and `..` taken out.
pub open spec fn join_verbatim(base: Seq<PartView>, path: Seq<PartView>) -> Seq<PartView>
    decreases path.len(),
{
    if path.len() == 0 {
        base
    } else {
        step_verbatim(join_verbatim(base, path.drop_last()), path.last())
    }
}

/// Whether a path starts with a drive or a share.
pub open spec fn has_prefix(path: Seq<PartView>) -> bool {
    path.len() > 0 && path[0] is Prefix
}

/// Whether a path starts with a drive or a share within which `.` and `..` are names.
pub open spec fn has_verbatim_prefix(path: Seq<PartView>) -> bool {
    path.len() > 0 && match path[0] {
        PartView::Prefix { verbatim, .. } => verbatim,
        _ => false,
    }
}

/// Where `path` leads from `base`.
///
/// A path with a root or a drive of its own replaces `base`. On Windows one with a root alone keeps
/// the drive of `base`, and one that is put on a verbatim drive loses its `.` and `..`.
pub open spec fn joined(
    base: Seq<PartView>,
    path: Seq<PartView>,
    windows: bool,
) -> Seq<PartView> {
    if windows && has_prefix(path) {
        path
    } else if windows && has_verbatim_prefix(base) {
        join_verbatim(base, path)
    } else if path.len() > 0 && path[0] is RootDir {
        if windows && has_prefix(base) {
            base.take(1) + path
        } else {
            path
        }
    } else {
        base + path
    }
}

/// The components of a path that are not its root.
pub fn strip_root(path: &Vec<PathComponent>) -> (stripped: Vec<PathComponent>)
    ensures
        parts(stripped@) == without_root(parts(path@)),
{
    let mut stripped: Vec<PathComponent> = Vec::new();
    let mut i: usize = 0;
    let ghost all = parts(path@);
    assert(parts(stripped@) =~= without_root(all.take(0)));
    while i < path.len()
        invariant
            i <= path.len(),
            all == parts(path@),
            parts(stripped@) == without_root(all.take(i as int)),
        decreases path.len() - i,
    {
        assert(all.take(i + 1).drop_last() =~= all.take(i as int));
        let ghost before = parts(stripped@);
        match &path[i] {
            PathComponent::RootDir => {},
            component => {
                stripped.push(component.clone());
                assert(parts(stripped@) =~= before.push(all[i as int]));
            },
        }
        i += 1;
    }
    assert(all.take(i as int) =~= all);
    stripped
}

/// Puts the components of a path behind those of another.
fn extend(path: &mut Vec<PathComponent>, more: &Vec<PathComponent>)
    ensures
        final(path)@ == old(path)@ + more@,
{
    let mut i: usize = 0;
    let ghost before = path@;
    assert(before + more@.take(0) =~= before);
    while i < more.len()
        invariant
            i <= more.len(),
            path@ == before + more@.take(i as int),
        decreases more.len() - i,
    {
        path.push(more[i].clone());
        assert(before + more@.take(i + 1) =~= (before + more@.take(i as int)).push(
            more@[i as int],
        ));
        i += 1;
    }
    assert(more@.take(i as int) =~= more@);
}

/// Where `path` leads from `base`.
pub fn join(base: Vec<PathComponent>, path: &Vec<PathComponent>, windows: bool) -> (joined: Vec<
    PathComponent,
>)
    ensures
        parts(joined@) == self::joined(parts(base@), parts(path@), windows),
{
    let mut out = base;
    let ghost start = parts(out@);
    let ghost more = parts(path@);
    let path_prefix = path.len() > 0 && matches!(&path[0], PathComponent::Prefix { .. });
    let path_root = path.len() > 0 && matches!(&path[0], PathComponent::RootDir);
    let base_prefix = out.len() > 0 && matches!(&out[0], PathComponent::Prefix { .. });
    let base_verbatim = out.len() > 0 && matches!(
        &out[0],
        PathComponent::Prefix { verbatim: true, .. }
    );
    assert(path_prefix == has_prefix(more));
    assert(base_prefix == has_prefix(start));
    assert(base_verbatim == has_verbatim_prefix(start));
    if windows && path_prefix {
        out.clear();
        extend(&mut out, path);
        assert(parts(out@) =~= more);
    } else if windows && base_verbatim {
        let mut i: usize = 0;
        assert(more.take(0) =~= Seq::<PartView>::empty());
        while i < path.len()
            invariant
                i <= path.len(),
                more == parts(path@),
                parts(out@) == join_verbatim(start, more.take(i as int)),
                has_prefix(parts(out@)),
            decreases path.len() - i,
        {
            assert(more.take(i + 1).drop_last() =~= more.take(i as int));
            let ghost before = parts(out@);
            match &path[i] {
                PathComponent::RootDir => {
                    out.truncate(1);
                    out.push(PathComponent::RootDir);
                    assert(parts(out@) =~= before.take(1).push(PartView::RootDir));
                },
                PathComponent::CurDir => {},
                PathComponent::ParentDir => {
                    if out.len() > 0 && matches!(&out[out.len() - 1], PathComponent::Normal(_)) {
                        let _ = out.pop();
                        assert(parts(out@) =~= before.drop_last());
                    }
                },
                component => {
                    out.push(component.clone());
                    assert(parts(out@) =~= before.push(more[i as int]));
                },
            }
            i += 1;
        }
        assert(more.take(i as int) =~= more);
    } else if path_root {
        if windows && base_prefix {
            out.truncate(1);
            extend(&mut out, path);
            assert(parts(out@) =~= start.take(1) + more);
        } else {
            out.clear();
            extend(&mut out, path);
            assert(parts(out@) =~= more);
        }
    } else {
        extend(&mut out, path);
        assert(parts(out@) =~= start + more);
    }
    out
}

/// A path keeps every component but its root, in their order.
pub proof fn law_only_the_root_is_stripped(path: Seq<PartView>)
    ensures
        without_root(path) == path.filter(|part: PartView| !(part is RootDir)),
    decreases path.len(),
{
    reveal(Seq::filter);
    if path.len() > 0 {
        law_only_the_root_is_stripped(path.drop_last());
    }
}

/// Stripping the root of two paths that are put together is stripping both.
proof fn lemma_without_root_add(one: Seq<PartView>, other: Seq<PartView>)
    ensures
        without_root(one + other) == without_root(one) + without_root(other),
    decreases other.len(),
{
    if other.len() == 0 {
        assert(one + other =~= one);
        assert(without_root(one) + without_root(other) =~= without_root(one));
    } else {
        let rest = other.drop_last();
        lemma_without_root_add(one, rest);
        assert((one + other).drop_last() =~= one + rest);
        assert((one + other).last() == other.last());
        if !(other.last() is RootDir) {
            assert((without_root(one) + without_root(rest)).push(other.last())
                =~= without_root(one) + without_root(rest).push(other.last()));
        }
    }
}

/// A path without a root is left as it is, and one that begins with its root is left without that
/// and with everything else.
pub proof fn law_what_follows_the_root_is_kept(rest: Seq<PartView>)
    requires
        forall|i: int| 0 <= i < rest.len() ==> !(#[trigger] rest[i] is RootDir),
    ensures
        without_root(rest) == rest,
        without_root(seq![PartView::RootDir] + rest) == rest,
    decreases rest.len(),
{
    if rest.len() > 0 {
        law_what_follows_the_root_is_kept(rest.drop_last());
        assert(rest.drop_last().push(rest.last()) =~= rest);
    }
    let root = seq![PartView::RootDir];
    lemma_without_root_add(root, rest);
    assert(root.drop_last() =~= Seq::empty());
    assert(without_root(root.drop_last()) =~= Seq::empty());
    assert(Seq::<PartView>::empty() + rest =~= rest);
}

/// From a directory of a system without drives a path leads on, unless it has a root of its own:
/// then it leads to where it leads by itself.
pub proof fn law_paths_lead_on_without_drives(base: Seq<PartView>, path: Seq<PartView>)
    ensures
        path.len() == 0 || !(path[0] is RootDir) ==> joined(base, path, false) == base + path,
        path.len() > 0 && path[0] is RootDir ==> joined(base, path, false) == path,
{
}

/// On Windows a path that begins with a drive leads to where it leads by itself. One that begins
/// with a root stays on the drive that it comes from, if that one is not verbatim, and any other
/// leads on.
pub proof fn law_paths_lead_on_with_drives(base: Seq<PartView>, path: Seq<PartView>)
    ensures
        path.len() > 0 && path[0] is Prefix ==> joined(base, path, true) == path,
        base.len() > 0 && (base[0] matches PartView::Prefix { verbatim: false, .. }) && path.len()
            > 0 && path[0] is RootDir ==> joined(base, path, true) == seq![base[0]] + path,
        (base.len() == 0 || !(base[0] is Prefix)) && path.len() > 0 && path[0] is RootDir
            ==> joined(base, path, true) == path,
        !(base.len() > 0 && (base[0] matches PartView::Prefix { verbatim: true, .. })) && (
        path.len() == 0 || !(path[0] is RootDir || path[0] is Prefix)) ==> joined(base, path, true)
            == base + path,
{
    if base.len() > 0 {
        assert(base.take(1) =~= seq![base[0]]);
    }
}

/// Paths that are put on a verbatim drive one after the other lead where they lead together.
proof fn lemma_join_verbatim_add(base: Seq<PartView>, one: Seq<PartView>, other: Seq<PartView>)
    ensures
        join_verbatim(base, one + other) == join_verbatim(join_verbatim(base, one), other),
    decreases other.len(),
{
    if other.len() == 0 {
        assert(one + other =~= one);
    } else {
        lemma_join_verbatim_add(base, one, other.drop_last());
        assert((one + other).drop_last() =~= one + other.drop_last());
        assert((one + other).last() == other.last());
    }
}

/// On a verbatim drive `.` leads nowhere, `..` leads out of the directory that was entered last and
/// not out of the drive, a root leads back to the drive, and a name leads on. Several components
/// lead where they lead one after the other.
pub proof fn law_paths_lead_on_on_a_verbatim_drive(
    base: Seq<PartView>,
    name: Seq<char>,
    path: Seq<PartView>,
    more: PartView,
)
    requires
        base.len() > 0,
        base[0] matches PartView::Prefix { verbatim: true, .. },
        path.len() == 0 || !(path[0] is Prefix),
    ensures
        joined(base, Seq::empty(), true) == base,
        joined(base, seq![PartView::CurDir], true) == base,
        joined(base, seq![PartView::Normal(name)], true) == base.push(PartView::Normal(name)),
        joined(base.push(PartView::Normal(name)), seq![PartView::ParentDir], true) == base,
        !(base.last() is Normal) ==> joined(base, seq![PartView::ParentDir], true) == base,
        joined(base, seq![PartView::RootDir], true) == seq![base[0], PartView::RootDir],
        path.len() > 0 && !(more is Prefix) ==> joined(base, path.push(more), true) == joined(
            joined(base, path, true),
            seq![more],
            true,
        ),
{
    assert forall|start: Seq<PartView>, part: PartView| #[trigger]
        join_verbatim(start, seq![part]) == step_verbatim(start, part) by {
        let one = seq![part];
        assert(one.drop_last() =~= Seq::empty());
        assert(join_verbatim(start, one.drop_last()) == start);
    }
    let entered = base.push(PartView::Normal(name));
    assert(entered.drop_last() =~= base);
    assert(base.take(1).push(PartView::RootDir) =~= seq![base[0], PartView::RootDir]);
    if path.len() > 0 {
        assert(path.push(more) =~= path + seq![more]);
        lemma_join_verbatim_add(base, path, seq![more]);
        lemma_stays_verbatim(base, path);
    }
}

/// A path that is put on a verbatim drive stays on it.
proof fn lemma_stays_verbatim(base: Seq<PartView>, path: Seq<PartView>)
    requires
        base.len() > 0,
        base[0] is Prefix,
    ensures
        join_verbatim(base, path).len() > 0,
        join_verbatim(base, path)[0] == base[0],
    decreases path.len(),
{
    if path.len() > 0 {
        lemma_stays_verbatim(base, path.drop_last());
    }
}

/// The pieces of two texts with a slash between them are the pieces of both.
pub proof fn law_slashes_part_a_path(one: Seq<char>, other: Seq<char>)
    ensures
        pieces(one + seq!['/'] + other) == pieces(one) + pieces(other),
        pieces(other).len() > 0,
    decreases other.len(),
{
    let all = one + seq!['/'] + other;
    if other.len() == 0 {
        assert(all.drop_last() =~= one);
        assert(all.last() == '/');
        assert(pieces(one).push(Seq::empty()) =~= pieces(one) + seq![Seq::<char>::empty()]);
    } else {
        let rest = other.drop_last();
        law_slashes_part_a_path(one, rest);
        assert(all.drop_last() =~= one + seq!['/'] + rest);
        assert(all.last() == other.last());
        let before = pieces(rest);
        if other.last() == '/' {
            assert((pieces(one) + before).push(Seq::empty()) =~= pieces(one) + before.push(
                Seq::empty(),
            ));
        } else {
            assert((pieces(one) + before).drop_last() =~= pieces(one) + before.drop_last());
            assert((pieces(one) + before).last() == before.last());
            assert((pieces(one) + before.drop_last()).push(before.last().push(other.last()))
                =~= pieces(one) + before.drop_last().push(before.last().push(other.last())));
        }
    }
}

/// A text without a slash is one piece, and as a path it is one name, unless it is empty, `.` or
/// `..`.
pub proof fn law_a_name_is_one_component(text: Seq<char>)
    requires
        !text.contains('/'),
    ensures
        pieces(text) == seq![text],
        text.len() > 0 && text != seq!['.'] && text != seq!['.', '.'] ==> parts_of(text) == seq![
            PartView::Normal(text),
        ],
        text.len() == 0 ==> parts_of(text) == Seq::<PartView>::empty(),
        text == seq!['.'] ==> parts_of(text) == seq![PartView::CurDir],
        text == seq!['.', '.'] ==> parts_of(text) == seq![PartView::ParentDir],
    decreases text.len(),
{
    if text.len() > 0 {
        let rest = text.drop_last();
        assert forall|i: int| 0 <= i < rest.len() implies rest[i] != '/' by {
            assert(text.contains(text[i]));
        }
        law_a_name_is_one_component(rest);
        assert(text.contains(text.last()));
        assert(rest.push(text.last()) =~= text);
        assert(pieces(text) =~= seq![text]);
        assert(text.contains(text[0]));
    }
    let one = seq![text];
    if text.len() == 0 {
        assert(text =~= Seq::empty());
    }
    assert(one.drop_last() =~= Seq::empty());
    assert(parts_of_pieces(one.drop_last()) =~= Seq::empty());
    assert(seq!['.', '.'].len() == 2);
    assert(seq!['.'].len() == 1);
    if text.len() > 0 {
        assert(Seq::<PartView>::empty().push(PartView::Normal(text)) =~= seq![
            PartView::Normal(text),
        ]);
        assert(Seq::<PartView>::empty().push(PartView::CurDir) =~= seq![PartView::CurDir]);
        assert(Seq::<PartView>::empty().push(PartView::ParentDir) =~= seq![PartView::ParentDir]);
    }
}

/// A name behind a path is its last component. There `.` and nothing at all give none.
pub proof fn law_a_name_comes_behind_its_path(path: Seq<char>, name: Seq<char>)
    requires
        path.len() > 0,
        !name.contains('/'),
    ensures
        name.len() > 0 && name != seq!['.'] && name != seq!['.', '.'] ==> parts_of(
            path + seq!['/'] + name,
        ) == parts_of(path).push(PartView::Normal(name)),
        name.len() == 0 || name == seq!['.'] ==> parts_of(path + seq!['/'] + name) == parts_of(
            path,
        ),
        name == seq!['.', '.'] ==> parts_of(path + seq!['/'] + name) == parts_of(path).push(
            PartView::ParentDir,
        ),
{
    let all = path + seq!['/'] + name;
    law_slashes_part_a_path(path, name);
    law_a_name_is_one_component(name);
    let before = pieces(path);
    let after = pieces(all);
    assert(after =~= before.push(name));
    assert(after.drop_last() =~= before);
    lemma_pieces(path);
    assert(seq!['.', '.'].len() == 2);
    assert(seq!['.'].len() == 1);
    assert(all[0] == path[0]);
    if path[0] == '/' {
        let root = seq![PartView::RootDir];
        let parts = parts_of_pieces(before);
        assert(root + parts.push(PartView::Normal(name)) =~= (root + parts).push(
            PartView::Normal(name),
        ));
        assert(root + parts.push(PartView::ParentDir) =~= (root + parts).push(PartView::ParentDir));
    }
}

/// Every text has a piece.
proof fn lemma_pieces(text: Seq<char>)
    ensures
        pieces(text).len() > 0,
    decreases text.len(),
{
    if text.len() > 0 {
        lemma_pieces(text.drop_last());
    }
}

/// What the components of a path say is said of each of them, in their order, and tells them apart.
pub proof fn law_components_are_told_apart(
    path: Seq<PathComponent>,
    one: PathComponent,
    other: PathComponent,
    i: int,
)
    ensures
        parts(path).len() == path.len(),
        0 <= i < path.len() ==> parts(path)[i] == path[i]@,
        one@ == other@ ==> match (one, other) {
            (
                PathComponent::Prefix { text: a, verbatim: v },
                PathComponent::Prefix { text: b, verbatim: w },
            ) => a@ == b@ && v == w,
            (PathComponent::Normal(a), PathComponent::Normal(b)) => a@ == b@,
            (PathComponent::RootDir, PathComponent::RootDir) => true,
            (PathComponent::CurDir, PathComponent::CurDir) => true,
            (PathComponent::ParentDir, PathComponent::ParentDir) => true,
            _ => false,
        },
{
}

} // verus!
