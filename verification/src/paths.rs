//! Paths as text, in the form that Linux gives them: components separated by
//! slashes.

use crate::text::{lemma_split_append, lemma_split_nonempty, opt_text, split};
use std::path::Path;
use vstd::prelude::*;
use vstd::string::*;

verus! {

/// One component of a path.
pub enum Component {
    /// The leading slash of an absolute path.
    Root,
    /// A leading `.` of a relative path.
    Current,
    /// A `..`, wherever it stands.
    Parent,
    /// A file or directory name.
    Normal(Seq<char>),
}

/// The component that a piece between slashes stands for.
pub open spec fn named_component(piece: Seq<char>) -> Component {
    if piece == seq!['.', '.'] {
        Component::Parent
    } else {
        Component::Normal(piece)
    }
}

/// A piece between slashes that stands for a component: not empty, not `.`.
pub open spec fn is_named(piece: Seq<char>) -> bool {
    piece.len() > 0 && piece != seq!['.']
}

/// The path begins at the root.
pub open spec fn absolute(path: Seq<char>) -> bool {
    path.len() > 0 && path[0] == '/'
}

/// The components of a path. Repeated and trailing slashes count for nothing,
/// and neither does a `.` anywhere but at the front of a relative path.
pub open spec fn components(path: Seq<char>) -> Seq<Component> {
    let pieces = split(path, '/');
    let front = if absolute(path) {
        seq![Component::Root]
    } else if pieces[0] == seq!['.'] {
        seq![Component::Current]
    } else {
        Seq::<Component>::empty()
    };
    front + pieces.filter(|piece: Seq<char>| is_named(piece)).map_values(
        |piece: Seq<char>| named_component(piece),
    )
}

/// The name of the file or directory that a path leads to.
pub open spec fn file_name(path: Seq<char>) -> Option<Seq<char>> {
    let parts = components(path);
    if parts.len() > 0 {
        match parts.last() {
            Component::Normal(name) => Some(name),
            _ => None,
        }
    } else {
        None
    }
}

/// Position of the last dot of a file name, when it is not the first character.
pub open spec fn is_extension_dot(name: Seq<char>, dot: int) -> bool {
    &&& 0 < dot < name.len()
    &&& name[dot] == '.'
    &&& forall|j: int| dot < j < name.len() ==> name[j] != '.'
}

/// The part of a file name after its last dot; a dot at the front does not
/// count.
pub open spec fn name_extension(name: Seq<char>) -> Option<Seq<char>> {
    if exists|dot: int| is_extension_dot(name, dot) {
        Some(name.skip((choose|dot: int| is_extension_dot(name, dot)) + 1))
    } else {
        None
    }
}

/// The part of a file name before its last dot; the whole name when it has no
/// extension.
pub open spec fn name_stem(name: Seq<char>) -> Seq<char> {
    if exists|dot: int| is_extension_dot(name, dot) {
        name.take(choose|dot: int| is_extension_dot(name, dot))
    } else {
        name
    }
}

/// The extension of the file that a path leads to.
pub open spec fn extension(path: Seq<char>) -> Option<Seq<char>> {
    match file_name(path) {
        Some(name) => name_extension(name),
        None => None,
    }
}

/// The stem of the file that a path leads to.
pub open spec fn file_stem(path: Seq<char>) -> Option<Seq<char>> {
    match file_name(path) {
        Some(name) => Some(name_stem(name)),
        None => None,
    }
}

/// `path` has a parent: it is not empty and does not end at the root.
pub open spec fn has_parent(path: Seq<char>) -> bool {
    let parts = components(path);
    parts.len() > 0 && parts.last() != Component::Root
}

/// `base` is a leading part of `path`, component by component.
pub open spec fn is_under(path: Seq<char>, base: Seq<char>) -> bool {
    components(base).is_prefix_of(components(path))
}

/// The two paths have the same components.
pub open spec fn same_path(a: Seq<char>, b: Seq<char>) -> bool {
    components(a) == components(b)
}

/// `base` extended by `rest`: `rest` itself when it is absolute, otherwise both
/// with one slash between them, unless `base` is empty or ends in a slash.
pub open spec fn joined(base: Seq<char>, rest: Seq<char>) -> Seq<char> {
    if absolute(rest) {
        rest
    } else if base.len() > 0 && base.last() != '/' {
        base.push('/') + rest
    } else {
        base + rest
    }
}

/// A name that can stand for a file or directory as it is.
pub open spec fn is_proper_name(name: Seq<char>) -> bool {
    &&& is_named(name)
    &&& name != seq!['.', '.']
    &&& forall|i: int| 0 <= i < name.len() ==> name[i] != '/'
}

proof fn lemma_pieces_have_no_slash(s: Seq<char>)
    ensures
        forall|k: int, i: int|
            0 <= k < split(s, '/').len() && 0 <= i < split(s, '/')[k].len() ==> #[trigger] split(
                s,
                '/',
            )[k][i] != '/',
    decreases s.len(),
{
    if s.len() > 0 {
        lemma_split_nonempty(s.drop_last(), '/');
        lemma_pieces_have_no_slash(s.drop_last());
    }
}

/// The name of the file that a path leads to is a proper name.
pub proof fn lemma_file_name(path: Seq<char>)
    requires
        file_name(path) is Some,
    ensures
        is_proper_name(file_name(path)->Some_0),
{
    let name = file_name(path)->Some_0;
    let pieces = split(path, '/');
    let named = pieces.filter(|piece: Seq<char>| is_named(piece));
    let parts = components(path);
    let mapped = named.map_values(|piece: Seq<char>| named_component(piece));
    lemma_pieces_have_no_slash(path);
    assert(parts.last() == mapped.last() && mapped.len() > 0);
    let piece = named.last();
    assert(named.contains(piece));
    pieces.lemma_filter_contains_rev(|piece: Seq<char>| is_named(piece), piece);
    pieces.lemma_filter_pred(|piece: Seq<char>| is_named(piece), named.len() - 1);
    assert(piece == name);
    let k = choose|k: int| 0 <= k < pieces.len() && pieces[k] == piece;
    assert forall|i: int| 0 <= i < name.len() implies name[i] != '/' by {
        assert(pieces[k][i] != '/');
    }
}

/// Extending a path by a proper name adds exactly that name to its components.
pub proof fn lemma_components_join(base: Seq<char>, name: Seq<char>)
    requires
        is_proper_name(name),
    ensures
        components(joined(base, name)) == components(base).push(Component::Normal(name)),
        file_name(joined(base, name)) == Some(name),
        has_parent(joined(base, name)),
{
    let pred = |piece: Seq<char>| is_named(piece);
    let conv = |piece: Seq<char>| named_component(piece);
    let path = joined(base, name);
    let old_pieces = split(base, '/');
    lemma_split_nonempty(base, '/');
    assert(!name.contains('/'));
    // What stands before the name ends in a slash, or is empty.
    let head = if base.len() > 0 && base.last() != '/' {
        base.push('/')
    } else {
        base
    };
    assert(path =~= head + name);
    lemma_split_nonempty(head, '/');
    lemma_split_append(head, name, '/');
    let head_pieces = split(head, '/');
    if base.len() > 0 && base.last() != '/' {
        assert(head.drop_last() =~= base);
        assert(head_pieces == old_pieces.push(Seq::<char>::empty()));
    }
    assert(head_pieces.last().len() == 0) by {
        if base.len() > 0 && base.last() == '/' {
            assert(head_pieces.last() == Seq::<char>::empty());
        }
    }
    assert(head_pieces.last() + name =~= name);
    let front = head_pieces.drop_last();
    assert(split(path, '/') == front.push(name));
    // Only named pieces count, and the last piece of the head is empty.
    front.lemma_filter_push(name, pred);
    front.lemma_filter_push(head_pieces.last(), pred);
    assert(front.push(head_pieces.last()) =~= head_pieces);
    assert(head_pieces.filter(pred) == front.filter(pred));
    if base.len() > 0 && base.last() != '/' {
        old_pieces.lemma_filter_push(Seq::<char>::empty(), pred);
        assert(head_pieces.filter(pred) == old_pieces.filter(pred));
    }
    assert(split(path, '/').filter(pred) =~= old_pieces.filter(pred).push(name));
    assert(split(path, '/').filter(pred).map_values(conv) =~= old_pieces.filter(pred).map_values(
        conv,
    ).push(Component::Normal(name)));
    // The front of the path is the same.
    if base.len() == 0 {
        assert(old_pieces =~= seq![Seq::<char>::empty()]);
        assert(split(path, '/') =~= seq![name]);
        assert(!absolute(path));
    } else {
        assert(path[0] == base[0]);
        if !absolute(base) {
            if front.len() == 0 {
                // Without a slash in front the base would be empty.
                lemma_split_single(head);
            }
            assert(split(path, '/')[0] == front[0]);
            assert(front[0] == old_pieces[0]);
        }
    }
    assert(components(path) =~= components(base).push(Component::Normal(name)));
}

proof fn lemma_split_single(s: Seq<char>)
    requires
        s.len() > 0,
        s.last() == '/',
    ensures
        split(s, '/').len() >= 2,
{
    lemma_split_nonempty(s.drop_last(), '/');
}

/// Extending a path: an absolute extension takes its place; any other is put behind it as it
/// is, with exactly one slash between the two unless the path is empty or ends in one.
pub proof fn law_extension_of_a_path(base: Seq<char>, rest: Seq<char>)
    ensures
        rest.len() > 0 && rest[0] == '/' ==> joined(base, rest) == rest,
        !(rest.len() > 0 && rest[0] == '/') ==> {
            &&& base.len() == 0 ==> joined(base, rest) == rest
            &&& base.len() > 0 && base.last() == '/' ==> joined(base, rest) == base + rest
            &&& base.len() > 0 && base.last() != '/' ==> joined(base, rest) == base + seq!['/'] + rest
        },
{
    assert(Seq::<char>::empty() + rest =~= rest);
    if base.len() == 0 {
        assert(base + rest =~= rest);
    }
    assert(base.push('/') =~= base + seq!['/']);
}

/// The stem and the extension of a file name, with the dot between them, are the name; the
/// extension holds no dot, and the stem is not empty. A name without an extension is its own
/// stem.
pub proof fn law_stem_and_extension_make_the_name(name: Seq<char>)
    ensures
        name_extension(name) matches Some(ext) ==> name == name_stem(name) + seq!['.'] + ext
            && !ext.contains('.') && name_stem(name).len() > 0,
        name_extension(name) is None ==> name_stem(name) == name && forall|i: int|
            0 < i < name.len() ==> name[i] != '.',
{
    if exists|dot: int| is_extension_dot(name, dot) {
        let dot = choose|dot: int| is_extension_dot(name, dot);
        assert(is_extension_dot(name, dot));
        let ext = name.skip(dot + 1);
        assert(name =~= name.take(dot) + seq!['.'] + ext);
        assert forall|k: int| 0 <= k < ext.len() implies ext[k] != '.' by {
            assert(ext[k] == name[dot + 1 + k]);
        }
    } else {
        assert forall|i: int| 0 < i < name.len() implies name[i] != '.' by {
            if name[i] == '.' {
                lemma_last_dot_exists(name, i);
            }
        }
    }
}

proof fn lemma_last_dot_exists(name: Seq<char>, i: int)
    requires
        0 < i < name.len(),
        name[i] == '.',
    ensures
        exists|dot: int| is_extension_dot(name, dot),
    decreases name.len() - i,
{
    if exists|j: int| i < j < name.len() && name[j] == '.' {
        let j = choose|j: int| i < j < name.len() && name[j] == '.';
        lemma_last_dot_exists(name, j);
    } else {
        assert(is_extension_dot(name, i));
    }
}

/// `Path::file_name`: the last component of the path if it is a name, `None` if
/// the path ends in `..`, in the root or in a lone `.`, or is empty.
#[verifier::external_body]
pub(crate) fn path_file_name(path: &str) -> (name: Option<String>)
    ensures
        opt_text(name) == file_name(path@),
{
    Path::new(path).file_name().and_then(|name| name.to_str()).map(|name| name.to_owned())
}

/// `Path::extension`: the part of the file name after its last dot, `None`
/// without a file name, without a dot, or when the only dot is the first
/// character.
#[verifier::external_body]
pub(crate) fn path_extension(path: &str) -> (ext: Option<String>)
    ensures
        opt_text(ext) == extension(path@),
{
    Path::new(path).extension().and_then(|ext| ext.to_str()).map(|ext| ext.to_owned())
}

/// `Path::file_stem`: the file name without its extension, `None` without a
/// file name.
#[verifier::external_body]
pub(crate) fn path_file_stem(path: &str) -> (stem: Option<String>)
    ensures
        opt_text(stem) == file_stem(path@),
{
    Path::new(path).file_stem().and_then(|stem| stem.to_str()).map(|stem| stem.to_owned())
}

/// `Path::parent`: the path without its last component, `None` if it ends at
/// the root or is empty. The contract fixes the components of the parent; how
/// its slashes are written is left open.
#[verifier::external_body]
pub(crate) fn path_parent(path: &str) -> (parent: Option<String>)
    ensures
        parent is Some <==> has_parent(path@),
        parent matches Some(p) ==> components(p@) == components(path@).drop_last(),
{
    Path::new(path).parent().and_then(|parent| parent.to_str()).map(|parent| parent.to_owned())
}

/// `Path::starts_with`: whether `base` is a prefix of the path, whole components
/// considered.
#[verifier::external_body]
pub(crate) fn path_starts_with(path: &str, base: &str) -> (under: bool)
    ensures
        under == is_under(path@, base@),
{
    Path::new(path).starts_with(base)
}

/// `Path` equality: whether the two paths have the same components.
#[verifier::external_body]
pub(crate) fn path_eq(a: &str, b: &str) -> (same: bool)
    ensures
        same == same_path(a@, b@),
{
    Path::new(a) == Path::new(b)
}

/// Whether the path begins at the root.
pub fn is_absolute(path: &str) -> (r: bool)
    ensures
        r == absolute(path@),
{
    !path.is_empty() && path.get_char(0) == '/'
}

/// Extends `base` by `rest`.
pub fn join_path(base: &str, rest: &str) -> (path: String)
    ensures
        path@ == joined(base@, rest@),
{
    if is_absolute(rest) {
        return rest.to_owned();
    }
    let n: usize = base.unicode_len();
    let mut path = base.to_owned();
    if n > 0 && base.get_char(n - 1) != '/' {
        path.push('/');
    }
    path.append(rest);
    path
}

} // verus!
