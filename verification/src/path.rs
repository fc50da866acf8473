//! Turning the path of a file into the key under which a checksum set
//! records it.
//!
//! A key is the path of the file relative to the root of the set, its
//! components joined by `/`. Both the path and the root are taken apart at
//! their separators and resolved: empty components and `.` fall away, and
//! `..` takes the component before it along. A path whose components do not
//! begin with those of the root lies outside the root and has no key.

use vstd::prelude::*;
use crate::text::{push_char, push_chars};

verus! {

/// Why a path has no key.
#[derive(Clone, Copy, Debug, PartialEq, Eq, Structural)]
pub enum PathError {
    /// The path does not lie under the root.
    OutsideRoot,
}

/// Whether `c` parts the components of a path: `/` does, and so does the
/// separator of the platform.
pub open spec fn is_separator(c: char, separator: char) -> bool {
    c == '/' || c == separator
}

/// The pieces of `path` between its separators, empty ones included.
pub open spec fn split_spec(path: Seq<char>, separator: char) -> Seq<Seq<char>>
    decreases path.len(),
{
    if path.len() == 0 {
        seq![Seq::<char>::empty()]
    } else {
        let before = split_spec(path.drop_last(), separator);
        if is_separator(path.last(), separator) {
            before.push(Seq::<char>::empty())
        } else {
            before.drop_last().push(before.last().push(path.last()))
        }
    }
}

/// Whether a piece of a path stands for the directory it is found in.
pub open spec fn is_current_dir(piece: Seq<char>) -> bool {
    piece == seq!['.']
}

/// Whether a piece of a path stands for the directory above.
pub open spec fn is_parent_dir(piece: Seq<char>) -> bool {
    piece == seq!['.', '.']
}

/// The components that `pieces` come to: empty pieces and `.` are left out,
/// `..` removes the component before it, if there is one.
pub open spec fn resolve_spec(pieces: Seq<Seq<char>>) -> Seq<Seq<char>>
    decreases pieces.len(),
{
    if pieces.len() == 0 {
        Seq::<Seq<char>>::empty()
    } else {
        let before = resolve_spec(pieces.drop_last());
        let piece = pieces.last();
        if piece.len() == 0 || is_current_dir(piece) {
            before
        } else if is_parent_dir(piece) {
            if before.len() > 0 {
                before.drop_last()
            } else {
                before
            }
        } else {
            before.push(piece)
        }
    }
}

/// The components of `path`.
pub open spec fn components_spec(path: Seq<char>, separator: char) -> Seq<Seq<char>> {
    resolve_spec(split_spec(path, separator))
}

/// The components joined by `/`.
pub open spec fn join_spec(components: Seq<Seq<char>>) -> Seq<char>
    decreases components.len(),
{
    if components.len() == 0 {
        Seq::<char>::empty()
    } else if components.len() == 1 {
        components[0]
    } else {
        join_spec(components.drop_last()) + seq!['/'] + components.last()
    }
}

/// The key of `path` under a root of the components `root`: `None` where
/// the path lies outside the root.
pub open spec fn key_under_spec(path: Seq<char>, root: Seq<Seq<char>>, separator: char) -> Option<
    Seq<char>,
> {
    let p = components_spec(path, separator);
    if root.is_prefix_of(p) {
        Some(join_spec(p.skip(root.len() as int)))
    } else {
        None
    }
}

/// The key of `path` under `root`: `None` where the path lies outside the root.
pub open spec fn relative_key_spec(path: Seq<char>, root: Seq<char>, separator: char) -> Option<
    Seq<char>,
> {
    key_under_spec(path, components_spec(root, separator), separator)
}

/// Whether `name` can be a component of a key: it is not empty, stands for
/// no directory by itself, and holds no separator.
pub open spec fn is_plain_name(name: Seq<char>, separator: char) -> bool {
    &&& name.len() > 0
    &&& !is_current_dir(name)
    &&& !is_parent_dir(name)
    &&& forall|i: int| 0 <= i < name.len() ==> !is_separator(#[trigger] name[i], separator)
}

/// No piece of a path holds a separator.
pub proof fn lemma_split_pieces_hold_no_separator(path: Seq<char>, separator: char)
    ensures
        split_spec(path, separator).len() > 0,
        forall|j: int, i: int|
            0 <= j < split_spec(path, separator).len() && 0 <= i < split_spec(
                path,
                separator,
            )[j].len() ==> !is_separator(#[trigger] split_spec(path, separator)[j][i], separator),
    decreases path.len(),
{
    if path.len() > 0 {
        lemma_split_pieces_hold_no_separator(path.drop_last(), separator);
    }
}

/// Resolving keeps only plain names of the pieces it was given.
pub proof fn lemma_resolved_are_plain(pieces: Seq<Seq<char>>, separator: char)
    requires
        forall|j: int, i: int|
            0 <= j < pieces.len() && 0 <= i < pieces[j].len() ==> !is_separator(
                #[trigger] pieces[j][i],
                separator,
            ),
    ensures
        forall|j: int|
            0 <= j < resolve_spec(pieces).len() ==> is_plain_name(
                #[trigger] resolve_spec(pieces)[j],
                separator,
            ),
    decreases pieces.len(),
{
    if pieces.len() > 0 {
        let front = pieces.drop_last();
        assert forall|j: int, i: int| 0 <= j < front.len() && 0 <= i < front[j].len() implies !is_separator(
            #[trigger] front[j][i],
            separator,
        ) by {
            assert(front[j] == pieces[j]);
        }
        lemma_resolved_are_plain(front, separator);
        let before = resolve_spec(front);
        let piece = pieces.last();
        let after = resolve_spec(pieces);
        assert forall|j: int| 0 <= j < after.len() implies is_plain_name(
            #[trigger] after[j],
            separator,
        ) by {
            if piece.len() == 0 || is_current_dir(piece) {
                assert(after[j] == before[j]);
            } else if is_parent_dir(piece) {
                assert(after[j] == before[j]);
            } else if j < before.len() {
                assert(after[j] == before[j]);
            } else {
                assert(after[j] == piece);
                assert forall|i: int| 0 <= i < piece.len() implies !is_separator(
                    #[trigger] piece[i],
                    separator,
                ) by {
                    assert(piece[i] == pieces[pieces.len() - 1][i]);
                }
            }
        }
    }
}

/// Every component of a path is a plain name: a key made of them names
/// nothing above the root.
pub proof fn lemma_components_are_plain(path: Seq<char>, separator: char)
    ensures
        forall|j: int|
            0 <= j < components_spec(path, separator).len() ==> is_plain_name(
                #[trigger] components_spec(path, separator)[j],
                separator,
            ),
{
    lemma_split_pieces_hold_no_separator(path, separator);
    lemma_resolved_are_plain(split_spec(path, separator), separator);
}

/// The texts of runs of chars.
pub open spec fn texts(runs: Seq<Vec<char>>) -> Seq<Seq<char>> {
    runs.map_values(|run: Vec<char>| run@)
}

/// The chars of `s`, in order.
pub fn chars_of(s: &str) -> (v: Vec<char>)
    ensures
        v@ == s@,
{
    let mut v: Vec<char> = Vec::new();
    for c in it: s.chars()
        invariant
            it.seq() == s@,
            v@ == s@.take(it.index() as int),
    {
        v.push(c);
        proof {
            assert(s@.take(it.index() + 1) =~= s@.take(it.index() as int).push(c));
        }
    }
    proof {
        assert(s@.take(s@.len() as int) =~= s@);
    }
    v
}

/// Whether two runs of chars are the same.
pub fn same_chars(a: &Vec<char>, b: &Vec<char>) -> (r: bool)
    ensures
        r == (a@ == b@),
{
    if a.len() != b.len() {
        return false;
    }
    let mut i: usize = 0;
    while i < a.len()
        invariant
            a@.len() == b@.len(),
            i <= a.len(),
            a@.take(i as int) == b@.take(i as int),
        decreases a.len() - i,
    {
        if a[i] != b[i] {
            return false;
        }
        proof {
            assert(a@.take(i + 1) =~= a@.take(i as int).push(a@[i as int]));
            assert(b@.take(i + 1) =~= b@.take(i as int).push(b@[i as int]));
        }
        i = i + 1;
    }
    proof {
        assert(a@.take(i as int) =~= a@);
        assert(b@.take(i as int) =~= b@);
    }
    true
}

/// The pieces of `path` between its separators.
pub fn split(path: &str, separator: char) -> (pieces: Vec<Vec<char>>)
    ensures
        texts(pieces@) == split_spec(path@, separator),
{
    let chars = chars_of(path);
    let mut pieces: Vec<Vec<char>> = Vec::new();
    let mut current: Vec<char> = Vec::new();
    let mut i: usize = 0;
    proof {
        assert(chars@.take(0) =~= Seq::<char>::empty());
        assert(texts(pieces@).push(current@) =~= split_spec(chars@.take(0), separator));
    }
    while i < chars.len()
        invariant
            chars@ == path@,
            i <= chars.len(),
            texts(pieces@).push(current@) == split_spec(chars@.take(i as int), separator),
        decreases chars.len() - i,
    {
        let c = chars[i];
        let ghost before = split_spec(chars@.take(i as int), separator);
        let ghost old_pieces = texts(pieces@);
        let ghost old_current = current@;
        proof {
            assert(chars@.take(i + 1).drop_last() =~= chars@.take(i as int));
            assert(chars@.take(i + 1).last() == c);
            assert(before.last() == old_current);
            assert(before.drop_last() =~= old_pieces);
        }
        if c == '/' || c == separator {
            pieces.push(current);
            current = Vec::new();
            proof {
                assert(texts(pieces@) =~= old_pieces.push(old_current));
                assert(current@ =~= Seq::<char>::empty());
            }
        } else {
            current.push(c);
            proof {
                assert(texts(pieces@) =~= old_pieces);
            }
        }
        i = i + 1;
    }
    proof {
        assert(chars@.take(i as int) =~= chars@);
    }
    let ghost old_pieces = texts(pieces@);
    let ghost last = current@;
    pieces.push(current);
    proof {
        assert(texts(pieces@) =~= old_pieces.push(last));
    }
    pieces
}

/// Whether `piece` is `.`.
fn piece_is_current_dir(piece: &Vec<char>) -> (r: bool)
    ensures
        r == is_current_dir(piece@),
{
    let r = piece.len() == 1 && piece[0] == '.';
    proof {
        if r {
            assert(piece@ =~= seq!['.']);
        }
    }
    r
}

/// Whether `piece` is `..`.
fn piece_is_parent_dir(piece: &Vec<char>) -> (r: bool)
    ensures
        r == is_parent_dir(piece@),
{
    let r = piece.len() == 2 && piece[0] == '.' && piece[1] == '.';
    proof {
        if r {
            assert(piece@ =~= seq!['.', '.']);
        }
    }
    r
}

/// The components that `pieces` come to.
pub fn resolve(pieces: Vec<Vec<char>>) -> (components: Vec<Vec<char>>)
    ensures
        texts(components@) == resolve_spec(texts(pieces@)),
{
    let mut components: Vec<Vec<char>> = Vec::new();
    let mut pieces = pieces;
    let ghost all = texts(pieces@);
    let n = pieces.len();
    let mut i: usize = 0;
    proof {
        assert(all.take(0) =~= Seq::<Seq<char>>::empty());
        assert(texts(components@) =~= Seq::<Seq<char>>::empty());
    }
    while i < n
        invariant
            n == pieces.len(),
            i <= n,
            all.len() == n,
            forall|j: int| i <= j < n ==> #[trigger] pieces@[j]@ == all[j],
            texts(components@) == resolve_spec(all.take(i as int)),
        decreases n - i,
    {
        let mut piece: Vec<char> = Vec::new();
        let ghost before = texts(components@);
        proof {
            assert(pieces@[i as int]@ == all[i as int]);
        }
        std::mem::swap(&mut piece, &mut pieces[i]);
        proof {
            assert(all.take(i + 1).drop_last() =~= all.take(i as int));
            assert(all.take(i + 1).last() == piece@);
        }
        if piece.len() == 0 || piece_is_current_dir(&piece) {
        } else if piece_is_parent_dir(&piece) {
            if components.len() > 0 {
                components.pop();
                proof {
                    assert(texts(components@) =~= before.drop_last());
                }
            }
        } else {
            components.push(piece);
            proof {
                assert(texts(components@) =~= before.push(all[i as int]));
            }
        }
        i = i + 1;
    }
    proof {
        assert(all.take(n as int) =~= all);
    }
    components
}

/// The components of `path`.
pub fn components(path: &str, separator: char) -> (r: Vec<Vec<char>>)
    ensures
        texts(r@) == components_spec(path@, separator),
{
    resolve(split(path, separator))
}

/// The components from index `from` on, joined by `/`.
pub fn join_from(components: &Vec<Vec<char>>, from: usize) -> (key: String)
    requires
        from <= components.len(),
    ensures
        key@ == join_spec(texts(components@).skip(from as int)),
{
    let mut key = String::new();
    let ghost tail = texts(components@).skip(from as int);
    let mut i: usize = from;
    proof {
        assert(tail.take(0) =~= Seq::<Seq<char>>::empty());
    }
    while i < components.len()
        invariant
            from <= i <= components.len(),
            tail == texts(components@).skip(from as int),
            key@ == join_spec(tail.take(i - from)),
        decreases components.len() - i,
    {
        let component = &components[i];
        let ghost joined = key@;
        proof {
            assert(tail.take(i - from + 1).drop_last() =~= tail.take(i - from));
            assert(tail.take(i - from + 1).last() == component@);
        }
        if i > from {
            push_char(&mut key, '/');
        }
        let ghost start = key@;
        push_chars(&mut key, component);
        proof {
            if i > from {
                assert(start =~= joined + seq!['/']);
            } else {
                assert(joined =~= Seq::<char>::empty());
                assert(tail.take(1).len() == 1);
                assert(key@ =~= component@);
            }
        }
        i = i + 1;
    }
    proof {
        assert(tail.take(i - from) =~= tail);
    }
    key
}

/// Whether the components of `root` are the first of those of `path`.
pub fn starts_with(path: &Vec<Vec<char>>, root: &Vec<Vec<char>>) -> (r: bool)
    ensures
        r == texts(root@).is_prefix_of(texts(path@)),
{
    if root.len() > path.len() {
        return false;
    }
    let mut i: usize = 0;
    while i < root.len()
        invariant
            root.len() <= path.len(),
            i <= root.len(),
            forall|j: int| 0 <= j < i ==> #[trigger] texts(root@)[j] == texts(path@)[j],
        decreases root.len() - i,
    {
        if !same_chars(&path[i], &root[i]) {
            proof {
                assert(texts(root@)[i as int] != texts(path@)[i as int]);
                if texts(root@).is_prefix_of(texts(path@)) {
                    assert(texts(path@).subrange(0, texts(root@).len() as int)[i as int]
                        == texts(path@)[i as int]);
                }
            }
            return false;
        }
        i = i + 1;
    }
    proof {
        assert(texts(root@) =~= texts(path@).subrange(0, texts(root@).len() as int));
    }
    true
}

/// The key of `path` under a root that is given by its components.
///
/// The key is the rest of the path's components after those of the root,
/// joined by `/`. A path whose components do not begin with those of the
/// root has no key.
pub fn key_under(path: &str, root: &Vec<Vec<char>>, separator: char) -> (r: Result<String, PathError>)
    ensures
        match r {
            Ok(key) => key_under_spec(path@, texts(root@), separator) == Some(key@),
            Err(e) => key_under_spec(path@, texts(root@), separator) is None && e
                == PathError::OutsideRoot,
        },
{
    let p = components(path, separator);
    if starts_with(&p, root) {
        Ok(join_from(&p, root.len()))
    } else {
        Err(PathError::OutsideRoot)
    }
}

/// The key of `path` under `root`, both resolved to their components first.
pub fn relative_key(path: &str, root: &str, separator: char) -> (r: Result<String, PathError>)
    ensures
        match r {
            Ok(key) => relative_key_spec(path@, root@, separator) == Some(key@),
            Err(e) => relative_key_spec(path@, root@, separator) is None && e
                == PathError::OutsideRoot,
        },
{
    let r = components(root, separator);
    key_under(path, &r, separator)
}

} // verus!
