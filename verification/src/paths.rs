//! Paths, as byte strings and as text.
use vstd::prelude::*;
use vstd::string::*;
use vstd::utf8::*;

use crate::text::{decode_lossy, lossy_text};

verus! {

/// Separator of path components.
pub const PATH_SEPARATOR: u8 = 47;

/// A path followed by a relative one.
pub open spec fn joined_path(base: Seq<u8>, name: Seq<u8>) -> Seq<u8> {
    if base.len() == 0 || base.last() == PATH_SEPARATOR {
        base + name
    } else {
        base.push(PATH_SEPARATOR) + name
    }
}

pub fn join_path(base: &[u8], name: &[u8]) -> (r: Vec<u8>)
    ensures
        r@ == joined_path(base@, name@),
{
    let mut out: Vec<u8> = Vec::new();
    out.extend_from_slice(base);
    assert(out@ =~= base@);
    if base.len() > 0 && base[base.len() - 1] != PATH_SEPARATOR {
        out.push(PATH_SEPARATOR);
    }
    let ghost before = out@;
    out.extend_from_slice(name);
    assert(out@ =~= before + name@);
    out
}

/// The position after the last separator of a path in bytes.
pub open spec fn name_start(path: Seq<u8>) -> nat
    decreases path.len(),
{
    if path.len() == 0 || path.last() == PATH_SEPARATOR {
        path.len()
    } else {
        name_start(path.drop_last())
    }
}

/// The position after the last separator is the one that only the name follows.
pub proof fn lemma_name_start(path: Seq<u8>, start: nat)
    requires
        start <= path.len(),
        start == 0 || path[start - 1] == PATH_SEPARATOR,
        forall|i: int| start <= i < path.len() ==> path[i] != PATH_SEPARATOR,
    ensures
        name_start(path) == start,
    decreases path.len(),
{
    if path.len() > start {
        assert(path.last() == path[path.len() - 1]);
        lemma_name_start(path.drop_last(), start);
    } else if path.len() > 0 {
        assert(path.last() == path[start - 1]);
    }
}

/// Finds the position after the last separator.
pub fn find_name_start(path: &[u8]) -> (r: usize)
    ensures
        r == name_start(path@),
        r <= path@.len(),
{
    let mut i: usize = path.len();
    while i > 0 && path[i - 1] != PATH_SEPARATOR
        invariant
            i <= path@.len(),
            forall|j: int| i <= j < path@.len() ==> path@[j] != PATH_SEPARATOR,
        decreases i,
    {
        i -= 1;
    }
    proof {
        lemma_name_start(path@, i as nat);
    }
    i
}

/// The position after the last separator lies within the path.
pub proof fn lemma_name_start_within(path: Seq<u8>)
    ensures
        name_start(path) <= path.len(),
        name_start(path) > 0 ==> path[name_start(path) - 1] == PATH_SEPARATOR,
        forall|i: int| name_start(path) <= i < path.len() ==> path[i] != PATH_SEPARATOR,
    decreases path.len(),
{
    if path.len() > 0 && path.last() != PATH_SEPARATOR {
        let rest = path.drop_last();
        lemma_name_start_within(rest);
        assert forall|i: int| name_start(path) <= i < path.len() implies path[i]
            != PATH_SEPARATOR by {
            if i < rest.len() {
                assert(path[i] == rest[i]);
            }
        }
    }
}

/// The component `.`, the directory itself.
pub open spec fn current_dir() -> Seq<u8> {
    seq![46u8]
}

/// The component `..`, the directory above.
pub open spec fn parent_component() -> Seq<u8> {
    seq![46u8, 46u8]
}

/// A path up to its last component: without separators at the end and without
/// components `.` there. A separator or a `.` that the path starts with stays.
pub open spec fn up_to_last_component(path: Seq<u8>) -> Seq<u8>
    decreases path.len(),
{
    proof {
        lemma_name_start_within(path);
    }
    let start = name_start(path) as int;
    let last = path.skip(start);
    if start == 0 || path.len() == 1 {
        path
    } else if last.len() == 0 {
        up_to_last_component(path.drop_last())
    } else if last == current_dir() {
        up_to_last_component(path.take(start))
    } else {
        path
    }
}

/// The name of the file at a path: its last component. A path without a component,
/// or that ends in `..`, has none.
pub open spec fn name_of(path: Seq<u8>) -> Option<Seq<u8>> {
    let path = up_to_last_component(path);
    let last = path.skip(name_start(path) as int);
    if last.len() == 0 || last == current_dir() || last == parent_component() {
        None
    } else {
        Some(last)
    }
}

/// The directory of the file at a path: what stands before its name.
pub open spec fn directory_of(path: Seq<u8>) -> Seq<u8> {
    let path = up_to_last_component(path);
    up_to_last_component(path.take(name_start(path) as int))
}

/// A path with another name: in the same directory, or below a path that names no
/// file.
pub open spec fn renamed(path: Seq<u8>, name: Seq<u8>) -> Seq<u8> {
    if name_of(path) is Some {
        joined_path(directory_of(path), name)
    } else {
        joined_path(path, name)
    }
}

/// Finds the end of the last component.
fn last_component_end(path: &[u8]) -> (r: usize)
    ensures
        r <= path@.len(),
        path@.take(r as int) == up_to_last_component(path@),
{
    let mut end: usize = path.len();
    assert(path@.take(end as int) =~= path@);
    loop
        invariant
            end <= path@.len(),
            up_to_last_component(path@.take(end as int)) == up_to_last_component(path@),
        decreases end,
    {
        let ghost front = path@.take(end as int);
        let considered = vstd::slice::slice_subrange(path, 0, end);
        assert(considered@ =~= front);
        let start: usize = find_name_start(considered);
        if start == 0 || end == 1 {
            return end;
        }
        if start == end {
            assert(front.drop_last() =~= path@.take(end - 1));
            end -= 1;
        } else if end - start == 1 && path[start] == 46 {
            assert(front.skip(start as int) =~= current_dir());
            assert(front.take(start as int) =~= path@.take(start as int));
            end = start;
        } else {
            proof {
                if front.skip(start as int) == current_dir() {
                    assert(front.skip(start as int).len() == 1);
                    assert(front.skip(start as int)[0] == path@[start as int]);
                }
            }
            return end;
        }
    }
}

/// The name of the file at a path and the length of its directory.
fn split_name(path: &[u8]) -> (r: Option<(usize, Vec<u8>)>)
    ensures
        match r {
            Some((directory, name)) => {
                &&& name_of(path@) == Some(name@)
                &&& directory <= path@.len()
                &&& path@.take(directory as int) == directory_of(path@)
            },
            None => name_of(path@) is None,
        },
{
    let end: usize = last_component_end(path);
    let front = vstd::slice::slice_subrange(path, 0, end);
    assert(front@ =~= up_to_last_component(path@));
    let start: usize = find_name_start(front);
    let last = vstd::slice::slice_subrange(path, start, end);
    assert(last@ =~= front@.skip(start as int));
    let dots = last.len() == 0 || (last.len() == 1 && last[0] == 46) || (last.len() == 2 && last[0]
        == 46 && last[1] == 46);
    if dots {
        proof {
            if last@.len() == 1 {
                assert(last@ =~= current_dir());
            } else if last@.len() == 2 {
                assert(last@ =~= parent_component());
            }
        }
        return None;
    }
    proof {
        if last@ == current_dir() {
            assert(last@.len() == 1 && last@[0] == 46);
        }
        if last@ == parent_component() {
            assert(last@.len() == 2 && last@[0] == 46 && last@[1] == 46);
        }
    }
    let before = vstd::slice::slice_subrange(path, 0, start);
    assert(before@ =~= front@.take(start as int));
    let directory: usize = last_component_end(before);
    assert(path@.take(directory as int) =~= before@.take(directory as int));
    let mut name: Vec<u8> = Vec::new();
    name.extend_from_slice(last);
    assert(name@ =~= last@);
    Some((directory, name))
}

/// The name of the file at a path.
pub fn path_name(path: &[u8]) -> (r: Option<Vec<u8>>)
    ensures
        name_of(path@) == (match r {
            Some(name) => Some(name@),
            None => None,
        }),
{
    match split_name(path) {
        Some((_, name)) => Some(name),
        None => None,
    }
}

/// A path with another name.
pub fn rename_path(path: &[u8], name: &[u8]) -> (r: Vec<u8>)
    ensures
        r@ == renamed(path@, name@),
{
    match split_name(path) {
        Some((directory, _)) => {
            let front = vstd::slice::slice_subrange(path, 0, directory);
            assert(front@ =~= directory_of(path@));
            join_path(front, name)
        },
        None => join_path(path, name),
    }
}

/// Nothing is left to take off.
pub proof fn lemma_up_to_last_component_once(path: Seq<u8>)
    ensures
        up_to_last_component(up_to_last_component(path)) == up_to_last_component(path),
    decreases path.len(),
{
    lemma_name_start_within(path);
    let start = name_start(path) as int;
    let last = path.skip(start);
    if start == 0 || path.len() == 1 {
    } else if last.len() == 0 {
        lemma_up_to_last_component_once(path.drop_last());
    } else if last == current_dir() {
        lemma_up_to_last_component_once(path.take(start));
    }
}

/// A renamed path has the new name, in the directory of the old one.
pub proof fn lemma_renamed(path: Seq<u8>, name: Seq<u8>)
    requires
        name.len() > 0,
        name != current_dir(),
        name != parent_component(),
        !name.contains(PATH_SEPARATOR),
    ensures
        name_of(renamed(path, name)) == Some(name),
        name_of(path) is Some ==> directory_of(renamed(path, name)) == directory_of(path),
        name_of(path) is None ==> directory_of(renamed(path, name)) == up_to_last_component(path),
{
    let base = if name_of(path) is Some {
        directory_of(path)
    } else {
        path
    };
    let p = renamed(path, name);
    let start = (p.len() - name.len()) as nat;
    assert(p.skip(start as int) =~= name);
    assert forall|i: int| start <= i < p.len() implies p[i] != PATH_SEPARATOR by {
        assert(p[i] == name[i - start]);
    }
    lemma_name_start(p, start);
    if start > 0 && p.len() == 1 {
        assert(name.len() == 0);
    }
    assert(up_to_last_component(p) == p);
    let front = p.take(start as int);
    if base.len() == 0 || base.last() == PATH_SEPARATOR {
        assert(front =~= base);
    } else {
        assert(front =~= base.push(PATH_SEPARATOR));
        assert(front.last() == PATH_SEPARATOR);
        assert(front.drop_last() =~= base);
        assert(name_start(front) == front.len());
        assert(up_to_last_component(front) == up_to_last_component(base));
    }
    if name_of(path) is Some {
        let t = up_to_last_component(path);
        lemma_up_to_last_component_once(t.take(name_start(t) as int));
    }
}

/// Bytes that encode text hold a separator where the text does, and are no fewer
/// than its characters.
pub proof fn lemma_separators_in_text(bytes: Seq<u8>)
    requires
        valid_utf8(bytes),
    ensures
        bytes.contains(PATH_SEPARATOR) == decode_utf8(bytes).contains('/'),
        decode_utf8(bytes).len() <= bytes.len(),
    decreases bytes.len(),
{
    if bytes.len() > 0 {
        let first = decode_first_scalar(bytes);
        let width = length_of_first_scalar(bytes);
        let rest = pop_first_scalar(bytes);
        let text = decode_utf8(bytes);
        lemma_separators_in_text(rest);
        assert(text =~= seq![first as char] + decode_utf8(rest));
        assert(bytes =~= bytes.take(width) + rest);
        let b = bytes[0];
        assert(b <= 0x7f ==> (b & 0x7f) as u32 == b as u32) by (bit_vector);
        assert((bytes[0] == PATH_SEPARATOR) == (text[0] == '/')) by {
            decode_utf8_first_scalar(bytes);
            assert(47u32 & 0x7f == 47u32) by (bit_vector);
            if text[0] == '/' {
                assert(take_first_scalar(bytes)[0] == bytes[0]);
            }
        }
        if bytes.contains(PATH_SEPARATOR) {
            let i = choose|i: int| 0 <= i < bytes.len() && bytes[i] == PATH_SEPARATOR;
            if i < width {
                assert(i == 0);
                assert(text[0] == '/');
            } else {
                assert(rest[i - width] == PATH_SEPARATOR);
                let j = choose|j: int|
                    0 <= j < decode_utf8(rest).len() && decode_utf8(rest)[j] == '/';
                assert(text[j + 1] == '/');
            }
        }
        if text.contains('/') {
            let j = choose|j: int| 0 <= j < text.len() && text[j] == '/';
            if j > 0 {
                assert(decode_utf8(rest)[j - 1] == '/');
                let i = choose|i: int| 0 <= i < rest.len() && rest[i] == PATH_SEPARATOR;
                assert(bytes[i + width] == PATH_SEPARATOR);
            }
        }
    }
}

/// A path as it is shown, with replacement characters for what is no text.
pub fn shown_path(path: &[u8]) -> (r: String)
    ensures
        r@ == lossy_text(path@),
{
    decode_lossy(path)
}

/// The position after the last separator of a path.
pub open spec fn after_separator(path: Seq<char>) -> nat
    decreases path.len(),
{
    if path.len() == 0 || path.last() == '/' {
        path.len()
    } else {
        after_separator(path.drop_last())
    }
}

/// No separator follows the last one.
pub proof fn lemma_after_separator(path: Seq<char>)
    ensures
        after_separator(path) <= path.len(),
        forall|i: int| after_separator(path) <= i < path.len() ==> path[i] != '/',
    decreases path.len(),
{
    if path.len() > 0 && path.last() != '/' {
        lemma_after_separator(path.drop_last());
        assert forall|i: int| after_separator(path) <= i < path.len() implies path[i] != '/' by {
            if i < path.len() - 1 {
                assert(path[i] == path.drop_last()[i]);
            }
        }
    }
}

/// The last component of a path. Separators that are repeated or stand at the end
/// do not count, nor do components `.`; a path without another component, or that
/// ends in `..`, has none.
pub open spec fn file_name(path: Seq<char>) -> Option<Seq<char>>
    decreases path.len(),
{
    proof {
        lemma_after_separator(path);
    }
    let start = after_separator(path) as int;
    let last = path.skip(start);
    if last == ".."@ {
        None
    } else if last.len() > 0 && last != "."@ {
        Some(last)
    } else if start == 0 {
        None
    } else {
        file_name(path.take(start - 1))
    }
}

/// A component is not empty and holds no separator.
pub proof fn lemma_file_name_is_a_name(path: Seq<char>)
    ensures
        file_name(path) matches Some(name) ==> name.len() > 0 && !name.contains('/'),
    decreases path.len(),
{
    lemma_after_separator(path);
    let start = after_separator(path) as int;
    let last = path.skip(start);
    if last.len() > 0 && last != "."@ {
        assert forall|i: int| 0 <= i < last.len() implies last[i] != '/' by {
            assert(last[i] == path[start + i]);
        }
    } else if start > 0 {
        lemma_file_name_is_a_name(path.take(start - 1));
    }
}

/// `std::path::Path::file_name`: the last component of a path, as `/` separates
/// them.
#[verifier::external_body]
pub(crate) fn last_component(path: &str) -> (r: Option<String>)
    ensures
        file_name(path@) == (match r {
            Some(name) => Some(name@),
            None => None,
        }),
{
    std::path::Path::new(path).file_name().map(|name| name.to_string_lossy().into_owned())
}

/// The name of the folder at a path, or another name where it has none.
pub fn folder_name(path: &str, otherwise: &str) -> (r: String)
    ensures
        r@ == (match file_name(path@) {
            Some(name) => name,
            None => otherwise@,
        }),
{
    match last_component(path) {
        Some(name) => name,
        None => otherwise.to_owned(),
    }
}

/// A path joined to another begins with the one and ends with the other, with one
/// separator where they meet, unless there was one or there is nothing before.
pub proof fn lemma_joined_in_order(base: Seq<u8>, name: Seq<u8>)
    ensures
        ({
            let path = joined_path(base, name);
            let between = path.len() - base.len() - name.len();
            &&& base.is_prefix_of(path)
            &&& name.is_suffix_of(path)
            &&& between == 0 || between == 1
            &&& between == 0 <==> base.len() == 0 || base.last() == PATH_SEPARATOR
            &&& between == 1 ==> path[base.len() as int] == PATH_SEPARATOR
        }),
{
    let path = joined_path(base, name);
    assert(base =~= path.subrange(0, base.len() as int));
    assert(name =~= path.subrange(path.len() - name.len(), path.len() as int));
}

/// The name at the end of a path is no reference to a directory, is not empty, and
/// holds no separator.
pub proof fn lemma_name_is_a_name(path: Seq<u8>)
    ensures
        name_of(path) matches Some(name) ==> {
            &&& name.len() > 0
            &&& name != seq![46u8]
            &&& name != seq![46u8, 46u8]
            &&& !name.contains(PATH_SEPARATOR)
        },
        name_of(seq![46u8, 46u8]) is None,
        name_of(seq![46u8]) is None,
        name_of(Seq::empty()) is None,
{
    let front = up_to_last_component(path);
    lemma_name_start_within(front);
    if let Some(name) = name_of(path) {
        assert forall|i: int| 0 <= i < name.len() implies name[i] != PATH_SEPARATOR by {
            assert(name[i] == front[name_start(front) + i]);
        }
    }
    let parent = seq![46u8, 46u8];
    lemma_name_start(parent, 0);
    assert(parent.skip(0) =~= parent);
    let here = seq![46u8];
    lemma_name_start(here, 0);
    assert(here.skip(0) =~= here);
}

/// What stands behind the last separator of a path is its name, a reference to the
/// directory above is none, and a separator or a reference to the directory itself at
/// the end changes nothing.
pub proof fn lemma_file_names(path: Seq<char>, name: Seq<char>)
    requires
        name.len() > 0,
        !name.contains('/'),
        name != "."@,
        name != ".."@,
    ensures
        file_name(path.push('/') + name) == Some(name),
        file_name(name) == Some(name),
        file_name(path.push('/') + ".."@) is None,
        file_name(path.push('/')) == file_name(path),
        file_name(path.push('/') + "."@) == file_name(path),
{
    reveal_strlit(".");
    reveal_strlit("..");
    lemma_file_name_behind(path, name);
    lemma_file_name_behind(path, ".."@);
    lemma_file_name_behind(path, "."@);
    lemma_file_name_behind(path, Seq::empty());
    assert(path.push('/') + Seq::<char>::empty() =~= path.push('/'));
    lemma_after_last(Seq::empty(), name);
    assert(Seq::<char>::empty() + name =~= name);
    assert(name.skip(0) =~= name);
}

proof fn lemma_after_last(front: Seq<char>, name: Seq<char>)
    requires
        !name.contains('/'),
        front.len() == 0 || front.last() == '/',
    ensures
        after_separator(front + name) == front.len(),
    decreases name.len(),
{
    if name.len() == 0 {
        assert(front + name =~= front);
    } else {
        assert((front + name).last() == name.last());
        assert(name.contains(name.last()));
        assert((front + name).drop_last() =~= front + name.drop_last());
        assert(!name.drop_last().contains('/')) by {
            assert forall|i: int| 0 <= i < name.drop_last().len() implies name.drop_last()[i]
                != '/' by {
                assert(name.contains(name[i]));
            }
        }
        lemma_after_last(front, name.drop_last());
    }
}

proof fn lemma_file_name_behind(path: Seq<char>, name: Seq<char>)
    requires
        !name.contains('/'),
    ensures
        file_name(path.push('/') + name) == (if name == ".."@ {
            None
        } else if name.len() > 0 && name != "."@ {
            Some(name)
        } else {
            file_name(path)
        }),
{
    let front = path.push('/');
    let whole = front + name;
    lemma_after_last(front, name);
    assert(whole.skip(front.len() as int) =~= name);
    assert(whole.take(front.len() as int - 1) =~= path);
}

} // verus!
