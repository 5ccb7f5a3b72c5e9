//! The folder that a new workspace is opened on.
use vstd::prelude::*;
use vstd::string::*;
use vstd::utf8::*;

use crate::paths::{
    file_name, join_path, joined_path, last_component, lemma_separators_in_text, PATH_SEPARATOR,
};
use crate::text::{
    chars_of, decode_lossy, lossy_text, optional_str, same, strip_prefix, trim, trimmed,
};

verus! {

/// Whether a path starts at the root.
pub open spec fn is_absolute(path: Seq<u8>) -> bool {
    path.len() > 0 && path[0] == PATH_SEPARATOR
}

/// A path followed by another: the other alone, if that starts at the root.
pub open spec fn pushed(base: Seq<u8>, path: Seq<u8>) -> Seq<u8> {
    if is_absolute(path) {
        path
    } else {
        joined_path(base, path)
    }
}

fn push(base: &[u8], path: &[u8]) -> (r: Vec<u8>)
    ensures
        r@ == pushed(base@, path@),
{
    if path.len() > 0 && path[0] == PATH_SEPARATOR {
        let mut out: Vec<u8> = Vec::new();
        out.extend_from_slice(path);
        assert(out@ =~= path@);
        out
    } else {
        join_path(base, path)
    }
}

/// The path that was typed, with `~` for the home directory; `Err` where that is
/// needed and unknown.
pub open spec fn expanded(typed: Seq<char>, home: Option<Seq<u8>>) -> Result<Seq<u8>, ()> {
    if typed == "~"@ {
        match home {
            Some(home) => Ok(home),
            None => Err(()),
        }
    } else if "~/"@.is_prefix_of(typed) {
        match home {
            Some(home) => Ok(pushed(home, encode_utf8(typed.skip(2)))),
            None => Err(()),
        }
    } else {
        Ok(encode_utf8(typed))
    }
}

pub open spec fn bytes_of(path: Option<&[u8]>) -> Option<Seq<u8>> {
    match path {
        Some(path) => Some(path@),
        None => None,
    }
}

/// The path that was typed: without white space around it, with `~` for the home
/// directory, and from the current directory unless it starts at the root. Paths
/// are byte strings.
pub fn workspace_folder_path_from_input(
    input: &str,
    home_dir: Option<&[u8]>,
    current_dir: Option<&[u8]>,
) -> (r: Result<Vec<u8>, String>)
    ensures
        ({
            let typed = trimmed(input@);
            if typed.len() == 0 {
                r matches Err(message) && message@ == "Enter a folder path"@
            } else {
                match expanded(typed, bytes_of(home_dir)) {
                    Err(_) => r matches Err(message) && message@
                        == "Home directory is unavailable"@,
                    Ok(path) => if is_absolute(path) {
                        r matches Ok(found) && found@ == path
                    } else {
                        match bytes_of(current_dir) {
                            Some(current) => r matches Ok(found) && found@ == pushed(current, path),
                            None => r matches Err(message) && message@
                                == "Current directory is unavailable"@,
                        }
                    },
                }
            }
        }),
{
    let typed = trim(input);
    if typed.is_empty() {
        return Err("Enter a folder path".to_owned());
    }
    proof {
        reveal_strlit("~/");
        assert("~/"@.len() == 2);
    }
    let path: Vec<u8> = if same(typed, "~") {
        match home_dir {
            Some(home) => {
                let mut out: Vec<u8> = Vec::new();
                out.extend_from_slice(home);
                assert(out@ =~= home@);
                out
            },
            None => {
                return Err("Home directory is unavailable".to_owned());
            },
        }
    } else {
        match strip_prefix(typed, "~/") {
            Some(rest) => match home_dir {
                Some(home) => push(home, rest.as_bytes()),
                None => {
                    return Err("Home directory is unavailable".to_owned());
                },
            },
            None => {
                let mut out: Vec<u8> = Vec::new();
                out.extend_from_slice(typed.as_bytes());
                assert(out@ =~= encode_utf8(typed@));
                out
            },
        }
    };
    if path.len() > 0 && path[0] == PATH_SEPARATOR {
        return Ok(path);
    }
    match current_dir {
        Some(current) => Ok(push(current, path.as_slice())),
        None => Err("Current directory is unavailable".to_owned()),
    }
}

/// What was found at a path.
#[derive(Debug, PartialEq)]
pub enum FolderCheck {
    /// It cannot be opened, for this reason.
    Unavailable(String),
    NotAFolder,
    Folder,
}

/// A folder for a workspace.
#[derive(Debug, PartialEq)]
pub struct WorkspaceFolderSelection {
    pub name: String,
    pub path_text: String,
}

/// The name of a workspace on a folder: the last component of the path, or the path
/// where it has none.
pub open spec fn folder_label(path_text: Seq<char>, name: Option<Seq<char>>) -> Seq<char> {
    match name {
        Some(name) => if name.len() > 0 {
            name
        } else {
            path_text
        },
        None => path_text,
    }
}

/// Whether a workspace can be opened on a path, given the path as text, its last
/// component, and what was found there. The workspace is named after the last
/// component, or the path where it has none.
pub fn validate_workspace_folder(
    path_text: &str,
    name: Option<&str>,
    check: &FolderCheck,
) -> (r: Result<WorkspaceFolderSelection, String>)
    ensures
        match check {
            FolderCheck::Unavailable(cause) => r matches Err(message) && message@
                == "Cannot open "@ + path_text@ + ": "@ + cause@,
            FolderCheck::NotAFolder => r matches Err(message) && message@ == path_text@
                + " is not a folder"@,
            FolderCheck::Folder => {
                &&& r matches Ok(selection)
                &&& selection.path_text@ == path_text@
                &&& selection.name@ == folder_label(path_text@, optional_str(name))
            },
        },
{
    match check {
        FolderCheck::Unavailable(cause) => {
            let mut message = "Cannot open ".to_owned();
            message.append(path_text);
            message.append(": ");
            message.append(cause.as_str());
            Err(message)
        },
        FolderCheck::NotAFolder => {
            let mut message = path_text.to_owned();
            message.append(" is not a folder");
            Err(message)
        },
        FolderCheck::Folder => {
            let name = match name {
                Some(name) => if name.is_empty() {
                    path_text
                } else {
                    name
                },
                None => path_text,
            };
            Ok(WorkspaceFolderSelection { name: name.to_owned(), path_text: path_text.to_owned() })
        },
    }
}

/// Whether a workspace can be opened on a path, given what was found there. The
/// path is shown as text, with replacement characters for what is none.
pub fn validate_workspace_folder_input_with_dirs(path: &[u8], check: &FolderCheck) -> (r: Result<
    WorkspaceFolderSelection,
    String,
>)
    ensures
        match check {
            FolderCheck::Unavailable(cause) => r matches Err(message) && message@
                == "Cannot open "@ + lossy_text(path@) + ": "@ + cause@,
            FolderCheck::NotAFolder => r matches Err(message) && message@ == lossy_text(path@)
                + " is not a folder"@,
            FolderCheck::Folder => {
                &&& r matches Ok(selection)
                &&& selection.path_text@ == lossy_text(path@)
                &&& selection.name@ == folder_label(
                    lossy_text(path@),
                    file_name(lossy_text(path@)),
                )
            },
        },
{
    let path_text = decode_lossy(path);
    let name = last_component(path_text.as_str());
    let name: Option<&str> = match &name {
        Some(name) => Some(name.as_str()),
        None => None,
    };
    validate_workspace_folder(path_text.as_str(), name, check)
}

/// Why the choice of a folder ended without one.
#[derive(Clone, Copy, Debug, PartialEq, Eq, Structural)]
pub enum PickerFailure {
    Cancelled,
    Dismissed,
    Other,
}

/// Whether the user gave the choice up.
pub fn is_workspace_picker_cancel(failure: PickerFailure) -> (r: bool)
    ensures
        r == (failure != PickerFailure::Other),
{
    match failure {
        PickerFailure::Cancelled | PickerFailure::Dismissed => true,
        PickerFailure::Other => false,
    }
}

/// What the user is told when the choice of a folder fails.
pub fn picker_failure_message(cause: &str) -> (r: String)
    ensures
        r@ == "Folder picker failed: "@ + cause@,
{
    let mut message = "Folder picker failed: ".to_owned();
    message.append(cause);
    message
}

/// A folder without separators at the end.
pub open spec fn without_end_separators(folder: Seq<char>) -> Seq<char>
    decreases folder.len(),
{
    if folder.len() > 0 && folder.last() == '/' {
        without_end_separators(folder.drop_last())
    } else {
        folder
    }
}

/// Whether a path is a folder or lies in it.
pub open spec fn within(path: Seq<char>, folder: Seq<char>) -> bool {
    let bare = without_end_separators(folder);
    ||| path == folder
    ||| bare.len() > 0 && path == bare
    ||| bare.push('/').is_prefix_of(path)
}

/// A path with `~` in place of the home directory, where it is that directory or
/// lies in it. Separators at the end of the home directory do not count.
pub open spec fn abbreviated(path: Seq<char>, home: Option<Seq<char>>) -> Seq<char> {
    match home {
        Some(home) => if path == home {
            "~"@
        } else if within(path, home) {
            "~"@ + path.skip(without_end_separators(home).len() as int)
        } else {
            path
        },
        None => path,
    }
}

/// What follows the home directory in an abbreviated path starts with a separator.
pub proof fn lemma_abbreviated_keeps_separator(path: Seq<char>, home: Seq<char>)
    requires
        within(path, home),
    ensures
        abbreviated(path, Some(home)).len() == 1 || abbreviated(path, Some(home))[1] == '/',
{
    reveal_strlit("~");
    let bare = without_end_separators(home);
    if path != home && bare.push('/').is_prefix_of(path) {
        assert(bare.push('/')[bare.len() as int] == '/');
        assert(path[bare.len() as int] == '/');
    }
}

/// The number of characters before the separators at the end.
fn bare_length(folder: &Vec<char>) -> (r: usize)
    ensures
        r <= folder@.len(),
        folder@.take(r as int) == without_end_separators(folder@),
{
    let mut n: usize = folder.len();
    assert(folder@.take(n as int) =~= folder@);
    while n > 0 && folder[n - 1] == '/'
        invariant
            n <= folder@.len(),
            without_end_separators(folder@.take(n as int)) == without_end_separators(folder@),
        decreases n,
    {
        assert(folder@.take(n as int).drop_last() =~= folder@.take(n - 1));
        n -= 1;
    }
    n
}

pub fn abbreviate_path(path: &str, home: Option<&str>) -> (r: String)
    ensures
        r@ == abbreviated(path@, optional_str(home)),
{
    if let Some(home) = home {
        if same(path, home) {
            return "~".to_owned();
        }
        let n: usize = bare_length(&chars_of(home));
        let bare = home.substring_char(0, n);
        let ghost stripped = without_end_separators(home@);
        assert(bare@ =~= stripped);
        if let Some(rest) = strip_prefix(path, bare) {
            let beyond = chars_of(rest);
            proof {
                if beyond@.len() == 0 {
                    assert(path@ =~= stripped);
                } else {
                    assert(path@[stripped.len() as int] == rest@[0]);
                    if rest@[0] == '/' {
                        assert(stripped.push('/') =~= path@.take(stripped.len() + 1int));
                    }
                }
                if stripped.push('/').is_prefix_of(path@) {
                    assert(path@.len() > stripped.len());
                    assert(path@[stripped.len() as int] == stripped.push('/')[stripped.len() as int]);
                }
            }
            if (beyond.len() == 0 && n > 0) || (beyond.len() > 0 && beyond[0] == '/') {
                let mut short = "~".to_owned();
                short.append(rest);
                return short;
            }
        } else {
            proof {
                if stripped.push('/').is_prefix_of(path@) {
                    assert(stripped =~= path@.take(stripped.len() as int));
                }
            }
        }
    }
    path.to_owned()
}

/// The folder that the choice of a folder starts with: the home directory, else the
/// current one, else the root.
pub fn default_folder(home: Option<&str>, current: Option<&str>) -> (r: String)
    ensures
        r@ == (match (home, current) {
            (Some(home), _) => home@,
            (None, Some(current)) => current@,
            (None, None) => "/"@,
        }),
{
    match (home, current) {
        (Some(home), _) => home.to_owned(),
        (None, Some(current)) => current.to_owned(),
        (None, None) => "/".to_owned(),
    }
}

/// Whether the path of a workspace is shown below its name.
pub fn workspace_path_visible(folder_path: Option<&str>, show_workspace_path: bool) -> (r: bool)
    ensures
        r == (show_workspace_path && folder_path is Some),
{
    show_workspace_path && folder_path.is_some()
}

proof fn lemma_encoded_in_parts(a: Seq<char>, b: Seq<char>)
    ensures
        encode_utf8(a + b) == encode_utf8(a) + encode_utf8(b),
    decreases a.len(),
{
    if a.len() == 0 {
        assert(a + b =~= b);
        assert(encode_utf8(a) =~= Seq::empty());
        assert(encode_utf8(a) + encode_utf8(b) =~= encode_utf8(b));
    } else {
        assert((a + b).drop_first() =~= a.drop_first() + b);
        lemma_encoded_in_parts(a.drop_first(), b);
        assert(encode_utf8(a + b) =~= encode_utf8(a) + encode_utf8(b));
    }
}

/// A tilde alone is the home directory, and what follows a tilde and a separator is
/// found in it, unless that is a path from the root. Without a home directory such
/// paths lead nowhere, and any other path needs none and stands for itself.
pub proof fn lemma_typed_paths(rest: Seq<char>, typed: Seq<char>, home: Seq<u8>)
    ensures
        expanded("~"@, Some(home)) == Ok::<Seq<u8>, ()>(home),
        expanded("~"@, None) is Err,
        expanded("~/"@ + rest, None) is Err,
        expanded("~/"@ + rest, Some(home)) matches Ok(path) && {
            &&& is_absolute(encode_utf8(rest)) ==> path == encode_utf8(rest)
            &&& !is_absolute(encode_utf8(rest)) ==> {
                &&& home.is_prefix_of(path)
                &&& encode_utf8(rest).is_suffix_of(path)
                &&& path.len() <= home.len() + 1 + encode_utf8(rest).len()
            }
        },
        typed.len() > 0 && typed[0] != '~' ==> expanded(typed, None) == Ok::<Seq<u8>, ()>(
            encode_utf8(typed),
        ) && expanded(typed, Some(home)) == expanded(typed, None),
{
    reveal_strlit("~");
    reveal_strlit("~/");
    let text = "~/"@ + rest;
    assert(text[1] == '/');
    assert(text.len() >= 2);
    assert("~/"@ =~= text.subrange(0, 2));
    assert(text.skip(2) =~= rest);
    let name = encode_utf8(rest);
    let path = pushed(home, name);
    if !is_absolute(name) {
        assert(home =~= path.subrange(0, home.len() as int));
        assert(name =~= path.subrange(path.len() - name.len(), path.len() as int));
    }
    if typed.len() > 0 && typed[0] != '~' {
        assert("~/"@.is_prefix_of(typed) ==> typed[0] == "~/"@[0]);
    }
}

/// What a row shows of a path in the home directory can be typed in to get there.
pub proof fn lemma_shown_path_can_be_typed(home: Seq<char>, rest: Seq<char>)
    requires
        home.len() > 0,
        home.last() != '/',
        rest.len() > 0 ==> rest[0] != '/',
    ensures
        abbreviated(home + "/"@ + rest, Some(home)) == "~/"@ + rest,
        expanded(abbreviated(home + "/"@ + rest, Some(home)), Some(encode_utf8(home))) == Ok::<
            Seq<u8>,
            (),
        >(encode_utf8(home + "/"@ + rest)),
        expanded(abbreviated(home, Some(home)), Some(encode_utf8(home))) == Ok::<Seq<u8>, ()>(
            encode_utf8(home),
        ),
{
    reveal_strlit("~");
    reveal_strlit("/");
    reveal_strlit("~/");
    lemma_ends_encoded(home);
    lemma_ends_encoded(rest);
    let path = home + "/"@ + rest;
    assert(without_end_separators(home) == home);
    assert(home.push('/') =~= path.subrange(0, home.len() as int + 1));
    assert(path.len() > home.len());
    assert("~"@ + path.skip(home.len() as int) =~= "~/"@ + rest);
    lemma_typed_paths(rest, rest, encode_utf8(home));
    let text = "~/"@ + rest;
    assert("~/"@ =~= text.subrange(0, 2));
    assert(text.len() >= 2);
    assert(text.skip(2) =~= rest);
    lemma_encoded_in_parts(home, "/"@);
    lemma_encoded_in_parts(home + "/"@, rest);
    lemma_separator_encoded();
    assert(encode_utf8(home).push(PATH_SEPARATOR) + encode_utf8(rest) =~= encode_utf8(path));
}

proof fn lemma_scalar_encoded(c: char)
    requires
        c != '/',
    ensures
        encode_utf8(seq![c]) == encode_scalar(c as u32),
        encode_scalar(c as u32).len() > 0,
        !encode_scalar(c as u32).contains(PATH_SEPARATOR),
{
    let s = seq![c];
    assert(s.drop_first() =~= Seq::<char>::empty());
    assert(encode_utf8(s.drop_first()) =~= Seq::<u8>::empty());
    assert(encode_utf8(s) =~= encode_scalar(c as u32));
    encode_utf8_valid_utf8(s);
    encode_utf8_decode_utf8(s);
    lemma_separators_in_text(encode_utf8(s));
    assert(!s.contains('/'));
}

proof fn lemma_ends_encoded(s: Seq<char>)
    ensures
        s.len() > 0 && s[0] != '/' ==> !is_absolute(encode_utf8(s)),
        s.len() == 0 ==> !is_absolute(encode_utf8(s)),
        s.len() > 0 && s.last() != '/' ==> encode_utf8(s).len() > 0 && encode_utf8(s).last()
            != PATH_SEPARATOR,
{
    if s.len() > 0 {
        if s[0] != '/' {
            lemma_scalar_encoded(s[0]);
            assert(encode_utf8(s)[0] == encode_scalar(s[0] as u32)[0]);
        }
        if s.last() != '/' {
            lemma_scalar_encoded(s.last());
            assert(s.drop_last() + seq![s.last()] =~= s);
            lemma_encoded_in_parts(s.drop_last(), seq![s.last()]);
            let end = encode_scalar(s.last() as u32);
            assert(encode_utf8(s).last() == end.last());
            assert(end.contains(end.last()));
        }
    }
}

proof fn lemma_separator_encoded()
    ensures
        encode_utf8("/"@) == seq![PATH_SEPARATOR],
{
    reveal_strlit("/");
    assert("/"@ =~= seq!['/']);
    assert(seq!['/'].drop_first() =~= Seq::<char>::empty());
    assert(encode_utf8(Seq::<char>::empty()) =~= Seq::<u8>::empty());
    assert((47u32 & 0x7F) as u8 == 47u8) by (bit_vector);
    assert(encode_scalar('/' as u32) =~= seq![PATH_SEPARATOR]);
    assert(encode_utf8(seq!['/']) =~= seq![PATH_SEPARATOR]);
}

/// A path outside the home directory is shown as it is, and so is every path where
/// there is none. A folder is labelled with its name, or with its path where it has
/// none.
pub proof fn lemma_shown_paths(
    path: Seq<char>,
    home: Seq<char>,
    label: Seq<char>,
    name: Option<Seq<char>>,
)
    ensures
        abbreviated(path, None) == path,
        !within(path, home) ==> abbreviated(path, Some(home)) == path,
        abbreviated(home, Some(home)) == "~"@,
        name matches Some(text) ==> (text.len() > 0 ==> folder_label(label, name) == text),
        name is None || name == Some(Seq::<char>::empty()) ==> folder_label(label, name) == label,
{
}

} // verus!
