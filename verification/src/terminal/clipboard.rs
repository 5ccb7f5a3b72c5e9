//! Clipboard traffic between the terminals and the desktop.
use vstd::prelude::*;
use vstd::string::*;

use crate::terminal::surface::SurfaceMap;
use crate::text::{
    decode_or_empty, dropping, eq_ignore_ascii_case, lemma_dropping, lemma_same_but_for_case,
    lowered, same_ignoring_case, starts_with, text_or_nothing, without_char,
};

verus! {

/// A clipboard of the desktop: the regular one, or the one that holds what is
/// selected.
#[derive(Clone, Copy, Debug, PartialEq, Eq, Structural)]
pub enum ClipboardKind {
    Standard,
    Selection,
}

/// Where a text that a terminal copies goes.
#[derive(Clone, Copy, Debug, PartialEq, Eq, Structural)]
pub struct ClipboardWritePolicy {
    pub write_clipboard: bool,
    pub write_primary: bool,
    pub show_toast: bool,
}

/// The primary clipboard is always written. A mere selection reaches the regular
/// one, with a notice, only if that is wanted.
pub open spec fn write_policy(kind: ClipboardKind, copy_selection: bool) -> ClipboardWritePolicy {
    let regular = kind == ClipboardKind::Standard || copy_selection;
    ClipboardWritePolicy { write_clipboard: regular, write_primary: true, show_toast: regular }
}

pub fn clipboard_write_policy(
    kind: ClipboardKind,
    copy_selection_to_clipboard: bool,
) -> (r: ClipboardWritePolicy)
    ensures
        r == write_policy(kind, copy_selection_to_clipboard),
{
    match kind {
        ClipboardKind::Selection => ClipboardWritePolicy {
            write_clipboard: copy_selection_to_clipboard,
            write_primary: true,
            show_toast: copy_selection_to_clipboard,
        },
        ClipboardKind::Standard => ClipboardWritePolicy {
            write_clipboard: true,
            write_primary: true,
            show_toast: true,
        },
    }
}

/// Text from a clipboard as a terminal takes it: without NUL characters, empty
/// where there is none.
pub fn clipboard_read_text(text: Option<&str>) -> (r: String)
    ensures
        r@ == (match text {
            Some(text) => dropping(text@, '\0'),
            None => Seq::<char>::empty(),
        }),
        !r@.contains('\0'),
{
    match text {
        Some(text) => {
            proof {
                lemma_dropping(text@, '\0');
            }
            without_char(text, '\0')
        },
        None => String::new(),
    }
}

/// The text that completes a request: empty where there is none.
pub fn clipboard_completion_text(text: Option<Vec<u8>>) -> (r: Vec<u8>)
    ensures
        r@ == (match text {
            Some(text) => text@,
            None => Seq::<u8>::empty(),
        }),
{
    match text {
        Some(text) => text,
        None => Vec::new(),
    }
}

/// Whether a media type is that of an image.
pub open spec fn is_image(mime: Seq<char>) -> bool {
    "image/"@.is_prefix_of(mime)
}

/// Whether a media type is that of plain text.
pub open spec fn is_plain_text(mime: Seq<char>) -> bool {
    same_ignoring_case(mime, "text/plain"@) || same_ignoring_case(
        mime,
        "text/plain;charset=utf-8"@,
    )
}

/// Whether one of the media types is that of an image.
pub fn clipboard_formats_include_image(mime_types: &Vec<String>) -> (r: bool)
    ensures
        r == exists|i: int| 0 <= i < mime_types@.len() && is_image(#[trigger] mime_types@[i]@),
{
    let mut i: usize = 0;
    while i < mime_types.len()
        invariant
            i <= mime_types@.len(),
            forall|j: int| 0 <= j < i ==> !is_image(#[trigger] mime_types@[j]@),
        decreases mime_types@.len() - i,
    {
        if starts_with(mime_types[i].as_str(), "image/") {
            assert(is_image(mime_types@[i as int]@));
            return true;
        }
        i += 1;
    }
    false
}

/// Whether text is offered: as the toolkit's string type, and under the media
/// type of plain text.
#[verifier::loop_isolation(false)]
pub fn clipboard_formats_include_text(has_string_type: bool, mime_types: &Vec<String>) -> (r: bool)
    ensures
        r == (has_string_type && exists|i: int|
            0 <= i < mime_types@.len() && is_plain_text(#[trigger] mime_types@[i]@)),
{
    if !has_string_type {
        return false;
    }
    let mut i: usize = 0;
    while i < mime_types.len()
        invariant
            i <= mime_types@.len(),
            forall|j: int| 0 <= j < i ==> !is_plain_text(#[trigger] mime_types@[j]@),
        decreases mime_types@.len() - i,
    {
        let mime = mime_types[i].as_str();
        if eq_ignore_ascii_case(mime, "text/plain") || eq_ignore_ascii_case(
            mime,
            "text/plain;charset=utf-8",
        ) {
            assert(is_plain_text(mime_types@[i as int]@));
            return true;
        }
        i += 1;
    }
    false
}

/// Whether a terminal can paste from a clipboard: it offers text and no image.
pub fn clipboard_has_text(has_string_type: bool, mime_types: &Vec<String>) -> (r: bool)
    ensures
        r == (has_string_type && (exists|i: int|
            0 <= i < mime_types@.len() && is_plain_text(#[trigger] mime_types@[i]@)) && !(exists|
            i: int,
        |
            0 <= i < mime_types@.len() && is_image(#[trigger] mime_types@[i]@))),
{
    if clipboard_formats_include_image(mime_types) {
        return false;
    }
    clipboard_formats_include_text(has_string_type, mime_types)
}

/// What the host keeps for the clipboard requests of one terminal.
#[derive(Debug, PartialEq)]
pub struct ClipboardContext {
    /// The terminal's surface, once it exists.
    pub surface: Option<usize>,
    /// The address that a probe found.
    pub url_probe: Option<String>,
    /// A probe is under way: what is copied is the probe's result.
    pub url_probe_active: bool,
}

/// Where a text that a terminal copies goes, and the surface to show a notice on.
#[derive(Debug, PartialEq)]
pub enum ClipboardWrite {
    /// Nothing is written.
    Nothing,
    /// The text is the result of a probe.
    Probed,
    Write { text: String, policy: ClipboardWritePolicy, toast: Option<usize> },
}

impl ClipboardContext {
    pub fn new() -> (r: Self)
        ensures
            r == (ClipboardContext { surface: None, url_probe: None, url_probe_active: false }),
    {
        ClipboardContext { surface: None, url_probe: None, url_probe_active: false }
    }

    /// Starts to look for an address: forgets an earlier one and catches what is
    /// copied next.
    pub fn begin_url_probe(&mut self)
        ensures
            *final(self) == (ClipboardContext {
                url_probe: None,
                url_probe_active: true,
                ..*old(self)
            }),
    {
        self.url_probe_active = true;
        self.url_probe = None;
    }

    /// Ends the search and hands the address out.
    pub fn end_url_probe(&mut self) -> (r: Option<String>)
        ensures
            r == old(self).url_probe,
            *final(self) == (ClipboardContext {
                url_probe: None,
                url_probe_active: false,
                ..*old(self)
            }),
    {
        let found = self.url_probe.take();
        self.url_probe_active = false;
        found
    }

    /// Handles a text that a terminal copies, `None` where it handed over none.
    /// `display` says whether there is a display to copy to; `copy_selection` is
    /// the user's setting.
    pub fn write(
        &mut self,
        kind: ClipboardKind,
        data: Option<&[u8]>,
        display: bool,
        copy_selection: bool,
        surfaces: &SurfaceMap,
    ) -> (r: ClipboardWrite)
        ensures
            match data {
                None => r is Nothing && *final(self) == *old(self),
                Some(bytes) => if old(self).url_probe_active {
                    &&& r is Probed
                    &&& final(self).url_probe matches Some(found) && found@ == text_or_nothing(
                        bytes@,
                    )
                    &&& final(self).surface == old(self).surface
                    &&& final(self).url_probe_active
                } else {
                    &&& *final(self) == *old(self)
                    &&& if display {
                        &&& r matches ClipboardWrite::Write { text, policy, toast }
                        &&& text@ == text_or_nothing(bytes@)
                        &&& policy == write_policy(kind, copy_selection)
                        &&& toast == toast_surface(policy, old(self).surface, *surfaces)
                    } else {
                        r is Nothing
                    }
                },
            },
    {
        match data {
            None => ClipboardWrite::Nothing,
            Some(bytes) => {
                let text = decode_or_empty(bytes);
                if self.url_probe_active {
                    self.url_probe = Some(text);
                    return ClipboardWrite::Probed;
                }
                write_without_probe(text, kind, self.surface, display, copy_selection, surfaces)
            },
        }
    }
}

/// The surface to show the notice on: the terminal's own, while it is shown.
pub open spec fn toast_surface(
    policy: ClipboardWritePolicy,
    surface: Option<usize>,
    surfaces: SurfaceMap,
) -> Option<usize> {
    match surface {
        Some(key) => if policy.show_toast && surfaces.live().contains_key(key) {
            Some(key)
        } else {
            None
        },
        None => None,
    }
}

fn write_without_probe(
    text: String,
    kind: ClipboardKind,
    surface: Option<usize>,
    display: bool,
    copy_selection: bool,
    surfaces: &SurfaceMap,
) -> (r: ClipboardWrite)
    ensures
        if display {
            &&& r matches ClipboardWrite::Write { text: written, policy, toast }
            &&& written@ == text@
            &&& policy == write_policy(kind, copy_selection)
            &&& toast == toast_surface(policy, surface, *surfaces)
        } else {
            r is Nothing
        },
{
    if !display {
        return ClipboardWrite::Nothing;
    }
    let policy = clipboard_write_policy(kind, copy_selection);
    let toast = match surface {
        Some(key) => if policy.show_toast && surfaces.surface_is_registered(key) {
            Some(key)
        } else {
            None
        },
        None => None,
    };
    ClipboardWrite::Write { text, policy, toast }
}

/// Handles a text that is copied without a terminal's context: a selection is
/// copied to the regular clipboard as well, and nowhere is a notice shown.
pub fn write_clipboard_without_context(
    kind: ClipboardKind,
    data: Option<&[u8]>,
    display: bool,
) -> (r: ClipboardWrite)
    ensures
        match data {
            None => r is Nothing,
            Some(bytes) => if display {
                &&& r matches ClipboardWrite::Write { text, policy, toast }
                &&& text@ == text_or_nothing(bytes@)
                &&& policy == write_policy(kind, true)
                &&& toast is None
            } else {
                r is Nothing
            },
        },
{
    match data {
        None => ClipboardWrite::Nothing,
        Some(bytes) => if display {
            ClipboardWrite::Write {
                text: decode_or_empty(bytes),
                policy: clipboard_write_policy(kind, true),
                toast: None,
            }
        } else {
            ClipboardWrite::Nothing
        },
    }
}

/// What a terminal gets that asks for the clipboard.
#[derive(Clone, Copy, Debug, PartialEq, Eq, Structural)]
pub enum ClipboardRead {
    /// No answer: there is no surface to answer to.
    Nothing,
    /// An empty answer: there is no display.
    CompleteEmpty(usize),
    /// Read this clipboard, then answer.
    Read { surface: usize, kind: ClipboardKind },
}

/// How a terminal's request for the clipboard is handled.
pub fn read_clipboard(surface: Option<usize>, kind: ClipboardKind, display: bool) -> (r:
    ClipboardRead)
    ensures
        r == (match surface {
            None => ClipboardRead::Nothing,
            Some(surface) => if display {
                ClipboardRead::Read { surface, kind }
            } else {
                ClipboardRead::CompleteEmpty(surface)
            },
        }),
{
    match surface {
        None => ClipboardRead::Nothing,
        Some(surface) => if display {
            ClipboardRead::Read { surface, kind }
        } else {
            ClipboardRead::CompleteEmpty(surface)
        },
    }
}

/// The answer to a request for the clipboard: the text for a surface that is
/// still shown, no answer for any other.
pub fn complete_clipboard_request(
    surfaces: &SurfaceMap,
    surface: usize,
    text: Option<Vec<u8>>,
) -> (r: Option<Vec<u8>>)
    ensures
        r is Some == surfaces.live().contains_key(surface),
        r matches Some(answer) ==> answer@ == (match text {
            Some(text) => text@,
            None => Seq::<u8>::empty(),
        }),
{
    if surfaces.surface_is_registered(surface) {
        Some(clipboard_completion_text(text))
    } else {
        None
    }
}

/// Whatever a terminal copies can be pasted with the middle button. What was copied
/// on purpose reaches the regular clipboard whatever the settings say; of a mere
/// selection the settings decide. A notice appears exactly where the regular
/// clipboard changes, and only on the terminal's own surface.
pub proof fn lemma_copied_text_goes_where_asked(
    kind: ClipboardKind,
    copy_selection: bool,
    surface: Option<usize>,
    surfaces: SurfaceMap,
)
    ensures
        ({
            let policy = write_policy(kind, copy_selection);
            let toast = toast_surface(policy, surface, surfaces);
            &&& policy.write_primary
            &&& write_policy(ClipboardKind::Standard, copy_selection).write_clipboard
            &&& write_policy(ClipboardKind::Selection, copy_selection).write_clipboard
                == copy_selection
            &&& policy.show_toast == policy.write_clipboard
            &&& toast is Some ==> toast == surface && policy.write_clipboard
            &&& surface matches Some(key) ==> (toast is Some <==> policy.write_clipboard
                && surfaces.live().contains_key(key))
        }),
{
}

/// Every media type below `image/` is that of an image, and no other is. Plain text
/// is told by its name, with or without its encoding, in whatever case.
pub proof fn lemma_media_types(mime: Seq<char>, rest: Seq<char>)
    ensures
        is_image("image/"@ + rest),
        is_image(mime) ==> mime.len() >= 6 && mime.subrange(0, 6) == "image/"@,
        is_plain_text(mime) <==> lowered(mime) == "text/plain"@ || lowered(mime)
            == "text/plain;charset=utf-8"@,
        is_plain_text(mime) ==> !is_image(mime),
{
    reveal_strlit("image/");
    reveal_strlit("text/plain");
    reveal_strlit("text/plain;charset=utf-8");
    assert("image/"@ =~= ("image/"@ + rest).subrange(0, 6));
    lemma_same_but_for_case(mime, "text/plain"@);
    lemma_same_but_for_case(mime, "text/plain;charset=utf-8"@);
    assert(lowered("text/plain"@) =~= "text/plain"@);
    assert(lowered("text/plain;charset=utf-8"@) =~= "text/plain;charset=utf-8"@);
    if is_plain_text(mime) && is_image(mime) {
        assert(mime[0] == "image/"@[0]);
        assert(lowered(mime)[0] == 'i');
    }
}

} // verus!
