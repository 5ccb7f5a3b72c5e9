//! Keys: from the toolkit's events to the terminal's input.
//!
//! Of a key symbol only the character that it stands for matters here.
use vstd::prelude::*;
use vstd::string::*;

use crate::text::push_char;

verus! {

/// The modifiers that a terminal sees.
#[derive(Clone, Copy, Debug, PartialEq, Eq, Structural)]
pub struct KeyMods {
    pub shift: bool,
    pub ctrl: bool,
    pub alt: bool,
    pub super_key: bool,
}

impl KeyMods {
    pub open spec fn nothing() -> KeyMods {
        KeyMods { shift: false, ctrl: false, alt: false, super_key: false }
    }

    pub fn none() -> (r: Self)
        ensures
            r == KeyMods::nothing(),
    {
        KeyMods { shift: false, ctrl: false, alt: false, super_key: false }
    }
}

#[derive(Clone, Copy, Debug, PartialEq, Eq, Structural)]
pub enum KeyAction {
    Press,
    Release,
}

/// A key event as the terminal library takes it. Its text goes separately.
#[derive(Clone, Copy, Debug, PartialEq, Eq, Structural)]
pub struct KeyInput {
    pub action: KeyAction,
    pub mods: KeyMods,
    /// Modifiers that the layout used up to form the character.
    pub consumed_mods: KeyMods,
    pub keycode: u32,
    /// Character of the key without modifiers, 0 where it has none.
    pub unshifted_codepoint: u32,
    pub composing: bool,
}

/// The first character of the lower-case form of a character.
pub uninterp spec fn lower_case(c: char) -> Option<char>;

/// `char::to_lowercase`, of which the first character counts. An ASCII letter has
/// the lower-case letter, any other ASCII character itself; beyond ASCII the
/// Unicode tables decide.
#[verifier::external_body]
fn first_of_lower_case(c: char) -> (r: Option<char>)
    ensures
        r == lower_case(c),
        c as u32 <= 127 ==> r == Some(crate::text::ascii_lower(c)),
{
    c.to_lowercase().next()
}

/// The character on the same key without shift, on a US keyboard.
pub open spec fn unshifted_symbol(c: char) -> Option<char> {
    if c == '!' {
        Some('1')
    } else if c == '@' {
        Some('2')
    } else if c == '#' {
        Some('3')
    } else if c == '$' {
        Some('4')
    } else if c == '%' {
        Some('5')
    } else if c == '^' {
        Some('6')
    } else if c == '&' {
        Some('7')
    } else if c == '*' {
        Some('8')
    } else if c == '(' {
        Some('9')
    } else if c == ')' {
        Some('0')
    } else if c == '_' {
        Some('-')
    } else if c == '+' {
        Some('=')
    } else if c == '{' {
        Some('[')
    } else if c == '}' {
        Some(']')
    } else if c == '|' {
        Some('\\')
    } else if c == ':' {
        Some(';')
    } else if c == '"' {
        Some('\'')
    } else if c == '<' {
        Some(',')
    } else if c == '>' {
        Some('.')
    } else if c == '?' {
        Some('/')
    } else if c == '~' {
        Some('`')
    } else {
        None
    }
}

/// The character of a key without modifiers where no keymap says it: a symbol by
/// the US keyboard, anything else by its lower-case form.
pub open spec fn unshifted(unicode: Option<char>) -> u32 {
    match unicode {
        Some(c) => match unshifted_symbol(c) {
            Some(u) => u as u32,
            None => match lower_case(c) {
                Some(l) => l as u32,
                None => 0,
            },
        },
        None => 0,
    }
}

fn symbol_without_shift(c: char) -> (r: Option<char>)
    ensures
        r == unshifted_symbol(c),
{
    match c {
        '!' => Some('1'),
        '@' => Some('2'),
        '#' => Some('3'),
        '$' => Some('4'),
        '%' => Some('5'),
        '^' => Some('6'),
        '&' => Some('7'),
        '*' => Some('8'),
        '(' => Some('9'),
        ')' => Some('0'),
        '_' => Some('-'),
        '+' => Some('='),
        '{' => Some('['),
        '}' => Some(']'),
        '|' => Some('\\'),
        ':' => Some(';'),
        '"' => Some('\''),
        '<' => Some(','),
        '>' => Some('.'),
        '?' => Some('/'),
        '~' => Some('`'),
        _ => None,
    }
}

/// The character of a key without modifiers where no keymap says it.
pub fn fallback_unshifted_codepoint(unicode: Option<char>) -> (r: u32)
    ensures
        r == unshifted(unicode),
        unicode matches Some(c) ==> (c as u32 <= 127 && unshifted_symbol(c) is None ==> r
            == crate::text::ascii_lower(c) as u32),
{
    match unicode {
        Some(c) => match symbol_without_shift(c) {
            Some(u) => u as u32,
            None => match first_of_lower_case(c) {
                Some(l) => l as u32,
                None => 0,
            },
        },
        None => 0,
    }
}

/// Modifiers that are used up where no event says it: shift, if it changes the
/// character.
pub open spec fn consumed_by_shift(unicode: Option<char>, mods: KeyMods) -> KeyMods {
    let changed = match unicode {
        Some(c) => c as u32 != 0 && c as u32 != unshifted(unicode),
        None => false,
    };
    KeyMods { shift: mods.shift && changed, ..KeyMods::nothing() }
}

pub fn fallback_consumed_mods(unicode: Option<char>, mods: KeyMods) -> (r: KeyMods)
    ensures
        r == consumed_by_shift(unicode, mods),
{
    let mut consumed = KeyMods::none();
    if mods.shift {
        let shifted: u32 = match unicode {
            Some(c) => c as u32,
            None => 0,
        };
        let plain: u32 = fallback_unshifted_codepoint(unicode);
        if shifted != 0 && shifted != plain {
            consumed.shift = true;
        }
    }
    consumed
}

/// One meaning of a hardware key: layout group and level, and the character.
#[derive(Clone, Copy, Debug, PartialEq, Eq, Structural)]
pub struct KeycodeEntry {
    pub group: i32,
    pub level: i32,
    pub unicode: Option<char>,
}

impl KeycodeEntry {
    /// The unmodified meaning in a layout.
    pub open spec fn is_base(self, layout: i32) -> bool {
        self.group == layout && self.level == 0
    }
}

/// The character of a hardware key without modifiers, as the keymap has it: that
/// of the first unmodified meaning in the layout in use.
#[verifier::loop_isolation(false)]
pub fn keyval_unicode_unshifted(entries: Option<&Vec<KeycodeEntry>>, layout: i32) -> (r: Option<
    u32,
>)
    ensures
        match entries {
            None => r is None,
            Some(entries) => {
                ||| (r is None && forall|i: int|
                    0 <= i < entries@.len() ==> !(#[trigger] entries@[i]).is_base(layout))
                ||| exists|i: int|
                    {
                        &&& 0 <= i < entries@.len()
                        &&& (#[trigger] entries@[i]).is_base(layout)
                        &&& forall|j: int|
                            0 <= j < i ==> !(#[trigger] entries@[j]).is_base(layout)
                        &&& r == (match entries@[i].unicode {
                            Some(c) => if c as u32 != 0 {
                                Some(c as u32)
                            } else {
                                None
                            },
                            None => None,
                        })
                    }
            },
        },
{
    match entries {
        None => None,
        Some(entries) => {
            let mut i: usize = 0;
            while i < entries.len()
                invariant
                    i <= entries@.len(),
                    forall|j: int| 0 <= j < i ==> !(#[trigger] entries@[j]).is_base(layout),
                decreases entries@.len() - i,
            {
                let entry = entries[i];
                if entry.group == layout && entry.level == 0 {
                    assert(entries@[i as int].is_base(layout));
                    return match entry.unicode {
                        Some(c) => {
                            let code: u32 = c as u32;
                            if code != 0 {
                                Some(code)
                            } else {
                                None
                            }
                        },
                        None => None,
                    };
                }
                i += 1;
            }
            None
        },
    }
}

/// A key event for the terminal.
pub open spec fn key_input(
    action: KeyAction,
    mods: KeyMods,
    unicode: Option<char>,
    keycode: u32,
    keymap_unshifted: Option<u32>,
    event_consumed: Option<KeyMods>,
) -> KeyInput {
    KeyInput {
        action,
        mods,
        consumed_mods: match event_consumed {
            Some(mods) => mods,
            None => consumed_by_shift(unicode, mods),
        },
        keycode,
        unshifted_codepoint: match keymap_unshifted {
            Some(c) => c,
            None => unshifted(unicode),
        },
        composing: false,
    }
}

/// Translates a key event. `keymap_unshifted` is what the keymap says of the key
/// without modifiers, `event_consumed` what the event says of used-up modifiers;
/// where they are missing, both are worked out from the character.
pub fn translate_key_event(
    action: KeyAction,
    mods: KeyMods,
    unicode: Option<char>,
    keycode: u32,
    keymap_unshifted: Option<u32>,
    event_consumed: Option<KeyMods>,
) -> (r: KeyInput)
    ensures
        r == key_input(action, mods, unicode, keycode, keymap_unshifted, event_consumed),
{
    let unshifted_codepoint: u32 = match keymap_unshifted {
        Some(c) => c,
        None => fallback_unshifted_codepoint(unicode),
    };
    let consumed_mods = match event_consumed {
        Some(mods) => mods,
        None => fallback_consumed_mods(unicode, mods),
    };
    KeyInput { action, mods, consumed_mods, keycode, unshifted_codepoint, composing: false }
}

/// A hardware key that gives a key symbol, and the layout group that it does so
/// in.
#[derive(Clone, Copy, Debug, PartialEq, Eq, Structural)]
pub struct KeyvalMapping {
    pub keycode: u32,
    pub group: i32,
}

/// The hardware key for a key symbol: the first that gives it, 0 where none does.
pub fn keycode_for_keyval(mappings: Option<&Vec<KeyvalMapping>>) -> (r: u32)
    ensures
        r == (match mappings {
            Some(mappings) => if mappings@.len() > 0 {
                mappings@[0].keycode
            } else {
                0
            },
            None => 0,
        }),
{
    match mappings {
        Some(mappings) => if mappings.len() > 0 {
            mappings[0].keycode
        } else {
            0
        },
        None => 0,
    }
}

/// Whether the character of an injected key has to be looked up again with its
/// modifiers: only shift changes it, and only a key that exists can be looked up.
pub fn needs_shift_translation(keycode: u32, mods: KeyMods) -> (r: bool)
    ensures
        r == (keycode != 0 && mods.shift),
{
    keycode != 0 && mods.shift
}

/// The key value of an injected key: what the lookup with its modifiers found, where
/// there was one to make; else its own.
pub fn translated_keyval_for_keycode(
    keyval: u32,
    keycode: u32,
    mods: KeyMods,
    found: Option<u32>,
) -> (r: u32)
    ensures
        r == (match found {
            Some(translated) => if keycode != 0 && mods.shift {
                translated
            } else {
                keyval
            },
            None => keyval,
        }),
{
    if !needs_shift_translation(keycode, mods) {
        return keyval;
    }
    match found {
        Some(translated) => translated,
        None => keyval,
    }
}

/// The layout group to look a key up in: that of the mapping by this hardware
/// key, else of the first mapping, else 0.
#[verifier::loop_isolation(false)]
pub fn translation_group(mappings: Option<&Vec<KeyvalMapping>>, keycode: u32) -> (r: i32)
    ensures
        match mappings {
            None => r == 0,
            Some(mappings) => {
                ||| exists|i: int|
                    {
                        &&& 0 <= i < mappings@.len()
                        &&& (#[trigger] mappings@[i]).keycode == keycode
                        &&& forall|j: int|
                            0 <= j < i ==> (#[trigger] mappings@[j]).keycode != keycode
                        &&& r == mappings@[i].group
                    }
                ||| {
                    &&& forall|j: int|
                        0 <= j < mappings@.len() ==> (#[trigger] mappings@[j]).keycode != keycode
                    &&& r == (if mappings@.len() > 0 {
                        mappings@[0].group
                    } else {
                        0
                    })
                }
            },
        },
{
    match mappings {
        None => 0,
        Some(mappings) => {
            let mut i: usize = 0;
            while i < mappings.len()
                invariant
                    i <= mappings@.len(),
                    forall|j: int| 0 <= j < i ==> (#[trigger] mappings@[j]).keycode != keycode,
                decreases mappings@.len() - i,
            {
                let mapping = mappings[i];
                if mapping.keycode == keycode {
                    assert(mappings@[i as int].keycode == keycode);
                    return mapping.group;
                }
                i += 1;
            }
            if mappings.len() > 0 {
                mappings[0].group
            } else {
                0
            }
        },
    }
}

/// Whether a character is a control character.
pub open spec fn is_control(c: char) -> bool {
    c as u32 <= 0x1F || 0x7F <= c as u32 <= 0x9F
}

/// The text that a key types: its character, unless that is a control character,
/// which the terminal encodes itself.
pub fn key_event_text(unicode: Option<char>) -> (r: Option<String>)
    ensures
        match unicode {
            Some(c) => if is_control(c) {
                r is None
            } else {
                r matches Some(text) && text@ == seq![c]
            },
            None => r is None,
        },
{
    match unicode {
        Some(c) => {
            let code: u32 = c as u32;
            if code <= 0x1F || (0x7F <= code && code <= 0x9F) {
                return None;
            }
            let mut text = String::new();
            push_char(&mut text, c);
            assert(text@ =~= seq![c]);
            Some(text)
        },
        None => None,
    }
}

/// The two events of an injected key, and the text of the first.
#[derive(Debug, PartialEq)]
pub struct InjectedKey {
    pub press: KeyInput,
    pub text: Option<String>,
    pub release: KeyInput,
}

/// Why a key cannot be injected.
#[derive(Clone, Copy, Debug, PartialEq, Eq, Structural)]
pub enum SendKeyRefusal {
    NoSurface,
    UnknownKey,
}

/// A key symbol that was asked for by name: its character, the hardware key for
/// it, its modifiers, and the character that the hardware key types with them.
#[derive(Clone, Copy, Debug, PartialEq, Eq, Structural)]
pub struct NamedKey {
    pub unicode: Option<char>,
    pub keycode: u32,
    pub mods: KeyMods,
    pub typed: Option<char>,
}

/// The events that inject a key: a press that carries the text, and a release
/// that carries none. Without a surface or for an unknown key there are none.
pub fn send_key(has_surface: bool, key: Option<NamedKey>) -> (r: Result<
    InjectedKey,
    SendKeyRefusal,
>)
    ensures
        match r {
            Err(refusal) => refusal == (if !has_surface {
                SendKeyRefusal::NoSurface
            } else {
                SendKeyRefusal::UnknownKey
            }) && (!has_surface || key is None),
            Ok(injected) => {
                &&& has_surface
                &&& key matches Some(key)
                &&& injected.press == key_input(
                    KeyAction::Press,
                    key.mods,
                    key.unicode,
                    key.keycode,
                    None,
                    None,
                )
                &&& injected.release == (KeyInput {
                    action: KeyAction::Release,
                    ..injected.press
                })
                &&& match key.typed {
                    Some(c) => if is_control(c) {
                        injected.text is None
                    } else {
                        injected.text matches Some(text) && text@ == seq![c]
                    },
                    None => injected.text is None,
                }
            },
        },
        r is Ok <==> has_surface && key is Some,
        r matches Ok(injected) ==> {
            let asked = key->0;
            &&& injected.press.action == KeyAction::Press
            &&& injected.release.action == KeyAction::Release
            &&& injected.press.keycode == asked.keycode && injected.release.keycode
                == asked.keycode
            &&& injected.press.mods == asked.mods && injected.release.mods == asked.mods
        },
{
    if !has_surface {
        return Err(SendKeyRefusal::NoSurface);
    }
    match key {
        None => Err(SendKeyRefusal::UnknownKey),
        Some(key) => Ok(
            InjectedKey {
                press: translate_key_event(
                    KeyAction::Press,
                    key.mods,
                    key.unicode,
                    key.keycode,
                    None,
                    None,
                ),
                text: key_event_text(key.typed),
                release: translate_key_event(
                    KeyAction::Release,
                    key.mods,
                    key.unicode,
                    key.keycode,
                    None,
                    None,
                ),
            },
        ),
    }
}

/// The characters on the symbol keys of a US keyboard with shift,
pub open spec fn shifted_row() -> Seq<char> {
    "~!@#$%^&*()_+{}|:\"<>?"@
}

/// and on the same keys, in the same order, without.
pub open spec fn plain_row() -> Seq<char> {
    "`1234567890-=[]\\;',./"@
}

/// Each character that a symbol key types with shift leads to the one that the same
/// key types without, and no other character leads anywhere. No two keys share a
/// character, and what a key types without shift is typed by none with it.
pub proof fn lemma_symbol_keys_pair_up(c: char)
    ensures
        shifted_row().len() == plain_row().len() == 21,
        unshifted_symbol(c) is Some <==> shifted_row().contains(c),
        forall|i: int|
            0 <= i < 21 ==> unshifted_symbol(#[trigger] shifted_row()[i]) == Some(plain_row()[i]),
        forall|i: int| 0 <= i < 21 ==> unshifted_symbol(#[trigger] plain_row()[i]) is None,
        forall|i: int, j: int|
            0 <= i < j < 21 ==> #[trigger] plain_row()[i] != #[trigger] plain_row()[j],
{
    reveal_strlit("~!@#$%^&*()_+{}|:\"<>?");
    reveal_strlit("`1234567890-=[]\\;',./");
    let row = shifted_row();
    assert(row[0] == '~' && row[1] == '!' && row[2] == '@' && row[3] == '#' && row[4] == '$');
    assert(row[5] == '%' && row[6] == '^' && row[7] == '&' && row[8] == '*' && row[9] == '(');
    assert(row[10] == ')' && row[11] == '_' && row[12] == '+' && row[13] == '{');
    assert(row[14] == '}' && row[15] == '|' && row[16] == ':' && row[17] == '"');
    assert(row[18] == '<' && row[19] == '>' && row[20] == '?');
    assert(plain_row()[0] == '`');
}

/// A key event reaches the terminal as the key, the modifiers and the action that
/// it was. What the keymap says of the key without modifiers and what the event says
/// of used-up modifiers are taken over. Where the event says nothing, shift alone
/// can be used up: exactly where it was held and the key would have typed another
/// character without it.
pub proof fn lemma_key_event_is_kept(
    action: KeyAction,
    mods: KeyMods,
    unicode: Option<char>,
    keycode: u32,
    keymap_unshifted: Option<u32>,
    event_consumed: Option<KeyMods>,
)
    ensures
        ({
            let input = key_input(
                action,
                mods,
                unicode,
                keycode,
                keymap_unshifted,
                event_consumed,
            );
            let guessed = key_input(action, mods, unicode, keycode, None, None);
            &&& input.action == action
            &&& input.mods == mods
            &&& input.keycode == keycode
            &&& !input.composing
            &&& keymap_unshifted matches Some(plain) ==> input.unshifted_codepoint == plain
            &&& keymap_unshifted is None ==> input.unshifted_codepoint
                == guessed.unshifted_codepoint
            &&& event_consumed matches Some(consumed) ==> input.consumed_mods == consumed
            &&& event_consumed is None ==> input.consumed_mods == guessed.consumed_mods
            &&& !guessed.consumed_mods.ctrl
            &&& !guessed.consumed_mods.alt
            &&& !guessed.consumed_mods.super_key
            &&& guessed.consumed_mods.shift ==> mods.shift
            &&& unicode is None ==> guessed.unshifted_codepoint == 0
                && !guessed.consumed_mods.shift
            &&& unicode matches Some(c) ==> (mods.shift && c as u32 != 0 ==> (
            guessed.consumed_mods.shift <==> guessed.unshifted_codepoint != c as u32))
        }),
{
}

/// What a symbol key types with shift, and what it types without.
pub proof fn lemma_symbol_event(action: KeyAction, mods: KeyMods, keycode: u32, i: int)
    requires
        0 <= i < 21,
    ensures
        ({
            let shifted = key_input(action, mods, Some(shifted_row()[i]), keycode, None, None);
            &&& shifted.unshifted_codepoint == plain_row()[i] as u32
            &&& shifted.consumed_mods.shift == mods.shift
        }),
{
    lemma_symbol_keys_pair_up('a');
    reveal_strlit("~!@#$%^&*()_+{}|:\"<>?");
    assert(unshifted_symbol(plain_row()[i]) is None);
    assert(unshifted_symbol(shifted_row()[i]) == Some(plain_row()[i]));
    assert(shifted_row()[i] != plain_row()[i]);
}

/// Control characters are the 32 before the blank, the delete character and the 32
/// behind it, and no other.
pub proof fn lemma_control_characters(c: char)
    ensures
        is_control(c) <==> (c as u32) % 128 < 32 && (c as u32) < 256 || c as u32 == 127,
{
}

} // verus!
