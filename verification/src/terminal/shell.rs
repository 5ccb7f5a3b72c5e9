//! Paths as words of a shell command.
use shell_quote::Bash;
use vstd::prelude::*;

verus! {

/// Whether a byte means nothing but itself wherever it stands in a word: an ASCII
/// letter or digit, or one of `,` `.` `/` `_` `-` `:` `@` `+`.
pub open spec fn is_inert(b: u8) -> bool {
    ||| 97 <= b <= 122
    ||| 65 <= b <= 90
    ||| 48 <= b <= 57
    ||| b == 44
    ||| b == 46
    ||| b == 47
    ||| b == 95
    ||| b == 45
    ||| b == 58
    ||| b == 64
    ||| b == 43
}

/// Whether every byte is inert.
pub open spec fn all_inert(bytes: Seq<u8>) -> bool {
    forall|i: int| 0 <= i < bytes.len() ==> is_inert(#[trigger] bytes[i])
}

/// Whether every byte is printable ASCII.
pub open spec fn printable(bytes: Seq<u8>) -> bool {
    forall|i: int| 0 <= i < bytes.len() ==> 32 <= #[trigger] bytes[i] <= 126
}

/// The upper-case hexadecimal digit for a value below 16.
pub open spec fn hex_digit(value: int) -> u8 {
    if value < 10 {
        (48 + value) as u8
    } else {
        (55 + value) as u8
    }
}

/// The letter behind the backslash for a byte that has one: `\a` for the bell, `\b`
/// for a backspace, `\e` for an escape, and so on.
pub open spec fn escape_letter(b: u8) -> Option<u8> {
    if b == 7 {
        Some(97)
    } else if b == 8 {
        Some(98)
    } else if b == 27 {
        Some(101)
    } else if b == 12 {
        Some(102)
    } else if b == 10 {
        Some(110)
    } else if b == 13 {
        Some(114)
    } else if b == 9 {
        Some(116)
    } else if b == 11 {
        Some(118)
    } else if b == 92 || b == 39 {
        Some(b)
    } else {
        None
    }
}

/// A byte between `$'` and `'`: a backslash and its letter, or `\x` and two digits
/// where it is not printable, or itself.
pub open spec fn escaped(b: u8) -> Seq<u8> {
    match escape_letter(b) {
        Some(letter) => seq![92u8, letter],
        None => if 32 <= b <= 126 {
            seq![b]
        } else {
            seq![92u8, 120u8, hex_digit(b as int / 16), hex_digit(b as int % 16)]
        },
    }
}

/// Bytes between `$'` and `'`.
pub open spec fn all_escaped(bytes: Seq<u8>) -> Seq<u8>
    decreases bytes.len(),
{
    if bytes.len() == 0 {
        Seq::empty()
    } else {
        escaped(bytes[0]) + all_escaped(bytes.drop_first())
    }
}

/// A byte string quoted for Bash: itself where every byte is inert, `''` for none,
/// else escaped between `$'` and `'`.
pub open spec fn bash_quoted(bytes: Seq<u8>) -> Seq<u8> {
    if bytes.len() == 0 {
        seq![39u8, 39u8]
    } else if all_inert(bytes) {
        bytes
    } else {
        seq![36u8, 39u8] + all_escaped(bytes) + seq![39u8]
    }
}

/// `shell_quote::Bash::quote_vec` on bytes: as they are where every one is inert,
/// `''` for none, else an ANSI-C string like `$'a b\n'`, in which a byte stands as
/// its backslash sequence, as `\x` with two upper-case digits, or as itself.
#[verifier::external_body]
fn quote_for_bash(bytes: &[u8]) -> (r: Vec<u8>)
    ensures
        r@ == bash_quoted(bytes@),
{
    Bash::quote_vec(bytes)
}

proof fn lemma_escaped_is_printable(bytes: Seq<u8>)
    ensures
        printable(all_escaped(bytes)),
    decreases bytes.len(),
{
    if bytes.len() > 0 {
        lemma_escaped_is_printable(bytes.drop_first());
        assert(printable(escaped(bytes[0])));
    }
}

/// Quoted bytes are never empty, and made of printable ASCII alone.
pub proof fn lemma_quoted_is_printable(bytes: Seq<u8>)
    ensures
        bash_quoted(bytes).len() > 0,
        printable(bash_quoted(bytes)),
{
    lemma_escaped_is_printable(bytes);
    if bytes.len() > 0 && all_inert(bytes) {
        assert forall|i: int| 0 <= i < bytes.len() implies 32 <= #[trigger] bytes[i] <= 126 by {
            assert(is_inert(bytes[i]));
        }
    }
}

/// The value of a hexadecimal digit of either case.
pub open spec fn hex_value(b: u8) -> Option<int> {
    if 48 <= b <= 57 {
        Some(b - 48)
    } else if 65 <= b <= 70 {
        Some(b - 55)
    } else if 97 <= b <= 102 {
        Some(b - 87)
    } else {
        None
    }
}

/// The byte that Bash reads in a backslash and a letter.
pub open spec fn escape_read(letter: u8) -> Option<u8> {
    if letter == 97 {
        Some(7)
    } else if letter == 98 {
        Some(8)
    } else if letter == 101 {
        Some(27)
    } else if letter == 102 {
        Some(12)
    } else if letter == 110 {
        Some(10)
    } else if letter == 114 {
        Some(13)
    } else if letter == 116 {
        Some(9)
    } else if letter == 118 {
        Some(11)
    } else if letter == 92 || letter == 39 {
        Some(letter)
    } else {
        None
    }
}

/// A byte before what is read behind it.
pub open spec fn read_before(b: u8, rest: Option<Seq<u8>>) -> Option<Seq<u8>> {
    match rest {
        Some(rest) => Some(seq![b] + rest),
        None => None,
    }
}

/// What Bash reads between `$'` and `'`. None for a quote that would end it early,
/// for a zero byte, and for the sequences that are not in use here.
pub open spec fn ansi_c_read(text: Seq<u8>) -> Option<Seq<u8>>
    decreases text.len(),
{
    if text.len() == 0 {
        Some(Seq::empty())
    } else if text[0] == 39 {
        None
    } else if text[0] != 92 {
        read_before(text[0], ansi_c_read(text.skip(1)))
    } else if text.len() < 2 {
        None
    } else if text[1] == 120 {
        if text.len() < 4 {
            None
        } else {
            match (hex_value(text[2]), hex_value(text[3])) {
                (Some(high), Some(low)) => if high == 0 && low == 0 {
                    None
                } else {
                    read_before((16 * high + low) as u8, ansi_c_read(text.skip(4)))
                },
                _ => None,
            }
        }
    } else {
        match escape_read(text[1]) {
            Some(b) => read_before(b, ansi_c_read(text.skip(2))),
            None => None,
        }
    }
}

/// What Bash reads in one word: one of inert bytes, `''`, or an ANSI-C string.
pub open spec fn bash_word(word: Seq<u8>) -> Option<Seq<u8>> {
    if word.len() > 0 && all_inert(word) {
        Some(word)
    } else if word == seq![39u8, 39u8] {
        Some(Seq::empty())
    } else if word.len() >= 3 && word[0] == 36 && word[1] == 39 && word.last() == 39 {
        ansi_c_read(word.subrange(2, word.len() - 1))
    } else {
        None
    }
}

proof fn lemma_escaped_read_back(bytes: Seq<u8>)
    requires
        !bytes.contains(0u8),
    ensures
        ansi_c_read(all_escaped(bytes)) == Some(bytes),
    decreases bytes.len(),
{
    if bytes.len() > 0 {
        let b = bytes[0];
        let rest = bytes.drop_first();
        let text = all_escaped(bytes);
        assert(!rest.contains(0u8)) by {
            assert forall|i: int| 0 <= i < rest.len() implies rest[i] != 0 by {
                assert(rest[i] == bytes[i + 1]);
            }
        }
        lemma_escaped_read_back(rest);
        assert(b != 0);
        assert(text.skip(escaped(b).len() as int) =~= all_escaped(rest));
        assert(seq![b] + rest =~= bytes);
        assert(text[0] == escaped(b)[0]);
        if escape_letter(b) is Some {
            assert(text[1] == escaped(b)[1]);
        } else if !(32 <= b <= 126) {
            let high = b as int / 16;
            let low = b as int % 16;
            assert(text[1] == 120);
            assert(text[2] == hex_digit(high));
            assert(text[3] == hex_digit(low));
            assert(hex_value(text[2]) == Some(high));
            assert(hex_value(text[3]) == Some(low));
            assert(16 * high + low == b);
        }
    } else {
        assert(bytes =~= Seq::empty());
    }
}

/// Bash reads quoted bytes as one word that holds those bytes. A zero byte, which
/// no path holds, is the exception: Bash cannot hold it either.
pub proof fn lemma_quoted_is_read_back(bytes: Seq<u8>)
    requires
        !bytes.contains(0u8),
    ensures
        bash_word(bash_quoted(bytes)) == Some(bytes),
{
    let word = bash_quoted(bytes);
    if bytes.len() == 0 {
        assert(bytes =~= Seq::empty());
        assert(!is_inert(word[0]));
    } else if !all_inert(bytes) {
        assert(!is_inert(word[0]));
        assert(word.subrange(2, word.len() - 1) =~= all_escaped(bytes));
        lemma_escaped_read_back(bytes);
        let i = choose|i: int| 0 <= i < bytes.len() && !is_inert(#[trigger] bytes[i]);
        assert(word[0] == 36);
    }
}

/// Quotes a path so that it can be pasted into a terminal: as one word, without
/// control characters, and unchanged if nothing in it needs quotes.
pub fn shell_escape_bytes(s: &[u8]) -> (r: Vec<u8>)
    ensures
        r@ == bash_quoted(s@),
        r@.len() > 0,
        printable(r@),
        s@.len() > 0 && all_inert(s@) ==> r@ == s@,
        !s@.contains(0u8) ==> bash_word(r@) == Some(s@),
{
    proof {
        lemma_quoted_is_printable(s@);
        if !s@.contains(0u8) {
            lemma_quoted_is_read_back(s@);
        }
    }
    quote_for_bash(s)
}

/// The words with a space between each two.
pub open spec fn joined_words(words: Seq<Seq<u8>>) -> Seq<u8>
    decreases words.len(),
{
    if words.len() == 0 {
        Seq::empty()
    } else if words.len() == 1 {
        words[0]
    } else {
        joined_words(words.drop_last()).push(32) + words.last()
    }
}

/// The contents of a list of byte strings.
pub open spec fn contents(words: Seq<Vec<u8>>) -> Seq<Seq<u8>> {
    Seq::new(words.len(), |i: int| words[i]@)
}

/// The paths as quoted words.
pub open spec fn quoted_words(paths: Seq<Vec<u8>>) -> Seq<Seq<u8>> {
    Seq::new(paths.len(), |i: int| bash_quoted(paths[i]@))
}

/// The length of what stands before the quote that ends an ANSI-C string.
pub open spec fn ansi_c_length(text: Seq<u8>) -> nat
    decreases text.len(),
{
    if text.len() == 0 || text[0] == 39 {
        0
    } else if text[0] != 92 {
        1 + ansi_c_length(text.skip(1))
    } else if text.len() < 2 {
        1
    } else {
        2 + ansi_c_length(text.skip(2))
    }
}

/// The number of inert bytes that a text starts with.
pub open spec fn inert_length(text: Seq<u8>) -> nat
    decreases text.len(),
{
    if text.len() == 0 || !is_inert(text[0]) {
        0
    } else {
        1 + inert_length(text.skip(1))
    }
}

/// The length of the word that a text starts with.
pub open spec fn word_length(text: Seq<u8>) -> nat {
    if text.len() >= 2 && text[0] == 36 && text[1] == 39 {
        3 + ansi_c_length(text.skip(2))
    } else if text.len() >= 2 && text[0] == 39 && text[1] == 39 {
        2
    } else {
        inert_length(text)
    }
}

/// The words that Bash reads in a text with a space between each two.
pub open spec fn bash_words(text: Seq<u8>) -> Option<Seq<Seq<u8>>>
    decreases text.len(),
{
    let length = word_length(text) as int;
    if length >= text.len() {
        match bash_word(text) {
            Some(word) => Some(seq![word]),
            None => None,
        }
    } else if text[length] != 32 {
        None
    } else {
        match (bash_word(text.take(length)), bash_words(text.skip(length + 1))) {
            (Some(word), Some(words)) => Some(seq![word] + words),
            _ => None,
        }
    }
}

proof fn lemma_escaped_length(bytes: Seq<u8>, rest: Seq<u8>)
    requires
        rest.len() > 0,
        rest[0] == 39,
    ensures
        ansi_c_length(all_escaped(bytes) + rest) == all_escaped(bytes).len(),
    decreases bytes.len(),
{
    let text = all_escaped(bytes) + rest;
    if bytes.len() > 0 {
        let b = bytes[0];
        let tail = all_escaped(bytes.drop_first()) + rest;
        lemma_escaped_length(bytes.drop_first(), rest);
        assert(text =~= escaped(b) + tail);
        assert(text[0] == escaped(b)[0]);
        if escape_letter(b) is Some {
            assert(text.skip(2) =~= tail);
        } else if 32 <= b <= 126 {
            assert(text.skip(1) =~= tail);
        } else {
            let high = text.skip(2);
            assert(high[0] == hex_digit(b as int / 16));
            let low = high.skip(1);
            assert(low[0] == hex_digit(b as int % 16));
            assert(low.skip(1) =~= tail);
            assert(ansi_c_length(low) == 1 + ansi_c_length(tail));
            assert(ansi_c_length(high) == 1 + ansi_c_length(low));
        }
    } else {
        assert(text =~= rest);
    }
}

proof fn lemma_inert_length(bytes: Seq<u8>, rest: Seq<u8>)
    requires
        all_inert(bytes),
        rest.len() > 0 ==> rest[0] == 32,
    ensures
        inert_length(bytes + rest) == bytes.len(),
    decreases bytes.len(),
{
    let text = bytes + rest;
    if bytes.len() > 0 {
        assert(text[0] == bytes[0]);
        assert(text.skip(1) =~= bytes.drop_first() + rest);
        assert(all_inert(bytes.drop_first())) by {
            assert forall|i: int| 0 <= i < bytes.drop_first().len() implies is_inert(
                #[trigger] bytes.drop_first()[i],
            ) by {
                assert(bytes.drop_first()[i] == bytes[i + 1]);
            }
        }
        lemma_inert_length(bytes.drop_first(), rest);
    } else {
        assert(text =~= rest);
    }
}

/// A quoted word ends where it ends.
proof fn lemma_quoted_length(bytes: Seq<u8>, rest: Seq<u8>)
    requires
        rest.len() > 0 ==> rest[0] == 32,
    ensures
        word_length(bash_quoted(bytes) + rest) == bash_quoted(bytes).len(),
{
    let text = bash_quoted(bytes) + rest;
    if bytes.len() == 0 {
        assert(text[0] == 39 && text[1] == 39);
    } else if all_inert(bytes) {
        assert(is_inert(bytes[0]));
        assert(text[0] == bytes[0]);
        lemma_inert_length(bytes, rest);
    } else {
        assert(text[0] == 36 && text[1] == 39);
        assert(text.skip(2) =~= all_escaped(bytes) + (seq![39u8] + rest));
        lemma_escaped_length(bytes, seq![39u8] + rest);
    }
}

proof fn lemma_joined_from_front(words: Seq<Seq<u8>>)
    requires
        words.len() >= 2,
    ensures
        joined_words(words) == words[0].push(32) + joined_words(words.drop_first()),
    decreases words.len(),
{
    let front = words.drop_last();
    let tail = words.drop_first();
    if words.len() == 2 {
        assert(joined_words(front) == words[0]);
        assert(tail[0] == words[1]);
    } else {
        lemma_joined_from_front(front);
        assert(front[0] == words[0]);
        assert(front.drop_first() =~= tail.drop_last());
        assert(tail.last() == words.last());
        assert(joined_words(words) =~= words[0].push(32) + (joined_words(tail.drop_last()).push(
            32,
        ) + words.last()));
    }
}

/// Bash reads the words made of paths as those paths, in their order.
pub proof fn lemma_joined_paths_are_read_back(paths: Seq<Vec<u8>>)
    requires
        paths.len() > 0,
        forall|i: int| 0 <= i < paths.len() ==> !(#[trigger] paths[i])@.contains(0u8),
    ensures
        bash_words(joined_words(quoted_words(paths))) == Some(contents(paths)),
    decreases paths.len(),
{
    let words = quoted_words(paths);
    let text = joined_words(words);
    let first = paths[0]@;
    assert(words[0] == bash_quoted(first));
    lemma_quoted_is_read_back(first);
    if paths.len() == 1 {
        lemma_quoted_length(first, Seq::empty());
        assert(text =~= bash_quoted(first) + Seq::<u8>::empty());
        assert(text =~= bash_quoted(first));
        assert(contents(paths) =~= seq![first]);
    } else {
        let tail = paths.drop_first();
        assert forall|i: int| 0 <= i < tail.len() implies !(#[trigger] tail[i])@.contains(0u8) by {
            assert(tail[i] == paths[i + 1]);
        }
        lemma_joined_paths_are_read_back(tail);
        lemma_joined_from_front(words);
        assert(words.drop_first() =~= quoted_words(tail));
        let rest = seq![32u8] + joined_words(quoted_words(tail));
        assert(text =~= bash_quoted(first) + rest);
        lemma_quoted_length(first, rest);
        let length = word_length(text) as int;
        assert(text[length] == 32);
        assert(text.take(length) =~= bash_quoted(first));
        assert(text.skip(length + 1) =~= joined_words(quoted_words(tail)));
        assert(contents(paths) =~= seq![first] + contents(tail));
    }
}

/// Joins words with a space between each two. Nothing is made of no words.
pub fn join_words(words: &Vec<Vec<u8>>) -> (r: Option<Vec<u8>>)
    requires
        forall|i: int| 0 <= i < words@.len() ==> (#[trigger] words@[i])@.len() > 0,
        forall|i: int| 0 <= i < words@.len() ==> printable((#[trigger] words@[i])@),
    ensures
        r is Some == (words@.len() > 0),
        r matches Some(text) ==> text@ == joined_words(contents(words@)) && printable(text@),
{
    let ghost all = contents(words@);
    let mut text: Vec<u8> = Vec::new();
    let mut i: usize = 0;
    while i < words.len()
        invariant
            i <= words@.len(),
            all == contents(words@),
            forall|i: int| 0 <= i < words@.len() ==> (#[trigger] words@[i])@.len() > 0,
            forall|i: int| 0 <= i < words@.len() ==> printable((#[trigger] words@[i])@),
            text@ == joined_words(all.take(i as int)),
            printable(text@),
            i > 0 <==> text@.len() > 0,
        decreases words@.len() - i,
    {
        if text.len() > 0 {
            text.push(32);
        }
        let ghost before = text@;
        text.extend_from_slice(words[i].as_slice());
        proof {
            assert(text@ =~= before + words@[i as int]@);
            assert(all.take(i + 1).drop_last() =~= all.take(i as int));
            assert(words@[i as int]@.len() > 0);
            assert(printable(words@[i as int]@));
            if i == 0 {
                assert(text@ =~= all[0]);
            }
        }
        i += 1;
    }
    assert(all.take(i as int) =~= all);
    if text.len() == 0 {
        return None;
    }
    Some(text)
}

/// The paths as words of a command, for a paste into a terminal: printable ASCII
/// alone, whatever the paths hold, that Bash reads as these paths. Without paths
/// there is nothing to paste.
pub fn shell_escape_joined_bytes(paths: &Vec<Vec<u8>>) -> (r: Option<Vec<u8>>)
    ensures
        r is Some == (paths@.len() > 0),
        r matches Some(text) ==> text@ == joined_words(quoted_words(paths@)) && printable(text@),
        r matches Some(text) ==> (forall|i: int|
            0 <= i < paths@.len() ==> !(#[trigger] paths@[i])@.contains(0u8)) ==> bash_words(text@)
            == Some(contents(paths@)),
{
    let mut words: Vec<Vec<u8>> = Vec::new();
    let mut i: usize = 0;
    while i < paths.len()
        invariant
            i <= paths@.len(),
            words@.len() == i,
            forall|j: int| 0 <= j < i ==> (#[trigger] words@[j])@ == bash_quoted(paths@[j]@),
            forall|j: int| 0 <= j < i ==> (#[trigger] words@[j])@.len() > 0,
            forall|j: int| 0 <= j < i ==> printable((#[trigger] words@[j])@),
        decreases paths@.len() - i,
    {
        words.push(shell_escape_bytes(paths[i].as_slice()));
        i += 1;
    }
    assert(contents(words@) =~= quoted_words(paths@));
    proof {
        if paths@.len() > 0 && (forall|i: int|
            0 <= i < paths@.len() ==> !(#[trigger] paths@[i])@.contains(0u8)) {
            lemma_joined_paths_are_read_back(paths@);
        }
    }
    join_words(&words)
}

} // verus!
