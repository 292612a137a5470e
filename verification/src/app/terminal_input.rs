//! What is sent to a terminal: keys, pastes and its size.

use vstd::prelude::*;
use vstd::string::*;
use crate::draw::minus;
use crate::keys::{KeyCode, KeyEvent};
use crate::text::charsOf;

verus! {

// ---- bytes of characters ----

/// The bytes of a character in UTF-8.
pub open spec fn utf8(c: char) -> Seq<u8> {
    let n = c as int;
    if n < 0x80 {
        seq![n as u8]
    } else if n < 0x800 {
        seq![(0xC0 + n / 64) as u8, (0x80 + n % 64) as u8]
    } else if n < 0x10000 {
        seq![(0xE0 + n / 4096) as u8, (0x80 + n / 64 % 64) as u8, (0x80 + n % 64) as u8]
    } else {
        seq![
            (0xF0 + n / 262144) as u8,
            (0x80 + n / 4096 % 64) as u8,
            (0x80 + n / 64 % 64) as u8,
            (0x80 + n % 64) as u8,
        ]
    }
}

/// The bytes of a text in UTF-8.
pub open spec fn utf8_text(s: Seq<char>) -> Seq<u8>
    decreases s.len(),
{
    if s.len() == 0 {
        Seq::empty()
    } else {
        utf8_text(s.drop_last()) + utf8(s.last())
    }
}

fn addChar(out: &mut Vec<u8>, c: char)
    ensures
        final(out)@ == old(out)@ + utf8(c),
{
    let n: u32 = c as u32;
    if n < 0x80 {
        out.push(n as u8);
    } else if n < 0x800 {
        out.push((0xC0 + n / 64) as u8);
        out.push((0x80 + n % 64) as u8);
    } else if n < 0x10000 {
        out.push((0xE0 + n / 4096) as u8);
        out.push((0x80 + n / 64 % 64) as u8);
        out.push((0x80 + n % 64) as u8);
    } else {
        out.push((0xF0 + n / 262144) as u8);
        out.push((0x80 + n / 4096 % 64) as u8);
        out.push((0x80 + n / 64 % 64) as u8);
        out.push((0x80 + n % 64) as u8);
    }
    proof {
        assert(out@ =~= old(out)@ + utf8(c));
    }
}

fn addText(out: &mut Vec<u8>, s: &str)
    ensures
        final(out)@ == old(out)@ + utf8_text(s@),
{
    let v = charsOf(s);
    let mut i: usize = 0;
    proof {
        assert(out@ =~= old(out)@ + utf8_text(s@.take(0)));
    }
    while i < v.len()
        invariant
            i <= v@.len(),
            v@ == s@,
            out@ == old(out)@ + utf8_text(s@.take(i as int)),
        decreases v@.len() - i,
    {
        addChar(out, v[i]);
        proof {
            assert(s@.take(i + 1).drop_last() =~= s@.take(i as int));
            assert(out@ =~= old(out)@ + utf8_text(s@.take(i + 1)));
        }
        i = i + 1;
    }
    proof {
        assert(s@.take(s@.len() as int) =~= s@);
    }
}

// ---- keys ----

/// The byte that Ctrl makes of a character: 1 for `a`, 2 for `b` and so on.
pub open spec fn control_byte(c: char) -> u8 {
    ((c as int % 256 + 160) % 256) as u8
}

/// The bytes that a key sends, none for a key that sends nothing.
pub open spec fn key_bytes(key: KeyEvent) -> Option<Seq<u8>> {
    match key.code {
        KeyCode::Char(c) => if key.modifiers.control {
            Some(seq![control_byte(c)])
        } else {
            Some(utf8(c))
        },
        KeyCode::Enter => Some(seq![0x0Du8]),
        KeyCode::Backspace => Some(seq![0x7Fu8]),
        KeyCode::Tab => Some(seq![0x09u8]),
        KeyCode::Esc => Some(seq![0x1Bu8]),
        KeyCode::Up => Some(seq![0x1Bu8, 0x5B, 0x41]),
        KeyCode::Down => Some(seq![0x1Bu8, 0x5B, 0x42]),
        KeyCode::Right => Some(seq![0x1Bu8, 0x5B, 0x43]),
        KeyCode::Left => Some(seq![0x1Bu8, 0x5B, 0x44]),
        KeyCode::Home => Some(seq![0x1Bu8, 0x5B, 0x48]),
        KeyCode::End => Some(seq![0x1Bu8, 0x5B, 0x46]),
        KeyCode::Delete => Some(seq![0x1Bu8, 0x5B, 0x33, 0x7E]),
        _ => None,
    }
}

fn bytes1(a: u8) -> (r: Vec<u8>)
    ensures
        r@ == seq![a],
{
    let mut v: Vec<u8> = Vec::new();
    v.push(a);
    proof {
        assert(v@ =~= seq![a]);
    }
    v
}

fn escape(a: u8) -> (r: Vec<u8>)
    ensures
        r@ == seq![0x1Bu8, 0x5B, a],
{
    let mut v: Vec<u8> = Vec::new();
    v.push(0x1B);
    v.push(0x5B);
    v.push(a);
    proof {
        assert(v@ =~= seq![0x1Bu8, 0x5B, a]);
    }
    v
}

/// The bytes that a key sends to a terminal.
pub fn keyToBytes(key: KeyEvent) -> (r: Option<Vec<u8>>)
    ensures
        match r {
            Some(b) => key_bytes(key) == Some(b@),
            None => key_bytes(key) is None,
        },
{
    match key.code {
        KeyCode::Char(c) => {
            if key.modifiers.control {
                let n: u32 = c as u32;
                Some(bytes1(((n % 256 + 160) % 256) as u8))
            } else {
                let mut v: Vec<u8> = Vec::new();
                addChar(&mut v, c);
                proof {
                    assert(v@ =~= utf8(c));
                }
                Some(v)
            }
        },
        KeyCode::Enter => Some(bytes1(0x0D)),
        KeyCode::Backspace => Some(bytes1(0x7F)),
        KeyCode::Tab => Some(bytes1(0x09)),
        KeyCode::Esc => Some(bytes1(0x1B)),
        KeyCode::Up => Some(escape(0x41)),
        KeyCode::Down => Some(escape(0x42)),
        KeyCode::Right => Some(escape(0x43)),
        KeyCode::Left => Some(escape(0x44)),
        KeyCode::Home => Some(escape(0x48)),
        KeyCode::End => Some(escape(0x46)),
        KeyCode::Delete => {
            let mut v = escape(0x33);
            v.push(0x7E);
            proof {
                assert(v@ =~= seq![0x1Bu8, 0x5B, 0x33, 0x7E]);
            }
            Some(v)
        },
        _ => None,
    }
}

// ---- pastes ----

/// A pasted text with its line ends as line feeds: both a carriage return and the
/// pair of it and a line feed become one.
pub open spec fn normalized(s: Seq<char>) -> Seq<char>
    decreases s.len(),
{
    if s.len() == 0 {
        Seq::empty()
    } else if s[0] == '\r' {
        if s.len() > 1 && s[1] == '\n' {
            seq!['\n'] + normalized(s.skip(2))
        } else {
            seq!['\n'] + normalized(s.skip(1))
        }
    } else {
        seq![s[0]] + normalized(s.skip(1))
    }
}

/// A pasted text with its line ends as line feeds.
pub fn normalizePaste(text: &str) -> (r: String)
    ensures
        r@ == normalized(text@),
{
    let v = charsOf(text);
    let mut out = String::new();
    let mut i: usize = 0;
    proof {
        assert(text@.skip(0) =~= text@);
        assert(out@ + normalized(text@) =~= normalized(text@));
    }
    while i < v.len()
        invariant
            i <= v@.len(),
            v@ == text@,
            out@ + normalized(text@.skip(i as int)) == normalized(text@),
        decreases v@.len() - i,
    {
        let ghost rest = text@.skip(i as int);
        let ghost before = out@;
        proof {
            assert(rest[0] == v@[i as int]);
            assert(rest.skip(1) =~= text@.skip(i + 1));
        }
        if v[i] == '\r' {
            out.push('\n');
            if v.len() - i > 1 && v[i + 1] == '\n' {
                proof {
                    assert(rest[1] == v@[i + 1]);
                    assert(rest.skip(2) =~= text@.skip(i + 2));
                    assert(before + (seq!['\n'] + normalized(rest.skip(2))) =~= out@ + normalized(
                        rest.skip(2),
                    ));
                }
                i = i + 2;
            } else {
                proof {
                    if rest.len() > 1 {
                        assert(rest[1] == v@[i + 1]);
                    }
                    assert(before + (seq!['\n'] + normalized(rest.skip(1))) =~= out@ + normalized(
                        rest.skip(1),
                    ));
                }
                i = i + 1;
            }
        } else {
            out.push(v[i]);
            proof {
                assert(before + (seq![rest[0]] + normalized(rest.skip(1))) =~= out@ + normalized(
                    rest.skip(1),
                ));
            }
            i = i + 1;
        }
    }
    proof {
        assert(text@.skip(i as int).len() == 0);
        assert(out@ + normalized(text@.skip(i as int)) =~= out@);
    }
    out
}

/// The bytes of a paste; a terminal that asks for it gets them in brackets.
pub open spec fn paste_bytes(text: Seq<char>, bracketed: bool) -> Seq<u8> {
    let b = utf8_text(normalized(text));
    if bracketed {
        seq![0x1Bu8, 0x5B, 0x32, 0x30, 0x30, 0x7E] + b + seq![
            0x1Bu8,
            0x5B,
            0x32,
            0x30,
            0x31,
            0x7E,
        ]
    } else {
        b
    }
}

fn addMark(out: &mut Vec<u8>, digit: u8)
    ensures
        final(out)@ == old(out)@ + seq![0x1Bu8, 0x5B, 0x32, 0x30, digit, 0x7E],
{
    out.push(0x1B);
    out.push(0x5B);
    out.push(0x32);
    out.push(0x30);
    out.push(digit);
    out.push(0x7E);
    proof {
        assert(out@ =~= old(out)@ + seq![0x1Bu8, 0x5B, 0x32, 0x30, digit, 0x7E]);
    }
}

/// The bytes of a paste.
pub fn pasteBytes(text: &str, bracketed: bool) -> (r: Vec<u8>)
    ensures
        r@ == paste_bytes(text@, bracketed),
{
    let clean = normalizePaste(text);
    let mut out: Vec<u8> = Vec::new();
    if bracketed {
        addMark(&mut out, 0x30);
    }
    addText(&mut out, clean.as_str());
    if bracketed {
        addMark(&mut out, 0x31);
    }
    proof {
        assert(out@ =~= paste_bytes(text@, bracketed));
    }
    out
}

/// The bytes of a command that is run in a terminal.
pub fn commandBytes(command: &str) -> (r: Vec<u8>)
    ensures
        r@ == utf8_text(command@).push(0x0Au8),
{
    let mut out: Vec<u8> = Vec::new();
    addText(&mut out, command);
    out.push(0x0A);
    proof {
        assert(out@ =~= utf8_text(command@).push(0x0Au8));
    }
    out
}

// ---- sizes ----

/// The size of a terminal in a window: three fifths of its columns without the
/// borders, and its rows without `reserved` of them.
pub open spec fn terminal_size(cols: u16, rows: u16, reserved: int) -> (int, int) {
    (minus(cols * 3 / 5, 2), minus(rows as int, reserved))
}

/// The size of a terminal when the deck starts.
pub fn startSize(cols: u16, rows: u16) -> (r: (u16, u16))
    ensures
        (r.0 as int, r.1 as int) == terminal_size(cols, rows, 3),
{
    let w: u32 = cols as u32 * 3 / 5;
    ((w as u16).saturating_sub(2), rows.saturating_sub(3))
}

/// The size of a terminal after the window was resized. One row more is kept for
/// the tabs.
pub fn resizedTo(cols: u16, rows: u16) -> (r: (u16, u16))
    ensures
        (r.0 as int, r.1 as int) == terminal_size(cols, rows, 4),
{
    let w: u32 = cols as u32 * 3 / 5;
    ((w as u16).saturating_sub(2), rows.saturating_sub(4))
}

// ---- laws ----

/// A normalized paste holds no carriage return, and one that holds none stays as
/// it is.
pub proof fn law_pastes_hold_no_carriage_return(s: Seq<char>)
    ensures
        forall|i: int| 0 <= i < normalized(s).len() ==> #[trigger] normalized(s)[i] != '\r',
        (forall|i: int| 0 <= i < s.len() ==> #[trigger] s[i] != '\r') ==> normalized(s) == s,
    decreases s.len(),
{
    if s.len() > 0 {
        if s[0] == '\r' && s.len() > 1 && s[1] == '\n' {
            law_pastes_hold_no_carriage_return(s.skip(2));
            let t = normalized(s.skip(2));
            assert forall|i: int| 0 <= i < normalized(s).len() implies #[trigger] normalized(s)[i]
                != '\r' by {
                if i > 0 {
                    assert(normalized(s)[i] == t[i - 1]);
                }
            }
        } else {
            law_pastes_hold_no_carriage_return(s.skip(1));
            let t = normalized(s.skip(1));
            assert forall|i: int| 0 <= i < normalized(s).len() implies #[trigger] normalized(s)[i]
                != '\r' by {
                if i > 0 {
                    assert(normalized(s)[i] == t[i - 1]);
                }
            }
            if forall|i: int| 0 <= i < s.len() ==> #[trigger] s[i] != '\r' {
                assert forall|i: int| 0 <= i < s.skip(1).len() implies #[trigger] s.skip(1)[i]
                    != '\r' by {
                    assert(s.skip(1)[i] == s[i + 1]);
                }
                assert(normalized(s) =~= s);
            }
        }
    }
}

/// The character whose bytes begin `b`, as the encoding is read: the first byte says how
/// many follow, and each of those carries six bits.
pub open spec fn read_char(b: Seq<u8>) -> int {
    if b[0] < 0x80 {
        b[0] as int
    } else if b[0] < 0xE0 {
        (b[0] - 0xC0) * 64 + (b[1] - 0x80)
    } else if b[0] < 0xF0 {
        (b[0] - 0xE0) * 4096 + (b[1] - 0x80) * 64 + (b[2] - 0x80)
    } else {
        (b[0] - 0xF0) * 262144 + (b[1] - 0x80) * 4096 + (b[2] - 0x80) * 64 + (b[3] - 0x80)
    }
}

/// A character that is sent is read back, whatever follows it.
pub proof fn law_characters_are_read_back(c: char, rest: Seq<u8>)
    ensures
        read_char(utf8(c) + rest) == c as int,
        1 <= utf8(c).len() <= 4,
{
}

/// A text is sent character by character, in order.
pub proof fn law_texts_are_sent_in_order(s: Seq<char>, t: Seq<char>, c: char)
    ensures
        utf8_text(Seq::empty()).len() == 0,
        utf8_text(s + t) == utf8_text(s) + utf8_text(t),
        utf8_text(seq![c]) == utf8(c),
    decreases t.len(),
{
    reveal_with_fuel(utf8_text, 2);
    assert(seq![c].drop_last() =~= Seq::<char>::empty());
    assert(utf8_text(seq![c]) =~= utf8(c));
    if t.len() > 0 {
        assert((s + t).drop_last() =~= s + t.drop_last());
        law_texts_are_sent_in_order(s, t.drop_last(), c);
        assert(utf8_text(s + t) =~= utf8_text(s) + utf8_text(t));
    } else {
        assert(s + t =~= s);
        assert(utf8_text(s) + utf8_text(t) =~= utf8_text(s));
    }
}

/// Control with a letter sends the letter's place in the alphabet; without it a character
/// is sent as it is. The arrows and their neighbours send an escape sequence of their own
/// each, and keys that a terminal does not know send nothing.
pub proof fn law_keys_send_their_bytes(key: KeyEvent, c: char)
    ensures
        key.code == KeyCode::Char(c) && !key.modifiers.control ==> key_bytes(key) == Some(utf8(c)),
        key.code == KeyCode::Char(c) && key.modifiers.control && 'a' <= c <= 'z' ==> key_bytes(key)
            is Some && (key_bytes(key)->0).len() == 1 && (key_bytes(key)->0)[0] as int == c as int
            - 'a' as int + 1,
        key.code == KeyCode::Enter ==> key_bytes(key) == Some(seq![13u8]),
        key.code == KeyCode::Tab ==> key_bytes(key) == Some(seq![9u8]),
        key.code == KeyCode::Esc ==> key_bytes(key) == Some(seq![27u8]),
        key.code == KeyCode::Backspace ==> key_bytes(key) == Some(seq![127u8]),
        ({
            let esc = |b: char| Some(seq![27u8, '[' as u8, b as u8]);
            &&& key.code == KeyCode::Up ==> key_bytes(key) == esc('A')
            &&& key.code == KeyCode::Down ==> key_bytes(key) == esc('B')
            &&& key.code == KeyCode::Right ==> key_bytes(key) == esc('C')
            &&& key.code == KeyCode::Left ==> key_bytes(key) == esc('D')
            &&& key.code == KeyCode::Home ==> key_bytes(key) == esc('H')
            &&& key.code == KeyCode::End ==> key_bytes(key) == esc('F')
        }),
        key.code == KeyCode::PageUp || key.code == KeyCode::PageDown ==> key_bytes(key) is None,
{
}

/// Line ends of a paste become line feeds, and nothing else of it changes: two parts that
/// no line end crosses are normalised apart.
pub proof fn law_pastes_keep_their_text(s: Seq<char>, t: Seq<char>)
    requires
        s.len() == 0 || s.last() != '\r',
    ensures
        normalized(s + t) == normalized(s) + normalized(t),
        normalized(seq!['\r', '\n']) == seq!['\n'],
        normalized(seq!['\r']) == seq!['\n'],
        normalized(seq!['\n']) == seq!['\n'],
    decreases s.len(),
{
    reveal_with_fuel(normalized, 3);
    assert(seq!['\r', '\n'].skip(2) =~= Seq::<char>::empty());
    assert(normalized(seq!['\r', '\n']) =~= seq!['\n']);
    assert(seq!['\r'].skip(1) =~= Seq::<char>::empty());
    assert(normalized(seq!['\r']) =~= seq!['\n']);
    assert(seq!['\n'].skip(1) =~= Seq::<char>::empty());
    assert(normalized(seq!['\n']) =~= seq!['\n']);
    if s.len() > 0 {
        if s[0] == '\r' && s.len() > 1 && s[1] == '\n' {
            assert((s + t).skip(2) =~= s.skip(2) + t);
            law_pastes_keep_their_text(s.skip(2), t);
        } else {
            assert((s + t).skip(1) =~= s.skip(1) + t);
            law_pastes_keep_their_text(s.skip(1), t);
        }
        assert(normalized(s + t) =~= normalized(s) + normalized(t));
    } else {
        assert(s + t =~= t);
        assert(normalized(s) + normalized(t) =~= normalized(t));
    }
}

/// A paste is marked where the terminal wants it, and holds the text between the marks.
pub proof fn law_pastes_are_bracketed(text: Seq<char>)
    ensures
        paste_bytes(text, false) == utf8_text(normalized(text)),
        paste_bytes(text, true).len() == paste_bytes(text, false).len() + 12,
        paste_bytes(text, true).subrange(6, paste_bytes(text, true).len() - 6) == paste_bytes(
            text,
            false,
        ),
        paste_bytes(text, true)[0] == 27 && paste_bytes(text, true)[4] == '0' as u8,
        paste_bytes(text, true)[paste_bytes(text, true).len() - 2] == '1' as u8,
{
    let b = paste_bytes(text, true);
    assert(b.subrange(6, b.len() - 6) =~= paste_bytes(text, false));
}

} // verus!
