//! Typing text into the foreground window: the keyboard events that carry
//! each character's UTF-16 units, and the check of what the system accepted.

use vstd::prelude::*;
use crate::text::{concat, decimal, decimal_spec, to_chars};

verus! {

/// One keyboard event that types a UTF-16 unit (`KEYEVENTF_UNICODE`).
#[derive(PartialEq, Eq, Structural, Clone, Copy, Debug)]
pub struct KeyInput {
    /// The UTF-16 code unit typed.
    pub scan: u16,
    /// Whether this is the key-up event (`KEYEVENTF_KEYUP`).
    pub key_up: bool,
}

/// The UTF-16 code units of a character: the code point itself below
/// U+10000, else the surrogate pair of the 20 bits above U+10000.
pub open spec fn utf16_units(c: char) -> Seq<u16> {
    let cp = c as u32;
    if cp < 0x10000 {
        seq![cp as u16]
    } else {
        let v = cp - 0x10000;
        seq![(0xD800 + v / 0x400) as u16, (0xDC00 + v % 0x400) as u16]
    }
}

/// The UTF-16 code units of a text, character after character.
pub open spec fn text_utf16(text: Seq<char>) -> Seq<u16>
    decreases text.len(),
{
    if text.len() == 0 {
        seq![]
    } else {
        text_utf16(text.drop_last()) + utf16_units(text.last())
    }
}

/// A key-down and a key-up event for each unit, in order.
pub open spec fn key_events(units: Seq<u16>) -> Seq<KeyInput> {
    Seq::new(
        2 * units.len(),
        |i: int| KeyInput { scan: units[i / 2], key_up: i % 2 == 1 },
    )
}

/// The events that type a text: a key-down and a key-up for each of its
/// UTF-16 code units.
pub open spec fn key_inputs_spec(text: Seq<char>) -> Seq<KeyInput> {
    key_events(text_utf16(text))
}

/// A character's units read back as the character: one unit that is not a
/// surrogate, or a high surrogate then a low surrogate that together give
/// the code point.
pub proof fn lemma_utf16_units_decode(c: char)
    ensures
        (c as u32) < 0x10000 ==> utf16_units(c) == seq![(c as u32) as u16] && !(0xD800 <= (
        c as u32) < 0xE000),
        (c as u32) >= 0x10000 ==> ({
            let u = utf16_units(c);
            &&& u.len() == 2
            &&& 0xD800 <= u[0] < 0xDC00
            &&& 0xDC00 <= u[1] < 0xE000
            &&& 0x10000 + (u[0] - 0xD800) * 0x400 + (u[1] - 0xDC00) == c as u32
        }),
{
    let cp = c as u32;
    vstd::utf8::char_is_scalar(c);
    if cp >= 0x10000 {
        let v = cp - 0x10000;
        assert(0 <= v / 0x400 < 0x400 && 0 <= v % 0x400 < 0x400);
        assert(0x400 * (v / 0x400) + v % 0x400 == v);
    }
}

/// Typing is letter by letter: the units of two texts one after the other
/// are the units of the first then those of the second; so are the
/// keyboard events. A text of one character gives that character's units,
/// and there are two events (down, up) for every unit.
pub proof fn lemma_typing_concatenates(a: Seq<char>, b: Seq<char>)
    ensures
        text_utf16(a + b) == text_utf16(a) + text_utf16(b),
        key_inputs_spec(a + b) == key_inputs_spec(a) + key_inputs_spec(b),
        key_inputs_spec(a).len() == 2 * text_utf16(a).len(),
    decreases b.len(),
{
    if b.len() == 0 {
        assert(a + b =~= a);
        assert(text_utf16(a) + text_utf16(b) =~= text_utf16(a));
    } else {
        lemma_typing_concatenates(a, b.drop_last());
        assert((a + b).drop_last() =~= a + b.drop_last());
        assert((a + b).last() == b.last());
        assert(text_utf16(a + b) =~= text_utf16(a) + text_utf16(b));
    }
    lemma_key_events_append(text_utf16(a), text_utf16(b));
}

/// Each character of a text is typed as its own units, one to one: a
/// one-character text gives exactly that character's units, one for a
/// character below U+10000 and two above.
pub proof fn lemma_typing_one_char(c: char)
    ensures
        text_utf16(seq![c]) == utf16_units(c),
        utf16_units(c).len() == (if (c as u32) < 0x10000 { 1int } else { 2int }),
{
    let t = seq![c];
    assert(t.drop_last() =~= Seq::<char>::empty());
    assert(t.last() == c);
    assert(text_utf16(t.drop_last()) =~= Seq::<u16>::empty());
    assert(text_utf16(t) == text_utf16(t.drop_last()) + utf16_units(c));
    assert(Seq::<u16>::empty() + utf16_units(c) =~= utf16_units(c));
}

/// Appends the events of one UTF-16 unit: key-down, then key-up.
fn push_unit(r: &mut Vec<KeyInput>, unit: u16)
    ensures
        final(r)@ == old(r)@ + seq![
            KeyInput { scan: unit, key_up: false },
            KeyInput { scan: unit, key_up: true },
        ],
{
    r.push(KeyInput { scan: unit, key_up: false });
    r.push(KeyInput { scan: unit, key_up: true });
}

proof fn lemma_key_events_append(u: Seq<u16>, w: Seq<u16>)
    ensures
        key_events(u + w) == key_events(u) + key_events(w),
{
    assert forall|k: int| 0 <= k < key_events(u + w).len() implies key_events(u + w)[k] == (
    key_events(u) + key_events(w))[k] by {
        if k >= 2 * u.len() {
            assert((k - 2 * u.len()) / 2 == k / 2 - u.len());
            assert((k - 2 * u.len()) % 2 == k % 2);
        }
    }
    assert(key_events(u + w) =~= key_events(u) + key_events(w));
}

/// The keyboard events that type `text`.
pub fn keyboard_inputs(text: &str) -> (r: Vec<KeyInput>)
    ensures
        r@ == key_inputs_spec(text@),
{
    let cs = to_chars(text);
    let mut r: Vec<KeyInput> = Vec::new();
    let mut i: usize = 0;
    assert(r@ =~= key_events(text_utf16(cs@.take(0))));
    while i < cs.len()
        invariant
            i <= cs@.len(),
            cs@ == text@,
            r@ == key_events(text_utf16(cs@.take(i as int))),
        decreases cs@.len() - i,
    {
        let c = cs[i];
        let cp = c as u32;
        let ghost before = r@;
        proof {
            assert(cs@.take((i + 1) as int).drop_last() =~= cs@.take(i as int));
            assert(cs@.take((i + 1) as int).last() == c);
            vstd::utf8::char_is_scalar(c);
        }
        if cp < 0x10000 {
            push_unit(&mut r, cp as u16);
        } else {
            let v = cp - 0x10000;
            push_unit(&mut r, (0xD800 + v / 0x400) as u16);
            push_unit(&mut r, (0xDC00 + v % 0x400) as u16);
        }
        proof {
            lemma_key_events_append(text_utf16(cs@.take(i as int)), utf16_units(c));
            assert(r@ =~= before + key_events(utf16_units(c)));
        }
        i = i + 1;
    }
    assert(cs@.take(cs@.len() as int) =~= cs@);
    r
}

/// The outcome of `SendInput`: every event accepted, or
/// `SendInput: sent <sent>/<expected> events`. The count is compared as
/// the 32-bit number that the call was given.
pub fn send_input_outcome(sent: u32, expected: usize) -> (r: Result<(), String>)
    ensures
        sent == #[verifier::truncate] (expected as u32) ==> r is Ok,
        sent != #[verifier::truncate] (expected as u32) ==> (r matches Err(e) && e@
            == "SendInput: sent "@ + decimal_spec(sent as nat) + "/"@ + decimal_spec(
            expected as nat,
        ) + " events"@),
{
    if sent != #[verifier::truncate] (expected as u32) {
        let a = concat("SendInput: sent ", decimal(sent as u64).as_str());
        let b = concat(a.as_str(), "/");
        let c = concat(b.as_str(), decimal(expected as u64).as_str());
        Err(concat(c.as_str(), " events"))
    } else {
        Ok(())
    }
}

} // verus!
