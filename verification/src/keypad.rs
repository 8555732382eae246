//! The sixteen-key pad as the host samples it once per cycle.

use vstd::prelude::*;

verus! {

/// The key that stands at position `pos` of the pad, read row by row:
/// `1 2 3 C / 4 5 6 D / 7 8 9 E / A 0 B F`. A position past the pad
/// gives the last key.
pub open spec fn spec_scan_key(pos: int) -> u8 {
    if pos == 0 {
        0x1
    } else if pos == 1 {
        0x2
    } else if pos == 2 {
        0x3
    } else if pos == 3 {
        0xC
    } else if pos == 4 {
        0x4
    } else if pos == 5 {
        0x5
    } else if pos == 6 {
        0x6
    } else if pos == 7 {
        0xD
    } else if pos == 8 {
        0x7
    } else if pos == 9 {
        0x8
    } else if pos == 10 {
        0x9
    } else if pos == 11 {
        0xE
    } else if pos == 12 {
        0xA
    } else if pos == 13 {
        0x0
    } else if pos == 14 {
        0xB
    } else {
        0xF
    }
}

/// Whether key `key` is down in the snapshot `keys`. A value that names no key
/// is never down.
pub open spec fn key_down(keys: Seq<bool>, key: u8) -> bool {
    key < 16 && keys[key as int]
}

/// The first key that is down at or after position `pos` of the pad.
pub open spec fn first_pressed_from(keys: Seq<bool>, pos: int) -> Option<u8>
    decreases 16 - pos,
{
    if pos < 0 || pos >= 16 {
        None
    } else if keys[spec_scan_key(pos) as int] {
        Some(spec_scan_key(pos))
    } else {
        first_pressed_from(keys, pos + 1)
    }
}

/// The key that a key-wait captures: the first one that is down, reading the
/// pad row by row.
pub open spec fn spec_first_pressed(keys: Seq<bool>) -> Option<u8> {
    first_pressed_from(keys, 0)
}

/// A key-wait finds nothing exactly when no key is down, and what it finds
/// is a key that is down.
pub proof fn lemma_first_pressed(keys: Seq<bool>)
    requires
        keys.len() == 16,
    ensures
        spec_first_pressed(keys) is None <==> (forall|k: int| 0 <= k < 16 ==> !keys[k]),
        spec_first_pressed(keys) matches Some(k) ==> k < 16 && keys[k as int],
{
    reveal_with_fuel(first_pressed_from, 17);
    if spec_first_pressed(keys) is None {
        assert forall|k: int| 0 <= k < 16 implies !keys[k] by {
            assert(!keys[spec_scan_key(0) as int]);
            assert(!keys[spec_scan_key(1) as int]);
            assert(!keys[spec_scan_key(2) as int]);
            assert(!keys[spec_scan_key(3) as int]);
            assert(!keys[spec_scan_key(4) as int]);
            assert(!keys[spec_scan_key(5) as int]);
            assert(!keys[spec_scan_key(6) as int]);
            assert(!keys[spec_scan_key(7) as int]);
            assert(!keys[spec_scan_key(8) as int]);
            assert(!keys[spec_scan_key(9) as int]);
            assert(!keys[spec_scan_key(10) as int]);
            assert(!keys[spec_scan_key(11) as int]);
            assert(!keys[spec_scan_key(12) as int]);
            assert(!keys[spec_scan_key(13) as int]);
            assert(!keys[spec_scan_key(14) as int]);
            assert(!keys[spec_scan_key(15) as int]);
        }
    }
}

/// A snapshot of the pad: which of the keys `0x0..=0xF` are down.
#[derive(Clone, Copy, Debug)]
pub struct Keypad {
    down: [bool; 16],
}

impl View for Keypad {
    type V = Seq<bool>;

    closed spec fn view(&self) -> Seq<bool> {
        self.down@
    }
}

/// The key at position `pos` of the pad, read row by row; the last key
/// for a position past the pad.
pub fn scan_key(pos: usize) -> (key: u8)
    ensures
        key == spec_scan_key(pos as int),
        key < 16,
{
    match pos {
        0 => 0x1,
        1 => 0x2,
        2 => 0x3,
        3 => 0xC,
        4 => 0x4,
        5 => 0x5,
        6 => 0x6,
        7 => 0xD,
        8 => 0x7,
        9 => 0x8,
        10 => 0x9,
        11 => 0xE,
        12 => 0xA,
        13 => 0x0,
        14 => 0xB,
        _ => 0xF,
    }
}

impl Keypad {
    /// A snapshot tells of exactly sixteen keys.
    pub proof fn lemma_view_len(&self)
        ensures
            self@.len() == 16,
    {
    }

    /// A pad with no key down.
    pub fn new() -> (pad: Keypad)
        ensures
            pad@ == Seq::new(16, |k: int| false),
    {
        let pad = Keypad { down: [false; 16] };
        assert(pad@ =~= Seq::new(16, |k: int| false));
        pad
    }

    /// Marks `key` as down. A value that names no key changes nothing.
    pub fn press(&mut self, key: u8)
        ensures
            final(self)@ == if key < 16 {
                old(self)@.update(key as int, true)
            } else {
                old(self)@
            },
    {
        if key < 16 {
            self.down[key as usize] = true;
        }
    }

    /// Marks `key` as up. A value that names no key changes nothing.
    pub fn release(&mut self, key: u8)
        ensures
            final(self)@ == if key < 16 {
                old(self)@.update(key as int, false)
            } else {
                old(self)@
            },
    {
        if key < 16 {
            self.down[key as usize] = false;
        }
    }

    /// Whether `key` is down.
    pub fn is_pressed(&self, key: u8) -> (down: bool)
        ensures
            down == key_down(self@, key),
    {
        key < 16 && self.down[key as usize]
    }

    /// The key that a key-wait captures from this snapshot, if any.
    pub fn first_pressed(&self) -> (key: Option<u8>)
        ensures
            key == spec_first_pressed(self@),
            key is None <==> (forall|k: int| 0 <= k < 16 ==> !self@[k]),
            key matches Some(k) ==> k < 16 && self@[k as int],
    {
        proof {
            lemma_first_pressed(self@);
        }
        let mut pos: usize = 0;
        while pos < 16
            invariant
                pos <= 16,
                spec_first_pressed(self@) == first_pressed_from(self@, pos as int),
            decreases 16 - pos,
        {
            let key = scan_key(pos);
            if self.down[key as usize] {
                return Some(key);
            }
            pos += 1;
        }
        None
    }
}

} // verus!
