//! The 16-symbol hexadecimal keypad.
//!
//! The keypad holds a snapshot of the currently pressed symbols, drawn from
//! `0123456789ABCDEF`. The host replaces the snapshot wholesale on each input
//! poll; the core only reads it.

use vstd::prelude::*;

verus! {

/// Number of symbols on the hexadecimal keypad.
pub const KEY_COUNT: usize = 16;

/// The symbol a keypad character stands for: `0..=15` for the sixteen
/// hexadecimal symbols (letters in either case), and 16 for every other
/// character.
pub open spec fn spec_key_code(c: char) -> int {
    if c == '0' {
        0
    } else if c == '1' {
        1
    } else if c == '2' {
        2
    } else if c == '3' {
        3
    } else if c == '4' {
        4
    } else if c == '5' {
        5
    } else if c == '6' {
        6
    } else if c == '7' {
        7
    } else if c == '8' {
        8
    } else if c == '9' {
        9
    } else if c == 'a' || c == 'A' {
        10
    } else if c == 'b' || c == 'B' {
        11
    } else if c == 'c' || c == 'C' {
        12
    } else if c == 'd' || c == 'D' {
        13
    } else if c == 'e' || c == 'E' {
        14
    } else if c == 'f' || c == 'F' {
        15
    } else {
        16
    }
}

/// True if one of the characters `keys[0..upto]` names the keypad symbol `k`.
pub open spec fn pressed_in(keys: Seq<char>, upto: int, k: int) -> bool {
    exists|j: int| 0 <= j < upto && #[trigger] spec_key_code(keys[j]) == k
}

/// Index of the lowest pressed symbol at or above `k`, or 16 if none is.
pub open spec fn first_key_from(keys: Seq<bool>, k: int) -> int
    decreases 16 - k,
{
    if k < 0 || k >= 16 {
        16
    } else if keys[k] {
        k
    } else {
        first_key_from(keys, k + 1)
    }
}

/// Index of the lowest pressed symbol, or 16 if the keypad is idle.
pub open spec fn first_key(keys: Seq<bool>) -> int {
    first_key_from(keys, 0)
}

/// True if any of the sixteen symbols is pressed.
pub open spec fn any_key(keys: Seq<bool>) -> bool {
    exists|k: int| 0 <= k < 16 && keys[k]
}

/// `first_key_from(keys, i)` walks to the lowest pressed index at or above
/// `i`, and reports 16 exactly when nothing at or above `i` is pressed.
proof fn lemma_first_key_from(keys: Seq<bool>, i: int)
    requires
        keys.len() == 16,
        0 <= i <= 16,
    ensures
        i <= first_key_from(keys, i) <= 16,
        first_key_from(keys, i) == 16 <==> forall|k: int| i <= k < 16 ==> !keys[k],
        first_key_from(keys, i) < 16 ==> i <= first_key_from(keys, i) < 16
            && keys[first_key_from(keys, i)]
            && forall|k: int| i <= k < first_key_from(keys, i) ==> !keys[k],
    decreases 16 - i,
{
    if i < 16 {
        lemma_first_key_from(keys, i + 1);
    }
}

/// Ties `first_key` to `any_key`: the walk finds a pressed symbol exactly
/// when one exists, and then reports the lowest one.
pub proof fn lemma_first_key(keys: Seq<bool>)
    requires
        keys.len() == 16,
    ensures
        first_key(keys) < 16 <==> any_key(keys),
        first_key(keys) < 16 ==> 0 <= first_key(keys) < 16 && keys[first_key(keys)]
            && forall|k: int| 0 <= k < first_key(keys) ==> !keys[k],
{
    lemma_first_key_from(keys, 0);
    if first_key(keys) < 16 {
        assert(keys[first_key(keys)]);
    }
    if any_key(keys) {
        let w = choose|k: int| 0 <= k < 16 && keys[k];
        assert(!(forall|k: int| 0 <= k < 16 ==> !keys[k]));
    }
}

/// Snapshot of the pressed keys on the hexadecimal keypad.
pub struct Keyboard {
    keys: Vec<bool>,
}

impl View for Keyboard {
    type V = Seq<bool>;

    closed spec fn view(&self) -> Seq<bool> {
        self.keys@
    }
}

/// Sixteen released keys.
fn blank_keys() -> (r: Vec<bool>)
    ensures
        r@.len() == 16,
        forall|k: int| 0 <= k < 16 ==> !r@[k],
{
    let mut r: Vec<bool> = Vec::new();
    while r.len() < 16
        invariant
            r@.len() <= 16,
            forall|k: int| 0 <= k < r@.len() ==> !r@[k],
        decreases 16 - r@.len(),
    {
        r.push(false);
    }
    r
}

impl Keyboard {
    /// One flag per keypad symbol.
    pub open spec fn wf(&self) -> bool {
        self@.len() == 16
    }

    /// A keypad with no key pressed.
    pub fn init() -> (kb: Keyboard)
        ensures
            kb.wf(),
            forall|k: int| 0 <= k < 16 ==> !kb@[k],
    {
        Keyboard { keys: blank_keys() }
    }

    /// The symbol `c` stands for, or 16 if `c` is not a keypad character.
    fn key_code(c: char) -> (r: usize)
        ensures
            r == spec_key_code(c),
    {
        match c {
            '0' => 0,
            '1' => 1,
            '2' => 2,
            '3' => 3,
            '4' => 4,
            '5' => 5,
            '6' => 6,
            '7' => 7,
            '8' => 8,
            '9' => 9,
            'a' | 'A' => 10,
            'b' | 'B' => 11,
            'c' | 'C' => 12,
            'd' | 'D' => 13,
            'e' | 'E' => 14,
            'f' | 'F' => 15,
            _ => 16,
        }
    }

    /// True if `c` is one of the sixteen keypad characters.
    pub fn is_valid_key(c: char) -> (r: bool)
        ensures
            r == (spec_key_code(c) < 16),
    {
        Keyboard::key_code(c) < 16
    }

    /// Marks the symbol named by `key` as pressed; any other character is
    /// ignored.
    pub fn add_key_press(&mut self, key: char)
        requires
            old(self).wf(),
        ensures
            final(self).wf(),
            spec_key_code(key) < 16 ==> final(self)@ == old(self)@.update(
                spec_key_code(key),
                true,
            ),
            spec_key_code(key) >= 16 ==> final(self)@ == old(self)@,
    {
        let code = Keyboard::key_code(key);
        if code < 16 {
            self.keys.set(code, true);
        }
    }

    /// Replaces the whole snapshot: afterwards a symbol is pressed exactly
    /// when one of the characters in `keys` names it.
    pub fn set_state(&mut self, keys: &Vec<char>)
        requires
            old(self).wf(),
        ensures
            final(self).wf(),
            forall|k: int| 0 <= k < 16 ==> (final(self)@[k] <==> pressed_in(
                keys@,
                keys@.len() as int,
                k,
            )),
    {
        self.keys = blank_keys();
        let mut j: usize = 0;
        while j < keys.len()
            invariant
                self.wf(),
                j <= keys@.len(),
                forall|k: int| 0 <= k < 16 ==> (self@[k] <==> pressed_in(keys@, j as int, k)),
            decreases keys@.len() - j,
        {
            let code = Keyboard::key_code(keys[j]);
            if code < 16 {
                self.keys.set(code, true);
            }
            proof {
                assert forall|k: int| 0 <= k < 16 implies (self@[k] <==> pressed_in(
                    keys@,
                    j as int + 1,
                    k,
                )) by {
                    if pressed_in(keys@, j as int + 1, k) {
                        let w = choose|w: int|
                            0 <= w < j as int + 1 && #[trigger] spec_key_code(keys@[w]) == k;
                        if w < j as int {
                            assert(pressed_in(keys@, j as int, k));
                        }
                    }
                    if self@[k] {
                        if spec_key_code(keys@[j as int]) != k {
                            assert(pressed_in(keys@, j as int, k));
                            let w = choose|w: int|
                                0 <= w < j as int && #[trigger] spec_key_code(keys@[w]) == k;
                            assert(spec_key_code(keys@[w]) == k);
                        }
                        assert(pressed_in(keys@, j as int + 1, k));
                    }
                }
            }
            j = j + 1;
        }
    }

    /// True if the symbol `k` is currently pressed; symbols outside the
    /// keypad count as released.
    pub fn is_pressed(&self, k: u8) -> (r: bool)
        requires
            self.wf(),
        ensures
            r == (k < 16 && self@[k as int]),
    {
        k < 16 && self.keys[k as usize]
    }

    /// The lowest pressed symbol, or `None` while the keypad is idle.
    pub fn first_pressed(&self) -> (r: Option<u8>)
        requires
            self.wf(),
        ensures
            match r {
                Some(k) => any_key(self@) && k == first_key(self@),
                None => !any_key(self@),
            },
    {
        proof {
            lemma_first_key(self@);
        }
        let mut k: usize = 0;
        while k < 16
            invariant
                self.wf(),
                k <= 16,
                forall|i: int| 0 <= i < k ==> !self@[i],
            decreases 16 - k,
        {
            if self.keys[k] {
                proof {
                    assert(self@[k as int]);
                    lemma_first_key_from(self@, 0);
                    assert(first_key(self@) < 16);
                    assert(first_key(self@) == k as int);
                }
                return Some(k as u8);
            }
            k = k + 1;
        }
        proof {
            if any_key(self@) {
                let w = choose|i: int| 0 <= i < 16 && self@[i];
                assert(!self@[w]);
            }
        }
        None
    }
}

} // verus!
