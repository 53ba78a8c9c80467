//! HID boot-protocol keyboard reports.
use vstd::prelude::*;
use crate::xhci_ring::EVT_TRANSFER;

verus! {

/// Left or right Shift in the modifier byte.
pub const SHIFT_MASK: u8 = 0x22;

/// The US layout of usage page 7: usage, character, shifted character.
pub open spec fn keymap() -> Seq<(u8, u8, u8)> {
    seq![
        (0x04u8, 97u8, 65u8), (0x05, 98, 66), (0x06, 99, 67), (0x07, 100, 68), (0x08, 101, 69),
        (0x09, 102, 70), (0x0A, 103, 71), (0x0B, 104, 72), (0x0C, 105, 73), (0x0D, 106, 74),
        (0x0E, 107, 75), (0x0F, 108, 76), (0x10, 109, 77), (0x11, 110, 78), (0x12, 111, 79),
        (0x13, 112, 80), (0x14, 113, 81), (0x15, 114, 82), (0x16, 115, 83), (0x17, 116, 84),
        (0x18, 117, 85), (0x19, 118, 86), (0x1A, 119, 87), (0x1B, 120, 88), (0x1C, 121, 89),
        (0x1D, 122, 90), (0x1E, 49, 33), (0x1F, 50, 64), (0x20, 51, 35), (0x21, 52, 36),
        (0x22, 53, 37), (0x23, 54, 94), (0x24, 55, 38), (0x25, 56, 42), (0x26, 57, 40),
        (0x27, 48, 41), (0x28, 10, 10), (0x2A, 8, 8), (0x2C, 32, 32), (0x2D, 45, 95),
        (0x2E, 61, 43), (0x2F, 91, 123), (0x30, 93, 125), (0x33, 59, 58), (0x34, 39, 34),
        (0x35, 96, 126), (0x36, 44, 60), (0x37, 46, 62), (0x38, 47, 63)
    ]
}

/// The character of the first entry of `map` from `i` on for `code`.
pub open spec fn lookup(map: Seq<(u8, u8, u8)>, i: int, code: u8, shift: bool) -> Option<u8>
    decreases map.len() - i,
{
    if i < 0 || i >= map.len() {
        None
    } else if map[i].0 == code {
        Some(if shift { map[i].2 } else { map[i].1 })
    } else {
        lookup(map, i + 1, code, shift)
    }
}

/// The character a usage gives, if it has one.
pub open spec fn spec_keycode_char(code: u8, shift: bool) -> Option<u8> {
    lookup(keymap(), 0, code, shift)
}

/// The layout as a table the code can walk.
fn keymap_table() -> (r: Vec<(u8, u8, u8)>)
    ensures
        r@ == keymap(),
{
    let r: Vec<(u8, u8, u8)> = vec![
        (0x04u8, 97u8, 65u8), (0x05, 98, 66), (0x06, 99, 67), (0x07, 100, 68), (0x08, 101, 69),
        (0x09, 102, 70), (0x0A, 103, 71), (0x0B, 104, 72), (0x0C, 105, 73), (0x0D, 106, 74),
        (0x0E, 107, 75), (0x0F, 108, 76), (0x10, 109, 77), (0x11, 110, 78), (0x12, 111, 79),
        (0x13, 112, 80), (0x14, 113, 81), (0x15, 114, 82), (0x16, 115, 83), (0x17, 116, 84),
        (0x18, 117, 85), (0x19, 118, 86), (0x1A, 119, 87), (0x1B, 120, 88), (0x1C, 121, 89),
        (0x1D, 122, 90), (0x1E, 49, 33), (0x1F, 50, 64), (0x20, 51, 35), (0x21, 52, 36),
        (0x22, 53, 37), (0x23, 54, 94), (0x24, 55, 38), (0x25, 56, 42), (0x26, 57, 40),
        (0x27, 48, 41), (0x28, 10, 10), (0x2A, 8, 8), (0x2C, 32, 32), (0x2D, 45, 95),
        (0x2E, 61, 43), (0x2F, 91, 123), (0x30, 93, 125), (0x33, 59, 58), (0x34, 39, 34),
        (0x35, 96, 126), (0x36, 44, 60), (0x37, 46, 62), (0x38, 47, 63)
    ];
    assert(r@ =~= keymap());
    r
}

/// The ASCII character of a key usage: letters, digits, Enter (newline),
/// Backspace (8), Space and punctuation; Shift picks the upper row.
pub fn hid_keycode_to_char(code: u8, shift: bool) -> (r: Option<u8>)
    ensures
        r == spec_keycode_char(code, shift),
{
    let table = keymap_table();
    let mut i: usize = 0;
    while i < table.len()
        invariant
            table@ == keymap(),
            i <= table@.len(),
            lookup(keymap(), 0, code, shift) == lookup(keymap(), i as int, code, shift),
        decreases table@.len() - i,
    {
        let (id, lo, hi) = table[i];
        if id == code {
            return Some(if shift { hi } else { lo });
        }
        i += 1;
    }
    None
}

/// The keys of a report that are newly pressed: those not zero and not
/// held in the previous report, in order, as characters.
pub open spec fn new_chars(prev: Seq<u8>, cur: Seq<u8>, shift: bool) -> Seq<u8>
    decreases cur.len(),
{
    if cur.len() == 0 {
        Seq::empty()
    } else {
        let rest = new_chars(prev, cur.drop_last(), shift);
        let k = cur.last();
        if k == 0 || prev.contains(k) {
            rest
        } else {
            match spec_keycode_char(k, shift) {
                Some(c) => rest.push(c),
                None => rest,
            }
        }
    }
}

/// The keys held in the last report.
pub struct HidKeyboard {
    prev: [u8; 6],
}

impl HidKeyboard {
    pub closed spec fn held(&self) -> Seq<u8> {
        self.prev@
    }

    /// No key held.
    pub fn new() -> (r: Self)
        ensures
            r.held() == seq![0u8, 0u8, 0u8, 0u8, 0u8, 0u8],
    {
        let r = HidKeyboard { prev: [0u8; 6] };
        assert(r.held() =~= seq![0u8, 0u8, 0u8, 0u8, 0u8, 0u8]);
        r
    }

    /// Take an 8-byte boot report (modifiers, reserved, six key usages):
    /// the characters of the keys newly pressed, Shift taken from the
    /// modifiers; the keys of this report become the held ones.
    pub fn report(&mut self, report: &[u8]) -> (r: Vec<u8>)
        requires
            report@.len() >= 8,
        ensures
            r@ == new_chars(old(self).held(), report@.subrange(2, 8), report@[0] & SHIFT_MASK != 0),
            final(self).held() == report@.subrange(2, 8),
    {
        let shift = report[0] & SHIFT_MASK != 0;
        let ghost prev = self.prev@;
        let ghost cur = report@.subrange(2, 8);
        let mut out: Vec<u8> = Vec::new();
        let mut i: usize = 0;
        while i < 6
            invariant
                report@.len() >= 8,
                i <= 6,
                self.prev@ == prev,
                cur == report@.subrange(2, 8),
                out@ == new_chars(prev, cur.subrange(0, i as int), shift),
            decreases 6 - i,
        {
            let k = report[2 + i];
            proof {
                assert(cur.subrange(0, i + 1).drop_last() =~= cur.subrange(0, i as int));
                assert(cur.subrange(0, i + 1).last() == k);
            }
            if k != 0 && !self.held_contains(k) {
                match hid_keycode_to_char(k, shift) {
                    Some(c) => out.push(c),
                    None => {},
                }
            }
            i += 1;
        }
        proof {
            assert(cur.subrange(0, 6) =~= cur);
        }
        let mut j: usize = 0;
        while j < 6
            invariant
                report@.len() >= 8,
                j <= 6,
                forall|t: int| 0 <= t < j ==> self.prev@[t] == report@[2 + t],
            decreases 6 - j,
        {
            self.prev[j] = report[2 + j];
            j += 1;
        }
        proof {
            assert(self.prev@ =~= report@.subrange(2, 8));
        }
        out
    }

    /// Whether `k` is among the held keys.
    fn held_contains(&self, k: u8) -> (r: bool)
        ensures
            r == self.held().contains(k),
    {
        let mut i: usize = 0;
        while i < 6
            invariant
                i <= 6,
                forall|t: int| 0 <= t < i ==> self.prev@[t] != k,
            decreases 6 - i,
        {
            if self.prev[i] == k {
                assert(self.held()[i as int] == k);
                return true;
            }
            i += 1;
        }
        false
    }
}

proof fn lemma_new_chars_held(prev: Seq<u8>, cur: Seq<u8>, shift: bool)
    requires
        forall|i: int| 0 <= i < cur.len() ==> prev.contains(#[trigger] cur[i]),
    ensures
        new_chars(prev, cur, shift) == Seq::<u8>::empty(),
    decreases cur.len(),
{
    if cur.len() > 0 {
        assert(prev.contains(cur[cur.len() - 1]));
        lemma_new_chars_held(prev, cur.drop_last(), shift);
    }
}

/// Law: a key that stays down gives its character once; a report that
/// repeats the last one gives nothing.
pub proof fn law_held_keys_repeat_nothing(cur: Seq<u8>, shift: bool)
    ensures
        new_chars(cur, cur, shift) == Seq::<u8>::empty(),
{
    assert forall|i: int| 0 <= i < cur.len() implies cur.contains(#[trigger] cur[i]) by {}
    lemma_new_chars_held(cur, cur, shift);
}

/// The usage in row `j` of the layout: Enter (0x28) follows the letters
/// and digits, then Backspace (0x2A), then Space to `]` (0x2C to 0x30),
/// then `;` to `/` (0x33 to 0x38).
pub open spec fn usage_at(j: int) -> int {
    if j <= 36 {
        j + 4
    } else if j == 37 {
        0x2A
    } else if j <= 42 {
        j + 6
    } else {
        j + 8
    }
}

/// The usages that give a character.
pub open spec fn has_char(code: u8) -> bool {
    (0x04 <= code <= 0x28) || code == 0x2A || (0x2C <= code <= 0x30) || (0x33 <= code <= 0x38)
}

/// The character of a row of `map`.
pub open spec fn row_char(row: (u8, u8, u8), shift: bool) -> u8 {
    if shift { row.2 } else { row.1 }
}

proof fn lemma_lookup(map: Seq<(u8, u8, u8)>, i: int, code: u8, shift: bool)
    requires
        0 <= i <= map.len(),
    ensures
        lookup(map, i, code, shift) is Some <==> exists|j: int| i <= j < map.len() && #[trigger] map[j].0 == code,
        forall|j: int|
            i <= j < map.len() && #[trigger] map[j].0 == code && (forall|k: int| i <= k < j ==> map[k].0 != code)
                ==> lookup(map, i, code, shift) == Some(row_char(map[j], shift)),
    decreases map.len() - i,
{
    if i < map.len() {
        lemma_lookup(map, i + 1, code, shift);
        if map[i].0 != code {
            assert forall|j: int|
                i <= j < map.len() && #[trigger] map[j].0 == code && (forall|k: int| i <= k < j ==> map[k].0 != code)
                    implies lookup(map, i, code, shift) == Some(row_char(map[j], shift)) by {
                assert forall|k: int| i + 1 <= k < j implies map[k].0 != code by {}
            }
        }
    }
}

proof fn lemma_keymap_rows()
    ensures
        keymap().len() == 49,
        forall|j: int| 0 <= j < 49 ==> #[trigger] keymap()[j].0 == usage_at(j),
        forall|j: int| 0 <= j < 49 ==> #[trigger] keymap()[j].1 < 0x80 && keymap()[j].2 < 0x80,
        keymap()[36] == (0x28u8, 10u8, 10u8),
        keymap()[37] == (0x2Au8, 8u8, 8u8),
        keymap()[38] == (0x2Cu8, 32u8, 32u8),
{
    let m = keymap();
    assert forall|j: int| 0 <= j < 49 implies #[trigger] m[j].0 == usage_at(j) && m[j].1 < 0x80 && m[j].2 < 0x80 by {
        if j == 0 {
            assert(m[0] == (4u8, 97u8, 65u8));
        } else if j == 1 {
            assert(m[1] == (5u8, 98u8, 66u8));
        } else if j == 2 {
            assert(m[2] == (6u8, 99u8, 67u8));
        } else if j == 3 {
            assert(m[3] == (7u8, 100u8, 68u8));
        } else if j == 4 {
            assert(m[4] == (8u8, 101u8, 69u8));
        } else if j == 5 {
            assert(m[5] == (9u8, 102u8, 70u8));
        } else if j == 6 {
            assert(m[6] == (10u8, 103u8, 71u8));
        } else if j == 7 {
            assert(m[7] == (11u8, 104u8, 72u8));
        } else if j == 8 {
            assert(m[8] == (12u8, 105u8, 73u8));
        } else if j == 9 {
            assert(m[9] == (13u8, 106u8, 74u8));
        } else if j == 10 {
            assert(m[10] == (14u8, 107u8, 75u8));
        } else if j == 11 {
            assert(m[11] == (15u8, 108u8, 76u8));
        } else if j == 12 {
            assert(m[12] == (16u8, 109u8, 77u8));
        } else if j == 13 {
            assert(m[13] == (17u8, 110u8, 78u8));
        } else if j == 14 {
            assert(m[14] == (18u8, 111u8, 79u8));
        } else if j == 15 {
            assert(m[15] == (19u8, 112u8, 80u8));
        } else if j == 16 {
            assert(m[16] == (20u8, 113u8, 81u8));
        } else if j == 17 {
            assert(m[17] == (21u8, 114u8, 82u8));
        } else if j == 18 {
            assert(m[18] == (22u8, 115u8, 83u8));
        } else if j == 19 {
            assert(m[19] == (23u8, 116u8, 84u8));
        } else if j == 20 {
            assert(m[20] == (24u8, 117u8, 85u8));
        } else if j == 21 {
            assert(m[21] == (25u8, 118u8, 86u8));
        } else if j == 22 {
            assert(m[22] == (26u8, 119u8, 87u8));
        } else if j == 23 {
            assert(m[23] == (27u8, 120u8, 88u8));
        } else if j == 24 {
            assert(m[24] == (28u8, 121u8, 89u8));
        } else if j == 25 {
            assert(m[25] == (29u8, 122u8, 90u8));
        } else if j == 26 {
            assert(m[26] == (30u8, 49u8, 33u8));
        } else if j == 27 {
            assert(m[27] == (31u8, 50u8, 64u8));
        } else if j == 28 {
            assert(m[28] == (32u8, 51u8, 35u8));
        } else if j == 29 {
            assert(m[29] == (33u8, 52u8, 36u8));
        } else if j == 30 {
            assert(m[30] == (34u8, 53u8, 37u8));
        } else if j == 31 {
            assert(m[31] == (35u8, 54u8, 94u8));
        } else if j == 32 {
            assert(m[32] == (36u8, 55u8, 38u8));
        } else if j == 33 {
            assert(m[33] == (37u8, 56u8, 42u8));
        } else if j == 34 {
            assert(m[34] == (38u8, 57u8, 40u8));
        } else if j == 35 {
            assert(m[35] == (39u8, 48u8, 41u8));
        } else if j == 36 {
            assert(m[36] == (40u8, 10u8, 10u8));
        } else if j == 37 {
            assert(m[37] == (42u8, 8u8, 8u8));
        } else if j == 38 {
            assert(m[38] == (44u8, 32u8, 32u8));
        } else if j == 39 {
            assert(m[39] == (45u8, 45u8, 95u8));
        } else if j == 40 {
            assert(m[40] == (46u8, 61u8, 43u8));
        } else if j == 41 {
            assert(m[41] == (47u8, 91u8, 123u8));
        } else if j == 42 {
            assert(m[42] == (48u8, 93u8, 125u8));
        } else if j == 43 {
            assert(m[43] == (51u8, 59u8, 58u8));
        } else if j == 44 {
            assert(m[44] == (52u8, 39u8, 34u8));
        } else if j == 45 {
            assert(m[45] == (53u8, 96u8, 126u8));
        } else if j == 46 {
            assert(m[46] == (54u8, 44u8, 60u8));
        } else if j == 47 {
            assert(m[47] == (55u8, 46u8, 62u8));
        } else if j == 48 {
            assert(m[48] == (56u8, 47u8, 63u8));
        }
    }
}

/// Law: which usages give a character: letters, digits, Enter, Backspace,
/// Space and the punctuation rows (0x04 to 0x28, 0x2A, 0x2C to 0x30, 0x33
/// to 0x38), and no other; every character is ASCII; and Enter, Backspace
/// and Space give newline, 8 and space whatever Shift is.
pub proof fn law_keycode_chars(code: u8, shift: bool)
    ensures
        spec_keycode_char(code, shift) is Some <==> has_char(code),
        spec_keycode_char(code, shift) matches Some(c) ==> c < 0x80,
        spec_keycode_char(0x28, shift) == Some(10u8),
        spec_keycode_char(0x2A, shift) == Some(8u8),
        spec_keycode_char(0x2C, shift) == Some(32u8),
{
    lemma_keymap_rows();
    let m = keymap();
    lemma_lookup(m, 0, code, shift);
    lemma_lookup(m, 0, 0x28, shift);
    lemma_lookup(m, 0, 0x2A, shift);
    lemma_lookup(m, 0, 0x2C, shift);
    // The usages grow down the table, so a matching row is the first.
    assert forall|j: int, k: int| 0 <= k < j < 49 implies usage_at(k) < usage_at(j) by {}
    if has_char(code) {
        let j: int = if code <= 0x28 {
            code - 4
        } else if code == 0x2A {
            37
        } else if code <= 0x30 {
            code - 6
        } else {
            code - 8
        };
        assert(m[j].0 == code);
        assert forall|k: int| 0 <= k < j implies m[k].0 != code by {
            assert(m[k].0 == usage_at(k));
        }
        assert(spec_keycode_char(code, shift) == Some(row_char(m[j], shift)));
    } else {
        assert forall|j: int| 0 <= j < 49 implies #[trigger] m[j].0 != code by {
            assert(m[j].0 == usage_at(j));
        }
    }
    assert forall|k: int| 0 <= k < 36 implies m[k].0 != 0x28u8 by {
        assert(m[k].0 == usage_at(k));
    }
    assert forall|k: int| 0 <= k < 37 implies m[k].0 != 0x2Au8 by {
        assert(m[k].0 == usage_at(k));
    }
    assert forall|k: int| 0 <= k < 38 implies m[k].0 != 0x2Cu8 by {
        assert(m[k].0 == usage_at(k));
    }
}

// ---------------------------------------------------------------------------
// Polling the keyboard's events
// ---------------------------------------------------------------------------

/// What the kernel does next while polling the keyboard.
#[derive(Clone, Copy, PartialEq, Eq, Structural, Debug)]
pub enum PollStep {
    /// Take the next event off the event ring and hand back its TRB type
    /// (`None` when the ring is empty).
    TakeEvent,
    /// A transfer completed: hand the report in the buffer to
    /// `HidKeyboard::report` and the characters to the shell.
    ReadReport,
    /// Queue the next transfer on the keyboard's endpoint.
    Requeue,
    /// The poll is over.
    Done,
}

/// One poll of the keyboard: every pending event is taken; events other
/// than transfers are let go; each transfer's report is read; and once the
/// ring is empty the next transfer is queued, once, if any transfer came.
#[derive(Clone, Copy, PartialEq, Eq, Structural, Debug)]
pub struct HidPoll {
    /// The step last asked for.
    pub last: PollStep,
    /// A transfer came during this poll.
    pub got_transfer: bool,
}

/// One step of a poll: the state after the reply `ev` to the last step
/// (the type of the event taken, looked at only after `TakeEvent`), and
/// the next step.
pub open spec fn poll_next(s: HidPoll, ev: Option<u32>) -> (HidPoll, PollStep) {
    match s.last {
        PollStep::TakeEvent => match ev {
            None => if s.got_transfer {
                (HidPoll { last: PollStep::Requeue, ..s }, PollStep::Requeue)
            } else {
                (HidPoll { last: PollStep::Done, ..s }, PollStep::Done)
            },
            Some(t) => if t == EVT_TRANSFER {
                (HidPoll { last: PollStep::ReadReport, got_transfer: true }, PollStep::ReadReport)
            } else {
                (s, PollStep::TakeEvent)
            },
        },
        PollStep::ReadReport => (HidPoll { last: PollStep::TakeEvent, ..s }, PollStep::TakeEvent),
        PollStep::Requeue => (HidPoll { last: PollStep::Done, ..s }, PollStep::Done),
        PollStep::Done => (s, PollStep::Done),
    }
}

impl HidPoll {
    /// Start a poll: take events when the keyboard is set up, else nothing.
    pub fn start(ready: bool) -> (r: (Self, PollStep))
        ensures
            r.0.got_transfer == false,
            r.1 == r.0.last,
            r.1 == (if ready { PollStep::TakeEvent } else { PollStep::Done }),
    {
        let step = if ready { PollStep::TakeEvent } else { PollStep::Done };
        (HidPoll { last: step, got_transfer: false }, step)
    }

    /// Take the reply to the last step and say what to do next.
    pub fn step(&mut self, ev: Option<u32>) -> (r: PollStep)
        ensures
            (*final(self), r) == poll_next(*old(self), ev),
    {
        match self.last {
            PollStep::TakeEvent => match ev {
                None => {
                    if self.got_transfer {
                        self.last = PollStep::Requeue;
                        PollStep::Requeue
                    } else {
                        self.last = PollStep::Done;
                        PollStep::Done
                    }
                },
                Some(t) => {
                    if t == EVT_TRANSFER {
                        self.last = PollStep::ReadReport;
                        self.got_transfer = true;
                        PollStep::ReadReport
                    } else {
                        PollStep::TakeEvent
                    }
                },
            },
            PollStep::ReadReport => {
                self.last = PollStep::TakeEvent;
                PollStep::TakeEvent
            },
            PollStep::Requeue => {
                self.last = PollStep::Done;
                PollStep::Done
            },
            PollStep::Done => PollStep::Done,
        }
    }
}

} // verus!
