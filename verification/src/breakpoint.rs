//! Breakpoints: a trap byte patched into a word of the tracee's code, and
//! the byte that it replaced.

use std::collections::HashMap;
use vstd::prelude::*;

verus! {

/// The instruction that stops the tracee.
pub const TRAP_BYTE: u8 = 0xCC;

/// How far past the trap the tracee's instruction pointer stands when it
/// stops there.
pub const TRAP_WIDTH: u64 = 1;

/// The address of the word that holds the byte at `address`.
pub open spec fn word_address(address: u64) -> u64 {
    address & !7u64
}

/// How many bits the byte at `address` lies above the low end of its word.
pub open spec fn bit_shift(address: u64) -> u64 {
    ((address & 7u64) * 8) as u64
}

/// The byte of `word` that lies `shift` bits above its low end.
pub open spec fn byte_of(word: u64, shift: u64) -> u8 {
    ((word >> shift) & 0xffu64) as u8
}

/// `word` with the byte that lies `shift` bits above its low end replaced
/// by `byte`.
pub open spec fn with_byte(word: u64, shift: u64, byte: u8) -> u64 {
    (word & !(0xffu64 << shift)) | ((byte as u64) << shift)
}

/// Whether `shift` is the place of one of the eight bytes of a word.
pub open spec fn is_byte_shift(shift: u64) -> bool {
    shift <= 56 && shift % 8 == 0
}

/// The address of the word that holds the byte at `address`.
pub fn aligned_address(address: u64) -> (aligned: u64)
    ensures
        aligned == word_address(address),
        aligned <= address,
        address - aligned < 8,
{
    assert(address & !7u64 <= address && address - (address & !7u64) < 8) by (bit_vector);
    address & !7u64
}

/// How many bits the byte at `address` lies above the low end of its word.
pub fn shift_of(address: u64) -> (shift: u64)
    ensures
        shift == bit_shift(address),
        is_byte_shift(shift),
        shift == 8 * (address - word_address(address)),
{
    let low: u64 = address & 7u64;
    assert(low <= 7 && low == address - (address & !7u64)) by (bit_vector)
        requires
            low == address & 7u64,
    ;
    low * 8
}

/// Reads one byte out of a word. The shift is less than the width of a
/// word.
pub fn read_byte(word: u64, shift: u64) -> (byte: u8)
    requires
        shift < 64,
    ensures
        byte == byte_of(word, shift),
{
    let low: u64 = (word >> shift) & 0xffu64;
    assert(low <= 0xff) by (bit_vector)
        requires
            low == (word >> shift) & 0xffu64,
    ;
    low as u8
}

/// Replaces one byte of a word. The shift is less than the width of a
/// word.
pub fn write_byte(word: u64, shift: u64, byte: u8) -> (patched: u64)
    requires
        shift < 64,
    ensures
        patched == with_byte(word, shift, byte),
{
    (word & !(0xffu64 << shift)) | ((byte as u64) << shift)
}

/// A byte that was written into a word is the byte that is read there.
pub proof fn lemma_byte_read_back(word: u64, shift: u64, byte: u8)
    requires
        is_byte_shift(shift),
    ensures
        byte_of(with_byte(word, shift, byte), shift) == byte,
{
    assert((((word & !(0xffu64 << shift)) | ((byte as u64) << shift)) >> shift) & 0xffu64
        == byte as u64) by (bit_vector)
        requires
            shift <= 56,
    ;
}

/// Writing one byte of a word leaves its other bytes as they were.
pub proof fn lemma_other_bytes_kept(word: u64, shift: u64, byte: u8, other: u64)
    requires
        is_byte_shift(shift),
        is_byte_shift(other),
        other != shift,
    ensures
        byte_of(with_byte(word, shift, byte), other) == byte_of(word, other),
{
    assert((((word & !(0xffu64 << shift)) | ((byte as u64) << shift)) >> other) & 0xffu64 == (word
        >> other) & 0xffu64) by (bit_vector)
        requires
            shift <= 56,
            shift % 8 == 0,
            other <= 56,
            other % 8 == 0,
            other != shift,
    ;
}

/// Writing a byte over the one that was written before leaves only the
/// second: a breakpoint that is armed twice is armed once.
pub proof fn lemma_byte_overwritten(word: u64, shift: u64, first: u8, second: u8)
    requires
        is_byte_shift(shift),
    ensures
        with_byte(with_byte(word, shift, first), shift, second) == with_byte(word, shift, second),
{
    assert((((word & !(0xffu64 << shift)) | ((first as u64) << shift)) & !(0xffu64 << shift)) | ((
    second as u64) << shift) == (word & !(0xffu64 << shift)) | ((second as u64) << shift))
        by (bit_vector)
        requires
            shift <= 56,
    ;
}

/// Writing back the byte that a word held gives the word that it was:
/// restoring after arming undoes the patch.
pub proof fn lemma_byte_restored(word: u64, shift: u64, byte: u8)
    requires
        is_byte_shift(shift),
    ensures
        with_byte(with_byte(word, shift, byte), shift, byte_of(word, shift)) == word,
        with_byte(word, shift, byte_of(word, shift)) == word,
{
    lemma_byte_overwritten(word, shift, byte, byte_of(word, shift));
    assert((word & !(0xffu64 << shift)) | (((((word >> shift) & 0xffu64) as u8) as u64) << shift)
        == word) by (bit_vector)
        requires
            shift <= 56,
    ;
}

/// Two bytes of one word that are not the same byte lie at different
/// places in it.
pub proof fn lemma_places_differ(first: u64, second: u64)
    requires
        first != second,
        word_address(first) == word_address(second),
    ensures
        bit_shift(first) != bit_shift(second),
{
    assert((first & !7u64) == (second & !7u64) && ((first & 7u64) * 8) as u64 == ((second & 7u64)
        * 8) as u64 ==> first == second) by (bit_vector);
}

/// One instrumentation point of the tracee's code.
#[derive(Clone, Copy, Debug, PartialEq, Eq, Structural)]
pub struct Breakpoint {
    /// Where the trap is planted.
    pub address: u64,
    /// The byte of the tracee's code that the trap replaces.
    pub original: u8,
    /// Whether the trap stands in the tracee's memory, or the byte that it
    /// replaced.
    pub enabled: bool,
}

impl Breakpoint {
    /// The word of the tracee's memory that holds this breakpoint's byte.
    pub open spec fn word(&self) -> u64 {
        word_address(self.address)
    }

    /// The place of this breakpoint's byte in its word.
    pub open spec fn shift(&self) -> u64 {
        bit_shift(self.address)
    }

    /// The word `current` with the trap at this breakpoint's place.
    pub open spec fn armed(&self, current: u64) -> u64 {
        with_byte(current, self.shift(), TRAP_BYTE)
    }

    /// The word `current` with the replaced byte back at this breakpoint's
    /// place.
    pub open spec fn restored(&self, current: u64) -> u64 {
        with_byte(current, self.shift(), self.original)
    }

    /// The breakpoint at `address`, not yet planted, where `word` is what the
    /// tracee's memory holds at the aligned address.
    pub fn new(address: u64, word: u64) -> (bp: Breakpoint)
        ensures
            bp == (Breakpoint {
                address,
                original: byte_of(word, bit_shift(address)),
                enabled: false,
            }),
    {
        Breakpoint { address, original: read_byte(word, shift_of(address)), enabled: false }
    }

    /// The address at which the tracee's memory is read and written for this
    /// breakpoint.
    pub fn aligned_address(&self) -> (aligned: u64)
        ensures
            aligned == self.word(),
    {
        aligned_address(self.address)
    }

    /// What to write at the aligned address to plant the trap, where
    /// `current` is what stands there now.
    pub fn armed_word(&self, current: u64) -> (word: u64)
        ensures
            word == self.armed(current),
            byte_of(word, self.shift()) == TRAP_BYTE,
    {
        proof {
            lemma_shift_is_byte_shift(self.address);
            lemma_byte_read_back(current, self.shift(), TRAP_BYTE);
        }
        write_byte(current, shift_of(self.address), TRAP_BYTE)
    }

    /// What to write at the aligned address to take the trap out, where
    /// `current` is what stands there now.
    pub fn restored_word(&self, current: u64) -> (word: u64)
        ensures
            word == self.restored(current),
            byte_of(word, self.shift()) == self.original,
    {
        proof {
            lemma_shift_is_byte_shift(self.address);
            lemma_byte_read_back(current, self.shift(), self.original);
        }
        write_byte(current, shift_of(self.address), self.original)
    }

    /// This breakpoint with its flag set to `enabled`.
    pub fn with_enabled(&self, enabled: bool) -> (bp: Breakpoint)
        ensures
            bp == (Breakpoint { enabled, ..*self }),
    {
        Breakpoint { address: self.address, original: self.original, enabled }
    }
}

/// Planting a trap and taking it out again leaves the word that was there
/// when the breakpoint was made.
pub proof fn lemma_arm_then_restore(address: u64, word: u64)
    ensures
        ({
            let bp = Breakpoint {
                address,
                original: byte_of(word, bit_shift(address)),
                enabled: false,
            };
            bp.restored(bp.armed(word)) == word
        }),
{
    lemma_shift_is_byte_shift(address);
    lemma_byte_restored(word, bit_shift(address), TRAP_BYTE);
}

/// The place of a byte in its word is one of the eight.
pub proof fn lemma_shift_is_byte_shift(address: u64)
    ensures
        is_byte_shift(bit_shift(address)),
{
    assert((address & 7u64) <= 7) by (bit_vector);
}

/// Where the trap stands, if the tracee stopped with its instruction pointer
/// at `ip`: one trap's width before it.
pub open spec fn struck_address(ip: u64) -> Option<u64> {
    if ip >= TRAP_WIDTH {
        Some((ip - TRAP_WIDTH) as u64)
    } else {
        None
    }
}

/// Where the trap stands, if the tracee stopped with its instruction pointer
/// at `ip`. There is none before the first address.
pub fn trap_address(ip: u64) -> (address: Option<u64>)
    ensures
        address == struck_address(ip),
{
    if ip >= TRAP_WIDTH {
        Some(ip - TRAP_WIDTH)
    } else {
        None
    }
}

/// What the table keeps of a breakpoint, under its address.
#[derive(Clone, Copy, Debug)]
struct Slot {
    original: u8,
    enabled: bool,
}

/// The breakpoints of one run, by address.
pub struct BreakpointTable {
    entries: HashMap<u64, Slot>,
}

impl View for BreakpointTable {
    type V = Map<u64, Breakpoint>;

    closed spec fn view(&self) -> Map<u64, Breakpoint> {
        Map::new(
            |address: u64| self.entries@.contains_key(address),
            |address: u64|
                Breakpoint {
                    address,
                    original: self.entries@[address].original,
                    enabled: self.entries@[address].enabled,
                },
        )
    }
}

impl BreakpointTable {
    /// Every breakpoint is filed under its own address.
    pub open spec fn wf(&self) -> bool {
        forall|address: u64| #[trigger]
            self@.contains_key(address) ==> self@[address].address == address
    }

    /// Every table is well formed: the view files each breakpoint under
    /// the address that it holds.
    pub proof fn lemma_wf(&self)
        ensures
            self.wf(),
    {
    }

    /// A table without breakpoints.
    pub fn new() -> (table: BreakpointTable)
        ensures
            table@ == Map::<u64, Breakpoint>::empty(),
    {
        let table = BreakpointTable { entries: HashMap::new() };
        assert(table@ =~= Map::<u64, Breakpoint>::empty());
        table
    }

    /// The number of breakpoints.
    pub fn len(&self) -> (n: usize)
        ensures
            n == self@.dom().len(),
    {
        assert(self@.dom() =~= self.entries@.dom());
        self.entries.len()
    }

    /// Whether a breakpoint stands at `address`.
    pub fn contains(&self, address: u64) -> (found: bool)
        ensures
            found == self@.contains_key(address),
    {
        self.entries.contains_key(&address)
    }

    /// The breakpoint at `address`, if there is one.
    pub fn get(&self, address: u64) -> (found: Option<Breakpoint>)
        ensures
            found == if self@.contains_key(address) {
                Some(self@[address])
            } else {
                None
            },
            found matches Some(bp) ==> bp.address == address,
    {
        match self.entries.get(&address) {
            Some(slot) => Some(
                Breakpoint { address, original: slot.original, enabled: slot.enabled },
            ),
            None => None,
        }
    }

    /// Files `bp` under its address, in place of what was there.
    pub fn insert(&mut self, bp: Breakpoint)
        ensures
            final(self)@ == old(self)@.insert(bp.address, bp),
    {
        self.entries.insert(bp.address, Slot { original: bp.original, enabled: bp.enabled });
        assert(self@ =~= old(self)@.insert(bp.address, bp));
    }

    /// Sets the flag of the breakpoint at `address`, and says whether there
    /// is one. Setting a flag to what it is changes nothing.
    pub fn set_enabled(&mut self, address: u64, enabled: bool) -> (found: bool)
        ensures
            found == old(self)@.contains_key(address),
            final(self)@ == if found {
                old(self)@.insert(address, (Breakpoint { enabled, ..old(self)@[address] }))
            } else {
                old(self)@
            },
    {
        match self.get(address) {
            Some(bp) => {
                self.insert(bp.with_enabled(enabled));
                true
            },
            None => false,
        }
    }

    /// Takes every breakpoint out of the table.
    pub fn clear(&mut self)
        ensures
            final(self)@ == Map::<u64, Breakpoint>::empty(),
    {
        self.entries.clear();
        assert(self@ =~= Map::<u64, Breakpoint>::empty());
    }
}

/// Setting a flag twice to the same value is setting it once.
pub proof fn lemma_set_enabled_idempotent(table: Map<u64, Breakpoint>, address: u64, enabled: bool)
    requires
        table.contains_key(address),
    ensures
        ({
            let once = table.insert(address, (Breakpoint { enabled, ..table[address] }));
            once.insert(address, (Breakpoint { enabled, ..once[address] })) == once
        }),
{
    let once = table.insert(address, (Breakpoint { enabled, ..table[address] }));
    assert(once.insert(address, (Breakpoint { enabled, ..once[address] })) =~= once);
}

} // verus!
