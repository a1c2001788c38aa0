//! A snapshot of VM memory, and the window of it that carries hook parameters.

use crate::word::Word;
use std::collections::HashMap;
use vstd::prelude::*;

verus! {

broadcast use vstd::std_specs::hash::group_hash_axioms;

/// The memory page that holds the bootloader's heap.
pub const BOOTLOADER_HEAP_PAGE: u32 = 10;

/// Bytes of bootloader heap that the protocol uses.
pub const USED_BOOTLOADER_MEMORY_BYTES: u32 = 0x100_0000;

/// The most transactions that one batch can hold.
pub const MAX_TXS_IN_BLOCK: u32 = 1024;

/// The first heap slot, counted in words, of the per-transaction results.
pub const RESULT_SUCCESS_FIRST_SLOT: u32 = (USED_BOOTLOADER_MEMORY_BYTES - MAX_TXS_IN_BLOCK * 32)
    / 32;

/// The heap slot, counted in words, that the bootloader writes a hook's
/// discriminant to.
pub const VM_HOOK_POSITION: u32 = RESULT_SUCCESS_FIRST_SLOT - 1;

/// How many parameters a hook nominally has.
pub const VM_HOOK_PARAMS_COUNT: u32 = 2;

/// The heap slot, counted in words, of a hook's first parameter.
pub const VM_HOOK_PARAMS_START_POSITION: u32 = VM_HOOK_POSITION - VM_HOOK_PARAMS_COUNT;

/// Words read beyond the nominal parameters: the test hooks use up to four.
pub const VM_HOOK_PARAMS_SLACK: u32 = 2;

/// The 32 zero bytes that a cell holds before it is written.
pub open spec fn zero_bytes() -> Seq<u8> {
    Seq::new(32, |i: int| 0u8)
}

/// The one number under which the cell `index` of `page` is filed.
pub open spec fn cell_key(page: u32, index: u32) -> u64 {
    (page as u64 * 0x1_0000_0000 + index as u64) as u64
}

/// Different cells are filed under different numbers.
pub proof fn lemma_cell_key_injective(page: u32, index: u32, other_page: u32, other_index: u32)
    ensures
        cell_key(page, index) == cell_key(other_page, other_index) ==> page == other_page && index
            == other_index,
{
}

/// The words of the VM's memory, by page and by position in the page.
/// A cell that was never written holds zero.
pub struct MemoryImage {
    cells: HashMap<u64, Word>,
}

impl View for MemoryImage {
    type V = Map<(u32, u32), Seq<u8>>;

    /// The written cells: from page and word position to the word's bytes.
    closed spec fn view(&self) -> Map<(u32, u32), Seq<u8>> {
        Map::new(
            |at: (u32, u32)| self.cells@.contains_key(cell_key(at.0, at.1)),
            |at: (u32, u32)| self.cells@[cell_key(at.0, at.1)]@,
        )
    }
}

impl MemoryImage {
    /// The bytes of the word at position `index` of `page`.
    pub open spec fn bytes_at(&self, page: u32, index: u32) -> Seq<u8> {
        if self@.contains_key((page, index)) {
            self@[(page, index)]
        } else {
            zero_bytes()
        }
    }

    /// A memory in which nothing was written yet.
    pub fn new() -> (memory: MemoryImage)
        ensures
            memory@ == Map::<(u32, u32), Seq<u8>>::empty(),
    {
        let memory = MemoryImage { cells: HashMap::new() };
        assert(memory@ =~= Map::<(u32, u32), Seq<u8>>::empty());
        memory
    }

    /// Stores `word` at position `index` of `page`.
    pub fn write(&mut self, page: u32, index: u32, word: Word)
        ensures
            final(self)@ == old(self)@.insert((page, index), word@),
    {
        let key: u64 = page as u64 * 0x1_0000_0000 + index as u64;
        self.cells.insert(key, word);
        proof {
            assert forall|at: (u32, u32)| cell_key(at.0, at.1) == key implies at == (page, index) by {
                lemma_cell_key_injective(at.0, at.1, page, index);
            }
            assert(self@ =~= old(self)@.insert((page, index), word@));
        }
    }

    /// The word at position `index` of `page`.
    pub fn read(&self, page: u32, index: u32) -> (word: Word)
        ensures
            word@ == self.bytes_at(page, index),
    {
        let key: u64 = page as u64 * 0x1_0000_0000 + index as u64;
        match self.cells.get(&key) {
            Some(word) => *word,
            None => {
                let word = Word::zero();
                assert(word@ =~= zero_bytes());
                word
            },
        }
    }

    /// The words of `page` from position `start` up to, not including, `end`;
    /// none where `end` is not beyond `start`.
    pub fn dump_page_content_as_u256_words(&self, page: u32, start: u32, end: u32) -> (words: Vec<
        Word,
    >)
        ensures
            words@.len() == if start <= end {
                end - start
            } else {
                0
            },
            forall|i: int|
                0 <= i < words@.len() ==> (#[trigger] words@[i])@ == self.bytes_at(
                    page,
                    (start + i) as u32,
                ),
    {
        let mut words: Vec<Word> = Vec::new();
        let mut index: u32 = start;
        while index < end
            invariant
                start <= index,
                index <= end || index == start,
                words@.len() == index - start,
                forall|i: int|
                    0 <= i < words@.len() ==> (#[trigger] words@[i])@ == self.bytes_at(
                        page,
                        (start + i) as u32,
                    ),
            decreases end - index,
        {
            words.push(self.read(page, index));
            index = index + 1;
        }
        words
    }
}

/// The window of the bootloader's heap that carries a hook's parameters.
pub open spec fn hook_param_bytes(memory: &MemoryImage, i: int) -> Seq<u8> {
    memory.bytes_at(BOOTLOADER_HEAP_PAGE, (VM_HOOK_PARAMS_START_POSITION + i) as u32)
}

/// Reads the parameters of a hook: the words of the bootloader's heap from
/// `VM_HOOK_PARAMS_START_POSITION` on, the nominal count and the slack.
pub fn get_vm_hook_params(memory: &MemoryImage) -> (params: Vec<Word>)
    ensures
        params@.len() == VM_HOOK_PARAMS_COUNT + VM_HOOK_PARAMS_SLACK,
        forall|i: int|
            0 <= i < params@.len() ==> (#[trigger] params@[i])@ == hook_param_bytes(memory, i),
{
    memory.dump_page_content_as_u256_words(
        BOOTLOADER_HEAP_PAGE,
        VM_HOOK_PARAMS_START_POSITION,
        VM_HOOK_PARAMS_START_POSITION + VM_HOOK_PARAMS_COUNT + VM_HOOK_PARAMS_SLACK,
    )
}

} // verus!
