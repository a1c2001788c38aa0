//! Recognising a hook in an instruction that is about to execute, and
//! decoding its parameters.

use crate::error::TracerError;
use crate::memory::{
    get_vm_hook_params, hook_param_bytes, MemoryImage, BOOTLOADER_HEAP_PAGE, VM_HOOK_POSITION,
};
use crate::text::{
    number_text, padded_message_text, test_hook_as_int_or_hex, test_hook_as_string, text_of,
};
use crate::word::{be_value, Word};
use vstd::prelude::*;
use vstd::string::*;
use zkevm_opcode_defs::ethereum_types::U256;
use zkevm_opcode_defs::FatPointer;

verus! {

/// The memory instructions of the VM.
#[derive(Clone, Copy, Debug, PartialEq, Eq, Structural)]
pub enum UMAOpcode {
    HeapRead,
    HeapWrite,
    AuxHeapRead,
    AuxHeapWrite,
    FatPointerRead,
    StaticMemoryRead,
    StaticMemoryWrite,
}

/// The instruction families of the VM. Only the memory instructions are
/// told apart further: no other family can carry a hook.
#[derive(Clone, Copy, Debug, PartialEq, Eq, Structural)]
pub enum Opcode {
    Invalid,
    Nop,
    Add,
    Sub,
    Mul,
    Div,
    Jump,
    Context,
    Shift,
    Binop,
    Ptr,
    NearCall,
    Log,
    FarCall,
    Ret,
    UMA(UMAOpcode),
}

/// What the interpreter shows of an instruction before it executes it.
#[derive(Clone, Copy, Debug, PartialEq, Eq)]
pub struct BeforeExecutionData {
    /// The instruction.
    pub opcode: Opcode,
    /// The base memory page of the call frame that executes it.
    pub base_memory_page: u32,
    /// The first operand: for a heap write, the fat pointer to write through.
    pub src0_value: Word,
    /// The second operand: for a heap write, the word to store.
    pub src1_value: Word,
}

/// Which hook an instruction raises, before any parameter is read.
#[derive(Clone, Copy, Debug, PartialEq, Eq, Structural)]
pub enum HookKind {
    NoHook,
    TestLog,
    AssertEqFailed,
    RequestedAssert,
    TestCount,
    TestStart,
}

/// The heap page of a call frame whose base page is `base`.
pub open spec fn heap_page_from_base(base: u32) -> int {
    base + 2
}

/// The offset field of the fat pointer that `word` packs: its low 32 bits.
pub open spec fn fat_pointer_offset(word: Seq<u8>) -> int {
    (be_value(word) % 0x1_0000_0000) as int
}

/// Whether the instruction writes to the hook slot of the bootloader's heap.
pub open spec fn is_hook_write(data: BeforeExecutionData) -> bool {
    &&& data.opcode == Opcode::UMA(UMAOpcode::HeapWrite)
    &&& heap_page_from_base(data.base_memory_page) == BOOTLOADER_HEAP_PAGE
    &&& fat_pointer_offset(data.src0_value@) == VM_HOOK_POSITION * 32
}

/// The hook that a discriminant stands for. A number outside the table
/// stands for none.
pub open spec fn kind_of_discriminant(discriminant: nat) -> HookKind {
    if discriminant == 100 {
        HookKind::TestLog
    } else if discriminant == 101 {
        HookKind::AssertEqFailed
    } else if discriminant == 102 {
        HookKind::RequestedAssert
    } else if discriminant == 103 {
        HookKind::TestCount
    } else if discriminant == 104 {
        HookKind::TestStart
    } else {
        HookKind::NoHook
    }
}

/// The hook that an instruction raises.
pub open spec fn hook_kind(data: BeforeExecutionData) -> HookKind {
    if is_hook_write(data) {
        kind_of_discriminant(data.src1_value.value())
    } else {
        HookKind::NoHook
    }
}

/// `U256::from_big_endian` of ethereum-types and `FatPointer::from_u256` of
/// zkevm_opcode_defs. Trusted: the 32 bytes are read as one big-endian
/// number, and the pointer's offset is the low 32 bits of that number.
#[verifier::external_body]
fn fat_pointer_offset_of(word: &[u8; 32]) -> (offset: u32)
    ensures
        offset == fat_pointer_offset(word@),
{
    FatPointer::from_u256(U256::from_big_endian(word)).offset
}

impl HookKind {
    /// Tells which hook the instruction raises. It raises one only if it is
    /// a heap write, in the bootloader's frame, to the hook slot, of a
    /// discriminant from the table.
    pub fn from_opcode(data: &BeforeExecutionData) -> (kind: HookKind)
        ensures
            kind == hook_kind(*data),
    {
        let is_heap_write = match data.opcode {
            Opcode::UMA(UMAOpcode::HeapWrite) => true,
            _ => false,
        };
        if !is_heap_write || data.base_memory_page as u64 + 2 != BOOTLOADER_HEAP_PAGE as u64
            || fat_pointer_offset_of(&data.src0_value.bytes) != VM_HOOK_POSITION * 32 {
            return HookKind::NoHook;
        }
        match data.src1_value.to_u32() {
            Some(100) => HookKind::TestLog,
            Some(101) => HookKind::AssertEqFailed,
            Some(102) => HookKind::RequestedAssert,
            Some(103) => HookKind::TestCount,
            Some(104) => HookKind::TestStart,
            _ => HookKind::NoHook,
        }
    }
}

/// A hook together with its decoded parameters.
#[derive(Clone, Debug, PartialEq, Eq)]
pub enum TestVmHook {
    /// The instruction raises no hook.
    NoHook,
    /// A line for the log: a message and a number, already rendered.
    TestLog { message: String, value: String },
    /// Two numbers that a test expected to be equal were not.
    AssertEqFailed { lhs: Word, rhs: Word, message: String },
    /// The running test declares that it must halt on this assertion.
    RequestedAssert { message: String },
    /// How many tests the bootloader holds.
    TestCount { count: u32 },
    /// A test of this name begins.
    TestStart { name: String },
}

/// What a `TestVmHook` holds, as mathematical values.
pub enum HookView {
    NoHook,
    TestLog { message: Seq<char>, value: Seq<char> },
    AssertEqFailed { lhs: nat, rhs: nat, message: Seq<char> },
    RequestedAssert { message: Seq<char> },
    TestCount { count: u32 },
    TestStart { name: Seq<char> },
}

impl View for TestVmHook {
    type V = HookView;

    open spec fn view(&self) -> HookView {
        match *self {
            TestVmHook::NoHook => HookView::NoHook,
            TestVmHook::TestLog { message, value } => HookView::TestLog {
                message: message@,
                value: value@,
            },
            TestVmHook::AssertEqFailed { lhs, rhs, message } => HookView::AssertEqFailed {
                lhs: lhs.value(),
                rhs: rhs.value(),
                message: message@,
            },
            TestVmHook::RequestedAssert { message } => HookView::RequestedAssert {
                message: message@,
            },
            TestVmHook::TestCount { count } => HookView::TestCount { count },
            TestVmHook::TestStart { name } => HookView::TestStart { name: name@ },
        }
    }
}

/// What the outcome of a decoding holds, as mathematical values.
pub open spec fn hook_of(decoded: Result<TestVmHook, TracerError>) -> Result<
    HookView,
    TracerError,
> {
    match decoded {
        Ok(hook) => Ok(hook@),
        Err(error) => Err(error),
    }
}

/// The hook of kind `kind` whose parameters are `params`, or the fault in them.
///
/// A message is a word's bytes without the zero bytes that pad its end,
/// read as UTF-8. A log line holds the message of word 0 and the number of
/// word 1 as text. A failed assertion holds the numbers of words 0 and 1
/// and the message of word 3; word 2 is not used. A requested assertion and
/// a test's start hold the message of word 0. A test count holds the low 32
/// bits of word 0.
pub open spec fn decode_params(kind: HookKind, params: Seq<Seq<u8>>) -> Result<
    HookView,
    TracerError,
> {
    match kind {
        HookKind::NoHook => Ok(HookView::NoHook),
        HookKind::TestLog => match padded_message_text(params[0]) {
            Ok(message) => Ok(HookView::TestLog { message, value: number_text(params[1]) }),
            Err(error) => Err(error),
        },
        HookKind::AssertEqFailed => match padded_message_text(params[3]) {
            Ok(message) => Ok(
                HookView::AssertEqFailed {
                    lhs: be_value(params[0]),
                    rhs: be_value(params[1]),
                    message,
                },
            ),
            Err(error) => Err(error),
        },
        HookKind::RequestedAssert => match padded_message_text(params[0]) {
            Ok(message) => Ok(HookView::RequestedAssert { message }),
            Err(error) => Err(error),
        },
        HookKind::TestCount => Ok(
            HookView::TestCount { count: (be_value(params[0]) % 0x1_0000_0000) as u32 },
        ),
        HookKind::TestStart => match padded_message_text(params[0]) {
            Ok(name) => Ok(HookView::TestStart { name }),
            Err(error) => Err(error),
        },
    }
}

/// The parameter window of `memory`: four words of 32 bytes.
pub open spec fn hook_params(memory: &MemoryImage) -> Seq<Seq<u8>> {
    Seq::new(4, |i: int| hook_param_bytes(memory, i))
}

/// The hook that an instruction raises over a memory, with its parameters.
pub open spec fn decode_hook(data: BeforeExecutionData, memory: &MemoryImage) -> Result<
    HookView,
    TracerError,
> {
    decode_params(hook_kind(data), hook_params(memory))
}

impl TestVmHook {
    /// Decodes the hook that the instruction raises, if it raises one.
    ///
    /// The memory is read only where a hook is raised. The one fault is a
    /// message parameter that is not UTF-8.
    pub fn from_opcode_memory(data: &BeforeExecutionData, memory: &MemoryImage) -> (decoded:
        Result<TestVmHook, TracerError>)
        ensures
            hook_of(decoded) == decode_hook(*data, memory),
    {
        let kind = HookKind::from_opcode(data);
        match kind {
            HookKind::NoHook => Ok(TestVmHook::NoHook),
            _ => TestVmHook::from_params(kind, &get_vm_hook_params(memory)),
        }
    }

    /// Decodes the parameters of a hook of kind `kind`.
    pub(crate) fn from_params(kind: HookKind, vm_hook_params: &Vec<Word>) -> (decoded: Result<
        TestVmHook,
        TracerError,
    >)
        requires
            vm_hook_params@.len() >= 4,
        ensures
            hook_of(decoded) == decode_params(
                kind,
                Seq::new(4, |i: int| vm_hook_params@[i]@),
            ),
    {
        match kind {
            HookKind::NoHook => Ok(TestVmHook::NoHook),
            HookKind::TestLog => {
                match test_hook_as_string(&vm_hook_params[0]) {
                    Ok(message) => Ok(
                        TestVmHook::TestLog {
                            message,
                            value: test_hook_as_int_or_hex(&vm_hook_params[1]),
                        },
                    ),
                    Err(error) => Err(error),
                }
            },
            HookKind::AssertEqFailed => {
                match test_hook_as_string(&vm_hook_params[3]) {
                    Ok(message) => Ok(
                        TestVmHook::AssertEqFailed {
                            lhs: vm_hook_params[0],
                            rhs: vm_hook_params[1],
                            message,
                        },
                    ),
                    Err(error) => Err(error),
                }
            },
            HookKind::RequestedAssert => {
                match test_hook_as_string(&vm_hook_params[0]) {
                    Ok(message) => Ok(TestVmHook::RequestedAssert { message }),
                    Err(error) => Err(error),
                }
            },
            HookKind::TestCount => Ok(TestVmHook::TestCount { count: vm_hook_params[0].low_u32() }),
            HookKind::TestStart => {
                match test_hook_as_string(&vm_hook_params[0]) {
                    Ok(name) => Ok(TestVmHook::TestStart { name }),
                    Err(error) => Err(error),
                }
            },
        }
    }
}

/// The line that a log hook with the parameters `params` puts in the log:
/// the message, a space, and the number as text.
pub open spec fn test_log_text(params: Seq<Seq<u8>>) -> Result<Seq<char>, TracerError> {
    match padded_message_text(params[0]) {
        Ok(message) => Ok(message + " "@ + number_text(params[1])),
        Err(error) => Err(error),
    }
}

/// Reads the line that a log hook puts in the log from the parameter
/// window. The one fault is a message that is not UTF-8.
pub fn get_test_log(memory: &MemoryImage) -> (line: Result<String, TracerError>)
    ensures
        text_of(line) == test_log_text(hook_params(memory)),
{
    let vm_hook_params = get_vm_hook_params(memory);
    match test_hook_as_string(&vm_hook_params[0]) {
        Ok(message) => {
            let mut line = message;
            line.append(" ");
            line.append(test_hook_as_int_or_hex(&vm_hook_params[1]).as_str());
            Ok(line)
        },
        Err(error) => Err(error),
    }
}

/// An instruction that is no heap write, or whose frame does not own the
/// bootloader's heap page, or that writes elsewhere than to the hook slot,
/// raises no hook, whatever its operands and the memory hold.
pub proof fn lemma_no_hook_without_hook_write(data: BeforeExecutionData, memory: &MemoryImage)
    requires
        data.opcode != Opcode::UMA(UMAOpcode::HeapWrite) || heap_page_from_base(
            data.base_memory_page,
        ) != BOOTLOADER_HEAP_PAGE || fat_pointer_offset(data.src0_value@) != VM_HOOK_POSITION * 32,
    ensures
        hook_kind(data) == HookKind::NoHook,
        decode_hook(data, memory) == Ok::<HookView, TracerError>(HookView::NoHook),
{
}

/// A discriminant outside the table raises no hook, wherever it is written.
pub proof fn lemma_no_hook_for_unmapped_discriminant(
    data: BeforeExecutionData,
    memory: &MemoryImage,
)
    requires
        !(100 <= data.src1_value.value() <= 104),
    ensures
        hook_kind(data) == HookKind::NoHook,
        decode_hook(data, memory) == Ok::<HookView, TracerError>(HookView::NoHook),
{
}

/// Decoding is a function of the instruction and of the four words of the
/// parameter window: two decodings of one instruction over memories that
/// agree on the window give the same hook with the same parameters, or
/// the same fault.
pub proof fn lemma_decoding_is_repeatable(
    data: BeforeExecutionData,
    memory: &MemoryImage,
    again: &MemoryImage,
    first: Result<TestVmHook, TracerError>,
    second: Result<TestVmHook, TracerError>,
)
    requires
        forall|i: int| 0 <= i < 4 ==> hook_param_bytes(memory, i) == hook_param_bytes(again, i),
        hook_of(first) == decode_hook(data, memory),
        hook_of(second) == decode_hook(data, again),
    ensures
        hook_of(first) == hook_of(second),
{
    assert(hook_params(memory) =~= hook_params(again));
}

} // verus!
