use test_infra::error::TracerError;
use test_infra::hook::{
    get_test_log, BeforeExecutionData, HookKind, Opcode, TestVmHook, UMAOpcode,
};
use test_infra::memory::{
    MemoryImage, BOOTLOADER_HEAP_PAGE, VM_HOOK_PARAMS_START_POSITION, VM_HOOK_POSITION,
};
use test_infra::word::Word;

fn text_word(text: &[u8]) -> Word {
    let mut bytes = [0u8; 32];
    bytes[..text.len()].copy_from_slice(text);
    Word::from_be_bytes(bytes)
}

fn hook_write(discriminant: u64) -> BeforeExecutionData {
    BeforeExecutionData {
        opcode: Opcode::UMA(UMAOpcode::HeapWrite),
        base_memory_page: BOOTLOADER_HEAP_PAGE - 2,
        src0_value: Word::from_u64(VM_HOOK_POSITION as u64 * 32),
        src1_value: Word::from_u64(discriminant),
    }
}

fn memory_with_params(params: [Word; 4]) -> MemoryImage {
    let mut memory = MemoryImage::new();
    for (i, word) in params.iter().enumerate() {
        memory.write(
            BOOTLOADER_HEAP_PAGE,
            VM_HOOK_PARAMS_START_POSITION + i as u32,
            *word,
        );
    }
    memory
}

fn all_opcodes() -> Vec<Opcode> {
    vec![
        Opcode::Invalid,
        Opcode::Nop,
        Opcode::Add,
        Opcode::Sub,
        Opcode::Mul,
        Opcode::Div,
        Opcode::Jump,
        Opcode::Context,
        Opcode::Shift,
        Opcode::Binop,
        Opcode::Ptr,
        Opcode::NearCall,
        Opcode::Log,
        Opcode::FarCall,
        Opcode::Ret,
        Opcode::UMA(UMAOpcode::HeapRead),
        Opcode::UMA(UMAOpcode::HeapWrite),
        Opcode::UMA(UMAOpcode::AuxHeapRead),
        Opcode::UMA(UMAOpcode::AuxHeapWrite),
        Opcode::UMA(UMAOpcode::FatPointerRead),
        Opcode::UMA(UMAOpcode::StaticMemoryRead),
        Opcode::UMA(UMAOpcode::StaticMemoryWrite),
    ]
}

#[test]
fn the_hook_slot_is_at_byte_16744416() {
    assert_eq!(VM_HOOK_POSITION as u64 * 32, 16744416);
    assert_eq!(HookKind::from_opcode(&hook_write(100)), HookKind::TestLog);
}

#[test]
fn every_opcode_but_the_heap_write_raises_no_hook() {
    let memory = memory_with_params([text_word(b"log"), Word::from_u64(1), Word::zero(), Word::zero()]);
    for opcode in all_opcodes() {
        for discriminant in 100..=104 {
            let data = BeforeExecutionData { opcode, ..hook_write(discriminant) };
            let kind = HookKind::from_opcode(&data);
            let hook = TestVmHook::from_opcode_memory(&data, &memory);
            if opcode == Opcode::UMA(UMAOpcode::HeapWrite) {
                assert_ne!(kind, HookKind::NoHook);
                assert_ne!(hook, Ok(TestVmHook::NoHook));
            } else {
                assert_eq!(kind, HookKind::NoHook);
                assert_eq!(hook, Ok(TestVmHook::NoHook));
            }
        }
    }
}

#[test]
fn a_write_in_another_frame_raises_no_hook() {
    for base_memory_page in [0, 7, 9, 10, 12, u32::MAX - 1, u32::MAX] {
        let data = BeforeExecutionData { base_memory_page, ..hook_write(101) };
        assert_eq!(HookKind::from_opcode(&data), HookKind::NoHook);
    }
}

#[test]
fn a_write_to_another_slot_raises_no_hook() {
    let hook_offset = VM_HOOK_POSITION as u64 * 32;
    for offset in [0, hook_offset - 32, hook_offset - 1, hook_offset + 1, hook_offset + 32] {
        let data = BeforeExecutionData { src0_value: Word::from_u64(offset), ..hook_write(102) };
        assert_eq!(HookKind::from_opcode(&data), HookKind::NoHook);
        assert_eq!(
            TestVmHook::from_opcode_memory(&data, &MemoryImage::new()),
            Ok(TestVmHook::NoHook)
        );
    }
}

#[test]
fn only_the_offset_of_the_fat_pointer_counts() {
    let mut bytes = [0xeeu8; 32];
    bytes[28..].copy_from_slice(&(VM_HOOK_POSITION * 32).to_be_bytes());
    let data = BeforeExecutionData { src0_value: Word::from_be_bytes(bytes), ..hook_write(103) };
    assert_eq!(HookKind::from_opcode(&data), HookKind::TestCount);
    bytes[31] ^= 1;
    let data = BeforeExecutionData { src0_value: Word::from_be_bytes(bytes), ..hook_write(103) };
    assert_eq!(HookKind::from_opcode(&data), HookKind::NoHook);
}

#[test]
fn the_table_maps_five_discriminants() {
    assert_eq!(HookKind::from_opcode(&hook_write(100)), HookKind::TestLog);
    assert_eq!(HookKind::from_opcode(&hook_write(101)), HookKind::AssertEqFailed);
    assert_eq!(HookKind::from_opcode(&hook_write(102)), HookKind::RequestedAssert);
    assert_eq!(HookKind::from_opcode(&hook_write(103)), HookKind::TestCount);
    assert_eq!(HookKind::from_opcode(&hook_write(104)), HookKind::TestStart);
}

#[test]
fn a_discriminant_outside_the_table_raises_no_hook() {
    let memory = memory_with_params([text_word(b"x"), Word::zero(), Word::zero(), Word::zero()]);
    for discriminant in [0, 1, 99, 105, 1000, u32::MAX as u64, (1 << 32) + 100, u64::MAX] {
        let data = hook_write(discriminant);
        assert_eq!(HookKind::from_opcode(&data), HookKind::NoHook);
        assert_eq!(TestVmHook::from_opcode_memory(&data, &memory), Ok(TestVmHook::NoHook));
    }
    let mut bytes = [0u8; 32];
    bytes[0] = 1;
    bytes[31] = 100;
    let data = BeforeExecutionData { src1_value: Word::from_be_bytes(bytes), ..hook_write(0) };
    assert_eq!(HookKind::from_opcode(&data), HookKind::NoHook);
}

#[test]
fn a_log_hook_holds_its_message_and_its_number() {
    let memory =
        memory_with_params([text_word(b"gas left"), Word::from_u64(42), Word::zero(), Word::zero()]);
    assert_eq!(
        TestVmHook::from_opcode_memory(&hook_write(100), &memory),
        Ok(TestVmHook::TestLog { message: "gas left".to_string(), value: "42".to_string() })
    );
    assert_eq!(get_test_log(&memory), Ok("gas left 42".to_string()));
}

#[test]
fn a_log_hook_shows_a_large_number_in_hexadecimal() {
    let memory = memory_with_params([
        text_word(b"hash"),
        Word::from_be_bytes([0xab; 32]),
        Word::zero(),
        Word::zero(),
    ]);
    assert_eq!(
        get_test_log(&memory),
        Ok(format!("hash 0x{}", "ab".repeat(32)))
    );
}

#[test]
fn a_failed_assertion_holds_both_numbers_and_the_message_of_word_3() {
    let memory = memory_with_params([
        Word::from_u64(1),
        Word::from_u64(2),
        text_word(b"not the message"),
        text_word(b"balances differ"),
    ]);
    assert_eq!(
        TestVmHook::from_opcode_memory(&hook_write(101), &memory),
        Ok(TestVmHook::AssertEqFailed {
            lhs: Word::from_u64(1),
            rhs: Word::from_u64(2),
            message: "balances differ".to_string(),
        })
    );
}

#[test]
fn a_failed_assertion_does_not_read_word_2() {
    let memory = memory_with_params([
        Word::from_u64(1),
        Word::from_u64(2),
        Word::from_be_bytes([0xff; 32]),
        text_word(b"m"),
    ]);
    assert!(TestVmHook::from_opcode_memory(&hook_write(101), &memory).is_ok());
}

#[test]
fn a_requested_assertion_holds_its_trimmed_message() {
    let memory =
        memory_with_params([text_word(b"ok"), Word::zero(), Word::zero(), Word::zero()]);
    assert_eq!(
        TestVmHook::from_opcode_memory(&hook_write(102), &memory),
        Ok(TestVmHook::RequestedAssert { message: "ok".to_string() })
    );
}

#[test]
fn a_test_count_is_cut_to_32_bits() {
    let memory =
        memory_with_params([Word::from_u64(5), Word::zero(), Word::zero(), Word::zero()]);
    assert_eq!(
        TestVmHook::from_opcode_memory(&hook_write(103), &memory),
        Ok(TestVmHook::TestCount { count: 5 })
    );
    let memory = memory_with_params([
        Word::from_u64((7 << 32) + 5),
        Word::zero(),
        Word::zero(),
        Word::zero(),
    ]);
    assert_eq!(
        TestVmHook::from_opcode_memory(&hook_write(103), &memory),
        Ok(TestVmHook::TestCount { count: 5 })
    );
    let memory = memory_with_params([
        Word::from_be_bytes([0xff; 32]),
        Word::zero(),
        Word::zero(),
        Word::zero(),
    ]);
    assert_eq!(
        TestVmHook::from_opcode_memory(&hook_write(103), &memory),
        Ok(TestVmHook::TestCount { count: u32::MAX })
    );
}

#[test]
fn a_test_start_holds_the_name() {
    let memory = memory_with_params([
        text_word(b"TEST_transfer"),
        Word::zero(),
        Word::zero(),
        Word::zero(),
    ]);
    assert_eq!(
        TestVmHook::from_opcode_memory(&hook_write(104), &memory),
        Ok(TestVmHook::TestStart { name: "TEST_transfer".to_string() })
    );
}

#[test]
fn a_message_that_is_not_utf8_is_a_fault_of_the_hook_that_reads_it() {
    let bad = text_word(&[b'a', 0x80]);
    let memory = memory_with_params([bad, Word::zero(), Word::zero(), Word::zero()]);
    for discriminant in [100, 102, 104] {
        assert_eq!(
            TestVmHook::from_opcode_memory(&hook_write(discriminant), &memory),
            Err(TracerError::InvalidDebugMessage)
        );
    }
    assert_eq!(get_test_log(&memory), Err(TracerError::InvalidDebugMessage));
    assert!(TestVmHook::from_opcode_memory(&hook_write(101), &memory).is_ok());
    assert!(TestVmHook::from_opcode_memory(&hook_write(103), &memory).is_ok());
    assert_eq!(
        TestVmHook::from_opcode_memory(&hook_write(99), &memory),
        Ok(TestVmHook::NoHook)
    );
    let memory = memory_with_params([Word::zero(), Word::zero(), Word::zero(), bad]);
    assert_eq!(
        TestVmHook::from_opcode_memory(&hook_write(101), &memory),
        Err(TracerError::InvalidDebugMessage)
    );
}

#[test]
fn decoding_twice_gives_the_same_hook() {
    let memory = memory_with_params([
        Word::from_be_bytes([0x11; 32]),
        Word::from_u64(u64::MAX),
        Word::zero(),
        text_word(b"again"),
    ]);
    let first = TestVmHook::from_opcode_memory(&hook_write(101), &memory);
    let second = TestVmHook::from_opcode_memory(&hook_write(101), &memory);
    assert_eq!(first, second);
    assert!(matches!(first, Ok(TestVmHook::AssertEqFailed { .. })));
}

#[test]
fn decoding_reads_the_parameter_window_only() {
    let params = [text_word(b"same"), Word::from_u64(3), Word::zero(), Word::zero()];
    let memory = memory_with_params(params);
    let mut other = memory_with_params(params);
    other.write(BOOTLOADER_HEAP_PAGE, VM_HOOK_POSITION, Word::from_u64(100));
    other.write(BOOTLOADER_HEAP_PAGE, 0, Word::from_be_bytes([0xff; 32]));
    other.write(0, VM_HOOK_PARAMS_START_POSITION, Word::from_be_bytes([0xff; 32]));
    for discriminant in 100..=104 {
        assert_eq!(
            TestVmHook::from_opcode_memory(&hook_write(discriminant), &memory),
            TestVmHook::from_opcode_memory(&hook_write(discriminant), &other)
        );
    }
}
