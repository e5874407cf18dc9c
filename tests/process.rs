use kernel::process::{
    Priority, Process, ProcessFlags, ProcessTable, Quantum, StackFrame, MAX_PROCESSES,
    NAME_CAPACITY,
};

#[test]
fn test_new_flags_are_runnable() {
    let flags = ProcessFlags::new();
    assert!(flags.is_runnable(), "a new bitset is runnable");
}

#[test]
fn test_set_sending_flag() {
    let mut flags = ProcessFlags::new();
    flags.set(ProcessFlags::SENDING);

    assert!(flags.is_set(ProcessFlags::SENDING), "SENDING is set");
    assert!(!flags.is_runnable(), "a sending process is not runnable");
}

#[test]
fn test_set_receiving_flag() {
    let mut flags = ProcessFlags::new();
    flags.set(ProcessFlags::RECEIVING);

    assert!(flags.is_set(ProcessFlags::RECEIVING), "RECEIVING is set");
    assert!(!flags.is_runnable(), "a receiving process is not runnable");
}

#[test]
fn test_set_multiple_flags() {
    let mut flags = ProcessFlags::new();
    flags.set(ProcessFlags::SENDING);
    flags.set(ProcessFlags::RECEIVING);

    assert!(flags.is_set(ProcessFlags::SENDING), "SENDING is set");
    assert!(flags.is_set(ProcessFlags::RECEIVING), "RECEIVING is set");
    assert!(!flags.is_runnable(), "with several flags set the process is not runnable");
}

#[test]
fn test_clear_flag() {
    let mut flags = ProcessFlags::new();
    flags.set(ProcessFlags::SENDING);
    flags.clear(ProcessFlags::SENDING);

    assert!(!flags.is_set(ProcessFlags::SENDING), "SENDING is cleared");
    assert!(flags.is_runnable(), "runnable again after clearing");
}

#[test]
fn test_slot_free_flag() {
    let mut flags = ProcessFlags::new();
    flags.set(ProcessFlags::SLOT_FREE);

    assert!(flags.is_set(ProcessFlags::SLOT_FREE), "SLOT_FREE is set");
    assert!(!flags.is_runnable(), "a free slot is not runnable");
}

#[test]
fn test_default_priority() {
    let priority = Priority::new(Priority::USER_Q);
    assert_eq!(priority.value(), Priority::USER_Q, "default priority is USER_Q");
}

#[test]
fn test_task_priority() {
    let priority = Priority::new(Priority::TASK_Q);
    assert_eq!(priority.value(), 0, "TASK_Q is the highest priority (0)");
}

#[test]
fn test_idle_priority() {
    let priority = Priority::new(Priority::IDLE_Q);
    assert_eq!(priority.value(), 15, "IDLE_Q is the lowest priority (15)");
}

#[test]
fn test_priority_ordering() {
    let high = Priority::new(Priority::TASK_Q);
    let medium = Priority::new(Priority::USER_Q);
    let low = Priority::new(Priority::IDLE_Q);

    assert!(high < medium, "TASK_Q < USER_Q");
    assert!(medium < low, "USER_Q < IDLE_Q");
}

#[test]
fn test_new_process() {
    let process = Process::new(1);

    assert_eq!(process.pid, 1, "pid is 1");
    assert!(process.is_runnable(), "a new process is runnable");
    assert_eq!(process.priority.value(), Priority::USER_Q, "default priority is USER_Q");
}

#[test]
fn test_process_set_name() {
    let mut process = Process::new(1);
    process.set_name("init");

    assert_eq!(process.name_str(), "init", "the name is 'init'");
}

#[test]
fn test_process_set_long_name() {
    let mut process = Process::new(1);
    process.set_name("this_is_a_very_long_process_name");

    assert!(process.name_str().len() <= 15, "the name has at most 15 bytes");
}

#[test]
fn test_process_flags_blocking() {
    let mut process = Process::new(1);
    process.flags.set(ProcessFlags::SENDING);

    assert!(!process.is_runnable(), "a sending process is not runnable");
}

#[test]
fn test_process_table_creation() {
    let mut table = ProcessTable::new();

    let proc = table.get_mut(0).unwrap();
    assert_eq!(proc.pid, 0, "slot 0 starts with pid 0");
}

#[test]
fn test_get_mut_out_of_bounds() {
    let mut table = ProcessTable::new();

    assert!(table.get_mut(MAX_PROCESSES).is_none(), "out of range gives None");
    assert!(table.get_mut(MAX_PROCESSES + 1).is_none(), "out of range gives None");
}

#[test]
fn test_find_free_slot() {
    let table = ProcessTable::new();

    let slot = table.find_free_slot();
    assert!(slot.is_some(), "a free slot is found");
}

#[test]
fn test_process_table_modify() {
    let mut table = ProcessTable::new();

    {
        let proc = table.get_mut(0).unwrap();
        proc.pid = 42;
        proc.set_name("test");
    }

    let proc = table.get_mut(0).unwrap();
    assert_eq!(proc.pid, 42, "the pid was changed");
    assert_eq!(proc.name_str(), "test", "the name was changed");
}

#[test]
fn test_stack_frame_new() {
    let frame = StackFrame::new();

    assert_eq!(frame.rax, 0, "rax starts at 0");
    assert_eq!(frame.rip, 0, "rip starts at 0");
    assert_eq!(frame.rsp, 0, "rsp starts at 0");
}

#[test]
fn test_stack_frame_size() {
    // 15 general registers + rflags + rip + rsp, 8 bytes each
    assert_eq!(core::mem::size_of::<StackFrame>(), 144, "StackFrame is 144 bytes");
}

#[test]
fn every_single_bit_sets_and_clears() {
    for b in 0..8u32 {
        let bit: u8 = 1 << b;
        let mut flags = ProcessFlags::new();
        flags.set(bit);
        assert!(flags.is_set(bit));
        assert!(!flags.is_runnable());
        flags.clear(bit);
        assert!(!flags.is_set(bit));
        assert!(flags.is_runnable());
    }
}

#[test]
fn clearing_one_of_two_bits_keeps_the_other() {
    let mut flags = ProcessFlags::new();
    flags.set(ProcessFlags::SENDING);
    flags.set(ProcessFlags::RECEIVING);
    flags.clear(ProcessFlags::SENDING);
    assert!(!flags.is_set(ProcessFlags::SENDING));
    assert!(flags.is_set(ProcessFlags::RECEIVING));
    assert!(!flags.is_runnable());
}

#[test]
fn empty_mask_is_never_set() {
    let mut flags = ProcessFlags::new();
    flags.set(ProcessFlags::SENDING);
    assert!(!flags.is_set(0));
}

#[test]
fn priorities_compare_by_value() {
    assert!(Priority::new(3) < Priority::new(4));
    assert!(Priority::new(9) > Priority::new(2));
    assert!(Priority::new(5) == Priority::new(5));
    assert_eq!(
        Priority::new(Priority::IDLE_Q).partial_cmp(&Priority::new(Priority::TASK_Q)),
        Some(core::cmp::Ordering::Greater)
    );
}

#[test]
fn quantum_keeps_its_ticks() {
    assert_eq!(Quantum::DEFAULT, 8);
    assert_eq!(Quantum::new(3).value(), 3);
    assert_eq!(Quantum::new(Quantum::DEFAULT).value(), 8);
}

#[test]
fn new_process_starts_in_the_initial_state() {
    let p = Process::new(-3);
    assert_eq!(p.pid, -3);
    assert_eq!(p.flags, ProcessFlags::new());
    assert_eq!(p.max_priority.value(), Priority::USER_Q);
    assert_eq!(p.ticks_left, 8);
    assert_eq!(p.quantum_size, 8);
    assert_eq!(p.name, [0u8; NAME_CAPACITY]);
    assert_eq!(p.registers.rflags, 0);
    assert_eq!(p.registers.r15, 0);
    assert_eq!(p.name_str(), "");
}

#[test]
fn long_name_keeps_the_first_fifteen_bytes() {
    let mut p = Process::new(1);
    p.set_name("this_is_a_very_long_process_name");
    assert_eq!(p.name_str(), "this_is_a_very_");
    assert_eq!(p.name[15], 0);
}

#[test]
fn name_of_exactly_fifteen_bytes_is_kept_whole() {
    let mut p = Process::new(1);
    p.set_name("abcdefghijklmno");
    assert_eq!(p.name_str(), "abcdefghijklmno");
}

#[test]
fn name_of_sixteen_bytes_loses_the_last() {
    let mut p = Process::new(1);
    p.set_name("abcdefghijklmnop");
    assert_eq!(p.name_str(), "abcdefghijklmno");
}

#[test]
fn shorter_name_replaces_a_longer_one() {
    let mut p = Process::new(1);
    p.set_name("a_rather_long_nm");
    p.set_name("sh");
    assert_eq!(p.name_str(), "sh");
    assert_eq!(&p.name[..3], b"sh\0");
    assert_eq!(p.name[3], b'a');
}

#[test]
fn multibyte_name_that_fits_reads_back() {
    let mut p = Process::new(1);
    p.set_name("δέλτα");
    assert_eq!(p.name_str(), "δέλτα");
}

#[test]
fn name_cut_inside_a_character_reads_as_empty() {
    let mut p = Process::new(1);
    // fourteen ASCII bytes, then a two-byte character that the cut splits
    p.set_name("abcdefghijklmné");
    assert_eq!(p.name_str(), "");
}

#[test]
fn name_with_a_nul_reads_up_to_it() {
    let mut p = Process::new(1);
    p.set_name("ab\0cd");
    assert_eq!(p.name_str(), "ab");
}

#[test]
fn invalid_bytes_in_the_buffer_read_as_empty() {
    let mut p = Process::new(1);
    p.name[0] = 0xff;
    p.name[1] = 0;
    assert_eq!(p.name_str(), "");
}

#[test]
fn every_slot_in_range_is_present() {
    let mut table = ProcessTable::new();
    for i in 0..MAX_PROCESSES {
        assert!(table.get_mut(i).is_some());
    }
    for i in MAX_PROCESSES..MAX_PROCESSES + 4 {
        assert!(table.get_mut(i).is_none());
    }
    assert!(table.get_mut(usize::MAX).is_none());
}

#[test]
fn fresh_table_first_free_slot_is_one() {
    let table = ProcessTable::new();
    assert_eq!(table.find_free_slot(), Some(1));
}

#[test]
fn full_table_has_no_free_slot() {
    let mut table = ProcessTable::new();
    for i in 1..MAX_PROCESSES {
        table.get_mut(i).unwrap().pid = i as i32;
    }
    assert_eq!(table.find_free_slot(), None);
}

#[test]
fn slot_free_bit_frees_slot_zero() {
    let mut table = ProcessTable::new();
    for i in 1..MAX_PROCESSES {
        table.get_mut(i).unwrap().pid = 100 + i as i32;
    }
    table.get_mut(0).unwrap().flags.set(ProcessFlags::SLOT_FREE);
    assert_eq!(table.find_free_slot(), Some(0));
}

#[test]
fn slot_free_bit_wins_over_a_nonzero_pid() {
    let mut table = ProcessTable::new();
    for i in 1..MAX_PROCESSES {
        table.get_mut(i).unwrap().pid = 7;
    }
    table.get_mut(9).unwrap().flags.set(ProcessFlags::SLOT_FREE);
    assert_eq!(table.find_free_slot(), Some(9));
}

#[test]
fn allocate_name_and_find_next_slot() {
    let mut table = ProcessTable::new();
    let first = table.find_free_slot();
    assert_eq!(first, Some(1));
    let index = first.unwrap();
    {
        let p = table.get_mut(index).unwrap();
        p.pid = 42;
        p.set_name("shell");
    }
    let p = table.get_mut(index).unwrap();
    assert_eq!(p.pid, 42);
    assert_eq!(p.name_str(), "shell");
    assert_eq!(table.find_free_slot(), Some(2));
}
