//! Process control blocks and the process table.
use vstd::prelude::*;
use core::cmp::Ordering;
use vstd::std_specs::cmp::PartialOrdSpec;
use vstd::string::StringSliceAdditionalSpecFns;
use vstd::utf8::{decode_utf8, encode_utf8, is_char_boundary, valid_utf8};

verus! {

/// Process identifier. Zero and positive values denote user processes.
pub type ProcessId = i32;

/// Number of slots in the process table.
pub const MAX_PROCESSES: usize = 16;

/// `bits` with every bit of `flag` raised.
pub open spec fn flags_with(bits: u8, flag: u8) -> u8 {
    bits | flag
}

/// `bits` with every bit of `flag` lowered.
pub open spec fn flags_without(bits: u8, flag: u8) -> u8 {
    bits & !flag
}

/// Whether `bits` shares at least one bit with `flag`.
pub open spec fn flags_intersect(bits: u8, flag: u8) -> bool {
    bits & flag != 0
}

/// Scheduling state bits of a process. A process may run only while no bit is set.
#[derive(Debug, Clone, Copy, PartialEq, Eq, Structural)]
pub struct ProcessFlags(u8);

impl View for ProcessFlags {
    type V = u8;

    closed spec fn view(&self) -> u8 {
        self.0
    }
}

impl ProcessFlags {
    /// The slot holding this process is free.
    pub const SLOT_FREE: u8 = 0x01;
    /// The process is blocked sending a message.
    pub const SENDING: u8 = 0x04;
    /// The process is blocked waiting for a message.
    pub const RECEIVING: u8 = 0x08;

    /// An empty bitset: no bit set, so runnable.
    pub fn new() -> (r: Self)
        ensures
            r@ == 0,
    {
        ProcessFlags(0)
    }

    /// Raises every bit of `flag`.
    pub fn set(&mut self, flag: u8)
        ensures
            final(self)@ == flags_with(old(self)@, flag),
    {
        self.0 = self.0 | flag;
    }

    /// Lowers every bit of `flag`.
    pub fn clear(&mut self, flag: u8)
        ensures
            final(self)@ == flags_without(old(self)@, flag),
    {
        self.0 = self.0 & !flag;
    }

    /// Whether any bit of `flag` is set.
    pub fn is_set(&self, flag: u8) -> (r: bool)
        ensures
            r == flags_intersect(self@, flag),
    {
        self.0 & flag != 0
    }

    /// Whether no bit at all is set.
    pub fn is_runnable(&self) -> (r: bool)
        ensures
            r == (self@ == 0),
    {
        self.0 == 0
    }
}

/// Raising a nonzero flag on an empty bitset makes it read as set; lowering it
/// again makes it read as clear.
pub proof fn set_then_clear_round_trip(flag: u8)
    requires
        flag != 0,
    ensures
        flags_intersect(flags_with(0, flag), flag),
        !flags_intersect(flags_without(flags_with(0, flag), flag), flag),
{
    assert((0u8 | flag) & flag != 0) by (bit_vector)
        requires
            flag != 0,
    ;
    assert(((0u8 | flag) & !flag) & flag == 0) by (bit_vector);
}

/// A bitset is runnable exactly when no flag reads as set on it.
pub proof fn runnable_iff_no_flag_set(bits: u8)
    ensures
        (bits == 0) <==> (forall|f: u8| !#[trigger] flags_intersect(bits, f)),
{
    if bits != 0 {
        assert(bits & bits != 0) by (bit_vector)
            requires
                bits != 0,
        ;
        assert(flags_intersect(bits, bits));
    } else {
        assert forall|f: u8| !#[trigger] flags_intersect(bits, f) by {
            assert(0u8 & f == 0) by (bit_vector);
        }
    }
}

/// Raising two flags of distinct bits and then lowering the first leaves the
/// second set, and the bitset not runnable.
pub proof fn clearing_one_flag_keeps_the_other(a: u8, b: u8)
    requires
        a & b == 0,
        b != 0,
    ensures
        flags_intersect(flags_without(flags_with(flags_with(0, a), b), a), b),
        flags_without(flags_with(flags_with(0, a), b), a) != 0,
{
    assert((((0u8 | a) | b) & !a) & b == b) by (bit_vector)
        requires
            a & b == 0,
    ;
    assert((((0u8 | a) | b) & !a) != 0) by (bit_vector)
        requires
            a & b == 0,
            b != 0,
    ;
}

/// Scheduling priority: 0 is the highest, 15 the lowest. Ordered by value.
#[derive(Debug, Clone, Copy, PartialEq, Eq, Structural, Ord)]
pub struct Priority(u8);

impl View for Priority {
    type V = u8;

    closed spec fn view(&self) -> u8 {
        self.0
    }
}

/// Orders two priority values numerically.
pub open spec fn numeric_order(a: u8, b: u8) -> Ordering {
    if a < b {
        Ordering::Less
    } else if a == b {
        Ordering::Equal
    } else {
        Ordering::Greater
    }
}

impl PartialOrd for Priority {
    fn partial_cmp(&self, other: &Priority) -> (r: Option<Ordering>) {
        if self.0 < other.0 {
            Some(Ordering::Less)
        } else if self.0 == other.0 {
            Some(Ordering::Equal)
        } else {
            Some(Ordering::Greater)
        }
    }
}

impl vstd::std_specs::cmp::PartialOrdSpecImpl for Priority {
    open spec fn obeys_partial_cmp_spec() -> bool {
        true
    }

    open spec fn partial_cmp_spec(&self, other: &Priority) -> Option<Ordering> {
        Some(numeric_order(self@, other@))
    }
}

impl Priority {
    /// Kernel tasks: the highest priority.
    pub const TASK_Q: u8 = 0;
    /// Default for user processes.
    pub const USER_Q: u8 = 7;
    /// The idle process: the lowest priority.
    pub const IDLE_Q: u8 = 15;

    /// A priority of the given value; the value is not checked against the range.
    pub fn new(priority: u8) -> (r: Self)
        ensures
            r@ == priority,
    {
        Priority(priority)
    }

    /// The numeric value.
    pub fn value(&self) -> (r: u8)
        ensures
            r == self@,
    {
        self.0
    }
}

/// Priorities are totally ordered by their numeric value, so the named points
/// come in the order kernel task, user, idle.
pub proof fn priority_order_is_numeric(a: Priority, b: Priority)
    ensures
        a.partial_cmp_spec(&b) is Some,
        a.partial_cmp_spec(&b) == Some(Ordering::Less) <==> a@ < b@,
        a.partial_cmp_spec(&b) == Some(Ordering::Equal) <==> a@ == b@,
        a.partial_cmp_spec(&b) == Some(Ordering::Greater) <==> a@ > b@,
        Priority::TASK_Q < Priority::USER_Q < Priority::IDLE_Q,
{
}

/// Time quantum in timer ticks.
#[derive(Debug, Clone, Copy)]
pub struct Quantum(u8);

impl View for Quantum {
    type V = u8;

    closed spec fn view(&self) -> u8 {
        self.0
    }
}

impl Quantum {
    /// Default number of ticks in a quantum.
    pub const DEFAULT: u8 = 8;

    /// A quantum of `ticks` ticks.
    pub fn new(ticks: u8) -> (r: Self)
        ensures
            r@ == ticks,
    {
        Quantum(ticks)
    }

    /// The number of ticks.
    pub fn value(&self) -> (r: u8)
        ensures
            r == self@,
    {
        self.0
    }
}

/// Registers saved on a context switch, in the x86_64 calling convention's
/// order: fifteen general registers, then RFLAGS, RIP and RSP, eight bytes
/// each, 144 bytes in all.
#[derive(Debug, Clone, Copy)]
pub struct StackFrame {
    pub rax: u64,
    pub rbx: u64,
    pub rcx: u64,
    pub rdx: u64,
    pub rsi: u64,
    pub rdi: u64,
    pub rbp: u64,
    pub r8: u64,
    pub r9: u64,
    pub r10: u64,
    pub r11: u64,
    pub r12: u64,
    pub r13: u64,
    pub r14: u64,
    pub r15: u64,
    /// RFLAGS at the time of the interrupt.
    pub rflags: u64,
    /// Instruction pointer to resume at.
    pub rip: u64,
    /// Stack pointer to resume with.
    pub rsp: u64,
}

/// The frame with every register zero.
pub open spec fn zeroed_frame() -> StackFrame {
    StackFrame {
        rax: 0,
        rbx: 0,
        rcx: 0,
        rdx: 0,
        rsi: 0,
        rdi: 0,
        rbp: 0,
        r8: 0,
        r9: 0,
        r10: 0,
        r11: 0,
        r12: 0,
        r13: 0,
        r14: 0,
        r15: 0,
        rflags: 0,
        rip: 0,
        rsp: 0,
    }
}

impl StackFrame {
    /// A frame with every register zero.
    pub fn new() -> (r: Self)
        ensures
            r == zeroed_frame(),
    {
        StackFrame {
            rax: 0,
            rbx: 0,
            rcx: 0,
            rdx: 0,
            rsi: 0,
            rdi: 0,
            rbp: 0,
            r8: 0,
            r9: 0,
            r10: 0,
            r11: 0,
            r12: 0,
            r13: 0,
            r14: 0,
            r15: 0,
            rflags: 0,
            rip: 0,
            rsp: 0,
        }
    }
}

impl Default for StackFrame {
    fn default() -> (r: Self)
        ensures
            r == zeroed_frame(),
    {
        StackFrame::new()
    }
}

/// Bytes a process name occupies, terminating NUL included.
pub const NAME_CAPACITY: usize = 16;

/// Index of the first NUL in `s` at or after `i`, or `s.len()` if none.
pub open spec fn text_end(s: Seq<u8>, i: int) -> int
    decreases s.len() - i,
{
    if i < 0 || i >= s.len() || s[i] == 0 {
        i
    } else {
        text_end(s, i + 1)
    }
}

/// The text a name buffer holds: its bytes before the first NUL, decoded as
/// UTF-8, or the empty text where they are not valid UTF-8.
pub open spec fn name_text(name: Seq<u8>) -> Seq<char> {
    let bytes = name.take(text_end(name, 0));
    if valid_utf8(bytes) {
        decode_utf8(bytes)
    } else {
        Seq::empty()
    }
}

/// How many bytes of `text` a name buffer keeps: all of them, up to one less
/// than its capacity.
pub open spec fn kept_len(text: Seq<u8>) -> int {
    if text.len() < NAME_CAPACITY - 1 {
        text.len() as int
    } else {
        NAME_CAPACITY - 1
    }
}

/// The name buffer `name` after storing `text`: the kept bytes, a NUL, and
/// the rest of the buffer as it was.
pub open spec fn stored_name(name: Seq<u8>, text: Seq<u8>) -> Seq<u8> {
    let n = kept_len(text);
    text.take(n) + seq![0u8] + name.skip(n + 1)
}

/// A process control block.
#[derive(Debug, Clone, Copy)]
pub struct Process {
    /// Saved registers.
    pub registers: StackFrame,
    /// Process identifier.
    pub pid: ProcessId,
    /// Scheduling state bits.
    pub flags: ProcessFlags,
    /// Current priority.
    pub priority: Priority,
    /// Ceiling kept for priority inheritance: a process blocking a
    /// higher-priority one is to run at that priority until the block ends.
    /// No protocol uses it yet.
    pub max_priority: Priority,
    /// Ticks left in the current quantum.
    pub ticks_left: u8,
    /// Ticks in a full quantum.
    pub quantum_size: u8,
    /// NUL-terminated name.
    pub name: [u8; NAME_CAPACITY],
}

impl Process {
    /// Whether this is the state `new(pid)` produces.
    pub open spec fn is_initial(&self, pid: ProcessId) -> bool {
        &&& self.registers == zeroed_frame()
        &&& self.pid == pid
        &&& self.flags@ == 0
        &&& self.priority@ == Priority::USER_Q
        &&& self.max_priority@ == Priority::USER_Q
        &&& self.ticks_left == Quantum::DEFAULT
        &&& self.quantum_size == Quantum::DEFAULT
        &&& self.name@ == Seq::new(NAME_CAPACITY as nat, |i: int| 0u8)
    }

    /// A runnable process with zeroed registers, user priority, a default
    /// quantum and an empty name.
    pub fn new(pid: ProcessId) -> (r: Self)
        ensures
            r.is_initial(pid),
    {
        let r = Process {
            registers: StackFrame::new(),
            pid,
            flags: ProcessFlags::new(),
            priority: Priority::new(Priority::USER_Q),
            max_priority: Priority::new(Priority::USER_Q),
            ticks_left: Quantum::DEFAULT,
            quantum_size: Quantum::DEFAULT,
            name: [0u8; NAME_CAPACITY],
        };
        assert(r.name@ =~= Seq::new(NAME_CAPACITY as nat, |i: int| 0u8));
        r
    }

    /// Whether no flag is set.
    pub fn is_runnable(&self) -> (r: bool)
        ensures
            r == (self.flags@ == 0),
    {
        self.flags.is_runnable()
    }

    /// Stores `name`, cut to `NAME_CAPACITY - 1` bytes, followed by a NUL.
    /// Longer input is truncated without error.
    pub fn set_name(&mut self, name: &str)
        ensures
            final(self).name@ == stored_name(old(self).name@, name.spec_bytes()),
            final(self).registers == old(self).registers,
            final(self).pid == old(self).pid,
            final(self).flags == old(self).flags,
            final(self).priority == old(self).priority,
            final(self).max_priority == old(self).max_priority,
            final(self).ticks_left == old(self).ticks_left,
            final(self).quantum_size == old(self).quantum_size,
    {
        let bytes = name.as_bytes();
        let len: usize = if bytes.len() < NAME_CAPACITY - 1 {
            bytes.len()
        } else {
            NAME_CAPACITY - 1
        };
        let ghost text = name.spec_bytes();
        let ghost before = self.name@;
        let mut i: usize = 0;
        while i < len
            invariant
                len == kept_len(text),
                bytes@ == text,
                i <= len,
                self.name@.len() == NAME_CAPACITY,
                forall|j: int| 0 <= j < i ==> self.name@[j] == text[j],
                forall|j: int| i <= j < NAME_CAPACITY ==> self.name@[j] == before[j],
                self.registers == old(self).registers,
                self.pid == old(self).pid,
                self.flags == old(self).flags,
                self.priority == old(self).priority,
                self.max_priority == old(self).max_priority,
                self.ticks_left == old(self).ticks_left,
                self.quantum_size == old(self).quantum_size,
            decreases len - i,
        {
            self.name[i] = bytes[i];
            i = i + 1;
        }
        self.name[len] = 0;
        assert(self.name@ =~= stored_name(before, text));
    }

    /// The name: the bytes before the first NUL, as text. Bytes that are not
    /// valid UTF-8 give the empty text.
    pub fn name_str(&self) -> (r: &str)
        ensures
            r@ == name_text(self.name@),
    {
        let ghost s = self.name@;
        let mut end: usize = 0;
        while end < NAME_CAPACITY && self.name[end] != 0
            invariant
                end <= NAME_CAPACITY,
                s == self.name@,
                s.len() == NAME_CAPACITY,
                text_end(s, end as int) == text_end(s, 0),
            decreases NAME_CAPACITY - end,
        {
            end = end + 1;
        }
        let bytes = vstd::slice::slice_subrange(self.name.as_slice(), 0, end);
        assert(bytes@ =~= s.take(text_end(s, 0)));
        match utf8_text(bytes) {
            Some(text) => {
                proof {
                    broadcast use vstd::utf8::encode_utf8_decode_utf8;
                }
                text
            },
            None => {
                proof {
                    reveal_strlit("");
                }
                ""
            },
        }
    }
}

/// Where `text_end` stops: at or after `i`, with no NUL before it, and at a
/// NUL or the end.
proof fn text_end_bounds(s: Seq<u8>, i: int)
    requires
        0 <= i <= s.len(),
    ensures
        i <= text_end(s, i) <= s.len(),
        forall|j: int| i <= j < text_end(s, i) ==> s[j] != 0,
        text_end(s, i) < s.len() ==> s[text_end(s, i)] == 0,
    decreases s.len() - i,
{
    if i < s.len() && s[i] != 0 {
        text_end_bounds(s, i + 1);
    }
}

/// Whether `bytes` fit a name buffer whole and hold no NUL.
pub open spec fn bytes_fit_without_nul(bytes: Seq<u8>) -> bool {
    &&& bytes.len() <= NAME_CAPACITY - 1
    &&& forall|j: int| 0 <= j < bytes.len() ==> bytes[j] != 0
}

/// Storing a text and reading the name back gives a prefix of the text's
/// bytes no longer than `NAME_CAPACITY - 1`. When the kept bytes hold no NUL
/// and end on a character boundary, the name is exactly those bytes; so a text
/// that fits and holds no NUL reads back unchanged.
pub proof fn set_name_then_read(name: Seq<u8>, text: &str)
    requires
        name.len() == NAME_CAPACITY,
    ensures
        ({
            let bytes = text.spec_bytes();
            let read = encode_utf8(name_text(stored_name(name, bytes)));
            &&& read.len() <= NAME_CAPACITY - 1
            &&& read == bytes.take(read.len() as int)
            &&& (forall|j: int| 0 <= j < kept_len(bytes) ==> bytes[j] != 0) && is_char_boundary(
                bytes,
                kept_len(bytes),
            ) ==> read == bytes.take(kept_len(bytes))
        }),
        bytes_fit_without_nul(text.spec_bytes()) ==> name_text(
            stored_name(name, text.spec_bytes()),
        ) == text@,
{
    broadcast use vstd::utf8::group_utf8_lib;

    let bytes = text.spec_bytes();
    let n = kept_len(bytes);
    let stored = stored_name(name, bytes);
    text_end_bounds(stored, 0);
    let e = text_end(stored, 0);
    assert(stored[n] == 0);
    assert(e <= n);
    let prefix = stored.take(e);
    assert(prefix =~= bytes.take(e));
    if valid_utf8(prefix) {
        assert(encode_utf8(name_text(stored)) == prefix);
    } else {
        assert(name_text(stored) =~= Seq::<char>::empty());
        assert(encode_utf8(Seq::<char>::empty()) =~= Seq::<u8>::empty());
    }
    if (forall|j: int| 0 <= j < n ==> bytes[j] != 0) && is_char_boundary(bytes, n) {
        assert forall|j: int| 0 <= j < n implies stored[j] != 0 by {
            assert(stored[j] == bytes[j]);
        }
        assert(e == n);
        assert(bytes.take(n) =~= bytes.subrange(0, n));
        assert(valid_utf8(bytes.subrange(0, n)));
    }
    if bytes_fit_without_nul(bytes) {
        assert forall|j: int| 0 <= j < n implies stored[j] != 0 by {
            assert(stored[j] == bytes[j]);
        }
        assert(e == n);
        assert(prefix =~= bytes);
        assert(name_text(stored) == decode_utf8(encode_utf8(text@)));
    }
}

/// Relies on `core::str::from_utf8`: it succeeds exactly on valid UTF-8 and
/// then views the same bytes as text.
#[verifier::external_body]
fn utf8_text(bytes: &[u8]) -> (r: Option<&str>)
    ensures
        r is Some <==> valid_utf8(bytes@),
        r matches Some(text) ==> text.spec_bytes() == bytes@,
{
    core::str::from_utf8(bytes).ok()
}

/// Whether the process in slot `index` counts as free: its slot-free bit is
/// set, or it was never allocated. Identifier 0 marks a slot that was never
/// allocated, except slot 0, which is reserved and never free on that ground.
pub open spec fn slot_is_free(p: Process, index: int) -> bool {
    flags_intersect(p.flags@, ProcessFlags::SLOT_FREE) || (p.pid == 0 && index > 0)
}

/// The lowest free slot at or after `i`, if any.
pub open spec fn first_free_from(slots: Seq<Process>, i: int) -> Option<usize>
    decreases slots.len() - i,
{
    if i < 0 || i >= slots.len() {
        None
    } else if slot_is_free(slots[i], i) {
        Some(i as usize)
    } else {
        first_free_from(slots, i + 1)
    }
}

/// The lowest free slot, if any.
pub open spec fn first_free(slots: Seq<Process>) -> Option<usize> {
    first_free_from(slots, 0)
}

/// The fixed-capacity table of process control blocks. Each slot is reached
/// through a borrow of the table, so two live mutable accesses to one slot
/// cannot exist.
pub struct ProcessTable {
    processes: [Process; MAX_PROCESSES],
}

impl View for ProcessTable {
    type V = Seq<Process>;

    closed spec fn view(&self) -> Seq<Process> {
        self.processes@
    }
}

impl ProcessTable {
    /// The table holds exactly `MAX_PROCESSES` slots.
    pub open spec fn wf(&self) -> bool {
        self@.len() == MAX_PROCESSES
    }

    /// A table whose slots all hold `Process::new(0)`: every slot but slot 0
    /// reads as free.
    pub fn new() -> (r: Self)
        ensures
            r.wf(),
            forall|i: int| 0 <= i < MAX_PROCESSES ==> (#[trigger] r@[i]).is_initial(0),
    {
        let empty = Process::new(0);
        ProcessTable { processes: [empty; MAX_PROCESSES] }
    }

    /// Mutable access to slot `index`, or `None` when `index` is out of range.
    pub fn get_mut(&mut self, index: usize) -> (r: Option<&mut Process>)
        ensures
            final(self).wf(),
            r is Some <==> index < MAX_PROCESSES,
            r matches Some(p) ==> *p == old(self)@[index as int] && final(self)@ == old(
                self,
            )@.update(index as int, *final(p)),
            r is None ==> final(self)@ == old(self)@,
    {
        if index < MAX_PROCESSES {
            Some(&mut self.processes[index])
        } else {
            None
        }
    }

    /// The lowest-numbered free slot, or `None` when every slot is taken.
    pub fn find_free_slot(&self) -> (r: Option<usize>)
        ensures
            r == first_free(self@),
    {
        let mut i: usize = 0;
        while i < MAX_PROCESSES
            invariant
                i <= MAX_PROCESSES,
                first_free_from(self@, i as int) == first_free(self@),
            decreases MAX_PROCESSES - i,
        {
            let p = &self.processes[i];
            if p.flags.is_set(ProcessFlags::SLOT_FREE) || (p.pid == 0 && i > 0) {
                return Some(i);
            }
            i = i + 1;
        }
        None
    }
}

/// `first_free_from` finds the lowest free slot at or after `i`.
proof fn first_free_from_is_lowest(slots: Seq<Process>, i: int)
    requires
        0 <= i <= slots.len(),
        slots.len() <= usize::MAX,
    ensures
        match first_free_from(slots, i) {
            Some(k) => i <= k < slots.len() && slot_is_free(slots[k as int], k as int) && forall|
                j: int,
            |
                i <= j < k ==> !slot_is_free(#[trigger] slots[j], j),
            None => forall|j: int| i <= j < slots.len() ==> !slot_is_free(#[trigger] slots[j], j),
        },
    decreases slots.len() - i,
{
    if i < slots.len() && !slot_is_free(slots[i], i) {
        first_free_from_is_lowest(slots, i + 1);
    }
}

/// The slot `first_free` names is free and every slot below it is taken;
/// when it names none, every slot is taken.
pub proof fn first_free_is_lowest(slots: Seq<Process>)
    requires
        slots.len() <= usize::MAX,
    ensures
        match first_free(slots) {
            Some(k) => k < slots.len() && slot_is_free(slots[k as int], k as int) && forall|j: int|
                0 <= j < k ==> !slot_is_free(#[trigger] slots[j], j),
            None => forall|j: int| 0 <= j < slots.len() ==> !slot_is_free(#[trigger] slots[j], j),
        },
{
    first_free_from_is_lowest(slots, 0);
}

/// In a table as `new` builds it, the lowest free slot is 1: slot 0 is
/// reserved.
pub proof fn fresh_table_first_free(t: ProcessTable)
    requires
        t.wf(),
        forall|i: int| 0 <= i < MAX_PROCESSES ==> (#[trigger] t@[i]).is_initial(0),
    ensures
        first_free(t@) == Some(1usize),
{
    let s = t@;
    assert(s[0].is_initial(0));
    assert(s[1].is_initial(0));
    assert(0u8 & ProcessFlags::SLOT_FREE == 0) by (bit_vector);
    assert(!slot_is_free(s[0], 0));
    assert(slot_is_free(s[1], 1));
    assert(first_free_from(s, 0) == first_free_from(s, 1));
}

/// Once no slot counts as free, the search finds none.
pub proof fn full_table_has_no_free(t: ProcessTable)
    requires
        t.wf(),
        forall|i: int| 0 <= i < MAX_PROCESSES ==> !slot_is_free(#[trigger] t@[i], i),
    ensures
        first_free(t@) is None,
{
    first_free_is_lowest(t@);
    if first_free(t@) is Some {
        let k = first_free(t@)->0;
        assert(!slot_is_free(t@[k as int], k as int));
    }
}

} // verus!
