//! What system-call handlers use of the core: reading and writing user memory
//! with supervisor access to it enabled only around each access.

use vstd::prelude::*;
use vstd::string::StringSliceAdditionalSpecFns;
use vstd::utf8::{encode_utf8, valid_utf8};
use crate::arch::{disable_sum, enable_sum, Hart, HartState};

verus! {

/// A mapped range of user memory: `bytes[i]` is at user address `base + i`.
pub struct UserMemory {
    pub base: usize,
    pub bytes: Vec<u8>,
}

impl UserMemory {
    /// The range `[addr, addr + len)` lies in this memory.
    pub open spec fn covers(&self, addr: int, len: int) -> bool {
        &&& self.wf()
        &&& self.base <= addr
        &&& 0 <= len
        &&& addr + len <= self.base + self.bytes@.len()
    }

    /// Every byte has an address that fits in `usize`.
    pub open spec fn wf(&self) -> bool {
        self.base + self.bytes@.len() <= usize::MAX
    }

    /// Offset of user address `addr` in `bytes`.
    pub open spec fn offset(&self, addr: int) -> int {
        addr - self.base
    }
}

/// The first NUL at or after offset `off` of `s` is at offset `j`.
pub open spec fn nul_at(s: Seq<u8>, off: int, j: int) -> bool {
    &&& 0 <= off <= j < s.len()
    &&& s[j] == 0
    &&& forall|k: int| off <= k < j ==> s[k] != 0
}

/// Some NUL lies at or after offset `off` of `s`.
pub open spec fn has_nul(s: Seq<u8>, off: int) -> bool {
    exists|j: int| nul_at(s, off, j)
}

/// `old` with `[off, off + dst_len)` replaced by `src` padded with zeros.
pub open spec fn filled(old: Seq<u8>, off: int, dst_len: int, src: Seq<u8>) -> Seq<u8> {
    Seq::new(
        old.len(),
        |i: int|
            if off <= i < off + src.len() {
                src[i - off]
            } else if off + src.len() <= i < off + dst_len {
                0u8
            } else {
                old[i]
            },
    )
}

/// Relies on `String::from_utf8`: it succeeds exactly on valid UTF-8, and the
/// string then holds exactly the given bytes.
#[verifier::external_body]
fn string_from_utf8(b: Vec<u8>) -> (r: Option<String>)
    ensures
        r is Some <==> valid_utf8(b@),
        r is Some ==> encode_utf8(r->Some_0@) == b@,
{
    String::from_utf8(b).ok()
}

/// The byte at user address `addr`; supervisor access must be enabled.
fn read_user_byte(hart: &Hart, mem: &UserMemory, addr: usize) -> (r: u8)
    requires
        hart@.sum,
        mem.covers(addr as int, 1),
    ensures
        r == mem.bytes@[mem.offset(addr as int)],
{
    mem.bytes[addr - mem.base]
}

/// Stores `b` at user address `addr`; supervisor access must be enabled.
fn write_user_byte(hart: &Hart, mem: &mut UserMemory, addr: usize, b: u8)
    requires
        hart@.sum,
        old(mem).covers(addr as int, 1),
    ensures
        final(mem).base == old(mem).base,
        final(mem).bytes@ == old(mem).bytes@.update(old(mem).offset(addr as int), b),
{
    let i = addr - mem.base;
    mem.bytes.set(i, b);
}

/// Copies `len` bytes from user address `ptr`, enabling supervisor access to
/// user memory just for the copy. The bytes come back exactly as they are in
/// user memory and every register is as it was before.
pub fn copy_from_user(hart: &mut Hart, mem: &UserMemory, ptr: usize, len: usize) -> (r: Vec<u8>)
    requires
        !old(hart)@.sum,
        mem.covers(ptr as int, len as int),
    ensures
        r@ == mem.bytes@.subrange(mem.offset(ptr as int), mem.offset(ptr as int) + len),
        final(hart)@ == old(hart)@,
{
    enable_sum(hart);
    let mut out: Vec<u8> = Vec::new();
    let mut i: usize = 0;
    while i < len
        invariant
            hart@ == (HartState { sum: true, ..old(hart)@ }),
            mem.covers(ptr as int, len as int),
            i <= len,
            out@ == mem.bytes@.subrange(mem.offset(ptr as int), mem.offset(ptr as int) + i),
        decreases len - i,
    {
        let b = read_user_byte(hart, mem, ptr + i);
        out.push(b);
        i = i + 1;
        proof {
            assert(out@ =~= mem.bytes@.subrange(mem.offset(ptr as int), mem.offset(ptr as int) + i));
        }
    }
    disable_sum(hart);
    out
}

/// Length of the NUL-terminated string at user address `ptr`. Supervisor
/// access must be enabled and a NUL must follow `ptr` in user memory.
pub fn get_str_len(hart: &Hart, mem: &UserMemory, ptr: usize) -> (r: usize)
    requires
        hart@.sum,
        mem.covers(ptr as int, 0),
        has_nul(mem.bytes@, mem.offset(ptr as int)),
    ensures
        nul_at(mem.bytes@, mem.offset(ptr as int), mem.offset(ptr as int) + r),
{
    let ghost off = mem.offset(ptr as int);
    let ghost j = choose|j: int| nul_at(mem.bytes@, off, j);
    let mut cur: usize = ptr;
    while read_user_byte(hart, mem, cur) != 0
        invariant
            hart@.sum,
            mem.covers(ptr as int, 0),
            nul_at(mem.bytes@, off, j),
            off == ptr - mem.base,
            ptr <= cur,
            cur - mem.base <= j,
            forall|k: int| off <= k < cur - mem.base ==> mem.bytes@[k] != 0,
        decreases j - (cur - mem.base),
    {
        proof {
            if cur - mem.base == j {
                assert(mem.bytes@[j] == 0);
            }
        }
        cur = cur + 1;
    }
    cur - ptr
}

/// The NUL-terminated string at user address `ptr`, if it is valid UTF-8.
/// Supervisor access must be enabled and a NUL must follow `ptr`. Bytes that
/// are not UTF-8 give `None` rather than stopping the kernel: no caller can
/// know them before they are read, and the system-call layer turns `None`
/// into an error for the user.
pub fn raw_ptr_to_ref_str(hart: &Hart, mem: &UserMemory, ptr: usize) -> (r: Option<String>)
    requires
        hart@.sum,
        mem.covers(ptr as int, 0),
        has_nul(mem.bytes@, mem.offset(ptr as int)),
    ensures
        forall|j: int| #[trigger] nul_at(mem.bytes@, mem.offset(ptr as int), j) ==> {
            let s = mem.bytes@.subrange(mem.offset(ptr as int), j);
            &&& (r is Some <==> valid_utf8(s))
            &&& (r is Some ==> encode_utf8(r->Some_0@) == s)
        },
{
    let len = get_str_len(hart, mem, ptr);
    let ghost off = mem.offset(ptr as int);
    let mut bytes: Vec<u8> = Vec::new();
    let mut i: usize = 0;
    while i < len
        invariant
            hart@.sum,
            mem.covers(ptr as int, 0),
            nul_at(mem.bytes@, off, off + len),
            off == ptr - mem.base,
            i <= len,
            bytes@ == mem.bytes@.subrange(off, off + i),
        decreases len - i,
    {
        let b = read_user_byte(hart, mem, ptr + i);
        bytes.push(b);
        i = i + 1;
        proof {
            assert(bytes@ =~= mem.bytes@.subrange(off, off + i));
        }
    }
    proof {
        assert forall|j: int| #[trigger] nul_at(mem.bytes@, off, j) implies j == off + len by {
            if j < off + len {
                assert(mem.bytes@[j] != 0);
            } else if j > off + len {
                assert(mem.bytes@[off + len] != 0);
            }
        }
    }
    string_from_utf8(bytes)
}

/// The NUL-terminated string at user address `ptr`, read with supervisor
/// access to user memory enabled only for the read. `None` when `ptr` is not
/// in user memory, no NUL follows it there, or the bytes before the NUL are
/// not UTF-8. Every register is as it was before.
pub fn get_user_str(hart: &mut Hart, mem: &UserMemory, ptr: usize) -> (r: Option<String>)
    requires
        !old(hart)@.sum,
        mem.wf(),
    ensures
        final(hart)@ == old(hart)@,
        !(mem.covers(ptr as int, 0) && has_nul(mem.bytes@, mem.offset(ptr as int))) ==> r is None,
        forall|j: int|
            mem.covers(ptr as int, 0) && #[trigger] nul_at(mem.bytes@, mem.offset(ptr as int), j) ==> {
                let s = mem.bytes@.subrange(mem.offset(ptr as int), j);
                &&& (r is Some <==> valid_utf8(s))
                &&& (r is Some ==> encode_utf8(r->Some_0@) == s)
            },
{
    if ptr < mem.base || ptr - mem.base >= mem.bytes.len() {
        return None;
    }
    let ghost off = mem.offset(ptr as int);
    let mut i: usize = ptr - mem.base;
    let n = mem.bytes.len();
    enable_sum(hart);
    while i < n
        invariant
            hart@ == (HartState { sum: true, ..old(hart)@ }),
            mem.wf(),
            n == mem.bytes@.len(),
            off <= i <= n,
            forall|k: int| off <= k < i ==> mem.bytes@[k] != 0,
        ensures
            hart@ == (HartState { sum: true, ..old(hart)@ }),
            off <= i <= n,
            forall|k: int| off <= k < i ==> mem.bytes@[k] != 0,
            i < n ==> mem.bytes@[i as int] == 0,
        decreases n - i,
    {
        if read_user_byte(hart, mem, mem.base + i) == 0 {
            break;
        }
        i = i + 1;
    }
    let found = i < n;
    if !found {
        disable_sum(hart);
        proof {
            assert(!has_nul(mem.bytes@, off)) by {
                if has_nul(mem.bytes@, off) {
                    let j = choose|j: int| nul_at(mem.bytes@, off, j);
                    assert(mem.bytes@[j] != 0);
                }
            }
        }
        return None;
    }
    proof {
        assert(has_nul(mem.bytes@, off)) by {
            assert(nul_at(mem.bytes@, off, i as int));
        }
    }
    let s = raw_ptr_to_ref_str(hart, mem, ptr);
    disable_sum(hart);
    s
}

/// Fills the user range `[dst, dst + dst_len)` with the bytes of `src`
/// followed by zeros, enabling supervisor access to user memory just for
/// the writes. `src` must fit. Every register is as it was before.
pub fn init_bytes_from_str(hart: &mut Hart, mem: &mut UserMemory, dst: usize, dst_len: usize, src: &str)
    requires
        !old(hart)@.sum,
        old(mem).covers(dst as int, dst_len as int),
        src.spec_bytes().len() <= dst_len,
    ensures
        final(hart)@ == old(hart)@,
        final(mem).base == old(mem).base,
        final(mem).bytes@ == filled(old(mem).bytes@, old(mem).offset(dst as int), dst_len as int, src.spec_bytes()),
{
    let b = src.as_bytes();
    let n = b.len();
    let ghost off = old(mem).offset(dst as int);
    let ghost sb = src.spec_bytes();
    enable_sum(hart);
    let mut i: usize = 0;
    while i < dst_len
        invariant
            hart@ == (HartState { sum: true, ..old(hart)@ }),
            mem.base == old(mem).base,
            mem.bytes@.len() == old(mem).bytes@.len(),
            old(mem).covers(dst as int, dst_len as int),
            off == dst - mem.base,
            b@ == sb,
            n == sb.len(),
            n <= dst_len,
            i <= dst_len,
            forall|k: int|
                0 <= k < mem.bytes@.len() ==> #[trigger] mem.bytes@[k] == (if off <= k < off + i {
                    filled(old(mem).bytes@, off, dst_len as int, sb)[k]
                } else {
                    old(mem).bytes@[k]
                }),
        decreases dst_len - i,
    {
        let v: u8 = if i < n { b[i] } else { 0u8 };
        write_user_byte(hart, mem, dst + i, v);
        i = i + 1;
    }
    disable_sum(hart);
    proof {
        assert(mem.bytes@ =~= filled(old(mem).bytes@, off, dst_len as int, sb));
    }
}

pub const LINUX_SYSCALL_OPENAT: usize = 0x38;
pub const LINUX_SYSCALL_CLOSE: usize = 0x39;
pub const LINUX_SYSCALL_READ: usize = 0x3f;
pub const LINUX_SYSCALL_WRITE: usize = 0x40;
pub const LINUX_SYSCALL_WRITEV: usize = 0x42;
pub const LINUX_SYSCALL_READLINKAT: usize = 0x4e;
pub const LINUX_SYSCALL_FSTATAT: usize = 0x4f;
pub const LINUX_SYSCALL_EXIT: usize = 0x5d;
pub const LINUX_SYSCALL_EXIT_GROUP: usize = 0x53;
pub const LINUX_SYSCALL_UNAME: usize = 0xa0;
pub const LINUX_SYSCALL_BRK: usize = 0xd6;
pub const LINUX_SYSCALL_MUNMAP: usize = 0xd7;
pub const LINUX_SYSCALL_MMAP: usize = 0xde;

/// Bytes of each field of `struct utsname`, its terminator included.
pub const UTS_FIELD_LEN: usize = 65;

/// The argument registers of a trapped system call.
#[derive(Clone, Copy, PartialEq, Eq, Structural, Debug)]
pub struct GeneralRegisters {
    pub a0: usize,
    pub a1: usize,
    pub a2: usize,
    pub a3: usize,
    pub a4: usize,
    pub a5: usize,
    pub a7: usize,
}

/// Registers saved on trap entry.
#[derive(Clone, Copy, PartialEq, Eq, Structural, Debug)]
pub struct TrapFrame {
    pub regs: GeneralRegisters,
    /// Address of the trapping instruction.
    pub sepc: usize,
}

/// The system calls the handler knows.
#[derive(Clone, Copy, PartialEq, Eq, Structural, Debug)]
pub enum Syscall {
    Openat,
    Close,
    Read,
    Write,
    Writev,
    Readlinkat,
    Fstatat,
    Exit,
    ExitGroup,
    Uname,
    Brk,
    Munmap,
    Mmap,
    Unknown,
}

/// The system call numbered `eid`.
pub open spec fn syscall_of(eid: usize) -> Syscall {
    if eid == LINUX_SYSCALL_OPENAT {
        Syscall::Openat
    } else if eid == LINUX_SYSCALL_CLOSE {
        Syscall::Close
    } else if eid == LINUX_SYSCALL_READ {
        Syscall::Read
    } else if eid == LINUX_SYSCALL_WRITE {
        Syscall::Write
    } else if eid == LINUX_SYSCALL_WRITEV {
        Syscall::Writev
    } else if eid == LINUX_SYSCALL_READLINKAT {
        Syscall::Readlinkat
    } else if eid == LINUX_SYSCALL_FSTATAT {
        Syscall::Fstatat
    } else if eid == LINUX_SYSCALL_EXIT {
        Syscall::Exit
    } else if eid == LINUX_SYSCALL_EXIT_GROUP {
        Syscall::ExitGroup
    } else if eid == LINUX_SYSCALL_UNAME {
        Syscall::Uname
    } else if eid == LINUX_SYSCALL_BRK {
        Syscall::Brk
    } else if eid == LINUX_SYSCALL_MUNMAP {
        Syscall::Munmap
    } else if eid == LINUX_SYSCALL_MMAP {
        Syscall::Mmap
    } else {
        Syscall::Unknown
    }
}

/// The result of the system calls the core answers by itself, or `None`
/// for those that need the file, memory or task services.
pub open spec fn local_result(call: Syscall) -> Option<usize> {
    match call {
        Syscall::Close => Some(0),
        Syscall::Readlinkat => Some(usize::MAX),
        Syscall::Fstatat => Some(0),
        Syscall::ExitGroup => Some(0),
        Syscall::Unknown => Some(0),
        _ => None,
    }
}

/// `tf` after the call returned `ret`: the result in `a0` and the saved
/// program counter just past the 4-byte `ecall`.
pub open spec fn finished(tf: TrapFrame, ret: usize) -> TrapFrame {
    TrapFrame { regs: GeneralRegisters { a0: ret, ..tf.regs }, sepc: (tf.sepc + 4) as usize }
}

/// Which system call `eid` is.
pub fn decode_syscall(eid: usize) -> (r: Syscall)
    ensures
        r == syscall_of(eid),
{
    if eid == LINUX_SYSCALL_OPENAT {
        Syscall::Openat
    } else if eid == LINUX_SYSCALL_CLOSE {
        Syscall::Close
    } else if eid == LINUX_SYSCALL_READ {
        Syscall::Read
    } else if eid == LINUX_SYSCALL_WRITE {
        Syscall::Write
    } else if eid == LINUX_SYSCALL_WRITEV {
        Syscall::Writev
    } else if eid == LINUX_SYSCALL_READLINKAT {
        Syscall::Readlinkat
    } else if eid == LINUX_SYSCALL_FSTATAT {
        Syscall::Fstatat
    } else if eid == LINUX_SYSCALL_EXIT {
        Syscall::Exit
    } else if eid == LINUX_SYSCALL_EXIT_GROUP {
        Syscall::ExitGroup
    } else if eid == LINUX_SYSCALL_UNAME {
        Syscall::Uname
    } else if eid == LINUX_SYSCALL_BRK {
        Syscall::Brk
    } else if eid == LINUX_SYSCALL_MUNMAP {
        Syscall::Munmap
    } else if eid == LINUX_SYSCALL_MMAP {
        Syscall::Mmap
    } else {
        Syscall::Unknown
    }
}

/// Completes a system call: stores `ret` in `a0` and steps the saved program
/// counter past the trapping instruction, once.
pub fn finish_syscall(tf: &mut TrapFrame, ret: usize)
    requires
        old(tf).sepc + 4 <= usize::MAX,
    ensures
        *final(tf) == finished(*old(tf), ret),
{
    tf.regs.a0 = ret;
    tf.sepc = tf.sepc + 4;
}

/// Handles the system call trapped in `tf` when the core answers it by
/// itself, completing the trap frame, and returns `None`. Otherwise leaves
/// `tf` as it is and returns the call, for the file, memory or task services
/// to perform and then complete with [`finish_syscall`].
pub fn handle_syscall(tf: &mut TrapFrame) -> (r: Option<Syscall>)
    requires
        old(tf).sepc + 4 <= usize::MAX,
    ensures
        ({
            let call = syscall_of(old(tf).regs.a7);
            match local_result(call) {
                Some(ret) => r is None && *final(tf) == finished(*old(tf), ret),
                None => r == Some(call) && *final(tf) == *old(tf),
            }
        }),
{
    let call = decode_syscall(tf.regs.a7);
    let ret: usize = match call {
        Syscall::Close => linux_syscall_close(tf),
        Syscall::Readlinkat => usize::MAX,
        Syscall::Fstatat => 0,
        Syscall::ExitGroup => linux_syscall_exit_group(tf),
        Syscall::Unknown => 0,
        _ => {
            return Some(call);
        },
    };
    finish_syscall(tf, ret);
    None
}

pub const UTS_SYSNAME: &'static str = "Linux";
pub const UTS_NODENAME: &'static str = "host";
pub const UTS_DOMAINNAME: &'static str = "(none)";
pub const UTS_RELEASE: &'static str = "5.9.0-rc4+";
pub const UTS_VERSION: &'static str = "#1337 SMP Fri Mar 4 09:36:42 CST 2022";
pub const UTS_MACHINE: &'static str = "riscv64";

/// User memory `m` once the `struct utsname` at offset `off` is filled in:
/// its six fields, in declaration order, each hold their name padded with
/// zeros.
pub open spec fn uname_image(m: Seq<u8>, off: int) -> Seq<u8> {
    let n = UTS_FIELD_LEN as int;
    let m1 = filled(m, off, n, UTS_SYSNAME.spec_bytes());
    let m2 = filled(m1, off + n, n, UTS_NODENAME.spec_bytes());
    let m3 = filled(m2, off + 5 * n, n, UTS_DOMAINNAME.spec_bytes());
    let m4 = filled(m3, off + 2 * n, n, UTS_RELEASE.spec_bytes());
    let m5 = filled(m4, off + 3 * n, n, UTS_VERSION.spec_bytes());
    filled(m5, off + 4 * n, n, UTS_MACHINE.spec_bytes())
}

/// `uname`: fills the `struct utsname` at user address `a0`, which must not
/// be null, with supervisor access to user memory enabled only for the
/// writes, and returns 0.
pub fn linux_syscall_uname(hart: &mut Hart, mem: &mut UserMemory, tf: &TrapFrame) -> (r: usize)
    requires
        !old(hart)@.sum,
        tf.regs.a0 != 0,
        old(mem).covers(tf.regs.a0 as int, 6 * UTS_FIELD_LEN),
    ensures
        r == 0,
        final(hart)@ == old(hart)@,
        final(mem).base == old(mem).base,
        final(mem).bytes@ == uname_image(old(mem).bytes@, old(mem).offset(tf.regs.a0 as int)),
{
    let ptr = tf.regs.a0;
    proof {
        reveal_strlit("Linux");
        reveal_strlit("host");
        reveal_strlit("(none)");
        reveal_strlit("5.9.0-rc4+");
        reveal_strlit("#1337 SMP Fri Mar 4 09:36:42 CST 2022");
        reveal_strlit("riscv64");
        broadcast use vstd::string::is_ascii_spec_bytes;
        assert(vstd::string::is_ascii(UTS_SYSNAME));
        assert(vstd::string::is_ascii(UTS_NODENAME));
        assert(vstd::string::is_ascii(UTS_DOMAINNAME));
        assert(vstd::string::is_ascii(UTS_RELEASE));
        assert(vstd::string::is_ascii(UTS_VERSION));
        assert(vstd::string::is_ascii(UTS_MACHINE));
    }
    let n = UTS_FIELD_LEN;
    init_bytes_from_str(hart, mem, ptr, n, UTS_SYSNAME);
    init_bytes_from_str(hart, mem, ptr + n, n, UTS_NODENAME);
    init_bytes_from_str(hart, mem, ptr + 5 * n, n, UTS_DOMAINNAME);
    init_bytes_from_str(hart, mem, ptr + 2 * n, n, UTS_RELEASE);
    init_bytes_from_str(hart, mem, ptr + 3 * n, n, UTS_VERSION);
    init_bytes_from_str(hart, mem, ptr + 4 * n, n, UTS_MACHINE);
    0
}

/// `close`: nothing is released yet; always succeeds.
pub fn linux_syscall_close(tf: &TrapFrame) -> (r: usize)
    ensures
        r == 0,
{
    let _ = tf;
    0
}

/// `exit_group`: always reports success.
pub fn linux_syscall_exit_group(tf: &TrapFrame) -> (r: usize)
    ensures
        r == 0,
{
    let _ = tf;
    0
}

/// Initialises the system-call layer; it holds no state of its own.
pub fn init() {
}

} // verus!
