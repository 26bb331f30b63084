use vstd::prelude::*;

verus! {

/// How many syscall ids the per-task counters cover.
pub const MAX_SYSCALL_NUM: usize = 500;

/// The page size the memory-map syscalls round to.
pub const PAGE_SIZE: usize = 4096;

/// Seconds and microseconds, as the time syscall reports them.
#[derive(Clone, Copy, Debug, PartialEq, Eq, Structural)]
pub struct TimeVal {
    pub sec: usize,
    pub usec: usize,
}

impl TimeVal {
    /// Split a count of microseconds into whole seconds and the
    /// microseconds that remain.
    pub fn from_us(us: usize) -> (r: TimeVal)
        ensures
            r.sec == us / 1000000,
            r.usec == us % 1000000,
    {
        TimeVal { sec: us / 1000000, usec: us % 1000000 }
    }
}

/// Where a task stands in its life cycle.
#[derive(Clone, Copy, Debug, PartialEq, Eq, Structural)]
pub enum TaskStatus {
    UnInit,
    Ready,
    Running,
    Exited,
}

/// What the task-information syscall reports of the current task:
/// its status, how often it made each syscall, and its running time.
pub struct TaskInfo {
    pub status: TaskStatus,
    pub syscall_times: [u32; MAX_SYSCALL_NUM],
    pub time: usize,
}

/// The least multiple of the page size at or above `len`.
pub open spec fn page_round_up(len: int) -> int {
    if len % (PAGE_SIZE as int) == 0 {
        len
    } else {
        (len / (PAGE_SIZE as int) + 1) * (PAGE_SIZE as int)
    }
}

/// Decide a memory-map request. A port with bits beyond the three
/// permission bits, a port granting nothing, or a start that is not
/// page-aligned is refused; otherwise the request comes back with its
/// length rounded up to whole pages, for the memory subsystem to
/// perform.
pub fn sys_mmap(start: usize, len: usize, port: usize) -> (r: Option<(usize, usize, usize)>)
    requires
        len <= usize::MAX - PAGE_SIZE,
    ensures
        (r is Some) <==> !(port & (!0x7usize) != 0 || port & 0x7usize == 0 || start % PAGE_SIZE
            != 0),
        r is Some ==> {
            &&& r->Some_0.0 == start
            &&& r->Some_0.2 == port
            &&& r->Some_0.1 as int == page_round_up(len as int)
            &&& r->Some_0.1 % PAGE_SIZE == 0
            &&& r->Some_0.1 >= len
        },
{
    if port & !0x7usize != 0 || port & 0x7usize == 0 || start % PAGE_SIZE != 0 {
        return None;
    }
    let ll = round_up_to_page(len);
    Some((start, ll, port))
}

/// Decide a memory-unmap request: a start that is not page-aligned is
/// refused, and the length is rounded up to whole pages.
pub fn sys_munmap(start: usize, len: usize) -> (r: Option<(usize, usize)>)
    requires
        len <= usize::MAX - PAGE_SIZE,
    ensures
        (r is Some) <==> start % PAGE_SIZE == 0,
        r is Some ==> {
            &&& r->Some_0.0 == start
            &&& r->Some_0.1 as int == page_round_up(len as int)
            &&& r->Some_0.1 % PAGE_SIZE == 0
            &&& r->Some_0.1 >= len
        },
{
    if start % PAGE_SIZE != 0 {
        return None;
    }
    let ll = round_up_to_page(len);
    Some((start, ll))
}

/// The least multiple of the page size that holds `len` bytes.
fn round_up_to_page(len: usize) -> (r: usize)
    requires
        len <= usize::MAX - PAGE_SIZE,
    ensures
        r as int == page_round_up(len as int),
        r % PAGE_SIZE == 0,
        r >= len,
{
    if len % PAGE_SIZE == 0 {
        len
    } else {
        proof {
            let li = len as int;
            assert((li / 4096 + 1) * 4096 <= li + 4096 && (li / 4096 + 1) * 4096 >= li && ((li
                / 4096 + 1) * 4096) % 4096 == 0) by (nonlinear_arith)
                requires
                    0 <= li,
                    li % 4096 != 0,
            ;
        }
        (len / PAGE_SIZE + 1) * PAGE_SIZE
    }
}

} // verus!
