use webos::console::Cons;
use webos::error::Error;
use webos::fcntl::{LockTable, OMode};
use webos::file::{open_node, File, Major, NodeOpen, PipeStatus, VFile};
use webos::stat::FileType;
use webos::ipc::{shm_create, IpcTables};
use webos::kalloc::{page_ref_get, Kmem};
use webos::memlayout::{user_mem_top, KERNBASE};
use webos::param::{NOFILE, NPROC};
use webos::poll::{PollFd, IN, NVAL, OUT};
use webos::proc::{scheduler, user_init, yielding, PId, ProcState, Procs, SchedStep, WaitStep};
use webos::runq::{runq_push_cpu, RunQueues};
use webos::task::Executors;
use webos::syscall::{Kernel, PollStep, SysCalls};
use webos::mmap::{MAP_ANON, MAP_PRIVATE, MAP_SHARED, PROT_READ, PROT_WRITE};
use webos::vma::{FaultAction, FaultKind, ProcVm, Vma};
use webos::writeback::{munmap_vma_range, WritebackExtent};

fn kernel() -> Kernel {
    let top = user_mem_top(NPROC as u64);
    Kernel {
        procs: Procs::new(),
        vms: (0..NPROC).map(|_| ProcVm::new(top)).collect(),
        aspace: (0..NPROC).collect(),
        sizes: vec![0; NPROC],
        ofiles: vec![vec![None; NOFILE]; NPROC],
        cwds: vec![None; NPROC],
        ipc: IpcTables::new(),
        kmem: Kmem::new(),
        locks: LockTable::new(),
        cons: Cons::new(),
        ticks: 0,
        ext_irqs: 0,
        task_polls: 0,
        free_bytes: 0,
        init: 0,
        cur: 1,
        cpu: 0,
        fork_ret: 0x8000_2000,
    }
}

fn pipe_end(readable: bool) -> File {
    File { f: Some(VFile::Pipe { id: 3 }), readable, writable: !readable, cloexec: false, nonblock: false, append: false }
}

fn status(readable: bool, writable: bool) -> PipeStatus {
    PipeStatus { readable, writable, read_hup: false, write_hup: false }
}

#[test]
fn poll_reports_ready_and_closed_entries() {
    let mut k = kernel();
    k.ofiles[1][0] = Some(pipe_end(true));
    k.ofiles[1][1] = Some(pipe_end(false));
    let mut fds = vec![
        PollFd { fd: 0, events: IN, revents: 0 },
        PollFd { fd: 1, events: OUT, revents: 0 },
        PollFd { fd: 7, events: IN, revents: 0 },
    ];
    let pipes = vec![status(true, false), status(false, false), status(false, false)];
    let r = SysCalls::poll(&k, 3, &mut fds, &pipes, false, 0);
    assert_eq!(r, Ok(PollStep::Done(2)));
    assert_eq!(fds[0].revents, IN);
    assert_eq!(fds[1].revents, 0);
    assert_eq!(fds[2].revents, NVAL);
}

#[test]
fn poll_with_zero_timeout_answers_at_once() {
    let mut k = kernel();
    k.ofiles[1][0] = Some(pipe_end(true));
    let mut fds = vec![PollFd { fd: 0, events: IN, revents: 0 }];
    let pipes = vec![status(false, false)];
    assert_eq!(SysCalls::poll(&k, 1, &mut fds, &pipes, false, 0), Ok(PollStep::Done(0)));
    assert_eq!(SysCalls::select(&k, 0, &mut Vec::new(), &Vec::new(), false, 0), Ok(PollStep::Done(0)));
}

#[test]
fn poll_waits_until_the_timeout() {
    let mut k = kernel();
    k.procs.data[1].trapframe.a1 = 5;
    k.ticks = 3;
    let mut fds = Vec::new();
    assert_eq!(SysCalls::poll(&k, 0, &mut fds, &Vec::new(), false, 0), Ok(PollStep::Sleep));
    k.ticks = 5;
    assert_eq!(SysCalls::poll(&k, 0, &mut fds, &Vec::new(), false, 0), Ok(PollStep::Done(0)));
    k.ticks = 4;
    k.procs.inner[1].killed = true;
    assert_eq!(SysCalls::poll(&k, 0, &mut fds, &Vec::new(), false, 0), Err(Error::Interrupted));
    assert_eq!(SysCalls::poll(&k, NOFILE + 1, &mut fds, &Vec::new(), false, 0), Err(Error::InvalidArgument));
}

#[test]
fn pipe_installs_both_ends_or_neither() {
    let mut k = kernel();
    k.ofiles[1][0] = Some(pipe_end(true));
    let r = SysCalls::pipe(&mut k, 2, Ok((pipe_end(true), pipe_end(false))), true);
    assert_eq!(r, Ok((1, 2)));
    assert!(k.ofiles[1][1].unwrap().readable);
    assert!(k.ofiles[1][2].unwrap().writable);

    let mut k = kernel();
    let r = SysCalls::pipe(&mut k, 2, Ok((pipe_end(true), pipe_end(false))), false);
    assert_eq!(r, Err(Error::BadVirtAddr));
    assert!(k.ofiles[1].iter().all(|f| f.is_none()));

    let mut k = kernel();
    assert_eq!(SysCalls::pipe(&mut k, 4, Ok((pipe_end(true), pipe_end(false))), true), Err(Error::InvalidArgument));
    assert_eq!(SysCalls::pipe(&mut k, 2, Err(Error::OutOfMemory), true), Err(Error::OutOfMemory));

    let mut k = kernel();
    for fd in 0..NOFILE - 1 {
        k.ofiles[1][fd] = Some(pipe_end(true));
    }
    let r = SysCalls::pipe(&mut k, 2, Ok((pipe_end(true), pipe_end(false))), true);
    assert_eq!(r, Err(Error::FileDescriptorTooLarge));
    assert!(k.ofiles[1][NOFILE - 1].is_none());
}

#[test]
fn shared_segments_through_the_calls() {
    let mut k = kernel();
    k.procs.data[1].trapframe.a0 = 2 * 4096;
    let pages = vec![KERNBASE + 4096 * 20, KERNBASE + 4096 * 21];
    assert_eq!(SysCalls::shmcreate(&mut k, Some(pages.clone())), Ok(1));
    assert_eq!(page_ref_get(&k.kmem, pages[0]), 1);
    assert_eq!(SysCalls::shmcreate(&mut k, None), Err(Error::OutOfMemory));
    k.procs.data[1].trapframe.a0 = 0;
    assert_eq!(SysCalls::shmcreate(&mut k, None), Err(Error::InvalidArgument));

    k.procs.data[1].trapframe.a0 = 1;
    k.procs.data[1].trapframe.a1 = 3;
    let top = user_mem_top(NPROC as u64);
    let addr = SysCalls::shmattach(&mut k, None).unwrap();
    assert_eq!(addr, top - 2 * 4096);
    assert_eq!(page_ref_get(&k.kmem, pages[1]), 2);
    assert_eq!(k.vms[1].vmas.len(), 1);

    k.procs.data[1].trapframe.a0 = addr as usize;
    let ranges = SysCalls::shmdetach(&mut k).unwrap();
    assert!(!ranges.is_empty());
    assert_eq!(k.vms[1].vmas.len(), 0);
    k.procs.data[1].trapframe.a0 = addr as usize + 1;
    assert_eq!(SysCalls::shmdetach(&mut k).unwrap_err(), Error::InvalidArgument);
}

#[test]
fn first_process_from_its_image() {
    let mut img = vec![0u8; 0x200];
    img[0..4].copy_from_slice(&[0x7f, b'E', b'L', b'F']);
    img[24..32].copy_from_slice(&0x10u64.to_le_bytes());
    img[32..40].copy_from_slice(&64u64.to_le_bytes());
    img[56..58].copy_from_slice(&1u16.to_le_bytes());
    img[64..68].copy_from_slice(&1u32.to_le_bytes());
    img[72..80].copy_from_slice(&0x100u64.to_le_bytes());
    img[96..104].copy_from_slice(&0x20u64.to_le_bytes());
    img[104..112].copy_from_slice(&0x20u64.to_le_bytes());
    let mut k = kernel();
    let (slot, plan) = user_init(&mut k, &img);
    assert_eq!(slot, 0);
    assert_eq!(k.init, 0);
    assert_eq!(plan.loads.len(), 1);
    assert_eq!(plan.sz, 0x20);
    assert_eq!(plan.guard, 4096);
    assert_eq!(plan.stack_top, 3 * 4096);
    assert_eq!(k.sizes[0], 3 * 4096);
    assert_eq!(k.procs.data[0].trapframe.epc, 0x10);
    assert_eq!(k.procs.data[0].trapframe.sp, 3 * 4096);
    assert_eq!(k.procs.runq_out, vec![(0, 0)]);
}

#[test]
fn scheduler_runs_runnable_slots_and_skips_others() {
    let mut procs = Procs::new();
    let mut rqs = RunQueues::new();
    let ex = Executors::new();
    assert_eq!(scheduler(&mut procs, &mut rqs, &ex, 0), SchedStep::Idle { wait: true });
    procs.inner[3].state = ProcState::RUNNABLE;
    runq_push_cpu(&mut rqs, 1, 3);
    runq_push_cpu(&mut rqs, 0, 5);
    assert_eq!(scheduler(&mut procs, &mut rqs, &ex, 0), SchedStep::Skip(5));
    assert_eq!(scheduler(&mut procs, &mut rqs, &ex, 0), SchedStep::Run(3));
    assert_eq!(procs.inner[3].state, ProcState::RUNNING);
    assert_eq!(procs.inner[3].last_cpu, 0);
    yielding(&mut procs, 3, 1);
    assert_eq!(procs.inner[3].state, ProcState::RUNNABLE);
    assert_eq!(procs.runq_out, vec![(0, 3)]);
}

#[test]
fn unmapping_a_shared_file_mapping_writes_back_its_bytes() {
    let v = Vma { start: 0x1000, len: 0x1800, prot: 3, flags: MAP_SHARED, file: Some(3), file_off: 0x100, shm: None };
    let (plan, r) = munmap_vma_range(&v, 0x1000, 0x2000, &vec![true, true], true);
    assert_eq!(r, Ok(()));
    assert_eq!(plan.pages, vec![0x1000, 0x2000]);
    assert_eq!(
        plan.writebacks,
        vec![
            (0x1000, WritebackExtent { file_off: 0x100, data_off: 0, len: 0x1000 }),
            (0x2000, WritebackExtent { file_off: 0x1100, data_off: 0, len: 0x800 }),
        ]
    );
    let (plan, _) = munmap_vma_range(&v, 0x1000, 0x2000, &vec![false, true], false);
    assert_eq!(plan.pages, vec![0x2000]);
    assert!(plan.writebacks.is_empty());
    let far = Vma { file_off: u32::MAX as u64, ..v };
    let (plan, r) = munmap_vma_range(&far, 0x1000, 0x2000, &vec![true, true], true);
    assert_eq!(r, Err(Error::InvalidArgument));
    assert_eq!(plan.pages, vec![0x1000]);
    assert_eq!(plan.writebacks.len(), 1);
    let anon = Vma { flags: MAP_PRIVATE | MAP_ANON, file: None, ..v };
    let (plan, r) = munmap_vma_range(&anon, 0x1000, 0x2000, &vec![true, true], false);
    assert_eq!(r, Ok(()));
    assert_eq!(plan.pages.len(), 2);
    assert!(plan.writebacks.is_empty());
}

#[test]
fn page_fault_maps_only_pages_not_yet_mapped() {
    let top = user_mem_top(NPROC as u64);
    let mut vm = ProcVm::new(top);
    let a = vm
        .mmap(0, 4096, PROT_READ | PROT_WRITE, MAP_PRIVATE | MAP_ANON, Err(Error::BadFileDescriptor), 0, 0)
        .unwrap();
    match vm.handle_user_page_fault(a + 10, FaultKind::Load, false) {
        Ok(FaultAction::MapPage { va, file: None, .. }) => assert_eq!(va, a),
        other => panic!("unexpected {:?}", other),
    }
    // a page that already has a valid user mapping is refused
    assert!(matches!(vm.handle_user_page_fault(a + 10, FaultKind::Store, true), Err(Error::BadVirtAddr)));
    // the protection is checked first
    assert!(matches!(vm.handle_user_page_fault(a, FaultKind::Instruction, true), Err(Error::PermissionDenied)));
    // outside every mapping
    assert!(matches!(vm.handle_user_page_fault(a + 4096, FaultKind::Load, false), Err(Error::BadVirtAddr)));
}

#[test]
fn collecting_a_child_clears_its_mappings() {
    let top = user_mem_top(NPROC as u64);
    let mut k = kernel();
    k.procs.inner[1].state = ProcState::RUNNING;
    k.procs.inner[1].pid = PId(2);
    k.procs.inner[2].state = ProcState::ZOMBIE;
    k.procs.inner[2].pid = PId(7);
    k.procs.inner[2].xstate = 3;
    k.procs.parents[2] = Some(1);
    k.procs.next_pid = 8;
    k.sizes[2] = 8192;
    k.aspace[2] = 1;
    let a = k.vms[2]
        .mmap(0, 4096, PROT_READ, MAP_PRIVATE | MAP_ANON, Err(Error::BadFileDescriptor), 0, 0)
        .unwrap();
    assert!(a < top);
    k.procs.data[1].trapframe.a0 = usize::MAX; // pid -1: any child
    k.procs.data[1].trapframe.a2 = 0;
    let r = SysCalls::waitpid(&mut k, true);
    assert!(matches!(r, Ok(WaitStep::Found(7, 3))));
    assert_eq!(k.procs.inner[2].state, ProcState::UNUSED);
    assert_eq!(k.procs.parents[2], None);
    assert_eq!(k.vms[2].vmas.len(), 0);
    assert_eq!(k.vms[2].mmap_base, top);
    assert_eq!(k.sizes[2], 0);
    assert_eq!(k.aspace[2], 2);
    // nothing left to collect
    assert!(matches!(SysCalls::waitpid(&mut k, true), Err(Error::NoChildProcesses)));
}

#[test]
fn fork_gives_the_child_the_parents_directory_and_exit_releases_it() {
    let mut k = kernel();
    k.procs.inner[0].state = ProcState::RUNNING;
    k.procs.inner[0].pid = PId(1);
    k.procs.inner[1].state = ProcState::RUNNING;
    k.procs.inner[1].pid = PId(2);
    k.procs.parents[1] = Some(0);
    k.procs.next_pid = 3;
    k.cwds[1] = Some(5);
    let pid = SysCalls::fork(&mut k, Ok(())).unwrap();
    assert_eq!(pid, 3);
    assert_eq!(k.procs.inner[2].pid, PId(3));
    assert_eq!(k.cwds[2], Some(5));
    assert_eq!(k.cwds[1], Some(5));
    // the child starts from the fork-return path on top of its kernel stack
    assert_eq!(k.procs.data[2].context.ra, 0x8000_2000);
    assert_eq!(k.procs.data[2].context.sp, 0x3f_fffc_a000);
    k.procs.data[1].trapframe.a0 = 0;
    SysCalls::exit(&mut k);
    assert_eq!(k.cwds[1], None);
    assert_eq!(k.cwds[2], Some(5));
    assert_eq!(k.procs.inner[1].state, ProcState::ZOMBIE);
}

#[test]
fn shared_segment_of_no_pages_or_too_many_is_refused() {
    let mut t = IpcTables::new();
    let mut km = Kmem::new();
    assert_eq!(shm_create(&mut t, &mut km, 0, vec![]), Err(Error::InvalidArgument));
    assert_eq!(shm_create(&mut t, &mut km, 65 * 4096, vec![]), Err(Error::InvalidArgument));
    assert_eq!(shm_create(&mut t, &mut km, usize::MAX, vec![]), Err(Error::InvalidArgument));
    assert!(t.shm.iter().all(|s| s.is_none()));
}

#[test]
fn unmapping_a_middle_page_leaves_the_pages_around_it() {
    let top = user_mem_top(NPROC as u64);
    let mut vm = ProcVm::new(top);
    let a = vm
        .mmap(0, 3 * 4096, PROT_READ, MAP_PRIVATE | MAP_ANON, Err(Error::BadFileDescriptor), 0, 0)
        .unwrap();
    let ranges = vm.munmap(a + 4096, 4096).unwrap();
    assert_eq!(ranges, vec![(a + 4096, a + 8192)]);
    let covered = |x: u64| vm.vmas.iter().any(|v| v.start <= x && x < v.start + ((v.len + 4095) / 4096) * 4096);
    assert!(covered(a));
    assert!(covered(a + 4095));
    assert!(!covered(a + 4096));
    assert!(!covered(a + 8191));
    assert!(covered(a + 8192));
    assert!(covered(a + 3 * 4096 - 1));
    assert!(!covered(a + 3 * 4096));
}

fn omode(read: bool, write: bool, truncate: bool, append: bool) -> OMode {
    OMode { read, write, truncate, create: false, append, cloexec: false, nonblock: false }
}

#[test]
fn opening_an_inode_follows_its_type_and_the_open_mode() {
    let rd = omode(true, false, false, false);
    let rw = omode(true, true, false, false);
    // an existing directory opens read-only only
    assert_eq!(open_node(false, FileType::Dir, Major::Invalid, 64, &rw), Err(Error::IsADirectory));
    assert_eq!(open_node(false, FileType::Dir, Major::Invalid, 64, &rd), Ok(NodeOpen::Inode { truncate: false, offset: 0 }));
    // truncation and appending apply to regular files
    assert_eq!(
        open_node(false, FileType::File, Major::Invalid, 100, &omode(false, true, true, false)),
        Ok(NodeOpen::Inode { truncate: true, offset: 0 })
    );
    assert_eq!(
        open_node(false, FileType::File, Major::Invalid, 100, &omode(false, true, false, true)),
        Ok(NodeOpen::Inode { truncate: false, offset: 100 })
    );
    assert_eq!(
        open_node(false, FileType::Dir, Major::Invalid, 100, &omode(true, false, false, true)),
        Ok(NodeOpen::Inode { truncate: false, offset: 0 })
    );
    // devices need a driver
    assert_eq!(open_node(false, FileType::Device, Major::Console, 0, &rw), Ok(NodeOpen::Device));
    assert_eq!(open_node(false, FileType::Device, Major::Invalid, 0, &rw), Err(Error::NoSuchNode));
    assert_eq!(open_node(false, FileType::Symlink, Major::Invalid, 0, &rd), Err(Error::NoSuchNode));
}
