use webos::dfs::{DfsOp, DFS_MAGIC};
use webos::elf::plan_init_image;
use webos::error::Error;
use webos::file::{File, IoRoute, Major, VFile};
use webos::syscall::{PathRoute, SysCalls};
use webos::usys::{decimal, Fn, NSYSCALLS};

#[test]
fn fn_names_are_lower_case_variant_names() {
    assert_eq!(SysCalls::Fork.fn_name(), "fork");
    assert_eq!(SysCalls::ExtIrqCount.fn_name(), "extirqcount");
    assert_eq!(SysCalls::MMap.fn_name(), "mmap");
    assert_eq!(SysCalls::Getnprocsconf.fn_name(), "getnprocsconf");
}

#[test]
fn return_types_follow_the_kind() {
    assert_eq!(SysCalls::Read.return_type(), "Result<usize>");
    assert_eq!(SysCalls::Close.return_type(), "Result<()>");
    assert_eq!(SysCalls::Exit.return_type(), "!");
    assert_eq!(SysCalls::Invalid.kind(), Fn::N);
    assert_eq!(SysCalls::Pipe.kind(), Fn::U);
}

#[test]
fn signatures() {
    assert_eq!(SysCalls::Read.signature(), "fn read(fd: usize, buf: &mut [u8]) -> Result<usize>");
    assert_eq!(SysCalls::Getpid.signature(), "fn getpid() -> Result<usize>");
    assert_eq!(SysCalls::Invalid.signature(), "fn invalid -> !");
}

#[test]
fn args_split_the_parameter_list() {
    assert_eq!(
        SysCalls::Exec.args(),
        vec![("filename", "&str"), ("argv", "&[&str]"), ("envp", "Option<&[Option<&str>]>")]
    );
    assert_eq!(SysCalls::Fork.args(), Vec::<(&str, &str)>::new());
    assert_eq!(SysCalls::Poll.args(), vec![("fds", "&mut [poll::PollFd]"), ("timeout", "isize")]);
}

#[test]
fn all_calls_in_number_order() {
    let all = SysCalls::into_enum_iter();
    assert_eq!(all.len(), NSYSCALLS);
    assert_eq!(all[0], SysCalls::Invalid);
    assert_eq!(all[1], SysCalls::Fork);
    assert_eq!(all[61], SysCalls::Getnprocsconf);
    for (i, c) in all.iter().enumerate() {
        assert_eq!(c.number(), i);
    }
}

#[test]
fn decimal_digits() {
    assert_eq!(decimal(0), "0");
    assert_eq!(decimal(7), "7");
    assert_eq!(decimal(61), "61");
    assert_eq!(decimal(1234), "1234");
}

#[test]
fn stub_for_read() {
    let expected = "\npub fn read(fd: usize, buf: &mut [u8]) -> Result<usize> {\n    let _ret: isize;\n    unsafe {\n        asm!(\n            \"ecall\",\n            in(\"a0\") fd,\n            in(\"a1\") &buf as *const _ as usize,\n            in(\"a7\") 5,\n            lateout(\"a0\") _ret,\n        );\n    }\n    match _ret { 0.. => Ok(_ret as usize), _ => Err(Error::from_isize(_ret)) }\n}";
    assert_eq!(SysCalls::Read.gen_usys(), expected);
}

#[test]
fn stub_for_fcntl_and_wait_and_exit() {
    let fcntl = "\npub fn fcntl(fd: usize, cmd: FcntlCmd, arg: usize) -> Result<usize> {\n    let _ret: isize;\n    unsafe {\n        asm!(\n            \"ecall\",\n            in(\"a0\") fd,\n            in(\"a1\") cmd as usize,\n            in(\"a2\") arg,\n            in(\"a7\") 23,\n            lateout(\"a0\") _ret,\n        );\n    }\n    match _ret { 0.. => Ok(_ret as usize), _ => Err(Error::from_isize(_ret)) }\n}";
    assert_eq!(SysCalls::Fcntl.gen_usys(), fcntl);
    let wait = "\npub fn wait(xstatus: &mut i32) -> Result<usize> {\n    let _ret: isize;\n    unsafe {\n        asm!(\n            \"ecall\",\n            in(\"a0\") xstatus as *mut _ as usize,\n            in(\"a7\") 3,\n            lateout(\"a0\") _ret,\n        );\n    }\n    match _ret { 0.. => Ok(_ret as usize), _ => Err(Error::from_isize(_ret)) }\n}";
    assert_eq!(SysCalls::Wait.gen_usys(), wait);
    let exit = SysCalls::Exit.gen_usys();
    assert!(exit.starts_with("\npub fn exit(xstatus: i32) -> ! {"));
    assert!(exit.ends_with("    unreachable!()\n}"));
}

fn put16(v: &mut Vec<u8>, off: usize, x: u16) {
    v[off..off + 2].copy_from_slice(&x.to_le_bytes());
}

fn put32(v: &mut Vec<u8>, off: usize, x: u32) {
    v[off..off + 4].copy_from_slice(&x.to_le_bytes());
}

fn put64(v: &mut Vec<u8>, off: usize, x: u64) {
    v[off..off + 8].copy_from_slice(&x.to_le_bytes());
}

fn phdr(v: &mut Vec<u8>, off: usize, ptype: u32, flags: u32, offset: u64, vaddr: u64, fsize: u64, msize: u64) {
    put32(v, off, ptype);
    put32(v, off + 4, flags);
    put64(v, off + 8, offset);
    put64(v, off + 16, vaddr);
    put64(v, off + 32, fsize);
    put64(v, off + 40, msize);
}

fn elf_image(phnum: u16) -> Vec<u8> {
    let mut v = vec![0u8; 0x200];
    v[0] = 0x7f;
    v[1] = b'E';
    v[2] = b'L';
    v[3] = b'F';
    put64(&mut v, 24, 0x40);
    put64(&mut v, 32, 64);
    put16(&mut v, 56, phnum);
    v
}

#[test]
fn init_image_plan_loads_segments_and_places_stack() {
    let mut img = elf_image(2);
    phdr(&mut img, 64, 1, 5, 0x180, 0, 16, 0x1800);
    phdr(&mut img, 120, 1, 6, 0x190, 0x2000, 8, 8);
    let plan = plan_init_image(&img);
    assert_eq!(plan.entry, 0x40);
    assert_eq!(plan.loads.len(), 2);
    assert_eq!(plan.loads[0].p_msize, 0x1800);
    assert_eq!(plan.loads[1].p_vaddr, 0x2000);
    assert_eq!(plan.sz, 0x2008);
    assert_eq!(plan.stack_top, 0x5000);
}

#[test]
fn init_image_stops_loading_at_first_skipped_header() {
    let mut img = elf_image(2);
    phdr(&mut img, 64, 6, 4, 0, 0, 0, 0);
    phdr(&mut img, 120, 1, 5, 0x180, 0, 16, 16);
    let plan = plan_init_image(&img);
    assert_eq!(plan.loads.len(), 0);
    assert_eq!(plan.sz, 0);
    assert_eq!(plan.stack_top, 0x2000);
}

fn file(f: VFile, readable: bool, writable: bool, nonblock: bool, append: bool) -> File {
    File { f: Some(f), readable, writable, cloexec: false, nonblock, append }
}

#[test]
fn read_and_write_routes() {
    let pipe = file(VFile::Pipe { id: 1 }, true, true, true, false);
    assert_eq!(pipe.read(false), Ok(IoRoute::PipeNonblock));
    assert_eq!(pipe.write(), Ok(IoRoute::PipeNonblock));
    let cons = file(VFile::Device { major: Major::Console, dev: 0, inum: 1 }, true, true, true, true);
    assert_eq!(cons.read(false), Err(Error::WouldBlock));
    assert_eq!(cons.read(true), Ok(IoRoute::Device));
    assert_eq!(cons.write(), Ok(IoRoute::File { append: true }));
    let wronly = file(VFile::Inode { dev: 1, inum: 2 }, false, true, false, false);
    assert_eq!(wronly.read(true), Err(Error::InvalidArgument));
    let rdonly = file(VFile::Inode { dev: 1, inum: 2 }, true, false, false, false);
    assert_eq!(rdonly.write(), Err(Error::InvalidArgument));
    assert_eq!(rdonly.read(false), Ok(IoRoute::File { append: false }));
}

#[test]
fn remote_paths_go_to_the_file_server() {
    match SysCalls::unlink(b"/dfs/a.txt") {
        Ok(PathRoute::Remote(c)) => {
            assert_eq!(c.req.magic, DFS_MAGIC);
            assert_eq!(c.req.op, DfsOp::Unlink.code());
            assert_eq!(c.payloads, vec![b"/a.txt".to_vec()]);
        },
        _ => panic!("expected a remote call"),
    }
    assert!(matches!(SysCalls::mkdir(b"/home/x"), Ok(PathRoute::Local)));
    assert!(matches!(SysCalls::link(b"/dfs/a", b"/b"), Err(Error::CrossesDevices)));
    assert!(matches!(SysCalls::link(b"/a", b"/b"), Ok(PathRoute::Local)));
    match SysCalls::link(b"/dfs/a", b"/dfs/b") {
        Ok(PathRoute::Remote(c)) => assert_eq!(c.payloads, vec![b"/a".to_vec(), b"/b".to_vec()]),
        _ => panic!("expected a remote call"),
    }
    match SysCalls::symlink(b"/dfs/t", b"/dfs/l") {
        Ok(PathRoute::Remote(c)) => assert_eq!(c.payloads, vec![b"/t".to_vec(), b"/l".to_vec()]),
        _ => panic!("expected a remote call"),
    }
    assert!(matches!(SysCalls::symlink(b"/dfs/t", b"/l"), Ok(PathRoute::Local)));
}
