use vstd::prelude::*;

verus! {

#[derive(Debug, Clone, Copy, PartialEq, Eq, Structural)]
pub enum FileType {
    Empty,
    Dir,
    File,
    Device,
    Symlink,
}

impl Default for FileType {
    fn default() -> (r: Self)
        ensures
            r == FileType::Empty,
    {
        FileType::Empty
    }
}

#[derive(Debug, Clone, Copy)]
pub struct Stat {
    /// File system's disk device.
    pub dev: u32,
    /// Inode number.
    pub ino: u32,
    /// Type of file.
    pub ftype: FileType,
    /// Number of links to file.
    pub nlink: u16,
    /// Size of file in bytes.
    pub size: usize,
    /// Ticks since boot.
    pub atime: u64,
    pub mtime: u64,
    pub ctime: u64,
}

impl Stat {
    pub fn file_type(&self) -> (t: FileType)
        ensures
            t == self.ftype,
    {
        self.ftype
    }
}

} // verus!
