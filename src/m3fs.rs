use vstd::prelude::*;

verus! {

/// Number of some block.
pub type BlockNo = u32;
pub type Dev = u8;
pub type InodeNo = u32;
pub type Time = u32;

pub const INODE_DIR_COUNT: usize = 3;
pub const MAX_BLOCK_SIZE: u32 = 4096;
pub const NUM_INODE_BYTES: usize = 64;
pub const NUM_EXT_BYTES: usize = 8;
/// Bytes of a directory entry before its name.
pub const DIR_ENTRY_LEN: usize = 12;

/// File type and permission bits.
#[derive(Clone, Copy, Debug, PartialEq, Eq, Structural)]
pub struct FileMode {
    pub bits: u32,
}

pub const IFMT: u32 = 0o0160000;
pub const IFLNK: u32 = 0o0120000;
pub const IFPIP: u32 = 0o0110000;
pub const IFREG: u32 = 0o0100000;
pub const IFBLK: u32 = 0o0060000;
pub const IFDIR: u32 = 0o0040000;
pub const IFCHR: u32 = 0o0020000;

impl FileMode {
    pub open spec fn kind(self) -> u32 {
        self.bits & IFMT
    }

    pub fn is_dir(self) -> (r: bool)
        ensures
            r == (self.kind() == IFDIR),
    {
        (self.bits & IFMT) == IFDIR
    }

    pub fn is_reg(self) -> (r: bool)
        ensures
            r == (self.kind() == IFREG),
    {
        (self.bits & IFMT) == IFREG
    }

    pub fn is_link(self) -> (r: bool)
        ensures
            r == (self.kind() == IFLNK),
    {
        (self.bits & IFMT) == IFLNK
    }

    pub fn is_chr(self) -> (r: bool)
        ensures
            r == (self.kind() == IFCHR),
    {
        (self.bits & IFMT) == IFCHR
    }

    pub fn is_blk(self) -> (r: bool)
        ensures
            r == (self.kind() == IFBLK),
    {
        (self.bits & IFMT) == IFBLK
    }

    pub fn is_pip(self) -> (r: bool)
        ensures
            r == (self.kind() == IFPIP),
    {
        (self.bits & IFMT) == IFPIP
    }
}

/// A run of blocks as stored on disk.
#[derive(Clone, Copy, Debug, PartialEq, Eq, Structural)]
pub struct Extent {
    pub start: u32,
    pub length: u32,
}

impl Extent {
    pub fn new(start: u32, length: u32) -> (r: Extent)
        ensures
            r.start == start,
            r.length == length,
    {
        Extent { start, length }
    }

    /// The block numbers of the extent.
    pub fn bno_iter(&self) -> (r: ExtentBlocksIterator)
        requires
            self.start + self.length <= u32::MAX,
        ensures
            r.cur == self.start,
            r.last == self.start + self.length,
    {
        ExtentBlocksIterator { cur: self.start, last: self.start + self.length }
    }
}

/// Walks the block numbers of an extent.
pub struct ExtentBlocksIterator {
    pub cur: BlockNo,
    pub last: BlockNo,
}

impl ExtentBlocksIterator {
    /// Returns the next block number, if any is left.
    pub fn next(&mut self) -> (r: Option<BlockNo>)
        ensures
            old(self).cur < old(self).last ==> r == Some(old(self).cur) && final(self).cur == old(self).cur + 1,
            old(self).cur >= old(self).last ==> r is None && final(self).cur == old(self).cur,
            final(self).last == old(self).last,
    {
        if self.cur < self.last {
            self.cur = self.cur + 1;
            Some(self.cur - 1)
        } else {
            None
        }
    }
}

/// What a stat call reports about a file.
#[derive(Clone, Copy, Debug, PartialEq, Eq, Structural)]
pub struct FileInfo {
    pub devno: Dev,
    pub inode: InodeNo,
    pub mode: u32,
    pub links: usize,
    pub size: usize,
    pub lastaccess: Time,
    pub lastmod: Time,
    pub blocksize: usize,
    pub extents: usize,
    pub firstblock: BlockNo,
}

/// An inode as it is stored on disk.
pub struct INode {
    pub devno: Dev,
    pub links: u16,
    pub lastaccess: Time,
    pub lastmod: Time,
    pub extents: u32,
    pub inode: InodeNo,
    pub mode: FileMode,
    pub size: u64,
    /// Direct extents.
    pub direct: [Extent; 3],
    /// The block with indirect extents, if not 0.
    pub indirect: BlockNo,
    /// The block with double indirect extents, if not 0.
    pub dindirect: BlockNo,
}

impl INode {
    /// Clears the inode.
    pub fn reset(&mut self)
        ensures
            final(self).devno == 0,
            final(self).links == 0,
            final(self).inode == 0,
            final(self).mode.bits == 0,
            final(self).size == 0,
            final(self).lastaccess == 0,
            final(self).lastmod == 0,
            final(self).extents == 0,
            forall|i: int| 0 <= i < INODE_DIR_COUNT ==> final(self).direct@[i] == (Extent { start: 0, length: 0 }),
            final(self).indirect == 0,
            final(self).dindirect == 0,
    {
        self.devno = 0;
        self.links = 0;
        self.inode = 0;
        self.mode = FileMode { bits: 0 };
        self.size = 0;
        self.lastaccess = 0;
        self.lastmod = 0;
        self.extents = 0;
        self.direct = [Extent { start: 0, length: 0 }, Extent { start: 0, length: 0 }, Extent { start: 0, length: 0 }];
        self.indirect = 0;
        self.dindirect = 0;
    }

    /// Fills `info` from the inode, for a file system with blocks of `block_size` bytes.
    pub fn to_file_info(&self, info: &mut FileInfo, block_size: u32)
        ensures
            final(info).devno == self.devno,
            final(info).inode == self.inode,
            final(info).mode == self.mode.bits,
            final(info).links == self.links as usize,
            final(info).size == self.size as usize,
            final(info).lastaccess == self.lastaccess,
            final(info).lastmod == self.lastmod,
            final(info).extents == self.extents as usize,
            final(info).blocksize == block_size as usize,
            final(info).firstblock == self.direct@[0].start,
    {
        info.devno = self.devno;
        info.inode = self.inode;
        info.mode = self.mode.bits;
        info.links = self.links as usize;
        info.size = #[verifier::truncate] (self.size as usize);
        info.lastaccess = self.lastaccess;
        info.lastmod = self.lastmod;
        info.extents = self.extents as usize;
        info.blocksize = block_size as usize;
        info.firstblock = self.direct[0].start;
    }
}

/// The fixed part of a directory entry; its name follows it on disk.
#[derive(Clone, Copy, Debug, PartialEq, Eq, Structural)]
pub struct DirEntry {
    pub nodeno: InodeNo,
    pub name_length: u32,
    pub next: u32,
}

impl DirEntry {
    /// Returns the size of the entry on disk, name included.
    pub fn size(&self) -> (r: usize)
        requires
            DIR_ENTRY_LEN + self.name_length <= usize::MAX,
        ensures
            r == DIR_ENTRY_LEN + self.name_length,
    {
        DIR_ENTRY_LEN + self.name_length as usize
    }
}

/// The superblock of the file system.
#[derive(Clone, Copy, Debug, PartialEq, Eq, Structural)]
pub struct SuperBlock {
    pub block_size: u32,
    pub total_inodes: u32,
    pub total_blocks: u32,
    pub free_inodes: u32,
    pub free_blocks: u32,
    pub first_free_inode: u32,
    pub first_free_block: u32,
    pub checksum: u32,
}

/// Blocks needed for a bitmap of `n` bits.
pub open spec fn bitmap_blocks(n: u32, block_size: u32) -> int {
    ((n + 7) / 8 + block_size - 1) / (block_size as int)
}

impl SuperBlock {
    pub open spec fn checksum_sum(&self) -> int {
        1 + self.block_size * 2 + self.total_inodes * 3 + self.total_blocks * 5 + self.free_inodes * 7
            + self.free_blocks * 11 + self.first_free_inode * 13 + self.first_free_block * 17
    }

    /// Returns the checksum over the other fields, modulo 2^32.
    pub fn get_checksum(&self) -> (r: u32)
        ensures
            r as int == self.checksum_sum() % 0x1_0000_0000,
    {
        let sum: u64 = 1 + self.block_size as u64 * 2 + self.total_inodes as u64 * 3 + self.total_blocks as u64 * 5
            + self.free_inodes as u64 * 7 + self.free_blocks as u64 * 11 + self.first_free_inode as u64 * 13
            + self.first_free_block as u64 * 17;
        (sum % 0x1_0000_0000) as u32
    }

    pub fn first_inodebm_block(&self) -> (r: BlockNo)
        ensures
            r == 1,
    {
        1
    }

    fn bm_blocks(n: u32, block_size: u32) -> (r: BlockNo)
        requires
            block_size > 0,
        ensures
            r as int == bitmap_blocks(n, block_size),
            r <= 0x2000_0001,
    {
        let a: u64 = (n as u64 + 7) / 8;
        let bs = block_size as u64;
        assert(a <= 0x2000_0000);
        assert((a + bs - 1) as int / bs as int <= a + 1) by (nonlinear_arith)
            requires bs >= 1, a <= 0x2000_0000;
        ((a + bs - 1) / bs) as u32
    }

    /// Returns the number of blocks of the inode bitmap.
    pub fn inodebm_block(&self) -> (r: BlockNo)
        requires
            self.block_size > 0,
        ensures
            r as int == bitmap_blocks(self.total_inodes, self.block_size),
            r <= 0x2000_0001,
    {
        Self::bm_blocks(self.total_inodes, self.block_size)
    }

    /// Returns the first block of the block bitmap, which follows the inode bitmap.
    pub fn first_blockbm_block(&self) -> (r: BlockNo)
        requires
            self.block_size > 0,
        ensures
            r as int == 1 + bitmap_blocks(self.total_inodes, self.block_size),
            r <= 0x2000_0002,
    {
        self.first_inodebm_block() + self.inodebm_block()
    }

    /// Returns the number of blocks of the block bitmap.
    pub fn blockbm_blocks(&self) -> (r: BlockNo)
        requires
            self.block_size > 0,
        ensures
            r as int == bitmap_blocks(self.total_blocks, self.block_size),
            r <= 0x2000_0001,
    {
        Self::bm_blocks(self.total_blocks, self.block_size)
    }

    /// Returns the first inode block, which follows both bitmaps.
    pub fn first_inode_block(&self) -> (r: BlockNo)
        requires
            self.block_size > 0,
        ensures
            r as int == 1 + bitmap_blocks(self.total_inodes, self.block_size)
                + bitmap_blocks(self.total_blocks, self.block_size),
    {
        self.first_blockbm_block() + self.blockbm_blocks()
    }

    pub fn extents_per_block(&self) -> (r: usize)
        ensures
            r as int == self.block_size as int / NUM_EXT_BYTES as int,
    {
        self.block_size as usize / NUM_EXT_BYTES
    }

    pub fn inodes_per_block(&self) -> (r: usize)
        ensures
            r as int == self.block_size as int / NUM_INODE_BYTES as int,
    {
        self.block_size as usize / NUM_INODE_BYTES
    }

    /// Records the number of free inodes and the first free one.
    pub fn update_inodebm(&mut self, free: u32, first: u32)
        ensures
            *final(self) == (SuperBlock { free_inodes: free, first_free_inode: first, ..*old(self) }),
    {
        self.free_inodes = free;
        self.first_free_inode = first;
    }

    /// Records the number of free blocks and the first free one.
    pub fn update_blockbm(&mut self, free: u32, first: u32)
        ensures
            *final(self) == (SuperBlock { free_blocks: free, first_free_block: first, ..*old(self) }),
    {
        self.free_blocks = free;
        self.first_free_block = first;
    }
}

} // verus!
