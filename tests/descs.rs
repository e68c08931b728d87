use m3kernel::m3fs::{DirEntry, Extent, FileInfo, FileMode, INode, SuperBlock, IFDIR, IFLNK, IFREG};
use m3kernel::mods::{create, BootMod, ModManager};
use m3kernel::pedesc::{
    PEDesc, ATTR_NIC, ATTR_ROCKET, COMP_EMEM, COMP_IMEM, ISA_ACCEL_COPY, ISA_ARM, ISA_NIC_DEV, ISA_RISCV,
    ISA_X86, MEM, RBUF_SIZE, RBUF_SIZE_SPM, RBUF_STD_ADDR, RBUF_STD_SIZE, SPM_RBUFS, STACK_SIZE,
};
use m3kernel::pemux::{vec_name, State};
use m3kernel::services::{Service, ServiceManager, Session, SERV_OPEN};
use m3kernel::error::Code;

#[test]
fn pedesc_fields() {
    let d = PEDesc::new(COMP_IMEM, ISA_RISCV, 0x20000);
    assert_eq!(d.value(), 0x20000 | (ISA_RISCV << 3));
    assert_eq!(d.pe_type(), COMP_IMEM);
    assert_eq!(d.isa(), ISA_RISCV);
    assert_eq!(d.mem_size(), 0x20000);
    assert!(d.is_programmable());
    assert!(!d.is_device());
    assert!(d.supports_vpes());
    assert!(d.supports_pemux());
    assert!(d.has_mem());
    assert!(!d.has_cache());
    assert!(!d.has_virtmem());
    let m = PEDesc::new_from(MEM);
    assert!(!m.supports_vpes());
    assert!(m.has_mem());
    let n = PEDesc::new_with_attr(COMP_IMEM, ISA_NIC_DEV, 0, ATTR_NIC);
    assert!(n.is_device());
    assert!(!n.supports_pemux());
    assert_eq!(n.attr(), ATTR_NIC);
}

#[test]
fn pedesc_properties() {
    let d = PEDesc::new(COMP_IMEM, ISA_X86, 0x1000);
    let e = d.with_properties("emem+arm");
    assert_eq!(e.pe_type(), COMP_EMEM);
    assert_eq!(e.isa(), ISA_ARM);
    assert_eq!(e.mem_size(), 0);
    let r = d.with_properties("rocket+riscv");
    assert_eq!(r.isa(), ISA_RISCV);
    assert_eq!(r.attr(), 0);
    let r = d.with_properties("riscv+rocket");
    assert_eq!(r.attr(), ATTR_ROCKET);
    assert_eq!(d.with_properties("copy").isa(), ISA_ACCEL_COPY);
    assert_eq!(d.with_properties("bogus").value(), d.value());
    assert_eq!(d.with_properties("").value(), d.value());
    assert_eq!(d.with_properties("vm").has_virtmem(), true);
}

#[test]
fn pedesc_layout() {
    let vm = PEDesc::new(COMP_EMEM, ISA_X86, 0);
    assert_eq!(vm.rbuf_std_space(), (RBUF_STD_ADDR, RBUF_STD_SIZE));
    assert_eq!(vm.rbuf_space(), (RBUF_STD_ADDR + RBUF_STD_SIZE, RBUF_SIZE));
    assert_eq!(vm.stack_space(), (RBUF_STD_ADDR - STACK_SIZE, STACK_SIZE));
    assert_eq!(vm.stack_top(), RBUF_STD_ADDR);
    let spm = PEDesc::new(COMP_IMEM, ISA_RISCV, 0x100000);
    let base = 0x100000 - SPM_RBUFS;
    assert_eq!(spm.rbuf_std_space(), (base, RBUF_STD_SIZE));
    assert_eq!(spm.rbuf_space(), (base + RBUF_STD_SIZE, RBUF_SIZE_SPM));
    assert_eq!(spm.stack_top(), base);
}

#[test]
fn file_modes() {
    assert!(FileMode { bits: IFDIR | 0o755 }.is_dir());
    assert!(FileMode { bits: IFREG | 0o644 }.is_reg());
    assert!(!FileMode { bits: IFREG | 0o644 }.is_dir());
    assert!(FileMode { bits: IFLNK }.is_link());
    assert!(!FileMode { bits: IFLNK }.is_reg());
    assert!(FileMode { bits: 0o0020000 }.is_chr());
    assert!(FileMode { bits: 0o0060000 }.is_blk());
    // the pipe bit pattern lies partly outside the type mask, so no mode reads as a pipe
    assert!(!FileMode { bits: 0o0110000 }.is_pip());
    assert!(FileMode { bits: 0o0110000 }.is_reg());
}

#[test]
fn superblock_layout() {
    let mut sb = SuperBlock {
        block_size: 1024,
        total_inodes: 1024,
        total_blocks: 16384,
        free_inodes: 1000,
        free_blocks: 16000,
        first_free_inode: 24,
        first_free_block: 384,
        checksum: 0,
    };
    assert_eq!(sb.first_inodebm_block(), 1);
    assert_eq!(sb.inodebm_block(), 1);
    assert_eq!(sb.first_blockbm_block(), 2);
    assert_eq!(sb.blockbm_blocks(), 2);
    assert_eq!(sb.first_inode_block(), 4);
    assert_eq!(sb.extents_per_block(), 128);
    assert_eq!(sb.inodes_per_block(), 16);
    let sum = 1u64 + 1024 * 2 + 1024 * 3 + 16384 * 5 + 1000 * 7 + 16000 * 11 + 24 * 13 + 384 * 17;
    assert_eq!(sb.get_checksum() as u64, sum);
    sb.update_inodebm(5, 6);
    sb.update_blockbm(7, 8);
    assert_eq!((sb.free_inodes, sb.first_free_inode, sb.free_blocks, sb.first_free_block), (5, 6, 7, 8));
}

#[test]
fn checksum_wraps() {
    let sb = SuperBlock {
        block_size: u32::MAX,
        total_inodes: u32::MAX,
        total_blocks: 0,
        free_inodes: 0,
        free_blocks: 0,
        first_free_inode: 0,
        first_free_block: 0,
        checksum: 0,
    };
    let sum = 1u64 + (u32::MAX as u64) * 5;
    assert_eq!(sb.get_checksum() as u64, sum % (1u64 << 32));
}

#[test]
fn inodes_and_extents() {
    let mut ino = INode {
        devno: 1,
        links: 2,
        lastaccess: 3,
        lastmod: 4,
        extents: 1,
        inode: 9,
        mode: FileMode { bits: IFREG | 0o644 },
        size: 4096,
        direct: [Extent::new(100, 4), Extent::new(0, 0), Extent::new(0, 0)],
        indirect: 0,
        dindirect: 0,
    };
    let mut info = FileInfo {
        devno: 0,
        inode: 0,
        mode: 0,
        links: 0,
        size: 0,
        lastaccess: 0,
        lastmod: 0,
        blocksize: 0,
        extents: 0,
        firstblock: 0,
    };
    ino.to_file_info(&mut info, 1024);
    assert_eq!((info.inode, info.links, info.size, info.blocksize, info.firstblock), (9, 2, 4096, 1024, 100));
    assert_eq!(info.mode, IFREG | 0o644);
    ino.reset();
    assert_eq!((ino.inode, ino.size, ino.links, ino.mode.bits), (0, 0, 0, 0));
    assert_eq!(ino.direct[0], Extent::new(0, 0));

    let mut it = Extent::new(100, 3).bno_iter();
    assert_eq!(it.next(), Some(100));
    assert_eq!(it.next(), Some(101));
    assert_eq!(it.next(), Some(102));
    assert_eq!(it.next(), None);
    assert_eq!(DirEntry { nodeno: 1, name_length: 5, next: 0 }.size(), 17);
}

#[test]
fn pemux_state() {
    let mut s = State { r: [7; 15], irq: 1, error: 0, rip: 0, cs: 0, rflags: 0, rsp: 0, ss: 0 };
    assert!(!s.came_from_user());
    assert!(s.nested());
    s.init(0x1000, 0x8000);
    assert!(s.came_from_user());
    assert_eq!((s.rip, s.rsp, s.rflags), (0x1000, 0x8000, 0x200));
    assert_eq!(s.r[8], 0);
    assert_eq!(s.r[14], 0xDEAD_BEEF);
    assert_eq!(s.r[0], 7);
}

#[test]
fn service_registry() {
    let mut m = ServiceManager::new();
    assert_eq!(m.add_service(10, 11, "m3fs".to_string(), 4, true), Ok(1));
    assert_eq!(m.add_service(12, 13, "net".to_string(), 2, false), Ok(2));
    assert_eq!(m.add_service(14, 15, "m3fs".to_string(), 1, true).unwrap_err().code, Code::Exists);
    assert_eq!(m.get("net").unwrap().sel(), 12);
    assert_eq!(m.get("net").unwrap().sgate_sel(), 13);
    assert_eq!(m.get_by_id(1).unwrap().name(), "m3fs");
    assert_eq!(m.get_by_id(1).unwrap().sessions(), 4);
    assert_eq!(m.get("disk").err().unwrap().code, Code::InvArgs);
    m.shutdown();
    let s = m.remove_service(1, true);
    assert_eq!(s.name(), "m3fs");
    assert_eq!(m.get_by_id(1).err().unwrap().code, Code::InvArgs);
    assert_eq!(m.get("net").unwrap().sel(), 12);
    let d = m.get("net").unwrap().derive(40, 7);
    assert_eq!((d.sel(), d.sgate_sel(), d.sessions()), (40, 41, 7));
    assert_eq!(d.name(), "net");
    let s2 = Service::new(5, 1, 2, "x".to_string(), 0, false);
    assert_eq!(s2.sel(), 1);
}

#[test]
fn boot_modules() {
    let mods = vec![
        BootMod { addr: 0x1000, size: 0x200, name: "root".to_string() },
        BootMod { addr: 0x2000, size: 0x300, name: "pager".to_string() },
    ];
    let mm = create(&mods, &vec![100, 101]);
    let p = mm.find("pager").unwrap();
    assert_eq!((p.addr(), p.size(), p.memory()), (0x2000, 0x300, 101));
    assert_eq!(p.name(), "pager");
    assert!(mm.find("fs").is_none());
    assert!(ModManager::new().find("root").is_none());
}

#[test]
fn sessions_open_and_close() {
    let mut m = ServiceManager::new();
    let id = m.add_service(10, 11, "m3fs".to_string(), 4, true).unwrap();
    let mut serv = Service::new(id, 10, 11, "m3fs".to_string(), 4, true);
    let ev = serv.open_session("ab").unwrap();
    let out = serv.queue().take_outbox();
    assert_eq!(out.len(), 1);
    assert_eq!(out[0].event, ev);
    assert_eq!(out[0].msg, vec![SERV_OPEN, 97, 98]);
    let s = Session::new(30, id, &vec![0, 0x99]).unwrap();
    assert_eq!((s.sel(), s.ident()), (30, 0x99));
    assert_eq!(Session::new(30, id, &vec![4, 0]).err().unwrap().code, Code::NoSpace);
    assert_eq!(Session::new(30, id, &vec![]).err().unwrap().code, Code::RecvGone);
    assert!(s.close(&mut m).is_ok());
    let gone = Session::new(31, 77, &vec![0, 1]).unwrap();
    assert_eq!(gone.close(&mut m).err().unwrap().code, Code::InvArgs);
}

#[test]
fn exception_names() {
    assert_eq!(vec_name(0x0E), "Page fault");
    assert_eq!(vec_name(0x10), "Co-processor error");
    assert_eq!(vec_name(0x0F), "<unknown>");
}
