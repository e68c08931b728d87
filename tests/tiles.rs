use m3kernel::error::Code;
use m3kernel::fabric::{Fabric, TILE_REGS};
use m3kernel::kobj::{EpLoc, MGateObject, RGateObject, SGateObject};
use m3kernel::ktcu;
use m3kernel::tcu::{AVAIL_EPS, EP_RECEIVE, EP_REGS, EP_SEND, FIRST_USER_EP, KPEX_REP, KPEX_SEP, PMEM_PROT_EPS, TMSIDE_REP};
use m3kernel::tilemux::{
    decode_response, translate_result, Sidecall, TileMux, SC_ACT_CTRL, SC_ACT_INIT, SC_GET_QUOTA, SC_MAP,
    SC_REMOVE_QUOTAS, SC_REM_MSGS, SC_SET_QUOTA, SC_TRANSLATE,
};

fn idx(t: usize, ep: usize, i: usize) -> usize {
    t * TILE_REGS + ep * EP_REGS + i
}

#[test]
fn find_eps_skips_allocated_run() {
    let mut tm = TileMux::new(1, false, false);
    tm.alloc_eps(FIRST_USER_EP, 3);
    assert!(!tm.eps_free(FIRST_USER_EP, 3));
    assert_eq!(tm.find_eps(3), Ok(FIRST_USER_EP + 3));
}

#[test]
fn find_eps_never_below_first_user_ep() {
    let tm = TileMux::new(1, false, false);
    assert!(tm.eps_free(1, 3));
    assert_eq!(tm.find_eps(1), Ok(FIRST_USER_EP));
    assert_eq!(tm.find_eps((AVAIL_EPS - FIRST_USER_EP) as u32), Ok(FIRST_USER_EP));
    assert_eq!(tm.find_eps((AVAIL_EPS - FIRST_USER_EP + 1) as u32).unwrap_err().code, Code::NoSpace);
}

#[test]
fn find_eps_takes_first_gap_that_fits() {
    let mut tm = TileMux::new(0, false, false);
    tm.alloc_eps(FIRST_USER_EP + 2, 1);
    assert_eq!(tm.find_eps(2), Ok(FIRST_USER_EP));
    assert_eq!(tm.find_eps(3), Ok(FIRST_USER_EP + 3));
    tm.free_eps(FIRST_USER_EP + 2, 1);
    assert_eq!(tm.find_eps(3), Ok(FIRST_USER_EP));
}

#[test]
fn new_tilemux_reserves_mux_eps() {
    let tm = TileMux::new(2, false, false);
    assert!(!tm.eps_free(0, 1));
    assert!(tm.eps_free(1, (PMEM_PROT_EPS - 1) as u32));
    assert!(!tm.eps_free(PMEM_PROT_EPS, 1));
    assert!(!tm.eps_free(FIRST_USER_EP - 1, 1));
    assert!(tm.eps_free(FIRST_USER_EP, 1));
    let host = TileMux::new(2, false, true);
    assert!(host.eps_free(0, 1));
    assert_eq!(tm.pmp_ep(3).ep, 3);
    assert_eq!(tm.tile_id(), 2);
    assert_eq!(tm.tile().eps_quota, (AVAIL_EPS - FIRST_USER_EP) as u32);
}

#[test]
fn activities_come_and_go() {
    let mut tm = TileMux::new(0, true, false);
    assert!(!tm.has_activities());
    tm.add_activity(4);
    tm.add_activity(5);
    tm.add_activity(4);
    assert!(tm.has_activities());
    tm.rem_activity(4);
    assert_eq!(tm.handle_call_async(&vec![0, 4, 0]), Ok(None));
    assert_eq!(tm.handle_call_async(&vec![0, 5, 0xFFFF_FFFF]), Ok(Some((5, -1))));
    tm.rem_activity(5);
    assert!(!tm.has_activities());
    assert_eq!(tm.handle_call_async(&vec![1, 5, 0]).unwrap_err().code, Code::InvArgs);
}

#[test]
fn invalidate_ep_reports_unread_messages_once() {
    let mut fab = Fabric::new(2);
    let mut tm = TileMux::new(1, true, false);
    let ep = FIRST_USER_EP as usize;
    fab.regs[idx(1, ep, 0)] = EP_RECEIVE;
    fab.regs[idx(1, ep, 2)] = (0b101u64 << 32) | 0b111;
    assert_eq!(tm.invalidate_ep(&mut fab, 7, FIRST_USER_EP, true, true, true), Ok(()));
    let out = tm.take_sidecalls();
    assert_eq!(out.len(), 1);
    assert_eq!(out[0].msg, vec![SC_REM_MSGS, 7, 0b101]);
    assert_eq!(out[0].msg[2].count_ones(), 2);
    assert_eq!(fab.regs[idx(1, ep, 0)], 0);
    assert_eq!(fab.regs[idx(1, ep, 2)], 0);
}

#[test]
fn invalidate_ep_without_notify_sends_nothing() {
    let mut fab = Fabric::new(2);
    let mut tm = TileMux::new(1, true, false);
    let ep = FIRST_USER_EP as usize;
    fab.regs[idx(1, ep, 0)] = EP_RECEIVE;
    fab.regs[idx(1, ep, 2)] = 0b11u64 << 32;
    assert_eq!(tm.invalidate_ep(&mut fab, 7, FIRST_USER_EP, true, false, true), Ok(()));
    assert_eq!(tm.take_sidecalls().len(), 0);
}

#[test]
fn invalidate_ep_for_dead_activity_is_refused() {
    let mut fab = Fabric::new(2);
    let mut tm = TileMux::new(1, true, false);
    let ep = FIRST_USER_EP as usize;
    fab.regs[idx(1, ep, 0)] = EP_RECEIVE;
    fab.regs[idx(1, ep, 2)] = 0b1u64 << 32;
    assert_eq!(tm.invalidate_ep(&mut fab, 7, FIRST_USER_EP, true, true, false).unwrap_err().code, Code::ActivityGone);
    assert_eq!(fab.regs[idx(1, ep, 0)], 0);
}

#[test]
fn invalidate_remote_twice_is_harmless() {
    let mut fab = Fabric::new(1);
    assert_eq!(ktcu::invalidate_ep_remote(&mut fab, 0, 20, false), Ok(0));
    assert_eq!(ktcu::invalidate_ep_remote(&mut fab, 0, 20, false), Ok(0));
    assert_eq!(ktcu::invalidate_ep_remote(&mut fab, 0, 20, true), Ok(0));
}

#[test]
fn invalidate_remote_refuses_send_ep_with_credits_in_use() {
    let mut fab = Fabric::new(1);
    // max credits 4, current credits 2
    fab.regs[idx(0, 9, 0)] = EP_SEND | (4u64 << 25) | (2u64 << 31);
    assert_eq!(ktcu::invalidate_ep_remote(&mut fab, 0, 9, false).unwrap_err().code, Code::NoCredits);
    assert_ne!(fab.regs[idx(0, 9, 0)], 0);
    assert_eq!(ktcu::invalidate_ep_remote(&mut fab, 0, 9, true), Ok(0));
    assert_eq!(fab.regs[idx(0, 9, 0)], 0);
}

#[test]
fn invalidate_remote_unknown_tile() {
    let mut fab = Fabric::new(1);
    assert_eq!(ktcu::invalidate_ep_remote(&mut fab, 3, 9, true).unwrap_err().code, Code::InvArgs);
}

#[test]
fn reset_pe_clears_all_endpoints() {
    let mut fab = Fabric::new(2);
    fab.regs[idx(1, 5, 1)] = 42;
    fab.regs[idx(0, 5, 1)] = 43;
    assert_eq!(ktcu::reset_pe(&mut fab, 1), Ok(()));
    assert_eq!(fab.regs[idx(1, 5, 1)], 0);
    assert_eq!(fab.regs[idx(0, 5, 1)], 43);
    assert_eq!(ktcu::reset_pe(&mut fab, 2).unwrap_err().code, Code::InvArgs);
}

#[test]
fn deprivilege_clears_features() {
    let mut fab = Fabric::new(2);
    fab.features[1] = 1;
    assert_eq!(ktcu::deprivilege_pe(&mut fab, 1), Ok(()));
    assert_eq!(fab.features[1], 0);
}

#[test]
fn tile_id_table() {
    let sim = ktcu::init(true);
    assert_eq!(sim[5], 5);
    let hw = ktcu::init(false);
    assert_eq!(hw[0], 0x06);
    assert_eq!(hw[8], 0x24);
    assert_eq!(hw[9], 0);
}

#[test]
fn rbuf_addrs_translate_with_virtual_memory() {
    assert_eq!(ktcu::rbuf_addrs(0x1234, false, 0xABC000), (0x1234, 0x1234));
    assert_eq!(ktcu::rbuf_addrs(0x1234, true, 0xABC007), (0x1234, 0xABC234));
}

#[test]
fn write_and_read_endpoint_registers() {
    let mut fab = Fabric::new(2);
    let ids = ktcu::init(true);
    let mut regs = vec![0u64; 3];
    ktcu::config_send(&mut regs, &ids, 3, 0x55, 1, 12, 6, 2);
    assert_eq!(regs[0], EP_SEND | (3 << 3) | (6 << 19) | (2 << 25) | (2 << 31));
    assert_eq!(regs[1], (1 << 16) | 12);
    assert_eq!(regs[2], 0x55);
    assert_eq!(ktcu::write_ep_remote(&mut fab, 1, 30, &regs), Ok(()));
    let mut back = vec![0u64; 3];
    assert_eq!(ktcu::read_ep_remote(&fab, 1, 30, &mut back), Ok(()));
    assert_eq!(back, regs);
    assert_eq!(ktcu::read_ep_remote(&fab, 1, AVAIL_EPS, &mut back).unwrap_err().code, Code::InvArgs);
}

#[test]
fn inv_reply_remote_invalidates_matching_reply_eps() {
    let mut fab = Fabric::new(3);
    let ids = ktcu::init(true);
    let mut regs = vec![0u64; 3];
    // receive EP 20 on tile 0: 4 slots (order 2), reply EPs from 40, slots 0 and 2 occupied
    ktcu::config_recv(&mut regs, 1, 0x1000, 8, 6, Some(40));
    regs[2] = 0b101;
    ktcu::write_ep_remote(&mut fab, 0, 20, &regs).unwrap();
    // reply EPs 40 and 42 lead back to EP 9 on tile 2 and EP 9 on tile 1
    fab.regs[idx(0, 40, 0)] = EP_SEND | (9u64 << 37);
    fab.regs[idx(0, 40, 1)] = 2u64 << 16;
    fab.regs[idx(0, 42, 0)] = EP_SEND | (9u64 << 37);
    fab.regs[idx(0, 42, 1)] = 1u64 << 16;
    assert_eq!(ktcu::inv_reply_remote(&mut fab, &ids, 0, 20, 2, 9), Ok(()));
    assert_eq!(fab.regs[idx(0, 40, 0)], 0);
    assert_ne!(fab.regs[idx(0, 42, 0)], 0);
}

#[test]
fn config_endpoints_through_tilemux() {
    let mut fab = Fabric::new(2);
    let ids = ktcu::init(true);
    let mut tm = TileMux::new(1, true, false);
    let rgate = RGateObject { loc: None, addr: 0x2000, order: 10, msg_order: 6 };
    let sgate = SGateObject { rgate, label: 0x77, credits: 3 };
    assert_eq!(tm.config_snd_ep(&mut fab, &ids, 20, 4, &sgate).unwrap_err().code, Code::InvArgs);
    let active = RGateObject { loc: Some(EpLoc { tile: 0, ep: 17 }), ..rgate };
    let sgate = SGateObject { rgate: active, label: 0x77, credits: 3 };
    assert_eq!(tm.config_snd_ep(&mut fab, &ids, 20, 4, &sgate), Ok(()));
    assert_eq!(fab.regs[idx(1, 20, 2)], 0x77);
    assert_eq!(fab.regs[idx(1, 20, 1)], 17);
    assert_eq!(tm.config_rcv_ep(&mut fab, 21, 4, Some(30), &rgate), Ok(()));
    assert_eq!(fab.regs[idx(1, 21, 1)], 0x2000);
    let mgate = MGateObject { tile: 0, offset: 0x100, size: 0x200, perms: 3 };
    assert_eq!(tm.config_mem_ep(&mut fab, &ids, 22, 4, &mgate, 0), Ok(()));
    assert_eq!(fab.regs[idx(1, 22, 1)], 0x100);
    assert_eq!(fab.regs[idx(1, 22, 2)], 0x200);
    assert_eq!(tm.config_mem_ep(&mut fab, &ids, AVAIL_EPS, 4, &mgate, 0).unwrap_err().code, Code::InvArgs);
}

#[test]
fn sidecalls_go_out_with_fresh_tokens() {
    let mut tm = TileMux::new(1, false, false);
    let a = tm.get_quota_async(3, 4);
    let b = tm.get_quota_async(3, 4);
    match (a, b) {
        (Ok(Sidecall::Sent(x)), Ok(Sidecall::Sent(y))) => assert_ne!(x, y),
        _ => panic!("expected two sent requests"),
    }
    let out = tm.take_sidecalls();
    assert_eq!(out.len(), 1);
    assert_eq!(out[0].msg, vec![SC_GET_QUOTA, 3, 4]);
}

#[test]
fn host_sidecalls_finish_at_once() {
    let mut tm = TileMux::new(1, false, true);
    match tm.derive_quota_async(1, 2, Some(5), None) {
        Ok(Sidecall::Done(v)) => assert_eq!(v, (0, 0)),
        _ => panic!("expected a finished request"),
    }
    assert_eq!(tm.reset_stats().unwrap_err().code, Code::NotSup);
    assert_eq!(tm.notify_invalidate(3, 20, true), Ok(()));
}

#[test]
fn quota_reply_decoding() {
    let tm = TileMux::new(3, false, false);
    let (t, p) = tm.get_quota_result(1, 2, (10u64 << 32) | 4, (7u64 << 32) | 7);
    assert_eq!((t.id, t.total, t.left), ((3 << 8) | 1, 10, 4));
    assert_eq!((p.id, p.total, p.left), ((3 << 8) | 2, 7, 7));
    assert_eq!(decode_response(&vec![0, 5, 6]), Ok((5, 6)));
    assert_eq!(decode_response(&vec![7, 5, 6]).unwrap_err().code.raw(), 7);
    assert_eq!(decode_response(&vec![0]).unwrap_err().code, Code::InvArgs);
    assert_eq!(translate_result(0x1234_5FFF), 0x1234_5000);
}

#[test]
fn allocated_eps_are_never_free_again() {
    let mut tm = TileMux::new(1, false, false);
    let a = tm.find_eps(4).unwrap();
    tm.alloc_eps(a, 4);
    for s in FIRST_USER_EP..FIRST_USER_EP + 8 {
        if s < a + 4 && a < s + 2 {
            assert!(!tm.eps_free(s, 2));
        }
    }
    let b = tm.find_eps(4).unwrap();
    assert!(b >= a + 4);
    assert!(tm.eps_free(b, 4));
}

#[test]
fn activity_sidecalls_carry_their_arguments() {
    let mut tm = TileMux::new(1, false, false);
    assert!(matches!(tm.activity_init_async(4, 10, 11, 20), Ok(Sidecall::Sent(_))));
    let e = tm.take_sidecalls();
    assert_eq!(e[0].msg, vec![SC_ACT_INIT, 4, 10, 11, 20]);
    // one credit: the next request waits until the first reply is in
    assert!(matches!(tm.activity_ctrl_async(4, 1), Ok(Sidecall::Sent(_))));
    assert_eq!(tm.take_sidecalls().len(), 0);
    assert_eq!(tm.sidecall_reply(e[0].event, vec![0, 0, 0]), Ok(()));
    let out = tm.take_sidecalls();
    assert_eq!(out[0].msg, vec![SC_ACT_CTRL, 4, 1]);
    assert_eq!(tm.receive_async(e[0].event), Some(vec![0, 0, 0]));
    assert_eq!(tm.receive_async(e[0].event), None);
    assert_eq!(tm.sidecall_reply(out[0].event, vec![0, 0, 0]), Ok(()));

    assert!(matches!(tm.set_quota_async(5, 100, 200), Ok(Sidecall::Sent(_))));
    let out = tm.take_sidecalls();
    assert_eq!(out[0].msg, vec![SC_SET_QUOTA, 5, 100, 200]);
    tm.sidecall_reply(out[0].event, vec![0, 0, 0]).unwrap();

    assert!(matches!(tm.remove_quotas_async(Some(5), None), Ok(Sidecall::Sent(_))));
    let out = tm.take_sidecalls();
    assert_eq!(out[0].msg, vec![SC_REMOVE_QUOTAS, 1, 5, 0, 0]);
    tm.sidecall_reply(out[0].event, vec![0, 0, 0]).unwrap();

    assert!(matches!(tm.unmap_async(4, 0x1000, 2, true), Ok(Sidecall::Sent(_))));
    let out = tm.take_sidecalls();
    assert_eq!(out[0].msg, vec![SC_MAP, 4, 0x1000, 0, 2, 0]);
    tm.sidecall_reply(out[0].event, vec![0, 0, 0]).unwrap();

    assert!(tm.translate_async(4, 0x2000, 1, true).is_ok());
    let out = tm.take_sidecalls();
    assert_eq!(out[0].msg, vec![SC_TRANSLATE, 4, 0x2000, 1]);

    assert_eq!(tm.map_async(4, 0, 0, 1, 3, false).err().unwrap().code, Code::ActivityGone);
    assert_eq!(tm.sidecall_reply(12345, vec![0]).unwrap_err().code, Code::InvArgs);
}

#[test]
fn init_sets_up_the_multiplexer_endpoints() {
    let mut fab = Fabric::new(3);
    let ids = ktcu::init(true);
    let mut tm = TileMux::new(2, false, false);
    assert_eq!(tm.init(&mut fab, &ids, 0, 0x4000), Ok(()));
    assert_eq!(fab.regs[idx(2, KPEX_SEP as usize, 0)] & 7, EP_SEND);
    assert_eq!(fab.regs[idx(2, KPEX_SEP as usize, 2)], 2);
    assert_eq!(fab.regs[idx(2, KPEX_REP as usize, 1)], 0x4000);
    assert_eq!(fab.regs[idx(2, TMSIDE_REP as usize, 1)], 0x4040);
    let mut far = TileMux::new(5, false, false);
    assert_eq!(far.init(&mut fab, &ids, 0, 0x4000).unwrap_err().code, Code::InvArgs);
}

#[test]
fn invalidate_reply_eps_of_a_sender() {
    let mut fab = Fabric::new(2);
    let ids = ktcu::init(true);
    let tm = TileMux::new(1, false, false);
    let mut regs = vec![0u64; 3];
    ktcu::config_recv(&mut regs, 1, 0x1000, 7, 6, Some(50));
    regs[2] = 0b10;
    ktcu::write_ep_remote(&mut fab, 0, 20, &regs).unwrap();
    fab.regs[idx(0, 51, 0)] = EP_SEND | (9u64 << 37);
    fab.regs[idx(0, 51, 1)] = 1u64 << 16;
    assert_eq!(tm.invalidate_reply_eps(&mut fab, &ids, 0, 20, 9), Ok(()));
    assert_eq!(fab.regs[idx(0, 51, 0)], 0);
    // reply endpoints past the last endpoint cannot be read
    ktcu::config_recv(&mut regs, 1, 0x1000, 7, 6, Some(AVAIL_EPS - 1));
    regs[2] = 0b10;
    ktcu::write_ep_remote(&mut fab, 0, 21, &regs).unwrap();
    assert_eq!(tm.invalidate_reply_eps(&mut fab, &ids, 0, 21, 9).unwrap_err().code, Code::InvArgs);
}
