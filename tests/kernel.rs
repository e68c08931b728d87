use m3kernel::error::Code;
use m3kernel::kernel::{Kernel, SEL_ACT, SEL_KMEM, SEL_TILE, SERV_OBTAIN};
use m3kernel::kobj::{CapRngDesc, CapType, EpObject, KObject, MGateObject, ServObject, SessObject, TileObject};

fn tile(id: u16) -> TileObject {
    TileObject { id, eps_quota: 8, time_quota: 1, pt_quota: 1, shared: false }
}

fn mem(offset: u64) -> MGateObject {
    MGateObject { tile: 0, offset, size: 0x1000, perms: 3 }
}

fn new_act(k: &mut Kernel) -> u16 {
    k.create_activity(tile(0), mem(0)).unwrap()
}

fn obj_at(k: &Kernel, act: u16, sel: u64) -> Option<KObject> {
    k.get_cap(act, CapType::Object, sel).map(|i| k.cap(i).obj)
}

fn table(k: &Kernel, act: u16) -> Vec<(u64, KObject)> {
    let mut v = Vec::new();
    for sel in 0..64 {
        if let Some(o) = obj_at(k, act, sel) {
            v.push((sel, o));
        }
    }
    v
}

#[test]
fn new_activity_has_default_caps() {
    let mut k = Kernel::new();
    let x = new_act(&mut k);
    assert_eq!(obj_at(&k, x, SEL_TILE), Some(KObject::Tile(tile(0))));
    assert_eq!(obj_at(&k, x, SEL_KMEM), Some(KObject::MGate(mem(0))));
    assert_eq!(obj_at(&k, x, SEL_ACT), Some(KObject::Activity(x)));
    assert_eq!(obj_at(&k, x, 3), None);
}

#[test]
fn reserved_selectors_cannot_be_revoked() {
    let mut k = Kernel::new();
    let x = new_act(&mut k);
    let r = k.revoke(x, SEL_ACT, CapRngDesc::new(CapType::Object, 1, 1), true);
    assert_eq!(r.unwrap_err().code, Code::InvArgs);
    assert_eq!(obj_at(&k, x, 1), Some(KObject::MGate(mem(0))));
    let r = k.revoke(x, SEL_ACT, CapRngDesc::new(CapType::Object, 2, 4), true);
    assert_eq!(r.unwrap_err().code, Code::InvArgs);
}

#[test]
fn revoke_needs_an_activity_capability() {
    let mut k = Kernel::new();
    let x = new_act(&mut k);
    k.create_cap(x, 10, KObject::MGate(mem(0x10))).unwrap();
    let r = k.revoke(x, SEL_KMEM, CapRngDesc::new(CapType::Object, 10, 1), true);
    assert_eq!(r.unwrap_err().code, Code::InvArgs);
    let r = k.revoke(x, 40, CapRngDesc::new(CapType::Object, 10, 1), true);
    assert_eq!(r.unwrap_err().code, Code::InvArgs);
}

#[test]
fn exchange_copies_a_range() {
    let mut k = Kernel::new();
    let a = new_act(&mut k);
    let b = new_act(&mut k);
    k.create_cap(a, 7, KObject::Activity(b)).unwrap();
    k.create_cap(a, 10, KObject::MGate(mem(0x10))).unwrap();
    k.create_cap(a, 11, KObject::MGate(mem(0x20))).unwrap();
    let r = k.exchange(a, 7, CapRngDesc::new(CapType::Object, 10, 2), 5, false);
    assert_eq!(r, Ok(()));
    assert_eq!(obj_at(&k, b, 5), Some(KObject::MGate(mem(0x10))));
    assert_eq!(obj_at(&k, b, 6), Some(KObject::MGate(mem(0x20))));
    assert_eq!(obj_at(&k, a, 10), Some(KObject::MGate(mem(0x10))));
    assert_eq!(obj_at(&k, a, 11), Some(KObject::MGate(mem(0x20))));
    let child = k.get_cap(b, CapType::Object, 5).unwrap();
    let parent = k.get_cap(a, CapType::Object, 10).unwrap();
    assert_eq!(k.cap(child).parent, Some(parent));
}

#[test]
fn obtain_pulls_from_the_other_side() {
    let mut k = Kernel::new();
    let a = new_act(&mut k);
    let b = new_act(&mut k);
    k.create_cap(a, 7, KObject::Activity(b)).unwrap();
    k.create_cap(b, 20, KObject::MGate(mem(0x30))).unwrap();
    let r = k.exchange(a, 7, CapRngDesc::new(CapType::Object, 12, 1), 20, true);
    assert_eq!(r, Ok(()));
    assert_eq!(obj_at(&k, a, 12), Some(KObject::MGate(mem(0x30))));
}

#[test]
fn failed_exchanges_change_nothing() {
    let mut k = Kernel::new();
    let a = new_act(&mut k);
    let b = new_act(&mut k);
    k.create_cap(a, 7, KObject::Activity(b)).unwrap();
    k.create_cap(a, 8, KObject::Activity(a)).unwrap();
    k.create_cap(a, 10, KObject::MGate(mem(0x10))).unwrap();
    k.create_cap(b, 6, KObject::MGate(mem(0x40))).unwrap();
    let before_a = table(&k, a);
    let before_b = table(&k, b);
    // destination occupied
    let r = k.exchange(a, 7, CapRngDesc::new(CapType::Object, 10, 2), 5, false);
    assert_eq!(r.unwrap_err().code, Code::InvArgs);
    // same activity
    let r = k.exchange(a, 8, CapRngDesc::new(CapType::Object, 10, 1), 30, false);
    assert_eq!(r.unwrap_err().code, Code::InvArgs);
    // not an activity
    let r = k.exchange(a, 10, CapRngDesc::new(CapType::Object, 10, 1), 30, false);
    assert_eq!(r.unwrap_err().code, Code::InvArgs);
    assert_eq!(table(&k, a), before_a);
    assert_eq!(table(&k, b), before_b);
}

#[test]
fn session_exchange_reports_service_error() {
    let mut k = Kernel::new();
    let a = new_act(&mut k);
    let s = new_act(&mut k);
    let serv = ServObject { id: 1, owner: s, sessions: 4 };
    k.create_cap(a, 20, KObject::Sess(SessObject { serv, ident: 0x42, creator: 3 })).unwrap();
    k.create_cap(s, 10, KObject::MGate(mem(0x50))).unwrap();
    let before_a = table(&k, a);
    let before_s = table(&k, s);
    let crd = CapRngDesc::new(CapType::Object, 30, 1);
    let pend = k.exchange_over_sess(a, SEL_ACT, 20, crd, true, &vec![9]).unwrap();
    let out = k.take_service_requests();
    assert_eq!(out.len(), 1);
    assert_eq!(out[0].label, 3);
    assert_eq!(out[0].event, pend.event);
    assert_eq!(out[0].msg, vec![SERV_OBTAIN, 0x42, 1, 9]);
    let r = k.exchange_over_sess_reply(&pend, &vec![7, 0, 0, 0]);
    assert_eq!(r.unwrap_err().code.raw(), 7);
    assert_eq!(table(&k, a), before_a);
    assert_eq!(table(&k, s), before_s);
}

#[test]
fn session_exchange_obtains_what_the_service_names() {
    let mut k = Kernel::new();
    let a = new_act(&mut k);
    let s = new_act(&mut k);
    let serv = ServObject { id: 1, owner: s, sessions: 4 };
    k.create_cap(a, 20, KObject::Sess(SessObject { serv, ident: 0x42, creator: 3 })).unwrap();
    k.create_cap(s, 10, KObject::MGate(mem(0x50))).unwrap();
    let crd = CapRngDesc::new(CapType::Object, 30, 1);
    let pend = k.exchange_over_sess(a, SEL_ACT, 20, crd, true, &vec![]).unwrap();
    let r = k.exchange_over_sess_reply(&pend, &vec![0, 0, 10, 1, 77, 78]);
    assert_eq!(r, Ok(vec![77, 78]));
    assert_eq!(obj_at(&k, a, 30), Some(KObject::MGate(mem(0x50))));
}

#[test]
fn session_exchange_needs_a_session() {
    let mut k = Kernel::new();
    let a = new_act(&mut k);
    let crd = CapRngDesc::new(CapType::Object, 30, 1);
    let r = k.exchange_over_sess(a, SEL_ACT, SEL_KMEM, crd, true, &vec![]);
    assert_eq!(r.err().unwrap().code, Code::InvArgs);
    assert_eq!(k.take_service_requests().len(), 0);
}

#[test]
fn revoke_removes_the_whole_subtree_children_first() {
    let mut k = Kernel::new();
    let a = new_act(&mut k);
    let b = new_act(&mut k);
    let c = new_act(&mut k);
    k.create_cap(a, 7, KObject::Activity(b)).unwrap();
    k.create_cap(b, 7, KObject::Activity(c)).unwrap();
    let ep = EpObject { is_std: false, act: Some(a), ep: 20, replies: 0, tile: 1 };
    let root = k.create_cap(a, 10, KObject::Ep(ep)).unwrap();
    k.exchange(a, 7, CapRngDesc::new(CapType::Object, 10, 1), 5, false).unwrap();
    k.exchange(b, 7, CapRngDesc::new(CapType::Object, 5, 1), 9, false).unwrap();
    let mid = k.get_cap(b, CapType::Object, 5).unwrap();
    let leaf = k.get_cap(c, CapType::Object, 9).unwrap();
    let log = k.revoke(a, SEL_ACT, CapRngDesc::new(CapType::Object, 10, 1), true).unwrap();
    assert_eq!(log, vec![leaf, mid, root]);
    assert_eq!(obj_at(&k, a, 10), None);
    assert_eq!(obj_at(&k, b, 5), None);
    assert_eq!(obj_at(&k, c, 9), None);
    assert_eq!(k.remote_invalidations(&log), vec![KObject::Ep(ep); 3]);
    // unrelated capabilities stay
    assert_eq!(obj_at(&k, a, SEL_KMEM), Some(KObject::MGate(mem(0))));
}

#[test]
fn revoke_without_own_keeps_the_root() {
    let mut k = Kernel::new();
    let a = new_act(&mut k);
    let b = new_act(&mut k);
    k.create_cap(a, 7, KObject::Activity(b)).unwrap();
    k.create_cap(a, 10, KObject::MGate(mem(0x10))).unwrap();
    k.exchange(a, 7, CapRngDesc::new(CapType::Object, 10, 1), 5, false).unwrap();
    let log = k.revoke(a, SEL_ACT, CapRngDesc::new(CapType::Object, 10, 1), false).unwrap();
    assert_eq!(log.len(), 1);
    assert_eq!(obj_at(&k, a, 10), Some(KObject::MGate(mem(0x10))));
    assert_eq!(obj_at(&k, b, 5), None);
    assert_eq!(k.remote_invalidations(&log), vec![]);
}

#[test]
fn create_cap_refuses_taken_slots() {
    let mut k = Kernel::new();
    let a = new_act(&mut k);
    assert_eq!(k.create_cap(a, 10, KObject::MGate(mem(0))).is_ok(), true);
    assert_eq!(k.create_cap(a, 10, KObject::MGate(mem(1))).unwrap_err().code, Code::Exists);
    assert_eq!(k.create_cap(9, 10, KObject::MGate(mem(1))).unwrap_err().code, Code::InvArgs);
}

#[test]
fn destroyed_activity_keeps_no_capability() {
    let mut k = Kernel::new();
    let a = new_act(&mut k);
    let b = new_act(&mut k);
    k.create_cap(a, 7, KObject::Activity(b)).unwrap();
    k.create_cap(a, 10, KObject::MGate(mem(0x10))).unwrap();
    k.exchange(a, 7, CapRngDesc::new(CapType::Object, 10, 1), 5, false).unwrap();
    k.create_cap(b, 6, KObject::MGate(mem(0x60))).unwrap();
    let log = k.destroy_activity(a);
    assert!(!log.is_empty());
    assert_eq!(table(&k, a), vec![]);
    // what b got from a goes too, what b made itself stays
    assert_eq!(obj_at(&k, b, 5), None);
    assert_eq!(obj_at(&k, b, 6), Some(KObject::MGate(mem(0x60))));
    assert_eq!(obj_at(&k, b, SEL_ACT), Some(KObject::Activity(b)));
}
