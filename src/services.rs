use vstd::prelude::*;
use vstd::string::StringSliceAdditionalSpecFns;
use vstd::utf8::encode_utf8;
use crate::error::{Code, Error};
use crate::kobj::CapSel;
use crate::sendqueue::{QueueModel, SendQueue, send_post};

verus! {

/// Id of a registered service.
pub type Id = u32;

/// Service operation that opens a session.
pub const SERV_OPEN: u64 = 0;
/// Service operation that closes a session.
pub const SERV_CLOSE: u64 = 4;
/// Service operation that asks a service to shut down.
pub const SERV_SHUTDOWN: u64 = 5;
/// Outstanding requests towards one service.
pub const SERV_QUEUE_CREDITS: u64 = 1;

/// What a shutdown request does to a service's queue.
pub open spec fn shutdown_sent(o: QueueModel, n: QueueModel) -> bool {
    send_post(o, n, 0, 0, seq![SERV_SHUTDOWN],
        if o.next_event < u64::MAX { Ok::<u64, Error>(o.next_event) } else { Err::<u64, Error>(Error { code: Code::NoSpace }) })
}

/// A byte string, one byte per word.
pub open spec fn bytes_as_words(b: Seq<u8>) -> Seq<u64> {
    Seq::new(b.len(), |i: int| b[i] as u64)
}

/// Whether the bytes of two names agree.
pub fn name_eq(a: &str, b: &str) -> (r: bool)
    ensures
        r == (a.spec_bytes() == b.spec_bytes()),
{
    let x = a.as_bytes();
    let y = b.as_bytes();
    if x.len() != y.len() {
        assert(x@.len() != y@.len());
        return false;
    }
    let mut i: usize = 0;
    while i < x.len()
        invariant
            x@ == a.spec_bytes(),
            y@ == b.spec_bytes(),
            x@.len() == y@.len(),
            i <= x@.len(),
            forall|j: int| 0 <= j < i ==> x@[j] == y@[j],
        decreases x@.len() - i,
    {
        if x[i] != y[i] {
            assert(x@[i as int] != y@[i as int]);
            return false;
        }
        i = i + 1;
    }
    assert(x@ =~= y@);
    true
}

/// A service that a child registered with the resource manager.
pub struct Service {
    id: Id,
    sel: CapSel,
    sgate_sel: CapSel,
    queue: SendQueue,
    name: String,
    sessions: u32,
    owned: bool,
}

impl Service {
    pub closed spec fn sid(&self) -> Id {
        self.id
    }

    pub closed spec fn spec_sel(&self) -> CapSel {
        self.sel
    }

    pub closed spec fn spec_sgate_sel(&self) -> CapSel {
        self.sgate_sel
    }

    pub closed spec fn spec_name(&self) -> Seq<u8> {
        encode_utf8(self.name@)
    }

    pub closed spec fn spec_sessions(&self) -> u32 {
        self.sessions
    }

    pub closed spec fn is_owned(&self) -> bool {
        self.owned
    }

    pub closed spec fn queue_model(&self) -> QueueModel {
        self.queue@
    }

    /// Creates the service `name` with capability `srv_sel`, which is reached through the
    /// send gate `sgate_sel` and may open `sessions` sessions.
    pub fn new(id: Id, srv_sel: CapSel, sgate_sel: CapSel, name: String, sessions: u32, owned: bool) -> (r: Service)
        ensures
            r.sid() == id,
            r.spec_sel() == srv_sel,
            r.spec_sgate_sel() == sgate_sel,
            r.spec_name() == encode_utf8(name@),
            r.spec_sessions() == sessions,
            r.is_owned() == owned,
            r.queue_model().wf(),
            r.queue_model().outbox.len() == 0,
    {
        Service { id, sel: srv_sel, sgate_sel, queue: SendQueue::new(id as u64, SERV_QUEUE_CREDITS), name, sessions, owned }
    }

    pub fn sel(&self) -> (r: CapSel)
        ensures
            r == self.spec_sel(),
    {
        self.sel
    }

    pub fn sgate_sel(&self) -> (r: CapSel)
        ensures
            r == self.spec_sgate_sel(),
    {
        self.sgate_sel
    }

    pub fn name(&self) -> (r: &String)
        ensures
            encode_utf8(r@) == self.spec_name(),
    {
        &self.name
    }

    /// Returns the queue on which requests go to the service.
    pub fn queue(&mut self) -> (r: &mut SendQueue)
        ensures
            r@ == old(self).queue_model(),
            final(self).queue_model() == final(r)@,
            final(self).sid() == old(self).sid(),
            final(self).spec_sel() == old(self).spec_sel(),
            final(self).spec_sgate_sel() == old(self).spec_sgate_sel(),
            final(self).spec_name() == old(self).spec_name(),
            final(self).spec_sessions() == old(self).spec_sessions(),
            final(self).is_owned() == old(self).is_owned(),
    {
        &mut self.queue
    }

    /// Asks the service to open a session with the argument `arg`; the reply goes to
    /// `Session::new`.  Returns the token of the request.
    pub fn open_session(&mut self, arg: &str) -> (r: Result<u64, Error>)
        requires
            old(self).queue_model().wf(),
        ensures
            final(self).queue_model().wf(),
            send_post(old(self).queue_model(), final(self).queue_model(), 0, 0, seq![SERV_OPEN] + bytes_as_words(arg.spec_bytes()), r),
            final(self).sid() == old(self).sid(),
            final(self).spec_name() == old(self).spec_name(),
            final(self).is_owned() == old(self).is_owned(),
    {
        let b = arg.as_bytes();
        let mut msg: Vec<u64> = vec![SERV_OPEN];
        let mut i: usize = 0;
        while i < b.len()
            invariant
                i <= b@.len(),
                b@ == arg.spec_bytes(),
                msg@ == seq![SERV_OPEN] + bytes_as_words(b@.take(i as int)),
            decreases b@.len() - i,
        {
            msg.push(b[i] as u64);
            proof {
                assert(b@.take(i + 1) == b@.take(i as int).push(b@[i as int]));
                assert(bytes_as_words(b@.take(i + 1)) =~= bytes_as_words(b@.take(i as int)).push(b@[i as int] as u64));
            }
            i = i + 1;
            assert(msg@ =~= seq![SERV_OPEN] + bytes_as_words(b@.take(i as int)));
        }
        assert(b@.take(b@.len() as int) =~= b@);
        self.queue.send(0, 0, msg)
    }

    pub fn sessions(&self) -> (r: u32)
        ensures
            r == self.spec_sessions(),
    {
        self.sessions
    }

    /// The service that deriving this one into selectors `dst` and `dst + 1` yields: the
    /// same id and name, `sessions` sessions, and not owned by the resource manager.
    pub fn derive(&self, dst: CapSel, sessions: u32) -> (r: Service)
        requires
            dst < u64::MAX,
        ensures
            r.sid() == self.sid(),
            r.spec_sel() == dst,
            r.spec_sgate_sel() == dst + 1,
            r.spec_name() == self.spec_name(),
            r.spec_sessions() == sessions,
            !r.is_owned(),
            r.queue_model().wf(),
    {
        let name = self.name.clone();
        Self::new(self.id, dst, dst + 1, name, sessions, false)
    }

    /// Asks the service to shut down.
    fn shutdown(&mut self)
        requires
            old(self).queue_model().wf(),
        ensures
            final(self).queue_model().wf(),
            shutdown_sent(old(self).queue_model(), final(self).queue_model()),
            final(self).sid() == old(self).sid(),
            final(self).spec_name() == old(self).spec_name(),
            final(self).is_owned() == old(self).is_owned(),
    {
        let msg: Vec<u64> = vec![SERV_SHUTDOWN];
        assert(msg@ =~= seq![SERV_SHUTDOWN]);
        let _ = self.queue.send(0, 0, msg);
    }
}

/// A session that a child opened at a service.
pub struct Session {
    sel: CapSel,
    ident: u64,
    serv: Id,
}

impl Session {
    pub closed spec fn spec_sel(&self) -> CapSel {
        self.sel
    }

    pub closed spec fn spec_ident(&self) -> u64 {
        self.ident
    }

    pub closed spec fn spec_serv(&self) -> Id {
        self.serv
    }

    /// The session under capability `sel` that the reply `[status, ident]` of service
    /// `serv` to an open request describes; a status other than 0 is the error the
    /// service reports.
    pub fn new(sel: CapSel, serv: Id, reply: &Vec<u64>) -> (r: Result<Session, Error>)
        ensures
            reply.len() < 2 ==> r is Err && r->Err_0.code == Code::RecvGone,
            reply.len() >= 2 && reply@[0] != 0 ==> r is Err
                && r->Err_0.code == crate::error::code_of((reply@[0] & 0xFFFF_FFFF) as u32),
            reply.len() >= 2 && reply@[0] == 0 ==> r is Ok && r->Ok_0.spec_sel() == sel
                && r->Ok_0.spec_ident() == reply@[1] && r->Ok_0.spec_serv() == serv,
    {
        if reply.len() < 2 {
            return Err(Error::new(Code::RecvGone));
        }
        let res = reply[0];
        if res != 0 {
            assert(res & 0xFFFF_FFFF <= 0xFFFF_FFFF) by (bit_vector);
            return Err(Error::new(Code::from_raw((res & 0xFFFF_FFFF) as u32)));
        }
        Ok(Session { sel, ident: reply[1], serv })
    }

    /// Asks the service of this session, which has to be registered in `mng`, to close it.
    /// Returns the token of the request.
    pub fn close(&self, mng: &mut ServiceManager) -> (r: Result<u64, Error>)
        requires
            old(mng).wf(),
        ensures
            final(mng).wf(),
            final(mng).servs().len() == old(mng).servs().len(),
            !(exists|j: int| 0 <= j < old(mng).servs().len() && old(mng).servs()[j].sid() == self.spec_serv())
                ==> r is Err && r->Err_0.code == Code::InvArgs && final(mng).servs() == old(mng).servs(),
            forall|j: int| 0 <= j < old(mng).servs().len() ==> same_service(#[trigger] final(mng).servs()[j], old(mng).servs()[j]),
            forall|j: int| 0 <= j < old(mng).servs().len() && old(mng).servs()[j].sid() == self.spec_serv() ==>
                send_post(old(mng).servs()[j].queue_model(), #[trigger] final(mng).servs()[j].queue_model(), 0, 0,
                    seq![SERV_CLOSE, self.spec_ident()], r),
    {
        let msg: Vec<u64> = vec![SERV_CLOSE, self.ident];
        assert(msg@ =~= seq![SERV_CLOSE, self.spec_ident()]);
        mng.send_to(self.serv, msg)
    }

    pub fn sel(&self) -> (r: CapSel)
        ensures
            r == self.spec_sel(),
    {
        self.sel
    }

    pub fn ident(&self) -> (r: u64)
        ensures
            r == self.spec_ident(),
    {
        self.ident
    }
}

/// The services registered with the resource manager.
pub struct ServiceManager {
    servs: Vec<Service>,
    next_id: Id,
}

impl ServiceManager {
    pub closed spec fn servs(&self) -> Seq<Service> {
        self.servs@
    }

    pub closed spec fn next(&self) -> Id {
        self.next_id
    }

    /// Ids grow along the list and stay below the next one; names are unique.
    pub closed spec fn wf(&self) -> bool {
        &&& forall|i: int, j: int| 0 <= i < j < self.servs@.len() ==> self.servs@[i].sid() < self.servs@[j].sid()
        &&& forall|i: int| 0 <= i < self.servs@.len() ==> #[trigger] self.servs@[i].sid() < self.next_id
        &&& forall|i: int| 0 <= i < self.servs@.len() ==> #[trigger] self.servs@[i].queue_model().wf()
        &&& self.next_id >= 1
    }

    /// Creates an empty registry; ids start at 1, because label 0 is special.
    pub fn new() -> (r: ServiceManager)
        ensures
            r.wf(),
            r.servs().len() == 0,
            r.next() == 1,
    {
        ServiceManager { servs: Vec::new(), next_id: 1 }
    }

    fn find_name(&self, name: &str) -> (r: Option<usize>)
        ensures
            r is Some ==> r->Some_0 < self.servs().len() && self.servs()[r->Some_0 as int].spec_name() == name.spec_bytes()
                && forall|j: int| 0 <= j < r->Some_0 ==> self.servs()[j].spec_name() != name.spec_bytes(),
            r is None ==> forall|j: int| 0 <= j < self.servs().len() ==> self.servs()[j].spec_name() != name.spec_bytes(),
    {
        let mut i: usize = 0;
        while i < self.servs.len()
            invariant
                i <= self.servs@.len(),
                forall|j: int| 0 <= j < i ==> self.servs@[j].spec_name() != name.spec_bytes(),
            decreases self.servs@.len() - i,
        {
            if name_eq(self.servs[i].name.as_str(), name) {
                return Some(i);
            }
            i = i + 1;
        }
        None
    }

    fn find_id(&self, id: Id) -> (r: Option<usize>)
        ensures
            r is Some ==> r->Some_0 < self.servs().len() && self.servs()[r->Some_0 as int].sid() == id,
            r is None ==> forall|j: int| 0 <= j < self.servs().len() ==> self.servs()[j].sid() != id,
    {
        let mut i: usize = 0;
        while i < self.servs.len()
            invariant
                i <= self.servs@.len(),
                forall|j: int| 0 <= j < i ==> self.servs@[j].sid() != id,
            decreases self.servs@.len() - i,
        {
            if self.servs[i].id == id {
                return Some(i);
            }
            i = i + 1;
        }
        None
    }

    /// Hands `msg` to the queue of the service with id `id`.
    fn send_to(&mut self, id: Id, msg: Vec<u64>) -> (r: Result<u64, Error>)
        requires
            old(self).wf(),
        ensures
            final(self).wf(),
            final(self).servs().len() == old(self).servs().len(),
            !(exists|j: int| 0 <= j < old(self).servs().len() && old(self).servs()[j].sid() == id)
                ==> r is Err && r->Err_0.code == Code::InvArgs && final(self).servs() == old(self).servs(),
            forall|j: int| 0 <= j < old(self).servs().len() ==> same_service(#[trigger] final(self).servs()[j], old(self).servs()[j]),
            forall|j: int| 0 <= j < old(self).servs().len() && old(self).servs()[j].sid() != id ==>
                #[trigger] final(self).servs()[j].queue_model() == old(self).servs()[j].queue_model(),
            forall|j: int| 0 <= j < old(self).servs().len() && old(self).servs()[j].sid() == id ==>
                send_post(old(self).servs()[j].queue_model(), #[trigger] final(self).servs()[j].queue_model(), 0, 0, msg@, r),
    {
        let idx = match self.find_id(id) {
            Some(i) => i,
            None => return Err(Error::new(Code::InvArgs)),
        };
        let ghost before = self.servs@;
        proof {
            assert forall|j: int| 0 <= j < before.len() && before[j].sid() == id implies j == idx by {
                if j < idx {
                    assert(before[j].sid() < before[idx as int].sid());
                } else if j > idx {
                    assert(before[idx as int].sid() < before[j].sid());
                }
            }
        }
        let mut serv = self.servs.remove(idx);
        assert(serv.queue_model().wf());
        let r = serv.queue.send(0, 0, msg);
        self.servs.insert(idx, serv);
        proof {
            assert(self.servs@ =~= before.update(idx as int, self.servs@[idx as int]));
            assert forall|j: int| 0 <= j < before.len() implies same_service(#[trigger] self.servs@[j], before[j]) by {
                if j != idx {
                    assert(self.servs@[j] == before[j]);
                }
            }
            assert forall|i: int, j: int| 0 <= i < j < self.servs@.len() implies self.servs@[i].sid() < self.servs@[j].sid() by {
                assert(same_service(self.servs@[i], before[i]));
                assert(same_service(self.servs@[j], before[j]));
            }
            assert forall|i: int| 0 <= i < self.servs@.len() implies #[trigger] self.servs@[i].sid() < self.next_id by {
                assert(same_service(self.servs@[i], before[i]));
            }
            assert forall|i: int| 0 <= i < self.servs@.len() implies #[trigger] self.servs@[i].queue_model().wf() by {
                assert(same_service(self.servs@[i], before[i]));
            }
            assert forall|j: int| 0 <= j < before.len() && before[j].sid() != id implies
                #[trigger] self.servs@[j].queue_model() == before[j].queue_model() by {
                assert(self.servs@[j] == before[j]);
            }
        }
        r
    }

    /// Returns the service called `name`.
    pub fn get(&self, name: &str) -> (r: Result<&Service, Error>)
        ensures
            r is Ok <==> exists|j: int| 0 <= j < self.servs().len() && self.servs()[j].spec_name() == name.spec_bytes(),
            r is Ok ==> r->Ok_0.spec_name() == name.spec_bytes(),
            r is Err ==> r->Err_0.code == Code::InvArgs,
    {
        match self.find_name(name) {
            Some(i) => Ok(&self.servs[i]),
            None => Err(Error::new(Code::InvArgs)),
        }
    }

    /// Returns the service with id `id`.
    pub fn get_by_id(&self, id: Id) -> (r: Result<&Service, Error>)
        ensures
            r is Ok <==> exists|j: int| 0 <= j < self.servs().len() && self.servs()[j].sid() == id,
            r is Ok ==> r->Ok_0.sid() == id,
            r is Err ==> r->Err_0.code == Code::InvArgs,
    {
        match self.find_id(id) {
            Some(i) => Ok(&self.servs[i]),
            None => Err(Error::new(Code::InvArgs)),
        }
    }

    /// Registers the service `name`; a name can be registered once.  Returns its id.
    pub fn add_service(&mut self, srv_sel: CapSel, sgate_sel: CapSel, name: String, sessions: u32, owned: bool) -> (r: Result<Id, Error>)
        requires
            old(self).wf(),
        ensures
            final(self).wf(),
            (exists|j: int| 0 <= j < old(self).servs().len() && old(self).servs()[j].spec_name() == encode_utf8(name@))
                ==> r == Err::<Id, Error>(Error { code: Code::Exists }) && final(self).servs() == old(self).servs(),
            !(exists|j: int| 0 <= j < old(self).servs().len() && old(self).servs()[j].spec_name() == encode_utf8(name@))
                && old(self).next() == u32::MAX ==> r == Err::<Id, Error>(Error { code: Code::NoSpace })
                && final(self).servs() == old(self).servs(),
            !(exists|j: int| 0 <= j < old(self).servs().len() && old(self).servs()[j].spec_name() == encode_utf8(name@))
                && old(self).next() < u32::MAX ==> r == Ok::<Id, Error>(old(self).next())
                && final(self).next() == old(self).next() + 1
                && final(self).servs().len() == old(self).servs().len() + 1
                && final(self).servs().drop_last() == old(self).servs()
                && final(self).servs().last().sid() == old(self).next()
                && final(self).servs().last().spec_name() == encode_utf8(name@)
                && final(self).servs().last().spec_sel() == srv_sel
                && final(self).servs().last().spec_sgate_sel() == sgate_sel
                && final(self).servs().last().spec_sessions() == sessions
                && final(self).servs().last().is_owned() == owned,
    {
        if self.find_name(name.as_str()).is_some() {
            return Err(Error::new(Code::Exists));
        }
        if self.next_id == u32::MAX {
            return Err(Error::new(Code::NoSpace));
        }
        let id = self.next_id;
        let serv = Service::new(id, srv_sel, sgate_sel, name, sessions, owned);
        self.servs.push(serv);
        self.next_id = id + 1;
        proof {
            assert(self.servs@.drop_last() =~= old(self).servs@);
            assert forall|i: int, j: int| 0 <= i < j < self.servs@.len() implies self.servs@[i].sid() < self.servs@[j].sid() by {
                if j < old(self).servs@.len() {
                    assert(self.servs@[i] == old(self).servs@[i]);
                    assert(self.servs@[j] == old(self).servs@[j]);
                } else {
                    assert(self.servs@[i] == old(self).servs@[i]);
                }
            }
            assert forall|i: int| 0 <= i < self.servs@.len() implies #[trigger] self.servs@[i].sid() < self.next_id
                && self.servs@[i].queue_model().wf() by {
                if i < old(self).servs@.len() {
                    assert(self.servs@[i] == old(self).servs@[i]);
                }
            }
        }
        Ok(id)
    }

    /// Removes the service with id `id`, which has to be registered, and returns it; with
    /// `notify`, it is asked to shut down first.
    pub fn remove_service(&mut self, id: Id, notify: bool) -> (r: Service)
        requires
            old(self).wf(),
            exists|j: int| 0 <= j < old(self).servs().len() && old(self).servs()[j].sid() == id,
        ensures
            final(self).wf(),
            r.sid() == id,
            final(self).next() == old(self).next(),
            final(self).servs().len() == old(self).servs().len() - 1,
            forall|j: int| 0 <= j < final(self).servs().len() ==> final(self).servs()[j].sid() != id,
            notify ==> shutdown_sent(
                old(self).servs()[choose|j: int| 0 <= j < old(self).servs().len() && old(self).servs()[j].sid() == id].queue_model(),
                r.queue_model()),
            !notify ==> r.queue_model() == old(self).servs()[choose|j: int| 0 <= j < old(self).servs().len()
                && old(self).servs()[j].sid() == id].queue_model(),
    {
        let idx = match self.find_id(id) {
            Some(i) => i,
            None => {
                assert(false);
                0
            },
        };
        proof {
            let c = choose|j: int| 0 <= j < old(self).servs@.len() && old(self).servs@[j].sid() == id;
            if c != idx as int {
                if c < idx {
                    assert(old(self).servs@[c].sid() < old(self).servs@[idx as int].sid());
                } else {
                    assert(old(self).servs@[idx as int].sid() < old(self).servs@[c].sid());
                }
            }
        }
        let mut serv = self.servs.remove(idx);
        if notify {
            serv.shutdown();
        }
        proof {
            let o = old(self).servs@;
            assert(self.servs@ == o.remove(idx as int));
            assert forall|i: int, j: int| 0 <= i < j < self.servs@.len() implies self.servs@[i].sid() < self.servs@[j].sid() by {
                let a = if i < idx { i } else { i + 1 };
                let b = if j < idx { j } else { j + 1 };
                assert(self.servs@[i] == o[a]);
                assert(self.servs@[j] == o[b]);
            }
            assert forall|i: int| 0 <= i < self.servs@.len() implies #[trigger] self.servs@[i].sid() < self.next_id
                && self.servs@[i].queue_model().wf() by {
                let a = if i < idx { i } else { i + 1 };
                assert(self.servs@[i] == o[a]);
            }
            assert forall|j: int| 0 <= j < self.servs@.len() implies self.servs@[j].sid() != id by {
                let a = if j < idx { j } else { j + 1 };
                assert(self.servs@[j] == o[a]);
                if a < idx {
                    assert(o[a].sid() < o[idx as int].sid());
                } else {
                    assert(o[idx as int].sid() < o[a].sid());
                }
            }
        }
        serv
    }

    /// Asks every service that the resource manager owns to shut down, the most recently
    /// registered first.
    pub fn shutdown(&mut self)
        requires
            old(self).wf(),
        ensures
            final(self).wf(),
            final(self).servs().len() == old(self).servs().len(),
            forall|j: int| 0 <= j < old(self).servs().len() ==> same_service(#[trigger] final(self).servs()[j], old(self).servs()[j]),
            forall|j: int| 0 <= j < old(self).servs().len() ==> shut_down_if_owned(old(self).servs()[j], #[trigger] final(self).servs()[j]),
    {
        let mut i: usize = self.servs.len();
        while i > 0
            invariant
                old(self).wf(),
                i <= self.servs@.len(),
                self.servs@.len() == old(self).servs@.len(),
                self.next_id == old(self).next_id,
                forall|j: int| 0 <= j < i ==> self.servs@[j] == old(self).servs@[j],
                forall|j: int| 0 <= j < self.servs@.len() ==> same_service(#[trigger] self.servs@[j], old(self).servs@[j]),
                forall|j: int| i <= j < self.servs@.len() ==> shut_down_if_owned(old(self).servs@[j], #[trigger] self.servs@[j]),
            decreases i,
        {
            i = i - 1;
            if self.servs[i].owned {
                let ghost before = self.servs@;
                let mut serv = self.servs.remove(i);
                assert(same_service(before[i as int], old(self).servs@[i as int]));
                serv.shutdown();
                self.servs.insert(i, serv);
                assert(self.servs@ =~= before.update(i as int, self.servs@[i as int]));
                assert forall|j: int| 0 <= j < self.servs@.len() implies same_service(#[trigger] self.servs@[j], old(self).servs@[j]) by {
                    if j != i {
                        assert(self.servs@[j] == before[j]);
                    }
                }
                assert forall|j: int| i <= j < self.servs@.len() implies shut_down_if_owned(old(self).servs@[j], #[trigger] self.servs@[j]) by {
                    if j != i {
                        assert(self.servs@[j] == before[j]);
                    } else {
                        assert(before[j] == old(self).servs@[j]);
                    }
                }
            } else {
                assert(self.servs@[i as int] == old(self).servs@[i as int]);
            }
        }
        proof {
            assert forall|i: int, j: int| 0 <= i < j < self.servs@.len() implies self.servs@[i].sid() < self.servs@[j].sid() by {
                assert(same_service(self.servs@[i], old(self).servs@[i]));
                assert(same_service(self.servs@[j], old(self).servs@[j]));
            }
            assert forall|i: int| 0 <= i < self.servs@.len() implies #[trigger] self.servs@[i].sid() < self.next_id by {
                assert(same_service(self.servs@[i], old(self).servs@[i]));
            }
            assert forall|i: int| 0 <= i < self.servs@.len() implies #[trigger] self.servs@[i].queue_model().wf() by {
                assert(same_service(self.servs@[i], old(self).servs@[i]));
            }
        }
    }
}

/// Whether `a` is the service `b` was, with a queue that is still well-formed.
pub open spec fn same_service(a: Service, b: Service) -> bool {
    &&& a.sid() == b.sid()
    &&& a.spec_name() == b.spec_name()
    &&& a.is_owned() == b.is_owned()
    &&& a.queue_model().wf()
}

/// Whether service `a` became `b` by a shutdown request if it is owned, and stayed as it
/// was otherwise.
pub open spec fn shut_down_if_owned(a: Service, b: Service) -> bool {
    &&& a.is_owned() ==> shutdown_sent(a.queue_model(), b.queue_model())
    &&& !a.is_owned() ==> b.queue_model() == a.queue_model()
}

} // verus!
