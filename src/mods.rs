use vstd::prelude::*;
use vstd::string::StringSliceAdditionalSpecFns;
use vstd::utf8::encode_utf8;
use crate::kobj::CapSel;
use crate::services::name_eq;

verus! {

/// A boot module as the boot loader describes it.
pub struct BootMod {
    pub addr: u64,
    pub size: u64,
    pub name: String,
}

/// A boot module, with the memory capability through which it is reached.
pub struct Mod {
    addr: u64,
    size: u64,
    name: String,
    mgate: CapSel,
}

impl Mod {
    pub closed spec fn spec_addr(&self) -> u64 {
        self.addr
    }

    pub closed spec fn spec_size(&self) -> u64 {
        self.size
    }

    pub closed spec fn spec_name(&self) -> Seq<u8> {
        encode_utf8(self.name@)
    }

    pub closed spec fn spec_memory(&self) -> CapSel {
        self.mgate
    }

    /// Returns the global address of the module.
    pub fn addr(&self) -> (r: u64)
        ensures
            r == self.spec_addr(),
    {
        self.addr
    }

    pub fn size(&self) -> (r: u64)
        ensures
            r == self.spec_size(),
    {
        self.size
    }

    pub fn name(&self) -> (r: &String)
        ensures
            encode_utf8(r@) == self.spec_name(),
    {
        &self.name
    }

    /// Returns the selector of the memory capability for the module.
    pub fn memory(&self) -> (r: CapSel)
        ensures
            r == self.spec_memory(),
    {
        self.mgate
    }
}

/// The boot modules.
pub struct ModManager {
    mods: Vec<Mod>,
}

/// Builds the module list from the boot loader's descriptions; module `i` is reached
/// through the memory capability `gates[i]`.
pub fn create(mods: &Vec<BootMod>, gates: &Vec<CapSel>) -> (r: ModManager)
    requires
        gates.len() == mods.len(),
    ensures
        r.mods().len() == mods.len(),
        forall|i: int| 0 <= i < mods.len() ==> #[trigger] r.mods()[i].spec_addr() == mods@[i].addr
            && r.mods()[i].spec_size() == mods@[i].size
            && r.mods()[i].spec_name() == encode_utf8(mods@[i].name@)
            && r.mods()[i].spec_memory() == gates@[i],
{
    let mut mm: Vec<Mod> = Vec::new();
    let mut i: usize = 0;
    while i < mods.len()
        invariant
            gates.len() == mods.len(),
            i <= mods.len(),
            mm.len() == i,
            forall|j: int| 0 <= j < i ==> #[trigger] mm@[j].spec_addr() == mods@[j].addr
                && mm@[j].spec_size() == mods@[j].size
                && mm@[j].spec_name() == encode_utf8(mods@[j].name@)
                && mm@[j].spec_memory() == gates@[j],
        decreases mods.len() - i,
    {
        let m = &mods[i];
        mm.push(Mod { addr: m.addr, size: m.size, name: m.name.clone(), mgate: gates[i] });
        i = i + 1;
    }
    ModManager { mods: mm }
}

impl ModManager {
    pub closed spec fn mods(&self) -> Seq<Mod> {
        self.mods@
    }

    /// Creates an empty module list.
    pub fn new() -> (r: ModManager)
        ensures
            r.mods().len() == 0,
    {
        ModManager { mods: Vec::new() }
    }

    /// Returns the first module called `name`.
    pub fn find(&self, name: &str) -> (r: Option<&Mod>)
        ensures
            r is Some <==> exists|j: int| 0 <= j < self.mods().len() && self.mods()[j].spec_name() == name.spec_bytes(),
            r is Some ==> r->Some_0.spec_name() == name.spec_bytes(),
    {
        let mut i: usize = 0;
        while i < self.mods.len()
            invariant
                i <= self.mods@.len(),
                forall|j: int| 0 <= j < i ==> self.mods@[j].spec_name() != name.spec_bytes(),
            decreases self.mods@.len() - i,
        {
            if name_eq(self.mods[i].name.as_str(), name) {
                assert(self.mods()[i as int].spec_name() == name.spec_bytes());
                return Some(&self.mods[i]);
            }
            i = i + 1;
        }
        None
    }
}

} // verus!
