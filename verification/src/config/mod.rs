//! The configuration: the bot's token, the named destinations, the named
//! vaults, and the destination for error reports.
use self::destination::Destination;
use self::vault::Vault;
use vstd::prelude::*;

pub mod destination;
pub mod vault;

verus! {

/// The configuration. Destinations and vaults are kept by name.
#[derive(Clone, Debug)]
pub struct Config {
    pub bot_token: String,
    /// The name of the destination for error reports.
    pub rust_error_ch: String,
    pub destinations: Vec<(String, Destination)>,
    pub vaults: Vec<(String, Vault)>,
}

/// No two entries share a name.
pub open spec fn names_distinct<V>(e: Seq<(String, V)>) -> bool {
    forall|i: int, j: int| 0 <= i < j < e.len() ==> e[i].0@ != e[j].0@
}

/// Some entry has the name `name`.
pub open spec fn has_name<V>(e: Seq<(String, V)>, name: Seq<char>) -> bool {
    exists|i: int| 0 <= i < e.len() && e[i].0@ == name
}

/// `r` is the value of the entry named `name`.
pub open spec fn is_named<V>(e: Seq<(String, V)>, name: Seq<char>, r: V) -> bool {
    forall|i: int| 0 <= i < e.len() && e[i].0@ == name ==> r == e[i].1
}

/// The index of the first entry named `name`.
pub fn find_name<V>(e: &Vec<(String, V)>, name: &str) -> (r: Option<usize>)
    ensures
        r matches Some(i) ==> i < e@.len() && e@[i as int].0@ == name@ && forall|j: int|
            0 <= j < i ==> e@[j].0@ != name@,
        r is None ==> !has_name(e@, name@),
{
    let p = String::from_str(name);
    let mut i: usize = 0;
    while i < e.len()
        invariant
            0 <= i <= e@.len(),
            p@ == name@,
            forall|j: int| 0 <= j < i ==> e@[j].0@ != name@,
        decreases e.len() - i,
    {
        if e[i].0 == p {
            return Some(i);
        }
        i += 1;
    }
    None
}

fn distinct_names<V>(e: &Vec<(String, V)>) -> (r: bool)
    ensures
        r == names_distinct(e@),
{
    let mut j: usize = 0;
    while j < e.len()
        invariant
            0 <= j <= e@.len(),
            forall|a: int, b: int| 0 <= a < b < j ==> e@[a].0@ != e@[b].0@,
        decreases e.len() - j,
    {
        let mut i: usize = 0;
        while i < j
            invariant
                0 <= i <= j < e@.len(),
                forall|a: int| 0 <= a < i ==> e@[a].0@ != e@[j as int].0@,
            decreases j - i,
        {
            if e[i].0 == e[j].0 {
                return false;
            }
            i += 1;
        }
        j += 1;
    }
    true
}

impl Config {
    /// Names are distinct, as they are as keys of the configuration file's
    /// tables.
    pub open spec fn wf(&self) -> bool {
        names_distinct(self.destinations@) && names_distinct(self.vaults@)
    }

    /// Whether `wf` holds.
    pub fn well_formed(&self) -> (r: bool)
        ensures
            r == self.wf(),
    {
        distinct_names(&self.destinations) && distinct_names(&self.vaults)
    }
}

/// The running bot's context: its Discord handle and the configuration.
pub struct Context<D> {
    pub dis_ctx: D,
    pub config: Config,
}

impl<D> Context<D> {
    /// The destination for error reports.
    pub fn get_error_ch(&self) -> (r: &Destination)
        requires
            self.config.wf(),
            has_name(self.config.destinations@, self.config.rust_error_ch@),
        ensures
            is_named(self.config.destinations@, self.config.rust_error_ch@, *r),
    {
        self.get_dest(self.config.rust_error_ch.as_str())
    }

    /// The destination named `dest_name`.
    pub fn get_dest(&self, dest_name: &str) -> (r: &Destination)
        requires
            self.config.wf(),
            has_name(self.config.destinations@, dest_name@),
        ensures
            is_named(self.config.destinations@, dest_name@, *r),
    {
        match find_name(&self.config.destinations, dest_name) {
            Some(i) => &self.config.destinations[i].1,
            None => &self.config.destinations[0].1,
        }
    }

    /// The vault named `vault_name`.
    pub fn get_vault(&self, vault_name: &str) -> (r: &Vault)
        requires
            self.config.wf(),
            has_name(self.config.vaults@, vault_name@),
        ensures
            is_named(self.config.vaults@, vault_name@, *r),
    {
        match find_name(&self.config.vaults, vault_name) {
            Some(i) => &self.config.vaults[i].1,
            None => &self.config.vaults[0].1,
        }
    }

    /// The destination of the vault named `vault_name`.
    pub fn get_vault_dest(&self, vault_name: &str) -> (r: &Destination)
        requires
            self.config.wf(),
            has_name(self.config.vaults@, vault_name@),
            forall|i: int|
                0 <= i < self.config.vaults@.len() && self.config.vaults@[i].0@ == vault_name@
                    ==> has_name(self.config.destinations@, #[trigger] self.config.vaults@[i].1.destination@),
        ensures
            exists|v: Vault|
                is_named(self.config.vaults@, vault_name@, v) && is_named(
                    self.config.destinations@,
                    v.destination@,
                    *r,
                ),
    {
        let v = self.get_vault(vault_name);
        proof {
            let i = choose|i: int| 0 <= i < self.config.vaults@.len() && self.config.vaults@[i].0@ == vault_name@;
            assert(*v == self.config.vaults@[i].1);
        }
        self.get_dest(v.destination.as_str())
    }

    /// The debugging destination of the vault named `vault_name`.
    pub fn get_vault_dbg_dest(&self, vault_name: &str) -> (r: &Destination)
        requires
            self.config.wf(),
            has_name(self.config.vaults@, vault_name@),
            forall|i: int|
                0 <= i < self.config.vaults@.len() && self.config.vaults@[i].0@ == vault_name@
                    ==> has_name(self.config.destinations@, #[trigger] self.config.vaults@[i].1.debug_destination@),
        ensures
            exists|v: Vault|
                is_named(self.config.vaults@, vault_name@, v) && is_named(
                    self.config.destinations@,
                    v.debug_destination@,
                    *r,
                ),
    {
        let v = self.get_vault(vault_name);
        proof {
            let i = choose|i: int| 0 <= i < self.config.vaults@.len() && self.config.vaults@[i].0@ == vault_name@;
            assert(*v == self.config.vaults@[i].1);
        }
        self.get_dest(v.debug_destination.as_str())
    }

    /// The names of all vaults.
    pub fn get_all_vault_names(&self) -> (r: Vec<String>)
        ensures
            r@.len() == self.config.vaults@.len(),
            forall|i: int| 0 <= i < r@.len() ==> #[trigger] r@[i]@ == self.config.vaults@[i].0@,
    {
        let mut out: Vec<String> = Vec::new();
        let mut i: usize = 0;
        while i < self.config.vaults.len()
            invariant
                0 <= i <= self.config.vaults@.len(),
                out@.len() == i,
                forall|k: int| 0 <= k < i ==> #[trigger] out@[k]@ == self.config.vaults@[k].0@,
            decreases self.config.vaults.len() - i,
        {
            out.push(self.config.vaults[i].0.clone());
            i += 1;
        }
        out
    }
}

} // verus!
