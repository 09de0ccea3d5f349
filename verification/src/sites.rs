//! The replica sites that the proxy knows, by upstream host.
//!
//! Each host that has a location is given a site number when the table is
//! built. The table finds the number again from the host of a request; what a
//! site's coordinates are is kept by the caller, under that number.

use vstd::prelude::*;
use vstd::slice::slice_to_vec;

verus! {

/// Whether no host occurs twice in `hosts`.
pub open spec fn distinct_hosts(hosts: Seq<Seq<u8>>) -> bool {
    forall|i: int, j: int|
        0 <= i < hosts.len() && 0 <= j < hosts.len() && i != j ==> hosts[i] != hosts[j]
}

/// The site number of `host` in `hosts`: the place at which it stands.
pub open spec fn spec_site_of(hosts: Seq<Seq<u8>>, host: Seq<u8>) -> Option<usize> {
    if exists|i: int| 0 <= i < hosts.len() && hosts[i] == host {
        Some((choose|i: int| 0 <= i < hosts.len() && hosts[i] == host) as usize)
    } else {
        None
    }
}

/// Whether two byte strings are equal.
pub fn bytes_equal(a: &[u8], b: &[u8]) -> (r: bool)
    ensures
        r == (a@ == b@),
{
    if a.len() != b.len() {
        return false;
    }
    let n: usize = a.len();
    let mut i: usize = 0;
    while i < n
        invariant
            i <= n,
            n == a.len(),
            n == b.len(),
            forall|j: int| 0 <= j < i ==> a@[j] == b@[j],
        decreases n - i,
    {
        if a[i] != b[i] {
            return false;
        }
        i += 1;
    }
    assert(a@ =~= b@);
    true
}

/// The hosts with a known location, each under its site number.
///
/// No host stands in the table twice.
pub struct SiteTable {
    hosts: Vec<Vec<u8>>,
}

impl View for SiteTable {
    type V = Seq<Seq<u8>>;

    /// The hosts in the order of their site numbers.
    closed spec fn view(&self) -> Seq<Seq<u8>> {
        self.hosts@.map_values(|host: Vec<u8>| host@)
    }
}

impl SiteTable {
    /// What holds of every table: no host has two site numbers.
    #[verifier::type_invariant]
    pub open spec fn wf(&self) -> bool {
        distinct_hosts(self@)
    }

    /// A table without hosts.
    pub fn new() -> (table: Self)
        ensures
            table@ == Seq::<Seq<u8>>::empty(),
    {
        let table = SiteTable { hosts: Vec::new() };
        assert(table@ =~= Seq::<Seq<u8>>::empty());
        table
    }

    /// The number of sites.
    pub fn len(&self) -> (n: usize)
        ensures
            n == self@.len(),
    {
        self.hosts.len()
    }

    /// The site number of `host`, or `None` where the table does not hold it.
    pub fn site_of(&self, host: &[u8]) -> (r: Option<usize>)
        ensures
            r == spec_site_of(self@, host@),
            r matches Some(site) ==> site < self@.len() && self@[site as int] == host@,
            r is None ==> !self@.contains(host@),
    {
        proof {
            use_type_invariant(self);
        }
        let n: usize = self.hosts.len();
        let mut i: usize = 0;
        while i < n
            invariant
                distinct_hosts(self@),
                i <= n,
                n == self.hosts.len(),
                forall|j: int| 0 <= j < i ==> self@[j] != host@,
            decreases n - i,
        {
            if bytes_equal(self.hosts[i].as_slice(), host) {
                proof {
                    let c = choose|c: int| 0 <= c < self@.len() && self@[c] == host@;
                    assert(self@[i as int] == host@);
                    assert(c == i);
                }
                return Some(i);
            }
            i += 1;
        }
        None
    }

    /// Gives `host` a site number, or finds the one it has, and returns the
    /// table with that number.
    ///
    /// A host that the table does not hold yet gets the next free number; one
    /// that it holds keeps its number, and the table stays as it is.
    pub fn with_host(self, host: &[u8]) -> (r: (Self, usize))
        ensures
            spec_site_of(r.0@, host@) == Some(r.1),
            match spec_site_of(self@, host@) {
                Some(known) => r.1 == known && r.0@ == self@,
                None => r.1 == self@.len() && r.0@ == self@.push(host@),
            },
    {
        match self.site_of(host) {
            Some(site) => (self, site),
            None => {
                proof {
                    use_type_invariant(&self);
                }
                let ghost before = self@;
                let mut hosts = self.hosts;
                let site: usize = hosts.len();
                hosts.push(slice_to_vec(host));
                proof {
                    let after = hosts@.map_values(|host: Vec<u8>| host@);
                    assert(after =~= before.push(host@));
                    assert forall|i: int, j: int|
                        0 <= i < after.len() && 0 <= j < after.len() && i != j implies after[i]
                        != after[j] by {
                        if i < before.len() {
                            assert(before.contains(before[i]));
                        }
                        if j < before.len() {
                            assert(before.contains(before[j]));
                        }
                    }
                }
                let table = SiteTable { hosts };
                proof {
                    assert(table@ =~= before.push(host@));
                    assert(table@[site as int] == host@);
                    let c = choose|c: int| 0 <= c < table@.len() && table@[c] == host@;
                    if c != site {
                        assert(before[c] == host@);
                        assert(before.contains(host@));
                    }
                }
                (table, site)
            },
        }
    }
}

} // verus!
