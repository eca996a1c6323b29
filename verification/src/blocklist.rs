//! The two lists of unwanted addresses: single addresses, and networks.

use std::collections::HashSet;

use crate::address::{self, IpAddress, Network};
use crate::text;
use vstd::prelude::*;

verus! {

/// A set of addresses, kept apart by family.
pub struct AbuseList {
    v4: HashSet<u32>,
    v6: HashSet<u128>,
}

impl View for AbuseList {
    type V = Set<IpAddress>;

    /// The addresses of the list.
    closed spec fn view(&self) -> Set<IpAddress> {
        Set::new(
            |ip: IpAddress|
                match ip {
                    IpAddress::V4(a) => self.v4@.contains(a),
                    IpAddress::V6(a) => self.v6@.contains(a),
                },
        )
    }
}

impl AbuseList {
    /// The addresses can be counted.
    #[verifier::type_invariant]
    spec fn countable(self) -> bool {
        &&& self.v4@.finite()
        &&& self.v6@.finite()
        &&& self.v4@.len() + self.v6@.len() <= usize::MAX
    }

    /// Whether an address is on the list.
    pub fn contains(&self, ip: IpAddress) -> (r: bool)
        ensures
            r == self@.contains(ip),
    {
        broadcast use vstd::std_specs::hash::group_hash_axioms;

        match ip {
            IpAddress::V4(a) => self.v4.contains(&a),
            IpAddress::V6(a) => self.v6.contains(&a),
        }
    }

    /// How many addresses are on the list.
    pub fn len(&self) -> (r: usize)
        ensures
            self@.finite(),
            r == self@.len(),
    {
        proof {
            use_type_invariant(self);
            lemma_size(self.v4@, self.v6@, self@);
        }
        self.v4.len() + self.v6.len()
    }
}

/// A set of addresses is as large as its two families together.
proof fn lemma_size(v4: Set<u32>, v6: Set<u128>, all: Set<IpAddress>)
    requires
        v4.finite(),
        v6.finite(),
        forall|a: u32| #[trigger] v4.contains(a) == all.contains(IpAddress::V4(a)),
        forall|a: u128| #[trigger] v6.contains(a) == all.contains(IpAddress::V6(a)),
    ensures
        all.finite(),
        all.len() == v4.len() + v6.len(),
    decreases v4.len() + v6.len(),
{
    if v4.len() > 0 {
        let a = v4.choose();
        assert forall|b: u32| #[trigger] v4.remove(a).contains(b) == all.remove(
            IpAddress::V4(a),
        ).contains(IpAddress::V4(b)) by {
            assert(v4.contains(b) == all.contains(IpAddress::V4(b)));
        }
        lemma_size(v4.remove(a), v6, all.remove(IpAddress::V4(a)));
        assert(all == all.remove(IpAddress::V4(a)).insert(IpAddress::V4(a)));
    } else if v6.len() > 0 {
        let a = v6.choose();
        assert forall|b: u128| #[trigger] v6.remove(a).contains(b) == all.remove(
            IpAddress::V6(a),
        ).contains(IpAddress::V6(b)) by {
            assert(v6.contains(b) == all.contains(IpAddress::V6(b)));
        }
        lemma_size(v4, v6.remove(a), all.remove(IpAddress::V6(a)));
        assert(all == all.remove(IpAddress::V6(a)).insert(IpAddress::V6(a)));
    } else {
        assert forall|ip: IpAddress| !all.contains(ip) by {
            match ip {
                IpAddress::V4(a) => assert(!v4.contains(a)),
                IpAddress::V6(a) => assert(!v6.contains(a)),
            }
        }
        assert(all == Set::<IpAddress>::empty());
    }
}

/// The addresses that a reading of several lines came to.
pub open spec fn present(found: Seq<Option<IpAddress>>) -> Set<IpAddress> {
    Set::new(|ip: IpAddress| exists|i: int| 0 <= i < found.len() && #[trigger] found[i] == Some(ip))
}

/// The list of the addresses that were found.
pub fn abuse_list(found: &Vec<Option<IpAddress>>) -> (r: AbuseList)
    ensures
        r@ == present(found@),
{
    broadcast use vstd::std_specs::hash::group_hash_axioms;

    let mut v4: HashSet<u32> = HashSet::new();
    let mut v6: HashSet<u128> = HashSet::new();
    let mut i: usize = 0;
    while i < found.len()
        invariant
            i <= found@.len(),
            v4@.finite(),
            v6@.finite(),
            v4@.len() + v6@.len() <= i,
            forall|a: u32| #[trigger] v4@.contains(a) <==> present(found@.take(i as int)).contains(IpAddress::V4(a)),
            forall|a: u128| #[trigger] v6@.contains(a) <==> present(found@.take(i as int)).contains(IpAddress::V6(a)),
        decreases found@.len() - i,
    {
        let ghost before = found@.take(i as int);
        let ghost after = found@.take(i + 1);
        assert(after == before.push(found@[i as int]));
        proof {
            lemma_present_push(before, found@[i as int]);
        }
        match found[i] {
            Some(IpAddress::V4(a)) => {
                v4.insert(a);
            },
            Some(IpAddress::V6(a)) => {
                v6.insert(a);
            },
            None => {},
        }
        i = i + 1;
    }
    assert(found@.take(i as int) == found@);
    let list = AbuseList { v4, v6 };
    assert(list@ =~= present(found@)) by {
        assert forall|ip: IpAddress| list@.contains(ip) <==> present(found@).contains(ip) by {
            match ip {
                IpAddress::V4(a) => assert(v4@.contains(a) <==> list@.contains(ip)),
                IpAddress::V6(a) => assert(v6@.contains(a) <==> list@.contains(ip)),
            }
        }
    }
    list
}

proof fn lemma_present_push(found: Seq<Option<IpAddress>>, next: Option<IpAddress>)
    ensures
        present(found.push(next)) == match next {
            Some(ip) => present(found).insert(ip),
            None => present(found),
        },
{
    let all = found.push(next);
    assert forall|ip: IpAddress| present(all).contains(ip) <==> present(found).contains(ip) || next
        == Some(ip) by {
        if present(found).contains(ip) {
            let i = choose|i: int| 0 <= i < found.len() && #[trigger] found[i] == Some(ip);
            assert(all[i] == Some(ip));
        }
        if next == Some(ip) {
            assert(all[found.len() as int] == Some(ip));
        }
        if present(all).contains(ip) {
            let i = choose|i: int| 0 <= i < all.len() && #[trigger] all[i] == Some(ip);
            if i < found.len() {
                assert(found[i] == Some(ip));
            }
        }
    }
}

/// The address in the first field of a line of the abuse list, whose fields are an address,
/// a country code and a score.
pub open spec fn listed_address(line: Seq<char>) -> Option<IpAddress> {
    address::ip_address(text::trimmed(text::split_on(line, ',')[0]))
}

/// What each line of an abuse list comes to.
pub open spec fn listed_addresses(lines: Seq<Seq<char>>) -> Seq<Option<IpAddress>> {
    Seq::new(lines.len(), |i: int| listed_address(lines[i]))
}

/// Reads the lines of an abuse list. A line without an address in its first field is passed
/// over.
pub fn load_abuse_ips(lines: &Vec<String>) -> (r: AbuseList)
    ensures
        r@ == present(listed_addresses(text::texts(lines@))),
{
    let mut found: Vec<Option<IpAddress>> = Vec::new();
    let mut i: usize = 0;
    while i < lines.len()
        invariant
            i <= lines@.len(),
            found@.len() == i,
            forall|k: int| 0 <= k < i ==> #[trigger] found@[k] == listed_address(lines@[k]@),
        decreases lines@.len() - i,
    {
        let fields = text::split_text(lines[i].as_str(), ',');
        assert(text::texts(fields@)[0] == fields@[0]@);
        let first = text::trim(fields[0].as_str());
        found.push(address::parse_ip(first.as_str()));
        i = i + 1;
    }
    assert(found@ == listed_addresses(text::texts(lines@)));
    abuse_list(&found)
}

/// The networks among what several lines denote, in their order.
pub open spec fn denoted(found: Seq<Option<Network>>) -> Seq<Network>
    decreases found.len(),
{
    if found.len() == 0 {
        Seq::empty()
    } else {
        match found.last() {
            Some(network) => denoted(found.drop_last()).push(network),
            None => denoted(found.drop_last()),
        }
    }
}

/// Whether each network that was found is well formed.
pub open spec fn all_wf(found: Seq<Option<Network>>) -> bool {
    forall|i: int| 0 <= i < found.len() && (#[trigger] found[i]) is Some ==> found[i]->0.wf()
}

/// The networks that were found, in their order.
pub fn network_list(found: &Vec<Option<Network>>) -> (r: Vec<Network>)
    ensures
        r@ == denoted(found@),
        all_wf(found@) ==> forall|i: int| 0 <= i < r@.len() ==> (#[trigger] r@[i]).wf(),
{
    let mut out: Vec<Network> = Vec::new();
    let mut i: usize = 0;
    while i < found.len()
        invariant
            i <= found@.len(),
            out@ == denoted(found@.take(i as int)),
            all_wf(found@) ==> forall|k: int| 0 <= k < out@.len() ==> (#[trigger] out@[k]).wf(),
        decreases found@.len() - i,
    {
        assert(found@.take(i + 1).drop_last() == found@.take(i as int));
        if let Some(network) = found[i] {
            out.push(network);
        }
        i = i + 1;
    }
    assert(found@.take(i as int) == found@);
    out
}

/// The network that a line of the CIDR list denotes. A blank line denotes none.
pub open spec fn listed_network(line: Seq<char>) -> Option<Network> {
    let entry = text::trimmed(line);
    if entry.len() == 0 {
        None
    } else {
        address::ip_network(entry)
    }
}

/// What each line of a CIDR list comes to.
pub open spec fn listed_networks(lines: Seq<Seq<char>>) -> Seq<Option<Network>> {
    Seq::new(lines.len(), |i: int| listed_network(lines[i]))
}

/// Reads the lines of a CIDR list. A line that denotes no network is passed over.
pub fn load_firehol_cidrs(lines: &Vec<String>) -> (r: Vec<Network>)
    ensures
        r@ == denoted(listed_networks(text::texts(lines@))),
        forall|i: int| 0 <= i < r@.len() ==> (#[trigger] r@[i]).wf(),
{
    let mut found: Vec<Option<Network>> = Vec::new();
    let mut i: usize = 0;
    while i < lines.len()
        invariant
            i <= lines@.len(),
            found@.len() == i,
            forall|k: int| 0 <= k < i ==> #[trigger] found@[k] == listed_network(lines@[k]@),
            all_wf(found@),
        decreases lines@.len() - i,
    {
        let entry = text::trim(lines[i].as_str());
        if entry.as_str().is_empty() {
            found.push(None);
        } else {
            found.push(address::parse_network(entry.as_str()));
        }
        i = i + 1;
    }
    assert(found@ == listed_networks(text::texts(lines@)));
    network_list(&found)
}

/// Whether one of the networks holds the address.
pub open spec fn in_some_network(ip: IpAddress, networks: Seq<Network>) -> bool {
    exists|i: int| 0 <= i < networks.len() && (#[trigger] networks[i]).covers(ip)
}

/// Whether an address lies in one of the networks of a list.
pub fn is_ip_in_cidr_list(ip: IpAddress, cidrs: &[Network]) -> (r: bool)
    ensures
        r == in_some_network(ip, cidrs@),
{
    let mut i: usize = 0;
    while i < cidrs.len()
        invariant
            i <= cidrs@.len(),
            forall|k: int| 0 <= k < i ==> !(#[trigger] cidrs@[k]).covers(ip),
        decreases cidrs@.len() - i,
    {
        if address::network_contains(&cidrs[i], ip) {
            return true;
        }
        i = i + 1;
    }
    false
}

} // verus!
