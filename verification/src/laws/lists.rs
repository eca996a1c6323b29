//! Networks, and the two lists of unwanted addresses.

use crate::address::{self, IpAddress, Network};
use crate::blocklist::{self, AbuseList};
use crate::text;
use vstd::arithmetic::div_mod::{lemma_basic_div, lemma_div_denominator};
use vstd::arithmetic::power2::{lemma2_to64, lemma_pow2_adds, lemma_pow2_pos, pow2};
use vstd::bits::{lemma_u128_shr_is_div, lemma_u32_shr_is_div};
use vstd::prelude::*;

verus! {

/// A network holds the address that it is written with.
pub proof fn law_network_holds_its_address(network: Network)
    requires
        network.wf(),
    ensures
        network.covers(network.address),
{
}

/// A network with an empty prefix holds every address of its family, and no other.
pub proof fn law_empty_prefix_holds_the_family(network: Network, ip: IpAddress)
    requires
        network.prefix == 0,
    ensures
        network.covers(ip) <==> (network.address is V4 <==> ip is V4),
{
    lemma2_to64();
    lemma_pow2_adds(64, 64);
    assert(pow2(128) == 0x1_0000_0000_0000_0000 * 0x1_0000_0000_0000_0000);
    match (network.address, ip) {
        (IpAddress::V4(a), IpAddress::V4(b)) => {
            lemma_basic_div(a as int, pow2(32) as int);
            lemma_basic_div(b as int, pow2(32) as int);
        },
        (IpAddress::V6(a), IpAddress::V6(b)) => {
            lemma_basic_div(a as int, pow2(128) as int);
            lemma_basic_div(b as int, pow2(128) as int);
        },
        _ => {},
    }
}

/// A network whose prefix is a whole address holds that address alone.
pub proof fn law_full_prefix_holds_one_address(network: Network, ip: IpAddress)
    requires
        network.prefix == if network.address is V4 {
            32u8
        } else {
            128u8
        },
    ensures
        network.covers(ip) <==> ip == network.address,
{
    lemma2_to64();
    assert(pow2(0) == 1);
    assert(forall|n: nat| #[trigger] (n / 1) == n);
}

proof fn lemma_fewer_leading_bits(a: nat, b: nat, width: nat, fewer: nat, more: nat)
    requires
        fewer <= more <= width,
        address::same_leading_bits(a, b, width, more),
    ensures
        address::same_leading_bits(a, b, width, fewer),
{
    let low = pow2((width - more) as nat);
    let mid = pow2((more - fewer) as nat);
    lemma_pow2_pos((width - more) as nat);
    lemma_pow2_pos((more - fewer) as nat);
    lemma_pow2_adds((width - more) as nat, (more - fewer) as nat);
    lemma_div_denominator(a as int, low as int, mid as int);
    lemma_div_denominator(b as int, low as int, mid as int);
    assert((width - more) + (more - fewer) == width - fewer);
}

/// Of two networks with an address in common, the one with the shorter prefix holds the other.
pub proof fn law_networks_nest(outer: Network, inner: Network, ip: IpAddress)
    requires
        outer.prefix <= inner.prefix,
        outer.covers(inner.address),
        inner.covers(ip),
    ensures
        outer.covers(ip),
{
    match (inner.address, ip) {
        (IpAddress::V4(a), IpAddress::V4(b)) => {
            lemma_fewer_leading_bits(
                a as nat,
                b as nat,
                32,
                outer.prefix as nat,
                inner.prefix as nat,
            );
        },
        (IpAddress::V6(a), IpAddress::V6(b)) => {
            lemma_fewer_leading_bits(
                a as nat,
                b as nat,
                128,
                outer.prefix as nat,
                inner.prefix as nat,
            );
        },
        _ => {},
    }
}

/// An abuse list is the set of the addresses that its lines name: a line more than once, or
/// another order, makes no difference.
pub proof fn law_abuse_list_is_a_set(lines: Seq<Seq<char>>, others: Seq<Seq<char>>)
    requires
        forall|i: int| 0 <= i < lines.len() ==> others.contains(#[trigger] lines[i]),
        forall|i: int| 0 <= i < others.len() ==> lines.contains(#[trigger] others[i]),
    ensures
        blocklist::present(blocklist::listed_addresses(lines)) == blocklist::present(
            blocklist::listed_addresses(others),
        ),
{
    lemma_present_within(lines, others);
    lemma_present_within(others, lines);
    assert(blocklist::present(blocklist::listed_addresses(lines)) =~= blocklist::present(
        blocklist::listed_addresses(others),
    ));
}

proof fn lemma_present_within(lines: Seq<Seq<char>>, others: Seq<Seq<char>>)
    requires
        forall|i: int| 0 <= i < lines.len() ==> others.contains(#[trigger] lines[i]),
    ensures
        blocklist::present(blocklist::listed_addresses(lines)).subset_of(
            blocklist::present(blocklist::listed_addresses(others)),
        ),
{
    let found = blocklist::listed_addresses(lines);
    let found_others = blocklist::listed_addresses(others);
    assert forall|ip: IpAddress|
        blocklist::present(found).contains(ip) implies blocklist::present(found_others).contains(
        ip,
    ) by {
        let i = choose|i: int| 0 <= i < found.len() && #[trigger] found[i] == Some(ip);
        assert(others.contains(lines[i]));
        let k = choose|k: int| 0 <= k < others.len() && others[k] == lines[i];
        assert(found_others[k] == Some(ip));
    }
}

/// The abuse list of the lines of two files is the union of theirs.
pub proof fn law_abuse_lists_unite(lines: Seq<Seq<char>>, more: Seq<Seq<char>>)
    ensures
        blocklist::present(blocklist::listed_addresses(lines + more)) == blocklist::present(
            blocklist::listed_addresses(lines),
        ).union(blocklist::present(blocklist::listed_addresses(more))),
{
    let first = blocklist::listed_addresses(lines);
    let second = blocklist::listed_addresses(more);
    let both = blocklist::listed_addresses(lines + more);
    assert forall|ip: IpAddress|
        blocklist::present(both).contains(ip) <==> blocklist::present(first).contains(ip)
            || blocklist::present(second).contains(ip) by {
        if blocklist::present(both).contains(ip) {
            let i = choose|i: int| 0 <= i < both.len() && #[trigger] both[i] == Some(ip);
            if i < first.len() {
                assert(first[i] == Some(ip));
            } else {
                assert(second[i - first.len()] == Some(ip));
            }
        }
        if blocklist::present(first).contains(ip) {
            let i = choose|i: int| 0 <= i < first.len() && #[trigger] first[i] == Some(ip);
            assert(both[i] == Some(ip));
        }
        if blocklist::present(second).contains(ip) {
            let i = choose|i: int| 0 <= i < second.len() && #[trigger] second[i] == Some(ip);
            assert(both[first.len() + i] == Some(ip));
        }
    }
    assert(blocklist::present(both) =~= blocklist::present(first).union(
        blocklist::present(second),
    ));
}

proof fn lemma_denoted_concat(first: Seq<Option<Network>>, second: Seq<Option<Network>>)
    ensures
        blocklist::denoted(first + second) == blocklist::denoted(first) + blocklist::denoted(
            second,
        ),
    decreases second.len(),
{
    if second.len() == 0 {
        assert(first + second == first);
        assert(blocklist::denoted(first) + blocklist::denoted(second) == blocklist::denoted(first));
    } else {
        lemma_denoted_concat(first, second.drop_last());
        assert((first + second).drop_last() == first + second.drop_last());
        assert(blocklist::denoted(first + second) == blocklist::denoted(first)
            + blocklist::denoted(second));
    }
}

/// The networks of the lines of two files are those of the first, then those of the second.
pub proof fn law_network_lists_follow(lines: Seq<Seq<char>>, more: Seq<Seq<char>>)
    ensures
        blocklist::denoted(blocklist::listed_networks(lines + more)) == blocklist::denoted(
            blocklist::listed_networks(lines),
        ) + blocklist::denoted(blocklist::listed_networks(more)),
{
    let first = blocklist::listed_networks(lines);
    let second = blocklist::listed_networks(more);
    lemma_denoted_concat(first, second);
    assert(blocklist::listed_networks(lines + more) == first + second);
}

/// Whether an address is of a network's family and has its leading bits: what is left of the two
/// numbers once the other bits are shifted out is the same.
pub open spec fn has_prefix(network: Network, ip: IpAddress) -> bool {
    match (network.address, ip) {
        (IpAddress::V4(a), IpAddress::V4(b)) => {
            network.prefix == 0 || (network.prefix <= 32 && a >> ((32 - network.prefix) as u32)
                == b >> ((32 - network.prefix) as u32))
        },
        (IpAddress::V6(a), IpAddress::V6(b)) => {
            network.prefix == 0 || (network.prefix <= 128 && a >> ((128 - network.prefix) as u128)
                == b >> ((128 - network.prefix) as u128))
        },
        _ => false,
    }
}

/// A network holds the addresses of its family with its leading bits, and no others.
pub proof fn law_network_holds_its_prefix(network: Network, ip: IpAddress)
    ensures
        network.covers(ip) <==> has_prefix(network, ip),
{
    if network.prefix == 0 {
        law_empty_prefix_holds_the_family(network, ip);
    } else {
        match (network.address, ip) {
            (IpAddress::V4(a), IpAddress::V4(b)) => {
                if network.prefix <= 32 {
                    lemma_u32_shr_is_div(a, (32 - network.prefix) as u32);
                    lemma_u32_shr_is_div(b, (32 - network.prefix) as u32);
                }
            },
            (IpAddress::V6(a), IpAddress::V6(b)) => {
                if network.prefix <= 128 {
                    lemma_u128_shr_is_div(a, (128 - network.prefix) as u128);
                    lemma_u128_shr_is_div(b, (128 - network.prefix) as u128);
                }
            },
            _ => {},
        }
    }
}

/// An address is in a list of networks if and only if one of them has its leading bits.
pub proof fn law_is_ip_in_cidr_list(ip: IpAddress, cidrs: &[Network], r: bool)
    requires
        call_ensures(blocklist::is_ip_in_cidr_list, (ip, cidrs), r),
    ensures
        r <==> exists|i: int| 0 <= i < cidrs@.len() && has_prefix(#[trigger] cidrs@[i], ip),
{
    if r {
        let i = choose|i: int| 0 <= i < cidrs@.len() && (#[trigger] cidrs@[i]).covers(ip);
        law_network_holds_its_prefix(cidrs@[i], ip);
    }
    if exists|i: int| 0 <= i < cidrs@.len() && has_prefix(#[trigger] cidrs@[i], ip) {
        let i = choose|i: int| 0 <= i < cidrs@.len() && has_prefix(#[trigger] cidrs@[i], ip);
        law_network_holds_its_prefix(cidrs@[i], ip);
    }
}

/// Whether a line starts with a text for this address, up to its first comma or its end, with or
/// without white space around the text.
pub open spec fn line_names(line: Seq<char>, ip: IpAddress) -> bool {
    exists|field: Seq<char>| #[trigger] starts_with_field(line, field) && address::ip_address(
        text::trimmed(field),
    ) == Some(ip)
}

/// Whether this is what stands in a line before its first comma, or all of it without one.
pub open spec fn starts_with_field(line: Seq<char>, field: Seq<char>) -> bool {
    &&& !field.contains(',')
    &&& line == field || exists|rest: Seq<char>| line == #[trigger] (field + seq![','] + rest)
}

proof fn lemma_first_field(line: Seq<char>, field: Seq<char>)
    ensures
        starts_with_field(line, text::split_on(line, ',')[0]),
        starts_with_field(line, field) ==> field == text::split_on(line, ',')[0],
{
    let n = text::first_position(line, ',') as int;
    text::lemma_first_position(line, ',');
    let first = text::split_on(line, ',')[0];
    assert(!first.contains(','));
    if n < line.len() {
        assert(line == first + seq![','] + line.skip(n + 1));
    }
    if starts_with_field(line, field) {
        assert forall|i: int| 0 <= i < field.len() implies line[i] != ',' by {
            assert(field.contains(field[i]));
        }
        text::lemma_first_position_is(line, ',', field.len() as int);
        assert(field == line.take(field.len() as int));
    }
}

/// The addresses that lines name in their first fields.
pub open spec fn addresses_named(lines: Seq<String>) -> Set<IpAddress> {
    Set::new(
        |ip: IpAddress|
            exists|i: int| 0 <= i < lines.len() && line_names(#[trigger] lines[i]@, ip),
    )
}

proof fn lemma_addresses_named(lines: Seq<String>)
    ensures
        blocklist::present(blocklist::listed_addresses(text::texts(lines))) == addresses_named(
            lines,
        ),
{
    let all = blocklist::listed_addresses(text::texts(lines));
    assert forall|ip: IpAddress|
        blocklist::present(all).contains(ip) <==> addresses_named(lines).contains(ip) by {
        if blocklist::present(all).contains(ip) {
            let i = choose|i: int| 0 <= i < all.len() && #[trigger] all[i] == Some(ip);
            lemma_first_field(lines[i]@, Seq::empty());
            assert(line_names(lines[i]@, ip));
        }
        if addresses_named(lines).contains(ip) {
            let i = choose|i: int| 0 <= i < lines.len() && line_names(#[trigger] lines[i]@, ip);
            let field = choose|field: Seq<char>| #[trigger]
                starts_with_field(lines[i]@, field) && address::ip_address(text::trimmed(field))
                    == Some(ip);
            lemma_first_field(lines[i]@, field);
            assert(all[i] == Some(ip));
        }
    }
    assert(blocklist::present(all) =~= addresses_named(lines));
}

/// An address is on the abuse list that was loaded from lines if and only if a line names it in
/// its first field, and the list is as long as there are such addresses.
pub proof fn law_load_abuse_ips(
    lines: &Vec<String>,
    list: AbuseList,
    ip: IpAddress,
    found: bool,
    size: usize,
)
    requires
        call_ensures(blocklist::load_abuse_ips, (lines,), list),
        call_ensures(AbuseList::contains, (&list, ip), found),
        call_ensures(AbuseList::len, (&list,), size),
    ensures
        found <==> exists|i: int| 0 <= i < lines@.len() && line_names(#[trigger] lines@[i]@, ip),
        size == addresses_named(lines@).len(),
{
    lemma_addresses_named(lines@);
    assert(found == addresses_named(lines@).contains(ip));
}

/// The list that is made of what was found holds an address if and only if it was found.
pub proof fn law_abuse_list(
    found: &Vec<Option<IpAddress>>,
    list: AbuseList,
    ip: IpAddress,
    on_it: bool,
)
    requires
        call_ensures(blocklist::abuse_list, (found,), list),
        call_ensures(AbuseList::contains, (&list, ip), on_it),
    ensures
        on_it <==> found@.contains(Some(ip)),
{
    if found@.contains(Some(ip)) {
        let i = choose|i: int| 0 <= i < found@.len() && found@[i] == Some(ip);
        assert(found@[i] == Some(ip));
    }
}

proof fn lemma_denoted_from(found: Seq<Option<Network>>, network: Network)
    ensures
        blocklist::denoted(found).contains(network) <==> found.contains(Some(network)),
    decreases found.len(),
{
    if found.len() > 0 {
        let earlier = found.drop_last();
        let all = blocklist::denoted(found);
        let before = blocklist::denoted(earlier);
        lemma_denoted_from(earlier, network);
        assert(found == earlier.push(found.last()));
        if all.contains(network) {
            let k = choose|k: int| 0 <= k < all.len() && all[k] == network;
            if k < before.len() {
                assert(before[k] == network);
                let i = choose|i: int| 0 <= i < earlier.len() && earlier[i] == Some(network);
                assert(found[i] == Some(network));
            } else {
                assert(found[found.len() - 1] == Some(network));
            }
        }
        if found.contains(Some(network)) {
            let i = choose|i: int| 0 <= i < found.len() && found[i] == Some(network);
            if i < earlier.len() {
                assert(earlier[i] == Some(network));
                let k = choose|k: int| 0 <= k < before.len() && before[k] == network;
                assert(all[k] == network);
            } else {
                assert(all[before.len() as int] == network);
            }
        }
    }
}

/// The list that was loaded from lines holds a network if and only if the text of a line that is
/// not blank, without the white space around it, is read as that network.
pub proof fn law_load_firehol_cidrs(lines: &Vec<String>, r: Vec<Network>, network: Network)
    requires
        call_ensures(blocklist::load_firehol_cidrs, (lines,), r),
    ensures
        r@.contains(network) <==> exists|i: int|
            0 <= i < lines@.len() && text::trimmed(#[trigger] lines@[i]@).len() > 0
                && address::ip_network(text::trimmed(lines@[i]@)) == Some(network),
{
    let found = blocklist::listed_networks(text::texts(lines@));
    lemma_denoted_from(found, network);
    if r@.contains(network) {
        let i = choose|i: int| 0 <= i < found.len() && found[i] == Some(network);
        assert(text::trimmed(lines@[i]@).len() > 0);
    }
    if exists|i: int|
        0 <= i < lines@.len() && text::trimmed(#[trigger] lines@[i]@).len() > 0
            && address::ip_network(text::trimmed(lines@[i]@)) == Some(network) {
        let i = choose|i: int|
            0 <= i < lines@.len() && text::trimmed(#[trigger] lines@[i]@).len() > 0
                && address::ip_network(text::trimmed(lines@[i]@)) == Some(network);
        assert(found[i] == Some(network));
    }
}

/// One line gives one network at most, and the networks of more lines follow in their order.
pub proof fn law_networks_in_order(
    lines: &Vec<String>,
    r: Vec<Network>,
    more: &Vec<String>,
    of_more: Vec<Network>,
    both: &Vec<String>,
    of_both: Vec<Network>,
)
    requires
        call_ensures(blocklist::load_firehol_cidrs, (lines,), r),
        call_ensures(blocklist::load_firehol_cidrs, (more,), of_more),
        call_ensures(blocklist::load_firehol_cidrs, (both,), of_both),
        both@ == lines@ + more@,
    ensures
        of_both@ == r@ + of_more@,
        r@.len() <= lines@.len(),
{
    law_network_lists_follow(text::texts(lines@), text::texts(more@));
    assert(text::texts(both@) == text::texts(lines@) + text::texts(more@));
    lemma_denoted_size(blocklist::listed_networks(text::texts(lines@)));
}

proof fn lemma_denoted_size(found: Seq<Option<Network>>)
    ensures
        blocklist::denoted(found).len() <= found.len(),
    decreases found.len(),
{
    if found.len() > 0 {
        lemma_denoted_size(found.drop_last());
    }
}

/// A list of networks is what was found, in order, without the gaps.
pub proof fn law_network_list(
    found: &Vec<Option<Network>>,
    r: Vec<Network>,
    next: Option<Network>,
    longer: &Vec<Option<Network>>,
    of_longer: Vec<Network>,
)
    requires
        call_ensures(blocklist::network_list, (found,), r),
        call_ensures(blocklist::network_list, (longer,), of_longer),
        longer@ == found@.push(next),
    ensures
        found@.len() == 0 ==> r@.len() == 0,
        next is None ==> of_longer@ == r@,
        next is Some ==> of_longer@ == r@.push(next->0),
{
    assert(longer@.drop_last() == found@);
}

} // verus!
