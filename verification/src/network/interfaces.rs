//! Choosing the source address of an interface's discovery datagrams.
//!
//! IPv4 addresses are their 32-bit numbers (most significant octet first),
//! IPv6 addresses their 128-bit numbers, so that numeric order is address
//! order.
use crate::config::strings_view;
use crate::network::udp::IpAddress;
use crate::text::{lemma_text_lt_total, lemma_text_lt_transitive, spec_text_lt, str_eq, text_lt};
use vstd::prelude::*;

verus! {

/// Whether an IPv4 address is link-local (APIPA, `169.254.0.0/16`).
pub open spec fn spec_is_link_local_v4(addr: u32) -> bool {
    addr / 65536 == 0xA9FE
}

/// Whether an IPv4 address is link-local (APIPA, `169.254.0.0/16`).
pub fn is_link_local_v4(addr: u32) -> (r: bool)
    ensures
        r == spec_is_link_local_v4(addr),
{
    addr / 65536 == 0xA9FE
}

/// Whether `a` is the smallest address of `addrs` that satisfies `keep`.
pub open spec fn is_least<T>(a: int, addrs: Seq<T>, keep: spec_fn(T) -> bool, key: spec_fn(T) -> int) -> bool {
    exists|i: int| 0 <= i < addrs.len() && keep(addrs[i]) && key(addrs[i]) == a && forall|j: int|
        0 <= j < addrs.len() && keep(addrs[j]) ==> a <= key(addrs[j])
}

/// The IPv4 source address of an interface: its smallest routable address;
/// when it has only link-local ones, the smallest of those; none when it
/// has no IPv4 address. The result does not depend on the order the
/// addresses were listed in.
pub fn select_ipv4(addrs: &[u32]) -> (r: Option<u32>)
    ensures
        r is None <==> addrs@.len() == 0,
        (exists|i: int| 0 <= i < addrs@.len() && !spec_is_link_local_v4(addrs@[i])) ==> (r matches Some(a)
            && is_least(a as int, addrs@, |x: u32| !spec_is_link_local_v4(x), |x: u32| x as int)),
        (forall|i: int| 0 <= i < addrs@.len() ==> spec_is_link_local_v4(addrs@[i])) && addrs@.len() > 0 ==> (
        r matches Some(a) && is_least(a as int, addrs@, |x: u32| true, |x: u32| x as int)),
{
    let mut best_routable: Option<u32> = None;
    let mut best_any: Option<u32> = None;
    let mut i: usize = 0;
    while i < addrs.len()
        invariant
            i <= addrs@.len(),
            best_any is None <==> i == 0,
            best_any matches Some(a) ==> is_least(a as int, addrs@.take(i as int), |x: u32| true, |x: u32| x as int),
            best_routable is None <==> forall|j: int| 0 <= j < i ==> spec_is_link_local_v4(addrs@[j]),
            best_routable matches Some(a) ==> is_least(
                a as int,
                addrs@.take(i as int),
                |x: u32| !spec_is_link_local_v4(x),
                |x: u32| x as int,
            ),
        decreases addrs@.len() - i,
    {
        let a = addrs[i];
        let ghost t = addrs@.take(i + 1);
        assert(t.drop_last() =~= addrs@.take(i as int));
        assert(t[i as int] == a);
        let ghost old_any = best_any;
        let ghost old_routable = best_routable;
        best_any = match best_any {
            Some(b) => if a < b {
                Some(a)
            } else {
                Some(b)
            },
            None => Some(a),
        };
        proof {
            let b = best_any->0;
            let w = if old_any is Some && !(a < old_any->0) {
                choose|k: int| 0 <= k < i && true && addrs@.take(i as int)[k] as int == old_any->0 as int && forall|j: int|
                    0 <= j < i && true ==> old_any->0 as int <= addrs@.take(i as int)[j] as int
            } else {
                i as int
            };
            assert(0 <= w < i + 1 && t[w] == b);
            assert forall|j: int| 0 <= j < i + 1 implies b as int <= t[j] as int by {
                if j < i {
                    assert(t[j] == addrs@.take(i as int)[j]);
                }
            }
            assert(is_least(b as int, t, |x: u32| true, |x: u32| x as int));
        }
        if !is_link_local_v4(a) {
            best_routable = match best_routable {
                Some(b) => if a < b {
                    Some(a)
                } else {
                    Some(b)
                },
                None => Some(a),
            };
        }
        proof {
            if best_routable is Some {
                let b = best_routable->0;
                let keep = |x: u32| !spec_is_link_local_v4(x);
                let w = if old_routable is Some && (spec_is_link_local_v4(a) || !(a < old_routable->0)) {
                    choose|k: int| 0 <= k < i && keep(addrs@.take(i as int)[k]) && addrs@.take(i as int)[k] as int
                        == old_routable->0 as int && forall|j: int|
                        0 <= j < i && keep(addrs@.take(i as int)[j]) ==> old_routable->0 as int
                            <= addrs@.take(i as int)[j] as int
                } else {
                    i as int
                };
                assert(0 <= w < i + 1 && keep(t[w]) && t[w] == b);
                assert forall|j: int| 0 <= j < i + 1 && keep(t[j]) implies b as int <= t[j] as int by {
                    if j < i {
                        assert(t[j] == addrs@.take(i as int)[j]);
                    }
                }
                assert(is_least(b as int, t, keep, |x: u32| x as int));
            }
            if best_routable is None {
                assert forall|j: int| 0 <= j < i + 1 implies spec_is_link_local_v4(addrs@[j]) by {
                    if j == i {
                        assert(addrs@[j] == a);
                    }
                }
            } else if old_routable is None {
                assert(!spec_is_link_local_v4(addrs@[i as int]));
            } else {
                let k = choose|k: int| 0 <= k < i && !spec_is_link_local_v4(addrs@.take(i as int)[k]) && addrs@.take(i as int)[k] as int == old_routable->0 as int && forall|j: int|
                    0 <= j < i && !spec_is_link_local_v4(addrs@.take(i as int)[j]) ==> old_routable->0 as int <= addrs@.take(i as int)[j] as int;
                assert(!spec_is_link_local_v4(addrs@[k]));
            }
        }
        i = i + 1;
    }
    assert(addrs@.take(addrs@.len() as int) =~= addrs@);
    match best_routable {
        Some(r) => Some(r),
        None => best_any,
    }
}

/// The IPv6 source address of an interface: its smallest address; none
/// when it has no IPv6 address.
pub fn select_ipv6(addrs: &[u128]) -> (r: Option<u128>)
    ensures
        r is None <==> addrs@.len() == 0,
        r matches Some(a) ==> is_least(a as int, addrs@, |x: u128| true, |x: u128| x as int),
{
    if addrs.len() == 0 {
        return None;
    }
    let mut best: u128 = addrs[0];
    let mut w: usize = 0;
    let mut i: usize = 1;
    while i < addrs.len()
        invariant
            1 <= i <= addrs@.len(),
            w < i,
            addrs@[w as int] == best,
            forall|j: int| 0 <= j < i ==> best <= addrs@[j],
        decreases addrs@.len() - i,
    {
        if addrs[i] < best {
            best = addrs[i];
            w = i;
        }
        i = i + 1;
    }
    assert(is_least(best as int, addrs@, |x: u128| true, |x: u128| x as int)) by {
        assert(0 <= w < addrs@.len() && addrs@[w as int] as int == best as int);
    }
    Some(best)
}

/// One address of one interface, as the system lists them.
#[derive(Debug, Clone)]
pub struct InterfaceAddress {
    pub name: String,
    pub loopback: bool,
    pub addr: IpAddress,
}

/// An interface multicast may go out on, with the source addresses chosen
/// for it.
#[derive(Debug, Clone, PartialEq, Eq)]
pub struct InterfaceChoice {
    pub name: String,
    pub ipv4: Option<u32>,
    pub ipv6: Option<u128>,
}

/// Whether a listed address belongs to the non-loopback interface `name`.
pub open spec fn names_interface(e: InterfaceAddress, name: Seq<char>) -> bool {
    !e.loopback && e.name@ == name
}

/// Whether the list names the non-loopback interface `name`.
pub open spec fn lists_name(list: Seq<InterfaceAddress>, name: Seq<char>) -> bool {
    exists|j: int| 0 <= j < list.len() && #[trigger] names_interface(list[j], name)
}

/// Whether a listed address is the address `a` of the non-loopback
/// interface `name`.
pub open spec fn is_address_of(e: InterfaceAddress, name: Seq<char>, a: IpAddress) -> bool {
    names_interface(e, name) && e.addr == a
}

/// Whether the list gives the non-loopback interface `name` the address `a`.
pub open spec fn lists_address(list: Seq<InterfaceAddress>, name: Seq<char>, a: IpAddress) -> bool {
    exists|j: int| 0 <= j < list.len() && #[trigger] is_address_of(list[j], name, a)
}

/// Whether `c` is the IPv4 source address [`select_ipv4`] chooses among the
/// IPv4 addresses the list gives the interface `name`.
pub open spec fn v4_choice_ok(list: Seq<InterfaceAddress>, name: Seq<char>, c: Option<u32>) -> bool {
    &&& (c is None <==> forall|a: u32| !#[trigger] lists_address(list, name, IpAddress::V4(a)))
    &&& (c matches Some(a) ==> lists_address(list, name, IpAddress::V4(a)))
    &&& ((exists|b: u32| #[trigger] lists_address(list, name, IpAddress::V4(b)) && !spec_is_link_local_v4(b))
        ==> (c matches Some(a) && !spec_is_link_local_v4(a) && forall|b: u32|
        #[trigger] lists_address(list, name, IpAddress::V4(b)) && !spec_is_link_local_v4(b) ==> a <= b))
    &&& ((forall|b: u32| #[trigger] lists_address(list, name, IpAddress::V4(b)) ==> spec_is_link_local_v4(b))
        ==> (c matches Some(a) ==> forall|b: u32| #[trigger] lists_address(list, name, IpAddress::V4(b)) ==> a <= b))
}

/// Whether `c` is the smallest IPv6 address the list gives the interface
/// `name` (none when it gives none).
pub open spec fn v6_choice_ok(list: Seq<InterfaceAddress>, name: Seq<char>, c: Option<u128>) -> bool {
    &&& (c is None <==> forall|a: u128| !#[trigger] lists_address(list, name, IpAddress::V6(a)))
    &&& (c matches Some(a) ==> lists_address(list, name, IpAddress::V6(a)) && forall|b: u128|
        #[trigger] lists_address(list, name, IpAddress::V6(b)) ==> a <= b)
}

/// Whether texts are in strictly increasing order.
pub open spec fn strictly_sorted(s: Seq<Seq<char>>) -> bool {
    forall|i: int, j: int| 0 <= i < j < s.len() ==> spec_text_lt(#[trigger] s[i], #[trigger] s[j])
}

/// The names of a list of choices.
pub open spec fn choice_names(c: Seq<InterfaceChoice>) -> Seq<Seq<char>> {
    c.map_values(|x: InterfaceChoice| x.name@)
}

/// Adds `name` to a strictly sorted list of names, unless it is there.
fn insert_name(names: &mut Vec<String>, name: &str)
    requires
        strictly_sorted(strings_view(old(names)@)),
    ensures
        strictly_sorted(strings_view(final(names)@)),
        forall|k: Seq<char>|
            #[trigger] strings_view(final(names)@).contains(k) <==> (strings_view(old(names)@).contains(k)
                || k == name@),
{
    let ghost before = strings_view(names@);
    let mut p: usize = 0;
    while p < names.len() && text_lt(names[p].as_str(), name)
        invariant
            p <= names@.len(),
            names@ == old(names)@,
            before == strings_view(names@),
            forall|i: int| 0 <= i < p ==> spec_text_lt(#[trigger] before[i], name@),
        decreases names@.len() - p,
    {
        p = p + 1;
    }
    if p < names.len() && str_eq(names[p].as_str(), name) {
        assert(before[p as int] == name@);
        return;
    }
    proof {
        if p < before.len() {
            lemma_text_lt_total(before[p as int], name@);
            assert(spec_text_lt(name@, before[p as int]));
            assert forall|j: int| p <= j < before.len() implies spec_text_lt(name@, #[trigger] before[j]) by {
                if j > p {
                    lemma_text_lt_transitive(name@, before[p as int], before[j]);
                }
            }
        }
    }
    names.insert(p, name.to_owned());
    proof {
        let after = strings_view(names@);
        assert(after =~= before.insert(p as int, name@));
        assert forall|i: int, j: int| 0 <= i < j < after.len() implies spec_text_lt(
            #[trigger] after[i],
            #[trigger] after[j],
        ) by {
            if j < p {
                assert(after[i] == before[i] && after[j] == before[j]);
            } else if j == p {
                assert(after[i] == before[i]);
            } else if i < p {
                assert(after[i] == before[i] && after[j] == before[j - 1]);
                assert(spec_text_lt(name@, before[j - 1]));
                lemma_text_lt_transitive(before[i], name@, before[j - 1]);
            } else if i == p {
                assert(after[j] == before[j - 1]);
            } else {
                assert(after[i] == before[i - 1] && after[j] == before[j - 1]);
            }
        }
        assert forall|k: Seq<char>| #[trigger] after.contains(k) <==> (before.contains(k) || k == name@) by {
            if after.contains(k) {
                let i = choose|i: int| 0 <= i < after.len() && after[i] == k;
                if i < p {
                    assert(before[i] == k);
                } else if i > p {
                    assert(before[i - 1] == k);
                }
            }
            if before.contains(k) {
                let i = choose|i: int| 0 <= i < before.len() && before[i] == k;
                if i < p {
                    assert(after[i] == k);
                } else {
                    assert(after[i + 1] == k);
                }
            }
            if k == name@ {
                assert(after[p as int] == k);
            }
        }
    }
}

/// The IPv4 and IPv6 addresses the list gives the non-loopback interface
/// `name`.
fn addresses_of(list: &[InterfaceAddress], name: &str) -> (r: (Vec<u32>, Vec<u128>))
    ensures
        forall|a: u32| #[trigger] r.0@.contains(a) <==> lists_address(list@, name@, IpAddress::V4(a)),
        forall|a: u128| #[trigger] r.1@.contains(a) <==> lists_address(list@, name@, IpAddress::V6(a)),
{
    let mut v4s: Vec<u32> = Vec::new();
    let mut v6s: Vec<u128> = Vec::new();
    let mut j: usize = 0;
    while j < list.len()
        invariant
            j <= list@.len(),
            forall|a: u32| #[trigger] v4s@.contains(a) <==> exists|k: int|
                0 <= k < j && #[trigger] is_address_of(list@[k], name@, IpAddress::V4(a)),
            forall|a: u128| #[trigger] v6s@.contains(a) <==> exists|k: int|
                0 <= k < j && #[trigger] is_address_of(list@[k], name@, IpAddress::V6(a)),
        decreases list@.len() - j,
    {
        let e = &list[j];
        let ghost old4 = v4s@;
        let ghost old6 = v6s@;
        if !e.loopback && str_eq(e.name.as_str(), name) {
            match e.addr {
                IpAddress::V4(a) => v4s.push(a),
                IpAddress::V6(a) => v6s.push(a),
            }
        }
        proof {
            assert forall|a: u32| #[trigger] v4s@.contains(a) <==> exists|k: int|
                0 <= k < j + 1 && #[trigger] is_address_of(list@[k], name@, IpAddress::V4(a)) by {
                if is_address_of(list@[j as int], name@, IpAddress::V4(a)) {
                    assert(v4s@ == old4.push(a));
                    assert(v4s@[old4.len() as int] == a);
                }
                if v4s@.contains(a) && !old4.contains(a) {
                    assert(is_address_of(list@[j as int], name@, IpAddress::V4(a)));
                }
                if old4.contains(a) {
                    let i = choose|i: int| 0 <= i < old4.len() && old4[i] == a;
                    assert(v4s@[i] == a);
                }
            }
            assert forall|a: u128| #[trigger] v6s@.contains(a) <==> exists|k: int|
                0 <= k < j + 1 && #[trigger] is_address_of(list@[k], name@, IpAddress::V6(a)) by {
                if is_address_of(list@[j as int], name@, IpAddress::V6(a)) {
                    assert(v6s@ == old6.push(a));
                    assert(v6s@[old6.len() as int] == a);
                }
                if v6s@.contains(a) && !old6.contains(a) {
                    assert(is_address_of(list@[j as int], name@, IpAddress::V6(a)));
                }
                if old6.contains(a) {
                    let i = choose|i: int| 0 <= i < old6.len() && old6[i] == a;
                    assert(v6s@[i] == a);
                }
            }
        }
        j = j + 1;
    }
    (v4s, v6s)
}

proof fn lemma_v4_choice(list: Seq<InterfaceAddress>, name: Seq<char>, v4s: Seq<u32>, c: Option<u32>)
    requires
        forall|a: u32| #[trigger] v4s.contains(a) <==> lists_address(list, name, IpAddress::V4(a)),
        c is None <==> v4s.len() == 0,
        (exists|i: int| 0 <= i < v4s.len() && !spec_is_link_local_v4(v4s[i])) ==> (c matches Some(a)
            && is_least(a as int, v4s, |x: u32| !spec_is_link_local_v4(x), |x: u32| x as int)),
        (forall|i: int| 0 <= i < v4s.len() ==> spec_is_link_local_v4(v4s[i])) && v4s.len() > 0 ==> (
        c matches Some(a) && is_least(a as int, v4s, |x: u32| true, |x: u32| x as int)),
    ensures
        v4_choice_ok(list, name, c),
{
    assert(c is None <==> forall|a: u32| !#[trigger] lists_address(list, name, IpAddress::V4(a))) by {
        if v4s.len() > 0 {
            assert(v4s.contains(v4s[0]));
        }
        if exists|a: u32| #[trigger] lists_address(list, name, IpAddress::V4(a)) {
            let a = choose|a: u32| #[trigger] lists_address(list, name, IpAddress::V4(a));
            assert(v4s.contains(a));
        }
    }
    if exists|b: u32| #[trigger] lists_address(list, name, IpAddress::V4(b)) && !spec_is_link_local_v4(b) {
        let b = choose|b: u32| #[trigger] lists_address(list, name, IpAddress::V4(b)) && !spec_is_link_local_v4(b);
        assert(v4s.contains(b));
        let i = choose|i: int| 0 <= i < v4s.len() && v4s[i] == b;
        assert(!spec_is_link_local_v4(v4s[i]));
    }
    if c is Some {
        let a = c->0;
        if exists|i: int| 0 <= i < v4s.len() && !spec_is_link_local_v4(v4s[i]) {
            let keep = |x: u32| !spec_is_link_local_v4(x);
            let i = choose|i: int| 0 <= i < v4s.len() && keep(v4s[i]) && v4s[i] as int == a as int && forall|j: int|
                0 <= j < v4s.len() && keep(v4s[j]) ==> a as int <= v4s[j] as int;
            assert(v4s.contains(v4s[i]));
            assert forall|b: u32| #[trigger] lists_address(list, name, IpAddress::V4(b)) && !spec_is_link_local_v4(b)
                implies a <= b by {
                assert(v4s.contains(b));
                let k = choose|k: int| 0 <= k < v4s.len() && v4s[k] == b;
                assert(keep(v4s[k]));
            }
        } else {
            let i = choose|i: int| 0 <= i < v4s.len() && v4s[i] as int == a as int && forall|j: int|
                0 <= j < v4s.len() ==> a as int <= v4s[j] as int;
            assert(v4s.contains(v4s[i]));
            assert forall|b: u32| #[trigger] lists_address(list, name, IpAddress::V4(b)) implies a <= b by {
                assert(v4s.contains(b));
                let k = choose|k: int| 0 <= k < v4s.len() && v4s[k] == b;
            }
        }
    }
}

proof fn lemma_v6_choice(list: Seq<InterfaceAddress>, name: Seq<char>, v6s: Seq<u128>, c: Option<u128>)
    requires
        forall|a: u128| #[trigger] v6s.contains(a) <==> lists_address(list, name, IpAddress::V6(a)),
        c is None <==> v6s.len() == 0,
        c matches Some(a) ==> is_least(a as int, v6s, |x: u128| true, |x: u128| x as int),
    ensures
        v6_choice_ok(list, name, c),
{
    if v6s.len() > 0 {
        assert(v6s.contains(v6s[0]));
    }
    if exists|a: u128| #[trigger] lists_address(list, name, IpAddress::V6(a)) {
        let a = choose|a: u128| #[trigger] lists_address(list, name, IpAddress::V6(a));
        assert(v6s.contains(a));
    }
    if c is Some {
        let a = c->0;
        let i = choose|i: int| 0 <= i < v6s.len() && v6s[i] as int == a as int && forall|j: int|
            0 <= j < v6s.len() ==> a as int <= v6s[j] as int;
        assert(v6s.contains(v6s[i]));
        assert forall|b: u128| #[trigger] lists_address(list, name, IpAddress::V6(b)) implies a <= b by {
            assert(v6s.contains(b));
            let k = choose|k: int| 0 <= k < v6s.len() && v6s[k] == b;
        }
    }
}

/// The interfaces multicast goes out on, from the system's list of
/// interface addresses: every interface that is not loopback and has an
/// address, once, in the order of their names, each with the IPv4 source
/// address [`select_ipv4`] chooses and its smallest IPv6 address.
pub fn group_interfaces(list: &[InterfaceAddress]) -> (r: Vec<InterfaceChoice>)
    ensures
        strictly_sorted(choice_names(r@)),
        forall|k: Seq<char>| #[trigger] choice_names(r@).contains(k) <==> lists_name(list@, k),
        forall|i: int|
            0 <= i < r@.len() ==> v4_choice_ok(list@, r@[i].name@, #[trigger] r@[i].ipv4) && v6_choice_ok(
                list@,
                r@[i].name@,
                r@[i].ipv6,
            ),
{
    let mut names: Vec<String> = Vec::new();
    let mut j: usize = 0;
    while j < list.len()
        invariant
            j <= list@.len(),
            strictly_sorted(strings_view(names@)),
            forall|k: Seq<char>| #[trigger] strings_view(names@).contains(k) <==> exists|x: int|
                0 <= x < j && #[trigger] names_interface(list@[x], k),
        decreases list@.len() - j,
    {
        if !list[j].loopback {
            insert_name(&mut names, list[j].name.as_str());
        }
        proof {
            assert forall|k: Seq<char>| #[trigger] strings_view(names@).contains(k) <==> exists|x: int|
                0 <= x < j + 1 && #[trigger] names_interface(list@[x], k) by {
                if names_interface(list@[j as int], k) {
                    assert(k == list@[j as int].name@);
                }
            }
        }
        j = j + 1;
    }
    let mut out: Vec<InterfaceChoice> = Vec::new();
    let mut i: usize = 0;
    while i < names.len()
        invariant
            i <= names@.len(),
            out@.len() == i,
            forall|x: int| 0 <= x < i ==> (#[trigger] out@[x]).name@ == names@[x]@,
            forall|x: int|
                0 <= x < i ==> v4_choice_ok(list@, names@[x]@, (#[trigger] out@[x]).ipv4) && v6_choice_ok(
                    list@,
                    names@[x]@,
                    out@[x].ipv6,
                ),
        decreases names@.len() - i,
    {
        let (v4s, v6s) = addresses_of(list, names[i].as_str());
        let ipv4 = select_ipv4(v4s.as_slice());
        let ipv6 = select_ipv6(v6s.as_slice());
        proof {
            lemma_v4_choice(list@, names@[i as int]@, v4s@, ipv4);
            lemma_v6_choice(list@, names@[i as int]@, v6s@, ipv6);
        }
        out.push(InterfaceChoice { name: names[i].clone(), ipv4, ipv6 });
        i = i + 1;
    }
    proof {
        assert(choice_names(out@) =~= strings_view(names@));
        assert forall|k: Seq<char>| #[trigger] choice_names(out@).contains(k) <==> lists_name(list@, k) by {
            if strings_view(names@).contains(k) {
                let x = choose|x: int| 0 <= x < list@.len() && #[trigger] names_interface(list@[x], k);
            }
        }
    }
    out
}

/// An interface multicast goes out on: its name, its index (the scope of
/// IPv6 sends) and the source addresses chosen for it.
#[derive(Debug, Clone, PartialEq, Eq)]
pub struct MulticastInterface {
    pub name: String,
    pub index: u32,
    pub ipv4: Option<u32>,
    pub ipv6: Option<u128>,
}

/// An interface as a value: its name, index and source addresses.
pub open spec fn interface_view(m: MulticastInterface) -> (Seq<char>, u32, Option<u32>, Option<u128>) {
    (m.name@, m.index, m.ipv4, m.ipv6)
}

/// The interfaces of `choices` that have an index: the choice at position
/// `i` is kept exactly when `indices[i]` is a non-zero index, which it then
/// carries; the order is kept.
pub open spec fn spec_indexed(choices: Seq<InterfaceChoice>, indices: Seq<Option<u32>>) -> Seq<
    (Seq<char>, u32, Option<u32>, Option<u128>),
>
    decreases choices.len(),
{
    if choices.len() == 0 || indices.len() < choices.len() {
        Seq::empty()
    } else {
        let rest = spec_indexed(choices.drop_last(), indices.take(choices.len() - 1));
        let c = choices.last();
        match indices[choices.len() - 1] {
            Some(i) => if i > 0 {
                rest.push((c.name@, i, c.ipv4, c.ipv6))
            } else {
                rest
            },
            None => rest,
        }
    }
}

/// The interfaces multicast goes out on, from the chosen interfaces and
/// the index the system gave each (`None`, or zero, when it gave none):
/// those without an index are left out; the others keep their order and
/// carry their index.
pub fn multicast_interfaces(choices: Vec<InterfaceChoice>, indices: Vec<Option<u32>>) -> (r: Vec<MulticastInterface>)
    requires
        indices@.len() == choices@.len(),
    ensures
        r@.map_values(|m: MulticastInterface| interface_view(m)) == spec_indexed(choices@, indices@),
{
    let mut out: Vec<MulticastInterface> = Vec::new();
    let mut i: usize = 0;
    assert(out@.map_values(|m: MulticastInterface| interface_view(m)) =~= spec_indexed(
        choices@.take(0),
        indices@.take(0),
    ));
    while i < choices.len()
        invariant
            i <= choices@.len(),
            indices@.len() == choices@.len(),
            out@.map_values(|m: MulticastInterface| interface_view(m)) == spec_indexed(
                choices@.take(i as int),
                indices@.take(i as int),
            ),
        decreases choices@.len() - i,
    {
        let ghost c = choices@.take(i + 1);
        let ghost x = indices@.take(i + 1);
        let ghost before = out@;
        proof {
            assert(c.drop_last() =~= choices@.take(i as int));
            assert(x.take(c.len() - 1) =~= indices@.take(i as int));
            assert(c.last() == choices@[i as int]);
            assert(x[c.len() - 1] == indices@[i as int]);
        }
        match indices[i] {
            Some(index) => {
                if index > 0 {
                    let name = choices[i].name.clone();
                    out.push(MulticastInterface { name, index, ipv4: choices[i].ipv4, ipv6: choices[i].ipv6 });
                    proof {
                        assert(out@.map_values(|m: MulticastInterface| interface_view(m)) =~= before.map_values(
                            |m: MulticastInterface| interface_view(m),
                        ).push(interface_view(out@.last())));
                    }
                }
            },
            None => {},
        }
        i = i + 1;
    }
    proof {
        assert(choices@.take(choices@.len() as int) =~= choices@);
        assert(indices@.take(indices@.len() as int) =~= indices@);
    }
    out
}

} // verus!
