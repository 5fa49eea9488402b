use vstd::prelude::*;
use vstd::string::StrSliceExecFns;
use vstd::string::StringExecFns;
use crate::text::{lower_char, starts_ignore_case, starts_with_lower, to_lower_char};

verus! {

/// The exact (case-folded) name of the loopback interface.
pub open spec fn is_loopback_name(name: Seq<char>) -> bool {
    name.len() == 2 && lower_char(name[0]) == 'l' && lower_char(name[1]) == 'o'
}

/// One bound address of a network interface, tagged by family and carried
/// in its rendered string form. The engine only compares families and
/// renders; it never interprets the text.
pub enum IpAddress {
    V4(String),
    V6(String),
}

impl IpAddress {
    /// The rendered form of the address.
    pub open spec fn text(self) -> Seq<char> {
        match self {
            IpAddress::V4(s) => s@,
            IpAddress::V6(s) => s@,
        }
    }
}

/// One discovered network adapter: its name and its bound addresses in
/// enumeration order. The address list may be empty.
pub struct NetInterface {
    pub name: String,
    pub addrs: Vec<IpAddress>,
}

/// Priority score of an interface name, lower is better. Prefixes are
/// matched case-insensitively: physical interfaces (ethernet, wireless,
/// mobile broadband) come first, VPN and tunnel interfaces are pushed far
/// back, the loopback interface comes last, and anything unrecognised gets
/// a middling default.
pub open spec fn priority_of(name: Seq<char>) -> u32 {
    if starts_with_lower(name, "en"@) {
        0
    } else if starts_with_lower(name, "wl"@) {
        1
    } else if starts_with_lower(name, "wwan"@) {
        2
    } else if starts_with_lower(name, "tailscale"@) {
        (u32::MAX - 1) as u32
    } else if starts_with_lower(name, "tun"@) {
        1000
    } else if starts_with_lower(name, "tap"@) {
        1000
    } else if starts_with_lower(name, "wg"@) {
        1000
    } else if starts_with_lower(name, "vpn"@) {
        1000
    } else if starts_with_lower(name, "nm"@) {
        1001
    } else if is_loopback_name(name) {
        u32::MAX
    } else {
        69
    }
}

/// Executable form of `priority_of`.
pub fn interface_priority(name: &str) -> (p: u32)
    ensures
        p == priority_of(name@),
{
    if starts_ignore_case(name, "en") {
        0
    } else if starts_ignore_case(name, "wl") {
        1
    } else if starts_ignore_case(name, "wwan") {
        2
    } else if starts_ignore_case(name, "tailscale") {
        u32::MAX - 1
    } else if starts_ignore_case(name, "tun") {
        1000
    } else if starts_ignore_case(name, "tap") {
        1000
    } else if starts_ignore_case(name, "wg") {
        1000
    } else if starts_ignore_case(name, "vpn") {
        1000
    } else if starts_ignore_case(name, "nm") {
        1001
    } else if is_loopback(name) {
        u32::MAX
    } else {
        69
    }
}

/// Executable form of `is_loopback_name`.
pub fn is_loopback(name: &str) -> (b: bool)
    ensures
        b == is_loopback_name(name@),
{
    let n: usize = name.unicode_len();
    n == 2 && to_lower_char(name.get_char(0)) == 'l' && to_lower_char(name.get_char(1)) == 'o'
}

/// The loopback name is the only one that `priority_of` sends to the very
/// end of the order.
pub proof fn lemma_loopback_priority(name: Seq<char>)
    ensures
        priority_of(name) == u32::MAX <==> is_loopback_name(name),
{
    if is_loopback_name(name) {
        assert(lower_char(name[0]) == 'l');
        assert(!starts_with_lower(name, "en"@)) by {
            reveal_strlit("en");
            assert("en"@.len() == 2);
            assert("en"@[0] == 'e');
        }
        assert(!starts_with_lower(name, "wl"@)) by {
            reveal_strlit("wl");
            assert("wl"@.len() == 2);
            assert("wl"@[0] == 'w');
        }
        assert(!starts_with_lower(name, "wwan"@)) by {
            reveal_strlit("wwan");
            assert("wwan"@.len() == 4);
        }
        assert(!starts_with_lower(name, "tailscale"@)) by {
            reveal_strlit("tailscale");
            assert("tailscale"@.len() == 9);
        }
        assert(!starts_with_lower(name, "tun"@)) by {
            reveal_strlit("tun");
            assert("tun"@.len() == 3);
        }
        assert(!starts_with_lower(name, "tap"@)) by {
            reveal_strlit("tap");
            assert("tap"@.len() == 3);
        }
        assert(!starts_with_lower(name, "wg"@)) by {
            reveal_strlit("wg");
            assert("wg"@.len() == 2);
            assert("wg"@[0] == 'w');
        }
        assert(!starts_with_lower(name, "vpn"@)) by {
            reveal_strlit("vpn");
            assert("vpn"@.len() == 3);
        }
        assert(!starts_with_lower(name, "nm"@)) by {
            reveal_strlit("nm");
            assert("nm"@.len() == 2);
            assert("nm"@[0] == 'n');
        }
    }
}

/// Some address in the list is an IPv4 address.
pub open spec fn has_v4(addrs: Seq<IpAddress>) -> bool {
    exists|k: int| 0 <= k < addrs.len() && (#[trigger] addrs[k]) is V4
}

/// Index `i` holds the first IPv4 address of the list.
pub open spec fn first_v4_at(addrs: Seq<IpAddress>, i: int) -> bool {
    &&& 0 <= i < addrs.len()
    &&& addrs[i] is V4
    &&& forall|k: int| 0 <= k < i ==> !((#[trigger] addrs[k]) is V4)
}

/// The address text the selector takes from one interface's address list:
/// the first IPv4 address when one is bound, else the first address of any
/// family.
pub open spec fn chosen_addr_text(addrs: Seq<IpAddress>, t: Seq<char>) -> bool {
    if has_v4(addrs) {
        exists|i: int| #[trigger] first_v4_at(addrs, i) && t == addrs[i].text()
    } else {
        addrs.len() > 0 && t == addrs[0].text()
    }
}

/// The rendered form of one address.
fn addr_text(a: &IpAddress) -> (t: String)
    ensures
        t@ == a.text(),
{
    match a {
        IpAddress::V4(s) => s.clone(),
        IpAddress::V6(s) => s.clone(),
    }
}

/// Whether an address is an IPv4 address.
fn is_v4_addr(a: &IpAddress) -> (b: bool)
    ensures
        b == (*a is V4),
{
    match a {
        IpAddress::V4(_) => true,
        IpAddress::V6(_) => false,
    }
}

/// Pick the representative address of one interface: IPv4 preferred over
/// IPv6, addresses of the same family left in enumeration order. `None`
/// exactly when the interface has no address at all.
pub fn extract_ip(addrs: &Vec<IpAddress>) -> (r: Option<String>)
    ensures
        r is Some <==> addrs@.len() > 0,
        r matches Some(t) ==> chosen_addr_text(addrs@, t@),
{
    let n: usize = addrs.len();
    let mut k: usize = 0;
    while k < n
        invariant
            0 <= k <= n,
            n == addrs@.len(),
            forall|t: int| 0 <= t < k ==> !((#[trigger] addrs@[t]) is V4),
        decreases n - k,
    {
        if is_v4_addr(&addrs[k]) {
            proof {
                assert(first_v4_at(addrs@, k as int));
            }
            return Some(addr_text(&addrs[k]));
        }
        k = k + 1;
    }
    if n > 0 {
        proof {
            assert(!has_v4(addrs@));
        }
        Some(addr_text(&addrs[0]))
    } else {
        None
    }
}

/// Interface `k` can supply the result: it has at least one address and
/// is not the loopback interface, whose addresses never represent the
/// host's network identity.
pub open spec fn can_supply(ifs: Seq<NetInterface>, k: int) -> bool {
    &&& 0 <= k < ifs.len()
    &&& ifs[k].addrs@.len() > 0
    &&& !is_loopback_name(ifs[k].name@)
}

/// Interface `i` is the selector's choice: it can supply the result, and
/// no other interface that can has a strictly better rank, where rank is
/// the priority score broken by enumeration order.
pub open spec fn is_best_interface(ifs: Seq<NetInterface>, i: int) -> bool {
    &&& can_supply(ifs, i)
    &&& forall|j: int|
        #[trigger] can_supply(ifs, j) ==> priority_of(ifs[i].name@) < priority_of(ifs[j].name@)
            || (priority_of(ifs[i].name@) == priority_of(ifs[j].name@) && i <= j)
}

/// Choose the single address that best represents the host: walk the
/// interfaces by ascending priority score (enumeration order breaking
/// ties), take the first non-loopback one with an address, and prefer
/// IPv4 within it. When no non-loopback interface yields an address,
/// loopback-bound ones included, report the sentinel.
pub fn get_ip_addr(interfaces: &Vec<NetInterface>) -> (r: String)
    ensures
        (forall|k: int| 0 <= k < interfaces@.len() ==> !(#[trigger] can_supply(interfaces@, k)))
            ==> r@ == "No Connection"@,
        (exists|k: int| #[trigger] can_supply(interfaces@, k)) ==> exists|i: int|
            #[trigger] is_best_interface(interfaces@, i) && chosen_addr_text(
                interfaces@[i].addrs@,
                r@,
            ),
{
    let n: usize = interfaces.len();
    let mut found: bool = false;
    let mut best: usize = 0;
    let mut best_prio: u32 = 0;
    let mut j: usize = 0;
    while j < n
        invariant
            0 <= j <= n,
            n == interfaces@.len(),
            !found ==> forall|t: int| 0 <= t < j ==> !(#[trigger] can_supply(interfaces@, t)),
            found ==> 0 <= best < j && can_supply(interfaces@, best as int) && best_prio
                == priority_of(interfaces@[best as int].name@),
            found ==> forall|t: int|
                0 <= t < j && #[trigger] can_supply(interfaces@, t) ==> best_prio < priority_of(
                    interfaces@[t].name@,
                ) || (best_prio == priority_of(interfaces@[t].name@) && best <= t),
        decreases n - j,
    {
        if interfaces[j].addrs.len() > 0 && !is_loopback(interfaces[j].name.as_str()) {
            proof {
                assert(can_supply(interfaces@, j as int));
            }
            let p: u32 = interface_priority(interfaces[j].name.as_str());
            if !found || p < best_prio {
                best = j;
                best_prio = p;
                found = true;
            }
        } else {
            proof {
                assert(!can_supply(interfaces@, j as int));
            }
        }
        j = j + 1;
    }
    if found {
        proof {
            assert(is_best_interface(interfaces@, best as int));
        }
        match extract_ip(&interfaces[best].addrs) {
            Some(t) => t,
            None => {
                proof {
                    assert(false);
                }
                String::new()
            },
        }
    } else {
        String::from_str("No Connection")
    }
}

/// The loopback interface never supplies the result: whatever the
/// snapshot, the selector's choice is a non-loopback interface.
pub proof fn lemma_never_loopback(ifs: Seq<NetInterface>, i: int)
    requires
        is_best_interface(ifs, i),
    ensures
        !is_loopback_name(ifs[i].name@),
{
}

/// When a list binds both an IPv4 and an IPv6 address, the text chosen
/// from it is that of an IPv4 address.
pub proof fn lemma_ipv4_preferred(addrs: Seq<IpAddress>, t: Seq<char>)
    requires
        chosen_addr_text(addrs, t),
        exists|k: int| 0 <= k < addrs.len() && (#[trigger] addrs[k]) is V4,
        exists|k: int| 0 <= k < addrs.len() && (#[trigger] addrs[k]) is V6,
    ensures
        exists|i: int| 0 <= i < addrs.len() && (#[trigger] addrs[i]) is V4 && t == addrs[i].text(),
{
    assert(has_v4(addrs));
    let i = choose|i: int| #[trigger] first_v4_at(addrs, i) && t == addrs[i].text();
    assert(0 <= i < addrs.len() && addrs[i] is V4 && t == addrs[i].text());
}

} // verus!
