//! Where a Minecraft proxy may connect to.
//!
//! The host is a name or an address in text. Names are looked up by whoever calls,
//! and the addresses that come back are checked here like addresses in text.
use vstd::prelude::*;
use vstd::string::*;

use crate::text;

verus! {

/// The port of a Minecraft server where none is given.
pub const MINECRAFT_PROXY_DEFAULT_PORT: u32 = 25565;

/// An IP address.
#[derive(Clone, Copy, Debug, PartialEq, Eq, Structural)]
pub enum IpAddress {
    V4 { a: u8, b: u8, c: u8, d: u8 },
    V6 { s0: u16, s1: u16, s2: u16, s3: u16, s4: u16, s5: u16, s6: u16, s7: u16 },
}

/// An address of a server: the IP address, the port, what IPv6 adds to them, and the
/// IP address as it is written.
pub struct TargetAddress {
    pub ip: IpAddress,
    pub port: u16,
    pub flow_info: u32,
    pub scope_id: u32,
    pub text: String,
}

/// The contents of a [`TargetAddress`].
pub struct AddressView {
    pub ip: IpAddress,
    pub port: u16,
    pub flow_info: u32,
    pub scope_id: u32,
    pub text: Seq<char>,
}

impl View for TargetAddress {
    type V = AddressView;

    open spec fn view(&self) -> AddressView {
        AddressView {
            ip: self.ip,
            port: self.port,
            flow_info: self.flow_info,
            scope_id: self.scope_id,
            text: self.text@,
        }
    }
}

/// The contents of a list of addresses.
pub open spec fn addresses_view(addresses: Seq<TargetAddress>) -> Seq<AddressView> {
    Seq::new(addresses.len(), |i: int| addresses[i]@)
}

/// A checked target: the host as it was given, and its addresses.
pub struct ProxyTarget {
    pub host: String,
    pub addresses: Vec<TargetAddress>,
}

/// The contents of a [`ProxyTarget`].
pub struct TargetView {
    pub host: Seq<char>,
    pub addresses: Seq<AddressView>,
}

impl View for ProxyTarget {
    type V = TargetView;

    open spec fn view(&self) -> TargetView {
        TargetView { host: self.host@, addresses: addresses_view(self.addresses@) }
    }
}

// ---------------------------------------------------------------------------
// Addresses
// ---------------------------------------------------------------------------
/// The address of this machine for itself: 127.0.0.0/8 or ::1.
pub open spec fn is_loopback_address(ip: IpAddress) -> bool {
    match ip {
        IpAddress::V4 { a, .. } => a == 127,
        IpAddress::V6 { s0, s1, s2, s3, s4, s5, s6, s7 } => s0 == 0 && s1 == 0 && s2 == 0 && s3 == 0
            && s4 == 0 && s5 == 0 && s6 == 0 && s7 == 1,
    }
}

/// The address of the metadata service of cloud machines: 169.254.169.254.
pub open spec fn is_metadata_address(ip: IpAddress) -> bool {
    ip == (IpAddress::V4 { a: 169, b: 254, c: 169, d: 254 })
}

/// 0.0.0.0 or ::.
pub open spec fn is_unspecified_address(ip: IpAddress) -> bool {
    ||| ip == (IpAddress::V4 { a: 0, b: 0, c: 0, d: 0 })
    ||| ip == (IpAddress::V6 { s0: 0, s1: 0, s2: 0, s3: 0, s4: 0, s5: 0, s6: 0, s7: 0 })
}

/// 255.255.255.255.
pub open spec fn is_broadcast_address(ip: IpAddress) -> bool {
    ip == (IpAddress::V4 { a: 255, b: 255, c: 255, d: 255 })
}

/// 224.0.0.0/4 or ff00::/8.
pub open spec fn is_multicast_address(ip: IpAddress) -> bool {
    match ip {
        IpAddress::V4 { a, .. } => 224 <= a <= 239,
        IpAddress::V6 { s0, .. } => 0xff00 <= s0,
    }
}

/// 169.254.0.0/16 or fe80::/10.
pub open spec fn is_link_local_address(ip: IpAddress) -> bool {
    match ip {
        IpAddress::V4 { a, b, .. } => a == 169 && b == 254,
        IpAddress::V6 { s0, .. } => 0xfe80 <= s0 <= 0xfebf,
    }
}

/// The addresses that a proxy may connect to.
pub open spec fn is_allowed_address(ip: IpAddress) -> bool {
    &&& !is_metadata_address(ip)
    &&& !is_unspecified_address(ip)
    &&& !is_broadcast_address(ip)
    &&& !is_multicast_address(ip)
    &&& !is_link_local_address(ip)
}

/// What is wrong with an address that is written as `written`, if anything is.
pub open spec fn address_fault(ip: IpAddress, written: Seq<char>) -> Option<Seq<char>> {
    if is_metadata_address(ip) {
        Some("Minecraft proxy target cannot be the metadata service address."@)
    } else if !is_allowed_address(ip) {
        Some("Minecraft proxy target address is not allowed: "@ + written)
    } else {
        None
    }
}

/// Tells whether an address is one of this machine for itself.
pub fn is_loopback(ip: IpAddress) -> (r: bool)
    ensures
        r == is_loopback_address(ip),
{
    match ip {
        IpAddress::V4 { a, .. } => a == 127,
        IpAddress::V6 { s0, s1, s2, s3, s4, s5, s6, s7 } => s0 == 0 && s1 == 0 && s2 == 0 && s3 == 0
            && s4 == 0 && s5 == 0 && s6 == 0 && s7 == 1,
    }
}

/// Checks that a proxy may connect to an address, `written` being the address as it
/// is written.
pub fn validate_minecraft_proxy_ip(ip: IpAddress, written: &str) -> (r: Result<(), String>)
    ensures
        match r {
            Ok(_) => address_fault(ip, written@) is None && is_allowed_address(ip),
            Err(error) => address_fault(ip, written@) == Some(error@),
        },
{
    let allowed: bool = match ip {
        IpAddress::V4 { a, b, c, d } => {
            if a == 169 && b == 254 && c == 169 && d == 254 {
                return Err(
                    "Minecraft proxy target cannot be the metadata service address.".to_owned(),
                );
            }
            let unspecified: bool = a == 0 && b == 0 && c == 0 && d == 0;
            let broadcast: bool = a == 255 && b == 255 && c == 255 && d == 255;
            let multicast: bool = 224 <= a && a <= 239;
            let link_local: bool = a == 169 && b == 254;
            !unspecified && !broadcast && !multicast && !link_local
        },
        IpAddress::V6 { s0, s1, s2, s3, s4, s5, s6, s7 } => {
            let unspecified: bool = s0 == 0 && s1 == 0 && s2 == 0 && s3 == 0 && s4 == 0 && s5 == 0
                && s6 == 0 && s7 == 0;
            let multicast: bool = 0xff00 <= s0;
            let link_local: bool = 0xfe80 <= s0 && s0 <= 0xfebf;
            !unspecified && !multicast && !link_local
        },
    };
    if allowed {
        Ok(())
    } else {
        Err(text::concat2("Minecraft proxy target address is not allowed: ", written))
    }
}

// ---------------------------------------------------------------------------
// Names
// ---------------------------------------------------------------------------
/// A part of a domain name: letters, digits and hyphens, at least one of them.
pub open spec fn is_domain_label(label: Seq<char>) -> bool {
    &&& label.len() > 0
    &&& forall|i: int|
        0 <= i < label.len() ==> text::is_ascii_letter_or_digit(#[trigger] label[i]) || label[i]
            == '-'
}

/// A domain name: labels with dots between them, at most 253 characters, which are
/// then as many bytes.
pub open spec fn is_domain_name(host: Seq<char>) -> bool {
    &&& host.len() <= 253
    &&& forall|i: int|
        0 <= i < text::split_on(host, '.').len() ==> is_domain_label(
            #[trigger] text::split_on(host, '.')[i],
        )
}

fn is_label(label: &Vec<char>) -> (r: bool)
    ensures
        r == is_domain_label(label@),
{
    if label.len() == 0 {
        return false;
    }
    let mut i: usize = 0;
    while i < label.len()
        invariant
            i <= label.len(),
            forall|k: int|
                0 <= k < i ==> text::is_ascii_letter_or_digit(#[trigger] label@[k]) || label@[k]
                    == '-',
        decreases label.len() - i,
    {
        let c: char = label[i];
        if !(('0' <= c && c <= '9') || ('a' <= c && c <= 'z') || ('A' <= c && c <= 'Z') || c
            == '-') {
            assert(!text::is_ascii_letter_or_digit(label@[i as int]));
            return false;
        }
        i += 1;
    }
    true
}

/// Tells whether a host can be a domain name.
pub fn is_valid_minecraft_proxy_domain(host: &str) -> (r: bool)
    ensures
        r == is_domain_name(host@),
{
    let chars: Vec<char> = text::chars_of(host);
    if chars.len() > 253 {
        return false;
    }
    let parts: Vec<Vec<char>> = text::split_chars(&chars, '.');
    let ghost labels = text::split_on(host@, '.');
    let mut i: usize = 0;
    while i < parts.len()
        invariant
            i <= parts.len(),
            text::parts_view(parts@) == labels,
            labels == text::split_on(host@, '.'),
            forall|k: int| 0 <= k < i ==> is_domain_label(#[trigger] labels[k]),
        decreases parts.len() - i,
    {
        assert(labels[i as int] == parts@[i as int]@);
        if !is_label(&parts[i]) {
            return false;
        }
        i += 1;
    }
    true
}

/// Characters that stand in no host: control characters, `/` and `\`.
pub open spec fn is_unsupported_in_host(c: char) -> bool {
    text::is_control_char(c) || c == '/' || c == '\\'
}

/// Some character of a host stands in no host.
pub open spec fn has_unsupported(host: Seq<char>) -> bool {
    exists|i: int| 0 <= i < host.len() && is_unsupported_in_host(#[trigger] host[i])
}

fn contains_unsupported(host: &str) -> (r: bool)
    ensures
        r == has_unsupported(host@),
{
    let chars: Vec<char> = text::chars_of(host);
    let mut i: usize = 0;
    while i < chars.len()
        invariant
            i <= chars.len(),
            chars@ == host@,
            forall|k: int| 0 <= k < i ==> !is_unsupported_in_host(#[trigger] host@[k]),
        decreases chars.len() - i,
    {
        let c: char = chars[i];
        if text::char_is_control(c) || c == '/' || c == '\\' {
            assert(is_unsupported_in_host(host@[i as int]));
            return true;
        }
        i += 1;
    }
    false
}

// ---------------------------------------------------------------------------
// Targets
// ---------------------------------------------------------------------------
/// What is known of a target from its host and port alone.
pub enum TargetPlan {
    /// The target is not allowed, for this reason.
    Rejected(String),
    /// The target needs no lookup.
    Ready(ProxyTarget),
    /// The addresses of this host have to be looked up.
    Lookup { host: String, port: u16 },
}

/// The contents of a [`TargetPlan`].
pub enum TargetPlanView {
    Rejected(Seq<char>),
    Ready(TargetView),
    Lookup { host: Seq<char>, port: u16 },
}

impl View for TargetPlan {
    type V = TargetPlanView;

    open spec fn view(&self) -> TargetPlanView {
        match self {
            TargetPlan::Rejected(error) => TargetPlanView::Rejected(error@),
            TargetPlan::Ready(target) => TargetPlanView::Ready(target@),
            TargetPlan::Lookup { host, port } => TargetPlanView::Lookup {
                host: host@,
                port: *port,
            },
        }
    }
}

/// An IP address that a host was read as, and the address as it is written.
pub struct AddressLiteral {
    pub ip: IpAddress,
    pub text: String,
}

/// This machine, at the given port.
pub open spec fn localhost_target(port: u16) -> TargetView {
    TargetView {
        host: "localhost"@,
        addresses: seq![
            AddressView {
                ip: IpAddress::V4 { a: 127, b: 0, c: 0, d: 1 },
                port,
                flow_info: 0,
                scope_id: 0,
                text: "127.0.0.1"@,
            },
        ],
    }
}

/// One address, at the given port.
pub open spec fn literal_target(host: Seq<char>, literal: AddressLiteral, port: u16) -> TargetView {
    TargetView {
        host,
        addresses: seq![
            AddressView {
                ip: literal.ip,
                port,
                flow_info: 0,
                scope_id: 0,
                text: literal.text@,
            },
        ],
    }
}

/// What is known of a target from its host and port, `literal` being the IP address
/// that the host without white space around it stands for, if it is one.
pub open spec fn target_plan(
    host: Seq<char>,
    port: u32,
    literal: Option<AddressLiteral>,
) -> TargetPlanView {
    let name = text::trimmed(host);
    if name.len() == 0 {
        TargetPlanView::Rejected("Minecraft proxy host is empty."@)
    } else if !(1 <= port <= 65535) {
        TargetPlanView::Rejected("Minecraft proxy port must be in range 1-65535."@)
    } else if has_unsupported(name) {
        TargetPlanView::Rejected("Minecraft proxy host contains unsupported characters."@)
    } else if text::ascii_lowered(name) == text::ascii_lowered("localhost"@) {
        TargetPlanView::Ready(localhost_target(port as u16))
    } else {
        match literal {
            Some(address) => match address_fault(address.ip, address.text@) {
                Some(fault) => TargetPlanView::Rejected(fault),
                None => TargetPlanView::Ready(literal_target(name, address, port as u16)),
            },
            None => if is_domain_name(name) {
                TargetPlanView::Lookup { host: name, port: port as u16 }
            } else {
                TargetPlanView::Rejected(
                    "Minecraft proxy host must be a valid domain or IP address."@,
                )
            },
        }
    }
}

fn single_address(ip: IpAddress, port: u16, written: String) -> (r: Vec<TargetAddress>)
    ensures
        addresses_view(r@) == seq![
            AddressView { ip, port, flow_info: 0, scope_id: 0, text: written@ },
        ],
{
    let ghost view = AddressView { ip, port, flow_info: 0, scope_id: 0, text: written@ };
    let mut r: Vec<TargetAddress> = Vec::new();
    r.push(TargetAddress { ip, port, flow_info: 0, scope_id: 0, text: written });
    assert(addresses_view(r@) =~= seq![view]);
    r
}

/// Checks the host and the port of a target, `literal` being the IP address that the
/// host without white space around it stands for, if it is one.
pub fn validate_minecraft_proxy_target(
    host: &str,
    port: u32,
    literal: Option<AddressLiteral>,
) -> (r: TargetPlan)
    ensures
        r@ == target_plan(host@, port, literal),
{
    let name: &str = text::trim(host);
    if text::chars_of(name).len() == 0 {
        return TargetPlan::Rejected("Minecraft proxy host is empty.".to_owned());
    }
    if port < 1 || 65535 < port {
        return TargetPlan::Rejected("Minecraft proxy port must be in range 1-65535.".to_owned());
    }
    if contains_unsupported(name) {
        return TargetPlan::Rejected(
            "Minecraft proxy host contains unsupported characters.".to_owned(),
        );
    }
    if text::same_ignoring_ascii_case(name, "localhost") {
        let ip = IpAddress::V4 { a: 127, b: 0, c: 0, d: 1 };
        let addresses: Vec<TargetAddress> = single_address(
            ip,
            port as u16,
            "127.0.0.1".to_owned(),
        );
        return TargetPlan::Ready(ProxyTarget { host: "localhost".to_owned(), addresses });
    }
    match literal {
        Some(address) => match validate_minecraft_proxy_ip(address.ip, address.text.as_str()) {
            Err(error) => TargetPlan::Rejected(error),
            Ok(_) => {
                let addresses: Vec<TargetAddress> = single_address(
                    address.ip,
                    port as u16,
                    address.text,
                );
                TargetPlan::Ready(ProxyTarget { host: name.to_owned(), addresses })
            },
        },
        None => if is_valid_minecraft_proxy_domain(name) {
            TargetPlan::Lookup { host: name.to_owned(), port: port as u16 }
        } else {
            TargetPlan::Rejected(
                "Minecraft proxy host must be a valid domain or IP address.".to_owned(),
            )
        },
    }
}

/// What is wrong with the first address that something is wrong with.
pub open spec fn first_fault(addresses: Seq<AddressView>) -> Option<Seq<char>>
    decreases addresses.len(),
{
    if addresses.len() == 0 {
        None
    } else {
        match first_fault(addresses.drop_last()) {
            Some(fault) => Some(fault),
            None => address_fault(addresses.last().ip, addresses.last().text),
        }
    }
}

/// The result of a lookup, the addresses and the error by their contents.
pub open spec fn lookup_view(lookup: Result<Vec<TargetAddress>, String>) -> Result<
    Seq<AddressView>,
    Seq<char>,
> {
    match lookup {
        Ok(addresses) => Ok(addresses_view(addresses@)),
        Err(error) => Err(error@),
    }
}

/// The target that a lookup of `host` leads to.
pub open spec fn looked_up_target(
    host: Seq<char>,
    lookup: Result<Seq<AddressView>, Seq<char>>,
) -> Result<TargetView, Seq<char>> {
    match lookup {
        Err(error) => Err("Could not resolve Minecraft proxy host: "@ + error),
        Ok(addresses) => if addresses.len() == 0 {
            Err("Minecraft proxy host did not resolve to any address."@)
        } else {
            match first_fault(addresses) {
                Some(fault) => Err(fault),
                None => Ok(TargetView { host, addresses }),
            }
        },
    }
}

/// Checks what the lookup of a host gave: there is an address, and a proxy may
/// connect to every one of them.
pub fn validate_looked_up_target(
    host: String,
    lookup: Result<Vec<TargetAddress>, String>,
) -> (r: Result<ProxyTarget, String>)
    ensures
        r is Ok == looked_up_target(host@, lookup_view(lookup)) is Ok,
        match r {
            Ok(target) => looked_up_target(host@, lookup_view(lookup))->Ok_0 == target@,
            Err(error) => looked_up_target(host@, lookup_view(lookup))->Err_0 == error@,
        },
{
    let ghost given = lookup_view(lookup);
    match lookup {
        Err(error) => Err(
            text::concat2("Could not resolve Minecraft proxy host: ", error.as_str()),
        ),
        Ok(addresses) => {
            if addresses.len() == 0 {
                return Err("Minecraft proxy host did not resolve to any address.".to_owned());
            }
            let ghost all = addresses_view(addresses@);
            let mut i: usize = 0;
            assert(all.take(0) =~= Seq::<AddressView>::empty());
            while i < addresses.len()
                invariant
                    i <= addresses.len(),
                    all == addresses_view(addresses@),
                    all.len() > 0,
                    given matches Ok(found) && found == all,
                    given == lookup_view(lookup),
                    first_fault(all.take(i as int)) is None,
                decreases addresses.len() - i,
            {
                let address: &TargetAddress = &addresses[i];
                assert(all.take(i + 1).drop_last() =~= all.take(i as int));
                assert(all.take(i + 1).last() == address@);
                match validate_minecraft_proxy_ip(address.ip, address.text.as_str()) {
                    Err(error) => {
                        proof {
                            lemma_first_fault_stays(all, i + 1);
                        }
                        return Err(error);
                    },
                    Ok(_) => {},
                }
                i += 1;
            }
            assert(all.take(addresses.len() as int) =~= all);
            Ok(ProxyTarget { host, addresses })
        },
    }
}

/// A fault among the first addresses is the first fault of all of them.
proof fn lemma_first_fault_stays(addresses: Seq<AddressView>, n: int)
    requires
        0 <= n <= addresses.len(),
        first_fault(addresses.take(n)) is Some,
    ensures
        first_fault(addresses) == first_fault(addresses.take(n)),
    decreases addresses.len() - n,
{
    if n == addresses.len() {
        assert(addresses.take(n) =~= addresses);
    } else {
        assert(addresses.take(n + 1).drop_last() =~= addresses.take(n));
        lemma_first_fault_stays(addresses, n + 1);
    }
}

/// The port of a target, which is that of its first address.
pub fn target_port(target: &ProxyTarget) -> (r: Result<u16, String>)
    ensures
        match r {
            Ok(port) => target@.addresses.len() > 0 && port == target@.addresses[0].port,
            Err(error) => target@.addresses.len() == 0 && error@
                == "Minecraft proxy target did not resolve to any address."@,
        },
{
    if target.addresses.len() == 0 {
        Err("Minecraft proxy target did not resolve to any address.".to_owned())
    } else {
        Ok(target.addresses[0].port)
    }
}

// ---------------------------------------------------------------------------
// Laws
// ---------------------------------------------------------------------------
/// Every address of a target is one that a proxy may connect to.
pub open spec fn all_allowed(addresses: Seq<AddressView>) -> bool {
    forall|i: int| 0 <= i < addresses.len() ==> is_allowed_address((#[trigger] addresses[i]).ip)
}

/// Law: a target that is ready without a lookup has one address, at the port that was
/// asked for, and a proxy may connect to it.
pub proof fn law_ready_targets_are_allowed(
    host: Seq<char>,
    port: u32,
    literal: Option<AddressLiteral>,
)
    ensures
        target_plan(host, port, literal) matches TargetPlanView::Ready(target) ==> {
            &&& target.addresses.len() == 1
            &&& target.addresses[0].port == port
            &&& all_allowed(target.addresses)
        },
{
}

/// Law: a lookup makes a target exactly if it gave at least one address and a proxy
/// may connect to all of them; the target then has those addresses.
pub proof fn law_looked_up_targets_are_allowed(host: Seq<char>, addresses: Seq<AddressView>)
    ensures
        looked_up_target(host, Ok(addresses)) is Ok <==> addresses.len() > 0 && all_allowed(
            addresses,
        ),
        looked_up_target(host, Ok(addresses)) matches Ok(target) ==> target.addresses == addresses
            && target.host == host,
{
    lemma_no_fault(addresses);
}

proof fn lemma_no_fault(addresses: Seq<AddressView>)
    ensures
        first_fault(addresses) is None <==> all_allowed(addresses),
    decreases addresses.len(),
{
    if addresses.len() > 0 {
        let before = addresses.drop_last();
        lemma_no_fault(before);
        assert(forall|i: int| 0 <= i < before.len() ==> before[i] == addresses[i]);
        assert(addresses.last() == addresses[addresses.len() - 1]);
        assert(all_allowed(addresses) ==> all_allowed(before));
        if all_allowed(before) && is_allowed_address(addresses.last().ip) {
            assert forall|i: int| 0 <= i < addresses.len() implies is_allowed_address(
                (#[trigger] addresses[i]).ip,
            ) by {
                if i < before.len() {
                    assert(before[i] == addresses[i]);
                }
            }
        }
    }
}

/// Law: the host that is looked up has no white space around it and is a domain name.
pub proof fn law_only_domain_names_are_looked_up(
    host: Seq<char>,
    port: u32,
    literal: Option<AddressLiteral>,
)
    ensures
        target_plan(host, port, literal) matches TargetPlanView::Lookup { host: name, port: p }
            ==> name == text::trimmed(host) && is_domain_name(name) && literal is None && p == port,
{
}

/// Law: the addresses of version 4 that a proxy may not connect to are 0.0.0.0,
/// 255.255.255.255, those that begin with 169.254, and those that begin with a number from
/// 224 to 239.
pub proof fn law_allowed_addresses_of_version_4(a: u8, b: u8, c: u8, d: u8)
    ensures
        is_allowed_address(IpAddress::V4 { a, b, c, d }) <==> {
            &&& !(a == 169 && b == 254)
            &&& !(224 <= a <= 239)
            &&& a != 0 || b != 0 || c != 0 || d != 0
            &&& a != 255 || b != 255 || c != 255 || d != 255
        },
        is_loopback_address(IpAddress::V4 { a, b, c, d }) <==> a == 127,
{
}

/// Law: the addresses of version 6 that a proxy may not connect to are `::`, those that
/// begin with `ff`, and those that begin with `fe8` to `feb`; `::1` is this machine.
pub proof fn law_allowed_addresses_of_version_6(ip: IpAddress)
    ensures
        ip matches IpAddress::V6 { s0, s1, s2, s3, s4, s5, s6, s7 } ==> {
            &&& is_allowed_address(ip) <==> {
                &&& s0 / 256 != 0xff
                &&& !(0xfe8 <= s0 / 16 <= 0xfeb)
                &&& s0 != 0 || s1 != 0 || s2 != 0 || s3 != 0 || s4 != 0 || s5 != 0 || s6 != 0 || s7
                    != 0
            }
            &&& is_loopback_address(ip) <==> s0 == 0 && s1 == 0 && s2 == 0 && s3 == 0 && s4 == 0
                && s5 == 0 && s6 == 0 && s7 == 1
        },
{
}

/// Law: something is wrong with an address exactly if a proxy may not connect to it; the
/// address is told as it is written, but for that of the metadata service.
pub proof fn law_faults_of_addresses(ip: IpAddress, written: Seq<char>)
    ensures
        address_fault(ip, written) is None <==> is_allowed_address(ip),
        ip == (IpAddress::V4 { a: 169, b: 254, c: 169, d: 254 }) ==> address_fault(ip, written)
            == Some("Minecraft proxy target cannot be the metadata service address."@),
        !is_allowed_address(ip) && ip != (IpAddress::V4 { a: 169, b: 254, c: 169, d: 254 })
            ==> address_fault(ip, written) == Some(
            "Minecraft proxy target address is not allowed: "@ + written,
        ),
{
}

/// Law: what is told of a lookup is the fault of the first address that has one, or that
/// there is no address.
pub proof fn law_first_fault_is_told(host: Seq<char>, addresses: Seq<AddressView>, i: int)
    requires
        0 <= i < addresses.len(),
        !is_allowed_address(addresses[i].ip),
        forall|k: int| 0 <= k < i ==> is_allowed_address((#[trigger] addresses[k]).ip),
    ensures
        looked_up_target(host, Ok(addresses)) is Err,
        Some(looked_up_target(host, Ok(addresses))->Err_0) == address_fault(
            addresses[i].ip,
            addresses[i].text,
        ),
        looked_up_target(host, Ok(Seq::empty())) == Err::<TargetView, Seq<char>>(
            "Minecraft proxy host did not resolve to any address."@,
        ),
{
    let before = addresses.take(i);
    assert(all_allowed(before));
    lemma_no_fault(before);
    assert(addresses.take(i + 1).drop_last() =~= before);
    assert(addresses.take(i + 1).last() == addresses[i]);
    lemma_first_fault_stays(addresses, i + 1);
}

/// A character of a domain name.
pub open spec fn is_domain_char(c: char) -> bool {
    'a' <= c <= 'z' || 'A' <= c <= 'Z' || '0' <= c <= '9' || c == '-'
}

/// Every part but the last is a label, and the last may still become one.
spec fn labels_so_far(parts: Seq<Seq<char>>) -> bool {
    &&& forall|i: int| 0 <= i < parts.len() - 1 ==> is_domain_label(#[trigger] parts[i])
    &&& forall|i: int| 0 <= i < parts.last().len() ==> is_domain_char(#[trigger] parts.last()[i])
}

/// Characters of a domain name with single dots between them.
spec fn chars_so_far(host: Seq<char>) -> bool {
    &&& forall|i: int|
        0 <= i < host.len() ==> #[trigger] host[i] == '.' || is_domain_char(host[i])
    &&& host.len() > 0 ==> host[0] != '.'
    &&& forall|i: int| 0 < i < host.len() && host[i - 1] == '.' ==> #[trigger] host[i] != '.'
}

proof fn lemma_labels_so_far(host: Seq<char>)
    ensures
        text::split_on(host, '.').len() > 0,
        labels_so_far(text::split_on(host, '.')) <==> chars_so_far(host),
        text::split_on(host, '.').last().len() == 0 <==> host.len() == 0 || host.last() == '.',
    decreases host.len(),
{
    let parts = text::split_on(host, '.');
    if host.len() > 0 {
        let n = host.len() - 1;
        let shorter = host.drop_last();
        let before = text::split_on(shorter, '.');
        lemma_labels_so_far(shorter);
        assert forall|i: int| 0 <= i < n implies shorter[i] == host[i] by {}
        assert(host[n] == host.last());
        if chars_so_far(host) {
            assert forall|i: int| 0 <= i < shorter.len() implies #[trigger] shorter[i] == '.'
                || is_domain_char(shorter[i]) by {
                assert(host[i] == '.' || is_domain_char(host[i]));
            }
            assert forall|i: int| 0 < i < shorter.len() && shorter[i - 1] == '.' implies
                #[trigger] shorter[i] != '.' by {
                assert(host[i] != '.');
            }
            assert(chars_so_far(shorter));
        }
        if host.last() == '.' {
            assert(parts =~= before.push(Seq::<char>::empty()));
            if labels_so_far(parts) {
                assert(is_domain_label(parts[before.len() - 1]));
                assert(before.last() == parts[before.len() - 1]);
                assert forall|i: int| 0 <= i < before.last().len() implies is_domain_char(
                    #[trigger] before.last()[i],
                ) by {}
                assert forall|i: int| 0 <= i < before.len() - 1 implies is_domain_label(
                    #[trigger] before[i],
                ) by {
                    assert(parts[i] == before[i]);
                }
                assert(labels_so_far(before));
                assert(shorter.len() > 0 && shorter.last() != '.');
                assert(chars_so_far(host));
            }
            if chars_so_far(host) {
                assert(shorter.len() > 0);
                assert(shorter.last() == host[n - 1]);
                assert(shorter.last() != '.');
                assert forall|i: int| 0 <= i < parts.len() - 1 implies is_domain_label(
                    #[trigger] parts[i],
                ) by {
                    assert(parts[i] == before[i]);
                    if i == before.len() - 1 {
                        assert forall|k: int| 0 <= k < before.last().len() implies
                            text::is_ascii_letter_or_digit(#[trigger] before.last()[k])
                            || before.last()[k] == '-' by {
                            assert(is_domain_char(before.last()[k]));
                        }
                    }
                }
                assert(labels_so_far(parts));
            }
        } else {
            let word = before.last();
            assert(parts =~= before.drop_last().push(word.push(host.last())));
            if labels_so_far(parts) {
                assert forall|i: int| 0 <= i < word.len() implies is_domain_char(
                    #[trigger] before.last()[i],
                ) by {
                    assert(parts.last()[i] == word[i]);
                }
                assert forall|i: int| 0 <= i < before.len() - 1 implies is_domain_label(
                    #[trigger] before[i],
                ) by {
                    assert(parts[i] == before[i]);
                }
                assert(labels_so_far(before));
                assert(parts.last()[word.len() as int] == host.last());
                assert(is_domain_char(host.last()));
                assert(chars_so_far(host));
            }
            if chars_so_far(host) {
                assert(is_domain_char(host[n]));
                assert forall|i: int| 0 <= i < parts.last().len() implies is_domain_char(
                    #[trigger] parts.last()[i],
                ) by {
                    if i < word.len() {
                        assert(is_domain_char(before.last()[i]));
                    }
                }
                assert forall|i: int| 0 <= i < parts.len() - 1 implies is_domain_label(
                    #[trigger] parts[i],
                ) by {
                    assert(parts[i] == before[i]);
                }
            }
        }
    } else {
        assert(parts.last() =~= Seq::<char>::empty());
    }
}

/// Law: a domain name is 1 to 253 letters, digits, hyphens and dots, with no dot at either
/// end and no two dots side by side.
pub proof fn law_domain_names(host: Seq<char>)
    ensures
        is_domain_name(host) <==> {
            &&& 1 <= host.len() <= 253
            &&& forall|i: int|
                0 <= i < host.len() ==> #[trigger] host[i] == '.' || is_domain_char(host[i])
            &&& host[0] != '.'
            &&& host.last() != '.'
            &&& forall|i: int|
                0 < i < host.len() && host[i - 1] == '.' ==> #[trigger] host[i] != '.'
        },
{
    let parts = text::split_on(host, '.');
    lemma_labels_so_far(host);
    if is_domain_name(host) {
        assert(is_domain_label(parts[parts.len() - 1]));
        assert forall|i: int| 0 <= i < parts.last().len() implies is_domain_char(
            #[trigger] parts.last()[i],
        ) by {}
        assert(labels_so_far(parts));
    }
    if 1 <= host.len() <= 253 && chars_so_far(host) && host.last() != '.' {
        assert forall|i: int| 0 <= i < parts.len() implies is_domain_label(#[trigger] parts[i]) by {
            if i == parts.len() - 1 {
                assert forall|k: int| 0 <= k < parts[i].len() implies
                    text::is_ascii_letter_or_digit(#[trigger] parts[i][k]) || parts[i][k]
                    == '-' by {
                    assert(is_domain_char(parts.last()[k]));
                }
            }
        }
    }
}

} // verus!
