//! The Minecraft proxies that are running: how one is started, found and stopped,
//! and which clients it serves.
use vstd::prelude::*;
use vstd::string::*;

use crate::proxy_info::MinecraftProxyInfo;
use crate::proxy_info::ProxyInfoView;
use crate::proxy_target;
use crate::proxy_target::AddressLiteral;
use crate::proxy_target::IpAddress;
use crate::proxy_target::ProxyTarget;
use crate::proxy_target::TargetAddress;
use crate::proxy_target::TargetPlan;
use crate::proxy_target::TargetPlanView;
use crate::proxy_target::TargetView;
use crate::text;
use crate::urls;
use crate::urls::ParsedUrl;
use crate::urls::UrlParts;

verus! {

/// What stands before the identifier in the path of a proxy.
pub const MINECRAFT_PROXY_PATH_PREFIX: &'static str = "/minecraft/";

// ---------------------------------------------------------------------------
// Identifiers and paths
// ---------------------------------------------------------------------------
/// A hexadecimal digit in lower case.
pub open spec fn is_hex_digit(c: char) -> bool {
    '0' <= c <= '9' || 'a' <= c <= 'f'
}

/// A position at which a UUID in text has a hyphen.
pub open spec fn is_hyphen_position(i: int) -> bool {
    i == 8 || i == 13 || i == 18 || i == 23
}

/// A random UUID in text: hexadecimal digits in lower case in groups of eight, four,
/// four, four and twelve, with hyphens between them; the third group begins with the
/// version `4`, the fourth with the variant, `8`, `9`, `a` or `b`.
pub open spec fn is_random_uuid(id: Seq<char>) -> bool {
    &&& id.len() == 36
    &&& forall|i: int|
        0 <= i < 36 ==> if is_hyphen_position(i) {
            #[trigger] id[i] == '-'
        } else {
            is_hex_digit(id[i])
        }
    &&& id[14] == '4'
    &&& id[19] == '8' || id[19] == '9' || id[19] == 'a' || id[19] == 'b'
}

/// `uuid::Uuid::new_v4` and its text by `to_string`: a random UUID. It panics where
/// the system gives no random numbers, which no argument decides.
#[verifier::external_body]
fn new_proxy_id() -> (r: String)
    ensures
        is_random_uuid(r@),
{
    uuid::Uuid::new_v4().to_string()
}

/// `id` is an identifier that was drawn at random.
pub closed spec fn drawn(id: String) -> bool {
    call_ensures(new_proxy_id, (), id)
}

/// The path under which the client of a proxy connects.
pub open spec fn path_of(proxy_id: Seq<char>) -> Seq<char> {
    MINECRAFT_PROXY_PATH_PREFIX@ + proxy_id
}

/// The address under which the client of a proxy connects.
pub open spec fn ws_url_of(local_port: u16, proxy_id: Seq<char>) -> Seq<char> {
    "ws://127.0.0.1:"@ + text::decimal(local_port as nat) + path_of(proxy_id)
}

/// The path under which the client of a proxy connects.
pub fn proxy_path(proxy_id: &str) -> (r: String)
    ensures
        r@ == path_of(proxy_id@),
{
    text::concat2(MINECRAFT_PROXY_PATH_PREFIX, proxy_id)
}

/// The address under which the client of a proxy connects.
pub fn proxy_ws_url(local_port: u16, proxy_id: &str) -> (r: String)
    ensures
        r@ == ws_url_of(local_port, proxy_id@),
{
    let port: String = text::decimal_of(local_port as u64);
    let path: String = proxy_path(proxy_id);
    text::concat3("ws://127.0.0.1:", port.as_str(), path.as_str())
}

/// Law: proxies with different identifiers have different paths and addresses, even
/// on the same port.
pub proof fn law_paths_are_distinct(port: u16, id1: Seq<char>, id2: Seq<char>)
    requires
        id1 != id2,
    ensures
        path_of(id1) != path_of(id2),
        ws_url_of(port, id1) != ws_url_of(port, id2),
{
    let prefix = MINECRAFT_PROXY_PATH_PREFIX@;
    if path_of(id1) == path_of(id2) {
        assert(id1 =~= path_of(id1).skip(prefix.len() as int));
        assert(id2 =~= path_of(id2).skip(prefix.len() as int));
    }
    let start = "ws://127.0.0.1:"@ + text::decimal(port as nat);
    if ws_url_of(port, id1) == ws_url_of(port, id2) {
        assert(path_of(id1) =~= ws_url_of(port, id1).skip(start.len() as int));
        assert(path_of(id2) =~= ws_url_of(port, id2).skip(start.len() as int));
    }
}

/// Law: the address of a proxy is that of a WebSocket of this machine, at the port of its
/// listener, with the path of the proxy; the path ends in its identifier.
pub proof fn law_address_of_a_proxy(local_port: u16, proxy_id: Seq<char>)
    ensures
        path_of(proxy_id) == "/minecraft/"@ + proxy_id,
        ws_url_of(local_port, proxy_id) == "ws://127.0.0.1:"@ + text::decimal(local_port as nat)
            + ("/minecraft/"@ + proxy_id),
{
}

/// Law: listeners at different ports have different addresses.
pub proof fn law_ports_tell_addresses_apart(port1: u16, port2: u16, proxy_id: Seq<char>)
    requires
        port1 != port2,
    ensures
        ws_url_of(port1, proxy_id) != ws_url_of(port2, proxy_id),
{
    let start = "ws://127.0.0.1:"@;
    let a = text::decimal(port1 as nat);
    let b = text::decimal(port2 as nat);
    text::lemma_decimal_value(port1 as nat);
    text::lemma_decimal_value(port2 as nat);
    if ws_url_of(port1, proxy_id) == ws_url_of(port2, proxy_id) {
        let url = ws_url_of(port1, proxy_id);
        assert(url.len() == start.len() + a.len() + path_of(proxy_id).len());
        assert(url.len() == start.len() + b.len() + path_of(proxy_id).len());
        assert(a =~= url.subrange(start.len() as int, (start.len() + a.len()) as int));
        assert(b =~= ws_url_of(port2, proxy_id).subrange(
            start.len() as int,
            (start.len() + b.len()) as int,
        ));
    }
}

// ---------------------------------------------------------------------------
// Handshake
// ---------------------------------------------------------------------------
/// What is wrong with the handshake of a client that asks for `path`, if anything is.
/// `origin` is where it comes from, if it says so, as far as that is an address.
pub open spec fn handshake_fault(
    path: Seq<char>,
    origin: Option<Option<UrlParts>>,
    expected_path: Seq<char>,
) -> Option<Seq<char>> {
    if path != expected_path {
        Some("Invalid Minecraft proxy path."@)
    } else {
        match origin {
            None => Some("Minecraft proxy origin is missing."@),
            Some(from) => if from matches Some(url) && urls::is_proxy_origin(url) {
                None
            } else {
                Some("Minecraft proxy origin is not allowed."@)
            },
        }
    }
}

/// Where a client comes from, read as an address.
pub open spec fn origin_view(origin: Option<Option<ParsedUrl>>) -> Option<Option<UrlParts>> {
    match origin {
        Some(url) => Some(urls::optional_parts(url)),
        None => None,
    }
}

/// Where a client says it comes from, read as an address.
pub open spec fn parsed_origin(origin: Option<&str>) -> Option<Option<UrlParts>> {
    match origin {
        Some(from) => Some(urls::url_parse(from@)),
        None => None,
    }
}

/// Checks the handshake of a client, `origin` being where it comes from, read as an
/// address.
pub fn check_handshake(
    path: &str,
    origin: &Option<Option<ParsedUrl>>,
    expected_path: &str,
) -> (r: Result<(), String>)
    ensures
        match r {
            Ok(_) => handshake_fault(path@, origin_view(*origin), expected_path@) is None,
            Err(error) => handshake_fault(path@, origin_view(*origin), expected_path@) == Some(
                error@,
            ),
        },
{
    if !text::same_text(path, expected_path) {
        return Err("Invalid Minecraft proxy path.".to_owned());
    }
    match origin {
        None => Err("Minecraft proxy origin is missing.".to_owned()),
        Some(url) => if urls::is_allowed_origin_url(url) {
            Ok(())
        } else {
            Err("Minecraft proxy origin is not allowed.".to_owned())
        },
    }
}

/// Checks the handshake of a client: it asks for the path of the proxy, and it comes
/// from a page that may use the proxy.
pub fn validate_minecraft_proxy_handshake(
    path: &str,
    origin: Option<&str>,
    expected_path: &str,
) -> (r: Result<(), String>)
    ensures
        match r {
            Ok(_) => handshake_fault(path@, parsed_origin(origin), expected_path@) is None,
            Err(error) => handshake_fault(path@, parsed_origin(origin), expected_path@) == Some(
                error@,
            ),
        },
{
    let url: Option<Option<ParsedUrl>> = match origin {
        Some(from) => Some(urls::parse_url(from)),
        None => None,
    };
    check_handshake(path, &url, expected_path)
}

/// Law: a client is let in exactly if it asks for the path of the proxy and says that
/// it comes from a page that may use the proxy.
pub proof fn law_handshake_needs_path_and_origin(
    path: Seq<char>,
    origin: Option<Option<UrlParts>>,
    expected_path: Seq<char>,
)
    ensures
        handshake_fault(path, origin, expected_path) is None <==> {
            &&& path == expected_path
            &&& origin matches Some(Some(url)) && urls::is_proxy_origin(url)
        },
{
}

/// Law: what a client is told that is not let in: first that it asks for another path, then
/// that it does not say where it comes from, then that it may not come from there.
pub proof fn law_refused_handshakes_are_told(
    path: Seq<char>,
    origin: Option<Option<UrlParts>>,
    expected_path: Seq<char>,
)
    ensures
        path != expected_path ==> handshake_fault(path, origin, expected_path) == Some(
            "Invalid Minecraft proxy path."@,
        ),
        path == expected_path && origin is None ==> handshake_fault(path, origin, expected_path)
            == Some("Minecraft proxy origin is missing."@),
        path == expected_path && origin is Some && !(origin matches Some(Some(url))
            && urls::is_proxy_origin(url)) ==> handshake_fault(path, origin, expected_path) == Some(
            "Minecraft proxy origin is not allowed."@,
        ),
{
}

// ---------------------------------------------------------------------------
// The proxies that are running
// ---------------------------------------------------------------------------
/// A running proxy, with what ties it to the task that serves it.
pub struct MinecraftProxyHandle<L> {
    pub proxy_id: String,
    pub host: String,
    pub port: u16,
    pub ws_url: String,
    pub link: L,
}

/// What is reported of a running proxy.
pub open spec fn handle_info<L>(
    handle: MinecraftProxyHandle<L>,
    connected: bool,
) -> ProxyInfoView {
    ProxyInfoView {
        proxy_id: handle.proxy_id@,
        host: handle.host@,
        port: handle.port,
        ws_url: handle.ws_url@,
        connected,
    }
}

impl<L> MinecraftProxyHandle<L> {
    /// What is reported of the proxy, `connected` being whether it has a client.
    pub fn info(&self, connected: bool) -> (r: MinecraftProxyInfo)
        ensures
            r@ == handle_info(*self, connected),
    {
        MinecraftProxyInfo {
            proxy_id: self.proxy_id.clone(),
            host: self.host.clone(),
            port: self.port,
            ws_url: self.ws_url.clone(),
            connected,
        }
    }
}

/// What the page gets for a proxy that it started.
pub struct MinecraftProxyStartPayload {
    pub proxy_id: String,
    pub ws_url: String,
}

/// What the page gets when it asks for the proxies.
pub struct MinecraftProxyStatusPayload {
    pub running: bool,
    pub proxies: Vec<MinecraftProxyInfo>,
}

/// What the page is told of an error of a proxy.
pub struct MinecraftProxyErrorPayload {
    pub proxy_id: String,
    pub error: String,
}

/// The proxy with the given identifier.
pub open spec fn registered<L>(
    handles: Seq<MinecraftProxyHandle<L>>,
    proxy_id: Seq<char>,
) -> Option<MinecraftProxyHandle<L>>
    decreases handles.len(),
{
    if handles.len() == 0 {
        None
    } else if handles.last().proxy_id@ == proxy_id {
        Some(handles.last())
    } else {
        registered(handles.drop_last(), proxy_id)
    }
}

/// All proxies but the one with the given identifier, in the same order.
pub open spec fn without<L>(
    handles: Seq<MinecraftProxyHandle<L>>,
    proxy_id: Seq<char>,
) -> Seq<MinecraftProxyHandle<L>>
    decreases handles.len(),
{
    if handles.len() == 0 {
        handles
    } else if handles.last().proxy_id@ == proxy_id {
        without(handles.drop_last(), proxy_id)
    } else {
        without(handles.drop_last(), proxy_id).push(handles.last())
    }
}

/// No two proxies have the same identifier.
pub open spec fn distinct_ids<L>(handles: Seq<MinecraftProxyHandle<L>>) -> bool {
    forall|i: int, j: int|
        0 <= i < j < handles.len() ==> (#[trigger] handles[i]).proxy_id@ != (
        #[trigger] handles[j]).proxy_id@
}

/// The proxies that are running, in the order in which they were started.
pub struct ProxyRegistry<L> {
    handles: Vec<MinecraftProxyHandle<L>>,
}

impl<L> ProxyRegistry<L> {
    /// The proxies, in the order in which they were started.
    pub closed spec fn handles(&self) -> Seq<MinecraftProxyHandle<L>> {
        self.handles@
    }

    /// No two proxies have the same identifier.
    pub open spec fn wf(&self) -> bool {
        distinct_ids(self.handles())
    }

    /// No proxies.
    pub fn new() -> (r: ProxyRegistry<L>)
        ensures
            r.wf(),
            r.handles() == Seq::<MinecraftProxyHandle<L>>::empty(),
    {
        ProxyRegistry { handles: Vec::new() }
    }

    /// The proxies, in the order in which they were started.
    pub fn list(&self) -> (r: &Vec<MinecraftProxyHandle<L>>)
        ensures
            r@ == self.handles(),
    {
        &self.handles
    }

    /// Adds a proxy, in place of one with the same identifier.
    pub fn insert(&mut self, proxy: MinecraftProxyHandle<L>)
        requires
            old(self).wf(),
        ensures
            final(self).wf(),
            final(self).handles() == without(old(self).handles(), proxy.proxy_id@).push(proxy),
    {
        let _ = self.remove(proxy.proxy_id.as_str());
        proof {
            lemma_without_keeps_distinct(old(self).handles(), proxy.proxy_id@);
        }
        self.handles.push(proxy);
    }

    /// Takes out the proxy with the given identifier, if there is one.
    pub fn remove(&mut self, proxy_id: &str) -> (r: Option<
        MinecraftProxyHandle<L>,
    >)
        requires
            old(self).wf(),
        ensures
            final(self).wf(),
            final(self).handles() == without(old(self).handles(), proxy_id@),
            r == registered(old(self).handles(), proxy_id@),
    {
        let ghost all = self.handles@;
        proof {
            lemma_without_keeps_distinct(all, proxy_id@);
        }
        let mut i: usize = 0;
        while i < self.handles.len()
            invariant
                i <= self.handles.len(),
                self.handles@ == all,
                all == old(self).handles(),
                distinct_ids(all),
                distinct_ids(without(all, proxy_id@)),
                forall|k: int| 0 <= k < i ==> (#[trigger] all[k]).proxy_id@ != proxy_id@,
            decreases self.handles.len() - i,
        {
            if text::same_text(self.handles[i].proxy_id.as_str(), proxy_id) {
                proof {
                    lemma_registered_at(all, proxy_id@, i as int);
                    lemma_without_at(all, proxy_id@, i as int);
                }
                return Some(self.handles.remove(i));
            }
            i += 1;
        }
        proof {
            lemma_not_registered(all, proxy_id@);
        }
        None
    }

    /// What the page gets when it asks for the proxies; `connected` tells of each of
    /// them whether it has a client.
    pub fn status(&self, connected: &Vec<bool>) -> (r: MinecraftProxyStatusPayload)
        requires
            connected@.len() == self.handles().len(),
        ensures
            r.running == (self.handles().len() > 0),
            r.proxies@.len() == self.handles().len(),
            forall|i: int|
                0 <= i < self.handles().len() ==> (#[trigger] r.proxies@[i])@ == handle_info(
                    self.handles()[i],
                    connected@[i],
                ),
    {
        let mut proxies: Vec<MinecraftProxyInfo> = Vec::new();
        let mut i: usize = 0;
        while i < self.handles.len()
            invariant
                i <= self.handles.len(),
                connected@.len() == self.handles@.len(),
                proxies@.len() == i,
                forall|k: int|
                    0 <= k < i ==> (#[trigger] proxies@[k])@ == handle_info(
                        self.handles@[k],
                        connected@[k],
                    ),
            decreases self.handles.len() - i,
        {
            proxies.push(self.handles[i].info(connected[i]));
            i += 1;
        }
        MinecraftProxyStatusPayload { running: proxies.len() > 0, proxies }
    }

    /// Takes out all proxies.
    pub fn take_all(&mut self) -> (r: Vec<MinecraftProxyHandle<L>>)
        requires
            old(self).wf(),
        ensures
            final(self).wf(),
            final(self).handles() == Seq::<MinecraftProxyHandle<L>>::empty(),
            r@ == old(self).handles(),
            distinct_ids(r@),
    {
        let mut taken: Vec<MinecraftProxyHandle<L>> = Vec::new();
        std::mem::swap(&mut taken, &mut self.handles);
        taken
    }

    /// Adds a proxy under the given identifier. The result is what the page gets for
    /// it, and what is reported of it.
    pub fn register(
        &mut self,
        proxy_id: String,
        host: String,
        port: u16,
        local_port: u16,
        link: L,
    ) -> (r: (MinecraftProxyStartPayload, MinecraftProxyInfo))
        requires
            old(self).wf(),
        ensures
            final(self).wf(),
            final(self).handles().len() > 0,
            final(self).handles().drop_last() == without(old(self).handles(), proxy_id@),
            ({
                let handle = final(self).handles().last();
                &&& handle.proxy_id@ == proxy_id@
                &&& handle.host@ == host@
                &&& handle.port == port
                &&& handle.ws_url@ == ws_url_of(local_port, proxy_id@)
                &&& handle.link == link
                &&& r.1@ == handle_info(handle, false)
            }),
            r.0.proxy_id@ == proxy_id@,
            r.0.ws_url@ == ws_url_of(local_port, proxy_id@),
    {
        let ws_url: String = proxy_ws_url(local_port, proxy_id.as_str());
        let handle = MinecraftProxyHandle {
            proxy_id: proxy_id.clone(),
            host,
            port,
            ws_url: ws_url.clone(),
            link,
        };
        let info: MinecraftProxyInfo = handle.info(false);
        self.insert(handle);
        assert(self.handles().drop_last() =~= without(old(self).handles(), proxy_id@));
        (MinecraftProxyStartPayload { proxy_id, ws_url }, info)
    }

    /// Adds a proxy under an identifier drawn at random. The result is what the page gets for it,
    /// and what is reported of it.
    pub fn start_proxy(&mut self, host: String, port: u16, local_port: u16, link: L) -> (r: (
        MinecraftProxyStartPayload,
        MinecraftProxyInfo,
    ))
        requires
            old(self).wf(),
        ensures
            final(self).wf(),
            exists|id: String| #[trigger] drawn(id) && id@ == r.0.proxy_id@,
            is_random_uuid(r.0.proxy_id@),
            final(self).handles().len() > 0,
            final(self).handles().drop_last() == without(old(self).handles(), r.0.proxy_id@),
            ({
                let handle = final(self).handles().last();
                &&& handle.proxy_id@ == r.0.proxy_id@
                &&& handle.host@ == host@
                &&& handle.port == port
                &&& handle.ws_url@ == ws_url_of(local_port, r.0.proxy_id@)
                &&& handle.link == link
                &&& r.1@ == handle_info(handle, false)
            }),
            r.0.ws_url@ == ws_url_of(local_port, r.0.proxy_id@),
    {
        let proxy_id: String = new_proxy_id();
        assert(drawn(proxy_id));
        self.register(proxy_id, host, port, local_port, link)
    }

    /// Takes out the proxy that the page wants to stop, if it is running.
    pub fn stop(&mut self, proxy_id: &str) -> (r: Result<Option<MinecraftProxyHandle<L>>, String>)
        requires
            old(self).wf(),
        ensures
            final(self).wf(),
            match r {
                Ok(handle) => {
                    &&& !text::is_blank(proxy_id@)
                    &&& handle == registered(old(self).handles(), text::trimmed(proxy_id@))
                    &&& final(self).handles() == without(
                        old(self).handles(),
                        text::trimmed(proxy_id@),
                    )
                },
                Err(error) => {
                    &&& text::is_blank(proxy_id@)
                    &&& error@ == "Minecraft proxy id is empty."@
                    &&& final(self).handles() == old(self).handles()
                },
            },
    {
        let id: &str = text::trim(proxy_id);
        if text::chars_of(id).len() == 0 {
            return Err("Minecraft proxy id is empty.".to_owned());
        }
        Ok(self.remove(id))
    }
}

proof fn lemma_registered_at<L>(
    handles: Seq<MinecraftProxyHandle<L>>,
    proxy_id: Seq<char>,
    i: int,
)
    requires
        distinct_ids(handles),
        0 <= i < handles.len(),
        handles[i].proxy_id@ == proxy_id,
    ensures
        registered(handles, proxy_id) == Some(handles[i]),
    decreases handles.len(),
{
    if i < handles.len() - 1 {
        let before = handles.drop_last();
        assert(handles[handles.len() - 1].proxy_id@ != proxy_id);
        assert forall|k: int, m: int| 0 <= k < m < before.len() implies (
        #[trigger] before[k]).proxy_id@ != (#[trigger] before[m]).proxy_id@ by {
            assert(before[k] == handles[k] && before[m] == handles[m]);
        }
        lemma_registered_at(before, proxy_id, i);
    }
}

proof fn lemma_not_registered<L>(handles: Seq<MinecraftProxyHandle<L>>, proxy_id: Seq<char>)
    requires
        forall|k: int| 0 <= k < handles.len() ==> (#[trigger] handles[k]).proxy_id@ != proxy_id,
    ensures
        registered(handles, proxy_id) is None,
        without(handles, proxy_id) == handles,
    decreases handles.len(),
{
    if handles.len() > 0 {
        let before = handles.drop_last();
        assert forall|k: int| 0 <= k < before.len() implies (#[trigger] before[k]).proxy_id@
            != proxy_id by {
            assert(before[k] == handles[k]);
        }
        assert(handles[handles.len() - 1].proxy_id@ != proxy_id);
        lemma_not_registered(before, proxy_id);
        assert(before.push(handles.last()) =~= handles);
    }
}

proof fn lemma_without_at<L>(handles: Seq<MinecraftProxyHandle<L>>, proxy_id: Seq<char>, i: int)
    requires
        distinct_ids(handles),
        0 <= i < handles.len(),
        handles[i].proxy_id@ == proxy_id,
    ensures
        without(handles, proxy_id) == handles.remove(i),
    decreases handles.len(),
{
    let before = handles.drop_last();
    assert forall|k: int, m: int| 0 <= k < m < before.len() implies (
    #[trigger] before[k]).proxy_id@ != (#[trigger] before[m]).proxy_id@ by {
        assert(before[k] == handles[k] && before[m] == handles[m]);
    }
    if i == handles.len() - 1 {
        assert forall|k: int| 0 <= k < before.len() implies (#[trigger] before[k]).proxy_id@
            != proxy_id by {
            assert(before[k] == handles[k]);
            assert(handles[k].proxy_id@ != handles[i].proxy_id@);
        }
        lemma_not_registered(before, proxy_id);
        assert(handles.remove(i) =~= before);
    } else {
        assert(handles[handles.len() - 1].proxy_id@ != proxy_id);
        lemma_without_at(before, proxy_id, i);
        assert(before.remove(i).push(handles.last()) =~= handles.remove(i));
    }
}

proof fn lemma_without_keeps_distinct<L>(
    handles: Seq<MinecraftProxyHandle<L>>,
    proxy_id: Seq<char>,
)
    requires
        distinct_ids(handles),
    ensures
        distinct_ids(without(handles, proxy_id)),
        forall|k: int|
            0 <= k < without(handles, proxy_id).len() ==> (#[trigger] without(
                handles,
                proxy_id,
            )[k]).proxy_id@ != proxy_id && handles.contains(without(handles, proxy_id)[k]),
    decreases handles.len(),
{
    if handles.len() > 0 {
        let before = handles.drop_last();
        let rest = without(before, proxy_id);
        let last = handles.last();
        assert forall|k: int, m: int| 0 <= k < m < before.len() implies (
        #[trigger] before[k]).proxy_id@ != (#[trigger] before[m]).proxy_id@ by {
            assert(before[k] == handles[k] && before[m] == handles[m]);
        }
        lemma_without_keeps_distinct(before, proxy_id);
        assert forall|k: int| 0 <= k < rest.len() implies handles.contains(#[trigger] rest[k])
            && rest[k].proxy_id@ != last.proxy_id@ by {
            let m = choose|m: int| 0 <= m < before.len() && before[m] == rest[k];
            assert(before.contains(rest[k]));
            assert(handles[m] == rest[k]);
            assert(handles[m].proxy_id@ != handles[handles.len() - 1].proxy_id@);
        }
        assert(handles.contains(last)) by {
            assert(handles[handles.len() - 1] == last);
        }
        if last.proxy_id@ != proxy_id {
            let all = rest.push(last);
            assert(without(handles, proxy_id) == all);
            assert forall|k: int| 0 <= k < all.len() implies (#[trigger] all[k]).proxy_id@
                != proxy_id && handles.contains(all[k]) by {
                if k < rest.len() {
                    assert(all[k] == rest[k]);
                }
            }
            assert forall|k: int, m: int| 0 <= k < m < all.len() implies (
            #[trigger] all[k]).proxy_id@ != (#[trigger] all[m]).proxy_id@ by {
                assert(all[k] == rest[k]);
                if m < rest.len() {
                    assert(all[m] == rest[m]);
                }
            }
        }
    }
}

/// Law: a proxy that was taken out is not found any more, and every other proxy is
/// found as before.
pub proof fn law_taking_out_one_proxy<L>(
    handles: Seq<MinecraftProxyHandle<L>>,
    proxy_id: Seq<char>,
    other: Seq<char>,
)
    ensures
        registered(without(handles, proxy_id), proxy_id) is None,
        other != proxy_id ==> registered(without(handles, proxy_id), other) == registered(
            handles,
            other,
        ),
    decreases handles.len(),
{
    if handles.len() > 0 {
        law_taking_out_one_proxy(handles.drop_last(), proxy_id, other);
        let rest = without(handles.drop_last(), proxy_id);
        assert(rest.push(handles.last()).drop_last() =~= rest);
    }
}

/// Law: a proxy that was added is found under its identifier, and every other proxy
/// is found as before.
pub proof fn law_adding_one_proxy<L>(
    handles: Seq<MinecraftProxyHandle<L>>,
    proxy: MinecraftProxyHandle<L>,
    other: Seq<char>,
)
    ensures
        registered(without(handles, proxy.proxy_id@).push(proxy), proxy.proxy_id@) == Some(proxy),
        other != proxy.proxy_id@ ==> registered(
            without(handles, proxy.proxy_id@).push(proxy),
            other,
        ) == registered(handles, other),
{
    let rest = without(handles, proxy.proxy_id@);
    assert(rest.push(proxy).drop_last() =~= rest);
    law_taking_out_one_proxy(handles, proxy.proxy_id@, other);
}

/// Law: stopping a proxy again changes nothing.
pub proof fn law_stopping_twice<L>(handles: Seq<MinecraftProxyHandle<L>>, proxy_id: Seq<char>)
    ensures
        without(without(handles, proxy_id), proxy_id) == without(handles, proxy_id),
        registered(without(handles, proxy_id), proxy_id) is None,
    decreases handles.len(),
{
    if handles.len() > 0 {
        law_stopping_twice(handles.drop_last(), proxy_id);
        let rest = without(handles.drop_last(), proxy_id);
        assert(rest.push(handles.last()).drop_last() =~= rest);
    }
}

/// Law: taking out a proxy leaves all the others, in the same order, and no proxy with its
/// identifier.
pub proof fn law_all_other_proxies_stay<L>(
    handles: Seq<MinecraftProxyHandle<L>>,
    proxy_id: Seq<char>,
)
    ensures
        without(handles, proxy_id) == handles.filter(
            |handle: MinecraftProxyHandle<L>| handle.proxy_id@ != proxy_id,
        ),
    decreases handles.len(),
{
    reveal(Seq::filter);
    if handles.len() > 0 {
        law_all_other_proxies_stay(handles.drop_last(), proxy_id);
    } else {
        assert(handles =~= Seq::empty());
    }
}

/// Law: every running proxy is found under its identifier, and nothing is found under an
/// identifier that no proxy has.
pub proof fn law_running_proxies_are_found<L>(
    handles: Seq<MinecraftProxyHandle<L>>,
    proxy_id: Seq<char>,
)
    requires
        distinct_ids(handles),
    ensures
        forall|i: int|
            0 <= i < handles.len() ==> registered(handles, (#[trigger] handles[i]).proxy_id@)
                == Some(handles[i]),
        (forall|i: int| 0 <= i < handles.len() ==> (#[trigger] handles[i]).proxy_id@ != proxy_id)
            ==> registered(handles, proxy_id) is None,
{
    assert forall|i: int| 0 <= i < handles.len() implies registered(
        handles,
        (#[trigger] handles[i]).proxy_id@,
    ) == Some(handles[i]) by {
        lemma_registered_at(handles, handles[i].proxy_id@, i);
    }
    if forall|i: int| 0 <= i < handles.len() ==> (#[trigger] handles[i]).proxy_id@ != proxy_id {
        lemma_not_registered(handles, proxy_id);
    }
}

/// Law: what is reported of a proxy is the proxy: its identifier, its host, its port, its
/// address and whether it has a client.
pub proof fn law_reports_tell_of_the_proxy<L>(handle: MinecraftProxyHandle<L>, connected: bool)
    ensures
        handle_info(handle, connected).proxy_id == handle.proxy_id@,
        handle_info(handle, connected).host == handle.host@,
        handle_info(handle, connected).port == handle.port,
        handle_info(handle, connected).ws_url == handle.ws_url@,
        handle_info(handle, connected).connected == connected,
{
}

/// Law: the identifier of a started proxy is not blank and has no white space around
/// it, so that the page can stop the proxy by it.
pub proof fn law_started_proxies_can_be_stopped(proxy_id: Seq<char>)
    requires
        is_random_uuid(proxy_id),
    ensures
        text::trimmed(proxy_id) == proxy_id,
        !text::is_blank(proxy_id),
{
    assert(is_hex_digit(proxy_id[0]));
    assert(is_hex_digit(proxy_id[35]));
    assert(!text::is_white_space(proxy_id[0]));
    assert(!text::is_white_space(proxy_id.last()));
}

// ---------------------------------------------------------------------------
// Starting a proxy
// ---------------------------------------------------------------------------
/// A proxy that is being started.
pub enum ProxyStart {
    /// The addresses of the host are being looked up.
    LookingUp { host: String },
    /// The listener is being bound.
    Binding { target: ProxyTarget, port: u16 },
    /// The port of the listener is being read.
    ReadingPort { target: ProxyTarget, port: u16 },
    /// Nothing more.
    Done,
}

/// The contents of a [`ProxyStart`].
pub enum StartView {
    LookingUp { host: Seq<char> },
    Binding { target: TargetView, port: u16 },
    ReadingPort { target: TargetView, port: u16 },
    Done,
}

impl View for ProxyStart {
    type V = StartView;

    open spec fn view(&self) -> StartView {
        match self {
            ProxyStart::LookingUp { host } => StartView::LookingUp { host: host@ },
            ProxyStart::Binding { target, port } => StartView::Binding {
                target: target@,
                port: *port,
            },
            ProxyStart::ReadingPort { target, port } => StartView::ReadingPort {
                target: target@,
                port: *port,
            },
            ProxyStart::Done => StartView::Done,
        }
    }
}

/// What happened.
pub enum StartEvent {
    /// The lookup is over.
    LookedUp(Result<Vec<TargetAddress>, String>),
    Bound,
    BindFailed(String),
    /// The listener listens on this port.
    LocalPort(u16),
    LocalPortFailed(String),
}

/// What to do next.
pub enum StartAction {
    /// Look up the addresses of a host.
    LookUp { host: String, port: u16 },
    /// Bind a listener on this machine, at any port.
    Bind,
    /// Read the port of the listener.
    ReadLocalPort,
    /// Add the proxy and serve it: from the port of the listener to the target.
    Register { target: ProxyTarget, port: u16, local_port: u16 },
    /// The proxy cannot be started, for this reason.
    Fail(String),
    /// The event answers nothing that was asked for.
    Ignore,
}

/// The contents of a [`StartAction`].
pub enum StartActionView {
    LookUp { host: Seq<char>, port: u16 },
    Bind,
    ReadLocalPort,
    Register { target: TargetView, port: u16, local_port: u16 },
    Fail(Seq<char>),
    Ignore,
}

impl View for StartAction {
    type V = StartActionView;

    open spec fn view(&self) -> StartActionView {
        match self {
            StartAction::LookUp { host, port } => StartActionView::LookUp {
                host: host@,
                port: *port,
            },
            StartAction::Bind => StartActionView::Bind,
            StartAction::ReadLocalPort => StartActionView::ReadLocalPort,
            StartAction::Register { target, port, local_port } => StartActionView::Register {
                target: target@,
                port: *port,
                local_port: *local_port,
            },
            StartAction::Fail(error) => StartActionView::Fail(error@),
            StartAction::Ignore => StartActionView::Ignore,
        }
    }
}

/// The end of a start with an error.
pub open spec fn start_failed(error: Seq<char>) -> (StartView, StartActionView) {
    (StartView::Done, StartActionView::Fail(error))
}

/// With a checked target, the listener is next.
pub open spec fn with_target(target: TargetView) -> (StartView, StartActionView) {
    if target.addresses.len() == 0 {
        start_failed("Minecraft proxy target did not resolve to any address."@)
    } else {
        (StartView::Binding { target, port: target.addresses[0].port }, StartActionView::Bind)
    }
}

/// The first step of a start: the host and the port are checked.
pub open spec fn start_begun(
    host: Seq<char>,
    port: Option<u32>,
    literal: Option<AddressLiteral>,
) -> (StartView, StartActionView) {
    let wanted = match port {
        Some(p) => p,
        None => proxy_target::MINECRAFT_PROXY_DEFAULT_PORT,
    };
    match proxy_target::target_plan(host, wanted, literal) {
        TargetPlanView::Rejected(error) => start_failed(error),
        TargetPlanView::Ready(target) => with_target(target),
        TargetPlanView::Lookup { host: name, port: p } => (
            StartView::LookingUp { host: name },
            StartActionView::LookUp { host: name, port: p },
        ),
    }
}

/// The next state and the next action of a start.
pub open spec fn start_transition(s: StartView, event: StartEvent) -> (StartView, StartActionView) {
    match (s, event) {
        (StartView::LookingUp { host }, StartEvent::LookedUp(lookup)) => {
            match proxy_target::looked_up_target(host, proxy_target::lookup_view(lookup)) {
                Ok(target) => with_target(target),
                Err(error) => start_failed(error),
            }
        },
        (StartView::Binding { target, port }, StartEvent::Bound) => (
            StartView::ReadingPort { target, port },
            StartActionView::ReadLocalPort,
        ),
        (StartView::Binding { .. }, StartEvent::BindFailed(error)) => start_failed(
            "Could not start local Minecraft proxy: "@ + error@,
        ),
        (StartView::ReadingPort { target, port }, StartEvent::LocalPort(local_port)) => (
            StartView::Done,
            StartActionView::Register { target, port, local_port },
        ),
        (StartView::ReadingPort { .. }, StartEvent::LocalPortFailed(error)) => start_failed(
            "Could not read local Minecraft proxy address: "@ + error@,
        ),
        _ => (s, StartActionView::Ignore),
    }
}

fn bind_for(target: ProxyTarget) -> (r: (ProxyStart, StartAction))
    ensures
        (r.0@, r.1@) == with_target(target@),
{
    match proxy_target::target_port(&target) {
        Ok(port) => (ProxyStart::Binding { target, port }, StartAction::Bind),
        Err(error) => (ProxyStart::Done, StartAction::Fail(error)),
    }
}

impl ProxyStart {
    /// Begins to start a proxy to the given host and port, `literal` being the IP
    /// address that the host without white space around it stands for, if it is one.
    pub fn begin(
        host: &str,
        port: Option<u32>,
        literal: Option<AddressLiteral>,
    ) -> (r: (ProxyStart, StartAction))
        ensures
            (r.0@, r.1@) == start_begun(host@, port, literal),
    {
        let wanted: u32 = match port {
            Some(p) => p,
            None => proxy_target::MINECRAFT_PROXY_DEFAULT_PORT,
        };
        match proxy_target::validate_minecraft_proxy_target(host, wanted, literal) {
            TargetPlan::Rejected(error) => (ProxyStart::Done, StartAction::Fail(error)),
            TargetPlan::Ready(target) => bind_for(target),
            TargetPlan::Lookup { host: name, port: p } => {
                let kept: String = name.clone();
                (ProxyStart::LookingUp { host: kept }, StartAction::LookUp { host: name, port: p })
            },
        }
    }

    /// Takes what happened and tells what to do next.
    pub fn step(self, event: StartEvent) -> (r: (ProxyStart, StartAction))
        ensures
            (r.0@, r.1@) == start_transition(self@, event),
    {
        match (self, event) {
            (ProxyStart::LookingUp { host }, StartEvent::LookedUp(lookup)) => {
                match proxy_target::validate_looked_up_target(host, lookup) {
                    Ok(target) => bind_for(target),
                    Err(error) => (ProxyStart::Done, StartAction::Fail(error)),
                }
            },
            (ProxyStart::Binding { target, port }, StartEvent::Bound) => (
                ProxyStart::ReadingPort { target, port },
                StartAction::ReadLocalPort,
            ),
            (ProxyStart::Binding { .. }, StartEvent::BindFailed(error)) => (
                ProxyStart::Done,
                StartAction::Fail(
                    text::concat2("Could not start local Minecraft proxy: ", error.as_str()),
                ),
            ),
            (ProxyStart::ReadingPort { target, port }, StartEvent::LocalPort(local_port)) => (
                ProxyStart::Done,
                StartAction::Register { target, port, local_port },
            ),
            (ProxyStart::ReadingPort { .. }, StartEvent::LocalPortFailed(error)) => (
                ProxyStart::Done,
                StartAction::Fail(
                    text::concat2("Could not read local Minecraft proxy address: ", error.as_str()),
                ),
            ),
            (start, _) => (start, StartAction::Ignore),
        }
    }
}

/// The state of a start after a sequence of events.
pub open spec fn started_after(
    host: Seq<char>,
    port: Option<u32>,
    literal: Option<AddressLiteral>,
    events: Seq<StartEvent>,
) -> StartView
    decreases events.len(),
{
    if events.len() == 0 {
        start_begun(host, port, literal).0
    } else {
        start_transition(
            started_after(host, port, literal, events.drop_last()),
            events.last(),
        ).0
    }
}

/// Law: a proxy is never served to an address that it may not connect to, whatever
/// the host, the lookup and the network do.
pub proof fn law_started_proxies_have_allowed_targets(
    host: Seq<char>,
    port: Option<u32>,
    literal: Option<AddressLiteral>,
    events: Seq<StartEvent>,
    last: StartEvent,
)
    ensures
        start_transition(
            started_after(host, port, literal, events),
            last,
        ).1 matches StartActionView::Register { target, port: p, .. } ==> {
            &&& target.addresses.len() > 0
            &&& proxy_target::all_allowed(target.addresses)
            &&& p == target.addresses[0].port
        },
{
    lemma_settled(host, port, literal, events);
}

/// Every address of a target is at the given port.
pub open spec fn all_at_port(target: TargetView, port: u32) -> bool {
    forall|i: int| 0 <= i < target.addresses.len() ==> (#[trigger] target.addresses[i]).port == port
}

/// Law: a start goes to the port that was asked for. Where it asks for a lookup, the
/// lookup is at that port; where it goes on to bind, every address of the target is at
/// that port. A port outside the range of ports fails.
pub proof fn law_start_goes_to_the_given_port(
    host: Seq<char>,
    port: u32,
    literal: Option<AddressLiteral>,
)
    ensures
        start_begun(host, Some(port), literal).1 matches StartActionView::LookUp { port: p, .. }
            ==> p == port,
        start_begun(host, Some(port), literal).0 matches StartView::Binding { target, port: p }
            ==> p == port && all_at_port(target, port),
        port == 0 || port > 65535 ==> start_begun(host, Some(port), literal).1 is Fail && start_begun(
            host,
            Some(port),
            literal,
        ).0 is Done,
{
    proxy_target::law_ready_targets_are_allowed(host, port, literal);
}

/// Law: without a port, a start goes to the port of Minecraft servers, as if it had been
/// given.
pub proof fn law_start_without_a_port_goes_to_the_default_one(
    host: Seq<char>,
    literal: Option<AddressLiteral>,
)
    ensures
        start_begun(host, None, literal) == start_begun(host, Some(25565), literal),
        start_begun(host, None, literal).1 matches StartActionView::LookUp { port: p, .. } ==> p
            == 25565,
        start_begun(host, None, literal).0 matches StartView::Binding { target, port: p } ==> p
            == 25565 && all_at_port(target, 25565),
{
    law_start_goes_to_the_given_port(host, 25565, literal);
}

/// Law: whoever begins to start a proxy with a port gets a lookup or a listener for that
/// port, and an error for a number that is no port; without one, for the port 25565.
pub proof fn law_begun_starts_go_to_the_given_port(
    host: &str,
    port: Option<u32>,
    literal: Option<AddressLiteral>,
    r: (ProxyStart, StartAction),
)
    requires
        call_ensures(ProxyStart::begin, (host, port, literal), r),
    ensures
        ({
            let wanted: int = if port is None {
                25565
            } else {
                port->0 as int
            };
            &&& r.1 matches StartAction::LookUp { port: p, .. } ==> p == wanted
            &&& r.0 matches ProxyStart::Binding { target, port: p } ==> {
                &&& p == wanted
                &&& target.addresses@.len() > 0
                &&& forall|i: int|
                    0 <= i < target.addresses@.len() ==> (#[trigger] target.addresses@[i]).port
                        == wanted
            }
            &&& wanted == 0 || wanted > 65535 ==> r.1 is Fail && r.0 is Done
            &&& r.1 is LookUp || r.1 is Bind || r.1 is Fail
            &&& r.1 is Bind <==> r.0 is Binding
        }),
{
    match port {
        Some(p) => law_start_goes_to_the_given_port(host@, p, literal),
        None => law_start_without_a_port_goes_to_the_default_one(host@, literal),
    }
    match r.0 {
        ProxyStart::Binding { target, port: p } => {
            let view = proxy_target::addresses_view(target.addresses@);
            assert(target@.addresses == view);
            assert forall|i: int| 0 <= i < target.addresses@.len() implies (
            #[trigger] target.addresses@[i]).port == view[i].port by {}
            match port {
                Some(w) => proxy_target::law_ready_targets_are_allowed(host@, w, literal),
                None => proxy_target::law_ready_targets_are_allowed(host@, 25565, literal),
            }
        },
        _ => {},
    }
}

/// Law: what a start does first. With a port in the range of ports, the name of a server
/// is looked up, without the white space around it; an address that a proxy may connect
/// to is connected to as it is; and `localhost`, in letters of any case, is this machine.
pub proof fn law_start_takes_names_and_addresses(
    host: Seq<char>,
    port: u32,
    literal: Option<AddressLiteral>,
)
    requires
        1 <= port <= 65535,
        text::trimmed(host).len() > 0,
        forall|i: int|
            0 <= i < text::trimmed(host).len() ==> {
                let c = #[trigger] text::trimmed(host)[i];
                c != '/' && c != '\\' && !text::is_control_char(c)
            },
    ensures
        text::ascii_lowered(text::trimmed(host)) == "localhost"@ ==> (start_begun(
            host,
            Some(port),
            literal,
        ).0 matches StartView::Binding { target, .. } && target.host == "localhost"@
            && target.addresses.len() == 1 && target.addresses[0].ip == (IpAddress::V4 {
            a: 127,
            b: 0,
            c: 0,
            d: 1,
        })),
        text::ascii_lowered(text::trimmed(host)) != "localhost"@ ==> match literal {
            Some(address) => if proxy_target::is_allowed_address(address.ip) {
                start_begun(host, Some(port), literal).0 matches StartView::Binding { target, .. }
                    && target.host == text::trimmed(host) && target.addresses.len() == 1
                    && target.addresses[0].ip == address.ip && target.addresses[0].text
                    == address.text@
            } else {
                start_begun(host, Some(port), literal).1 is Fail
            },
            None => if proxy_target::is_domain_name(text::trimmed(host)) {
                start_begun(host, Some(port), literal).1 == (StartActionView::LookUp {
                    host: text::trimmed(host),
                    port: port as u16,
                })
            } else {
                start_begun(host, Some(port), literal).1 is Fail
            },
        },
{
    reveal_strlit("localhost");
    assert(text::ascii_lowered("localhost"@) =~= "localhost"@);
}

/// Law: why a start fails at once, in this order: the host is empty, the port is outside the
/// range of ports, the host holds what stands in no host, the address is not allowed, or
/// the host is neither a name nor an address.
pub proof fn law_refused_starts_are_told(
    host: Seq<char>,
    port: u32,
    literal: Option<AddressLiteral>,
)
    ensures
        ({
            let name = text::trimmed(host);
            let action = start_begun(host, Some(port), literal).1;
            let unsupported = exists|i: int|
                0 <= i < name.len() && (#[trigger] name[i] == '/' || name[i] == '\\'
                    || text::is_control_char(name[i]));
            &&& text::is_blank(host) ==> action == StartActionView::Fail(
                "Minecraft proxy host is empty."@,
            )
            &&& !text::is_blank(host) && (port == 0 || port > 65535) ==> action
                == StartActionView::Fail("Minecraft proxy port must be in range 1-65535."@)
            &&& !text::is_blank(host) && 1 <= port <= 65535 && unsupported ==> action
                == StartActionView::Fail("Minecraft proxy host contains unsupported characters."@)
        }),
{
    let name = text::trimmed(host);
    if exists|i: int|
        0 <= i < name.len() && (#[trigger] name[i] == '/' || name[i] == '\\'
            || text::is_control_char(name[i])) {
        let i = choose|i: int|
            0 <= i < name.len() && (#[trigger] name[i] == '/' || name[i] == '\\'
                || text::is_control_char(name[i]));
        assert(proxy_target::is_unsupported_in_host(name[i]));
    }
}

/// Law: what a start does with what it hears. The addresses that a lookup gave, if they are
/// allowed, are the target, at the port of the first; the target is kept until the listener
/// has its port, and is then served from that port.
pub proof fn law_start_keeps_its_target(s: StartView, event: StartEvent)
    ensures
        start_transition(s, event).1 is Bind <==> (s is LookingUp && (
        event matches StartEvent::LookedUp(Ok(found)) && found@.len() > 0
            && proxy_target::all_allowed(proxy_target::addresses_view(found@)))),
        start_transition(s, event).1 is Bind ==> (start_transition(
            s,
            event,
        ).0 matches StartView::Binding { target, port } && target.host == s->LookingUp_host
            && target.addresses == proxy_target::addresses_view((event->LookedUp_0)->Ok_0@) && port
            == (event->LookedUp_0)->Ok_0@[0].port),
        s matches StartView::Binding { target, port } ==> {
            &&& event is Bound ==> start_transition(s, event).0 == (StartView::ReadingPort {
                target,
                port,
            })
            &&& event is Bound ==> start_transition(s, event).1 is ReadLocalPort
            &&& event matches StartEvent::BindFailed(why) ==> start_transition(s, event).1
                == StartActionView::Fail("Could not start local Minecraft proxy: "@ + why@)
        },
        s matches StartView::ReadingPort { target, port } ==> {
            &&& event matches StartEvent::LocalPort(local) ==> start_transition(s, event).1 == (
            StartActionView::Register { target, port, local_port: local })
            &&& event matches StartEvent::LocalPortFailed(why) ==> start_transition(s, event).1
                == StartActionView::Fail("Could not read local Minecraft proxy address: "@ + why@)
        },
        s matches StartView::LookingUp { .. } ==> (event matches StartEvent::LookedUp(Err(why))
            ==> start_transition(s, event).1 == StartActionView::Fail(
            "Could not resolve Minecraft proxy host: "@ + why@,
        )),
        s is Done ==> start_transition(s, event) == (s, StartActionView::Ignore),
{
    match (s, event) {
        (StartView::LookingUp { host }, StartEvent::LookedUp(Ok(found))) => {
            let addresses = proxy_target::addresses_view(found@);
            proxy_target::law_looked_up_targets_are_allowed(host, addresses);
            if found@.len() > 0 {
                assert(addresses[0] == found@[0]@);
            }
        },
        _ => {},
    }
}

/// What holds of every state of a start.
spec fn start_inv(s: StartView) -> bool {
    match s {
        StartView::Binding { target, port } | StartView::ReadingPort { target, port } => {
            &&& target.addresses.len() > 0
            &&& proxy_target::all_allowed(target.addresses)
            &&& port == target.addresses[0].port
        },
        _ => true,
    }
}

proof fn lemma_settled(
    host: Seq<char>,
    port: Option<u32>,
    literal: Option<AddressLiteral>,
    events: Seq<StartEvent>,
)
    ensures
        start_inv(started_after(host, port, literal, events)),
    decreases events.len(),
{
    if events.len() == 0 {
        let wanted = match port {
            Some(p) => p,
            None => proxy_target::MINECRAFT_PROXY_DEFAULT_PORT,
        };
        proxy_target::law_ready_targets_are_allowed(host, wanted, literal);
    } else {
        lemma_settled(host, port, literal, events.drop_last());
        match (started_after(host, port, literal, events.drop_last()), events.last()) {
            (StartView::LookingUp { host: name }, StartEvent::LookedUp(lookup)) => {
                match proxy_target::lookup_view(lookup) {
                    Ok(addresses) => {
                        proxy_target::law_looked_up_targets_are_allowed(name, addresses);
                    },
                    Err(_) => {},
                }
            },
            _ => {},
        }
    }
}

// ---------------------------------------------------------------------------
// Serving clients
// ---------------------------------------------------------------------------
/// What the listener of a proxy is waiting for.
#[derive(Clone, Copy, Debug, PartialEq, Eq, Structural)]
pub enum ListenerPhase {
    /// The next client.
    Accepting,
    /// The end of the connection of a client.
    Serving,
    /// Nothing more.
    Stopped,
}

/// What happened.
pub enum ListenerEvent {
    /// The proxy is being stopped.
    Shutdown,
    /// A client has come from this address.
    Accepted(IpAddress),
    AcceptFailed(String),
    /// The connection of the client is over.
    ConnectionEnded(Result<(), String>),
}

/// What to do next.
pub enum ListenerAction {
    /// Wait for a client or the shutdown.
    Accept,
    /// Serve the client.
    Serve,
    /// Report an error, then wait for a client or the shutdown.
    Report(String),
    /// Report the error, if there is one; then mark the proxy as not connected, take
    /// it out, and report it as stopped if it was still there.
    Stop(Option<String>),
    /// The event answers nothing that was asked for.
    Ignore,
}

/// The contents of a [`ListenerAction`].
pub enum ListenerActionView {
    Accept,
    Serve,
    Report(Seq<char>),
    Stop(Option<Seq<char>>),
    Ignore,
}

impl View for ListenerAction {
    type V = ListenerActionView;

    open spec fn view(&self) -> ListenerActionView {
        match self {
            ListenerAction::Accept => ListenerActionView::Accept,
            ListenerAction::Serve => ListenerActionView::Serve,
            ListenerAction::Report(error) => ListenerActionView::Report(error@),
            ListenerAction::Stop(error) => ListenerActionView::Stop(text::optional_text(*error)),
            ListenerAction::Ignore => ListenerActionView::Ignore,
        }
    }
}

/// The next phase and the next action of a listener.
pub open spec fn listener_transition(phase: ListenerPhase, event: ListenerEvent) -> (
    ListenerPhase,
    ListenerActionView,
) {
    match (phase, event) {
        (ListenerPhase::Accepting, ListenerEvent::Shutdown) => (
            ListenerPhase::Stopped,
            ListenerActionView::Stop(None),
        ),
        (ListenerPhase::Accepting, ListenerEvent::AcceptFailed(error)) => (
            ListenerPhase::Stopped,
            ListenerActionView::Stop(Some("Minecraft proxy listener failed: "@ + error@)),
        ),
        (ListenerPhase::Accepting, ListenerEvent::Accepted(peer)) => {
            if proxy_target::is_loopback_address(peer) {
                (ListenerPhase::Serving, ListenerActionView::Serve)
            } else {
                (
                    ListenerPhase::Accepting,
                    ListenerActionView::Report(
                        "Minecraft proxy rejected non-local WebSocket client."@,
                    ),
                )
            }
        },
        (ListenerPhase::Serving, ListenerEvent::ConnectionEnded(Ok(_))) => (
            ListenerPhase::Accepting,
            ListenerActionView::Accept,
        ),
        (ListenerPhase::Serving, ListenerEvent::ConnectionEnded(Err(error))) => (
            ListenerPhase::Accepting,
            ListenerActionView::Report(error@),
        ),
        _ => (phase, ListenerActionView::Ignore),
    }
}

/// The listener of a proxy. It serves one client after another.
pub struct ProxyListener {
    phase: ListenerPhase,
}

impl ProxyListener {
    /// What the listener is waiting for.
    pub closed spec fn phase(&self) -> ListenerPhase {
        self.phase
    }

    /// A listener that waits for its first client.
    pub fn new() -> (r: ProxyListener)
        ensures
            r.phase() == ListenerPhase::Accepting,
    {
        ProxyListener { phase: ListenerPhase::Accepting }
    }

    /// Takes what happened and tells what to do next.
    pub fn step(&mut self, event: ListenerEvent) -> (r: ListenerAction)
        ensures
            (final(self).phase(), r@) == listener_transition(old(self).phase(), event),
    {
        match (self.phase, event) {
            (ListenerPhase::Accepting, ListenerEvent::Shutdown) => {
                self.phase = ListenerPhase::Stopped;
                ListenerAction::Stop(None)
            },
            (ListenerPhase::Accepting, ListenerEvent::AcceptFailed(error)) => {
                self.phase = ListenerPhase::Stopped;
                ListenerAction::Stop(
                    Some(text::concat2("Minecraft proxy listener failed: ", error.as_str())),
                )
            },
            (ListenerPhase::Accepting, ListenerEvent::Accepted(peer)) => {
                if proxy_target::is_loopback(peer) {
                    self.phase = ListenerPhase::Serving;
                    ListenerAction::Serve
                } else {
                    ListenerAction::Report(
                        "Minecraft proxy rejected non-local WebSocket client.".to_owned(),
                    )
                }
            },
            (ListenerPhase::Serving, ListenerEvent::ConnectionEnded(Ok(_))) => {
                self.phase = ListenerPhase::Accepting;
                ListenerAction::Accept
            },
            (ListenerPhase::Serving, ListenerEvent::ConnectionEnded(Err(error))) => {
                self.phase = ListenerPhase::Accepting;
                ListenerAction::Report(error)
            },
            _ => ListenerAction::Ignore,
        }
    }
}

/// Law: a client is served only if it comes from this machine.
pub proof fn law_only_local_clients_are_served(phase: ListenerPhase, event: ListenerEvent)
    ensures
        listener_transition(phase, event).1 is Serve <==> phase == ListenerPhase::Accepting && (
        event matches ListenerEvent::Accepted(peer) && proxy_target::is_loopback_address(peer)),
{
}

/// Law: a listener stops exactly on the shutdown and on a failure to accept, both
/// while it waits for a client; no client and no error of a client stops it.
pub proof fn law_clients_do_not_stop_the_listener(phase: ListenerPhase, event: ListenerEvent)
    requires
        phase != ListenerPhase::Stopped,
    ensures
        listener_transition(phase, event).0 == ListenerPhase::Stopped <==> phase
            == ListenerPhase::Accepting && (event is Shutdown || event is AcceptFailed),
        listener_transition(phase, event).1 is Stop <==> listener_transition(phase, event).0
            == ListenerPhase::Stopped,
{
}

/// Law: a stopped listener stays stopped and asks for nothing more.
pub proof fn law_stopped_listener_is_final(event: ListenerEvent)
    ensures
        listener_transition(ListenerPhase::Stopped, event) == (
            ListenerPhase::Stopped,
            ListenerActionView::Ignore,
        ),
{
}

/// Law: what a listener does with what it hears. A client of this machine is served, any
/// other is reported; when the connection of a client is over, the next is waited for, and
/// an error of it is reported as it is. Only a shutdown and a failure to accept stop it, and
/// the failure is told.
pub proof fn law_listener_serves_one_client_after_another(event: ListenerEvent)
    ensures
        event matches ListenerEvent::Accepted(peer) ==> {
            let (phase, action) = listener_transition(ListenerPhase::Accepting, event);
            let local = match peer {
                IpAddress::V4 { a, .. } => a == 127,
                IpAddress::V6 { s0, s1, s2, s3, s4, s5, s6, s7 } => s0 == 0 && s1 == 0 && s2 == 0
                    && s3 == 0 && s4 == 0 && s5 == 0 && s6 == 0 && s7 == 1,
            };
            &&& local ==> phase == ListenerPhase::Serving && action is Serve
            &&& !local ==> phase == ListenerPhase::Accepting && action
                == ListenerActionView::Report(
                "Minecraft proxy rejected non-local WebSocket client."@,
            )
        },
        event matches ListenerEvent::AcceptFailed(why) ==> listener_transition(
            ListenerPhase::Accepting,
            event,
        ) == (
            ListenerPhase::Stopped,
            ListenerActionView::Stop(Some("Minecraft proxy listener failed: "@ + why@)),
        ),
        event is Shutdown ==> listener_transition(ListenerPhase::Accepting, event) == (
            ListenerPhase::Stopped,
            ListenerActionView::Stop(None),
        ),
        event matches ListenerEvent::ConnectionEnded(Ok(_)) ==> listener_transition(
            ListenerPhase::Serving,
            event,
        ) == (ListenerPhase::Accepting, ListenerActionView::Accept),
        event matches ListenerEvent::ConnectionEnded(Err(why)) ==> listener_transition(
            ListenerPhase::Serving,
            event,
        ) == (ListenerPhase::Accepting, ListenerActionView::Report(why@)),
{
}

/// Law: an event that was not waited for changes neither a start nor a listener, and a
/// listener that serves a client waits for its end only.
pub proof fn law_ignored_events_change_no_proxy(
    start: StartView,
    heard: StartEvent,
    phase: ListenerPhase,
    event: ListenerEvent,
)
    ensures
        start_transition(start, heard).1 is Ignore ==> start_transition(start, heard).0 == start,
        listener_transition(phase, event).1 is Ignore ==> listener_transition(phase, event).0
            == phase,
        phase == ListenerPhase::Serving && !(event is ConnectionEnded) ==> listener_transition(
            phase,
            event,
        ).1 is Ignore,
        phase == ListenerPhase::Accepting && event is ConnectionEnded ==> listener_transition(
            phase,
            event,
        ).1 is Ignore,
        start_transition(start, heard).1 is Fail ==> start_transition(start, heard).0 is Done,
        start_transition(start, heard).1 is Register ==> start_transition(start, heard).0 is Done,
{
}

} // verus!
