//! Finding Minecraft servers on the local network by what they announce.
use vstd::prelude::*;
use vstd::string::*;

use crate::text;

verus! {

/// How long servers are looked for where no time is given.
pub const MINECRAFT_LAN_DISCOVERY_DEFAULT_TIMEOUT_MS: u64 = 3000;

/// A server that was found.
pub struct MinecraftLanServerPayload {
    pub host: String,
    pub port: u16,
    pub motd: String,
}

/// The contents of a [`MinecraftLanServerPayload`].
pub struct ServerView {
    pub host: Seq<char>,
    pub port: u16,
    pub motd: Seq<char>,
}

impl View for MinecraftLanServerPayload {
    type V = ServerView;

    open spec fn view(&self) -> ServerView {
        ServerView { host: self.host@, port: self.port, motd: self.motd@ }
    }
}

/// The contents of a list of servers.
pub open spec fn servers_view(servers: Seq<MinecraftLanServerPayload>) -> Seq<ServerView> {
    Seq::new(servers.len(), |i: int| servers[i]@)
}

// ---------------------------------------------------------------------------
// Announcements
// ---------------------------------------------------------------------------
/// What stands in a message between the first `open` and the first `close` behind it.
pub open spec fn tag_text(message: Seq<char>, open: Seq<char>, close: Seq<char>) -> Option<
    Seq<char>,
> {
    match text::first_occurrence(message, open, 0) {
        Some(i) => match text::first_occurrence(message, close, i + open.len()) {
            Some(j) => Some(message.subrange(i + open.len(), j)),
            None => None,
        },
        None => None,
    }
}

/// What stands in a message between an opening and a closing tag.
pub fn extract_minecraft_lan_tag<'a>(
    message: &'a str,
    open_tag: &str,
    close_tag: &str,
) -> (r: Option<&'a str>)
    ensures
        match r {
            Some(t) => tag_text(message@, open_tag@, close_tag@) == Some(t@),
            None => tag_text(message@, open_tag@, close_tag@) is None,
        },
{
    let chars: Vec<char> = text::chars_of(message);
    let open: Vec<char> = text::chars_of(open_tag);
    let close: Vec<char> = text::chars_of(close_tag);
    match text::find_from(&chars, &open, 0) {
        Some(i) => {
            assert(i + open@.len() <= chars@.len());
            assert(chars.len() == chars@.len() && open.len() == open@.len());
            let start: usize = i + open.len();
            match text::find_from(&chars, &close, start) {
                Some(j) => Some(message.substring_char(start, j)),
                None => None,
            }
        },
        None => None,
    }
}

/// The server that a message from a host announces: its text and its port, which is
/// a number other than zero.
pub open spec fn announced(message: Seq<char>, sender_host: Seq<char>) -> Option<ServerView> {
    match (
        tag_text(message, "[MOTD]"@, "[/MOTD]"@),
        tag_text(message, "[AD]"@, "[/AD]"@),
    ) {
        (Some(motd), Some(ad)) => match text::parsed_u16(text::trimmed(ad)) {
            Some(port) => if port == 0 {
                None
            } else {
                Some(ServerView { host: sender_host, port, motd })
            },
            None => None,
        },
        _ => None,
    }
}

/// The server that a message from a host announces.
pub fn parse_minecraft_lan_announcement(message: &str, sender_host: &str) -> (r: Option<
    MinecraftLanServerPayload,
>)
    ensures
        match r {
            Some(server) => announced(message@, sender_host@) == Some(server@),
            None => announced(message@, sender_host@) is None,
        },
{
    let motd: &str = match extract_minecraft_lan_tag(message, "[MOTD]", "[/MOTD]") {
        Some(t) => t,
        None => {
            return None;
        },
    };
    let ad: &str = match extract_minecraft_lan_tag(message, "[AD]", "[/AD]") {
        Some(t) => t,
        None => {
            return None;
        },
    };
    match text::parse_u16(text::trim(ad)) {
        Some(port) => if port == 0 {
            None
        } else {
            Some(
                MinecraftLanServerPayload {
                    host: sender_host.to_owned(),
                    port,
                    motd: motd.to_owned(),
                },
            )
        },
        None => None,
    }
}

// ---------------------------------------------------------------------------
// Discovery
// ---------------------------------------------------------------------------
/// Two servers are the same if they have the same host and port.
pub open spec fn same_server(a: ServerView, b: ServerView) -> bool {
    a.host == b.host && a.port == b.port
}

/// A server is among those that were found.
pub open spec fn is_known(found: Seq<ServerView>, server: ServerView) -> bool {
    exists|i: int| 0 <= i < found.len() && same_server(#[trigger] found[i], server)
}

/// The servers that were found after a message: a new one comes last, one that is
/// known already stays as it is.
pub open spec fn found_after(
    found: Seq<ServerView>,
    message: Seq<char>,
    sender_host: Seq<char>,
) -> Seq<ServerView> {
    match announced(message, sender_host) {
        Some(server) => if is_known(found, server) {
            found
        } else {
            found.push(server)
        },
        None => found,
    }
}

/// What came in.
pub enum LanEvent {
    /// A packet from a host.
    Packet { bytes: Vec<u8>, sender_host: String },
    /// Nothing can be received, for this reason.
    Failed(String),
    /// Nothing came in time.
    TimedOut,
}

/// What to do next.
pub enum LanAction {
    /// Look at the time, and receive on if there is some left.
    Continue,
    /// The search is over.
    Finish,
    /// The search has failed, for this reason.
    Fail(String),
}

/// A search for servers.
pub struct LanDiscovery {
    timeout_ms: u64,
    servers: Vec<MinecraftLanServerPayload>,
}

impl LanDiscovery {
    /// How long the search takes, in milliseconds.
    pub closed spec fn timeout_ms(&self) -> u64 {
        self.timeout_ms
    }

    /// The servers that were found, in the order in which they were first heard of.
    pub closed spec fn found(&self) -> Seq<ServerView> {
        servers_view(self.servers@)
    }

    /// A search that takes so many milliseconds.
    pub fn new(timeout_ms: Option<u64>) -> (r: LanDiscovery)
        ensures
            r.found() == Seq::<ServerView>::empty(),
            r.timeout_ms() == match timeout_ms {
                Some(ms) => ms,
                None => MINECRAFT_LAN_DISCOVERY_DEFAULT_TIMEOUT_MS,
            },
    {
        let ms: u64 = match timeout_ms {
            Some(given) => given,
            None => MINECRAFT_LAN_DISCOVERY_DEFAULT_TIMEOUT_MS,
        };
        let r = LanDiscovery { timeout_ms: ms, servers: Vec::new() };
        assert(r.found() =~= Seq::<ServerView>::empty());
        r
    }

    /// How many nanoseconds are left after so many of them, if any are.
    pub fn remaining_nanos(&self, elapsed_nanos: u128) -> (r: Option<u128>)
        ensures
            match r {
                Some(left) => left > 0 && left == self.timeout_ms() * 1_000_000 - elapsed_nanos,
                None => elapsed_nanos >= self.timeout_ms() * 1_000_000,
            },
    {
        let total: u128 = self.timeout_ms as u128 * 1_000_000;
        if elapsed_nanos >= total {
            None
        } else {
            Some(total - elapsed_nanos)
        }
    }

    fn knows(&self, server: &MinecraftLanServerPayload) -> (r: bool)
        ensures
            r == is_known(self.found(), server@),
    {
        let mut i: usize = 0;
        while i < self.servers.len()
            invariant
                i <= self.servers.len(),
                forall|k: int| 0 <= k < i ==> !same_server(#[trigger] self.found()[k], server@),
            decreases self.servers.len() - i,
        {
            if self.servers[i].port == server.port && text::same_text(
                self.servers[i].host.as_str(),
                server.host.as_str(),
            ) {
                assert(same_server(self.found()[i as int], server@));
                return true;
            }
            i += 1;
        }
        false
    }

    /// Takes a message from a host.
    pub fn take_message(&mut self, message: &str, sender_host: &str)
        ensures
            final(self).timeout_ms() == old(self).timeout_ms(),
            final(self).found() == found_after(old(self).found(), message@, sender_host@),
    {
        match parse_minecraft_lan_announcement(message, sender_host) {
            Some(server) => {
                if !self.knows(&server) {
                    let ghost view = server@;
                    self.servers.push(server);
                    assert(self.found() =~= old(self).found().push(view));
                }
            },
            None => {},
        }
    }

    /// Takes what came in and tells what to do next. The bytes of a packet are read as
    /// UTF-8, with replacement characters for what is not.
    pub fn step(&mut self, event: LanEvent) -> (r: LanAction)
        ensures
            final(self).timeout_ms() == old(self).timeout_ms(),
            match event {
                LanEvent::Packet { bytes, sender_host } => {
                    &&& r is Continue
                    &&& final(self).found() == found_after(
                        old(self).found(),
                        text::utf8_lossy(bytes@),
                        sender_host@,
                    )
                },
                LanEvent::Failed(error) => {
                    &&& final(self).found() == old(self).found()
                    &&& r matches LanAction::Fail(message) && message@
                        == "Could not receive Minecraft LAN announcement: "@ + error@
                },
                LanEvent::TimedOut => final(self).found() == old(self).found() && r is Finish,
            },
    {
        match event {
            LanEvent::Packet { bytes, sender_host } => {
                let message: String = text::lossy_text(bytes.as_slice());
                self.take_message(message.as_str(), sender_host.as_str());
                LanAction::Continue
            },
            LanEvent::Failed(error) => LanAction::Fail(
                text::concat2("Could not receive Minecraft LAN announcement: ", error.as_str()),
            ),
            LanEvent::TimedOut => LanAction::Finish,
        }
    }

    /// The servers that were found.
    pub fn into_servers(self) -> (r: Vec<MinecraftLanServerPayload>)
        ensures
            servers_view(r@) == self.found(),
    {
        self.servers
    }
}

// ---------------------------------------------------------------------------
// Laws
// ---------------------------------------------------------------------------
/// The servers that were found after a sequence of messages, each with the host that
/// it came from.
pub open spec fn found_in(messages: Seq<(Seq<char>, Seq<char>)>) -> Seq<ServerView>
    decreases messages.len(),
{
    if messages.len() == 0 {
        Seq::empty()
    } else {
        found_after(found_in(messages.drop_last()), messages.last().0, messages.last().1)
    }
}

/// No two servers are the same.
pub open spec fn no_server_twice(found: Seq<ServerView>) -> bool {
    forall|i: int, j: int|
        0 <= i < j < found.len() ==> !same_server(#[trigger] found[i], #[trigger] found[j])
}

/// Law: no server is found twice.
pub proof fn law_no_server_is_found_twice(messages: Seq<(Seq<char>, Seq<char>)>)
    ensures
        no_server_twice(found_in(messages)),
    decreases messages.len(),
{
    if messages.len() > 0 {
        law_no_server_is_found_twice(messages.drop_last());
        let before = found_in(messages.drop_last());
        let after = found_in(messages);
        if after != before {
            assert(after.len() == before.len() + 1);
            let server = after.last();
            assert(!is_known(before, server));
            assert forall|i: int, j: int| 0 <= i < j < after.len() implies !same_server(
                #[trigger] after[i],
                #[trigger] after[j],
            ) by {
                assert(after[i] == before[i]);
                if j < before.len() {
                    assert(after[j] == before[j]);
                } else {
                    assert(after[j] == server);
                }
            }
        }
    }
}

/// Law: every announced server is found, and every server that is found was announced.
pub proof fn law_found_servers_are_the_announced_ones(messages: Seq<(Seq<char>, Seq<char>)>)
    ensures
        forall|m: int|
            0 <= m < messages.len() ==> (announced(
                (#[trigger] messages[m]).0,
                messages[m].1,
            ) matches Some(server) ==> is_known(found_in(messages), server)),
        forall|i: int|
            0 <= i < found_in(messages).len() ==> exists|m: int|
                0 <= m < messages.len() && announced(
                    (#[trigger] messages[m]).0,
                    messages[m].1,
                ) == Some(#[trigger] found_in(messages)[i]),
    decreases messages.len(),
{
    if messages.len() > 0 {
        let earlier = messages.drop_last();
        law_found_servers_are_the_announced_ones(earlier);
        let before = found_in(earlier);
        let after = found_in(messages);
        let last = messages.last();
        assert(forall|i: int| 0 <= i < before.len() ==> before[i] == after[i]);
        assert forall|m: int| 0 <= m < messages.len() implies (announced(
            (#[trigger] messages[m]).0,
            messages[m].1,
        ) matches Some(server) ==> is_known(after, server)) by {
            match announced(messages[m].0, messages[m].1) {
                Some(server) => {
                    if m < earlier.len() {
                        assert(earlier[m] == messages[m]);
                        assert(is_known(before, server));
                        let i = choose|i: int|
                            0 <= i < before.len() && same_server(#[trigger] before[i], server);
                        assert(same_server(after[i], server));
                    } else if is_known(before, server) {
                        let i = choose|i: int|
                            0 <= i < before.len() && same_server(#[trigger] before[i], server);
                        assert(same_server(after[i], server));
                    } else {
                        assert(same_server(after[after.len() - 1], server));
                    }
                },
                None => {},
            }
        }
        assert forall|i: int| 0 <= i < after.len() implies exists|m: int|
            0 <= m < messages.len() && announced((#[trigger] messages[m]).0, messages[m].1) == Some(
                #[trigger] after[i],
            ) by {
            if i < before.len() {
                let m = choose|m: int|
                    0 <= m < earlier.len() && announced(
                        (#[trigger] earlier[m]).0,
                        earlier[m].1,
                    ) == Some(before[i]);
                assert(earlier[m] == messages[m]);
            } else {
                assert(messages[messages.len() - 1] == last);
            }
        }
    }
}

/// Law: what is between two tags is what stands between the first opening tag and the first
/// closing tag behind it.
pub proof fn law_tags_enclose_their_text(
    front: Seq<char>,
    open: Seq<char>,
    inner: Seq<char>,
    close: Seq<char>,
    rest: Seq<char>,
)
    requires
        forall|k: int|
            0 <= k < front.len() ==> !#[trigger] text::occurs_at(
                front + open + inner + close + rest,
                open,
                k,
            ),
        forall|k: int|
            front.len() + open.len() <= k < front.len() + open.len() + inner.len()
                ==> !#[trigger] text::occurs_at(front + open + inner + close + rest, close, k),
    ensures
        tag_text(front + open + inner + close + rest, open, close) == Some(inner),
{
    let message = front + open + inner + close + rest;
    let i = front.len() as int;
    let j = (front.len() + open.len() + inner.len()) as int;
    assert(message.subrange(i, i + open.len()) =~= open);
    assert(message.subrange(j, j + close.len()) =~= close);
    lemma_first(message, open, 0, i);
    lemma_first(message, close, i + open.len(), j);
    assert(message.subrange(i + open.len(), j) =~= inner);
}

/// Law: without the opening tag, or without the closing tag, nothing is between them.
pub proof fn law_missing_tags_enclose_nothing(message: Seq<char>, open: Seq<char>, close: Seq<char>)
    ensures
        !text::contains_text(message, open) ==> tag_text(message, open, close) is None,
        !text::contains_text(message, close) ==> tag_text(message, open, close) is None,
{
    if tag_text(message, open, close) is Some {
        let i = text::first_occurrence(message, open, 0)->0;
        assert(text::is_first_occurrence(message, open, 0, i));
        assert(text::occurs_at(message, open, i));
        let from = i + open.len();
        let j = choose|k: int| text::is_first_occurrence(message, close, from, k);
        assert(text::is_first_occurrence(message, close, from, j));
        assert(text::occurs_at(message, close, j));
    }
}

/// Law: a message announces a server exactly if it has both texts and the one of its port,
/// without white space around it, is a number from 1 on; the server then is at the host
/// that the message came from, at that port, with its text as it is.
pub proof fn law_announcements_hold_text_and_port(message: Seq<char>, sender_host: Seq<char>)
    ensures
        announced(message, sender_host) matches Some(server) ==> {
            &&& server.host == sender_host
            &&& server.port > 0
            &&& tag_text(message, "[MOTD]"@, "[/MOTD]"@) == Some(server.motd)
            &&& tag_text(message, "[AD]"@, "[/AD]"@) matches Some(ad) && text::parsed_u16(
                text::trimmed(ad),
            ) == Some(server.port)
        },
        announced(message, sender_host) is None ==> {
            ||| tag_text(message, "[MOTD]"@, "[/MOTD]"@) is None
            ||| tag_text(message, "[AD]"@, "[/AD]"@) is None
            ||| text::parsed_u16(text::trimmed(tag_text(message, "[AD]"@, "[/AD]"@)->0)) is None
            ||| text::parsed_u16(text::trimmed(tag_text(message, "[AD]"@, "[/AD]"@)->0)) == Some(
                0u16,
            )
        },
{
}

/// Law: servers are found in the order in which they were first heard of, and what was
/// found stays as it is: one more message adds at most one server, behind the others.
pub proof fn law_found_servers_stay(
    messages: Seq<(Seq<char>, Seq<char>)>,
    message: (Seq<char>, Seq<char>),
)
    ensures
        found_in(Seq::empty()).len() == 0,
        ({
            let before = found_in(messages);
            let after = found_in(messages.push(message));
            &&& before.len() <= after.len() <= before.len() + 1
            &&& after.take(before.len() as int) == before
            &&& announced(message.0, message.1) is None ==> after == before
            &&& announced(message.0, message.1) matches Some(server) ==> if exists|i: int|
                0 <= i < before.len() && (#[trigger] before[i]).host == server.host
                    && before[i].port == server.port {
                after == before
            } else {
                after == before.push(server)
            }
        }),
{
    let before = found_in(messages);
    let after = found_in(messages.push(message));
    assert(messages.push(message).drop_last() =~= messages);
    assert(after.take(before.len() as int) =~= before);
    match announced(message.0, message.1) {
        Some(server) => {
            if is_known(before, server) {
                let i = choose|i: int|
                    0 <= i < before.len() && same_server(#[trigger] before[i], server);
                assert(before[i].host == server.host && before[i].port == server.port);
            } else if exists|i: int|
                0 <= i < before.len() && (#[trigger] before[i]).host == server.host
                    && before[i].port == server.port {
                let i = choose|i: int|
                    0 <= i < before.len() && (#[trigger] before[i]).host == server.host
                        && before[i].port == server.port;
                assert(same_server(before[i], server));
            }
        },
        None => {},
    }
}

/// The host and the port of a server in one text.
pub open spec fn server_key(server: ServerView) -> Seq<char> {
    server.host + ":"@ + text::decimal(server.port as nat)
}

/// Law: two servers are the same exactly if their host and port make the same text.
pub proof fn law_server_keys_tell_servers_apart(a: ServerView, b: ServerView)
    ensures
        server_key(a) == server_key(b) <==> same_server(a, b),
{
    reveal_strlit(":");
    assert(":"@ =~= seq![':']);
    let x = text::decimal(a.port as nat);
    let y = text::decimal(b.port as nat);
    text::lemma_decimal_value(a.port as nat);
    text::lemma_decimal_value(b.port as nat);
    if server_key(a) == server_key(b) {
        let key = server_key(a);
        assert(key.len() == a.host.len() + 1 + x.len());
        assert(key.len() == b.host.len() + 1 + y.len());
        assert(server_key(b)[b.host.len() as int] == ':');
        assert(key[a.host.len() as int] == ':');
        assert(key[b.host.len() as int] == ':');
        if a.host.len() < b.host.len() {
            let k = b.host.len() - a.host.len() - 1;
            assert(0 <= k < x.len());
            assert(key[b.host.len() as int] == x[k]);
            assert(text::is_decimal_digit(x[k]));
        } else if b.host.len() < a.host.len() {
            let k = a.host.len() - b.host.len() - 1;
            assert(0 <= k < y.len());
            assert(server_key(b)[a.host.len() as int] == y[k]);
            assert(text::is_decimal_digit(y[k]));
        } else {
            assert(a.host =~= key.take(a.host.len() as int));
            assert(b.host =~= server_key(b).take(b.host.len() as int));
            assert(x =~= key.skip(a.host.len() as int + 1));
            assert(y =~= server_key(b).skip(b.host.len() as int + 1));
        }
    }
}

/// An announcement of a server with the given text and port.
pub open spec fn announcement(motd: Seq<char>, port: u16) -> Seq<char> {
    "[MOTD]"@ + motd + "[/MOTD][AD]"@ + text::decimal(port as nat) + "[/AD]"@
}

/// Law: what a server announces is what is found, if its text holds none of the tags
/// that end it or begin the port.
pub proof fn law_announcement_round_trip(motd: Seq<char>, port: u16, host: Seq<char>)
    requires
        port > 0,
        !text::contains_text(motd, "[/MOTD]"@),
        !text::contains_text(motd, "[AD]"@),
    ensures
        announced(announcement(motd, port), host) == Some(ServerView { host, port, motd }),
{
    let message = announcement(motd, port);
    let digits = text::decimal(port as nat);
    let p = 6 + motd.len() as int;
    let q = p + 7;
    let e = q + 4 + digits.len();
    reveal_strlit("[MOTD]");
    reveal_strlit("[/MOTD]");
    reveal_strlit("[AD]");
    reveal_strlit("[/AD]");
    reveal_strlit("[/MOTD][AD]");
    text::lemma_decimal_value(port as nat);
    assert(forall|i: int| 0 <= i < 6 ==> message[i] == "[MOTD]"@[i]);
    assert(forall|i: int| 0 <= i < motd.len() ==> message[6 + i] == #[trigger] motd[i]);
    assert(forall|i: int| 0 <= i < 11 ==> message[p + i] == #[trigger] "[/MOTD][AD]"@[i]);
    assert(forall|i: int| 0 <= i < digits.len() ==> message[q + 4 + i] == #[trigger] digits[i]);
    assert(forall|i: int| 0 <= i < 5 ==> message[e + i] == #[trigger] "[/AD]"@[i]);
    // The text.
    assert(message.subrange(0, 6) =~= "[MOTD]"@);
    lemma_first(message, "[MOTD]"@, 0, 0);
    assert(message.subrange(p, p + 7) =~= "[/MOTD]"@);
    assert forall|k: int| 6 <= k < p implies !#[trigger] text::occurs_at(message, "[/MOTD]"@, k) by {
        if text::occurs_at(message, "[/MOTD]"@, k) {
            let part = message.subrange(k, k + 7);
            if k + 7 <= p {
                assert(motd.subrange(k - 6, k + 1) =~= part);
                assert(text::occurs_at(motd, "[/MOTD]"@, k - 6));
            } else {
                assert(part[p - k] == message[p]);
                assert(message[p] == "[/MOTD][AD]"@[0]);
            }
        }
    }
    lemma_first(message, "[/MOTD]"@, 6, p);
    assert(message.subrange(6, p) =~= motd);
    // The port.
    assert(message.subrange(q, q + 4) =~= "[AD]"@);
    assert forall|k: int| 0 <= k < q implies !#[trigger] text::occurs_at(message, "[AD]"@, k) by {
        if text::occurs_at(message, "[AD]"@, k) {
            let part = message.subrange(k, k + 4);
            assert(part[0] == message[k] && part[1] == message[k + 1]);
            if k < 6 {
                assert(message[k] == "[MOTD]"@[k]);
                assert(k == 0);
                assert(message[1] == "[MOTD]"@[1]);
            } else if k + 4 <= p {
                assert(motd.subrange(k - 6, k - 2) =~= part);
                assert(text::occurs_at(motd, "[AD]"@, k - 6));
            } else if k < p {
                assert(part[p - k] == message[p]);
                assert(message[p] == "[/MOTD][AD]"@[0]);
            } else {
                assert(message[k] == "[/MOTD][AD]"@[k - p]);
                assert(k == p);
                assert(message[p + 1] == "[/MOTD][AD]"@[1]);
            }
        }
    }
    lemma_first(message, "[AD]"@, 0, q);
    assert(message.subrange(e, e + 5) =~= "[/AD]"@);
    assert forall|k: int| q + 4 <= k < e implies !#[trigger] text::occurs_at(message, "[/AD]"@, k) by {
        if text::occurs_at(message, "[/AD]"@, k) {
            assert(message.subrange(k, k + 5)[0] == message[k]);
            assert(message[k] == digits[k - q - 4]);
            assert(text::is_decimal_digit(digits[k - q - 4]));
        }
    }
    lemma_first(message, "[/AD]"@, q + 4, e);
    assert(message.subrange(q + 4, e) =~= digits);
    assert(text::is_decimal_digit(digits[0]) && text::is_decimal_digit(digits[digits.len() - 1]));
    assert(text::trimmed(digits) == digits);
    text::law_u16_decimal_round_trip(port);
}

proof fn lemma_first(hay: Seq<char>, needle: Seq<char>, from: int, i: int)
    requires
        text::is_first_occurrence(hay, needle, from, i),
    ensures
        text::first_occurrence(hay, needle, from) == Some(i),
{
    let first = choose|k: int| text::is_first_occurrence(hay, needle, from, k);
    assert(text::is_first_occurrence(hay, needle, from, first));
    assert(text::occurs_at(hay, needle, first) && text::occurs_at(hay, needle, i));
}

/// Law: a search ends when its time is over, and not before.
pub proof fn law_search_lasts_its_time(
    discovery: LanDiscovery,
    elapsed_nanos: u128,
    left: Option<u128>,
)
    requires
        call_ensures(LanDiscovery::remaining_nanos, (&discovery, elapsed_nanos), left),
    ensures
        left is Some <==> elapsed_nanos < discovery.timeout_ms() * 1_000_000,
        left matches Some(n) ==> n + elapsed_nanos == discovery.timeout_ms() * 1_000_000,
{
}

/// Law: a search lasts as long as was asked for, and three seconds where nothing was.
pub proof fn law_search_lasts_as_asked(timeout_ms: Option<u64>, r: LanDiscovery)
    requires
        call_ensures(LanDiscovery::new, (timeout_ms,), r),
    ensures
        timeout_ms matches Some(ms) ==> r.timeout_ms() == ms,
        timeout_ms is None ==> r.timeout_ms() == 3000,
        r.found().len() == 0,
{
}

} // verus!
