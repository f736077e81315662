//! What the page is told about one Minecraft proxy.
use vstd::prelude::*;

verus! {

/// One proxy, as it is reported to the page.
pub struct MinecraftProxyInfo {
    pub proxy_id: String,
    pub host: String,
    pub port: u16,
    pub ws_url: String,
    pub connected: bool,
}

/// The contents of a [`MinecraftProxyInfo`].
pub struct ProxyInfoView {
    pub proxy_id: Seq<char>,
    pub host: Seq<char>,
    pub port: u16,
    pub ws_url: Seq<char>,
    pub connected: bool,
}

impl View for MinecraftProxyInfo {
    type V = ProxyInfoView;

    open spec fn view(&self) -> ProxyInfoView {
        ProxyInfoView {
            proxy_id: self.proxy_id@,
            host: self.host@,
            port: self.port,
            ws_url: self.ws_url@,
            connected: self.connected,
        }
    }
}

impl MinecraftProxyInfo {
    /// The same proxy with the given connection state.
    pub fn with_connected(&self, connected: bool) -> (r: MinecraftProxyInfo)
        ensures
            r@ == (ProxyInfoView { connected, ..self@ }),
    {
        MinecraftProxyInfo {
            proxy_id: self.proxy_id.clone(),
            host: self.host.clone(),
            port: self.port,
            ws_url: self.ws_url.clone(),
            connected,
        }
    }
}

} // verus!
