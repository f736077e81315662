//! What the running application remembers: the launch that the page has not heard of
//! yet, the release channel, the installer to run at the end, and the proxies.
use vstd::prelude::*;
use vstd::string::*;

use crate::launch;
use crate::launch::LaunchContext;
use crate::launch::LaunchContextView;
use crate::minecraft_proxy;
use crate::minecraft_proxy::MinecraftProxyHandle;
use crate::minecraft_proxy::MinecraftProxyStartPayload;
use crate::minecraft_proxy::MinecraftProxyStatusPayload;
use crate::minecraft_proxy::ProxyRegistry;
use crate::proxy_info::MinecraftProxyInfo;
use crate::release_channel;
use crate::release_channel::ReleaseChannel;
use crate::text;

verus! {

/// The state of the application. `P` is the path of a file, `L` is what ties a proxy
/// to the task that serves it.
pub struct AppState<P, L> {
    launch_context: LaunchContext,
    release_channel: ReleaseChannel,
    pending_installer_path: Option<P>,
    minecraft_proxies: ProxyRegistry<L>,
}

/// What to do for a launch.
#[derive(Clone, Copy, Debug, PartialEq, Eq, Structural)]
pub enum LaunchStep {
    /// Open the window, which asks for the launch when it is ready.
    CreateWindow,
    /// Hand the launch to the page.
    Dispatch,
}

impl<P, L> AppState<P, L> {
    /// The launch that the page has not heard of yet.
    pub closed spec fn context(&self) -> LaunchContextView {
        self.launch_context@
    }

    /// The release channel.
    pub closed spec fn channel(&self) -> ReleaseChannel {
        self.release_channel
    }

    /// The installer to run at the end.
    pub closed spec fn installer(&self) -> Option<P> {
        self.pending_installer_path
    }

    /// The proxies that are running, in the order in which they were started.
    pub closed spec fn proxies(&self) -> Seq<MinecraftProxyHandle<L>> {
        self.minecraft_proxies.handles()
    }

    /// No two proxies have the same identifier.
    pub open spec fn wf(&self) -> bool {
        minecraft_proxy::distinct_ids(self.proxies())
    }

    /// Nothing but the launch differs.
    pub open spec fn same_but_context(&self, other: &AppState<P, L>) -> bool {
        &&& self.channel() == other.channel()
        &&& self.installer() == other.installer()
        &&& self.proxies() == other.proxies()
    }

    /// Nothing but the installer differs.
    pub open spec fn same_but_installer(&self, other: &AppState<P, L>) -> bool {
        &&& self.context() == other.context()
        &&& self.channel() == other.channel()
        &&& self.proxies() == other.proxies()
    }

    /// Nothing but the proxies differs.
    pub open spec fn same_but_proxies(&self, other: &AppState<P, L>) -> bool {
        &&& self.context() == other.context()
        &&& self.channel() == other.channel()
        &&& self.installer() == other.installer()
    }

    /// The state of an application that has just started.
    pub fn new() -> (r: AppState<P, L>)
        ensures
            r.wf(),
            r.context() == launch::empty_context(),
            r.channel() == ReleaseChannel::Stable,
            r.installer() is None,
            r.proxies() == Seq::<MinecraftProxyHandle<L>>::empty(),
    {
        AppState {
            launch_context: LaunchContext::default(),
            release_channel: ReleaseChannel::default(),
            pending_installer_path: None,
            minecraft_proxies: ProxyRegistry::new(),
        }
    }

    /// The launch that the page has not heard of yet.
    pub fn get_launch_context(&self) -> (r: LaunchContext)
        ensures
            r@ == self.context(),
    {
        self.launch_context.clone()
    }

    /// Takes out the launch that the page has not heard of yet.
    pub fn take_launch_context(&mut self) -> (r: LaunchContext)
        ensures
            r@ == old(self).context(),
            final(self).context() == launch::empty_context(),
            final(self).same_but_context(old(self)),
    {
        let mut taken: LaunchContext = LaunchContext::default();
        std::mem::swap(&mut taken, &mut self.launch_context);
        taken
    }

    /// Keeps a launch for the page.
    pub fn set_launch_context(&mut self, context: LaunchContext)
        ensures
            final(self).context() == context@,
            final(self).same_but_context(old(self)),
    {
        self.launch_context = context;
    }

    /// The path of the first file of the launch.
    pub fn get_launch_file_path(&self) -> (r: Option<String>)
        ensures
            text::optional_text(r) == (if self.context().files.len() > 0 {
                Some(self.context().files[0].path)
            } else {
                None
            }),
    {
        self.launch_context.first_file_path()
    }

    /// The release channel.
    pub fn get_release_channel(&self) -> (r: ReleaseChannel)
        ensures
            r == self.channel(),
    {
        self.release_channel
    }

    /// Sets the release channel.
    pub fn set_release_channel(&mut self, channel: ReleaseChannel)
        ensures
            final(self).channel() == channel,
            final(self).context() == old(self).context(),
            final(self).installer() == old(self).installer(),
            final(self).proxies() == old(self).proxies(),
    {
        self.release_channel = channel;
    }

    /// Sets the release channel that the page asked for, unless it could not be stored,
    /// and tells the page its name. The page asked for it by its name.
    pub fn change_release_channel(
        &mut self,
        channel: ReleaseChannel,
        stored: Result<(), String>,
    ) -> (r: Result<String, String>)
        ensures
            final(self).context() == old(self).context(),
            final(self).installer() == old(self).installer(),
            final(self).proxies() == old(self).proxies(),
            match stored {
                Ok(_) => {
                    &&& final(self).channel() == channel
                    &&& r matches Ok(name) && name@ == release_channel::channel_name(channel)
                },
                Err(error) => {
                    &&& final(self).channel() == old(self).channel()
                    &&& r matches Err(message) && message@ == error@
                },
            },
    {
        match stored {
            Ok(_) => {
                self.set_release_channel(channel);
                Ok(channel.as_str().to_owned())
            },
            Err(error) => Err(error),
        }
    }

    /// Keeps an installer to run at the end.
    pub fn set_pending_installer_path(&mut self, path: P)
        ensures
            final(self).installer() == Some(path),
            final(self).same_but_installer(old(self)),
    {
        self.pending_installer_path = Some(path);
    }

    /// Forgets the installer.
    pub fn clear_pending_installer_path(&mut self)
        ensures
            final(self).installer() is None,
            final(self).same_but_installer(old(self)),
    {
        self.pending_installer_path = None;
    }

    /// Ends a download into the file at a path: an update that was downloaded is the
    /// installer to run, and after a failure there is none.
    pub fn finish_download(&mut self, path: P, succeeded: bool)
        ensures
            final(self).installer() == (if succeeded {
                Some(path)
            } else {
                None
            }),
            final(self).same_but_installer(old(self)),
    {
        if succeeded {
            self.set_pending_installer_path(path);
        } else {
            self.clear_pending_installer_path();
        }
    }

    /// Takes out the installer to run.
    pub fn take_pending_installer_path(&mut self) -> (r: Option<P>)
        ensures
            r == old(self).installer(),
            final(self).installer() is None,
            final(self).same_but_installer(old(self)),
    {
        self.pending_installer_path.take()
    }

    /// Begins with a launch. Without a window it is kept until the window is ready; with
    /// one it is handed to the page at once.
    pub fn begin_launch(&mut self, context: &LaunchContext, has_window: bool) -> (r: LaunchStep)
        ensures
            final(self).same_but_context(old(self)),
            has_window ==> r == LaunchStep::Dispatch && final(self).context() == old(
                self,
            ).context(),
            !has_window ==> r == LaunchStep::CreateWindow && final(self).context() == context@,
    {
        if has_window {
            LaunchStep::Dispatch
        } else {
            self.set_launch_context(context.clone());
            LaunchStep::CreateWindow
        }
    }

    /// Ends a launch that was handed to the page. If the page has heard of it nothing is
    /// kept, otherwise the launch is.
    pub fn finish_launch(&mut self, context: LaunchContext, dispatched: bool)
        ensures
            final(self).same_but_context(old(self)),
            final(self).context() == (if dispatched {
                launch::empty_context()
            } else {
                context@
            }),
    {
        if dispatched {
            self.set_launch_context(LaunchContext::default());
        } else {
            self.set_launch_context(context);
        }
    }

    /// Begins when the page is ready: takes out the launch to hand to it.
    pub fn begin_ready(&mut self, has_window: bool) -> (r: Result<LaunchContext, String>)
        ensures
            final(self).same_but_context(old(self)),
            match r {
                Ok(context) => {
                    &&& has_window
                    &&& context@ == old(self).context()
                    &&& final(self).context() == launch::empty_context()
                },
                Err(message) => {
                    &&& !has_window
                    &&& message@ == "Main window is not available."@
                    &&& final(self).context() == old(self).context()
                },
            },
    {
        if has_window {
            Ok(self.take_launch_context())
        } else {
            Err("Main window is not available.".to_owned())
        }
    }

    /// Ends when the launch was handed to the page that is ready, or was not.
    pub fn finish_ready(
        &mut self,
        context: LaunchContext,
        dispatched: Result<(), String>,
    ) -> (r: Result<(), String>)
        ensures
            final(self).same_but_context(old(self)),
            match dispatched {
                Ok(_) => r is Ok && final(self).context() == old(self).context(),
                Err(error) => {
                    &&& final(self).context() == context@
                    &&& r matches Err(message) && message@
                        == "Could not dispatch launch context: "@ + error@
                },
            },
    {
        match dispatched {
            Ok(_) => Ok(()),
            Err(error) => {
                self.set_launch_context(context);
                Err(text::concat2("Could not dispatch launch context: ", error.as_str()))
            },
        }
    }

    /// Adds a proxy, in place of one with the same identifier.
    pub fn insert_minecraft_proxy(&mut self, proxy: MinecraftProxyHandle<L>)
        requires
            old(self).wf(),
        ensures
            final(self).wf(),
            final(self).same_but_proxies(old(self)),
            final(self).proxies() == minecraft_proxy::without(
                old(self).proxies(),
                proxy.proxy_id@,
            ).push(proxy),
    {
        self.minecraft_proxies.insert(proxy);
    }

    /// Takes out the proxy with the given identifier, if there is one.
    pub fn remove_minecraft_proxy(&mut self, proxy_id: &str) -> (r: Option<
        MinecraftProxyHandle<L>,
    >)
        requires
            old(self).wf(),
        ensures
            final(self).wf(),
            final(self).same_but_proxies(old(self)),
            final(self).proxies() == minecraft_proxy::without(old(self).proxies(), proxy_id@),
            r == minecraft_proxy::registered(old(self).proxies(), proxy_id@),
    {
        self.minecraft_proxies.remove(proxy_id)
    }

    /// The proxies that are running, in the order in which they were started.
    pub fn list_minecraft_proxies(&self) -> (r: &Vec<MinecraftProxyHandle<L>>)
        ensures
            r@ == self.proxies(),
    {
        self.minecraft_proxies.list()
    }

    /// What the page gets when it asks for the proxies; `connected` tells of each of
    /// them whether it has a client.
    pub fn minecraft_proxy_status(&self, connected: &Vec<bool>) -> (r: MinecraftProxyStatusPayload)
        requires
            connected@.len() == self.proxies().len(),
        ensures
            r.running == (self.proxies().len() > 0),
            r.proxies@.len() == self.proxies().len(),
            forall|i: int|
                0 <= i < self.proxies().len() ==> (#[trigger] r.proxies@[i])@
                    == minecraft_proxy::handle_info(self.proxies()[i], connected@[i]),
    {
        self.minecraft_proxies.status(connected)
    }

    /// Takes out all proxies.
    pub fn take_minecraft_proxies(&mut self) -> (r: Vec<MinecraftProxyHandle<L>>)
        requires
            old(self).wf(),
        ensures
            final(self).wf(),
            final(self).same_but_proxies(old(self)),
            final(self).proxies() == Seq::<MinecraftProxyHandle<L>>::empty(),
            r@ == old(self).proxies(),
    {
        self.minecraft_proxies.take_all()
    }

    /// Adds a proxy under an identifier drawn at random. The result is what the page gets for it,
    /// and what is reported of it.
    pub fn start_minecraft_proxy(
        &mut self,
        host: String,
        port: u16,
        local_port: u16,
        link: L,
    ) -> (r: (MinecraftProxyStartPayload, MinecraftProxyInfo))
        requires
            old(self).wf(),
        ensures
            final(self).wf(),
            final(self).same_but_proxies(old(self)),
            exists|id: String| #[trigger]
                minecraft_proxy::drawn(id) && id@ == r.0.proxy_id@,
            minecraft_proxy::is_random_uuid(r.0.proxy_id@),
            r.0.ws_url@ == minecraft_proxy::ws_url_of(local_port, r.0.proxy_id@),
            final(self).proxies().len() > 0,
            final(self).proxies().drop_last() == minecraft_proxy::without(
                old(self).proxies(),
                r.0.proxy_id@,
            ),
            ({
                let handle = final(self).proxies().last();
                &&& handle.proxy_id@ == r.0.proxy_id@
                &&& handle.host@ == host@
                &&& handle.port == port
                &&& handle.ws_url@ == r.0.ws_url@
                &&& handle.link == link
                &&& r.1@ == minecraft_proxy::handle_info(handle, false)
            }),
    {
        self.minecraft_proxies.start_proxy(host, port, local_port, link)
    }

    /// Takes out the proxy that the page wants to stop, if it is running.
    pub fn stop_minecraft_proxy(&mut self, proxy_id: &str) -> (r: Result<
        Option<MinecraftProxyHandle<L>>,
        String,
    >)
        requires
            old(self).wf(),
        ensures
            final(self).wf(),
            final(self).same_but_proxies(old(self)),
            match r {
                Ok(handle) => {
                    &&& !text::is_blank(proxy_id@)
                    &&& handle == minecraft_proxy::registered(
                        old(self).proxies(),
                        text::trimmed(proxy_id@),
                    )
                    &&& final(self).proxies() == minecraft_proxy::without(
                        old(self).proxies(),
                        text::trimmed(proxy_id@),
                    )
                },
                Err(error) => {
                    &&& text::is_blank(proxy_id@)
                    &&& error@ == "Minecraft proxy id is empty."@
                    &&& final(self).proxies() == old(self).proxies()
                },
            },
    {
        self.minecraft_proxies.stop(proxy_id)
    }
}

} // verus!
