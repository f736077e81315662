use bdengine_desktop::app_state::AppState;
use bdengine_desktop::app_state::LaunchStep;
use bdengine_desktop::launch::launch_file;
use bdengine_desktop::launch::LaunchContext;
use bdengine_desktop::minecraft_proxy::MinecraftProxyHandle;
use bdengine_desktop::release_channel::ReleaseChannel;

fn state() -> AppState<String, u8> {
    AppState::new()
}

fn launch(link: &str) -> LaunchContext {
    let mut context = LaunchContext::default();
    context.deeplink = Some(link.to_string());
    context
}

#[test]
fn state_begins_empty() {
    let mut s = state();
    assert!(!s.get_launch_context().has_payload());
    assert_eq!(s.get_release_channel(), ReleaseChannel::Stable);
    assert_eq!(s.take_pending_installer_path(), None);
    assert!(s.list_minecraft_proxies().is_empty());
    assert!(s.get_launch_file_path().is_none());
}

#[test]
fn launch_is_kept_until_the_window_is_ready() {
    let mut s = state();
    assert_eq!(s.begin_launch(&launch("a"), false), LaunchStep::CreateWindow);
    assert_eq!(s.get_launch_context().deeplink.as_deref(), Some("a"));
    assert_eq!(
        s.begin_ready(false).err(),
        Some("Main window is not available.".to_string())
    );
    let context = s.begin_ready(true).ok().unwrap();
    assert_eq!(context.deeplink.as_deref(), Some("a"));
    assert!(!s.get_launch_context().has_payload());
    assert_eq!(
        s.finish_ready(context, Err("x".to_string())),
        Err("Could not dispatch launch context: x".to_string())
    );
    assert_eq!(s.get_launch_context().deeplink.as_deref(), Some("a"));
    let context = s.begin_ready(true).ok().unwrap();
    assert_eq!(s.finish_ready(context, Ok(())), Ok(()));
    assert!(!s.get_launch_context().has_payload());
}

#[test]
fn launch_with_a_window_is_handed_over() {
    let mut s = state();
    assert_eq!(s.begin_launch(&launch("b"), true), LaunchStep::Dispatch);
    s.finish_launch(launch("b"), false);
    assert_eq!(s.get_launch_context().deeplink.as_deref(), Some("b"));
    s.finish_launch(launch("b"), true);
    assert!(!s.get_launch_context().has_payload());
}

#[test]
fn launch_is_taken_once() {
    let mut s = state();
    let mut context = launch("c");
    context.files.push(launch_file("/p/f.bdengine", "f.bdengine", b"f"));
    s.set_launch_context(context);
    assert_eq!(s.get_launch_file_path().as_deref(), Some("/p/f.bdengine"));
    assert_eq!(s.take_launch_context().deeplink.as_deref(), Some("c"));
    assert!(!s.take_launch_context().has_payload());
}

#[test]
fn channel_is_changed_if_it_was_stored() {
    let mut s = state();
    assert_eq!(
        s.change_release_channel(ReleaseChannel::Beta, Err("full".to_string())),
        Err("full".to_string())
    );
    assert_eq!(s.get_release_channel(), ReleaseChannel::Stable);
    assert_eq!(
        s.change_release_channel(ReleaseChannel::Beta, Ok(())),
        Ok("beta".to_string())
    );
    assert_eq!(s.get_release_channel(), ReleaseChannel::Beta);
}

#[test]
fn installer_is_taken_once() {
    let mut s = state();
    s.set_pending_installer_path("setup".to_string());
    assert_eq!(s.take_pending_installer_path().as_deref(), Some("setup"));
    assert_eq!(s.take_pending_installer_path(), None);
    s.set_pending_installer_path("setup".to_string());
    s.clear_pending_installer_path();
    assert_eq!(s.take_pending_installer_path(), None);
}

#[test]
fn downloads_decide_the_installer() {
    let mut s = state();
    s.finish_download("one".to_string(), true);
    s.finish_download("two".to_string(), false);
    assert_eq!(s.take_pending_installer_path(), None);
    s.finish_download("three".to_string(), true);
    assert_eq!(s.take_pending_installer_path().as_deref(), Some("three"));
}

#[test]
fn proxies_are_kept() {
    let mut s = state();
    let (payload, info) = s.start_minecraft_proxy("h".to_string(), 1, 2, 7);
    assert_eq!(payload.proxy_id, info.proxy_id);
    s.insert_minecraft_proxy(MinecraftProxyHandle {
        proxy_id: "x".to_string(),
        host: "h".to_string(),
        port: 1,
        ws_url: "w".to_string(),
        link: 8,
    });
    let status = s.minecraft_proxy_status(&vec![true, false]);
    assert_eq!(status.proxies.len(), 2);
    assert!(status.proxies[0].connected);
    assert_eq!(s.stop_minecraft_proxy(&payload.proxy_id).ok().unwrap().unwrap().link, 7);
    assert_eq!(s.remove_minecraft_proxy("x").unwrap().link, 8);
    assert!(s.take_minecraft_proxies().is_empty());
    assert_eq!(
        s.stop_minecraft_proxy("").err(),
        Some("Minecraft proxy id is empty.".to_string())
    );
}
