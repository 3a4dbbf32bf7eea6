use cheesecake::env::AppEnv;
use cheesecake::lifecycle::{AxumLifecycle, AxumLifecycleTrait, LifecycleEffect};
use cheesecake::routing::{concurrency_limit, router_limits, serve_plan};
use cheesecake::view::{
    dev_socket_next, render_flag, setup_hotwatch, template_glob, DevSocketAction,
    DevSocketEvent, TemplateEventKind,
};

#[test]
fn concurrency_limit_is_one_and_a_half_times_pool() {
    assert_eq!(concurrency_limit(10), 15);
    assert_eq!(concurrency_limit(5), 7);
    assert_eq!(concurrency_limit(0), 0);
    assert_eq!(concurrency_limit(1), 1);
}

#[test]
fn concurrency_limit_matches_float_rule() {
    for m in [0u32, 1, 2, 3, 7, 10, 99, 1000, 65_535, 1 << 31, u32::MAX - 1, u32::MAX] {
        let expected = (m as f64 * 1.5) as usize;
        assert_eq!(concurrency_limit(m), expected, "pool of {m}");
    }
}

#[test]
fn router_limits_values() {
    let l = router_limits(20);
    assert_eq!(l.concurrency_limit, 30);
    assert_eq!(l.timeout_secs, 10);
}

#[test]
fn serve_plan_dev_and_release() {
    let d = serve_plan(true);
    assert_eq!(d.static_route, "/static");
    assert_eq!(d.static_dir, "resources/static");
    assert_eq!(d.dev_server_route, Some("/dev-server"));
    let r = serve_plan(false);
    assert_eq!(r.static_route, "/static");
    assert_eq!(r.static_dir, "dist/static");
    assert_eq!(r.dev_server_route, None);
}

#[test]
fn hotwatch_setup_values() {
    let s = setup_hotwatch();
    assert_eq!(s.directory, "resources/templates");
    assert_eq!(s.delay_nanos, 300_000_000);
}

#[test]
fn reload_on_real_changes_only() {
    let s = setup_hotwatch();
    assert_eq!(s.ignored, vec![TemplateEventKind::Any, TemplateEventKind::Other]);
    assert!(!s.reloads_on(TemplateEventKind::Any));
    assert!(!s.reloads_on(TemplateEventKind::Other));
    assert!(s.reloads_on(TemplateEventKind::Create));
    assert!(s.reloads_on(TemplateEventKind::Modify));
    assert!(s.reloads_on(TemplateEventKind::Remove));
    assert!(s.reloads_on(TemplateEventKind::Access));
}

#[test]
fn template_globs() {
    assert_eq!(template_glob(true), "resources/templates**/*.html");
    assert_eq!(template_glob(false), "dist/templates**/*.html");
}

#[test]
fn render_flag_entry() {
    assert_eq!(render_flag(true), ("env_is_dev", true));
    assert_eq!(render_flag(false), ("env_is_dev", false));
}

#[test]
fn dev_socket_passes_changes_on() {
    assert_eq!(dev_socket_next(DevSocketEvent::TemplatesChanged), DevSocketAction::SendReload);
    assert_eq!(dev_socket_next(DevSocketEvent::Sent), DevSocketAction::WaitForChange);
    assert_eq!(dev_socket_next(DevSocketEvent::WatcherClosed), DevSocketAction::Close);
    assert_eq!(dev_socket_next(DevSocketEvent::SendFailed), DevSocketAction::Close);
}

#[test]
fn lifecycle_hooks() {
    assert!(AxumLifecycle::before_axum_start().is_empty());
    assert!(AxumLifecycle::after_axum_start().is_empty());
    let close = AxumLifecycle::before_axum_close();
    assert_eq!(close.len(), 2);
    assert!(matches!(&close[0], LifecycleEffect::Warn(m) if m == "The server is shutting down!"));
    assert!(
        matches!(&close[1], LifecycleEffect::Info(m) if m == "Waiting for pending requests (max. 15s)...")
    );
    let closed = AxumLifecycle::after_axum_close();
    assert_eq!(closed.len(), 2);
    assert!(
        matches!(&closed[0], LifecycleEffect::Info(m) if m == "All pending requests have been processed!")
    );
    assert!(matches!(closed[1], LifecycleEffect::ClosePool));
}

#[test]
fn app_env_builds() {
    let _env: AppEnv = AppEnv::new();
}
