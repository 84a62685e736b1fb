use algurulgar::engine::{step, Action, HostEvent, Phase};
use algurulgar::fps::FpsStats;
use algurulgar::viewport::{set_viewport, viewport, ViewportState};

#[test]
fn fps_refreshes_only_after_interval() {
    let mut stats = FpsStats::new(0);
    stats.update(60, 50_000, (800, 600));
    assert_eq!(stats.current(), 60);
    assert_eq!(stats.max(), 0);
    assert_eq!(stats.text, "");
    stats.update(61, 200_000, (800, 600));
    assert_eq!(stats.current(), 61);
    assert_eq!((stats.max(), stats.min(), stats.average()), (61, 61, 0));
    assert_eq!(stats.text, "FPS:   61 AVG:    0 MAX:   61 MIN:   61\t(800, 600)");
}

#[test]
fn fps_tracks_extremes_and_average() {
    let mut stats = FpsStats::new(0);
    let mut now = 0u64;
    for fps in [100u32, 50, 150, 100, 100, 100, 100, 100, 100, 100, 100] {
        now += 200_000;
        stats.update(fps, now, (1, 1));
    }
    assert_eq!(stats.max(), 150);
    assert_eq!(stats.min(), 50);
    // the average is taken before the latest sample joins the window
    assert_eq!(stats.average(), (100 + 50 + 150 + 100 * 7) / 10);
    now += 200_000;
    stats.update(20, now, (1, 1));
    // the window now holds the ten samples after the first
    assert_eq!(stats.average(), (50 + 150 + 100 * 8) / 10);
}

#[test]
fn fps_handles_clock_going_back() {
    let mut stats = FpsStats::new(1_000_000);
    stats.update(30, 10, (1, 1));
    assert_eq!(stats.max(), 0);
}

#[test]
fn viewport_is_latest_size() {
    let mut vp = ViewportState::new();
    assert_eq!(viewport(&vp), (0, 0));
    set_viewport(&mut vp, (1280, 720));
    set_viewport(&mut vp, (800, 600));
    assert_eq!(viewport(&vp), (800, 600));
}

#[test]
fn lifecycle_steps() {
    assert_eq!(
        step(Phase::Uninitialized, HostEvent::RedrawRequested),
        (Phase::Uninitialized, Action::Ignore)
    );
    assert_eq!(
        step(Phase::Uninitialized, HostEvent::Resumed),
        (Phase::Resumed, Action::CreateContext)
    );
    assert_eq!(step(Phase::Resumed, HostEvent::RedrawRequested), (Phase::Resumed, Action::Frame));
    assert_eq!(
        step(Phase::Resumed, HostEvent::AboutToWait),
        (Phase::Resumed, Action::RequestRedraw)
    );
    assert_eq!(
        step(Phase::Resumed, HostEvent::Resized(640, 480)),
        (Phase::Resumed, Action::Resize(640, 480))
    );
    assert_eq!(step(Phase::Resumed, HostEvent::Other), (Phase::Resumed, Action::Dispatch));
    assert_eq!(
        step(Phase::Resumed, HostEvent::Suspended),
        (Phase::Suspended, Action::DestroyContext)
    );
    assert_eq!(
        step(Phase::Suspended, HostEvent::Resized(1, 1)),
        (Phase::Suspended, Action::Ignore)
    );
    assert_eq!(
        step(Phase::Suspended, HostEvent::Resumed),
        (Phase::Resumed, Action::CreateContext)
    );
    assert_eq!(
        step(Phase::Resumed, HostEvent::CloseRequested),
        (Phase::Terminated, Action::Exit)
    );
    assert_eq!(
        step(Phase::Terminated, HostEvent::Resumed),
        (Phase::Terminated, Action::Ignore)
    );
}
