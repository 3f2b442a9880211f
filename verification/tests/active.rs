use cinnamon_wallpaper::active::{
    after_forceful_signal, after_polite_signal, apply_plan, apply_targets, apply_to_monitors,
    apply_wallpaper, applying_notice, get_pid_file_path, inherit_active_from_env,
    mark_active_wallpaper, name_to_show, pid_to_probe, process_ended, request_stop_wallpaper,
    signal_target, started_notice, stop_notice, terminate_active_wallpaper, terminating_notice,
    termination, ActiveWallpaper, Notice, ProcessEnd, Signalled, StopRequest, Termination,
    TerminationAction, TerminationEvent,
};
use cinnamon_wallpaper::config::Config;

fn success(n: &Notice) -> &str {
    match n {
        Notice::Success(t) => t,
        Notice::Error(t) => panic!("error: {}", t),
    }
}

fn error(n: &Notice) -> &str {
    match n {
        Notice::Error(t) => t,
        Notice::Success(t) => panic!("success: {}", t),
    }
}

fn running(path: &str, pid: u32) -> ActiveWallpaper {
    let mut a = ActiveWallpaper::default();
    let _ = a.set_active(path, pid);
    a
}

#[test]
fn pid_file_place() {
    assert_eq!(get_pid_file_path(Some("/run/u"), Some("/h")), "/run/u/cinnamon-wallpaper.pid");
    assert_eq!(
        get_pid_file_path(None, Some("/h")),
        "/h/.local/share/cinnamon-wallpaper/cinnamon-wallpaper.pid"
    );
    assert_eq!(get_pid_file_path(None, None), "/tmp/cinnamon-wallpaper.pid");
}

#[test]
fn pid_file_round_trip() {
    for pid in [0, 1, 4242, u32::MAX] {
        let mut a = ActiveWallpaper::default();
        let file = a.set_active("/v.mp4", pid);
        assert!(file.ends_with('\n'));
        assert_eq!(pid_to_probe(&file), Some(pid));
    }
    assert_eq!(pid_to_probe(" \t77\r\n"), Some(77));
    assert_eq!(pid_to_probe("x"), None);
    assert_eq!(pid_to_probe(""), None);
}

#[test]
fn active_state() {
    let mut a = ActiveWallpaper::default();
    assert!(!a.is_active() && a.process_id().is_none() && a.video_path().is_none());
    assert_eq!(a.set_active("/v.mp4", 12), "12\n");
    assert!(a.is_active());
    assert_eq!(a.process_id(), Some(12));
    assert_eq!(a.video_path(), Some("/v.mp4".to_string()));
    a.clear();
    assert!(!a.is_active() && a.process_id().is_none() && a.video_path().is_none());
}

#[test]
fn same_video_by_components() {
    let a = running("/v/x.mp4", 1);
    assert!(a.is_same_video("/v/x.mp4"));
    assert!(a.is_same_video("/v//./x.mp4"));
    assert!(!a.is_same_video("/v/y.mp4"));
    assert!(!a.is_same_video("v/x.mp4"));
    assert!(!ActiveWallpaper::default().is_same_video(""));
}

#[test]
fn restoring_a_process() {
    let mut a = ActiveWallpaper::default();
    assert!(a.restore(5, false, Some(Some("/v.mp4".to_string()))));
    assert!(!a.is_active());
    assert!(!a.restore(5, true, Some(Some("/v.mp4".to_string()))));
    assert_eq!(a.process_id(), Some(5));
    assert_eq!(a.video_path(), Some("/v.mp4".to_string()));
    assert!(!a.restore(6, true, None));
    assert_eq!(a.video_path(), Some("/v.mp4".to_string()));
    assert!(!a.restore(6, true, Some(None)));
    assert_eq!(a.video_path(), None);
    assert_eq!(signal_target(7), 7);
    assert_eq!(signal_target(u32::MAX), -1);
}

#[test]
fn inherited_from_the_environment() {
    let mut a = ActiveWallpaper::default();
    assert_eq!(inherit_active_from_env(&mut a, Some("x"), Some("/v")), None);
    assert_eq!(inherit_active_from_env(&mut a, Some("3"), None), None);
    assert_eq!(inherit_active_from_env(&mut a, None, Some("/v")), None);
    assert_eq!(inherit_active_from_env(&mut a, Some("3\n"), Some("/v")), None);
    assert!(!a.is_active());
    assert_eq!(inherit_active_from_env(&mut a, Some("3"), Some("/v")), Some("3\n".to_string()));
    assert_eq!(a.process_id(), Some(3));
    assert_eq!(mark_active_wallpaper(&mut a, "/w", 4), "4\n");
    assert_eq!(a.video_path(), Some("/w".to_string()));
}

#[test]
fn stop_request_is_kept() {
    let mut stop = StopRequest::new();
    assert!(!stop.is_requested());
    request_stop_wallpaper(&mut stop);
    request_stop_wallpaper(&mut stop);
    assert!(stop.is_requested());
}

#[test]
fn ending_the_wallpaper() {
    assert_eq!(termination(&ActiveWallpaper::default(), 9), Termination::Nothing);
    assert_eq!(termination(&running("/v", 9), 9), Termination::RequestStop(9));
    assert_eq!(termination(&running("/v", 8), 9), Termination::Signal(8));
    assert_eq!(success(&terminating_notice(8)), "🔄 Terminando wallpaper anterior (PID: 8)");
    assert_eq!(
        success(&after_polite_signal(Signalled::Delivered).unwrap()),
        "✅ Wallpaper anterior terminado exitosamente"
    );
    assert!(after_polite_signal(Signalled::Refused).is_none());
    assert_eq!(
        error(&after_polite_signal(Signalled::NotSent("x".to_string())).unwrap()),
        "❌ Error al intentar terminar proceso anterior: x"
    );
    for r in [Signalled::Delivered, Signalled::Refused] {
        assert_eq!(
            success(&after_forceful_signal(r)),
            "✅ Wallpaper anterior terminado forzosamente"
        );
    }
    assert_eq!(
        error(&after_forceful_signal(Signalled::NotSent("y".to_string()))),
        "❌ No se pudo terminar el proceso anterior: y"
    );
}

// Runs the steps to the end. Returns the signals that were sent and the messages.
fn terminate(
    a: &mut ActiveWallpaper,
    stop: &mut StopRequest,
    polite: Signalled,
    forceful: Signalled,
) -> (Vec<String>, Vec<String>, bool) {
    let (mut polite, mut forceful) = (Some(polite), Some(forceful));
    let (mut signals, mut messages) = (Vec::new(), Vec::new());
    let mut event = TerminationEvent::Begun;
    loop {
        let step = terminate_active_wallpaper(a, stop, 9, event);
        for notice in step.notices {
            match notice {
                Notice::Success(t) => messages.push(t),
                Notice::Error(t) => messages.push(t),
            }
        }
        event = match step.action {
            TerminationAction::SignalPolitely(pid) => {
                signals.push(format!("TERM {}", pid));
                TerminationEvent::Polite(polite.take().unwrap())
            }
            TerminationAction::SignalForcefully(pid) => {
                signals.push(format!("KILL {}", pid));
                TerminationEvent::Forceful(forceful.take().unwrap())
            }
            TerminationAction::Finish { wait } => return (signals, messages, wait),
        };
    }
}

#[test]
fn termination_clears_whatever_the_signals_do() {
    let refused = || Signalled::Refused;
    let unsent = || Signalled::NotSent("x".to_string());
    let outcomes = [
        (Signalled::Delivered, refused(), 1, "✅ Wallpaper anterior terminado exitosamente"),
        (unsent(), refused(), 1, "❌ Error al intentar terminar proceso anterior: x"),
        (refused(), Signalled::Delivered, 2, "✅ Wallpaper anterior terminado forzosamente"),
        (refused(), refused(), 2, "✅ Wallpaper anterior terminado forzosamente"),
        (refused(), unsent(), 2, "❌ No se pudo terminar el proceso anterior: x"),
    ];
    for (polite, forceful, sent, last) in outcomes {
        let mut a = running("/v", 8);
        let mut stop = StopRequest::new();
        let (signals, messages, wait) = terminate(&mut a, &mut stop, polite, forceful);
        assert_eq!(signals[..], ["TERM 8", "KILL 8"][..sent]);
        assert_eq!(messages, vec!["🔄 Terminando wallpaper anterior (PID: 8)", last]);
        assert!(wait && !stop.is_requested());
        assert!(!a.is_active() && a.process_id().is_none() && a.video_path().is_none());
    }
}

#[test]
fn own_wallpaper_is_requested_to_stop() {
    let mut a = running("/v", 9);
    let mut stop = StopRequest::new();
    let (signals, messages, wait) =
        terminate(&mut a, &mut stop, Signalled::Delivered, Signalled::Delivered);
    assert!(signals.is_empty() && !wait && stop.is_requested() && !a.is_active());
    assert_eq!(messages.len(), 1);
    let (signals, messages, wait) =
        terminate(&mut a, &mut stop, Signalled::Delivered, Signalled::Delivered);
    assert!(signals.is_empty() && messages.is_empty() && !wait && stop.is_requested());
}

#[test]
fn stop_button() {
    assert_eq!(
        error(&stop_notice(&ActiveWallpaper::default())),
        "❌ No hay wallpaper activo para detener."
    );
    assert_eq!(success(&stop_notice(&running("/v", 1))), "✅ Wallpaper detenido exitosamente");
}

#[test]
fn video_goes_to_all_monitors() {
    assert_eq!(apply_targets(None), vec![0]);
    assert_eq!(apply_targets(Some(0)), vec![0]);
    assert_eq!(apply_targets(Some(1)), vec![0]);
    assert_eq!(apply_targets(Some(3)), vec![0, 1, 2]);
    let mut a = ActiveWallpaper::default();
    let mut config = Config::default();
    config.cinnamon.preserve_native_wallpaper = true;
    let plans = apply_to_monitors(&a, "/v/x.mp4", Some(3), Some(config)).unwrap();
    assert_eq!(plans.len(), 3);
    for (i, plan) in plans.iter().enumerate() {
        assert_eq!(
            plan.arguments,
            vec!["/v/x.mp4".to_string(), "--monitor".to_string(), i.to_string()]
        );
        assert_eq!((plan.monitor, plan.config.cinnamon.last_monitor_index), (i, Some(i)));
        assert!(!plan.save_native);
        // The process of one monitor does not keep the video from the next one.
        let _ = a.set_active("/v/x.mp4", 40 + i as u32);
    }
    assert_eq!(a.process_id(), Some(42));
    assert!(apply_to_monitors(&a, "/v//x.mp4", Some(3), None).is_none());
    assert_eq!(apply_to_monitors(&a, "/v/y.mp4", Some(2), None).unwrap().len(), 2);
    assert_eq!(apply_to_monitors(&a, "/v/y.mp4", None, None).unwrap().len(), 1);
    assert_eq!(apply_plan("/v/x.mp4", 1, None).arguments[2], "1");
    let _ = a.set_active("/v/y.mp4", 50);
    assert!(!process_ended(&mut a, "/v/x.mp4", ProcessEnd::Success).0);
    assert!(process_ended(&mut a, "/v/y.mp4", ProcessEnd::Success).0);
    assert!(apply_to_monitors(&a, "/v/y.mp4", None, None).is_some());
}

#[test]
fn applying_a_video() {
    let a = ActiveWallpaper::default();
    let plan = apply_wallpaper(&a, "/v/x.mp4", 2, None).unwrap();
    assert_eq!(plan.config.cinnamon.last_video_path.as_deref(), Some("/v/x.mp4"));
    assert_eq!(plan.config.cinnamon.last_monitor_index, Some(2));
    assert!(plan.save_native);
    assert_eq!(
        plan.arguments,
        vec!["/v/x.mp4".to_string(), "--monitor".to_string(), "2".to_string()]
    );
    let mut config = Config::default();
    config.cinnamon.preserve_native_wallpaper = true;
    config.video.target_fps = 24;
    let plan = apply_wallpaper(&a, "/v/x.mp4", 0, Some(config)).unwrap();
    assert!(!plan.save_native);
    assert_eq!(plan.config.video.target_fps, 24);
    assert!(apply_wallpaper(&running("/v/x.mp4", 1), "/v/x.mp4", 0, None).is_none());
    assert_eq!(success(&applying_notice("/v/x.mp4", false)), "🌟 Aplicando wallpaper: x.mp4");
    assert_eq!(
        success(&applying_notice("/v/x.mp4", true)),
        "⚠️ El video x.mp4 ya está aplicado como wallpaper"
    );
    assert_eq!(success(&started_notice(31)), "✅ Proceso de wallpaper iniciado (PID: 31)");
    assert_eq!(name_to_show("/v/.."), "");
}

#[test]
fn process_ends() {
    for (end, text) in [
        (ProcessEnd::Success, "✅ Wallpaper terminado exitosamente"),
        (ProcessEnd::Signal(15), "✅ Wallpaper detenido exitosamente"),
        (ProcessEnd::Signal(9), "✅ Wallpaper detenido exitosamente"),
    ] {
        let mut a = running("/v", 1);
        let (cleared, notice) = process_ended(&mut a, "/v", end);
        assert!(cleared && !a.is_active());
        assert_eq!(success(&notice), text);
    }
    for (end, text) in [
        (ProcessEnd::Signal(11), "❌ El proceso de wallpaper terminó con señal: 11"),
        (ProcessEnd::Failure, "❌ El proceso de wallpaper terminó con error"),
        (ProcessEnd::WaitFailed("w".to_string()), "❌ Error esperando el proceso: w"),
    ] {
        let mut a = running("/v", 1);
        let (cleared, notice) = process_ended(&mut a, "/v", end);
        assert!(cleared);
        assert_eq!(error(&notice), text);
    }
}

#[test]
fn replaced_process_leaves_no_trace() {
    let mut a = running("/new", 2);
    let (cleared, _) = process_ended(&mut a, "/old", ProcessEnd::Success);
    assert!(!cleared);
    assert_eq!(a.process_id(), Some(2));
    let (cleared, _) = process_ended(&mut a, "/old", ProcessEnd::WaitFailed(String::new()));
    assert!(cleared && !a.is_active());
}
