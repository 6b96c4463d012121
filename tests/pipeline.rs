use stormtracker::bus::{Bus, BusError, ThreadMessage};
use stormtracker::console::{Console, LoggingTab, MessageType};
use stormtracker::endpoint::{endpoint_from_search, validate_endpoint, EndpointError};
use stormtracker::registry::{Color, Registry};
use stormtracker::server::{Server, Worker, WorkerAction, WorkerEvent, WorkerPhase};

fn red() -> Color {
    Color { r: 255, g: 0, b: 0, a: 255 }
}

fn blue() -> Color {
    Color { r: 0, g: 0, b: 255, a: 255 }
}

#[test]
fn create_gives_distinct_alphanumeric_identifiers() {
    let mut reg: Registry<f64> = Registry::new();
    let mut ids: Vec<String> = Vec::new();
    for _ in 0..50 {
        let id = reg.create(red()).expect("identifier space is large");
        assert_eq!(id.len(), 16);
        assert!(id.chars().all(|c| c.is_ascii_alphanumeric()));
        ids.push(id);
    }
    assert_eq!(reg.len(), 50);
    for i in 0..ids.len() {
        for j in (i + 1)..ids.len() {
            assert_ne!(ids[i], ids[j]);
        }
    }
    let c = reg.get(&ids[0]).unwrap();
    assert!(c.values.is_empty());
    assert!(c.show);
    assert_eq!(c.color, red());
}

#[test]
fn create_with_refuses_taken_identifier() {
    let mut reg: Registry<f64> = Registry::new();
    assert!(reg.create_with("A".to_string(), red()));
    assert!(!reg.create_with("A".to_string(), blue()));
    assert_eq!(reg.len(), 1);
    assert_eq!(reg.get(&"A".to_string()).unwrap().color, red());
}

#[test]
fn append_to_unknown_identifier_is_ignored() {
    let mut reg: Registry<f64> = Registry::new();
    reg.create_with("A".to_string(), red());
    reg.append(&"A".to_string(), 1.0);
    reg.append(&"B".to_string(), 2.0);
    assert_eq!(reg.len(), 1);
    assert_eq!(reg.get(&"A".to_string()).unwrap().values, vec![1.0]);
    assert!(!reg.contains(&"B".to_string()));
}

#[test]
fn clear_empties_but_keeps_channel() {
    let mut reg: Registry<f64> = Registry::new();
    reg.create_with("A".to_string(), red());
    reg.append(&"A".to_string(), 1.0);
    reg.append(&"A".to_string(), 2.0);
    reg.clear(&"A".to_string());
    assert!(reg.contains(&"A".to_string()));
    assert!(reg.get(&"A".to_string()).unwrap().values.is_empty());
    let vis = reg.iter_visible();
    assert_eq!(vis.len(), 1);
    assert_eq!(vis[0].0, "A");
    reg.clear(&"Z".to_string());
    assert_eq!(reg.len(), 1);
}

#[test]
fn iter_visible_skips_hidden_channels() {
    let mut reg: Registry<f64> = Registry::new();
    reg.create_with("A".to_string(), red());
    reg.create_with("B".to_string(), blue());
    reg.create_with("C".to_string(), red());
    reg.set_visible(&"B".to_string(), false);
    let vis: Vec<String> = reg.iter_visible().iter().map(|(k, _)| (*k).clone()).collect();
    assert_eq!(vis, vec!["A".to_string(), "C".to_string()]);
    for (_, c) in reg.iter_visible() {
        assert!(c.show);
    }
    reg.set_visible(&"B".to_string(), true);
    assert_eq!(reg.iter_visible().len(), 3);
}

#[test]
fn set_color_and_remove() {
    let mut reg: Registry<f64> = Registry::new();
    reg.create_with("A".to_string(), red());
    reg.create_with("B".to_string(), red());
    reg.set_color(&"B".to_string(), blue());
    assert_eq!(reg.get(&"B".to_string()).unwrap().color, blue());
    reg.remove(&"A".to_string());
    assert!(!reg.contains(&"A".to_string()));
    assert_eq!(reg.len(), 1);
    reg.remove(&"A".to_string());
    assert_eq!(reg.len(), 1);
}

#[test]
fn bus_drains_in_sending_order() {
    let mut bus: Bus<f64> = Bus::new();
    assert!(bus.drain().is_empty());
    bus.send(ThreadMessage::PlotPoint(1.0)).unwrap();
    bus.send(ThreadMessage::PlotPoint(2.0)).unwrap();
    let first = bus.drain();
    bus.send(ThreadMessage::PlotPoint(3.0)).unwrap();
    let second = bus.drain();
    let mut all: Vec<f64> = Vec::new();
    for m in first.into_iter().chain(second.into_iter()) {
        match m {
            ThreadMessage::PlotPoint(v) => all.push(v),
            _ => panic!("unexpected event"),
        }
    }
    assert_eq!(all, vec![1.0, 2.0, 3.0]);
    assert!(bus.drain().is_empty());
}

#[test]
fn send_after_close_fails() {
    let mut bus: Bus<f64> = Bus::new();
    bus.close();
    assert!(bus.closed());
    assert_eq!(bus.send(ThreadMessage::PlotPoint(1.0)), Err(BusError::ChannelClosed));
    assert!(bus.drain().is_empty());
}

#[test]
fn server_start_is_idempotent() {
    let mut s = Server::new();
    assert!(!s.is_running());
    assert_eq!(s.start(), Some("127.0.0.1:6969".to_string()));
    assert!(s.is_running());
    assert_eq!(s.start(), None);
    assert!(s.is_running());
}

#[test]
fn worker_bind_failure_reports_endpoint_once() {
    let mut w = Worker::new("127.0.0.1:6969".to_string(), None);
    assert!(matches!(w.begin::<f64>(), WorkerAction::Bind));
    assert!(matches!(w.begin::<f64>(), WorkerAction::Nothing));
    match w.on_event::<f64>(WorkerEvent::BindFailed) {
        WorkerAction::Report(ThreadMessage::Error(t)) => {
            assert_eq!(t, "Invalid endpoint (127.0.0.1:6969)");
            assert!(t.contains("127.0.0.1:6969"));
        }
        _ => panic!("expected an error report"),
    }
    assert_eq!(w.phase, WorkerPhase::Failed);
    assert!(matches!(w.on_event::<f64>(WorkerEvent::BindFailed), WorkerAction::Nothing));
    assert!(matches!(w.on_event::<f64>(WorkerEvent::BindSucceeded), WorkerAction::Nothing));
    assert!(matches!(w.on_event(WorkerEvent::Sampled(1.0)), WorkerAction::Nothing));
    assert_eq!(w.phase, WorkerPhase::Failed);
}

#[test]
fn worker_runs_samples_and_terminates() {
    let mut w = Worker::new("127.0.0.1:7000".to_string(), Some("A".to_string()));
    assert!(matches!(w.begin::<f64>(), WorkerAction::Bind));
    assert!(matches!(w.on_event::<f64>(WorkerEvent::BindSucceeded), WorkerAction::Wait));
    assert_eq!(w.phase, WorkerPhase::Running);
    match w.on_event(WorkerEvent::Sampled(4.5)) {
        WorkerAction::Send(ThreadMessage::PlotOnLine(k, v)) => {
            assert_eq!(k, "A");
            assert_eq!(v, 4.5);
        }
        _ => panic!("expected a targeted sample"),
    }
    assert!(matches!(w.on_event::<f64>(WorkerEvent::SendFailed), WorkerAction::Release));
    assert_eq!(w.phase, WorkerPhase::Terminated);

    let mut u = Worker::new("127.0.0.1:7001".to_string(), None);
    u.begin::<f64>();
    u.on_event::<f64>(WorkerEvent::BindSucceeded);
    assert!(matches!(u.on_event(WorkerEvent::Sampled(2.0)), WorkerAction::Send(ThreadMessage::PlotPoint(v)) if v == 2.0));
    assert!(matches!(u.on_event::<f64>(WorkerEvent::Cancelled), WorkerAction::Release));
}

#[test]
fn ingest_targeted_samples_in_order() {
    let mut c: Console<f64> = Console::new();
    c.channels.create_with("A".to_string(), red());
    let mut bus: Bus<f64> = Bus::new();
    bus.send(ThreadMessage::PlotOnLine("A".to_string(), 3.5)).unwrap();
    bus.send(ThreadMessage::PlotOnLine("A".to_string(), -1.2)).unwrap();
    c.receive_messages(&mut bus);
    assert_eq!(c.channels.get(&"A".to_string()).unwrap().values, vec![3.5, -1.2]);
}

#[test]
fn ingest_for_removed_channel_is_dropped() {
    let mut c: Console<f64> = Console::new();
    c.channels.create_with("A".to_string(), red());
    c.channels.remove(&"A".to_string());
    c.ingest(vec![ThreadMessage::PlotOnLine("A".to_string(), 7.0)]);
    assert_eq!(c.channels.len(), 0);
}

#[test]
fn ingest_routes_bare_samples_and_diagnostics() {
    let mut c: Console<f64> = Console::new();
    c.channels.create_with("A".to_string(), red());
    c.channels.create_with("B".to_string(), red());
    c.ingest(vec![ThreadMessage::PlotPoint(1.0)]);
    assert!(c.channels.get(&"A".to_string()).unwrap().values.is_empty());
    c.current_channel_hash = "B".to_string();
    c.ingest(vec![
        ThreadMessage::Info("hello".to_string()),
        ThreadMessage::PlotPoint(2.0),
        ThreadMessage::Warning("careful".to_string()),
        ThreadMessage::Error("broken".to_string()),
    ]);
    assert_eq!(c.channels.get(&"B".to_string()).unwrap().values, vec![2.0]);
    let kinds: Vec<MessageType> = c.logging_tab.lines.iter().map(|l| l.1).collect();
    assert_eq!(
        kinds,
        vec![MessageType::Warning, MessageType::Info, MessageType::Warning, MessageType::Error]
    );
    assert_eq!(c.logging_tab.lines[1].0, "hello");
}

#[test]
fn logging_tab_filters_by_severity() {
    let mut log = LoggingTab::new();
    assert_eq!(log.lines.len(), 1);
    assert_eq!(log.lines[0].0, "Server is not running!");
    assert_eq!(log.lines[0].1, MessageType::Warning);
    log.lines.push(("e".to_string(), MessageType::Error));
    log.lines.push(("i".to_string(), MessageType::Info));
    log.warnings = false;
    let shown: Vec<String> = log.visible_lines().iter().map(|l| l.0.clone()).collect();
    assert_eq!(shown, vec!["e".to_string(), "i".to_string()]);
    assert!(!log.is_shown(MessageType::Warning));
}

#[test]
fn endpoint_validation() {
    let port = "6969".to_string();
    assert_eq!(validate_endpoint(&"127.0.0.1".to_string(), &port), Ok("127.0.0.1:6969".to_string()));
    assert_eq!(
        validate_endpoint(&"localhost".to_string(), &port),
        Err(EndpointError::InvalidEndpointFormat)
    );
    assert_eq!(
        validate_endpoint(&"256.1.1.1".to_string(), &port),
        Err(EndpointError::InvalidEndpointFormat)
    );
    assert_eq!(
        validate_endpoint(&"x10.0.0.1".to_string(), &port),
        Err(EndpointError::InvalidEndpointFormat)
    );
    assert_eq!(
        validate_endpoint(&"10.0.0.1.5".to_string(), &port),
        Err(EndpointError::InvalidEndpointFormat)
    );
    assert_eq!(
        validate_endpoint(&"255.255.255.255".to_string(), &"1".to_string()),
        Ok("255.255.255.255:1".to_string())
    );
    assert_eq!(
        endpoint_from_search(Some(false), &"x".to_string(), &port),
        Err(EndpointError::InvalidEndpointFormat)
    );
    assert_eq!(
        endpoint_from_search(None, &"x".to_string(), &port),
        Err(EndpointError::PatternUnavailable)
    );
    assert_eq!(
        endpoint_from_search(Some(true), &"10.0.0.1".to_string(), &"80".to_string()),
        Ok("10.0.0.1:80".to_string())
    );
}
