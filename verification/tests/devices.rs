use echo_aec::api::{ApiReply, DeviceInfo, DeviceListResponse, StatusResponse};
use echo_aec::device::{find_device_by_name, AudioDevice, DeviceManager, SourceDevice, SourceKind};
use echo_aec::engine::AudioEngine;

fn src(id: &str, name: &str, kind: SourceKind) -> SourceDevice {
    SourceDevice { id: id.to_string(), name: name.to_string(), source_kind: kind }
}

fn sample_manager() -> DeviceManager {
    let sources = vec![
        src("mic-1", "Headset Mic", SourceKind::Mic),
        src("sink-1", "Speakers", SourceKind::SystemLoopback),
        src("proc-1", "Browser", SourceKind::ProcessLoopback),
        src("mic-2", "USB Mic", SourceKind::Mic),
        src("mix-1", "Mixed", SourceKind::Mix),
        src("sink-2", "HDMI", SourceKind::SystemLoopback),
    ];
    let outputs = vec![Some("Speakers".to_string()), None, Some("CABLE Input".to_string())];
    DeviceManager::from_enumeration(sources, outputs)
}

fn ids(devs: &[AudioDevice]) -> Vec<String> {
    devs.iter().map(|d| d.id.clone()).collect()
}

#[test]
fn kind_labels_are_variant_names() {
    assert_eq!(SourceKind::Mic.label(), "Mic");
    assert_eq!(SourceKind::SystemLoopback.label(), "SystemLoopback");
    assert_eq!(SourceKind::ProcessLoopback.label(), "ProcessLoopback");
    assert_eq!(SourceKind::Mix.label(), "Mix");
    assert_eq!(SourceKind::Mic.label(), format!("{:?}", SourceKind::Mic));
}

#[test]
fn enumeration_sorts_sources_by_kind_in_order() {
    let mgr = sample_manager();
    assert_eq!(ids(mgr.mic_devices()), vec!["mic-1", "mic-2"]);
    assert_eq!(ids(mgr.loopback_devices()), vec!["sink-1", "sink-2"]);
    assert_eq!(mgr.mic_devices()[1].name, "USB Mic");
    assert!(mgr.mic_devices().iter().all(|d| d.source_kind == "Mic"));
    assert!(mgr.loopback_devices().iter().all(|d| d.source_kind == "SystemLoopback"));
}

#[test]
fn enumeration_lists_named_outputs_only() {
    let mgr = sample_manager();
    let outs = mgr.output_devices();
    assert_eq!(outs.len(), 2);
    assert_eq!(outs[0].id, "Speakers");
    assert_eq!(outs[0].name, "Speakers");
    assert_eq!(outs[1].id, "CABLE Input");
    assert!(outs.iter().all(|d| d.source_kind == "Output"));
}

#[test]
fn empty_enumeration_gives_empty_lists() {
    let mgr = DeviceManager::from_enumeration(Vec::new(), vec![None, None]);
    assert!(mgr.mic_devices().is_empty());
    assert!(mgr.loopback_devices().is_empty());
    assert!(mgr.output_devices().is_empty());
}

#[test]
fn lookup_finds_first_device_with_the_name() {
    let names = vec![
        Some("Speakers".to_string()),
        Some("CABLE Input".to_string()),
        Some("CABLE Input".to_string()),
    ];
    assert_eq!(find_device_by_name(&names, &"CABLE Input".to_string()), Some(1));
    assert_eq!(find_device_by_name(&names, &"Speakers".to_string()), Some(0));
    assert_eq!(find_device_by_name(&names, &"Missing".to_string()), None);
}

#[test]
fn lookup_treats_unnamed_devices_as_empty_name() {
    let names = vec![Some("A".to_string()), None, Some(String::new())];
    assert_eq!(find_device_by_name(&names, &String::new()), Some(1));
    assert_eq!(find_device_by_name(&names, &"B".to_string()), None);
    assert_eq!(find_device_by_name(&Vec::new(), &String::new()), None);
}

#[test]
fn device_list_mirrors_the_manager() {
    let mgr = sample_manager();
    let resp = DeviceListResponse::from_manager(&mgr);
    let pairs = |v: &Vec<DeviceInfo>| v.iter().map(|d| (d.id.clone(), d.name.clone())).collect::<Vec<_>>();
    assert_eq!(
        pairs(&resp.mics),
        vec![("mic-1".to_string(), "Headset Mic".to_string()), ("mic-2".to_string(), "USB Mic".to_string())]
    );
    assert_eq!(
        pairs(&resp.loopbacks),
        vec![("sink-1".to_string(), "Speakers".to_string()), ("sink-2".to_string(), "HDMI".to_string())]
    );
    assert_eq!(
        pairs(&resp.outputs),
        vec![("Speakers".to_string(), "Speakers".to_string()), ("CABLE Input".to_string(), "CABLE Input".to_string())]
    );
}

#[test]
fn device_info_shows_id_and_name() {
    let d = AudioDevice { id: "x".to_string(), name: "Y".to_string(), source_kind: "Mic".to_string() };
    let info = DeviceInfo::from_device(&d);
    assert_eq!(info.id, "x");
    assert_eq!(info.name, "Y");
}

#[test]
fn replies_of_the_control_api() {
    let ok = ApiReply::for_start(true);
    assert_eq!((ok.status, ok.body), (200, "Started"));
    let failed = ApiReply::for_start(false);
    assert_eq!((failed.status, failed.body), (500, "Failed"));
    let stopped = ApiReply::for_stop();
    assert_eq!((stopped.status, stopped.body), (200, "Stopped"));
}

#[test]
fn engine_runs_only_after_a_successful_start() {
    let mut engine = AudioEngine::new();
    assert!(!engine.is_running());
    assert!(!StatusResponse::from_engine(&engine).is_running);
    assert!(!engine.begin_start());
    assert!(engine.finish_start(true));
    assert!(engine.is_running());
    assert!(StatusResponse::from_engine(&engine).is_running);
}

#[test]
fn starting_a_running_engine_stops_it_first() {
    let mut engine = AudioEngine::new();
    engine.begin_start();
    engine.finish_start(true);
    assert!(engine.begin_start());
    assert!(!engine.is_running());
    assert!(!engine.finish_start(false));
    assert!(!engine.is_running());
}

#[test]
fn stop_is_idempotent() {
    let mut engine = AudioEngine::new();
    engine.begin_start();
    engine.finish_start(true);
    engine.stop();
    assert!(!engine.is_running());
    engine.stop();
    assert!(!engine.is_running());
}
