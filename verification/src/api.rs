use vstd::prelude::*;
use crate::device::{AudioDevice, DeviceManager, DeviceView, device_views};
use crate::engine::AudioEngine;

verus! {

/// A device as the control API shows it.
pub struct DeviceInfo {
    pub id: String,
    pub name: String,
}

impl View for DeviceInfo {
    type V = (Seq<char>, Seq<char>);

    open spec fn view(&self) -> (Seq<char>, Seq<char>) {
        (self.id@, self.name@)
    }
}

/// What the control API shows of a listed device: its id and name.
pub open spec fn shown(d: DeviceView) -> (Seq<char>, Seq<char>) {
    (d.id, d.name)
}

/// The views of a sequence of shown devices.
pub open spec fn info_views(infos: Seq<DeviceInfo>) -> Seq<(Seq<char>, Seq<char>)> {
    infos.map_values(|i: DeviceInfo| i@)
}

/// What the control API shows of a list of devices, in order.
pub open spec fn shown_list(devices: Seq<AudioDevice>) -> Seq<(Seq<char>, Seq<char>)> {
    device_views(devices).map_values(|d: DeviceView| shown(d))
}

/// The three device lists the control API answers with.
pub struct DeviceListResponse {
    pub mics: Vec<DeviceInfo>,
    pub loopbacks: Vec<DeviceInfo>,
    pub outputs: Vec<DeviceInfo>,
}

/// A request to start echo cancellation with the chosen devices.
pub struct StartRequest {
    pub mic_device: String,
    pub loopback_device: String,
    pub virtual_mic_device: String,
}

/// Whether the engine runs.
pub struct StatusResponse {
    pub is_running: bool,
}

/// An HTTP status code and a short text body.
pub struct ApiReply {
    pub status: u16,
    pub body: &'static str,
}

impl DeviceInfo {
    /// Shows a listed device by its id and name.
    pub fn from_device(device: &AudioDevice) -> (info: Self)
        ensures
            info@ == shown(device@),
            info.id@ == device.id@,
            info.name@ == device.name@,
    {
        DeviceInfo { id: device.id.clone(), name: device.name.clone() }
    }
}

/// Shows each device of a list, in order.
fn show_all(devices: &[AudioDevice]) -> (infos: Vec<DeviceInfo>)
    ensures
        info_views(infos@) == shown_list(devices@),
        infos@.len() == devices@.len(),
        forall|i: int| 0 <= i < infos@.len() ==> (#[trigger] infos@[i]).id@ == devices@[i].id@
            && infos@[i].name@ == devices@[i].name@,
{
    let mut infos: Vec<DeviceInfo> = Vec::new();
    let mut i: usize = 0;
    while i < devices.len()
        invariant
            i <= devices@.len(),
            info_views(infos@) == shown_list(devices@.take(i as int)),
            infos@.len() == i,
            forall|j: int| 0 <= j < i ==> (#[trigger] infos@[j]).id@ == devices@[j].id@
                && infos@[j].name@ == devices@[j].name@,
        decreases devices@.len() - i,
    {
        let info = DeviceInfo::from_device(&devices[i]);
        let ghost before = infos@;
        infos.push(info);
        assert(info_views(infos@) == info_views(before).push(info@));
        assert(devices@.take(i + 1) == devices@.take(i as int).push(devices@[i as int]));
        assert(shown_list(devices@.take(i + 1)) == shown_list(devices@.take(i as int)).push(shown(devices@[i as int]@)));
        i = i + 1;
    }
    assert(devices@.take(devices@.len() as int) == devices@);
    infos
}

impl DeviceListResponse {
    /// The answer to a device-list request: the microphones, loopback
    /// sources and playback devices of `mgr`, each shown by id and name, in
    /// the manager's order.
    pub fn from_manager(mgr: &DeviceManager) -> (resp: Self)
        ensures
            info_views(resp.mics@) == shown_list(mgr.mics()),
            info_views(resp.loopbacks@) == shown_list(mgr.loopbacks()),
            info_views(resp.outputs@) == shown_list(mgr.outputs()),
            resp.mics@.len() == mgr.mics().len(),
            resp.loopbacks@.len() == mgr.loopbacks().len(),
            resp.outputs@.len() == mgr.outputs().len(),
            forall|i: int| 0 <= i < resp.mics@.len() ==> (#[trigger] resp.mics@[i]).id@ == mgr.mics()[i].id@
                && resp.mics@[i].name@ == mgr.mics()[i].name@,
            forall|i: int| 0 <= i < resp.loopbacks@.len() ==> (#[trigger] resp.loopbacks@[i]).id@ == mgr.loopbacks()[i].id@
                && resp.loopbacks@[i].name@ == mgr.loopbacks()[i].name@,
            forall|i: int| 0 <= i < resp.outputs@.len() ==> (#[trigger] resp.outputs@[i]).id@ == mgr.outputs()[i].id@
                && resp.outputs@[i].name@ == mgr.outputs()[i].name@,
    {
        let mics = show_all(mgr.mic_devices());
        let loopbacks = show_all(mgr.loopback_devices());
        let outputs = show_all(mgr.output_devices());
        DeviceListResponse { mics, loopbacks, outputs }
    }
}

impl StatusResponse {
    /// The answer to a status request.
    pub fn from_engine(engine: &AudioEngine) -> (resp: Self)
        ensures
            resp.is_running == engine.running(),
    {
        StatusResponse { is_running: engine.is_running() }
    }
}

impl ApiReply {
    /// The answer to a start request: `200 Started` when the engine started,
    /// `500 Failed` when it did not.
    pub fn for_start(started: bool) -> (reply: Self)
        ensures
            started ==> reply.status == 200 && reply.body@ == "Started"@,
            !started ==> reply.status == 500 && reply.body@ == "Failed"@,
    {
        if started {
            ApiReply { status: 200, body: "Started" }
        } else {
            ApiReply { status: 500, body: "Failed" }
        }
    }

    /// The answer to a stop request, which always succeeds: `200 Stopped`.
    pub fn for_stop() -> (reply: Self)
        ensures
            reply.status == 200,
            reply.body@ == "Stopped"@,
    {
        ApiReply { status: 200, body: "Stopped" }
    }
}

} // verus!

verus! {

/// The control API shows a device by its own id and name, unchanged.
pub proof fn shown_is_id_and_name(d: DeviceView)
    ensures
        shown(d).0 == d.id,
        shown(d).1 == d.name,
{
}

/// A shown list has one entry per device, in order, each carrying that
/// device's id and name unchanged.
pub proof fn shown_list_keeps_ids_and_names(devices: Seq<AudioDevice>)
    ensures
        shown_list(devices).len() == devices.len(),
        forall|i: int| 0 <= i < devices.len() ==> (#[trigger] shown_list(devices)[i]) == (devices[i].id@, devices[i].name@),
{
}

} // verus!
