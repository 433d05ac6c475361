use vstd::prelude::*;

verus! {

/// Kind of capture source an enumerated device belongs to.
#[derive(Clone, Copy, Debug, PartialEq, Eq, Structural)]
pub enum SourceKind {
    /// A recording device.
    Mic,
    /// The mix of an output endpoint, captured as loopback.
    SystemLoopback,
    /// The output of a single process, captured as loopback.
    ProcessLoopback,
    /// Microphone and system audio mixed into one stream.
    Mix,
}

/// The label under which a source kind is shown: the variant's own name.
pub open spec fn kind_label(kind: SourceKind) -> Seq<char> {
    match kind {
        SourceKind::Mic => "Mic"@,
        SourceKind::SystemLoopback => "SystemLoopback"@,
        SourceKind::ProcessLoopback => "ProcessLoopback"@,
        SourceKind::Mix => "Mix"@,
    }
}

/// The label given to playback devices.
pub open spec fn output_label() -> Seq<char> {
    "Output"@
}

impl SourceKind {
    /// The label of this kind, as listed beside each device.
    pub fn label(&self) -> (s: String)
        ensures
            s@ == kind_label(*self),
    {
        match self {
            SourceKind::Mic => "Mic".to_owned(),
            SourceKind::SystemLoopback => "SystemLoopback".to_owned(),
            SourceKind::ProcessLoopback => "ProcessLoopback".to_owned(),
            SourceKind::Mix => "Mix".to_owned(),
        }
    }
}

/// A capture source as the enumeration reports it.
pub struct SourceDevice {
    /// Stable identifier used to open the source.
    pub id: String,
    /// Human-readable name.
    pub name: String,
    /// Which kind of source it is.
    pub source_kind: SourceKind,
}

/// A device as the library lists it.
#[derive(Clone, Debug)]
pub struct AudioDevice {
    pub id: String,
    pub name: String,
    pub source_kind: String,
}

/// The mathematical content of a listed device.
pub struct DeviceView {
    pub id: Seq<char>,
    pub name: Seq<char>,
    pub source_kind: Seq<char>,
}

impl View for AudioDevice {
    type V = DeviceView;

    open spec fn view(&self) -> DeviceView {
        DeviceView { id: self.id@, name: self.name@, source_kind: self.source_kind@ }
    }
}

/// The listing of one enumerated capture source.
pub open spec fn source_entry(d: SourceDevice) -> DeviceView {
    DeviceView { id: d.id@, name: d.name@, source_kind: kind_label(d.source_kind) }
}

/// The listing of a playback device known by `name`.
pub open spec fn output_entry(name: Seq<char>) -> DeviceView {
    DeviceView { id: name, name: name, source_kind: output_label() }
}

/// The listings, in enumeration order, of the sources of kind `kind`.
pub open spec fn sources_of_kind(sources: Seq<SourceDevice>, kind: SourceKind) -> Seq<DeviceView>
    decreases sources.len(),
{
    if sources.len() == 0 {
        Seq::empty()
    } else {
        let rest = sources_of_kind(sources.drop_last(), kind);
        if sources.last().source_kind == kind {
            rest.push(source_entry(sources.last()))
        } else {
            rest
        }
    }
}

/// The listings, in enumeration order, of the playback devices that reported a name.
pub open spec fn named_outputs(names: Seq<Option<String>>) -> Seq<DeviceView>
    decreases names.len(),
{
    if names.len() == 0 {
        Seq::empty()
    } else {
        let rest = named_outputs(names.drop_last());
        match names.last() {
            Some(n) => rest.push(output_entry(n@)),
            None => rest,
        }
    }
}

/// The views of a sequence of listed devices.
pub open spec fn device_views(devices: Seq<AudioDevice>) -> Seq<DeviceView> {
    devices.map_values(|d: AudioDevice| d@)
}

/// The devices the application can choose from: microphones, loopback
/// sources and playback devices (where the virtual microphone lives).
pub struct DeviceManager {
    mic_devices: Vec<AudioDevice>,
    loopback_devices: Vec<AudioDevice>,
    output_devices: Vec<AudioDevice>,
}

/// Lists the sources of one kind, in order.
fn collect_kind(sources: &Vec<SourceDevice>, kind: SourceKind) -> (listed: Vec<AudioDevice>)
    ensures
        device_views(listed@) == sources_of_kind(sources@, kind),
{
    let mut listed: Vec<AudioDevice> = Vec::new();
    let mut i: usize = 0;
    while i < sources.len()
        invariant
            i <= sources@.len(),
            device_views(listed@) == sources_of_kind(sources@.take(i as int), kind),
        decreases sources@.len() - i,
    {
        let dev = &sources[i];
        assert(sources@.take(i + 1).drop_last() == sources@.take(i as int));
        assert(sources@.take(i + 1).last() == sources@[i as int]);
        if dev.source_kind == kind {
            let entry = AudioDevice {
                id: dev.id.clone(),
                name: dev.name.clone(),
                source_kind: dev.source_kind.label(),
            };
            let ghost before = listed@;
            listed.push(entry);
            assert(device_views(listed@) == device_views(before).push(entry@));
        }
        i = i + 1;
    }
    assert(sources@.take(sources@.len() as int) == sources@);
    listed
}

/// Lists the playback devices that reported a name, each known by that name.
fn collect_outputs(names: &Vec<Option<String>>) -> (listed: Vec<AudioDevice>)
    ensures
        device_views(listed@) == named_outputs(names@),
{
    let mut listed: Vec<AudioDevice> = Vec::new();
    let mut i: usize = 0;
    while i < names.len()
        invariant
            i <= names@.len(),
            device_views(listed@) == named_outputs(names@.take(i as int)),
        decreases names@.len() - i,
    {
        assert(names@.take(i + 1).drop_last() == names@.take(i as int));
        assert(names@.take(i + 1).last() == names@[i as int]);
        match &names[i] {
            Some(n) => {
                let entry = AudioDevice { id: n.clone(), name: n.clone(), source_kind: "Output".to_owned() };
                let ghost before = listed@;
                listed.push(entry);
                assert(device_views(listed@) == device_views(before).push(entry@));
            },
            None => {},
        }
        i = i + 1;
    }
    assert(names@.take(names@.len() as int) == names@);
    listed
}

impl DeviceManager {
    /// The listed microphones.
    pub closed spec fn mics(&self) -> Seq<AudioDevice> {
        self.mic_devices@
    }

    /// The listed loopback sources.
    pub closed spec fn loopbacks(&self) -> Seq<AudioDevice> {
        self.loopback_devices@
    }

    /// The listed playback devices.
    pub closed spec fn outputs(&self) -> Seq<AudioDevice> {
        self.output_devices@
    }

    /// Builds the device lists from an enumeration of capture sources and
    /// the names reported by the playback devices (`None` where a device
    /// could not report one). Microphones and system loopback sources are
    /// kept, in order, and labelled by their kind; other capture sources
    /// are left out. Playback devices that reported a name are listed under
    /// it, as both id and name, labelled `Output`; the others are left out.
    pub fn from_enumeration(sources: Vec<SourceDevice>, output_names: Vec<Option<String>>) -> (mgr: Self)
        ensures
            device_views(mgr.mics()) == sources_of_kind(sources@, SourceKind::Mic),
            device_views(mgr.loopbacks()) == sources_of_kind(sources@, SourceKind::SystemLoopback),
            device_views(mgr.outputs()) == named_outputs(output_names@),
            device_views(mgr.mics()) == sources@.filter(|d: SourceDevice| d.source_kind == SourceKind::Mic).map_values(
                |d: SourceDevice| DeviceView { id: d.id@, name: d.name@, source_kind: "Mic"@ }),
            device_views(mgr.loopbacks()) == sources@.filter(|d: SourceDevice| d.source_kind == SourceKind::SystemLoopback).map_values(
                |d: SourceDevice| DeviceView { id: d.id@, name: d.name@, source_kind: "SystemLoopback"@ }),
            device_views(mgr.outputs()) == output_names@.filter(|o: Option<String>| o is Some).map_values(
                |o: Option<String>| DeviceView { id: o->0@, name: o->0@, source_kind: "Output"@ }),
    {
        proof {
            listing_by_kind_is_the_filtered_sources(sources@, SourceKind::Mic);
            listing_by_kind_is_the_filtered_sources(sources@, SourceKind::SystemLoopback);
            output_listing_is_the_named_devices(output_names@);
            kind_labels_are_variant_names();
        }
        let mic_devices = collect_kind(&sources, SourceKind::Mic);
        let loopback_devices = collect_kind(&sources, SourceKind::SystemLoopback);
        let output_devices = collect_outputs(&output_names);
        DeviceManager { mic_devices, loopback_devices, output_devices }
    }

    /// The microphones, in enumeration order.
    pub fn mic_devices(&self) -> (devices: &[AudioDevice])
        ensures
            devices@ == self.mics(),
    {
        self.mic_devices.as_slice()
    }

    /// The system loopback sources, in enumeration order.
    pub fn loopback_devices(&self) -> (devices: &[AudioDevice])
        ensures
            devices@ == self.loopbacks(),
    {
        self.loopback_devices.as_slice()
    }

    /// The playback devices, in enumeration order.
    pub fn output_devices(&self) -> (devices: &[AudioDevice])
        ensures
            devices@ == self.outputs(),
    {
        self.output_devices.as_slice()
    }
}

/// The name a device answers to in a lookup: its reported name, or the
/// empty string when the device could not report one.
pub open spec fn name_or_empty(name: Option<String>) -> Seq<char> {
    match name {
        Some(n) => n@,
        None => Seq::empty(),
    }
}

/// Whether `i` is the first position in `names` whose lookup name is `wanted`.
pub open spec fn is_first_match(names: Seq<Option<String>>, wanted: Seq<char>, i: int) -> bool {
    &&& 0 <= i < names.len()
    &&& name_or_empty(names[i]) == wanted
    &&& forall|j: int| 0 <= j < i ==> name_or_empty(#[trigger] names[j]) != wanted
}

/// Picks a device by name among enumerated devices, given the name each
/// reported (`None` where the device could not report its name, which then
/// counts as the empty name). Returns the position of the first match.
pub fn find_device_by_name(names: &Vec<Option<String>>, wanted: &String) -> (found: Option<usize>)
    ensures
        match found {
            Some(i) => is_first_match(names@, wanted@, i as int),
            None => forall|j: int| 0 <= j < names@.len() ==> name_or_empty(#[trigger] names@[j]) != wanted@,
        },
        match found {
            Some(i) => i < names@.len() && match names@[i as int] {
                Some(n) => n@ == wanted@,
                None => wanted@.len() == 0,
            },
            None => true,
        },
        forall|j: int| 0 <= j < names@.len() && (#[trigger] names@[j]) is Some && names@[j]->0@ == wanted@
            ==> found is Some && found->0 <= j,
        forall|j: int| 0 <= j < names@.len() && (#[trigger] names@[j]) is None && wanted@.len() == 0
            ==> found is Some && found->0 <= j,
{
    proof {
        assert forall|n: String| name_or_empty(Some(n)) == n@ by {
            lookup_name_is_the_reported_name(n);
        }
        if wanted@.len() == 0 {
            assert(wanted@ =~= Seq::<char>::empty());
        }
    }
    let mut i: usize = 0;
    while i < names.len()
        invariant
            i <= names@.len(),
            wanted@.len() == 0 ==> wanted@ == Seq::<char>::empty(),
            forall|j: int| 0 <= j < i ==> name_or_empty(#[trigger] names@[j]) != wanted@,
        decreases names@.len() - i,
    {
        let hit = match &names[i] {
            Some(n) => n.eq(wanted),
            None => wanted.eq(&String::new()),
        };
        assert(hit == (name_or_empty(names@[i as int]) == wanted@));
        if hit {
            return Some(i);
        }
        i = i + 1;
    }
    None
}

} // verus!

verus! {

/// Every device listed for a kind is the listing of an enumerated source of
/// that kind, and carries that kind's label; sources of other kinds are
/// never listed for it.
pub proof fn listed_sources_have_the_kind(sources: Seq<SourceDevice>, kind: SourceKind)
    ensures
        forall|i: int| 0 <= i < sources_of_kind(sources, kind).len() ==>
            (#[trigger] sources_of_kind(sources, kind)[i]).source_kind == kind_label(kind),
        forall|i: int| 0 <= i < sources_of_kind(sources, kind).len() ==> exists|j: int|
            0 <= j < sources.len() && sources[j].source_kind == kind
                && #[trigger] sources_of_kind(sources, kind)[i] == source_entry(sources[j]),
        sources_of_kind(sources, kind).len() <= sources.len(),
    decreases sources.len(),
{
    if sources.len() > 0 {
        let init = sources.drop_last();
        listed_sources_have_the_kind(init, kind);
        let listed = sources_of_kind(sources, kind);
        assert forall|i: int| 0 <= i < listed.len() implies exists|j: int|
            0 <= j < sources.len() && sources[j].source_kind == kind
                && #[trigger] listed[i] == source_entry(sources[j]) by {
            if i < sources_of_kind(init, kind).len() {
                let j = choose|j: int| 0 <= j < init.len() && init[j].source_kind == kind
                    && sources_of_kind(init, kind)[i] == source_entry(init[j]);
                assert(sources[j] == init[j]);
            } else {
                assert(sources[sources.len() - 1] == sources.last());
            }
        }
    }
}

/// Every playback device listed is known by its reported name, as both id
/// and name, and is labelled `Output`.
pub proof fn listed_outputs_are_named(names: Seq<Option<String>>)
    ensures
        forall|i: int| 0 <= i < named_outputs(names).len() ==> {
            &&& (#[trigger] named_outputs(names)[i]).id == named_outputs(names)[i].name
            &&& named_outputs(names)[i].source_kind == output_label()
        },
        named_outputs(names).len() <= names.len(),
    decreases names.len(),
{
    if names.len() > 0 {
        listed_outputs_are_named(names.drop_last());
    }
}

} // verus!

verus! {

/// A device that reported a name is looked up by exactly that name; one
/// that reported none is looked up by the empty name.
pub proof fn lookup_name_is_the_reported_name(n: String)
    ensures
        name_or_empty(Some(n)) == n@,
        name_or_empty(None) == Seq::<char>::empty(),
{
}

/// Each kind is labelled by the name of its variant.
pub proof fn kind_labels_are_variant_names()
    ensures
        kind_label(SourceKind::Mic) == "Mic"@,
        kind_label(SourceKind::SystemLoopback) == "SystemLoopback"@,
        kind_label(SourceKind::ProcessLoopback) == "ProcessLoopback"@,
        kind_label(SourceKind::Mix) == "Mix"@,
        output_label() == "Output"@,
{
}

/// The listing for a kind holds every enumerated source of that kind and
/// nothing else, in enumeration order, each with its own id and name and
/// the kind's label; one more source of the kind adds exactly its listing
/// at the end, and a source of another kind changes nothing.
pub proof fn listing_by_kind_is_the_filtered_sources(sources: Seq<SourceDevice>, kind: SourceKind)
    ensures
        sources_of_kind(sources, kind) == sources.filter(|d: SourceDevice| d.source_kind == kind).map_values(
            |d: SourceDevice| DeviceView { id: d.id@, name: d.name@, source_kind: kind_label(kind) }),
        sources_of_kind(sources, kind).len() == sources.filter(|d: SourceDevice| d.source_kind == kind).len(),
        forall|d: SourceDevice| d.source_kind == kind ==> #[trigger] sources_of_kind(sources.push(d), kind)
            == sources_of_kind(sources, kind).push(DeviceView { id: d.id@, name: d.name@, source_kind: kind_label(kind) }),
        forall|d: SourceDevice| d.source_kind != kind ==> #[trigger] sources_of_kind(sources.push(d), kind)
            == sources_of_kind(sources, kind),
    decreases sources.len(),
{
    reveal(Seq::filter);
    let pred = |d: SourceDevice| d.source_kind == kind;
    let entry = |d: SourceDevice| DeviceView { id: d.id@, name: d.name@, source_kind: kind_label(kind) };
    assert forall|d: SourceDevice| true implies sources.push(d).drop_last() == sources by {
        assert(sources.push(d).drop_last() =~= sources);
    }
    if sources.len() > 0 {
        let init = sources.drop_last();
        listing_by_kind_is_the_filtered_sources(init, kind);
        let f = init.filter(pred);
        if pred(sources.last()) {
            assert(sources.filter(pred) == f.push(sources.last()));
            assert(f.push(sources.last()).map_values(entry) =~= f.map_values(entry).push(entry(sources.last())));
        } else {
            assert(sources.filter(pred) == f);
        }
    } else {
        assert(sources.filter(pred).map_values(entry) =~= Seq::<DeviceView>::empty());
    }
}

/// The playback listing holds exactly the devices that reported a name, in
/// order, each known by that name as id and name and labelled `Output`.
pub proof fn output_listing_is_the_named_devices(names: Seq<Option<String>>)
    ensures
        named_outputs(names) == names.filter(|o: Option<String>| o is Some).map_values(
            |o: Option<String>| DeviceView { id: o->0@, name: o->0@, source_kind: "Output"@ }),
        named_outputs(names).len() == names.filter(|o: Option<String>| o is Some).len(),
    decreases names.len(),
{
    reveal(Seq::filter);
    let pred = |o: Option<String>| o is Some;
    let entry = |o: Option<String>| DeviceView { id: o->0@, name: o->0@, source_kind: "Output"@ };
    if names.len() > 0 {
        let init = names.drop_last();
        output_listing_is_the_named_devices(init);
        let f = init.filter(pred);
        if pred(names.last()) {
            assert(names.filter(pred) == f.push(names.last()));
            assert(f.push(names.last()).map_values(entry) =~= f.map_values(entry).push(entry(names.last())));
        } else {
            assert(names.filter(pred) == f);
        }
    } else {
        assert(names.filter(pred).map_values(entry) =~= Seq::<DeviceView>::empty());
    }
}

} // verus!
