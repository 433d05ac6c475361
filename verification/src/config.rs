use vstd::prelude::*;

verus! {

/// The device choice remembered between runs.
pub struct SavedConfig {
    pub mic_device: String,
    pub loopback_device: String,
    pub virtual_mic_device: String,
}

impl SavedConfig {
    /// Remembers the devices a started engine uses.
    pub fn new(mic_device: String, loopback_device: String, virtual_mic_device: String) -> (cfg: Self)
        ensures
            cfg.mic_device@ == mic_device@,
            cfg.loopback_device@ == loopback_device@,
            cfg.virtual_mic_device@ == virtual_mic_device@,
    {
        SavedConfig { mic_device, loopback_device, virtual_mic_device }
    }
}

impl Default for SavedConfig {
    /// No device chosen: every name is empty.
    fn default() -> (cfg: Self)
        ensures
            cfg.mic_device@ == Seq::<char>::empty(),
            cfg.loopback_device@ == Seq::<char>::empty(),
            cfg.virtual_mic_device@ == Seq::<char>::empty(),
    {
        SavedConfig { mic_device: String::new(), loopback_device: String::new(), virtual_mic_device: String::new() }
    }
}

} // verus!
