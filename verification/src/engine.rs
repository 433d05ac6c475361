use vstd::prelude::*;

verus! {

/// Run state of the audio engine.
///
/// The engine runs three workers (loopback capture, microphone capture and
/// virtual-microphone playback); this type decides when they are started
/// and stopped. A start request first stops a running engine, then starts
/// the workers only if an echo canceller could be created.
pub struct AudioEngine {
    is_running: bool,
}

impl AudioEngine {
    /// Whether the workers are running.
    pub closed spec fn running(&self) -> bool {
        self.is_running
    }

    /// A stopped engine.
    pub fn new() -> (engine: Self)
        ensures
            !engine.running(),
    {
        AudioEngine { is_running: false }
    }

    /// Whether the workers are running.
    pub fn is_running(&self) -> (running: bool)
        ensures
            running == self.running(),
    {
        self.is_running
    }

    /// First step of a start request. Returns whether running workers must
    /// be stopped (and joined) before anything else; either way the engine
    /// is stopped afterwards.
    pub fn begin_start(&mut self) -> (must_stop: bool)
        ensures
            must_stop == old(self).running(),
            !final(self).running(),
    {
        let must_stop = self.is_running;
        if must_stop {
            self.stop();
        }
        must_stop
    }

    /// Last step of a start request, once the echo canceller was or was not
    /// created. Returns whether the workers are to be launched: exactly when
    /// the canceller exists; the engine then counts as running.
    pub fn finish_start(&mut self, canceller_ready: bool) -> (launch: bool)
        requires
            !old(self).running(),
        ensures
            launch == canceller_ready,
            final(self).running() == canceller_ready,
    {
        if canceller_ready {
            self.is_running = true;
        }
        canceller_ready
    }

    /// Stops the engine; its workers are to be signalled and joined.
    pub fn stop(&mut self)
        ensures
            !final(self).running(),
    {
        self.is_running = false;
    }
}

} // verus!
