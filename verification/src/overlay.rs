//! The overlay object and its render handoff.
//!
//! The host calls `on_update` once per frame with the newest sample, then
//! `on_prepare` once per render frame. `on_prepare` tells the host which
//! GPU buffers must be (re)written: each side is uploaded only when the
//! data feeding it changed since the last prepare, so a paused simulation
//! causes no redundant transfers. The host performs the actual writes and
//! reads the data to write through `snapshot` and `uniform`, then issues
//! its draw call; the decision bookkeeping here is all the overlay keeps.

use vstd::prelude::*;

use crate::config::config_error;
use crate::config::config_valid;
use crate::config::ConfigError;
use crate::config::OverlayConfig;
use crate::frametimes::shift_in;
use crate::frametimes::Frametimes;
use crate::sample::sample_ok;
use crate::sample::spec_clamp_sample;
use crate::uniform::bucket_of;
use crate::uniform::uniform_of;
use crate::uniform::OverlayConfigBuffer;

verus! {

/// What a single prepare asks the host to upload.
#[derive(Clone, Copy, Debug, PartialEq, Eq, Structural)]
pub struct PrepareActions {
    /// Write the sample snapshot to the GPU-visible storage buffer.
    pub upload_frametimes: bool,
    /// Write the derived uniform structure to the GPU-visible uniform
    /// buffer.
    pub upload_config: bool,
}

/// The abstract state of an overlay: the sample history, the latest
/// frames-per-second value, the configuration with its derived uniform
/// structure, and the two dirty flags driving the handoff.
pub struct OverlayState {
    pub frames: Seq<u32>,
    pub fps: u32,
    pub config: OverlayConfig,
    pub uniform: OverlayConfigBuffer,
    pub frames_dirty: bool,
    pub config_dirty: bool,
}

/// What a prepare asks the host to upload: exactly the sides whose data
/// changed since the previous prepare.
pub open spec fn upload_decision(s: OverlayState) -> PrepareActions {
    PrepareActions { upload_frametimes: s.frames_dirty, upload_config: s.config_dirty }
}

/// How a prepare changes the overlay: both sides are now clean; nothing
/// else moves.
pub open spec fn prepare_step(s: OverlayState) -> OverlayState {
    OverlayState { frames_dirty: false, config_dirty: false, ..s }
}

/// Preparing twice with no push, fps update or reconfiguration in between
/// performs at most one upload: the second prepare uploads nothing, and
/// leaves the state where the first left it.
pub proof fn lemma_prepare_idempotent(s: OverlayState)
    ensures
        upload_decision(prepare_step(s)) == (PrepareActions {
            upload_frametimes: false,
            upload_config: false,
        }),
        prepare_step(prepare_step(s)) == prepare_step(s),
{
}

/// The overlay: the ring buffer of samples, the active configuration, the
/// uniform structure derived from it, and the handoff dirty flags.
pub struct Overlay {
    frametimes: Frametimes,
    config: OverlayConfig,
    uniform: OverlayConfigBuffer,
    frames_dirty: bool,
    config_dirty: bool,
}

impl View for Overlay {
    type V = OverlayState;

    closed spec fn view(&self) -> OverlayState {
        OverlayState {
            frames: self.frametimes@.values,
            fps: self.frametimes@.fps,
            config: self.config,
            uniform: self.uniform,
            frames_dirty: self.frames_dirty,
            config_dirty: self.config_dirty,
        }
    }
}

impl Overlay {
    /// The overlay invariant: the configuration is valid, the ring buffer
    /// is at the configured capacity, and the stored uniform structure is
    /// the one derived from the configuration.
    pub open spec fn wf(&self) -> bool {
        &&& config_valid(self@.config)
        &&& self@.frames.len() == self@.config.buffer_len
        &&& self@.uniform == uniform_of(self@.config)
    }

    /// Builds an overlay from a configuration: a zero-filled ring buffer
    /// of the configured capacity and the derived uniform structure, with
    /// both sides marked for their initial upload. An invalid
    /// configuration is rejected with the matching error and no overlay is
    /// produced.
    pub fn new(config: OverlayConfig) -> (r: Result<Overlay, ConfigError>)
        ensures
            r is Ok <==> config_valid(config),
            r matches Ok(o) ==> {
                &&& o.wf()
                &&& o@.config == config
                &&& o@.frames.len() == config.buffer_len
                &&& forall|i: int| 0 <= i < config.buffer_len ==> o@.frames[i] == 0u32
                &&& o@.fps == 0u32
                &&& o@.frames_dirty
                &&& o@.config_dirty
            },
            !config_valid(config) ==> r == Err::<Overlay, ConfigError>(
                config_error(config)->Some_0,
            ),
    {
        let uniform: OverlayConfigBuffer = match OverlayConfigBuffer::derive(&config) {
            Ok(u) => u,
            Err(e) => {
                return Err(e);
            },
        };
        let frametimes = Frametimes::new(config.buffer_len);
        Ok(
            Overlay {
                frametimes,
                config,
                uniform,
                frames_dirty: true,
                config_dirty: true,
            },
        )
    }

    /// Records the newest per-frame duration: the oldest sample is
    /// evicted, malformed samples are clamped to zero, and the sample side
    /// becomes dirty.
    pub fn on_update(&mut self, sample: u32)
        requires
            old(self).wf(),
        ensures
            final(self).wf(),
            final(self)@.frames == shift_in(old(self)@.frames, spec_clamp_sample(sample)),
            final(self)@.fps == old(self)@.fps,
            final(self)@.config == old(self)@.config,
            final(self)@.uniform == old(self)@.uniform,
            final(self)@.frames_dirty,
            final(self)@.config_dirty == old(self)@.config_dirty,
    {
        self.frametimes.push(sample);
        self.frames_dirty = true;
    }

    /// Records the latest frames-per-second value; the samples are
    /// untouched, and the sample side becomes dirty (the value is part of
    /// the uploaded snapshot data).
    pub fn set_fps(&mut self, fps: u32)
        requires
            old(self).wf(),
        ensures
            final(self).wf(),
            final(self)@.fps == fps,
            final(self)@.frames == old(self)@.frames,
            final(self)@.config == old(self)@.config,
            final(self)@.uniform == old(self)@.uniform,
            final(self)@.frames_dirty,
            final(self)@.config_dirty == old(self)@.config_dirty,
    {
        self.frametimes.set_fps(fps);
        self.frames_dirty = true;
    }

    /// Replaces the configuration. An unchanged configuration is a no-op
    /// and triggers no re-derivation or upload. A changed one is validated
    /// and must keep the ring-buffer capacity; on success the uniform
    /// structure is re-derived and marked for upload, on failure nothing
    /// changes.
    pub fn set_config(&mut self, config: OverlayConfig) -> (r: Result<(), ConfigError>)
        requires
            old(self).wf(),
        ensures
            final(self).wf(),
            config == old(self)@.config ==> r is Ok && final(self)@ == old(self)@,
            config != old(self)@.config && !config_valid(config) ==> {
                &&& r == Err::<(), ConfigError>(config_error(config)->Some_0)
                &&& final(self)@ == old(self)@
            },
            config != old(self)@.config && config_valid(config) && config.buffer_len != old(
                self,
            )@.frames.len() ==> {
                &&& r == Err::<(), ConfigError>(ConfigError::BufferLenMismatch)
                &&& final(self)@ == old(self)@
            },
            config != old(self)@.config && config_valid(config) && config.buffer_len == old(
                self,
            )@.frames.len() ==> r is Ok && final(self)@ == (OverlayState {
                config,
                uniform: uniform_of(config),
                config_dirty: true,
                ..old(self)@
            }),
    {
        if self.config.same_as(&config) {
            return Ok(());
        }
        let uniform: OverlayConfigBuffer = match OverlayConfigBuffer::derive(&config) {
            Ok(u) => u,
            Err(e) => {
                return Err(e);
            },
        };
        if config.buffer_len != self.frametimes.capacity() {
            return Err(ConfigError::BufferLenMismatch);
        }
        self.config = config;
        self.uniform = uniform;
        self.config_dirty = true;
        Ok(())
    }

    /// The render-prepare step: reports which buffers the host must
    /// (re)write for this frame and marks both sides clean. With no
    /// intervening update, a second prepare asks for nothing.
    pub fn on_prepare(&mut self) -> (acts: PrepareActions)
        requires
            old(self).wf(),
        ensures
            final(self).wf(),
            acts == upload_decision(old(self)@),
            final(self)@ == prepare_step(old(self)@),
    {
        let acts = PrepareActions {
            upload_frametimes: self.frames_dirty,
            upload_config: self.config_dirty,
        };
        self.frames_dirty = false;
        self.config_dirty = false;
        acts
    }

    /// An order-preserving copy of the samples, oldest to newest; what the
    /// host writes into the storage buffer.
    pub fn snapshot(&self) -> (r: Vec<u32>)
        ensures
            r@ == self@.frames,
    {
        self.frametimes.snapshot()
    }

    /// The uniform structure for the active configuration; what the host
    /// writes into the uniform buffer.
    pub fn uniform(&self) -> (r: &OverlayConfigBuffer)
        ensures
            *r == self@.uniform,
    {
        &self.uniform
    }

    /// The active configuration.
    pub fn config(&self) -> (r: &OverlayConfig)
        ensures
            *r == self@.config,
    {
        &self.config
    }

    /// The latest frames-per-second value.
    pub fn fps(&self) -> (r: u32)
        ensures
            r == self@.fps,
    {
        self.frametimes.fps()
    }

    /// The ring-buffer capacity.
    pub fn capacity(&self) -> (r: usize)
        ensures
            r == self@.frames.len(),
    {
        self.frametimes.capacity()
    }

    /// The bucket a sample falls in under the active thresholds.
    pub fn bucket_index(&self, sample: u32) -> (idx: usize)
        requires
            self.wf(),
            sample_ok(sample),
        ensures
            idx as int == bucket_of(self@.config.thresholds, sample),
            idx < 4,
    {
        self.uniform.bucket_index(sample)
    }
}

} // verus!
