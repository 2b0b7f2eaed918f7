//! The Controller: honors start/stop commands from the UI and tracks which
//! workers and cross-thread channels are live.
//!
//! The shell that spawns threads and owns devices assigns a token to every
//! worker and channel it creates; the Controller decides, per command, which
//! workers start and stop and which channels open and close. At most one
//! camera worker and one mic worker are live at a time: a start command
//! requires that the slot is free, so a caller stops the old worker first.

use vstd::prelude::*;

verus! {

/// The Controller's state: the tokens of the live camera worker, the live
/// mic worker, the open threshold-update channel and the pending
/// trigger-channel sender, if any.
#[derive(Clone, Copy, Debug, PartialEq, Eq)]
pub struct Controller {
    pub camera_worker: Option<u64>,
    pub mic_worker: Option<u64>,
    pub threshs_channel: Option<u64>,
    pub trigger_channel: Option<u64>,
}

/// The state after `settings_choose_camera`: a preview camera worker is
/// live and a threshold channel is open.
pub open spec fn choose_camera_spec(c: Controller, camera_token: u64, threshs_token: u64)
    -> Controller {
    Controller {
        camera_worker: Some(camera_token),
        threshs_channel: Some(threshs_token),
        ..c
    }
}

/// The state after `settings_close_camera`: the camera worker and the
/// threshold channel are gone when a camera worker was live; otherwise the
/// state is unchanged.
pub open spec fn close_camera_spec(c: Controller) -> Controller {
    if c.camera_worker is Some {
        Controller { camera_worker: None, threshs_channel: None, ..c }
    } else {
        c
    }
}

impl Controller {
    /// A fresh Controller with no live worker and no open channel.
    pub fn new() -> (r: Controller)
        ensures
            r == (Controller {
                camera_worker: None::<u64>,
                mic_worker: None::<u64>,
                threshs_channel: None::<u64>,
                trigger_channel: None::<u64>,
            }),
    {
        Controller {
            camera_worker: None,
            mic_worker: None,
            threshs_channel: None,
            trigger_channel: None,
        }
    }

    /// Starts the settings-preview camera worker and opens the
    /// threshold-update channel.
    pub fn settings_choose_camera(&mut self, camera_token: u64, threshs_token: u64)
        requires
            old(self).camera_worker is None,
        ensures
            *final(self) == choose_camera_spec(*old(self), camera_token, threshs_token),
    {
        self.camera_worker = Some(camera_token);
        self.threshs_channel = Some(threshs_token);
    }

    /// Stops the camera worker and closes the threshold channel; a no-op
    /// when no camera worker is live. Returns the token of the worker to
    /// terminate, if any.
    pub fn settings_close_camera(&mut self) -> (stopped: Option<u64>)
        ensures
            *final(self) == close_camera_spec(*old(self)),
            stopped == old(self).camera_worker,
    {
        let stopped: Option<u64> = self.camera_worker;
        if stopped.is_some() {
            self.camera_worker = None;
            self.threshs_channel = None;
        }
        stopped
    }

    /// Whether a threshold update is forwarded: only while the threshold
    /// channel is open. The state does not change.
    pub fn settings_threshs_changed(&self) -> (forward: bool)
        ensures
            forward == (self.threshs_channel is Some),
    {
        self.threshs_channel.is_some()
    }

    /// Starts the settings-preview mic worker.
    pub fn settings_choose_mic(&mut self, mic_token: u64)
        requires
            old(self).mic_worker is None,
        ensures
            *final(self) == (Controller { mic_worker: Some(mic_token), ..*old(self) }),
    {
        self.mic_worker = Some(mic_token);
    }

    /// Stops the mic worker; a no-op when none is live. Returns the token
    /// of the worker to terminate, if any.
    pub fn settings_close_mic(&mut self) -> (stopped: Option<u64>)
        ensures
            *final(self) == (Controller { mic_worker: None::<u64>, ..*old(self) }),
            stopped == old(self).mic_worker,
    {
        let stopped: Option<u64> = self.mic_worker;
        self.mic_worker = None;
        stopped
    }

    /// Starts the trigger mic worker, handing it the pending trigger-channel
    /// sender. Returns the trigger token the worker receives, if one was
    /// pending.
    pub fn start_audio(&mut self, mic_token: u64) -> (trigger: Option<u64>)
        requires
            old(self).mic_worker is None,
        ensures
            *final(self) == (Controller {
                mic_worker: Some(mic_token),
                trigger_channel: None::<u64>,
                ..*old(self)
            }),
            trigger == old(self).trigger_channel,
    {
        let trigger: Option<u64> = self.trigger_channel;
        self.trigger_channel = None;
        self.mic_worker = Some(mic_token);
        trigger
    }

    /// Starts the calibration camera worker and keeps the trigger sender
    /// for the audio worker started next.
    pub fn start_calib_video(&mut self, camera_token: u64, trigger_token: u64)
        requires
            old(self).camera_worker is None,
        ensures
            *final(self) == (Controller {
                camera_worker: Some(camera_token),
                trigger_channel: Some(trigger_token),
                ..*old(self)
            }),
    {
        self.camera_worker = Some(camera_token);
        self.trigger_channel = Some(trigger_token);
    }

    /// Starts the shot camera worker and keeps the trigger sender for the
    /// audio worker started next.
    pub fn start_shoot_video(&mut self, camera_token: u64, trigger_token: u64)
        requires
            old(self).camera_worker is None,
        ensures
            *final(self) == (Controller {
                camera_worker: Some(camera_token),
                trigger_channel: Some(trigger_token),
                ..*old(self)
            }),
    {
        self.camera_worker = Some(camera_token);
        self.trigger_channel = Some(trigger_token);
    }

    /// Stops the camera worker and the mic worker, if live. Returns the
    /// tokens of the workers to terminate.
    pub fn stop_webcam_and_mic(&mut self) -> (stopped: (Option<u64>, Option<u64>))
        ensures
            *final(self) == (Controller {
                camera_worker: None::<u64>,
                mic_worker: None::<u64>,
                ..*old(self)
            }),
            stopped == (old(self).camera_worker, old(self).mic_worker),
    {
        let stopped: (Option<u64>, Option<u64>) = (self.camera_worker, self.mic_worker);
        self.camera_worker = None;
        self.mic_worker = None;
        stopped
    }
}

/// Round-trip law: on a Controller with no live camera worker and no open
/// threshold channel, `settings_choose_camera` followed by
/// `settings_close_camera` restores the state before the pair.
pub proof fn lemma_choose_close_camera_roundtrip(
    c: Controller,
    camera_token: u64,
    threshs_token: u64,
)
    requires
        c.camera_worker is None,
        c.threshs_channel is None,
    ensures
        close_camera_spec(choose_camera_spec(c, camera_token, threshs_token)) == c,
{
}

} // verus!
