//! Application settings: the WAV directory, the virtual device display name,
//! the theme preference and the development-mode flag, with the
//! commit-after-verify rule for directory rescans.
//!
//! A newly chosen directory is only committed to the settings after its scan
//! succeeded: a failed scan leaves the previously stored directory untouched,
//! so a crash mid-scan never makes a broken directory authoritative.

use vstd::prelude::*;
use vstd::string::StrSliceExecFns;
use crate::text::{spec_trim, trim};

verus! {

/// Default virtual device name used when no custom name is provided.
pub const DEFAULT_VIRTUAL_DEVICE_NAME: &'static str = "Virtual Surround Sink";

/// The UI theme preference.
#[derive(Debug, Clone, Copy, PartialEq, Eq, Structural)]
pub enum ThemePreference {
    System,
    Light,
    Dark,
}

/// Application settings (not the PipeWire sink configuration).
pub struct AppSettings {
    /// The stored WAV directory, committed only after a successful scan.
    pub wav_directory: Option<String>,
    /// Virtual device display name for the generated sink.
    pub virtual_device_name: String,
    /// UI theme preference.
    pub theme_preference: ThemePreference,
    /// A directory used for this run only, never persisted.
    pub active_wav_directory: Option<String>,
    /// Development mode: scratch paths are used and no services are
    /// reloaded.
    pub dev_mode: bool,
}

impl AppSettings {
    /// The stored WAV directory.
    pub open spec fn spec_wav_directory(&self) -> Option<String> {
        self.wav_directory
    }

    /// The run-only WAV directory.
    pub open spec fn spec_active_wav_directory(&self) -> Option<String> {
        self.active_wav_directory
    }

    /// The directory a scan uses: the run-only one when set, else the
    /// stored one.
    pub open spec fn spec_effective_wav_directory(&self) -> Option<String> {
        if self.spec_active_wav_directory() is Some {
            self.spec_active_wav_directory()
        } else {
            self.spec_wav_directory()
        }
    }

    /// The WAV directory a scan should use.
    pub fn get_wav_directory(&self) -> (r: Option<String>)
        ensures
            r == self.spec_effective_wav_directory(),
    {
        match &self.active_wav_directory {
            Some(p) => Some(p.clone()),
            None => match &self.wav_directory {
                Some(p) => Some(p.clone()),
                None => None,
            },
        }
    }

    /// Whether a stored WAV directory is set.
    pub fn is_wav_directory_set(&self) -> (r: bool)
        ensures
            r == (self.spec_wav_directory() is Some),
    {
        self.wav_directory.is_some()
    }

    /// Sets the stored WAV directory and drops any run-only directory.
    pub fn set_wav_directory(&mut self, path: Option<String>)
        ensures
            final(self).spec_wav_directory() == path,
            final(self).spec_active_wav_directory() is None,
            final(self).virtual_device_name == old(self).virtual_device_name,
            final(self).theme_preference == old(self).theme_preference,
            final(self).dev_mode == old(self).dev_mode,
    {
        self.wav_directory = path;
        self.active_wav_directory = None;
    }

    /// Sets a directory for this run only; the stored directory stays as it
    /// is.
    pub fn set_temp_wav_directory(&mut self, path: String)
        ensures
            final(self).spec_active_wav_directory() == Some(path),
            final(self).spec_wav_directory() == old(self).spec_wav_directory(),
            final(self).virtual_device_name == old(self).virtual_device_name,
            final(self).theme_preference == old(self).theme_preference,
            final(self).dev_mode == old(self).dev_mode,
    {
        self.active_wav_directory = Some(path);
    }

    /// Applies a new virtual device display name: the text is trimmed, and
    /// an empty result is rejected, leaving the stored name unchanged.
    pub fn apply_device_name(&mut self, name: &str) -> (r: bool)
        ensures
            r == (spec_trim(name@).len() != 0),
            r ==> final(self).virtual_device_name@ == spec_trim(name@),
            !r ==> final(self).virtual_device_name == old(self).virtual_device_name,
            final(self).spec_wav_directory() == old(self).spec_wav_directory(),
            final(self).spec_active_wav_directory() == old(self).spec_active_wav_directory(),
            final(self).theme_preference == old(self).theme_preference,
            final(self).dev_mode == old(self).dev_mode,
    {
        let t = trim(name);
        if t.unicode_len() == 0 {
            false
        } else {
            self.virtual_device_name = t.to_owned();
            true
        }
    }

    /// Law: commit-after-verify. Applies a rescan's outcome to the stored
    /// directory: a successful scan commits the requested directory, while a
    /// failed scan leaves the previously stored directory exactly as it was.
    pub fn apply_rescan_outcome(&mut self, requested: String, scan_ok: bool)
        ensures
            scan_ok ==> final(self).spec_wav_directory() == Some(requested)
                && final(self).spec_active_wav_directory() is None,
            !scan_ok ==> final(self).spec_wav_directory() == old(self).spec_wav_directory()
                && final(self).spec_active_wav_directory()
                == old(self).spec_active_wav_directory(),
            final(self).virtual_device_name == old(self).virtual_device_name,
            final(self).theme_preference == old(self).theme_preference,
            final(self).dev_mode == old(self).dev_mode,
    {
        if scan_ok {
            self.set_wav_directory(Some(requested));
        }
    }
}

impl Default for AppSettings {
    /// Fresh settings: no directory, the default device name, the system
    /// theme, and development mode off.
    fn default() -> (r: Self)
        ensures
            r.spec_wav_directory() is None,
            r.spec_active_wav_directory() is None,
            r.virtual_device_name@ == DEFAULT_VIRTUAL_DEVICE_NAME@,
            r.theme_preference == ThemePreference::System,
            r.dev_mode == false,
    {
        AppSettings {
            wav_directory: None,
            virtual_device_name: DEFAULT_VIRTUAL_DEVICE_NAME.to_owned(),
            theme_preference: ThemePreference::System,
            active_wav_directory: None,
            dev_mode: false,
        }
    }
}

} // verus!
