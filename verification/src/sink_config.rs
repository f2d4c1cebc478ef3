//! The configuration synchronizer's core: rendering the sink-configuration
//! text, reading the referenced WAV path back out of it, judging the
//! service-reload exit status, and the install/remove state machine whose
//! rollback discipline guarantees that no configuration file survives a
//! failed install.
//!
//! The rendered text keeps the `filename = "<path>"` assignment on its first
//! line, so the first-match parse finds exactly the path that was written.

use vstd::prelude::*;
use vstd::string::StrSliceExecFns;
use vstd::string::StringExecFns;
use crate::text::{find_char, find_sub, lemma_find_char_at, lemma_find_from, spec_find,
    spec_find_char};
use crate::wav::{classify_read, spec_classify};

verus! {

/// The assignment that introduces the referenced WAV path.
pub const FILENAME_KEY: &'static str = "filename = \"";

/// The fixed part of the configuration after the path: closes the filename
/// line and opens the device-name assignment.
pub const CONF_AFTER_PATH: &'static str = "\"\ndevice.name = \"";

/// The fixed tail of the configuration after the device name: closes the
/// device line and writes the internal node-name identifier.
pub const CONF_AFTER_DEVICE: &'static str =
    "\"\nnode.name = \"effect_input.virtual-surround-7.1-irategoose\"\n";

/// The rendered configuration text: the filename assignment first, then the
/// chosen device display name, then the fixed internal node name.
pub open spec fn spec_render(ir_path: Seq<char>, device: Seq<char>) -> Seq<char> {
    FILENAME_KEY@ + ir_path + CONF_AFTER_PATH@ + device + CONF_AFTER_DEVICE@
}

/// Renders the configuration text for a staged impulse-response file and a
/// device display name.
pub fn render_config(ir_path: &str, device_name: &str) -> (r: String)
    ensures
        r@ == spec_render(ir_path@, device_name@),
{
    let mut out = String::new();
    out.append(FILENAME_KEY);
    out.append(ir_path);
    out.append(CONF_AFTER_PATH);
    out.append(device_name);
    out.append(CONF_AFTER_DEVICE);
    out
}

/// A failure to read the referenced path out of a configuration text.
#[derive(Debug, Clone, Copy, PartialEq, Eq, Structural)]
pub enum ConfigParseError {
    /// No `filename = "<path>"` assignment with a non-empty path was found.
    MissingFilename,
}

/// The path the configuration text references: the characters between the
/// first `filename = "` and the next quote (or the end), which must be
/// non-empty.
pub open spec fn spec_extract_filename(h: Seq<char>) -> Option<Seq<char>> {
    let k = spec_find(h, FILENAME_KEY@);
    if k == -1 {
        None
    } else {
        let rest = h.subrange(k + FILENAME_KEY@.len(), h.len() as int);
        let q = spec_find_char(rest, '"');
        let captured = if q == -1 {
            rest
        } else {
            rest.subrange(0, q)
        };
        if captured.len() == 0 {
            None
        } else {
            Some(captured)
        }
    }
}

/// Reads the referenced WAV path out of a configuration text: the first
/// `filename = "` assignment, captured up to the closing quote.
pub fn extract_filename_from_config(content: &str) -> (r: Result<String, ConfigParseError>)
    ensures
        match r {
            Ok(path) => spec_extract_filename(content@) == Some(path@),
            Err(e) => spec_extract_filename(content@) is None && e
                == ConfigParseError::MissingFilename,
        },
{
    let len = content.unicode_len();
    let key_len = FILENAME_KEY.unicode_len();
    match find_sub(content, FILENAME_KEY) {
        None => Err(ConfigParseError::MissingFilename),
        Some(k) => {
            proof {
                lemma_find_from(content@, FILENAME_KEY@, 0);
            }
            let rest = content.substring_char(k + key_len, len);
            proof {
                crate::text::lemma_find_char(rest@, '"');
            }
            let captured = match find_char(rest, '"') {
                None => rest,
                Some(q) => rest.substring_char(0, q),
            };
            if captured.unicode_len() == 0 {
                Err(ConfigParseError::MissingFilename)
            } else {
                Ok(captured.to_owned())
            }
        },
    }
}

/// Law: the configuration round-trips. The path that `render_config` writes
/// is exactly what `extract_filename_from_config` reads back, for every
/// non-empty path without a quote character, whatever the device name says.
pub proof fn lemma_render_extract_roundtrip(ir_path: Seq<char>, device: Seq<char>)
    requires
        ir_path.len() > 0,
        forall|i: int| 0 <= i < ir_path.len() ==> ir_path[i] != '"',
    ensures
        spec_extract_filename(spec_render(ir_path, device)) == Some(ir_path),
{
    let h = spec_render(ir_path, device);
    let key = FILENAME_KEY@;
    reveal_strlit("filename = \"");
    reveal_strlit("\"\ndevice.name = \"");
    assert(h.subrange(0, key.len() as int) =~= key);
    assert(spec_find(h, key) == 0);
    let rest = h.subrange(key.len() as int, h.len() as int);
    assert(rest =~= ir_path + CONF_AFTER_PATH@ + device + CONF_AFTER_DEVICE@);
    assert(rest[ir_path.len() as int] == CONF_AFTER_PATH@[0]);
    assert(CONF_AFTER_PATH@[0] == '"');
    lemma_find_char_at(rest, '"', ir_path.len() as int);
    assert(rest.subrange(0, ir_path.len() as int) =~= ir_path);
}

/// Whether a service-reload exit status counts as success: exit code `0`, or
/// the code meaning "service unit not found", which is an idempotent no-op.
/// `None` stands for termination by signal and is always a failure.
pub fn reload_ok(exit_code: Option<i32>) -> (r: bool)
    ensures
        r == (exit_code == Some(0i32) || exit_code == Some(5i32)),
{
    match exit_code {
        Some(0) => true,
        Some(5) => true,
        _ => false,
    }
}

/// The checksum that the installed-state probe reports for the referenced
/// file: the damaged sentinel `0` for an unreadable file or one failing the
/// header check, the content digest otherwise.
pub fn installed_checksum(data: &Option<Vec<u8>>) -> (r: u64)
    ensures
        match data {
            Some(bytes) => r == spec_classify(bytes@).1,
            None => r == 0,
        },
{
    let (_, checksum) = classify_read(data);
    checksum
}

/// Why an install or remove run failed.
#[derive(Debug, Clone, Copy, PartialEq, Eq, Structural)]
pub enum SyncError {
    /// The staging directory could not be created.
    StagingDirFailed,
    /// The WAV file could not be copied into the staging directory.
    CopyFailed,
    /// The configuration file could not be written; the partial file was
    /// deleted.
    WriteFailed,
    /// The configuration file could not be written, and the partial file
    /// could not be deleted either.
    WriteFailedResidue,
    /// The service reload failed; the configuration file was deleted.
    ReloadFailed,
    /// The service reload failed, and the configuration file could not be
    /// deleted afterwards.
    ReloadFailedResidue,
    /// The configuration file could not be deleted during a remove.
    RemoveFailed,
    /// The reload after a successful remove failed; the file is already
    /// gone.
    ReloadAfterRemoveFailed,
}

/// A step of the install/remove flows. The runner performs the named action
/// and reports whether it succeeded; the machine decides what follows.
#[derive(Debug, Clone, Copy, PartialEq, Eq, Structural)]
pub enum SyncState {
    /// Install: delete any pre-existing staging directory (best-effort).
    ClearingStaging,
    /// Install: create the staging directory (fatal on failure).
    CreatingStaging,
    /// Install: copy the WAV file into the staging directory.
    CopyingWav,
    /// Install: write the rendered text to the configuration file.
    WritingConfig,
    /// Install: delete the partial configuration file after a failed write.
    RemovingAfterWriteFailure,
    /// Install: reload the audio services.
    Reloading,
    /// Install: delete the configuration file after a failed reload.
    RemovingAfterReloadFailure,
    /// Install: re-read the installed state to confirm the write.
    Verifying,
    /// Install finished; the configuration file is in place.
    Done,
    /// Install finished, but the freshly written configuration could not be
    /// read back: the distinct "written but not verifiable" anomaly.
    DoneUnverified,
    /// Remove: delete the configuration file.
    RemovingConfig,
    /// Remove: reload the audio services now that the file is gone.
    ReloadingAfterRemove,
    /// Remove finished; the configuration file is gone.
    Removed,
    /// The flow failed.
    Failed(SyncError),
}

/// What the runner must do in a state, if anything.
#[derive(Debug, Clone, Copy, PartialEq, Eq, Structural)]
pub enum SyncAction {
    /// Delete the staging directory and everything in it.
    ClearStagingDir,
    /// Create the staging directory.
    CreateStagingDir,
    /// Copy the chosen WAV file into the staging directory.
    CopyWavToStaging,
    /// Write the rendered configuration text to the configuration path.
    WriteConfigFile,
    /// Delete the configuration file.
    RemoveConfigFile,
    /// Reload the audio services.
    ReloadServices,
    /// Re-read the installed state.
    ProbeState,
}

/// The action a state asks for; terminal states ask for none.
pub open spec fn spec_action_of(s: SyncState) -> Option<SyncAction> {
    match s {
        SyncState::ClearingStaging => Some(SyncAction::ClearStagingDir),
        SyncState::CreatingStaging => Some(SyncAction::CreateStagingDir),
        SyncState::CopyingWav => Some(SyncAction::CopyWavToStaging),
        SyncState::WritingConfig => Some(SyncAction::WriteConfigFile),
        SyncState::RemovingAfterWriteFailure => Some(SyncAction::RemoveConfigFile),
        SyncState::Reloading => Some(SyncAction::ReloadServices),
        SyncState::RemovingAfterReloadFailure => Some(SyncAction::RemoveConfigFile),
        SyncState::Verifying => Some(SyncAction::ProbeState),
        SyncState::Done => None,
        SyncState::DoneUnverified => None,
        SyncState::RemovingConfig => Some(SyncAction::RemoveConfigFile),
        SyncState::ReloadingAfterRemove => Some(SyncAction::ReloadServices),
        SyncState::Removed => None,
        SyncState::Failed(_) => None,
    }
}

/// The next state after the current state's action succeeded (`true`) or
/// failed (`false`).
pub open spec fn spec_step(s: SyncState, ok: bool) -> SyncState {
    match s {
        // Clearing the staging directory is best-effort: either way, go on.
        SyncState::ClearingStaging => SyncState::CreatingStaging,
        SyncState::CreatingStaging => if ok {
            SyncState::CopyingWav
        } else {
            SyncState::Failed(SyncError::StagingDirFailed)
        },
        SyncState::CopyingWav => if ok {
            SyncState::WritingConfig
        } else {
            SyncState::Failed(SyncError::CopyFailed)
        },
        SyncState::WritingConfig => if ok {
            SyncState::Reloading
        } else {
            SyncState::RemovingAfterWriteFailure
        },
        SyncState::RemovingAfterWriteFailure => if ok {
            SyncState::Failed(SyncError::WriteFailed)
        } else {
            SyncState::Failed(SyncError::WriteFailedResidue)
        },
        SyncState::Reloading => if ok {
            SyncState::Verifying
        } else {
            SyncState::RemovingAfterReloadFailure
        },
        SyncState::RemovingAfterReloadFailure => if ok {
            SyncState::Failed(SyncError::ReloadFailed)
        } else {
            SyncState::Failed(SyncError::ReloadFailedResidue)
        },
        SyncState::Verifying => if ok {
            SyncState::Done
        } else {
            SyncState::DoneUnverified
        },
        SyncState::Done => SyncState::Done,
        SyncState::DoneUnverified => SyncState::DoneUnverified,
        SyncState::RemovingConfig => if ok {
            SyncState::ReloadingAfterRemove
        } else {
            SyncState::Failed(SyncError::RemoveFailed)
        },
        SyncState::ReloadingAfterRemove => if ok {
            SyncState::Removed
        } else {
            SyncState::Failed(SyncError::ReloadAfterRemoveFailed)
        },
        SyncState::Removed => SyncState::Removed,
        SyncState::Failed(e) => SyncState::Failed(e),
    }
}

/// How an action changes whether the configuration file exists. A failed
/// write may leave a partial file behind (either value is possible); a
/// failed delete leaves the file as it was.
pub open spec fn spec_fs_step(present: bool, a: Option<SyncAction>, ok: bool, after: bool) -> bool {
    match a {
        Some(SyncAction::WriteConfigFile) => if ok {
            after == true
        } else {
            true
        },
        Some(SyncAction::RemoveConfigFile) => if ok {
            after == false
        } else {
            after == present
        },
        _ => after == present,
    }
}

/// What each state guarantees about the configuration file. This is the
/// machine's rollback discipline: a reload failure whose cleanup succeeded
/// ends with no configuration file, a finished install ends with the file in
/// place, and a finished remove ends without it.
pub open spec fn spec_sync_inv(s: SyncState, present: bool) -> bool {
    match s {
        SyncState::Reloading => present == true,
        SyncState::Verifying => present == true,
        SyncState::Done => present == true,
        SyncState::DoneUnverified => present == true,
        SyncState::ReloadingAfterRemove => present == false,
        SyncState::Removed => present == false,
        SyncState::Failed(SyncError::ReloadFailed) => present == false,
        SyncState::Failed(SyncError::WriteFailed) => present == false,
        SyncState::Failed(SyncError::ReloadAfterRemoveFailed) => present == false,
        _ => true,
    }
}

/// Law: every step of the install/remove flows preserves the rollback
/// discipline. In particular, when the service reload fails during an
/// install and the rollback delete succeeds, the run ends in
/// `Failed(ReloadFailed)` with no configuration file on disk.
pub proof fn lemma_step_preserves_sync_inv(s: SyncState, present: bool, ok: bool, after: bool)
    requires
        spec_sync_inv(s, present),
        spec_fs_step(present, spec_action_of(s), ok, after),
    ensures
        spec_sync_inv(spec_step(s, ok), after),
{
}

/// Law: a run that ends in `Failed(ReloadFailed)` ends with no
/// configuration file: the file written during the failed install was
/// rolled back.
pub proof fn lemma_reload_failure_leaves_no_config(s: SyncState, present: bool)
    requires
        spec_sync_inv(s, present),
        s == SyncState::Failed(SyncError::ReloadFailed),
    ensures
        !present,
{
}

/// The first state of an install run. Any file state satisfies its
/// invariant.
pub fn install_start() -> (r: SyncState)
    ensures
        r == SyncState::ClearingStaging,
        forall|present: bool| spec_sync_inv(r, present),
{
    SyncState::ClearingStaging
}

/// The first state of a remove run. Any file state satisfies its invariant.
pub fn remove_start() -> (r: SyncState)
    ensures
        r == SyncState::RemovingConfig,
        forall|present: bool| spec_sync_inv(r, present),
{
    SyncState::RemovingConfig
}

/// The action the runner must perform in this state, if any.
pub fn next_action(s: &SyncState) -> (r: Option<SyncAction>)
    ensures
        r == spec_action_of(*s),
{
    match s {
        SyncState::ClearingStaging => Some(SyncAction::ClearStagingDir),
        SyncState::CreatingStaging => Some(SyncAction::CreateStagingDir),
        SyncState::CopyingWav => Some(SyncAction::CopyWavToStaging),
        SyncState::WritingConfig => Some(SyncAction::WriteConfigFile),
        SyncState::RemovingAfterWriteFailure => Some(SyncAction::RemoveConfigFile),
        SyncState::Reloading => Some(SyncAction::ReloadServices),
        SyncState::RemovingAfterReloadFailure => Some(SyncAction::RemoveConfigFile),
        SyncState::Verifying => Some(SyncAction::ProbeState),
        SyncState::Done => None,
        SyncState::DoneUnverified => None,
        SyncState::RemovingConfig => Some(SyncAction::RemoveConfigFile),
        SyncState::ReloadingAfterRemove => Some(SyncAction::ReloadServices),
        SyncState::Removed => None,
        SyncState::Failed(_) => None,
    }
}

/// Advances the machine after the runner performed the current action and
/// reports whether it succeeded.
pub fn step(s: &SyncState, ok: bool) -> (r: SyncState)
    ensures
        r == spec_step(*s, ok),
{
    match s {
        SyncState::ClearingStaging => SyncState::CreatingStaging,
        SyncState::CreatingStaging => if ok {
            SyncState::CopyingWav
        } else {
            SyncState::Failed(SyncError::StagingDirFailed)
        },
        SyncState::CopyingWav => if ok {
            SyncState::WritingConfig
        } else {
            SyncState::Failed(SyncError::CopyFailed)
        },
        SyncState::WritingConfig => if ok {
            SyncState::Reloading
        } else {
            SyncState::RemovingAfterWriteFailure
        },
        SyncState::RemovingAfterWriteFailure => if ok {
            SyncState::Failed(SyncError::WriteFailed)
        } else {
            SyncState::Failed(SyncError::WriteFailedResidue)
        },
        SyncState::Reloading => if ok {
            SyncState::Verifying
        } else {
            SyncState::RemovingAfterReloadFailure
        },
        SyncState::RemovingAfterReloadFailure => if ok {
            SyncState::Failed(SyncError::ReloadFailed)
        } else {
            SyncState::Failed(SyncError::ReloadFailedResidue)
        },
        SyncState::Verifying => if ok {
            SyncState::Done
        } else {
            SyncState::DoneUnverified
        },
        SyncState::Done => SyncState::Done,
        SyncState::DoneUnverified => SyncState::DoneUnverified,
        SyncState::RemovingConfig => if ok {
            SyncState::ReloadingAfterRemove
        } else {
            SyncState::Failed(SyncError::RemoveFailed)
        },
        SyncState::ReloadingAfterRemove => if ok {
            SyncState::Removed
        } else {
            SyncState::Failed(SyncError::ReloadAfterRemoveFailed)
        },
        SyncState::Removed => SyncState::Removed,
        SyncState::Failed(e) => SyncState::Failed(*e),
    }
}

/// The configuration-file path for the chosen mode: a scratch path under
/// `/tmp` in development mode, the PipeWire drop-in below the user
/// configuration directory otherwise.
pub fn config_path_for(config_dir: &str, dev_mode: bool) -> (r: String)
    ensures
        dev_mode ==> r@ == "/tmp/surround.conf"@,
        !dev_mode ==> r@ == config_dir@
            + "/pipewire/pipewire.conf.d/sink-virtual-surround-7.1-irategoose.conf"@,
{
    if dev_mode {
        String::from_str("/tmp/surround.conf")
    } else {
        let mut out = config_dir.to_owned();
        out.append("/pipewire/pipewire.conf.d/sink-virtual-surround-7.1-irategoose.conf");
        out
    }
}

/// The configuration-file path that an earlier release used; an existing
/// file there is migrated to the current name.
pub fn legacy_config_path_for(config_dir: &str) -> (r: String)
    ensures
        r@ == config_dir@ + "/pipewire/pipewire.conf.d/sink-virtual-surround-7.1-hesuvi.conf"@,
{
    let mut out = config_dir.to_owned();
    out.append("/pipewire/pipewire.conf.d/sink-virtual-surround-7.1-hesuvi.conf");
    out
}

/// The staging directory for impulse-response payloads: the `hrir` directory
/// beside the configuration file.
pub fn hrir_dir_for(config_parent: &str) -> (r: String)
    ensures
        r@ == config_parent@ + "/hrir"@,
{
    let mut out = config_parent.to_owned();
    out.append("/hrir");
    out
}

/// The path of the staged copy of a WAV file: its original file name under
/// the staging directory. A source path without a final component has no
/// staged path.
pub fn staged_wav_path(hrir_dir: &str, source: &str) -> (r: Option<String>)
    ensures
        match r {
            Some(p) => crate::text::spec_file_name(source@).len() > 0 && p@ == hrir_dir@ + "/"@
                + crate::text::spec_file_name(source@),
            None => crate::text::spec_file_name(source@).len() == 0,
        },
{
    let name = crate::text::file_name_of(source);
    if name.unicode_len() == 0 {
        return None;
    }
    let mut out = hrir_dir.to_owned();
    out.append("/");
    out.append(name);
    Some(out)
}

} // verus!
