//! Decisions around the audio engine: which plugin libraries it loads on each
//! platform, how output devices are described, and how a track is brought
//! into the mixer (directly, or through a WAV conversion when the engine
//! cannot open the file itself).
use vstd::prelude::*;
use vstd::string::*;

verus! {

/// The platforms the player runs on.
#[derive(Clone, Copy, Debug, PartialEq, Eq, Structural)]
pub enum Platform {
    Windows,
    MacOs,
    Linux,
    Android,
}

/// The engine's format plugins, by base name.
pub open spec fn bass_plugins() -> Seq<Seq<char>> {
    seq!["bassflac"@, "bassopus"@, "bassape"@, "bassalac"@, "basswv"@, "bass_aac"@]
}

/// The exec form of `bass_plugins()[k]`.
fn bass_plugin(k: usize) -> (r: &'static str)
    requires
        k < 6,
    ensures
        r@ == bass_plugins()[k as int],
{
    match k {
        0 => "bassflac",
        1 => "bassopus",
        2 => "bassape",
        3 => "bassalac",
        4 => "basswv",
        _ => "bass_aac",
    }
}

/// The library file of a plugin on a platform; `None` for the plugins that
/// macOS does without (its own decoders cover ALAC and AAC).
pub open spec fn plugin_file(plugin: Seq<char>, platform: Platform) -> Option<Seq<char>> {
    match platform {
        Platform::Windows => Some(plugin + ".dll"@),
        Platform::MacOs => if plugin == "bassalac"@ || plugin == "bass_aac"@ {
            None
        } else {
            Some(plugin + ".dylib"@)
        },
        Platform::Linux | Platform::Android => Some("lib"@ + plugin + ".so"@),
    }
}

/// The plugin files of the first `n` plugins, in order, skipped ones left out.
pub open spec fn plugin_files_upto(platform: Platform, n: nat) -> Seq<Seq<char>>
    decreases n,
{
    if n == 0 {
        Seq::empty()
    } else {
        let before = plugin_files_upto(platform, (n - 1) as nat);
        match plugin_file(bass_plugins()[n - 1], platform) {
            Some(f) => before.push(f),
            None => before,
        }
    }
}

/// The library files of the plugins to load on `platform`, in order.
pub fn plugin_files(platform: Platform) -> (r: Vec<String>)
    ensures
        r@.map_values(|s: String| s@) == plugin_files_upto(platform, 6),
{
    let mut out: Vec<String> = Vec::new();
    let mut k: usize = 0;
    while k < 6
        invariant
            k <= 6,
            out@.map_values(|s: String| s@) == plugin_files_upto(platform, k as nat),
        decreases 6 - k,
    {
        let plugin = bass_plugin(k);
        let ghost before = out@.map_values(|s: String| s@);
        match platform {
            Platform::Windows => {
                let mut f = String::from_str(plugin);
                f.append(".dll");
                out.push(f);
            },
            Platform::MacOs => {
                if !(crate::text::str_equal(plugin, "bassalac") || crate::text::str_equal(
                    plugin,
                    "bass_aac",
                )) {
                    let mut f = String::from_str(plugin);
                    f.append(".dylib");
                    out.push(f);
                }
            },
            Platform::Linux | Platform::Android => {
                let mut f = String::from_str("lib");
                f.append(plugin);
                f.append(".so");
                out.push(f);
            },
        }
        proof {
            match plugin_file(bass_plugins()[k as int], platform) {
                Some(f) => {
                    assert(out@.map_values(|s: String| s@) =~= before.push(f));
                },
                None => {
                    assert(out@.map_values(|s: String| s@) =~= before);
                },
            }
        }
        k = k + 1;
    }
    out
}

/// How an output device is listed, by its flags.
#[derive(Clone, Copy, Debug, PartialEq, Eq, Structural)]
pub enum DeviceKind {
    /// The system's default device.
    Default,
    /// Another device that can be used.
    Enabled,
    /// A device that is switched off.
    Disabled,
}

/// The device flag for the default device.
pub const DEVICE_DEFAULT: u32 = 2;

/// The device flag for an enabled device.
pub const DEVICE_ENABLED: u32 = 1;

/// The kind of a device: the default flag first, then the enabled flag.
pub fn device_kind(flags: u32) -> (r: DeviceKind)
    ensures
        r == if flags & DEVICE_DEFAULT != 0 {
            DeviceKind::Default
        } else if flags & DEVICE_ENABLED != 0 {
            DeviceKind::Enabled
        } else {
            DeviceKind::Disabled
        },
{
    if flags & DEVICE_DEFAULT != 0 {
        DeviceKind::Default
    } else if flags & DEVICE_ENABLED != 0 {
        DeviceKind::Enabled
    } else {
        DeviceKind::Disabled
    }
}

/// Where the loading of a track stands.
#[derive(Clone, Copy, Debug, PartialEq, Eq, Structural)]
pub enum LoadStage {
    /// The engine is opening the file itself.
    Opening,
    /// The file is being converted to WAV.
    Converting,
    /// The engine is opening the converted WAV.
    OpeningWav,
    /// The stream is being added to the mixer; `converted` tells whether it
    /// plays the converted WAV.
    Adding { stream: u32, converted: bool },
    /// The stream plays in the mixer.
    Loaded { stream: u32, converted: bool },
    /// The track could not be loaded.
    Failed,
}

/// What the engine reports back.
#[derive(Clone, Copy, Debug, PartialEq, Eq, Structural)]
pub enum LoadEvent {
    /// A file was opened as this stream (0 when opening failed).
    Opened(u32),
    /// The conversion to WAV produced a file, or not.
    Converted(bool),
    /// The mixer took the stream, or not.
    Added(bool),
}

/// What the engine has to do next.
#[derive(Clone, Copy, Debug, PartialEq, Eq, Structural)]
pub enum LoadAction {
    /// Convert the track to a temporary WAV file.
    ConvertToWav,
    /// Open the converted WAV file.
    OpenWav,
    /// Add this stream to the mixer.
    AddToMixer(u32),
    /// Make the stream current and watch for its end; a converted stream's
    /// WAV file is kept as the temporary file to delete later.
    UseStream { stream: u32, converted: bool },
    /// Free this stream: the track is not loaded.
    FreeStream(u32),
    /// Free this stream and delete the converted WAV: the track is not loaded.
    FreeStreamAndRemoveWav(u32),
    /// Delete the converted WAV: the track is not loaded.
    RemoveWav,
    /// Nothing to clean up: the track is not loaded.
    GiveUp,
}

/// The next stage and action after an event; `None` for an event that does
/// not belong to the stage (the stage is then left as it is).
pub open spec fn load_transition(stage: LoadStage, event: LoadEvent) -> Option<(LoadStage, LoadAction)> {
    match (stage, event) {
        (LoadStage::Opening, LoadEvent::Opened(s)) => if s == 0 {
            Some((LoadStage::Converting, LoadAction::ConvertToWav))
        } else {
            Some((LoadStage::Adding { stream: s, converted: false }, LoadAction::AddToMixer(s)))
        },
        (LoadStage::Converting, LoadEvent::Converted(ok)) => if ok {
            Some((LoadStage::OpeningWav, LoadAction::OpenWav))
        } else {
            Some((LoadStage::Failed, LoadAction::GiveUp))
        },
        (LoadStage::OpeningWav, LoadEvent::Opened(s)) => if s == 0 {
            Some((LoadStage::Failed, LoadAction::RemoveWav))
        } else {
            Some((LoadStage::Adding { stream: s, converted: true }, LoadAction::AddToMixer(s)))
        },
        (LoadStage::Adding { stream, converted }, LoadEvent::Added(ok)) => if ok {
            Some(
                (
                    LoadStage::Loaded { stream, converted },
                    LoadAction::UseStream { stream, converted },
                ),
            )
        } else if converted {
            Some((LoadStage::Failed, LoadAction::FreeStreamAndRemoveWav(stream)))
        } else {
            Some((LoadStage::Failed, LoadAction::FreeStream(stream)))
        },
        _ => None,
    }
}

/// The stage a load starts in, and what the engine does first: open the file.
pub fn load_start() -> (r: LoadStage)
    ensures
        r == LoadStage::Opening,
{
    LoadStage::Opening
}

/// One step of loading a track (see `load_transition`).
pub fn load_step(stage: LoadStage, event: LoadEvent) -> (r: Option<(LoadStage, LoadAction)>)
    ensures
        r == load_transition(stage, event),
{
    match (stage, event) {
        (LoadStage::Opening, LoadEvent::Opened(s)) => if s == 0 {
            Some((LoadStage::Converting, LoadAction::ConvertToWav))
        } else {
            Some((LoadStage::Adding { stream: s, converted: false }, LoadAction::AddToMixer(s)))
        },
        (LoadStage::Converting, LoadEvent::Converted(ok)) => if ok {
            Some((LoadStage::OpeningWav, LoadAction::OpenWav))
        } else {
            Some((LoadStage::Failed, LoadAction::GiveUp))
        },
        (LoadStage::OpeningWav, LoadEvent::Opened(s)) => if s == 0 {
            Some((LoadStage::Failed, LoadAction::RemoveWav))
        } else {
            Some((LoadStage::Adding { stream: s, converted: true }, LoadAction::AddToMixer(s)))
        },
        (LoadStage::Adding { stream, converted }, LoadEvent::Added(ok)) => if ok {
            Some(
                (
                    LoadStage::Loaded { stream, converted },
                    LoadAction::UseStream { stream, converted },
                ),
            )
        } else if converted {
            Some((LoadStage::Failed, LoadAction::FreeStreamAndRemoveWav(stream)))
        } else {
            Some((LoadStage::Failed, LoadAction::FreeStream(stream)))
        },
        _ => None,
    }
}

/// The stages that hold a converted WAV file on disk.
pub open spec fn holds_wav(stage: LoadStage) -> bool {
    match stage {
        LoadStage::OpeningWav => true,
        LoadStage::Adding { converted, .. } => converted,
        LoadStage::Loaded { converted, .. } => converted,
        _ => false,
    }
}

/// Whether an action deletes the converted WAV file.
pub open spec fn removes_wav(a: LoadAction) -> bool {
    a == LoadAction::RemoveWav || a matches LoadAction::FreeStreamAndRemoveWav(_)
}

/// The streams that stages carry are real ones (not 0).
pub open spec fn stage_ok(stage: LoadStage) -> bool {
    match stage {
        LoadStage::Adding { stream, .. } => stream != 0,
        LoadStage::Loaded { stream, .. } => stream != 0,
        _ => true,
    }
}

/// A load that fails while a converted WAV exists deletes it, a stream that
/// the mixer refused is freed, and a stage never carries stream 0: loading
/// leaves no temporary file and no stream behind when it fails.
pub proof fn law_failed_load_cleans_up(stage: LoadStage, event: LoadEvent)
    requires
        stage_ok(stage),
    ensures
        load_transition(stage, event) matches Some((next, action)) ==> {
            &&& stage_ok(next)
            &&& (next == LoadStage::Failed && holds_wav(stage) ==> removes_wav(action))
            &&& (next == LoadStage::Failed ==> (stage matches LoadStage::Adding { stream, .. } ==> (
            action == LoadAction::FreeStream(stream) || action
                == LoadAction::FreeStreamAndRemoveWav(stream))))
            &&& (next matches LoadStage::Loaded { stream, .. } ==> stage == LoadStage::Adding {
                stream,
                converted: holds_wav(next),
            } && event == LoadEvent::Added(true))
        },
{
}

} // verus!
