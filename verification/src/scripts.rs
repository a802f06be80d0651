//! The scripts that ship with the engine: one ends the application when Start
//! is pressed, one plays a music file while its object is enabled.
use vstd::prelude::*;

use core::time::Duration;

use crate::asset_provider::{AssetProvider, AssetType};
use crate::audio_manager::AudioManager;
use crate::engine::{EngineState, EngineView};
use crate::error::CitraError;
use crate::input::{InputBits, input_mask};
use crate::script::{ScriptArg, ScriptArgView, ScriptArgs, arg_text};

verus! {

/// The library of the engine's scripts.
#[derive(Clone, Copy, Debug, Default)]
pub struct Scripts {}

impl Scripts {
    /// The names of the scripts of the library, in registration order.
    pub fn get_scripts() -> (names: Vec<String>)
        ensures
            names@.len() == 2,
            names@[0]@ == "StartToExit"@,
            names@[1]@ == "PlayMusic"@,
    {
        let mut names: Vec<String> = Vec::new();
        names.push(String::from_str("StartToExit"));
        names.push(String::from_str("PlayMusic"));
        names
    }
}

/// Ends the application when Start is pressed.
#[derive(Debug)]
pub struct StartToExit {}

impl StartToExit {
    pub fn get_name(&self) -> (name: String)
        ensures
            name@ == "StartToExit"@,
    {
        String::from_str("StartToExit")
    }

    /// Asks the engine to exit when Start was pressed this frame; nothing else
    /// changes.
    pub fn on_tick(&self, state: &mut EngineState) -> (res: Result<(), CitraError>)
        ensures
            res is Ok,
            final(state).view() == (EngineView {
                should_exit: old(state).should_exit || old(state).input_state.down() & input_mask(
                    InputBits::KeyStart,
                ) != 0,
                ..old(state).view()
            }),
    {
        if state.input_state.start_pressed() {
            state.should_exit = true;
        }
        Ok(())
    }
}

/// The duration that std's `Duration::from_secs` gives for `secs` whole
/// seconds.
pub uninterp spec fn duration_of_secs(secs: u64) -> Duration;

/// A duration of `secs` whole seconds (std's `Duration::from_secs`).
#[verifier::external_body]
fn duration_from_secs(secs: u64) -> (d: Duration)
    ensures
        d == duration_of_secs(secs),
{
    Duration::from_secs(secs)
}

/// What `PlayMusic` asks of the audio manager.
#[derive(Debug)]
pub enum MusicRequest {
    /// Play the asset of kind `asset_type` at `path`, fading in over
    /// `fade_secs` seconds, at `volume`.
    Play { fade_secs: u64, volume: u8, asset_type: AssetType, path: String },
    /// Stop the music, fading out over `fade_secs` seconds.
    Stop { fade_secs: u64 },
}

/// Plays the music file named by its argument `file` while its object is
/// enabled.
#[derive(Debug)]
pub struct PlayMusic {}

/// `res` is the error that `PlayMusic` gives for the arguments `args`, or the
/// path of the music file.
pub open spec fn music_file_result(
    args: Map<Seq<char>, ScriptArgView>,
    res: Result<String, CitraError>,
) -> bool {
    if !args.dom().contains("file"@) {
        res matches Err(CitraError::MissingScriptArg(n, k)) && n@ == "PlayMusic"@ && k@ == "file"@
    } else {
        match args["file"@] {
            ScriptArgView::FilePath(p) => res matches Ok(s) && s@ == p,
            other => res matches Err(CitraError::InvalidScriptArgType(n, t, d)) && n@
                == "PlayMusic"@ && t@ == "FilePath"@ && d@ == arg_text(other),
        }
    }
}

impl PlayMusic {
    pub fn get_name(&self) -> (name: String)
        ensures
            name@ == "PlayMusic"@,
    {
        String::from_str("PlayMusic")
    }

    /// The path of the music file named by the arguments.
    pub fn music_file(&self, args: &ScriptArgs) -> (res: Result<String, CitraError>)
        requires
            args.wf(),
        ensures
            music_file_result(args.view(), res),
    {
        match args.get("file") {
            None => Err(CitraError::MissingScriptArg(self.get_name(), String::from_str("file"))),
            Some(arg) => match arg {
                ScriptArg::FilePath(path) => Ok(path.clone()),
                _ => Err(
                    CitraError::InvalidScriptArgType(
                        self.get_name(),
                        String::from_str("FilePath"),
                        arg.debug_text(),
                    ),
                ),
            },
        }
    }

    /// The request that enabling gives for the arguments: play the music
    /// file that they name at volume 1 without a fade, or the error of
    /// `music_file`.
    pub fn enable_request(&self, args: &ScriptArgs) -> (res: Result<MusicRequest, CitraError>)
        requires
            args.wf(),
        ensures
            match res {
                Ok(r) => r matches MusicRequest::Play { fade_secs, volume, asset_type, path }
                    && fade_secs == 0 && volume == 1 && asset_type == AssetType::Music
                    && music_file_result(args.view(), Ok(path)),
                Err(e) => music_file_result(args.view(), Err(e)),
            },
    {
        match self.music_file(args) {
            Ok(path) => Ok(
                MusicRequest::Play { fade_secs: 0, volume: 1, asset_type: AssetType::Music, path },
            ),
            Err(e) => Err(e),
        }
    }

    /// The request that disabling gives: stop the music without a fade.
    pub fn disable_request(&self) -> (r: MusicRequest)
        ensures
            r matches MusicRequest::Stop { fade_secs } && fade_secs == 0,
    {
        MusicRequest::Stop { fade_secs: 0 }
    }

    /// Hands the request of `enable_request` to the audio manager: plays the
    /// music file at its location among the music assets. Fails, playing
    /// nothing, where the arguments name no music file.
    pub fn on_enable<P: AssetProvider, A: AudioManager>(
        &self,
        args: &ScriptArgs,
        assets: &P,
        audio: &A,
    ) -> (res: Result<(), CitraError>)
        requires
            args.wf(),
        ensures
            res is Ok <==> (args.view().dom().contains("file"@) && args.view()["file"@] is FilePath),
            res matches Err(e) ==> music_file_result(args.view(), Err(e)),
    {
        match self.enable_request(args) {
            Err(e) => Err(e),
            Ok(MusicRequest::Play { fade_secs, volume, asset_type, path }) => {
                let location = assets.get_asset_location(asset_type, path);
                audio.bgm_play(duration_from_secs(fade_secs), volume, location);
                Ok(())
            },
            Ok(MusicRequest::Stop { .. }) => Ok(()),
        }
    }

    /// Hands the request of `disable_request` to the audio manager: stops the
    /// music.
    pub fn on_disable<A: AudioManager>(&self, audio: &A) -> (res: Result<(), CitraError>)
        ensures
            res is Ok,
    {
        match self.disable_request() {
            MusicRequest::Stop { fade_secs } => audio.bgm_stop(duration_from_secs(fade_secs)),
            MusicRequest::Play { .. } => {},
        }
        Ok(())
    }
}

} // verus!
