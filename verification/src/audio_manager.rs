use vstd::prelude::*;

use core::time::Duration;

verus! {

/// What a platform provides to the engine to play sound.
///
/// Background music plays one file at a time, always looping, with fades;
/// sound effects play several files at once, without looping; while the
/// loading screen runs, sound may stop.
pub trait AudioManager {
    fn cache(&self, path: String);
    fn uncache(&self, path: String);
    fn uncache_all(&self);
    fn bgm_play(&self, fade_in_time: Duration, target_volume: u8, path: String);
    fn bgm_pause(&self, fade_out_time: Duration);
    fn bgm_resume(&self, fade_in_time: Duration);
    fn bgm_stop(&self, fade_out_time: Duration);
    fn bgm_set_volume(&self, volume: u8, fade_time: Duration);
    fn bgm_set_time(&self, time: Duration);
    fn bgm_playing(&self) -> bool;
    fn se_play(&self, volume: u8, path: String);
    fn se_stop_all(&self);
    fn se_num_playing(&self) -> usize;
    fn ls_start(&self);
    fn ls_stop(&self);
}

/// An audio manager that plays nothing.
#[derive(Debug)]
pub struct PlaceholderAudioManager {}

impl AudioManager for PlaceholderAudioManager {
    fn cache(&self, path: String) {
    }

    fn uncache(&self, path: String) {
    }

    fn uncache_all(&self) {
    }

    fn bgm_play(&self, fade_in_time: Duration, target_volume: u8, path: String) {
    }

    fn bgm_pause(&self, fade_out_time: Duration) {
    }

    fn bgm_resume(&self, fade_in_time: Duration) {
    }

    fn bgm_stop(&self, fade_out_time: Duration) {
    }

    fn bgm_set_volume(&self, volume: u8, fade_time: Duration) {
    }

    fn bgm_set_time(&self, time: Duration) {
    }

    fn bgm_playing(&self) -> (b: bool)
        ensures
            !b,
    {
        false
    }

    fn se_play(&self, volume: u8, path: String) {
    }

    fn se_stop_all(&self) {
    }

    fn se_num_playing(&self) -> (n: usize)
        ensures
            n == 0,
    {
        0
    }

    fn ls_start(&self) {
    }

    fn ls_stop(&self) {
    }
}

/// The console's audio manager; it holds no state yet.
#[derive(Debug)]
pub struct N3dsAudioManager {}

impl N3dsAudioManager {
    /// A new console audio manager.
    pub fn new() -> (res: Result<N3dsAudioManager, crate::error::CitraError>)
        ensures
            res is Ok,
    {
        Ok(N3dsAudioManager {})
    }
}

} // verus!
