use std::cell::RefCell;
use std::time::Duration;

use citra_engine::asset_provider::{get_asset_location, AssetProvider, AssetType};
use citra_engine::audio_manager::AudioManager;
use citra_engine::error::CitraError;
use citra_engine::math::Float3;
use citra_engine::scene::node_path::NodePath;
use citra_engine::script::{ScriptArg, ScriptArgs};
use citra_engine::scripts::{MusicRequest, PlayMusic, Scripts, StartToExit};

struct Assets {}
impl AssetProvider for Assets {
    fn get_asset_location(&self, asset_type: AssetType, path: String) -> String {
        get_asset_location(asset_type, path)
    }
    fn read_file_to_string(&self, _path: String) -> Result<String, CitraError> {
        Ok(String::new())
    }
}

#[derive(Default)]
struct Recorder {
    played: RefCell<Vec<(Duration, u8, String)>>,
    stopped: RefCell<Vec<Duration>>,
}
impl AudioManager for Recorder {
    fn cache(&self, _: String) {}
    fn uncache(&self, _: String) {}
    fn uncache_all(&self) {}
    fn bgm_play(&self, fade: Duration, volume: u8, path: String) {
        self.played.borrow_mut().push((fade, volume, path));
    }
    fn bgm_pause(&self, _: Duration) {}
    fn bgm_resume(&self, _: Duration) {}
    fn bgm_stop(&self, fade: Duration) {
        self.stopped.borrow_mut().push(fade);
    }
    fn bgm_set_volume(&self, _: u8, _: Duration) {}
    fn bgm_set_time(&self, _: Duration) {}
    fn bgm_playing(&self) -> bool {
        false
    }
    fn se_play(&self, _: u8, _: String) {}
    fn se_stop_all(&self) {}
    fn se_num_playing(&self) -> usize {
        0
    }
    fn ls_start(&self) {}
    fn ls_stop(&self) {}
}

#[test]
fn library_lists_its_scripts() {
    assert_eq!(
        Scripts::get_scripts(),
        vec!["StartToExit".to_string(), "PlayMusic".to_string()]
    );
    assert_eq!(StartToExit {}.get_name(), "StartToExit");
    assert_eq!(PlayMusic {}.get_name(), "PlayMusic");
}

#[test]
fn play_music_plays_the_file_argument() {
    let mut args = ScriptArgs::new();
    args.insert("file".to_string(), ScriptArg::FilePath("/music/theme".to_string()));
    let audio = Recorder::default();
    assert!(PlayMusic {}.on_enable(&args, &Assets {}, &audio).is_ok());
    assert_eq!(
        *audio.played.borrow(),
        vec![(Duration::ZERO, 1u8, "romfs:/music/theme.ogg".to_string())]
    );
    assert!(PlayMusic {}.on_disable(&audio).is_ok());
    assert_eq!(*audio.stopped.borrow(), vec![Duration::ZERO]);
}

#[test]
fn play_music_without_file_argument() {
    let args = ScriptArgs::new();
    let audio = Recorder::default();
    let res = PlayMusic {}.on_enable(&args, &Assets {}, &audio);
    match res {
        Err(CitraError::MissingScriptArg(script, arg)) => {
            assert_eq!(script, "PlayMusic");
            assert_eq!(arg, "file");
        }
        _ => panic!("expected a missing argument"),
    }
    assert!(audio.played.borrow().is_empty());
}

#[test]
fn play_music_with_wrong_argument_type() {
    let mut args = ScriptArgs::new();
    args.insert("file".to_string(), ScriptArg::Int(5));
    let res = PlayMusic {}.music_file(&args);
    match res {
        Err(CitraError::InvalidScriptArgType(script, expected, got)) => {
            assert_eq!(script, "PlayMusic");
            assert_eq!(expected, "FilePath");
            assert_eq!(got, "Int(5)");
        }
        _ => panic!("expected a wrong argument type"),
    }
    let mut args = ScriptArgs::new();
    args.insert("file".to_string(), ScriptArg::String("x".to_string()));
    let res = PlayMusic {}.music_file(&args);
    match res {
        Err(CitraError::InvalidScriptArgType(_, _, got)) => assert_eq!(got, "String(\"x\")"),
        _ => panic!("expected a wrong argument type"),
    }
}

#[test]
fn play_music_file_path() {
    let mut args = ScriptArgs::new();
    args.insert("other".to_string(), ScriptArg::Bool(true));
    args.insert("file".to_string(), ScriptArg::FilePath("a".to_string()));
    assert_eq!(PlayMusic {}.music_file(&args).unwrap(), "a");
}

#[test]
fn play_music_enable_request_plays_without_fade_at_volume_one() {
    let mut args = ScriptArgs::new();
    args.insert("file".to_string(), ScriptArg::FilePath("/music/theme".to_string()));
    let script = PlayMusic {};
    match script.enable_request(&args) {
        Ok(MusicRequest::Play { fade_secs, volume, asset_type, path }) => {
            assert_eq!(asset_type, AssetType::Music);
            assert_eq!(fade_secs, 0);
            assert_eq!(volume, 1);
            assert_eq!(path, "/music/theme");
        }
        other => panic!("unexpected request {:?}", other),
    }
}

#[test]
fn play_music_enable_request_without_file_is_an_error() {
    let args = ScriptArgs::new();
    let script = PlayMusic {};
    match script.enable_request(&args) {
        Err(CitraError::MissingScriptArg(script, key)) => {
            assert_eq!(script, "PlayMusic");
            assert_eq!(key, "file");
        }
        other => panic!("unexpected result {:?}", other),
    }
}

#[test]
fn play_music_disable_request_stops_without_fade() {
    let script = PlayMusic {};
    match script.disable_request() {
        MusicRequest::Stop { fade_secs } => assert_eq!(fade_secs, 0),
        other => panic!("unexpected request {:?}", other),
    }
}

#[test]
fn argument_texts_in_errors() {
    assert_eq!(ScriptArg::Bool(true).debug_text(), "Bool(true)");
    assert_eq!(ScriptArg::Bool(false).debug_text(), "Bool(false)");
    assert_eq!(ScriptArg::Int(42).debug_text(), "Int(42)");
    assert_eq!(ScriptArg::Float(0x3f80_0000).debug_text(), "Float(1065353216)");
    assert_eq!(ScriptArg::String("a\"b".to_string()).debug_text(), "String(\"a\\\"b\")");
    assert_eq!(ScriptArg::FilePath("/m".to_string()).debug_text(), "FilePath(\"/m\")");
    assert_eq!(
        ScriptArg::NodePath(NodePath::from("/a/b".to_string())).debug_text(),
        "NodePath(NodePath { path: [\"a\", \"b\"] })"
    );
    assert_eq!(ScriptArg::NodePath(NodePath::default()).debug_text(), "NodePath(NodePath { path: [] })");
    assert_eq!(ScriptArg::NodeReference(3).debug_text(), "NodeReference((Weak))");
    assert_eq!(
        ScriptArg::Vec3(Float3 { x: 1, y: 2, z: 3 }).debug_text(),
        "Vec3(Float3 { x: 1, y: 2, z: 3 })"
    );
}
