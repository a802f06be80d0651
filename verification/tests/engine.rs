use citra_engine::engine::{
    script_calls, EngineState, FrameAction, LoopAction, LoopEvent, LoopPhase, ScriptCalls, DEFAULT_SCENE,
};
use citra_engine::input::{InputBits, InputState};
use citra_engine::error::CitraError;
use citra_engine::math::Float3;
use citra_engine::scene::graph::GameObject;
use citra_engine::scene::node_path::NodePath;
use citra_engine::scene::Scene;
use citra_engine::scripts::StartToExit;

fn no_input() -> InputState {
    InputState::new(0, 0, 0)
}

#[test]
fn new_engine_queues_the_default_scene() {
    let s = EngineState::new();
    assert!(s.run_start);
    assert!(!s.destroy_ran);
    assert_eq!(s.next_scene, Some(DEFAULT_SCENE.to_string()));
    assert_eq!(s.next_scene, Some("/scenes/default".to_string()));
    assert!(!s.should_exit);
    assert_eq!(s.delta_time_ns, 0);
    assert_eq!(s.top_camera, None);
    assert_eq!(s.bottom_camera, None);
    assert_eq!(s.scene.models.len(), 0);
    assert_eq!(s.scene.graph.num_objects(), 1);
    assert_eq!(s.scene.graph.get(s.scene.root).name, "root");
}

fn scene_with_camera() -> (Scene, usize) {
    let mut scene = Scene::default();
    let cam = scene.graph.add(GameObject::new_camera(
        "camera".to_string(),
        true,
        Float3::zero(),
        Float3::zero(),
        vec![],
        0x3f32_b8c3,
        0x3c23_d70a,
        0x447a_0000,
    ));
    scene.graph.add_child(scene.root, cam);
    scene.graph.register_all_children_for_obj(scene.root);
    scene.starting_top_camera_path = Some(NodePath::from("/camera".to_string()));
    (scene, cam)
}

#[test]
fn installing_a_scene_takes_its_cameras_and_starts_it() {
    let mut s = EngineState::new();
    s.end_tick();
    s.begin_scene_load();
    let (scene, cam) = scene_with_camera();
    assert!(s.install_scene(scene).is_ok());
    assert_eq!(s.top_camera, Some(cam));
    assert_eq!(s.bottom_camera, None);
    assert_eq!(s.next_scene, None);
    assert!(s.run_start);
    assert!(!s.destroy_ran);
    assert_eq!(s.scene.graph.num_objects(), 2);
}

#[test]
fn installing_a_scene_with_a_missing_camera_fails() {
    let mut s = EngineState::new();
    s.end_tick();
    s.begin_scene_load();
    let (mut scene, cam) = scene_with_camera();
    scene.starting_bottom_camera_path = Some(NodePath::from("/nope".to_string()));
    assert!(matches!(s.install_scene(scene), Err(CitraError::InvalidNodePath(_))));
    // The scene replaced the old one and the top camera was taken before the
    // bottom path failed; the start hooks are not set to run.
    assert_eq!(s.scene.graph.num_objects(), 2);
    assert_eq!(s.top_camera, Some(cam));
    assert_eq!(s.bottom_camera, None);
    assert_eq!(s.next_scene, None);
    assert!(!s.run_start);
    assert!(s.destroy_ran);
}

#[test]
fn a_queued_scene_is_destroyed_then_loaded() {
    let mut s = EngineState::new();
    assert!(s.keeps_running(true));
    // First pass: the default scene is queued but its destroy hooks have not run.
    assert!(matches!(s.begin_frame(no_input()), FrameAction::Tick));
    s.end_tick();
    assert!(s.destroy_ran);
    assert!(!s.run_start);
    // Second pass loads it.
    match s.begin_frame(no_input()) {
        FrameAction::LoadScene(p) => assert_eq!(p, "/scenes/default"),
        FrameAction::Tick => panic!("expected a scene load"),
    }
    s.scene_loaded();
    assert_eq!(s.next_scene, None);
    assert!(s.run_start);
    assert!(!s.destroy_ran);
    // Third pass ticks the new scene with its start hooks.
    assert!(matches!(s.begin_frame(no_input()), FrameAction::Tick));
    assert_eq!(
        script_calls(s.run_start, s.next_scene.is_some(), true),
        ScriptCalls { on_start: true, on_tick: true, on_destroy: false }
    );
    s.end_tick();
    assert!(!s.run_start);
    assert!(!s.destroy_ran);
    assert!(matches!(s.begin_frame(no_input()), FrameAction::Tick));
}

#[test]
fn script_hooks_per_object() {
    assert_eq!(
        script_calls(false, false, false),
        ScriptCalls { on_start: false, on_tick: false, on_destroy: false }
    );
    assert_eq!(
        script_calls(false, true, true),
        ScriptCalls { on_start: false, on_tick: false, on_destroy: true }
    );
    assert_eq!(
        script_calls(true, true, false),
        ScriptCalls { on_start: true, on_tick: false, on_destroy: true }
    );
}

#[test]
fn start_button_ends_the_loop() {
    let mut s = EngineState::new();
    let start = InputBits::KeyStart.bits();
    s.begin_frame(InputState::new(start, start, 0));
    assert!(StartToExit {}.on_tick(&mut s).is_ok());
    assert!(s.should_exit);
    assert!(!s.keeps_running(true));
}

#[test]
fn other_buttons_do_not_end_the_loop() {
    let mut s = EngineState::new();
    let a = InputBits::KeyA.bits();
    s.begin_frame(InputState::new(a, a, 0));
    assert!(StartToExit {}.on_tick(&mut s).is_ok());
    assert!(!s.should_exit);
    assert!(s.keeps_running(true));
    assert!(!s.keeps_running(false));
}

#[test]
fn the_loop_scans_then_ticks_draws_and_waits() {
    let mut s = EngineState::new();
    assert_eq!(s.phase, LoopPhase::AskContinue);
    assert!(matches!(s.step(LoopEvent::Continues(true)), LoopAction::Scan));
    let pressed = InputState::new(0, 1, 0);
    assert!(matches!(s.step(LoopEvent::Input(pressed)), LoopAction::Tick));
    assert_eq!(s.input_state, pressed);
    assert!(matches!(s.step(LoopEvent::Done), LoopAction::Draw));
    assert!(!s.run_start);
    assert!(s.destroy_ran);
    assert!(matches!(s.step(LoopEvent::Done), LoopAction::WaitForVblank));
    assert!(matches!(s.step(LoopEvent::Done), LoopAction::AskContinue));
    // The next pass loads the queued scene alone.
    assert!(matches!(s.step(LoopEvent::Continues(true)), LoopAction::Scan));
    match s.step(LoopEvent::Input(no_input())) {
        LoopAction::LoadScene(p) => assert_eq!(p, "/scenes/default"),
        other => panic!("expected a scene load, got {:?}", other),
    }
    assert!(matches!(s.step(LoopEvent::Done), LoopAction::AskContinue));
}

#[test]
fn the_loop_stops_when_the_platform_stops_or_exit_is_asked() {
    let mut s = EngineState::new();
    assert!(matches!(s.step(LoopEvent::Continues(false)), LoopAction::Stop));
    assert!(matches!(s.step(LoopEvent::Done), LoopAction::Stop));
    assert_eq!(s.phase, LoopPhase::Stop);
    let mut s = EngineState::new();
    s.should_exit = true;
    assert!(matches!(s.step(LoopEvent::Continues(true)), LoopAction::Stop));
}
