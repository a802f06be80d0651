//! The decisions of the engine's main loop: when to stop, when to load the
//! queued scene, and which script hooks run on each object during a tick.
//! The platform performs the work that each decision asks for.
use vstd::prelude::*;

use crate::error::{is_missing_node, CitraError};
use crate::input::InputState;
use crate::scene::{Scene, camera_target, opt_ids};

verus! {

/// The scene loaded when the engine starts.
pub const DEFAULT_SCENE: &'static str = "/scenes/default";

/// The state that the main loop and the scripts share between frames.
#[derive(Debug)]
pub struct EngineState {
    /// The scripts' start hooks run in the next tick.
    pub run_start: bool,
    /// The queued scene's destroy hooks have run.
    pub destroy_ran: bool,
    /// The scene to switch to.
    pub next_scene: Option<String>,
    /// The buttons of the current frame.
    pub input_state: InputState,
    /// The application should end.
    pub should_exit: bool,
    /// The time between the starts of the last two ticks, in nanoseconds.
    pub delta_time_ns: u64,
    /// The scene being run.
    pub scene: Scene,
    /// The objects of the scene that the two screens are drawn from.
    pub top_camera: Option<usize>,
    pub bottom_camera: Option<usize>,
    /// What the main loop last asked the platform to do.
    pub phase: LoopPhase,
}

/// The engine state with the queued scene's path taken as characters.
pub struct EngineView {
    pub run_start: bool,
    pub destroy_ran: bool,
    pub next_scene: Option<Seq<char>>,
    pub input_state: InputState,
    pub should_exit: bool,
    pub delta_time_ns: u64,
    pub scene: Scene,
    pub top_camera: Option<usize>,
    pub bottom_camera: Option<usize>,
    pub phase: LoopPhase,
}

/// What the main loop asks the platform to do next.
#[derive(Debug)]
pub enum LoopAction {
    /// Tell whether the platform goes on.
    AskContinue,
    /// Read this frame's buttons.
    Scan,
    /// Load the scene at this path.
    LoadScene(String),
    /// Run the scripts over the scene graph.
    Tick,
    /// Draw the scene from its cameras.
    Draw,
    /// Wait for the vertical blank.
    WaitForVblank,
    /// End the loop.
    Stop,
}

/// The kind of a loop action.
#[derive(Clone, Copy, Debug, PartialEq, Eq, Structural)]
pub enum LoopPhase {
    AskContinue,
    Scan,
    LoadScene,
    Tick,
    Draw,
    WaitForVblank,
    Stop,
}

impl LoopAction {
    pub open spec fn phase(&self) -> LoopPhase {
        match self {
            LoopAction::AskContinue => LoopPhase::AskContinue,
            LoopAction::Scan => LoopPhase::Scan,
            LoopAction::LoadScene(_) => LoopPhase::LoadScene,
            LoopAction::Tick => LoopPhase::Tick,
            LoopAction::Draw => LoopPhase::Draw,
            LoopAction::WaitForVblank => LoopPhase::WaitForVblank,
            LoopAction::Stop => LoopPhase::Stop,
        }
    }
}

/// What the platform reports after doing what the loop asked.
#[derive(Clone, Copy, Debug)]
pub enum LoopEvent {
    /// Whether the platform goes on.
    Continues(bool),
    /// This frame's buttons.
    Input(InputState),
    /// The action is done.
    Done,
}

/// The event that answers the action of kind `p`.
pub open spec fn answers(p: LoopPhase, e: LoopEvent) -> bool {
    match p {
        LoopPhase::AskContinue => e is Continues,
        LoopPhase::Scan => e is Input,
        LoopPhase::Stop => true,
        _ => e is Done,
    }
}

/// The kind of the action that follows an action of kind `p` answered by
/// `e` in state `v`.
pub open spec fn next_phase(p: LoopPhase, v: EngineView, e: LoopEvent) -> LoopPhase {
    match p {
        LoopPhase::AskContinue => match e {
            LoopEvent::Continues(c) => if keeps_running(v, c) {
                LoopPhase::Scan
            } else {
                LoopPhase::Stop
            },
            _ => p,
        },
        LoopPhase::Scan => match frame_action(v) {
            FrameActionView::LoadScene(_) => LoopPhase::LoadScene,
            FrameActionView::Tick => LoopPhase::Tick,
        },
        LoopPhase::LoadScene => LoopPhase::AskContinue,
        LoopPhase::Tick => LoopPhase::Draw,
        LoopPhase::Draw => LoopPhase::WaitForVblank,
        LoopPhase::WaitForVblank => LoopPhase::AskContinue,
        LoopPhase::Stop => LoopPhase::Stop,
    }
}

/// The actions that may follow an action of kind `p`: a pass asks whether to
/// go on, then reads the buttons, then either loads the queued scene alone or
/// ticks, draws and waits for the vertical blank; a stopped loop stays
/// stopped.
pub open spec fn follows(p: LoopPhase, q: LoopPhase) -> bool {
    match p {
        LoopPhase::AskContinue => q == LoopPhase::Scan || q == LoopPhase::Stop,
        LoopPhase::Scan => q == LoopPhase::LoadScene || q == LoopPhase::Tick,
        LoopPhase::LoadScene => q == LoopPhase::AskContinue,
        LoopPhase::Tick => q == LoopPhase::Draw,
        LoopPhase::Draw => q == LoopPhase::WaitForVblank,
        LoopPhase::WaitForVblank => q == LoopPhase::AskContinue,
        LoopPhase::Stop => q == LoopPhase::Stop,
    }
}

/// The state after one step of the loop from kind `p` answered by `e`.
pub open spec fn step_state(p: LoopPhase, v: EngineView, e: LoopEvent) -> EngineView {
    let w = match (p, e) {
        (LoopPhase::Scan, LoopEvent::Input(i)) => with_input(v, i),
        (LoopPhase::Tick, LoopEvent::Done) => after_tick(v),
        _ => v,
    };
    EngineView { phase: next_phase(p, v, e), ..w }
}

/// What one pass of the main loop does after reading the buttons.
#[derive(Debug)]
pub enum FrameAction {
    /// Load the scene at this path, then start the next pass.
    LoadScene(String),
    /// Run the scripts over the scene graph and draw.
    Tick,
}

pub enum FrameActionView {
    LoadScene(Seq<char>),
    Tick,
}

impl FrameAction {
    pub open spec fn view(&self) -> FrameActionView {
        match self {
            FrameAction::LoadScene(p) => FrameActionView::LoadScene(p@),
            FrameAction::Tick => FrameActionView::Tick,
        }
    }
}

/// The action of a pass that starts in state `v`: the queued scene is loaded
/// once its destroy hooks have run.
pub open spec fn frame_action(v: EngineView) -> FrameActionView {
    match v.next_scene {
        Some(p) => if v.destroy_ran {
            FrameActionView::LoadScene(p)
        } else {
            FrameActionView::Tick
        },
        None => FrameActionView::Tick,
    }
}

/// The state after a tick: start hooks have run, and the destroy hooks of a
/// queued scene have run.
pub open spec fn after_tick(v: EngineView) -> EngineView {
    EngineView {
        run_start: false,
        destroy_ran: v.destroy_ran || v.next_scene is Some,
        ..v
    }
}

/// The state after the queued scene was loaded: nothing is queued and the new
/// scene's start hooks run in the next tick.
pub open spec fn after_load(v: EngineView) -> EngineView {
    EngineView { run_start: true, destroy_ran: false, next_scene: None, ..v }
}

/// The state with this frame's buttons.
pub open spec fn with_input(v: EngineView, input: InputState) -> EngineView {
    EngineView { input_state: input, ..v }
}

/// The main loop goes on while the platform goes on and no exit was asked.
pub open spec fn keeps_running(v: EngineView, platform_continues: bool) -> bool {
    platform_continues && !v.should_exit
}

impl EngineState {
    pub open spec fn view(&self) -> EngineView {
        EngineView {
            run_start: self.run_start,
            destroy_ran: self.destroy_ran,
            next_scene: match self.next_scene {
                Some(p) => Some(p@),
                None => None,
            },
            input_state: self.input_state,
            should_exit: self.should_exit,
            delta_time_ns: self.delta_time_ns,
            scene: self.scene,
            top_camera: self.top_camera,
            bottom_camera: self.bottom_camera,
            phase: self.phase,
        }
    }

    /// The state of a new engine: an empty scene runs without cameras, the
    /// default scene is queued, no time has passed and no button is held.
    pub fn new() -> (s: EngineState)
        ensures
            s.run_start,
            !s.destroy_ran,
            s.view().next_scene == Some(DEFAULT_SCENE@),
            s.input_state.held() == 0 && s.input_state.down() == 0 && s.input_state.up() == 0,
            !s.should_exit,
            s.delta_time_ns == 0,
            s.scene.is_empty_scene(),
            s.top_camera is None,
            s.bottom_camera is None,
            s.phase == LoopPhase::AskContinue,
    {
        EngineState {
            run_start: true,
            destroy_ran: false,
            next_scene: Some(String::from_str(DEFAULT_SCENE)),
            input_state: InputState::zero(),
            should_exit: false,
            delta_time_ns: 0,
            scene: Scene::default(),
            top_camera: None,
            bottom_camera: None,
            phase: LoopPhase::AskContinue,
        }
    }

    /// Starts loading a scene: the screens lose their cameras.
    pub fn begin_scene_load(&mut self)
        ensures
            final(self).view() == (EngineView {
                top_camera: None,
                bottom_camera: None,
                ..old(self).view()
            }),
    {
        self.top_camera = None;
        self.bottom_camera = None;
    }

    /// Runs a loaded scene: it replaces the current scene and nothing stays
    /// queued; then the screens take the starting cameras, top first, and the
    /// new scene's start hooks are set to run. A camera path that leads
    /// nowhere is an error and stops there.
    pub fn install_scene(&mut self, scene: Scene) -> (res: Result<(), CitraError>)
        requires
            scene.wf(),
        ensures
            final(self).scene == scene,
            final(self).next_scene is None,
            final(self).input_state == old(self).input_state,
            final(self).should_exit == old(self).should_exit,
            final(self).delta_time_ns == old(self).delta_time_ns,
            match camera_target(scene.graph, scene.root as int, scene.starting_top_camera_path) {
                Err(seg) => is_missing_node(res, seg) && final(self).top_camera == old(self).top_camera
                    && final(self).bottom_camera == old(self).bottom_camera
                    && final(self).run_start == old(self).run_start
                    && final(self).destroy_ran == old(self).destroy_ran,
                Ok(t) => opt_ids(final(self).top_camera) == t && match camera_target(
                    scene.graph,
                    scene.root as int,
                    scene.starting_bottom_camera_path,
                ) {
                    Err(seg) => is_missing_node(res, seg) && final(self).bottom_camera == old(
                        self,
                    ).bottom_camera && final(self).run_start == old(self).run_start
                        && final(self).destroy_ran == old(self).destroy_ran,
                    Ok(b) => res is Ok && opt_ids(final(self).bottom_camera) == b
                        && final(self).run_start && !final(self).destroy_ran,
                },
            },
    {
        self.scene = scene;
        self.next_scene = None;
        match &self.scene.starting_top_camera_path {
            Some(p) => match self.scene.fetch(p.duplicate()) {
                Ok(c) => {
                    self.top_camera = Some(c);
                },
                Err(e) => {
                    return Err(e);
                },
            },
            None => {
                self.top_camera = None;
            },
        }
        match &self.scene.starting_bottom_camera_path {
            Some(p) => match self.scene.fetch(p.duplicate()) {
                Ok(c) => {
                    self.bottom_camera = Some(c);
                },
                Err(e) => {
                    return Err(e);
                },
            },
            None => {
                self.bottom_camera = None;
            },
        }
        self.run_start = true;
        self.destroy_ran = false;
        Ok(())
    }

    /// One step of the main loop: takes the platform's answer to the last
    /// action and decides the next one. The loop goes on while the platform
    /// goes on and no exit was asked; each pass reads the buttons before any
    /// script runs, then loads the queued scene once its destroy hooks have
    /// run, or else ticks, draws and waits for the vertical blank.
    pub fn step(&mut self, event: LoopEvent) -> (a: LoopAction)
        requires
            answers(old(self).phase, event),
        ensures
            final(self).view() == step_state(old(self).phase, old(self).view(), event),
            a.phase() == final(self).phase,
            old(self).phase == LoopPhase::Scan ==> match frame_action(old(self).view()) {
                FrameActionView::LoadScene(p) => a matches LoopAction::LoadScene(q) && q@ == p,
                FrameActionView::Tick => a is Tick,
            },
    {
        match (self.phase, event) {
            (LoopPhase::AskContinue, LoopEvent::Continues(c)) => {
                if self.keeps_running(c) {
                    self.phase = LoopPhase::Scan;
                    LoopAction::Scan
                } else {
                    self.phase = LoopPhase::Stop;
                    LoopAction::Stop
                }
            },
            (LoopPhase::Scan, LoopEvent::Input(i)) => match self.begin_frame(i) {
                FrameAction::LoadScene(p) => {
                    self.phase = LoopPhase::LoadScene;
                    LoopAction::LoadScene(p)
                },
                FrameAction::Tick => {
                    self.phase = LoopPhase::Tick;
                    LoopAction::Tick
                },
            },
            (LoopPhase::LoadScene, _) => {
                self.phase = LoopPhase::AskContinue;
                LoopAction::AskContinue
            },
            (LoopPhase::Tick, _) => {
                self.end_tick();
                self.phase = LoopPhase::Draw;
                LoopAction::Draw
            },
            (LoopPhase::Draw, _) => {
                self.phase = LoopPhase::WaitForVblank;
                LoopAction::WaitForVblank
            },
            (LoopPhase::WaitForVblank, _) => {
                self.phase = LoopPhase::AskContinue;
                LoopAction::AskContinue
            },
            _ => {
                self.phase = LoopPhase::Stop;
                LoopAction::Stop
            },
        }
    }

    /// Whether the main loop runs another pass.
    pub fn keeps_running(&self, platform_continues: bool) -> (b: bool)
        ensures
            b == keeps_running(self.view(), platform_continues),
    {
        platform_continues && !self.should_exit
    }

    /// Starts a pass with this frame's buttons and decides what it does.
    pub fn begin_frame(&mut self, input: InputState) -> (a: FrameAction)
        ensures
            final(self).view() == with_input(old(self).view(), input),
            a.view() == frame_action(old(self).view()),
    {
        self.input_state = input;
        if self.destroy_ran {
            match &self.next_scene {
                Some(p) => FrameAction::LoadScene(p.clone()),
                None => FrameAction::Tick,
            }
        } else {
            FrameAction::Tick
        }
    }

    /// Ends a pass that ticked the scene.
    pub fn end_tick(&mut self)
        ensures
            final(self).view() == after_tick(old(self).view()),
    {
        self.run_start = false;
        if self.next_scene.is_some() {
            self.destroy_ran = true;
        }
    }

    /// Records that the queued scene was loaded.
    pub fn scene_loaded(&mut self)
        ensures
            final(self).view() == after_load(old(self).view()),
    {
        self.next_scene = None;
        self.run_start = true;
        self.destroy_ran = false;
    }
}

/// The hooks of one script that run on one object during a tick.
#[derive(Clone, Copy, Debug, PartialEq, Eq, Structural)]
pub struct ScriptCalls {
    pub on_start: bool,
    pub on_tick: bool,
    pub on_destroy: bool,
}

/// The hooks of a script on an object: start hooks run in the first tick of a
/// scene; while a scene is queued destroy hooks run in place of tick hooks,
/// and tick hooks run only on enabled objects.
pub open spec fn calls_spec(run_start: bool, next_scene_queued: bool, enabled: bool) -> ScriptCalls {
    ScriptCalls {
        on_start: run_start,
        on_tick: !next_scene_queued && enabled,
        on_destroy: next_scene_queued,
    }
}

/// Decides which hooks of a script run on an object during a tick.
pub fn script_calls(run_start: bool, next_scene_queued: bool, enabled: bool) -> (c: ScriptCalls)
    ensures
        c == calls_spec(run_start, next_scene_queued, enabled),
{
    ScriptCalls {
        on_start: run_start,
        on_tick: !next_scene_queued && enabled,
        on_destroy: next_scene_queued,
    }
}

/// Which hooks run on an object: start hooks run exactly in the first tick
/// of a scene, on every object; while no scene is queued, tick hooks run
/// exactly on the enabled objects, in the first tick of a scene as in every
/// later one; while a scene is queued, no tick hook runs and destroy hooks
/// run on every object, enabled or not.
pub proof fn lemma_hooks_of_a_tick(run_start: bool, next_scene_queued: bool, enabled: bool)
    ensures
        calls_spec(run_start, next_scene_queued, enabled).on_start == run_start,
        !next_scene_queued ==> calls_spec(run_start, next_scene_queued, enabled).on_tick == enabled,
        !next_scene_queued ==> !calls_spec(run_start, next_scene_queued, enabled).on_destroy,
        next_scene_queued ==> !calls_spec(run_start, next_scene_queued, enabled).on_tick,
        next_scene_queued ==> calls_spec(run_start, next_scene_queued, enabled).on_destroy,
        calls_spec(true, next_scene_queued, enabled).on_tick == calls_spec(
            false,
            next_scene_queued,
            enabled,
        ).on_tick,
{
}

/// A scene switch: a pass that ticks while a scene is queued runs the destroy
/// hooks of every script in place of its tick hooks, and the next pass loads
/// the queued scene.
pub proof fn lemma_queued_scene_loads_next(v: EngineView, input: InputState, enabled: bool)
    requires
        v.next_scene is Some,
        frame_action(v) is Tick,
    ensures
        calls_spec(v.run_start, v.next_scene is Some, enabled) == (ScriptCalls {
            on_start: v.run_start,
            on_tick: false,
            on_destroy: true,
        }),
        frame_action(with_input(after_tick(v), input)) == FrameActionView::LoadScene(
            v.next_scene->0,
        ),
{
}

/// After a scene is loaded the next pass ticks it, and that tick runs the
/// start hooks and no destroy hook; the pass after it runs no start hook.
pub proof fn lemma_loaded_scene_starts(v: EngineView, input: InputState, enabled: bool)
    ensures
        frame_action(with_input(after_load(v), input)) == FrameActionView::Tick,
        calls_spec(with_input(after_load(v), input).run_start, false, enabled) == (ScriptCalls {
            on_start: true,
            on_tick: enabled,
            on_destroy: false,
        }),
        !after_tick(with_input(after_load(v), input)).run_start,
        frame_action(after_tick(with_input(after_load(v), input))) == FrameActionView::Tick,
{
}

/// Once exit is asked, the main loop stops, whatever the platform says.
pub proof fn lemma_exit_stops(v: EngineView, platform_continues: bool)
    requires
        v.should_exit,
    ensures
        !keeps_running(v, platform_continues),
        forall|input: InputState| #[trigger] with_input(v, input).should_exit,
        after_tick(v).should_exit && after_load(v).should_exit,
{
}

/// What may change while the platform performs an action of kind `p`, from
/// `v` to `w`: a tick runs the scripts, which may change anything but the
/// start and destroy flags and the loop's position; a scene load installs
/// the scene, which empties the queue and sets the start hooks to run; the
/// other actions change nothing.
pub open spec fn performed(p: LoopPhase, v: EngineView, w: EngineView) -> bool {
    match p {
        LoopPhase::Tick => w.run_start == v.run_start && w.destroy_ran == v.destroy_ran && w.phase
            == v.phase,
        LoopPhase::LoadScene => w.run_start && !w.destroy_ran && w.next_scene is None && w.phase
            == v.phase,
        _ => w == v,
    }
}

/// The state after step `i` of a run.
pub open spec fn after_step(pre: Seq<EngineView>, events: Seq<LoopEvent>, i: int) -> EngineView {
    step_state(pre[i].phase, pre[i], events[i])
}

/// A run of the main loop: `pre[i]` is the state that step `i` starts from,
/// `events[i]` the platform's answer it takes, and each next state is what
/// the platform made of the state after the step while performing its
/// action.
pub open spec fn is_run(pre: Seq<EngineView>, events: Seq<LoopEvent>) -> bool {
    &&& pre.len() == events.len() + 1
    &&& forall|i: int| 0 <= i < events.len() ==> answers(pre[i].phase, #[trigger] events[i])
    &&& forall|i: int|
        0 <= i < events.len() ==> performed(
            after_step(pre, events, i).phase,
            after_step(pre, events, i),
            #[trigger] pre[i + 1],
        )
}

/// No tick has ended since the last scene load, or since the start.
pub open spec fn fresh(pre: Seq<EngineView>, i: int) -> bool
    decreases i,
{
    if i <= 0 {
        true
    } else if pre[i].phase == LoopPhase::LoadScene {
        true
    } else if pre[i - 1].phase == LoopPhase::Tick {
        false
    } else {
        fresh(pre, i - 1)
    }
}

/// The start hooks run once per scene: in a run from a state whose start
/// hooks are due, the start flag is set exactly while no tick has ended
/// since the last scene load (or the start), so a tick runs them just when
/// it is the first since the start or the last load.
pub proof fn lemma_start_hooks_once_per_scene(pre: Seq<EngineView>, events: Seq<LoopEvent>, i: int)
    requires
        is_run(pre, events),
        pre[0].run_start,
        0 <= i <= events.len(),
    ensures
        pre[i].run_start == fresh(pre, i),
    decreases i,
{
    if i > 0 {
        let k = i - 1;
        lemma_start_hooks_once_per_scene(pre, events, k);
        assert(answers(pre[k].phase, events[k]));
        assert(performed(after_step(pre, events, k).phase, after_step(pre, events, k), pre[k + 1]));
    }
}

/// A queued scene loads before any further tick: where a tick ends with a
/// scene queued, and the next pass goes on to read the buttons, that pass
/// loads the queued scene.
pub proof fn lemma_queued_scene_loads_before_next_tick(
    pre: Seq<EngineView>,
    events: Seq<LoopEvent>,
    i: int,
)
    requires
        is_run(pre, events),
        0 <= i,
        i + 4 <= events.len(),
        pre[i].phase == LoopPhase::Tick,
        pre[i].next_scene is Some,
        pre[i + 4].phase == LoopPhase::Scan,
    ensures
        frame_action(pre[i + 4]) == FrameActionView::LoadScene(pre[i].next_scene->0),
{
    assert(answers(pre[i].phase, events[i]));
    assert(performed(after_step(pre, events, i).phase, after_step(pre, events, i), pre[i + 1]));
    assert(pre[i + 1].phase == LoopPhase::Draw);
    let a = i + 1;
    assert(answers(pre[a].phase, events[a]));
    assert(performed(after_step(pre, events, a).phase, after_step(pre, events, a), pre[a + 1]));
    assert(pre[i + 2].phase == LoopPhase::WaitForVblank);
    let b = i + 2;
    assert(answers(pre[b].phase, events[b]));
    assert(performed(after_step(pre, events, b).phase, after_step(pre, events, b), pre[b + 1]));
    assert(pre[i + 3].phase == LoopPhase::AskContinue);
    let c = i + 3;
    assert(answers(pre[c].phase, events[c]));
    assert(performed(after_step(pre, events, c).phase, after_step(pre, events, c), pre[c + 1]));
}

/// The first scene loaded is the one queued at the start: in a run from a
/// state with `DEFAULT_SCENE` queued, where the ticks before the first load
/// leave the queue alone (as the empty starting scene, whose only object
/// has no scripts, does), the queue holds the default scene until the first
/// load, and a pass that loads before then loads it.
pub proof fn lemma_first_scene_is_default(pre: Seq<EngineView>, events: Seq<LoopEvent>, i: int)
    requires
        is_run(pre, events),
        pre[0].next_scene == Some(DEFAULT_SCENE@),
        0 <= i <= events.len(),
        forall|k: int| 0 <= k < i ==> after_step(pre, events, k).phase != LoopPhase::LoadScene,
        forall|k: int|
            0 <= k < i && after_step(pre, events, k).phase == LoopPhase::Tick ==> pre[k + 1].next_scene
                == after_step(pre, events, k).next_scene,
    ensures
        pre[i].next_scene == Some(DEFAULT_SCENE@),
        frame_action(pre[i]) matches FrameActionView::LoadScene(p) ==> p == DEFAULT_SCENE@,
    decreases i,
{
    if i > 0 {
        let k = i - 1;
        lemma_first_scene_is_default(pre, events, k);
        assert(answers(pre[k].phase, events[k]));
        assert(performed(after_step(pre, events, k).phase, after_step(pre, events, k), pre[k + 1]));
    }
}

/// The order of the main loop over a whole run: in any run of steps, where
/// between steps the scripts and scene loads may change anything but what the
/// loop last asked, each action follows the one before as `follows` allows;
/// and once the loop stops, it stays stopped.
pub proof fn lemma_run_order(states: Seq<EngineView>, events: Seq<LoopEvent>, phases: Seq<LoopPhase>)
    requires
        phases.len() == states.len() + 1,
        events.len() == states.len(),
        forall|i: int| 0 <= i < states.len() ==> #[trigger] states[i].phase == phases[i],
        forall|i: int| 0 <= i < states.len() ==> answers(phases[i], #[trigger] events[i]),
        forall|i: int|
            0 <= i < states.len() ==> #[trigger] phases[i + 1] == next_phase(phases[i], states[i], events[i]),
    ensures
        forall|i: int| 0 <= i < states.len() ==> follows(#[trigger] phases[i], phases[i + 1]),
        forall|i: int, j: int|
            0 <= i <= j < phases.len() && #[trigger] phases[i] == LoopPhase::Stop ==> #[trigger] phases[j]
                == LoopPhase::Stop,
    decreases states.len(),
{
    assert forall|i: int| 0 <= i < states.len() implies follows(#[trigger] phases[i], phases[i + 1]) by {
        assert(phases[i + 1] == next_phase(phases[i], states[i], events[i]));
    }
    if states.len() > 0 {
        lemma_run_order(states.drop_last(), events.drop_last(), phases.drop_last());
        let n = states.len() as int;
        assert forall|i: int, j: int|
            0 <= i <= j < phases.len() && #[trigger] phases[i] == LoopPhase::Stop implies #[trigger] phases[j]
                == LoopPhase::Stop by {
            if j == n && i < n {
                assert(phases.drop_last()[i] == phases[i]);
                assert(phases.drop_last()[n - 1] == phases[n - 1]);
                assert(phases[n] == next_phase(phases[n - 1], states[n - 1], events[n - 1]));
            } else if j < n {
                assert(phases.drop_last()[i] == phases[i]);
                assert(phases.drop_last()[j] == phases[j]);
            }
        }
    }
}

} // verus!
