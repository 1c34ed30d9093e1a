//! Renderer bookkeeping around the compositing backend.
//!
//! GPU compositing itself happens outside this library; what is modeled and
//! verified here is the state the renderer keeps between ticks — the scene's
//! registered outputs, the last render event — and the shape of what one
//! render call consumes and produces: one frame set in, one frame set out,
//! with the presentation timestamp preserved and one output frame per
//! registered output.

use vstd::prelude::*;

use crate::types::{Framerate, InputId, OutputId, Resolution};

verus! {

/// Configuration of the embedded web rendering layer.
#[derive(Clone, Copy, Debug, PartialEq, Eq, Structural)]
pub struct WebRendererOptions {
    /// Start the web rendering layer at all.
    pub init: bool,
    /// Run it without GPU acceleration.
    pub disable_gpu: bool,
}

/// Options the renderer is created with.
#[derive(Clone, Copy, Debug, PartialEq, Eq, Structural)]
pub struct RendererOptions {
    pub web_renderer: WebRendererOptions,
    pub framerate: Framerate,
    /// How long to keep presenting a stalled input's last frame, in
    /// nanoseconds.
    pub stream_fallback_timeout: u64,
}

/// One video frame, reduced to what the timing core reads of it.
#[derive(Clone, Copy, Debug, PartialEq, Eq, Structural)]
pub struct Frame {
    pub resolution: Resolution,
}

/// A set of frames keyed by stream identity, all for one presentation
/// timestamp (nanoseconds on the shared timeline).
pub struct FrameSet<Id> {
    pub frames: Vec<(Id, Frame)>,
    pub pts: u64,
}

/// What one output should present: its identity and resolution.
#[derive(Clone, Copy, Debug, PartialEq, Eq, Structural)]
pub struct OutputScene {
    pub output_id: OutputId,
    pub resolution: Resolution,
}

/// Scene state the renderer carries between ticks.
pub struct SceneState {
    /// Outputs of the current scene, identities pairwise distinct.
    pub outputs: Vec<OutputScene>,
    /// Timestamp of the last render event, if any.
    pub last_render_pts: Option<u64>,
    /// Input resolutions seen at the last render event.
    pub input_resolutions: Vec<(InputId, Resolution)>,
}

/// The per-output render plan derived from the scene.
pub struct RenderGraph {
    /// One node per output of the current scene.
    pub outputs: Vec<OutputScene>,
}

/// Per-render context handed to the render passes.
#[derive(Clone, Copy, Debug, PartialEq, Eq, Structural)]
pub struct RenderCtx {
    pub stream_fallback_timeout: u64,
}

/// Context handed out for registering renderer resources.
#[derive(Clone, Copy, Debug, PartialEq, Eq, Structural)]
pub struct RegisterCtx {
    pub web_renderer: WebRendererOptions,
}

/// Failure to bring up the rendering engine. Raised by the compositing
/// backend outside this library; the bookkeeping modeled here cannot fail.
#[derive(Clone, Copy, Debug, PartialEq, Eq, Structural)]
pub enum InitRendererEngineError {
    BackendInit,
}

/// Failure during one render pass. Raised by the compositing backend outside
/// this library; the bookkeeping modeled here cannot fail.
#[derive(Clone, Copy, Debug, PartialEq, Eq, Structural)]
pub enum RenderSceneError {
    BackendFailure,
}

/// Failure to install a new scene.
#[derive(Clone, Copy, Debug, PartialEq, Eq, Structural)]
pub enum UpdateSceneError {
    /// Two scene entries name the same output.
    DuplicateOutputId(OutputId),
}

/// Scene output identities are pairwise distinct.
pub open spec fn outputs_unique(outputs: Seq<OutputScene>) -> bool {
    forall|i: int, j: int|
        0 <= i < j < outputs.len() ==> (#[trigger] outputs[i]).output_id != (
        #[trigger] outputs[j]).output_id
}

/// The renderer: scene and render-graph bookkeeping around the compositing
/// backend.
pub struct Renderer {
    pub render_graph: RenderGraph,
    pub scene: SceneState,
    pub framerate: Framerate,
    pub web_renderer: WebRendererOptions,
    pub stream_fallback_timeout: u64,
}

impl Renderer {
    /// A renderer with an empty scene.
    pub fn new(opts: RendererOptions) -> (r: Result<Renderer, InitRendererEngineError>)
        ensures
            r matches Ok(rend) && {
                &&& rend.render_graph.outputs@.len() == 0
                &&& rend.scene.outputs@.len() == 0
                &&& rend.scene.last_render_pts is None
                &&& rend.scene.input_resolutions@.len() == 0
                &&& rend.framerate == opts.framerate
                &&& rend.web_renderer == opts.web_renderer
                &&& rend.stream_fallback_timeout == opts.stream_fallback_timeout
            },
    {
        Ok(
            Renderer {
                render_graph: RenderGraph { outputs: Vec::new() },
                scene: SceneState {
                    outputs: Vec::new(),
                    last_render_pts: None,
                    input_resolutions: Vec::new(),
                },
                framerate: opts.framerate,
                web_renderer: opts.web_renderer,
                stream_fallback_timeout: opts.stream_fallback_timeout,
            },
        )
    }

    /// Context for registering renderer resources.
    pub fn register_ctx(&self) -> (r: RegisterCtx)
        ensures
            r.web_renderer == self.web_renderer,
    {
        RegisterCtx { web_renderer: self.web_renderer }
    }

    /// One render tick: record the render event (timestamp and input
    /// resolutions) in the scene state and produce one frame per registered
    /// output, at that output's resolution, under the same presentation
    /// timestamp.
    pub fn render(&mut self, inputs: FrameSet<InputId>) -> (r: Result<
        FrameSet<OutputId>,
        RenderSceneError,
    >)
        ensures
            final(self).render_graph.outputs@ == old(self).render_graph.outputs@,
            final(self).scene.outputs@ == old(self).scene.outputs@,
            final(self).framerate == old(self).framerate,
            final(self).web_renderer == old(self).web_renderer,
            final(self).stream_fallback_timeout == old(self).stream_fallback_timeout,
            final(self).scene.last_render_pts == Some(inputs.pts),
            final(self).scene.input_resolutions@.len() == inputs.frames@.len(),
            forall|k: int|
                0 <= k < inputs.frames@.len() ==> #[trigger] final(self).scene.input_resolutions@[k]
                    == ((inputs.frames@[k].0, inputs.frames@[k].1.resolution)),
            r matches Ok(out) && {
                &&& out.pts == inputs.pts
                &&& out.frames@.len() == old(self).render_graph.outputs@.len()
                &&& forall|k: int|
                    0 <= k < out.frames@.len() ==> #[trigger] out.frames@[k] == ((
                    old(self).render_graph.outputs@[k].output_id,
                    Frame { resolution: old(self).render_graph.outputs@[k].resolution },
                ))
            },
    {
        let mut input_resolutions: Vec<(InputId, Resolution)> = Vec::new();
        let mut i: usize = 0;
        while i < inputs.frames.len()
            invariant
                0 <= i <= inputs.frames@.len(),
                input_resolutions@.len() == i,
                forall|k: int|
                    0 <= k < i ==> #[trigger] input_resolutions@[k] == ((
                    inputs.frames@[k].0,
                    inputs.frames@[k].1.resolution,
                )),
            decreases inputs.frames@.len() - i,
        {
            let id = inputs.frames[i].0;
            let res = inputs.frames[i].1.resolution;
            input_resolutions.push((id, res));
            i += 1;
        }
        self.scene.last_render_pts = Some(inputs.pts);
        self.scene.input_resolutions = input_resolutions;

        let mut frames: Vec<(OutputId, Frame)> = Vec::new();
        let mut j: usize = 0;
        while j < self.render_graph.outputs.len()
            invariant
                0 <= j <= self.render_graph.outputs@.len(),
                frames@.len() == j,
                forall|k: int|
                    0 <= k < j ==> #[trigger] frames@[k] == ((
                    self.render_graph.outputs@[k].output_id,
                    Frame { resolution: self.render_graph.outputs@[k].resolution },
                )),
            decreases self.render_graph.outputs@.len() - j,
        {
            let node = self.render_graph.outputs[j];
            frames.push((node.output_id, Frame { resolution: node.resolution }));
            j += 1;
        }
        Ok(FrameSet { frames, pts: inputs.pts })
    }

    /// Install a new scene: one entry per output. Fails exactly when two
    /// entries name the same output, leaving the state untouched; on success
    /// the scene and the render graph hold precisely the given outputs.
    pub fn update_scene(&mut self, scenes: Vec<OutputScene>) -> (r: Result<(), UpdateSceneError>)
        ensures
            final(self).framerate == old(self).framerate,
            final(self).web_renderer == old(self).web_renderer,
            final(self).stream_fallback_timeout == old(self).stream_fallback_timeout,
            final(self).scene.last_render_pts == old(self).scene.last_render_pts,
            final(self).scene.input_resolutions@ == old(self).scene.input_resolutions@,
            outputs_unique(scenes@) ==> (r is Ok && final(self).scene.outputs@ == scenes@
                && final(self).render_graph.outputs@ == scenes@),
            !outputs_unique(scenes@) ==> (r matches Err(e) && e matches
                UpdateSceneError::DuplicateOutputId(dup) && (exists|i: int, j: int|
                0 <= i < j < scenes@.len() && (#[trigger] scenes@[i]).output_id == (
                #[trigger] scenes@[j]).output_id && scenes@[j].output_id == dup)
                && final(self).scene.outputs@ == old(self).scene.outputs@
                && final(self).render_graph.outputs@ == old(self).render_graph.outputs@),
    {
        let n = scenes.len();
        let mut j: usize = 0;
        while j < n
            invariant
                n == scenes@.len(),
                0 <= j <= n,
                forall|a: int, b: int|
                    0 <= a < b < j ==> (#[trigger] scenes@[a]).output_id != (
                    #[trigger] scenes@[b]).output_id,
            decreases n - j,
        {
            let mut a: usize = 0;
            while a < j
                invariant
                    n == scenes@.len(),
                    0 <= a <= j < n,
                    forall|k: int|
                        0 <= k < a ==> (#[trigger] scenes@[k]).output_id != scenes@[j as int].output_id,
                decreases j - a,
            {
                if scenes[a].output_id == scenes[j].output_id {
                    return Err(UpdateSceneError::DuplicateOutputId(scenes[j].output_id));
                }
                a += 1;
            }
            j += 1;
        }
        let mut graph_outputs: Vec<OutputScene> = Vec::new();
        let mut i: usize = 0;
        while i < n
            invariant
                n == scenes@.len(),
                0 <= i <= n,
                graph_outputs@.len() == i,
                forall|k: int| 0 <= k < i ==> #[trigger] graph_outputs@[k] == scenes@[k],
            decreases n - i,
        {
            graph_outputs.push(scenes[i]);
            i += 1;
        }
        proof {
            assert(graph_outputs@ =~= scenes@);
        }
        self.render_graph.outputs = graph_outputs;
        self.scene.outputs = scenes;
        Ok(())
    }
}

} // verus!
