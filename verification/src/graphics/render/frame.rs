//! The frame being recorded.
use vstd::prelude::*;

use crate::graphics::pipeline::buffers::Buffer;
use crate::graphics::render::timestamps::{GpuTimestamps, TimestampsView};

verus! {

/// What a pass renders into: an attached texture view, or the frame's own
/// view. `V` is the backend's handle to a view, `K` a clear color.
pub struct ColorTarget<'a, V, K> {
    pub attachment: Option<&'a V>,
    pub clear: Option<K>,
}

/// The depth buffer of a pass; `D` is a clear depth.
pub struct DepthTarget<'a, V, D> {
    pub attachment: &'a V,
    pub clear: Option<D>,
}

/// The color and depth targets of a pass.
pub struct Pass<'a, V, K, D> {
    pub colors: Vec<ColorTarget<'a, V, K>>,
    pub depth: Option<DepthTarget<'a, V, D>>,
}

/// How an attachment starts.
pub enum LoadOp<K> {
    Clear(K),
    Load,
}

/// A color or depth attachment of a pass. What is rendered is stored.
pub struct Attachment<'a, V, K> {
    pub view: &'a V,
    pub load: LoadOp<K>,
    pub store: bool,
}

/// Where a pass writes the time at which it begins and ends.
#[derive(Clone, Copy, PartialEq, Eq, Structural, Debug)]
pub struct TimestampWrites {
    pub begin: u32,
    pub end: u32,
}

/// A render pass to begin.
pub struct RenderPassPlan<'a, V, K, D> {
    pub colors: Vec<Attachment<'a, V, K>>,
    pub depth: Option<Attachment<'a, V, D>>,
    pub timestamps: Option<TimestampWrites>,
}

/// A compute pass to begin.
pub struct ComputePassPlan<'a> {
    pub label: Option<&'a str>,
    pub timestamps: Option<TimestampWrites>,
}

/// A copy between buffers to record.
pub struct CopyPlan<'a, H> {
    pub source: &'a H,
    pub source_offset: u64,
    pub target: &'a H,
    pub target_offset: u64,
    pub size: u64,
}

/// Queries to resolve: the first `queries` of the pool.
pub struct ResolvePlan<'a, H> {
    pub queries: u32,
    pub target: &'a H,
    pub target_offset: u64,
}

/// An attachment starts cleared if a clear value is given, else as it is.
pub open spec fn load_of<K>(clear: Option<K>) -> LoadOp<K> {
    match clear {
        Some(value) => LoadOp::Clear(value),
        None => LoadOp::Load,
    }
}

/// The attachment for a color target of a pass on a frame: an unattached
/// target is the frame's own view.
pub open spec fn color_attachment<'a, V, K>(
    target: ColorTarget<'a, V, K>,
    frame_view: &'a V,
) -> Attachment<'a, V, K> {
    Attachment {
        view: match target.attachment {
            Some(view) => view,
            None => frame_view,
        },
        load: load_of(target.clear),
        store: true,
    }
}

/// `plan` begins `pass` on a frame.
pub open spec fn is_pass_plan<'a, V, K, D>(
    plan: RenderPassPlan<'a, V, K, D>,
    pass: Pass<'a, V, K, D>,
    frame_view: &'a V,
    scope: Option<(u32, u32)>,
) -> bool {
    &&& plan.colors@.len() == pass.colors@.len()
    &&& forall|i: int|
        0 <= i < pass.colors@.len() ==> #[trigger] plan.colors@[i] == color_attachment(
            pass.colors@[i],
            frame_view,
        )
    &&& match pass.depth {
        Some(depth) => plan.depth == Some(
            Attachment { view: depth.attachment, load: load_of(depth.clear), store: true },
        ),
        None => plan.depth is None,
    }
    &&& plan.timestamps == writes_of(scope)
}

/// The timestamp writes of a pass with this scope.
pub open spec fn writes_of(scope: Option<(u32, u32)>) -> Option<TimestampWrites> {
    match scope {
        Some((begin, end)) => Some(TimestampWrites { begin, end }),
        None => None,
    }
}

fn load_op<K>(clear: Option<K>) -> (load: LoadOp<K>)
    ensures
        load == load_of(clear),
{
    match clear {
        Some(value) => LoadOp::Clear(value),
        None => LoadOp::Load,
    }
}

fn timestamp_writes(scope: Option<(u32, u32)>) -> (writes: Option<TimestampWrites>)
    ensures
        writes == writes_of(scope),
{
    match scope {
        Some((begin, end)) => Some(TimestampWrites { begin, end }),
        None => None,
    }
}

/// How to begin `pass` on a frame with this view.
pub fn plan_pass<'a, V, K, D>(
    pass: Pass<'a, V, K, D>,
    frame_view: &'a V,
    scope: Option<(u32, u32)>,
) -> (plan: RenderPassPlan<'a, V, K, D>)
    ensures
        is_pass_plan(plan, pass, frame_view, scope),
{
    let ghost targets = pass.colors@;
    let mut colors: Vec<Attachment<'a, V, K>> = Vec::new();
    for target in walk: pass.colors
        invariant
            walk.seq() == targets,
            colors@.len() == walk.index(),
            forall|i: int|
                0 <= i < walk.index() ==> #[trigger] colors@[i] == color_attachment(
                    targets[i],
                    frame_view,
                ),
    {
        let view = match target.attachment {
            Some(view) => view,
            None => frame_view,
        };
        colors.push(Attachment { view, load: load_op(target.clear), store: true });
    }
    let depth = match pass.depth {
        Some(depth) => Some(
            Attachment { view: depth.attachment, load: load_op(depth.clear), store: true },
        ),
        None => None,
    };
    RenderPassPlan { colors, depth, timestamps: timestamp_writes(scope) }
}

/// The acquired frame of this tick. `E` is the backend's command encoder, `B`
/// a finished command buffer, `V` a texture view and `T` the surface texture
/// to present.
///
/// Every pass records into its own encoder: some backends invalidate an
/// encoder once a pass ends. The finished buffers are submitted together, in
/// recording order.
pub struct Frame<E, B, V, T> {
    pub encoder: E,
    pub encoder_used: bool,
    pub recorded: Vec<B>,
    pub view: V,
    pub surface: T,
}

/// What a frame is.
#[verifier::ext_equal]
pub struct FrameView<E, B, V, T> {
    /// What is being recorded into.
    pub encoder: E,
    /// Whether a pass has begun on the encoder.
    pub encoder_used: bool,
    /// What has been recorded, in order.
    pub recorded: Seq<B>,
    pub view: V,
    pub surface: T,
}

impl<E, B, V, T> View for Frame<E, B, V, T> {
    type V = FrameView<E, B, V, T>;

    open spec fn view(&self) -> FrameView<E, B, V, T> {
        FrameView {
            encoder: self.encoder,
            encoder_used: self.encoder_used,
            recorded: self.recorded@,
            view: self.view,
            surface: self.surface,
        }
    }
}

/// A pass can begin on `after`, which was `before`: the encoder that holds an
/// earlier pass has been sealed, and a fresh one is in its place.
pub open spec fn rotated<E, B, V, T, F: FnOnce() -> E, G: FnOnce(E) -> B>(
    before: FrameView<E, B, V, T>,
    fresh: F,
    seal: G,
    after: FrameView<E, B, V, T>,
) -> bool {
    &&& after.encoder_used
    &&& after.view == before.view
    &&& after.surface == before.surface
    &&& if before.encoder_used {
        &&& call_ensures(fresh, (), after.encoder)
        &&& after.recorded.len() == before.recorded.len() + 1
        &&& after.recorded.drop_last() == before.recorded
        &&& call_ensures(seal, (before.encoder,), after.recorded.last())
    } else {
        &&& after.encoder == before.encoder
        &&& after.recorded == before.recorded
    }
}

impl<E, B, V, T> Frame<E, B, V, T> {
    /// A frame without passes, recording into `encoder`.
    pub fn new(encoder: E, view: V, surface: T) -> (frame: Self)
        ensures
            frame@ == (FrameView {
                encoder,
                encoder_used: false,
                recorded: Seq::<B>::empty(),
                view,
                surface,
            }),
    {
        let frame = Frame { encoder, encoder_used: false, recorded: Vec::new(), view, surface };
        assert(frame@.recorded =~= Seq::<B>::empty());
        frame
    }

    /// What to submit, in order, and what to present.
    pub fn finish<G: FnOnce(E) -> B>(self, seal: G) -> (finished: (Vec<B>, T))
        requires
            call_requires(seal, (self@.encoder,)),
        ensures
            finished.0@.len() == self@.recorded.len() + 1,
            finished.0@.drop_last() == self@.recorded,
            call_ensures(seal, (self@.encoder,), finished.0@.last()),
            finished.1 == self@.surface,
    {
        let mut recorded = self.recorded;
        recorded.push(seal(self.encoder));
        assert(recorded@.drop_last() =~= self@.recorded);
        (recorded, self.surface)
    }

    /// Seals the encoder that holds an earlier pass, if any, and puts a fresh
    /// one in its place.
    fn rotate_encoder<F: FnOnce() -> E, G: FnOnce(E) -> B>(&mut self, fresh: F, seal: G)
        requires
            call_requires(fresh, ()),
            forall|encoder: E| call_requires(seal, (encoder,)),
        ensures
            rotated(old(self)@, fresh, seal, final(self)@),
    {
        if self.encoder_used {
            let mut encoder = fresh();
            core::mem::swap(&mut self.encoder, &mut encoder);
            self.recorded.push(seal(encoder));
            assert(self@.recorded.drop_last() =~= old(self)@.recorded);
        }
        self.encoder_used = true;
    }

    /// Begins a render pass for the targets of `pass`: returns the encoder to
    /// begin it on, and how. An unattached color target is the frame's own
    /// view.
    pub fn begin<'a, K, D, F: FnOnce() -> E, G: FnOnce(E) -> B>(
        &'a mut self,
        pass: Pass<'a, V, K, D>,
        fresh: F,
        seal: G,
    ) -> (begun: (&'a mut E, RenderPassPlan<'a, V, K, D>))
        requires
            call_requires(fresh, ()),
            forall|encoder: E| call_requires(seal, (encoder,)),
        ensures
            is_pass_plan(begun.1, pass, &old(self)@.view, None),
            rotated(
                old(self)@,
                fresh,
                seal,
                (FrameView { encoder: *begun.0, ..final(self)@ }),
            ),
            final(self)@.encoder == *final(begun.0),
    {
        self.begin_inner(pass, None, fresh, seal)
    }

    /// [`begin`](Self::begin), with the time at which the pass begins and
    /// ends written under `label`. Untimed if every scope is claimed.
    pub fn begin_timed<'a, K, D, Q, F: FnOnce() -> E, G: FnOnce(E) -> B>(
        &'a mut self,
        pass: Pass<'a, V, K, D>,
        label: &'static str,
        timestamps: &mut GpuTimestamps<Q>,
        fresh: F,
        seal: G,
    ) -> (begun: (&'a mut E, RenderPassPlan<'a, V, K, D>))
        requires
            old(timestamps)@.wf(),
            call_requires(fresh, ()),
            forall|encoder: E| call_requires(seal, (encoder,)),
        ensures
            final(timestamps)@.wf(),
            final(timestamps)@ == claimed(old(timestamps)@, label),
            is_pass_plan(
                begun.1,
                pass,
                &old(self)@.view,
                next_scope(old(timestamps)@),
            ),
            rotated(
                old(self)@,
                fresh,
                seal,
                (FrameView { encoder: *begun.0, ..final(self)@ }),
            ),
            final(self)@.encoder == *final(begun.0),
    {
        let scope = timestamps.claim(label);
        self.begin_inner(pass, scope, fresh, seal)
    }

    fn begin_inner<'a, K, D, F: FnOnce() -> E, G: FnOnce(E) -> B>(
        &'a mut self,
        pass: Pass<'a, V, K, D>,
        scope: Option<(u32, u32)>,
        fresh: F,
        seal: G,
    ) -> (begun: (&'a mut E, RenderPassPlan<'a, V, K, D>))
        requires
            call_requires(fresh, ()),
            forall|encoder: E| call_requires(seal, (encoder,)),
        ensures
            is_pass_plan(begun.1, pass, &old(self)@.view, scope),
            rotated(
                old(self)@,
                fresh,
                seal,
                (FrameView { encoder: *begun.0, ..final(self)@ }),
            ),
            final(self)@.encoder == *final(begun.0),
    {
        self.rotate_encoder(fresh, seal);
        let plan = plan_pass(pass, &self.view, scope);
        (&mut self.encoder, plan)
    }

    /// Begins a compute pass: returns the encoder to begin it on, and how.
    pub fn begin_compute<'a, F: FnOnce() -> E, G: FnOnce(E) -> B>(
        &'a mut self,
        label: Option<&'a str>,
        fresh: F,
        seal: G,
    ) -> (begun: (&'a mut E, ComputePassPlan<'a>))
        requires
            call_requires(fresh, ()),
            forall|encoder: E| call_requires(seal, (encoder,)),
        ensures
            begun.1 == (ComputePassPlan { label, timestamps: None }),
            rotated(
                old(self)@,
                fresh,
                seal,
                (FrameView { encoder: *begun.0, ..final(self)@ }),
            ),
            final(self)@.encoder == *final(begun.0),
    {
        self.begin_compute_inner(label, None, fresh, seal)
    }

    /// [`begin_compute`](Self::begin_compute), with the time at which the
    /// pass begins and ends written under `label`. Untimed if every scope is
    /// claimed.
    pub fn begin_compute_timed<'a, Q, F: FnOnce() -> E, G: FnOnce(E) -> B>(
        &'a mut self,
        label: &'static str,
        timestamps: &mut GpuTimestamps<Q>,
        fresh: F,
        seal: G,
    ) -> (begun: (&'a mut E, ComputePassPlan<'a>))
        requires
            old(timestamps)@.wf(),
            call_requires(fresh, ()),
            forall|encoder: E| call_requires(seal, (encoder,)),
        ensures
            final(timestamps)@.wf(),
            final(timestamps)@ == claimed(old(timestamps)@, label),
            begun.1 == (ComputePassPlan {
                label: Some(label),
                timestamps: writes_of(next_scope(old(timestamps)@)),
            }),
            rotated(
                old(self)@,
                fresh,
                seal,
                (FrameView { encoder: *begun.0, ..final(self)@ }),
            ),
            final(self)@.encoder == *final(begun.0),
    {
        let scope = timestamps.claim(label);
        self.begin_compute_inner(Some(label), scope, fresh, seal)
    }

    fn begin_compute_inner<'a, F: FnOnce() -> E, G: FnOnce(E) -> B>(
        &'a mut self,
        label: Option<&'a str>,
        scope: Option<(u32, u32)>,
        fresh: F,
        seal: G,
    ) -> (begun: (&'a mut E, ComputePassPlan<'a>))
        requires
            call_requires(fresh, ()),
            forall|encoder: E| call_requires(seal, (encoder,)),
        ensures
            begun.1 == (ComputePassPlan { label, timestamps: writes_of(scope) }),
            rotated(
                old(self)@,
                fresh,
                seal,
                (FrameView { encoder: *begun.0, ..final(self)@ }),
            ),
            final(self)@.encoder == *final(begun.0),
    {
        self.rotate_encoder(fresh, seal);
        (&mut self.encoder, ComputePassPlan { label, timestamps: timestamp_writes(scope) })
    }

    /// Records a copy of the whole of one buffer into another, after whatever
    /// has been recorded: returns the encoder to record it on, and what.
    pub fn copy_buffer<'a, H>(
        &'a mut self,
        source: &'a Buffer<H>,
        target: &'a Buffer<H>,
    ) -> (copy: (&'a mut E, CopyPlan<'a, H>))
        ensures
            copy.1 == (CopyPlan {
                source: &source.handle,
                source_offset: 0,
                target: &target.handle,
                target_offset: 0,
                size: source.size,
            }),
            *copy.0 == old(self)@.encoder,
            final(self)@ == (FrameView { encoder: *final(copy.0), ..old(self)@ }),
    {
        (
            &mut self.encoder,
            CopyPlan {
                source: &source.handle,
                source_offset: 0,
                target: &target.handle,
                target_offset: 0,
                size: source.size(),
            },
        )
    }

    /// Resolves every scope claimed in this frame into `target`: returns the
    /// encoder to record it on, and what. Nothing happens if no scope was
    /// claimed. To be called once, after the last timed pass: the resolve
    /// gets its own command buffer, after the passes that it reads.
    pub fn resolve_timestamps<'a, Q, H, F: FnOnce() -> E, G: FnOnce(E) -> B>(
        &'a mut self,
        timestamps: &mut GpuTimestamps<Q>,
        target: &'a Buffer<H>,
        fresh: F,
        seal: G,
    ) -> (resolve: Option<(&'a mut E, ResolvePlan<'a, H>)>)
        requires
            old(timestamps)@.wf(),
            call_requires(fresh, ()),
            forall|encoder: E| call_requires(seal, (encoder,)),
        ensures
            final(timestamps)@.wf(),
            match resolve {
                Some((encoder, plan)) => {
                    &&& old(timestamps)@.labels.len() > 0
                    &&& final(timestamps)@ == (TimestampsView {
                        resolved: old(timestamps)@.labels,
                        ..old(timestamps)@
                    })
                    &&& plan.queries == 2 * old(timestamps)@.labels.len()
                    &&& *plan.target == target.handle
                    &&& plan.target_offset == 0
                    &&& rotated(
                        old(self)@,
                        fresh,
                        seal,
                        (FrameView { encoder: *encoder, ..final(self)@ }),
                    )
                    &&& final(self)@.encoder == *final(encoder)
                },
                None => {
                    &&& old(timestamps)@.labels.len() == 0
                    &&& final(timestamps)@ == old(timestamps)@
                    &&& final(self)@ == old(self)@
                },
            },
    {
        let queries: u32 = timestamps.used() * 2;
        if queries == 0 {
            return None;
        }
        timestamps.snapshot_resolved();
        self.rotate_encoder(fresh, seal);
        Some(
            (
                &mut self.encoder,
                ResolvePlan { queries, target: &target.handle, target_offset: 0 },
            ),
        )
    }
}

/// The scope that the next claim gives: none if every one is claimed.
pub open spec fn next_scope<Q>(pool: TimestampsView<Q>) -> Option<(u32, u32)> {
    if pool.labels.len() < pool.capacity {
        Some(((2 * pool.labels.len()) as u32, (2 * pool.labels.len() + 1) as u32))
    } else {
        None
    }
}

/// The pool after a claim under `label`.
pub open spec fn claimed<Q>(pool: TimestampsView<Q>, label: &'static str) -> TimestampsView<Q> {
    if pool.labels.len() < pool.capacity {
        TimestampsView { labels: pool.labels.push(label), ..pool }
    } else {
        pool
    }
}

/// A frame known to be acquired.
pub struct ActiveFrame<'a, E, B, V, T> {
    pub frame: &'a mut Frame<E, B, V, T>,
}

impl<'a, E, B, V, T> ActiveFrame<'a, E, B, V, T> {
    /// Begins a render pass: see [`Frame::begin`].
    pub fn begin_pass<K, D, F: FnOnce() -> E, G: FnOnce(E) -> B>(
        self,
        pass: Pass<'a, V, K, D>,
        fresh: F,
        seal: G,
    ) -> (begun: (&'a mut E, RenderPassPlan<'a, V, K, D>))
        requires
            call_requires(fresh, ()),
            forall|encoder: E| call_requires(seal, (encoder,)),
        ensures
            is_pass_plan(begun.1, pass, &old(self.frame)@.view, None),
            rotated(
                old(self.frame)@,
                fresh,
                seal,
                (FrameView { encoder: *begun.0, ..final(self.frame)@ }),
            ),
            final(self.frame)@.encoder == *final(begun.0),
    {
        self.frame.begin(pass, fresh, seal)
    }
}

/// The acquired frame of this tick, if any: without one (the window is
/// hidden, or being resized) rendering is skipped.
pub struct CurrentFrame<E, B, V, T> {
    frame: Option<Frame<E, B, V, T>>,
}

impl<E, B, V, T> View for CurrentFrame<E, B, V, T> {
    type V = Option<Frame<E, B, V, T>>;

    closed spec fn view(&self) -> Option<Frame<E, B, V, T>> {
        self.frame
    }
}

impl<E, B, V, T> Default for CurrentFrame<E, B, V, T> {
    fn default() -> (current: Self)
        ensures
            current@ is None,
    {
        CurrentFrame { frame: None }
    }
}

impl<E, B, V, T> CurrentFrame<E, B, V, T> {
    /// Sets the frame of this tick.
    pub fn set(&mut self, frame: Frame<E, B, V, T>)
        ensures
            final(self)@ == Some(frame),
    {
        self.frame = Some(frame);
    }

    /// Takes the frame of this tick.
    pub fn take(&mut self) -> (frame: Option<Frame<E, B, V, T>>)
        ensures
            frame == old(self)@,
            final(self)@ is None,
    {
        self.frame.take()
    }

    /// The frame to render into, if one was acquired in this tick.
    pub fn active<'a>(&'a mut self) -> (active: Option<ActiveFrame<'a, E, B, V, T>>)
        ensures
            match active {
                Some(acquired) => {
                    &&& old(self)@ == Some(*acquired.frame)
                    &&& final(self)@ == Some(*final(acquired.frame))
                },
                None => old(self)@ is None && final(self)@ is None,
            },
    {
        match &mut self.frame {
            Some(frame) => Some(ActiveFrame { frame }),
            None => None,
        }
    }
}

// ---------------------------------------------------------------------------
// Laws
// ---------------------------------------------------------------------------

/// What has been recorded stays recorded, in order: beginning a pass only adds
/// to the end.
pub proof fn law_recording_order_is_kept<E, B, V, T, F: FnOnce() -> E, G: FnOnce(E) -> B>(
    before: FrameView<E, B, V, T>,
    fresh: F,
    seal: G,
    after: FrameView<E, B, V, T>,
    i: int,
)
    requires
        rotated(before, fresh, seal, after),
        0 <= i < before.recorded.len(),
    ensures
        after.recorded.len() >= before.recorded.len(),
        after.recorded[i] == before.recorded[i],
{
    if before.encoder_used {
        assert(after.recorded.drop_last()[i] == after.recorded[i]);
    }
}

/// Every pass records into its own encoder: when a second pass begins, the
/// encoder that the first one recorded into (`between` is the frame once it
/// has) is sealed behind what was recorded before, and the second pass gets a
/// fresh one.
pub proof fn law_every_pass_has_its_own_encoder<
    E,
    B,
    V,
    T,
    F: FnOnce() -> E,
    G: FnOnce(E) -> B,
    F2: FnOnce() -> E,
    G2: FnOnce(E) -> B,
>(
    before: FrameView<E, B, V, T>,
    fresh: F,
    seal: G,
    first: FrameView<E, B, V, T>,
    encoder: E,
    fresh2: F2,
    seal2: G2,
    second: FrameView<E, B, V, T>,
)
    requires
        rotated(before, fresh, seal, first),
        rotated((FrameView { encoder, ..first }), fresh2, seal2, second),
    ensures
        call_ensures(fresh2, (), second.encoder),
        second.recorded.len() == first.recorded.len() + 1,
        second.recorded.drop_last() == first.recorded,
        call_ensures(seal2, (encoder,), second.recorded.last()),
{
}

/// Every color target of a pass, attached or not, starts cleared to its clear
/// color if it has one and as it is if it has none, is rendered into the view
/// that is attached or else into the frame's own, and is stored.
pub proof fn law_every_color_target_starts_as_asked<'a, V, K, D>(
    plan: RenderPassPlan<'a, V, K, D>,
    pass: Pass<'a, V, K, D>,
    frame_view: &'a V,
    scope: Option<(u32, u32)>,
    i: int,
    color: K,
)
    requires
        is_pass_plan(plan, pass, frame_view, scope),
        0 <= i < pass.colors@.len(),
    ensures
        plan.colors@.len() == pass.colors@.len(),
        pass.colors@[i].clear == Some(color) ==> plan.colors@[i].load == LoadOp::Clear(color),
        pass.colors@[i].clear is None ==> plan.colors@[i].load == LoadOp::<K>::Load,
        pass.colors@[i].attachment is Some ==> plan.colors@[i].view
            == pass.colors@[i].attachment->Some_0,
        pass.colors@[i].attachment is None ==> plan.colors@[i].view == frame_view,
        plan.colors@[i].store,
{
    assert(plan.colors@[i] == color_attachment(pass.colors@[i], frame_view));
}

/// The depth buffer of a pass, if it has one, is the one attached; it starts
/// cleared to its clear depth if it has one and as it is if it has none, and
/// is stored.
pub proof fn law_the_depth_target_starts_as_asked<'a, V, K, D>(
    plan: RenderPassPlan<'a, V, K, D>,
    pass: Pass<'a, V, K, D>,
    frame_view: &'a V,
    scope: Option<(u32, u32)>,
    depth: D,
)
    requires
        is_pass_plan(plan, pass, frame_view, scope),
    ensures
        plan.depth is Some <==> pass.depth is Some,
        pass.depth is Some ==> {
            &&& plan.depth->Some_0.view == pass.depth->Some_0.attachment
            &&& pass.depth->Some_0.clear == Some(depth) ==> plan.depth->Some_0.load
                == LoadOp::Clear(depth)
            &&& pass.depth->Some_0.clear is None ==> plan.depth->Some_0.load == LoadOp::<D>::Load
            &&& plan.depth->Some_0.store
        },
{
}

/// A pass is timed exactly if it has a scope: the first query of the scope
/// gets the time at which the pass begins, the second the time at which it
/// ends.
pub proof fn law_a_pass_is_timed_by_its_scope<'a, V, K, D>(
    plan: RenderPassPlan<'a, V, K, D>,
    pass: Pass<'a, V, K, D>,
    frame_view: &'a V,
    scope: Option<(u32, u32)>,
)
    requires
        is_pass_plan(plan, pass, frame_view, scope),
    ensures
        plan.timestamps is Some <==> scope is Some,
        scope is Some ==> {
            &&& plan.timestamps->Some_0.begin == scope->Some_0.0
            &&& plan.timestamps->Some_0.end == scope->Some_0.1
        },
        writes_of(scope) == plan.timestamps,
{
}

/// The scopes of a pool are claimed one after another, as long as there are
/// any: each claim takes the next two queries of the pool and appends its
/// label. Once all are claimed a claim gives none and changes nothing.
pub proof fn law_scopes_are_claimed_one_after_another<Q>(
    pool: TimestampsView<Q>,
    label: &'static str,
)
    requires
        pool.wf(),
    ensures
        next_scope(pool) is Some <==> pool.labels.len() < pool.capacity,
        next_scope(pool) is Some ==> {
            let after = claimed(pool, label);
            &&& next_scope(pool)->Some_0.0 == 2 * pool.labels.len()
            &&& next_scope(pool)->Some_0.1 == 2 * pool.labels.len() + 1
            &&& after.labels.len() == pool.labels.len() + 1
            &&& after.labels.drop_last() == pool.labels
            &&& after.labels.last() == label
            &&& after.resolved == pool.resolved
            &&& after.capacity == pool.capacity
            &&& after.set == pool.set
            &&& after.wf()
        },
        next_scope(pool) is None ==> claimed(pool, label) == pool,
{
    if next_scope(pool) is Some {
        assert(claimed(pool, label).labels.drop_last() =~= pool.labels);
    }
}

/// The first pass of a frame begins on the encoder that the frame came with,
/// and nothing is sealed. A frame that has been recorded into goes on a fresh
/// encoder, and the earlier one is sealed. The target stays the same.
pub proof fn law_only_a_used_encoder_is_sealed<E, B, V, T, F: FnOnce() -> E, G: FnOnce(E) -> B>(
    before: FrameView<E, B, V, T>,
    fresh: F,
    seal: G,
    after: FrameView<E, B, V, T>,
)
    requires
        rotated(before, fresh, seal, after),
    ensures
        after.encoder_used,
        after.view == before.view,
        after.surface == before.surface,
        !before.encoder_used ==> after.encoder == before.encoder && after.recorded
            == before.recorded,
        before.encoder_used ==> {
            &&& call_ensures(fresh, (), after.encoder)
            &&& after.recorded.len() == before.recorded.len() + 1
            &&& after.recorded.drop_last() == before.recorded
            &&& call_ensures(seal, (before.encoder,), after.recorded.last())
        },
{
}

/// A frame seals one command buffer per pass, the last one's when it is
/// finished: `begun` are the frames on which the passes began, one after
/// another, `recorded` the encoders once the passes were recorded.
pub proof fn law_one_command_buffer_per_pass<E, B, V, T, F: FnOnce() -> E, G: FnOnce(E) -> B>(
    start: FrameView<E, B, V, T>,
    begun: Seq<FrameView<E, B, V, T>>,
    recorded: Seq<E>,
    fresh: Seq<F>,
    seal: Seq<G>,
    k: int,
)
    requires
        !start.encoder_used,
        start.recorded.len() == 0,
        begun.len() > 0,
        recorded.len() == begun.len(),
        rotated(start, fresh[0], seal[0], begun[0]),
        forall|i: int, j: int|
            0 <= i && j == i + 1 && j < begun.len() ==> rotated(
                (FrameView { encoder: recorded[i], ..#[trigger] begun[i] }),
                fresh[j],
                seal[j],
                #[trigger] begun[j],
            ),
        0 <= k < begun.len(),
    ensures
        begun[k].recorded.len() == k,
        forall|i: int|
            0 <= i < k ==> call_ensures(
                seal[i + 1],
                (recorded[i],),
                #[trigger] begun[k].recorded[i],
            ),
        begun[k].encoder_used,
    decreases k,
{
    if k > 0 {
        law_one_command_buffer_per_pass(start, begun, recorded, fresh, seal, k - 1);
        let between = FrameView { encoder: recorded[k - 1], ..begun[k - 1] };
        assert(rotated(between, fresh[k], seal[k], begun[k]));
        assert forall|i: int| 0 <= i < k implies call_ensures(
            seal[i + 1],
            (recorded[i],),
            #[trigger] begun[k].recorded[i],
        ) by {
            if i < k - 1 {
                assert(begun[k].recorded.drop_last()[i] == begun[k].recorded[i]);
                assert(call_ensures(seal[i + 1], (recorded[i],), begun[k - 1].recorded[i]));
            }
        }
    }
}

// ---------------------------------------------------------------------------
// Laws of the operations
// ---------------------------------------------------------------------------

/// A planned pass begins each color target as the target asks for it, whether
/// it is attached or not, in the order of the targets: cleared to the color
/// that is given, or as it is; on the view that is attached, or on the
/// frame's; and stored.
pub proof fn law_a_planned_pass_begins_each_target_as_asked<'a, V, K, D>(
    pass: Pass<'a, V, K, D>,
    frame_view: &'a V,
    scope: Option<(u32, u32)>,
    plan: RenderPassPlan<'a, V, K, D>,
    i: int,
    color: K,
    depth: D,
)
    requires
        call_ensures(plan_pass::<V, K, D>, (pass, frame_view, scope), plan),
    ensures
        plan.colors@.len() == pass.colors@.len(),
        0 <= i < pass.colors@.len() ==> {
            &&& pass.colors@[i].clear == Some(color) ==> plan.colors@[i].load == LoadOp::Clear(
                color,
            )
            &&& pass.colors@[i].clear is None ==> plan.colors@[i].load == LoadOp::<K>::Load
            &&& pass.colors@[i].attachment is Some ==> plan.colors@[i].view
                == pass.colors@[i].attachment->Some_0
            &&& pass.colors@[i].attachment is None ==> plan.colors@[i].view == frame_view
            &&& plan.colors@[i].store
        },
        plan.depth is Some <==> pass.depth is Some,
        pass.depth is Some ==> {
            &&& plan.depth->Some_0.view == pass.depth->Some_0.attachment
            &&& pass.depth->Some_0.clear == Some(depth) ==> plan.depth->Some_0.load
                == LoadOp::Clear(depth)
            &&& pass.depth->Some_0.clear is None ==> plan.depth->Some_0.load == LoadOp::<D>::Load
            &&& plan.depth->Some_0.store
        },
        plan.timestamps is Some <==> scope is Some,
        scope is Some ==> {
            &&& plan.timestamps->Some_0.begin == scope->Some_0.0
            &&& plan.timestamps->Some_0.end == scope->Some_0.1
        },
{
    if 0 <= i < pass.colors@.len() {
        law_every_color_target_starts_as_asked(plan, pass, frame_view, scope, i, color);
    }
    law_the_depth_target_starts_as_asked(plan, pass, frame_view, scope, depth);
}

/// What is finished is submitted in the order of recording, the encoder that
/// is being recorded into last.
pub proof fn law_a_frame_is_submitted_in_order<E, B, V, T, G: FnOnce(E) -> B>(
    frame: Frame<E, B, V, T>,
    seal: G,
    finished: (Vec<B>, T),
    i: int,
)
    requires
        call_ensures(Frame::<E, B, V, T>::finish::<G>, (frame, seal), finished),
    ensures
        finished.0@.len() == frame.recorded@.len() + 1,
        0 <= i < frame.recorded@.len() ==> finished.0@[i] == frame.recorded@[i],
        call_ensures(seal, (frame.encoder,), finished.0@.last()),
        finished.1 == frame.surface,
{
    if 0 <= i < frame.recorded@.len() {
        assert(finished.0@.drop_last()[i] == finished.0@[i]);
    }
}

/// A new frame records into the encoder that it was given, and nothing has
/// been recorded.
pub proof fn law_a_new_frame_is_unused<E, B, V, T>(
    encoder: E,
    view: V,
    surface: T,
    frame: Frame<E, B, V, T>,
)
    requires
        call_ensures(Frame::<E, B, V, T>::new, (encoder, view, surface), frame),
    ensures
        frame.encoder == encoder,
        !frame.encoder_used,
        frame.recorded@.len() == 0,
        frame.view == view,
        frame.surface == surface,
{
}

/// The frame of a tick is the one that was set last, until it is taken; it can
/// be taken once.
pub proof fn law_a_frame_can_be_taken_once<E, B, V, T>(
    current: &mut CurrentFrame<E, B, V, T>,
    frame: Frame<E, B, V, T>,
    next: &mut CurrentFrame<E, B, V, T>,
    taken: Option<Frame<E, B, V, T>>,
    last: &mut CurrentFrame<E, B, V, T>,
    nothing: Option<Frame<E, B, V, T>>,
)
    requires
        call_ensures(CurrentFrame::<E, B, V, T>::set, (current, frame), ()),
        *old(next) == *final(current),
        call_ensures(CurrentFrame::<E, B, V, T>::take, (next,), taken),
        *old(last) == *final(next),
        call_ensures(CurrentFrame::<E, B, V, T>::take, (last,), nothing),
    ensures
        taken == Some(frame),
        nothing is None,
{
}

/// A pass begins on the frame's encoder if that is unused, and else on a fresh
/// one, with the used one sealed behind what was recorded. It begins as asked,
/// and is untimed.
pub proof fn law_a_pass_begins_on_its_own_encoder<
    'a,
    E,
    B,
    V,
    T,
    K,
    D,
    F: FnOnce() -> E,
    G: FnOnce(E) -> B,
>(
    frame: &'a mut Frame<E, B, V, T>,
    pass: Pass<'a, V, K, D>,
    fresh: F,
    seal: G,
    begun: (&'a mut E, RenderPassPlan<'a, V, K, D>),
    i: int,
    color: K,
)
    requires
        call_ensures(
            Frame::<E, B, V, T>::begin::<K, D, F, G>,
            (frame, pass, fresh, seal),
            begun,
        ),
    ensures
        !old(frame).encoder_used ==> *old(begun.0) == old(frame).encoder,
        !old(frame).encoder_used ==> final(frame).recorded@ == old(frame).recorded@,
        old(frame).encoder_used ==> {
            &&& call_ensures(fresh, (), *old(begun.0))
            &&& final(frame).recorded@.len() == old(frame).recorded@.len() + 1
            &&& final(frame).recorded@.drop_last() == old(frame).recorded@
            &&& call_ensures(seal, (old(frame).encoder,), final(frame).recorded@.last())
        },
        final(frame).encoder_used,
        final(frame).encoder == *final(begun.0),
        final(frame).view == old(frame).view,
        final(frame).surface == old(frame).surface,
        begun.1.timestamps is None,
        begun.1.colors@.len() == pass.colors@.len(),
        0 <= i < pass.colors@.len() ==> {
            &&& pass.colors@[i].clear == Some(color) ==> begun.1.colors@[i].load == LoadOp::Clear(
                color,
            )
            &&& pass.colors@[i].clear is None ==> begun.1.colors@[i].load == LoadOp::<K>::Load
            &&& pass.colors@[i].attachment is Some ==> begun.1.colors@[i].view
                == pass.colors@[i].attachment->Some_0
            &&& pass.colors@[i].attachment is None ==> *begun.1.colors@[i].view == old(frame).view
            &&& begun.1.colors@[i].store
        },
{
    if 0 <= i < pass.colors@.len() {
        law_every_color_target_starts_as_asked(
            begun.1,
            pass,
            &old(frame)@.view,
            None,
            i,
            color,
        );
    }
}

/// A timed pass begins like any other, and claims the next scope under its
/// label, if there is one: the first query of the scope gets the time at which
/// it begins, the second that at which it ends. Without a scope it is untimed.
pub proof fn law_a_timed_pass_claims_a_scope<
    'a,
    E,
    B,
    V,
    T,
    K,
    D,
    Q,
    F: FnOnce() -> E,
    G: FnOnce(E) -> B,
>(
    frame: &'a mut Frame<E, B, V, T>,
    pass: Pass<'a, V, K, D>,
    label: &'static str,
    timestamps: &mut GpuTimestamps<Q>,
    fresh: F,
    seal: G,
    begun: (&'a mut E, RenderPassPlan<'a, V, K, D>),
    i: int,
    color: K,
)
    requires
        old(timestamps)@.wf(),
        call_ensures(
            Frame::<E, B, V, T>::begin_timed::<K, D, Q, F, G>,
            (frame, pass, label, timestamps, fresh, seal),
            begun,
        ),
    ensures
        !old(frame).encoder_used ==> *old(begun.0) == old(frame).encoder,
        !old(frame).encoder_used ==> final(frame).recorded@ == old(frame).recorded@,
        old(frame).encoder_used ==> {
            &&& call_ensures(fresh, (), *old(begun.0))
            &&& final(frame).recorded@.len() == old(frame).recorded@.len() + 1
            &&& final(frame).recorded@.drop_last() == old(frame).recorded@
            &&& call_ensures(seal, (old(frame).encoder,), final(frame).recorded@.last())
        },
        final(frame).encoder_used,
        final(frame).encoder == *final(begun.0),
        final(frame).view == old(frame).view,
        final(frame).surface == old(frame).surface,
        old(timestamps)@.labels.len() < old(timestamps)@.capacity ==> {
            &&& begun.1.timestamps is Some
            &&& begun.1.timestamps->Some_0.begin == 2 * old(timestamps)@.labels.len()
            &&& begun.1.timestamps->Some_0.end == 2 * old(timestamps)@.labels.len() + 1
            &&& final(timestamps)@.labels.len() == old(timestamps)@.labels.len() + 1
            &&& final(timestamps)@.labels.drop_last() == old(timestamps)@.labels
            &&& final(timestamps)@.labels.last() == label
        },
        old(timestamps)@.labels.len() >= old(timestamps)@.capacity ==> {
            &&& begun.1.timestamps is None
            &&& final(timestamps)@.labels == old(timestamps)@.labels
        },
        final(timestamps)@.resolved == old(timestamps)@.resolved,
        final(timestamps)@.capacity == old(timestamps)@.capacity,
        final(timestamps)@.set == old(timestamps)@.set,
        begun.1.colors@.len() == pass.colors@.len(),
        0 <= i < pass.colors@.len() ==> {
            &&& pass.colors@[i].clear == Some(color) ==> begun.1.colors@[i].load == LoadOp::Clear(
                color,
            )
            &&& pass.colors@[i].clear is None ==> begun.1.colors@[i].load == LoadOp::<K>::Load
            &&& pass.colors@[i].attachment is Some ==> begun.1.colors@[i].view
                == pass.colors@[i].attachment->Some_0
            &&& pass.colors@[i].attachment is None ==> *begun.1.colors@[i].view == old(frame).view
        },
{
    if 0 <= i < pass.colors@.len() {
        law_every_color_target_starts_as_asked(
            begun.1,
            pass,
            &old(frame)@.view,
            next_scope(old(timestamps)@),
            i,
            color,
        );
    }
    law_scopes_are_claimed_one_after_another(old(timestamps)@, label);
}

/// A compute pass gets an encoder as a render pass does, under the label that
/// was given, and is untimed.
pub proof fn law_a_compute_pass_begins_on_its_own_encoder<
    'a,
    E,
    B,
    V,
    T,
    F: FnOnce() -> E,
    G: FnOnce(E) -> B,
>(
    frame: &'a mut Frame<E, B, V, T>,
    label: Option<&'a str>,
    fresh: F,
    seal: G,
    begun: (&'a mut E, ComputePassPlan<'a>),
)
    requires
        call_ensures(
            Frame::<E, B, V, T>::begin_compute::<F, G>,
            (frame, label, fresh, seal),
            begun,
        ),
    ensures
        !old(frame).encoder_used ==> *old(begun.0) == old(frame).encoder,
        !old(frame).encoder_used ==> final(frame).recorded@ == old(frame).recorded@,
        old(frame).encoder_used ==> {
            &&& call_ensures(fresh, (), *old(begun.0))
            &&& final(frame).recorded@.len() == old(frame).recorded@.len() + 1
            &&& final(frame).recorded@.drop_last() == old(frame).recorded@
            &&& call_ensures(seal, (old(frame).encoder,), final(frame).recorded@.last())
        },
        final(frame).encoder_used,
        final(frame).encoder == *final(begun.0),
        final(frame).view == old(frame).view,
        final(frame).surface == old(frame).surface,
        begun.1.label == label,
        begun.1.timestamps is None,
{
}

/// A timed compute pass has its label and claims a scope under it, if there is
/// one.
pub proof fn law_a_timed_compute_pass_claims_a_scope<
    'a,
    E,
    B,
    V,
    T,
    Q,
    F: FnOnce() -> E,
    G: FnOnce(E) -> B,
>(
    frame: &'a mut Frame<E, B, V, T>,
    label: &'static str,
    timestamps: &mut GpuTimestamps<Q>,
    fresh: F,
    seal: G,
    begun: (&'a mut E, ComputePassPlan<'a>),
)
    requires
        old(timestamps)@.wf(),
        call_ensures(
            Frame::<E, B, V, T>::begin_compute_timed::<Q, F, G>,
            (frame, label, timestamps, fresh, seal),
            begun,
        ),
    ensures
        !old(frame).encoder_used ==> *old(begun.0) == old(frame).encoder,
        !old(frame).encoder_used ==> final(frame).recorded@ == old(frame).recorded@,
        old(frame).encoder_used ==> {
            &&& call_ensures(fresh, (), *old(begun.0))
            &&& final(frame).recorded@.len() == old(frame).recorded@.len() + 1
            &&& final(frame).recorded@.drop_last() == old(frame).recorded@
            &&& call_ensures(seal, (old(frame).encoder,), final(frame).recorded@.last())
        },
        final(frame).encoder_used,
        final(frame).encoder == *final(begun.0),
        final(frame).view == old(frame).view,
        final(frame).surface == old(frame).surface,
        old(timestamps)@.labels.len() < old(timestamps)@.capacity ==> {
            &&& begun.1.timestamps is Some
            &&& begun.1.timestamps->Some_0.begin == 2 * old(timestamps)@.labels.len()
            &&& begun.1.timestamps->Some_0.end == 2 * old(timestamps)@.labels.len() + 1
            &&& final(timestamps)@.labels.len() == old(timestamps)@.labels.len() + 1
            &&& final(timestamps)@.labels.drop_last() == old(timestamps)@.labels
            &&& final(timestamps)@.labels.last() == label
        },
        old(timestamps)@.labels.len() >= old(timestamps)@.capacity ==> {
            &&& begun.1.timestamps is None
            &&& final(timestamps)@.labels == old(timestamps)@.labels
        },
        final(timestamps)@.resolved == old(timestamps)@.resolved,
        final(timestamps)@.capacity == old(timestamps)@.capacity,
        final(timestamps)@.set == old(timestamps)@.set,
        begun.1.label == Some(label),
{
    law_scopes_are_claimed_one_after_another(old(timestamps)@, label);
}

/// A copy is of the whole of one buffer to the start of the other, on the
/// encoder that is being recorded into, and nothing is sealed for it.
pub proof fn law_a_copy_is_recorded_in_place<'a, E, B, V, T, H>(
    frame: &'a mut Frame<E, B, V, T>,
    source: &'a Buffer<H>,
    target: &'a Buffer<H>,
    copy: (&'a mut E, CopyPlan<'a, H>),
)
    requires
        call_ensures(Frame::<E, B, V, T>::copy_buffer::<H>, (frame, source, target), copy),
    ensures
        *copy.1.source == source.handle,
        *copy.1.target == target.handle,
        copy.1.source_offset == 0,
        copy.1.target_offset == 0,
        copy.1.size == source.size,
        *old(copy.0) == old(frame).encoder,
        final(frame).encoder == *final(copy.0),
        final(frame).encoder_used == old(frame).encoder_used,
        final(frame).recorded@ == old(frame).recorded@,
        final(frame).view == old(frame).view,
        final(frame).surface == old(frame).surface,
{
}

/// What is resolved are both queries of every scope that was claimed, from the
/// first, into the start of the target, on an encoder behind the passes; the
/// labels are kept for the reading back. Without a scope nothing happens.
pub proof fn law_every_claimed_scope_is_resolved<
    'a,
    E,
    B,
    V,
    T,
    Q,
    H,
    F: FnOnce() -> E,
    G: FnOnce(E) -> B,
>(
    frame: &'a mut Frame<E, B, V, T>,
    timestamps: &mut GpuTimestamps<Q>,
    target: &'a Buffer<H>,
    fresh: F,
    seal: G,
    resolve: Option<(&'a mut E, ResolvePlan<'a, H>)>,
)
    requires
        call_ensures(
            Frame::<E, B, V, T>::resolve_timestamps::<Q, H, F, G>,
            (frame, timestamps, target, fresh, seal),
            resolve,
        ),
    ensures
        resolve is Some <==> old(timestamps)@.labels.len() > 0,
        resolve is Some ==> {
            &&& resolve->Some_0.1.queries == 2 * old(timestamps)@.labels.len()
            &&& *resolve->Some_0.1.target == target.handle
            &&& resolve->Some_0.1.target_offset == 0
            &&& final(timestamps)@.resolved == old(timestamps)@.labels
            &&& old(frame).encoder_used ==> final(frame).recorded@.drop_last() == old(
                frame,
            ).recorded@ && call_ensures(
                seal,
                (old(frame).encoder,),
                final(frame).recorded@.last(),
            )
            &&& !old(frame).encoder_used ==> final(frame).recorded@ == old(frame).recorded@
        },
        resolve is None ==> final(timestamps)@.resolved == old(timestamps)@.resolved && final(frame)@
            == old(frame)@,
        final(timestamps)@.labels == old(timestamps)@.labels,
        final(timestamps)@.capacity == old(timestamps)@.capacity,
{
}

/// There is a frame to render into exactly if one was acquired, and what is
/// recorded into it is recorded into the frame of this tick.
pub proof fn law_the_active_frame_is_the_one_that_was_set<'a, E, B, V, T>(
    fresh: CurrentFrame<E, B, V, T>,
    current: &'a mut CurrentFrame<E, B, V, T>,
    active: Option<ActiveFrame<'a, E, B, V, T>>,
)
    requires
        call_ensures(<CurrentFrame<E, B, V, T> as Default>::default, (), fresh),
        call_ensures(CurrentFrame::<E, B, V, T>::active, (current,), active),
    ensures
        fresh@ is None,
        active is Some <==> old(current)@ is Some,
        active is Some ==> {
            &&& *old(active->Some_0.frame) == old(current)@->Some_0
            &&& final(current)@ == Some(*final(active->Some_0.frame))
        },
        active is None ==> final(current)@ is None,
{
}

/// A pass that begins on the active frame begins as one on the frame itself.
pub proof fn law_a_pass_on_the_active_frame<
    'a,
    E,
    B,
    V,
    T,
    K,
    D,
    F: FnOnce() -> E,
    G: FnOnce(E) -> B,
>(
    active: ActiveFrame<'a, E, B, V, T>,
    pass: Pass<'a, V, K, D>,
    fresh: F,
    seal: G,
    begun: (&'a mut E, RenderPassPlan<'a, V, K, D>),
    i: int,
    color: K,
)
    requires
        call_ensures(
            ActiveFrame::<'a, E, B, V, T>::begin_pass::<K, D, F, G>,
            (active, pass, fresh, seal),
            begun,
        ),
    ensures
        !old(active.frame).encoder_used ==> *old(begun.0) == old(active.frame).encoder,
        old(active.frame).encoder_used ==> call_ensures(fresh, (), *old(begun.0)),
        final(active.frame).encoder_used,
        begun.1.timestamps is None,
        begun.1.colors@.len() == pass.colors@.len(),
        0 <= i < pass.colors@.len() ==> {
            &&& pass.colors@[i].clear == Some(color) ==> begun.1.colors@[i].load == LoadOp::Clear(
                color,
            )
            &&& pass.colors@[i].clear is None ==> begun.1.colors@[i].load == LoadOp::<K>::Load
            &&& pass.colors@[i].attachment is Some ==> begun.1.colors@[i].view
                == pass.colors@[i].attachment->Some_0
            &&& pass.colors@[i].attachment is None ==> *begun.1.colors@[i].view == old(
                active.frame,
            ).view
        },
{
    if 0 <= i < pass.colors@.len() {
        law_every_color_target_starts_as_asked(
            begun.1,
            pass,
            &old(active.frame)@.view,
            None,
            i,
            color,
        );
    }
}

} // verus!
