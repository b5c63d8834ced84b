//! The compute-pipeline state machine and the two images it alternates between.
//!
//! The node waits for the `init` kernel, then for the `update` kernel, and from
//! then on flips between two bind groups every tick: group 0 reads image A and
//! writes image B, group 1 reads B and writes A. The image that a dispatch reads
//! is the one published to consumers; the one it writes is never published.

use vstd::prelude::*;

verus! {

/// Width of the two images, in texels.
pub const AUDIOLINK_WIDTH: u32 = 128;

/// Height of the two images, in texels.
pub const AUDIOLINK_HEIGHT: u32 = 64;

/// Edge of the square tile that one workgroup covers.
pub const WORKGROUP_SIZE: u32 = 8;

/// One of the two persistent images.
#[derive(Clone, Copy, Debug, PartialEq, Eq, Structural)]
pub enum ImageSlot {
    A,
    B,
}

/// One of the two compute kernels.
#[derive(Clone, Copy, Debug, PartialEq, Eq, Structural)]
pub enum Kernel {
    Init,
    Update,
}

/// What the pipeline cache reports of a kernel.
#[derive(Clone, Copy, Debug, PartialEq, Eq, Structural)]
pub enum KernelStatus {
    /// Queued for compilation.
    Queued,
    /// Being compiled.
    Creating,
    /// Compiled and ready to dispatch.
    Compiled,
    /// The shader source has not been loaded yet.
    NotLoaded,
    /// Compilation failed for any other reason.
    Failed,
}

/// Where the node stands.
#[derive(Clone, Copy, Debug, PartialEq, Eq, Structural)]
pub enum AudiolinkState {
    /// Waiting for the `init` kernel.
    Loading,
    /// The `init` kernel runs; waiting for the `update` kernel.
    Init,
    /// The `update` kernel runs with the bind group of this index.
    Update(usize),
}

/// One kernel invocation over the whole image.
#[derive(Clone, Copy, Debug, PartialEq, Eq, Structural)]
pub struct Dispatch {
    pub kernel: Kernel,
    pub bind_group: usize,
    pub read: ImageSlot,
    pub write: ImageSlot,
    pub workgroups_x: u32,
    pub workgroups_y: u32,
    pub workgroups_z: u32,
}

/// The other image.
pub open spec fn other_slot(slot: ImageSlot) -> ImageSlot {
    match slot {
        ImageSlot::A => ImageSlot::B,
        ImageSlot::B => ImageSlot::A,
    }
}

/// The image that a bind group reads.
pub open spec fn read_source(bind_group: usize) -> ImageSlot {
    if bind_group == 0 {
        ImageSlot::A
    } else {
        ImageSlot::B
    }
}

/// The image that a bind group writes.
pub open spec fn write_target(bind_group: usize) -> ImageSlot {
    other_slot(read_source(bind_group))
}

/// A state that the node can be in: a bind group index is 0 or 1.
pub open spec fn valid_state(state: AudiolinkState) -> bool {
    state matches AudiolinkState::Update(role) ==> role < 2
}

/// A report that stops the node for good: the `init` kernel failed to compile
/// while the node was waiting for it.
pub open spec fn fatal(state: AudiolinkState, init: KernelStatus) -> bool {
    state is Loading && init is Failed
}

/// The state after one tick in which the pipeline cache reports `init` of the
/// `init` kernel and `update` of the `update` kernel. A fatal report leaves the
/// state where it is.
pub open spec fn step(
    state: AudiolinkState,
    init: KernelStatus,
    update: KernelStatus,
) -> AudiolinkState {
    match state {
        AudiolinkState::Loading => if init is Compiled {
            AudiolinkState::Init
        } else {
            AudiolinkState::Loading
        },
        AudiolinkState::Init => if update is Compiled {
            AudiolinkState::Update(1)
        } else {
            AudiolinkState::Init
        },
        AudiolinkState::Update(role) => if role == 0 {
            AudiolinkState::Update(1)
        } else {
            AudiolinkState::Update(0)
        },
    }
}

/// The number of workgroups that cover the whole image, per axis.
pub open spec fn full_extent() -> (int, int, int) {
    (AUDIOLINK_WIDTH as int / WORKGROUP_SIZE as int, AUDIOLINK_HEIGHT as int / WORKGROUP_SIZE as int, 1)
}

/// What a node in `state` dispatches in its render pass.
pub open spec fn dispatch_for(state: AudiolinkState) -> Option<Dispatch> {
    match state {
        AudiolinkState::Loading => None,
        AudiolinkState::Init => Some(
            Dispatch {
                kernel: Kernel::Init,
                bind_group: 0,
                read: read_source(0),
                write: write_target(0),
                workgroups_x: full_extent().0 as u32,
                workgroups_y: full_extent().1 as u32,
                workgroups_z: full_extent().2 as u32,
            },
        ),
        AudiolinkState::Update(role) => Some(
            Dispatch {
                kernel: Kernel::Update,
                bind_group: role,
                read: read_source(role),
                write: write_target(role),
                workgroups_x: full_extent().0 as u32,
                workgroups_y: full_extent().1 as u32,
                workgroups_z: full_extent().2 as u32,
            },
        ),
    }
}

/// The image that consumers are shown while the node is in `state`: the one
/// that the dispatch of this tick reads, and image A before the first dispatch.
pub open spec fn published_for(state: AudiolinkState) -> ImageSlot {
    match state {
        AudiolinkState::Update(role) => read_source(role),
        _ => ImageSlot::A,
    }
}

/// The state after `ticks` ticks from `start`, where `reports(t)` is what the
/// pipeline cache reports of the two kernels at tick `t`.
pub open spec fn state_after(
    start: AudiolinkState,
    reports: spec_fn(nat) -> (KernelStatus, KernelStatus),
    ticks: nat,
) -> AudiolinkState
    decreases ticks,
{
    if ticks == 0 {
        start
    } else {
        let before = (ticks - 1) as nat;
        step(state_after(start, reports, before), reports(before).0, reports(before).1)
    }
}

/// The tiles of one dispatch cover the image exactly, with none left over.
pub proof fn lemma_tiles_cover_image()
    ensures
        full_extent().0 * WORKGROUP_SIZE == AUDIOLINK_WIDTH,
        full_extent().1 * WORKGROUP_SIZE == AUDIOLINK_HEIGHT,
        full_extent().2 == 1,
{
}

/// A tick keeps a valid state valid, and never leads back to an earlier stage.
pub proof fn lemma_step_moves_forward(
    state: AudiolinkState,
    init: KernelStatus,
    update: KernelStatus,
)
    ensures
        valid_state(step(state, init, update)),
        !(state is Loading) ==> !(step(state, init, update) is Loading),
        state is Update ==> step(state, init, update) is Update,
{
}

/// The ping-pong law. Whatever a node in a valid state dispatches reads the
/// image that is published and writes the other one. In the steady state every
/// tick flips the bind group, and with it the published image, so that the
/// image published next is the one just written.
pub proof fn lemma_ping_pong(state: AudiolinkState, init: KernelStatus, update: KernelStatus)
    requires
        valid_state(state),
    ensures
        dispatch_for(state) matches Some(dispatch) ==> {
            &&& dispatch.read == published_for(state)
            &&& dispatch.write == other_slot(published_for(state))
            &&& dispatch.write != dispatch.read
        },
        state matches AudiolinkState::Update(role) ==> {
            &&& step(state, init, update) == AudiolinkState::Update((1 - role) as usize)
            &&& published_for(step(state, init, update)) == other_slot(published_for(state))
            &&& published_for(step(state, init, update)) == write_target(role)
        },
{
}

/// The liveness law. Let both kernels report compiled from the `k`-th tick
/// on, `k` at least 1. Then a node that starts in `Loading` is in `Update`
/// after every number of ticks from `k + 1` on, and each further tick flips its
/// bind group between 0 and 1.
pub proof fn lemma_liveness(
    reports: spec_fn(nat) -> (KernelStatus, KernelStatus),
    k: nat,
    ticks: nat,
)
    requires
        k >= 1,
        forall|t: nat|
            t >= k - 1 ==> #[trigger] reports(t) == (KernelStatus::Compiled, KernelStatus::Compiled),
        ticks >= k + 1,
    ensures
        state_after(AudiolinkState::Loading, reports, ticks) matches AudiolinkState::Update(role)
            && role < 2 && state_after(AudiolinkState::Loading, reports, ticks + 1)
            == AudiolinkState::Update((1 - role) as usize),
    decreases ticks,
{
    let start = AudiolinkState::Loading;
    lemma_reaches_init(reports, k, (ticks - 1) as nat);
    lemma_stays_valid(start, reports, (ticks - 1) as nat);
    let before = state_after(start, reports, (ticks - 1) as nat);
    assert(reports((ticks - 1) as nat) == (KernelStatus::Compiled, KernelStatus::Compiled));
    assert(reports(ticks) == (KernelStatus::Compiled, KernelStatus::Compiled));
    assert(state_after(start, reports, ticks) == step(
        before,
        KernelStatus::Compiled,
        KernelStatus::Compiled,
    ));
    assert(state_after(start, reports, ticks + 1) == step(
        state_after(start, reports, ticks),
        KernelStatus::Compiled,
        KernelStatus::Compiled,
    ));
}

/// From a valid start every later state is valid.
pub proof fn lemma_stays_valid(
    start: AudiolinkState,
    reports: spec_fn(nat) -> (KernelStatus, KernelStatus),
    ticks: nat,
)
    requires
        valid_state(start),
    ensures
        valid_state(state_after(start, reports, ticks)),
    decreases ticks,
{
    if ticks > 0 {
        lemma_stays_valid(start, reports, (ticks - 1) as nat);
    }
}

/// Once the `init` kernel has reported compiled at tick `k - 1`, the node has
/// left `Loading` after `k` ticks and does not return to it.
proof fn lemma_reaches_init(
    reports: spec_fn(nat) -> (KernelStatus, KernelStatus),
    k: nat,
    ticks: nat,
)
    requires
        k >= 1,
        reports((k - 1) as nat).0 is Compiled,
        ticks >= k,
    ensures
        !(state_after(AudiolinkState::Loading, reports, ticks) is Loading),
    decreases ticks,
{
    if ticks > k {
        lemma_reaches_init(reports, k, (ticks - 1) as nat);
    }
}

/// The image that consumers are shown: the latest complete one.
#[derive(Clone, Copy, Debug, PartialEq, Eq, Structural)]
pub struct AudiolinkDataTexture(pub ImageSlot);

impl AudiolinkDataTexture {
    /// Image A is shown first.
    pub fn new() -> (texture: Self)
        ensures
            texture.0 == ImageSlot::A,
    {
        AudiolinkDataTexture(ImageSlot::A)
    }

    /// Shows the image that the node publishes in this frame.
    pub fn publish(&mut self, published: ImageSlot)
        ensures
            final(self).0 == published,
    {
        self.0 = published;
    }
}

/// The images that the bind group of this index reads and writes, in this
/// order.
pub fn bind_group_images(bind_group: usize) -> (images: (ImageSlot, ImageSlot))
    ensures
        images.0 == read_source(bind_group),
        images.1 == write_target(bind_group),
{
    if bind_group == 0 {
        (ImageSlot::A, ImageSlot::B)
    } else {
        (ImageSlot::B, ImageSlot::A)
    }
}

/// The render-graph node: the state machine of the compute pipeline.
pub struct AudiolinkNode {
    state: AudiolinkState,
}

impl Default for AudiolinkNode {
    fn default() -> (node: Self)
        ensures
            node.state() == AudiolinkState::Loading,
    {
        AudiolinkNode { state: AudiolinkState::Loading }
    }
}

impl AudiolinkNode {
    #[verifier::type_invariant]
    spec fn well_formed(&self) -> bool {
        valid_state(self.state)
    }

    /// The state of the node.
    pub closed spec fn state(&self) -> AudiolinkState {
        self.state
    }

    /// The state of the node.
    pub fn current_state(&self) -> (state: AudiolinkState)
        ensures
            state == self.state(),
            valid_state(state),
    {
        proof {
            use_type_invariant(self);
        }
        self.state
    }

    /// Whether a report of the `init` kernel would stop the node for good.
    pub fn is_fatal(&self, init: KernelStatus) -> (stop: bool)
        ensures
            stop == fatal(self.state(), init),
    {
        match (self.state, init) {
            (AudiolinkState::Loading, KernelStatus::Failed) => true,
            _ => false,
        }
    }

    /// One tick: takes what the pipeline cache reports of the two kernels and
    /// moves on where the kernel waited for is compiled.
    pub fn update(&mut self, init: KernelStatus, update: KernelStatus)
        requires
            !fatal(old(self).state(), init),
        ensures
            final(self).state() == step(old(self).state(), init, update),
    {
        proof {
            use_type_invariant(&*self);
        }
        let next = match self.state {
            AudiolinkState::Loading => match init {
                KernelStatus::Compiled => AudiolinkState::Init,
                _ => AudiolinkState::Loading,
            },
            AudiolinkState::Init => match update {
                KernelStatus::Compiled => AudiolinkState::Update(1),
                _ => AudiolinkState::Init,
            },
            AudiolinkState::Update(role) => if role == 0 {
                AudiolinkState::Update(1)
            } else {
                AudiolinkState::Update(0)
            },
        };
        self.state = next;
    }

    /// What the render pass of this tick dispatches: nothing while loading, the
    /// `init` kernel with bind group 0 while initialising, the `update` kernel
    /// with the bind group of the state after that, always over the whole image.
    pub fn run(&self) -> (dispatch: Option<Dispatch>)
        ensures
            dispatch == dispatch_for(self.state()),
            dispatch matches Some(d) ==> d.bind_group < 2 && d.read == published_for(self.state())
                && d.write != d.read,
    {
        proof {
            use_type_invariant(self);
        }
        match self.state {
            AudiolinkState::Loading => None,
            AudiolinkState::Init => {
                let images = bind_group_images(0);
                Some(
                    Dispatch {
                        kernel: Kernel::Init,
                        bind_group: 0,
                        read: images.0,
                        write: images.1,
                        workgroups_x: AUDIOLINK_WIDTH / WORKGROUP_SIZE,
                        workgroups_y: AUDIOLINK_HEIGHT / WORKGROUP_SIZE,
                        workgroups_z: 1,
                    },
                )
            },
            AudiolinkState::Update(role) => {
                let images = bind_group_images(role);
                Some(
                    Dispatch {
                        kernel: Kernel::Update,
                        bind_group: role,
                        read: images.0,
                        write: images.1,
                        workgroups_x: AUDIOLINK_WIDTH / WORKGROUP_SIZE,
                        workgroups_y: AUDIOLINK_HEIGHT / WORKGROUP_SIZE,
                        workgroups_z: 1,
                    },
                )
            },
        }
    }

    /// The image that consumers are shown in this tick.
    pub fn published(&self) -> (slot: ImageSlot)
        ensures
            slot == published_for(self.state()),
    {
        match self.state {
            AudiolinkState::Update(role) => if role == 0 {
                ImageSlot::A
            } else {
                ImageSlot::B
            },
            _ => ImageSlot::A,
        }
    }
}

} // verus!
