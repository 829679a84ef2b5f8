use vstd::prelude::*;

verus! {

/// The handle of the graphics client created on the device.
#[derive(Debug, Clone, Copy, PartialEq, Eq, Structural)]
pub struct MagicLeapGraphicsHandle(pub u64);

/// What the device reports of one virtual camera when a frame begins.
#[derive(Debug, Clone, Copy, PartialEq, Eq, Structural)]
pub struct VirtualCameraInfo {
    pub virtual_camera_name: i32,
    pub sync_object: u64,
}

/// What the device reports when a frame begins.
pub struct GraphicsFrameInfo {
    pub handle: u64,
    pub color_id: u64,
    pub num_virtual_cameras: u32,
    pub virtual_cameras: Vec<VirtualCameraInfo>,
    pub wait_sync_object: u64,
}

/// What ending a frame needs: the frame's handle and the semaphores to signal.
#[derive(Clone)]
pub struct MagicLeapOneFrameHandles {
    pub frame_handle: u64,
    pub semaphore_handles: Vec<u64>,
}

/// What beginning a frame yields: the handles kept to end it, and the texture
/// views the frame is presented in, one per virtual camera.
pub struct FrameStart {
    pub handles: MagicLeapOneFrameHandles,
    pub present_views: Vec<u32>,
}

/// The texture view handle that view `handle` of a frame with color buffer
/// `color_id` is found under: the color buffer's id cut to 32 bits, plus `handle`.
pub open spec fn spec_frame_view_handle(color_id: u64, handle: u32) -> int {
    (color_id as u32) + handle
}

/// Whether every view handle of the frame's virtual cameras fits 32 bits.
pub open spec fn frame_view_handles_fit(info: GraphicsFrameInfo) -> bool {
    info.num_virtual_cameras == 0 || spec_frame_view_handle(
        info.color_id,
        (info.num_virtual_cameras - 1) as u32,
    ) <= u32::MAX
}

/// The texture view that a camera rendering into view `handle` is moved to
/// when a frame with color buffer `color_id` begins.
pub fn frame_view_handle(color_id: u64, handle: u32) -> (view: u32)
    requires
        spec_frame_view_handle(color_id, handle) <= u32::MAX,
    ensures
        view == spec_frame_view_handle(color_id, handle),
{
    let base: u32 = color_id as u32;
    base + handle
}

/// The frame view handle is the arithmetic sum of the color buffer's id
/// taken modulo 2^32 and the view index: consecutive views of one frame get
/// consecutive handles, and distinct views get distinct handles.
pub proof fn lemma_frame_view_handle_is_sum(color_id: u64, a: u32, b: u32)
    ensures
        spec_frame_view_handle(color_id, a) == (color_id as int) % 0x1_0000_0000 + a,
        spec_frame_view_handle(color_id, a) == spec_frame_view_handle(color_id, 0) + a,
        a != b ==> spec_frame_view_handle(color_id, a) != spec_frame_view_handle(color_id, b),
{
    assert((color_id as u32) as int == (color_id as int) % 0x1_0000_0000) by (bit_vector);
}

/// What is kept from a frame that began: the frame's handle; as semaphores,
/// the sync object of each reported virtual camera in order, then the frame's
/// wait sync object; and as presented views, the frame view handle of each
/// virtual camera index.
pub fn frame_start(info: &GraphicsFrameInfo) -> (start: FrameStart)
    requires
        info.num_virtual_cameras <= info.virtual_cameras.len(),
        frame_view_handles_fit(*info),
    ensures
        start.handles.frame_handle == info.handle,
        start.handles.semaphore_handles@.len() == info.num_virtual_cameras + 1,
        forall|n: int|
            0 <= n < info.num_virtual_cameras ==> #[trigger] start.handles.semaphore_handles@[n]
                == info.virtual_cameras@[n].sync_object,
        start.handles.semaphore_handles@[info.num_virtual_cameras as int] == info.wait_sync_object,
        start.present_views@.len() == info.num_virtual_cameras,
        forall|n: int|
            0 <= n < info.num_virtual_cameras ==> #[trigger] start.present_views@[n]
                == spec_frame_view_handle(info.color_id, n as u32),
{
    let mut present_views: Vec<u32> = Vec::new();
    let mut sync_handles: Vec<u64> = Vec::new();
    let mut n: u32 = 0;
    while n < info.num_virtual_cameras
        invariant
            n <= info.num_virtual_cameras <= info.virtual_cameras.len(),
            frame_view_handles_fit(*info),
            sync_handles@.len() == n,
            present_views@.len() == n,
            forall|m: int|
                0 <= m < n ==> #[trigger] sync_handles@[m] == info.virtual_cameras@[m].sync_object,
            forall|m: int|
                0 <= m < n ==> #[trigger] present_views@[m] == spec_frame_view_handle(
                    info.color_id,
                    m as u32,
                ),
        decreases info.num_virtual_cameras - n,
    {
        let camera = info.virtual_cameras[n as usize];
        present_views.push(frame_view_handle(info.color_id, n));
        sync_handles.push(camera.sync_object);
        n = n + 1;
    }
    sync_handles.push(info.wait_sync_object);
    FrameStart {
        handles: MagicLeapOneFrameHandles { frame_handle: info.handle, semaphore_handles: sync_handles },
        present_views,
    }
}

/// One registration of a texture view of the render targets: the handle it
/// is registered under, the render target buffer and the layer it views.
#[derive(Debug, Clone, Copy, PartialEq, Eq, Structural)]
pub struct ViewRegistration {
    pub handle: u32,
    pub buffer: usize,
    pub layer: u32,
}

/// The registrations made for one buffer, layer by layer: each layer under
/// its own index, then under the buffer's id cut to 32 bits plus the layer.
pub open spec fn spec_buffer_registrations(buffer: usize, color_id: u64, layers: nat) -> Seq<
    ViewRegistration,
>
    decreases layers,
{
    if layers == 0 {
        Seq::empty()
    } else {
        let layer = (layers - 1) as nat;
        spec_buffer_registrations(buffer, color_id, layer) + seq![
            ViewRegistration { handle: layer as u32, buffer, layer: layer as u32 },
            ViewRegistration {
                handle: ((color_id as u32) + layer) as u32,
                buffer,
                layer: layer as u32,
            },
        ]
    }
}

/// The registrations made for the buffers with the given color ids, buffer
/// by buffer, in order.
pub open spec fn spec_view_registrations(color_ids: Seq<u64>, layers: nat) -> Seq<ViewRegistration>
    decreases color_ids.len(),
{
    if color_ids.len() == 0 {
        Seq::empty()
    } else {
        let last = (color_ids.len() - 1) as int;
        spec_view_registrations(color_ids.subrange(0, last), layers) + spec_buffer_registrations(
            last as usize,
            color_ids[last],
            layers,
        )
    }
}

proof fn lemma_buffer_registrations(buffer: usize, color_id: u64, layers: nat, j: int)
    requires
        0 <= j < layers,
    ensures
        spec_buffer_registrations(buffer, color_id, layers).len() == 2 * layers,
        spec_buffer_registrations(buffer, color_id, layers)[2 * j] == (ViewRegistration {
            handle: (j as nat) as u32,
            buffer,
            layer: (j as nat) as u32,
        }),
        spec_buffer_registrations(buffer, color_id, layers)[2 * j + 1] == (ViewRegistration {
            handle: ((color_id as u32) + (j as nat)) as u32,
            buffer,
            layer: (j as nat) as u32,
        }),
    decreases layers,
{
    let before = (layers - 1) as nat;
    lemma_buffer_registrations_len(buffer, color_id, before);
    let front = spec_buffer_registrations(buffer, color_id, before);
    let whole = spec_buffer_registrations(buffer, color_id, layers);
    assert(whole == front + seq![
        ViewRegistration { handle: before as u32, buffer, layer: before as u32 },
        ViewRegistration {
            handle: ((color_id as u32) + before) as u32,
            buffer,
            layer: before as u32,
        },
    ]);
    if j < before {
        lemma_buffer_registrations(buffer, color_id, before, j);
    }
}

proof fn lemma_buffer_registrations_len(buffer: usize, color_id: u64, layers: nat)
    ensures
        spec_buffer_registrations(buffer, color_id, layers).len() == 2 * layers,
    decreases layers,
{
    if layers > 0 {
        lemma_buffer_registrations_len(buffer, color_id, (layers - 1) as nat);
    }
}

proof fn lemma_view_registrations_len(color_ids: Seq<u64>, layers: nat)
    ensures
        spec_view_registrations(color_ids, layers).len() == 2 * layers * color_ids.len(),
    decreases color_ids.len(),
{
    if color_ids.len() > 0 {
        let last = (color_ids.len() - 1) as int;
        lemma_view_registrations_len(color_ids.subrange(0, last), layers);
        lemma_buffer_registrations_len(last as usize, color_ids[last], layers);
        assert(2 * layers * color_ids.len() == 2 * layers * last + 2 * layers) by (nonlinear_arith)
            requires
                last == color_ids.len() - 1,
        ;
    }
}

/// The registrations of the render targets, in order: for buffer `i` and
/// layer `j`, first the view under handle `j`, then the view under the very
/// handle that a frame with that buffer's color id presents layer `j` in;
/// two registrations per buffer and layer, nothing else.
pub proof fn lemma_view_registrations_layout(color_ids: Seq<u64>, layers: nat, i: int, j: int)
    requires
        layers <= u32::MAX,
        color_ids.len() <= usize::MAX,
        view_handles_fit(color_ids, layers as u32),
        0 <= i < color_ids.len(),
        0 <= j < layers,
    ensures
        spec_view_registrations(color_ids, layers).len() == 2 * layers * color_ids.len(),
        spec_view_registrations(color_ids, layers)[2 * (i * layers + j)] == (ViewRegistration {
            handle: j as u32,
            buffer: i as usize,
            layer: j as u32,
        }),
        spec_view_registrations(color_ids, layers)[2 * (i * layers + j) + 1].handle
            == spec_frame_view_handle(color_ids[i], j as u32),
        spec_view_registrations(color_ids, layers)[2 * (i * layers + j) + 1].buffer == i,
        spec_view_registrations(color_ids, layers)[2 * (i * layers + j) + 1].layer == j,
    decreases color_ids.len(),
{
    lemma_view_registrations_len(color_ids, layers);
    let last = (color_ids.len() - 1) as int;
    let prefix = color_ids.subrange(0, last);
    lemma_view_registrations_len(prefix, layers);
    let whole = spec_view_registrations(color_ids, layers);
    let front = spec_view_registrations(prefix, layers);
    assert(whole == front + spec_buffer_registrations(last as usize, color_ids[last], layers));
    assert(i * layers + j < (i + 1) * layers) by (nonlinear_arith)
        requires
            j < layers,
    ;
    if i < last {
        assert(view_handles_fit(prefix, layers as u32));
        lemma_view_registrations_layout(prefix, layers, i, j);
        assert((i + 1) * layers <= last * layers) by (nonlinear_arith)
            requires
                i < last,
                layers >= 0,
        ;
        assert(2 * layers * last == 2 * (last * layers)) by (nonlinear_arith);
        assert(2 * (i * layers + j) + 1 < front.len());
        assert(prefix[i] == color_ids[i]);
    } else {
        lemma_buffer_registrations(last as usize, color_ids[last], layers, j);
        assert(2 * (i * layers + j) == 2 * layers * last + 2 * j) by (nonlinear_arith)
            requires
                i == last,
        ;
        assert(front.len() == 2 * layers * last);
        let c = color_ids[i];
        assert((c as u32) + (j as u32) <= u32::MAX) by {
            assert(layers == 0 || (color_ids[i] as u32) + (layers as u32) - 1 <= u32::MAX);
        }
    }
}

/// Whether every id-based view handle of every buffer fits 32 bits.
pub open spec fn view_handles_fit(color_ids: Seq<u64>, layers: u32) -> bool {
    forall|i: int|
        0 <= i < color_ids.len() ==> layers == 0 || (#[trigger] color_ids[i] as u32) + layers - 1
            <= u32::MAX
}

/// The texture view registrations of the render targets, in the order they
/// are made: for each buffer, for each layer (one per virtual camera), the
/// view of that layer under the layer's index and under the buffer's id cut
/// to 32 bits plus the layer. A later registration under a handle replaces
/// an earlier one.
pub fn view_registrations(color_ids: &Vec<u64>, layers: u32) -> (registrations: Vec<
    ViewRegistration,
>)
    requires
        view_handles_fit(color_ids@, layers),
    ensures
        registrations@ == spec_view_registrations(color_ids@, layers as nat),
{
    let mut registrations: Vec<ViewRegistration> = Vec::new();
    let mut i: usize = 0;
    while i < color_ids.len()
        invariant
            i <= color_ids.len(),
            view_handles_fit(color_ids@, layers),
            registrations@ == spec_view_registrations(color_ids@.subrange(0, i as int), layers as nat),
        decreases color_ids.len() - i,
    {
        let color_id = color_ids[i];
        let base: u32 = color_id as u32;
        let ghost before = registrations@;
        let mut j: u32 = 0;
        while j < layers
            invariant
                i < color_ids.len(),
                color_id == color_ids@[i as int],
                base == color_id as u32,
                j <= layers,
                layers == 0 || base + layers - 1 <= u32::MAX,
                registrations@ == before + spec_buffer_registrations(i, color_id, j as nat),
            decreases layers - j,
        {
            registrations.push(ViewRegistration { handle: j, buffer: i, layer: j });
            registrations.push(ViewRegistration { handle: base + j, buffer: i, layer: j });
            j = j + 1;
        }
        proof {
            let next = color_ids@.subrange(0, i + 1);
            assert(next.subrange(0, i as int) == color_ids@.subrange(0, i as int));
            assert(next[i as int] == color_id);
        }
        i = i + 1;
    }
    assert(color_ids@.subrange(0, color_ids.len() as int) == color_ids@);
    registrations
}

/// The size of a render target texture: the buffer's width and height, and
/// one array layer per virtual camera.
#[derive(Debug, Clone, Copy, PartialEq, Eq, Structural)]
pub struct TextureExtent {
    pub width: u32,
    pub height: u32,
    pub depth_or_array_layers: u32,
}

/// The size of the texture made from a render target buffer.
pub fn render_target_extent(width: u32, height: u32, num_virtual_cameras: u32) -> (extent:
    TextureExtent)
    ensures
        extent == (TextureExtent { width, height, depth_or_array_layers: num_virtual_cameras }),
{
    TextureExtent { width, height, depth_or_array_layers: num_virtual_cameras }
}

} // verus!
