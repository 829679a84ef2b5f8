use bevy_magicleap_one::camera::{camera_spawns, MagicLeapOneCamera, NotACameraError};
use bevy_magicleap_one::frame::{
    frame_start, frame_view_handle, render_target_extent, view_registrations, GraphicsFrameInfo,
    TextureExtent, ViewRegistration, VirtualCameraInfo,
};

#[test]
fn camera_indices() {
    assert_eq!(MagicLeapOneCamera::Combined.index(), -1);
    assert_eq!(MagicLeapOneCamera::Left.index(), 0);
    assert_eq!(MagicLeapOneCamera::Right.index(), 1);
}

#[test]
fn camera_from_index() {
    assert_eq!(MagicLeapOneCamera::try_from(-1), Ok(MagicLeapOneCamera::Combined));
    assert_eq!(MagicLeapOneCamera::try_from(0), Ok(MagicLeapOneCamera::Left));
    assert_eq!(MagicLeapOneCamera::try_from(1), Ok(MagicLeapOneCamera::Right));
    assert_eq!(MagicLeapOneCamera::try_from(2), Err(NotACameraError));
    assert_eq!(MagicLeapOneCamera::try_from(-2), Err(NotACameraError));
    assert_eq!(MagicLeapOneCamera::try_from(i32::MAX), Err(NotACameraError));
}

#[test]
fn camera_index_round_trip() {
    for camera in [MagicLeapOneCamera::Combined, MagicLeapOneCamera::Left, MagicLeapOneCamera::Right] {
        assert_eq!(MagicLeapOneCamera::try_from(camera.index()), Ok(camera));
    }
}

#[test]
fn three_cameras_are_spawned_with_their_roles() {
    let spawns = camera_spawns(3);
    assert_eq!(spawns.len(), 3);
    assert_eq!(spawns[0].target_view, 0);
    assert_eq!(spawns[0].role, MagicLeapOneCamera::Combined);
    assert_eq!(spawns[1].target_view, 1);
    assert_eq!(spawns[1].role, MagicLeapOneCamera::Left);
    assert_eq!(spawns[2].target_view, 2);
    assert_eq!(spawns[2].role, MagicLeapOneCamera::Right);
    assert!(camera_spawns(0).is_empty());
}

#[test]
fn frame_view_handle_adds_cut_color_id() {
    assert_eq!(frame_view_handle(100, 1), 101);
    assert_eq!(frame_view_handle(0x1_0000_0005, 2), 7);
}

#[test]
fn frame_start_collects_semaphores_and_views() {
    let info = GraphicsFrameInfo {
        handle: 42,
        color_id: 10,
        num_virtual_cameras: 2,
        virtual_cameras: vec![
            VirtualCameraInfo { virtual_camera_name: 0, sync_object: 7 },
            VirtualCameraInfo { virtual_camera_name: 1, sync_object: 8 },
        ],
        wait_sync_object: 9,
    };
    let start = frame_start(&info);
    assert_eq!(start.handles.frame_handle, 42);
    assert_eq!(start.handles.semaphore_handles, vec![7, 8, 9]);
    assert_eq!(start.present_views, vec![10, 11]);
}

#[test]
fn frame_start_without_cameras_waits_on_frame_sync_only() {
    let info = GraphicsFrameInfo {
        handle: 1,
        color_id: 0,
        num_virtual_cameras: 0,
        virtual_cameras: vec![],
        wait_sync_object: 3,
    };
    let start = frame_start(&info);
    assert_eq!(start.handles.semaphore_handles, vec![3]);
    assert!(start.present_views.is_empty());
}

#[test]
fn views_are_registered_per_buffer_and_layer() {
    let regs = view_registrations(&vec![5, 100], 2);
    let expected = vec![
        ViewRegistration { handle: 0, buffer: 0, layer: 0 },
        ViewRegistration { handle: 5, buffer: 0, layer: 0 },
        ViewRegistration { handle: 1, buffer: 0, layer: 1 },
        ViewRegistration { handle: 6, buffer: 0, layer: 1 },
        ViewRegistration { handle: 0, buffer: 1, layer: 0 },
        ViewRegistration { handle: 100, buffer: 1, layer: 0 },
        ViewRegistration { handle: 1, buffer: 1, layer: 1 },
        ViewRegistration { handle: 101, buffer: 1, layer: 1 },
    ];
    assert_eq!(regs, expected);
    assert!(view_registrations(&vec![], 3).is_empty());
    assert!(view_registrations(&vec![1, 2], 0).is_empty());
}

#[test]
fn render_target_extent_has_a_layer_per_camera() {
    assert_eq!(
        render_target_extent(1280, 960, 2),
        TextureExtent { width: 1280, height: 960, depth_or_array_layers: 2 }
    );
}
