use vstd::prelude::*;

verus! {

/// The role of a render camera of the headset: the combined view, or the
/// view of one eye.
#[derive(Debug, Clone, Copy, PartialEq, Eq, Structural)]
pub enum MagicLeapOneCamera {
    Combined,
    Left,
    Right,
}

/// The value handed to the camera conversion names no camera role.
#[derive(Debug, Clone, Copy, PartialEq, Eq, Structural)]
pub struct NotACameraError;

/// Whether `value` is the index of a camera role.
pub open spec fn is_camera_index(value: int) -> bool {
    -1 <= value <= 1
}

/// The role whose virtual camera index is `value`, if any.
pub open spec fn spec_camera_of_index(value: int) -> Option<MagicLeapOneCamera> {
    if value == -1 {
        Some(MagicLeapOneCamera::Combined)
    } else if value == 0 {
        Some(MagicLeapOneCamera::Left)
    } else if value == 1 {
        Some(MagicLeapOneCamera::Right)
    } else {
        None
    }
}

impl MagicLeapOneCamera {
    /// The device's virtual camera index of a role: `-1` for the combined
    /// view, `0` for the left eye, `1` for the right eye.
    pub open spec fn spec_index(self) -> int {
        match self {
            MagicLeapOneCamera::Combined => -1,
            MagicLeapOneCamera::Left => 0,
            MagicLeapOneCamera::Right => 1,
        }
    }

    /// The device's virtual camera index of this role.
    pub fn index(&self) -> (index: i32)
        ensures
            index == self.spec_index(),
    {
        match self {
            MagicLeapOneCamera::Combined => -1,
            MagicLeapOneCamera::Left => 0,
            MagicLeapOneCamera::Right => 1,
        }
    }

    /// The role whose index is `value`, or `NotACameraError` where no role has it.
    pub fn try_from(value: i32) -> (role: Result<MagicLeapOneCamera, NotACameraError>)
        ensures
            role is Ok <==> is_camera_index(value as int),
            role matches Ok(camera) ==> spec_camera_of_index(value as int) == Some(camera),
            role is Err ==> spec_camera_of_index(value as int) is None,
    {
        match value {
            -1 => Ok(MagicLeapOneCamera::Combined),
            0 => Ok(MagicLeapOneCamera::Left),
            1 => Ok(MagicLeapOneCamera::Right),
            _ => Err(NotACameraError),
        }
    }
}

/// Converting a role's index back gives the role, and a value that converts
/// to a role is that role's index: index and conversion are inverse.
pub proof fn lemma_camera_index_round_trip(camera: MagicLeapOneCamera, value: int)
    ensures
        spec_camera_of_index(camera.spec_index()) == Some(camera),
        spec_camera_of_index(value) == Some(camera) ==> camera.spec_index() == value,
        spec_camera_of_index(value) is Some <==> is_camera_index(value),
{
}

/// A camera to spawn at start-up: the texture view it renders into and its role.
#[derive(Debug, Clone, Copy, PartialEq, Eq, Structural)]
pub struct CameraSpawn {
    pub target_view: u32,
    pub role: MagicLeapOneCamera,
}

/// The role of the camera spawned for virtual camera `i`: virtual camera `i`
/// gets the role whose index is `i - 1`.
pub open spec fn spec_role_for_virtual_camera(i: int) -> MagicLeapOneCamera {
    if i == 0 {
        MagicLeapOneCamera::Combined
    } else if i == 1 {
        MagicLeapOneCamera::Left
    } else {
        MagicLeapOneCamera::Right
    }
}

/// The cameras spawned at start-up, one per virtual camera of the render
/// targets, in order: camera `i` renders into texture view `i` and has the
/// role whose index is `i - 1`. More than three virtual cameras have no
/// role each, so at most three are accepted.
pub fn camera_spawns(num_virtual_cameras: u32) -> (spawns: Vec<CameraSpawn>)
    requires
        num_virtual_cameras <= 3,
    ensures
        spawns.len() == num_virtual_cameras,
        forall|i: int|
            0 <= i < spawns.len() ==> (#[trigger] spawns@[i]).target_view == i
                && spawns@[i].role == spec_role_for_virtual_camera(i)
                && spawns@[i].role.spec_index() == i - 1,
{
    let mut spawns: Vec<CameraSpawn> = Vec::new();
    let mut i: u32 = 0;
    while i < num_virtual_cameras
        invariant
            i <= num_virtual_cameras <= 3,
            spawns.len() == i,
            forall|k: int|
                0 <= k < spawns.len() ==> (#[trigger] spawns@[k]).target_view == k
                    && spawns@[k].role == spec_role_for_virtual_camera(k)
                    && spawns@[k].role.spec_index() == k - 1,
        decreases num_virtual_cameras - i,
    {
        let index: i32 = i as i32 - 1;
        let role = match MagicLeapOneCamera::try_from(index) {
            Ok(role) => role,
            Err(_) => {
                return spawns;
            },
        };
        spawns.push(CameraSpawn { target_view: i, role });
        i = i + 1;
    }
    spawns
}

} // verus!
