//! Typed ROS ↔ bus message mappers of the bridge, one unit type per ROS message.
//!
//! Their conversions run against the ROS client library's generated types;
//! here stand the mapper types themselves and the ROS type names that the
//! mappers declare.
use vstd::prelude::*;

verus! {
/// Mapper of `trajectory_msgs/msg/JointTrajectory`.
#[derive(Clone, Copy, Debug, Default)]
pub struct TrajectoryMsgsJointTrajectoryMapper;

/// Mapper of `trajectory_msgs/msg/JointTrajectoryPoint`.
#[derive(Clone, Copy, Debug, Default)]
pub struct TrajectoryMsgsJointTrajectoryPointMapper;

/// Mapper of `trajectory_msgs/msg/MultiDOFJointTrajectory`.
#[derive(Clone, Copy, Debug, Default)]
pub struct TrajectoryMsgsMultiDofJointTrajectoryMapper;

/// Mapper of `trajectory_msgs/msg/MultiDOFJointTrajectoryPoint`.
#[derive(Clone, Copy, Debug, Default)]
pub struct TrajectoryMsgsMultiDofJointTrajectoryPointMapper;

/// Mapper of `unique_identifier_msgs/msg/UUID`.
#[derive(Clone, Copy, Debug, Default)]
pub struct UniqueIdentifierMsgsUuidMapper;

/// Mapper of `visualization_msgs/msg/ImageMarker`.
#[derive(Clone, Copy, Debug, Default)]
pub struct VisualizationMsgsImageMarkerMapper;

/// Mapper of `visualization_msgs/msg/InteractiveMarker`.
#[derive(Clone, Copy, Debug, Default)]
pub struct VisualizationMsgsInteractiveMarkerMapper;

/// Mapper of `visualization_msgs/msg/InteractiveMarkerControl`.
#[derive(Clone, Copy, Debug, Default)]
pub struct VisualizationMsgsInteractiveMarkerControlMapper;

/// Mapper of `visualization_msgs/msg/InteractiveMarkerFeedback`.
#[derive(Clone, Copy, Debug, Default)]
pub struct VisualizationMsgsInteractiveMarkerFeedbackMapper;

/// Mapper of `visualization_msgs/msg/InteractiveMarkerInit`.
#[derive(Clone, Copy, Debug, Default)]
pub struct VisualizationMsgsInteractiveMarkerInitMapper;

/// Mapper of `visualization_msgs/msg/InteractiveMarkerPose`.
#[derive(Clone, Copy, Debug, Default)]
pub struct VisualizationMsgsInteractiveMarkerPoseMapper;

/// Mapper of `visualization_msgs/msg/InteractiveMarkerUpdate`.
#[derive(Clone, Copy, Debug, Default)]
pub struct VisualizationMsgsInteractiveMarkerUpdateMapper;

/// Mapper of `visualization_msgs/msg/Marker`.
#[derive(Clone, Copy, Debug, Default)]
pub struct VisualizationMsgsMarkerMapper;

/// Mapper of `visualization_msgs/msg/MarkerArray`.
#[derive(Clone, Copy, Debug, Default)]
pub struct VisualizationMsgsMarkerArrayMapper;

/// Mapper of `visualization_msgs/msg/MenuEntry`.
#[derive(Clone, Copy, Debug, Default)]
pub struct VisualizationMsgsMenuEntryMapper;

/// Mapper of `visualization_msgs/msg/MeshFile`.
#[derive(Clone, Copy, Debug, Default)]
pub struct VisualizationMsgsMeshFileMapper;

impl VisualizationMsgsMeshFileMapper {
    /// ROS type name the mapper declares.
    pub fn ros_type(&self) -> (r: &'static str)
        ensures
            r@ == "visualization_msgs/msg/MeshFile"@,
    {
        "visualization_msgs/msg/MeshFile"
    }
}

/// Mapper of `visualization_msgs/msg/UVCoordinate`.
#[derive(Clone, Copy, Debug, Default)]
pub struct VisualizationMsgsUvCoordinateMapper;

impl VisualizationMsgsUvCoordinateMapper {
    /// ROS type name the mapper declares.
    pub fn ros_type(&self) -> (r: &'static str)
        ensures
            r@ == "visualization_msgs/msg/UVCoordinate"@,
    {
        "visualization_msgs/msg/UVCoordinate"
    }
}

} // verus!
