//! The skeletal-animation document. The frames are kept as the raw
//! component streams of the file; nothing here decodes them.
use crate::md5::decimal::{
    Decimal, DecimalView, Quaternion, QuaternionView, Vector3, Vector3View,
};
use vstd::prelude::*;

verus! {

pub struct JointView {
    pub name: Seq<char>,
    pub index: i32,
    pub flag: i32,
    pub start_index: i32,
}

/// A joint of the hierarchy: the index of its parent, the flags that say
/// which of its components are animated, and where its components start
/// in a frame.
#[derive(Clone, Debug, PartialEq, Eq)]
pub struct Joint {
    pub name: String,
    pub index: i32,
    pub flag: i32,
    pub start_index: i32,
}

impl DeepView for Joint {
    type V = JointView;

    open spec fn deep_view(&self) -> JointView {
        JointView {
            name: self.name@,
            index: self.index,
            flag: self.flag,
            start_index: self.start_index,
        }
    }
}

pub struct BoundView {
    pub bound_min: Vector3View,
    pub bound_max: Vector3View,
}

/// The bounding box of one frame.
#[derive(Clone, Debug, PartialEq, Eq)]
pub struct Bound {
    pub bound_min: Vector3,
    pub bound_max: Vector3,
}

impl DeepView for Bound {
    type V = BoundView;

    open spec fn deep_view(&self) -> BoundView {
        BoundView { bound_min: self.bound_min.deep_view(), bound_max: self.bound_max.deep_view() }
    }
}

pub struct BaseFrameView {
    pub position: Seq<Vector3View>,
    pub orientation: Seq<QuaternionView>,
}

/// The base pose: one position and one orientation per joint.
#[derive(Clone, Debug, PartialEq, Eq)]
pub struct BaseFrame {
    pub position: Vec<Vector3>,
    pub orientation: Vec<Quaternion>,
}

impl DeepView for BaseFrame {
    type V = BaseFrameView;

    open spec fn deep_view(&self) -> BaseFrameView {
        BaseFrameView {
            position: self.position.deep_view(),
            orientation: self.orientation.deep_view(),
        }
    }
}

pub struct FrameView {
    pub frame_number: u32,
    pub frame_data: Seq<DecimalView>,
}

/// One frame: its number and its raw component stream.
#[derive(Clone, Debug, PartialEq, Eq)]
pub struct Frame {
    pub frame_number: u32,
    pub frame_data: Vec<Decimal>,
}

impl DeepView for Frame {
    type V = FrameView;

    open spec fn deep_view(&self) -> FrameView {
        FrameView { frame_number: self.frame_number, frame_data: self.frame_data.deep_view() }
    }
}

pub struct Md5AnimView {
    pub version: i32,
    pub command_line: Seq<char>,
    pub num_frames: i32,
    pub num_joints: i32,
    pub frame_rate: i32,
    pub num_animated_components: i32,
    pub hierarchies: Seq<JointView>,
    pub bounds: Seq<BoundView>,
    pub base_frame: BaseFrameView,
    pub frames: Seq<FrameView>,
}

/// A whole animation document.
#[derive(Clone, Debug, PartialEq, Eq)]
pub struct Md5Anim {
    pub version: i32,
    pub command_line: String,
    pub num_frames: i32,
    pub num_joints: i32,
    pub frame_rate: i32,
    pub num_animated_components: i32,
    pub hierarchies: Vec<Joint>,
    pub bounds: Vec<Bound>,
    pub base_frame: BaseFrame,
    pub frames: Vec<Frame>,
}

impl DeepView for Md5Anim {
    type V = Md5AnimView;

    open spec fn deep_view(&self) -> Md5AnimView {
        Md5AnimView {
            version: self.version,
            command_line: self.command_line@,
            num_frames: self.num_frames,
            num_joints: self.num_joints,
            frame_rate: self.frame_rate,
            num_animated_components: self.num_animated_components,
            hierarchies: self.hierarchies.deep_view(),
            bounds: self.bounds.deep_view(),
            base_frame: self.base_frame.deep_view(),
            frames: self.frames.deep_view(),
        }
    }
}

} // verus!
