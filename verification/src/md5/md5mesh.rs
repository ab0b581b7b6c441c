//! The skeletal-mesh document.
use crate::md5::decimal::{
    Decimal, DecimalView, Quaternion, QuaternionView, Vector2, Vector2View, Vector3, Vector3View,
};
use crate::md5::sorting::{ascending, Indexed};
use vstd::prelude::*;

verus! {

pub struct JointView {
    pub name: Seq<char>,
    pub parent_index: i32,
    pub position: Vector3View,
    pub orientation: QuaternionView,
}

/// A joint of the bind pose. A parent index of -1 marks a root.
#[derive(Clone, Debug, PartialEq, Eq)]
pub struct Joint {
    pub name: String,
    pub parent_index: i32,
    pub position: Vector3,
    pub orientation: Quaternion,
}

impl DeepView for Joint {
    type V = JointView;

    open spec fn deep_view(&self) -> JointView {
        JointView {
            name: self.name@,
            parent_index: self.parent_index,
            position: self.position.deep_view(),
            orientation: self.orientation.deep_view(),
        }
    }
}

pub struct VertexView {
    pub index: u32,
    pub tex_coords: Vector2View,
    pub start_weight: u32,
    pub weight_count: u32,
}

/// A vertex: its texture coordinates and its run in the weight list.
#[derive(Clone, Debug, PartialEq, Eq)]
pub struct Vertex {
    pub index: u32,
    pub tex_coords: Vector2,
    pub start_weight: u32,
    pub weight_count: u32,
}

impl DeepView for Vertex {
    type V = VertexView;

    open spec fn deep_view(&self) -> VertexView {
        VertexView {
            index: self.index,
            tex_coords: self.tex_coords.deep_view(),
            start_weight: self.start_weight,
            weight_count: self.weight_count,
        }
    }
}

impl Indexed for Vertex {
    open spec fn key_of(v: VertexView) -> u32 {
        v.index
    }

    fn key(&self) -> (k: u32) {
        self.index
    }
}

/// A triangle: three vertices, named by their stored index.
#[derive(Clone, Copy, Debug, PartialEq, Eq)]
pub struct Triangle {
    pub index: u32,
    pub vertex_indices: (u32, u32, u32),
}

impl DeepView for Triangle {
    type V = Triangle;

    open spec fn deep_view(&self) -> Triangle {
        *self
    }
}

impl Indexed for Triangle {
    open spec fn key_of(v: Triangle) -> u32 {
        v.index
    }

    fn key(&self) -> (k: u32) {
        self.index
    }
}

pub struct WeightView {
    pub index: u32,
    pub joint_index: u32,
    pub bias: DecimalView,
    pub position: Vector3View,
}

/// A weight: a joint, a position in that joint's space, and the share
/// that it has in a vertex.
#[derive(Clone, Debug, PartialEq, Eq)]
pub struct Weight {
    pub index: u32,
    pub joint_index: u32,
    pub bias: Decimal,
    pub position: Vector3,
}

impl DeepView for Weight {
    type V = WeightView;

    open spec fn deep_view(&self) -> WeightView {
        WeightView {
            index: self.index,
            joint_index: self.joint_index,
            bias: self.bias.deep_view(),
            position: self.position.deep_view(),
        }
    }
}

impl Indexed for Weight {
    open spec fn key_of(v: WeightView) -> u32 {
        v.index
    }

    fn key(&self) -> (k: u32) {
        self.index
    }
}

pub struct MeshView {
    pub shader: Seq<char>,
    pub vertices: Seq<VertexView>,
    pub triangles: Seq<Triangle>,
    pub weights: Seq<WeightView>,
}

impl MeshView {
    /// The three lists are in ascending order of stored index.
    pub open spec fn sorted(self) -> bool {
        ascending::<Vertex>(self.vertices) && ascending::<Triangle>(self.triangles)
            && ascending::<Weight>(self.weights)
    }
}

/// One submesh.
#[derive(Clone, Debug, PartialEq, Eq)]
pub struct Mesh {
    pub shader: String,
    pub vertices: Vec<Vertex>,
    pub triangles: Vec<Triangle>,
    pub weights: Vec<Weight>,
}

impl DeepView for Mesh {
    type V = MeshView;

    open spec fn deep_view(&self) -> MeshView {
        MeshView {
            shader: self.shader@,
            vertices: self.vertices.deep_view(),
            triangles: self.triangles.deep_view(),
            weights: self.weights.deep_view(),
        }
    }
}

pub struct Md5MeshView {
    pub version: u8,
    pub command_line: Seq<char>,
    pub joints: Seq<JointView>,
    pub meshes: Seq<MeshView>,
}

impl Md5MeshView {
    /// Every submesh is sorted.
    #[verifier::opaque]
    pub open spec fn sorted(self) -> bool {
        forall|k: int| 0 <= k < self.meshes.len() ==> (#[trigger] self.meshes[k]).sorted()
    }
}

/// A whole mesh document.
#[derive(Clone, Debug, PartialEq, Eq)]
pub struct Md5Mesh {
    pub version: u8,
    pub command_line: String,
    pub joints: Vec<Joint>,
    pub meshes: Vec<Mesh>,
}

impl DeepView for Md5Mesh {
    type V = Md5MeshView;

    open spec fn deep_view(&self) -> Md5MeshView {
        Md5MeshView {
            version: self.version,
            command_line: self.command_line@,
            joints: self.joints.deep_view(),
            meshes: self.meshes.deep_view(),
        }
    }
}

} // verus!
