//! Reading of MD5 skeletal meshes and animations, and the index and
//! bounds logic of bind-pose skinning.
pub mod error;
pub mod md5;
pub mod vertex_computation;
