pub mod decimal;
pub mod md5anim;
pub mod md5anim_parser;
pub mod md5common_parser;
pub mod md5mesh;
pub mod md5mesh_parser;
pub mod sorting;
