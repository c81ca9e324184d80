pub mod spring_bone_parser;
pub mod vkw_loader;
pub mod vrm_loader;
