pub mod dxbc_parser;
pub mod shader_transpiler;
pub mod skinning;
