pub mod decoded;
pub mod thumb_runtime;
pub mod thumb_decode;
pub mod thumb_text;
pub mod thumb_exec;
pub mod thumb_step;
pub mod opcode;
pub mod instructions;
pub mod instruction;
