//! Frames: the messages of the protocol, each a nine-byte header and a body.

pub mod flag;
pub mod frame_error;
pub mod frame_layout;
pub mod opcode;
pub mod parser;
pub mod parser_async;
pub mod version;

pub use self::flag::Flag;
pub use self::frame_layout::{Frame, FrameHeader};
pub use self::opcode::Opcode;
pub use self::parser::parse_frame;
pub use self::parser_async::{convert_frame_into_result, parse_frame_async};
pub use self::version::{Direction, Version};
