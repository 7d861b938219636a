pub mod codec;
pub mod config;
pub mod decoder;
pub mod encoder;
pub mod error;
pub mod frame;

pub use config::BlockChecksum;
pub use config::BlockMode;
pub use config::BlockSize;
pub use config::ContentChecksum;
pub use config::LZ4FFrameInfo;
pub use config::LZ4FrameType;
pub use decoder::Decode;
pub use decoder::Decoder;
pub use decoder::FrameReader;
pub use encoder::Encode;
pub use encoder::Encoder;
pub use encoder::EncoderBuilder;
pub use encoder::FrameWriter;
pub use error::Error;
pub use error::Fault;
