pub mod codec;
pub mod codec_config;
pub mod codec_enums;
pub mod codec_output;
pub mod codec_rules;
pub mod codec_source;
pub mod multiplier;
pub mod settings;
