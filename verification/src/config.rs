//! Capture configuration: the values a run is set up from.

use vstd::prelude::*;
use crate::text::{bounded_value, parse_u32, parse_usize};

verus! {

/// Number of device buffers that a capture stream cycles through.
pub const BUFFER_COUNT: u32 = 4;

/// A ratio of two whole numbers.
#[derive(Clone, Copy, Debug, PartialEq, Eq, Structural)]
pub struct Fraction {
    pub numerator: u32,
    pub denominator: u32,
}

/// What is asked of the capture device, or what it has agreed to.
#[derive(Clone, Copy, Debug, PartialEq, Eq)]
pub struct CaptureConfig {
    /// Frame width in pixels.
    pub width: u32,
    /// Frame height in pixels.
    pub height: u32,
    /// Time between two frames, in seconds.
    pub frame_interval: Fraction,
    /// The four-byte code of the pixel format.
    pub pixel_format: [u8; 4],
}

/// Everything that the command line settles.
#[derive(Debug)]
pub struct Settings {
    /// Path of the capture device.
    pub device: String,
    /// Path of the destination.
    pub output: String,
    /// What to ask of the device.
    pub config: CaptureConfig,
    /// Frames to deliver before stopping; zero for no limit.
    pub max_frames: usize,
}

/// [`Settings`] as a mathematical value.
pub struct SettingsView {
    pub device: Seq<char>,
    pub output: Seq<char>,
    pub config: CaptureConfig,
    pub max_frames: usize,
}

impl View for Settings {
    type V = SettingsView;

    open spec fn view(&self) -> SettingsView {
        SettingsView {
            device: self.device@,
            output: self.output@,
            config: self.config,
            max_frames: self.max_frames,
        }
    }
}

/// What is wrong with a command line.
#[derive(Clone, Copy, Debug, PartialEq, Eq, Structural)]
pub enum ConfigError {
    /// The device or the destination is missing.
    Usage,
    /// The width is not a number.
    Width,
    /// The height is not a number.
    Height,
    /// The frame rate is not a number.
    Framerate,
    /// The pixel format has fewer than four bytes.
    PixelFormat,
    /// The frame limit is not a number.
    MaxFrames,
}

/// The UTF-8 bytes of a text.
pub open spec fn utf8_bytes(text: Seq<char>) -> Seq<u8> {
    vstd::utf8::encode_utf8(text)
}

/// The pixel-format code that a text names: its first four bytes, if it has
/// that many.
pub open spec fn four_bytes_of(bytes: Seq<u8>) -> Option<[u8; 4]> {
    if bytes.len() >= 4 {
        Some([bytes[0], bytes[1], bytes[2], bytes[3]])
    } else {
        None
    }
}

/// The configuration for a frame size, a frame rate and a pixel format: the
/// interval between frames is one second divided by the rate.
pub open spec fn config_for(width: u32, height: u32, framerate: u32, pixel_format: [u8; 4])
    -> CaptureConfig {
    CaptureConfig {
        width,
        height,
        frame_interval: Fraction { numerator: 1, denominator: framerate },
        pixel_format,
    }
}

/// The argument at `index` read as a number of at most `max`, or `default`
/// where the command line ends before it. `None` where it is no such number.
pub open spec fn number_at(args: Seq<Seq<char>>, index: int, max: nat, default: nat) -> Option<
    nat,
> {
    if index < args.len() {
        bounded_value(args[index], max)
    } else {
        Some(default)
    }
}

/// The pixel format that the command line names, or `MJPG` where it names
/// none. `None` where the argument is too short.
pub open spec fn pixel_format_at(args: Seq<Seq<char>>) -> Option<[u8; 4]> {
    if 6 < args.len() {
        four_bytes_of(utf8_bytes(args[6]))
    } else {
        Some([0x4du8, 0x4au8, 0x50u8, 0x47u8])
    }
}

/// What a command line settles. After the program's name come the device and
/// the destination, then, each optional, width (640), height (480), frame
/// rate (30), pixel format (`MJPG`) and frame limit (0, for none). The first
/// argument that cannot be read decides the error; arguments past the frame
/// limit count for nothing.
pub open spec fn settings_of(args: Seq<Seq<char>>) -> Result<SettingsView, ConfigError> {
    if args.len() < 3 {
        Err(ConfigError::Usage)
    } else if number_at(args, 3, u32::MAX as nat, 640) is None {
        Err(ConfigError::Width)
    } else if number_at(args, 4, u32::MAX as nat, 480) is None {
        Err(ConfigError::Height)
    } else if number_at(args, 5, u32::MAX as nat, 30) is None {
        Err(ConfigError::Framerate)
    } else if pixel_format_at(args) is None {
        Err(ConfigError::PixelFormat)
    } else if number_at(args, 7, usize::MAX as nat, 0) is None {
        Err(ConfigError::MaxFrames)
    } else {
        Ok(
            SettingsView {
                device: args[1],
                output: args[2],
                config: config_for(
                    number_at(args, 3, u32::MAX as nat, 640)->0 as u32,
                    number_at(args, 4, u32::MAX as nat, 480)->0 as u32,
                    number_at(args, 5, u32::MAX as nat, 30)->0 as u32,
                    pixel_format_at(args)->0,
                ),
                max_frames: number_at(args, 7, usize::MAX as nat, 0)->0 as usize,
            },
        )
    }
}

/// The texts of a list of strings.
pub open spec fn texts_of(args: Seq<String>) -> Seq<Seq<char>> {
    args.map_values(|arg: String| arg@)
}

impl CaptureConfig {
    /// The configuration for a frame size, a frame rate in frames per second
    /// and a pixel format.
    pub fn new(width: u32, height: u32, framerate: u32, pixel_format: [u8; 4]) -> (config:
        CaptureConfig)
        ensures
            config == config_for(width, height, framerate, pixel_format),
    {
        CaptureConfig {
            width,
            height,
            frame_interval: Fraction { numerator: 1, denominator: framerate },
            pixel_format,
        }
    }
}

/// Reads a four-byte pixel-format code from the start of `s`.
///
/// Longer strings are cut after the fourth byte; shorter ones name no code.
pub fn get_four_bytes(s: &String) -> (code: Option<[u8; 4]>)
    ensures
        code == four_bytes_of(utf8_bytes(s@)),
{
    let bytes = s.as_str().as_bytes();
    if bytes.len() >= 4 {
        Some([bytes[0], bytes[1], bytes[2], bytes[3]])
    } else {
        None
    }
}

/// Reads the command line.
pub fn parse_settings(args: &Vec<String>) -> (settings: Result<Settings, ConfigError>)
    ensures
        settings matches Ok(s) ==> settings_of(texts_of(args@)) == Ok::<SettingsView, ConfigError>(
            s@,
        ),
        settings matches Err(e) ==> settings_of(texts_of(args@)) == Err::<
            SettingsView,
            ConfigError,
        >(e),
{
    let ghost texts = texts_of(args@);
    assert(texts.len() == args@.len());
    assert forall|i: int| 0 <= i < args@.len() implies #[trigger] texts[i] == args@[i]@ by {}
    let count = args.len();
    if count < 3 {
        return Err(ConfigError::Usage);
    }
    let mut width: u32 = 640;
    let mut height: u32 = 480;
    let mut framerate: u32 = 30;
    let mut pixel_format: [u8; 4] = [0x4du8, 0x4au8, 0x50u8, 0x47u8];
    let mut max_frames: usize = 0;
    if count >= 4 {
        match parse_u32(args[3].as_str()) {
            Some(value) => {
                width = value;
            },
            None => {
                return Err(ConfigError::Width);
            },
        }
    }
    if count >= 5 {
        match parse_u32(args[4].as_str()) {
            Some(value) => {
                height = value;
            },
            None => {
                return Err(ConfigError::Height);
            },
        }
    }
    if count >= 6 {
        match parse_u32(args[5].as_str()) {
            Some(value) => {
                framerate = value;
            },
            None => {
                return Err(ConfigError::Framerate);
            },
        }
    }
    if count >= 7 {
        match get_four_bytes(&args[6]) {
            Some(code) => {
                pixel_format = code;
            },
            None => {
                return Err(ConfigError::PixelFormat);
            },
        }
    }
    if count >= 8 {
        match parse_usize(args[7].as_str()) {
            Some(value) => {
                max_frames = value;
            },
            None => {
                return Err(ConfigError::MaxFrames);
            },
        }
    }
    Ok(
        Settings {
            device: args[1].clone(),
            output: args[2].clone(),
            config: CaptureConfig::new(width, height, framerate, pixel_format),
            max_frames,
        },
    )
}

} // verus!
