//! Frame pipeline of an ASCII-art video converter: pixel conversion, text-grid
//! analysis, the glyph scaling policy and the naming of output frames.

mod driver;
mod grid;
mod naming;
mod pipeline;
mod raster;
mod render;
mod scaling;

pub use driver::{decode_step, encoder_arguments, encoder_outcome, DecodeAction, DecodeEvent, DecodePhase};
pub use grid::GridShape;
pub use naming::frame_file_name;
pub use pipeline::{scaling_failure, FramePipeline, FramePlan, PipelineError};
pub use raster::rgb_to_rgba;
pub use render::{frame_is_renderable, frame_to_ascii, rgba_to_ascii, GRID_COLUMNS};
pub use scaling::{line_top, FrameLayout, Ratio, ScalingError, ScalingState, BASE_FONT_SIZE};
