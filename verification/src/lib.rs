//! The decision core of a camera application: which cameras and modes there are, how pictures are
//! packed, which pipelines run, and how the application answers what happens to it.

pub mod camera;
pub mod camera_laws;
pub mod errors;
pub mod frame;
pub mod framerate;
pub mod mode;
pub mod mode_laws;
pub mod mode_list;
pub mod model;
pub mod model_laws;
pub mod path_laws;
pub mod paths;
pub mod photo;
pub mod picture_laws;
pub mod pipeline;
pub mod pipeline_laws;
pub mod preview;
pub mod rate_laws;
pub mod rate_order;
pub mod startup;
pub mod startup_laws;
pub mod text;
pub mod text_laws;
pub mod update_laws;
