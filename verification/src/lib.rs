//! Verified decision logic and pixel-buffer conversions of the squirrel
//! scanner: the camera capture loop, the supervisor loops of the camera and
//! of the web server, and the YUV 4:2:2 to RGB24 buffer layouts.

pub mod text;
pub mod yuv;
pub mod camera;
pub mod supervisor;
