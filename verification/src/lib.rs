//! Conversion of ROS `sensor_msgs/Image` messages to and from pixel buffers.

pub mod clock;
pub mod dir_pub;
pub mod frame;
pub mod msg;
pub mod pixel;
pub mod viewer;
