# rosrust_image

Two ROS nodes around `sensor_msgs/Image`: `image_dir_pub` publishes the
images it finds in the current directory, `image_viewer` draws the images it
receives into a window.

- `src/` is the verified library:
  - `pixel`: packing of colour channels into a 32-bit pixel and its
    big-endian bytes (written through byteorder);
  - `msg`: the image message, decoded pictures, and the `rgb8` message of a
    picture;
  - `clock`: the ROS node's clock (rosrust);
  - `viewer`: drawing an image message into a frame of 4-byte pixels, with
    the properties of that drawing and the test that its `u32` offsets fit;
  - `frame`: what the viewer does after each window event;
  - `dir_pub`: which directory entries the publisher publishes, and when it
    sleeps.
- `app/` holds the two nodes' `main`s: ROS set-up, the file system, image
  decoding, the window and its event loop.
- `tests/` runs the library on concrete values.
