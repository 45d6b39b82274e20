//! What the image viewer does at each turn of its window's event loop.

use vstd::prelude::*;

verus! {

/// A window's inner size in physical pixels.
#[derive(Clone, Copy, Debug, PartialEq, Eq, Structural)]
pub struct Size {
    pub width: u32,
    pub height: u32,
}

/// What the input helper gathered from the events up to the end of a
/// frame.
#[derive(Clone, Copy, Debug, PartialEq, Eq, Structural)]
pub struct InputSummary {
    /// Escape was pressed or the window was asked to close.
    pub close_requested: bool,
    /// The window's scale factor changed.
    pub scale_factor_changed: bool,
    /// The window's new inner size, where it was resized.
    pub resized: Option<Size>,
    /// The left arrow or `A` is held down.
    pub left_held: bool,
}

/// What the viewer does after one event, in this order: report a changed
/// scale factor, resize the pixel surface, report the left key, then leave
/// the event loop or ask for a redraw.
#[derive(Clone, Copy, Debug, PartialEq, Eq, Structural)]
pub struct FrameActions {
    pub report_scale_factor: bool,
    pub resize: Option<Size>,
    pub report_left: bool,
    pub exit: bool,
    pub request_redraw: bool,
}

/// The actions after one event. `drew_image` tells whether a new message
/// was drawn into the frame; `render_failed` whether rendering, done on a
/// redraw request, failed; `input` is what the input helper gathered when
/// it reports the end of a frame; `ros_ok` whether the ROS node still runs.
/// A failed render or a close request ends the loop at once; otherwise the
/// input is acted on, and the loop ends if ROS has shut down, or else asks
/// for a redraw where an image was drawn or input was gathered.
pub fn frame_actions(
    drew_image: bool,
    render_failed: bool,
    input: Option<InputSummary>,
    ros_ok: bool,
) -> (a: FrameActions)
    ensures
        render_failed ==> a == (FrameActions {
            report_scale_factor: false,
            resize: None,
            report_left: false,
            exit: true,
            request_redraw: false,
        }),
        !render_failed ==> match input {
            Some(s) => if s.close_requested {
                a == (FrameActions {
                    report_scale_factor: false,
                    resize: None,
                    report_left: false,
                    exit: true,
                    request_redraw: false,
                })
            } else {
                a == (FrameActions {
                    report_scale_factor: s.scale_factor_changed,
                    resize: s.resized,
                    report_left: s.left_held,
                    exit: !ros_ok,
                    request_redraw: ros_ok,
                })
            },
            None => a == (FrameActions {
                report_scale_factor: false,
                resize: None,
                report_left: false,
                exit: !ros_ok,
                request_redraw: ros_ok && drew_image,
            }),
        },
{
    let mut actions = FrameActions {
        report_scale_factor: false,
        resize: None,
        report_left: false,
        exit: false,
        request_redraw: false,
    };
    let mut do_request = drew_image;
    if render_failed {
        actions.exit = true;
        return actions;
    }
    if let Some(s) = input {
        if s.close_requested {
            actions.exit = true;
            return actions;
        }
        actions.report_scale_factor = s.scale_factor_changed;
        actions.resize = s.resized;
        actions.report_left = s.left_held;
        do_request = true;
    }
    if !ros_ok {
        actions.exit = true;
        return actions;
    }
    actions.request_redraw = do_request;
    actions
}

} // verus!
