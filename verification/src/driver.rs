//! Per-frame pipeline: blit the decoded frame onto the canvas, scan for
//! rails, smooth the layout rail, decide and step the controller, and draw
//! the status overlay.  The surrounding program owns the devices; this
//! module owns every decision in between.

use vstd::prelude::*;

use crate::canvas::CANVAS_H;
use crate::canvas::CANVAS_W;
use crate::canvas::Canvas;
use crate::canvas::Rgb;
use crate::canvas::in_canvas;
use crate::canvas::lemma_with_pixel;
use crate::canvas::pixel_at;
use crate::control::Command;
use crate::control::ControllerState;
use crate::control::Decision;
use crate::control::MOVE_QUOTA;
use crate::control::MotorMode;
use crate::control::MotorStatus;
use crate::control::TickInput;
use crate::control::decide;
use crate::control::decide_spec;
use crate::control::step_spec;
use crate::decode::DecodedFrame;
use crate::decode::frame_px;
use crate::detect::LAYOUT_RAIL_Y;
use crate::detect::TABLE_RAIL_Y;
use crate::detect::detect;
use crate::detect::obs_layout;
use crate::detect::obs_table;
use crate::detect::row_candidates;
use crate::history::FpsHistory;
use crate::history::LayoutHistory;
use crate::history::smoothed_spec;
use crate::text::draw_text;
use crate::text::fps_text;
use crate::text::lemma_text_covers_band;
use crate::text::nl_prefix;
use crate::text::text_covers;

verus! {

/// The frame counter wraps back to zero past this count.
pub const TICK_WRAP: usize = 100000000;

/// Left edge of the right-gutter status text column.
pub const OVERLAY_X: usize = 650;

/// Top of the motor status lines.
pub const MOTOR_MSG_Y: usize = 360;

/// Top of the rail status line.
pub const RAIL_MSG_Y: usize = 420;

/// The tick after one more frame.
pub open spec fn next_tick_spec(t: int) -> int {
    if t + 1 > 100000000 {
        0
    } else {
        t + 1
    }
}

/// The rail status line for a decision.
pub open spec fn rail_message_spec(d: Decision) -> Seq<u8> {
    match d {
        // "RAILS ALIGNED"
        Decision::Aligned => seq![82u8, 65, 73, 76, 83, 32, 65, 76, 73, 71, 78, 69, 68],
        // "MOVING LEFT"
        Decision::MoveLeft => seq![77u8, 79, 86, 73, 78, 71, 32, 76, 69, 70, 84],
        // "MOVING RIGHT"
        Decision::MoveRight => seq![77u8, 79, 86, 73, 78, 71, 32, 82, 73, 71, 72, 84],
        // "[ NO RAIL ]"
        Decision::Unknown => seq![91u8, 32, 78, 79, 32, 82, 65, 73, 76, 32, 93],
    }
}

/// The colour of the rail status line: green when aligned, red when a rail
/// is missing, yellow while moving.
pub open spec fn rail_color_spec(d: Decision) -> Rgb {
    match d {
        Decision::Aligned => Rgb { r: 0, g: 255, b: 0 },
        Decision::Unknown => Rgb { r: 255, g: 0, b: 0 },
        _ => Rgb { r: 255, g: 255, b: 0 },
    }
}

/// The two motor status lines for a motor state.
pub open spec fn motor_message_spec(moving: bool, stale: bool) -> Seq<u8> {
    if stale {
        // "MOTOR STOPPED\nAUTO-MOVE OFF"
        seq![
            77u8,
            79,
            84,
            79,
            82,
            32,
            83,
            84,
            79,
            80,
            80,
            69,
            68,
            10,
            65,
            85,
            84,
            79,
            45,
            77,
            79,
            86,
            69,
            32,
            79,
            70,
            70,
        ]
    } else if moving {
        // "MOTOR MOVING\nAUTO-MOVE OFF"
        seq![
            77u8,
            79,
            84,
            79,
            82,
            32,
            77,
            79,
            86,
            73,
            78,
            71,
            10,
            65,
            85,
            84,
            79,
            45,
            77,
            79,
            86,
            69,
            32,
            79,
            70,
            70,
        ]
    } else {
        // "MOTOR STOPPED\nAUTO-MOVE ON"
        seq![
            77u8,
            79,
            84,
            79,
            82,
            32,
            83,
            84,
            79,
            80,
            80,
            69,
            68,
            10,
            65,
            85,
            84,
            79,
            45,
            77,
            79,
            86,
            69,
            32,
            79,
            78,
        ]
    }
}

/// The colour of the motor status lines: green once stale, red while
/// moving, yellow while idle with auto-move on.
pub open spec fn motor_color_spec(moving: bool, stale: bool) -> Rgb {
    if stale {
        Rgb { r: 0, g: 255, b: 0 }
    } else if moving {
        Rgb { r: 255, g: 0, b: 0 }
    } else {
        Rgb { r: 255, g: 255, b: 0 }
    }
}

/// The rail status line as drawable bytes.
pub fn rail_message(d: Decision) -> (v: Vec<u8>)
    ensures
        v@ == rail_message_spec(d),
{
    let mut v: Vec<u8> = Vec::new();
    match d {
        Decision::Aligned => {
            v.push(82);
            v.push(65);
            v.push(73);
            v.push(76);
            v.push(83);
            v.push(32);
            v.push(65);
            v.push(76);
            v.push(73);
            v.push(71);
            v.push(78);
            v.push(69);
            v.push(68);
        },
        Decision::MoveLeft => {
            v.push(77);
            v.push(79);
            v.push(86);
            v.push(73);
            v.push(78);
            v.push(71);
            v.push(32);
            v.push(76);
            v.push(69);
            v.push(70);
            v.push(84);
        },
        Decision::MoveRight => {
            v.push(77);
            v.push(79);
            v.push(86);
            v.push(73);
            v.push(78);
            v.push(71);
            v.push(32);
            v.push(82);
            v.push(73);
            v.push(71);
            v.push(72);
            v.push(84);
        },
        Decision::Unknown => {
            v.push(91);
            v.push(32);
            v.push(78);
            v.push(79);
            v.push(32);
            v.push(82);
            v.push(65);
            v.push(73);
            v.push(76);
            v.push(32);
            v.push(93);
        },
    }
    proof {
        assert(v@ =~= rail_message_spec(d));
    }
    v
}

/// The motor status lines as drawable bytes.
pub fn motor_message(moving: bool, stale: bool) -> (v: Vec<u8>)
    ensures
        v@ == motor_message_spec(moving, stale),
{
    let mut v: Vec<u8> = Vec::new();
    // "MOTOR "
    v.push(77);
    v.push(79);
    v.push(84);
    v.push(79);
    v.push(82);
    v.push(32);
    if !stale && moving {
        // "MOVING"
        v.push(77);
        v.push(79);
        v.push(86);
        v.push(73);
        v.push(78);
        v.push(71);
    } else {
        // "STOPPED"
        v.push(83);
        v.push(84);
        v.push(79);
        v.push(80);
        v.push(80);
        v.push(69);
        v.push(68);
    }
    // "\nAUTO-MOVE O"
    v.push(10);
    v.push(65);
    v.push(85);
    v.push(84);
    v.push(79);
    v.push(45);
    v.push(77);
    v.push(79);
    v.push(86);
    v.push(69);
    v.push(32);
    v.push(79);
    if !stale && !moving {
        // "N"
        v.push(78);
    } else {
        // "FF"
        v.push(70);
        v.push(70);
    }
    proof {
        assert(v@ =~= motor_message_spec(moving, stale));
    }
    v
}

/// The motor status lines hold exactly one line break, so the block they
/// ink ends above the rail status line.
proof fn lemma_motor_message_one_break(moving: bool, stale: bool)
    ensures
        nl_prefix(
            motor_message_spec(moving, stale),
            motor_message_spec(moving, stale).len() as int,
        ) == 1,
{
    reveal_with_fuel(nl_prefix, 30);
    if stale {
        assert(nl_prefix(motor_message_spec(moving, stale), 27) == 1);
    } else if moving {
        assert(nl_prefix(motor_message_spec(moving, stale), 26) == 1);
    } else {
        assert(nl_prefix(motor_message_spec(moving, stale), 26) == 1);
    }
}

/// The pixels where the camera image must stand untouched after a frame:
/// inside both the frame and the canvas, left of the status text column,
/// and outside the detector's two debug bands and the correction-arrow
/// band.
pub open spec fn camera_region(f: DecodedFrame, x: int, y: int) -> bool {
    &&& in_canvas(x, y)
    &&& x < f.width
    &&& x < OVERLAY_X
    &&& y < f.height
    &&& !(TABLE_RAIL_Y <= y <= TABLE_RAIL_Y + 3)
    &&& !(LAYOUT_RAIL_Y <= y <= LAYOUT_RAIL_Y + 3)
    &&& !(TABLE_RAIL_Y - 48 <= y <= TABLE_RAIL_Y - 32)
}

/// Everything the per-frame loop owns: the canvas, the rings, the
/// controller and the frame counter.
pub struct Pipeline {
    pub canvas: Canvas,
    pub layout_history: LayoutHistory,
    pub fps_history: FpsHistory,
    pub controller: ControllerState,
    pub tick: usize,
}

impl Pipeline {
    pub open spec fn wf(&self) -> bool {
        &&& self.canvas.wf()
        &&& self.layout_history.wf()
        &&& self.fps_history.wf()
        &&& self.controller.wf()
        &&& self.tick <= 100000000
    }

    /// A fresh pipeline: black canvas, empty rings, controller at start.
    pub fn new() -> (p: Pipeline)
        ensures
            p.wf(),
            forall|i: int| 0 <= i < 800 * 480 * 3 ==> p.canvas@[i] == 0u8,
            p.controller == (ControllerState {
                mode: MotorMode::Start,
                remaining_moves: MOVE_QUOTA,
                saved_this_session: false,
            }),
            p.tick == 0,
    {
        Pipeline {
            canvas: Canvas::new(),
            layout_history: LayoutHistory::new(),
            fps_history: FpsHistory::new(),
            controller: ControllerState::initial(),
            tick: 0,
        }
    }

    /// Runs one frame: records the capture time, composites the frame and
    /// overlay onto the canvas, updates the rail histories, and steps the
    /// controller.  The returned command, if any, is what the motor
    /// daemon should receive this frame.  On the canvas, the camera image
    /// stands wherever the overlay does not, and the motor and rail
    /// status lines stand in their colours.
    #[verifier::rlimit(60)]
    pub fn run_frame(&mut self, frame: &DecodedFrame, status: &MotorStatus, now_ms: u64) -> (cmd:
        Option<Command>)
        requires
            old(self).wf(),
            frame.wf(),
            frame.width <= u32::MAX,
        ensures
            final(self).wf(),
            final(self).tick == next_tick_spec(old(self).tick as int),
            final(self).fps_history@ == old(self).fps_history@.update(
                (final(self).tick % 8) as int,
                now_ms,
            ),
            final(self).layout_history@ == (match obs_layout(*frame) {
                Some(x) => old(self).layout_history@.update(
                    (final(self).tick % 8) as int,
                    x as i64,
                ),
                None => old(self).layout_history@,
            }),
            ({
                let d = decide_spec(
                    obs_table(*frame),
                    smoothed_spec(old(self).layout_history@, obs_layout(*frame)),
                );
                let inp = TickInput {
                    moving: status.is_moving,
                    stale: status.stale_spec(),
                    decision: d,
                };
                &&& final(self).controller == step_spec(old(self).controller, inp).0
                &&& cmd == step_spec(old(self).controller, inp).1
                &&& forall|x: int, y: int|
                    in_canvas(x, y) && #[trigger] text_covers(
                        rail_message_spec(d),
                        OVERLAY_X as int,
                        RAIL_MSG_Y as int,
                        x,
                        y,
                    ) ==> pixel_at(final(self).canvas@, x, y) == rail_color_spec(d).tup()
            }),
            forall|x: int, y: int|
                in_canvas(x, y) && #[trigger] text_covers(
                    motor_message_spec(status.is_moving, status.stale_spec()),
                    OVERLAY_X as int,
                    MOTOR_MSG_Y as int,
                    x,
                    y,
                ) ==> pixel_at(final(self).canvas@, x, y) == motor_color_spec(
                    status.is_moving,
                    status.stale_spec(),
                ).tup(),
            forall|x: int, y: int|
                #[trigger] camera_region(*frame, x, y) ==> pixel_at(final(self).canvas@, x, y)
                    == frame_px(*frame, x, y),
    {
        self.tick = if self.tick + 1 > TICK_WRAP {
            0
        } else {
            self.tick + 1
        };
        let tick: usize = self.tick;
        self.fps_history.record(tick, now_ms);
        let fps = self.fps_history.fps_centi();

        self.canvas.blit_frame(frame);
        proof {
            assert forall|x: int, y: int| #[trigger]
                camera_region(*frame, x, y) implies pixel_at(self.canvas@, x, y) == frame_px(
                *frame,
                x,
                y,
            ) by {}
        }

        let cam_w: i32 = if frame.width > CANVAS_W {
            CANVAS_W as i32
        } else {
            frame.width as i32
        };
        self.canvas.line(0, TABLE_RAIL_Y as i32, cam_w, TABLE_RAIL_Y as i32, Rgb::new(139, 0, 139));
        self.canvas.line(
            0,
            LAYOUT_RAIL_Y as i32,
            cam_w,
            LAYOUT_RAIL_Y as i32,
            Rgb::new(255, 105, 180),
        );
        proof {
            assert forall|x: int, y: int| #[trigger]
                camera_region(*frame, x, y) implies pixel_at(self.canvas@, x, y) == frame_px(
                *frame,
                x,
                y,
            ) by {}
        }

        let obs = detect(frame);

        if TABLE_RAIL_Y < frame.height {
            let cand = row_candidates(frame, TABLE_RAIL_Y);
            draw_mask(&mut self.canvas, &cand, TABLE_RAIL_Y as i32 + 1);
            draw_mask(&mut self.canvas, &cand, TABLE_RAIL_Y as i32 + 2);
        }
        if LAYOUT_RAIL_Y < frame.height {
            let cand = row_candidates(frame, LAYOUT_RAIL_Y);
            draw_mask(&mut self.canvas, &cand, LAYOUT_RAIL_Y as i32 + 1);
            draw_mask(&mut self.canvas, &cand, LAYOUT_RAIL_Y as i32 + 2);
        }

        if let Some(tx) = obs.table_x {
            if tx < 800 {
                draw_marker(&mut self.canvas, tx as i32, TABLE_RAIL_Y as i32 + 2);
            }
        }
        if let Some(lx) = obs.layout_x {
            if lx < 800 {
                draw_marker(&mut self.canvas, lx as i32, LAYOUT_RAIL_Y as i32 + 2);
            }
        }
        proof {
            assert forall|x: int, y: int| #[trigger]
                camera_region(*frame, x, y) implies pixel_at(self.canvas@, x, y) == frame_px(
                *frame,
                x,
                y,
            ) by {}
        }

        let layout_used = self.layout_history.smoothed(obs.layout_x);
        if let Some(x) = obs.layout_x {
            self.layout_history.record(tick, x);
        }

        let d = decide(obs.table_x, layout_used);
        let stepped = self.controller.step(status, d);
        self.controller = stepped.0;
        let cmd = stepped.1;

        self.canvas.rectangle(
            cam_w,
            0,
            CANVAS_W as u32,
            CANVAS_H as u32,
            Rgb::new(0, 0, 0),
            Rgb::new(0, 0, 0),
            0,
        );
        proof {
            assert forall|x: int, y: int| #[trigger]
                camera_region(*frame, x, y) implies pixel_at(self.canvas@, x, y) == frame_px(
                *frame,
                x,
                y,
            ) by {}
        }

        self.draw_overlay(d, status, obs.table_x, layout_used, fps, cmd);

        cmd
    }

    /// Draws the right-gutter status overlay: the command codes just
    /// emitted, the FPS readout, the correction arrow, and the motor and
    /// rail status lines.  Only the text column and the arrow band
    /// change; the two status lines come out exactly in their colours.
    fn draw_overlay(
        &mut self,
        d: Decision,
        status: &MotorStatus,
        table_x: Option<u32>,
        layout_x: Option<u32>,
        fps: Option<u32>,
        cmd: Option<Command>,
    )
        requires
            old(self).canvas.wf(),
        ensures
            final(self).canvas.wf(),
            final(self).layout_history == old(self).layout_history,
            final(self).fps_history == old(self).fps_history,
            final(self).controller == old(self).controller,
            final(self).tick == old(self).tick,
            forall|x: int, y: int|
                in_canvas(x, y) && x < OVERLAY_X && !(TABLE_RAIL_Y - 48 <= y <= TABLE_RAIL_Y - 32)
                    ==> #[trigger] pixel_at(final(self).canvas@, x, y) == pixel_at(
                    old(self).canvas@,
                    x,
                    y,
                ),
            forall|x: int, y: int|
                in_canvas(x, y) && #[trigger] text_covers(
                    motor_message_spec(status.is_moving, status.stale_spec()),
                    OVERLAY_X as int,
                    MOTOR_MSG_Y as int,
                    x,
                    y,
                ) ==> pixel_at(final(self).canvas@, x, y) == motor_color_spec(
                    status.is_moving,
                    status.stale_spec(),
                ).tup(),
            forall|x: int, y: int|
                in_canvas(x, y) && #[trigger] text_covers(
                    rail_message_spec(d),
                    OVERLAY_X as int,
                    RAIL_MSG_Y as int,
                    x,
                    y,
                ) ==> pixel_at(final(self).canvas@, x, y) == rail_color_spec(d).tup(),
    {
        let red = Rgb::new(255, 0, 0);
        let green = Rgb::new(0, 255, 0);
        let white = Rgb::new(255, 255, 255);
        let text_x: i32 = OVERLAY_X as i32;

        if let Some(c) = cmd {
            let codes = c.codes().as_bytes();
            if codes.len() <= 10000 {
                proof {
                    lemma_text_covers_band(codes@, text_x as int, 10);
                }
                draw_text(&mut self.canvas, text_x, 10, codes, red);
            }
        }

        if let Some(centi) = fps {
            let txt = fps_text(centi);
            if txt.len() <= 10000 {
                proof {
                    lemma_text_covers_band(txt@, text_x as int, CANVAS_H as int - 20);
                }
                draw_text(&mut self.canvas, text_x, CANVAS_H as i32 - 20, txt.as_slice(), white);
            }
        }

        if let (Some(tx), Some(lx)) = (table_x, layout_x) {
            if tx < 800 && lx < 800 {
                let diff: i32 = tx as i32 - lx as i32;
                let ty: i32 = TABLE_RAIL_Y as i32;
                let dark_green = Rgb::new(0, 100, 0);
                if matches!(d, Decision::MoveLeft) {
                    self.canvas.triangle(
                        tx as i32,
                        ty - 48,
                        tx as i32 + (-diff),
                        ty - 40,
                        tx as i32,
                        ty - 32,
                        green,
                        Some(dark_green),
                    );
                } else if matches!(d, Decision::MoveRight) {
                    self.canvas.triangle(
                        tx as i32,
                        ty - 48,
                        tx as i32 - diff,
                        ty - 40,
                        tx as i32,
                        ty - 32,
                        green,
                        Some(dark_green),
                    );
                }
            }
        }

        let moving = status.is_moving;
        let stale = status.is_stale();
        let motor_msg = motor_message(moving, stale);
        let motor_col = motor_color(moving, stale);
        proof {
            lemma_text_covers_band(motor_msg@, OVERLAY_X as int, MOTOR_MSG_Y as int);
            lemma_motor_message_one_break(moving, stale);
        }
        draw_text(&mut self.canvas, text_x, MOTOR_MSG_Y as i32, motor_msg.as_slice(), motor_col);

        let rail_msg = rail_message(d);
        let rail_col = rail_color(d);
        proof {
            lemma_text_covers_band(rail_msg@, OVERLAY_X as int, RAIL_MSG_Y as int);
        }
        draw_text(&mut self.canvas, text_x, RAIL_MSG_Y as i32, rail_msg.as_slice(), rail_col);
    }
}

/// The colour of the rail status line.
fn rail_color(d: Decision) -> (c: Rgb)
    ensures
        c == rail_color_spec(d),
{
    match d {
        Decision::Aligned => Rgb::new(0, 255, 0),
        Decision::Unknown => Rgb::new(255, 0, 0),
        _ => Rgb::new(255, 255, 0),
    }
}

/// The colour of the motor status lines.
fn motor_color(moving: bool, stale: bool) -> (c: Rgb)
    ensures
        c == motor_color_spec(moving, stale),
{
    if stale {
        Rgb::new(0, 255, 0)
    } else if moving {
        Rgb::new(255, 0, 0)
    } else {
        Rgb::new(255, 255, 0)
    }
}

/// Draws one candidate-mask row: white where the column is a candidate,
/// black where it is not.  Only row y changes.
fn draw_mask(canvas: &mut Canvas, cand: &Vec<bool>, y: i32)
    requires
        old(canvas).wf(),
    ensures
        final(canvas).wf(),
        forall|px: int, py: int|
            in_canvas(px, py) && py != y ==> #[trigger] pixel_at(final(canvas)@, px, py)
                == pixel_at(old(canvas)@, px, py),
{
    let w: usize = if cand.len() > 800 {
        800
    } else {
        cand.len()
    };
    let mut x: usize = 0;
    while x < w
        invariant
            canvas.wf(),
            w <= 800,
            w <= cand@.len(),
            x <= w,
            forall|px: int, py: int|
                in_canvas(px, py) && py != y ==> #[trigger] pixel_at(canvas@, px, py) == pixel_at(
                    old(canvas)@,
                    px,
                    py,
                ),
        decreases w - x,
    {
        let c = if cand[x] {
            Rgb::new(255, 255, 255)
        } else {
            Rgb::new(0, 0, 0)
        };
        let ghost pre = canvas@;
        canvas.set_pixel(x as i32, y, c);
        proof {
            if in_canvas(x as int, y as int) {
                lemma_with_pixel(pre, x as int, y as int, c);
            }
        }
        x = x + 1;
    }
}

/// Marks a detected rail centre with a 2x2 red dot.  Only rows y and
/// y + 1 change.
fn draw_marker(canvas: &mut Canvas, x: i32, y: i32)
    requires
        old(canvas).wf(),
        -100000 <= x <= 100000,
        -100000 <= y <= 100000,
    ensures
        final(canvas).wf(),
        forall|px: int, py: int|
            in_canvas(px, py) && !(y <= py <= y + 1) ==> #[trigger] pixel_at(final(canvas)@, px, py)
                == pixel_at(old(canvas)@, px, py),
{
    let red = Rgb::new(255, 0, 0);
    let ghost g0 = canvas@;
    canvas.set_pixel(x, y, red);
    proof {
        if in_canvas(x as int, y as int) {
            lemma_with_pixel(g0, x as int, y as int, red);
        }
    }
    let ghost g1 = canvas@;
    canvas.set_pixel(x + 1, y, red);
    proof {
        if in_canvas(x as int + 1, y as int) {
            lemma_with_pixel(g1, x as int + 1, y as int, red);
        }
    }
    let ghost g2 = canvas@;
    canvas.set_pixel(x, y + 1, red);
    proof {
        if in_canvas(x as int, y as int + 1) {
            lemma_with_pixel(g2, x as int, y as int + 1, red);
        }
    }
    let ghost g3 = canvas@;
    canvas.set_pixel(x + 1, y + 1, red);
    proof {
        if in_canvas(x as int + 1, y as int + 1) {
            lemma_with_pixel(g3, x as int + 1, y as int + 1, red);
        }
    }
}

} // verus!
