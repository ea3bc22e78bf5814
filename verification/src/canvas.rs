//! Recording of canvas drawing commands. The recorder builds the command
//! list that a compute pass consumes; the platform layer copies the finished
//! list into the mapped command buffer. The typestate parameter makes an
//! ill-formed command sequence (a `line_to` outside a contour, a contour
//! never ended) a type error rather than a runtime surprise.
//!
//! All drawing uses physical window coordinates with `(0, 0)` at the top
//! left; DPI scaling is the caller's business.

use core::marker::PhantomData;

use vstd::prelude::*;

verus! {

/// The command list buffer holds this many commands at most.
pub const CMD_LIST_CAPACITY: usize = 1000;

/// A canvas drawing operation.
#[derive(Clone, Copy, Debug, PartialEq, Eq, Structural)]
pub enum CanvasOp {
    StartFill,
    StartStroke,
    LineTo,
    EndContour,
    LastCommand,
}

impl CanvasOp {
    /// The operation's number in the command list wire format.
    pub open spec fn spec_opcode(self) -> u32 {
        match self {
            CanvasOp::StartFill => 0,
            CanvasOp::StartStroke => 1,
            CanvasOp::LineTo => 2,
            CanvasOp::EndContour => 3,
            CanvasOp::LastCommand => 4,
        }
    }

    /// The opcode written into the command list.
    pub fn opcode(&self) -> (n: u32)
        ensures
            n == self.spec_opcode(),
    {
        match self {
            CanvasOp::StartFill => 0,
            CanvasOp::StartStroke => 1,
            CanvasOp::LineTo => 2,
            CanvasOp::EndContour => 3,
            CanvasOp::LastCommand => 4,
        }
    }
}

/// A pair of 16-bit values: a point in pixels or a packed parameter.
#[derive(Clone, Copy, Debug, PartialEq, Eq, Structural)]
pub struct Vec2u16 {
    pub x: u16,
    pub y: u16,
}

/// One recorded command: the operation and three pairs of 16-bit
/// parameters, as the compute pass reads them.
#[derive(Clone, Copy, Debug, PartialEq, Eq, Structural)]
pub struct CanvasCommand {
    pub op: CanvasOp,
    pub param1: Vec2u16,
    pub param2: Vec2u16,
    pub param3: Vec2u16,
}

/// Two color channels packed into one 16-bit parameter: the first in the
/// low byte, the second in the high byte.
pub open spec fn spec_pack_channels(lo: u8, hi: u8) -> u16 {
    (lo + hi * 256) as u16
}

/// Pack two 8-bit color channels into one 16-bit parameter.
pub fn pack_channels(lo: u8, hi: u8) -> (p: u16)
    ensures
        p == spec_pack_channels(lo, hi),
{
    let l = lo as u16;
    let h = hi as u16;
    let p = l | (h << 8u16);
    proof {
        assert(p == l + h * 256) by (bit_vector)
            requires
                l < 256,
                h < 256,
                p == (l | (h << 8u16)),
        {
        }
    }
    p
}

/// Typestate marker: no contour is open; a fill or stroke may start.
pub struct InitState;

/// Typestate marker: a contour is open; lines may be added until `end`.
pub struct ContourState;

/// Records canvas commands. `State` is [`InitState`] between contours and
/// [`ContourState`] inside one; each recording call consumes the recorder
/// and returns it in the state the command leads to.
pub struct Canvas2DRecorder<State> {
    cmds: Vec<CanvasCommand>,
    _state: PhantomData<State>,
}

impl<State> Canvas2DRecorder<State> {
    /// The commands recorded so far, in order.
    pub closed spec fn commands(self) -> Seq<CanvasCommand> {
        self.cmds@
    }

    /// How many commands were recorded so far.
    pub fn len(&self) -> (n: usize)
        ensures
            n == self.commands().len(),
    {
        self.cmds.len()
    }
}

impl Canvas2DRecorder<InitState> {
    /// A fresh recorder with an empty command list.
    pub fn new() -> (r: Canvas2DRecorder<InitState>)
        ensures
            r.commands() == Seq::<CanvasCommand>::empty(),
    {
        Canvas2DRecorder { cmds: Vec::new(), _state: PhantomData }
    }

    /// Start a filled contour at `start_point` with the given color.
    pub fn start_fill(self, start_point: Vec2u16, r: u8, g: u8, b: u8, a: u8) -> (rec:
        Canvas2DRecorder<ContourState>)
        requires
            self.commands().len() < CMD_LIST_CAPACITY,
        ensures
            rec.commands() == self.commands().push(
                CanvasCommand {
                    op: CanvasOp::StartFill,
                    param1: start_point,
                    param2: Vec2u16 { x: spec_pack_channels(r, g), y: spec_pack_channels(b, a) },
                    param3: Vec2u16 { x: 0, y: 0 },
                },
            ),
    {
        let mut cmds = self.cmds;
        cmds.push(
            CanvasCommand {
                op: CanvasOp::StartFill,
                param1: start_point,
                param2: Vec2u16 { x: pack_channels(r, g), y: pack_channels(b, a) },
                param3: Vec2u16 { x: 0, y: 0 },
            },
        );
        Canvas2DRecorder { cmds, _state: PhantomData }
    }

    /// Start a stroked contour at `start_point` with the given color and
    /// stroke width.
    pub fn start_stroke(self, start_point: Vec2u16, r: u8, g: u8, b: u8, a: u8, width: u16) -> (rec:
        Canvas2DRecorder<ContourState>)
        requires
            self.commands().len() < CMD_LIST_CAPACITY,
        ensures
            rec.commands() == self.commands().push(
                CanvasCommand {
                    op: CanvasOp::StartStroke,
                    param1: start_point,
                    param2: Vec2u16 { x: spec_pack_channels(r, g), y: spec_pack_channels(b, a) },
                    param3: Vec2u16 { x: width, y: 0 },
                },
            ),
    {
        let mut cmds = self.cmds;
        cmds.push(
            CanvasCommand {
                op: CanvasOp::StartStroke,
                param1: start_point,
                param2: Vec2u16 { x: pack_channels(r, g), y: pack_channels(b, a) },
                param3: Vec2u16 { x: width, y: 0 },
            },
        );
        Canvas2DRecorder { cmds, _state: PhantomData }
    }

    /// Finish recording: append the terminator and hand the finished
    /// command list to the caller for upload.
    pub fn end(self) -> (cmds: Vec<CanvasCommand>)
        requires
            self.commands().len() < CMD_LIST_CAPACITY,
        ensures
            cmds@ == self.commands().push(
                CanvasCommand {
                    op: CanvasOp::LastCommand,
                    param1: Vec2u16 { x: 0, y: 0 },
                    param2: Vec2u16 { x: 0, y: 0 },
                    param3: Vec2u16 { x: 0, y: 0 },
                },
            ),
            cmds@.len() <= CMD_LIST_CAPACITY,
    {
        let mut cmds = self.cmds;
        cmds.push(
            CanvasCommand { op: CanvasOp::LastCommand, param1: Vec2u16 { x: 0, y: 0 }, param2: Vec2u16 { x: 0, y: 0 }, param3: Vec2u16 { x: 0, y: 0 } },
        );
        cmds
    }
}

impl Canvas2DRecorder<ContourState> {
    /// Extend the open contour with a line to `point`.
    pub fn line_to(self, point: Vec2u16) -> (rec: Canvas2DRecorder<ContourState>)
        requires
            self.commands().len() < CMD_LIST_CAPACITY,
        ensures
            rec.commands() == self.commands().push(
                CanvasCommand { op: CanvasOp::LineTo, param1: point, param2: Vec2u16 { x: 0, y: 0 }, param3: Vec2u16 { x: 0, y: 0 } },
            ),
    {
        let mut cmds = self.cmds;
        cmds.push(CanvasCommand { op: CanvasOp::LineTo, param1: point, param2: Vec2u16 { x: 0, y: 0 }, param3: Vec2u16 { x: 0, y: 0 } });
        Canvas2DRecorder { cmds, _state: PhantomData }
    }

    /// Close the open contour and return to the between-contours state.
    pub fn end(self) -> (rec: Canvas2DRecorder<InitState>)
        requires
            self.commands().len() < CMD_LIST_CAPACITY,
        ensures
            rec.commands() == self.commands().push(
                CanvasCommand { op: CanvasOp::EndContour, param1: Vec2u16 { x: 0, y: 0 }, param2: Vec2u16 { x: 0, y: 0 }, param3: Vec2u16 { x: 0, y: 0 } },
            ),
    {
        let mut cmds = self.cmds;
        cmds.push(
            CanvasCommand { op: CanvasOp::EndContour, param1: Vec2u16 { x: 0, y: 0 }, param2: Vec2u16 { x: 0, y: 0 }, param3: Vec2u16 { x: 0, y: 0 } },
        );
        Canvas2DRecorder { cmds, _state: PhantomData }
    }
}

} // verus!
