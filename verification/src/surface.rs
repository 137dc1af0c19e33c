//! The life of a buffer on the surface: how large it is, and in what order a
//! new one replaces the one before it.

use crate::buffer::MAX_BUFFER_BYTES;
use vstd::prelude::*;

verus! {

/// The layout of a frame in shared memory, four bytes a pixel.
#[derive(Clone, Copy, Debug, PartialEq, Eq, Structural)]
pub struct FramePlan {
    pub width: i32,
    pub height: i32,
    /// Bytes from one row to the next.
    pub stride: i32,
    /// Bytes in all.
    pub size: i32,
}

/// One step of presenting a frame.
#[derive(Clone, Copy, Debug, PartialEq, Eq, Structural)]
pub enum SurfaceStep {
    /// Attach the new buffer to the surface.
    Attach,
    /// Mark the whole surface as changed.
    Damage { width: i32, height: i32 },
    /// Commit the surface.
    Commit,
    /// Ask the compositor to acknowledge what was committed.
    RequestAcknowledgement,
}

/// The layout of a frame of `width` by `height` pixels.
pub open spec fn frame_plan(width: u32, height: u32) -> FramePlan {
    FramePlan {
        width: width as i32,
        height: height as i32,
        stride: (width * 4) as i32,
        size: (width * height * 4) as i32,
    }
}

/// Whether a frame of `width` by `height` pixels can be had: it holds a pixel
/// at least, and no more than `MAX_BUFFER_BYTES` bytes.
pub open spec fn frame_fits(width: u32, height: u32) -> bool {
    0 < width * height * 4 <= MAX_BUFFER_BYTES
}

/// The steps that present a new frame, in order: the new buffer is attached,
/// the whole surface is marked as changed and committed, and the compositor is
/// asked to acknowledge it.
pub open spec fn steps(plan: FramePlan) -> Seq<SurfaceStep> {
    seq![
        SurfaceStep::Attach,
        SurfaceStep::Damage { width: plan.width, height: plan.height },
        SurfaceStep::Commit,
        SurfaceStep::RequestAcknowledgement,
    ]
}

/// The layout of a frame of `width` by `height` pixels; `None` where no such
/// frame can be had, and then this draw is skipped.
pub fn plan_frame(width: u32, height: u32) -> (plan: Option<FramePlan>)
    ensures
        plan is Some <==> frame_fits(width, height),
        plan matches Some(p) ==> p == frame_plan(width, height) && p.size == p.stride * p.height
            && p.stride == 4 * p.width && p.width > 0 && p.height > 0,
{
    if width == 0 || height == 0 {
        assert(width * height * 4 == 0) by (nonlinear_arith)
            requires
                width == 0 || height == 0,
        ;
        return None;
    }
    assert(width * height <= 0xFFFF_FFFF * 0xFFFF_FFFF) by (nonlinear_arith)
        requires
            0 <= width <= 0xFFFF_FFFF,
            0 <= height <= 0xFFFF_FFFF,
    ;
    assert(width * height >= width && width * height >= height) by (nonlinear_arith)
        requires
            width >= 1,
            height >= 1,
    ;
    let pixels: u64 = width as u64 * height as u64;
    if pixels > MAX_BUFFER_BYTES / 4 {
        return None;
    }
    assert((width * 4) * height == width * height * 4) by (nonlinear_arith);
    Some(
        FramePlan {
            width: width as i32,
            height: height as i32,
            stride: (width * 4) as i32,
            size: (pixels * 4) as i32,
        },
    )
}

/// The steps that present a new frame, in order.
pub fn present_steps(plan: FramePlan) -> (order: Vec<SurfaceStep>)
    ensures
        order@ == steps(plan),
{
    let mut order: Vec<SurfaceStep> = Vec::new();
    order.push(SurfaceStep::Attach);
    order.push(SurfaceStep::Damage { width: plan.width, height: plan.height });
    order.push(SurfaceStep::Commit);
    order.push(SurfaceStep::RequestAcknowledgement);
    proof {
        assert(order@ =~= steps(plan));
    }
    order
}

/// What carrying out a request to draw an overlay of `width` by `height`
/// pixels takes: the layout of the frame, and the steps that present it once it
/// is drawn. `None` where no such frame can be had; then the draw is skipped and
/// the surface keeps the buffer that it has.
pub fn plan_redraw(width: u32, height: u32) -> (plan: Option<(FramePlan, Vec<SurfaceStep>)>)
    ensures
        plan is Some <==> frame_fits(width, height),
        plan matches Some((frame, order)) ==> frame == frame_plan(width, height) && order@
            == steps(frame),
{
    match plan_frame(width, height) {
        Some(frame) => Some((frame, present_steps(frame))),
        None => None,
    }
}

/// The buffers of the surface: whether one is attached, and, for each frame
/// that was presented and is not acknowledged yet, whether it took the place of
/// a buffer, oldest first. The buffer that a frame took the place of lives on
/// until the compositor has acknowledged that frame.
#[derive(Debug, Clone, PartialEq, Eq)]
pub struct BufferLedger {
    pub attached: bool,
    pub awaited: Vec<bool>,
}

/// The mathematical value of a [`BufferLedger`].
pub struct LedgerModel {
    pub attached: bool,
    pub awaited: Seq<bool>,
}

impl View for BufferLedger {
    type V = LedgerModel;

    open spec fn view(&self) -> LedgerModel {
        LedgerModel { attached: self.attached, awaited: self.awaited@ }
    }
}

impl LedgerModel {
    /// The ledger after a frame was presented: its buffer is the one
    /// attached, and the buffer before it, if there was one, awaits the
    /// acknowledgement of the frame.
    pub open spec fn after_present(self) -> LedgerModel {
        LedgerModel { attached: true, awaited: self.awaited.push(self.attached) }
    }

    /// Whether the acknowledgement of the oldest frame that awaits one lets a
    /// buffer be destroyed: the one that the frame took the place of.
    pub open spec fn releases(self) -> bool {
        self.awaited.len() > 0 && self.awaited[0]
    }

    /// The ledger after the compositor acknowledged the oldest frame that
    /// awaited it.
    pub open spec fn after_acknowledgement(self) -> LedgerModel {
        if self.awaited.len() > 0 {
            LedgerModel { awaited: self.awaited.drop_first(), ..self }
        } else {
            self
        }
    }
}

impl BufferLedger {
    /// The ledger of a surface without a buffer.
    pub fn new() -> (ledger: BufferLedger)
        ensures
            ledger@ == (LedgerModel { attached: false, awaited: Seq::empty() }),
    {
        BufferLedger { attached: false, awaited: Vec::new() }
    }

    /// Records that a frame was presented. Returns whether its buffer took
    /// the place of another, which is to be kept until the frame is
    /// acknowledged.
    pub fn presented(&mut self) -> (replaced: bool)
        ensures
            final(self)@ == old(self)@.after_present(),
            replaced == old(self)@.attached,
    {
        let replaced = self.attached;
        self.awaited.push(replaced);
        self.attached = true;
        replaced
    }

    /// Records that the compositor acknowledged the oldest frame that awaited
    /// it. Returns whether the buffer that the frame took the place of is to be
    /// destroyed now.
    pub fn acknowledged(&mut self) -> (destroy: bool)
        ensures
            final(self)@ == old(self)@.after_acknowledgement(),
            destroy == old(self)@.releases(),
    {
        if self.awaited.len() > 0 {
            let replaced = self.awaited.remove(0);
            proof {
                assert(self.awaited@ =~= old(self).awaited@.drop_first());
            }
            replaced
        } else {
            false
        }
    }
}

/// Presenting a frame destroys nothing: the buffer that was attached before
/// is asked for no more than to await the acknowledgement, which is the last
/// step.
pub proof fn lemma_present_destroys_nothing(plan: FramePlan, ledger: LedgerModel)
    ensures
        steps(plan).len() == 4,
        steps(plan)[0] == SurfaceStep::Attach,
        steps(plan)[2] == SurfaceStep::Commit,
        steps(plan)[3] == SurfaceStep::RequestAcknowledgement,
        ledger.after_present().attached,
        ledger.after_present().awaited.len() == ledger.awaited.len() + 1,
        ledger.after_present().awaited.last() == ledger.attached,
        forall|i: int|
            0 <= i < ledger.awaited.len() ==> ledger.after_present().awaited[i]
                == ledger.awaited[i],
{
}

/// A buffer is destroyed only when the frame that took its place is
/// acknowledged: the acknowledgement releases a buffer exactly if the oldest
/// frame that awaits one took the place of a buffer, and then one frame less
/// awaits its acknowledgement. The buffer that is attached stays attached.
pub proof fn lemma_destroy_follows_acknowledgement(ledger: LedgerModel)
    ensures
        ledger.releases() ==> ledger.awaited.len() > 0 && ledger.awaited[0],
        ledger.awaited.len() > 0 ==> ledger.after_acknowledgement().awaited.len()
            == ledger.awaited.len() - 1,
        ledger.awaited.len() == 0 ==> !ledger.releases() && ledger.after_acknowledgement()
            == ledger,
        ledger.after_acknowledgement().attached == ledger.attached,
{
}

} // verus!
