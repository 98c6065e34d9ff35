//! Two-slot frame store handing the latest complete frame from one producer
//! to one consumer.
use vstd::prelude::*;

verus! {

/// A decoded pixel buffer with the dimensions of its pixel grid.
/// `data` is `None` for a slot that has never been written.
pub struct FrameSlot {
    pub data: Option<Vec<u8>>,
    pub width: u32,
    pub height: u32,
}

impl FrameSlot {
    /// The slot content before any frame has arrived.
    pub open spec fn spec_empty() -> FrameSlot {
        FrameSlot { data: None, width: 0, height: 0 }
    }

    pub fn empty() -> (r: FrameSlot)
        ensures
            r == FrameSlot::spec_empty(),
    {
        FrameSlot { data: None, width: 0, height: 0 }
    }
}

/// The abstract state of a double buffer: two slots and the two role indices.
pub struct DoubleBufferView {
    pub slots: Seq<FrameSlot>,
    pub read_index: int,
    pub write_index: int,
}

impl DoubleBufferView {
    pub open spec fn wf(self) -> bool {
        &&& self.slots.len() == 2
        &&& 0 <= self.read_index < 2
        &&& 0 <= self.write_index < 2
        &&& self.read_index != self.write_index
    }

    /// The slot the consumer sees.
    pub open spec fn read(self) -> FrameSlot {
        self.slots[self.read_index]
    }

    /// Stores a frame into the producer's slot.
    pub open spec fn write(self, f: FrameSlot) -> DoubleBufferView {
        DoubleBufferView { slots: self.slots.update(self.write_index, f), ..self }
    }

    /// Each role index moves to the other slot.
    pub open spec fn swap(self) -> DoubleBufferView {
        DoubleBufferView {
            read_index: (self.read_index + 1) % 2,
            write_index: (self.write_index + 1) % 2,
            ..self
        }
    }
}

/// A double buffer. The consumer reads the slot at the read index; the
/// producer writes the slot at the write index; `swap_buffers` hands the
/// freshly written slot to the consumer.
pub struct Renderer {
    slot0: FrameSlot,
    slot1: FrameSlot,
    /// The read index and the write index.
    roles: (usize, usize),
}

impl View for Renderer {
    type V = DoubleBufferView;

    closed spec fn view(&self) -> DoubleBufferView {
        DoubleBufferView {
            slots: seq![self.slot0, self.slot1],
            read_index: self.roles.0 as int,
            write_index: self.roles.1 as int,
        }
    }
}

impl Renderer {
    #[verifier::type_invariant]
    closed spec fn inv(self) -> bool {
        &&& self.roles.0 < 2
        &&& self.roles.1 < 2
        &&& self.roles.0 != self.roles.1
    }

    /// Both slots empty; the consumer reads slot 0 and the producer writes slot 1.
    pub fn new() -> (r: Renderer)
        ensures
            r@.wf(),
            r@.slots == seq![FrameSlot::spec_empty(), FrameSlot::spec_empty()],
            r@.read_index == 0,
            r@.write_index == 1,
    {
        Renderer { slot0: FrameSlot::empty(), slot1: FrameSlot::empty(), roles: (0, 1) }
    }

    /// The slot at the read index; it never waits and never changes the buffer.
    pub fn read(&self) -> (r: &FrameSlot)
        ensures
            self@.wf(),
            *r == self@.read(),
    {
        proof {
            use_type_invariant(self);
        }
        if self.roles.0 == 0 {
            &self.slot0
        } else {
            &self.slot1
        }
    }

    /// Stores `frame` into the slot at the write index.
    pub fn write(&mut self, frame: FrameSlot)
        ensures
            old(self)@.wf(),
            final(self)@ == old(self)@.write(frame),
    {
        proof {
            use_type_invariant(&*self);
        }
        if self.roles.1 == 0 {
            self.slot0 = frame;
        } else {
            self.slot1 = frame;
        }
        proof {
            assert(self@.slots =~= old(self)@.write(frame).slots);
        }
    }

    /// Hands a whole frame to the consumer: stores it at the write index,
    /// then exchanges the roles, so the next `read` returns it.
    pub fn publish(&mut self, frame: FrameSlot)
        ensures
            old(self)@.wf(),
            final(self)@ == old(self)@.write(frame).swap(),
            final(self)@.read() == frame,
    {
        let ghost f = frame;
        self.write(frame);
        self.swap_buffers();
        proof {
            law_write_swap_read(old(self)@, f);
        }
    }

    /// Exchanges the roles of the two slots.
    pub fn swap_buffers(&mut self)
        ensures
            old(self)@.wf(),
            final(self)@ == old(self)@.swap(),
    {
        proof {
            use_type_invariant(&*self);
        }
        self.roles = ((self.roles.0 + 1) % 2, (self.roles.1 + 1) % 2);
    }
}

/// One producer-side step on a double buffer.
pub enum BufferOp {
    Write(FrameSlot),
    Swap,
}

/// The state reached from `b` after the steps `ops`, in order.
pub open spec fn run_ops(b: DoubleBufferView, ops: Seq<BufferOp>) -> DoubleBufferView
    decreases ops.len(),
{
    if ops.len() == 0 {
        b
    } else {
        let prev = run_ops(b, ops.drop_last());
        match ops.last() {
            BufferOp::Write(f) => prev.write(f),
            BufferOp::Swap => prev.swap(),
        }
    }
}

/// A frame that the consumer may legitimately see after `ops` ran on `b`:
/// one that a slot held at the start, or one handed whole to a write.
pub open spec fn is_whole_frame(f: FrameSlot, b: DoubleBufferView, ops: Seq<BufferOp>) -> bool {
    b.slots.contains(f) || exists|k: int| 0 <= k < ops.len() && ops[k] == BufferOp::Write(f)
}

/// After a frame is written and the buffers are swapped, the consumer reads
/// exactly that frame. (`Renderer::read` takes the buffer by shared
/// reference and returns the slot at the read index, so reading again
/// without a swap gives the same frame.)
pub proof fn law_write_swap_read(b: DoubleBufferView, f: FrameSlot)
    requires
        b.wf(),
    ensures
        b.write(f).swap().wf(),
        b.write(f).swap().read() == f,
{
}

/// Whatever the producer does, the buffer stays well formed and the consumer
/// reads a frame that was stored whole: never a mixture of two frames.
pub proof fn law_read_never_torn(b: DoubleBufferView, ops: Seq<BufferOp>)
    requires
        b.wf(),
    ensures
        run_ops(b, ops).wf(),
        is_whole_frame(run_ops(b, ops).read(), b, ops),
{
    lemma_slots_whole(b, ops);
}

proof fn lemma_slots_whole(b: DoubleBufferView, ops: Seq<BufferOp>)
    requires
        b.wf(),
    ensures
        run_ops(b, ops).wf(),
        forall|i: int| 0 <= i < 2 ==> is_whole_frame(#[trigger] run_ops(b, ops).slots[i], b, ops),
    decreases ops.len(),
{
    if ops.len() > 0 {
        let pre = ops.drop_last();
        lemma_slots_whole(b, pre);
        let prev = run_ops(b, pre);
        assert forall|i: int| 0 <= i < 2 implies is_whole_frame(#[trigger] run_ops(b, ops).slots[i], b, ops) by {
            let g = run_ops(b, ops).slots[i];
            if ops.last() == BufferOp::Write(g) {
                assert(ops[ops.len() - 1] == BufferOp::Write(g));
            } else {
                assert(g == prev.slots[i]);
                if !b.slots.contains(g) {
                    let k = choose|k: int| 0 <= k < pre.len() && pre[k] == BufferOp::Write(g);
                    assert(ops[k] == pre[k]);
                }
            }
        }
    }
}

} // verus!
