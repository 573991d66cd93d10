//! The observation window: the last four preprocessed frames, with the
//! newest replaced by its element-wise maximum with the one before it.

use arraydeque::{ArrayDeque, Wrapping};
use crate::bytes::{append_block, zeros};
use vstd::prelude::*;

verus! {

/// Number of frames in the window.
pub const STACK_SIZE: usize = 4;

/// A wrapping `arraydeque::ArrayDeque` with room for [`STACK_SIZE`] frames.
/// Verus sees nothing inside it; [`deque_frames`] names what it holds.
#[verifier::external_body]
pub struct FrameDeque {
    inner: ArrayDeque<Vec<u8>, STACK_SIZE, Wrapping>,
}

/// The frames that a deque holds, front to back.
pub uninterp spec fn deque_frames(deque: FrameDeque) -> Seq<Seq<u8>>;

/// Calls `ArrayDeque::new`, which creates an empty deque.
#[verifier::external_body]
fn deque_new() -> (deque: FrameDeque)
    ensures
        deque_frames(deque) == Seq::<Seq<u8>>::empty(),
{
    FrameDeque { inner: ArrayDeque::new() }
}

/// Calls `ArrayDeque::len`, the number of elements held.
#[verifier::external_body]
fn deque_len(deque: &FrameDeque) -> (len: usize)
    ensures
        len == deque_frames(*deque).len(),
{
    deque.inner.len()
}

/// Calls `ArrayDeque::get`, which returns the element at `index` counted
/// from the front, or nothing when the index is not below the length.
#[verifier::external_body]
fn deque_get(deque: &FrameDeque, index: usize) -> (frame: Option<&Vec<u8>>)
    ensures
        index < deque_frames(*deque).len() ==> frame is Some && frame->0@ == deque_frames(
            *deque,
        )[index as int],
        index >= deque_frames(*deque).len() ==> frame is None,
{
    deque.inner.get(index)
}

/// Calls `push_back` of a wrapping `ArrayDeque`: the element goes to the
/// back; a deque that holds its capacity first gives up its front element,
/// which is returned.
#[verifier::external_body]
fn deque_push_back(deque: &mut FrameDeque, frame: Vec<u8>) -> (evicted: Option<Vec<u8>>)
    ensures
        deque_frames(*old(deque)).len() < STACK_SIZE ==> {
            &&& evicted is None
            &&& deque_frames(*final(deque)) == deque_frames(*old(deque)).push(frame@)
        },
        deque_frames(*old(deque)).len() == STACK_SIZE ==> {
            &&& evicted is Some
            &&& evicted->0@ == deque_frames(*old(deque))[0]
            &&& deque_frames(*final(deque)) == deque_frames(*old(deque)).drop_first().push(frame@)
        },
{
    deque.inner.push_back(frame)
}

/// A frame of `frame_size` zeros.
pub open spec fn zero_frame(frame_size: nat) -> Seq<u8> {
    Seq::new(frame_size, |i: int| 0u8)
}

/// A full window of zero frames.
pub open spec fn zero_stack(frame_size: nat) -> Seq<Seq<u8>> {
    Seq::new(STACK_SIZE as nat, |i: int| zero_frame(frame_size))
}

/// The window after a push: a full window drops its oldest frame, and the
/// new frame becomes the newest.
pub open spec fn pushed(frames: Seq<Seq<u8>>, frame: Seq<u8>) -> Seq<Seq<u8>> {
    if frames.len() < STACK_SIZE {
        frames.push(frame)
    } else {
        frames.drop_first().push(frame)
    }
}

/// Element-wise maximum of two frames, over the length of the first.
pub open spec fn pointwise_max(a: Seq<u8>, b: Seq<u8>) -> Seq<u8> {
    Seq::new(
        a.len(),
        |i: int|
            if a[i] >= b[i] {
                a[i]
            } else {
                b[i]
            },
    )
}

/// What the observation shows in place of the newest frame: its maximum
/// with the frame before it, or the frame itself when it is the only one.
pub open spec fn newest_slot(frames: Seq<Seq<u8>>) -> Seq<u8> {
    if frames.len() >= 2 {
        pointwise_max(frames[frames.len() - 1], frames[frames.len() - 2])
    } else {
        frames[frames.len() - 1]
    }
}

/// The first `count` frames, one after the other.
pub open spec fn concat(frames: Seq<Seq<u8>>, count: int) -> Seq<u8>
    decreases count,
{
    if count <= 0 {
        Seq::empty()
    } else {
        concat(frames, count - 1) + frames[count - 1]
    }
}

/// The observation of a window: the older frames verbatim, oldest first,
/// followed by the newest slot.
pub open spec fn stacked_frames(frames: Seq<Seq<u8>>) -> Seq<u8> {
    if frames.len() == 0 {
        Seq::empty()
    } else {
        concat(frames, frames.len() - 1) + newest_slot(frames)
    }
}

/// Every frame of the window has the given size.
pub open spec fn frames_sized(frames: Seq<Seq<u8>>, frame_size: nat) -> bool {
    forall|i: int| 0 <= i < frames.len() ==> (#[trigger] frames[i]).len() == frame_size
}

/// The observation of a full window is laid out slot by slot: the three
/// older frames verbatim, then the newest slot.
pub proof fn lemma_stacked_slots(frames: Seq<Seq<u8>>, frame_size: nat)
    requires
        frames.len() == STACK_SIZE,
        frames_sized(frames, frame_size),
    ensures
        stacked_frames(frames).len() == STACK_SIZE * frame_size,
        forall|k: int|
            0 <= k < STACK_SIZE - 1 ==> stacked_frames(frames).subrange(
                k * frame_size,
                (k + 1) * frame_size,
            ) == #[trigger] frames[k],
        stacked_frames(frames).subrange(
            (STACK_SIZE - 1) * frame_size,
            STACK_SIZE * frame_size,
        ) == newest_slot(frames),
{
    reveal_with_fuel(concat, 5);
    let out = stacked_frames(frames);
    assert(frames[0].len() == frame_size);
    assert(frames[1].len() == frame_size);
    assert(frames[2].len() == frame_size);
    assert(frames[3].len() == frame_size);
    let size = frame_size as int;
    assert(out.subrange(0, size) =~= frames[0]);
    assert(out.subrange(size, 2 * size) =~= frames[1]);
    assert(out.subrange(2 * size, 3 * size) =~= frames[2]);
    assert(out.subrange(3 * size, 4 * size) =~= newest_slot(frames));
    assert forall|k: int| 0 <= k < STACK_SIZE - 1 implies out.subrange(
        k * frame_size,
        (k + 1) * frame_size,
    ) == #[trigger] frames[k] by {
        assert(k * frame_size == k * size && (k + 1) * frame_size == k * size + size)
            by (nonlinear_arith)
            requires
                size == frame_size,
        ;
        if k == 0 {
            assert(k * size == 0);
        } else if k == 1 {
            assert(k * size == size);
        } else {
            assert(k * size == 2 * size);
        }
    }
}

/// After a reset the observation has four frames' worth of values, all zero.
pub proof fn lemma_cleared_observation_is_zero(frame_size: nat)
    ensures
        stacked_frames(zero_stack(frame_size)).len() == STACK_SIZE * frame_size,
        forall|i: int|
            0 <= i < STACK_SIZE * frame_size ==> stacked_frames(zero_stack(frame_size))[i] == 0,
{
    reveal_with_fuel(concat, 5);
    let frames = zero_stack(frame_size);
    assert(frames[0] == zero_frame(frame_size));
    assert(frames[1] == zero_frame(frame_size));
    assert(frames[2] == zero_frame(frame_size));
    assert(frames[3] == zero_frame(frame_size));
}

/// The first frame pushed after a reset is observed verbatim: the zero frame
/// before it leaves the maximum unchanged.
pub proof fn lemma_first_push_is_verbatim(frame_size: nat, frame: Seq<u8>)
    requires
        frame.len() == frame_size,
    ensures
        newest_slot(pushed(zero_stack(frame_size), frame)) == frame,
{
    let frames = pushed(zero_stack(frame_size), frame);
    assert(frames[2] == zero_frame(frame_size));
    assert(newest_slot(frames) =~= frame);
}

/// After two pushes the newest slot is the element-wise maximum of the two
/// frames pushed.
pub proof fn lemma_two_pushes_observe_maximum(
    frames: Seq<Seq<u8>>,
    first: Seq<u8>,
    second: Seq<u8>,
)
    ensures
        newest_slot(pushed(pushed(frames, first), second)) == pointwise_max(second, first),
{
    let once = pushed(frames, first);
    let twice = pushed(once, second);
    assert(once.len() >= 1);
    assert(once[once.len() - 1] == first);
    assert(twice.len() >= 2);
    assert(twice[twice.len() - 1] == second);
    assert(twice[twice.len() - 2] == first);
}

pub struct FrameStack {
    frames: FrameDeque,
    frame_size: usize,
}

impl View for FrameStack {
    type V = Seq<Seq<u8>>;

    /// The frames of the window, oldest first.
    closed spec fn view(&self) -> Seq<Seq<u8>> {
        deque_frames(self.frames)
    }
}

impl FrameStack {
    pub closed spec fn spec_frame_size(&self) -> usize {
        self.frame_size
    }

    /// The window is full and every frame has the configured size.
    pub open spec fn wf(&self) -> bool {
        &&& self@.len() == STACK_SIZE
        &&& frames_sized(self@, self.spec_frame_size() as nat)
    }

    /// A window of zero frames of the given size.
    pub fn new(frame_size: usize) -> (stack: Self)
        ensures
            stack.wf(),
            stack.spec_frame_size() == frame_size,
            stack@ == zero_stack(frame_size as nat),
    {
        let mut frames = deque_new();
        let mut k: usize = 0;
        while k < STACK_SIZE
            invariant
                k <= STACK_SIZE,
                deque_frames(frames) == Seq::new(k as nat, |i: int| zero_frame(frame_size as nat)),
            decreases STACK_SIZE - k,
        {
            let _ = deque_push_back(&mut frames, zeros(frame_size));
            k += 1;
            assert(deque_frames(frames) =~= Seq::new(
                k as nat,
                |i: int| zero_frame(frame_size as nat),
            ));
        }
        FrameStack { frames, frame_size }
    }

    pub fn frame_size(&self) -> (frame_size: usize)
        ensures
            frame_size == self.spec_frame_size(),
    {
        self.frame_size
    }

    /// Drops the oldest frame and makes `frame` the newest.
    pub fn push(&mut self, frame: Vec<u8>)
        requires
            old(self).wf(),
            frame@.len() == old(self).spec_frame_size(),
        ensures
            final(self).wf(),
            final(self).spec_frame_size() == old(self).spec_frame_size(),
            final(self)@ == pushed(old(self)@, frame@),
    {
        let _ = deque_push_back(&mut self.frames, frame);
    }

    /// The observation: all frames but the newest verbatim, oldest first,
    /// then the element-wise maximum of the two newest frames.
    pub fn stacked(&self) -> (out: Vec<u8>)
        requires
            self.wf(),
        ensures
            out@ == stacked_frames(self@),
            out@.len() == STACK_SIZE * self.spec_frame_size(),
    {
        let n: usize = deque_len(&self.frames);
        let mut out: Vec<u8> = Vec::new();
        let mut i: usize = 0;
        while i < n
            invariant
                self.wf(),
                n == STACK_SIZE,
                i <= n,
                i < n ==> out@ == concat(self@, i as int),
                i == n ==> out@ == stacked_frames(self@),
                out@.len() == i * self.frame_size,
            decreases n - i,
        {
            assert((i + 1) * self.frame_size == i * self.frame_size + self.frame_size)
                by (nonlinear_arith);
            if i == n - 1 && n >= 2 {
                let newest = self.max_last_two();
                append_block(&mut out, &newest, 0, newest.len());
                assert(newest@.subrange(0, newest@.len() as int) =~= newest@);
            } else {
                match deque_get(&self.frames, i) {
                    Some(frame) => {
                        append_block(&mut out, frame, 0, frame.len());
                        assert(frame@.subrange(0, frame@.len() as int) =~= frame@);
                        assert(self@[i as int].len() == self.frame_size);
                    },
                    None => {},
                }
            }
            i += 1;
        }
        out
    }

    /// Resets the window to zero frames.
    pub fn clear(&mut self)
        requires
            old(self).wf(),
        ensures
            final(self).wf(),
            final(self).spec_frame_size() == old(self).spec_frame_size(),
            final(self)@ == zero_stack(old(self).spec_frame_size() as nat),
    {
        let mut k: usize = 0;
        while k < STACK_SIZE
            invariant
                k <= STACK_SIZE,
                self.wf(),
                self.frame_size == old(self).frame_size,
                forall|i: int|
                    STACK_SIZE - k <= i < STACK_SIZE ==> #[trigger] self@[i] == zero_frame(
                        self.frame_size as nat,
                    ),
            decreases STACK_SIZE - k,
        {
            self.push(zeros(self.frame_size));
            k += 1;
        }
        assert(self@ =~= zero_stack(self.frame_size as nat));
    }

    /// Element-wise maximum of the two newest frames.
    fn max_last_two(&self) -> (out: Vec<u8>)
        requires
            self.wf(),
        ensures
            out@ == newest_slot(self@),
            out@.len() == self.spec_frame_size(),
    {
        let n: usize = deque_len(&self.frames);
        let mut out: Vec<u8> = Vec::new();
        match (deque_get(&self.frames, n - 1), deque_get(&self.frames, n - 2)) {
            (Some(last), Some(second_last)) => {
                let size: usize = last.len();
                assert(last@ == self@[n - 1]);
                assert(second_last@ == self@[n - 2]);
                let mut i: usize = 0;
                while i < size
                    invariant
                        i <= size,
                        size == last@.len(),
                        size == second_last@.len(),
                        out@ == pointwise_max(last@, second_last@).take(i as int),
                    decreases size - i,
                {
                    let a: u8 = last[i];
                    let b: u8 = second_last[i];
                    out.push(
                        if a >= b {
                            a
                        } else {
                            b
                        },
                    );
                    i += 1;
                    assert(out@ =~= pointwise_max(last@, second_last@).take(i as int));
                }
                assert(out@ =~= pointwise_max(last@, second_last@));
            },
            _ => {},
        }
        out
    }
}

} // verus!
