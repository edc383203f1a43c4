//! The call stack of a stopped thread, as the stack walker reports it.

use vstd::prelude::*;

verus! {

/// One frame of the call stack: where the thread executes, the return
/// address, and the frame and stack pointers.
#[derive(Debug, Clone, Copy, PartialEq, Eq, Structural)]
pub struct Frame {
    pub pc: u64,
    pub ret: u64,
    pub frame_ptr: u64,
    pub stack: u64,
}

/// `i` is the first frame whose instruction pointer is `rip`.
pub open spec fn first_frame_at(frames: Seq<Frame>, rip: u64, i: int) -> bool {
    0 <= i < frames.len() && frames[i].pc == rip && forall|j: int| 0 <= j < i ==> frames[j].pc != rip
}

fn first_frame_index(frames: &Vec<Frame>, rip: u64) -> (r: Option<usize>)
    ensures
        match r {
            Some(i) => first_frame_at(frames@, rip, i as int),
            None => forall|j: int| 0 <= j < frames@.len() ==> frames@[j].pc != rip,
        },
{
    let mut i: usize = 0;
    while i < frames.len()
        invariant
            i <= frames.len(),
            forall|j: int| 0 <= j < i ==> frames@[j].pc != rip,
        decreases frames.len() - i,
    {
        if frames[i].pc == rip {
            return Some(i);
        }
        i = i + 1;
    }
    None
}

/// The first frame executing at `rip`.
pub fn get_real_frame(frames: &Vec<Frame>, rip: u64) -> (r: Option<Frame>)
    ensures
        match r {
            Some(f) => exists|i: int| first_frame_at(frames@, rip, i) && frames@[i] == f,
            None => forall|j: int| 0 <= j < frames@.len() ==> frames@[j].pc != rip,
        },
{
    match first_frame_index(frames, rip) {
        Some(i) => Some(frames[i]),
        None => None,
    }
}

/// The frame of the caller of the first frame executing at `rip`, when
/// there is one.
pub fn get_frame_before_func(frames: &Vec<Frame>, rip: u64) -> (r: Option<Frame>)
    ensures
        match r {
            Some(f) => exists|i: int|
                first_frame_at(frames@, rip, i) && i + 1 < frames@.len() && frames@[i + 1] == f,
            None => forall|i: int| first_frame_at(frames@, rip, i) ==> i + 1 >= frames@.len(),
        },
{
    match first_frame_index(frames, rip) {
        Some(i) => {
            if i < frames.len() - 1 {
                Some(frames[i + 1])
            } else {
                None
            }
        },
        None => None,
    }
}

} // verus!
