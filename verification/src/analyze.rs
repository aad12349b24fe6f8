//! Bus load of a network: how many frames and bits per second its periodic
//! messages put on the bus (11-bit identifiers).

use vstd::prelude::*;
use crate::message::CANMessage;
use crate::network::CANNetwork;

verus! {

/// Frames per second of a message: 1000 over its cycle time in milliseconds,
/// rounded down; none for a message without a cycle time.
pub open spec fn frames_per_second(m: CANMessage) -> nat {
    match m.cycletime {
        Some(c) => (1000u32 / c) as nat,
        None => 0,
    }
}

/// Bits of a frame with `bytes` data bytes and an 11-bit identifier, stuff bits included.
pub open spec fn bits_per_frame(bytes: nat) -> nat {
    (34 + 8 * bytes) / 5 + 47 + 8 * bytes
}

/// Bits per second of a message.
pub open spec fn bits_per_second(m: CANMessage) -> nat {
    match m.cycletime {
        Some(c) => (1000u32 / c) as nat * bits_per_frame(m.length as nat),
        None => 0,
    }
}

/// Frames per second of the messages.
pub open spec fn total_frames(msgs: Seq<CANMessage>) -> nat
    decreases msgs.len(),
{
    if msgs.len() == 0 {
        0
    } else {
        total_frames(msgs.drop_last()) + frames_per_second(msgs.last())
    }
}

/// Bits per second of the messages.
pub open spec fn total_bits(msgs: Seq<CANMessage>) -> nat
    decreases msgs.len(),
{
    if msgs.len() == 0 {
        0
    } else {
        total_bits(msgs.drop_last()) + bits_per_second(msgs.last())
    }
}

/// Every cycle time is nonzero, and every count on the way fits in 32 bits.
pub open spec fn load_computable(msgs: Seq<CANMessage>) -> bool {
    &&& forall|i: int| 0 <= i < msgs.len() ==> (#[trigger] msgs[i]).cycletime != Some(0u32)
    &&& forall|i: int|
        0 <= i < msgs.len() && (#[trigger] msgs[i]).cycletime is Some ==> bits_per_frame(
            msgs[i].length as nat,
        ) <= u32::MAX
    &&& forall|i: int|
        0 <= i < msgs.len() ==> bits_per_second(#[trigger] msgs[i]) <= u32::MAX
    &&& forall|k: int| 0 <= k <= msgs.len() ==> total_frames(#[trigger] msgs.take(k)) <= u32::MAX
    &&& forall|k: int| 0 <= k <= msgs.len() ==> total_bits(#[trigger] msgs.take(k)) <= u32::MAX
}

/// Bus load analysis of a network.
pub struct Analyze<'n> {
    net: &'n CANNetwork,
}

impl<'n> Analyze<'n> {
    /// The network analyzed.
    pub closed spec fn spec_net(self) -> CANNetwork {
        *self.net
    }

    /// Analysis of the given network.
    pub fn new(net: &'n CANNetwork) -> (r: Analyze<'n>)
        ensures
            r.spec_net() == *net,
    {
        Analyze { net }
    }

    /// [`bus_usage`](Self::bus_usage) where it can be computed: `None` when a
    /// message has a cycle time of 0 or a count does not fit in 32 bits.
    pub fn checked_bus_usage(&self) -> (r: Option<(u32, u32)>)
        ensures
            load_computable(self.spec_net().spec_messages()) ==> r == Some(
                (
                    total_frames(self.spec_net().spec_messages()) as u32,
                    total_bits(self.spec_net().spec_messages()) as u32,
                ),
            ),
            !load_computable(self.spec_net().spec_messages()) ==> r is None,
    {
        let msgs = self.net.messages();
        let ghost all = self.spec_net().spec_messages();
        let mut frames: u32 = 0;
        let mut bits_sent: u32 = 0;
        let mut i: usize = 0;
        while i < msgs.len()
            invariant
                msgs@ == all,
                all == self.spec_net().spec_messages(),
                0 <= i <= all.len(),
                frames == total_frames(all.take(i as int)),
                bits_sent == total_bits(all.take(i as int)),
                forall|j: int| 0 <= j < i ==> (#[trigger] all[j]).cycletime != Some(0u32),
                forall|j: int|
                    0 <= j < i && (#[trigger] all[j]).cycletime is Some ==> bits_per_frame(
                        all[j].length as nat,
                    ) <= u32::MAX,
                forall|j: int| 0 <= j < i ==> bits_per_second(#[trigger] all[j]) <= u32::MAX,
                forall|k: int| 0 <= k <= i ==> total_frames(#[trigger] all.take(k)) <= u32::MAX,
                forall|k: int| 0 <= k <= i ==> total_bits(#[trigger] all.take(k)) <= u32::MAX,
            decreases all.len() - i,
        {
            let msg = &msgs[i];
            proof {
                assert(all.take(i + 1).drop_last() =~= all.take(i as int));
                assert(all.take(i + 1).last() == all[i as int]);
            }
            if let Some(cycletime) = msg.cycletime {
                if cycletime == 0 {
                    return None;
                }
                let frame = 1000 / cycletime;
                let f = match frames.checked_add(frame) {
                    Some(f) => f,
                    None => {
                        return None;
                    },
                };
                let frame_bytes = msg.length;
                let t = match frame_bytes.checked_mul(8) {
                    Some(t) => t,
                    None => {
                        return None;
                    },
                };
                let bpf = match t.checked_add(34) {
                    Some(u) => match (u / 5).checked_add(47) {
                        Some(v) => match v.checked_add(t) {
                            Some(w) => w,
                            None => {
                                return None;
                            },
                        },
                        None => {
                            return None;
                        },
                    },
                    None => {
                        return None;
                    },
                };
                let per = match frame.checked_mul(bpf) {
                    Some(p) => p,
                    None => {
                        return None;
                    },
                };
                let b = match bits_sent.checked_add(per) {
                    Some(b) => b,
                    None => {
                        return None;
                    },
                };
                frames = f;
                bits_sent = b;
            }
            proof {
                assert forall|k: int| 0 <= k <= i + 1 implies total_frames(#[trigger] all.take(k)) <= u32::MAX by {
                    if k == i + 1 {
                    }
                }
                assert forall|k: int| 0 <= k <= i + 1 implies total_bits(#[trigger] all.take(k)) <= u32::MAX by {
                    if k == i + 1 {
                    }
                }
            }
            i = i + 1;
        }
        proof {
            assert(all.take(all.len() as int) =~= all);
        }
        Some((frames, bits_sent))
    }

    /// Frames per second and bits per second that the network's periodic messages
    /// put on the bus.
    pub fn bus_usage(&self) -> (r: (u32, u32))
        requires
            load_computable(self.spec_net().spec_messages()),
        ensures
            r.0 == total_frames(self.spec_net().spec_messages()),
            r.1 == total_bits(self.spec_net().spec_messages()),
    {
        let msgs = self.net.messages();
        let ghost all = self.spec_net().spec_messages();
        let mut frames: u32 = 0;
        let mut bits_sent: u32 = 0;
        let mut i: usize = 0;
        while i < msgs.len()
            invariant
                msgs@ == all,
                load_computable(all),
                0 <= i <= all.len(),
                frames == total_frames(all.take(i as int)),
                bits_sent == total_bits(all.take(i as int)),
            decreases all.len() - i,
        {
            let msg = &msgs[i];
            proof {
                assert(all.take(i + 1).drop_last() =~= all.take(i as int));
                assert(all.take(i + 1).last() == all[i as int]);
                assert(total_frames(all.take(i + 1)) <= u32::MAX);
                assert(total_bits(all.take(i + 1)) <= u32::MAX);
                assert(bits_per_second(all[i as int]) <= u32::MAX);
                assert(all[i as int].cycletime is Some ==> bits_per_frame(all[i as int].length as nat) <= u32::MAX);
            }
            if let Some(cycletime) = msg.cycletime {
                let frame = 1000 / cycletime;
                frames = frames + frame;
                let frame_bytes = msg.length;
                let bits_per_frame = ((34 + 8 * frame_bytes) / 5) + 47 + 8 * frame_bytes;
                proof {
                    assert(frame as nat * bits_per_frame as nat <= u32::MAX);
                }
                bits_sent = bits_sent + frame * bits_per_frame;
            }
            i = i + 1;
        }
        proof {
            assert(all.take(all.len() as int) =~= all);
        }
        (frames, bits_sent)
    }
}

} // verus!
