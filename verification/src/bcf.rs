//! The serial-bootloader write engine model: progress is counted in
//! acknowledged protocol frames, and a timed-out frame is retried up to a
//! bounded count before the operation fails.

use vstd::prelude::*;
use crate::common::Destination;
use crate::status::Fraction;

verus! {

/// Failures specific to the serial-bootloader target class.
#[derive(Debug, Clone, Copy, PartialEq, Eq, Structural)]
pub enum Error {
    /// A frame timed out more often than the retry budget allows.
    ProtocolTimeout,
}

impl Error {
    /// The human-readable description of this failure.
    pub open spec fn message_spec(self) -> Seq<char> {
        match self {
            Error::ProtocolTimeout => "serial protocol timed out"@,
        }
    }

    /// A human-readable description of this failure.
    pub fn message(&self) -> (r: String)
        ensures
            r@ == self.message_spec(),
    {
        match self {
            Error::ProtocolTimeout => "serial protocol timed out".to_owned(),
        }
    }
}

/// What the transfer should do after a frame timed out.
#[derive(Debug, Clone, Copy, PartialEq, Eq, Structural)]
pub enum TimeoutAction {
    /// Send the same frame again.
    Retry,
    /// The retry budget is exhausted; the operation fails.
    Fail,
}

/// The transfer state of one serial-bootloader flash: which frame is
/// next, and how many retries the current frame has left.
///
/// Forward progress is the count of acknowledged frames; a timeout never
/// advances it. A single frame is retried at most `max_retries` times
/// before the whole operation is declared failed.
pub struct FrameTransfer {
    total_frames: u64,
    acked: u64,
    max_retries: u8,
    retries_left: u8,
}

impl FrameTransfer {
    /// Frames the whole image needs.
    pub closed spec fn total_frames(self) -> u64 {
        self.total_frames
    }

    /// Frames acknowledged so far.
    pub closed spec fn acked(self) -> u64 {
        self.acked
    }

    /// Retry budget per frame.
    pub closed spec fn max_retries(self) -> u8 {
        self.max_retries
    }

    /// Retries the current frame has left.
    pub closed spec fn retries_left(self) -> u8 {
        self.retries_left
    }

    /// Acknowledged frames never exceed the total, and the per-frame
    /// budget is never exceeded.
    pub closed spec fn wf(self) -> bool {
        self.acked <= self.total_frames && self.retries_left <= self.max_retries
    }

    /// Start a transfer of `total_frames` frames with a per-frame retry
    /// budget of `max_retries`.
    pub fn new(total_frames: u64, max_retries: u8) -> (r: Self)
        ensures
            r.wf(),
            r.total_frames() == total_frames,
            r.acked() == 0,
            r.max_retries() == max_retries,
            r.retries_left() == max_retries,
    {
        Self { total_frames, acked: 0, max_retries, retries_left: max_retries }
    }

    /// The transfer is complete once every frame is acknowledged.
    pub fn is_done(&self) -> (r: bool)
        ensures
            r == (self.acked() == self.total_frames()),
    {
        self.acked == self.total_frames
    }

    /// One frame was acknowledged: progress advances by one frame and the
    /// retry budget of the next frame is fresh. Returns the progress
    /// fraction to report, in acknowledged frames over total frames.
    pub fn frame_acked(&mut self) -> (r: Fraction)
        requires
            old(self).wf(),
            old(self).acked() < old(self).total_frames(),
        ensures
            final(self).wf(),
            final(self).total_frames() == old(self).total_frames(),
            final(self).acked() == old(self).acked() + 1,
            final(self).max_retries() == old(self).max_retries(),
            final(self).retries_left() == old(self).max_retries(),
            r == Fraction::spec_of((old(self).acked() + 1) as u64, old(self).total_frames()),
            r.wf(),
    {
        self.acked = self.acked + 1;
        self.retries_left = self.max_retries;
        Fraction::of(self.acked, self.total_frames)
    }

    /// The current frame timed out: retry while the budget lasts, fail
    /// once it is exhausted. A timeout never advances progress.
    pub fn frame_timeout(&mut self) -> (r: TimeoutAction)
        requires
            old(self).wf(),
        ensures
            final(self).wf(),
            final(self).total_frames() == old(self).total_frames(),
            final(self).acked() == old(self).acked(),
            final(self).max_retries() == old(self).max_retries(),
            r == TimeoutAction::Retry <==> old(self).retries_left() > 0,
            old(self).retries_left() > 0 ==> final(self).retries_left() == old(self).retries_left() - 1,
            old(self).retries_left() == 0 ==> r == TimeoutAction::Fail
                && final(self).retries_left() == 0,
    {
        if self.retries_left > 0 {
            self.retries_left = self.retries_left - 1;
            TimeoutAction::Retry
        } else {
            TimeoutAction::Fail
        }
    }
}

/// The destination is one of the reported serial ports: the port name
/// serves as both label and path, and no size is known.
pub open spec fn from_port(d: Destination, ports: Seq<String>) -> bool {
    exists|j: int|
        0 <= j < ports.len() && d.name@ == (#[trigger] ports[j])@ && d.path@ == ports[j]@
            && d.size is None
}

/// Some listed destination carries this port's name.
pub open spec fn port_listed(port: Seq<char>, r: Seq<Destination>) -> bool {
    exists|i: int| 0 <= i < r.len() && (#[trigger] r[i]).name@ == port && r[i].path@ == port
}

/// Whether the list already holds a destination for this port.
fn contains_port(v: &Vec<Destination>, port: &String) -> (r: bool)
    ensures
        r == port_listed(port@, v@),
{
    let mut i: usize = 0;
    while i < v.len()
        invariant
            0 <= i <= v@.len(),
            forall|j: int|
                0 <= j < i ==> !((#[trigger] v@[j]).name@ == port@ && v@[j].path@ == port@),
        decreases v@.len() - i,
    {
        if v[i].name == *port && v[i].path == *port {
            return true;
        }
        i = i + 1;
    }
    false
}

/// The candidate serial destinations among the ports the platform
/// reported: one destination per distinct port path, with no size. On a
/// platform that reports nothing, the result is empty rather than an
/// error.
pub fn destinations(ports: Vec<String>) -> (r: Vec<Destination>)
    ensures
        forall|i: int, j: int|
            0 <= i < j < r@.len() ==> !(#[trigger] r@[i]).same_identity(#[trigger] r@[j]),
        forall|i: int| 0 <= i < r@.len() ==> from_port(#[trigger] r@[i], ports@),
        forall|j: int| 0 <= j < ports@.len() ==> port_listed((#[trigger] ports@[j])@, r@),
{
    let mut out: Vec<Destination> = Vec::new();
    let mut j: usize = 0;
    while j < ports.len()
        invariant
            0 <= j <= ports@.len(),
            forall|a: int, b: int|
                0 <= a < b < out@.len() ==> !(#[trigger] out@[a]).same_identity(
                    #[trigger] out@[b],
                ),
            forall|a: int| 0 <= a < out@.len() ==> from_port(#[trigger] out@[a], ports@),
            forall|b: int| 0 <= b < j ==> port_listed((#[trigger] ports@[b])@, out@),
        decreases ports@.len() - j,
    {
        let ghost gj: int = j as int;
        let ghost pre: Seq<Destination> = out@;
        if !contains_port(&out, &ports[j]) {
            let d = Destination::port(ports[j].clone());
            out.push(d);
            proof {
                let last: int = out@.len() - 1;
                assert(out@[last].name@ == ports@[gj]@ && out@[last].path@ == ports@[gj]@
                    && out@[last].size is None);
                assert forall|a: int, b: int|
                    0 <= a < b < out@.len() implies !(#[trigger] out@[a]).same_identity(
                    #[trigger] out@[b],
                ) by {
                    if b < last {
                        assert(out@[a] == pre[a] && out@[b] == pre[b]);
                    } else {
                        assert(out@[a] == pre[a]);
                    }
                }
            }
        }
        proof {
            assert forall|a: int| 0 <= a < out@.len() implies from_port(
                #[trigger] out@[a],
                ports@,
            ) by {
                if a < pre.len() {
                    assert(out@[a] == pre[a]);
                    assert(from_port(pre[a], ports@));
                } else {
                    assert(out@[a].name@ == ports@[gj]@ && out@[a].path@ == ports@[gj]@
                        && out@[a].size is None);
                }
            }
            assert forall|b: int| 0 <= b <= gj implies port_listed(
                (#[trigger] ports@[b])@,
                out@,
            ) by {
                if b < gj {
                    assert(port_listed(ports@[b]@, pre));
                    let a0 = choose|a0: int|
                        0 <= a0 < pre.len() && (#[trigger] pre[a0]).name@ == ports@[b]@
                            && pre[a0].path@ == ports@[b]@;
                    assert(out@[a0] == pre[a0]);
                    assert(0 <= a0 < out@.len() && out@[a0].name@ == ports@[b]@ && out@[a0].path@
                        == ports@[b]@);
                } else {
                    if out@.len() > pre.len() {
                        let last: int = out@.len() - 1;
                        assert(0 <= last < out@.len() && out@[last].name@ == ports@[gj]@
                            && out@[last].path@ == ports@[gj]@);
                    } else {
                        let a0 = choose|a0: int|
                            0 <= a0 < pre.len() && (#[trigger] pre[a0]).name@ == ports@[gj]@
                                && pre[a0].path@ == ports@[gj]@;
                        assert(0 <= a0 < out@.len() && out@[a0].name@ == ports@[gj]@
                            && out@[a0].path@ == ports@[gj]@);
                    }
                }
            }
        }
        j = j + 1;
    }
    out
}

} // verus!
