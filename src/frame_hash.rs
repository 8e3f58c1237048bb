use vstd::prelude::*;
use crate::error::RollbackError;

verus! {

/// Frame number as counted by the session; negative only for `NULL_FRAME`.
pub type Frame = i32;

/// The frame number that stands for "no frame".
pub const NULL_FRAME: Frame = -1;

/// Number of frames a ledger remembers: the largest rollback window supported.
pub const DESYNC_MAX_FRAMES: usize = 30;

/// One frame's checksum of the simulation state, with its bookkeeping flags.
/// A slot that holds no frame has `frame == NULL_FRAME`.
#[derive(Clone, Copy, Debug, PartialEq, Eq, Structural)]
pub struct FrameHash {
    pub frame: Frame,
    pub rapier_checksum: u16,
    pub confirmed: bool,
    pub sent: bool,
    pub validated: bool,
}

impl FrameHash {
    /// The content of a slot that holds no frame.
    pub open spec fn empty_spec() -> FrameHash {
        FrameHash { frame: NULL_FRAME, rapier_checksum: 0, confirmed: false, sent: false, validated: false }
    }

    /// A slot that holds no frame.
    pub fn empty() -> (r: FrameHash)
        ensures
            r == FrameHash::empty_spec(),
    {
        FrameHash { frame: NULL_FRAME, rapier_checksum: 0, confirmed: false, sent: false, validated: false }
    }

    /// The slot holds a frame.
    pub open spec fn is_live(self) -> bool {
        self.frame >= 0
    }
}

/// Decides which frames lie outside the rollback window: a frame can be reported to peers
/// once it is strictly older than `current_frame - window`.
#[derive(Clone, Copy, Debug, PartialEq, Eq, Structural)]
pub struct ValidatableFrame {
    pub current_frame: Frame,
    pub window: Frame,
}

impl ValidatableFrame {
    pub open spec fn admits(self, frame: Frame) -> bool {
        (frame as int) < (self.current_frame as int) - (self.window as int)
    }

    /// Whether no correction can touch `frame` any more.
    pub fn is_validatable(&self, frame: Frame) -> (r: bool)
        ensures
            r == self.admits(frame),
    {
        (frame as i64) < (self.current_frame as i64) - (self.window as i64)
    }
}

/// A ring buffer of frame checksums, frame `f` kept in slot `f % capacity`.
#[derive(Debug)]
pub struct FrameHashes {
    pub hashes: Vec<FrameHash>,
}

/// The slot that frame `frame` occupies in a ledger of `capacity` slots.
pub open spec fn slot_of(frame: Frame, capacity: nat) -> int {
    (frame as int) % (capacity as int)
}

/// The ledger contents after recording `checksum` for `frame`: the frame's slot holds
/// it, neither confirmed nor sent, whatever the slot held before.
pub open spec fn recorded(v: Seq<FrameHash>, frame: Frame, checksum: u16) -> Seq<FrameHash> {
    v.update(
        slot_of(frame, v.len()),
        FrameHash { frame, rapier_checksum: checksum, confirmed: false, sent: false, validated: false },
    )
}

/// The ledger contents after confirming `frame`: its entry is marked confirmed if its
/// slot still holds it, and nothing changes otherwise.
pub open spec fn confirmed(v: Seq<FrameHash>, frame: Frame) -> Seq<FrameHash> {
    let s = slot_of(frame, v.len());
    if frame >= 0 && v[s].frame == frame {
        v.update(s, FrameHash { confirmed: true, ..v[s] })
    } else {
        v
    }
}

/// The ledger contents after recording frames `0, 1, ..` with the given checksums in
/// turn, each confirmed as soon as it is recorded.
pub open spec fn record_confirm_run(v: Seq<FrameHash>, checksums: Seq<u16>) -> Seq<FrameHash>
    decreases checksums.len(),
{
    if checksums.len() == 0 {
        v
    } else {
        let f = (checksums.len() - 1) as Frame;
        confirmed(recorded(record_confirm_run(v, checksums.drop_last()), f, checksums.last()), f)
    }
}

/// Recording and confirming frames `0..n` in turn in a ledger of `c` slots: each slot
/// `i` below `n` holds the newest frame congruent to `i` modulo `c` (the one in
/// `n - c .. n`), with that frame's own checksum, confirmed and not yet sent. A slot
/// is thus taken over every `c` frames, and no slot keeps an older frame once a newer
/// one of its residue has come. Slots that no frame reached keep what they held.
pub proof fn lemma_ring_reuse(v: Seq<FrameHash>, checksums: Seq<u16>)
    requires
        v.len() > 0,
        checksums.len() <= 0x8000_0000,
    ensures
        ({
            let w = record_confirm_run(v, checksums);
            let n = checksums.len() as int;
            let c = v.len() as int;
            &&& w.len() == c
            &&& forall|i: int|
                #![trigger w[i]]
                0 <= i < c ==> if i < n {
                    &&& (w[i].frame as int) % c == i
                    &&& 0 <= w[i].frame
            &&& n - c <= w[i].frame as int <= n - 1
                    &&& w[i].rapier_checksum == checksums[w[i].frame as int]
                    &&& w[i].confirmed
                    &&& !w[i].sent
                } else {
                    w[i] == v[i]
                }
        }),
    decreases checksums.len(),
{
    if checksums.len() > 0 {
        let prefix = checksums.drop_last();
        lemma_ring_reuse(v, prefix);
        let n = checksums.len() as int;
        let c = v.len() as int;
        let f = n - 1;
        let prev = record_confirm_run(v, prefix);
        let w = record_confirm_run(v, checksums);
        let s = f % c;
        vstd::arithmetic::div_mod::lemma_mod_decreases(f as nat, c as nat);
        assert(s < n);
        assert(slot_of(f as Frame, prev.len()) == s);
        let rec = recorded(prev, f as Frame, checksums.last());
        assert(rec[s].frame == f as Frame);
        assert(w == rec.update(s, FrameHash { confirmed: true, ..rec[s] }));
        assert forall|i: int| #![trigger w[i]] 0 <= i < c implies if i < n {
            &&& (w[i].frame as int) % c == i
            &&& 0 <= w[i].frame
            &&& n - c <= w[i].frame as int <= n - 1
            &&& w[i].rapier_checksum == checksums[w[i].frame as int]
            &&& w[i].confirmed
            &&& !w[i].sent
        } else {
            w[i] == v[i]
        } by {
            if i == s {
                assert(w[i].frame as int == f);
            } else {
                assert(w[i] == prev[i]);
                if i < f {
                    let g = prev[i].frame as int;
                    assert(g % c == i);
                    if g == f - c {
                        vstd::arithmetic::div_mod::lemma_mod_sub_multiples_vanish(f, c);
                    }
                    assert(prefix[g] == checksums[g]);
                } else if i == f {
                    vstd::arithmetic::div_mod::lemma_small_mod(f as nat, c as nat);
                }
            }
        }
    }
}

/// The slot of `frame` in `v` holds that very frame.
pub open spec fn holds_in(v: Seq<FrameHash>, frame: Frame) -> bool {
    frame >= 0 && v[slot_of(frame, v.len())].frame == frame
}

/// The error, if any, that a peer's report of `checksum` for `frame` raises against
/// the receive-side ledger `rx` and the local ledger `local`.
pub open spec fn report_error(
    rx: Seq<FrameHash>,
    local: Seq<FrameHash>,
    frame: Frame,
    checksum: u16,
) -> Option<RollbackError> {
    let held = rx[slot_of(frame, rx.len())];
    if held.frame == frame && held.rapier_checksum != checksum {
        Some(RollbackError::Desync { frame })
    } else if held.frame > frame {
        Some(RollbackError::LedgerInconsistency { held: held.frame, reported: frame })
    } else if holds_in(local, frame) && local[slot_of(frame, local.len())].rapier_checksum != checksum {
        Some(RollbackError::Desync { frame })
    } else {
        None
    }
}

/// The receive-side ledger once a peer's report has been accepted: the slot of `frame`
/// holds the report, validated when the local ledger holds the same frame (with the
/// same checksum, else the report was refused) or when it was validated before.
pub open spec fn received(rx: Seq<FrameHash>, local: Seq<FrameHash>, frame: Frame, checksum: u16) -> Seq<
    FrameHash,
> {
    let s = slot_of(frame, rx.len());
    rx.update(
        s,
        FrameHash {
            frame,
            rapier_checksum: checksum,
            confirmed: false,
            sent: false,
            validated: holds_in(local, frame) || (rx[s].frame == frame && rx[s].validated),
        },
    )
}

impl View for FrameHashes {
    type V = Seq<FrameHash>;

    open spec fn view(&self) -> Seq<FrameHash> {
        self.hashes@
    }
}

impl FrameHashes {
    /// At least one slot, and each frame held sits in its own slot.
    pub open spec fn wf(&self) -> bool {
        &&& self@.len() > 0
        &&& forall|i: int|
            0 <= i < self@.len() && #[trigger] self@[i].is_live() ==> slot_of(
                self@[i].frame,
                self@.len(),
            ) == i
    }

    /// The live entry that holds `frame`, if its slot holds that frame.
    pub open spec fn holds(&self, frame: Frame) -> bool {
        holds_in(self@, frame)
    }

    /// A ledger of `capacity` empty slots.
    pub fn new(capacity: usize) -> (r: FrameHashes)
        requires
            capacity > 0,
        ensures
            r.wf(),
            r@ == Seq::new(capacity as nat, |i: int| FrameHash::empty_spec()),
    {
        let mut hashes: Vec<FrameHash> = Vec::new();
        let mut i: usize = 0;
        while i < capacity
            invariant
                i <= capacity,
                hashes@ == Seq::new(i as nat, |j: int| FrameHash::empty_spec()),
            decreases capacity - i,
        {
            hashes.push(FrameHash::empty());
            i = i + 1;
        }
        FrameHashes { hashes }
    }

    /// Slot index of `frame`.
    pub fn slot(&self, frame: Frame) -> (r: usize)
        requires
            self.wf(),
            frame >= 0,
        ensures
            r as int == slot_of(frame, self@.len()),
            r < self@.len(),
    {
        (frame as usize) % self.hashes.len()
    }

    /// Records the checksum of a frame just simulated, neither confirmed nor sent,
    /// replacing whatever its slot held.
    pub fn record(&mut self, frame: Frame, checksum: u16)
        requires
            old(self).wf(),
            frame >= 0,
        ensures
            final(self).wf(),
            final(self)@ == recorded(old(self)@, frame, checksum),
    {
        let s = self.slot(frame);
        self.hashes.set(
            s,
            FrameHash { frame, rapier_checksum: checksum, confirmed: false, sent: false, validated: false },
        );
    }

    /// Marks `frame` confirmed if the ledger still holds it; otherwise changes nothing.
    pub fn confirm(&mut self, frame: Frame)
        requires
            old(self).wf(),
            frame >= 0,
        ensures
            final(self).wf(),
            final(self)@ == confirmed(old(self)@, frame),
    {
        let s = self.slot(frame);
        let h = self.hashes[s];
        if h.frame == frame {
            self.hashes.set(s, FrameHash { confirmed: true, ..h });
        }
    }

    /// An entry that may be reported to peers: confirmed, not yet sent, and outside
    /// the rollback window.
    pub open spec fn reportable(h: FrameHash, gate: ValidatableFrame) -> bool {
        h.is_live() && h.confirmed && !h.sent && gate.admits(h.frame)
    }

    /// Position of the first reportable entry at or after `from`; the ledger's length
    /// when there is none.
    pub open spec fn first_reportable(v: Seq<FrameHash>, gate: ValidatableFrame, from: int) -> int
        decreases v.len() - from,
    {
        if from >= v.len() || from < 0 {
            v.len() as int
        } else if Self::reportable(v[from], gate) {
            from
        } else {
            Self::first_reportable(v, gate, from + 1)
        }
    }

    /// The frame and checksum that the next outgoing record reports, if any.
    pub open spec fn report_of(v: Seq<FrameHash>, gate: ValidatableFrame) -> Option<(Frame, u16)> {
        let k = Self::first_reportable(v, gate, 0);
        if k < v.len() {
            Some((v[k].frame, v[k].rapier_checksum))
        } else {
            None
        }
    }

    /// The ledger once the next report has gone out: that entry is marked sent.
    pub open spec fn after_report(v: Seq<FrameHash>, gate: ValidatableFrame) -> Seq<FrameHash> {
        let k = Self::first_reportable(v, gate, 0);
        if k < v.len() {
            v.update(k, FrameHash { sent: true, ..v[k] })
        } else {
            v
        }
    }

    /// `first_reportable` is what its name says: the entry it finds is reportable and
    /// no entry between `from` and it is.
    pub proof fn lemma_first_reportable(v: Seq<FrameHash>, gate: ValidatableFrame, from: int)
        requires
            0 <= from <= v.len(),
        ensures
            from <= Self::first_reportable(v, gate, from) <= v.len(),
            Self::first_reportable(v, gate, from) < v.len() ==> Self::reportable(
                v[Self::first_reportable(v, gate, from)],
                gate,
            ),
            forall|j: int|
                from <= j < Self::first_reportable(v, gate, from) ==> !Self::reportable(
                    #[trigger] v[j],
                    gate,
                ),
        decreases v.len() - from,
    {
        if from < v.len() && !Self::reportable(v[from], gate) {
            Self::lemma_first_reportable(v, gate, from + 1);
        }
    }

    /// Finds the first reportable entry, marks it sent, and hands out its frame and
    /// checksum; `None`, with nothing changed, when no entry is reportable.
    pub fn take_report(&mut self, gate: &ValidatableFrame) -> (r: Option<(Frame, u16)>)
        requires
            old(self).wf(),
        ensures
            final(self).wf(),
            r == Self::report_of(old(self)@, *gate),
            final(self)@ == Self::after_report(old(self)@, *gate),
    {
        let mut i: usize = 0;
        while i < self.hashes.len()
            invariant
                self.wf(),
                self@ == old(self)@,
                i <= self@.len(),
                Self::first_reportable(self@, *gate, 0) == Self::first_reportable(self@, *gate, i as int),
            decreases self@.len() - i,
        {
            let h = self.hashes[i];
            if h.frame >= 0 && h.confirmed && !h.sent && gate.is_validatable(h.frame) {
                self.hashes.set(i, FrameHash { sent: true, ..h });
                proof {
                    assert forall|k: int| 0 <= k < self@.len() && #[trigger] self@[k].is_live() implies slot_of(
                        self@[k].frame,
                        self@.len(),
                    ) == k by {
                        assert(old(self)@[k].frame == self@[k].frame);
                        assert(old(self)@[k].is_live());
                    }
                }
                return Some((h.frame, h.rapier_checksum));
            }
            i = i + 1;
        }
        None
    }

    /// Takes in a peer's report that its simulation had `checksum` at `frame`.
    /// A report that contradicts an earlier report or the local checksum of the same
    /// frame is a desync; one for a frame older than what its slot holds is a ledger
    /// inconsistency. Either error leaves the ledger as it was.
    pub fn receive_report(&mut self, local: &FrameHashes, frame: Frame, checksum: u16) -> (r: Result<
        (),
        RollbackError,
    >)
        requires
            old(self).wf(),
            local.wf(),
            frame >= 0,
        ensures
            final(self).wf(),
            match report_error(old(self)@, local@, frame, checksum) {
                Some(e) => r == Err::<(), RollbackError>(e) && final(self)@ == old(self)@,
                None => r is Ok && final(self)@ == received(old(self)@, local@, frame, checksum),
            },
    {
        let s = self.slot(frame);
        let held = self.hashes[s];
        if held.frame == frame && held.rapier_checksum != checksum {
            return Err(RollbackError::Desync { frame });
        }
        if held.frame > frame {
            return Err(RollbackError::LedgerInconsistency { held: held.frame, reported: frame });
        }
        let ls = local.slot(frame);
        let mine = local.hashes[ls];
        let known_here = mine.frame == frame;
        if known_here && mine.rapier_checksum != checksum {
            return Err(RollbackError::Desync { frame });
        }
        self.hashes.set(
            s,
            FrameHash {
                frame,
                rapier_checksum: checksum,
                confirmed: false,
                sent: false,
                validated: known_here || (held.frame == frame && held.validated),
            },
        );
        Ok(())
    }
}

} // verus!
