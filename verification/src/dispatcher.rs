//! Type-routed event dispatcher: consumers subscribe to one typed
//! shape and receive, in FIFO order, every message that converts to it.
//! One raw message can satisfy several shapes at once; every subscriber
//! of a matching shape gets its own copy, exactly once.  `reset` drops
//! every subscription at once, and every handle issued before it then
//! reports end-of-sequence.

use crate::irc::RawMessage;
use crate::messages::{convert, convert_spec, MessageKind, TypedMessage, TypedSpec};
use vstd::prelude::*;

verus! {

/// Model of one subscription: its shape, its queued messages in
/// delivery order, and whether its receiving side is still live.
pub struct SubView {
    pub kind: MessageKind,
    pub queue: Seq<TypedSpec>,
    pub live: bool,
}

/// One subscription's delivery queue.
struct Subscriber {
    kind: MessageKind,
    queue: Vec<TypedMessage>,
    live: bool,
}

impl View for Subscriber {
    type V = SubView;

    closed spec fn view(&self) -> SubView {
        SubView {
            kind: self.kind,
            queue: self.queue@.map_values(|m: TypedMessage| m@),
            live: self.live,
        }
    }
}

/// Handle returned by `subscribe`: the subscription's slot and the
/// dispatcher generation it was minted in.
#[derive(Clone, Copy, Debug, PartialEq, Eq, Structural)]
pub struct SubId {
    pub index: usize,
    pub generation: u64,
}

/// What one poll of a subscription yields.
pub enum Polled {
    /// The next message, in the order it was dispatched.
    Msg(TypedMessage),
    /// Nothing queued now; more may come.
    Pending,
    /// End of the sequence: the dispatcher was reset, or the handle's
    /// receiving side is gone.
    Ended,
}

/// Subscription table: one slot per subscription, plus the current
/// generation, bumped by `reset` so that stale handles end cleanly.
pub struct Dispatcher {
    subs: Vec<Subscriber>,
    generation: u64,
}

impl Dispatcher {
    /// The live model of every subscription slot, in creation order.
    pub closed spec fn subs(self) -> Seq<SubView> {
        self.subs@.map_values(|s: Subscriber| s@)
    }

    /// The current generation.
    pub closed spec fn generation(self) -> u64 {
        self.generation
    }

    pub fn new() -> (d: Dispatcher)
        ensures
            d.subs() == Seq::<SubView>::empty(),
            d.generation() == 0,
    {
        let d = Dispatcher { subs: Vec::new(), generation: 0 };
        proof {
            assert(d.subs() =~= Seq::<SubView>::empty());
        }
        d
    }

    /// Register interest in shape `kind`.  The new subscription starts
    /// with an empty queue and interferes with no other: every existing
    /// slot is kept as it stands.
    pub fn subscribe(&mut self, kind: MessageKind) -> (id: SubId)
        ensures
            final(self).generation() == old(self).generation(),
            final(self).subs() == old(self).subs().push(
                SubView { kind, queue: Seq::empty(), live: true },
            ),
            id.index == old(self).subs().len(),
            id.generation == old(self).generation(),
    {
        let id = SubId { index: self.subs.len(), generation: self.generation };
        self.subs.push(Subscriber { kind, queue: Vec::new(), live: false });
        let n = self.subs.len();
        self.subs[n - 1].live = true;
        proof {
            assert(self.subs@[self.subs@.len() - 1]@.queue =~= Seq::<TypedSpec>::empty());
            assert(final(self).subs() =~= old(self).subs().push(
                SubView { kind, queue: Seq::empty(), live: true },
            ));
        }
        id
    }

    /// Mark a handle's receiving side as gone.  Its slot stays until a
    /// later dispatch skips it; nothing else changes.
    pub fn close(&mut self, id: SubId)
        ensures
            final(self).generation() == old(self).generation(),
            final(self).subs().len() == old(self).subs().len(),
            forall|i: int|
                0 <= i < old(self).subs().len() && i != id.index
                    ==> final(self).subs()[i] == old(self).subs()[i],
            id.generation == old(self).generation() && id.index < old(self).subs().len()
                ==> final(self).subs()[id.index as int] == (SubView {
                kind: old(self).subs()[id.index as int].kind,
                queue: old(self).subs()[id.index as int].queue,
                live: false,
            }),
    {
        if id.generation == self.generation && id.index < self.subs.len() {
            self.subs[id.index].live = false;
        }
    }

    /// Fan one raw message out.  Every slot whose receiving side is
    /// live and whose shape the message converts to gets exactly one
    /// copy appended to its queue; every other slot is untouched.
    pub fn dispatch(&mut self, raw: &RawMessage)
        requires
            raw.wf(),
        ensures
            final(self).generation() == old(self).generation(),
            final(self).subs().len() == old(self).subs().len(),
            forall|i: int|
                #![trigger final(self).subs()[i]]
                0 <= i < old(self).subs().len() ==> {
                    let s = old(self).subs()[i];
                    if s.live && convert_spec(raw@, s.kind) is Some {
                        final(self).subs()[i] == (SubView {
                            kind: s.kind,
                            queue: s.queue.push(convert_spec(raw@, s.kind).unwrap()),
                            live: s.live,
                        })
                    } else {
                        final(self).subs()[i] == s
                    }
                },
    {
        let n = self.subs.len();
        let mut i: usize = 0;
        while i < n
            invariant
                n == self.subs@.len(),
                n == old(self).subs().len(),
                raw.wf(),
                0 <= i <= n,
                self.generation == old(self).generation,
                forall|k: int|
                    #![trigger self.subs@[k]]
                    i <= k < n ==> self.subs@[k]@ == old(self).subs()[k],
                forall|k: int|
                    #![trigger self.subs@[k]]
                    0 <= k < i ==> {
                        let s = old(self).subs()[k];
                        if s.live && convert_spec(raw@, s.kind) is Some {
                            self.subs@[k]@ == (SubView {
                                kind: s.kind,
                                queue: s.queue.push(convert_spec(raw@, s.kind).unwrap()),
                                live: s.live,
                            })
                        } else {
                            self.subs@[k]@ == s
                        }
                    },
            decreases n - i,
        {
            if self.subs[i].live {
                match convert(raw, self.subs[i].kind) {
                    Ok(t) => {
                        self.subs[i].queue.push(t);
                        proof {
                            assert(self.subs@[i as int]@.queue =~= old(self).subs()[
                                i as int
                            ].queue.push(convert_spec(raw@, old(self).subs()[i as int].kind).unwrap()));
                        }
                    },
                    Err(_) => (),
                }
            }
            i = i + 1;
        }
    }

    /// Take the next queued message of one subscription, FIFO.  A
    /// handle from an earlier generation, an unknown slot or a closed
    /// receiving side reports `Ended`; an empty queue, `Pending`.
    pub fn poll(&mut self, id: SubId) -> (r: Polled)
        ensures
            final(self).generation() == old(self).generation(),
            ({
                let subs = old(self).subs();
                if id.generation != old(self).generation() || id.index >= subs.len()
                    || !subs[id.index as int].live {
                    r is Ended && final(self).subs() == subs
                } else if subs[id.index as int].queue.len() == 0 {
                    r is Pending && final(self).subs() == subs
                } else {
                    match r {
                        Polled::Msg(m) => m@ == subs[id.index as int].queue[0]
                            && final(self).subs() == subs.update(
                            id.index as int,
                            SubView {
                                kind: subs[id.index as int].kind,
                                queue: subs[id.index as int].queue.drop_first(),
                                live: subs[id.index as int].live,
                            },
                        ),
                        _ => false,
                    }
                }
            }),
    {
        if id.generation != self.generation || id.index >= self.subs.len()
            || !self.subs[id.index].live {
            return Polled::Ended;
        }
        if self.subs[id.index].queue.len() == 0 {
            return Polled::Pending;
        }
        let m = self.subs[id.index].queue.remove(0);
        proof {
            let subs = old(self).subs();
            assert(self.subs@[id.index as int]@.queue =~= subs[id.index as int].queue.drop_first());
            assert(final(self).subs() =~= subs.update(
                id.index as int,
                SubView {
                    kind: subs[id.index as int].kind,
                    queue: subs[id.index as int].queue.drop_first(),
                    live: subs[id.index as int].live,
                },
            ));
        }
        Polled::Msg(m)
    }

    /// Drop every subscription at once.  Handles minted before the
    /// reset belong to an older generation and poll as `Ended` from
    /// now on, whatever is subscribed or dispatched afterwards.
    pub fn reset(&mut self)
        requires
            old(self).generation() < u64::MAX,
        ensures
            final(self).subs() == Seq::<SubView>::empty(),
            final(self).generation() == old(self).generation() + 1,
    {
        self.subs.clear();
        self.generation = self.generation + 1;
        proof {
            assert(final(self).subs() =~= Seq::<SubView>::empty());
        }
    }
}

/// Reset ends every stream obtained before it.  `subscribe` mints a
/// handle carrying the generation of its dispatcher; `subscribe`,
/// `close`, `dispatch` and `poll` keep the generation, and `reset`
/// raises it.  So in any dispatcher reached from the reset one by
/// those operations — whatever was subscribed or dispatched afterwards
/// — such a handle's generation no longer matches, and `poll`'s
/// contract makes it answer `Ended`, not an error.
pub proof fn lemma_reset_ends_streams(d_minting: Dispatcher, d_reached: Dispatcher, id: SubId)
    requires
        id.generation == d_minting.generation(),
        d_reached.generation() > d_minting.generation(),
    ensures
        id.generation != d_reached.generation(),
{
}

} // verus!
