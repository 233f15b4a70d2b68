//! Which seats the configured key and pointer bindings are attached to:
//! every binding is resolved against the known seats (see
//! [`WMState::spec_seat_targets`]) and yields one runtime binding per seat,
//! in configuration order.
use crate::config::{KeyBindingConfig, KeyBindingTarget, PointerBindingConfig};
use crate::seat::SeatId;
use crate::wm::WMState;
use vstd::prelude::*;

verus! {

impl WMState {
    /// The runtime bindings of configured bindings aimed at `targets`, in
    /// order: each seat a binding applies to, paired with the binding's
    /// position.
    pub open spec fn spec_binding_assignments(self, targets: Seq<KeyBindingTarget>) -> Seq<(SeatId, usize)>
        decreases targets.len(),
    {
        if targets.len() == 0 {
            Seq::empty()
        } else {
            let i = (targets.len() - 1) as usize;
            self.spec_binding_assignments(targets.drop_last()) + self.spec_seat_targets(targets.last()).map_values(
                |s: SeatId| (s, i),
            )
        }
    }

    fn binding_assignments(&self, targets: &Vec<KeyBindingTarget>) -> (r: Vec<(SeatId, usize)>)
        ensures
            r@ == self.spec_binding_assignments(targets@),
    {
        let mut r: Vec<(SeatId, usize)> = Vec::new();
        let mut i: usize = 0;
        assert(targets@.take(0) =~= Seq::<KeyBindingTarget>::empty());
        while i < targets.len()
            invariant
                i <= targets@.len(),
                r@ == self.spec_binding_assignments(targets@.take(i as int)),
            decreases targets@.len() - i,
        {
            proof {
                assert(targets@.take(i + 1).drop_last() =~= targets@.take(i as int));
                assert(targets@.take(i + 1).last() == targets@[i as int]);
            }
            let seats = self.resolve_seat_targets(targets[i]);
            let ghost before = r@;
            let mut k: usize = 0;
            while k < seats.len()
                invariant
                    k <= seats@.len(),
                    r@ == before + seats@.take(k as int).map_values(|s: SeatId| (s, i)),
                decreases seats@.len() - k,
            {
                r.push((seats[k], i));
                assert(seats@.take(k + 1).map_values(|s: SeatId| (s, i)) =~= seats@.take(k as int).map_values(
                    |s: SeatId| (s, i),
                ).push((seats@[k as int], i)));
                k = k + 1;
            }
            assert(seats@.take(seats@.len() as int) =~= seats@);
            i = i + 1;
        }
        assert(targets@.take(targets@.len() as int) =~= targets@);
        r
    }

    /// The runtime key bindings of the configured `bindings`: each seat a
    /// binding applies to, paired with the binding's position (see
    /// [`WMState::spec_binding_assignments`]).
    pub fn key_binding_assignments(&self, bindings: &Vec<KeyBindingConfig>) -> (r: Vec<(SeatId, usize)>)
        ensures
            r@ == self.spec_binding_assignments(bindings@.map_values(|b: KeyBindingConfig| b.target)),
    {
        let mut targets: Vec<KeyBindingTarget> = Vec::new();
        let mut i: usize = 0;
        while i < bindings.len()
            invariant
                i <= bindings@.len(),
                targets@ == bindings@.take(i as int).map_values(|b: KeyBindingConfig| b.target),
            decreases bindings@.len() - i,
        {
            targets.push(bindings[i].target);
            assert(bindings@.take(i + 1).map_values(|b: KeyBindingConfig| b.target) =~= bindings@.take(
                i as int,
            ).map_values(|b: KeyBindingConfig| b.target).push(bindings@[i as int].target));
            i = i + 1;
        }
        assert(bindings@.take(bindings@.len() as int) =~= bindings@);
        self.binding_assignments(&targets)
    }

    /// The runtime pointer bindings of the configured `bindings` (see
    /// [`WMState::key_binding_assignments`]).
    pub fn pointer_binding_assignments(&self, bindings: &Vec<PointerBindingConfig>) -> (r: Vec<(SeatId, usize)>)
        ensures
            r@ == self.spec_binding_assignments(bindings@.map_values(|b: PointerBindingConfig| b.target)),
    {
        let mut targets: Vec<KeyBindingTarget> = Vec::new();
        let mut i: usize = 0;
        while i < bindings.len()
            invariant
                i <= bindings@.len(),
                targets@ == bindings@.take(i as int).map_values(|b: PointerBindingConfig| b.target),
            decreases bindings@.len() - i,
        {
            targets.push(bindings[i].target);
            assert(bindings@.take(i + 1).map_values(|b: PointerBindingConfig| b.target) =~= bindings@.take(
                i as int,
            ).map_values(|b: PointerBindingConfig| b.target).push(bindings@[i as int].target));
            i = i + 1;
        }
        assert(bindings@.take(bindings@.len() as int) =~= bindings@);
        self.binding_assignments(&targets)
    }
}

} // verus!
