use vstd::prelude::*;

use crate::vehicle::is_ahead;
use crate::vehicle::is_leader;
use crate::vehicle::leader_index;
use crate::vehicle::lemma_leader_index;
use crate::vehicle::lemma_leader_unique;
use crate::vehicle::Lane;
use crate::vehicle::Vehicle;
use crate::MovementDirection;
use crate::TurnDirection;

verus! {

/// A granted, time-bounded claim on the junction for one vehicle's crossing.
/// The claim is active from `start_time` to `end_time`, both included.
#[derive(Debug, PartialEq, Eq, Clone, Copy, Structural)]
pub struct Reservation {
    pub vehicle_id: i32,
    pub turn_direction: TurnDirection,
    pub vehicle_lane: Lane,
    pub movement_direction: MovementDirection,
    pub start_time: i64,
    pub end_time: i64,
}

/// Why a request was turned down.
#[derive(Debug, PartialEq, Eq, Clone, Copy, Structural)]
pub enum ConflictError {
    /// Granting would need the eviction of a conflicting reservation that
    /// starts no later than the request.
    ReservationConflict,
}

impl ConflictError {
    /// A short description of the error.
    pub fn message(&self) -> (text: &'static str)
        ensures
            text@ == "Reservation conflict"@,
    {
        "Reservation conflict"
    }
}

/// Two closed time windows share at least one instant.
pub open spec fn windows_overlap(start_a: int, end_a: int, start_b: int, end_b: int) -> bool {
    !(end_a < start_b || start_a > end_b)
}

/// Two crossings whose paths never meet inside the junction: both go
/// straight, in opposite directions.
pub open spec fn paths_disjoint(
    turn_a: TurnDirection,
    heading_a: MovementDirection,
    turn_b: TurnDirection,
    heading_b: MovementDirection,
) -> bool {
    turn_a == TurnDirection::Straight && turn_b == TurnDirection::Straight
        && heading_a.is_antiparallel(heading_b)
}

/// The compatibility rule: a proposed crossing conflicts with a held
/// reservation when their windows overlap and their paths may meet.
pub open spec fn conflict(
    proposed_start: int,
    proposed_end: int,
    proposed_turn_direction: TurnDirection,
    proposed_movement_direction: MovementDirection,
    existing: Reservation,
) -> bool {
    windows_overlap(
        proposed_start,
        proposed_end,
        existing.start_time as int,
        existing.end_time as int,
    ) && !paths_disjoint(
        proposed_turn_direction,
        proposed_movement_direction,
        existing.turn_direction,
        existing.movement_direction,
    )
}

impl Reservation {
    /// A reservation's window does not end before it starts.
    pub open spec fn is_valid(self) -> bool {
        self.start_time <= self.end_time
    }

    /// The two windows share at least one instant.
    pub open spec fn overlaps(self, other: Reservation) -> bool {
        windows_overlap(
            self.start_time as int,
            self.end_time as int,
            other.start_time as int,
            other.end_time as int,
        )
    }

    /// The compatibility rule between two reservations.
    pub open spec fn conflicts_with(self, other: Reservation) -> bool {
        conflict(
            self.start_time as int,
            self.end_time as int,
            self.turn_direction,
            self.movement_direction,
            other,
        )
    }

    /// A held reservation blocks a request that conflicts with it and does
    /// not start strictly before it.
    pub open spec fn blocks(self, request: Reservation) -> bool {
        request.conflicts_with(self) && request.start_time >= self.start_time
    }
}

/// Every reservation of the sequence is valid.
pub open spec fn all_valid(held: Seq<Reservation>) -> bool {
    forall|i: int| 0 <= i < held.len() ==> (#[trigger] held[i]).is_valid()
}

/// No two distinct reservations of the sequence conflict.
pub open spec fn pairwise_compatible(held: Seq<Reservation>) -> bool {
    forall|i: int, j: int|
        0 <= i < held.len() && 0 <= j < held.len() && i != j ==> !(#[trigger] held[i])
            .conflicts_with(#[trigger] held[j])
}

/// A request is admissible when no held reservation blocks it.
pub open spec fn admissible(held: Seq<Reservation>, request: Reservation) -> bool {
    forall|i: int| 0 <= i < held.len() ==> !(#[trigger] held[i]).blocks(request)
}

/// The held reservations that a granted request leaves in place: those it
/// does not conflict with, in their old order.
pub open spec fn survivors(held: Seq<Reservation>, request: Reservation) -> Seq<Reservation> {
    held.filter(|h: Reservation| !request.conflicts_with(h))
}

/// The held reservations after a grant: the survivors, then the request.
pub open spec fn after_grant(held: Seq<Reservation>, request: Reservation) -> Seq<Reservation> {
    survivors(held, request).push(request)
}

/// The outcome of the admission policy on a set of held reservations: the
/// new set on a grant, nothing on a rejection.
pub open spec fn admission(held: Seq<Reservation>, request: Reservation) -> Option<
    Seq<Reservation>,
> {
    if admissible(held, request) {
        Some(after_grant(held, request))
    } else {
        None
    }
}

/// The crossing window of a vehicle that moves towards the junction: it
/// enters after `distance / velocity` ticks and needs `size / velocity`
/// ticks to cross, both rounded down.
pub open spec fn window_of(vehicle: Vehicle) -> (int, int) {
    let entry = vehicle.distance_to_intersection as int / vehicle.velocity as int;
    let crossing = vehicle.size as int / vehicle.velocity as int;
    (entry, entry + crossing)
}

/// The reservation a vehicle asks for: its own data with its crossing window.
pub open spec fn request_of(vehicle: Vehicle) -> Reservation {
    Reservation {
        vehicle_id: vehicle.id,
        turn_direction: vehicle.turn_direction,
        vehicle_lane: vehicle.lane,
        movement_direction: vehicle.movement_direction,
        start_time: window_of(vehicle).0 as i64,
        end_time: window_of(vehicle).1 as i64,
    }
}

/// The single owner of the junction's reservations. The reservations it
/// holds are valid and pairwise compatible at all times.
pub struct IntersectionManager {
    reservations: Vec<Reservation>,
}

impl View for IntersectionManager {
    type V = Seq<Reservation>;

    /// The held reservations, oldest grant first.
    closed spec fn view(&self) -> Seq<Reservation> {
        self.reservations@
    }
}

impl IntersectionManager {
    #[verifier::type_invariant]
    spec fn safe(self) -> bool {
        all_valid(self.reservations@) && pairwise_compatible(self.reservations@)
    }

    /// A manager that holds no reservation.
    pub fn new() -> (manager: Self)
        ensures
            manager@ == Seq::<Reservation>::empty(),
    {
        IntersectionManager { reservations: Vec::new() }
    }

    /// The number of held reservations.
    pub fn len(&self) -> (n: usize)
        ensures
            n == self@.len(),
            all_valid(self@),
            pairwise_compatible(self@),
    {
        proof {
            use_type_invariant(self);
        }
        self.reservations.len()
    }

    /// A copy of the held reservations, oldest grant first.
    pub fn reservations(&self) -> (held: Vec<Reservation>)
        ensures
            held@ == self@,
            all_valid(held@),
            pairwise_compatible(held@),
    {
        proof {
            use_type_invariant(self);
        }
        let mut held: Vec<Reservation> = Vec::new();
        let mut i: usize = 0;
        while i < self.reservations.len()
            invariant
                i <= self.reservations.len(),
                held@ == self.reservations@.take(i as int),
            decreases self.reservations.len() - i,
        {
            held.push(self.reservations[i]);
            i += 1;
        }
        held
    }

    /// Finds the leader of a vehicle: of the vehicles that travel the same
    /// way and are strictly nearer to the junction, the nearest one, and of
    /// several equally near, the first in `vehicles`.
    pub fn get_vehicle_ahead_in_same_direction(
        current_vehicle: &Vehicle,
        vehicles: &[Vehicle],
    ) -> (ahead: Option<usize>)
        ensures
            match ahead {
                Some(index) => is_leader(*current_vehicle, vehicles@, index as int),
                None => forall|j: int|
                    0 <= j < vehicles@.len() ==> !is_ahead(
                        *current_vehicle,
                        #[trigger] vehicles@[j],
                    ),
            },
            leader_index(*current_vehicle, vehicles@) == match ahead {
                Some(index) => Some(index as int),
                None => None,
            },
    {
        let mut ahead: Option<usize> = None;
        let mut i: usize = 0;
        while i < vehicles.len()
            invariant
                i <= vehicles@.len(),
                match ahead {
                    Some(index) => is_leader(
                        *current_vehicle,
                        vehicles@.take(i as int),
                        index as int,
                    ),
                    None => forall|j: int|
                        0 <= j < i ==> !is_ahead(*current_vehicle, #[trigger] vehicles@[j]),
                },
            decreases vehicles@.len() - i,
        {
            let candidate = &vehicles[i];
            let ghost seen = vehicles@.take(i as int);
            let ghost next = vehicles@.take(i + 1);
            if candidate.movement_direction == current_vehicle.movement_direction
                && candidate.distance_to_intersection < current_vehicle.distance_to_intersection {
                let nearer = match ahead {
                    Some(index) => candidate.distance_to_intersection
                        < vehicles[index].distance_to_intersection,
                    None => true,
                };
                if nearer {
                    ahead = Some(i);
                }
            }
            proof {
                assert forall|j: int| 0 <= j < i implies seen[j] == next[j] by {}
                match ahead {
                    Some(index) => {
                        assert(next[index as int] == vehicles@[index as int]);
                        assert forall|j: int|
                            0 <= j < next.len() && is_ahead(
                                *current_vehicle,
                                #[trigger] next[j],
                            ) implies next[index as int].distance_to_intersection
                            < next[j].distance_to_intersection
                            || next[index as int].distance_to_intersection
                            == next[j].distance_to_intersection && index <= j by {
                            if j < i {
                                assert(seen[j] == next[j]);
                            }
                        }
                    },
                    None => {},
                }
            }
            i += 1;
        }
        proof {
            assert(vehicles@.take(i as int) == vehicles@);
            lemma_leader_index(*current_vehicle, vehicles@);
            match ahead {
                Some(index) => {
                    lemma_leader_unique(
                        *current_vehicle,
                        vehicles@,
                        index as int,
                        leader_index(*current_vehicle, vehicles@).unwrap(),
                    );
                },
                None => {},
            }
        }
        ahead
    }

    /// Computes the window in which the vehicle will occupy the junction. Only
    /// a vehicle that moves forward has one.
    pub fn calculate_reservation_window(&self, vehicle: &Vehicle) -> (window: (i64, i64))
        requires
            vehicle.velocity > 0,
        ensures
            window.0 == window_of(*vehicle).0,
            window.1 == window_of(*vehicle).1,
            0 <= window.0 <= window.1,
    {
        let velocity: i64 = vehicle.velocity as i64;
        let entry: i64 = vehicle.distance_to_intersection as i64 / velocity;
        let crossing: i64 = vehicle.size as i64 / velocity;
        (entry, entry + crossing)
    }

    /// Decides whether a proposed crossing conflicts with a held reservation.
    /// The lane plays no part in the rule.
    pub fn has_conflict(
        &self,
        proposed_start: i64,
        proposed_end: i64,
        proposed_turn_direction: TurnDirection,
        proposed_movement_direction: MovementDirection,
        proposed_lane: Lane,
        existing_reservation: &Reservation,
    ) -> (conflicting: bool)
        ensures
            conflicting == conflict(
                proposed_start as int,
                proposed_end as int,
                proposed_turn_direction,
                proposed_movement_direction,
                *existing_reservation,
            ),
    {
        // Windows that share no instant never conflict.
        if proposed_end < existing_reservation.start_time || proposed_start
            > existing_reservation.end_time {
            return false;
        }
        // Opposite straight paths do not meet inside the junction.
        if proposed_turn_direction == TurnDirection::Straight
            && existing_reservation.turn_direction == TurnDirection::Straight
            && proposed_movement_direction.opposes(existing_reservation.movement_direction) {
            return false;
        }
        // A left turn sweeps the whole junction.
        if proposed_turn_direction == TurnDirection::Left || existing_reservation.turn_direction
            == TurnDirection::Left {
            return true;
        }
        // Every other overlapping pair is taken to conflict.
        true
    }

    /// Applies the admission policy to a request. The request is granted
    /// when no held reservation blocks it; every held reservation that
    /// conflicts with it is then evicted and the request is added last. A
    /// rejected request changes nothing.
    pub fn reserve(&mut self, request: Reservation) -> (result: Result<(), ConflictError>)
        requires
            request.is_valid(),
        ensures
            result is Ok <==> admissible(old(self)@, request),
            result is Ok ==> final(self)@ == after_grant(old(self)@, request),
            result is Err ==> final(self)@ == old(self)@,
            all_valid(final(self)@),
            pairwise_compatible(final(self)@),
    {
        proof {
            use_type_invariant(&*self);
        }
        let ghost held = self.reservations@;
        let mut kept: Vec<Reservation> = Vec::new();
        let mut i: usize = 0;
        while i < self.reservations.len()
            invariant
                i <= held.len(),
                self.reservations@ == held,
                all_valid(held),
                pairwise_compatible(held),
                kept@ == survivors(held.take(i as int), request),
                forall|k: int| 0 <= k < i ==> !(#[trigger] held[k]).blocks(request),
            decreases held.len() - i,
        {
            let existing = self.reservations[i];
            let conflicting = self.has_conflict(
                request.start_time,
                request.end_time,
                request.turn_direction,
                request.movement_direction,
                request.vehicle_lane,
                &existing,
            );
            if conflicting && request.start_time >= existing.start_time {
                assert(held[i as int].blocks(request));
                return Err(ConflictError::ReservationConflict);
            }
            if !conflicting {
                kept.push(existing);
            }
            proof {
                let keep = |h: Reservation| !request.conflicts_with(h);
                let front = held.take(i as int);
                let next = held.take(i + 1);
                assert(next.drop_last() == front);
                assert(next.last() == existing);
                assert(next.filter(keep) == if keep(existing) {
                    front.filter(keep).push(existing)
                } else {
                    front.filter(keep)
                }) by {
                    reveal(Seq::filter);
                }
            }
            i += 1;
        }
        proof {
            assert(held.take(i as int) == held);
            lemma_grant_keeps_safety(held, request);
        }
        kept.push(request);
        self.reservations = kept;
        Ok(())
    }

    /// Asks for the junction on behalf of a vehicle that moves forward:
    /// computes its crossing window and applies the admission policy. A
    /// stopped vehicle has no window and must not ask.
    pub fn request_reservation(&mut self, vehicle: &Vehicle) -> (result: Result<
        (),
        ConflictError,
    >)
        requires
            vehicle.velocity > 0,
        ensures
            request_of(*vehicle).is_valid(),
            result is Ok <==> admissible(old(self)@, request_of(*vehicle)),
            result is Ok ==> final(self)@ == after_grant(old(self)@, request_of(*vehicle)),
            result is Err ==> final(self)@ == old(self)@,
            all_valid(final(self)@),
            pairwise_compatible(final(self)@),
    {
        let (start_time, end_time) = self.calculate_reservation_window(vehicle);
        let request = Reservation {
            vehicle_id: vehicle.id,
            turn_direction: vehicle.turn_direction,
            vehicle_lane: vehicle.lane,
            movement_direction: vehicle.movement_direction,
            start_time,
            end_time,
        };
        self.reserve(request)
    }
}

/// Filtering keeps a sequence of reservations valid and free of conflicts.
proof fn lemma_filter_keeps_safety(held: Seq<Reservation>, keep: spec_fn(Reservation) -> bool)
    requires
        all_valid(held),
        pairwise_compatible(held),
    ensures
        all_valid(held.filter(keep)),
        pairwise_compatible(held.filter(keep)),
        forall|i: int|
            0 <= i < held.filter(keep).len() ==> held.contains(#[trigger] held.filter(keep)[i])
                && keep(held.filter(keep)[i]),
    decreases held.len(),
{
    reveal(Seq::filter);
    if held.len() > 0 {
        let front = held.drop_last();
        let last = held.last();
        assert forall|i: int| 0 <= i < front.len() implies front[i] == held[i] by {}
        lemma_filter_keeps_safety(front, keep);
        let kept = front.filter(keep);
        assert forall|i: int| 0 <= i < kept.len() implies held.contains(#[trigger] kept[i])
            && !kept[i].conflicts_with(last) && !last.conflicts_with(kept[i]) by {
            assert(front.contains(kept[i]));
            let k = choose|k: int| 0 <= k < front.len() && front[k] == kept[i];
            assert(held[k] == kept[i]);
            assert(held[held.len() - 1] == last);
        }
        if keep(last) {
            assert(held.filter(keep) == kept.push(last));
            assert(held.contains(last)) by {
                assert(held[held.len() - 1] == last);
            }
        } else {
            assert(held.filter(keep) == kept);
        }
    }
}

/// Admission keeps the held set safe: when the held reservations are valid
/// and pairwise compatible and the request is valid, so are the reservations
/// held after a grant.
pub proof fn lemma_grant_keeps_safety(held: Seq<Reservation>, request: Reservation)
    requires
        all_valid(held),
        pairwise_compatible(held),
        request.is_valid(),
    ensures
        all_valid(after_grant(held, request)),
        pairwise_compatible(after_grant(held, request)),
{
    let keep = |h: Reservation| !request.conflicts_with(h);
    lemma_filter_keeps_safety(held, keep);
    let kept = held.filter(keep);
    let granted = after_grant(held, request);
    assert(granted == kept.push(request));
    assert forall|i: int| 0 <= i < kept.len() implies !request.conflicts_with(#[trigger] kept[i])
        && !kept[i].conflicts_with(request) by {
        assert(keep(kept[i]));
        lemma_conflict_symmetric(request, kept[i]);
    }
}

/// The compatibility rule does not depend on which reservation is the
/// proposed one and which the held one.
pub proof fn lemma_conflict_symmetric(a: Reservation, b: Reservation)
    ensures
        a.conflicts_with(b) == b.conflicts_with(a),
{
}

/// Two reservations that go straight in opposite directions never conflict,
/// whatever their windows, and neither blocks the other.
pub proof fn lemma_opposite_straight_compatible(a: Reservation, b: Reservation)
    requires
        a.turn_direction == TurnDirection::Straight,
        b.turn_direction == TurnDirection::Straight,
        a.movement_direction.is_antiparallel(b.movement_direction),
    ensures
        !a.conflicts_with(b),
        !b.conflicts_with(a),
        !a.blocks(b),
        !b.blocks(a),
{
}

/// Two valid reservations that go straight in opposite directions are both
/// granted, one after the other, by a manager that holds nothing, also when
/// their windows overlap; both are held afterwards.
pub proof fn lemma_opposite_straight_both_granted(a: Reservation, b: Reservation)
    requires
        a.is_valid(),
        b.is_valid(),
        a.turn_direction == TurnDirection::Straight,
        b.turn_direction == TurnDirection::Straight,
        a.movement_direction.is_antiparallel(b.movement_direction),
    ensures
        admission(Seq::empty(), a) == Some(seq![a]),
        admission(seq![a], b) == Some(seq![a, b]),
{
    let keep_a = |h: Reservation| !a.conflicts_with(h);
    let keep_b = |h: Reservation| !b.conflicts_with(h);
    let nothing = Seq::<Reservation>::empty();
    assert(nothing.filter(keep_a) == nothing) by {
        reveal(Seq::filter);
    }
    assert(after_grant(nothing, a) == seq![a]);
    lemma_opposite_straight_compatible(a, b);
    assert(seq![a].drop_last() == nothing);
    assert(seq![a].last() == a);
    assert(nothing.filter(keep_b) == nothing) by {
        reveal(Seq::filter);
    }
    assert(seq![a].filter(keep_b) == seq![a]) by {
        reveal(Seq::filter);
    }
    assert(after_grant(seq![a], b) == seq![a, b]);
}

/// A left turn conflicts with every reservation whose window overlaps its
/// own, whatever the two headings, and whichever of the two is the held one.
pub proof fn lemma_left_turn_dominance(left: Reservation, other: Reservation)
    requires
        left.turn_direction == TurnDirection::Left,
        left.overlaps(other),
    ensures
        left.conflicts_with(other),
        other.conflicts_with(left),
{
}

/// Earliest start wins: a granted request starts strictly before every held
/// reservation it conflicts with, so it never evicts one that starts no later
/// than itself.
pub proof fn lemma_evicted_start_later(held: Seq<Reservation>, request: Reservation, i: int)
    requires
        admissible(held, request),
        0 <= i < held.len(),
        request.conflicts_with(held[i]),
    ensures
        request.start_time < held[i].start_time,
{
    assert(!held[i].blocks(request));
}

/// Held reservations whose windows overlap go straight in opposite
/// directions: in a set without conflicts, no two reservations with the same
/// heading, and no two of which one turns, are live at the same instant.
pub proof fn lemma_overlapping_reservations_are_opposite(
    held: Seq<Reservation>,
    i: int,
    j: int,
)
    requires
        pairwise_compatible(held),
        0 <= i < held.len(),
        0 <= j < held.len(),
        i != j,
        held[i].overlaps(held[j]),
    ensures
        held[i].turn_direction == TurnDirection::Straight,
        held[j].turn_direction == TurnDirection::Straight,
        held[i].movement_direction.is_antiparallel(held[j].movement_direction),
{
    assert(!held[i].conflicts_with(held[j]));
}

/// At most one reservation of a vehicle is live at any instant, unless the
/// vehicle holds two straight reservations in opposite directions: two held
/// reservations of one vehicle whose paths may meet share no instant.
pub proof fn lemma_one_live_reservation_per_vehicle(held: Seq<Reservation>, i: int, j: int)
    requires
        pairwise_compatible(held),
        0 <= i < held.len(),
        0 <= j < held.len(),
        i != j,
        held[i].vehicle_id == held[j].vehicle_id,
        !paths_disjoint(
            held[i].turn_direction,
            held[i].movement_direction,
            held[j].turn_direction,
            held[j].movement_direction,
        ),
    ensures
        !held[i].overlaps(held[j]),
{
    assert(!held[i].conflicts_with(held[j]));
}

/// The reservations held after the requests of a sequence were put, first
/// to last, to a manager that held nothing.
pub open spec fn held_after(requests: Seq<Reservation>) -> Seq<Reservation>
    decreases requests.len(),
{
    if requests.len() == 0 {
        Seq::empty()
    } else {
        let before = held_after(requests.drop_last());
        match admission(before, requests.last()) {
            Some(granted) => granted,
            None => before,
        }
    }
}

/// The safety invariant: whatever valid requests a manager has seen, the
/// reservations it holds are valid and no two of them conflict.
pub proof fn lemma_held_reservations_never_conflict(requests: Seq<Reservation>)
    requires
        all_valid(requests),
    ensures
        all_valid(held_after(requests)),
        pairwise_compatible(held_after(requests)),
    decreases requests.len(),
{
    if requests.len() > 0 {
        let earlier = requests.drop_last();
        assert forall|i: int| 0 <= i < earlier.len() implies (#[trigger] earlier[i]).is_valid() by {
            assert(earlier[i] == requests[i]);
        }
        lemma_held_reservations_never_conflict(earlier);
        assert(requests.last() == requests[requests.len() - 1]);
        if admissible(held_after(earlier), requests.last()) {
            lemma_grant_keeps_safety(held_after(earlier), requests.last());
        }
    }
}

} // verus!
