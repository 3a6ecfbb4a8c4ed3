//! The choice of the deadline that a frame is produced for.

use crate::time;
use crate::time::{Duration, Instant};
use vstd::prelude::*;

verus! {

/// The delay from input to pixel above which users notice it: a tenth of a
/// second.
pub const PERCEPTIBLE_LATENCY_NANOS: u64 = 100_000_000;

/// How far a deadline may drift and still count as the same one.
pub const STICKY_TOLERANCE_NANOS: u64 = 1_000_000;

/// A moment at which a frame can be shown, relative to its frame time.
#[derive(Clone, Copy, Debug, PartialEq, Eq, Structural)]
pub struct PossibleDeadline {
    pub vsync_id: i64,
    pub latch_delta: Duration,
    pub present_delta: Duration,
}

/// The deadlines that the platform offers for a frame, in the order in which
/// they come.
#[derive(Clone, Debug, PartialEq, Eq)]
pub struct PossibleDeadlines {
    pub os_preferred_index: usize,
    pub deadlines: Vec<PossibleDeadline>,
}

impl PossibleDeadlines {
    /// The platform's preferred deadline, if its index is valid.
    pub open spec fn spec_os_preferred(&self) -> Option<PossibleDeadline> {
        if self.os_preferred_index < self.deadlines@.len() {
            Some(self.deadlines@[self.os_preferred_index as int])
        } else {
            None
        }
    }

    /// The deadlines come in the order of their presentation.
    pub open spec fn is_ordered(&self) -> bool {
        forall|i: int, j: int|
            0 <= i <= j < self.deadlines@.len() ==> (#[trigger] self.deadlines@[i]).present_delta@ <= (
            #[trigger] self.deadlines@[j]).present_delta@
    }

    /// The platform's preferred deadline, if its index is valid.
    pub fn os_preferred_deadline(&self) -> (deadline: Option<&PossibleDeadline>)
        ensures
            match deadline {
                Some(deadline) => self.spec_os_preferred() == Some(*deadline),
                None => self.spec_os_preferred() is None,
            },
    {
        if self.os_preferred_index < self.deadlines.len() {
            Some(&self.deadlines[self.os_preferred_index])
        } else {
            None
        }
    }
}

/// Chooses a deadline from those that the platform offers, and sticks to it
/// while frames follow one another.
#[derive(Clone, Copy, Debug)]
pub struct FrameDeadlineDecider {
    in_frame_sequence: bool,
    curr_sequence_present_delta: Duration,
    curr_sequence_deadline_index: usize,
    use_platform_preferred_deadlines: bool,
}

/// The state of a decider as a mathematical value.
pub struct DeciderState {
    pub in_frame_sequence: bool,
    pub present_delta: nat,
    pub deadline_index: usize,
    pub use_platform_preferred_deadlines: bool,
}

impl View for FrameDeadlineDecider {
    type V = DeciderState;

    closed spec fn view(&self) -> DeciderState {
        DeciderState {
            in_frame_sequence: self.in_frame_sequence,
            present_delta: self.curr_sequence_present_delta@,
            deadline_index: self.curr_sequence_deadline_index,
            use_platform_preferred_deadlines: self.use_platform_preferred_deadlines,
        }
    }
}

/// How far the presentation of deadline `index` is from `present_delta`.
pub open spec fn drift(deadlines: Seq<PossibleDeadline>, present_delta: nat, index: int) -> nat {
    time::distance(deadlines[index].present_delta@, present_delta)
}

/// Among the first `count` deadlines, the first of those whose presentation is
/// closest to `present_delta`.
pub open spec fn closest_of(
    deadlines: Seq<PossibleDeadline>,
    present_delta: nat,
    count: int,
) -> int
    decreases count,
{
    if count <= 1 {
        0
    } else {
        let best = closest_of(deadlines, present_delta, count - 1);
        if drift(deadlines, present_delta, count - 1) < drift(deadlines, present_delta, best) {
            count - 1
        } else {
            best
        }
    }
}

/// The closest deadline is no further away than any other, and it is the first
/// such.
pub proof fn law_closest_deadline_is_first_minimum(
    deadlines: Seq<PossibleDeadline>,
    present_delta: nat,
    count: int,
)
    requires
        1 <= count <= deadlines.len(),
    ensures
        0 <= closest_of(deadlines, present_delta, count) < count,
        forall|i: int|
            0 <= i < count ==> drift(
                deadlines,
                present_delta,
                closest_of(deadlines, present_delta, count),
            ) <= #[trigger] drift(deadlines, present_delta, i),
        forall|i: int|
            0 <= i < closest_of(deadlines, present_delta, count) ==> drift(
                deadlines,
                present_delta,
                closest_of(deadlines, present_delta, count),
            ) < #[trigger] drift(deadlines, present_delta, i),
    decreases count,
{
    if count > 1 {
        law_closest_deadline_is_first_minimum(deadlines, present_delta, count - 1);
    }
}

/// How many deadlines are presented no later than `target`.
pub open spec fn presented_by(deadlines: Seq<PossibleDeadline>, target: nat) -> int
    decreases deadlines.len(),
{
    if deadlines.len() == 0 {
        0
    } else if deadlines.last().present_delta@ <= target {
        deadlines.len() as int
    } else {
        presented_by(deadlines.drop_last(), target)
    }
}

/// Where a search by halves between two places ends, which goes on behind a deadline
/// that is presented by `target` and before one that is not.
pub open spec fn halved(deadlines: Seq<PossibleDeadline>, target: nat, low: int, high: int) -> int
    decreases high - low,
{
    if low >= high {
        low
    } else {
        let middle = low + (high - low) / 2;
        if deadlines[middle].present_delta@ <= target {
            halved(deadlines, target, middle + 1, high)
        } else {
            halved(deadlines, target, low, middle)
        }
    }
}

/// The latest presentation that a new sequence aims for: as many frames ahead
/// as buffers allow, and no later than keeps the delay since the earliest input
/// unnoticed.
pub open spec fn target_present_delta(
    vsync_interval: nat,
    max_allowed_buffers: nat,
    frame_time: nat,
    earliest_input_time: Option<Instant>,
) -> nat {
    let buffered = time::at_most(
        vsync_interval * max_allowed_buffers,
        time::MAX_DURATION_NANOS as nat,
    );
    match earliest_input_time {
        Some(input_time) => time::at_most(
            buffered,
            unnoticed_present_delta(
                vsync_interval,
                time::at_most(
                    time::saturating_difference(frame_time, input_time@),
                    time::MAX_DURATION_NANOS as nat,
                ),
            ),
        ),
        None => buffered,
    }
}

/// The latest presentation at which input that is `input_delta` old is still
/// answered unnoticed, with a frame and a quarter to spare.
pub open spec fn unnoticed_present_delta(vsync_interval: nat, input_delta: nat) -> nat {
    time::saturating_difference(
        time::saturating_difference(
            time::saturating_difference(PERCEPTIBLE_LATENCY_NANOS as nat, vsync_interval),
            vsync_interval / 4,
        ),
        input_delta,
    )
}

/// The deadline that a new sequence starts with: the last one presented by
/// `target`, unless there is none or it is earlier than the platform prefers. Where
/// the deadlines are not in the order of their presentation, the last one is that
/// before which a search by halves ends.
pub open spec fn new_sequence_choice(possible: PossibleDeadlines, target: nat) -> usize {
    let deadlines = possible.deadlines@;
    let count = if possible.is_ordered() {
        presented_by(deadlines, target)
    } else {
        halved(deadlines, target, 0, deadlines.len() as int)
    };
    let chosen = if count > 0 {
        count - 1
    } else {
        0
    };
    let os_preferred_is_later = match possible.spec_os_preferred() {
        Some(preferred) => deadlines[chosen].present_delta@ < preferred.present_delta@,
        None => false,
    };
    if deadlines[chosen].present_delta@ > target || os_preferred_is_later {
        possible.os_preferred_index
    } else {
        chosen as usize
    }
}

impl DeciderState {
    /// The deadline to stick to within a sequence: the same index while its
    /// presentation has hardly moved, else the closest one.
    pub open spec fn sticky_choice(self, deadlines: Seq<PossibleDeadline>) -> usize {
        if self.deadline_index < deadlines.len() && drift(
            deadlines,
            self.present_delta,
            self.deadline_index as int,
        ) <= STICKY_TOLERANCE_NANOS {
            self.deadline_index
        } else {
            closest_of(deadlines, self.present_delta, deadlines.len() as int) as usize
        }
    }

    /// The state once deadline `index` has been chosen.
    pub open spec fn with_choice(self, possible: PossibleDeadlines, index: usize) -> DeciderState {
        DeciderState {
            deadline_index: index,
            present_delta: if index < possible.deadlines@.len() {
                possible.deadlines@[index as int].present_delta@
            } else {
                self.present_delta
            },
            ..self
        }
    }

    /// The deadline that is chosen: the platform's where it is to be followed,
    /// the sticky one within a sequence, and that of a new sequence otherwise.
    pub open spec fn choice(
        self,
        possible: PossibleDeadlines,
        vsync_interval: nat,
        max_allowed_buffers: nat,
        frame_time: nat,
        earliest_input_time: Option<Instant>,
    ) -> usize {
        if self.use_platform_preferred_deadlines {
            possible.os_preferred_index
        } else if self.in_frame_sequence {
            self.sticky_choice(possible.deadlines@)
        } else {
            new_sequence_choice(
                possible,
                target_present_delta(
                    vsync_interval,
                    max_allowed_buffers,
                    frame_time,
                    earliest_input_time,
                ),
            )
        }
    }

    /// A sequence runs from its first choice on, unless the platform's preference
    /// is followed.
    pub open spec fn started(self) -> DeciderState {
        DeciderState {
            in_frame_sequence: self.in_frame_sequence || !self.use_platform_preferred_deadlines,
            ..self
        }
    }
}

proof fn lemma_presented_by(deadlines: Seq<PossibleDeadline>, target: nat, count: int)
    requires
        0 <= count <= deadlines.len(),
        forall|i: int| 0 <= i < count ==> (#[trigger] deadlines[i]).present_delta@ <= target,
        forall|i: int| count <= i < deadlines.len() ==> target < (#[trigger] deadlines[i]).present_delta@,
    ensures
        presented_by(deadlines, target) == count,
    decreases deadlines.len(),
{
    if deadlines.len() > 0 {
        if count == deadlines.len() {
            assert(deadlines[deadlines.len() - 1].present_delta@ <= target);
        } else {
            assert(target < deadlines[deadlines.len() - 1].present_delta@);
            lemma_presented_by(deadlines.drop_last(), target, count);
        }
    }
}

impl FrameDeadlineDecider {
    /// A decider outside any sequence.
    pub fn new(use_platform_preferred_deadlines: bool) -> (decider: Self)
        ensures
            decider@ == DeciderState::fresh(use_platform_preferred_deadlines),
    {
        FrameDeadlineDecider {
            in_frame_sequence: false,
            curr_sequence_present_delta: Duration::zero(),
            curr_sequence_deadline_index: 0,
            use_platform_preferred_deadlines,
        }
    }

    /// Chooses a deadline for a frame and remembers the choice.
    pub fn select_deadline(
        &mut self,
        possible_deadlines: &PossibleDeadlines,
        vsync_interval: Duration,
        max_allowed_buffers: u32,
        frame_time: Instant,
        earliest_input_time: Option<Instant>,
    ) -> (index: usize)
        requires
            possible_deadlines.deadlines@.len() > 0,
        ensures
            final(self)@ == old(self)@.started().with_choice(*possible_deadlines, index),
            index == old(self)@.answer(
                (DeadlineRequest {
                    possible: *possible_deadlines,
                    vsync_interval: vsync_interval@,
                    max_allowed_buffers: max_allowed_buffers as nat,
                    frame_time: frame_time@,
                    earliest_input_time,
                }),
            ),
            index < possible_deadlines.deadlines@.len() || index
                == possible_deadlines.os_preferred_index,
    {
        let deadlines: &Vec<PossibleDeadline> = &possible_deadlines.deadlines;
        let preferred: usize = possible_deadlines.os_preferred_index;
        if self.use_platform_preferred_deadlines {
            self.record_sequence_state(possible_deadlines, preferred);
            return preferred;
        }
        if self.in_frame_sequence {
            let index: usize = self.find_closest_deadline_by_presentation(possible_deadlines);
            self.record_sequence_state(possible_deadlines, index);
            return index;
        }
        self.in_frame_sequence = true;

        let mut target: Duration = vsync_interval.saturating_mul(max_allowed_buffers);
        if let Some(earliest_input) = earliest_input_time {
            let input_delta: Duration = frame_time.saturating_duration_since(earliest_input);
            let max_present_delta: Duration = Duration::from_nanos(
                PERCEPTIBLE_LATENCY_NANOS as u128,
            ).saturating_sub(vsync_interval).saturating_sub(vsync_interval.divided_by(4)).saturating_sub(
                input_delta,
            );
            if max_present_delta.is_shorter_than(&target) {
                target = max_present_delta;
            }
        }
        let ghost goal = target_present_delta(
            vsync_interval@,
            max_allowed_buffers as nat,
            frame_time@,
            earliest_input_time,
        );
        assert(target@ == goal);

        let mut low: usize = 0;
        let mut high: usize = deadlines.len();
        while low < high
            invariant
                deadlines == &possible_deadlines.deadlines,
                low <= high <= deadlines@.len(),
                halved(deadlines@, target@, low as int, high as int) == halved(
                    deadlines@,
                    target@,
                    0,
                    deadlines@.len() as int,
                ),
                possible_deadlines.is_ordered() ==> forall|i: int|
                    0 <= i < low ==> (#[trigger] deadlines@[i]).present_delta@ <= target@,
                possible_deadlines.is_ordered() ==> forall|i: int|
                    high <= i < deadlines@.len() ==> target@ < (#[trigger] deadlines@[i]).present_delta@,
            decreases high - low,
        {
            let middle: usize = low + (high - low) / 2;
            if target.is_shorter_than(&deadlines[middle].present_delta) {
                high = middle;
            } else {
                low = middle + 1;
            }
        }
        proof {
            if possible_deadlines.is_ordered() {
                lemma_presented_by(deadlines@, target@, low as int);
            }
        }
        let chosen: usize = if low > 0 {
            low - 1
        } else {
            0
        };
        if target.is_shorter_than(&deadlines[chosen].present_delta) {
            self.record_sequence_state(possible_deadlines, preferred);
            return preferred;
        }
        if let Some(os_preferred) = possible_deadlines.os_preferred_deadline() {
            if deadlines[chosen].present_delta.is_shorter_than(&os_preferred.present_delta) {
                self.record_sequence_state(possible_deadlines, preferred);
                return preferred;
            }
        }
        self.record_sequence_state(possible_deadlines, chosen);
        chosen
    }

    /// Remembers the chosen deadline.
    fn record_sequence_state(&mut self, possible_deadlines: &PossibleDeadlines, index: usize)
        ensures
            final(self)@ == old(self)@.with_choice(*possible_deadlines, index),
    {
        self.curr_sequence_deadline_index = index;
        if index < possible_deadlines.deadlines.len() {
            self.curr_sequence_present_delta = possible_deadlines.deadlines[index].present_delta;
        }
    }

    /// Ends the sequence.
    pub fn on_go_idle(&mut self)
        ensures
            final(self)@ == old(self)@.idle(),
    {
        self.in_frame_sequence = false;
        self.curr_sequence_present_delta = Duration::zero();
        self.curr_sequence_deadline_index = 0;
    }

    /// The deadline to stick to within a sequence.
    fn find_closest_deadline_by_presentation(&self, possible_deadlines: &PossibleDeadlines) -> (index:
        usize)
        requires
            possible_deadlines.deadlines@.len() > 0,
        ensures
            index == self@.sticky_choice(possible_deadlines.deadlines@),
            index < possible_deadlines.deadlines@.len(),
    {
        let deadlines: &Vec<PossibleDeadline> = &possible_deadlines.deadlines;
        let current: Duration = self.curr_sequence_present_delta;
        if self.curr_sequence_deadline_index < deadlines.len() {
            let drift: Duration = deadlines[self.curr_sequence_deadline_index].present_delta.abs_diff(
                current,
            );
            if drift.as_nanos() <= STICKY_TOLERANCE_NANOS as u128 {
                return self.curr_sequence_deadline_index;
            }
        }
        let mut best_index: usize = 0;
        let mut min_drift: Duration = deadlines[0].present_delta.abs_diff(current);
        let mut i: usize = 1;
        while i < deadlines.len()
            invariant
                1 <= i <= deadlines@.len(),
                best_index < i,
                best_index == closest_of(deadlines@, current@, i as int),
                min_drift@ == drift(deadlines@, current@, best_index as int),
            decreases deadlines@.len() - i,
        {
            let drift: Duration = deadlines[i].present_delta.abs_diff(current);
            if drift.is_shorter_than(&min_drift) {
                min_drift = drift;
                best_index = i;
            }
            i = i + 1;
        }
        best_index
    }
}

/// What a decider is asked for one frame.
pub struct DeadlineRequest {
    pub possible: PossibleDeadlines,
    pub vsync_interval: nat,
    pub max_allowed_buffers: nat,
    pub frame_time: nat,
    pub earliest_input_time: Option<Instant>,
}

impl DeciderState {
    /// The state of a new decider.
    pub open spec fn fresh(use_platform_preferred_deadlines: bool) -> DeciderState {
        DeciderState {
            in_frame_sequence: false,
            present_delta: 0,
            deadline_index: 0,
            use_platform_preferred_deadlines,
        }
    }

    /// The state once the sequence has ended.
    pub open spec fn idle(self) -> DeciderState {
        DeciderState { in_frame_sequence: false, present_delta: 0, deadline_index: 0, ..self }
    }

    /// What is answered to a request.
    pub open spec fn answer(self, request: DeadlineRequest) -> usize {
        self.choice(
            request.possible,
            request.vsync_interval,
            request.max_allowed_buffers,
            request.frame_time,
            request.earliest_input_time,
        )
    }

    /// The state once a request was answered.
    pub open spec fn after(self, request: DeadlineRequest) -> DeciderState {
        self.started().with_choice(request.possible, self.answer(request))
    }

    /// The state once requests were answered one after the other.
    pub open spec fn after_all(self, requests: Seq<DeadlineRequest>) -> DeciderState
        decreases requests.len(),
    {
        if requests.len() == 0 {
            self
        } else {
            self.after_all(requests.drop_last()).after(requests.last())
        }
    }

    /// What is answered to requests one after the other.
    pub open spec fn answers(self, requests: Seq<DeadlineRequest>) -> Seq<usize> {
        Seq::new(
            requests.len(),
            |place: int| self.after_all(requests.take(place)).answer(requests[place]),
        )
    }
}

proof fn lemma_preference_is_kept(state: DeciderState, requests: Seq<DeadlineRequest>)
    ensures
        state.after_all(requests).use_platform_preferred_deadlines
            == state.use_platform_preferred_deadlines,
    decreases requests.len(),
{
    if requests.len() > 0 {
        lemma_preference_is_kept(state, requests.drop_last());
    }
}

/// Once idle, a decider has forgotten its sequence: whatever it was asked before, it
/// answers all further requests as a new decider does that treats the platform's
/// preference alike.
pub proof fn law_idle_decider_answers_like_a_new_one(
    use_platform_preferred_deadlines: bool,
    before: Seq<DeadlineRequest>,
    requests: Seq<DeadlineRequest>,
)
    ensures
        ({
            let new = DeciderState::fresh(use_platform_preferred_deadlines);
            let idle = new.after_all(before).idle();
            &&& idle == new
            &&& idle.answers(requests) == new.answers(requests)
            &&& idle.after_all(requests) == new.after_all(requests)
        }),
{
    lemma_preference_is_kept(DeciderState::fresh(use_platform_preferred_deadlines), before);
}

/// Within a sequence, while the deadlines stay as they are, the choice stays as
/// it is, whatever the buffers, the time and the input.
pub proof fn law_sequence_sticks_to_its_deadline(
    state: DeciderState,
    possible: PossibleDeadlines,
    index: usize,
    vsync_interval: nat,
    max_allowed_buffers: nat,
    frame_time: nat,
    earliest_input_time: Option<Instant>,
)
    requires
        !state.use_platform_preferred_deadlines,
        index < possible.deadlines@.len(),
    ensures
        state.started().with_choice(possible, index).choice(
            possible,
            vsync_interval,
            max_allowed_buffers,
            frame_time,
            earliest_input_time,
        ) == index,
{
}

/// A new sequence starts with the platform's preference, or with a deadline
/// that is presented by the target and no earlier than that preference, and
/// that no later deadline within the target exceeds.
pub proof fn law_new_sequence_stays_within_target(possible: PossibleDeadlines, target: nat)
    requires
        possible.deadlines@.len() > 0,
        possible.is_ordered(),
        possible.deadlines@.len() <= usize::MAX,
    ensures
        ({
            let index = new_sequence_choice(possible, target);
            ||| index == possible.os_preferred_index
            ||| {
                &&& index < possible.deadlines@.len()
                &&& possible.deadlines@[index as int].present_delta@ <= target
                &&& possible.spec_os_preferred() matches Some(preferred) ==> preferred.present_delta@
                    <= possible.deadlines@[index as int].present_delta@
                &&& forall|i: int|
                    index < i < possible.deadlines@.len() ==> target < (
                    #[trigger] possible.deadlines@[i]).present_delta@
            }
        }),
{
    lemma_presented_by_splits(possible.deadlines@, target);
}

pub(crate) proof fn lemma_presented_by_splits(deadlines: Seq<PossibleDeadline>, target: nat)
    requires
        forall|i: int, j: int|
            0 <= i <= j < deadlines.len() ==> (#[trigger] deadlines[i]).present_delta@ <= (
            #[trigger] deadlines[j]).present_delta@,
    ensures
        0 <= presented_by(deadlines, target) <= deadlines.len(),
        forall|i: int|
            0 <= i < presented_by(deadlines, target) ==> (#[trigger] deadlines[i]).present_delta@
                <= target,
        forall|i: int|
            presented_by(deadlines, target) <= i < deadlines.len() ==> target < (
            #[trigger] deadlines[i]).present_delta@,
    decreases deadlines.len(),
{
    if deadlines.len() > 0 {
        let rest = deadlines.drop_last();
        if deadlines.last().present_delta@ <= target {
            assert forall|i: int| 0 <= i < deadlines.len() implies (
            #[trigger] deadlines[i]).present_delta@ <= target by {
                assert(deadlines[i].present_delta@ <= deadlines[deadlines.len()
                    - 1].present_delta@);
            }
        } else {
            assert forall|i: int, j: int| 0 <= i <= j < rest.len() implies (
            #[trigger] rest[i]).present_delta@ <= (#[trigger] rest[j]).present_delta@ by {
                assert(deadlines[i].present_delta@ <= deadlines[j].present_delta@);
            }
            lemma_presented_by_splits(rest, target);
            assert forall|i: int| 0 <= i < presented_by(deadlines, target) implies (
            #[trigger] deadlines[i]).present_delta@ <= target by {
                assert(rest[i] == deadlines[i]);
            }
            assert forall|i: int| presented_by(deadlines, target) <= i < deadlines.len() implies target
                < (#[trigger] deadlines[i]).present_delta@ by {
                if i < rest.len() {
                    assert(rest[i] == deadlines[i]);
                }
            }
        }
    }
}

/// Input that has waited for long is answered without delay: where the time
/// since it came, a frame and a quarter use up the unnoticed latency, a new
/// sequence aims for no later presentation than at once.
pub proof fn law_late_input_leaves_no_slack(
    vsync_interval: nat,
    max_allowed_buffers: nat,
    frame_time: nat,
    input_time: Instant,
)
    requires
        frame_time >= input_time@,
        frame_time - input_time@ + vsync_interval + vsync_interval / 4 >= PERCEPTIBLE_LATENCY_NANOS,
        frame_time - input_time@ <= time::MAX_DURATION_NANOS,
    ensures
        target_present_delta(
            vsync_interval,
            max_allowed_buffers,
            frame_time,
            Some(input_time),
        ) == 0,
{
    assert(vsync_interval * max_allowed_buffers >= 0) by (nonlinear_arith)
        requires
            vsync_interval >= 0,
            max_allowed_buffers >= 0,
    ;
}

} // verus!
