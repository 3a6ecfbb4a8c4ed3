//! The queue of submitted frames, which are shown in the order of their
//! submission whatever the order in which the GPU finishes them.

use std::collections::VecDeque;
use vstd::prelude::*;

verus! {

/// A submitted frame that waits to be shown.
pub struct QueuedIosurfaceSubmission<T> {
    pub order: usize,
    pub ready: bool,
    pub frame: T,
}

/// The submitted frames, oldest first.
pub struct IosurfaceSubmissionQueue<T> {
    frames: VecDeque<QueuedIosurfaceSubmission<T>>,
}

impl<T> View for IosurfaceSubmissionQueue<T> {
    type V = Seq<QueuedIosurfaceSubmission<T>>;

    closed spec fn view(&self) -> Seq<QueuedIosurfaceSubmission<T>> {
        self.frames@
    }
}

/// Frames in the order of their submission.
pub open spec fn in_submission_order<T>(frames: Seq<QueuedIosurfaceSubmission<T>>) -> bool {
    forall|i: int, j: int|
        0 <= i <= j < frames.len() ==> (#[trigger] frames[i]).order <= (#[trigger] frames[j]).order
}

/// The first place whose frame was submitted after `order`; the end where there
/// is none.
pub open spec fn place_for<T>(frames: Seq<QueuedIosurfaceSubmission<T>>, order: usize) -> int
    decreases frames.len(),
{
    if frames.len() == 0 {
        0
    } else if frames[0].order > order {
        0
    } else {
        1 + place_for(frames.drop_first(), order)
    }
}

/// The place of the first frame with an order, if there is one.
pub open spec fn place_of<T>(frames: Seq<QueuedIosurfaceSubmission<T>>, order: usize) -> Option<int>
    decreases frames.len(),
{
    if frames.len() == 0 {
        None
    } else if frames[0].order == order {
        Some(0int)
    } else {
        match place_of(frames.drop_first(), order) {
            Some(place) => Some(place + 1),
            None => None,
        }
    }
}

/// How many frames at the front are ready in a row.
pub open spec fn ready_run<T>(frames: Seq<QueuedIosurfaceSubmission<T>>) -> nat
    decreases frames.len(),
{
    if frames.len() == 0 || !frames[0].ready {
        0
    } else {
        1 + ready_run(frames.drop_first())
    }
}

proof fn lemma_place_for<T>(frames: Seq<QueuedIosurfaceSubmission<T>>, order: usize, place: int)
    requires
        0 <= place <= frames.len(),
        forall|i: int| 0 <= i < place ==> (#[trigger] frames[i]).order <= order,
        place < frames.len() ==> frames[place].order > order,
    ensures
        place_for(frames, order) == place,
    decreases frames.len(),
{
    if frames.len() > 0 && place > 0 {
        assert(frames[0].order <= order);
        let rest = frames.drop_first();
        assert forall|i: int| 0 <= i < place - 1 implies (#[trigger] rest[i]).order <= order by {
            assert(rest[i] == frames[i + 1]);
        }
        lemma_place_for(rest, order, place - 1);
    }
}

/// Where a new frame goes: behind every frame that was submitted before it or
/// with it, up to the first that was submitted after it.
pub proof fn lemma_place_for_splits<T>(frames: Seq<QueuedIosurfaceSubmission<T>>, order: usize)
    ensures
        0 <= place_for(frames, order) <= frames.len(),
        forall|i: int| 0 <= i < place_for(frames, order) ==> (#[trigger] frames[i]).order <= order,
        place_for(frames, order) < frames.len() ==> frames[place_for(frames, order)].order > order,
    decreases frames.len(),
{
    if frames.len() > 0 && frames[0].order <= order {
        let rest = frames.drop_first();
        lemma_place_for_splits(rest, order);
        assert forall|i: int| 0 <= i < place_for(frames, order) implies (#[trigger] frames[i]).order
            <= order by {
            if i > 0 {
                assert(rest[i - 1] == frames[i]);
            }
        }
    }
}

proof fn lemma_place_of<T>(frames: Seq<QueuedIosurfaceSubmission<T>>, order: usize, place: int)
    requires
        0 <= place <= frames.len(),
        forall|i: int| 0 <= i < place ==> (#[trigger] frames[i]).order != order,
        place < frames.len() ==> frames[place].order == order,
    ensures
        place < frames.len() ==> place_of(frames, order) == Some(place),
        place == frames.len() ==> place_of(frames, order) is None,
    decreases frames.len(),
{
    if frames.len() > 0 && place > 0 {
        assert(frames[0].order != order);
        let rest = frames.drop_first();
        assert forall|i: int| 0 <= i < place - 1 implies (#[trigger] rest[i]).order != order by {
            assert(rest[i] == frames[i + 1]);
        }
        lemma_place_of(rest, order, place - 1);
    }
}

/// The place of a frame holds a frame with that order, and no earlier one does.
pub proof fn lemma_place_of_finds<T>(frames: Seq<QueuedIosurfaceSubmission<T>>, order: usize)
    ensures
        match place_of(frames, order) {
            Some(place) => {
                &&& 0 <= place < frames.len()
                &&& frames[place].order == order
                &&& forall|i: int| 0 <= i < place ==> (#[trigger] frames[i]).order != order
            },
            None => forall|i: int| 0 <= i < frames.len() ==> (#[trigger] frames[i]).order != order,
        },
    decreases frames.len(),
{
    if frames.len() > 0 && frames[0].order != order {
        let rest = frames.drop_first();
        lemma_place_of_finds(rest, order);
        match place_of(rest, order) {
            Some(place) => {
                assert(rest[place] == frames[place + 1]);
                assert forall|i: int| 0 <= i < place + 1 implies (#[trigger] frames[i]).order
                    != order by {
                    if i > 0 {
                        assert(rest[i - 1] == frames[i]);
                    }
                }
            },
            None => {
                assert forall|i: int| 0 <= i < frames.len() implies (#[trigger] frames[i]).order
                    != order by {
                    if i > 0 {
                        assert(rest[i - 1] == frames[i]);
                    }
                }
            },
        }
    }
}

/// The frames of the run at the front are ready, and the one behind it is not.
pub(crate) proof fn lemma_run_is_ready<T>(frames: Seq<QueuedIosurfaceSubmission<T>>)
    ensures
        ready_run(frames) <= frames.len(),
        forall|i: int| 0 <= i < ready_run(frames) ==> (#[trigger] frames[i]).ready,
        ready_run(frames) < frames.len() ==> !frames[ready_run(frames) as int].ready,
    decreases frames.len(),
{
    if frames.len() > 0 && frames[0].ready {
        let rest = frames.drop_first();
        lemma_run_is_ready(rest);
        assert forall|i: int| 0 <= i < ready_run(frames) implies (#[trigger] frames[i]).ready by {
            if i > 0 {
                assert(rest[i - 1] == frames[i]);
            }
        }
        if ready_run(frames) < frames.len() {
            assert(rest[ready_run(rest) as int] == frames[ready_run(frames) as int]);
        }
    }
}

proof fn lemma_ready_run<T>(frames: Seq<QueuedIosurfaceSubmission<T>>, count: int)
    requires
        0 <= count <= frames.len(),
        forall|i: int| 0 <= i < count ==> (#[trigger] frames[i]).ready,
        count < frames.len() ==> !frames[count].ready,
    ensures
        ready_run(frames) == count,
    decreases frames.len(),
{
    if frames.len() > 0 && count > 0 {
        assert(frames[0].ready);
        let rest = frames.drop_first();
        assert forall|i: int| 0 <= i < count - 1 implies (#[trigger] rest[i]).ready by {
            assert(rest[i] == frames[i + 1]);
        }
        lemma_ready_run(rest, count - 1);
    }
}

impl<T> IosurfaceSubmissionQueue<T> {
    /// A queue without frames.
    pub fn new() -> (queue: Self)
        ensures
            queue@ == Seq::<QueuedIosurfaceSubmission<T>>::empty(),
    {
        IosurfaceSubmissionQueue { frames: VecDeque::new() }
    }

    /// Adds a frame that is not ready yet, in front of every frame that was
    /// submitted after it.
    pub fn push(&mut self, order: usize, frame: T)
        ensures
            final(self)@ == old(self)@.insert(
                place_for(old(self)@, order),
                (QueuedIosurfaceSubmission { order, ready: false, frame }),
            ),
    {
        let mut place: usize = 0;
        while place < self.frames.len() && self.frames[place].order <= order
            invariant
                place <= self.frames@.len(),
                *self == *old(self),
                forall|i: int| 0 <= i < place ==> (#[trigger] self.frames@[i]).order <= order,
            decreases self.frames@.len() - place,
        {
            place = place + 1;
        }
        proof {
            lemma_place_for(self.frames@, order, place as int);
        }
        let queued: QueuedIosurfaceSubmission<T> = QueuedIosurfaceSubmission {
            order,
            ready: false,
            frame,
        };
        if place < self.frames.len() {
            self.frames.insert(place, queued);
        } else {
            self.frames.push_back(queued);
            assert(self.frames@ =~= old(self).frames@.insert(place as int, queued));
        }
    }

    fn find(&self, order: usize) -> (place: Option<usize>)
        ensures
            match place {
                Some(place) => place_of(self@, order) == Some(place as int) && place < self@.len(),
                None => place_of(self@, order) is None,
            },
    {
        let mut place: usize = 0;
        while place < self.frames.len() && self.frames[place].order != order
            invariant
                place <= self.frames@.len(),
                forall|i: int| 0 <= i < place ==> (#[trigger] self.frames@[i]).order != order,
            decreases self.frames@.len() - place,
        {
            place = place + 1;
        }
        proof {
            lemma_place_of(self.frames@, order, place as int);
        }
        if place < self.frames.len() {
            Some(place)
        } else {
            None
        }
    }

    /// Marks a frame as ready, after `update` has changed it, and tells whether
    /// it was found.
    pub fn mark_ready_with<F: FnOnce(&mut T)>(&mut self, order: usize, update: F) -> (found: bool)
        requires
            forall|frame: &mut T| #[trigger] update.requires((frame,)),
        ensures
            match place_of(old(self)@, order) {
                Some(place) => {
                    &&& found
                    &&& exists|frame: &mut T|
                        {
                            &&& #[trigger] update.ensures((frame,), ())
                            &&& *frame == old(self)@[place].frame
                            &&& final(self)@ == old(self)@.update(
                                place,
                                (QueuedIosurfaceSubmission {
                                    order,
                                    ready: true,
                                    frame: *final(frame),
                                }),
                            )
                        }
                },
                None => !found && final(self)@ == old(self)@,
            },
    {
        let place: usize = match self.find(order) {
            Some(place) => place,
            None => {
                return false;
            },
        };
        proof {
            lemma_place_of_finds(self.frames@, order);
        }
        if let Some(queued) = self.frames.remove(place) {
            let mut frame: T = queued.frame;
            update(&mut frame);
            let ready: QueuedIosurfaceSubmission<T> = QueuedIosurfaceSubmission {
                order,
                ready: true,
                frame,
            };
            self.frames.insert(place, ready);
            proof {
                assert(self.frames@ =~= old(self).frames@.update(place as int, ready));
            }
        }
        true
    }

    /// Takes a frame out of the queue.
    pub fn remove(&mut self, order: usize) -> (frame: Option<T>)
        ensures
            match place_of(old(self)@, order) {
                Some(place) => frame == Some(old(self)@[place].frame) && final(self)@ == old(
                    self,
                )@.remove(place),
                None => frame is None && final(self)@ == old(self)@,
            },
    {
        let place: usize = match self.find(order) {
            Some(place) => place,
            None => {
                return None;
            },
        };
        match self.frames.remove(place) {
            Some(queued) => Some(queued.frame),
            None => None,
        }
    }

    /// Takes out the front frame if it is ready.
    pub fn pop_ready_front(&mut self) -> (frame: Option<T>)
        ensures
            if old(self)@.len() > 0 && old(self)@[0].ready {
                frame == Some(old(self)@[0].frame) && final(self)@ == old(self)@.drop_first()
            } else {
                frame is None && final(self)@ == old(self)@
            },
    {
        if self.frames.len() == 0 || !self.frames[0].ready {
            return None;
        }
        match self.frames.pop_front() {
            Some(queued) => {
                assert(self.frames@ =~= old(self).frames@.drop_first());
                Some(queued.frame)
            },
            None => None,
        }
    }

    /// The front frame if it is ready.
    pub fn ready_front(&self) -> (frame: Option<&T>)
        ensures
            match frame {
                Some(frame) => self@.len() > 0 && self@[0].ready && *frame == self@[0].frame,
                None => self@.len() == 0 || !self@[0].ready,
            },
    {
        if self.frames.len() > 0 && self.frames[0].ready {
            Some(&self.frames[0].frame)
        } else {
            None
        }
    }

    /// How many frames at the front are ready in a row.
    pub fn ready_front_count(&self) -> (count: usize)
        ensures
            count == ready_run(self@),
    {
        let mut count: usize = 0;
        while count < self.frames.len() && self.frames[count].ready
            invariant
                count <= self.frames@.len(),
                forall|i: int| 0 <= i < count ==> (#[trigger] self.frames@[i]).ready,
            decreases self.frames@.len() - count,
        {
            count = count + 1;
        }
        proof {
            lemma_ready_run(self.frames@, count as int);
        }
        count
    }

    /// How many frames wait.
    pub fn len(&self) -> (count: usize)
        ensures
            count == self@.len(),
    {
        self.frames.len()
    }
}

impl<T> Default for IosurfaceSubmissionQueue<T> {
    fn default() -> (queue: Self)
        ensures
            queue@ == Seq::<QueuedIosurfaceSubmission<T>>::empty(),
    {
        IosurfaceSubmissionQueue::new()
    }
}

/// A queue stays in the order of submission: whatever is added, marked or taken
/// out.
pub proof fn law_queue_keeps_submission_order<T>(
    frames: Seq<QueuedIosurfaceSubmission<T>>,
    order: usize,
    frame: T,
)
    requires
        in_submission_order(frames),
    ensures
        in_submission_order(
            frames.insert(
                place_for(frames, order),
                QueuedIosurfaceSubmission { order, ready: false, frame },
            ),
        ),
        place_of(frames, order) matches Some(place) ==> in_submission_order(frames.remove(place))
            && in_submission_order(
            frames.update(place, QueuedIosurfaceSubmission { order, ready: true, frame }),
        ),
        frames.len() > 0 ==> in_submission_order(frames.drop_first()),
{
    lemma_place_for_splits(frames, order);
    lemma_place_of_finds(frames, order);
    let place = place_for(frames, order);
    let added = frames.insert(place, QueuedIosurfaceSubmission { order, ready: false, frame });
    assert forall|i: int, j: int| 0 <= i <= j < added.len() implies (#[trigger] added[i]).order <= (
    #[trigger] added[j]).order by {
        let left = if i < place { i } else { i - 1 };
        let right = if j < place { j } else { j - 1 };
        if i != place {
            assert(added[i] == frames[left]);
        }
        if j != place {
            assert(added[j] == frames[right]);
        }
        if i == place && j > place {
            assert(frames[place].order <= frames[right].order);
        }
    }
    if let Some(found) = place_of(frames, order) {
        let removed = frames.remove(found);
        assert forall|i: int, j: int| 0 <= i <= j < removed.len() implies (#[trigger] removed[i]).order
            <= (#[trigger] removed[j]).order by {
            assert(removed[i] == frames[if i < found { i } else { i + 1 }]);
            assert(removed[j] == frames[if j < found { j } else { j + 1 }]);
        }
        let marked = frames.update(found, QueuedIosurfaceSubmission { order, ready: true, frame });
        assert forall|i: int, j: int| 0 <= i <= j < marked.len() implies (#[trigger] marked[i]).order
            <= (#[trigger] marked[j]).order by {
            assert(marked[i].order == frames[i].order);
            assert(marked[j].order == frames[j].order);
        }
    }
    if frames.len() > 0 {
        let rest = frames.drop_first();
        assert forall|i: int, j: int| 0 <= i <= j < rest.len() implies (#[trigger] rest[i]).order <= (
        #[trigger] rest[j]).order by {
            assert(rest[i] == frames[i + 1]);
            assert(rest[j] == frames[j + 1]);
        }
    }
}

/// A frame never overtakes another: what is popped was submitted no later than
/// anything that stays, and nothing is popped while the oldest frame is not
/// ready.
pub proof fn law_frames_never_overtake<T>(frames: Seq<QueuedIosurfaceSubmission<T>>)
    requires
        in_submission_order(frames),
        frames.len() > 0,
    ensures
        forall|i: int|
            0 <= i < frames.drop_first().len() ==> frames[0].order <= (
            #[trigger] frames.drop_first()[i]).order,
        ready_run(frames) == 0 <==> !frames[0].ready,
{
    assert forall|i: int| 0 <= i < frames.drop_first().len() implies frames[0].order <= (
    #[trigger] frames.drop_first()[i]).order by {
        assert(frames.drop_first()[i] == frames[i + 1]);
    }
}

} // verus!
