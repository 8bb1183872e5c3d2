//! The piece source: a seven-piece bag with a look-ahead queue.
//!
//! A bag holds one piece of each shape in random order. Pieces are drawn
//! from the bag into a queue of fixed length, and leave the queue at its
//! front; an empty bag is refilled and shuffled before the next piece is
//! taken from it.

use vstd::prelude::*;
use std::collections::VecDeque;
use rand::rngs::ThreadRng;
use rand::seq::SliceRandom;
use crate::piece::PieceType;

verus! {

/// Number of pieces in the look-ahead queue.
pub const PREVIEW_SIZE: usize = 5;

/// Number of pieces in a full bag: one of each shape.
pub const BAG_SIZE: usize = 7;

/// The seven shapes, in the order in which a bag is filled before shuffling.
pub open spec fn all_shapes() -> Seq<PieceType> {
    seq![
        PieceType::I,
        PieceType::O,
        PieceType::T,
        PieceType::S,
        PieceType::Z,
        PieceType::J,
        PieceType::L,
    ]
}

/// Whether a run of pieces holds each of the seven shapes exactly once.
pub open spec fn is_full_bag(block: Seq<PieceType>) -> bool {
    &&& block.len() == BAG_SIZE
    &&& block.no_duplicates()
    &&& forall|shape: PieceType| #[trigger] block.contains(shape)
}

/// Whether a sequence of pieces is made of full bags, one after another.
pub open spec fn whole_bags(pieces: Seq<PieceType>) -> bool {
    &&& pieces.len() % 7 == 0
    &&& forall|k: int|
        0 <= k && 7 * k + 7 <= pieces.len() ==> is_full_bag(
            #[trigger] pieces.subrange(7 * k, 7 * k + 7),
        )
}

/// The model of a bag randomizer: the look-ahead queue, front first, and
/// the rest of the current bag, of which the last piece is taken next.
pub struct BagView {
    pub queue: Seq<PieceType>,
    pub bag: Seq<PieceType>,
}

impl BagView {
    /// Whether the queue has its full length.
    pub open spec fn ready(self) -> bool {
        self.queue.len() == PREVIEW_SIZE
    }

    /// The pieces whose order is already decided, in the order in which
    /// they will be drawn: the queue, then the bag from its last piece down.
    pub open spec fn upcoming(self) -> Seq<PieceType> {
        self.queue + self.bag.reverse()
    }

    /// Whether drawing once from this state hands out `piece` and may lead
    /// to the state `after`. The piece is the front of the queue. The queue
    /// moves up by one and takes the last piece of the bag; an empty bag is
    /// first replaced by a full one, in an order that is left open.
    pub open spec fn draws(self, piece: PieceType, after: BagView) -> bool {
        &&& self.ready()
        &&& after.ready()
        &&& piece == self.queue[0]
        &&& after.queue.drop_last() == self.queue.skip(1)
        &&& if self.bag.len() > 0 {
            after.bag.push(after.queue.last()) == self.bag
        } else {
            is_full_bag(after.bag.push(after.queue.last()))
        }
    }
}

/// Whether `states` and `pieces` record a run of draws: each state draws the
/// piece with its index and becomes the next state.
pub open spec fn is_run(states: Seq<BagView>, pieces: Seq<PieceType>) -> bool {
    &&& states.len() == pieces.len() + 1
    &&& forall|i: int|
        0 <= i < pieces.len() ==> (#[trigger] states[i]).draws(pieces[i], states[i + 1])
}

/// The seven shapes in their fixed order are a full bag.
pub proof fn lemma_all_shapes_full()
    ensures
        is_full_bag(all_shapes()),
{
    let shapes = all_shapes();
    assert forall|shape: PieceType| #[trigger] shapes.contains(shape) by {
        match shape {
            PieceType::I => assert(shapes[0] == shape),
            PieceType::O => assert(shapes[1] == shape),
            PieceType::T => assert(shapes[2] == shape),
            PieceType::S => assert(shapes[3] == shape),
            PieceType::Z => assert(shapes[4] == shape),
            PieceType::J => assert(shapes[5] == shape),
            PieceType::L => assert(shapes[6] == shape),
        }
    }
}

/// Any reordering of a full bag is a full bag.
pub proof fn lemma_reordered_full(block: Seq<PieceType>, reordered: Seq<PieceType>)
    requires
        is_full_bag(block),
        reordered.to_multiset() == block.to_multiset(),
    ensures
        is_full_bag(reordered),
{
    block.to_multiset_ensures();
    reordered.to_multiset_ensures();
    block.lemma_multiset_has_no_duplicates();
    reordered.lemma_multiset_has_no_duplicates_conv();
    assert(reordered.len() == block.len());
    assert forall|shape: PieceType| #[trigger] reordered.contains(shape) by {
        assert(block.contains(shape));
        assert(block.to_multiset().count(shape) > 0);
    }
}

/// A full bag read backwards is a full bag.
pub proof fn lemma_reverse_full(block: Seq<PieceType>)
    requires
        is_full_bag(block),
    ensures
        is_full_bag(block.reverse()),
{
    let reversed = block.reverse();
    assert forall|shape: PieceType| #[trigger] reversed.contains(shape) by {
        assert(block.contains(shape));
        let i = choose|i: int| 0 <= i < block.len() && block[i] == shape;
        assert(reversed[block.len() - 1 - i] == shape);
    }
}

/// Whole bags followed by nothing, or by one more full bag, are whole bags.
pub proof fn lemma_whole_bags_extend(pieces: Seq<PieceType>, block: Seq<PieceType>)
    requires
        whole_bags(pieces),
        block.len() == 0 || is_full_bag(block),
    ensures
        whole_bags(pieces + block),
{
    let joined = pieces + block;
    if block.len() == 0 {
        assert(joined =~= pieces);
    } else {
        assert forall|k: int| 0 <= k && 7 * k + 7 <= joined.len() implies is_full_bag(
            #[trigger] joined.subrange(7 * k, 7 * k + 7),
        ) by {
            if 7 * k + 7 <= pieces.len() {
                assert(joined.subrange(7 * k, 7 * k + 7) =~= pieces.subrange(7 * k, 7 * k + 7));
            } else {
                assert(7 * k == pieces.len());
                assert(joined.subrange(7 * k, 7 * k + 7) =~= block);
            }
        }
    }
}

/// One draw keeps the pieces drawn so far, followed by the pieces that are
/// decided already, a sequence of whole bags.
pub proof fn lemma_draw_keeps_whole_bags(
    drawn: Seq<PieceType>,
    before: BagView,
    piece: PieceType,
    after: BagView,
)
    requires
        whole_bags(drawn + before.upcoming()),
        before.draws(piece, after),
    ensures
        whole_bags(drawn.push(piece) + after.upcoming()),
{
    let rest = after.bag.push(after.queue.last());
    assert(after.queue =~= after.queue.drop_last().push(after.queue.last()));
    if before.bag.len() > 0 {
        assert(drawn.push(piece) + after.upcoming() =~= drawn + before.upcoming());
    } else {
        lemma_reverse_full(rest);
        assert(drawn.push(piece) + after.upcoming() =~= (drawn + before.upcoming())
            + rest.reverse());
        lemma_whole_bags_extend(drawn + before.upcoming(), rest.reverse());
    }
}

/// Throughout a run of draws that starts with a full bag upcoming, the
/// pieces drawn and the pieces still upcoming form whole bags.
pub proof fn lemma_run_keeps_whole_bags(states: Seq<BagView>, pieces: Seq<PieceType>)
    requires
        is_run(states, pieces),
        is_full_bag(states[0].upcoming()),
    ensures
        whole_bags(pieces + states.last().upcoming()),
    decreases pieces.len(),
{
    if pieces.len() == 0 {
        let first = states[0].upcoming();
        assert(pieces + states.last().upcoming() =~= first);
        assert forall|k: int| 0 <= k && 7 * k + 7 <= first.len() implies is_full_bag(
            #[trigger] first.subrange(7 * k, 7 * k + 7),
        ) by {
            assert(first.subrange(7 * k, 7 * k + 7) =~= first);
        }
    } else {
        let earlier_states = states.drop_last();
        let earlier = pieces.drop_last();
        assert forall|i: int| 0 <= i < earlier.len() implies (#[trigger] earlier_states[i]).draws(
            earlier[i],
            earlier_states[i + 1],
        ) by {
            assert(states[i].draws(pieces[i], states[i + 1]));
        }
        lemma_run_keeps_whole_bags(earlier_states, earlier);
        let n = earlier.len() as int;
        assert(states[n].draws(pieces[n], states[n + 1]));
        lemma_draw_keeps_whole_bags(earlier, states[n], pieces[n], states[n + 1]);
        assert(earlier.push(pieces[n]) =~= pieces);
    }
}

/// Fairness of the bag: in a run of draws from a source that starts with a
/// full bag upcoming, as a new source does, the draws 7k+1 to 7k+7 hold each
/// of the seven shapes exactly once, for every k.
pub proof fn lemma_fair_draws(states: Seq<BagView>, pieces: Seq<PieceType>, k: int)
    requires
        is_run(states, pieces),
        is_full_bag(states[0].upcoming()),
        0 <= k,
        7 * k + 7 <= pieces.len(),
    ensures
        is_full_bag(pieces.subrange(7 * k, 7 * k + 7)),
{
    lemma_run_keeps_whole_bags(states, pieces);
    let all = pieces + states.last().upcoming();
    assert(all.subrange(7 * k, 7 * k + 7) =~= pieces.subrange(7 * k, 7 * k + 7));
}

/// A source of pieces with a look-ahead queue.
pub trait Randomizer {
    /// The look-ahead queue, front first.
    spec fn preview(&self) -> Seq<PieceType>;

    /// Whether the source can be drawn from.
    spec fn ready(&self) -> bool;

    /// Hands out the front of the look-ahead queue. The queue moves up by
    /// one and keeps its length.
    fn next(&mut self) -> (piece: PieceType)
        requires
            old(self).ready(),
        ensures
            final(self).ready(),
            old(self).preview().len() > 0,
            piece == old(self).preview()[0],
            final(self).preview().len() == old(self).preview().len(),
            final(self).preview().drop_last() == old(self).preview().skip(1),
    ;

    /// The first `count` pieces of the look-ahead queue, or the whole queue
    /// if it is shorter. Nothing is drawn.
    fn peek(&self, count: usize) -> (pieces: Vec<PieceType>)
        requires
            self.ready(),
        ensures
            pieces@ == self.preview().take(
                if count <= self.preview().len() {
                    count as int
                } else {
                    self.preview().len() as int
                },
            ),
    ;

    /// An independent copy of the source in the same state.
    fn clone_box(&self) -> (copy: Box<Self>) where Self: Sized
        requires
            self.ready(),
        ensures
            copy.ready(),
            copy.preview() == self.preview(),
    ;
}

/// `rand::rngs::ThreadRng`: the handle that `rand::thread_rng` returns. It
/// is passed on to the shuffle and never looked into.
#[verifier::external_type_specification]
#[verifier::external_body]
pub struct ExThreadRng(ThreadRng);

/// `rand::thread_rng`: a handle to the random number generator of the
/// current thread. Nothing is claimed of the handle. The first call on a
/// thread seeds the generator from the operating system and panics if the
/// system hands out no entropy; no argument decides that.
pub assume_specification[ rand::thread_rng ]() -> (rng: ThreadRng)
;

/// `rand::seq::SliceRandom::shuffle` on the pieces of a vector: the pieces
/// are reordered in place, so afterwards the vector holds the same pieces,
/// each as often as before. Nothing is claimed of their order. The
/// generator reseeds itself from the operating system now and then and
/// panics if that fails; no argument decides that.
#[verifier::external_body]
fn shuffle_pieces(pieces: &mut Vec<PieceType>, rng: &mut ThreadRng)
    ensures
        final(pieces)@.to_multiset() == old(pieces)@.to_multiset(),
{
    pieces.shuffle(rng);
}

/// The seven-piece bag with a look-ahead queue of `PREVIEW_SIZE` pieces.
pub struct BagRandomizer {
    bag: Vec<PieceType>,
    preview_queue: VecDeque<PieceType>,
}

impl View for BagRandomizer {
    type V = BagView;

    closed spec fn view(&self) -> BagView {
        BagView { queue: self.preview_queue@, bag: self.bag@ }
    }
}

impl BagRandomizer {
    /// Creates a source: a bag is filled and shuffled, and the queue takes
    /// its first pieces. The queue and the rest of the bag together are one
    /// full bag.
    pub fn new() -> (source: BagRandomizer)
        ensures
            source@.ready(),
            source@.bag.len() == BAG_SIZE - PREVIEW_SIZE,
            is_full_bag(source@.upcoming()),
    {
        let mut rng = rand::thread_rng();
        let mut source = BagRandomizer { bag: Vec::new(), preview_queue: VecDeque::new() };
        source.refill_bag(&mut rng);
        let ghost fresh = source.bag@;
        let mut filled: usize = 0;
        while filled < PREVIEW_SIZE
            invariant
                filled <= PREVIEW_SIZE,
                is_full_bag(fresh),
                source.bag@ == fresh.take(BAG_SIZE - filled),
                source.preview_queue@ == fresh.skip(BAG_SIZE - filled).reverse(),
            decreases PREVIEW_SIZE - filled,
        {
            let piece = source.bag.pop().unwrap();
            source.preview_queue.push_back(piece);
            filled += 1;
            assert(source.bag@ =~= fresh.take(BAG_SIZE - filled));
            assert(source.preview_queue@ =~= fresh.skip(BAG_SIZE - filled).reverse());
        }
        proof {
            assert(source@.upcoming() =~= fresh.reverse());
            lemma_reverse_full(fresh);
        }
        source
    }

    /// Whether the look-ahead queue has its full length, so that the
    /// source can be drawn from.
    pub fn is_ready(&self) -> (ready: bool)
        ensures
            ready == self@.ready(),
    {
        self.preview_queue.len() == PREVIEW_SIZE
    }

    /// Replaces the bag by one piece of each shape, shuffled.
    fn refill_bag(&mut self, rng: &mut ThreadRng)
        ensures
            is_full_bag(final(self).bag@),
            final(self).preview_queue@ == old(self).preview_queue@,
    {
        let mut bag: Vec<PieceType> = vec![
            PieceType::I,
            PieceType::O,
            PieceType::T,
            PieceType::S,
            PieceType::Z,
            PieceType::J,
            PieceType::L,
        ];
        assert(bag@ =~= all_shapes());
        shuffle_pieces(&mut bag, rng);
        proof {
            lemma_all_shapes_full();
            lemma_reordered_full(all_shapes(), bag@);
        }
        self.bag = bag;
    }
}

impl Clone for BagRandomizer {
    fn clone(&self) -> (copy: BagRandomizer)
        ensures
            copy@ == self@,
    {
        let mut bag: Vec<PieceType> = Vec::new();
        for i in 0..self.bag.len()
            invariant
                bag@ == self.bag@.take(i as int),
        {
            bag.push(self.bag[i]);
            assert(bag@ =~= self.bag@.take(i + 1));
        }
        let mut preview_queue: VecDeque<PieceType> = VecDeque::new();
        for i in 0..self.preview_queue.len()
            invariant
                preview_queue@ == self.preview_queue@.take(i as int),
        {
            preview_queue.push_back(self.preview_queue[i]);
            assert(preview_queue@ =~= self.preview_queue@.take(i + 1));
        }
        assert(bag@ =~= self.bag@);
        assert(preview_queue@ =~= self.preview_queue@);
        BagRandomizer { bag, preview_queue }
    }
}

impl Randomizer for BagRandomizer {
    open spec fn preview(&self) -> Seq<PieceType> {
        self@.queue
    }

    open spec fn ready(&self) -> bool {
        self@.ready()
    }

    /// Draws the next piece: the front of the queue. The queue takes the
    /// next piece of the bag, which is refilled first if it is empty.
    fn next(&mut self) -> (piece: PieceType)
        ensures
            old(self)@.draws(piece, final(self)@),
    {
        let piece = self.preview_queue.pop_front().unwrap();
        let mut rng = rand::thread_rng();
        if self.bag.len() == 0 {
            self.refill_bag(&mut rng);
        }
        let ghost taken_from = self.bag@;
        let refill = self.bag.pop().unwrap();
        self.preview_queue.push_back(refill);
        proof {
            assert(self@.queue.drop_last() =~= old(self)@.queue.skip(1));
            assert(self@.bag.push(self@.queue.last()) =~= taken_from);
        }
        piece
    }

    /// The first `count` pieces of the queue, or the whole queue if it is
    /// shorter.
    fn peek(&self, count: usize) -> (pieces: Vec<PieceType>)
        ensures
            pieces@ == self@.queue.take(
                if count <= PREVIEW_SIZE {
                    count as int
                } else {
                    PREVIEW_SIZE as int
                },
            ),
    {
        let len = self.preview_queue.len();
        let wanted: usize = if count <= len {
            count
        } else {
            len
        };
        let mut pieces: Vec<PieceType> = Vec::new();
        for i in 0..wanted
            invariant
                wanted <= self.preview_queue@.len(),
                pieces@ == self.preview_queue@.take(i as int),
        {
            pieces.push(self.preview_queue[i]);
            assert(pieces@ =~= self.preview_queue@.take(i + 1));
        }
        pieces
    }

    /// An independent copy of the source with the same queue and bag.
    fn clone_box(&self) -> (copy: Box<Self>)
        ensures
            copy@ == self@,
    {
        Box::new(self.clone())
    }
}

} // verus!
