//! Random choice among obstacle shapes, by weight.

use rand::rngs::ThreadRng;
use rand::Rng;
use vstd::prelude::*;

verus! {

/// The shapes that an obstacle can have, and how often each is to come up.
pub struct Obstacles {
    /// Each shape is a pair of obstacles: the height of the one at the top
    /// and the height of the one at the bottom.
    pub obstacles: Vec<(i32, i32)>,
    /// The weight of each shape: how many lots out of the total it holds.
    pub frequency_values: Vec<usize>,
}

/// The sum of the first `k` weights.
pub open spec fn weight_below(weights: Seq<usize>, k: int) -> int
    decreases k,
{
    if k <= 0 {
        0
    } else {
        weight_below(weights, k - 1) + weights[k - 1]
    }
}

/// The sums of the weights do not decrease.
pub proof fn lemma_weight_below_grows(weights: Seq<usize>, j: int, k: int)
    requires
        0 <= j <= k,
    ensures
        0 <= weight_below(weights, j) <= weight_below(weights, k),
    decreases k,
{
    if j < k {
        lemma_weight_below_grows(weights, j, k - 1);
    } else if k > 0 {
        lemma_weight_below_grows(weights, j - 1, k - 1);
    }
}

/// The random number generator of the running thread, as an opaque value.
#[verifier::external_type_specification]
#[verifier::external_body]
pub struct ExThreadRng(ThreadRng);

/// `rand::thread_rng`: a handle on the generator of the running thread, which
/// the system seeds. Nothing is claimed of it.
#[verifier::external_body]
fn thread_rng() -> ThreadRng {
    rand::thread_rng()
}

/// `Rng::gen_range` on the range `0..n`: some number from 0 up to, and not
/// including, `n`. Which one is not said. The range must not be empty.
#[verifier::external_body]
fn gen_below(rng: &mut ThreadRng, n: i32) -> (x: i32)
    requires
        0 < n,
    ensures
        0 <= x < n,
{
    rng.gen_range(0..n)
}

impl Obstacles {
    /// The sum of all weights: the number of lots.
    pub open spec fn lots(&self) -> int {
        weight_below(self.frequency_values@, self.frequency_values@.len() as int)
    }

    /// The number of shapes that have a weight.
    pub open spec fn weighted(&self) -> int {
        if self.obstacles@.len() < self.frequency_values@.len() {
            self.obstacles@.len() as int
        } else {
            self.frequency_values@.len() as int
        }
    }

    /// Whether the lot `x` falls to the shape `k`. The lots are dealt out in
    /// order: the first shape holds as many lots as its weight, counted from
    /// lot 0, the second shape the lots that follow, and so on. A lot that
    /// is left over falls to the last shape, and a lot below 0 to the first
    /// shape, if any shape has a weight.
    pub open spec fn falls_to(&self, x: int, k: int) -> bool {
        let w = self.frequency_values@;
        ||| 0 <= k < self.weighted() && x < weight_below(w, k + 1) && (k == 0 || weight_below(w, k)
            <= x)
        ||| k == self.obstacles@.len() - 1 && (self.weighted() == 0 || weight_below(
            w,
            self.weighted(),
        ) <= x)
    }

    /// A shape can be drawn by lot when there is a shape, and the number
    /// of lots is positive and fits in an `i32`.
    pub open spec fn can_generate(&self) -> bool {
        self.obstacles@.len() > 0 && 0 < self.lots() <= i32::MAX
    }

    /// The number of lots, if it fits in an `i32`.
    pub fn total_frequency(&self) -> (total: Option<i32>)
        ensures
            total is Some <==> self.lots() <= i32::MAX,
            total matches Some(t) ==> t == self.lots(),
    {
        let mut sum: i32 = 0;
        let mut i: usize = 0;
        while i < self.frequency_values.len()
            invariant
                i <= self.frequency_values.len(),
                sum == weight_below(self.frequency_values@, i as int),
                0 <= sum,
            decreases self.frequency_values.len() - i,
        {
            let weight: usize = self.frequency_values[i];
            if weight > (i32::MAX - sum) as usize {
                proof {
                    lemma_weight_below_grows(
                        self.frequency_values@,
                        i + 1,
                        self.frequency_values@.len() as int,
                    );
                }
                return None;
            }
            sum = sum + weight as i32;
            i = i + 1;
        }
        Some(sum)
    }

    /// Decides [`Obstacles::can_generate`].
    pub fn is_ready(&self) -> (b: bool)
        ensures
            b == self.can_generate(),
    {
        if self.obstacles.len() == 0 {
            return false;
        }
        match self.total_frequency() {
            Some(total) => total > 0,
            None => false,
        }
    }

    /// The shape that the lot `x` falls to.
    pub fn shape_for(&self, x: i32) -> (shape: (i32, i32))
        requires
            self.obstacles@.len() > 0,
        ensures
            exists|k: int|
                0 <= k < self.obstacles@.len() && self.falls_to(x as int, k) && shape
                    == self.obstacles@[k],
    {
        let count: usize = if self.obstacles.len() < self.frequency_values.len() {
            self.obstacles.len()
        } else {
            self.frequency_values.len()
        };
        let mut below: i128 = 0;
        let mut k: usize = 0;
        while k < count
            invariant
                k <= count,
                count == self.weighted(),
                below == weight_below(self.frequency_values@, k as int),
                k == 0 || below <= x,
            decreases count - k,
        {
            below = below + self.frequency_values[k] as i128;
            if (x as i128) < below {
                assert(self.falls_to(x as int, k as int));
                return self.obstacles[k];
            }
            k = k + 1;
        }
        assert(self.falls_to(x as int, self.obstacles@.len() - 1));
        self.obstacles[self.obstacles.len() - 1]
    }

    /// Draws a shape by lot: each lot is as likely as any other, so a shape
    /// comes up in proportion to its weight. The result is the shape that
    /// some lot falls to.
    pub fn generate_obstacles(&self) -> (shape: (i32, i32))
        requires
            self.can_generate(),
        ensures
            exists|x: int, k: int|
                0 <= x < self.lots() && 0 <= k < self.obstacles@.len() && self.falls_to(x, k)
                    && shape == self.obstacles@[k],
    {
        let total: i32 = match self.total_frequency() {
            Some(t) => t,
            None => 1,
        };
        let mut rng: ThreadRng = thread_rng();
        let x: i32 = gen_below(&mut rng, total);
        self.shape_for(x)
    }
}

} // verus!
