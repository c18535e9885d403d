//! Fixed-shape feed-forward controller on fixed-point values.
//!
//! A layer holds a weight matrix and a bias vector, shape-checked at run
//! time.  The squashing nonlinearity `x -> x * SCALE / (SCALE + |x|)` maps
//! every finite input strictly into `(-SCALE, SCALE)`.  Parameters stay in
//! `[-W_MAX, W_MAX]`: mutation noise is saturated there.
use vstd::prelude::*;
use crate::rng::{noise_centered, random_below};
use crate::{clamp, div_trunc, mul_div, spec_abs, spec_clamp, tdiv};

verus! {

/// Bound on every weight and bias entry.
pub const W_MAX: i64 = 16384;

/// Bound on every controller input entry.
pub const X_MAX: i64 = 0x100_0000;

/// Controller input width: one entry per sensor ray, plus speed, plus
/// time since the last sensor refresh.
pub const MODEL_IN: usize = 13;

/// Hidden layer width.
pub const HIDDEN: usize = 10;

/// Controller output width.
pub const MODEL_OUT: usize = 4;

/// The squashing nonlinearity: strictly inside `(-SCALE, SCALE)`.
pub open spec fn spec_squash(x: int) -> int {
    tdiv(x * 1024, 1024 + spec_abs(x))
}

/// Apply the squashing nonlinearity.
pub fn squash(x: i64) -> (r: i64)
    requires
        -0x1_0000_0000_0000 <= x <= 0x1_0000_0000_0000,
    ensures
        r == spec_squash(x as int),
        -1024 < r < 1024,
{
    let ax: i64 = if x >= 0 {
        x
    } else {
        -x
    };
    let r = mul_div(x, 1024, 1024 + ax);
    proof {
        vstd::arithmetic::div_mod::lemma_multiply_divide_lt(
            (ax as int) * 1024,
            1024 + ax as int,
            1024,
        );
        vstd::arithmetic::div_mod::lemma_div_pos_is_pos((ax as int) * 1024, 1024 + ax as int);
    }
    r
}

/// The squashing activation, applied elementwise to a vector.
pub struct Tanh {}

impl Tanh {
    /// Squash every entry in place.
    pub fn forward(&self, x: &mut Vec<i64>)
        requires
            forall|i: int| 0 <= i < old(x)@.len() ==> -0x1_0000_0000_0000 <= (
            #[trigger] old(x)@[i]) <= 0x1_0000_0000_0000,
        ensures
            final(x)@.len() == old(x)@.len(),
            forall|i: int| 0 <= i < old(x)@.len() ==> (#[trigger] final(x)@[i]) == spec_squash(
                old(x)@[i] as int,
            ),
            forall|i: int| 0 <= i < old(x)@.len() ==> -1024 < (#[trigger] final(x)@[i]) < 1024,
    {
        let len: usize = x.len();
        let mut i: usize = 0;
        while i < len
            invariant
                len == x@.len(),
                len == old(x)@.len(),
                i <= len,
                forall|k: int| 0 <= k < len ==> -0x1_0000_0000_0000 <= (#[trigger] old(x)@[k])
                    <= 0x1_0000_0000_0000,
                forall|k: int| i <= k < len ==> (#[trigger] x@[k]) == old(x)@[k],
                forall|k: int| 0 <= k < i ==> (#[trigger] x@[k]) == spec_squash(old(x)@[k] as int),
                forall|k: int| 0 <= k < i ==> -1024 < (#[trigger] x@[k]) < 1024,
            decreases len - i,
        {
            let v: i64 = x[i];
            let s: i64 = squash(v);
            x[i] = s;
            i = i + 1;
        }
    }
}

/// Dot product of the first `k` entries.
pub open spec fn spec_dot(row: Seq<i64>, x: Seq<i64>, k: int) -> int
    decreases k,
{
    if k <= 0 {
        0
    } else {
        spec_dot(row, x, k - 1) + row[k - 1] * x[k - 1]
    }
}

/// One linear transform with runtime-checked shape.
#[derive(Clone)]
pub struct Linear {
    pub n_in: usize,
    pub n_out: usize,
    pub weights: Vec<Vec<i64>>,
    pub bias: Vec<i64>,
}

impl Linear {
    /// Shapes match the recorded dimensions and entries are bounded.
    pub open spec fn wf(self) -> bool {
        &&& 1 <= self.n_in <= 64
        &&& 1 <= self.n_out <= 64
        &&& self.weights@.len() == self.n_out
        &&& self.bias@.len() == self.n_out
        &&& forall|o: int| 0 <= o < self.n_out ==> (#[trigger] self.weights@[o])@.len()
            == self.n_in
        &&& forall|o: int, j: int| 0 <= o < self.n_out && 0 <= j < self.n_in ==> -16384 <= (
        #[trigger] self.weights@[o]@[j]) <= 16384
        &&& forall|o: int| 0 <= o < self.n_out ==> -16384 <= (#[trigger] self.bias@[o]) <= 16384
    }

    /// The layer's output entry `o` on input `x`: the affine form, with
    /// the dot product scaled back down to fixed point.
    pub open spec fn spec_out(self, x: Seq<i64>, o: int) -> int {
        tdiv(spec_dot(self.weights@[o]@, x, self.n_in as int), 1024) + self.bias@[o]
    }

    /// A layer with every entry drawn from the centered noise source with
    /// spread `sd` (an approximately normal sample).
    pub fn random(n_in: usize, n_out: usize, sd: i64) -> (l: Linear)
        requires
            1 <= n_in <= 64,
            1 <= n_out <= 64,
            0 < sd <= 2048,
        ensures
            l.wf(),
            l.n_in == n_in,
            l.n_out == n_out,
    {
        let mut weights: Vec<Vec<i64>> = Vec::new();
        let mut bias: Vec<i64> = Vec::new();
        let mut o: usize = 0;
        while o < n_out
            invariant
                1 <= n_in <= 64,
                1 <= n_out <= 64,
                0 < sd <= 2048,
                o <= n_out,
                weights@.len() == o,
                bias@.len() == o,
                forall|p: int| 0 <= p < o ==> (#[trigger] weights@[p])@.len() == n_in,
                forall|p: int, j: int| 0 <= p < o && 0 <= j < n_in ==> -16384 <= (
                #[trigger] weights@[p]@[j]) <= 16384,
                forall|p: int| 0 <= p < o ==> -16384 <= (#[trigger] bias@[p]) <= 16384,
            decreases n_out - o,
        {
            let mut row: Vec<i64> = Vec::new();
            let mut j: usize = 0;
            while j < n_in
                invariant
                    1 <= n_in <= 64,
                    0 < sd <= 2048,
                    j <= n_in,
                    row@.len() == j,
                    forall|k: int| 0 <= k < j ==> -16384 <= (#[trigger] row@[k]) <= 16384,
                decreases n_in - j,
            {
                row.push(clamp(noise_centered(sd), -16384, 16384));
                j = j + 1;
            }
            weights.push(row);
            bias.push(clamp(noise_centered(sd), -16384, 16384));
            o = o + 1;
        }
        Linear { n_in, n_out, weights, bias }
    }

    /// Forward pass: each output is the affine form of the input (no
    /// activation; `Tanh` applies that separately).
    pub fn forward(&self, x: &Vec<i64>) -> (y: Vec<i64>)
        requires
            self.wf(),
            x@.len() == self.n_in,
            forall|j: int| 0 <= j < x@.len() ==> -0x100_0000 <= (#[trigger] x@[j]) <= 0x100_0000,
        ensures
            y@.len() == self.n_out,
            forall|o: int| 0 <= o < y@.len() ==> (#[trigger] y@[o]) == self.spec_out(x@, o),
            forall|o: int| 0 <= o < y@.len() ==> -0x800_0000_0000 <= (#[trigger] y@[o])
                <= 0x800_0000_0000,
    {
        let mut y: Vec<i64> = Vec::new();
        let mut o: usize = 0;
        while o < self.n_out
            invariant
                self.wf(),
                x@.len() == self.n_in,
                forall|j: int| 0 <= j < x@.len() ==> -0x100_0000 <= (#[trigger] x@[j])
                    <= 0x100_0000,
                o <= self.n_out,
                y@.len() == o,
                forall|p: int| 0 <= p < o ==> (#[trigger] y@[p]) == self.spec_out(x@, p),
                forall|p: int| 0 <= p < o ==> -0x800_0000_0000 <= (#[trigger] y@[p])
                    <= 0x800_0000_0000,
            decreases self.n_out - o,
        {
            let row = &self.weights[o];
            let mut acc: i64 = 0;
            let mut j: usize = 0;
            while j < self.n_in
                invariant
                    self.wf(),
                    o < self.n_out,
                    row == self.weights@[o as int],
                    x@.len() == self.n_in,
                    forall|k: int| 0 <= k < x@.len() ==> -0x100_0000 <= (#[trigger] x@[k])
                        <= 0x100_0000,
                    j <= self.n_in,
                    acc == spec_dot(row@, x@, j as int),
                    -0x40_0000_0000 * (j as int) <= acc <= 0x40_0000_0000 * (j as int),
                decreases self.n_in - j,
            {
                proof {
                    assert(-0x40_0000_0000 <= (row@[j as int] as int) * (x@[j as int] as int)
                        <= 0x40_0000_0000) by (nonlinear_arith)
                        requires
                            -16384 <= row@[j as int] <= 16384,
                            -0x100_0000 <= x@[j as int] <= 0x100_0000,
                    ;
                }
                acc = acc + row[j] * x[j];
                j = j + 1;
            }
            proof {
                crate::lemma_tdiv_bound(acc as int, 1024, 0x400_0000_0000);
            }
            let z: i64 = div_trunc(acc, 1024) + self.bias[o];
            y.push(z);
            o = o + 1;
        }
        y
    }

    /// Add saturated noise with spread `rate` to every entry, in place.
    /// The shape is unchanged and every entry moves by at most `6 * rate`.
    pub fn mutate(&mut self, rate: i64)
        requires
            old(self).wf(),
            0 <= rate <= 2048,
        ensures
            final(self).wf(),
            final(self).n_in == old(self).n_in,
            final(self).n_out == old(self).n_out,
            layer_near(*final(self), *old(self), 6 * rate),
            forall|o: int, j: int| 0 <= o < old(self).n_out && 0 <= j < old(self).n_in
                ==> spec_abs((#[trigger] final(self).weights@[o]@[j]) - old(self).weights@[o]@[j])
                <= 6 * rate,
            forall|o: int| 0 <= o < old(self).n_out ==> spec_abs(
                (#[trigger] final(self).bias@[o]) - old(self).bias@[o],
            ) <= 6 * rate,
    {
        let n_out: usize = self.n_out;
        let n_in: usize = self.n_in;
        let mut weights: Vec<Vec<i64>> = Vec::new();
        let mut bias: Vec<i64> = Vec::new();
        let mut o: usize = 0;
        while o < n_out
            invariant
                *self == *old(self),
                self.wf(),
                n_out == self.n_out,
                n_in == self.n_in,
                0 <= rate <= 2048,
                o <= n_out,
                weights@.len() == o,
                bias@.len() == o,
                forall|p: int| 0 <= p < o ==> (#[trigger] weights@[p])@.len() == n_in,
                forall|p: int, k: int| 0 <= p < o && 0 <= k < n_in ==> -16384 <= (
                #[trigger] weights@[p]@[k]) <= 16384,
                forall|p: int, k: int| 0 <= p < o && 0 <= k < n_in ==> spec_abs(
                    (#[trigger] weights@[p]@[k]) - self.weights@[p]@[k],
                ) <= 6 * rate,
                forall|p: int| 0 <= p < o ==> -16384 <= (#[trigger] bias@[p]) <= 16384,
                forall|p: int| 0 <= p < o ==> spec_abs((#[trigger] bias@[p]) - self.bias@[p]) <= 6
                    * rate,
            decreases n_out - o,
        {
            let mut row: Vec<i64> = Vec::new();
            let mut j: usize = 0;
            while j < n_in
                invariant
                    *self == *old(self),
                    self.wf(),
                    n_out == self.n_out,
                    n_in == self.n_in,
                    0 <= rate <= 2048,
                    o < n_out,
                    j <= n_in,
                    row@.len() == j,
                    forall|k: int| 0 <= k < j ==> -16384 <= (#[trigger] row@[k]) <= 16384,
                    forall|k: int| 0 <= k < j ==> spec_abs(
                        (#[trigger] row@[k]) - self.weights@[o as int]@[k],
                    ) <= 6 * rate,
                decreases n_in - j,
            {
                let w: i64 = self.weights[o][j];
                let noise: i64 = noise_centered(rate);
                row.push(clamp(w + noise, -16384, 16384));
                j = j + 1;
            }
            let b: i64 = self.bias[o];
            bias.push(clamp(b + noise_centered(rate), -16384, 16384));
            weights.push(row);
            o = o + 1;
        }
        self.weights = weights;
        self.bias = bias;
    }

    /// For each entry, with probability `rate / SCALE` take the other
    /// layer's entry; otherwise keep this one.  Shapes must match.
    pub fn crossover(&mut self, other: &Linear, rate: i64)
        requires
            old(self).wf(),
            other.wf(),
            old(self).n_in == other.n_in,
            old(self).n_out == other.n_out,
            0 <= rate <= 1024,
        ensures
            final(self).wf(),
            final(self).n_in == old(self).n_in,
            final(self).n_out == old(self).n_out,
            forall|o: int, j: int| 0 <= o < old(self).n_out && 0 <= j < old(self).n_in ==> (
            #[trigger] final(self).weights@[o]@[j]) == old(self).weights@[o]@[j] || final(self).weights@[o]@[j] == other.weights@[o]@[j],
            forall|o: int| 0 <= o < old(self).n_out ==> (#[trigger] final(self).bias@[o]) == old(self).bias@[o] || final(self).bias@[o] == other.bias@[o],
            rate == 0 ==> forall|o: int, j: int| 0 <= o < old(self).n_out && 0 <= j < old(self).n_in ==> (#[trigger] final(self).weights@[o]@[j]) == old(self).weights@[o]@[j],
            rate == 0 ==> forall|o: int| 0 <= o < old(self).n_out ==> (#[trigger] final(self).bias@[o]) == old(self).bias@[o],
            rate == 1024 ==> forall|o: int, j: int| 0 <= o < old(self).n_out && 0 <= j < old(self).n_in ==> (#[trigger] final(self).weights@[o]@[j]) == other.weights@[o]@[j],
            rate == 1024 ==> forall|o: int| 0 <= o < old(self).n_out ==> (#[trigger] final(self).bias@[o]) == other.bias@[o],
    {
        let n_out: usize = self.n_out;
        let n_in: usize = self.n_in;
        let mut weights: Vec<Vec<i64>> = Vec::new();
        let mut bias: Vec<i64> = Vec::new();
        let mut o: usize = 0;
        while o < n_out
            invariant
                *self == *old(self),
                self.wf(),
                other.wf(),
                self.n_in == other.n_in,
                self.n_out == other.n_out,
                n_out == self.n_out,
                n_in == self.n_in,
                0 <= rate <= 1024,
                o <= n_out,
                weights@.len() == o,
                bias@.len() == o,
                forall|p: int| 0 <= p < o ==> (#[trigger] weights@[p])@.len() == n_in,
                forall|p: int, k: int| 0 <= p < o && 0 <= k < n_in ==> (
                #[trigger] weights@[p]@[k]) == self.weights@[p]@[k] || weights@[p]@[k]
                    == other.weights@[p]@[k],
                forall|p: int, k: int| 0 <= p < o && 0 <= k < n_in ==> -16384 <= (
                #[trigger] weights@[p]@[k]) <= 16384,
                forall|p: int| 0 <= p < o ==> (#[trigger] bias@[p]) == self.bias@[p] || bias@[p]
                    == other.bias@[p],
                forall|p: int| 0 <= p < o ==> -16384 <= (#[trigger] bias@[p]) <= 16384,
                rate == 0 ==> forall|p: int, k: int| 0 <= p < o && 0 <= k < n_in ==> (
                #[trigger] weights@[p]@[k]) == self.weights@[p]@[k],
                rate == 0 ==> forall|p: int| 0 <= p < o ==> (#[trigger] bias@[p]) == self.bias@[p],
                rate == 1024 ==> forall|p: int, k: int| 0 <= p < o && 0 <= k < n_in ==> (
                #[trigger] weights@[p]@[k]) == other.weights@[p]@[k],
                rate == 1024 ==> forall|p: int| 0 <= p < o ==> (#[trigger] bias@[p])
                    == other.bias@[p],
            decreases n_out - o,
        {
            let mut row: Vec<i64> = Vec::new();
            let mut j: usize = 0;
            while j < n_in
                invariant
                    *self == *old(self),
                    self.wf(),
                    other.wf(),
                    self.n_in == other.n_in,
                    self.n_out == other.n_out,
                    n_out == self.n_out,
                    n_in == self.n_in,
                    0 <= rate <= 1024,
                    o < n_out,
                    j <= n_in,
                    row@.len() == j,
                    forall|k: int| 0 <= k < j ==> (#[trigger] row@[k]) == self.weights@[o as int]@[k]
                        || row@[k] == other.weights@[o as int]@[k],
                    forall|k: int| 0 <= k < j ==> -16384 <= (#[trigger] row@[k]) <= 16384,
                    rate == 0 ==> forall|k: int| 0 <= k < j ==> (#[trigger] row@[k])
                        == self.weights@[o as int]@[k],
                    rate == 1024 ==> forall|k: int| 0 <= k < j ==> (#[trigger] row@[k])
                        == other.weights@[o as int]@[k],
                decreases n_in - j,
            {
                let take_other: bool = random_below(1024) < rate as u64;
                if take_other {
                    row.push(other.weights[o][j]);
                } else {
                    row.push(self.weights[o][j]);
                }
                j = j + 1;
            }
            let take_other_b: bool = random_below(1024) < rate as u64;
            if take_other_b {
                bias.push(other.bias[o]);
            } else {
                bias.push(self.bias[o]);
            }
            weights.push(row);
            o = o + 1;
        }
        self.weights = weights;
        self.bias = bias;
    }
}

impl Linear {
    /// An element-for-element copy of the layer.
    pub fn duplicate(&self) -> (l: Linear)
        requires
            self.wf(),
        ensures
            l.wf(),
            l.n_in == self.n_in,
            l.n_out == self.n_out,
            l.weights@.len() == self.weights@.len(),
            forall|o: int| 0 <= o < self.weights@.len() ==> (#[trigger] l.weights@[o])@
                == self.weights@[o]@,
            l.bias@ == self.bias@,
    {
        let n_out: usize = self.n_out;
        let n_in: usize = self.n_in;
        let mut weights: Vec<Vec<i64>> = Vec::new();
        let mut bias: Vec<i64> = Vec::new();
        let mut o: usize = 0;
        while o < n_out
            invariant
                self.wf(),
                n_out == self.n_out,
                n_in == self.n_in,
                o <= n_out,
                weights@.len() == o,
                bias@.len() == o,
                forall|p: int| 0 <= p < o ==> (#[trigger] weights@[p])@ == self.weights@[p]@,
                forall|p: int| 0 <= p < o ==> (#[trigger] bias@[p]) == self.bias@[p],
            decreases n_out - o,
        {
            let mut row: Vec<i64> = Vec::new();
            let mut j: usize = 0;
            while j < n_in
                invariant
                    self.wf(),
                    n_in == self.n_in,
                    o < self.n_out,
                    j <= n_in,
                    row@.len() == j,
                    forall|k: int| 0 <= k < j ==> (#[trigger] row@[k]) == self.weights@[o as int]@[k],
                decreases n_in - j,
            {
                row.push(self.weights[o][j]);
                j = j + 1;
            }
            proof {
                assert(row@ =~= self.weights@[o as int]@);
            }
            weights.push(row);
            bias.push(self.bias[o]);
            o = o + 1;
        }
        proof {
            assert(bias@ =~= self.bias@);
        }
        Linear { n_in, n_out, weights, bias }
    }
}

/// Two layers hold exactly the same shape and parameters.
pub open spec fn layer_eq(a: Linear, b: Linear) -> bool {
    &&& a.n_in == b.n_in
    &&& a.n_out == b.n_out
    &&& a.weights@.len() == b.weights@.len()
    &&& forall|o: int| 0 <= o < a.weights@.len() ==> (#[trigger] a.weights@[o])@ == b.weights@[o]@
    &&& a.bias@ == b.bias@
}

/// Same shape, and every parameter of `a` within `d` of `b`'s.
pub open spec fn layer_near(a: Linear, b: Linear, d: int) -> bool {
    &&& a.n_in == b.n_in
    &&& a.n_out == b.n_out
    &&& a.weights@.len() == b.weights@.len()
    &&& forall|o: int, j: int| 0 <= o < b.n_out && 0 <= j < b.n_in ==> spec_abs(
        (#[trigger] a.weights@[o]@[j]) - b.weights@[o]@[j],
    ) <= d
    &&& forall|o: int| 0 <= o < b.n_out ==> spec_abs((#[trigger] a.bias@[o]) - b.bias@[o]) <= d
}

/// Two controllers hold exactly the same parameters.
pub open spec fn model_eq(a: Model, b: Model) -> bool {
    layer_eq(a.l1, b.l1) && layer_eq(a.l3, b.l3)
}

/// Every parameter of controller `a` is within `d` of `b`'s.
pub open spec fn model_near(a: Model, b: Model, d: int) -> bool {
    layer_near(a.l1, b.l1, d) && layer_near(a.l3, b.l3, d)
}

/// Nearness to a controller carries over to an exact copy of it.
pub proof fn lemma_model_near_eq(a: Model, b: Model, c: Model, d: int)
    requires
        model_near(a, b, d),
        model_eq(b, c),
        c.wf(),
    ensures
        model_near(a, c, d),
{
    assert forall|o: int, j: int| 0 <= o < c.l1.n_out && 0 <= j < c.l1.n_in implies spec_abs(
        (#[trigger] a.l1.weights@[o]@[j]) - c.l1.weights@[o]@[j],
    ) <= d by {
        assert(b.l1.weights@[o]@ == c.l1.weights@[o]@);
    }
    assert forall|o: int, j: int| 0 <= o < c.l3.n_out && 0 <= j < c.l3.n_in implies spec_abs(
        (#[trigger] a.l3.weights@[o]@[j]) - c.l3.weights@[o]@[j],
    ) <= d by {
        assert(b.l3.weights@[o]@ == c.l3.weights@[o]@);
    }
}

/// The feed-forward controller: one hidden layer, squashing after each
/// linear transform, every output strictly inside `(-SCALE, SCALE)`.
#[derive(Clone)]
pub struct Model {
    pub l1: Linear,
    pub l3: Linear,
}

/// The hidden activations as a sequence: squashed affine forms.
pub open spec fn spec_hidden(m: Model, x: Seq<i64>) -> Seq<i64> {
    Seq::new(10, |o: int| spec_squash(m.l1.spec_out(x, o)) as i64)
}

impl Model {
    /// Shapes are the fixed controller shape.
    pub open spec fn wf(self) -> bool {
        &&& self.l1.wf()
        &&& self.l1.n_in == 13
        &&& self.l1.n_out == 10
        &&& self.l3.wf()
        &&& self.l3.n_in == 10
        &&& self.l3.n_out == 4
    }

    /// Output entry `o` of the whole controller on input `x`: the second
    /// layer's squashed affine form of the squashed hidden activations.
    pub open spec fn spec_forward(self, x: Seq<i64>, o: int) -> int {
        spec_squash(self.l3.spec_out(spec_hidden(self, x), o))
    }

    /// A controller with approximately standard-normal parameters.
    pub fn init() -> (m: Model)
        ensures
            m.wf(),
    {
        Model { l1: Linear::random(13, 10, 1024), l3: Linear::random(10, 4, 1024) }
    }

    /// Forward pass through both layers.
    pub fn forward(&self, x: &Vec<i64>) -> (y: Vec<i64>)
        requires
            self.wf(),
            x@.len() == 13,
            forall|j: int| 0 <= j < x@.len() ==> -0x100_0000 <= (#[trigger] x@[j]) <= 0x100_0000,
        ensures
            y@.len() == 4,
            forall|o: int| 0 <= o < 4 ==> (#[trigger] y@[o]) == self.spec_forward(x@, o),
            forall|o: int| 0 <= o < 4 ==> -1024 < (#[trigger] y@[o]) < 1024,
    {
        let act = Tanh {  };
        let mut h = self.l1.forward(x);
        act.forward(&mut h);
        proof {
            assert(h@ =~= spec_hidden(*self, x@));
        }
        let mut y = self.l3.forward(&h);
        act.forward(&mut y);
        y
    }

    /// An element-for-element copy of the controller.
    pub fn duplicate(&self) -> (m: Model)
        requires
            self.wf(),
        ensures
            m.wf(),
            model_eq(m, *self),
    {
        Model { l1: self.l1.duplicate(), l3: self.l3.duplicate() }
    }

    /// Mutate both layers in place: the shape is unchanged and every
    /// parameter moves by at most `6 * rate` (not at all for rate `0`).
    pub fn mutate(&mut self, rate: i64)
        requires
            old(self).wf(),
            0 <= rate <= 2048,
        ensures
            final(self).wf(),
            model_near(*final(self), *old(self), 6 * rate),
    {
        self.l1.mutate(rate);
        self.l3.mutate(rate);
    }

    /// Cross both layers with another controller of the same shape.
    pub fn crossover(&mut self, other: &Model, rate: i64)
        requires
            old(self).wf(),
            other.wf(),
            0 <= rate <= 1024,
        ensures
            final(self).wf(),
            forall|o: int, j: int| 0 <= o < 10 && 0 <= j < 13 ==> (#[trigger] final(self).l1.weights@[o]@[j]) == old(self).l1.weights@[o]@[j] || final(self).l1.weights@[o]@[j]
                == other.l1.weights@[o]@[j],
            forall|o: int, j: int| 0 <= o < 4 && 0 <= j < 10 ==> (#[trigger] final(self).l3.weights@[o]@[j]) == old(self).l3.weights@[o]@[j] || final(self).l3.weights@[o]@[j]
                == other.l3.weights@[o]@[j],
            forall|o: int| 0 <= o < 10 ==> (#[trigger] final(self).l1.bias@[o]) == old(self).l1.bias@[o] || final(self).l1.bias@[o] == other.l1.bias@[o],
            forall|o: int| 0 <= o < 4 ==> (#[trigger] final(self).l3.bias@[o]) == old(self).l3.bias@[o] || final(self).l3.bias@[o] == other.l3.bias@[o],
            rate == 0 ==> model_near(*final(self), *old(self), 0),
            rate == 1024 ==> model_near(*final(self), *other, 0),
    {
        self.l1.crossover(&other.l1, rate);
        self.l3.crossover(&other.l3, rate);
    }
}

} // verus!
