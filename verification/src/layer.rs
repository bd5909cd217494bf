//! A single linear unit: a weighted sum plus a bias, with an additive update.
use vstd::prelude::*;
use crate::scalar::{zero, Scalar};

verus! {

/// A linear unit with one output.
pub struct Layer<T> {
    /// One weight for each input.
    pub weights: Vec<T>,
    /// The constant term.
    pub bias: T,
}

/// What a [`Layer`] holds, as mathematical values.
pub struct LayerModel<T> {
    /// The weights, in the order of the inputs.
    pub weights: Seq<T>,
    /// The constant term.
    pub bias: T,
}

impl<T: Scalar> View for Layer<T> {
    type V = LayerModel<T>;

    open spec fn view(&self) -> LayerModel<T> {
        LayerModel { weights: self.weights@, bias: self.bias }
    }
}

/// How many weights meet an input: a weight without an input, or an input
/// without a weight, takes no part.
pub open spec fn paired<T>(weights: Seq<T>, inputs: Seq<T>) -> nat {
    if weights.len() <= inputs.len() {
        weights.len()
    } else {
        inputs.len()
    }
}

/// The sum of the first `n` products `weights[k] * inputs[k]`, added up from
/// zero in the order of `k`.
pub open spec fn weighted_sum<T: Scalar>(weights: Seq<T>, inputs: Seq<T>, n: nat) -> T
    decreases n,
{
    if n == 0 {
        zero::<T>()
    } else {
        weighted_sum(weights, inputs, (n - 1) as nat).plus_spec(
            weights[n - 1].times_spec(inputs[n - 1]),
        )
    }
}

impl<T: Scalar> LayerModel<T> {
    /// The unit with `dim` weights, all of them and the bias zero.
    pub open spec fn zeros(dim: nat) -> Self {
        LayerModel { weights: Seq::new(dim, |k: int| zero::<T>()), bias: zero::<T>() }
    }

    /// The unit's output on `inputs`: the weighted sum over the paired
    /// positions, plus the bias.
    pub open spec fn forward(self, inputs: Seq<T>) -> T {
        weighted_sum(self.weights, inputs, paired(self.weights, inputs)).plus_spec(self.bias)
    }

    /// The unit after one update: each paired weight grows by
    /// `rate * error * input`, the bias by `rate * error`.
    pub open spec fn backward(self, inputs: Seq<T>, error: T, rate: T) -> Self {
        LayerModel {
            weights: Seq::new(
                self.weights.len(),
                |k: int|
                    if k < inputs.len() {
                        self.weights[k].plus_spec(rate.times_spec(error).times_spec(inputs[k]))
                    } else {
                        self.weights[k]
                    },
            ),
            bias: self.bias.plus_spec(rate.times_spec(error)),
        }
    }
}

impl<T: Scalar> Layer<T> {
    /// A unit for `input_dim` inputs, with every weight and the bias zero.
    pub fn new(input_dim: usize) -> (r: Self)
        ensures
            r@ == LayerModel::<T>::zeros(input_dim as nat),
    {
        let mut weights: Vec<T> = Vec::new();
        let mut k: usize = 0;
        while k < input_dim
            invariant
                k <= input_dim,
                weights@ == Seq::new(k as nat, |j: int| zero::<T>()),
            decreases input_dim - k,
        {
            weights.push(T::from_count(0));
            k += 1;
        }
        Layer { weights, bias: T::from_count(0) }
    }

    /// The weighted sum of `inputs` plus the bias. Where `inputs` and the
    /// weights differ in length, only the positions that both have count.
    pub fn forward(&self, inputs: &Vec<T>) -> (r: T)
        ensures
            r == self@.forward(inputs@),
    {
        let n: usize = if self.weights.len() <= inputs.len() {
            self.weights.len()
        } else {
            inputs.len()
        };
        let mut sum = T::from_count(0);
        let mut k: usize = 0;
        while k < n
            invariant
                k <= n,
                n == paired(self.weights@, inputs@),
                sum == weighted_sum(self.weights@, inputs@, k as nat),
            decreases n - k,
        {
            sum = sum.plus(self.weights[k].times(inputs[k]));
            k += 1;
        }
        sum.plus(self.bias)
    }

    /// Moves the unit along `error`: every weight that met an input `x`
    /// becomes `w + learning_rate * error * x`, the bias becomes
    /// `bias + learning_rate * error`. The number of weights stays.
    pub fn backward(&mut self, inputs: &Vec<T>, error: T, learning_rate: T)
        ensures
            final(self)@ == old(self)@.backward(inputs@, error, learning_rate),
            final(self).weights@.len() == old(self).weights@.len(),
            forall|k: int|
                0 <= k < paired(old(self).weights@, inputs@) ==> final(self).weights@[k] == old(
                    self,
                ).weights@[k].plus_spec(learning_rate.times_spec(error).times_spec(inputs@[k])),
            forall|k: int|
                paired(old(self).weights@, inputs@) <= k < old(self).weights@.len()
                    ==> final(self).weights@[k] == old(self).weights@[k],
            final(self).bias == old(self).bias.plus_spec(learning_rate.times_spec(error)),
    {
        let n: usize = if self.weights.len() <= inputs.len() {
            self.weights.len()
        } else {
            inputs.len()
        };
        let step = learning_rate.times(error);
        let mut k: usize = 0;
        while k < n
            invariant
                k <= n,
                n == paired(old(self).weights@, inputs@),
                step == learning_rate.times_spec(error),
                self.bias == old(self).bias,
                self.weights@.len() == old(self).weights@.len(),
                forall|j: int|
                    0 <= j < k ==> self.weights@[j] == old(self).weights@[j].plus_spec(
                        step.times_spec(inputs@[j]),
                    ),
                forall|j: int|
                    k <= j < self.weights@.len() ==> self.weights@[j] == old(self).weights@[j],
            decreases n - k,
        {
            let w = self.weights[k].plus(step.times(inputs[k]));
            self.weights[k] = w;
            k += 1;
        }
        self.bias = self.bias.plus(step);
        assert(self@.weights =~= old(self)@.backward(inputs@, error, learning_rate).weights);
    }
}

} // verus!
