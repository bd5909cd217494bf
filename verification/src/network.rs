//! A chain of linear units: prediction, the training step, and scoring.
use vstd::prelude::*;
use crate::layer::{Layer, LayerModel};
use crate::scalar::{square, threshold, threshold_of, zero, Scalar};

verus! {

/// A chain of units. The first unit reads the input vector; every later unit
/// reads the one number that the unit before it put out.
pub struct MLP<T> {
    /// The units, in the order in which a value passes through them.
    pub layers: Vec<Layer<T>>,
    /// The step size of every update.
    pub learning_rate: T,
}

/// What an [`MLP`] holds, as mathematical values.
pub struct NetworkModel<T> {
    /// The units, first to last.
    pub layers: Seq<LayerModel<T>>,
    /// The step size of every update.
    pub learning_rate: T,
}

impl<T: Scalar> View for MLP<T> {
    type V = NetworkModel<T>;

    open spec fn view(&self) -> NetworkModel<T> {
        NetworkModel {
            layers: Seq::new(self.layers@.len(), |i: int| self.layers@[i]@),
            learning_rate: self.learning_rate,
        }
    }
}

/// How many units a list of `n` layer sizes gives: one for each pair of
/// neighbours.
pub open spec fn unit_count(n: nat) -> nat {
    if n >= 1 {
        (n - 1) as nat
    } else {
        0
    }
}

/// Whether `sizes` describes a network that can be run: at least two sizes,
/// and every size but the last at least one. The last size gives no unit and
/// is not looked at.
pub open spec fn runnable(sizes: Seq<usize>) -> bool {
    &&& sizes.len() >= 2
    &&& forall|i: int| 0 <= i < sizes.len() - 1 ==> #[trigger] sizes[i] >= 1
}

impl<T: Scalar> NetworkModel<T> {
    /// The untrained network for `sizes`: unit `i` has `sizes[i]` weights, and
    /// every weight and bias is zero. The last size gives no unit.
    pub open spec fn fresh(sizes: Seq<usize>, rate: T) -> Self {
        NetworkModel {
            layers: Seq::new(
                unit_count(sizes.len()),
                |i: int| LayerModel::<T>::zeros(sizes[i] as nat),
            ),
            learning_rate: rate,
        }
    }

    /// There is at least one unit, and every unit has at least one weight.
    pub open spec fn wf(self) -> bool {
        &&& self.layers.len() >= 1
        &&& forall|i: int| 0 <= i < self.layers.len() ==> (#[trigger] self.layers[i]).weights.len() >= 1
    }

    /// The vector that unit `i` reads when the network is given `inputs`:
    /// `inputs` itself for the first unit, and for every other the output of
    /// the unit before it, alone in a vector. At `i == layers.len()` this is
    /// what the last unit hands on.
    pub open spec fn input_at(self, inputs: Seq<T>, i: nat) -> Seq<T>
        decreases i,
    {
        if i == 0 {
            inputs
        } else {
            seq![self.layers[i - 1].forward(self.input_at(inputs, (i - 1) as nat))]
        }
    }

    /// The output of the last unit.
    pub open spec fn predict(self, inputs: Seq<T>) -> T {
        self.input_at(inputs, self.layers.len())[0]
    }

    /// The error at the output: the label less the sign of the prediction.
    pub open spec fn output_error(self, inputs: Seq<T>, label: T) -> T {
        label.minus_spec(threshold(self.predict(inputs)))
    }

    /// The error that a training step hands down from unit `i`, once that
    /// unit is updated: the unit's new first weight times the error that
    /// reached it. The last unit is reached by the output error, every other
    /// unit by what the unit after it handed down.
    pub open spec fn error_past(self, inputs: Seq<T>, label: T, i: nat) -> T
        decreases self.layers.len() - i,
    {
        let reaching = if i + 1 >= self.layers.len() {
            self.output_error(inputs, label)
        } else {
            self.error_past(inputs, label, i + 1)
        };
        self.layers[i as int].backward(
            self.input_at(inputs, i),
            reaching,
            self.learning_rate,
        ).weights[0].times_spec(reaching)
    }

    /// The error with which a training step updates unit `i`.
    pub open spec fn error_into(self, inputs: Seq<T>, label: T, i: nat) -> T {
        if i + 1 >= self.layers.len() {
            self.output_error(inputs, label)
        } else {
            self.error_past(inputs, label, i + 1)
        }
    }

    /// Unit `i` after a training step: updated on the vector it read in the
    /// forward pass, with the error that reached it.
    pub open spec fn trained_layer(self, inputs: Seq<T>, label: T, i: nat) -> LayerModel<T> {
        self.layers[i as int].backward(
            self.input_at(inputs, i),
            self.error_into(inputs, label, i),
            self.learning_rate,
        )
    }

    /// The network after one training step on `(inputs, label)`.
    pub open spec fn train(self, inputs: Seq<T>, label: T) -> Self {
        NetworkModel {
            layers: Seq::new(
                self.layers.len(),
                |i: int| self.trained_layer(inputs, label, i as nat),
            ),
            learning_rate: self.learning_rate,
        }
    }

    /// The loss that a training step reports: the square of the error handed
    /// down from the first unit.
    pub open spec fn loss(self, inputs: Seq<T>, label: T) -> T {
        square(self.error_past(inputs, label, 0))
    }

    /// Whether the prediction on `inputs` and `label` lie on the same side:
    /// both at least zero, or both below.
    pub open spec fn agrees(self, inputs: Seq<T>, label: T) -> bool {
        self.predict(inputs).nonneg_spec() == label.nonneg_spec()
    }

    /// [`agrees`](Self::agrees) as a predicate on samples.
    pub open spec fn agreeing(self) -> spec_fn((Seq<T>, T)) -> bool {
        |sample: (Seq<T>, T)| self.agrees(sample.0, sample.1)
    }

    /// How many samples of `data` the network classifies by the right sign.
    pub open spec fn correct(self, data: Seq<(Seq<T>, T)>) -> nat {
        data.filter(self.agreeing()).len()
    }

    /// The share of `data` that the network classifies by the right sign:
    /// the count of such samples over the count of all. On no data it is
    /// zero.
    pub open spec fn accuracy(self, data: Seq<(Seq<T>, T)>) -> T {
        if data.len() == 0 {
            zero::<T>()
        } else {
            T::from_count_spec(self.correct(data) as usize).over_spec(
                T::from_count_spec(data.len() as usize),
            )
        }
    }

    /// The network after training on the first `k` samples of `data`, one
    /// after the other.
    pub open spec fn after_samples(self, data: Seq<(Seq<T>, T)>, k: nat) -> Self
        decreases k,
    {
        if k == 0 {
            self
        } else {
            self.after_samples(data, (k - 1) as nat).train(data[k - 1].0, data[k - 1].1)
        }
    }

    /// The losses of those first `k` training steps, added up from zero in
    /// their order.
    pub open spec fn loss_sum(self, data: Seq<(Seq<T>, T)>, k: nat) -> T
        decreases k,
    {
        if k == 0 {
            zero::<T>()
        } else {
            self.loss_sum(data, (k - 1) as nat).plus_spec(
                self.after_samples(data, (k - 1) as nat).loss(data[k - 1].0, data[k - 1].1),
            )
        }
    }

    /// The mean loss of one pass over `data`: the sum of the losses over the
    /// count of samples.
    pub open spec fn epoch_loss(self, data: Seq<(Seq<T>, T)>) -> T {
        self.loss_sum(data, data.len()).over_spec(T::from_count_spec(data.len() as usize))
    }

    /// The network after `epochs` passes over `data`.
    pub open spec fn after_epochs(self, data: Seq<(Seq<T>, T)>, epochs: nat) -> Self
        decreases epochs,
    {
        if epochs == 0 {
            self
        } else {
            let prior = self.after_epochs(data, (epochs - 1) as nat);
            prior.after_samples(data, data.len())
        }
    }

    /// The mean loss of each of `epochs` passes over `data`, in order.
    pub open spec fn epoch_losses(self, data: Seq<(Seq<T>, T)>, epochs: nat) -> Seq<T> {
        Seq::new(epochs, |e: int| self.after_epochs(data, e as nat).epoch_loss(data))
    }

    /// The untrained network is well formed exactly where its sizes can be
    /// run.
    pub proof fn lemma_fresh_wf(sizes: Seq<usize>, rate: T)
        ensures
            Self::fresh(sizes, rate).wf() <==> runnable(sizes),
    {
        let net = Self::fresh(sizes, rate);
        if net.wf() {
            assert forall|i: int| 0 <= i < sizes.len() - 1 implies #[trigger] sizes[i] >= 1 by {
                assert(net.layers[i].weights.len() >= 1);
            }
        }
    }

    /// A training step changes neither the number of units nor the number of
    /// weights of any unit.
    pub proof fn lemma_train_keeps_shape(self, inputs: Seq<T>, label: T)
        ensures
            self.train(inputs, label).layers.len() == self.layers.len(),
            forall|i: int|
                0 <= i < self.layers.len() ==> (#[trigger] self.train(
                    inputs,
                    label,
                ).layers[i]).weights.len() == self.layers[i].weights.len(),
            self.train(inputs, label).learning_rate == self.learning_rate,
            self.wf() ==> self.train(inputs, label).wf(),
    {
    }
}

/// A labelled data set as mathematical values: each sample's input vector
/// and its label.
pub open spec fn samples<T>(data: Seq<(Vec<T>, T)>) -> Seq<(Seq<T>, T)> {
    Seq::new(data.len(), |i: int| (data[i].0@, data[i].1))
}

/// Counting over one more sample: the count grows by one where the predicate
/// holds of that sample, and stays elsewhere.
proof fn lemma_filter_take_step<A>(s: Seq<A>, pred: spec_fn(A) -> bool, i: int)
    requires
        0 <= i < s.len(),
    ensures
        s.take(i + 1).filter(pred).len() == s.take(i).filter(pred).len() + (if pred(s[i]) {
            1int
        } else {
            0int
        }),
        s.take(0).filter(pred).len() == 0,
        s.take(s.len() as int) == s,
{
    reveal(Seq::filter);
    assert(s.take(i + 1).drop_last() =~= s.take(i));
}

impl<T: Scalar> MLP<T> {
    /// The untrained network for `layer_sizes`, with step size
    /// `learning_rate`: one unit for each size but the last, with as many
    /// weights as the size says, all of them zero.
    pub fn new(layer_sizes: &[usize], learning_rate: T) -> (r: Self)
        ensures
            r@ == NetworkModel::fresh(layer_sizes@, learning_rate),
            r@.wf() <==> runnable(layer_sizes@),
    {
        let mut layers: Vec<Layer<T>> = Vec::new();
        let units: usize = if layer_sizes.len() >= 1 {
            layer_sizes.len() - 1
        } else {
            0
        };
        let mut i: usize = 0;
        while i < units
            invariant
                i <= units,
                units == unit_count(layer_sizes@.len()),
                layers@.len() == i,
                forall|j: int|
                    0 <= j < i ==> (#[trigger] layers@[j])@ == LayerModel::<T>::zeros(
                        layer_sizes@[j] as nat,
                    ),
            decreases units - i,
        {
            layers.push(Layer::new(layer_sizes[i]));
            i += 1;
        }
        let r = MLP { layers, learning_rate };
        proof {
            assert(r@.layers =~= NetworkModel::fresh(layer_sizes@, learning_rate).layers);
            NetworkModel::lemma_fresh_wf(layer_sizes@, learning_rate);
        }
        r
    }

    /// Whether the network can be run: it has a unit, and every unit has a
    /// weight.
    pub fn is_well_formed(&self) -> (r: bool)
        ensures
            r == self@.wf(),
    {
        if self.layers.len() == 0 {
            return false;
        }
        let mut i: usize = 0;
        while i < self.layers.len()
            invariant
                i <= self.layers.len(),
                self.layers.len() >= 1,
                forall|j: int| 0 <= j < i ==> (#[trigger] self@.layers[j]).weights.len() >= 1,
            decreases self.layers.len() - i,
        {
            if self.layers[i].weights.len() == 0 {
                assert(self@.layers[i as int].weights.len() == 0);
                return false;
            }
            i += 1;
        }
        true
    }

    /// The network's output on `inputs`.
    pub fn predict(&self, inputs: &Vec<T>) -> (r: T)
        requires
            self@.wf(),
        ensures
            r == self@.predict(inputs@),
    {
        let mut out = self.layers[0].forward(inputs);
        assert(self@.input_at(inputs@, 0) == inputs@);
        let mut i: usize = 1;
        while i < self.layers.len()
            invariant
                1 <= i <= self.layers.len(),
                self@.input_at(inputs@, i as nat) == seq![out],
            decreases self.layers.len() - i,
        {
            let fed: Vec<T> = vec![out];
            assert(fed@ =~= seq![out]);
            out = self.layers[i].forward(&fed);
            i += 1;
        }
        out
    }

    /// One training step on `(inputs, true_label)`.
    ///
    /// The forward pass notes what every unit reads. The error at the output
    /// is the label less the sign of the prediction. Then the units are
    /// updated from the last to the first, each on what it read and with the
    /// error that reached it, and each hands down its new first weight times
    /// that error. The result is the square of what the first unit hands
    /// down.
    pub fn train(&mut self, inputs: &Vec<T>, true_label: T) -> (loss: T)
        requires
            old(self)@.wf(),
        ensures
            final(self)@ == old(self)@.train(inputs@, true_label),
            loss == old(self)@.loss(inputs@, true_label),
            final(self)@.wf(),
    {
        let n: usize = self.layers.len();
        let ghost before = self@;
        let mut outputs: Vec<T> = Vec::new();
        let mut i: usize = 0;
        while i < n
            invariant
                i <= n,
                n == self.layers.len(),
                self@ == before,
                outputs@.len() == i,
                forall|j: int|
                    0 <= j < i ==> before.input_at(inputs@, (j + 1) as nat) == seq![
                        #[trigger] outputs@[j],
                    ],
            decreases n - i,
        {
            let out = if i == 0 {
                assert(before.input_at(inputs@, 0) == inputs@);
                self.layers[0].forward(inputs)
            } else {
                let fed: Vec<T> = vec![outputs[i - 1]];
                assert(fed@ =~= seq![outputs@[i - 1]]);
                self.layers[i].forward(&fed)
            };
            outputs.push(out);
            i += 1;
        }
        let mut error = true_label.minus(threshold_of(outputs[n - 1]));
        let mut i: usize = n;
        while i > 0
            invariant
                i <= n,
                n == self.layers.len(),
                n == before.layers.len(),
                n >= 1,
                outputs@.len() == n,
                self.learning_rate == before.learning_rate,
                forall|j: int|
                    0 <= j < n ==> before.input_at(inputs@, (j + 1) as nat) == seq![
                        #[trigger] outputs@[j],
                    ],
                error == (if i >= n {
                    before.output_error(inputs@, true_label)
                } else {
                    before.error_past(inputs@, true_label, i as nat)
                }),
                forall|j: int| 0 <= j < i ==> (#[trigger] self.layers@[j])@ == before.layers[j],
                forall|j: int|
                    i <= j < n ==> (#[trigger] self.layers@[j])@ == before.trained_layer(
                        inputs@,
                        true_label,
                        j as nat,
                    ),
                before.wf(),
            decreases i,
        {
            i -= 1;
            if i == 0 {
                self.layers[i].backward(inputs, error, self.learning_rate);
            } else {
                let fed: Vec<T> = vec![outputs[i - 1]];
                assert(fed@ =~= seq![outputs@[i - 1]]);
                self.layers[i].backward(&fed, error, self.learning_rate);
            }
            error = self.layers[i].weights[0].times(error);
        }
        proof {
            assert(self@.layers =~= before.train(inputs@, true_label).layers);
            before.lemma_train_keeps_shape(inputs@, true_label);
        }
        error.times(error)
    }

    /// The share of `test_data` on which the sign of the prediction is the
    /// sign of the label, where a value of zero or more counts as one sign and
    /// a value below zero as the other. On an empty data set the result is
    /// zero.
    pub fn evaluate(&self, test_data: &[(Vec<T>, T)]) -> (r: T)
        requires
            self@.wf(),
        ensures
            r == self@.accuracy(samples(test_data@)),
    {
        let n: usize = test_data.len();
        if n == 0 {
            return T::from_count(0);
        }
        let ghost data = samples(test_data@);
        let mut correct_predictions: usize = 0;
        let mut i: usize = 0;
        while i < n
            invariant
                i <= n,
                n == test_data@.len(),
                data == samples(test_data@),
                self@.wf(),
                correct_predictions <= i,
                correct_predictions == data.take(i as int).filter(self@.agreeing()).len(),
            decreases n - i,
        {
            proof {
                lemma_filter_take_step(data, self@.agreeing(), i as int);
            }
            let sample = &test_data[i];
            if self.predict(&sample.0).is_nonneg() == sample.1.is_nonneg() {
                correct_predictions += 1;
            }
            i += 1;
        }
        proof {
            lemma_filter_take_step(data, self@.agreeing(), 0);
        }
        T::from_count(correct_predictions).over(T::from_count(n))
    }

    /// One pass over `data`: a training step on every sample, in order.
    /// Returns the mean of the steps' losses: their sum, added up from zero,
    /// over the count of samples. On no data that is zero over the scalar for
    /// the count zero, whatever the arithmetic makes of it.
    pub fn train_epoch(&mut self, data: &[(Vec<T>, T)]) -> (mean_loss: T)
        requires
            old(self)@.wf(),
        ensures
            final(self)@ == old(self)@.after_samples(samples(data@), data@.len()),
            mean_loss == old(self)@.epoch_loss(samples(data@)),
            final(self)@.wf(),
    {
        let n: usize = data.len();
        let ghost before = self@;
        let ghost model = samples(data@);
        let mut epoch_loss = T::from_count(0);
        let mut i: usize = 0;
        while i < n
            invariant
                i <= n,
                n == data@.len(),
                model == samples(data@),
                self@.wf(),
                self@ == before.after_samples(model, i as nat),
                epoch_loss == before.loss_sum(model, i as nat),
            decreases n - i,
        {
            let sample = &data[i];
            let loss = self.train(&sample.0, sample.1);
            epoch_loss = epoch_loss.plus(loss);
            i += 1;
        }
        epoch_loss.over(T::from_count(n))
    }

    /// Trains for `epochs` passes over `data` and returns the mean loss of
    /// each pass, in order.
    pub fn fit(&mut self, data: &[(Vec<T>, T)], epochs: usize) -> (losses: Vec<T>)
        requires
            old(self)@.wf(),
        ensures
            final(self)@ == old(self)@.after_epochs(samples(data@), epochs as nat),
            losses@ == old(self)@.epoch_losses(samples(data@), epochs as nat),
            final(self)@.wf(),
    {
        let ghost before = self@;
        let ghost model = samples(data@);
        let mut losses: Vec<T> = Vec::new();
        let mut e: usize = 0;
        while e < epochs
            invariant
                e <= epochs,
                model == samples(data@),
                self@.wf(),
                self@ == before.after_epochs(model, e as nat),
                losses@ == before.epoch_losses(model, e as nat),
            decreases epochs - e,
        {
            let mean_loss = self.train_epoch(data);
            losses.push(mean_loss);
            e += 1;
        }
        losses
    }
}

} // verus!
