//! What holds of every network, whatever it is trained on.
//!
//! Each law names the properties of the arithmetic that it rests on. For
//! [`Fixed`] those properties are proved, and the law is stated once more
//! without them.
use vstd::prelude::*;
use crate::fixed::{lemma_fixed_keeps_nonneg, lemma_fixed_shares, lemma_fixed_zero, Fixed};
use crate::layer::{paired, weighted_sum, LayerModel};
use crate::network::{unit_count, NetworkModel};
use crate::scalar::{
    additions_raise, annihilated, in_unit_interval, means_keep_nonneg, no_less, one,
    one_less_one_is_zero, products_keep_nonneg, shares_in_unit_interval, square, squares_nonneg,
    sums_keep_nonneg, zero, zero_annihilates, zero_is_neutral, zero_sum_is_zero, Scalar,
};

verus! {

proof fn lemma_zero_weights_sum_to_zero<T: Scalar>(weights: Seq<T>, inputs: Seq<T>, n: nat)
    requires
        n <= paired(weights, inputs),
        zero_sum_is_zero::<T>(),
        forall|k: int| 0 <= k < weights.len() ==> #[trigger] weights[k] == zero::<T>(),
        forall|k: int| 0 <= k < inputs.len() ==> annihilated(#[trigger] inputs[k]),
    ensures
        weighted_sum(weights, inputs, n) == zero::<T>(),
    decreases n,
{
    if n > 0 {
        lemma_zero_weights_sum_to_zero(weights, inputs, (n - 1) as nat);
        assert(annihilated(inputs[n - 1]));
    }
}

/// A unit whose weights and bias are zero puts out zero on every input that
/// zero annihilates.
pub proof fn lemma_zero_unit_outputs_zero<T: Scalar>(dim: nat, inputs: Seq<T>)
    requires
        zero_sum_is_zero::<T>(),
        forall|k: int| 0 <= k < inputs.len() ==> annihilated(#[trigger] inputs[k]),
    ensures
        LayerModel::<T>::zeros(dim).forward(inputs) == zero::<T>(),
{
    let unit = LayerModel::<T>::zeros(dim);
    lemma_zero_weights_sum_to_zero(unit.weights, inputs, paired(unit.weights, inputs));
}

proof fn lemma_fresh_network_hands_on_zero<T: Scalar>(
    sizes: Seq<usize>,
    rate: T,
    inputs: Seq<T>,
    i: nat,
)
    requires
        1 <= i <= unit_count(sizes.len()),
        zero_sum_is_zero::<T>(),
        annihilated(zero::<T>()),
        forall|k: int| 0 <= k < inputs.len() ==> annihilated(#[trigger] inputs[k]),
    ensures
        NetworkModel::fresh(sizes, rate).input_at(inputs, i) == seq![zero::<T>()],
    decreases i,
{
    let net = NetworkModel::fresh(sizes, rate);
    let fed = net.input_at(inputs, (i - 1) as nat);
    if i > 1 {
        lemma_fresh_network_hands_on_zero(sizes, rate, inputs, (i - 1) as nat);
    }
    lemma_zero_unit_outputs_zero::<T>(sizes[i - 1] as nat, fed);
}

/// An untrained network predicts zero: with every weight and bias zero, the
/// output is zero on every input vector whose entries zero annihilates.
pub proof fn lemma_fresh_network_predicts_zero<T: Scalar>(
    sizes: Seq<usize>,
    rate: T,
    inputs: Seq<T>,
)
    requires
        sizes.len() >= 2,
        zero_sum_is_zero::<T>(),
        annihilated(zero::<T>()),
        forall|k: int| 0 <= k < inputs.len() ==> annihilated(#[trigger] inputs[k]),
    ensures
        NetworkModel::fresh(sizes, rate).predict(inputs) == zero::<T>(),
{
    let net = NetworkModel::fresh(sizes, rate);
    lemma_fresh_network_hands_on_zero(sizes, rate, inputs, net.layers.len());
}

/// An untrained fixed-point network predicts zero on every input.
pub proof fn lemma_fresh_fixed_network_predicts_zero(
    sizes: Seq<usize>,
    rate: Fixed,
    inputs: Seq<Fixed>,
)
    requires
        sizes.len() >= 2,
    ensures
        NetworkModel::fresh(sizes, rate).predict(inputs) == zero::<Fixed>(),
{
    lemma_fixed_zero();
    lemma_fresh_network_predicts_zero(sizes, rate, inputs);
}

/// An update with no error leaves a unit as it was, wherever a product with
/// zero is zero and adding zero changes nothing.
pub proof fn lemma_no_error_no_update<T: Scalar>(unit: LayerModel<T>, inputs: Seq<T>, rate: T)
    requires
        zero_annihilates::<T>(),
        zero_is_neutral::<T>(),
    ensures
        unit.backward(inputs, zero::<T>(), rate) == unit,
{
    let after = unit.backward(inputs, zero::<T>(), rate);
    assert(rate.times_spec(zero::<T>()) == zero::<T>());
    assert forall|k: int| 0 <= k < unit.weights.len() implies after.weights[k]
        == unit.weights[k] by {
        if k < inputs.len() {
            assert(zero::<T>().times_spec(inputs[k]) == zero::<T>());
        }
    }
    assert(after.weights =~= unit.weights);
}

proof fn lemma_no_error_hands_down_none<T: Scalar>(
    net: NetworkModel<T>,
    inputs: Seq<T>,
    label: T,
    i: nat,
)
    requires
        zero_annihilates::<T>(),
        net.output_error(inputs, label) == zero::<T>(),
    ensures
        net.error_past(inputs, label, i) == zero::<T>(),
        net.error_into(inputs, label, i) == zero::<T>(),
    decreases net.layers.len() - i,
{
    if i + 1 < net.layers.len() {
        lemma_no_error_hands_down_none(net, inputs, label, i + 1);
    }
    let updated = net.layers[i as int].backward(
        net.input_at(inputs, i),
        zero::<T>(),
        net.learning_rate,
    );
    assert(updated.weights[0].times_spec(zero::<T>()) == zero::<T>());
}

/// A training step on a sample with no error at the output changes nothing
/// and reports a loss of zero, wherever a product with zero is zero and
/// adding zero changes nothing.
pub proof fn lemma_no_error_no_change<T: Scalar>(net: NetworkModel<T>, inputs: Seq<T>, label: T)
    requires
        zero_annihilates::<T>(),
        zero_is_neutral::<T>(),
        net.output_error(inputs, label) == zero::<T>(),
    ensures
        net.train(inputs, label) == net,
        net.loss(inputs, label) == zero::<T>(),
{
    let after = net.train(inputs, label);
    assert forall|i: int| 0 <= i < net.layers.len() implies after.layers[i] == net.layers[i] by {
        lemma_no_error_hands_down_none(net, inputs, label, i as nat);
        lemma_no_error_no_update(net.layers[i], net.input_at(inputs, i as nat), net.learning_rate);
    }
    assert(after.layers =~= net.layers);
    lemma_no_error_hands_down_none(net, inputs, label, 0);
    assert(zero::<T>().times_spec(zero::<T>()) == zero::<T>());
}

/// An untrained network stays as it is when trained on a sample labelled
/// one, and reports a loss of zero: its prediction is zero, whose sign is
/// one, so there is no error.
pub proof fn lemma_fresh_network_rests_on_label_one<T: Scalar>(
    sizes: Seq<usize>,
    rate: T,
    inputs: Seq<T>,
)
    requires
        sizes.len() >= 2,
        zero_annihilates::<T>(),
        zero_is_neutral::<T>(),
        one_less_one_is_zero::<T>(),
        zero::<T>().nonneg_spec(),
    ensures
        NetworkModel::fresh(sizes, rate).train(inputs, one::<T>()) == NetworkModel::fresh(
            sizes,
            rate,
        ),
        NetworkModel::fresh(sizes, rate).loss(inputs, one::<T>()) == zero::<T>(),
{
    assert(zero::<T>().plus_spec(zero::<T>()) == zero::<T>());
    assert forall|k: int| 0 <= k < inputs.len() implies annihilated(#[trigger] inputs[k]) by {
        assert(zero::<T>().times_spec(inputs[k]) == zero::<T>());
    }
    assert(zero::<T>().times_spec(zero::<T>()) == zero::<T>());
    lemma_fresh_network_predicts_zero(sizes, rate, inputs);
    lemma_no_error_no_change(NetworkModel::fresh(sizes, rate), inputs, one::<T>());
}

/// An untrained fixed-point network stays as it is when trained on a sample
/// labelled one, and reports a loss of zero.
pub proof fn lemma_fresh_fixed_network_rests_on_label_one(
    sizes: Seq<usize>,
    rate: Fixed,
    inputs: Seq<Fixed>,
)
    requires
        sizes.len() >= 2,
    ensures
        NetworkModel::fresh(sizes, rate).train(inputs, one::<Fixed>()) == NetworkModel::fresh(
            sizes,
            rate,
        ),
        NetworkModel::fresh(sizes, rate).loss(inputs, one::<Fixed>()) == zero::<Fixed>(),
{
    lemma_fixed_zero();
    lemma_fresh_network_rests_on_label_one(sizes, rate, inputs);
}

/// An update with a rate, an error and inputs that are all at least zero
/// lowers no weight and not the bias, wherever products of such scalars are
/// at least zero and adding one lowers nothing.
pub proof fn lemma_backward_raises<T: Scalar>(
    unit: LayerModel<T>,
    inputs: Seq<T>,
    error: T,
    rate: T,
)
    requires
        products_keep_nonneg::<T>(),
        additions_raise::<T>(),
        rate.nonneg_spec(),
        error.nonneg_spec(),
        forall|k: int| 0 <= k < inputs.len() ==> (#[trigger] inputs[k]).nonneg_spec(),
    ensures
        forall|k: int|
            0 <= k < paired(unit.weights, inputs) ==> no_less(
                #[trigger] unit.backward(inputs, error, rate).weights[k],
                unit.weights[k],
            ),
        no_less(unit.backward(inputs, error, rate).bias, unit.bias),
{
    let step = rate.times_spec(error);
    assert(step.nonneg_spec());
    assert forall|k: int| 0 <= k < paired(unit.weights, inputs) implies no_less(
        #[trigger] unit.backward(inputs, error, rate).weights[k],
        unit.weights[k],
    ) by {
        assert(inputs[k].nonneg_spec());
        assert(step.times_spec(inputs[k]).nonneg_spec());
    }
}

/// A fixed-point update with a rate, an error and inputs that are all at
/// least zero lowers no weight and not the bias.
pub proof fn lemma_fixed_backward_raises(
    unit: LayerModel<Fixed>,
    inputs: Seq<Fixed>,
    error: Fixed,
    rate: Fixed,
)
    requires
        rate.raw >= 0,
        error.raw >= 0,
        forall|k: int| 0 <= k < inputs.len() ==> (#[trigger] inputs[k]).raw >= 0,
    ensures
        forall|k: int|
            0 <= k < unit.weights.len() ==> (#[trigger] unit.backward(
                inputs,
                error,
                rate,
            ).weights[k]).raw >= unit.weights[k].raw,
        unit.backward(inputs, error, rate).bias.raw >= unit.bias.raw,
{
    lemma_fixed_keeps_nonneg();
    lemma_backward_raises(unit, inputs, error, rate);
    let after = unit.backward(inputs, error, rate);
    assert forall|k: int| 0 <= k < unit.weights.len() implies (#[trigger] after.weights[k]).raw
        >= unit.weights[k].raw by {
        if k < inputs.len() {
            assert(no_less(after.weights[k], unit.weights[k]));
        }
    }
    assert(no_less(after.bias, unit.bias));
}

/// The loss of a training step is at least zero wherever squares are.
pub proof fn lemma_loss_nonneg<T: Scalar>(net: NetworkModel<T>, inputs: Seq<T>, label: T)
    requires
        squares_nonneg::<T>(),
    ensures
        net.loss(inputs, label).nonneg_spec(),
{
    assert(square(net.error_past(inputs, label, 0)).nonneg_spec());
}

proof fn lemma_loss_sum_nonneg<T: Scalar>(net: NetworkModel<T>, data: Seq<(Seq<T>, T)>, k: nat)
    requires
        squares_nonneg::<T>(),
        sums_keep_nonneg::<T>(),
    ensures
        net.loss_sum(data, k).nonneg_spec(),
    decreases k,
{
    if k > 0 {
        lemma_loss_sum_nonneg(net, data, (k - 1) as nat);
        lemma_loss_nonneg(net.after_samples(data, (k - 1) as nat), data[k - 1].0, data[k - 1].1);
    }
}

/// The mean loss of a pass over a data set that is not empty is at least
/// zero, wherever squares are, and sums and means of scalars that are.
pub proof fn lemma_epoch_loss_nonneg<T: Scalar>(net: NetworkModel<T>, data: Seq<(Seq<T>, T)>)
    requires
        1 <= data.len() <= usize::MAX,
        squares_nonneg::<T>(),
        sums_keep_nonneg::<T>(),
        means_keep_nonneg::<T>(),
    ensures
        net.epoch_loss(data).nonneg_spec(),
{
    lemma_loss_sum_nonneg(net, data, data.len());
}

/// Every mean loss that training over several passes reports is at least
/// zero, under the same conditions.
pub proof fn lemma_epoch_losses_nonneg<T: Scalar>(
    net: NetworkModel<T>,
    data: Seq<(Seq<T>, T)>,
    epochs: nat,
)
    requires
        1 <= data.len() <= usize::MAX,
        squares_nonneg::<T>(),
        sums_keep_nonneg::<T>(),
        means_keep_nonneg::<T>(),
    ensures
        forall|e: int|
            0 <= e < epochs ==> (#[trigger] net.epoch_losses(data, epochs)[e]).nonneg_spec(),
{
    assert forall|e: int| 0 <= e < epochs implies (#[trigger] net.epoch_losses(
        data,
        epochs,
    )[e]).nonneg_spec() by {
        lemma_epoch_loss_nonneg(net.after_epochs(data, e as nat), data);
    }
}

/// Every mean loss that training a fixed-point network reports is at least
/// zero.
pub proof fn lemma_fixed_epoch_losses_nonneg(
    net: NetworkModel<Fixed>,
    data: Seq<(Seq<Fixed>, Fixed)>,
    epochs: nat,
)
    requires
        1 <= data.len() <= usize::MAX,
    ensures
        forall|e: int|
            0 <= e < epochs ==> (#[trigger] net.epoch_losses(data, epochs)[e]).nonneg_spec(),
{
    lemma_fixed_keeps_nonneg();
    lemma_epoch_losses_nonneg(net, data, epochs);
}

/// No more samples are classified rightly than there are samples.
pub proof fn lemma_correct_at_most_all<T: Scalar>(net: NetworkModel<T>, data: Seq<(Seq<T>, T)>)
    ensures
        net.correct(data) <= data.len(),
{
    data.lemma_filter_len(net.agreeing());
}

/// The accuracy on a data set that is not empty lies between zero and one,
/// wherever the quotient of a count by a count that is no smaller does.
pub proof fn lemma_accuracy_in_unit_interval<T: Scalar>(
    net: NetworkModel<T>,
    data: Seq<(Seq<T>, T)>,
)
    requires
        1 <= data.len() <= usize::MAX,
        shares_in_unit_interval::<T>(),
    ensures
        in_unit_interval(net.accuracy(data)),
{
    lemma_correct_at_most_all(net, data);
    let part: usize = net.correct(data) as usize;
    let whole: usize = data.len() as usize;
    assert(in_unit_interval(T::from_count_spec(part).over_spec(T::from_count_spec(whole))));
}

/// The accuracy of a fixed-point network lies between zero and one, on
/// every data set.
pub proof fn lemma_fixed_accuracy_in_unit_interval(
    net: NetworkModel<Fixed>,
    data: Seq<(Seq<Fixed>, Fixed)>,
)
    requires
        data.len() <= usize::MAX,
    ensures
        0 <= net.accuracy(data).raw <= one::<Fixed>().raw,
{
    if data.len() >= 1 {
        lemma_fixed_shares();
        lemma_accuracy_in_unit_interval(net, data);
    }
}

} // verus!
