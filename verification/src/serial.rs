//! The storage mirror of the layer catalogue, and the checked conversions
//! between the two.
//!
//! A dense layer is stored flat: one weight sequence of declared length
//! `num_outputs * num_inputs` next to the two dimensions, because a nested
//! matrix does not serialise. The dimensions are written out rather than
//! inferred, so a corrupt or mismatched weight count is caught at load time -
//! [`LayerData::to_layer`] fails with [`NetError::ShapeMismatch`] rather than
//! truncating or padding - while [`Layer::to_data`] (flattening, row-major)
//! is total.

use vstd::prelude::*;
use crate::layer::{Layer, LayerV};
use crate::NetError;

verus! {

/// The plain-data counterpart of a [`Layer`]: activation variants carry no
/// fields; a dense layer carries its weights flattened row-major.
pub enum LayerData {
    Sigmoid,
    Softmax,
    Tanh,
    DenseLayer {
        weights: Vec<u32>,
        biases: Vec<u32>,
        num_inputs: usize,
        num_outputs: usize,
    },
}

/// The mathematical shadow of a [`LayerData`].
#[verifier::ext_equal]
pub enum LayerDataV {
    Sigmoid,
    Softmax,
    Tanh,
    DenseLayer {
        weights: Seq<u32>,
        biases: Seq<u32>,
        num_inputs: nat,
        num_outputs: nat,
    },
}

impl View for LayerData {
    type V = LayerDataV;

    open spec fn view(&self) -> LayerDataV {
        match self {
            LayerData::Sigmoid => LayerDataV::Sigmoid,
            LayerData::Softmax => LayerDataV::Softmax,
            LayerData::Tanh => LayerDataV::Tanh,
            LayerData::DenseLayer { weights, biases, num_inputs, num_outputs } => {
                LayerDataV::DenseLayer {
                    weights: weights@,
                    biases: biases@,
                    num_inputs: *num_inputs as nat,
                    num_outputs: *num_outputs as nat,
                }
            },
        }
    }
}

impl DeepView for LayerData {
    type V = LayerDataV;

    open spec fn deep_view(&self) -> LayerDataV {
        self@
    }
}

/// Reshape a flat, row-major weight sequence into `num_outputs` rows of
/// `num_inputs` columns.
pub open spec fn unflatten(flat: Seq<u32>, num_inputs: nat, num_outputs: nat) -> Seq<Seq<u32>> {
    Seq::new(
        num_outputs,
        |i: int| flat.subrange(i * num_inputs, i * num_inputs + num_inputs),
    )
}

/// The checked conversion from storage form to layer: total on the activation
/// variants; on a dense record it reshapes the flat weights and fails with
/// `ShapeMismatch` exactly when the declared dimensions do not match the data
/// (`weights.len() != num_outputs * num_inputs`, or a bias count other than
/// `num_outputs`).
pub open spec fn spec_layer_from_data(d: LayerDataV) -> Result<LayerV, NetError> {
    match d {
        LayerDataV::Sigmoid => Ok(LayerV::Sigmoid),
        LayerDataV::Softmax => Ok(LayerV::Softmax),
        LayerDataV::Tanh => Ok(LayerV::Tanh),
        LayerDataV::DenseLayer { weights, biases, num_inputs, num_outputs } => {
            if weights.len() == num_outputs * num_inputs && biases.len() == num_outputs {
                Ok(
                    LayerV::DenseLayer {
                        weights: unflatten(weights, num_inputs, num_outputs),
                        biases,
                        num_inputs,
                        num_outputs,
                    },
                )
            } else {
                Err(NetError::ShapeMismatch)
            }
        },
    }
}

/// The total conversion from layer to storage form: a dense weight matrix is
/// flattened row-major, everything else is copied.
pub open spec fn spec_layer_to_data(l: LayerV) -> LayerDataV {
    match l {
        LayerV::Sigmoid => LayerDataV::Sigmoid,
        LayerV::Softmax => LayerDataV::Softmax,
        LayerV::Tanh => LayerDataV::Tanh,
        LayerV::DenseLayer { weights, biases, num_inputs, num_outputs } => {
            LayerDataV::DenseLayer {
                weights: weights.flatten(),
                biases,
                num_inputs,
                num_outputs,
            }
        },
    }
}

/// Flattening rows of a uniform length multiplies the count out.
proof fn lemma_flatten_len_uniform(w: Seq<Seq<u32>>, num_inputs: nat)
    requires
        forall|k: int| 0 <= k < w.len() ==> (#[trigger] w[k]).len() == num_inputs,
    ensures
        w.flatten().len() == w.len() * num_inputs,
    decreases w.len(),
{
    if w.len() == 0 {
        assert(w.len() * num_inputs == 0) by (nonlinear_arith)
            requires w.len() == 0;
    } else {
        lemma_flatten_len_uniform(w.drop_first(), num_inputs);
        assert(w.flatten().len() == num_inputs + (w.len() - 1) * num_inputs);
        assert(num_inputs + (w.len() - 1) * num_inputs == w.len() * num_inputs)
            by (nonlinear_arith);
    }
}

/// Row `i` of a uniform matrix sits at offset `i * num_inputs` of the
/// row-major flattening.
proof fn lemma_flatten_row_uniform(w: Seq<Seq<u32>>, num_inputs: nat, i: int)
    requires
        forall|k: int| 0 <= k < w.len() ==> (#[trigger] w[k]).len() == num_inputs,
        0 <= i < w.len(),
    ensures
        w.flatten().subrange(i * num_inputs, i * num_inputs + num_inputs) == w[i],
    decreases i,
{
    lemma_flatten_len_uniform(w, num_inputs);
    assert((i + 1) * num_inputs <= w.len() * num_inputs) by (nonlinear_arith)
        requires 0 <= i < w.len();
    assert((i + 1) * num_inputs == i * num_inputs + num_inputs) by (nonlinear_arith);
    if i == 0 {
        assert(i * num_inputs == 0) by (nonlinear_arith)
            requires i == 0;
        assert(w.flatten().subrange(0, num_inputs as int) =~= w[0]);
    } else {
        lemma_flatten_row_uniform(w.drop_first(), num_inputs, i - 1);
        assert((i - 1) * num_inputs == i * num_inputs - num_inputs) by (nonlinear_arith);
        assert(w.flatten().subrange(i * num_inputs, i * num_inputs + num_inputs) =~= w.drop_first()
            .flatten().subrange(
            (i - 1) * num_inputs,
            (i - 1) * num_inputs + num_inputs,
        ));
        assert(w.drop_first()[i - 1] == w[i]);
    }
}

/// Storing a well-formed layer and loading it back reproduces it exactly:
/// identical weights, biases and dimensions, bit for bit.
pub proof fn lemma_layer_round_trip(l: LayerV)
    requires
        l.wf(),
    ensures
        spec_layer_from_data(spec_layer_to_data(l)) == Ok::<LayerV, NetError>(l),
{
    match l {
        LayerV::DenseLayer { weights, biases, num_inputs, num_outputs } => {
            lemma_flatten_len_uniform(weights, num_inputs);
            let flat = weights.flatten();
            assert forall|i: int| 0 <= i < num_outputs implies #[trigger] unflatten(
                flat,
                num_inputs,
                num_outputs,
            )[i] == weights[i] by {
                lemma_flatten_row_uniform(weights, num_inputs, i);
            }
            assert(unflatten(flat, num_inputs, num_outputs) =~= weights);
        },
        _ => {},
    }
}

/// Loading a valid dense record and storing the layer back reproduces the
/// record: the reshaped rows flatten to the original weight sequence.
#[verifier::rlimit(50)]
pub proof fn lemma_data_round_trip(d: LayerDataV)
    requires
        spec_layer_from_data(d) is Ok,
    ensures
        spec_layer_to_data(spec_layer_from_data(d)->Ok_0) == d,
{
    match d {
        LayerDataV::DenseLayer { weights, biases, num_inputs, num_outputs } => {
            let rows = unflatten(weights, num_inputs, num_outputs);
            assert forall|k: int| 0 <= k < rows.len() implies (#[trigger] rows[k]).len()
                == num_inputs by {
                assert((k + 1) * num_inputs <= num_outputs * num_inputs) by (nonlinear_arith)
                    requires 0 <= k < num_outputs;
                assert((k + 1) * num_inputs == k * num_inputs + num_inputs) by (nonlinear_arith);
                assert(k * num_inputs >= 0) by (nonlinear_arith)
                    requires k >= 0, num_inputs >= 0;
            }
            lemma_flatten_len_uniform(rows, num_inputs);
            assert(rows.len() * num_inputs == num_outputs * num_inputs);
            let ni = num_inputs as int;
            assert forall|m: int| 0 <= m < weights.len() implies #[trigger] rows.flatten()[m]
                == weights[m] by {
                assert(ni > 0) by (nonlinear_arith)
                    requires
                        num_outputs * ni == weights.len(),
                        0 <= m < weights.len(),
                        ni >= 0,
                ;
                let i = m / ni;
                let j = m % ni;
                vstd::arithmetic::div_mod::lemma_fundamental_div_mod(m, ni);
                assert(m == ni * i + j);
                assert(0 <= j < ni);
                assert(0 <= i < num_outputs) by (nonlinear_arith)
                    requires
                        m == ni * i + j,
                        0 <= j < ni,
                        0 <= m < num_outputs * ni,
                ;
                assert((i + 1) * ni <= num_outputs * ni) by (nonlinear_arith)
                    requires 0 <= i < num_outputs, ni >= 0;
                assert((i + 1) * ni == i * ni + ni) by (nonlinear_arith);
                assert(i * ni >= 0) by (nonlinear_arith)
                    requires i >= 0, ni >= 0;
                lemma_flatten_row_uniform(rows, num_inputs, i);
                assert(rows[i] == weights.subrange(i * ni, i * ni + ni));
                assert(rows.flatten().subrange(i * ni, i * ni + ni)[j] == rows.flatten()[i * ni
                    + j]);
                assert(weights.subrange(i * ni, i * ni + ni)[j] == weights[i * ni + j]);
                assert(m == i * ni + j);
            }
            assert(rows.flatten() =~= weights);
        },
        _ => {},
    }
}

impl LayerData {
    /// Convert this storage record into a layer, reshaping the flat weights
    /// into a matrix; fails with `ShapeMismatch` exactly when the declared
    /// dimensions do not match the data. Never truncates or pads.
    #[verifier::loop_isolation(false)]
    pub fn to_layer(&self) -> (r: Result<Layer, NetError>)
        ensures
            spec_layer_from_data(self@) matches Ok(lv) ==> (r matches Ok(l) && l@ == lv),
            spec_layer_from_data(self@) matches Err(e) ==> r == Err::<Layer, NetError>(e),
    {
        match self {
            LayerData::Sigmoid => Ok(Layer::Sigmoid),
            LayerData::Softmax => Ok(Layer::Softmax),
            LayerData::Tanh => Ok(Layer::Tanh),
            LayerData::DenseLayer { weights, biases, num_inputs, num_outputs } => {
                let wlen = weights.len();
                let expected = match num_outputs.checked_mul(*num_inputs) {
                    Some(p) => p,
                    None => {
                        return Err(NetError::ShapeMismatch);
                    },
                };
                if wlen != expected || biases.len() != *num_outputs {
                    return Err(NetError::ShapeMismatch);
                }
                let ghost ni: int = *num_inputs as int;
                let mut rows: Vec<Vec<u32>> = Vec::new();
                let mut i: usize = 0;
                while i < *num_outputs
                    invariant
                        i <= *num_outputs,
                        rows@.len() == i,
                        forall|k: int| 0 <= k < i ==> (#[trigger] rows@[k])@ == weights@.subrange(
                            k * ni,
                            k * ni + ni,
                        ),
                    decreases *num_outputs - i,
                {
                    proof {
                        assert((i + 1) * ni <= (*num_outputs as int) * ni) by (nonlinear_arith)
                            requires i < *num_outputs, ni >= 0;
                        assert((i + 1) * ni == i * ni + ni) by (nonlinear_arith);
                        assert(i * ni >= 0) by (nonlinear_arith)
                            requires i >= 0, ni >= 0;
                    }
                    let base: usize = i * *num_inputs;
                    let mut row: Vec<u32> = Vec::new();
                    let mut j: usize = 0;
                    while j < *num_inputs
                        invariant
                            j <= *num_inputs,
                            base == i * ni,
                            base + *num_inputs <= weights@.len(),
                            row@ == weights@.subrange(base as int, base + j),
                        decreases *num_inputs - j,
                    {
                        row.push(weights[base + j]);
                        proof {
                            assert(weights@.subrange(base as int, base + j + 1) =~= weights@
                                .subrange(base as int, base + j).push(weights@[base + j]));
                        }
                        j = j + 1;
                    }
                    rows.push(row);
                    i = i + 1;
                }
                let mut biases_out: Vec<u32> = Vec::new();
                let mut b: usize = 0;
                while b < biases.len()
                    invariant
                        b <= biases.len(),
                        biases_out@ == biases@.take(b as int),
                    decreases biases.len() - b,
                {
                    biases_out.push(biases[b]);
                    proof {
                        assert(biases@.take(b + 1) =~= biases@.take(b as int).push(
                            biases@[b as int],
                        ));
                    }
                    b = b + 1;
                }
                proof {
                    assert(biases@.take(biases@.len() as int) =~= biases@);
                    assert forall|k: int| 0 <= k < rows@.len() implies rows.deep_view()[k]
                        == weights@.subrange(k * ni, k * ni + ni) by {
                        assert(rows.deep_view()[k] =~= rows@[k]@);
                    }
                    assert(rows.deep_view() =~= unflatten(
                        weights@,
                        *num_inputs as nat,
                        *num_outputs as nat,
                    ));
                }
                Ok(
                    Layer::DenseLayer {
                        weights: rows,
                        biases: biases_out,
                        num_inputs: *num_inputs,
                        num_outputs: *num_outputs,
                    },
                )
            },
        }
    }
}

impl Layer {
    /// Convert this layer into its storage record, flattening a dense weight
    /// matrix row-major. Total: nothing can fail.
    #[verifier::loop_isolation(false)]
    pub fn to_data(&self) -> (r: LayerData)
        ensures
            r@ == spec_layer_to_data(self@),
    {
        match self {
            Layer::Sigmoid => LayerData::Sigmoid,
            Layer::Softmax => LayerData::Softmax,
            Layer::Tanh => LayerData::Tanh,
            Layer::DenseLayer { weights, biases, num_inputs, num_outputs } => {
                let ghost wv: Seq<Seq<u32>> = weights.deep_view();
                let mut flat: Vec<u32> = Vec::new();
                let mut i: usize = 0;
                while i < weights.len()
                    invariant
                        i <= weights.len(),
                        flat@ == wv.take(i as int).flatten(),
                    decreases weights.len() - i,
                {
                    let row: &Vec<u32> = &weights[i];
                    let mut j: usize = 0;
                    while j < row.len()
                        invariant
                            j <= row.len(),
                            i < weights.len(),
                            flat@ == wv.take(i as int).flatten() + row@.take(j as int),
                        decreases row.len() - j,
                    {
                        flat.push(row[j]);
                        proof {
                            assert(row@.take(j + 1) =~= row@.take(j as int).push(row@[j as int]));
                            assert(wv.take(i as int).flatten() + row@.take(j + 1) =~= (wv.take(
                                i as int,
                            ).flatten() + row@.take(j as int)).push(row@[j as int]));
                        }
                        j = j + 1;
                    }
                    proof {
                        assert(row@.take(row@.len() as int) =~= row@);
                        assert(wv[i as int] =~= row@);
                        lemma_flatten_snoc(wv.take(i as int), wv[i as int]);
                        assert(wv.take(i + 1) =~= wv.take(i as int).push(wv[i as int]));
                    }
                    i = i + 1;
                }
                let mut biases_out: Vec<u32> = Vec::new();
                let mut b: usize = 0;
                while b < biases.len()
                    invariant
                        b <= biases.len(),
                        biases_out@ == biases@.take(b as int),
                    decreases biases.len() - b,
                {
                    biases_out.push(biases[b]);
                    proof {
                        assert(biases@.take(b + 1) =~= biases@.take(b as int).push(
                            biases@[b as int],
                        ));
                    }
                    b = b + 1;
                }
                proof {
                    assert(biases@.take(biases@.len() as int) =~= biases@);
                    assert(wv.take(wv.len() as int) =~= wv);
                }
                LayerData::DenseLayer {
                    weights: flat,
                    biases: biases_out,
                    num_inputs: *num_inputs,
                    num_outputs: *num_outputs,
                }
            },
        }
    }
}

/// Flattening a matrix extended by one row appends that row.
proof fn lemma_flatten_snoc(w: Seq<Seq<u32>>, row: Seq<u32>)
    ensures
        w.push(row).flatten() == w.flatten() + row,
    decreases w.len(),
{
    if w.len() == 0 {
        assert(w.push(row).drop_first() =~= Seq::<Seq<u32>>::empty());
        assert(Seq::<Seq<u32>>::empty().flatten() == Seq::<u32>::empty());
        assert(w.push(row).flatten() =~= row);
        assert(w.flatten() + row =~= row);
    } else {
        lemma_flatten_snoc(w.drop_first(), row);
        assert(w.push(row).drop_first() =~= w.drop_first().push(row));
        assert(w.push(row).flatten() == w.push(row).first() + w.push(row).drop_first().flatten());
        assert(w.push(row).first() + w.drop_first().push(row).flatten() =~= w.flatten() + row);
    }
}

} // verus!
