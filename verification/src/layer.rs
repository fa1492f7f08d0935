//! The layer catalogue and the per-layer forward computation.
//!
//! A [`Layer`] is a closed set of variants: a dense (affine) transform owning
//! its weight matrix and bias vector, and the stateless activations sigmoid,
//! softmax and tanh. Its one operation is `forward`: apply the layer to an
//! input vector, produce an output vector.
//!
//! The engine cannot evaluate `exp` and `tanh` itself (it works on bit
//! patterns; see [`crate::bits`]). A layer therefore first states, through
//! [`Layer::forward_request`], which elementwise values it needs from the
//! host, and [`Layer::forward`] then takes those values as an argument. Its
//! contract holds for every value the host hands back: the dense arithmetic,
//! the sigmoid combination `1 / (1 + e)` and the softmax normalisation
//! `e_i / sum(e)` are computed and verified here, whatever `e` is.

use vstd::prelude::*;
use crate::bits::{
    add_bits, div_bits, mul_bits, neg_bits, f_add, f_div, f_mul, f_neg, BITS_ONE, BITS_ZERO,
};
use crate::NetError;

verus! {

/// One computational unit of a network.
pub enum Layer {
    /// An affine transform `W x + b`. `weights` holds `num_outputs` rows of
    /// `num_inputs` columns each; `biases` holds `num_outputs` elements.
    DenseLayer {
        weights: Vec<Vec<u32>>,
        biases: Vec<u32>,
        num_inputs: usize,
        num_outputs: usize,
    },
    /// Elementwise logistic sigmoid `1 / (1 + exp(-x))`.
    Sigmoid,
    /// Normalisation `exp(x_i) / sum_j exp(x_j)`.
    Softmax,
    /// Elementwise hyperbolic tangent.
    Tanh,
}

/// The mathematical shadow of a [`Layer`].
#[verifier::ext_equal]
pub enum LayerV {
    DenseLayer {
        weights: Seq<Seq<u32>>,
        biases: Seq<u32>,
        num_inputs: nat,
        num_outputs: nat,
    },
    Sigmoid,
    Softmax,
    Tanh,
}

impl View for Layer {
    type V = LayerV;

    open spec fn view(&self) -> LayerV {
        match self {
            Layer::DenseLayer { weights, biases, num_inputs, num_outputs } => {
                LayerV::DenseLayer {
                    weights: weights.deep_view(),
                    biases: biases@,
                    num_inputs: *num_inputs as nat,
                    num_outputs: *num_outputs as nat,
                }
            },
            Layer::Sigmoid => LayerV::Sigmoid,
            Layer::Softmax => LayerV::Softmax,
            Layer::Tanh => LayerV::Tanh,
        }
    }
}

impl DeepView for Layer {
    type V = LayerV;

    open spec fn deep_view(&self) -> LayerV {
        self@
    }
}

impl LayerV {
    /// The shape invariant of a layer: a dense layer owns exactly
    /// `num_outputs` rows of exactly `num_inputs` weights each, and one bias
    /// per row. Activation layers carry no data and are always well formed.
    pub open spec fn wf(self) -> bool {
        match self {
            LayerV::DenseLayer { weights, biases, num_inputs, num_outputs } => {
                &&& weights.len() == num_outputs
                &&& forall|i: int| 0 <= i < weights.len() ==> (#[trigger] weights[i]).len() == num_inputs
                &&& biases.len() == num_outputs
            },
            _ => true,
        }
    }
}

/// The elementwise values a layer needs from the host before it can run:
/// `exp` of each listed bit pattern, or `tanh` of each.
pub enum Request {
    Exp(Vec<u32>),
    Tanh(Vec<u32>),
}

/// The mathematical shadow of a [`Request`].
#[verifier::ext_equal]
pub enum RequestV {
    Exp(Seq<u32>),
    Tanh(Seq<u32>),
}

impl View for Request {
    type V = RequestV;

    open spec fn view(&self) -> RequestV {
        match self {
            Request::Exp(v) => RequestV::Exp(v@),
            Request::Tanh(v) => RequestV::Tanh(v@),
        }
    }
}

/// The view of an optional request.
pub open spec fn opt_request_view(r: Option<Request>) -> Option<RequestV> {
    match r {
        Some(req) => Some(req@),
        None => None,
    }
}

/// The view of an optional borrowed vector.
pub open spec fn opt_vec_view(v: Option<&Vec<u32>>) -> Option<Seq<u32>> {
    match v {
        Some(x) => Some(x@),
        None => None,
    }
}

/// The IEEE dot product of one weight row with the input, folded left to
/// right from `+0.0`: each product is rounded, then added into the rounded
/// running sum, exactly as the executable loop does it.
pub open spec fn dot_bits(row: Seq<u32>, x: Seq<u32>) -> u32
    decreases row.len(),
{
    if row.len() == 0 {
        BITS_ZERO
    } else {
        add_bits(dot_bits(row.drop_last(), x.drop_last()), mul_bits(row.last(), x.last()))
    }
}

/// The affine transform `W x + b`, one rounded dot product plus bias per row.
pub open spec fn dense_apply(weights: Seq<Seq<u32>>, biases: Seq<u32>, x: Seq<u32>) -> Seq<u32> {
    Seq::new(weights.len(), |i: int| add_bits(dot_bits(weights[i], x), biases[i]))
}

/// The sigmoid value `1 / (1 + e)`, where `e` stands for `exp(-x)`.
pub open spec fn sigmoid_of_exp(e: u32) -> u32 {
    div_bits(BITS_ONE, add_bits(BITS_ONE, e))
}

/// The rounded left-to-right sum of a vector of floats, from `+0.0`.
pub open spec fn sum_bits(s: Seq<u32>) -> u32
    decreases s.len(),
{
    if s.len() == 0 {
        BITS_ZERO
    } else {
        add_bits(sum_bits(s.drop_last()), s.last())
    }
}

/// The softmax normalisation of a vector `e` of exponentials: every element
/// divided by the rounded sum of all of them. When that sum is zero or NaN
/// the IEEE quotients are infinities or NaNs and are propagated as they are;
/// nothing is rejected.
pub open spec fn softmax_of_exps(e: Seq<u32>) -> Seq<u32> {
    Seq::new(e.len(), |i: int| div_bits(e[i], sum_bits(e)))
}

/// What a layer asks the host to compute on a given input: nothing for a
/// dense layer; `exp` of the negated input for sigmoid; `exp` of the input
/// for softmax; `tanh` of the input for tanh.
pub open spec fn layer_request(l: LayerV, x: Seq<u32>) -> Option<RequestV> {
    match l {
        LayerV::DenseLayer { .. } => None,
        LayerV::Sigmoid => Some(RequestV::Exp(x.map_values(|b: u32| neg_bits(b)))),
        LayerV::Softmax => Some(RequestV::Exp(x)),
        LayerV::Tanh => Some(RequestV::Tanh(x)),
    }
}

/// What a layer returns on input `x` when the host answered `host`: the dense
/// transform needs no host values and applies `W x + b`; sigmoid combines
/// each answered exponential into `1 / (1 + e)`; softmax normalises the
/// answered exponentials; tanh passes the answered values through. Every
/// shape violation - a malformed layer, an input of the wrong length, or
/// missing or wrongly sized host values - is a `ShapeMismatch`.
pub open spec fn layer_apply(
    l: LayerV,
    x: Seq<u32>,
    host: Option<Seq<u32>>,
) -> Result<Seq<u32>, NetError> {
    match l {
        LayerV::DenseLayer { weights, biases, num_inputs, num_outputs } => {
            if l.wf() && x.len() == num_inputs {
                Ok(dense_apply(weights, biases, x))
            } else {
                Err(NetError::ShapeMismatch)
            }
        },
        LayerV::Sigmoid => {
            match host {
                Some(h) => {
                    if h.len() == x.len() {
                        Ok(h.map_values(|e: u32| sigmoid_of_exp(e)))
                    } else {
                        Err(NetError::ShapeMismatch)
                    }
                },
                None => Err(NetError::ShapeMismatch),
            }
        },
        LayerV::Softmax => {
            match host {
                Some(h) => {
                    if h.len() == x.len() {
                        Ok(softmax_of_exps(h))
                    } else {
                        Err(NetError::ShapeMismatch)
                    }
                },
                None => Err(NetError::ShapeMismatch),
            }
        },
        LayerV::Tanh => {
            match host {
                Some(h) => {
                    if h.len() == x.len() {
                        Ok(h)
                    } else {
                        Err(NetError::ShapeMismatch)
                    }
                },
                None => Err(NetError::ShapeMismatch),
            }
        },
    }
}

/// Copy a vector of scalars as it is.
fn copy_scalars(v: &Vec<u32>) -> (r: Vec<u32>)
    ensures
        r@ == v@,
{
    let mut out: Vec<u32> = Vec::new();
    let mut j: usize = 0;
    while j < v.len()
        invariant
            j <= v.len(),
            out@ == v@.take(j as int),
        decreases v.len() - j,
    {
        out.push(v[j]);
        proof {
            assert(v@.take(j + 1) =~= v@.take(j as int).push(v@[j as int]));
        }
        j = j + 1;
    }
    proof {
        assert(v@.take(v@.len() as int) =~= v@);
    }
    out
}

impl Layer {
    /// The elementwise transcendental values this layer needs from the host
    /// on input `input`, if any.
    pub fn forward_request(&self, input: &Vec<u32>) -> (r: Option<Request>)
        ensures
            opt_request_view(r) == layer_request(self@, input@),
    {
        match self {
            Layer::DenseLayer { .. } => None,
            Layer::Sigmoid => {
                let mut neg: Vec<u32> = Vec::new();
                let mut j: usize = 0;
                while j < input.len()
                    invariant
                        j <= input.len(),
                        neg@ == input@.take(j as int).map_values(|b: u32| neg_bits(b)),
                    decreases input.len() - j,
                {
                    neg.push(f_neg(input[j]));
                    proof {
                        assert(input@.take(j + 1).map_values(|b: u32| neg_bits(b)) =~= input@.take(
                            j as int,
                        ).map_values(|b: u32| neg_bits(b)).push(neg_bits(input@[j as int])));
                    }
                    j = j + 1;
                }
                proof {
                    assert(input@.take(input@.len() as int) =~= input@);
                }
                Some(Request::Exp(neg))
            },
            Layer::Softmax => Some(Request::Exp(copy_scalars(input))),
            Layer::Tanh => Some(Request::Tanh(copy_scalars(input))),
        }
    }

    /// Apply this layer to `input`, with `host` holding the values answered
    /// for [`Layer::forward_request`] (`None` where none were requested).
    /// Returns exactly what [`layer_apply`] states, for every host answer.
    #[verifier::loop_isolation(false)]
    pub fn forward(&self, input: &Vec<u32>, host: Option<&Vec<u32>>) -> (r: Result<
        Vec<u32>,
        NetError,
    >)
        ensures
            layer_apply(self@, input@, opt_vec_view(host)) matches Ok(s) ==> (r matches Ok(out)
                && out@ == s),
            layer_apply(self@, input@, opt_vec_view(host)) matches Err(e) ==> r == Err::<
                Vec<u32>,
                NetError,
            >(e),
    {
        match self {
            Layer::DenseLayer { weights, biases, num_inputs, num_outputs } => {
                if weights.len() != *num_outputs || biases.len() != *num_outputs {
                    proof {
                        assert(weights.deep_view().len() == weights@.len());
                        assert(!self@.wf());
                    }
                    return Err(NetError::ShapeMismatch);
                }
                if input.len() != *num_inputs {
                    return Err(NetError::ShapeMismatch);
                }
                let ghost wv: Seq<Seq<u32>> = weights.deep_view();
                let mut out: Vec<u32> = Vec::new();
                let mut i: usize = 0;
                while i < weights.len()
                    invariant
                        i <= weights.len(),
                        weights.deep_view() == wv,
                        wv.len() == weights@.len(),
                        forall|k: int| 0 <= k < wv.len() ==> wv[k] == weights@[k]@,
                        biases@.len() == weights@.len(),
                        input@.len() == *num_inputs,
                        forall|k: int| 0 <= k < i ==> (#[trigger] wv[k]).len() == *num_inputs,
                        out@.len() == i,
                        forall|k: int| 0 <= k < i ==> #[trigger] out@[k] == add_bits(
                            dot_bits(wv[k], input@),
                            biases@[k],
                        ),
                    decreases weights.len() - i,
                {
                    let row: &Vec<u32> = &weights[i];
                    if row.len() != *num_inputs {
                        proof {
                            assert(wv[i as int].len() == row@.len());
                            assert(!self@.wf());
                        }
                        return Err(NetError::ShapeMismatch);
                    }
                    let mut acc: u32 = BITS_ZERO;
                    let mut j: usize = 0;
                    while j < row.len()
                        invariant
                            j <= row.len(),
                            row@.len() == input@.len(),
                            row@ == wv[i as int],
                            i < wv.len(),
                            acc == dot_bits(row@.take(j as int), input@.take(j as int)),
                        decreases row.len() - j,
                    {
                        acc = f_add(acc, f_mul(row[j], input[j]));
                        proof {
                            assert(row@.take(j + 1).drop_last() =~= row@.take(j as int));
                            assert(input@.take(j + 1).drop_last() =~= input@.take(j as int));
                            assert(row@.take(j + 1).last() == row@[j as int]);
                            assert(input@.take(j + 1).last() == input@[j as int]);
                        }
                        j = j + 1;
                    }
                    proof {
                        assert(row@.take(row@.len() as int) =~= row@);
                        assert(input@.take(input@.len() as int) =~= input@);
                    }
                    out.push(f_add(acc, biases[i]));
                    i = i + 1;
                }
                proof {
                    assert(self@.wf());
                    assert(out@ =~= dense_apply(wv, biases@, input@));
                }
                Ok(out)
            },
            Layer::Sigmoid => {
                match host {
                    None => Err(NetError::ShapeMismatch),
                    Some(h) => {
                        if h.len() != input.len() {
                            return Err(NetError::ShapeMismatch);
                        }
                        let mut out: Vec<u32> = Vec::new();
                        let mut j: usize = 0;
                        while j < h.len()
                            invariant
                                j <= h.len(),
                                out@ == h@.take(j as int).map_values(
                                    |e: u32| sigmoid_of_exp(e),
                                ),
                            decreases h.len() - j,
                        {
                            out.push(f_div(BITS_ONE, f_add(BITS_ONE, h[j])));
                            proof {
                                assert(h@.take(j + 1).map_values(|e: u32| sigmoid_of_exp(e)) =~= h@
                                    .take(j as int).map_values(|e: u32| sigmoid_of_exp(e)).push(
                                    sigmoid_of_exp(h@[j as int]),
                                ));
                            }
                            j = j + 1;
                        }
                        proof {
                            assert(h@.take(h@.len() as int) =~= h@);
                        }
                        Ok(out)
                    },
                }
            },
            Layer::Softmax => {
                match host {
                    None => Err(NetError::ShapeMismatch),
                    Some(h) => {
                        if h.len() != input.len() {
                            return Err(NetError::ShapeMismatch);
                        }
                        let mut total: u32 = BITS_ZERO;
                        let mut j: usize = 0;
                        while j < h.len()
                            invariant
                                j <= h.len(),
                                total == sum_bits(h@.take(j as int)),
                            decreases h.len() - j,
                        {
                            total = f_add(total, h[j]);
                            proof {
                                assert(h@.take(j + 1).drop_last() =~= h@.take(j as int));
                                assert(h@.take(j + 1).last() == h@[j as int]);
                            }
                            j = j + 1;
                        }
                        proof {
                            assert(h@.take(h@.len() as int) =~= h@);
                        }
                        let mut out: Vec<u32> = Vec::new();
                        let mut k: usize = 0;
                        while k < h.len()
                            invariant
                                k <= h.len(),
                                total == sum_bits(h@),
                                out@.len() == k,
                                forall|m: int| 0 <= m < k ==> #[trigger] out@[m] == div_bits(
                                    h@[m],
                                    sum_bits(h@),
                                ),
                            decreases h.len() - k,
                        {
                            out.push(f_div(h[k], total));
                            k = k + 1;
                        }
                        proof {
                            assert(out@ =~= softmax_of_exps(h@));
                        }
                        Ok(out)
                    },
                }
            },
            Layer::Tanh => {
                match host {
                    None => Err(NetError::ShapeMismatch),
                    Some(h) => {
                        if h.len() != input.len() {
                            return Err(NetError::ShapeMismatch);
                        }
                        Ok(copy_scalars(h))
                    },
                }
            },
        }
    }
}

/// The length every successful step produces: a dense layer always emits
/// `num_outputs` values, an activation layer as many as it was given.
pub open spec fn layer_out_len(l: LayerV, n: nat) -> nat {
    match l {
        LayerV::DenseLayer { num_outputs, .. } => num_outputs,
        _ => n,
    }
}

/// Whatever a layer's values are, a successful step's output length is fixed
/// by the layer and the input length alone.
pub proof fn lemma_layer_output_length(l: LayerV, x: Seq<u32>, host: Option<Seq<u32>>)
    ensures
        layer_apply(l, x, host) matches Ok(out) ==> out.len() == layer_out_len(l, x.len()),
{
}

/// A well-formed dense layer owes success on every input of its declared
/// length, and its output length is its declared `num_outputs`, whatever the
/// input values are.
pub proof fn lemma_dense_forward_length(l: LayerV, x: Seq<u32>, host: Option<Seq<u32>>)
    requires
        l is DenseLayer,
    ensures
        l matches LayerV::DenseLayer { num_inputs, num_outputs, .. } ==> ((l.wf() && x.len()
            == num_inputs) ==> (layer_apply(l, x, host) matches Ok(out) && out.len()
            == num_outputs)),
        l matches LayerV::DenseLayer { num_outputs, .. } ==> (layer_apply(l, x, host) matches Ok(
            out,
        ) ==> out.len() == num_outputs),
{
}

} // verus!
