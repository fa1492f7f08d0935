//! The network: an ordered sequence of layers plus its reported accuracy,
//! the checked load from storage form, and the host-driven forward pass.
//!
//! Loading converts every stored record through
//! [`crate::serial::LayerData::to_layer`] and propagates the first shape
//! error; the layer order is kept exactly. A forward pass folds an input
//! vector through the layers in declared order, one [`NeuralNetwork::forward_step`]
//! per layer; before each step the driver asks [`NeuralNetwork::forward_request`]
//! which transcendental values the layer needs and hands them to the step.
//! An inter-layer length mismatch surfaces as a clean `ShapeMismatch` from
//! the offending step, never as a truncation or a panic.

use vstd::prelude::*;
use crate::layer::{
    layer_apply, layer_out_len, layer_request, lemma_layer_output_length, opt_request_view,
    opt_vec_view, Layer, LayerV, Request,
};
use crate::serial::{spec_layer_from_data, spec_layer_to_data, LayerData, LayerDataV};
use crate::NetError;

verus! {

/// The top-level storage form: the stored layer records in order, and the
/// network's reported accuracy (informational only; its bit pattern is
/// carried, never computed with).
pub struct NeuralNetworkData {
    pub layers: Vec<LayerData>,
    pub accuracy: u32,
}

/// The mathematical shadow of a [`NeuralNetworkData`].
#[verifier::ext_equal]
pub struct NeuralNetworkDataV {
    pub layers: Seq<LayerDataV>,
    pub accuracy: u32,
}

impl View for NeuralNetworkData {
    type V = NeuralNetworkDataV;

    open spec fn view(&self) -> NeuralNetworkDataV {
        NeuralNetworkDataV { layers: self.layers.deep_view(), accuracy: self.accuracy }
    }
}

/// An immutable, loaded network: the layers in application order, and the
/// reported accuracy carried over from storage.
pub struct NeuralNetwork {
    pub layers: Vec<Layer>,
    pub accuracy: u32,
}

/// The mathematical shadow of a [`NeuralNetwork`].
#[verifier::ext_equal]
pub struct NeuralNetworkV {
    pub layers: Seq<LayerV>,
    pub accuracy: u32,
}

impl View for NeuralNetwork {
    type V = NeuralNetworkV;

    open spec fn view(&self) -> NeuralNetworkV {
        NeuralNetworkV { layers: self.layers.deep_view(), accuracy: self.accuracy }
    }
}

/// The checked load: succeeds, keeping order and accuracy, exactly when every
/// stored record converts; otherwise the first shape error is propagated.
pub open spec fn spec_net_from_data(d: NeuralNetworkDataV) -> Result<NeuralNetworkV, NetError> {
    if forall|i: int|
        0 <= i < d.layers.len() ==> spec_layer_from_data(#[trigger] d.layers[i]) is Ok {
        Ok(
            NeuralNetworkV {
                layers: Seq::new(d.layers.len(), |i: int| spec_layer_from_data(d.layers[i])->Ok_0),
                accuracy: d.accuracy,
            },
        )
    } else {
        Err(NetError::ShapeMismatch)
    }
}

/// The total store: every layer written out in order, accuracy kept.
pub open spec fn spec_net_to_data(n: NeuralNetworkV) -> NeuralNetworkDataV {
    NeuralNetworkDataV {
        layers: n.layers.map_values(|l: LayerV| spec_layer_to_data(l)),
        accuracy: n.accuracy,
    }
}

/// Whether every layer accepts the vector length the previous one produces,
/// starting from an input of length `n`: each layer is well formed, each
/// dense layer's `num_inputs` meets the incoming length, and the lengths
/// thread on through [`layer_out_len`].
pub open spec fn chain_ok(layers: Seq<LayerV>, n: nat) -> bool
    decreases layers.len(),
{
    if layers.len() == 0 {
        true
    } else {
        &&& layers[0].wf()
        &&& (layers[0] matches LayerV::DenseLayer { num_inputs, .. } ==> n == num_inputs)
        &&& chain_ok(layers.drop_first(), layer_out_len(layers[0], n))
    }
}

/// On a shape-checked network, a step whose host values are present and of
/// the input's length cannot fail, and what it emits keeps the rest of the
/// chain checked: one validation before the first step rules every
/// `ShapeMismatch` out of the whole pass.
pub proof fn lemma_checked_step_succeeds(layers: Seq<LayerV>, x: Seq<u32>, host: Option<Seq<u32>>)
    requires
        layers.len() > 0,
        chain_ok(layers, x.len()),
        !(layers[0] is DenseLayer) ==> (host matches Some(h) && h.len() == x.len()),
    ensures
        layer_apply(layers[0], x, host) is Ok,
        chain_ok(layers.drop_first(), layer_apply(layers[0], x, host)->Ok_0.len()),
{
    lemma_layer_output_length(layers[0], x, host);
}

/// Storing a network whose layers are all well formed and loading it back
/// reproduces it exactly: same layers in the same order, same accuracy.
pub proof fn lemma_net_round_trip(n: NeuralNetworkV)
    requires
        forall|i: int| 0 <= i < n.layers.len() ==> (#[trigger] n.layers[i]).wf(),
    ensures
        spec_net_from_data(spec_net_to_data(n)) == Ok::<NeuralNetworkV, NetError>(n),
{
    let d = spec_net_to_data(n);
    assert forall|i: int| 0 <= i < d.layers.len() implies spec_layer_from_data(
        #[trigger] d.layers[i],
    ) == Ok::<LayerV, NetError>(n.layers[i]) by {
        crate::serial::lemma_layer_round_trip(n.layers[i]);
    }
    assert(spec_net_from_data(d) matches Ok(back) && back.layers =~= n.layers);
}

impl NeuralNetwork {
    /// Build a network from its storage form, validating every dense layer's
    /// declared shape; the first mismatch aborts the load.
    #[verifier::loop_isolation(false)]
    pub fn from_data(data: &NeuralNetworkData) -> (r: Result<NeuralNetwork, NetError>)
        ensures
            spec_net_from_data(data@) matches Ok(nv) ==> (r matches Ok(n) && n@ == nv),
            spec_net_from_data(data@) matches Err(e) ==> r == Err::<NeuralNetwork, NetError>(e),
    {
        let mut layers: Vec<Layer> = Vec::new();
        let mut i: usize = 0;
        while i < data.layers.len()
            invariant
                i <= data.layers@.len(),
                layers@.len() == i,
                forall|k: int|
                    0 <= k < i ==> spec_layer_from_data(#[trigger] data@.layers[k]) is Ok,
                forall|k: int|
                    0 <= k < i ==> (#[trigger] layers@[k])@ == spec_layer_from_data(
                        data@.layers[k],
                    )->Ok_0,
            decreases data.layers@.len() - i,
        {
            let record: &LayerData = &data.layers[i];
            match record.to_layer() {
                Ok(l) => {
                    layers.push(l);
                },
                Err(e) => {
                    proof {
                        assert(spec_layer_from_data(data@.layers[i as int]) is Err);
                    }
                    return Err(e);
                },
            }
            i = i + 1;
        }
        proof {
            assert forall|k: int| 0 <= k < layers@.len() implies #[trigger] layers.deep_view()[k]
                == spec_layer_from_data(data@.layers[k])->Ok_0 by {
                assert(layers.deep_view()[k] == layers@[k]@);
            }
            assert(layers.deep_view() =~= Seq::new(
                data@.layers.len(),
                |k: int| spec_layer_from_data(data@.layers[k])->Ok_0,
            ));
        }
        Ok(NeuralNetwork { layers, accuracy: data.accuracy })
    }

    /// Write the network back into its storage form. Total.
    #[verifier::loop_isolation(false)]
    pub fn to_data(&self) -> (r: NeuralNetworkData)
        ensures
            r@ == spec_net_to_data(self@),
    {
        let mut records: Vec<LayerData> = Vec::new();
        let mut i: usize = 0;
        while i < self.layers.len()
            invariant
                i <= self.layers@.len(),
                records@.len() == i,
                forall|k: int|
                    0 <= k < i ==> (#[trigger] records@[k])@ == spec_layer_to_data(
                        self@.layers[k],
                    ),
            decreases self.layers@.len() - i,
        {
            let l: &Layer = &self.layers[i];
            records.push(l.to_data());
            i = i + 1;
        }
        proof {
            assert forall|k: int| 0 <= k < records@.len() implies #[trigger] records.deep_view()[k]
                == spec_layer_to_data(self@.layers[k]) by {
                assert(records.deep_view()[k] == records@[k]@);
            }
            assert(records.deep_view() =~= self@.layers.map_values(
                |l: LayerV| spec_layer_to_data(l),
            ));
        }
        NeuralNetworkData { layers: records, accuracy: self.accuracy }
    }

    /// Validate once, at load time, that every layer accepts the vector
    /// length the previous one produces, starting from an input of
    /// `input_len`. After a passing check no step of a well-driven forward
    /// pass can return `ShapeMismatch` (see [`lemma_checked_step_succeeds`]),
    /// so a mismatch is reported early and once instead of surfacing in the
    /// middle of a pass.
    #[verifier::loop_isolation(false)]
    pub fn check_shapes(&self, input_len: usize) -> (r: bool)
        ensures
            r == chain_ok(self@.layers, input_len as nat),
    {
        let ghost lv = self@.layers;
        proof {
            assert(lv.skip(0) =~= lv);
        }
        let mut cur: usize = input_len;
        let mut i: usize = 0;
        while i < self.layers.len()
            invariant
                i <= lv.len(),
                chain_ok(lv, input_len as nat) == chain_ok(lv.skip(i as int), cur as nat),
            decreases lv.len() - i,
        {
            let l: &Layer = &self.layers[i];
            proof {
                assert(self.layers.deep_view()[i as int] == self.layers@[i as int]@);
                assert(lv.skip(i as int)[0] == lv[i as int]);
                assert(lv.skip(i as int).drop_first() =~= lv.skip(i + 1));
            }
            match l {
                Layer::DenseLayer { weights, biases, num_inputs, num_outputs } => {
                    if weights.len() != *num_outputs || biases.len() != *num_outputs || cur
                        != *num_inputs {
                        proof {
                            assert(weights.deep_view().len() == weights@.len());
                        }
                        return false;
                    }
                    let mut k: usize = 0;
                    while k < weights.len()
                        invariant
                            k <= weights@.len(),
                            forall|m: int|
                                0 <= m < k ==> (#[trigger] weights.deep_view()[m]).len()
                                    == *num_inputs,
                        decreases weights@.len() - k,
                    {
                        let row: &Vec<u32> = &weights[k];
                        if row.len() != *num_inputs {
                            proof {
                                assert(weights.deep_view()[k as int].len() == row@.len());
                                assert(!lv[i as int].wf());
                            }
                            return false;
                        }
                        proof {
                            assert(weights.deep_view()[k as int].len() == row@.len());
                        }
                        k = k + 1;
                    }
                    proof {
                        assert(lv[i as int].wf());
                    }
                    cur = *num_outputs;
                },
                _ => {
                    proof {
                        assert(lv[i as int].wf());
                        assert(layer_out_len(lv[i as int], cur as nat) == cur as nat);
                    }
                },
            }
            i = i + 1;
        }
        proof {
            assert(lv.skip(lv.len() as int) =~= Seq::<LayerV>::empty());
        }
        true
    }

    /// How many layers a forward pass walks through.
    pub fn num_layers(&self) -> (n: usize)
        ensures
            n == self@.layers.len(),
    {
        self.layers.len()
    }

    /// The transcendental values layer `i` needs from the host on `input`,
    /// if any; the driver computes them and hands them to
    /// [`NeuralNetwork::forward_step`].
    pub fn forward_request(&self, i: usize, input: &Vec<u32>) -> (r: Option<Request>)
        requires
            i < self@.layers.len(),
        ensures
            opt_request_view(r) == layer_request(self@.layers[i as int], input@),
    {
        proof {
            assert(self.layers.deep_view()[i as int] == self.layers@[i as int]@);
        }
        let l: &Layer = &self.layers[i];
        l.forward_request(input)
    }

    /// One step of the forward pass: apply layer `i` to `input`, with `host`
    /// holding the values answered for [`NeuralNetwork::forward_request`].
    /// Returns exactly what [`crate::layer::layer_apply`] states.
    pub fn forward_step(&self, i: usize, input: &Vec<u32>, host: Option<&Vec<u32>>) -> (r: Result<
        Vec<u32>,
        NetError,
    >)
        requires
            i < self@.layers.len(),
        ensures
            layer_apply(self@.layers[i as int], input@, opt_vec_view(host)) matches Ok(s) ==> (
            r matches Ok(out) && out@ == s),
            layer_apply(self@.layers[i as int], input@, opt_vec_view(host)) matches Err(e) ==> r
                == Err::<Vec<u32>, NetError>(e),
    {
        proof {
            assert(self.layers.deep_view()[i as int] == self.layers@[i as int]@);
        }
        let l: &Layer = &self.layers[i];
        l.forward(input, host)
    }
}

} // verus!
