//! The shape of a network and the check that a stored model has the shape
//! that the caller expects.
//!
//! The network's numbers stay outside this library. What the check reads of a
//! layer is held here as plain values: the width of each row of its weight
//! matrix, the length of its bias vector and the kind of its activation.

use vstd::prelude::*;

verus! {

/// The kind of an activation function, without its parameter.
#[derive(Clone, Copy, Debug, PartialEq, Eq, Structural)]
pub enum ActivationKind {
    Tanh,
    ReLU,
    LeakyReLU,
    ParametricReLU,
    ELU,
    Swish,
}

/// The dimensions of one dense layer: its weight matrix has one row per input
/// unit and one column per output unit, its bias vector one entry per output
/// unit.
#[derive(Debug, PartialEq, Eq)]
pub struct LayerShape {
    /// The number of columns of each row of the weight matrix.
    pub row_widths: Vec<usize>,
    /// The length of the bias vector.
    pub biases: usize,
    /// The kind of the layer's activation.
    pub activation: ActivationKind,
}

impl LayerShape {
    /// The layer takes `inputs` values to `outputs` values through an
    /// activation of kind `activation`: its weight matrix has `inputs` rows,
    /// each of `outputs` columns, and it has `outputs` biases.
    pub open spec fn fits(&self, inputs: usize, outputs: usize, activation: ActivationKind) -> bool {
        &&& self.row_widths@.len() == inputs
        &&& forall|r: int| 0 <= r < self.row_widths@.len() ==> self.row_widths@[r] == outputs
        &&& self.biases == outputs
        &&& self.activation == activation
    }

    /// Whether the layer has exactly the given dimensions and activation.
    pub fn has_shape(&self, inputs: usize, outputs: usize, activation: ActivationKind) -> (r: bool)
        ensures
            r == self.fits(inputs, outputs, activation),
    {
        if self.row_widths.len() != inputs || self.biases != outputs || self.activation
            != activation {
            return false;
        }
        let mut r: usize = 0;
        while r < self.row_widths.len()
            invariant
                r <= self.row_widths@.len(),
                forall|k: int| 0 <= k < r ==> self.row_widths@[k] == outputs,
            decreases self.row_widths@.len() - r,
        {
            if self.row_widths[r] != outputs {
                return false;
            }
            r += 1;
        }
        true
    }
}

/// The layers have the topology that `sizes` and `activations` describe:
/// there is one layer per activation, `sizes` has one entry more, and layer
/// `i` takes `sizes[i]` values to `sizes[i + 1]` values through an activation
/// of kind `activations[i]`.
pub open spec fn matches_topology(
    sizes: Seq<usize>,
    activations: Seq<ActivationKind>,
    layers: Seq<LayerShape>,
) -> bool {
    &&& sizes.len() == activations.len() + 1
    &&& layers.len() == activations.len()
    &&& forall|i: int|
        0 <= i < layers.len() ==> (#[trigger] layers[i]).fits(sizes[i], sizes[i + 1], activations[i])
}

/// In a model that matches a topology each layer feeds the next: its number
/// of outputs is the next layer's number of inputs. The first layer takes
/// `sizes.first()` values and the last one gives `sizes.last()`.
pub proof fn lemma_matching_layers_chain(
    sizes: Seq<usize>,
    activations: Seq<ActivationKind>,
    layers: Seq<LayerShape>,
)
    requires
        matches_topology(sizes, activations, layers),
    ensures
        forall|i: int|
            0 <= i < layers.len() - 1 ==> (#[trigger] layers[i]).biases == layers[i
                + 1].row_widths@.len(),
        layers.len() > 0 ==> layers.first().row_widths@.len() == sizes.first(),
        layers.len() > 0 ==> layers.last().biases == sizes.last(),
{
    assert forall|i: int| 0 <= i < layers.len() - 1 implies (#[trigger] layers[i]).biases == layers[i
        + 1].row_widths@.len() by {
        assert(layers[i + 1].fits(sizes[i + 1], sizes[i + 2], activations[i + 1]));
    }
}

/// Accepts a stored model exactly when its layers have the expected
/// topology; any other model is refused as invalid.
pub fn validate_model(
    node_counts: &[usize],
    activations: &[ActivationKind],
    layers: &[LayerShape],
) -> (r: Result<(), &'static str>)
    ensures
        r is Ok <==> matches_topology(node_counts@, activations@, layers@),
        r matches Err(e) ==> e@ == "Invalid model"@,
{
    if node_counts.len() == 0 || node_counts.len() - 1 != activations.len() || layers.len()
        != activations.len() {
        return Err("Invalid model");
    }
    let mut i: usize = 0;
    while i < layers.len()
        invariant
            node_counts@.len() == activations@.len() + 1,
            layers@.len() == activations@.len(),
            i <= layers@.len(),
            forall|k: int|
                0 <= k < i ==> (#[trigger] layers@[k]).fits(
                    node_counts@[k],
                    node_counts@[k + 1],
                    activations@[k],
                ),
        decreases layers@.len() - i,
    {
        if !layers[i].has_shape(node_counts[i], node_counts[i + 1], activations[i]) {
            return Err("Invalid model");
        }
        i += 1;
    }
    Ok(())
}

} // verus!
