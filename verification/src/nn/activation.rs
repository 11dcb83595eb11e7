//! Activation layers. They hold no learnable parameters; only `Softmax`
//! carries the axis it normalizes along.
use vstd::prelude::*;
use crate::nn::module::{LayerNode, NamedLayers, ShapeInfo, TrainMode, is_leaf_layer, leaf_layer};
use crate::text::{decimal, decimal_string};

verus! {

/// The Rectified Linear Unit activation: `f(x) = max(0, x)`.
#[derive(Debug, Clone, Copy, Default)]
pub struct ReLU;

/// The Gaussian Error Linear Unit activation.
#[derive(Debug, Clone, Copy, Default)]
pub struct GELU;

/// The Swish (SiLU) activation: `f(x) = x * sigmoid(x)`.
#[derive(Debug, Clone, Copy, Default)]
pub struct Swish;

/// The Mish activation: `f(x) = x * tanh(softplus(x))`.
#[derive(Debug, Clone, Copy, Default)]
pub struct Mish;

/// The Exponential Linear Unit activation, with alpha fixed to one.
#[derive(Debug, Clone, Copy, Default)]
pub struct ELU;

/// The logistic sigmoid activation.
#[derive(Debug, Clone, Copy, Default)]
pub struct Sigmoid;

/// The hyperbolic tangent activation.
#[derive(Debug, Clone, Copy, Default)]
pub struct Tanh;

/// The softmax activation, applied along one axis.
#[derive(Debug, Clone, Copy)]
pub struct Softmax {
    /// The axis along which softmax is applied.
    pub dim: usize,
}

impl Softmax {
    /// A softmax normalizing along `dim`.
    pub fn new(dim: usize) -> (r: Softmax)
        ensures
            r.dim == dim,
    {
        Softmax { dim }
    }
}

impl ShapeInfo for ReLU {
    /// No shape-carrying state.
    open spec fn spec_shape_info(&self) -> Option<Seq<char>> {
        None
    }

    fn shape_info(&self) -> (r: Option<String>) {
        None
    }
}

impl TrainMode for ReLU {
    /// Nothing depends on the mode: the layer stays as it is.
    open spec fn spec_switched(&self, after: &Self, training: bool) -> bool {
        *after == *self
    }

    fn set_training(&mut self, training: bool) {
    }
}

impl ShapeInfo for GELU {
    /// No shape-carrying state.
    open spec fn spec_shape_info(&self) -> Option<Seq<char>> {
        None
    }

    fn shape_info(&self) -> (r: Option<String>) {
        None
    }
}

impl TrainMode for GELU {
    /// Nothing depends on the mode: the layer stays as it is.
    open spec fn spec_switched(&self, after: &Self, training: bool) -> bool {
        *after == *self
    }

    fn set_training(&mut self, training: bool) {
    }
}

impl ShapeInfo for Swish {
    /// No shape-carrying state.
    open spec fn spec_shape_info(&self) -> Option<Seq<char>> {
        None
    }

    fn shape_info(&self) -> (r: Option<String>) {
        None
    }
}

impl TrainMode for Swish {
    /// Nothing depends on the mode: the layer stays as it is.
    open spec fn spec_switched(&self, after: &Self, training: bool) -> bool {
        *after == *self
    }

    fn set_training(&mut self, training: bool) {
    }
}

impl ShapeInfo for Mish {
    /// No shape-carrying state.
    open spec fn spec_shape_info(&self) -> Option<Seq<char>> {
        None
    }

    fn shape_info(&self) -> (r: Option<String>) {
        None
    }
}

impl TrainMode for Mish {
    /// Nothing depends on the mode: the layer stays as it is.
    open spec fn spec_switched(&self, after: &Self, training: bool) -> bool {
        *after == *self
    }

    fn set_training(&mut self, training: bool) {
    }
}

impl ShapeInfo for ELU {
    /// No shape-carrying state.
    open spec fn spec_shape_info(&self) -> Option<Seq<char>> {
        None
    }

    fn shape_info(&self) -> (r: Option<String>) {
        None
    }
}

impl TrainMode for ELU {
    /// Nothing depends on the mode: the layer stays as it is.
    open spec fn spec_switched(&self, after: &Self, training: bool) -> bool {
        *after == *self
    }

    fn set_training(&mut self, training: bool) {
    }
}

impl ShapeInfo for Sigmoid {
    /// No shape-carrying state.
    open spec fn spec_shape_info(&self) -> Option<Seq<char>> {
        None
    }

    fn shape_info(&self) -> (r: Option<String>) {
        None
    }
}

impl TrainMode for Sigmoid {
    /// Nothing depends on the mode: the layer stays as it is.
    open spec fn spec_switched(&self, after: &Self, training: bool) -> bool {
        *after == *self
    }

    fn set_training(&mut self, training: bool) {
    }
}

impl ShapeInfo for Tanh {
    /// No shape-carrying state.
    open spec fn spec_shape_info(&self) -> Option<Seq<char>> {
        None
    }

    fn shape_info(&self) -> (r: Option<String>) {
        None
    }
}

impl TrainMode for Tanh {
    /// Nothing depends on the mode: the layer stays as it is.
    open spec fn spec_switched(&self, after: &Self, training: bool) -> bool {
        *after == *self
    }

    fn set_training(&mut self, training: bool) {
    }
}

impl ShapeInfo for Softmax {
    /// No shape-carrying state.
    open spec fn spec_shape_info(&self) -> Option<Seq<char>> {
        None
    }

    fn shape_info(&self) -> (r: Option<String>) {
        None
    }
}

impl TrainMode for Softmax {
    /// Nothing depends on the mode: the layer stays as it is.
    open spec fn spec_switched(&self, after: &Self, training: bool) -> bool {
        *after == *self
    }

    fn set_training(&mut self, training: bool) {
    }
}

impl NamedLayers for ReLU {
    /// One node named `prefix`, typed `ReLU`, with no shape and no children.
    open spec fn spec_layers(&self, prefix: Seq<char>, nodes: Seq<LayerNode>) -> bool {
        is_leaf_layer(nodes, prefix, "ReLU"@, Seq::empty())
    }

    fn layer_structure(&self, prefix: &str) -> (r: Vec<LayerNode>) {
        leaf_layer(prefix, "ReLU")
    }
}

impl NamedLayers for GELU {
    /// One node named `prefix`, typed `GELU`, with no shape and no children.
    open spec fn spec_layers(&self, prefix: Seq<char>, nodes: Seq<LayerNode>) -> bool {
        is_leaf_layer(nodes, prefix, "GELU"@, Seq::empty())
    }

    fn layer_structure(&self, prefix: &str) -> (r: Vec<LayerNode>) {
        leaf_layer(prefix, "GELU")
    }
}

impl NamedLayers for Swish {
    /// One node named `prefix`, typed `Swish`, with no shape and no children.
    open spec fn spec_layers(&self, prefix: Seq<char>, nodes: Seq<LayerNode>) -> bool {
        is_leaf_layer(nodes, prefix, "Swish"@, Seq::empty())
    }

    fn layer_structure(&self, prefix: &str) -> (r: Vec<LayerNode>) {
        leaf_layer(prefix, "Swish")
    }
}

impl NamedLayers for Sigmoid {
    /// One node named `prefix`, typed `Sigmoid`, with no shape and no children.
    open spec fn spec_layers(&self, prefix: Seq<char>, nodes: Seq<LayerNode>) -> bool {
        is_leaf_layer(nodes, prefix, "Sigmoid"@, Seq::empty())
    }

    fn layer_structure(&self, prefix: &str) -> (r: Vec<LayerNode>) {
        leaf_layer(prefix, "Sigmoid")
    }
}

impl NamedLayers for Tanh {
    /// One node named `prefix`, typed `Tanh`, with no shape and no children.
    open spec fn spec_layers(&self, prefix: Seq<char>, nodes: Seq<LayerNode>) -> bool {
        is_leaf_layer(nodes, prefix, "Tanh"@, Seq::empty())
    }

    fn layer_structure(&self, prefix: &str) -> (r: Vec<LayerNode>) {
        leaf_layer(prefix, "Tanh")
    }
}

impl NamedLayers for Softmax {
    /// One node named `prefix`, typed `Softmax`, describing its axis as
    /// `dim=N`, with no children.
    open spec fn spec_layers(&self, prefix: Seq<char>, nodes: Seq<LayerNode>) -> bool {
        is_leaf_layer(nodes, prefix, "Softmax"@, "dim="@ + decimal(self.dim as nat))
    }

    fn layer_structure(&self, prefix: &str) -> (r: Vec<LayerNode>) {
        let mut out: Vec<LayerNode> = Vec::new();
        out.push(
            LayerNode {
                name: String::from_str(prefix),
                layer_type: String::from_str("Softmax"),
                shape_info: String::from_str("dim=").concat(decimal_string(self.dim as u64).as_str()),
                children: Vec::new(),
            },
        );
        out
    }
}

} // verus!
