use vstd::prelude::*;

use crate::ratio::Ratio;

verus! {

/// The activation applied to a layer's pre-activation output.
#[derive(Clone, Copy, Debug, PartialEq, Eq, Structural)]
pub enum ActivationType {
    Sigmoid,
    Relu,
    Tanh,
    SoftMax,
}

/// The parameter-update rule the trainer applies after each mini-batch.
#[derive(Clone, Copy, Debug, PartialEq, Eq, Structural)]
pub enum OptimizationType {
    MBGD,
    Momentum,
    RMSProp,
    Adam,
}

/// Why a training run ended.
#[derive(Clone, Copy, Debug, PartialEq, Eq, Structural)]
pub enum StopReason {
    /// Test accuracy reached the configured threshold.
    Converged,
    /// The hard cap on epochs was reached first.
    MaxEpochsReached,
    /// Numerical divergence was reported and the run was aborted.
    Diverged,
}

/// The error surface of the training engine.
#[derive(Clone, Copy, Debug, PartialEq, Eq, Structural)]
pub enum NNError {
    /// A hyperparameter is out of its documented range.
    InvalidHyperParameters,
    /// Data or architecture dimensions are inconsistent.
    ShapeMismatch,
    /// A recoverable non-finite value was met while computing a loss.
    NumericalInstability,
    /// Unrecoverable numerical divergence: the run was aborted.
    DivergedTraining,
}

/// Settings of one training run, immutable for its duration.
///
/// Scalars are exact rationals; the numeric engine converts them to its
/// working precision, while validation and the stopping rule stay exact.
#[derive(Clone, Copy, Debug, PartialEq, Eq, Structural)]
pub struct HyperParams {
    /// Stop training once test accuracy reaches this fraction.
    pub max_accuracy_threshold: Ratio,
    /// Hard cap on the number of epochs.
    pub max_epochs: u32,
    /// Exponential-decay factor of the momentum accumulators, in (0,1).
    pub momentum_beta: Ratio,
    /// Exponential-decay factor of the squared-gradient accumulators, in (0,1).
    pub rms_prop_beta: Ratio,
    /// Examples per mini-batch; positive, at most the number of examples.
    pub mini_batch_size: usize,
    /// Step size of the update rule; positive.
    pub learning_rate: Ratio,
    pub optimization_type: OptimizationType,
    /// Optional non-negative L2 penalty coefficient.
    pub l2_regularization: Option<Ratio>,
}

impl Default for HyperParams {
    fn default() -> (hp: HyperParams)
        ensures
            hp.max_accuracy_threshold == (Ratio { num: 95, den: 100 }),
            hp.max_epochs == 3,
            hp.momentum_beta == (Ratio { num: 9, den: 10 }),
            hp.rms_prop_beta == (Ratio { num: 999, den: 1000 }),
            hp.mini_batch_size == 200,
            hp.learning_rate == (Ratio { num: 1, den: 100 }),
            hp.optimization_type == OptimizationType::Adam,
            hp.l2_regularization matches None,
    {
        HyperParams {
            max_accuracy_threshold: Ratio { num: 95, den: 100 },
            max_epochs: 3,
            momentum_beta: Ratio { num: 9, den: 10 },
            rms_prop_beta: Ratio { num: 999, den: 1000 },
            mini_batch_size: 200,
            learning_rate: Ratio { num: 1, den: 100 },
            optimization_type: OptimizationType::Adam,
            l2_regularization: None,
        }
    }
}

/// One layer of the architecture: its activation and its output width.
#[derive(Clone, Copy, Debug, PartialEq, Eq, Structural)]
pub struct LayerDefinition {
    pub activation_type: ActivationType,
    /// The layer's output width (rows of its weight matrix).
    pub num_activations: usize,
}

/// Marker capability for the pluggable weight-initialization policy.
///
/// The sampling itself draws random floating-point values and lives with the
/// numeric engine; the core only carries the chosen policy through.
pub trait RandomInitializer {
}

/// He initialization policy: standard-normal samples scaled by sqrt(2/cols).
#[derive(Clone, Copy, Debug, PartialEq, Eq, Structural)]
pub struct HeUniform;

/// Glorot initialization policy: samples scaled by sqrt(6/(rows+cols)).
#[derive(Clone, Copy, Debug, PartialEq, Eq, Structural)]
pub struct GlorothUniform;

impl RandomInitializer for HeUniform {
}

impl RandomInitializer for GlorothUniform {
}

/// A full network architecture: input width, class count, the ordered layer
/// definitions, and the weight-initialization policy.
#[derive(Debug)]
pub struct NeuralNetworkArchitecture<R: RandomInitializer> {
    pub num_features: usize,
    pub num_classes: usize,
    pub layers: Vec<LayerDefinition>,
    pub rand_initializer: R,
}

/// Bookkeeping of a finished training run.
#[derive(Clone, Copy, Debug, PartialEq, Eq, Structural)]
pub struct TrainingInfo {
    pub hyper_params: HyperParams,
    pub num_epochs_used: u32,
    pub num_iterations_used: u64,
    /// Final loss, as an exact rational handed over by the numeric engine.
    pub loss: Ratio,
}

/// The structural description of a trained model: widths and activations of
/// every layer, plus how training went. The numeric engine pairs it with the
/// trained weight matrices of matching shapes.
#[derive(Debug)]
pub struct NNModel {
    pub num_features: usize,
    pub num_classes: usize,
    pub layers: Vec<LayerDefinition>,
    pub training_info: Option<TrainingInfo>,
}

/// One progress report, handed to the observer at each reporting point.
#[derive(Debug)]
pub struct TrainingMessage {
    pub message: String,
    pub iteration: u64,
    pub epoch: u32,
    pub batch_start: usize,
    pub metrics: Option<crate::metrics::Metrics>,
}

impl Default for TrainingMessage {
    fn default() -> (m: TrainingMessage)
        ensures
            m.message@ == Seq::<char>::empty(),
            m.iteration == 0,
            m.epoch == 0,
            m.batch_start == 0,
            m.metrics matches None,
    {
        TrainingMessage {
            message: String::new(),
            iteration: 0,
            epoch: 0,
            batch_start: 0,
            metrics: None,
        }
    }
}

/// Capability that receives progress reports, one per reporting point,
/// synchronously and in order. Implementations live with the caller.
pub trait TrainingObserver {
    fn emit(&self, msg: TrainingMessage);
}

} // verus!
