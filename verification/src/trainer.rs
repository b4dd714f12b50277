use vstd::prelude::*;

use crate::defs::{
    HyperParams, NNError, NNModel, NeuralNetworkArchitecture, RandomInitializer, StopReason,
    TrainingInfo,
};
use crate::ratio::Ratio;

verus! {

/// What the trainer asks its driver to do next.
#[derive(Clone, Copy, Debug, PartialEq, Eq, Structural)]
pub enum TrainerAction {
    /// Run one forward/backward/update cycle on examples
    /// `start .. start + size`.
    RunBatch { start: usize, size: usize },
    /// Evaluate on the train and test sets and report the test accuracy back.
    Evaluate,
    /// The run is over.
    Stop(StopReason),
}

pub open spec fn spec_min(a: int, b: int) -> int {
    if a <= b {
        a
    } else {
        b
    }
}

/// Every hyperparameter is in its documented range: a positive mini-batch
/// size no larger than the number of training examples, a positive learning
/// rate, decay factors strictly between 0 and 1, a well-formed accuracy
/// threshold, and a non-negative L2 coefficient if one is given.
pub open spec fn spec_hyper_params_valid(hp: HyperParams, num_examples: int) -> bool {
    &&& hp.mini_batch_size > 0
    &&& hp.mini_batch_size <= num_examples
    &&& hp.learning_rate.wf()
    &&& hp.learning_rate.num > 0
    &&& hp.momentum_beta.wf()
    &&& 0 < hp.momentum_beta.num < hp.momentum_beta.den
    &&& hp.rms_prop_beta.wf()
    &&& 0 < hp.rms_prop_beta.num < hp.rms_prop_beta.den
    &&& hp.max_accuracy_threshold.wf()
    &&& match hp.l2_regularization {
        Some(l2) => l2.wf() && l2.num >= 0,
        None => true,
    }
}

/// Fails fast with `InvalidHyperParameters` exactly when a hyperparameter is
/// out of range.
pub fn validate_hyper_params(hp: &HyperParams, num_examples: usize) -> (r: Result<(), NNError>)
    ensures
        r matches Ok(()) <==> spec_hyper_params_valid(*hp, num_examples as int),
        r matches Err(e) ==> e == NNError::InvalidHyperParameters,
{
    let lr_ok = hp.learning_rate.den > 0 && hp.learning_rate.num > 0;
    let mb_ok = hp.momentum_beta.den > 0 && hp.momentum_beta.num > 0
        && (hp.momentum_beta.num as u64) < hp.momentum_beta.den;
    let rb_ok = hp.rms_prop_beta.den > 0 && hp.rms_prop_beta.num > 0
        && (hp.rms_prop_beta.num as u64) < hp.rms_prop_beta.den;
    let l2_ok = match hp.l2_regularization {
        Some(l2) => l2.den > 0 && l2.num >= 0,
        None => true,
    };
    if hp.mini_batch_size > 0 && hp.mini_batch_size <= num_examples && lr_ok && mb_ok && rb_ok
        && hp.max_accuracy_threshold.den > 0 && l2_ok {
        Ok(())
    } else {
        Err(NNError::InvalidHyperParameters)
    }
}

/// Test accuracy `hits / total` has reached `threshold`, compared exactly.
pub open spec fn spec_accuracy_reached(hits: int, total: int, threshold: Ratio) -> bool {
    threshold.num * total <= hits * threshold.den
}

/// Exact threshold comparison by cross-multiplication.
pub fn accuracy_reached(hits: usize, total: usize, threshold: &Ratio) -> (r: bool)
    requires
        threshold.wf(),
        total > 0,
        hits <= total,
    ensures
        r == spec_accuracy_reached(hits as int, total as int, *threshold),
{
    if threshold.num < 0 {
        proof {
            assert(threshold.num * total < 0 && hits * threshold.den >= 0) by (nonlinear_arith)
                requires
                    threshold.num < 0,
                    total > 0,
                    hits >= 0,
                    threshold.den > 0,
            ;
        }
        true
    } else {
        proof {
            assert(0 <= (threshold.num as int) * (total as int)
                < 0x8000_0000_0000_0000_0000_0000_0000_0000
                && 0 <= (hits as int) * (threshold.den as int)
                < 0x1_0000_0000_0000_0000_0000_0000_0000_0000) by (nonlinear_arith)
                requires
                    0 <= threshold.num < 0x8000_0000_0000_0000,
                    0 < total <= 0xffff_ffff_ffff_ffff,
                    0 <= hits <= 0xffff_ffff_ffff_ffff,
                    0 < threshold.den <= 0xffff_ffff_ffff_ffff,
            ;
        }
        let lhs: u128 = (threshold.num as u128) * (total as u128);
        let rhs: u128 = (hits as u128) * (threshold.den as u128);
        lhs <= rhs
    }
}

/// The control state of one training run: the epoch/batch position, the
/// counters that end up in `TrainingInfo`, and whether (and why) the run has
/// stopped. The driver performs the numeric work of each action and feeds
/// the outcome back; every decision — batch boundaries, epoch turnover, the
/// stopping rule — is taken here.
pub struct TrainingRun {
    pub hyper_params: HyperParams,
    pub num_examples: usize,
    /// Completed epochs.
    pub epoch: u32,
    /// Mini-batches processed over the whole run.
    pub iteration: u64,
    /// First example of the next mini-batch of the current epoch.
    pub batch_start: usize,
    /// Mini-batches processed in the current epoch.
    pub batches_in_epoch: usize,
    pub stopped: Option<StopReason>,
}

impl TrainingRun {
    /// Internal consistency of the control state; established by `new` and
    /// preserved by every step.
    pub open spec fn wf(self) -> bool {
        &&& spec_hyper_params_valid(self.hyper_params, self.num_examples as int)
        &&& self.batch_start <= self.num_examples
        &&& self.batches_in_epoch <= self.batch_start
        &&& self.epoch <= self.hyper_params.max_epochs
        &&& (self.stopped is None ==> self.epoch < self.hyper_params.max_epochs)
        &&& self.iteration
            <= self.epoch * self.num_examples + self.batches_in_epoch
        &&& self.hyper_params.max_epochs * self.num_examples <= u64::MAX
    }

    /// The size of the next mini-batch: the configured size, or what is left
    /// of the epoch if that is smaller.
    pub open spec fn spec_batch_size(self) -> int {
        spec_min(
            self.hyper_params.mini_batch_size as int,
            self.num_examples - self.batch_start,
        )
    }

    pub open spec fn spec_next_action(self) -> TrainerAction {
        match self.stopped {
            Some(r) => TrainerAction::Stop(r),
            None => if self.batch_start < self.num_examples {
                TrainerAction::RunBatch {
                    start: self.batch_start,
                    size: self.spec_batch_size() as usize,
                }
            } else {
                TrainerAction::Evaluate
            },
        }
    }

    /// Starts a run: validates the hyperparameters against the training-set
    /// size and zeroes every counter. Succeeds exactly when the
    /// hyperparameters are valid; a zero epoch cap stops the run before any
    /// work.
    pub fn new(hp: &HyperParams, num_examples: usize) -> (r: Result<TrainingRun, NNError>)
        requires
            (hp.max_epochs as int) * (num_examples as int) <= u64::MAX,
        ensures
            r matches Ok(run) ==> {
                &&& run.wf()
                &&& run.hyper_params == *hp
                &&& run.num_examples == num_examples
                &&& run.epoch == 0
                &&& run.iteration == 0
                &&& run.batch_start == 0
                &&& run.batches_in_epoch == 0
                &&& run.stopped == (if hp.max_epochs == 0 {
                    Some(StopReason::MaxEpochsReached)
                } else {
                    None::<StopReason>
                })
            },
            (r matches Ok(_)) <==> spec_hyper_params_valid(*hp, num_examples as int),
            r matches Err(e) ==> e == NNError::InvalidHyperParameters,
    {
        match validate_hyper_params(hp, num_examples) {
            Err(e) => Err(e),
            Ok(()) => {
                let stopped = if hp.max_epochs == 0 {
                    Some(StopReason::MaxEpochsReached)
                } else {
                    None
                };
                Ok(TrainingRun {
                    hyper_params: *hp,
                    num_examples,
                    epoch: 0,
                    iteration: 0,
                    batch_start: 0,
                    batches_in_epoch: 0,
                    stopped,
                })
            },
        }
    }

    /// What the driver should do next. Pure: repeated calls return the same
    /// action until an outcome is reported.
    pub fn next_action(&self) -> (a: TrainerAction)
        requires
            self.wf(),
        ensures
            a == self.spec_next_action(),
    {
        match self.stopped {
            Some(r) => TrainerAction::Stop(r),
            None => {
                if self.batch_start < self.num_examples {
                    let remaining: usize = self.num_examples - self.batch_start;
                    let size: usize = if self.hyper_params.mini_batch_size < remaining {
                        self.hyper_params.mini_batch_size
                    } else {
                        remaining
                    };
                    TrainerAction::RunBatch { start: self.batch_start, size }
                } else {
                    TrainerAction::Evaluate
                }
            },
        }
    }

    /// Records that the driver ran the pending mini-batch: advances the batch
    /// window by its size and counts one iteration. Everything else is
    /// untouched.
    pub fn on_batch_done(&mut self)
        requires
            old(self).wf(),
            old(self).stopped is None,
            old(self).batch_start < old(self).num_examples,
        ensures
            final(self).wf(),
            final(self).hyper_params == old(self).hyper_params,
            final(self).num_examples == old(self).num_examples,
            final(self).epoch == old(self).epoch,
            final(self).stopped == old(self).stopped,
            final(self).iteration == old(self).iteration + 1,
            final(self).batches_in_epoch == old(self).batches_in_epoch + 1,
            final(self).batch_start == old(self).batch_start + old(self).spec_batch_size(),
    {
        let remaining: usize = self.num_examples - self.batch_start;
        let size: usize = if self.hyper_params.mini_batch_size < remaining {
            self.hyper_params.mini_batch_size
        } else {
            remaining
        };
        proof {
            let e = self.epoch as int;
            let me = self.hyper_params.max_epochs as int;
            let n = self.num_examples as int;
            assert(e * n + n <= me * n) by (nonlinear_arith)
                requires
                    e + 1 <= me,
                    n >= 0,
            ;
        }
        self.iteration = self.iteration + 1;
        self.batch_start = self.batch_start + size;
        self.batches_in_epoch = self.batches_in_epoch + 1;
    }

    /// Records an end-of-epoch evaluation: one more epoch is complete, the
    /// batch window rewinds, and the run stops as `Converged` once the test
    /// accuracy reaches the threshold, or as `MaxEpochsReached` once the
    /// epoch cap is hit (convergence wins when both hold at once).
    pub fn on_evaluation(&mut self, test_hits: usize, test_total: usize)
        requires
            old(self).wf(),
            old(self).stopped is None,
            old(self).batch_start == old(self).num_examples,
            test_hits <= test_total,
            test_total > 0,
        ensures
            final(self).wf(),
            final(self).hyper_params == old(self).hyper_params,
            final(self).num_examples == old(self).num_examples,
            final(self).epoch == old(self).epoch + 1,
            final(self).iteration == old(self).iteration,
            final(self).batch_start == 0,
            final(self).batches_in_epoch == 0,
            final(self).stopped == (if spec_accuracy_reached(
                test_hits as int,
                test_total as int,
                old(self).hyper_params.max_accuracy_threshold,
            ) {
                Some(StopReason::Converged)
            } else if old(self).epoch + 1 == old(self).hyper_params.max_epochs {
                Some(StopReason::MaxEpochsReached)
            } else {
                None::<StopReason>
            }),
    {
        let reached = accuracy_reached(
            test_hits,
            test_total,
            &self.hyper_params.max_accuracy_threshold,
        );
        proof {
            let e = self.epoch as int;
            let me = self.hyper_params.max_epochs as int;
            let n = self.num_examples as int;
            assert((e + 1) * n == e * n + n) by (nonlinear_arith);
            assert(e * n + n <= me * n) by (nonlinear_arith)
                requires
                    e + 1 <= me,
                    n >= 0,
            ;
        }
        self.epoch = self.epoch + 1;
        self.batch_start = 0;
        self.batches_in_epoch = 0;
        if reached {
            self.stopped = Some(StopReason::Converged);
        } else if self.epoch == self.hyper_params.max_epochs {
            self.stopped = Some(StopReason::MaxEpochsReached);
        }
    }

    /// Records that the driver met unrecoverable numerical divergence: the
    /// run aborts.
    pub fn on_divergence(&mut self)
        requires
            old(self).wf(),
            old(self).stopped is None,
        ensures
            final(self).wf(),
            final(self).hyper_params == old(self).hyper_params,
            final(self).num_examples == old(self).num_examples,
            final(self).epoch == old(self).epoch,
            final(self).iteration == old(self).iteration,
            final(self).batch_start == old(self).batch_start,
            final(self).batches_in_epoch == old(self).batches_in_epoch,
            final(self).stopped == Some(StopReason::Diverged),
    {
        self.stopped = Some(StopReason::Diverged);
    }

    /// The bookkeeping of a finished run, with the final loss the driver
    /// measured.
    pub fn training_info(&self, loss: Ratio) -> (info: TrainingInfo)
        ensures
            info.hyper_params == self.hyper_params,
            info.num_epochs_used == self.epoch,
            info.num_iterations_used == self.iteration,
            info.loss == loss,
    {
        TrainingInfo {
            hyper_params: self.hyper_params,
            num_epochs_used: self.epoch,
            num_iterations_used: self.iteration,
            loss,
        }
    }
}

/// Law: mini-batch gradient descent on the strictly convex synthetic loss
/// `L(w) = (w - c)^2` — linear regression reduced to a single weight with no
/// activation — never increases the loss when the exact learning rate `a / b`
/// is at most 1. One update step moves `w` to `w - (a/b) * L'(w)` with
/// `L'(w) = 2 * (w - c)`; scaling by the denominator `b` makes every quantity
/// an integer: the scaled distance to the optimum `d = b * (w - c)` becomes
/// `(b - 2*a) * (w - c)`, and the scaled loss (the square of that distance)
/// does not grow. Applied step after step, the loss sequence is
/// non-increasing.
pub proof fn lemma_mbgd_step_non_increasing(w: int, c: int, a: int, b: int)
    requires
        0 < a <= b,
    ensures
        ((b - 2 * a) * (w - c)) * ((b - 2 * a) * (w - c)) <= (b * (w - c)) * (b * (w - c)),
{
    assert(((b - 2 * a) * (w - c)) * ((b - 2 * a) * (w - c)) <= (b * (w - c)) * (b * (w - c)))
        by (nonlinear_arith)
        requires
            0 < a <= b,
    ;
}

/// How a stop reason surfaces to the caller of the train capability:
/// convergence and the epoch cap are successful outcomes, divergence is the
/// `DivergedTraining` error.
pub fn stop_error(reason: StopReason) -> (r: Option<NNError>)
    ensures
        reason == StopReason::Diverged ==> r == Some(NNError::DivergedTraining),
        reason != StopReason::Diverged ==> r is None,
{
    match reason {
        StopReason::Diverged => Some(NNError::DivergedTraining),
        _ => None,
    }
}

/// Assembles the model of a successful run: the trained layer stack's
/// structure plus the run's bookkeeping.
pub fn build_model<R: RandomInitializer>(
    arch: &NeuralNetworkArchitecture<R>,
    info: TrainingInfo,
) -> (m: NNModel)
    ensures
        m.num_features == arch.num_features,
        m.num_classes == arch.num_classes,
        m.layers@ == arch.layers@,
        m.training_info == Some(info),
{
    let mut layers = Vec::new();
    let n: usize = arch.layers.len();
    let mut i: usize = 0;
    while i < n
        invariant
            n == arch.layers@.len(),
            i <= n,
            layers@.len() == i,
            forall|j: int| 0 <= j < i ==> layers@[j] == arch.layers@[j],
        decreases n - i,
    {
        layers.push(arch.layers[i]);
        i = i + 1;
    }
    proof {
        assert(layers@ =~= arch.layers@);
    }
    NNModel {
        num_features: arch.num_features,
        num_classes: arch.num_classes,
        layers,
        training_info: Some(info),
    }
}

} // verus!
