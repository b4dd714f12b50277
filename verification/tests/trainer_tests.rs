use neunet::defs::{
    ActivationType, HeUniform, HyperParams, LayerDefinition, NNError, NeuralNetworkArchitecture,
    OptimizationType, StopReason,
};
use neunet::ratio::Ratio;
use neunet::shapes::{layer_shapes, validate_architecture};
use neunet::trainer::{build_model, stop_error, validate_hyper_params, TrainerAction, TrainingRun};

fn small_hp() -> HyperParams {
    HyperParams {
        max_accuracy_threshold: Ratio { num: 95, den: 100 },
        max_epochs: 2,
        momentum_beta: Ratio { num: 9, den: 10 },
        rms_prop_beta: Ratio { num: 999, den: 1000 },
        mini_batch_size: 4,
        learning_rate: Ratio { num: 1, den: 100 },
        optimization_type: OptimizationType::MBGD,
        l2_regularization: None,
    }
}

#[test]
fn default_hyper_params_values() {
    let hp = HyperParams::default();
    assert_eq!(hp.max_accuracy_threshold, Ratio { num: 95, den: 100 });
    assert_eq!(hp.max_epochs, 3);
    assert_eq!(hp.momentum_beta, Ratio { num: 9, den: 10 });
    assert_eq!(hp.rms_prop_beta, Ratio { num: 999, den: 1000 });
    assert_eq!(hp.mini_batch_size, 200);
    assert_eq!(hp.learning_rate, Ratio { num: 1, den: 100 });
    assert_eq!(hp.optimization_type, OptimizationType::Adam);
    assert!(hp.l2_regularization.is_none());
}

#[test]
fn hyper_params_validation_accepts_defaults() {
    let hp = HyperParams::default();
    assert_eq!(validate_hyper_params(&hp, 1000), Ok(()));
}

#[test]
fn zero_mini_batch_size_is_invalid() {
    let mut hp = small_hp();
    hp.mini_batch_size = 0;
    assert_eq!(validate_hyper_params(&hp, 10), Err(NNError::InvalidHyperParameters));
}

#[test]
fn mini_batch_larger_than_data_is_invalid() {
    let hp = small_hp();
    assert_eq!(validate_hyper_params(&hp, 3), Err(NNError::InvalidHyperParameters));
}

#[test]
fn non_positive_learning_rate_is_invalid() {
    let mut hp = small_hp();
    hp.learning_rate = Ratio { num: 0, den: 100 };
    assert_eq!(validate_hyper_params(&hp, 10), Err(NNError::InvalidHyperParameters));
    hp.learning_rate = Ratio { num: -1, den: 100 };
    assert_eq!(validate_hyper_params(&hp, 10), Err(NNError::InvalidHyperParameters));
}

#[test]
fn beta_outside_open_unit_interval_is_invalid() {
    let mut hp = small_hp();
    hp.momentum_beta = Ratio { num: 10, den: 10 };
    assert_eq!(validate_hyper_params(&hp, 10), Err(NNError::InvalidHyperParameters));
    let mut hp2 = small_hp();
    hp2.rms_prop_beta = Ratio { num: 0, den: 10 };
    assert_eq!(validate_hyper_params(&hp2, 10), Err(NNError::InvalidHyperParameters));
}

#[test]
fn negative_l2_coefficient_is_invalid() {
    let mut hp = small_hp();
    hp.l2_regularization = Some(Ratio { num: -1, den: 10 });
    assert_eq!(validate_hyper_params(&hp, 10), Err(NNError::InvalidHyperParameters));
    hp.l2_regularization = Some(Ratio { num: 1, den: 10 });
    assert_eq!(validate_hyper_params(&hp, 10), Ok(()));
}

#[test]
fn batch_schedule_tiles_the_epoch() {
    let mut run = TrainingRun::new(&small_hp(), 10).unwrap();
    // first epoch: 4 + 4 + 2 examples
    assert_eq!(run.next_action(), TrainerAction::RunBatch { start: 0, size: 4 });
    run.on_batch_done();
    assert_eq!(run.next_action(), TrainerAction::RunBatch { start: 4, size: 4 });
    run.on_batch_done();
    assert_eq!(run.next_action(), TrainerAction::RunBatch { start: 8, size: 2 });
    run.on_batch_done();
    assert_eq!(run.next_action(), TrainerAction::Evaluate);
    assert_eq!(run.iteration, 3);
    assert_eq!(run.epoch, 0);
}

#[test]
fn run_stops_at_epoch_cap() {
    let mut run = TrainingRun::new(&small_hp(), 10).unwrap();
    let mut guard: u32 = 0;
    loop {
        match run.next_action() {
            TrainerAction::RunBatch { .. } => run.on_batch_done(),
            TrainerAction::Evaluate => run.on_evaluation(1, 10),
            TrainerAction::Stop(reason) => {
                assert_eq!(reason, StopReason::MaxEpochsReached);
                break;
            }
        }
        guard += 1;
        assert!(guard < 100);
    }
    assert_eq!(run.epoch, 2);
    assert_eq!(run.iteration, 6);
}

#[test]
fn run_converges_on_threshold() {
    let mut hp = small_hp();
    hp.max_accuracy_threshold = Ratio { num: 1, den: 2 };
    let mut run = TrainingRun::new(&hp, 8).unwrap();
    run.on_batch_done();
    run.on_batch_done();
    assert_eq!(run.next_action(), TrainerAction::Evaluate);
    // 6/10 >= 1/2: converged after the first epoch
    run.on_evaluation(6, 10);
    assert_eq!(run.next_action(), TrainerAction::Stop(StopReason::Converged));
    assert_eq!(run.epoch, 1);
}

#[test]
fn exact_threshold_comparison_has_no_rounding() {
    let mut hp = small_hp();
    hp.max_accuracy_threshold = Ratio { num: 1, den: 3 };
    let mut run = TrainingRun::new(&hp, 4).unwrap();
    run.on_batch_done();
    // 33333/100000 < 1/3: not converged, even though the decimals agree to
    // four places
    run.on_evaluation(33333, 100000);
    assert!(run.stopped.is_none());
    run.on_batch_done();
    // 33334/100000 >= 1/3: converged
    run.on_evaluation(33334, 100000);
    assert_eq!(run.next_action(), TrainerAction::Stop(StopReason::Converged));
}

#[test]
fn zero_epoch_cap_stops_before_any_work() {
    let mut hp = small_hp();
    hp.max_epochs = 0;
    let run = TrainingRun::new(&hp, 10).unwrap();
    assert_eq!(run.next_action(), TrainerAction::Stop(StopReason::MaxEpochsReached));
}

#[test]
fn divergence_aborts_the_run() {
    let mut run = TrainingRun::new(&small_hp(), 10).unwrap();
    run.on_batch_done();
    run.on_divergence();
    assert_eq!(run.next_action(), TrainerAction::Stop(StopReason::Diverged));
    assert_eq!(stop_error(StopReason::Diverged), Some(NNError::DivergedTraining));
    assert_eq!(stop_error(StopReason::Converged), None);
    assert_eq!(stop_error(StopReason::MaxEpochsReached), None);
}

#[test]
fn two_layer_training_scenario() {
    // 4 input features -> 3 hidden ReLU units -> 2 softmax output classes
    let arch = NeuralNetworkArchitecture {
        num_features: 4,
        num_classes: 2,
        layers: vec![
            LayerDefinition { activation_type: ActivationType::Relu, num_activations: 3 },
            LayerDefinition { activation_type: ActivationType::SoftMax, num_activations: 2 },
        ],
        rand_initializer: HeUniform,
    };
    assert_eq!(validate_architecture(&arch), Ok(()));
    assert_eq!(layer_shapes(&arch), vec![(3, 4), (2, 3)]);

    let hp = HyperParams {
        max_accuracy_threshold: Ratio { num: 95, den: 100 },
        max_epochs: 5,
        momentum_beta: Ratio { num: 9, den: 10 },
        rms_prop_beta: Ratio { num: 999, den: 1000 },
        mini_batch_size: 4,
        learning_rate: Ratio { num: 1, den: 10 },
        optimization_type: OptimizationType::Adam,
        l2_regularization: None,
    };
    let mut run = TrainingRun::new(&hp, 8).unwrap();
    let mut guard: u32 = 0;
    let reason = loop {
        match run.next_action() {
            TrainerAction::RunBatch { start, size } => {
                assert!(size >= 1 && size <= 4);
                assert!(start + size <= 8);
                run.on_batch_done();
            }
            TrainerAction::Evaluate => run.on_evaluation(4, 8),
            TrainerAction::Stop(reason) => break reason,
        }
        guard += 1;
        assert!(guard < 100);
    };
    assert_eq!(reason, StopReason::MaxEpochsReached);
    assert!(run.epoch <= 5);
    assert_eq!(stop_error(reason), None);
    let info = run.training_info(Ratio { num: 42, den: 1000 });
    let model = build_model(&arch, info);
    assert_eq!(model.num_features, 4);
    assert_eq!(model.num_classes, 2);
    assert_eq!(model.layers.len(), 2);
    let info = model.training_info.unwrap();
    assert_eq!(info.num_epochs_used, 5);
    assert_eq!(info.num_iterations_used, 10);
}

#[test]
fn invalid_hyper_params_refuse_to_start() {
    let mut hp = small_hp();
    hp.learning_rate = Ratio { num: 0, den: 1 };
    assert!(matches!(TrainingRun::new(&hp, 10), Err(NNError::InvalidHyperParameters)));
}
