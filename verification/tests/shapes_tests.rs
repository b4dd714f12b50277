use neunet::defs::{
    ActivationType, HeUniform, LayerDefinition, NNError, NeuralNetworkArchitecture, TrainingInfo,
    TrainingMessage,
};
use neunet::defs::HyperParams;
use neunet::ratio::Ratio;
use neunet::shapes::{layer_shapes, validate_architecture, validate_data_shapes};
use neunet::trainer::build_model;

fn two_layer_arch() -> NeuralNetworkArchitecture<HeUniform> {
    NeuralNetworkArchitecture {
        num_features: 4,
        num_classes: 2,
        layers: vec![
            LayerDefinition { activation_type: ActivationType::Relu, num_activations: 3 },
            LayerDefinition { activation_type: ActivationType::SoftMax, num_activations: 2 },
        ],
        rand_initializer: HeUniform,
    }
}

#[test]
fn layer_shapes_chain_through_the_stack() {
    let arch = two_layer_arch();
    let shapes = layer_shapes(&arch);
    // 4 input features -> 3 hidden units -> 2 output classes
    assert_eq!(shapes, vec![(3, 4), (2, 3)]);
}

#[test]
fn layer_shapes_single_layer() {
    let arch = NeuralNetworkArchitecture {
        num_features: 7,
        num_classes: 5,
        layers: vec![
            LayerDefinition { activation_type: ActivationType::Sigmoid, num_activations: 5 },
        ],
        rand_initializer: HeUniform,
    };
    assert_eq!(layer_shapes(&arch), vec![(5, 7)]);
}

#[test]
fn architecture_validation_accepts_consistent_stack() {
    assert_eq!(validate_architecture(&two_layer_arch()), Ok(()));
}

#[test]
fn architecture_without_layers_is_rejected() {
    let mut arch = two_layer_arch();
    arch.layers = vec![];
    assert_eq!(validate_architecture(&arch), Err(NNError::ShapeMismatch));
}

#[test]
fn architecture_with_wrong_output_width_is_rejected() {
    let mut arch = two_layer_arch();
    arch.num_classes = 3;
    assert_eq!(validate_architecture(&arch), Err(NNError::ShapeMismatch));
}

#[test]
fn architecture_with_zero_width_layer_is_rejected() {
    let mut arch = two_layer_arch();
    arch.layers[0].num_activations = 0;
    assert_eq!(validate_architecture(&arch), Err(NNError::ShapeMismatch));
}

#[test]
fn data_shape_validation() {
    // 4 features, 2 one-hot label rows, 10 examples on both sides
    assert_eq!(validate_data_shapes(4, 10, 2, 10, 4, 2), Ok(()));
    // column counts differ: not the same examples
    assert_eq!(validate_data_shapes(4, 10, 2, 9, 4, 2), Err(NNError::ShapeMismatch));
    // feature rows do not match the declared input width
    assert_eq!(validate_data_shapes(5, 10, 2, 10, 4, 2), Err(NNError::ShapeMismatch));
}

#[test]
fn model_carries_architecture_and_training_info() {
    let arch = two_layer_arch();
    let info = TrainingInfo {
        hyper_params: HyperParams::default(),
        num_epochs_used: 5,
        num_iterations_used: 10,
        loss: Ratio { num: 3, den: 100 },
    };
    let model = build_model(&arch, info);
    assert_eq!(model.num_features, 4);
    assert_eq!(model.num_classes, 2);
    assert_eq!(model.layers.len(), 2);
    assert_eq!(model.layers[1].num_activations, 2);
    let stored = model.training_info.unwrap();
    assert_eq!(stored.num_epochs_used, 5);
    assert_eq!(stored.loss, Ratio { num: 3, den: 100 });
}

#[test]
fn default_training_message_is_empty() {
    let msg = TrainingMessage::default();
    assert_eq!(msg.message, "");
    assert_eq!(msg.iteration, 0);
    assert_eq!(msg.epoch, 0);
    assert_eq!(msg.batch_start, 0);
    assert!(msg.metrics.is_none());
}
