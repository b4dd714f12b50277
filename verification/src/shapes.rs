use vstd::prelude::*;

use crate::defs::{LayerDefinition, NNError, NeuralNetworkArchitecture, RandomInitializer};

verus! {

/// Whether `shape` is the weight-matrix shape (rows, columns) of layer `i`:
/// rows are the layer's own output width, columns the width of what feeds it.
pub open spec fn spec_is_layer_shape(shape: (usize, usize), num_features: int, layers: Seq<LayerDefinition>, i: int) -> bool {
    &&& shape.0 == layers[i].num_activations
    &&& shape.1 == if i == 0 {
        num_features
    } else {
        layers[i - 1].num_activations as int
    }
}

/// The width of the data after the first `upto` layers have been applied to
/// input of width `w`: each affine transform `W (r x c) * x (c)` yields width
/// `r`, provided the columns of `W` agree with the incoming width.
pub open spec fn spec_width_after(w: int, shapes: Seq<(usize, usize)>, upto: int) -> int
    decreases upto,
{
    if upto <= 0 {
        w
    } else {
        shapes[upto - 1].0 as int
    }
}

/// Every shape in the chain consumes exactly the width its predecessor
/// produces.
pub open spec fn spec_chained(w: int, shapes: Seq<(usize, usize)>) -> bool {
    forall|i: int| 0 <= i < shapes.len()
        ==> (#[trigger] shapes[i]).1 == spec_width_after(w, shapes, i)
}

/// Computes the weight-matrix shapes of every layer of an architecture.
///
/// The result chains: the first layer consumes `num_features` columns, every
/// later layer consumes exactly the width its predecessor produces, and each
/// layer produces its declared `num_activations`.
pub fn layer_shapes<R: RandomInitializer>(arch: &NeuralNetworkArchitecture<R>) -> (shapes: Vec<(usize, usize)>)
    ensures
        shapes@.len() == arch.layers@.len(),
        forall|i: int| 0 <= i < shapes@.len()
            ==> spec_is_layer_shape(#[trigger] shapes@[i], arch.num_features as int, arch.layers@, i),
        spec_chained(arch.num_features as int, shapes@),
{
    let mut shapes: Vec<(usize, usize)> = Vec::new();
    let n: usize = arch.layers.len();
    let mut i: usize = 0;
    while i < n
        invariant
            n == arch.layers@.len(),
            i <= n,
            shapes@.len() == i,
            forall|j: int| 0 <= j < i
                ==> spec_is_layer_shape(#[trigger] shapes@[j], arch.num_features as int, arch.layers@, j),
        decreases n - i,
    {
        let rows: usize = arch.layers[i].num_activations;
        let cols: usize = if i == 0 {
            arch.num_features
        } else {
            arch.layers[i - 1].num_activations
        };
        shapes.push((rows, cols));
        i = i + 1;
    }
    proof {
        assert forall|j: int| 0 <= j < shapes@.len()
            implies (#[trigger] shapes@[j]).1 == spec_width_after(arch.num_features as int, shapes@, j)
        by {
        }
    }
    shapes
}

/// The width of the output of forward propagation at the shape level: each
/// layer's affine transform `W (r x c) * x (c)` is defined only when `c`
/// equals the incoming width, in which case it produces width `r`. `None`
/// stands for a dimension mismatch somewhere in the stack.
pub open spec fn spec_forward_width(w: int, shapes: Seq<(usize, usize)>) -> Option<int>
    decreases shapes.len(),
{
    if shapes.len() == 0 {
        Some(w)
    } else {
        match spec_forward_width(w, shapes.drop_last()) {
            Some(v) => if shapes.last().1 == v {
                Some(shapes.last().0 as int)
            } else {
                None
            },
            None => None,
        }
    }
}

/// Law: on a chained shape sequence, forward propagation is defined and its
/// output width is exactly the final layer's declared output width, for any
/// batch size, since the width of a matrix batch does not depend on how many
/// example columns it carries.
pub proof fn lemma_forward_output_width(w: int, shapes: Seq<(usize, usize)>)
    requires
        spec_chained(w, shapes),
        shapes.len() > 0,
    ensures
        spec_forward_width(w, shapes) == Some(shapes[shapes.len() - 1].0 as int),
    decreases shapes.len(),
{
    let prefix = shapes.drop_last();
    assert(spec_chained(w, prefix)) by {
        assert forall|i: int| 0 <= i < prefix.len()
            implies (#[trigger] prefix[i]).1 == spec_width_after(w, prefix, i)
        by {
            assert(shapes[i].1 == spec_width_after(w, shapes, i));
        }
    }
    if shapes.len() == 1 {
        assert(shapes[0].1 == spec_width_after(w, shapes, 0));
    } else {
        lemma_forward_output_width(w, prefix);
        assert(shapes[shapes.len() - 1].1 == spec_width_after(w, shapes, shapes.len() - 1));
    }
}

/// Checks an architecture for internal consistency: at least one layer, a
/// positive input width, positive layer widths, and a final layer that
/// produces exactly `num_classes` outputs. Returns `ShapeMismatch` exactly
/// when one of these fails.
pub open spec fn spec_architecture_valid<R: RandomInitializer>(arch: NeuralNetworkArchitecture<R>) -> bool {
    &&& arch.layers@.len() > 0
    &&& arch.num_features > 0
    &&& arch.num_classes > 0
    &&& (forall|i: int| 0 <= i < arch.layers@.len() ==> (#[trigger] arch.layers@[i]).num_activations > 0)
    &&& arch.layers@[arch.layers@.len() - 1].num_activations == arch.num_classes
}

pub fn validate_architecture<R: RandomInitializer>(arch: &NeuralNetworkArchitecture<R>) -> (r: Result<(), NNError>)
    ensures
        r matches Ok(()) <==> spec_architecture_valid(*arch),
        r matches Err(e) ==> e == NNError::ShapeMismatch,
{
    let n: usize = arch.layers.len();
    if n == 0 || arch.num_features == 0 || arch.num_classes == 0 {
        return Err(NNError::ShapeMismatch);
    }
    let mut i: usize = 0;
    while i < n
        invariant
            n == arch.layers@.len(),
            i <= n,
            forall|j: int| 0 <= j < i ==> (#[trigger] arch.layers@[j]).num_activations > 0,
        decreases n - i,
    {
        if arch.layers[i].num_activations == 0 {
            return Err(NNError::ShapeMismatch);
        }
        i = i + 1;
    }
    if arch.layers[n - 1].num_activations != arch.num_classes {
        return Err(NNError::ShapeMismatch);
    }
    Ok(())
}

/// Checks that a features/labels pair describes the same examples with the
/// widths the architecture expects: features carry `num_features` rows,
/// labels carry `num_classes` rows (one-hot), and both carry one column per
/// example. Returns `ShapeMismatch` exactly when one of these fails.
pub fn validate_data_shapes(
    features_rows: usize,
    features_cols: usize,
    labels_rows: usize,
    labels_cols: usize,
    num_features: usize,
    num_classes: usize,
) -> (r: Result<(), NNError>)
    ensures
        r matches Ok(()) <==> (features_cols == labels_cols && features_rows == num_features
            && labels_rows == num_classes),
        r matches Err(e) ==> e == NNError::ShapeMismatch,
{
    if features_cols == labels_cols && features_rows == num_features && labels_rows == num_classes {
        Ok(())
    } else {
        Err(NNError::ShapeMismatch)
    }
}

} // verus!
