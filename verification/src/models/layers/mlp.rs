//! Gated feed forward layers.

use super::distributed::{
    self, Comm, MergedParallelColumnLinear, TensorParallelColumnLinear, TensorParallelRowLinear,
};
use super::tensor::Shard;
use super::var_builder::VarBuilderX;
use crate::dtype::Dtype;
use crate::text;
use vstd::prelude::*;

verus! {

/// The activations of checkpoints.
#[derive(Debug, Clone, Copy, PartialEq, Eq, Structural)]
pub enum Activation {
    Silu,
    Gelu,
    NewGelu,
    /// Any other one.
    Other,
}

/// What the layer refuses.
#[derive(Debug, Clone, Copy, PartialEq, Eq, Structural)]
pub enum MlpError {
    /// A limited silu.
    SwigluLimit,
    /// An activation without a kernel.
    UnsupportedActivation,
    /// A packed projection that gave nothing.
    EmptyPacked,
    /// A packed projection that gave its gate part only.
    MissingUp,
}

/// How gating is done.
#[derive(Debug, Clone, Copy, PartialEq, Eq, Structural)]
pub enum ActivationKernel {
    /// The joined kernel, on rows of gate followed by up: the silu of gate, times up.
    SiluAndMul,
    /// The silu of gate, times up.
    SiluThenMul,
    /// The gelu of gate, times up.
    GeluThenMul,
}

/// A step of a forward pass.
#[derive(Debug, Clone, Copy, PartialEq, Eq, Structural)]
pub enum MlpStep {
    ProjectGate,
    ProjectUp,
    /// Both at once: gate is the first output, up the second one.
    ProjectGateUp,
    Activate(ActivationKernel),
    ProjectDown,
}

/// The first projections.
pub enum GateUpProjection {
    Separate { gate_proj: TensorParallelColumnLinear, up_proj: TensorParallelColumnLinear },
    /// Gate and up are one group.
    Packed(MergedParallelColumnLinear),
}

/// A gated feed forward layer.
pub struct MLP {
    pub gate_up_proj: GateUpProjection,
    pub down_proj: TensorParallelRowLinear,
    pub activation: Activation,
    /// The limit of gating is finite; without a limit it is infinite.
    pub swiglu_limited: bool,
}

impl MLP {
    /// Its gate part stands in the layer itself, the up part below `up_proj`, both whole.
    pub open spec fn is_gate_up(
        gate: TensorParallelColumnLinear,
        up: TensorParallelColumnLinear,
        path: Seq<char>,
        hidden_size: usize,
        intermediate_size: usize,
        dtype: Dtype,
    ) -> bool {
        let whole = Shard { dim: 0, rank: 0, world_size: 0 };
        &&& gate.path@ == path
        &&& gate.inner.is_plain(hidden_size, intermediate_size, whole, dtype, false)
        &&& up.path@ == text::dotted(path, "up_proj"@)
        &&& up.inner.is_plain(hidden_size, intermediate_size, whole, dtype, false)
    }

    /// Whether this is the unlimited layer of the module `path`: unsplit and without
    /// bias, with the last projection below `down_proj`.
    pub open spec fn follows(
        &self,
        path: Seq<char>,
        comm: &Comm,
        hidden_size: usize,
        intermediate_size: usize,
        activation: Activation,
        gate_up_merged: bool,
        dtype: Dtype,
    ) -> bool {
        &&& match self.gate_up_proj {
            GateUpProjection::Separate { gate_proj, up_proj } => !gate_up_merged && MLP::is_gate_up(
                gate_proj,
                up_proj,
                path,
                hidden_size,
                intermediate_size,
                dtype,
            ),
            GateUpProjection::Packed(group) => gate_up_merged && group.linears@.len() == 2
                && MLP::is_gate_up(
                group.linears@[0],
                group.linears@[1],
                path,
                hidden_size,
                intermediate_size,
                dtype,
            ),
        }
        &&& self.down_proj.path@ == text::dotted(path, "down_proj"@)
        &&& self.down_proj.inner.is_plain(
            intermediate_size,
            hidden_size,
            (Shard { dim: 0, rank: 0, world_size: 0 }),
            dtype,
            false,
        )
        &&& self.down_proj.comm == *comm
        &&& self.activation == activation
        &&& !self.swiglu_limited
    }

    /// The projections of a layer.
    pub fn new(
        vb: &VarBuilderX,
        comm: &Comm,
        hidden_size: usize,
        intermediate_size: usize,
        activation: Activation,
        quant_method: Option<&str>,
        skip_module: bool,
        gate_up_merged: bool,
        dtype: Dtype,
    ) -> (r: Self)
        requires
            distributed::is_dense(vb, quant_method, skip_module),
        ensures
            r.follows(
                vb.path@,
                comm,
                hidden_size,
                intermediate_size,
                activation,
                gate_up_merged,
                dtype,
            ),
    {
        let whole: Shard = Shard { dim: 0, rank: 0, world_size: 0 };
        let gate_proj: TensorParallelColumnLinear = TensorParallelColumnLinear::new_loaded(
            hidden_size,
            intermediate_size,
            vb,
            whole,
            quant_method,
            skip_module,
            dtype,
            false,
        );
        let up_vb: VarBuilderX = vb.pp("up_proj");
        let up_proj: TensorParallelColumnLinear = TensorParallelColumnLinear::new_loaded(
            hidden_size,
            intermediate_size,
            &up_vb,
            whole,
            quant_method,
            skip_module,
            dtype,
            false,
        );
        let gate_up_proj: GateUpProjection = if gate_up_merged {
            let mut parts: Vec<TensorParallelColumnLinear> = Vec::new();
            parts.push(gate_proj);
            parts.push(up_proj);
            GateUpProjection::Packed(MergedParallelColumnLinear::new(parts))
        } else {
            GateUpProjection::Separate { gate_proj, up_proj }
        };
        let down_vb: VarBuilderX = vb.pp("down_proj");
        let down_proj: TensorParallelRowLinear = TensorParallelRowLinear::new_with_bias(
            intermediate_size,
            hidden_size,
            false,
            &down_vb,
            whole,
            quant_method,
            skip_module,
            dtype,
            comm,
        );
        MLP { gate_up_proj, down_proj, activation, swiglu_limited: false }
    }

    /// The same layer with another limit of gating.
    pub fn with_swiglu_limit(self, limit_is_finite: bool) -> (r: Self)
        ensures
            r.gate_up_proj == self.gate_up_proj,
            r.down_proj == self.down_proj,
            r.activation == self.activation,
            r.swiglu_limited == limit_is_finite,
    {
        MLP {
            gate_up_proj: self.gate_up_proj,
            down_proj: self.down_proj,
            activation: self.activation,
            swiglu_limited: limit_is_finite,
        }
    }

    /// The kernel of the activation, or why there is none.
    pub open spec fn activation_answer(&self) -> Result<ActivationKernel, MlpError> {
        match self.activation {
            Activation::Silu => if self.swiglu_limited {
                Err(MlpError::SwigluLimit)
            } else {
                Ok(ActivationKernel::SiluAndMul)
            },
            Activation::Gelu => Ok(ActivationKernel::GeluThenMul),
            Activation::NewGelu => Ok(ActivationKernel::GeluThenMul),
            Activation::Other => Err(MlpError::UnsupportedActivation),
        }
    }

    /// Why a forward pass is refused: a packed projection that gave too few outputs
    /// comes before an activation without a kernel.
    pub open spec fn forward_refusal(&self, outputs: usize) -> Option<MlpError> {
        if self.gate_up_proj is Packed && outputs == 0 {
            Some(MlpError::EmptyPacked)
        } else if self.gate_up_proj is Packed && outputs == 1 {
            Some(MlpError::MissingUp)
        } else {
            match self.activation_answer() {
                Err(e) => Some(e),
                Ok(_) => None,
            }
        }
    }

    /// The steps of a forward pass, in order.
    pub open spec fn forward_steps(&self) -> Seq<MlpStep> {
        let rest = seq![MlpStep::Activate(self.activation_answer()->Ok_0), MlpStep::ProjectDown];
        if self.gate_up_proj is Packed {
            seq![MlpStep::ProjectGateUp] + rest
        } else {
            seq![MlpStep::ProjectGate, MlpStep::ProjectUp] + rest
        }
    }

    /// Plans a forward pass. `outputs` is how many tensors a packed projection gives.
    pub fn forward(&self, outputs: usize) -> (r: Result<Vec<MlpStep>, MlpError>)
        ensures
            match r {
                Ok(steps) => self.forward_refusal(outputs) is None && steps@
                    == self.forward_steps(),
                Err(e) => self.forward_refusal(outputs) == Some(e),
            },
    {
        let mut steps: Vec<MlpStep> = Vec::new();
        match &self.gate_up_proj {
            GateUpProjection::Packed(_) => {
                if outputs == 0 {
                    return Err(MlpError::EmptyPacked);
                }
                if outputs == 1 {
                    return Err(MlpError::MissingUp);
                }
                steps.push(MlpStep::ProjectGateUp);
            },
            GateUpProjection::Separate { .. } => {
                steps.push(MlpStep::ProjectGate);
                steps.push(MlpStep::ProjectUp);
            },
        }
        match self.apply_activation() {
            Ok(kernel) => {
                steps.push(MlpStep::Activate(kernel));
            },
            Err(e) => {
                return Err(e);
            },
        }
        steps.push(MlpStep::ProjectDown);
        assert(steps@ =~= self.forward_steps());
        Ok(steps)
    }

    /// The kernel of the activation.
    pub fn apply_activation(&self) -> (r: Result<ActivationKernel, MlpError>)
        ensures
            r == self.activation_answer(),
    {
        match self.activation {
            Activation::Silu => {
                if self.swiglu_limited {
                    Err(MlpError::SwigluLimit)
                } else {
                    Ok(ActivationKernel::SiluAndMul)
                }
            },
            Activation::Gelu => Ok(ActivationKernel::GeluThenMul),
            Activation::NewGelu => Ok(ActivationKernel::GeluThenMul),
            Activation::Other => Err(MlpError::UnsupportedActivation),
        }
    }
}

/// A packed projection gives a gate part and an up part, in this order; further
/// parts are not looked at.
pub fn gate_and_up<T>(parts: Vec<T>) -> (r: Result<(T, T), MlpError>)
    ensures
        parts@.len() == 0 ==> r == Err::<(T, T), MlpError>(MlpError::EmptyPacked),
        parts@.len() == 1 ==> r == Err::<(T, T), MlpError>(MlpError::MissingUp),
        parts@.len() >= 2 ==> r == Ok::<(T, T), MlpError>((parts@[0], parts@[1])),
{
    let mut parts: Vec<T> = parts;
    if parts.len() == 0 {
        return Err(MlpError::EmptyPacked);
    }
    let gate: T = parts.remove(0);
    if parts.len() == 0 {
        return Err(MlpError::MissingUp);
    }
    let up: T = parts.remove(0);
    Ok((gate, up))
}

/// A feed forward layer with whole matrices. `T` is the tensor handle of the
/// device.
pub struct NaiveMLP<T> {
    pub gate_proj: T,
    pub up_proj: T,
    pub down_proj: T,
    pub activation: Activation,
}

impl<T> NaiveMLP<T> {
    pub fn new(gate_proj: T, up_proj: T, down_proj: T, activation: Activation) -> (r: Self)
        ensures
            r == (NaiveMLP { gate_proj, up_proj, down_proj, activation }),
    {
        NaiveMLP { gate_proj, up_proj, down_proj, activation }
    }

    /// The steps of a forward pass, in order. Gating is a silu or, with every other
    /// activation, a gelu.
    pub fn forward(&self) -> (r: Vec<MlpStep>)
        ensures
            r@ == seq![
                MlpStep::ProjectGate,
                MlpStep::ProjectUp,
                MlpStep::Activate(
                    if self.activation == Activation::Silu {
                        ActivationKernel::SiluThenMul
                    } else {
                        ActivationKernel::GeluThenMul
                    },
                ),
                MlpStep::ProjectDown,
            ],
    {
        let mut steps: Vec<MlpStep> = Vec::new();
        steps.push(MlpStep::ProjectGate);
        steps.push(MlpStep::ProjectUp);
        if self.activation == Activation::Silu {
            steps.push(MlpStep::Activate(ActivationKernel::SiluThenMul));
        } else {
            steps.push(MlpStep::Activate(ActivationKernel::GeluThenMul));
        }
        steps.push(MlpStep::ProjectDown);
        steps
    }
}

} // verus!
