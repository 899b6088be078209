use vstd::prelude::*;
use crate::lepton::input::{InputLevel, InputType};

verus! {

/// One binding of a descriptor set layout: its slot, its raw descriptor
/// type, and the raw stage flags that read it.
#[derive(PartialEq, Eq, Structural, Copy, Clone, Debug)]
pub struct LayoutBinding {
    pub binding: u32,
    pub descriptor_type: i32,
    pub stage_flags: u32,
}

/// The binding of input `input`, listed at position `i` of a shader's
/// inputs: it takes slot `i` (cut to 32 bits).
pub open spec fn binding_of(input: InputType, i: int) -> LayoutBinding {
    LayoutBinding {
        binding: i as u32,
        descriptor_type: input.descriptor_type_of(),
        stage_flags: input.stages_of(),
    }
}

/// The bindings of those of the first `n` inputs loaded at `level`, in the
/// order the inputs are listed.
pub open spec fn level_bindings(inputs: Seq<InputType>, level: InputLevel, n: nat) -> Seq<LayoutBinding>
    decreases n,
{
    if n == 0 {
        Seq::empty()
    } else {
        let before = level_bindings(inputs, level, (n - 1) as nat);
        if inputs[n - 1].level_of() == level {
            before.push(binding_of(inputs[n - 1], n - 1))
        } else {
            before
        }
    }
}

/// Splits a shader's inputs into the bindings of its shader-wide
/// descriptor set and those of its per-model set; each input takes the
/// slot of its position in the list.
pub fn split_bindings(inputs: &[InputType]) -> (r: (Vec<LayoutBinding>, Vec<LayoutBinding>))
    ensures
        r.0@ == level_bindings(inputs@, InputLevel::Shader, inputs@.len()),
        r.1@ == level_bindings(inputs@, InputLevel::Model, inputs@.len()),
{
    let mut shader: Vec<LayoutBinding> = Vec::new();
    let mut model: Vec<LayoutBinding> = Vec::new();
    let mut i: usize = 0;
    while i < inputs.len()
        invariant
            i <= inputs@.len(),
            shader@ == level_bindings(inputs@, InputLevel::Shader, i as nat),
            model@ == level_bindings(inputs@, InputLevel::Model, i as nat),
        decreases inputs@.len() - i,
    {
        let input = &inputs[i];
        let binding = LayoutBinding {
            binding: #[verifier::truncate] (i as u32),
            descriptor_type: input.get_descriptor_type(),
            stage_flags: input.get_stages(),
        };
        match input.get_level() {
            InputLevel::Shader => shader.push(binding),
            InputLevel::Model => model.push(binding),
        }
        i = i + 1;
    }
    (shader, model)
}

/// The set number a model's descriptor set is bound at: after the
/// shader-wide set when the shader has one (it has one when some input is
/// loaded with the shader), else first.
pub fn model_set_index(shader_bindings: &Vec<LayoutBinding>) -> (r: u32)
    ensures
        r == (if shader_bindings@.len() == 0 { 0u32 } else { 1u32 }),
{
    if shader_bindings.len() == 0 {
        0
    } else {
        1
    }
}

/// Every input lands in exactly one of the two sets: the two lists hold
/// as many bindings as there are inputs, and slot `i` is the binding of
/// input `i` in the set of its level.
pub proof fn lemma_bindings_partition(inputs: Seq<InputType>, n: nat)
    requires
        n <= inputs.len(),
    ensures
        level_bindings(inputs, InputLevel::Shader, n).len() + level_bindings(inputs, InputLevel::Model, n).len()
            == n,
        forall|i: int|
            0 <= i < n ==> #[trigger] level_bindings(inputs, inputs[i].level_of(), n).contains(
                binding_of(inputs[i], i),
            ),
    decreases n,
{
    if n > 0 {
        let m = (n - 1) as nat;
        lemma_bindings_partition(inputs, m);
        assert forall|i: int| 0 <= i < n implies #[trigger] level_bindings(inputs, inputs[i].level_of(), n).contains(
            binding_of(inputs[i], i),
        ) by {
            let level = inputs[i].level_of();
            let before = level_bindings(inputs, level, m);
            if i < m {
                assert(before.contains(binding_of(inputs[i], i)));
                let k = choose|k: int| 0 <= k < before.len() && before[k] == binding_of(inputs[i], i);
                if inputs[m as int].level_of() == level {
                    assert(before.push(binding_of(inputs[m as int], m as int))[k] == binding_of(inputs[i], i));
                }
            } else {
                let after = before.push(binding_of(inputs[i], i));
                assert(after[before.len() as int] == binding_of(inputs[i], i));
            }
        }
    }
}

} // verus!
