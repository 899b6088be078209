use vstd::prelude::*;

verus! {

/// The ASCII bytes of "outside".
pub const OUTSIDE: [u8; 7] = [111, 117, 116, 115, 105, 100, 101];

/// The ASCII bytes of "inside".
pub const INSIDE: [u8; 6] = [105, 110, 115, 105, 100, 101];

/// The ASCII bytes of "transparent".
pub const TRANSPARENT: [u8; 11] = [116, 114, 97, 110, 115, 112, 97, 114, 101, 110, 116];

/// The part a ship model plays, by the prefix of its name.
#[derive(PartialEq, Eq, Structural, Copy, Clone, Debug)]
pub enum ModelRole {
    /// The hull seen from outside.
    Outside,
    /// The cabin seen from inside.
    Inside,
    /// A see-through model, drawn after the others.
    Transparent,
    /// Not drawn.
    Other,
}

/// Whether `name` starts with `prefix`.
pub open spec fn has_prefix(name: Seq<u8>, prefix: Seq<u8>) -> bool {
    prefix.len() <= name.len() && name.subrange(0, prefix.len() as int) == prefix
}

/// The role of a model named `name`: "outside" is looked for first, then
/// "inside", then "transparent".
pub open spec fn spec_role(name: Seq<u8>) -> ModelRole {
    if has_prefix(name, OUTSIDE@) {
        ModelRole::Outside
    } else if has_prefix(name, INSIDE@) {
        ModelRole::Inside
    } else if has_prefix(name, TRANSPARENT@) {
        ModelRole::Transparent
    } else {
        ModelRole::Other
    }
}

fn starts_with(name: &[u8], prefix: &[u8]) -> (r: bool)
    ensures
        r == has_prefix(name@, prefix@),
{
    if prefix.len() > name.len() {
        return false;
    }
    let mut i: usize = 0;
    while i < prefix.len()
        invariant
            prefix@.len() <= name@.len(),
            i <= prefix@.len(),
            forall|j: int| 0 <= j < i ==> name@[j] == prefix@[j],
        decreases prefix@.len() - i,
    {
        if name[i] != prefix[i] {
            assert(name@.subrange(0, prefix@.len() as int)[i as int] != prefix@[i as int]);
            return false;
        }
        i = i + 1;
    }
    assert(name@.subrange(0, prefix@.len() as int) =~= prefix@);
    true
}

/// The role a model plays in drawing its ship, by its name.
pub fn model_role(name: &str) -> (r: ModelRole)
    ensures
        r == spec_role(vstd::string::StringSliceAdditionalSpecFns::spec_bytes(name)),
{
    let bytes = name.as_bytes();
    if starts_with(bytes, OUTSIDE.as_slice()) {
        ModelRole::Outside
    } else if starts_with(bytes, INSIDE.as_slice()) {
        ModelRole::Inside
    } else if starts_with(bytes, TRANSPARENT.as_slice()) {
        ModelRole::Transparent
    } else {
        ModelRole::Other
    }
}

/// The last of the first `n` roles that is `role`, if any.
pub open spec fn last_with_role(roles: Seq<ModelRole>, role: ModelRole, n: nat) -> Option<nat>
    decreases n,
{
    if n == 0 {
        None
    } else if roles[n - 1] == role {
        Some((n - 1) as nat)
    } else {
        last_with_role(roles, role, (n - 1) as nat)
    }
}

/// The positions among the first `n` roles that are transparent, in order.
pub open spec fn transparent_positions(roles: Seq<ModelRole>, n: nat) -> Seq<usize>
    decreases n,
{
    if n == 0 {
        Seq::empty()
    } else if roles[n - 1] == ModelRole::Transparent {
        transparent_positions(roles, (n - 1) as nat).push((n - 1) as usize)
    } else {
        transparent_positions(roles, (n - 1) as nat)
    }
}

/// The order in which a ship's models are drawn, as positions in the list
/// of models: the inside model, then the outside model (the last of each
/// when several share the role), then the transparent models in list
/// order. `None` when there is no inside or no outside model.
pub open spec fn spec_draw_order(roles: Seq<ModelRole>) -> Option<Seq<usize>> {
    match (last_with_role(roles, ModelRole::Inside, roles.len()), last_with_role(roles, ModelRole::Outside, roles.len())) {
        (Some(i), Some(o)) => Some(seq![i as usize, o as usize] + transparent_positions(roles, roles.len())),
        _ => None,
    }
}

/// Arranges a ship's models, given their roles in the order the models are
/// listed.
pub fn draw_order(roles: &[ModelRole]) -> (r: Option<Vec<usize>>)
    ensures
        match r {
            Some(v) => spec_draw_order(roles@) == Some(v@),
            None => spec_draw_order(roles@) is None,
        },
{
    let mut inside: Option<usize> = None;
    let mut outside: Option<usize> = None;
    let mut transparent: Vec<usize> = Vec::new();
    let mut i: usize = 0;
    while i < roles.len()
        invariant
            i <= roles@.len(),
            inside == (match last_with_role(roles@, ModelRole::Inside, i as nat) {
                Some(k) => Some(k as usize),
                None => None::<usize>,
            }),
            outside == (match last_with_role(roles@, ModelRole::Outside, i as nat) {
                Some(k) => Some(k as usize),
                None => None::<usize>,
            }),
            transparent@ == transparent_positions(roles@, i as nat),
        decreases roles@.len() - i,
    {
        match roles[i] {
            ModelRole::Outside => {
                outside = Some(i);
            },
            ModelRole::Inside => {
                inside = Some(i);
            },
            ModelRole::Transparent => {
                transparent.push(i);
            },
            ModelRole::Other => {},
        }
        i = i + 1;
    }
    match (inside, outside) {
        (Some(a), Some(b)) => {
            let mut order: Vec<usize> = Vec::new();
            order.push(a);
            order.push(b);
            let mut k: usize = 0;
            while k < transparent.len()
                invariant
                    k <= transparent@.len(),
                    order@ == seq![a, b] + transparent@.subrange(0, k as int),
                decreases transparent@.len() - k,
            {
                order.push(transparent[k]);
                k = k + 1;
                assert(order@ =~= seq![a, b] + transparent@.subrange(0, k as int));
            }
            assert(transparent@.subrange(0, transparent@.len() as int) =~= transparent@);
            Some(order)
        },
        _ => None,
    }
}

} // verus!
