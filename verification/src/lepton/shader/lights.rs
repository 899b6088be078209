use vstd::prelude::*;
use crate::lepton::physics::Object;

verus! {

/// How many lights a scene can hold (as many as the shaders declare).
pub const NUM_LIGHTS: usize = 2;

/// The first index at or after `from` where `slots` holds `value`, if any.
pub open spec fn first_index_from(slots: Seq<Option<Object>>, value: Option<Object>, from: nat) -> Option<nat>
    decreases slots.len() - from,
{
    if from >= slots.len() {
        None
    } else if slots[from as int] == value {
        Some(from)
    } else {
        first_index_from(slots, value, from + 1)
    }
}

/// The first index where `slots` holds `value`, if any.
pub open spec fn first_index(slots: Seq<Option<Object>>, value: Option<Object>) -> Option<nat> {
    first_index_from(slots, value, 0)
}

/// The slots after lighting `object`: it takes the first free slot.
pub open spec fn lit(slots: Seq<Option<Object>>, object: Object) -> Seq<Option<Object>> {
    match first_index(slots, None) {
        Some(i) => slots.update(i as int, Some(object)),
        None => slots,
    }
}

/// The slots after putting out `object`: its first slot becomes free.
pub open spec fn unlit(slots: Seq<Option<Object>>, object: Object) -> Seq<Option<Object>> {
    match first_index(slots, Some(object)) {
        Some(i) => slots.update(i as int, None),
        None => slots,
    }
}

/// How many slots are taken.
pub open spec fn taken(slots: Seq<Option<Object>>) -> nat
    decreases slots.len(),
{
    if slots.len() == 0 {
        0
    } else {
        taken(slots.drop_last()) + if slots.last() is Some { 1nat } else { 0nat }
    }
}

/// Which objects give off light: one slot per light of the scene.
pub struct LightSlots {
    object_indices: [Option<Object>; NUM_LIGHTS],
}

proof fn lemma_first_index_from(slots: Seq<Option<Object>>, value: Option<Object>, from: nat)
    ensures
        match first_index_from(slots, value, from) {
            Some(i) => from <= i < slots.len() && slots[i as int] == value && forall|j: int|
                from <= j < i ==> slots[j] != value,
            None => forall|j: int| from <= j < slots.len() ==> slots[j] != value,
        },
    decreases slots.len() - from,
{
    if from < slots.len() && slots[from as int] != value {
        lemma_first_index_from(slots, value, from + 1);
    }
}

/// The first index where `slots` holds `value`, if any, is the lowest index
/// holding it.
pub proof fn lemma_first_index(slots: Seq<Option<Object>>, value: Option<Object>)
    ensures
        match first_index(slots, value) {
            Some(i) => i < slots.len() && slots[i as int] == value && forall|j: int| 0 <= j < i ==> slots[j] != value,
            None => forall|j: int| 0 <= j < slots.len() ==> slots[j] != value,
        },
{
    lemma_first_index_from(slots, value, 0);
}

impl View for LightSlots {
    type V = Seq<Option<Object>>;

    /// The object in each slot, if any.
    closed spec fn view(&self) -> Seq<Option<Object>> {
        self.object_indices@
    }
}

impl LightSlots {
    /// No light in the scene.
    pub fn new() -> (r: LightSlots)
        ensures
            r@ == seq![None::<Object>, None::<Object>],
    {
        let r = LightSlots { object_indices: [None, None] };
        assert(r@ =~= seq![None::<Object>, None::<Object>]);
        r
    }

    /// Makes `object` give off light in the first free slot, and returns
    /// that slot. A slot must be free.
    pub fn illuminate(&mut self, object: Object) -> (index: usize)
        requires
            old(self)@.contains(None),
        ensures
            first_index(old(self)@, None) == Some(index as nat),
            final(self)@ == lit(old(self)@, object),
    {
        proof {
            lemma_first_index(self@, None);
        }
        let mut i: usize = 0;
        while i < NUM_LIGHTS
            invariant
                i <= NUM_LIGHTS,
                self@.len() == NUM_LIGHTS,
                forall|j: int| 0 <= j < i ==> self@[j] != None::<Object>,
                self@ == old(self)@,
            decreases NUM_LIGHTS - i,
        {
            if self.object_indices[i].is_none() {
                proof {
                    lemma_first_index(self@, None);
                }
                self.object_indices[i] = Some(object);
                return i;
            }
            i = i + 1;
        }
        proof {
            let k = choose|k: int| 0 <= k < old(self)@.len() && old(self)@[k] == None::<Object>;
            assert(self@[k] != None::<Object>);
        }
        0
    }

    /// Stops `object` giving off light: frees the first slot it holds, if any.
    pub fn unilluminate(&mut self, object: Object)
        ensures
            final(self)@ == unlit(old(self)@, object),
    {
        proof {
            lemma_first_index(self@, Some(object));
        }
        let mut i: usize = 0;
        while i < NUM_LIGHTS
            invariant
                i <= NUM_LIGHTS,
                self@.len() == NUM_LIGHTS,
                forall|j: int| 0 <= j < i ==> self@[j] != Some(object),
                self@ == old(self)@,
            decreases NUM_LIGHTS - i,
        {
            if let Some(o) = self.object_indices[i] {
                if o == object {
                    proof {
                        lemma_first_index(self@, Some(object));
                    }
                    self.object_indices[i] = None;
                    return;
                }
            }
            i = i + 1;
        }
    }

    /// The object in slot `index`, if any.
    pub fn get(&self, index: usize) -> (r: Option<Object>)
        requires
            index < NUM_LIGHTS,
        ensures
            r == self@[index as int],
    {
        self.object_indices[index]
    }

    /// How many lights the scene holds.
    pub fn num_lights(&self) -> (r: u32)
        ensures
            r == taken(self@),
    {
        let mut n: u32 = 0;
        let mut i: usize = 0;
        while i < NUM_LIGHTS
            invariant
                i <= NUM_LIGHTS,
                self@.len() == NUM_LIGHTS,
                n == taken(self@.subrange(0, i as int)),
                n <= i,
            decreases NUM_LIGHTS - i,
        {
            assert(self@.subrange(0, i + 1).drop_last() =~= self@.subrange(0, i as int));
            if self.object_indices[i].is_some() {
                n = n + 1;
            }
            i = i + 1;
        }
        assert(self@.subrange(0, NUM_LIGHTS as int) =~= self@);
        n
    }
}

/// Lighting an object that gives off no light and then putting it out
/// leaves the slots as they were.
pub proof fn lemma_unlit_undoes_lit(slots: Seq<Option<Object>>, object: Object)
    requires
        slots.contains(None),
        !slots.contains(Some(object)),
    ensures
        unlit(lit(slots, object), object) == slots,
{
    lemma_first_index(slots, None);
    let i = first_index(slots, None)->0;
    let after = lit(slots, object);
    lemma_first_index(after, Some(object));
    assert(after[i as int] == Some(object));
    assert(forall|j: int| 0 <= j < after.len() && j != i ==> after[j] == slots[j]);
    assert(first_index(after, Some(object)) == Some(i));
    assert(unlit(after, object) =~= slots);
}

} // verus!
