//! The components a payload may carry.
//!
//! Real numbers are held as the bit patterns of their IEEE 754 single
//! precision form, so that a payload is made of integers, text and bytes
//! only.
use vstd::prelude::*;
use crate::text_map::TextMap;

verus! {

/// Bit pattern of the single precision number `1.0`.
pub const ONE_BITS: u32 = 0x3F80_0000;

/// Three single precision numbers, each as its bit pattern.
#[derive(Clone, Copy, Debug, PartialEq, Eq, Structural)]
pub struct Vec3Bits {
    pub x: u32,
    pub y: u32,
    pub z: u32,
}

/// A quaternion of single precision numbers, each as its bit pattern.
#[derive(Clone, Copy, Debug, PartialEq, Eq, Structural)]
pub struct QuatBits {
    pub x: u32,
    pub y: u32,
    pub z: u32,
    pub w: u32,
}

/// Position, orientation and scale of a node.
#[derive(Clone, Copy, Debug, PartialEq, Eq, Structural)]
pub struct Transform {
    pub translation: Vec3Bits,
    pub rotation: QuatBits,
    pub scale: Vec3Bits,
}

impl Transform {
    /// The transform that moves, turns and scales nothing.
    pub open spec fn spec_identity() -> Transform {
        Transform {
            translation: Vec3Bits { x: 0, y: 0, z: 0 },
            rotation: QuatBits { x: 0, y: 0, z: 0, w: ONE_BITS },
            scale: Vec3Bits { x: ONE_BITS, y: ONE_BITS, z: ONE_BITS },
        }
    }

    /// The transform that moves, turns and scales nothing.
    pub fn identity() -> (transform: Transform)
        ensures
            transform == Transform::spec_identity(),
    {
        Transform {
            translation: Vec3Bits { x: 0, y: 0, z: 0 },
            rotation: QuatBits { x: 0, y: 0, z: 0, w: ONE_BITS },
            scale: Vec3Bits { x: ONE_BITS, y: ONE_BITS, z: ONE_BITS },
        }
    }
}

impl Default for Transform {
    fn default() -> (transform: Transform)
        ensures
            transform == Transform::spec_identity(),
    {
        Transform::identity()
    }
}

/// The name of an entity.
#[derive(Debug)]
pub struct Name(pub String);

impl View for Name {
    type V = Seq<char>;

    open spec fn view(&self) -> Seq<char> {
        self.0@
    }
}

impl Clone for Name {
    fn clone(&self) -> (copy: Name)
        ensures
            copy@ == self@,
    {
        Name(self.0.clone())
    }
}

/// The value of a dialogue variable.
#[derive(Debug)]
pub enum VariableValue {
    /// A single precision number, as its bit pattern.
    Number(u32),
    /// A piece of text.
    Text(String),
    /// A truth value.
    Boolean(bool),
}

/// What a [`VariableValue`] holds.
pub enum VariableValueView {
    Number(u32),
    Text(Seq<char>),
    Boolean(bool),
}

impl View for VariableValue {
    type V = VariableValueView;

    open spec fn view(&self) -> VariableValueView {
        match self {
            VariableValue::Number(bits) => VariableValueView::Number(*bits),
            VariableValue::Text(text) => VariableValueView::Text(text@),
            VariableValue::Boolean(flag) => VariableValueView::Boolean(*flag),
        }
    }
}

impl Clone for VariableValue {
    fn clone(&self) -> (copy: VariableValue)
        ensures
            copy@ == self@,
    {
        match self {
            VariableValue::Number(bits) => VariableValue::Number(*bits),
            VariableValue::Text(text) => VariableValue::Text(text.clone()),
            VariableValue::Boolean(flag) => VariableValue::Boolean(*flag),
        }
    }
}

/// A dialogue variable local to one actor.
#[derive(Debug)]
pub struct Variable {
    pub name: String,
    pub value: VariableValue,
}

impl View for Variable {
    type V = (Seq<char>, VariableValueView);

    open spec fn view(&self) -> (Seq<char>, VariableValueView) {
        (self.name@, self.value@)
    }
}

impl Clone for Variable {
    fn clone(&self) -> (copy: Variable)
        ensures
            copy@ == self@,
    {
        Variable { name: self.name.clone(), value: self.value.clone() }
    }
}

/// The views of a list of variables, in order.
pub open spec fn variables_view(variables: Seq<Variable>) -> Seq<(Seq<char>, VariableValueView)> {
    Seq::new(variables.len(), |i: int| variables[i]@)
}

/// A dialogue actor: its script and its local variables.
#[derive(Debug)]
pub struct Actor {
    /// Variables local to this actor.
    pub local_variables: Vec<Variable>,
    /// Source of the dialogue.
    pub yarn_source: Vec<u8>,
}

/// What an [`Actor`] holds.
pub struct ActorView {
    pub local_variables: Seq<(Seq<char>, VariableValueView)>,
    pub yarn_source: Seq<u8>,
}

impl View for Actor {
    type V = ActorView;

    open spec fn view(&self) -> ActorView {
        ActorView {
            local_variables: variables_view(self.local_variables@),
            yarn_source: self.yarn_source@,
        }
    }
}

impl Clone for Actor {
    fn clone(&self) -> (copy: Actor)
        ensures
            copy@ == self@,
    {
        let mut variables: Vec<Variable> = Vec::new();
        let mut at: usize = 0;
        while at < self.local_variables.len()
            invariant
                at <= self.local_variables@.len(),
                variables@.len() == at,
                forall|j: int| 0 <= j < at ==> variables@[j]@ == self.local_variables@[j]@,
            decreases self.local_variables@.len() - at,
        {
            variables.push(self.local_variables[at].clone());
            at = at + 1;
        }
        assert(variables_view(variables@) =~= variables_view(self.local_variables@));
        Actor { local_variables: variables, yarn_source: self.yarn_source.clone() }
    }
}

impl Default for Actor {
    fn default() -> (actor: Actor)
        ensures
            actor@.local_variables.len() == 0,
            actor@.yarn_source.len() == 0,
    {
        Actor { local_variables: Vec::new(), yarn_source: Vec::new() }
    }
}

/// Parameters of an actor's synthesised voice.
#[derive(Clone, Copy, Debug, PartialEq, Eq, Structural)]
pub struct Voice {
    /// Base MIDI pitch.
    pub pitch: i32,
    /// MIDI preset.
    pub preset: i32,
    /// MIDI bank.
    pub bank: i32,
    /// Variance in pitch.
    pub variance: u32,
    /// Speed, as the bit pattern of a single precision number.
    pub speed: u32,
}

impl Voice {
    /// The voice an actor has where none is given: pitch 60, preset and bank
    /// 0, variance 3, speed 1.0.
    pub open spec fn spec_default() -> Voice {
        Voice { pitch: 60, preset: 0, bank: 0, variance: 3, speed: ONE_BITS }
    }
}

impl Default for Voice {
    fn default() -> (voice: Voice)
        ensures
            voice == Voice::spec_default(),
    {
        Voice { pitch: 60, preset: 0, bank: 0, variance: 3, speed: ONE_BITS }
    }
}

/// How the physics of the host moves a body.
#[derive(Clone, Copy, Debug, PartialEq, Eq, Structural)]
pub enum Rigidbody {
    /// Moved by forces and collisions.
    Dynamic,
    /// Never moves.
    Static,
    /// Moved by the host only.
    Kinematic,
}

impl Default for Rigidbody {
    fn default() -> (body: Rigidbody)
        ensures
            body == Rigidbody::Dynamic,
    {
        Rigidbody::Dynamic
    }
}

/// Colliders to generate from an entity's meshes.
#[derive(Clone, Copy, Debug, PartialEq, Eq, Structural)]
pub struct MeshCollider {
    /// Whether the colliders are convex hulls.
    pub convex: bool,
    /// Whether the colliders are triggers.
    pub sensor: bool,
}

impl Default for MeshCollider {
    fn default() -> (collider: MeshCollider)
        ensures
            collider == (MeshCollider { convex: false, sensor: false }),
    {
        MeshCollider { convex: false, sensor: false }
    }
}

/// A script attached to an entity.
#[derive(Debug)]
pub struct Script {
    /// Source of the script.
    pub lua_source: Vec<u8>,
}

impl View for Script {
    type V = Seq<u8>;

    open spec fn view(&self) -> Seq<u8> {
        self.lua_source@
    }
}

impl Clone for Script {
    fn clone(&self) -> (copy: Script)
        ensures
            copy@ == self@,
    {
        Script { lua_source: self.lua_source.clone() }
    }
}

/// The views of a list of scripts, in order.
pub open spec fn scripts_view(scripts: Seq<Script>) -> Seq<Seq<u8>> {
    Seq::new(scripts.len(), |i: int| scripts[i]@)
}

/// Copies a list of scripts.
pub fn clone_scripts(scripts: &Vec<Script>) -> (copy: Vec<Script>)
    ensures
        scripts_view(copy@) == scripts_view(scripts@),
{
    let mut copy: Vec<Script> = Vec::new();
    let mut at: usize = 0;
    while at < scripts.len()
        invariant
            at <= scripts@.len(),
            copy@.len() == at,
            forall|j: int| 0 <= j < at ==> copy@[j]@ == scripts@[j]@,
        decreases scripts@.len() - at,
    {
        copy.push(scripts[at].clone());
        at = at + 1;
    }
    assert(scripts_view(copy@) =~= scripts_view(scripts@));
    copy
}

/// Named 128-bit digests: each label of an entity leads to one digest.
#[derive(Debug)]
pub struct Relationships(pub TextMap<u128>);

impl View for Relationships {
    type V = Map<Seq<char>, u128>;

    open spec fn view(&self) -> Map<Seq<char>, u128> {
        self.0@
    }
}

impl Relationships {
    /// The invariant: no label occurs twice.
    pub open spec fn wf(&self) -> bool {
        self.0.wf()
    }

    /// No relationships.
    pub fn new() -> (relationships: Relationships)
        ensures
            relationships.wf(),
            relationships@ == Map::<Seq<char>, u128>::empty(),
    {
        Relationships(TextMap::new())
    }

    /// The digest stored under `label`.
    pub fn get(&self, label: &str) -> (digest: Option<u128>)
        requires
            self.wf(),
        ensures
            digest == (if self@.contains_key(label@) {
                Some(self@[label@])
            } else {
                None
            }),
    {
        match self.0.get(label) {
            Some(found) => Some(*found),
            None => None,
        }
    }

    /// Stores `digest` under `label`, in place of what was there.
    pub fn insert(&mut self, label: String, digest: u128) -> (previous: Option<u128>)
        requires
            old(self).wf(),
        ensures
            final(self).wf(),
            final(self)@ == old(self)@.insert(label@, digest),
            previous == (if old(self)@.contains_key(label@) {
                Some(old(self)@[label@])
            } else {
                None
            }),
    {
        self.0.insert(label, digest)
    }

    /// Takes the digest of `label` out.
    pub fn remove(&mut self, label: &str) -> (taken: Option<u128>)
        requires
            old(self).wf(),
        ensures
            final(self).wf(),
            final(self)@ == old(self)@.remove(label@),
            taken == (if old(self)@.contains_key(label@) {
                Some(old(self)@[label@])
            } else {
                None
            }),
    {
        self.0.remove(label)
    }
}

impl Clone for Relationships {
    fn clone(&self) -> (copy: Relationships)
        ensures
            copy.0.keys@.len() == self.0.keys@.len(),
            forall|i: int| 0 <= i < self.0.keys@.len() ==> copy.0.keys@[i]@ == self.0.keys@[i]@,
            copy.0.values@ == self.0.values@,
            self.wf() ==> copy.wf() && copy@ == self@,
    {
        let mut keys: Vec<String> = Vec::new();
        let mut at: usize = 0;
        while at < self.0.keys.len()
            invariant
                at <= self.0.keys@.len(),
                keys@.len() == at,
                forall|j: int| 0 <= j < at ==> keys@[j]@ == self.0.keys@[j]@,
            decreases self.0.keys@.len() - at,
        {
            keys.push(self.0.keys[at].clone());
            at = at + 1;
        }
        let copy = Relationships(TextMap { keys, values: self.0.values.clone() });
        proof {
            if self.wf() {
                assert(copy.wf());
                crate::text_map::lemma_same_entries(copy.0, self.0);
            }
        }
        copy
    }
}

/// Marks an entity as one that can be picked up.
#[derive(Clone, Copy, Debug, PartialEq, Eq, Structural)]
pub struct Pickup;

} // verus!
