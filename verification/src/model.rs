//! The mathematical model of runtime values and of the layered variable
//! environment. Everything in this module is specification-level: the
//! executable types in [`crate::value`] and [`crate::binding`] project into
//! these models through their views, and all contracts are stated here.

use vstd::prelude::*;

use crate::errors::ErrorKind;

verus! {

/// Model of a runtime value: the payload of each tag, with machine types
/// replaced by their mathematical counterparts.
pub enum ModelValue {
    /// A fixed-width signed integer (the mathematical value it carries).
    Number(int),
    /// A truth value.
    Boolean(bool),
    /// Owned text, as its sequence of characters.
    Text(Seq<char>),
    /// A record: a layered environment of its own, whose bindings are fields.
    Object(ModelEnv),
    /// A callable.
    Subroutine(ModelSub),
    /// The unit/absence marker.
    Null,
}

/// Model of a named storage slot: one value plus a mutability flag.
pub struct ModelBinding {
    /// Whether the slot may be reassigned.
    pub mutable: bool,
    /// The value currently stored.
    pub value: ModelValue,
}

/// Model of a callable value.
pub struct ModelSub {
    /// `Some(n)` for a fixed argument count, `None` for variadic.
    pub arity: Option<nat>,
    /// What runs when the subroutine is called.
    pub callback: ModelCallback,
}

/// Model of what a subroutine executes when called.
pub enum ModelCallback {
    /// A host-registered action, identified by the host's own number.
    Native(int),
    /// An interpreted function: ordered parameter names and the
    /// still-unparsed body source.
    Interpreted { params: Seq<Seq<char>>, body: Seq<char> },
}

/// Model of a layered variable environment: a stack of frames, each mapping
/// identifiers to bindings. The last element is the innermost (top) frame.
pub type ModelEnv = Seq<Map<Seq<char>, ModelBinding>>;

/// Do two values carry the same tag? Payloads are ignored: this is the
/// type-compatibility test that drives assignment and comparison.
pub open spec fn same_tag(a: ModelValue, b: ModelValue) -> bool {
    match (a, b) {
        (ModelValue::Number(_), ModelValue::Number(_)) => true,
        (ModelValue::Boolean(_), ModelValue::Boolean(_)) => true,
        (ModelValue::Text(_), ModelValue::Text(_)) => true,
        (ModelValue::Object(_), ModelValue::Object(_)) => true,
        (ModelValue::Subroutine(_), ModelValue::Subroutine(_)) => true,
        (ModelValue::Null, ModelValue::Null) => true,
        _ => false,
    }
}

/// Does any frame of the environment bind `id`?
pub open spec fn env_has(env: ModelEnv, id: Seq<char>) -> bool {
    exists|i: int| 0 <= i < env.len() && env[i].contains_key(id)
}

/// Does the innermost (top) frame bind `id`?
pub open spec fn env_has_on_top(env: ModelEnv, id: Seq<char>) -> bool {
    env.len() > 0 && env.last().contains_key(id)
}

/// The binding of `id` in the innermost frame that has one: lookup walks
/// frames from most recently pushed to oldest (shadowing semantics).
pub open spec fn env_lookup(env: ModelEnv, id: Seq<char>) -> Option<ModelBinding>
    decreases env.len(),
{
    if env.len() == 0 {
        None
    } else if env.last().contains_key(id) {
        Some(env.last()[id])
    } else {
        env_lookup(env.drop_last(), id)
    }
}

/// The environment with the binding of `id` replaced by `b` in the innermost
/// frame that binds `id`; unchanged if no frame does.
pub open spec fn env_update(env: ModelEnv, id: Seq<char>, b: ModelBinding) -> ModelEnv
    decreases env.len(),
{
    if env.len() == 0 {
        env
    } else if env.last().contains_key(id) {
        env.drop_last().push(env.last().insert(id, b))
    } else {
        env_update(env.drop_last(), id, b).push(env.last())
    }
}

/// The environment with `id` bound to `b` in the top frame (inserting or
/// overwriting). Meaningful only for a non-empty environment.
pub open spec fn env_set_top(env: ModelEnv, id: Seq<char>, b: ModelBinding) -> ModelEnv {
    env.drop_last().push(env.last().insert(id, b))
}

/// The result of storing `v` into binding `b`: a type error where the tags
/// differ or where the binding is immutable, the updated binding otherwise.
/// The tag check comes first, so a tag mismatch on an immutable binding is
/// reported as the mismatch.
pub open spec fn binding_set(b: ModelBinding, v: ModelValue) -> Result<ModelBinding, ErrorKind> {
    if !same_tag(b.value, v) {
        Err(ErrorKind::Type)
    } else if !b.mutable {
        Err(ErrorKind::Type)
    } else {
        Ok(ModelBinding { mutable: b.mutable, value: v })
    }
}

/// Putting back the binding a lookup found changes nothing.
pub proof fn lemma_env_update_same(env: ModelEnv, id: Seq<char>, b: ModelBinding)
    requires
        env_lookup(env, id) == Some(b),
    ensures
        env_update(env, id, b) == env,
    decreases env.len(),
{
    if env.len() == 0 {
    } else if env.last().contains_key(id) {
        assert(env.last().insert(id, b) =~= env.last());
        assert(env_update(env, id, b) =~= env);
    } else {
        lemma_env_update_same(env.drop_last(), id, b);
        assert(env_update(env, id, b) =~= env);
    }
}

/// A lookup succeeds exactly on the identifiers that some frame binds.
pub proof fn lemma_env_lookup_has(env: ModelEnv, id: Seq<char>)
    ensures
        env_lookup(env, id) is Some <==> env_has(env, id),
    decreases env.len(),
{
    if env.len() == 0 {
    } else if env.last().contains_key(id) {
        assert(env[env.len() - 1].contains_key(id));
    } else {
        lemma_env_lookup_has(env.drop_last(), id);
        if env_has(env.drop_last(), id) {
            let i = choose|i: int|
                0 <= i < env.drop_last().len() && env.drop_last()[i].contains_key(id);
            assert(env[i].contains_key(id));
        }
        if env_has(env, id) {
            let i = choose|i: int| 0 <= i < env.len() && env[i].contains_key(id);
            assert(i < env.len() - 1);
            assert(env.drop_last()[i].contains_key(id));
        }
    }
}

/// Updating leaves every frame's domain unchanged: it only replaces the
/// value stored at `id` in the innermost frame that binds it.
pub proof fn lemma_env_update_shape(env: ModelEnv, id: Seq<char>, b: ModelBinding)
    ensures
        env_update(env, id, b).len() == env.len(),
        forall|i: int|
            0 <= i < env.len() ==> (#[trigger] env_update(env, id, b)[i]).dom() == env[i].dom(),
        env_has(env, id) ==> env_lookup(env_update(env, id, b), id) == Some(b),
    decreases env.len(),
{
    lemma_env_lookup_has(env, id);
    if env.len() == 0 {
    } else if env.last().contains_key(id) {
        let env2 = env_update(env, id, b);
        assert(env2.last() =~= env.last().insert(id, b));
        assert forall|i: int| 0 <= i < env.len() implies (#[trigger] env2[i]).dom()
            == env[i].dom() by {
            if i < env.len() - 1 {
                assert(env2[i] == env[i]);
            } else {
                assert(env2[i] == env.last().insert(id, b));
                assert(env.last().insert(id, b).dom() =~= env.last().dom());
            }
        }
        assert(env2.last().contains_key(id));
    } else {
        lemma_env_update_shape(env.drop_last(), id, b);
        let env2 = env_update(env, id, b);
        assert(env2 == env_update(env.drop_last(), id, b).push(env.last()));
        assert forall|i: int| 0 <= i < env.len() implies (#[trigger] env2[i]).dom()
            == env[i].dom() by {
            if i < env.len() - 1 {
                assert(env2[i] == env_update(env.drop_last(), id, b)[i]);
                assert(env.drop_last()[i] == env[i]);
            } else {
                assert(env2[i] == env.last());
            }
        }
        if env_has(env, id) {
            lemma_env_lookup_has(env.drop_last(), id);
            let i = choose|i: int| 0 <= i < env.len() && env[i].contains_key(id);
            assert(i < env.len() - 1);
            assert(env.drop_last()[i].contains_key(id));
            assert(env_has(env.drop_last(), id));
            assert(!env2.last().contains_key(id));
            assert(env2.drop_last() =~= env_update(env.drop_last(), id, b));
        }
    }
}

} // verus!
