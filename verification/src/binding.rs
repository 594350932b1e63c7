//! Bindings (named storage slots with a mutability flag) and the layered
//! scope map that resolves identifiers across nested lexical contexts.

use vstd::prelude::*;
use vstd::string::StringExecFns;

use crate::errors::ErrorKind;
use crate::errors::JabroniError;
use crate::errors::JabroniResult;
use crate::model::binding_set;
use crate::model::env_has;
use crate::model::env_has_on_top;
use crate::model::env_lookup;
use crate::model::env_set_top;
use crate::model::env_update;
use crate::model::ModelBinding;
use crate::model::ModelEnv;
use crate::value::binding_model;
use crate::value::frame_model;
use crate::value::frames_model;
use crate::value::lemma_frame_model_congruent;
use crate::value::lemma_frames_model_index;
use crate::value::lemma_frames_model_len;
use crate::value::Value;

verus! {

/// A named storage slot: one value plus a mutability flag. Once created,
/// the slot's variant tag is fixed for its lifetime: `set_value` only
/// accepts a value of the same tag, and only on a mutable binding.
#[derive(Debug)]
pub struct Binding {
    /// Whether the slot may be reassigned.
    pub mutable: bool,
    /// The value currently stored.
    pub value: Value,
}

impl View for Binding {
    type V = ModelBinding;

    open spec fn view(&self) -> ModelBinding {
        binding_model(*self)
    }
}

impl Binding {
    /// Construct a new binding.
    pub fn new(value: Value, mutable: bool) -> (r: Self)
        ensures
            r == (Binding { mutable, value }),
    {
        Binding { mutable, value }
    }

    /// Construct a new constant (immutable) binding.
    pub fn constant(value: Value) -> (r: Self)
        ensures
            r == (Binding { mutable: false, value }),
    {
        Binding { mutable: false, value }
    }

    /// Construct a new variable (mutable) binding.
    pub fn variable(value: Value) -> (r: Self)
        ensures
            r == (Binding { mutable: true, value }),
    {
        Binding { mutable: true, value }
    }

    /// Return the binding's mutability.
    pub fn mutable(&self) -> (r: bool)
        ensures
            r == self.mutable,
    {
        self.mutable
    }

    /// Return the binding's value.
    pub fn value(&self) -> (r: &Value)
        ensures
            r == &self.value,
    {
        &self.value
    }

    /// Return a mutable reference to the binding's value. The mutability
    /// flag is not consulted: this is the raw access that recursive lvalue
    /// resolution uses to step inside objects.
    pub fn value_mut(&mut self) -> (r: &mut Value)
        ensures
            *r == old(self).value,
            final(self).value == *final(r),
            final(self).mutable == old(self).mutable,
    {
        &mut self.value
    }

    /// Store `value` into the binding. Fails with a type error if `value`
    /// carries a different tag than the current value (checked first), or
    /// if the binding is immutable; the binding is left unchanged on error.
    pub fn set_value(&mut self, value: Value) -> (r: JabroniResult)
        ensures
            match r {
                Ok(_) => binding_set(old(self)@, value@) == Ok::<ModelBinding, ErrorKind>(
                    final(self)@,
                ) && *final(self) == (Binding { mutable: old(self).mutable, value }),
                Err(e) => binding_set(old(self)@, value@) == Err::<ModelBinding, ErrorKind>(e@)
                    && *final(self) == *old(self),
            },
    {
        if !self.value.tag_matches(&value) {
            return Err(JabroniError::Type(String::from_str("Type mismatch in binding assignment")));
        }
        if !self.mutable {
            return Err(JabroniError::Type(String::from_str(
                "Cannot mutably access binding because it is constant",
            )));
        }
        self.value = value;
        Ok(())
    }
}

/// A layered mapping between identifiers and bindings: an ordered stack of
/// frames, the last being the innermost scope. Lookup walks frames from the
/// innermost outward, so an inner frame shadows an outer one.
#[derive(Debug)]
pub struct BindingMap {
    /// The frames, oldest first; each frame is an association list whose
    /// later entries override earlier ones with the same identifier.
    pub maps: Vec<Vec<(String, Binding)>>,
}

impl View for BindingMap {
    type V = ModelEnv;

    open spec fn view(&self) -> ModelEnv {
        frames_model(self.maps@)
    }
}

impl BindingMap {
    /// A scope map is well-formed when at least one frame exists; every
    /// constructor establishes this and no operation removes a frame.
    pub open spec fn wf(&self) -> bool {
        self@.len() >= 1
    }
}

/// A deep copy of one frame, with the same model and the same layout.
pub(crate) fn dup_frame(f: &Vec<(String, Binding)>) -> (r: Vec<(String, Binding)>)
    ensures
        frame_model(r@) == frame_model(f@),
        r@.len() == f@.len(),
    decreases f@, 1int,
{
    let mut frame: Vec<(String, Binding)> = Vec::new();
    let mut j: usize = 0;
    while j < f.len()
        invariant
            0 <= j <= f@.len(),
            frame@.len() == j,
            forall|k: int|
                0 <= k < j ==> (#[trigger] frame@[k]).0@ == f@[k].0@ && binding_model(frame@[k].1)
                    == binding_model(f@[k].1),
        decreases f@.len() - j,
    {
        let ident = f[j].0.clone();
        let value = f[j].1.value.duplicate();
        frame.push((ident, Binding { mutable: f[j].1.mutable, value }));
        j = j + 1;
    }
    proof {
        lemma_frame_model_congruent(frame@, f@);
    }
    frame
}

/// A deep copy of a whole frame stack, with the same model.
pub(crate) fn dup_frames(frames: &Vec<Vec<(String, Binding)>>) -> (r: Vec<Vec<(String, Binding)>>)
    ensures
        frames_model(r@) == frames_model(frames@),
        r@.len() == frames@.len(),
    decreases frames@, 1int,
{
    let mut maps: Vec<Vec<(String, Binding)>> = Vec::new();
    let mut i: usize = 0;
    while i < frames.len()
        invariant
            0 <= i <= frames@.len(),
            maps@.len() == i,
            forall|k: int|
                0 <= k < i ==> frame_model(#[trigger] maps@[k]@) == frame_model(frames@[k]@),
        decreases frames@.len() - i,
    {
        let frame = dup_frame(&frames[i]);
        maps.push(frame);
        i = i + 1;
    }
    proof {
        lemma_frames_model_len(maps@);
        lemma_frames_model_len(frames@);
        assert forall|k: int| 0 <= k < maps@.len() implies frames_model(maps@)[k] == frames_model(
            frames@,
        )[k] by {
            lemma_frames_model_index(maps@, k);
            lemma_frames_model_index(frames@, k);
        }
        assert(frames_model(maps@) =~= frames_model(frames@));
    }
    maps
}

impl BindingMap {
    /// A deep copy of this scope map, with the same model.
    pub fn duplicate(&self) -> (r: Self)
        ensures
            r@ == self@,
    {
        BindingMap { maps: dup_frames(&self.maps) }
    }
}

impl Clone for Binding {
    /// Cloning a binding is a deep copy with the same model.
    fn clone(&self) -> (r: Self)
        ensures
            r@ == self@,
    {
        Binding { mutable: self.mutable, value: self.value.duplicate() }
    }
}

impl Clone for BindingMap {
    /// Cloning a scope map is a deep copy with the same model.
    fn clone(&self) -> (r: Self)
        ensures
            r@ == self@,
    {
        self.duplicate()
    }
}

impl Default for BindingMap {
    /// A fresh scope map holding a single empty frame.
    fn default() -> (r: Self)
        ensures
            r@ == seq![Map::<Seq<char>, ModelBinding>::empty()],
            r.wf(),
    {
        let mut maps: Vec<Vec<(String, Binding)>> = Vec::new();
        maps.push(Vec::new());
        let r = BindingMap { maps };
        proof {
            assert(r.maps@.drop_last() =~= Seq::<Vec<(String, Binding)>>::empty());
            assert(frames_model(r.maps@.drop_last()) =~= Seq::<Map<Seq<char>, ModelBinding>>::empty());
            assert(r.maps@.last()@ =~= Seq::<(String, Binding)>::empty());
            assert(frame_model(r.maps@.last()@) =~= Map::<Seq<char>, ModelBinding>::empty());
            assert(r@ =~= seq![Map::<Seq<char>, ModelBinding>::empty()]);
        }
        r
    }
}

/// The keys of a frame's model are exactly the identifiers of its entries.
pub proof fn lemma_frame_model_contains(f: Seq<(String, Binding)>, k: Seq<char>)
    ensures
        frame_model(f).contains_key(k) <==> exists|j: int| 0 <= j < f.len() && f[j].0@ == k,
    decreases f,
{
    if f.len() == 0 {
    } else {
        lemma_frame_model_contains(f.drop_last(), k);
        if f.last().0@ == k {
            assert(f[f.len() - 1].0@ == k);
        } else {
            if frame_model(f).contains_key(k) {
                let j = choose|j: int| 0 <= j < f.drop_last().len() && f.drop_last()[j].0@ == k;
                assert(f[j].0@ == k);
            }
            if exists|j: int| 0 <= j < f.len() && f[j].0@ == k {
                let j = choose|j: int| 0 <= j < f.len() && f[j].0@ == k;
                assert(j < f.len() - 1);
                assert(f.drop_last()[j].0@ == k);
            }
        }
    }
}

/// Where `j` is the last entry of `f` carrying identifier `k`, the frame's
/// model stores that entry's binding under `k`.
pub proof fn lemma_frame_model_at(f: Seq<(String, Binding)>, k: Seq<char>, j: int)
    requires
        0 <= j < f.len(),
        f[j].0@ == k,
        forall|t: int| j < t < f.len() ==> f[t].0@ != k,
    ensures
        frame_model(f).contains_key(k),
        frame_model(f)[k] == binding_model(f[j].1),
    decreases f,
{
    lemma_frame_model_contains(f, k);
    if j == f.len() - 1 {
        assert(f.last() == f[j]);
    } else {
        assert(f.last().0@ != k);
        assert(f.drop_last()[j] == f[j]);
        lemma_frame_model_at(f.drop_last(), k, j);
    }
}

/// Replacing the last entry of `f` that carries `k` with a pair carrying the
/// same identifier re-points the model's entry for `k` at the new binding.
pub proof fn lemma_frame_update_last(
    f: Seq<(String, Binding)>,
    k: Seq<char>,
    j: int,
    p2: (String, Binding),
)
    requires
        0 <= j < f.len(),
        f[j].0@ == k,
        forall|t: int| j < t < f.len() ==> f[t].0@ != k,
        p2.0@ == k,
    ensures
        frame_model(f.update(j, p2)) == frame_model(f).insert(k, binding_model(p2.1)),
    decreases f,
{
    let f2 = f.update(j, p2);
    if j == f.len() - 1 {
        assert(f2.drop_last() =~= f.drop_last());
        assert(f2.last() == p2);
        assert(frame_model(f2) == frame_model(f.drop_last()).insert(k, binding_model(p2.1)));
        assert(frame_model(f) == frame_model(f.drop_last()).insert(k, binding_model(f[j].1)));
        assert(frame_model(f.drop_last()).insert(k, binding_model(f[j].1)).insert(
            k,
            binding_model(p2.1),
        ) =~= frame_model(f.drop_last()).insert(k, binding_model(p2.1)));
    } else {
        assert(f.last().0@ != k);
        assert(f.drop_last()[j] == f[j]);
        assert(forall|t: int| j < t < f.drop_last().len() ==> f.drop_last()[t].0@ != k);
        lemma_frame_update_last(f.drop_last(), k, j, p2);
        assert(f2.drop_last() =~= f.drop_last().update(j, p2));
        assert(f2.last() == f.last());
        assert(frame_model(f2) == frame_model(f.drop_last()).insert(k, binding_model(p2.1)).insert(
            f.last().0@,
            binding_model(f.last().1),
        ));
        assert(frame_model(f.drop_last()).insert(k, binding_model(p2.1)).insert(
            f.last().0@,
            binding_model(f.last().1),
        ) =~= frame_model(f).insert(k, binding_model(p2.1)));
    }
}

/// Replacing the entry that a lookup lands on re-points the environment's
/// model at the new binding, exactly as `env_update` describes: `s2` is `s`
/// with entry `j` of frame `i` replaced by `p2`, where that entry is the one
/// `k` resolves to.
pub proof fn lemma_env_update_frames(
    s: Seq<Vec<(String, Binding)>>,
    s2: Seq<Vec<(String, Binding)>>,
    k: Seq<char>,
    i: int,
    j: int,
    p2: (String, Binding),
)
    requires
        0 <= i < s.len(),
        s2.len() == s.len(),
        forall|t: int| 0 <= t < s.len() && t != i ==> s2[t] == s[t],
        0 <= j < s[i]@.len(),
        s[i]@[j].0@ == k,
        forall|t: int| j < t < s[i]@.len() ==> s[i]@[t].0@ != k,
        p2.0@ == k,
        s2[i]@ == s[i]@.update(j, p2),
        forall|t: int| i < t < s.len() ==> !frame_model(#[trigger] s[t]@).contains_key(k),
    ensures
        frames_model(s2) == env_update(frames_model(s), k, binding_model(p2.1)),
    decreases s,
{
    lemma_frame_model_at(s[i]@, k, j);
    let env = frames_model(s);
    let env2 = frames_model(s2);
    assert(env.drop_last() =~= frames_model(s.drop_last()));
    assert(env.last() == frame_model(s.last()@));
    assert(env2.drop_last() =~= frames_model(s2.drop_last()));
    assert(env2.last() == frame_model(s2.last()@));
    if i == s.len() - 1 {
        assert(env.last().contains_key(k));
        assert(s2.drop_last() =~= s.drop_last());
        assert(frames_model(s2.drop_last()) == frames_model(s.drop_last()));
        lemma_frame_update_last(s[i]@, k, j, p2);
        assert(s2.last()@ == s[i]@.update(j, p2));
        assert(env_update(env, k, binding_model(p2.1)) == env.drop_last().push(
            env.last().insert(k, binding_model(p2.1)),
        ));
        assert(env2 =~= env_update(env, k, binding_model(p2.1)));
    } else {
        assert(s.last() == s[s.len() - 1]);
        assert(!env.last().contains_key(k));
        assert(s2[s.len() - 1] == s[s.len() - 1]);
        assert(s2.last()@ == s.last()@);
        assert(s.drop_last()[i] == s[i]);
        assert(s2.drop_last()[i] == s2[i]);
        assert(forall|t: int|
            0 <= t < s.drop_last().len() && t != i ==> s2.drop_last()[t] == s.drop_last()[t]);
        assert(forall|t: int|
            i < t < s.drop_last().len() ==> !frame_model(
                #[trigger] s.drop_last()[t]@,
            ).contains_key(k));
        lemma_env_update_frames(s.drop_last(), s2.drop_last(), k, i, j, p2);
        assert(env2 =~= env_update(env, k, binding_model(p2.1)));
    }
}

/// Find the entry that `ident` resolves to among the first `m` entries of
/// frame `f`: the index of the last entry carrying `ident`, if any.
fn frame_find(f: &Vec<(String, Binding)>, ident: &str, m: usize) -> (r: Option<usize>)
    requires
        m <= f@.len(),
    ensures
        match r {
            Some(j) => j < m && f@[j as int].0@ == ident@ && (forall|t: int|
                j < t < m ==> f@[t].0@ != ident@) && frame_model(f@.take(m as int)).contains_key(
                ident@,
            ) && frame_model(f@.take(m as int))[ident@] == binding_model(f@[j as int].1),
            None => !frame_model(f@.take(m as int)).contains_key(ident@) && (forall|t: int|
                0 <= t < m ==> f@[t].0@ != ident@),
        },
    decreases m,
{
    if m == 0 {
        proof {
            assert(f@.take(0).len() == 0);
        }
        return None;
    }
    proof {
        assert(f@.take(m as int).drop_last() =~= f@.take(m - 1));
        assert(f@.take(m as int).last() == f@[m - 1]);
    }
    if crate::utils::str_eq(f[m - 1].0.as_str(), ident) {
        return Some(m - 1);
    }
    frame_find(f, ident, m - 1)
}

/// Find the entry that `ident` resolves to in the first `n` frames of the
/// stack: the innermost frame with a matching entry, and the last matching
/// entry within it.
fn env_find(maps: &Vec<Vec<(String, Binding)>>, ident: &str, n: usize) -> (r: Option<
    (usize, usize),
>)
    requires
        n <= maps@.len(),
    ensures
        match r {
            Some(p) => {
                let (i, j) = p;
                &&& i < n
                &&& j < maps@[i as int]@.len()
                &&& maps@[i as int]@[j as int].0@ == ident@
                &&& forall|t: int| j < t < maps@[i as int]@.len() ==> maps@[i as int]@[t].0@ != ident@
                &&& forall|t: int|
                    i < t < n ==> !frame_model(#[trigger] maps@[t]@).contains_key(ident@)
                &&& frame_model(maps@[i as int]@).contains_key(ident@)
                &&& env_lookup(frames_model(maps@.take(n as int)), ident@) == Some(
                    binding_model(maps@[i as int]@[j as int].1),
                )
            },
            None => {
                &&& env_lookup(frames_model(maps@.take(n as int)), ident@) is None
                &&& forall|t: int|
                    0 <= t < n ==> !frame_model(#[trigger] maps@[t]@).contains_key(ident@)
            },
        },
    decreases n,
{
    if n == 0 {
        proof {
            assert(maps@.take(0).len() == 0);
        }
        return None;
    }
    let ghost envn = frames_model(maps@.take(n as int));
    proof {
        assert(maps@.take(n as int).drop_last() =~= maps@.take(n - 1));
        assert(maps@.take(n as int).last() == maps@[n - 1]);
        assert(envn.drop_last() =~= frames_model(maps@.take(n - 1)));
        assert(envn.last() == frame_model(maps@[n - 1]@));
    }
    let top = &maps[n - 1];
    match frame_find(top, ident, top.len()) {
        Some(j) => {
            proof {
                assert(top@.take(top@.len() as int) =~= top@);
                lemma_frame_model_at(maps@[n - 1]@, ident@, j as int);
            }
            Some((n - 1, j))
        },
        None => {
            proof {
                assert(top@.take(top@.len() as int) =~= top@);
            }
            env_find(maps, ident, n - 1)
        },
    }
}

impl BindingMap {
    /// Copy this scope map and add a new, empty innermost scope on top:
    /// the copy sees every outer binding but its own definitions do not
    /// leak back.
    pub fn clone_with_new_scope(&self) -> (r: Self)
        ensures
            r@ == self@.push(Map::<Seq<char>, ModelBinding>::empty()),
            r.wf(),
    {
        let mut maps = dup_frames(&self.maps);
        let ghost dv = maps@;
        maps.push(Vec::new());
        let r = BindingMap { maps };
        proof {
            assert(r.maps@.drop_last() =~= dv);
            assert(r.maps@.last()@ =~= Seq::<(String, Binding)>::empty());
            assert(frame_model(r.maps@.last()@) =~= Map::<Seq<char>, ModelBinding>::empty());
            assert(r@ == frames_model(dv).push(frame_model(r.maps@.last()@)));
            lemma_frames_model_len(r.maps@);
        }
        r
    }

    /// Does any frame bind `ident`?
    pub fn has(&self, ident: &str) -> (r: bool)
        ensures
            r == env_has(self@, ident@),
    {
        let r = env_find(&self.maps, ident, self.maps.len());
        proof {
            assert(self.maps@.take(self.maps@.len() as int) =~= self.maps@);
            crate::model::lemma_env_lookup_has(self@, ident@);
        }
        r.is_some()
    }

    /// Does the innermost (top) frame bind `ident`?
    pub fn has_on_top(&self, ident: &str) -> (r: bool)
        ensures
            r == env_has_on_top(self@, ident@),
    {
        if self.maps.len() == 0 {
            proof {
                lemma_frames_model_len(self.maps@);
            }
            return false;
        }
        let top = &self.maps[self.maps.len() - 1];
        let r = frame_find(top, ident, top.len());
        proof {
            assert(top@.take(top@.len() as int) =~= top@);
            lemma_frames_model_len(self.maps@);
            lemma_frames_model_index(self.maps@, self.maps@.len() - 1);
            assert(self@.last() == frame_model(top@));
        }
        r.is_some()
    }

    /// Map `ident` to `value` in the top frame, inserting it or overwriting
    /// an entry already there.
    pub fn set(&mut self, ident: String, value: Binding)
        requires
            old(self).wf(),
        ensures
            final(self)@ == env_set_top(old(self)@, ident@, value@),
            final(self).wf(),
    {
        proof {
            lemma_frames_model_len(self.maps@);
        }
        let ghost idv = ident@;
        let ghost bmv = binding_model(value);
        let ghost oldmaps = self.maps@;
        let ghost oldenv = self@;
        let n = self.maps.len();
        let frame = &mut self.maps[n - 1];
        let ghost oldframe = frame@;
        frame.push((ident, value));
        let ghost fr2 = *frame;
        proof {
            assert(fr2@.drop_last() =~= oldframe);
            assert(fr2@.last().0@ == idv);
            assert(binding_model(fr2@.last().1) == bmv);
            assert(frame_model(fr2@) == frame_model(oldframe).insert(idv, bmv));
        }
        proof {
            assert(self.maps@ == oldmaps.update(n - 1, fr2));
            assert(self.maps@.drop_last() =~= oldmaps.drop_last());
            assert(self.maps@.last() == fr2);
            assert(frames_model(self.maps@) == frames_model(oldmaps.drop_last()).push(
                frame_model(fr2@),
            ));
            assert(oldmaps.last()@ == oldframe);
            assert(oldenv == frames_model(oldmaps.drop_last()).push(frame_model(oldframe)));
            assert(oldenv.drop_last() =~= frames_model(oldmaps.drop_last()));
            assert(oldenv.last() == frame_model(oldframe));
            assert(frames_model(self.maps@) =~= env_set_top(oldenv, idv, bmv));
            lemma_frames_model_len(self.maps@);
        }
    }

    /// Get the binding that `ident` resolves to: the entry of the innermost
    /// frame that binds it. Fails with a reference error exactly when no
    /// frame binds `ident`.
    pub fn get(&self, ident: &str) -> (r: JabroniResult<&Binding>)
        ensures
            match r {
                Ok(b) => env_has(self@, ident@) && env_lookup(self@, ident@) == Some(b@),
                Err(e) => !env_has(self@, ident@) && e@ == ErrorKind::Reference,
            },
    {
        proof {
            assert(self.maps@.take(self.maps@.len() as int) =~= self.maps@);
            crate::model::lemma_env_lookup_has(self@, ident@);
        }
        match env_find(&self.maps, ident, self.maps.len()) {
            Some((i, j)) => Ok(&self.maps[i][j].1),
            None => Err(JabroniError::Reference(reference_error(ident))),
        }
    }

    /// Get a mutable reference to the binding that `ident` resolves to.
    /// Afterwards the scope map is the old one with that entry replaced by
    /// whatever the caller leaves in the returned binding. Fails with a
    /// reference error exactly when no frame binds `ident`.
    pub fn get_mut(&mut self, ident: &str) -> (r: JabroniResult<&mut Binding>)
        ensures
            match r {
                Ok(b) => env_has(old(self)@, ident@) && env_lookup(old(self)@, ident@) == Some(
                    (*b)@,
                ) && final(self)@ == env_update(old(self)@, ident@, (*final(b))@),
                Err(e) => !env_has(old(self)@, ident@) && e@ == ErrorKind::Reference && *final(self)
                    == *old(self),
            },
    {
        proof {
            assert(self.maps@.take(self.maps@.len() as int) =~= self.maps@);
            crate::model::lemma_env_lookup_has(self@, ident@);
        }
        let n = self.maps.len();
        let ghost idv = ident@;
        match env_find(&self.maps, ident, n) {
            Some((i, j)) => {
                let ghost oldmaps = self.maps@;
                proof {
                    assert forall|s2: Seq<Vec<(String, Binding)>>, nb: Binding|
                        #![trigger frames_model(s2), binding_model(nb)]
                        (s2.len() == oldmaps.len() && (forall|t: int|
                            0 <= t < oldmaps.len() && t != i as int ==> s2[t] == oldmaps[t])
                            && s2[i as int]@ == oldmaps[i as int]@.update(
                            j as int,
                            (oldmaps[i as int]@[j as int].0, nb),
                        )) implies frames_model(s2) == env_update(
                        frames_model(oldmaps),
                        idv,
                        binding_model(nb),
                    ) by {
                        lemma_env_update_frames(
                            oldmaps,
                            s2,
                            idv,
                            i as int,
                            j as int,
                            (oldmaps[i as int]@[j as int].0, nb),
                        );
                    }
                }
                let frame = &mut self.maps[i];
                let slot = &mut frame[j];
                let b = &mut slot.1;
                Ok(b)
            },
            None => Err(JabroniError::Reference(reference_error(ident))),
        }
    }
}

/// The message reported when an identifier is not bound in any scope.
fn reference_error(ident: &str) -> (r: String) {
    let mut s = String::from_str("'");
    s.append(ident);
    s.append("' does not exist");
    s
}

} // verus!
