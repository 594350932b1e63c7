//! The tagged runtime datum: numbers, booleans, strings, objects (records
//! whose fields are bindings), callable subroutines, and null.

use vstd::prelude::*;
use vstd::string::StringExecFns;

use crate::binding::Binding;
use crate::binding::BindingMap;
use crate::errors::ErrorKind;
use crate::errors::JabroniError;
use crate::errors::JabroniResult;
use crate::utils::unquote_spec;
use crate::model::ModelBinding;
use crate::model::ModelCallback;
use crate::model::ModelEnv;
use crate::model::same_tag;
use crate::model::ModelSub;
use crate::model::ModelValue;

verus! {

/// The fixed-width signed integer type carried by `Value::Number`.
pub type Number = i32;

/// A runtime value. Two values are type-compatible exactly when they carry
/// the same variant tag, whatever the payloads: that rule drives assignment
/// and comparison.
#[derive(Debug)]
pub enum Value {
    /// Number type.
    Number(Number),
    /// Boolean type.
    Boolean(bool),
    /// String type.
    String(String),
    /// Object type: a record whose fields are bindings.
    Object(BindingMap),
    /// Function type.
    Subroutine(Subroutine),
    /// Null type - corresponds to JavaScript's Null/Undefined.
    Null,
}

/// A callable value: a fixed or variadic arity together with what runs when
/// it is called.
#[derive(Debug)]
pub struct Subroutine {
    /// `Some(n)` for a fixed argument count, `None` for variadic.
    pub number_of_args: Option<usize>,
    /// What the subroutine executes.
    pub callback: Callback,
}

/// What a subroutine executes when called.
#[derive(Debug, Clone)]
pub enum Callback {
    /// A host-provided action; the number identifies it to the host that
    /// the interpreter runs against. Equality of native subroutines is
    /// equality of these identities.
    Native(u64),
    /// An interpreted function: ordered parameter names and the unparsed
    /// body source, run as a script in an isolated scope when called.
    Interpreted {
        /// Ordered parameter names.
        params: Vec<String>,
        /// The body, kept as source text and parsed at each call.
        body: String,
    },
}

/// The model of a value (mutually recursive with the models of frames and
/// bindings, mirroring how objects nest whole environments).
pub open spec fn value_model(v: Value) -> ModelValue
    decreases v,
{
    match v {
        Value::Number(n) => ModelValue::Number(n as int),
        Value::Boolean(b) => ModelValue::Boolean(b),
        Value::String(s) => ModelValue::Text(s@),
        Value::Object(m) => ModelValue::Object(frames_model(m.maps@)),
        Value::Subroutine(s) => ModelValue::Subroutine(sub_model(s)),
        Value::Null => ModelValue::Null,
    }
}

/// The model of a stack of frames: each association list becomes a map.
pub open spec fn frames_model(frames: Seq<Vec<(String, Binding)>>) -> ModelEnv
    decreases frames,
{
    if frames.len() == 0 {
        Seq::empty()
    } else {
        frames_model(frames.drop_last()).push(frame_model(frames.last()@))
    }
}

/// The model of one frame: its pairs folded into a map, so that a later
/// pair with the same identifier overrides an earlier one.
pub open spec fn frame_model(f: Seq<(String, Binding)>) -> Map<Seq<char>, ModelBinding>
    decreases f,
{
    if f.len() == 0 {
        Map::empty()
    } else {
        frame_model(f.drop_last()).insert(f.last().0@, binding_model(f.last().1))
    }
}

/// The model of a binding: the mutability flag and the value's model.
pub open spec fn binding_model(b: Binding) -> ModelBinding
    decreases b,
{
    ModelBinding { mutable: b.mutable, value: value_model(b.value) }
}

/// The model of a subroutine.
pub open spec fn sub_model(s: Subroutine) -> ModelSub {
    ModelSub {
        arity: match s.number_of_args {
            Some(n) => Some(n as nat),
            None => None,
        },
        callback: match s.callback {
            Callback::Native(id) => ModelCallback::Native(id as int),
            Callback::Interpreted { params, body } => ModelCallback::Interpreted {
                params: params.deep_view(),
                body: body@,
            },
        },
    }
}

impl View for Value {
    type V = ModelValue;

    open spec fn view(&self) -> ModelValue {
        value_model(*self)
    }
}

impl View for Subroutine {
    type V = ModelSub;

    open spec fn view(&self) -> ModelSub {
        sub_model(*self)
    }
}

/// Structural equality of values: equal tags and equal payloads, with text
/// compared by its characters. This is what `==` on [`Value`] means.
pub open spec fn value_eq(a: Value, b: Value) -> bool
    decreases a, 0int, 0nat,
{
    match (a, b) {
        (Value::Number(x), Value::Number(y)) => x == y,
        (Value::Boolean(x), Value::Boolean(y)) => x == y,
        (Value::String(x), Value::String(y)) => x@ == y@,
        (Value::Object(x), Value::Object(y)) => frames_eq(x.maps@, y.maps@),
        (Value::Subroutine(x), Value::Subroutine(y)) => sub_eq(x, y),
        (Value::Null, Value::Null) => true,
        _ => false,
    }
}

/// Structural equality of frame stacks: same number of frames, equal pairwise.
pub open spec fn frames_eq(x: Seq<Vec<(String, Binding)>>, y: Seq<Vec<(String, Binding)>>) -> bool
    decreases x, 1int, 0nat,
{
    x.len() == y.len() && (x.len() == 0 || (frames_eq(x.drop_last(), y.drop_last()) && frame_eq(
        x.last()@,
        y.last()@,
    )))
}

/// Structural equality of frames: same entries in the same order.
pub open spec fn frame_eq(f: Seq<(String, Binding)>, g: Seq<(String, Binding)>) -> bool
    decreases f, 1int, 0nat,
{
    f.len() == g.len() && (f.len() == 0 || (frame_eq(f.drop_last(), g.drop_last()) && f.last().0@
        == g.last().0@ && binding_eq(f.last().1, g.last().1)))
}

/// Structural equality of bindings: same mutability and equal values.
pub open spec fn binding_eq(a: Binding, b: Binding) -> bool
    decreases a, 0int, 0nat,
{
    a.mutable == b.mutable && value_eq(a.value, b.value)
}

/// Equality of two lists of names, character by character.
pub open spec fn strs_eq(p: Seq<String>, q: Seq<String>) -> bool
    decreases p,
{
    p.len() == q.len() && (p.len() == 0 || (strs_eq(p.drop_last(), q.drop_last()) && p.last()@
        == q.last()@))
}

/// Equality of subroutines: equal arity and the same callback, where native
/// callbacks are the same exactly when their host identities coincide.
pub open spec fn sub_eq(a: Subroutine, b: Subroutine) -> bool {
    a.number_of_args == b.number_of_args && match (a.callback, b.callback) {
        (Callback::Native(i), Callback::Native(j)) => i == j,
        (
            Callback::Interpreted { params: p, body: c },
            Callback::Interpreted { params: q, body: d },
        ) => c@ == d@ && strs_eq(p@, q@),
        _ => false,
    }
}

/// Decide [`frames_eq`] on the first `n` frames of two equally long stacks.
pub(crate) fn frames_eq_upto(
    x: &Vec<Vec<(String, Binding)>>,
    y: &Vec<Vec<(String, Binding)>>,
    n: usize,
) -> (r: bool)
    requires
        n <= x@.len(),
        n <= y@.len(),
    ensures
        r == frames_eq(x@.take(n as int), y@.take(n as int)),
    decreases x@, 2int, n,
{
    if n == 0 {
        proof {
            assert(x@.take(0).len() == 0);
            assert(y@.take(0).len() == 0);
        }
        true
    } else {
        proof {
            assert(x@.take(n as int).drop_last() =~= x@.take(n - 1));
            assert(y@.take(n as int).drop_last() =~= y@.take(n - 1));
            assert(x@.take(n as int).last() == x@[n - 1]);
            assert(y@.take(n as int).last() == y@[n - 1]);
        }
        if !frames_eq_upto(x, y, n - 1) {
            return false;
        }
        let fa = &x[n - 1];
        let fb = &y[n - 1];
        let r2 = frame_eq_upto(fa, fb, fa.len(), fb.len());
        proof {
            assert(fa@.take(fa@.len() as int) =~= fa@);
            assert(fb@.take(fb@.len() as int) =~= fb@);
        }
        r2
    }
}

/// Decide [`frame_eq`] on prefixes of two frames: the first `n` entries of
/// `f` against the first `m` entries of `g`.
pub(crate) fn frame_eq_upto(
    f: &Vec<(String, Binding)>,
    g: &Vec<(String, Binding)>,
    n: usize,
    m: usize,
) -> (r: bool)
    requires
        n <= f@.len(),
        m <= g@.len(),
    ensures
        r == frame_eq(f@.take(n as int), g@.take(m as int)),
    decreases f@, 2int, n,
{
    if n != m {
        return false;
    }
    if n == 0 {
        proof {
            assert(f@.take(0).len() == 0);
            assert(g@.take(0).len() == 0);
        }
        return true;
    }
    proof {
        assert(f@.take(n as int).drop_last() =~= f@.take(n - 1));
        assert(g@.take(m as int).drop_last() =~= g@.take(m - 1));
        assert(f@.take(n as int).last() == f@[n - 1]);
        assert(g@.take(m as int).last() == g@[m - 1]);
    }
    if !frame_eq_upto(f, g, n - 1, m - 1) {
        return false;
    }
    if !(f[n - 1].0 == g[n - 1].0) {
        return false;
    }
    if f[n - 1].1.mutable != g[n - 1].1.mutable {
        proof {
            assert(!binding_eq(f@[n - 1].1, g@[n - 1].1));
        }
        return false;
    }
    let r3 = f[n - 1].1.value.equals(&g[n - 1].1.value);
    proof {
        if r3 {
            assert(binding_eq(f@[n - 1].1, g@[n - 1].1));
        } else {
            assert(!binding_eq(f@[n - 1].1, g@[n - 1].1));
        }
    }
    r3
}

/// Equality of subroutines, per [`sub_eq`].
pub(crate) fn sub_eq_exec(a: &Subroutine, b: &Subroutine) -> (r: bool)
    ensures
        r == sub_eq(*a, *b),
{
    let arity_same = match (a.number_of_args, b.number_of_args) {
        (Some(m), Some(n)) => m == n,
        (None, None) => true,
        _ => false,
    };
    if !arity_same {
        return false;
    }
    match (&a.callback, &b.callback) {
        (Callback::Native(i), Callback::Native(j)) => *i == *j,
        (
            Callback::Interpreted { params: p, body: c },
            Callback::Interpreted { params: q, body: d },
        ) => {
            if !c.eq(d) {
                return false;
            }
            let r2 = strs_eq_upto(p, q, p.len(), q.len());
            proof {
                assert(p@.take(p@.len() as int) =~= p@);
                assert(q@.take(q@.len() as int) =~= q@);
            }
            r2
        },
        _ => false,
    }
}

/// Decide [`strs_eq`] on prefixes of two lists of names.
pub(crate) fn strs_eq_upto(p: &Vec<String>, q: &Vec<String>, n: usize, m: usize) -> (r: bool)
    requires
        n <= p@.len(),
        m <= q@.len(),
    ensures
        r == strs_eq(p@.take(n as int), q@.take(m as int)),
    decreases n,
{
    if n != m {
        return false;
    }
    if n == 0 {
        proof {
            assert(p@.take(0).len() == 0);
            assert(q@.take(0).len() == 0);
        }
        return true;
    }
    proof {
        assert(p@.take(n as int).drop_last() =~= p@.take(n - 1));
        assert(q@.take(m as int).drop_last() =~= q@.take(m - 1));
        assert(p@.take(n as int).last() == p@[n - 1]);
        assert(q@.take(m as int).last() == q@[m - 1]);
    }
    if !strs_eq_upto(p, q, n - 1, m - 1) {
        return false;
    }
    p[n - 1] == q[n - 1]
}

impl Value {
    /// Structural equality, per [`value_eq`]: same tag, equal payloads.
    pub fn equals(&self, other: &Value) -> (r: bool)
        ensures
            r == value_eq(*self, *other),
        decreases *self, 0int, 0nat,
    {
        match (self, other) {
            (Value::Number(x), Value::Number(y)) => *x == *y,
            (Value::Boolean(x), Value::Boolean(y)) => *x == *y,
            (Value::String(x), Value::String(y)) => x.eq(y),
            (Value::Object(x), Value::Object(y)) => {
                if x.maps.len() != y.maps.len() {
                    proof {
                        assert(!frames_eq(x.maps@, y.maps@));
                    }
                    false
                } else {
                    let r = frames_eq_upto(&x.maps, &y.maps, x.maps.len());
                    proof {
                        assert(x.maps@.take(x.maps@.len() as int) =~= x.maps@);
                        assert(y.maps@.take(y.maps@.len() as int) =~= y.maps@);
                    }
                    r
                }
            },
            (Value::Subroutine(x), Value::Subroutine(y)) => sub_eq_exec(x, y),
            (Value::Null, Value::Null) => true,
            _ => false,
        }
    }

    /// Do `self` and `other` carry the same variant tag, whatever their
    /// payloads? This is the type-compatibility test of the language.
    pub fn tag_matches(&self, other: &Value) -> (r: bool)
        ensures
            r == same_tag(self@, other@),
    {
        match (self, other) {
            (Value::Number(_), Value::Number(_)) => true,
            (Value::Boolean(_), Value::Boolean(_)) => true,
            (Value::String(_), Value::String(_)) => true,
            (Value::Object(_), Value::Object(_)) => true,
            (Value::Subroutine(_), Value::Subroutine(_)) => true,
            (Value::Null, Value::Null) => true,
            _ => false,
        }
    }
}

impl PartialEq for Value {
    /// `==` on values is structural equality, per [`value_eq`].
    fn eq(&self, other: &Value) -> (r: bool) {
        self.equals(other)
    }
}

impl vstd::std_specs::cmp::PartialEqSpecImpl for Value {
    open spec fn obeys_eq_spec() -> bool {
        true
    }

    open spec fn eq_spec(&self, other: &Value) -> bool {
        value_eq(*self, *other)
    }
}

/// A frame stack has as many frames in its model as in its representation.
pub proof fn lemma_frames_model_len(s: Seq<Vec<(String, Binding)>>)
    ensures
        frames_model(s).len() == s.len(),
    decreases s,
{
    if s.len() > 0 {
        lemma_frames_model_len(s.drop_last());
    }
}

/// Each frame of the model is the model of the frame at the same position.
pub proof fn lemma_frames_model_index(s: Seq<Vec<(String, Binding)>>, i: int)
    requires
        0 <= i < s.len(),
    ensures
        frames_model(s).len() == s.len(),
        frames_model(s)[i] == frame_model(s[i]@),
    decreases s,
{
    lemma_frames_model_len(s);
    if i < s.len() - 1 {
        lemma_frames_model_index(s.drop_last(), i);
        assert(s.drop_last()[i] == s[i]);
    }
}

/// Frames with pointwise equal entries (same identifiers, same binding
/// models) have the same model.
pub proof fn lemma_frame_model_congruent(f: Seq<(String, Binding)>, g: Seq<(String, Binding)>)
    requires
        f.len() == g.len(),
        forall|j: int|
            0 <= j < f.len() ==> f[j].0@ == g[j].0@ && binding_model(#[trigger] f[j].1)
                == binding_model(g[j].1),
    ensures
        frame_model(f) == frame_model(g),
    decreases f,
{
    if f.len() > 0 {
        assert forall|j: int| 0 <= j < f.drop_last().len() implies f.drop_last()[j].0@
            == g.drop_last()[j].0@ && binding_model(#[trigger] f.drop_last()[j].1) == binding_model(
            g.drop_last()[j].1,
        ) by {
            assert(f.drop_last()[j] == f[j]);
            assert(g.drop_last()[j] == g[j]);
        }
        lemma_frame_model_congruent(f.drop_last(), g.drop_last());
        assert(f.last() == f[f.len() - 1]);
        assert(g.last() == g[g.len() - 1]);
    }
}

impl Value {
    /// A deep copy of this value: the copy has the same model, so the two
    /// are indistinguishable to every contract of this crate.
    pub fn duplicate(&self) -> (r: Value)
        ensures
            r@ == self@,
        decreases *self, 0int,
    {
        match self {
            Value::Number(n) => Value::Number(*n),
            Value::Boolean(b) => Value::Boolean(*b),
            Value::String(s) => Value::String(s.clone()),
            Value::Object(m) => Value::Object(
                BindingMap { maps: crate::binding::dup_frames(&m.maps) },
            ),
            Value::Subroutine(s) => Value::Subroutine(s.duplicate()),
            Value::Null => Value::Null,
        }
    }
}

impl Subroutine {
    /// A deep copy of this subroutine, with the same model.
    pub fn duplicate(&self) -> (r: Subroutine)
        ensures
            r@ == self@,
    {
        let number_of_args = match &self.number_of_args {
            Some(n) => Some(*n),
            None => None,
        };
        let callback = match &self.callback {
            Callback::Native(id) => Callback::Native(*id),
            Callback::Interpreted { params, body } => {
                let mut ps: Vec<String> = Vec::new();
                let mut i: usize = 0;
                while i < params.len()
                    invariant
                        0 <= i <= params@.len(),
                        ps@.len() == i,
                        forall|k: int| 0 <= k < i ==> ps@[k] == params@[k],
                    decreases params@.len() - i,
                {
                    ps.push(params[i].clone());
                    i = i + 1;
                }
                proof {
                    assert(ps@ =~= params@);
                }
                Callback::Interpreted { params: ps, body: body.clone() }
            },
        };
        Subroutine { number_of_args, callback }
    }
}

impl Clone for Value {
    /// Cloning a value is a deep copy with the same model.
    fn clone(&self) -> (r: Self)
        ensures
            r@ == self@,
    {
        self.duplicate()
    }
}

impl Clone for Subroutine {
    /// Cloning a subroutine is a deep copy with the same model.
    fn clone(&self) -> (r: Self)
        ensures
            r@ == self@,
    {
        self.duplicate()
    }
}

impl Subroutine {
    /// Construct a new subroutine taking exactly `number_of_args` arguments.
    pub fn new(number_of_args: usize, callback: Callback) -> (r: Self)
        ensures
            r == (Subroutine { number_of_args: Some(number_of_args), callback }),
    {
        Subroutine { number_of_args: Some(number_of_args), callback }
    }

    /// Construct a new subroutine that accepts any number of arguments.
    pub fn new_variadic(callback: Callback) -> (r: Self)
        ensures
            r == (Subroutine { number_of_args: None, callback }),
    {
        Subroutine { number_of_args: None, callback }
    }
}

/// The two's-complement range of a Number.
pub open spec fn number_min() -> int {
    -0x8000_0000
}

/// The two's-complement range of a Number.
pub open spec fn number_max() -> int {
    0x7fff_ffff
}

/// Addition on Numbers, wrapping around the fixed-width range.
pub open spec fn wrap_add(a: int, b: int) -> int {
    if a + b > number_max() {
        a + b - 0x1_0000_0000
    } else if a + b < number_min() {
        a + b + 0x1_0000_0000
    } else {
        a + b
    }
}

/// Subtraction on Numbers, wrapping around the fixed-width range.
pub open spec fn wrap_sub(a: int, b: int) -> int {
    if a - b > number_max() {
        a - b - 0x1_0000_0000
    } else if a - b < number_min() {
        a - b + 0x1_0000_0000
    } else {
        a - b
    }
}

/// Multiplication on Numbers, wrapping around the fixed-width range.
pub open spec fn wrap_mul(a: int, b: int) -> int {
    if (a * b) % 0x1_0000_0000 > number_max() {
        (a * b) % 0x1_0000_0000 - 0x1_0000_0000
    } else {
        (a * b) % 0x1_0000_0000
    }
}

/// The result of comparing two values for equality. With `allow_type_diff`
/// (the surface operator `===`), a tag mismatch compares as false and two
/// nulls compare as true; without it (the surface operator `==`), a tag
/// mismatch is a type error and so is comparing nulls. Objects and
/// subroutines cannot be compared by either operator.
pub open spec fn compare_model(a: ModelValue, b: ModelValue, allow_type_diff: bool) -> Result<
    ModelValue,
    ErrorKind,
> {
    if !same_tag(a, b) {
        if allow_type_diff {
            Ok(ModelValue::Boolean(false))
        } else {
            Err(ErrorKind::Type)
        }
    } else if (a is Null) && !allow_type_diff {
        Err(ErrorKind::Type)
    } else {
        match (a, b) {
            (ModelValue::Number(x), ModelValue::Number(y)) => Ok(ModelValue::Boolean(x == y)),
            (ModelValue::Boolean(x), ModelValue::Boolean(y)) => Ok(ModelValue::Boolean(x == y)),
            (ModelValue::Text(x), ModelValue::Text(y)) => Ok(ModelValue::Boolean(x == y)),
            (ModelValue::Null, ModelValue::Null) => Ok(ModelValue::Boolean(true)),
            _ => Err(ErrorKind::Type),
        }
    }
}

/// Is `c` a decimal digit?
pub open spec fn is_digit(c: char) -> bool {
    '0' <= c <= '9'
}

/// The numeric value of a decimal digit.
pub open spec fn digit_of(c: char) -> int {
    c as int - '0' as int
}

/// Is `s` entirely decimal digits?
pub open spec fn all_digits(s: Seq<char>) -> bool {
    forall|i: int| 0 <= i < s.len() ==> is_digit(#[trigger] s[i])
}

/// The value of a string of decimal digits, most significant first.
pub open spec fn digits_val(s: Seq<char>) -> int
    decreases s,
{
    if s.len() == 0 {
        0
    } else {
        digits_val(s.drop_last()) * 10 + digit_of(s.last())
    }
}

/// The mathematical value of a numeric literal: one optional sign, then one
/// or more decimal digits. `None` where the text has any other shape.
pub open spec fn numeric_literal_val(s: Seq<char>) -> Option<int> {
    if s.len() >= 2 && (s[0] == '-' || s[0] == '+') && all_digits(s.skip(1)) {
        if s[0] == '-' {
            Some(-digits_val(s.skip(1)))
        } else {
            Some(digits_val(s.skip(1)))
        }
    } else if s.len() >= 1 && all_digits(s) {
        Some(digits_val(s))
    } else {
        None
    }
}

/// A digit string has a value of at least zero.
pub proof fn lemma_digits_val_nonneg(s: Seq<char>)
    requires
        all_digits(s),
    ensures
        digits_val(s) >= 0,
    decreases s,
{
    if s.len() > 0 {
        assert(all_digits(s.drop_last())) by {
            assert(forall|i: int| 0 <= i < s.drop_last().len() ==> s.drop_last()[i] == s[i]);
        }
        lemma_digits_val_nonneg(s.drop_last());
        assert(is_digit(s[s.len() - 1]));
    }
}

/// A digit string is worth at least any of its prefixes.
pub proof fn lemma_digits_val_prefix(s: Seq<char>, i: int)
    requires
        all_digits(s),
        0 <= i <= s.len(),
    ensures
        digits_val(s) >= digits_val(s.take(i)),
    decreases s.len() - i,
{
    if i == s.len() {
        assert(s.take(i) =~= s);
    } else {
        lemma_digits_val_prefix(s, i + 1);
        assert(s.take(i + 1).drop_last() =~= s.take(i));
        assert(s.take(i + 1).last() == s[i]);
        assert(all_digits(s.take(i))) by {
            assert(forall|k: int| 0 <= k < s.take(i).len() ==> s.take(i)[k] == s[k]);
        }
        lemma_digits_val_nonneg(s.take(i));
        assert(is_digit(s[i]));
        assert(digits_val(s.take(i + 1)) >= digits_val(s.take(i)));
    }
}

/// Parse the digits `s[from..]` left to right, accumulating onto `acc`, and
/// fail as soon as the running value leaves the magnitude bound.
fn parse_digits(s: &Vec<char>, from: usize, acc: i64) -> (r: Option<i64>)
    requires
        from <= s@.len(),
        all_digits(s@.take(from as int)),
        0 <= acc <= 0x8000_0000,
        acc == digits_val(s@.take(from as int)),
    ensures
        match r {
            Some(v) => all_digits(s@) && 0 <= v <= 0x8000_0000 && v == digits_val(s@),
            None => !(all_digits(s@) && digits_val(s@) <= 0x8000_0000),
        },
    decreases s@.len() - from,
{
    if from == s.len() {
        proof {
            assert(s@.take(from as int) =~= s@);
        }
        return Some(acc);
    }
    let c = s[from];
    if !('0' <= c && c <= '9') {
        proof {
            assert(s@[from as int] == c);
            assert(!is_digit(c));
        }
        return None;
    }
    let d = (c as u32) as i64 - 48;
    let acc2 = acc * 10 + d;
    proof {
        assert(s@.take(from + 1 as int).drop_last() =~= s@.take(from as int));
        assert(s@.take(from + 1 as int).last() == s@[from as int]);
        assert(all_digits(s@.take(from + 1 as int))) by {
            assert(forall|k: int|
                0 <= k < s@.take(from + 1 as int).len() ==> s@.take(from + 1 as int)[k] == s@[k]);
            assert(is_digit(s@[from as int]));
        }
        assert(acc2 == digits_val(s@.take(from + 1 as int)));
    }
    if acc2 > 0x8000_0000 {
        proof {
            if all_digits(s@) {
                lemma_digits_val_prefix(s@, from + 1 as int);
            }
        }
        return None;
    }
    parse_digits(s, from + 1, acc2)
}

impl Value {
    /// Create a String value from a quoted string literal, decoding the
    /// backslash escapes that [`crate::utils::unquote`] accepts. Fails with
    /// a parse error exactly when the literal is malformed.
    pub fn from_string_literal(literal: &str) -> (r: JabroniResult<Self>)
        ensures
            match r {
                Ok(v) => unquote_spec(literal@) matches Some(t) && v@ == ModelValue::Text(t),
                Err(e) => unquote_spec(literal@) is None && e@ == ErrorKind::Parse,
            },
    {
        match crate::utils::unquote(literal) {
            Ok(s) => Ok(Value::String(s)),
            Err(e) => Err(e),
        }
    }

    /// Construct a Number value from a decimal literal: an optional sign
    /// followed by digits. Fails with a parse error exactly when the text
    /// has any other shape or its value does not fit the fixed width.
    pub fn from_numeric_literal(literal: &str) -> (r: JabroniResult<Self>)
        ensures
            match r {
                Ok(v) => numeric_literal_val(literal@) matches Some(x) && number_min() <= x
                    <= number_max() && v@ == ModelValue::Number(x),
                Err(e) => e@ == ErrorKind::Parse && !(numeric_literal_val(literal@) matches Some(x)
                    && number_min() <= x <= number_max()),
            },
    {
        let chars = crate::utils::str_to_chars(literal);
        if chars.len() == 0 {
            return Err(JabroniError::Parse(String::from_str("invalid numeric literal")));
        }
        let negative = chars[0] == '-';
        let signed = negative || chars[0] == '+';
        if signed && chars.len() == 1 {
            return Err(JabroniError::Parse(String::from_str("invalid numeric literal")));
        }
        let start: usize = if signed {
            1
        } else {
            0
        };
        proof {
            if !signed {
                assert(chars@.skip(0) =~= chars@);
            }
        }
        let magnitude = match parse_digits_from(&chars, start) {
            Some(v) => v,
            None => {
                return Err(JabroniError::Parse(String::from_str("invalid numeric literal")));
            },
        };
        if negative {
            if magnitude > 0x8000_0000i64 {
                return Err(JabroniError::Parse(String::from_str("invalid numeric literal")));
            }
            Ok(Value::Number((-magnitude) as i32))
        } else {
            if magnitude > 0x7fff_ffffi64 {
                return Err(JabroniError::Parse(String::from_str("invalid numeric literal")));
            }
            Ok(Value::Number(magnitude as i32))
        }
    }

    /// Construct a Boolean value from exactly the literal text `true` or
    /// `false`; any other text fails with a parse error.
    pub fn from_boolean_literal(literal: &str) -> (r: JabroniResult<Self>)
        ensures
            match r {
                Ok(v) => (literal@ == "true"@ && v@ == ModelValue::Boolean(true)) || (literal@
                    == "false"@ && v@ == ModelValue::Boolean(false)),
                Err(e) => literal@ != "true"@ && literal@ != "false"@ && e@ == ErrorKind::Parse,
            },
    {
        if crate::utils::str_eq(literal, "true") {
            Ok(Value::Boolean(true))
        } else if crate::utils::str_eq(literal, "false") {
            Ok(Value::Boolean(false))
        } else {
            let mut m = String::from_str("Couldn't form boolean literal from '");
            m.append(literal);
            m.append("'");
            Err(JabroniError::Parse(m))
        }
    }

    /// Succeed exactly when `value` carries the same tag as `self`; fail
    /// with a type error otherwise.
    pub fn assert_same_type(&self, value: &Value) -> (r: JabroniResult)
        ensures
            match r {
                Ok(_) => same_tag(self@, value@),
                Err(e) => !same_tag(self@, value@) && e@ == ErrorKind::Type,
            },
    {
        if self.tag_matches(value) {
            Ok(())
        } else {
            Err(JabroniError::Type(String::from_str("Type mismatch")))
        }
    }

    /// Add a Number to this Number in place, wrapping on overflow. Both
    /// operands must be Numbers; otherwise nothing changes and a type error
    /// is reported.
    pub fn add(&mut self, value: Value) -> (r: JabroniResult)
        ensures
            match (old(self)@, value@) {
                (ModelValue::Number(a), ModelValue::Number(b)) => r is Ok && final(self)@
                    == ModelValue::Number(wrap_add(a, b)),
                _ => (r matches Err(e) && e@ == ErrorKind::Type) && *final(self) == *old(self),
            },
    {
        match self {
            Value::Number(a) => match value {
                Value::Number(b) => {
                    *a = a.wrapping_add(b);
                    Ok(())
                },
                _ => Err(JabroniError::Type(String::from_str("Expected number"))),
            },
            _ => Err(JabroniError::Type(String::from_str("Expected number"))),
        }
    }

    /// Subtract a Number from this Number in place, wrapping on overflow.
    /// Both operands must be Numbers; otherwise nothing changes and a type
    /// error is reported.
    pub fn subtract(&mut self, value: Value) -> (r: JabroniResult)
        ensures
            match (old(self)@, value@) {
                (ModelValue::Number(a), ModelValue::Number(b)) => r is Ok && final(self)@
                    == ModelValue::Number(wrap_sub(a, b)),
                _ => (r matches Err(e) && e@ == ErrorKind::Type) && *final(self) == *old(self),
            },
    {
        match self {
            Value::Number(a) => match value {
                Value::Number(b) => {
                    *a = a.wrapping_sub(b);
                    Ok(())
                },
                _ => Err(JabroniError::Type(String::from_str("Expected number"))),
            },
            _ => Err(JabroniError::Type(String::from_str("Expected number"))),
        }
    }

    /// Multiply this Number by a Number in place, wrapping on overflow.
    /// Both operands must be Numbers; otherwise nothing changes and a type
    /// error is reported.
    pub fn multiply(&mut self, value: Value) -> (r: JabroniResult)
        ensures
            match (old(self)@, value@) {
                (ModelValue::Number(a), ModelValue::Number(b)) => r is Ok && final(self)@
                    == ModelValue::Number(wrap_mul(a, b)),
                _ => (r matches Err(e) && e@ == ErrorKind::Type) && *final(self) == *old(self),
            },
    {
        match self {
            Value::Number(a) => match value {
                Value::Number(b) => {
                    *a = a.wrapping_mul(b);
                    Ok(())
                },
                _ => Err(JabroniError::Type(String::from_str("Expected number"))),
            },
            _ => Err(JabroniError::Type(String::from_str("Expected number"))),
        }
    }

    /// Negate this Boolean in place (logical NOT). A non-Boolean is left
    /// unchanged and reported as a type error.
    pub fn inverse(&mut self) -> (r: JabroniResult)
        ensures
            match old(self)@ {
                ModelValue::Boolean(b) => r is Ok && final(self)@ == ModelValue::Boolean(!b),
                _ => (r matches Err(e) && e@ == ErrorKind::Type) && *final(self) == *old(self),
            },
    {
        match self {
            Value::Boolean(b) => {
                *b = !*b;
                Ok(())
            },
            _ => Err(JabroniError::Type(String::from_str("Cannot inverse a non-boolean"))),
        }
    }

    /// Compare this value with `value` for equality, per [`compare_model`],
    /// replacing this value with the Boolean outcome on success and leaving
    /// it unchanged on error. `allow_type_diff` selects the lenient mode
    /// (surface `===`), in which a tag mismatch yields false rather than a
    /// type error and nulls may be compared.
    pub fn compare(&mut self, value: Value, allow_type_diff: bool) -> (r: JabroniResult)
        ensures
            match r {
                Ok(_) => compare_model(old(self)@, value@, allow_type_diff) == Ok::<
                    ModelValue,
                    ErrorKind,
                >(final(self)@),
                Err(e) => compare_model(old(self)@, value@, allow_type_diff) == Err::<
                    ModelValue,
                    ErrorKind,
                >(e@) && *final(self) == *old(self),
            },
    {
        if !self.tag_matches(&value) {
            if allow_type_diff {
                *self = Value::Boolean(false);
                return Ok(());
            } else {
                return Err(JabroniError::Type(String::from_str(
                    "Cannot compare between values of different types. Try using '===' or '!=='",
                )));
            }
        }
        let comparison: bool = match (&*self, &value) {
            (Value::Number(x), Value::Number(y)) => *x == *y,
            (Value::Boolean(x), Value::Boolean(y)) => *x == *y,
            (Value::String(x), Value::String(y)) => x.eq(y),
            (Value::Null, Value::Null) => {
                if !allow_type_diff {
                    return Err(JabroniError::Type(String::from_str(
                        "Can't compare null values. Use '===' or '!=='",
                    )));
                }
                true
            },
            _ => {
                return Err(JabroniError::Type(String::from_str(
                    "Cannot compare values of this type",
                )));
            },
        };
        *self = Value::Boolean(comparison);
        Ok(())
    }

    /// Compare this Number with another under the given comparator,
    /// replacing this value with the Boolean outcome. Both operands must be
    /// Numbers; otherwise nothing changes and a type error is reported.
    pub fn compare_inequality<F: Fn(i32, i32) -> bool>(
        &mut self,
        value: Value,
        comparator: F,
    ) -> (r: JabroniResult)
        requires
            forall|x: i32, y: i32| call_requires(comparator, (x, y)),
        ensures
            match r {
                Ok(_) => match (old(self)@, value@) {
                    (ModelValue::Number(a), ModelValue::Number(b)) => exists|c: bool|
                        call_ensures(comparator, (a as i32, b as i32), c) && final(self)@
                            == ModelValue::Boolean(c),
                    _ => false,
                },
                Err(e) => !((old(self)@ is Number) && (value@ is Number)) && e@ == ErrorKind::Type
                    && *final(self) == *old(self),
            },
    {
        let operands: (i32, i32) = match (&*self, &value) {
            (Value::Number(x), Value::Number(y)) => (*x, *y),
            _ => {
                if !self.tag_matches(&value) {
                    return Err(JabroniError::Type(String::from_str(
                        "Cannot compare between values of different types. Try using '===' or '!=='",
                    )));
                }
                return Err(JabroniError::Type(String::from_str(
                    "Cannot compare values of this type",
                )));
            },
        };
        let comparison = comparator(operands.0, operands.1);
        *self = Value::Boolean(comparison);
        proof {
            assert(old(self)@ is Number);
            assert(value@ is Number);
            if let (ModelValue::Number(a), ModelValue::Number(b)) = (old(self)@, value@) {
                assert(call_ensures(comparator, (a as i32, b as i32), comparison));
                assert(self@ == ModelValue::Boolean(comparison));
                assert(exists|c: bool|
                    call_ensures(comparator, (a as i32, b as i32), c) && self@
                        == ModelValue::Boolean(c));
            }
        }
        Ok(())
    }
}

/// Parse the digits of `s[from..]` as a decimal number, requiring at least
/// one digit and nothing else to the end; fail where the value exceeds the
/// fixed-width magnitude bound.
fn parse_digits_from(s: &Vec<char>, from: usize) -> (r: Option<i64>)
    requires
        from < s@.len(),
    ensures
        match r {
            Some(v) => all_digits(s@.skip(from as int)) && 0 <= v <= 0x8000_0000 && v == digits_val(
                s@.skip(from as int),
            ),
            None => !(all_digits(s@.skip(from as int)) && digits_val(s@.skip(from as int))
                <= 0x8000_0000),
        },
{
    let tail = tail_chars(s, from);
    parse_digits(&tail, 0, 0)
}

/// The characters of `s` from position `from` on.
fn tail_chars(s: &Vec<char>, from: usize) -> (r: Vec<char>)
    requires
        from <= s@.len(),
    ensures
        r@ == s@.skip(from as int),
{
    let mut r: Vec<char> = Vec::new();
    let mut i: usize = from;
    while i < s.len()
        invariant
            from <= i <= s@.len(),
            r@ == s@.subrange(from as int, i as int),
        decreases s@.len() - i,
    {
        r.push(s[i]);
        proof {
            assert(r@ =~= s@.subrange(from as int, i + 1 as int));
        }
        i = i + 1;
    }
    proof {
        assert(r@ =~= s@.skip(from as int));
    }
    r
}

impl From<i32> for Value {
    /// A Number value from its integer.
    fn from(value: i32) -> (r: Value) {
        Value::Number(value)
    }
}

impl vstd::std_specs::convert::FromSpecImpl<i32> for Value {
    open spec fn obeys_from_spec() -> bool {
        true
    }

    open spec fn from_spec(value: i32) -> Value {
        Value::Number(value)
    }
}

impl From<bool> for Value {
    /// A Boolean value from its truth value.
    fn from(value: bool) -> (r: Value) {
        Value::Boolean(value)
    }
}

impl vstd::std_specs::convert::FromSpecImpl<bool> for Value {
    open spec fn obeys_from_spec() -> bool {
        true
    }

    open spec fn from_spec(value: bool) -> Value {
        Value::Boolean(value)
    }
}

impl Value {
    /// The number this value carries, if it is a Number.
    pub fn as_number(&self) -> (r: Option<&i32>)
        ensures
            match r {
                Some(n) => self@ == ModelValue::Number(*n as int),
                None => !(self@ is Number),
            },
    {
        match self {
            Value::Number(n) => Some(n),
            _ => None,
        }
    }

    /// The truth value this value carries, if it is a Boolean.
    pub fn as_boolean(&self) -> (r: Option<&bool>)
        ensures
            match r {
                Some(b) => self@ == ModelValue::Boolean(*b),
                None => !(self@ is Boolean),
            },
    {
        match self {
            Value::Boolean(b) => Some(b),
            _ => None,
        }
    }

    /// The text this value carries, if it is a String.
    pub fn as_string(&self) -> (r: Option<&String>)
        ensures
            match r {
                Some(s) => self@ == ModelValue::Text(s@),
                None => !(self@ is Text),
            },
    {
        match self {
            Value::String(s) => Some(s),
            _ => None,
        }
    }

    /// The record this value carries, if it is an Object.
    pub fn as_object(&self) -> (r: Option<&BindingMap>)
        ensures
            match r {
                Some(m) => self@ == ModelValue::Object(m@),
                None => !(self@ is Object),
            },
    {
        match self {
            Value::Object(m) => Some(m),
            _ => None,
        }
    }

    /// The callable this value carries, if it is a Subroutine.
    pub fn as_subroutine(&self) -> (r: Option<&Subroutine>)
        ensures
            match r {
                Some(s) => self@ == ModelValue::Subroutine(s@),
                None => !(self@ is Subroutine),
            },
    {
        match self {
            Value::Subroutine(s) => Some(s),
            _ => None,
        }
    }

    /// Is this value Null?
    pub fn is_null(&self) -> (r: bool)
        ensures
            r == (self@ is Null),
    {
        match self {
            Value::Null => true,
            _ => false,
        }
    }
}

} // verus!

