use crate::ast::{
    clone_statements, stmts_view, strings_view, clone_strings, NodeStatement, NodeStatementV,
};
use crate::builtins::BuiltinFn;
use crate::compiler::code::Instructions;
use crate::text::{
    chars_of, escape_debug, escape_debug_spec, int_text, push_chars, push_int, push_str,
    string_from_chars,
};
use vstd::prelude::*;

verus! {

/// A run-time value, shared by the tree-walking interpreter and the virtual machine.
#[derive(Debug, PartialEq)]
pub enum Object {
    Nil,
    Integer(i64),
    Boolean(bool),
    Str(String),
    Array(Vec<Object>),
    /// A hash, as a list of entries whose keys are distinct and in ascending key order.
    Hash(Vec<(HashableObject, Object)>),
    CompiledFunc(Box<CompiledFunction>),
    Closure(Box<Closure>),
    InterpreterFunc(Box<InterpreterFunctionObject>),
    Builtin(BuiltinFn),
}

/// A function compiled to bytecode.
#[derive(Debug, PartialEq)]
pub struct CompiledFunction {
    pub instructions: Instructions,
    pub num_locals: u8,
    pub num_params: u8,
}

/// A compiled function together with the values of its free variables.
#[derive(Debug, PartialEq)]
pub struct Closure {
    pub func: CompiledFunction,
    pub free_vars: Vec<Object>,
}

/// A function value of the interpreter: its parameters, its body, and the environment
/// (an index into the interpreter's environment store) that it closes over.
#[derive(Debug, PartialEq)]
pub struct InterpreterFunctionObject {
    pub environment: usize,
    pub parameters: Vec<String>,
    pub body: Vec<NodeStatement>,
}

/// The values that can be used as hash keys.
#[derive(Debug, Clone, PartialEq, Eq, PartialOrd, Ord, Hash)]
pub enum HashableObject {
    Nil,
    Integer(i64),
    Boolean(bool),
    Str(String),
}

// ---------------------------------------------------------------------------------------------
// Views
// ---------------------------------------------------------------------------------------------

pub enum HashKeyV {
    Nil,
    Integer(i64),
    Boolean(bool),
    Str(Seq<char>),
}

pub enum ObjectV {
    Nil,
    Integer(i64),
    Boolean(bool),
    Str(Seq<char>),
    Array(Seq<ObjectV>),
    Hash(Seq<(HashKeyV, ObjectV)>),
    CompiledFunc(Seq<u8>, u8, u8),
    Closure(Seq<u8>, u8, u8, Seq<ObjectV>),
    InterpreterFunc(usize, Seq<Seq<char>>, Seq<NodeStatementV>),
    Builtin(BuiltinFn),
}

impl View for HashableObject {
    type V = HashKeyV;

    open spec fn view(&self) -> HashKeyV {
        match self {
            HashableObject::Nil => HashKeyV::Nil,
            HashableObject::Integer(i) => HashKeyV::Integer(*i),
            HashableObject::Boolean(b) => HashKeyV::Boolean(*b),
            HashableObject::Str(s) => HashKeyV::Str(s@),
        }
    }
}

pub open spec fn object_view(o: Object) -> ObjectV
    decreases o,
{
    match o {
        Object::Nil => ObjectV::Nil,
        Object::Integer(i) => ObjectV::Integer(i),
        Object::Boolean(b) => ObjectV::Boolean(b),
        Object::Str(s) => ObjectV::Str(s@),
        Object::Array(v) => ObjectV::Array(objects_view(v@)),
        Object::Hash(v) => ObjectV::Hash(entries_view(v@)),
        Object::CompiledFunc(f) => ObjectV::CompiledFunc(
            f.instructions.0@,
            f.num_locals,
            f.num_params,
        ),
        Object::Closure(c) => ObjectV::Closure(
            c.func.instructions.0@,
            c.func.num_locals,
            c.func.num_params,
            objects_view(c.free_vars@),
        ),
        Object::InterpreterFunc(f) => ObjectV::InterpreterFunc(
            f.environment,
            strings_view(f.parameters@),
            stmts_view(f.body@),
        ),
        Object::Builtin(b) => ObjectV::Builtin(b),
    }
}

pub open spec fn objects_view(s: Seq<Object>) -> Seq<ObjectV>
    decreases s,
{
    if s.len() == 0 {
        seq![]
    } else {
        proof {
            vstd::seq::axiom_seq_len_decreases(s, s.drop_last());
        }
        objects_view(s.drop_last()).push(object_view(s.last()))
    }
}

pub open spec fn entries_view(s: Seq<(HashableObject, Object)>) -> Seq<(HashKeyV, ObjectV)>
    decreases s,
{
    if s.len() == 0 {
        seq![]
    } else {
        proof {
            vstd::seq::axiom_seq_len_decreases(s, s.drop_last());
        }
        entries_view(s.drop_last()).push((s.last().0@, object_view(s.last().1)))
    }
}

impl View for Object {
    type V = ObjectV;

    open spec fn view(&self) -> ObjectV {
        object_view(*self)
    }
}

pub proof fn lemma_objects_view_len(s: Seq<Object>)
    ensures
        objects_view(s).len() == s.len(),
        forall|i: int| 0 <= i < s.len() ==> #[trigger] objects_view(s)[i] == object_view(s[i]),
    decreases s.len(),
{
    if s.len() > 0 {
        lemma_objects_view_len(s.drop_last());
    }
}

pub proof fn lemma_entries_view_len(s: Seq<(HashableObject, Object)>)
    ensures
        entries_view(s).len() == s.len(),
        forall|i: int|
            0 <= i < s.len() ==> #[trigger] entries_view(s)[i] == (s[i].0@, object_view(s[i].1)),
    decreases s.len(),
{
    if s.len() > 0 {
        lemma_entries_view_len(s.drop_last());
    }
}

// ---------------------------------------------------------------------------------------------
// Names, truthiness, equality
// ---------------------------------------------------------------------------------------------

/// The name of the type of a value, as it appears in error messages.
pub open spec fn type_label(o: ObjectV) -> Seq<char> {
    match o {
        ObjectV::Nil => "nil"@,
        ObjectV::Integer(_) => "int"@,
        ObjectV::Boolean(_) => "bool"@,
        ObjectV::Str(_) => "string"@,
        ObjectV::Array(_) => "array"@,
        ObjectV::Hash(_) => "hash"@,
        _ => "function"@,
    }
}

/// Every value is truthy except `false`, `nil` and `0`.
pub open spec fn truthy(o: ObjectV) -> bool {
    match o {
        ObjectV::Boolean(false) | ObjectV::Nil | ObjectV::Integer(0) => false,
        _ => true,
    }
}

/// Equality of two values, where it is defined: between two integers, two booleans, two strings
/// or two `nil`s.
pub open spec fn equality(l: ObjectV, r: ObjectV) -> Option<bool> {
    match (l, r) {
        (ObjectV::Nil, ObjectV::Nil) => Some(true),
        (ObjectV::Integer(a), ObjectV::Integer(b)) => Some(a == b),
        (ObjectV::Boolean(a), ObjectV::Boolean(b)) => Some(a == b),
        (ObjectV::Str(a), ObjectV::Str(b)) => Some(a == b),
        _ => None,
    }
}

/// The hash key that a value can serve as, if any.
pub open spec fn as_key(o: ObjectV) -> Option<HashKeyV> {
    match o {
        ObjectV::Nil => Some(HashKeyV::Nil),
        ObjectV::Integer(i) => Some(HashKeyV::Integer(i)),
        ObjectV::Boolean(b) => Some(HashKeyV::Boolean(b)),
        ObjectV::Str(s) => Some(HashKeyV::Str(s)),
        _ => None,
    }
}

pub open spec fn key_object(k: HashKeyV) -> ObjectV {
    match k {
        HashKeyV::Nil => ObjectV::Nil,
        HashKeyV::Integer(i) => ObjectV::Integer(i),
        HashKeyV::Boolean(b) => ObjectV::Boolean(b),
        HashKeyV::Str(s) => ObjectV::Str(s),
    }
}

impl Object {
    pub fn type_str(&self) -> (r: &'static str)
        ensures
            r@ == type_label(self@),
    {
        match self {
            Object::Nil => "nil",
            Object::Integer(_) => "int",
            Object::Boolean(_) => "bool",
            Object::Str(_) => "string",
            Object::Array(_) => "array",
            Object::Hash(_) => "hash",
            Object::CompiledFunc(_) | Object::Closure(_) | Object::InterpreterFunc(_)
            | Object::Builtin(_) => "function",
        }
    }

    pub fn is_truthy(&self) -> (r: bool)
        ensures
            r == truthy(self@),
    {
        match self {
            Object::Boolean(false) | Object::Nil | Object::Integer(0) => false,
            _ => true,
        }
    }

    /// Compares two values; `None` where comparison is unsupported (functions, arrays, hashes,
    /// and values of different types).
    pub fn are_equal(left: &Object, right: &Object) -> (r: Option<bool>)
        ensures
            r == equality(left@, right@),
    {
        match (left, right) {
            (Object::Nil, Object::Nil) => Some(true),
            (Object::Integer(l), Object::Integer(r)) => Some(*l == *r),
            (Object::Boolean(l), Object::Boolean(r)) => Some(*l == *r),
            (Object::Str(l), Object::Str(r)) => Some(*l == *r),
            _ => None,
        }
    }

    /// A copy of this value.
    pub fn clone_object(&self) -> (r: Object)
        ensures
            r@ == self@,
        decreases self,
    {
        match self {
            Object::Nil => Object::Nil,
            Object::Integer(i) => Object::Integer(*i),
            Object::Boolean(b) => Object::Boolean(*b),
            Object::Str(s) => Object::Str(s.clone()),
            Object::Array(v) => {
                proof {
                    assert(decreases_to!(*self => self->Array_0));
                }
                Object::Array(clone_objects(v))
            },
            Object::Hash(v) => {
                proof {
                    assert(decreases_to!(*self => self->Hash_0));
                }
                Object::Hash(clone_entries(v))
            },
            Object::CompiledFunc(f) => Object::CompiledFunc(
                Box::new(
                    CompiledFunction {
                        instructions: Instructions(f.instructions.0.clone()),
                        num_locals: f.num_locals,
                        num_params: f.num_params,
                    },
                ),
            ),
            Object::Closure(c) => {
                proof {
                    assert(decreases_to!(*self => self->Closure_0));
                    assert(decreases_to!(self->Closure_0 => self->Closure_0.free_vars));
                }
                let free_vars = clone_objects(&c.free_vars);
                Object::Closure(
                    Box::new(
                        Closure {
                            func: CompiledFunction {
                                instructions: Instructions(c.func.instructions.0.clone()),
                                num_locals: c.func.num_locals,
                                num_params: c.func.num_params,
                            },
                            free_vars,
                        },
                    ),
                )
            },
            Object::InterpreterFunc(f) => Object::InterpreterFunc(
                Box::new(
                    InterpreterFunctionObject {
                        environment: f.environment,
                        parameters: clone_strings(&f.parameters),
                        body: clone_statements(&f.body),
                    },
                ),
            ),
            Object::Builtin(b) => Object::Builtin(*b),
        }
    }
}

/// A copy of a list of values.
pub fn clone_objects(v: &Vec<Object>) -> (r: Vec<Object>)
    ensures
        objects_view(r@) == objects_view(v@),
    decreases v,
{
    let mut r: Vec<Object> = Vec::new();
    let mut i: usize = 0;
    while i < v.len()
        invariant
            i <= v@.len(),
            objects_view(r@) == objects_view(v@.take(i as int)),
        decreases v@.len() - i,
    {
        let ghost old_r = r@;
        proof {
            assert(decreases_to!(*v => v@[i as int]));
        }
        let c = v[i].clone_object();
        r.push(c);
        assert(r@.drop_last() =~= old_r);
        assert(v@.take(i + 1).drop_last() =~= v@.take(i as int));
        assert(objects_view(r@) == objects_view(old_r).push(object_view(c)));
        assert(objects_view(v@.take(i + 1)) == objects_view(v@.take(i as int)).push(
            object_view(v@[i as int]),
        ));
        i = i + 1;
    }
    assert(v@.take(v@.len() as int) =~= v@);
    r
}

/// A copy of a list of hash entries.
pub fn clone_entries(v: &Vec<(HashableObject, Object)>) -> (r: Vec<(HashableObject, Object)>)
    ensures
        entries_view(r@) == entries_view(v@),
    decreases v,
{
    let mut r: Vec<(HashableObject, Object)> = Vec::new();
    let mut i: usize = 0;
    while i < v.len()
        invariant
            i <= v@.len(),
            entries_view(r@) == entries_view(v@.take(i as int)),
        decreases v@.len() - i,
    {
        let ghost old_r = r@;
        proof {
            assert(decreases_to!(*v => v@[i as int]));
            assert(decreases_to!(v@[i as int] => v@[i as int].1));
        }
        let k = v[i].0.clone_key();
        let c = v[i].1.clone_object();
        r.push((k, c));
        assert(r@.drop_last() =~= old_r);
        assert(v@.take(i + 1).drop_last() =~= v@.take(i as int));
        assert(entries_view(r@) == entries_view(old_r).push((k@, object_view(c))));
        assert(entries_view(v@.take(i + 1)) == entries_view(v@.take(i as int)).push(
            (v@[i as int].0@, object_view(v@[i as int].1)),
        ));
        i = i + 1;
    }
    assert(v@.take(v@.len() as int) =~= v@);
    r
}

impl HashableObject {
    /// The hash key that a value can serve as: `nil`, integers, booleans and strings.
    pub fn from_object(obj: Object) -> (r: Option<HashableObject>)
        ensures
            match as_key(obj@) {
                Some(k) => r is Some && r->Some_0@ == k,
                None => r is None,
            },
    {
        match obj {
            Object::Nil => Some(HashableObject::Nil),
            Object::Integer(i) => Some(HashableObject::Integer(i)),
            Object::Boolean(b) => Some(HashableObject::Boolean(b)),
            Object::Str(s) => Some(HashableObject::Str(s)),
            _ => None,
        }
    }

    /// The value that this key stands for.
    pub fn to_object(&self) -> (r: Object)
        ensures
            r@ == key_object(self@),
    {
        match self {
            HashableObject::Nil => Object::Nil,
            HashableObject::Integer(i) => Object::Integer(*i),
            HashableObject::Boolean(b) => Object::Boolean(*b),
            HashableObject::Str(s) => Object::Str(s.clone()),
        }
    }

    /// A copy of this key.
    pub fn clone_key(&self) -> (r: HashableObject)
        ensures
            r@ == self@,
    {
        match self {
            HashableObject::Nil => HashableObject::Nil,
            HashableObject::Integer(i) => HashableObject::Integer(*i),
            HashableObject::Boolean(b) => HashableObject::Boolean(*b),
            HashableObject::Str(s) => HashableObject::Str(s.clone()),
        }
    }
}

} // verus!

verus! {

// ---------------------------------------------------------------------------------------------
// Hash keys: their order, and hashes as sorted lists of entries
// ---------------------------------------------------------------------------------------------

/// Lexicographic order on character sequences, by code point (the order of `String`).
pub open spec fn chars_lt(a: Seq<char>, b: Seq<char>) -> bool
    decreases a.len(),
{
    if a.len() == 0 {
        b.len() > 0
    } else if b.len() == 0 {
        false
    } else if a[0] != b[0] {
        a[0] < b[0]
    } else {
        chars_lt(a.skip(1), b.skip(1))
    }
}

pub open spec fn key_rank(k: HashKeyV) -> int {
    match k {
        HashKeyV::Nil => 0,
        HashKeyV::Integer(_) => 1,
        HashKeyV::Boolean(_) => 2,
        HashKeyV::Str(_) => 3,
    }
}

/// The order of hash keys: `nil`, then integers, then booleans, then strings, each kind in its
/// own order (the order of `HashableObject`).
pub open spec fn key_lt(a: HashKeyV, b: HashKeyV) -> bool {
    if key_rank(a) != key_rank(b) {
        key_rank(a) < key_rank(b)
    } else {
        match (a, b) {
            (HashKeyV::Integer(x), HashKeyV::Integer(y)) => x < y,
            (HashKeyV::Boolean(x), HashKeyV::Boolean(y)) => !x && y,
            (HashKeyV::Str(x), HashKeyV::Str(y)) => chars_lt(x, y),
            _ => false,
        }
    }
}

/// A hash is well formed when its keys are in strictly ascending order, hence distinct.
pub open spec fn hash_wf(s: Seq<(HashKeyV, ObjectV)>) -> bool {
    forall|i: int, j: int| 0 <= i < j < s.len() ==> key_lt(#[trigger] s[i].0, #[trigger] s[j].0)
}

/// The value stored under key `k`.
pub open spec fn hash_get(s: Seq<(HashKeyV, ObjectV)>, k: HashKeyV) -> Option<ObjectV>
    decreases s.len(),
{
    if s.len() == 0 {
        None
    } else if s[0].0 == k {
        Some(s[0].1)
    } else {
        hash_get(s.skip(1), k)
    }
}

/// The hash with `v` stored under `k`, replacing what was stored there.
pub open spec fn hash_put(s: Seq<(HashKeyV, ObjectV)>, k: HashKeyV, v: ObjectV) -> Seq<
    (HashKeyV, ObjectV),
>
    decreases s.len(),
{
    if s.len() == 0 {
        seq![(k, v)]
    } else if key_lt(s[0].0, k) {
        seq![s[0]] + hash_put(s.skip(1), k, v)
    } else if s[0].0 == k {
        seq![(k, v)] + s.skip(1)
    } else {
        seq![(k, v)] + s
    }
}

pub proof fn lemma_chars_lt_irreflexive(a: Seq<char>)
    ensures
        !chars_lt(a, a),
    decreases a.len(),
{
    if a.len() > 0 {
        lemma_chars_lt_irreflexive(a.skip(1));
    }
}

pub proof fn lemma_chars_lt_transitive(a: Seq<char>, b: Seq<char>, c: Seq<char>)
    requires
        chars_lt(a, b),
        chars_lt(b, c),
    ensures
        chars_lt(a, c),
    decreases a.len(),
{
    if a.len() > 0 && b.len() > 0 && c.len() > 0 {
        if a[0] == b[0] && b[0] == c[0] {
            lemma_chars_lt_transitive(a.skip(1), b.skip(1), c.skip(1));
        }
    }
}

pub proof fn lemma_chars_lt_total(a: Seq<char>, b: Seq<char>)
    ensures
        a == b || chars_lt(a, b) || chars_lt(b, a),
    decreases a.len(),
{
    if a.len() > 0 && b.len() > 0 {
        if a[0] == b[0] {
            lemma_chars_lt_total(a.skip(1), b.skip(1));
            if a.skip(1) == b.skip(1) {
                assert(a =~= seq![a[0]] + a.skip(1));
                assert(b =~= seq![b[0]] + b.skip(1));
            }
        }
    } else if a.len() == 0 && b.len() == 0 {
        assert(a =~= b);
    }
}

pub proof fn lemma_key_lt_facts()
    ensures
        forall|a: HashKeyV| !#[trigger] key_lt(a, a),
        forall|a: HashKeyV, b: HashKeyV, c: HashKeyV|
            #[trigger] key_lt(a, b) && #[trigger] key_lt(b, c) ==> key_lt(a, c),
        forall|a: HashKeyV, b: HashKeyV| a == b || #[trigger] key_lt(a, b) || #[trigger] key_lt(b, a),
{
    assert forall|a: HashKeyV| !#[trigger] key_lt(a, a) by {
        if let HashKeyV::Str(x) = a {
            lemma_chars_lt_irreflexive(x);
        }
    }
    assert forall|a: HashKeyV, b: HashKeyV, c: HashKeyV|
        #[trigger] key_lt(a, b) && #[trigger] key_lt(b, c) implies key_lt(a, c) by {
        if let (HashKeyV::Str(x), HashKeyV::Str(y), HashKeyV::Str(z)) = (a, b, c) {
            lemma_chars_lt_transitive(x, y, z);
        }
    }
    assert forall|a: HashKeyV, b: HashKeyV| a == b || #[trigger] key_lt(a, b) || #[trigger] key_lt(b, a) by {
        if let (HashKeyV::Str(x), HashKeyV::Str(y)) = (a, b) {
            lemma_chars_lt_total(x, y);
        }
    }
}

/// Law: storing a value keeps a hash well formed.
pub proof fn lemma_hash_put_wf(s: Seq<(HashKeyV, ObjectV)>, k: HashKeyV, v: ObjectV)
    requires
        hash_wf(s),
    ensures
        hash_wf(hash_put(s, k, v)),
        forall|i: int|
            0 <= i < hash_put(s, k, v).len() ==> (#[trigger] hash_put(s, k, v)[i].0 == k || exists|
                j: int,
            | 0 <= j < s.len() && s[j].0 == hash_put(s, k, v)[i].0),
    decreases s.len(),
{
    lemma_key_lt_facts();
    let r = hash_put(s, k, v);
    if s.len() == 0 {
    } else if key_lt(s[0].0, k) {
        let t = s.skip(1);
        assert forall|i: int, j: int| 0 <= i < j < t.len() implies key_lt(
            #[trigger] t[i].0,
            #[trigger] t[j].0,
        ) by {
            assert(t[i] == s[i + 1]);
            assert(t[j] == s[j + 1]);
        }
        lemma_hash_put_wf(t, k, v);
        let rt = hash_put(t, k, v);
        assert(r == seq![s[0]] + rt);
        assert forall|i: int| 0 <= i < r.len() implies (#[trigger] r[i].0 == k || exists|j: int|
            0 <= j < s.len() && s[j].0 == r[i].0) by {
            if i == 0 {
                assert(s[0].0 == r[0].0);
            } else {
                assert(r[i] == rt[i - 1]);
                if rt[i - 1].0 != k {
                    let j = choose|j: int| 0 <= j < t.len() && t[j].0 == rt[i - 1].0;
                    assert(s[j + 1].0 == r[i].0);
                }
            }
        }
        assert forall|i: int, j: int| 0 <= i < j < r.len() implies key_lt(
            #[trigger] r[i].0,
            #[trigger] r[j].0,
        ) by {
            if i == 0 {
                assert(r[j] == rt[j - 1]);
                if rt[j - 1].0 == k {
                } else {
                    let m = choose|m: int| 0 <= m < t.len() && t[m].0 == rt[j - 1].0;
                    assert(s[m + 1].0 == r[j].0);
                }
            } else {
                assert(r[i] == rt[i - 1]);
                assert(r[j] == rt[j - 1]);
            }
        }
    } else if s[0].0 == k {
        assert forall|i: int, j: int| 0 <= i < j < r.len() implies key_lt(
            #[trigger] r[i].0,
            #[trigger] r[j].0,
        ) by {
            assert(r[j] == s[j]);
            if i > 0 {
                assert(r[i] == s[i]);
            } else {
                assert(key_lt(s[0].0, s[j].0));
            }
        }
        assert forall|i: int| 0 <= i < r.len() implies (#[trigger] r[i].0 == k || exists|j: int|
            0 <= j < s.len() && s[j].0 == r[i].0) by {
            if i > 0 {
                assert(r[i] == s[i]);
            }
        }
    } else {
        assert forall|i: int, j: int| 0 <= i < j < r.len() implies key_lt(
            #[trigger] r[i].0,
            #[trigger] r[j].0,
        ) by {
            assert(r[j] == s[j - 1]);
            if i > 0 {
                assert(r[i] == s[i - 1]);
            } else {
                assert(key_lt(k, s[0].0));
                if j - 1 > 0 {
                    assert(key_lt(s[0].0, s[j - 1].0));
                    assert(key_lt(k, s[j - 1].0));
                }
            }
        }
        assert forall|i: int| 0 <= i < r.len() implies (#[trigger] r[i].0 == k || exists|j: int|
            0 <= j < s.len() && s[j].0 == r[i].0) by {
            if i > 0 {
                assert(r[i] == s[i - 1]);
            }
        }
    }
}

/// Law: after storing `v` under `k`, the hash gives `v` for `k` and what it gave before for any
/// other key.
pub proof fn lemma_hash_put_get(s: Seq<(HashKeyV, ObjectV)>, k: HashKeyV, v: ObjectV, k2: HashKeyV)
    requires
        hash_wf(s),
    ensures
        hash_get(hash_put(s, k, v), k2) == if k2 == k {
            Some(v)
        } else {
            hash_get(s, k2)
        },
    decreases s.len(),
{
    lemma_key_lt_facts();
    let r = hash_put(s, k, v);
    if s.len() == 0 {
        assert(r =~= seq![(k, v)]);
        assert(r[0].0 == k);
        assert(r.skip(1).len() == 0);
        assert(hash_get(r.skip(1), k2) == None::<ObjectV>);
        assert(hash_get(s, k2) == None::<ObjectV>);
    } else if key_lt(s[0].0, k) {
        let t = s.skip(1);
        assert forall|i: int, j: int| 0 <= i < j < t.len() implies key_lt(
            #[trigger] t[i].0,
            #[trigger] t[j].0,
        ) by {
            assert(t[i] == s[i + 1]);
            assert(t[j] == s[j + 1]);
        }
        lemma_hash_put_get(t, k, v, k2);
        assert(r == seq![s[0]] + hash_put(t, k, v));
        assert(r[0] == s[0]);
        assert(r.skip(1) =~= hash_put(t, k, v));
        if s[0].0 == k2 {
            assert(k2 != k);
        }
    } else if s[0].0 == k {
        assert(r == seq![(k, v)] + s.skip(1));
        assert(r[0] == (k, v));
        assert(r.skip(1) =~= s.skip(1));
    } else {
        assert(r == seq![(k, v)] + s);
        assert(r[0] == (k, v));
        assert(r.skip(1) =~= s);
    }
}

/// Three-way comparison result.
#[derive(PartialEq, Eq, Debug, Clone, Copy, Structural)]
pub enum KeyOrder {
    Less,
    Equal,
    Greater,
}

/// Compares two strings in the order of `String`.
pub fn compare_strings(a: &String, b: &String) -> (r: KeyOrder)
    ensures
        (r == KeyOrder::Less) == chars_lt(a@, b@),
        (r == KeyOrder::Equal) == (a@ == b@),
        (r == KeyOrder::Greater) == chars_lt(b@, a@),
{
    let x = chars_of(a.as_str());
    let y = chars_of(b.as_str());
    proof {
        lemma_chars_lt_irreflexive(x@);
        lemma_chars_lt_total(x@, y@);
        if chars_lt(x@, y@) && chars_lt(y@, x@) {
            lemma_chars_lt_transitive(x@, y@, x@);
        }
    }
    let mut i: usize = 0;
    assert(x@.skip(0) =~= x@);
    assert(y@.skip(0) =~= y@);
    while i < x.len() && i < y.len() && x[i] == y[i]
        invariant
            i <= x@.len(),
            i <= y@.len(),
            chars_lt(x@, y@) == chars_lt(x@.skip(i as int), y@.skip(i as int)),
            chars_lt(y@, x@) == chars_lt(y@.skip(i as int), x@.skip(i as int)),
            x@.take(i as int) == y@.take(i as int),
        decreases x@.len() - i,
    {
        assert(x@.skip(i as int).skip(1) =~= x@.skip(i + 1));
        assert(y@.skip(i as int).skip(1) =~= y@.skip(i + 1));
        assert(x@.take(i + 1) =~= x@.take(i as int).push(x@[i as int]));
        assert(y@.take(i + 1) =~= y@.take(i as int).push(y@[i as int]));
        i = i + 1;
    }
    if i < x.len() && i < y.len() {
        if x[i] < y[i] {
            KeyOrder::Less
        } else {
            KeyOrder::Greater
        }
    } else if i < y.len() {
        assert(x@.take(i as int) =~= x@);
        KeyOrder::Less
    } else if i < x.len() {
        assert(y@.take(i as int) =~= y@);
        KeyOrder::Greater
    } else {
        assert(x@.take(i as int) =~= x@);
        assert(y@.take(i as int) =~= y@);
        KeyOrder::Equal
    }
}

/// Compares two hash keys in the order `key_lt`.
pub fn compare_keys(a: &HashableObject, b: &HashableObject) -> (r: KeyOrder)
    ensures
        (r == KeyOrder::Less) == key_lt(a@, b@),
        (r == KeyOrder::Equal) == (a@ == b@),
        (r == KeyOrder::Greater) == key_lt(b@, a@),
{
    proof {
        lemma_key_lt_facts();
    }
    match (a, b) {
        (HashableObject::Nil, HashableObject::Nil) => KeyOrder::Equal,
        (HashableObject::Integer(x), HashableObject::Integer(y)) => {
            if *x < *y {
                KeyOrder::Less
            } else if *x == *y {
                KeyOrder::Equal
            } else {
                KeyOrder::Greater
            }
        },
        (HashableObject::Boolean(x), HashableObject::Boolean(y)) => {
            if *x == *y {
                KeyOrder::Equal
            } else if !*x {
                KeyOrder::Less
            } else {
                KeyOrder::Greater
            }
        },
        (HashableObject::Str(x), HashableObject::Str(y)) => compare_strings(x, y),
        _ => {
            let ra = key_rank_exec(a);
            let rb = key_rank_exec(b);
            if ra < rb {
                KeyOrder::Less
            } else {
                KeyOrder::Greater
            }
        },
    }
}

fn key_rank_exec(k: &HashableObject) -> (r: u8)
    ensures
        r == key_rank(k@),
{
    match k {
        HashableObject::Nil => 0,
        HashableObject::Integer(_) => 1,
        HashableObject::Boolean(_) => 2,
        HashableObject::Str(_) => 3,
    }
}

/// Stores `value` under `key` in a well-formed hash, replacing what was stored there.
pub fn hash_insert(entries: &mut Vec<(HashableObject, Object)>, key: HashableObject, value: Object)
    requires
        hash_wf(entries_view(old(entries)@)),
    ensures
        entries_view(final(entries)@) == hash_put(entries_view(old(entries)@), key@, value@),
        hash_wf(entries_view(final(entries)@)),
{
    let ghost s = entries_view(entries@);
    let ghost kv = key@;
    let ghost vv = value@;
    proof {
        lemma_entries_view_len(entries@);
        lemma_hash_put_wf(s, kv, vv);
    }
    let mut i: usize = 0;
    assert(s.take(0) + hash_put(s.skip(0), kv, vv) =~= hash_put(s, kv, vv)) by {
        assert(s.skip(0) =~= s);
    }
    while i < entries.len() && compare_keys(&entries[i].0, &key) == KeyOrder::Less
        invariant
            entries_view(entries@) == s,
            s.len() == entries@.len(),
            i <= s.len(),
            s.take(i as int) + hash_put(s.skip(i as int), kv, vv) == hash_put(s, kv, vv),
            kv == key@,
            vv == value@,
        decreases s.len() - i,
    {
        proof {
            lemma_entries_view_len(entries@);
            let t = s.skip(i as int);
            assert(t[0] == s[i as int]);
            assert(t.skip(1) =~= s.skip(i + 1));
            assert(hash_put(t, kv, vv) == seq![t[0]] + hash_put(s.skip(i + 1), kv, vv));
            assert(s.take(i + 1) =~= s.take(i as int).push(s[i as int]));
            assert(s.take(i + 1) + hash_put(s.skip(i + 1), kv, vv) =~= s.take(i as int)
                + hash_put(t, kv, vv));
        }
        i = i + 1;
    }
    proof {
        lemma_entries_view_len(entries@);
    }
    let ghost t = s.skip(i as int);
    if i < entries.len() && compare_keys(&entries[i].0, &key) == KeyOrder::Equal {
        assert(t[0] == s[i as int]);
        assert(hash_put(t, kv, vv) == seq![(kv, vv)] + t.skip(1));
        let _ = entries.remove(i);
        entries.insert(i, (key, value));
        proof {
            lemma_entries_view_len(entries@);
            assert(entries_view(entries@) =~= hash_put(s, kv, vv));
        }
    } else {
        proof {
            if i < s.len() {
                assert(t[0] == s[i as int]);
                assert(!key_lt(t[0].0, kv));
                assert(t[0].0 != kv);
            } else {
                assert(t.len() == 0);
            }
            assert(hash_put(t, kv, vv) == seq![(kv, vv)] + t);
        }
        entries.insert(i, (key, value));
        proof {
            lemma_entries_view_len(entries@);
            assert(entries_view(entries@) =~= hash_put(s, kv, vv));
        }
    }
}

/// The value stored under `key`, copied.
pub fn hash_lookup(entries: &Vec<(HashableObject, Object)>, key: &HashableObject) -> (r: Option<
    Object,
>)
    ensures
        match hash_get(entries_view(entries@), key@) {
            Some(v) => r is Some && r->Some_0@ == v,
            None => r is None,
        },
{
    let ghost s = entries_view(entries@);
    proof {
        lemma_entries_view_len(entries@);
    }
    let mut i: usize = 0;
    assert(s.skip(0) =~= s);
    while i < entries.len()
        invariant
            s == entries_view(entries@),
            s.len() == entries@.len(),
            i <= s.len(),
            hash_get(s, key@) == hash_get(s.skip(i as int), key@),
        decreases s.len() - i,
    {
        proof {
            lemma_entries_view_len(entries@);
            assert(s.skip(i as int)[0] == s[i as int]);
            assert(s.skip(i as int).skip(1) =~= s.skip(i + 1));
        }
        if compare_keys(&entries[i].0, key) == KeyOrder::Equal {
            return Some(entries[i].1.clone_object());
        }
        i = i + 1;
    }
    None
}

} // verus!

verus! {

// ---------------------------------------------------------------------------------------------
// Printing values
// ---------------------------------------------------------------------------------------------

/// How a value is printed: strings quoted and escaped, arrays and hashes with their elements
/// separated by ", ", functions by a placeholder.
pub open spec fn display(o: ObjectV) -> Seq<char>
    decreases o,
{
    match o {
        ObjectV::Nil => "nil"@,
        ObjectV::Integer(i) => int_text(i as int),
        ObjectV::Boolean(b) => if b {
            "true"@
        } else {
            "false"@
        },
        ObjectV::Str(s) => seq!['"'] + escape_debug_spec(s) + seq!['"'],
        ObjectV::Array(v) => seq!['['] + display_list(v) + seq![']'],
        ObjectV::Hash(v) => seq!['#', '{'] + display_entries(v) + seq!['}'],
        ObjectV::Builtin(_) => "<built-in function>"@,
        _ => "<function>"@,
    }
}

/// The printed elements, separated by ", ".
pub open spec fn display_list(s: Seq<ObjectV>) -> Seq<char>
    decreases s,
{
    if s.len() == 0 {
        seq![]
    } else {
        proof {
            vstd::seq::axiom_seq_len_decreases(s, s.drop_last());
        }
        if s.len() == 1 {
            display(s.last())
        } else {
            display_list(s.drop_last()) + seq![',', ' '] + display(s.last())
        }
    }
}

/// How a hash key is printed: as the value it stands for.
pub open spec fn display_key(k: HashKeyV) -> Seq<char> {
    match k {
        HashKeyV::Nil => "nil"@,
        HashKeyV::Integer(i) => int_text(i as int),
        HashKeyV::Boolean(b) => if b {
            "true"@
        } else {
            "false"@
        },
        HashKeyV::Str(s) => seq!['"'] + escape_debug_spec(s) + seq!['"'],
    }
}

/// The printed entries `key: value`, separated by ", ".
pub open spec fn display_entries(s: Seq<(HashKeyV, ObjectV)>) -> Seq<char>
    decreases s,
{
    if s.len() == 0 {
        seq![]
    } else {
        proof {
            vstd::seq::axiom_seq_len_decreases(s, s.drop_last());
        }
        let last = display_key(s.last().0) + seq![':', ' '] + display(s.last().1);
        if s.len() == 1 {
            last
        } else {
            display_entries(s.drop_last()) + seq![',', ' '] + last
        }
    }
}

/// Appends how the key `k` is printed.
pub fn push_key_display(out: &mut Vec<char>, k: &HashableObject)
    ensures
        final(out)@ == old(out)@ + display_key(k@),
{
    match k {
        HashableObject::Nil => push_str(out, "nil"),
        HashableObject::Integer(i) => push_int(out, *i),
        HashableObject::Boolean(b) => {
            if *b {
                push_str(out, "true")
            } else {
                push_str(out, "false")
            }
        },
        HashableObject::Str(s) => {
            out.push('"');
            let e = escape_debug(s.as_str());
            push_chars(out, &e);
            out.push('"');
            assert(final(out)@ =~= old(out)@ + display_key(k@));
        },
    }
}

/// Appends how `o` is printed.
pub fn push_display(out: &mut Vec<char>, o: &Object)
    ensures
        final(out)@ == old(out)@ + display(o@),
    decreases o,
{
    match o {
        Object::Nil => push_str(out, "nil"),
        Object::Integer(i) => push_int(out, *i),
        Object::Boolean(b) => {
            if *b {
                push_str(out, "true")
            } else {
                push_str(out, "false")
            }
        },
        Object::Str(s) => {
            out.push('"');
            let e = escape_debug(s.as_str());
            push_chars(out, &e);
            out.push('"');
            assert(final(out)@ =~= old(out)@ + display(o@));
        },
        Object::Array(v) => {
            let ghost before = out@;
            out.push('[');
            let mut i: usize = 0;
            assert(v@.take(0) =~= Seq::<Object>::empty());
            while i < v.len()
                invariant
                    o is Array,
                    o->Array_0 == *v,
                    i <= v@.len(),
                    out@ == before + seq!['['] + display_list(objects_view(v@.take(i as int))),
                decreases v@.len() - i,
            {
                proof {
                    assert(decreases_to!(*o => o->Array_0));
                    assert(decreases_to!(o->Array_0 => o->Array_0@[i as int]));
                }
                let ghost prefix = objects_view(v@.take(i as int));
                if i > 0 {
                    out.push(',');
                    out.push(' ');
                }
                push_display(out, &v[i]);
                proof {
                    assert(v@.take(i + 1).drop_last() =~= v@.take(i as int));
                    let nv = objects_view(v@.take(i + 1));
                    assert(nv == prefix.push(object_view(v@[i as int])));
                    assert(nv.drop_last() =~= prefix);
                    lemma_objects_view_len(v@.take(i as int));
                    if i == 0 {
                        assert(display_list(nv) == display(object_view(v@[0])));
                    }
                }
                i = i + 1;
                assert(out@ =~= before + seq!['['] + display_list(objects_view(v@.take(i as int))));
            }
            out.push(']');
            assert(v@.take(v@.len() as int) =~= v@);
            assert(final(out)@ =~= old(out)@ + display(o@));
        },
        Object::Hash(v) => {
            let ghost before = out@;
            out.push('#');
            out.push('{');
            let mut i: usize = 0;
            assert(v@.take(0) =~= Seq::<(HashableObject, Object)>::empty());
            while i < v.len()
                invariant
                    o is Hash,
                    o->Hash_0 == *v,
                    i <= v@.len(),
                    out@ == before + seq!['#', '{'] + display_entries(
                        entries_view(v@.take(i as int)),
                    ),
                decreases v@.len() - i,
            {
                proof {
                    assert(decreases_to!(*o => o->Hash_0));
                    assert(decreases_to!(o->Hash_0 => o->Hash_0@[i as int]));
                    assert(decreases_to!(o->Hash_0@[i as int] => o->Hash_0@[i as int].1));
                }
                let ghost prefix = entries_view(v@.take(i as int));
                if i > 0 {
                    out.push(',');
                    out.push(' ');
                }
                push_key_display(out, &v[i].0);
                out.push(':');
                out.push(' ');
                push_display(out, &v[i].1);
                proof {
                    assert(v@.take(i + 1).drop_last() =~= v@.take(i as int));
                    let nv = entries_view(v@.take(i + 1));
                    assert(nv == prefix.push((v@[i as int].0@, object_view(v@[i as int].1))));
                    assert(nv.drop_last() =~= prefix);
                    lemma_entries_view_len(v@.take(i as int));
                }
                i = i + 1;
                assert(out@ =~= before + seq!['#', '{'] + display_entries(
                    entries_view(v@.take(i as int)),
                ));
            }
            out.push('}');
            assert(v@.take(v@.len() as int) =~= v@);
            assert(final(out)@ =~= old(out)@ + display(o@));
        },
        Object::Builtin(_) => push_str(out, "<built-in function>"),
        _ => push_str(out, "<function>"),
    }
}

impl Object {
    /// How this value is printed.
    pub fn to_string(&self) -> (r: String)
        ensures
            r@ == display(self@),
    {
        let mut out: Vec<char> = Vec::new();
        push_display(&mut out, self);
        string_from_chars(&out)
    }
}

impl HashableObject {
    /// How this key is printed.
    pub fn to_string(&self) -> (r: String)
        ensures
            r@ == display_key(self@),
    {
        let mut out: Vec<char> = Vec::new();
        push_key_display(&mut out, self);
        string_from_chars(&out)
    }
}

/// Law: two values are equal exactly when they are the same integer, boolean, string or `nil`;
/// equality is reflexive on those values and symmetric everywhere, and it is defined (not
/// `None`) exactly between two such values of the same kind.
pub proof fn lemma_equality_is_identity(l: ObjectV, r: ObjectV)
    ensures
        equality(l, r) == Some(true) <==> (as_key(l) is Some && l == r),
        as_key(l) is Some ==> equality(l, l) == Some(true),
        equality(l, r) == equality(r, l),
        equality(l, r) is Some <==> (as_key(l) is Some && as_key(r) is Some && (as_key(l)->Some_0 is Nil
            <==> as_key(r)->Some_0 is Nil) && (as_key(l)->Some_0 is Integer <==> as_key(r)->Some_0 is Integer)
            && (as_key(l)->Some_0 is Boolean <==> as_key(r)->Some_0 is Boolean)),
{
}

/// Law: two strings are equal exactly when they hold the same characters.
pub proof fn lemma_string_equality(a: Seq<char>, b: Seq<char>)
    ensures
        equality(ObjectV::Str(a), ObjectV::Str(b)) == Some(a == b),
{
}

} // verus!
