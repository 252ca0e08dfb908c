use vstd::prelude::*;

use crate::ast::{FuncParam, ParamV, Statement, StmtV, Type, clone_params, clone_statements, params_view, stmts_view};

verus! {

/// Whether a function is built in or declared by the program.
#[derive(Clone, Copy, Debug, PartialEq, Eq, Structural)]
pub enum FunctionType {
    Native,
    Function,
}

/// A runtime value.
#[derive(Debug)]
pub enum Value {
    Null,
    String { value: String },
    Int { value: i64 },
    /// A floating-point value, held as the decimal text it was written with.
    Float { value: String },
    Bool { value: bool },
    Char { value: char },
    /// A declared function: what the function table holds.
    Function {
        name: String,
        kind: FunctionType,
        params: Vec<FuncParam>,
        body: Vec<Statement>,
        return_type: Type,
    },
}

/// The mathematical model of a value.
pub enum ValueV {
    Null,
    Str(Seq<char>),
    Int(i64),
    Float(Seq<char>),
    Bool(bool),
    Char(char),
    Function(Seq<char>, FunctionType, Seq<ParamV>, Seq<StmtV>, Type),
}

impl View for Value {
    type V = ValueV;

    open spec fn view(&self) -> ValueV {
        match self {
            Value::Null => ValueV::Null,
            Value::String { value } => ValueV::Str(value@),
            Value::Int { value } => ValueV::Int(*value),
            Value::Float { value } => ValueV::Float(value@),
            Value::Bool { value } => ValueV::Bool(*value),
            Value::Char { value } => ValueV::Char(*value),
            Value::Function { name, kind, params, body, return_type } => ValueV::Function(
                name@,
                *kind,
                params_view(params@),
                stmts_view(body@),
                *return_type,
            ),
        }
    }
}

impl Value {
    /// A copy of the value.
    pub fn deep_clone(&self) -> (r: Value)
        ensures
            r@ == self@,
    {
        match self {
            Value::Null => Value::Null,
            Value::String { value } => Value::String { value: value.clone() },
            Value::Int { value } => Value::Int { value: *value },
            Value::Float { value } => Value::Float { value: value.clone() },
            Value::Bool { value } => Value::Bool { value: *value },
            Value::Char { value } => Value::Char { value: *value },
            Value::Function { name, kind, params, body, return_type } => Value::Function {
                name: name.clone(),
                kind: *kind,
                params: clone_params(params),
                body: clone_statements(body),
                return_type: *return_type,
            },
        }
    }
}

/// The model of an environment: its bindings in order; the first binding of
/// a name is the one that counts.
pub type EnvV = Seq<(Seq<char>, ValueV)>;

/// The index of the first binding of `k` at or after `i`, or -1.
pub open spec fn find_from(s: EnvV, k: Seq<char>, i: int) -> int
    decreases s.len() - i,
{
    if i < 0 || i >= s.len() {
        -1
    } else if s[i].0 == k {
        i
    } else {
        find_from(s, k, i + 1)
    }
}

/// The value bound to `k`, if any.
pub open spec fn env_get(s: EnvV, k: Seq<char>) -> Option<ValueV> {
    let i = find_from(s, k, 0);
    if i >= 0 {
        Some(s[i].1)
    } else {
        None
    }
}

/// The environment with `k` bound to `v`: an earlier binding of `k` is
/// overwritten in place, else the binding is added at the end.
pub open spec fn env_set(s: EnvV, k: Seq<char>, v: ValueV) -> EnvV {
    let i = find_from(s, k, 0);
    if i >= 0 {
        s.update(i, (k, v))
    } else {
        s.push((k, v))
    }
}

proof fn lemma_find_from_bounds(s: EnvV, k: Seq<char>, i: int)
    ensures
        find_from(s, k, i) == -1 || (i <= find_from(s, k, i) < s.len() && s[find_from(s, k, i)].0
            == k),
    decreases s.len() - i,
{
    if 0 <= i < s.len() && s[i].0 != k {
        lemma_find_from_bounds(s, k, i + 1);
    }
}

/// Looking a name up reads only the names of the bindings.
proof fn lemma_find_same_names(s: EnvV, t: EnvV, q: Seq<char>, i: int)
    requires
        0 <= i,
        s.len() <= t.len(),
        forall|j: int| 0 <= j < s.len() ==> #[trigger] s[j].0 == t[j].0,
        forall|j: int| s.len() <= j < t.len() ==> #[trigger] t[j].0 != q,
    ensures
        find_from(t, q, i) == find_from(s, q, i),
    decreases t.len() - i,
{
    if i < t.len() {
        lemma_find_same_names(s, t, q, i + 1);
        if i < s.len() {
            assert(s[i].0 == t[i].0);
        }
    }
}

proof fn lemma_find_push_absent(s: EnvV, k: Seq<char>, v: ValueV, i: int)
    requires
        0 <= i <= s.len(),
        find_from(s, k, i) == -1,
    ensures
        find_from(s.push((k, v)), k, i) == s.len(),
    decreases s.len() - i,
{
    if i < s.len() {
        assert(s.push((k, v))[i] == s[i]);
        lemma_find_push_absent(s, k, v, i + 1);
    }
}

/// A binding of a name to a value, redeclared in place.
pub proof fn lemma_env_get_set(s: EnvV, k: Seq<char>, v: ValueV, q: Seq<char>)
    ensures
        env_get(env_set(s, k, v), q) == if q == k {
            Some(v)
        } else {
            env_get(s, q)
        },
{
    lemma_find_from_bounds(s, k, 0);
    lemma_find_from_bounds(s, q, 0);
    let i = find_from(s, k, 0);
    let t = env_set(s, k, v);
    if i >= 0 {
        assert forall|j: int| 0 <= j < s.len() implies #[trigger] s[j].0 == t[j].0 by {
            if j == i {
            } else {
                assert(t[j] == s[j]);
            }
        }
        lemma_find_same_names(s, t, q, 0);
        let m = find_from(s, q, 0);
        if m >= 0 && q != k {
            assert(t[m] == s[m]);
        }
    } else {
        assert forall|j: int| 0 <= j < s.len() implies #[trigger] s[j].0 == t[j].0 by {
            assert(t[j] == s[j]);
        }
        if q == k {
            lemma_find_push_absent(s, k, v, 0);
        } else {
            lemma_find_same_names(s, t, q, 0);
            let m = find_from(s, q, 0);
            if m >= 0 {
                assert(t[m] == s[m]);
            }
        }
    }
    lemma_find_from_bounds(t, q, 0);
}

/// No name is bound twice.
pub open spec fn names_unique(s: EnvV) -> bool {
    forall|i: int, j: int| 0 <= i < j < s.len() ==> #[trigger] s[i].0 != #[trigger] s[j].0
}

proof fn lemma_find_absent(s: EnvV, k: Seq<char>, i: int)
    requires
        0 <= i,
        find_from(s, k, i) == -1,
    ensures
        forall|j: int| i <= j < s.len() ==> #[trigger] s[j].0 != k,
    decreases s.len() - i,
{
    if i < s.len() {
        lemma_find_absent(s, k, i + 1);
    }
}

/// Binding a name keeps the names of an environment unique.
pub proof fn lemma_env_set_unique(s: EnvV, k: Seq<char>, v: ValueV)
    requires
        names_unique(s),
    ensures
        names_unique(env_set(s, k, v)),
{
    lemma_find_from_bounds(s, k, 0);
    let t = env_set(s, k, v);
    if find_from(s, k, 0) >= 0 {
        let m = find_from(s, k, 0);
        assert forall|i: int, j: int| 0 <= i < j < t.len() implies #[trigger] t[i].0 != #[trigger] t[j].0 by {
            assert(t[i].0 == s[i].0);
            assert(t[j].0 == s[j].0);
        }
    } else {
        lemma_find_absent(s, k, 0);
        assert forall|i: int, j: int| 0 <= i < j < t.len() implies #[trigger] t[i].0 != #[trigger] t[j].0 by {
            if j < s.len() {
                assert(t[i] == s[i] && t[j] == s[j]);
            } else {
                assert(t[i] == s[i]);
            }
        }
    }
}

/// Bindings of names to values; no name is bound twice (`wf`).
#[derive(Debug)]
pub struct Envoirment {
    pub global_variables: Vec<(String, Value)>,
}

impl View for Envoirment {
    type V = EnvV;

    open spec fn view(&self) -> EnvV {
        Seq::new(
            self.global_variables@.len(),
            |i: int| (self.global_variables@[i].0@, self.global_variables@[i].1@),
        )
    }
}

impl Envoirment {
    /// The environment's invariant: its names are unique.
    pub open spec fn wf(&self) -> bool {
        names_unique(self@)
    }

    /// An environment with no bindings.
    pub fn new() -> (r: Envoirment)
        ensures
            r@ == Seq::<(Seq<char>, ValueV)>::empty(),
            r.wf(),
    {
        let r = Envoirment { global_variables: Vec::new() };
        assert(r@ =~= Seq::<(Seq<char>, ValueV)>::empty());
        r
    }

    fn find(&self, name: &String) -> (r: Option<usize>)
        ensures
            match r {
                Some(i) => i as int == find_from(self@, name@, 0) && i < self.global_variables@.len(),
                None => find_from(self@, name@, 0) < 0,
            },
    {
        let mut i: usize = 0;
        while i < self.global_variables.len()
            invariant
                0 <= i <= self.global_variables@.len(),
                self@.len() == self.global_variables@.len(),
                find_from(self@, name@, 0) == find_from(self@, name@, i as int),
            decreases self.global_variables@.len() - i,
        {
            if self.global_variables[i].0 == *name {
                return Some(i);
            }
            i = i + 1;
        }
        None
    }

    /// Binds `name` to `value`, overwriting an earlier binding of `name`.
    pub fn set(&mut self, name: String, value: Value)
        ensures
            final(self)@ == env_set(old(self)@, name@, value@),
            old(self).wf() ==> final(self).wf(),
    {
        let ghost k = name@;
        let ghost v = value@;
        proof {
            lemma_find_from_bounds(self@, k, 0);
            if names_unique(self@) {
                lemma_env_set_unique(self@, k, v);
            }
        }
        match self.find(&name) {
            Some(i) => {
                self.global_variables.set(i, (name, value));
                assert(self@ =~= old(self)@.update(i as int, (k, v)));
            },
            None => {
                self.global_variables.push((name, value));
                assert(self@ =~= old(self)@.push((k, v)));
            },
        }
    }

    /// The value bound to `name`, if any.
    pub fn get(&self, name: &String) -> (r: Option<&Value>)
        ensures
            match env_get(self@, name@) {
                Some(v) => r is Some && r->Some_0@ == v,
                None => r is None,
            },
    {
        proof {
            lemma_find_from_bounds(self@, name@, 0);
        }
        match self.find(name) {
            Some(i) => {
                assert(i as int == find_from(self@, name@, 0));
                assert(self@[i as int].1 == self.global_variables@[i as int].1@);
                assert(env_get(self@, name@) == Some(self@[i as int].1));
                Some(&self.global_variables[i].1)
            },
            None => None,
        }
    }
}

} // verus!
