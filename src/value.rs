//! Runtime values, their truthiness, equality and printed form.
use crate::ast::FunDecl;
use crate::number::{number_text, Number};
use std::rc::Rc;
use vstd::prelude::*;

verus! {

/// How many arguments a native function takes.
#[derive(Clone, Copy, Debug, PartialEq, Eq, Structural)]
pub enum Arity {
    Exact(usize),
    /// Any number of arguments.
    Any,
}

/// A function written in the language, with the frame it was defined in.
#[derive(Clone, Debug, PartialEq)]
pub struct Function {
    pub decl: Rc<FunDecl>,
    pub closure: usize,
}

/// A function that the host supplies.
#[derive(Clone, Debug, PartialEq)]
pub struct NativeFunction {
    pub name: String,
    pub arity: Arity,
}

/// One entry of an object or a namespace.
#[derive(Debug, PartialEq)]
pub struct Property {
    pub key: String,
    pub value: Value,
}

#[derive(Debug, PartialEq)]
pub enum Value {
    Number(Number),
    String(String),
    Boolean(bool),
    Nil,
    Function(Function),
    NativeFunction(NativeFunction),
    Array(Vec<Value>),
    /// A mapping from names to values; a name occurs at most once.
    Object(Vec<Property>),
    /// A named mapping, as a host offers a library of natives.
    Namespace(String, Vec<Property>),
}

/// What a value is, for contracts.
pub enum Val {
    Number(Number),
    Str(Seq<char>),
    Bool(bool),
    Nil,
    Fun(Rc<FunDecl>, int),
    Native(Seq<char>, Arity),
    Arr(Seq<Val>),
    Obj(Seq<(Seq<char>, Val)>),
    Ns(Seq<char>, Seq<(Seq<char>, Val)>),
}

/// Why evaluation stopped early: a `return` on its way to the call that
/// catches it, or an error.
#[derive(Debug)]
pub enum RuntimeError {
    Return(Value),
    Error(String),
}

pub enum Signal {
    Return(Val),
    Error(Seq<char>),
}

pub open spec fn values_view(s: Seq<Value>) -> Seq<Val>
    decreases s,
{
    if s.len() == 0 {
        Seq::empty()
    } else {
        values_view(s.drop_last()).push(s.last().view())
    }
}

pub open spec fn props_view(s: Seq<Property>) -> Seq<(Seq<char>, Val)>
    decreases s,
{
    if s.len() == 0 {
        Seq::empty()
    } else {
        props_view(s.drop_last()).push((s.last().key@, s.last().value.view()))
    }
}

pub proof fn lemma_values_view(s: Seq<Value>)
    ensures
        values_view(s).len() == s.len(),
        forall|i: int| 0 <= i < s.len() ==> #[trigger] values_view(s)[i] == s[i].view(),
    decreases s.len(),
{
    if s.len() > 0 {
        lemma_values_view(s.drop_last());
    }
}

pub proof fn lemma_props_view(s: Seq<Property>)
    ensures
        props_view(s).len() == s.len(),
        forall|i: int| 0 <= i < s.len() ==> #[trigger] props_view(s)[i] == (s[i].key@, s[i].value.view()),
    decreases s.len(),
{
    if s.len() > 0 {
        lemma_props_view(s.drop_last());
    }
}

/// The value of the first entry named `k`.
pub open spec fn prop_lookup(ps: Seq<(Seq<char>, Val)>, k: Seq<char>) -> Option<Val>
    decreases ps.len(),
{
    if ps.len() == 0 {
        None
    } else if ps[0].0 == k {
        Some(ps[0].1)
    } else {
        prop_lookup(ps.drop_first(), k)
    }
}

/// The first index of an entry named `k`.
pub open spec fn prop_index(ps: Seq<(Seq<char>, Val)>, k: Seq<char>, i: int) -> Option<int>
    decreases ps.len() - i,
{
    if i < 0 || i >= ps.len() {
        None
    } else if ps[i].0 == k {
        Some(i)
    } else {
        prop_index(ps, k, i + 1)
    }
}

/// The well-formedness of an object's or a namespace's entries: no name
/// occurs twice. `new_object`, `new_namespace` and `set_property` keep it,
/// and the equality of objects is meant for entries that have it.
pub open spec fn keys_unique(ps: Seq<(Seq<char>, Val)>) -> bool {
    forall|i: int, j: int| 0 <= i < j < ps.len() ==> ps[i].0 != ps[j].0
}

/// The well-formedness of a value's own entries: an object's or a
/// namespace's names are unique.
pub open spec fn entries_unique(v: Val) -> bool {
    match v {
        Val::Obj(ps) => keys_unique(ps),
        Val::Ns(_, ps) => keys_unique(ps),
        _ => true,
    }
}

pub proof fn lemma_prop_index(ps: Seq<(Seq<char>, Val)>, k: Seq<char>, i: int)
    requires
        0 <= i,
    ensures
        prop_index(ps, k, i) matches Some(j) ==> i <= j < ps.len() && ps[j].0 == k,
        prop_index(ps, k, i) is None ==> forall|j: int| i <= j < ps.len() ==> ps[j].0 != k,
    decreases ps.len() - i,
{
    if i < ps.len() && ps[i].0 != k {
        lemma_prop_index(ps, k, i + 1);
    }
}

/// Setting an entry keeps the names unique.
pub proof fn lemma_prop_set_unique(ps: Seq<(Seq<char>, Val)>, k: Seq<char>, v: Val)
    requires
        keys_unique(ps),
    ensures
        keys_unique(prop_set(ps, k, v)),
{
    lemma_prop_index(ps, k, 0);
}

/// Sets the entry named `k`, replacing the first one or adding one.
pub open spec fn prop_set(ps: Seq<(Seq<char>, Val)>, k: Seq<char>, v: Val) -> Seq<(Seq<char>, Val)> {
    match prop_index(ps, k, 0) {
        Some(i) => ps.update(i, (k, v)),
        None => ps.push((k, v)),
    }
}

impl Value {
    pub open spec fn view(&self) -> Val
        decreases self,
    {
        match self {
            Value::Number(n) => Val::Number(*n),
            Value::String(s) => Val::Str(s@),
            Value::Boolean(b) => Val::Bool(*b),
            Value::Nil => Val::Nil,
            Value::Function(f) => Val::Fun(f.decl, f.closure as int),
            Value::NativeFunction(f) => Val::Native(f.name@, f.arity),
            Value::Array(v) => Val::Arr(values_view(v@)),
            Value::Object(ps) => Val::Obj(props_view(ps@)),
            Value::Namespace(n, ps) => Val::Ns(n@, props_view(ps@)),
        }
    }
}

pub open spec fn truthy(v: Val) -> bool {
    match v {
        Val::Nil => false,
        Val::Bool(b) => b,
        _ => true,
    }
}

/// Equality of the language: structural for numbers, strings, booleans,
/// nil and arrays; by name for functions; objects and namespaces are equal
/// when they have the same names with equal values, in any order (for
/// entries whose names are unique, see `keys_unique`); values of different
/// kinds differ.
pub open spec fn values_equal(a: Val, b: Val) -> bool
    decreases a,
{
    match a {
        Val::Number(x) => match b {
            Val::Number(y) => x.units == y.units,
            _ => false,
        },
        Val::Str(x) => match b {
            Val::Str(y) => x == y,
            _ => false,
        },
        Val::Bool(x) => match b {
            Val::Bool(y) => x == y,
            _ => false,
        },
        Val::Nil => b is Nil,
        Val::Fun(f, _) => match b {
            Val::Fun(g, _) => f.name@ == g.name@,
            _ => false,
        },
        Val::Native(x, _) => match b {
            Val::Native(y, _) => x == y,
            _ => false,
        },
        Val::Arr(x) => match b {
            Val::Arr(y) => seq_equal(x, y),
            _ => false,
        },
        Val::Obj(x) => match b {
            Val::Obj(y) => x.len() == y.len() && entries_in(x, y),
            _ => false,
        },
        Val::Ns(n, x) => match b {
            Val::Ns(m, y) => n == m && x.len() == y.len() && entries_in(x, y),
            _ => false,
        },
    }
}

/// Element-wise equality of two sequences of values.
pub open spec fn seq_equal(x: Seq<Val>, y: Seq<Val>) -> bool
    decreases x,
{
    if x.len() == 0 {
        y.len() == 0
    } else {
        y.len() == x.len() && seq_equal(x.drop_last(), y.drop_last()) && values_equal(x.last(), y.last())
    }
}

/// Whether every entry of `x` names an entry of `y` with an equal value.
pub open spec fn entries_in(x: Seq<(Seq<char>, Val)>, y: Seq<(Seq<char>, Val)>) -> bool
    decreases x,
{
    if x.len() == 0 {
        true
    } else {
        entries_in(x.drop_last(), y) && match prop_lookup(y, x.last().0) {
            Some(v) => values_equal(x.last().1, v),
            None => false,
        }
    }
}

/// The printed form of a value.
pub open spec fn text_of(v: Val) -> Seq<char>
    decreases v,
{
    match v {
        Val::Number(n) => number_text(n.value()),
        Val::Str(s) => s,
        Val::Bool(b) => if b { "true"@ } else { "false"@ },
        Val::Nil => "nil"@,
        Val::Fun(f, _) => "<fn "@ + f.name@ + ">"@,
        Val::Native(name, _) => "<native fn "@ + name + ">"@,
        Val::Arr(x) => "["@ + join_values(x) + "]"@,
        Val::Obj(ps) => "{"@ + join_entries(ps) + "}"@,
        Val::Ns(name, ps) => "[Namespace: "@ + name + " {"@ + join_keys(ps) + "}]"@,
    }
}

/// The printed forms of `x`, separated by `, `.
pub open spec fn join_values(x: Seq<Val>) -> Seq<char>
    decreases x,
{
    if x.len() == 0 {
        Seq::empty()
    } else if x.len() == 1 {
        text_of(x[0])
    } else {
        join_values(x.drop_last()) + ", "@ + text_of(x.last())
    }
}

/// The entries of `ps` as `name: value`, separated by `, `.
pub open spec fn join_entries(ps: Seq<(Seq<char>, Val)>) -> Seq<char>
    decreases ps,
{
    if ps.len() == 0 {
        Seq::empty()
    } else if ps.len() == 1 {
        ps[0].0 + ": "@ + text_of(ps[0].1)
    } else {
        join_entries(ps.drop_last()) + ", "@ + ps.last().0 + ": "@ + text_of(ps.last().1)
    }
}

/// The names of `ps`, separated by `, `.
pub open spec fn join_keys(ps: Seq<(Seq<char>, Val)>) -> Seq<char>
    decreases ps.len(),
{
    if ps.len() == 0 {
        Seq::empty()
    } else if ps.len() == 1 {
        ps[0].0
    } else {
        join_keys(ps.drop_last()) + ", "@ + ps.last().0
    }
}

impl Function {
    pub fn new(decl: Rc<FunDecl>, closure: usize) -> (r: Function)
        ensures
            r.decl == decl,
            r.closure == closure,
    {
        Function { decl, closure }
    }
}

impl NativeFunction {
    pub fn new(name: String, arity: Arity) -> (r: NativeFunction)
        ensures
            r.name == name,
            r.arity == arity,
    {
        NativeFunction { name, arity }
    }
}

impl RuntimeError {
    pub open spec fn view(&self) -> Signal {
        match self {
            RuntimeError::Return(v) => Signal::Return(v.view()),
            RuntimeError::Error(m) => Signal::Error(m@),
        }
    }
}

#[verifier::loop_isolation(false)]
fn duplicate_props(ps: &Vec<Property>) -> (r: Vec<Property>)
    ensures
        props_view(r@) == props_view(ps@),
    decreases ps,
{
    let mut out: Vec<Property> = Vec::new();
    let mut i: usize = 0;
    while i < ps.len()
        invariant
            i <= ps.len(),
            props_view(out@) == props_view(ps@.subrange(0, i as int)),
        decreases ps.len() - i,
    {
        let p = Property { key: ps[i].key.clone(), value: ps[i].value.duplicate() };
        let ghost before = out@;
        out.push(p);
        assert(out@.drop_last() =~= before);
        assert(ps@.subrange(0, i + 1).drop_last() =~= ps@.subrange(0, i as int));
        i = i + 1;
    }
    assert(ps@.subrange(0, ps@.len() as int) =~= ps@);
    out
}

/// The index of the first property named `k`.
fn find_prop(ps: &Vec<Property>, k: &String) -> (r: Option<usize>)
    ensures
        match r {
            Some(i) => i < ps@.len() && prop_index(props_view(ps@), k@, 0) == Some(i as int)
                && prop_lookup(props_view(ps@), k@) == Some(ps@[i as int].value.view()),
            None => prop_index(props_view(ps@), k@, 0) is None && prop_lookup(props_view(ps@), k@) is None,
        },
{
    let ghost pv = props_view(ps@);
    proof {
        lemma_props_view(ps@);
    }
    let mut i: usize = 0;
    assert(pv.subrange(0, pv.len() as int) =~= pv);
    while i < ps.len()
        invariant
            i <= ps.len(),
            pv == props_view(ps@),
            pv.len() == ps@.len(),
            forall|j: int| 0 <= j < ps@.len() ==> #[trigger] pv[j] == (ps@[j].key@, ps@[j].value.view()),
            prop_index(pv, k@, 0) == prop_index(pv, k@, i as int),
            prop_lookup(pv, k@) == prop_lookup(pv.subrange(i as int, pv.len() as int), k@),
        decreases ps.len() - i,
    {
        assert(pv.subrange(i as int, pv.len() as int).drop_first() =~= pv.subrange(i + 1, pv.len() as int));
        if ps[i].key == *k {
            return Some(i);
        }
        i = i + 1;
    }
    assert(pv.subrange(i as int, pv.len() as int) =~= Seq::<(Seq<char>, Val)>::empty());
    None
}

fn set_prop(ps: &mut Vec<Property>, name: String, value: Value)
    ensures
        props_view(final(ps)@) == prop_set(props_view(old(ps)@), name@, value.view()),
{
    let ghost nm = name@;
    let ghost vv = value.view();
    let ghost old_ps = ps@;
    proof {
        lemma_props_view(old_ps);
    }
    let p = Property { key: name, value };
    match find_prop(ps, &p.key) {
        Some(i) => {
            ps.set(i, p);
            proof {
                lemma_props_view(ps@);
                assert(props_view(ps@) =~= props_view(old_ps).update(i as int, (nm, vv)));
            }
        },
        None => {
            ps.push(p);
            proof {
                lemma_props_view(ps@);
                assert(props_view(ps@) =~= props_view(old_ps).push((nm, vv)));
            }
        },
    }
}

impl Value {
    /// A copy with the same view.
    #[verifier::loop_isolation(false)]
    pub fn duplicate(&self) -> (r: Value)
        ensures
            r.view() == self.view(),
        decreases self,
    {
        match self {
            Value::Number(n) => Value::Number(*n),
            Value::String(s) => Value::String(s.clone()),
            Value::Boolean(b) => Value::Boolean(*b),
            Value::Nil => Value::Nil,
            Value::Function(f) => Value::Function(Function { decl: f.decl.clone(), closure: f.closure }),
            Value::NativeFunction(f) => Value::NativeFunction(
                NativeFunction { name: f.name.clone(), arity: f.arity },
            ),
            Value::Array(v) => {
                let mut out: Vec<Value> = Vec::new();
                let mut i: usize = 0;
                while i < v.len()
                    invariant
                        i <= v.len(),
                        values_view(out@) == values_view(v@.subrange(0, i as int)),
                    decreases v.len() - i,
                {
                    let x = v[i].duplicate();
                    let ghost before = out@;
                    out.push(x);
                    assert(out@.drop_last() =~= before);
                    assert(v@.subrange(0, i + 1).drop_last() =~= v@.subrange(0, i as int));
                    i = i + 1;
                }
                assert(v@.subrange(0, v@.len() as int) =~= v@);
                Value::Array(out)
            },
            Value::Object(ps) => Value::Object(duplicate_props(ps)),
            Value::Namespace(n, ps) => Value::Namespace(n.clone(), duplicate_props(ps)),
        }
    }

    /// Whether the value can be called.
    pub fn is_callable(&self) -> (r: bool)
        ensures
            r == (self.view() is Fun || self.view() is Native),
    {
        match self {
            Value::Function(_) | Value::NativeFunction(_) => true,
            _ => false,
        }
    }

    /// `nil` and `false` are falsy; every other value is truthy.
    pub fn is_truthy(&self) -> (r: bool)
        ensures
            r == truthy(self.view()),
    {
        match self {
            Value::Nil => false,
            Value::Boolean(b) => *b,
            _ => true,
        }
    }

    /// An empty object.
    pub fn new_object() -> (r: Value)
        ensures
            r.view() == Val::Obj(Seq::empty()),
            entries_unique(r.view()),
    {
        Value::Object(Vec::new())
    }

    /// An empty namespace called `name`.
    pub fn new_namespace(name: &str) -> (r: Value)
        ensures
            r.view() == Val::Ns(name@, Seq::empty()),
            entries_unique(r.view()),
    {
        Value::Namespace(String::from_str(name), Vec::new())
    }

    /// The value of the property `name` of an object or a namespace.
    pub fn get_property(&self, name: &String) -> (r: Option<Value>)
        ensures
            match self.view() {
                Val::Obj(ps) | Val::Ns(_, ps) => match prop_lookup(ps, name@) {
                    Some(v) => r matches Some(x) && x.view() == v,
                    None => r is None,
                },
                _ => r is None,
            },
    {
        match self {
            Value::Object(ps) | Value::Namespace(_, ps) => match find_prop(ps, name) {
                Some(i) => Some(ps[i].value.duplicate()),
                None => None,
            },
            _ => None,
        }
    }

    /// Sets the property `name` of an object or a namespace; an error for
    /// any other value, which is left as it was.
    pub fn set_property(&mut self, name: String, value: Value) -> (r: Result<(), String>)
        requires
            entries_unique(old(self).view()),
        ensures
            entries_unique(final(self).view()),
            match old(self).view() {
                Val::Obj(ps) => r is Ok && final(self).view() == Val::Obj(prop_set(ps, name@, value.view()))
                    && (keys_unique(ps) ==> keys_unique(prop_set(ps, name@, value.view()))),
                Val::Ns(n, ps) => r is Ok && final(self).view() == Val::Ns(n, prop_set(ps, name@, value.view()))
                    && (keys_unique(ps) ==> keys_unique(prop_set(ps, name@, value.view()))),
                _ => r is Err && final(self).view() == old(self).view(),
            },
            r matches Err(m) ==> m@ == "Cannot set property '"@ + name@ + "' on non-object value"@,
    {
        match self {
            Value::Object(ps) => {
                let ghost old_ps = props_view(ps@);
                let ghost (nm, vv) = (name@, value.view());
                set_prop(ps, name, value);
                proof {
                    if keys_unique(old_ps) {
                        lemma_prop_set_unique(old_ps, nm, vv);
                    }
                }
                Ok(())
            },
            Value::Namespace(_, ps) => {
                let ghost old_ps = props_view(ps@);
                let ghost (nm, vv) = (name@, value.view());
                set_prop(ps, name, value);
                proof {
                    if keys_unique(old_ps) {
                        lemma_prop_set_unique(old_ps, nm, vv);
                    }
                }
                Ok(())
            },
            _ => {
                let mut msg = String::from_str("Cannot set property '");
                msg.append(name.as_str());
                msg.append("' on non-object value");
                Err(msg)
            },
        }
    }
}

/// Whether the entries of `x` and `y` name the same things with equal
/// values.
#[verifier::loop_isolation(false)]
fn props_equal(x: &Vec<Property>, y: &Vec<Property>) -> (r: bool)
    ensures
        r == (props_view(x@).len() == props_view(y@).len() && entries_in(props_view(x@), props_view(y@))),
    decreases x,
{
    let ghost xv = props_view(x@);
    let ghost yv = props_view(y@);
    proof {
        lemma_props_view(x@);
        lemma_props_view(y@);
    }
    if x.len() != y.len() {
        return false;
    }
    let mut i: usize = x.len();
    assert(xv.subrange(0, i as int) =~= xv);
    while i > 0
        invariant
            i <= x.len(),
            xv == props_view(x@),
            yv == props_view(y@),
            xv.len() == x@.len(),
            yv.len() == y@.len(),
            forall|j: int| 0 <= j < x@.len() ==> #[trigger] xv[j] == (x@[j].key@, x@[j].value.view()),
            entries_in(xv, yv) == entries_in(xv.subrange(0, i as int), yv),
        decreases i,
    {
        let k = i - 1;
        let ghost nx = xv.subrange(0, i as int);
        assert(nx.drop_last() =~= xv.subrange(0, k as int));
        assert(nx.last() == xv[k as int]);
        assert(decreases_to!(nx => nx.drop_last()));
        assert(decreases_to!(nx => nx[nx.len() - 1]));
        assert(decreases_to!(nx[nx.len() - 1] => nx[nx.len() - 1].1));
        match find_prop(y, &x[k].key) {
            Some(j) => {
                if !x[k].value.is_equal(&y[j].value) {
                    assert(!entries_in(nx, yv));
                    return false;
                }
            },
            None => {
                assert(!entries_in(nx, yv));
                return false;
            },
        }
        assert(entries_in(nx, yv) == entries_in(xv.subrange(0, k as int), yv));
        i = k;
    }
    true
}

impl Value {
    /// Equality of the language (see `values_equal`).
    #[verifier::loop_isolation(false)]
    pub fn is_equal(&self, o: &Value) -> (r: bool)
        ensures
            r == values_equal(self.view(), o.view()),
        decreases self,
    {
        match (self, o) {
            (Value::Number(a), Value::Number(b)) => a.units == b.units,
            (Value::String(a), Value::String(b)) => *a == *b,
            (Value::Boolean(a), Value::Boolean(b)) => *a == *b,
            (Value::Nil, Value::Nil) => true,
            (Value::Function(a), Value::Function(b)) => a.decl.name == b.decl.name,
            (Value::NativeFunction(a), Value::NativeFunction(b)) => a.name == b.name,
            (Value::Array(x), Value::Array(y)) => {
                let ghost xv = values_view(x@);
                let ghost yv = values_view(y@);
                proof {
                    lemma_values_view(x@);
                    lemma_values_view(y@);
                }
                if x.len() != y.len() {
                    return false;
                }
                let mut i: usize = x.len();
                assert(xv.subrange(0, i as int) =~= xv);
                assert(yv.subrange(0, i as int) =~= yv);
                while i > 0
                    invariant
                        i <= x.len(),
                        x.len() == y.len(),
                        xv == values_view(x@),
                        yv == values_view(y@),
                        xv.len() == x@.len(),
                        yv.len() == y@.len(),
                        forall|j: int| 0 <= j < x@.len() ==> #[trigger] xv[j] == x@[j].view(),
                        forall|j: int| 0 <= j < y@.len() ==> #[trigger] yv[j] == y@[j].view(),
                        seq_equal(xv, yv) == seq_equal(xv.subrange(0, i as int), yv.subrange(0, i as int)),
                    decreases i,
                {
                    let k = i - 1;
                    let ghost nx = xv.subrange(0, i as int);
                    let ghost ny = yv.subrange(0, i as int);
                    assert(nx.drop_last() =~= xv.subrange(0, k as int));
                    assert(ny.drop_last() =~= yv.subrange(0, k as int));
                    assert(nx.last() == xv[k as int]);
                    assert(ny.last() == yv[k as int]);
                    assert(decreases_to!(nx => nx.drop_last()));
                    assert(decreases_to!(nx => nx[nx.len() - 1]));
                    if !x[k].is_equal(&y[k]) {
                        assert(!seq_equal(nx, ny));
                        return false;
                    }
                    assert(seq_equal(nx, ny) == seq_equal(xv.subrange(0, k as int), yv.subrange(0, k as int)));
                    i = k;
                }
                true
            },
            (Value::Object(x), Value::Object(y)) => props_equal(x, y),
            (Value::Namespace(n, x), Value::Namespace(m, y)) => *n == *m && props_equal(x, y),
            _ => false,
        }
    }

    /// The text that `print` shows.
    #[verifier::loop_isolation(false)]
    pub fn stringify(&self) -> (r: String)
        ensures
            r@ == text_of(self.view()),
        decreases self,
    {
        match self {
            Value::Number(n) => n.to_text(),
            Value::String(s) => s.clone(),
            Value::Boolean(b) => if *b {
                String::from_str("true")
            } else {
                String::from_str("false")
            },
            Value::Nil => String::from_str("nil"),
            Value::Function(f) => {
                let mut s = String::from_str("<fn ");
                s.append(f.decl.name.as_str());
                s.append(">");
                s
            },
            Value::NativeFunction(f) => {
                let mut s = String::from_str("<native fn ");
                s.append(f.name.as_str());
                s.append(">");
                s
            },
            Value::Array(v) => {
                let ghost xv = values_view(v@);
                proof {
                    lemma_values_view(v@);
                }
                let mut s = String::from_str("[");
                let mut i: usize = 0;
                assert(xv.subrange(0, 0) =~= Seq::<Val>::empty());
                assert(s@ =~= "["@ + join_values(xv.subrange(0, 0)));
                while i < v.len()
                    invariant
                        i <= v.len(),
                        xv == values_view(v@),
                        xv.len() == v@.len(),
                        forall|j: int| 0 <= j < v@.len() ==> #[trigger] xv[j] == v@[j].view(),
                        s@ == "["@ + join_values(xv.subrange(0, i as int)),
                    decreases v.len() - i,
                {
                    let ghost before = s@;
                    let ghost next = xv.subrange(0, i + 1);
                    assert(next.drop_last() =~= xv.subrange(0, i as int));
                    assert(next.last() == xv[i as int]);
                    if i > 0 {
                        s.append(", ");
                    }
                    let t = v[i].stringify();
                    s.append(t.as_str());
                    if i == 0 {
                        assert(s@ =~= "["@ + join_values(next));
                    } else {
                        assert(s@ =~= "["@ + join_values(next));
                    }
                    i = i + 1;
                }
                assert(xv.subrange(0, v@.len() as int) =~= xv);
                s.append("]");
                s
            },
            Value::Object(ps) => {
                let ghost pv = props_view(ps@);
                proof {
                    lemma_props_view(ps@);
                }
                let mut s = String::from_str("{");
                let mut i: usize = 0;
                assert(pv.subrange(0, 0) =~= Seq::<(Seq<char>, Val)>::empty());
                assert(s@ =~= "{"@ + join_entries(pv.subrange(0, 0)));
                while i < ps.len()
                    invariant
                        i <= ps.len(),
                        pv == props_view(ps@),
                        pv.len() == ps@.len(),
                        forall|j: int| 0 <= j < ps@.len() ==> #[trigger] pv[j] == (ps@[j].key@, ps@[j].value.view()),
                        s@ == "{"@ + join_entries(pv.subrange(0, i as int)),
                    decreases ps.len() - i,
                {
                    let ghost next = pv.subrange(0, i + 1);
                    assert(next.drop_last() =~= pv.subrange(0, i as int));
                    assert(next.last() == pv[i as int]);
                    if i > 0 {
                        s.append(", ");
                    }
                    s.append(ps[i].key.as_str());
                    s.append(": ");
                    let t = ps[i].value.stringify();
                    s.append(t.as_str());
                    assert(s@ =~= "{"@ + join_entries(next));
                    i = i + 1;
                }
                assert(pv.subrange(0, ps@.len() as int) =~= pv);
                s.append("}");
                s
            },
            Value::Namespace(name, ps) => {
                let ghost pv = props_view(ps@);
                proof {
                    lemma_props_view(ps@);
                }
                let mut s = String::from_str("[Namespace: ");
                s.append(name.as_str());
                s.append(" {");
                let ghost head = s@;
                let mut i: usize = 0;
                assert(pv.subrange(0, 0) =~= Seq::<(Seq<char>, Val)>::empty());
                assert(s@ =~= head + join_keys(pv.subrange(0, 0)));
                while i < ps.len()
                    invariant
                        i <= ps.len(),
                        pv == props_view(ps@),
                        pv.len() == ps@.len(),
                        forall|j: int| 0 <= j < ps@.len() ==> #[trigger] pv[j] == (ps@[j].key@, ps@[j].value.view()),
                        s@ == head + join_keys(pv.subrange(0, i as int)),
                    decreases ps.len() - i,
                {
                    let ghost next = pv.subrange(0, i + 1);
                    assert(next.drop_last() =~= pv.subrange(0, i as int));
                    assert(next.last() == pv[i as int]);
                    if i > 0 {
                        s.append(", ");
                    }
                    s.append(ps[i].key.as_str());
                    assert(s@ =~= head + join_keys(next));
                    i = i + 1;
                }
                assert(pv.subrange(0, ps@.len() as int) =~= pv);
                s.append("}]");
                s
            },
        }
    }
}

} // verus!
