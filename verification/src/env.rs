//! Environments: persistent maps from names to values, kept in a hash
//! array mapped trie of the crate `im`.

use crate::values::{Value, ValueView};
use std::rc::Rc;
use vstd::prelude::*;

verus! {

/// The type `im::HashMap`, a persistent hash map. Nothing of its inside is
/// known to the proofs.
#[verifier::external_type_specification]
#[verifier::external_body]
#[verifier::reject_recursive_types(K)]
#[verifier::reject_recursive_types(V)]
#[verifier::reject_recursive_types(S)]
pub struct ExHashMap<K, V, S>(im::HashMap<K, V, S>);

/// What an environment binds: a map from names to values.
pub type Bindings = Map<Seq<char>, ValueView>;

/// The bindings that a table of `im::HashMap` holds, each key and value
/// taken by its mathematical value.
pub uninterp spec fn table_bindings(t: im::HashMap<String, Rc<Value>>) -> Map<Seq<char>, ValueView>;

/// The bindings that the table inside an environment holds.
pub uninterp spec fn env_bindings(e: Env) -> Map<Seq<char>, ValueView>;

/// The map that binds nothing.
pub open spec fn no_bindings() -> Bindings {
    Map::empty()
}

/// The value that a name stands for: what the map binds it to, or `Nil`
/// where it binds nothing.
pub open spec fn lookup_in(bindings: Bindings, name: Seq<char>) -> ValueView {
    if bindings.contains_key(name) {
        bindings[name]
    } else {
        ValueView::Nil
    }
}

/// `im::HashMap::new`: the new table is empty.
#[verifier::external_body]
pub(crate) fn table_new() -> (t: im::HashMap<String, Rc<Value>>)
    ensures
        table_bindings(t) == no_bindings(),
{
    im::HashMap::new()
}

/// `im::HashMap::insert`: the table binds the name to the value, in place of
/// what it bound the name to before, and its other bindings stay.
#[verifier::external_body]
pub(crate) fn table_insert(t: &mut im::HashMap<String, Rc<Value>>, name: String, value: Rc<Value>)
    ensures
        table_bindings(*final(t)) == table_bindings(*old(t)).insert(name@, value@),
{
    t.insert(name, value);
}

/// `Rc::clone`: a second pointer to the same value.
#[verifier::external_body]
pub(crate) fn share<T>(r: &Rc<T>) -> (s: Rc<T>)
    ensures
        s == r,
{
    Rc::clone(r)
}

/// An immutable mapping from names to values. A new binding makes a new
/// environment, which shares what it can with the old one.
///
/// The table is an `im::HashMap` from names to shared values. The proofs
/// do not look inside it: they know an environment by [`env_bindings`]
/// alone.
#[verifier::external_body]
#[derive(Debug)]
pub struct Env {
    table: im::HashMap<String, Rc<Value>>,
}

impl Clone for Env {
    /// `im::HashMap::clone`: the copy holds the same bindings; it shares
    /// the nodes of the table.
    #[verifier::external_body]
    fn clone(&self) -> (e: Env)
        ensures
            env_bindings(e) == env_bindings(*self),
    {
        Env { table: self.table.clone() }
    }
}

impl View for Env {
    type V = Bindings;

    open spec fn view(&self) -> Bindings {
        env_bindings(*self)
    }
}

impl Env {
    /// The environment that holds the bindings of a table: the table becomes
    /// the environment's own, as it is.
    #[verifier::external_body]
    pub fn from_table(table: im::HashMap<String, Rc<Value>>) -> (e: Env)
        ensures
            env_bindings(e) == table_bindings(table),
    {
        Env { table }
    }

    /// The environment that binds nothing.
    pub fn new() -> (e: Env)
        ensures
            e@ == no_bindings(),
    {
        Env::from_table(table_new())
    }

    /// `im::HashMap::update`: the new environment binds the name to the
    /// value and is otherwise as this one, which stays as it was.
    #[verifier::external_body]
    pub(crate) fn add_name(&self, name: String, value: Rc<Value>) -> (e: Env)
        ensures
            env_bindings(e) == env_bindings(*self).insert(name@, value@),
    {
        Env { table: self.table.update(name, value) }
    }

    /// `im::HashMap::get`: the value that the environment binds the name to,
    /// if it binds it.
    #[verifier::external_body]
    fn get(&self, name: &String) -> (r: Option<Rc<Value>>)
        ensures
            r is Some == env_bindings(*self).contains_key(name@),
            r matches Some(v) ==> v@ == env_bindings(*self)[name@],
    {
        self.table.get(name).cloned()
    }

    /// The value that a name stands for; `Nil` where the name is not bound.
    pub fn lookup(&self, name: &String) -> (v: Rc<Value>)
        ensures
            v@ == lookup_in(self@, name@),
    {
        match self.get(name) {
            Some(v) => v,
            None => Rc::new(Value::Nil),
        }
    }
}

} // verus!
