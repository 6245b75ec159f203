//! Lexical environments, kept in one arena.
//!
//! All program state is stored in a [`Scope`]: a table of environments
//! (frames), each naming its parent by index, and the tables of variable and
//! method bindings, each binding tagged with the frame that owns it. A parent
//! always has a smaller index than its children, so walking up a chain ends.
//! Sharing a frame between closures is sharing its index: an assignment made
//! through one holder is seen by every other.

use vstd::prelude::*;
use crate::error::Error;
use crate::text::text_eq;
use crate::typing::TypeDefinition;
use crate::value::{Function, Value};

verus! {

/// One environment: its parent, if any, and a label for diagnostics.
pub struct Frame {
    pub parent: Option<usize>,
    pub context: String,
}

/// A variable declared in a frame.
pub struct Binding {
    pub frame: usize,
    pub name: String,
    pub value: Value,
}

/// A method registered in a frame for a type.
pub struct MethodEntry {
    pub frame: usize,
    pub name: String,
    pub typ: TypeDefinition,
    pub func: Function,
}

/// The arena of environments and their bindings.
pub struct Scope {
    pub frames: Vec<Frame>,
    pub vars: Vec<Binding>,
    pub methods: Vec<MethodEntry>,
}

/// The first index at or after `i` of a binding of `name` owned by frame `at`.
pub open spec fn var_slot(vars: Seq<Binding>, at: int, name: Seq<char>, i: int) -> Option<int>
    decreases vars.len() - i,
{
    if i < 0 || i >= vars.len() {
        None
    } else if vars[i].frame == at && vars[i].name@ == name {
        Some(i)
    } else {
        var_slot(vars, at, name, i + 1)
    }
}

/// The first index at or after `i` of a method `name` for `typ` owned by frame `at`.
pub open spec fn method_slot(
    methods: Seq<MethodEntry>,
    at: int,
    name: Seq<char>,
    typ: TypeDefinition,
    i: int,
) -> Option<int>
    decreases methods.len() - i,
{
    if i < 0 || i >= methods.len() {
        None
    } else if methods[i].frame == at && methods[i].name@ == name && methods[i].typ == typ {
        Some(i)
    } else {
        method_slot(methods, at, name, typ, i + 1)
    }
}

/// The names that frame `at` declares among the first `n` bindings, in table order.
pub open spec fn names_upto(vars: Seq<Binding>, at: int, n: int) -> Seq<Seq<char>>
    decreases n,
{
    if n <= 0 || n > vars.len() {
        Seq::empty()
    } else if vars[n - 1].frame == at {
        names_upto(vars, at, n - 1).push(vars[n - 1].name@)
    } else {
        names_upto(vars, at, n - 1)
    }
}

/// Whether two binding tables hold the same owners and names at every index.
pub open spec fn same_keys(a: Seq<Binding>, b: Seq<Binding>) -> bool {
    a.len() == b.len() && forall|k: int| 0 <= k < a.len() ==> a[k].frame == b[k].frame && a[k].name@ == b[k].name@
}

pub(crate) proof fn lemma_var_slot_same_keys(a: Seq<Binding>, b: Seq<Binding>, at: int, name: Seq<char>, i: int)
    requires
        same_keys(a, b),
    ensures
        var_slot(a, at, name, i) == var_slot(b, at, name, i),
    decreases a.len() - i,
{
    if 0 <= i < a.len() {
        lemma_var_slot_same_keys(a, b, at, name, i + 1);
    }
}

pub(crate) proof fn lemma_var_slot_push(a: Seq<Binding>, b: Binding, at: int, name: Seq<char>, i: int)
    requires
        0 <= i <= a.len(),
    ensures
        var_slot(a.push(b), at, name, i) == (match var_slot(a, at, name, i) {
            Some(k) => Some(k),
            None => if b.frame == at && b.name@ == name { Some(a.len() as int) } else { None },
        }),
    decreases a.len() - i,
{
    assert(a.push(b)[i] == (if i < a.len() { a[i] } else { b }));
    if i < a.len() {
        lemma_var_slot_push(a, b, at, name, i + 1);
    }
}

pub(crate) proof fn lemma_var_slot_found(vars: Seq<Binding>, at: int, name: Seq<char>, i: int)
    requires
        0 <= i,
    ensures
        var_slot(vars, at, name, i) matches Some(k) ==> i <= k < vars.len() && vars[k].frame == at
            && vars[k].name@ == name,
    decreases vars.len() - i,
{
    if 0 <= i < vars.len() {
        lemma_var_slot_found(vars, at, name, i + 1);
    }
}

pub(crate) proof fn lemma_method_slot_found(
    methods: Seq<MethodEntry>,
    at: int,
    name: Seq<char>,
    typ: TypeDefinition,
    i: int,
)
    requires
        0 <= i,
    ensures
        method_slot(methods, at, name, typ, i) matches Some(k) ==> i <= k < methods.len()
            && methods[k].frame == at && methods[k].name@ == name && methods[k].typ == typ,
    decreases methods.len() - i,
{
    if 0 <= i < methods.len() {
        lemma_method_slot_found(methods, at, name, typ, i + 1);
    }
}

/// Whether two method tables hold the same owners, names and types at every index.
pub open spec fn same_method_keys(a: Seq<MethodEntry>, b: Seq<MethodEntry>) -> bool {
    a.len() == b.len() && forall|k: int|
        0 <= k < a.len() ==> a[k].frame == b[k].frame && a[k].name@ == b[k].name@ && a[k].typ == b[k].typ
}

pub(crate) proof fn lemma_method_slot_same_keys(
    a: Seq<MethodEntry>,
    b: Seq<MethodEntry>,
    at: int,
    name: Seq<char>,
    typ: TypeDefinition,
    i: int,
)
    requires
        same_method_keys(a, b),
    ensures
        method_slot(a, at, name, typ, i) == method_slot(b, at, name, typ, i),
    decreases a.len() - i,
{
    if 0 <= i < a.len() {
        lemma_method_slot_same_keys(a, b, at, name, typ, i + 1);
    }
}

pub(crate) proof fn lemma_method_slot_push(
    a: Seq<MethodEntry>,
    e: MethodEntry,
    at: int,
    name: Seq<char>,
    typ: TypeDefinition,
    i: int,
)
    requires
        0 <= i <= a.len(),
    ensures
        method_slot(a.push(e), at, name, typ, i) == (match method_slot(a, at, name, typ, i) {
            Some(k) => Some(k),
            None => if e.frame == at && e.name@ == name && e.typ == typ {
                Some(a.len() as int)
            } else {
                None
            },
        }),
    decreases a.len() - i,
{
    assert(a.push(e)[i] == (if i < a.len() { a[i] } else { e }));
    if i < a.len() {
        lemma_method_slot_push(a, e, at, name, typ, i + 1);
    }
}

/// No binding in `vars` belongs to frame `at`, so frame `at` declares nothing.
pub(crate) proof fn lemma_var_slot_absent(vars: Seq<Binding>, at: int, name: Seq<char>, i: int)
    requires
        forall|k: int| 0 <= k < vars.len() ==> #[trigger] vars[k].frame != at,
    ensures
        var_slot(vars, at, name, i) is None,
    decreases vars.len() - i,
{
    if 0 <= i < vars.len() {
        lemma_var_slot_absent(vars, at, name, i + 1);
    }
}

impl Scope {
    /// Every binding belongs to an existing frame.
    pub open spec fn wf(self) -> bool {
        &&& forall|k: int| 0 <= k < self.vars@.len() ==> #[trigger] self.vars@[k].frame < self.frames@.len()
        &&& forall|k: int| 0 <= k < self.methods@.len() ==> #[trigger] self.methods@[k].frame < self.frames@.len()
    }

    /// The slot of `name` among the variables that frame `at` itself declares.
    pub open spec fn local_slot(self, at: int, name: Seq<char>) -> Option<int> {
        var_slot(self.vars@, at, name, 0)
    }

    /// The parent of frame `at`, where there is one (and it comes before `at`).
    pub open spec fn parent_of(self, at: int) -> Option<int> {
        if 0 <= at < self.frames@.len() {
            match self.frames@[at].parent {
                Some(p) => if p < at { Some(p as int) } else { None },
                None => None,
            }
        } else {
            None
        }
    }

    /// The slot of the binding that `name` denotes from frame `at`: the
    /// nearest frame up the parent chain that declares it.
    pub open spec fn resolve(self, at: int, name: Seq<char>) -> Option<int>
        decreases at,
    {
        if at < 0 {
            None
        } else {
            match self.local_slot(at, name) {
                Some(i) => Some(i),
                None => match self.parent_of(at) {
                    Some(p) => self.resolve(p, name),
                    None => None,
                },
            }
        }
    }

    /// The value that `name` denotes from frame `at`.
    pub open spec fn lookup(self, at: int, name: Seq<char>) -> Option<Value> {
        match self.resolve(at, name) {
            Some(i) => Some(self.vars@[i].value),
            None => None,
        }
    }

    /// The slot of the method `name` for `typ` that frame `at` itself registers.
    pub open spec fn local_method_slot(self, at: int, name: Seq<char>, typ: TypeDefinition) -> Option<int> {
        method_slot(self.methods@, at, name, typ, 0)
    }

    /// The method `name` for `typ` visible from frame `at`.
    pub open spec fn lookup_method(self, at: int, name: Seq<char>, typ: TypeDefinition) -> Option<Function>
        decreases at,
    {
        if at < 0 {
            None
        } else {
            match self.local_method_slot(at, name, typ) {
                Some(i) => Some(self.methods@[i].func),
                None => match self.parent_of(at) {
                    Some(p) => self.lookup_method(p, name, typ),
                    None => None,
                },
            }
        }
    }

    /// `new` is `self` after `name` was declared with `val` in frame `at`.
    pub open spec fn after_declare(self, new: Scope, at: int, name: Seq<char>, val: Value) -> bool {
        &&& new.frames@ == self.frames@
        &&& new.methods@ == self.methods@
        &&& new.vars@.len() == self.vars@.len() + 1
        &&& new.vars@.drop_last() == self.vars@
        &&& new.vars@.last().frame == at
        &&& new.vars@.last().name@ == name
        &&& new.vars@.last().value == val
    }

    /// `new` is `self` after the binding in slot `i` was given `val`.
    pub open spec fn after_assign(self, new: Scope, i: int, val: Value) -> bool {
        &&& new.frames@ == self.frames@
        &&& new.methods@ == self.methods@
        &&& 0 <= i < self.vars@.len()
        &&& new.vars@ == self.vars@.update(
            i,
            Binding { frame: self.vars@[i].frame, name: self.vars@[i].name, value: val },
        )
    }

    /// `new` is `self` after frame `id` was added under `parent`.
    pub open spec fn after_nest(self, new: Scope, id: int, parent: int, context: Seq<char>) -> bool {
        &&& id == self.frames@.len()
        &&& new.frames@.len() == id + 1
        &&& new.frames@.drop_last() == self.frames@
        &&& new.frames@[id].parent == Some(parent as usize)
        &&& new.frames@[id].context@ == context
        &&& new.vars@ == self.vars@
        &&& new.methods@ == self.methods@
    }

    /// A store with one root frame and no bindings.
    pub fn new(context: String) -> (s: Scope)
        ensures
            s.frames@.len() == 1,
            s.frames@[0].parent is None,
            s.frames@[0].context == context,
            s.vars@.len() == 0,
            s.methods@.len() == 0,
            s.wf(),
    {
        let mut frames: Vec<Frame> = Vec::new();
        frames.push(Frame { parent: None, context });
        Scope { frames, vars: Vec::new(), methods: Vec::new() }
    }

    /// Adds a frame under `parent`, with no bindings of its own, and returns its index.
    pub fn nest(&mut self, parent: usize, context: &str) -> (id: usize)
        ensures
            old(self).after_nest(*final(self), id as int, parent as int, context@),
            old(self).wf() ==> final(self).wf(),
    {
        let id = self.frames.len();
        self.frames.push(Frame { parent: Some(parent), context: context.to_string() });
        assert(self.frames@.drop_last() =~= old(self).frames@);
        id
    }

    /// The label of frame `at`, or an empty text for an unknown frame.
    pub fn context_of(&self, at: usize) -> (r: String)
        ensures
            at < self.frames@.len() ==> r == self.frames@[at as int].context,
    {
        if at < self.frames.len() {
            self.frames[at].context.clone()
        } else {
            String::new()
        }
    }

    fn find_local(&self, at: usize, name: &str) -> (r: Option<usize>)
        ensures
            r matches Some(i) ==> self.local_slot(at as int, name@) == Some(i as int) && i < self.vars@.len(),
            r is None ==> self.local_slot(at as int, name@) is None,
    {
        let mut i: usize = 0;
        while i < self.vars.len()
            invariant
                i <= self.vars@.len(),
                self.local_slot(at as int, name@) == var_slot(self.vars@, at as int, name@, i as int),
            decreases self.vars@.len() - i,
        {
            if self.vars[i].frame == at && text_eq(self.vars[i].name.as_str(), name) {
                proof {
                    lemma_var_slot_found(self.vars@, at as int, name@, 0);
                }
                return Some(i);
            }
            i = i + 1;
        }
        None
    }

    fn find_var(&self, at: usize, name: &str) -> (r: Option<usize>)
        ensures
            r matches Some(i) ==> self.resolve(at as int, name@) == Some(i as int) && i < self.vars@.len(),
            r is None ==> self.resolve(at as int, name@) is None,
    {
        let mut cur = at;
        loop
            invariant
                self.resolve(at as int, name@) == self.resolve(cur as int, name@),
            decreases cur,
        {
            match self.find_local(cur, name) {
                Some(i) => {
                    return Some(i);
                },
                None => {
                    if cur < self.frames.len() {
                        match self.frames[cur].parent {
                            Some(p) => {
                                if p < cur {
                                    cur = p;
                                } else {
                                    return None;
                                }
                            },
                            None => {
                                return None;
                            },
                        }
                    } else {
                        return None;
                    }
                },
            }
        }
    }

    /// Declares `name` in frame `at`, unless that frame already declares it.
    pub fn declare_var(&mut self, at: usize, name: &str, val: Value) -> (r: Result<(), Error>)
        requires
            at < old(self).frames@.len(),
        ensures
            old(self).wf() ==> final(self).wf(),
            old(self).local_slot(at as int, name@) is Some ==> *final(self) == *old(self)
                && (r matches Err(Error::DuplicateDeclaration { name: n, .. }) && n@ == name@),
            old(self).local_slot(at as int, name@) is None ==> r is Ok
                && old(self).after_declare(*final(self), at as int, name@, val),
    {
        match self.find_local(at, name) {
            Some(_) => Err(Error::DuplicateDeclaration { name: name.to_string(), context: self.context_of(at) }),
            None => {
                self.vars.push(Binding { frame: at, name: name.to_string(), value: val });
                assert(self.vars@.drop_last() =~= old(self).vars@);
                Ok(())
            },
        }
    }

    /// Assigns to the variable `name` as resolved from frame `at`: in the
    /// nearest frame up the chain that declares it.
    pub fn set_var(&mut self, at: usize, name: &str, val: Value) -> (r: Result<(), Error>)
        ensures
            old(self).wf() ==> final(self).wf(),
            old(self).resolve(at as int, name@) is None ==> *final(self) == *old(self)
                && (r matches Err(Error::UndeclaredVariable { name: n, .. }) && n@ == name@),
            old(self).resolve(at as int, name@) matches Some(i) ==> r is Ok
                && old(self).after_assign(*final(self), i, val),
    {
        match self.find_var(at, name) {
            Some(i) => {
                proof {
                    lemma_var_slot_found(self.vars@, at as int, name@, 0);
                }
                let b = Binding { frame: self.vars[i].frame, name: self.vars[i].name.clone(), value: val };
                self.vars.set(i, b);
                Ok(())
            },
            None => Err(Error::UndeclaredVariable { name: name.to_string(), context: self.context_of(at) }),
        }
    }

    /// The value of `name` as resolved from frame `at`, if declared.
    pub fn get_var(&self, at: usize, name: &str) -> (r: Option<Value>)
        ensures
            r == self.lookup(at as int, name@),
    {
        match self.find_var(at, name) {
            Some(i) => Some(self.vars[i].value.duplicate()),
            None => None,
        }
    }

    /// The names that frame `at` itself declares, in order of declaration.
    pub fn all_var_names(&self, at: usize) -> (r: Vec<String>)
        ensures
            r@.len() == names_upto(self.vars@, at as int, self.vars@.len() as int).len(),
            forall|k: int|
                0 <= k < r@.len() ==> #[trigger] r@[k]@ == names_upto(self.vars@, at as int, self.vars@.len() as int)[k],
    {
        let mut r: Vec<String> = Vec::new();
        let mut i: usize = 0;
        while i < self.vars.len()
            invariant
                i <= self.vars@.len(),
                r@.len() == names_upto(self.vars@, at as int, i as int).len(),
                forall|k: int| 0 <= k < r@.len() ==> #[trigger] r@[k]@ == names_upto(self.vars@, at as int, i as int)[k],
            decreases self.vars@.len() - i,
        {
            if self.vars[i].frame == at {
                r.push(self.vars[i].name.clone());
            }
            i = i + 1;
        }
        r
    }

    /// Whether frame `at` itself declares `name`.
    pub fn var_is_set(&self, at: usize, name: &str) -> (r: bool)
        ensures
            r == self.local_slot(at as int, name@) is Some,
    {
        self.find_local(at, name).is_some()
    }

    fn find_local_method(&self, at: usize, name: &str, typ: TypeDefinition) -> (r: Option<usize>)
        ensures
            r matches Some(i) ==> self.local_method_slot(at as int, name@, typ) == Some(i as int)
                && i < self.methods@.len(),
            r is None ==> self.local_method_slot(at as int, name@, typ) is None,
    {
        let mut i: usize = 0;
        while i < self.methods.len()
            invariant
                i <= self.methods@.len(),
                self.local_method_slot(at as int, name@, typ) == method_slot(
                    self.methods@,
                    at as int,
                    name@,
                    typ,
                    i as int,
                ),
            decreases self.methods@.len() - i,
        {
            if self.methods[i].frame == at && self.methods[i].typ == typ && text_eq(
                self.methods[i].name.as_str(),
                name,
            ) {
                proof {
                    lemma_method_slot_found(self.methods@, at as int, name@, typ, 0);
                }
                return Some(i);
            }
            i = i + 1;
        }
        None
    }

    /// Registers `func` as method `name` for `for_type` in frame `at`,
    /// replacing what that frame registered under the same key.
    pub fn declare_method(&mut self, at: usize, name: &str, for_type: TypeDefinition, func: Function)
        requires
            at < old(self).frames@.len(),
        ensures
            old(self).wf() ==> final(self).wf(),
            final(self).frames@ == old(self).frames@,
            final(self).vars@ == old(self).vars@,
            final(self).lookup_method(at as int, name@, for_type) == Some(func),
            old(self).local_method_slot(at as int, name@, for_type) matches Some(i) ==> final(self).methods@
                == old(self).methods@.update(
                i,
                MethodEntry {
                    frame: old(self).methods@[i].frame,
                    name: old(self).methods@[i].name,
                    typ: for_type,
                    func,
                },
            ),
            old(self).local_method_slot(at as int, name@, for_type) is None ==> final(self).methods@.len()
                == old(self).methods@.len() + 1 && final(self).methods@.drop_last() == old(self).methods@
                && final(self).methods@.last().frame == at && final(self).methods@.last().name@ == name@
                && final(self).methods@.last().typ == for_type && final(self).methods@.last().func == func,
    {
        match self.find_local_method(at, name, for_type) {
            Some(i) => {
                proof {
                    lemma_method_slot_found(self.methods@, at as int, name@, for_type, 0);
                }
                let e = MethodEntry {
                    frame: self.methods[i].frame,
                    name: self.methods[i].name.clone(),
                    typ: for_type,
                    func,
                };
                self.methods.set(i, e);
                proof {
                    lemma_method_slot_same_keys(old(self).methods@, self.methods@, at as int, name@, for_type, 0);
                }
            },
            None => {
                self.methods.push(MethodEntry { frame: at, name: name.to_string(), typ: for_type, func });
                assert(self.methods@.drop_last() =~= old(self).methods@);
                proof {
                    lemma_method_slot_push(old(self).methods@, self.methods@.last(), at as int, name@, for_type, 0);
                }
            },
        }
    }

    /// The method `name` for `typ` as resolved from frame `at`.
    pub fn get_method(&self, at: usize, name: &str, typ: TypeDefinition) -> (r: Option<Function>)
        ensures
            r == self.lookup_method(at as int, name@, typ),
    {
        let mut cur = at;
        loop
            invariant
                self.lookup_method(at as int, name@, typ) == self.lookup_method(cur as int, name@, typ),
            decreases cur,
        {
            match self.find_local_method(cur, name, typ) {
                Some(i) => {
                    return Some(self.methods[i].func.duplicate());
                },
                None => {
                    if cur < self.frames.len() {
                        match self.frames[cur].parent {
                            Some(p) => {
                                if p < cur {
                                    cur = p;
                                } else {
                                    return None;
                                }
                            },
                            None => {
                                return None;
                            },
                        }
                    } else {
                        return None;
                    }
                },
            }
        }
    }

    /// The function that `name` denotes from frame `at`.
    pub fn get_fn(&self, at: usize, name: &str) -> (r: Result<Function, Error>)
        ensures
            self.lookup(at as int, name@) is None ==> (r matches Err(Error::UndeclaredVariable { name: n, .. })
                && n@ == name@),
            self.lookup(at as int, name@) matches Some(Value::Function(f)) ==> r == Ok::<Function, Error>(f),
            (self.lookup(at as int, name@) matches Some(v) && !(v is Function)) ==> (r matches Err(
                Error::NotAFunction { name: n },
            ) && n@ == name@),
    {
        match self.get_var(at, name) {
            Some(Value::Function(f)) => Ok(f),
            Some(_) => Err(Error::NotAFunction { name: name.to_string() }),
            None => Err(Error::UndeclaredVariable { name: name.to_string(), context: self.context_of(at) }),
        }
    }
}

pub(crate) proof fn lemma_resolve_found(s: Scope, at: int, name: Seq<char>)
    ensures
        s.resolve(at, name) matches Some(i) ==> 0 <= i < s.vars@.len() && s.vars@[i].name@ == name,
    decreases at,
{
    if at >= 0 {
        lemma_var_slot_found(s.vars@, at, name, 0);
        if let Some(p) = s.parent_of(at) {
            lemma_resolve_found(s, p, name);
        }
    }
}

pub(crate) proof fn lemma_resolve_same_keys(s0: Scope, s1: Scope, at: int, name: Seq<char>)
    requires
        s0.frames@ == s1.frames@,
        same_keys(s0.vars@, s1.vars@),
    ensures
        s0.resolve(at, name) == s1.resolve(at, name),
    decreases at,
{
    if at >= 0 {
        lemma_var_slot_same_keys(s0.vars@, s1.vars@, at, name, 0);
        if let Some(p) = s0.parent_of(at) {
            lemma_resolve_same_keys(s0, s1, p, name);
        }
    }
}

pub(crate) proof fn lemma_resolve_after_push(s0: Scope, s1: Scope, at: int, f: int, name: Seq<char>, val: Value)
    requires
        s0.after_declare(s1, at, name, val),
        f < at,
    ensures
        s1.resolve(f, name) == s0.resolve(f, name),
    decreases f,
{
    if f >= 0 {
        assert(s1.vars@ == s0.vars@.push(s1.vars@.last()));
        lemma_var_slot_push(s0.vars@, s1.vars@.last(), f, name, 0);
        if let Some(p) = s0.parent_of(f) {
            lemma_resolve_after_push(s0, s1, at, p, name, val);
        }
    }
}

pub(crate) proof fn lemma_method_slot_absent(
    methods: Seq<MethodEntry>,
    at: int,
    name: Seq<char>,
    typ: TypeDefinition,
    i: int,
)
    requires
        forall|k: int| 0 <= k < methods.len() ==> #[trigger] methods[k].frame != at,
    ensures
        method_slot(methods, at, name, typ, i) is None,
    decreases methods.len() - i,
{
    if 0 <= i < methods.len() {
        lemma_method_slot_absent(methods, at, name, typ, i + 1);
    }
}

proof fn lemma_lookups_keep_after_nest(s0: Scope, s1: Scope, id: int, parent: int, context: Seq<char>, f: int, name: Seq<char>, typ: TypeDefinition)
    requires
        s0.after_nest(s1, id, parent, context),
        f < id,
    ensures
        s1.lookup_method(f, name, typ) == s0.lookup_method(f, name, typ),
        s1.lookup(f, name) == s0.lookup(f, name),
    decreases f,
{
    if f >= 0 {
        assert(s1.frames@[f] == s0.frames@[f]);
        if let Some(p) = s0.parent_of(f) {
            lemma_lookups_keep_after_nest(s0, s1, id, parent, context, p, name, typ);
        }
    }
}

/// A new frame declares nothing of its own, so from it every name and
/// method resolves as from its parent.
pub proof fn lemma_nested_frame_sees_parent(s0: Scope, s1: Scope, id: int, parent: int, context: Seq<char>, name: Seq<char>, typ: TypeDefinition)
    requires
        s0.wf(),
        0 <= parent < s0.frames@.len(),
        s0.after_nest(s1, id, parent, context),
    ensures
        s1.lookup_method(id, name, typ) == s0.lookup_method(parent, name, typ),
        s1.lookup(id, name) == s0.lookup(parent, name),
{
    broadcast use vstd::std_specs::vec::group_vec_axioms;

    assert(s0.frames.len() == s0.frames@.len());
    lemma_method_slot_absent(s1.methods@, id, name, typ, 0);
    lemma_var_slot_absent(s1.vars@, id, name, 0);
    assert(s1.parent_of(id) == Some(parent));
    lemma_lookups_keep_after_nest(s0, s1, id, parent, context, parent, name, typ);
}

/// Declaring `name` in frame `at` makes it local there, so that declaring it
/// there again fails; reading it from `at` gives the new value, which shadows
/// any outer binding; reading it from any frame made before `at` (its parent
/// among them) gives what it gave before.
pub proof fn lemma_declare_shadows(s0: Scope, s1: Scope, at: int, name: Seq<char>, val: Value)
    requires
        0 <= at,
        s0.local_slot(at, name) is None,
        s0.after_declare(s1, at, name, val),
    ensures
        s1.local_slot(at, name) is Some,
        s1.lookup(at, name) == Some(val),
        forall|f: int| f < at ==> #[trigger] s1.lookup(f, name) == s0.lookup(f, name),
{
    assert(s1.vars@ == s0.vars@.push(s1.vars@.last()));
    lemma_var_slot_push(s0.vars@, s1.vars@.last(), at, name, 0);
    assert forall|f: int| f < at implies #[trigger] s1.lookup(f, name) == s0.lookup(f, name) by {
        lemma_resolve_after_push(s0, s1, at, f, name, val);
        lemma_resolve_found(s0, f, name);
    }
}

/// Frames share bindings rather than copying them: after an assignment
/// through frame `at`, every frame that resolves the name to the same binding
/// (a closure's frame below the defining one, say) reads the new value.
pub proof fn lemma_assignment_shared(s0: Scope, s1: Scope, at: int, other: int, name: Seq<char>, val: Value)
    requires
        s0.resolve(at, name) is Some,
        s0.resolve(other, name) == s0.resolve(at, name),
        s0.after_assign(s1, s0.resolve(at, name)->0, val),
    ensures
        s1.lookup(at, name) == Some(val),
        s1.lookup(other, name) == Some(val),
{
    assert(same_keys(s0.vars@, s1.vars@));
    lemma_resolve_same_keys(s0, s1, at, name);
    lemma_resolve_same_keys(s0, s1, other, name);
}

} // verus!
