//! The prototype registry: one record per registered type, created while a
//! context initializes and never mutated afterward.
//!
//! Each binding owns a constructor function object and a prototype object in
//! the context's heap; a binding with a supertype has its prototype object's
//! own prototype link set to the supertype's prototype object, so the
//! script-visible prototype chain mirrors the declared supertype chain.

use vstd::prelude::*;

use crate::DomError;
use crate::heap::Heap;
use crate::heap::ScriptObject;
use crate::table::PropAttributes;

verus! {

/// The native behavior a type's script-invoked constructor is bound to.
#[derive(Debug, Clone, Copy, PartialEq, Eq, Structural)]
pub enum CtorBehavior {
    /// The type is not constructible: `new T()` raises the
    /// illegal-constructor error.
    Illegal,
    /// `new T()` allocates a plain instance with the type's prototype and no
    /// native payload.
    Plain,
    /// `new T()` builds the default document tree and allocates an instance
    /// backed by a document payload over its root.
    DefaultDocument,
}

/// The registered record of one type: its script-visible name, its
/// constructor behavior, the attribute flags its constructor is bound to the
/// global object with, its optional supertype, and its two heap objects.
pub struct TypeBinding {
    /// The global property key and script-visible class name.
    pub name: String,
    /// The native behavior of the type's constructor.
    pub ctor: CtorBehavior,
    /// The attribute flags used when the constructor is registered globally.
    pub attrs: PropAttributes,
    /// The registry index of the supertype, registered earlier, if any.
    pub supertype: Option<usize>,
    /// The heap index of the type's prototype object.
    pub proto_obj: usize,
    /// The heap index of the type's constructor function object.
    pub ctor_obj: usize,
}

/// The per-context prototype registry.
pub struct Registry {
    /// All bindings, in registration order.
    pub bindings: Vec<TypeBinding>,
}

/// The index of the binding named `name`, if one is registered.
pub open spec fn spec_lookup_binding(s: Seq<TypeBinding>, name: Seq<char>) -> Option<int>
    decreases s.len(),
{
    if s.len() == 0 {
        None
    } else if s[s.len() - 1].name@ == name {
        Some(s.len() - 1)
    } else {
        spec_lookup_binding(s.drop_last(), name)
    }
}

/// Type `u` stands on the supertype chain of type `t` (a type stands on its
/// own chain).
pub open spec fn in_super_chain(s: Seq<TypeBinding>, t: int, u: int) -> bool
    decreases t,
{
    if 0 <= t < s.len() {
        t == u || (match s[t].supertype {
            Some(sup) => if (sup as int) < t {
                in_super_chain(s, sup as int, u)
            } else {
                false
            },
            None => false,
        })
    } else {
        false
    }
}

/// A found binding index is in range and carries the looked-up name.
pub proof fn lemma_lookup_binding_in_range(s: Seq<TypeBinding>, name: Seq<char>)
    requires
        spec_lookup_binding(s, name) matches Some(i),
    ensures
        spec_lookup_binding(s, name) matches Some(i) ==> 0 <= i < s.len() && s[i].name@ == name,
    decreases s.len(),
{
    if s.len() > 0 && s[s.len() - 1].name@ != name {
        lemma_lookup_binding_in_range(s.drop_last(), name);
    }
}

/// When the lookup finds nothing, no binding carries the name.
pub proof fn lemma_lookup_binding_none(s: Seq<TypeBinding>, name: Seq<char>)
    requires
        spec_lookup_binding(s, name) is None,
    ensures
        forall|i: int| 0 <= i < s.len() ==> s[i].name@ != name,
    decreases s.len(),
{
    if s.len() > 0 {
        lemma_lookup_binding_none(s.drop_last(), name);
        assert forall|i: int| 0 <= i < s.len() implies s[i].name@ != name by {
            if i < s.len() - 1 {
                assert(s.drop_last()[i] == s[i]);
            }
        }
    }
}

/// When exactly one binding carries the name, the lookup finds that one.
pub proof fn lemma_lookup_binding_unique(s: Seq<TypeBinding>, name: Seq<char>, i: int)
    requires
        0 <= i < s.len(),
        s[i].name@ == name,
        forall|j: int| 0 <= j < s.len() && j != i ==> s[j].name@ != name,
    ensures
        spec_lookup_binding(s, name) == Some(i),
    decreases s.len(),
{
    if i < s.len() - 1 {
        lemma_lookup_binding_unique(s.drop_last(), name, i);
    }
}

impl Registry {
    /// The binding at index `i` is internally consistent with the heap
    /// `objs`: its heap objects exist, its supertype was registered earlier,
    /// and its prototype object's prototype link points exactly to the
    /// supertype's prototype object.
    pub open spec fn binding_ok(self, objs: Seq<ScriptObject>, i: int) -> bool {
        &&& self.bindings@[i].proto_obj < objs.len()
        &&& self.bindings@[i].ctor_obj < objs.len()
        &&& (self.bindings@[i].supertype matches Some(s) ==> (s as int) < i)
        &&& objs[self.bindings@[i].proto_obj as int].proto == (match self.bindings@[i].supertype {
            Some(s) => Some(self.bindings@[s as int].proto_obj),
            None => None::<usize>,
        })
        &&& objs[self.bindings@[i].proto_obj as int].slot is None
    }

    /// Well-formedness with respect to the heap: every binding is consistent,
    /// prototype objects are pairwise distinct, and names are unique.
    pub open spec fn wf(self, objs: Seq<ScriptObject>) -> bool {
        &&& forall|i: int| 0 <= i < self.bindings@.len() ==> self.binding_ok(objs, i)
        &&& forall|i: int, j: int|
            0 <= i < self.bindings@.len() && 0 <= j < self.bindings@.len() && i != j
                ==> self.bindings@[i].proto_obj != self.bindings@[j].proto_obj
        &&& forall|i: int, j: int|
            0 <= i < self.bindings@.len() && 0 <= j < self.bindings@.len() && i != j
                ==> self.bindings@[i].name@ != self.bindings@[j].name@
    }

    /// An empty registry.
    pub fn new() -> (r: Registry)
        ensures
            r.bindings@ == Seq::<TypeBinding>::empty(),
    {
        Registry { bindings: Vec::new() }
    }

    /// Number of registered bindings.
    pub fn len(&self) -> (n: usize)
        ensures
            n == self.bindings@.len(),
    {
        self.bindings.len()
    }

    /// The index of the binding named `name`, if one is registered.
    pub fn lookup(&self, name: &String) -> (r: Option<usize>)
        ensures
            r == match spec_lookup_binding(self.bindings@, name@) {
                Some(i) => Some(i as usize),
                None => None::<usize>,
            },
    {
        let mut j: usize = self.bindings.len();
        proof {
            assert(self.bindings@.take(j as int) =~= self.bindings@);
        }
        loop
            invariant
                j <= self.bindings@.len(),
                spec_lookup_binding(self.bindings@, name@) == spec_lookup_binding(
                    self.bindings@.take(j as int),
                    name@,
                ),
            decreases j,
        {
            if j == 0 {
                return None;
            }
            proof {
                assert(self.bindings@.take(j as int)[j - 1] == self.bindings@[j - 1]);
            }
            if self.bindings[j - 1].name == *name {
                return Some(j - 1);
            }
            proof {
                assert(self.bindings@.take(j as int).drop_last() =~= self.bindings@.take(
                    j as int - 1,
                ));
            }
            j = j - 1;
        }
    }

    /// Registers a type: builds its constructor function object and a fresh
    /// prototype object, links the prototype to the supertype's prototype
    /// object when a supertype is given, and records the binding.
    ///
    /// Fails, leaving the context untouched, exactly when the name is already
    /// registered in this context or the supertype index does not name an
    /// earlier-registered binding; registering a type before its supertype is
    /// an initialization-order defect, reported, never a crash.
    pub fn register(
        &mut self,
        heap: &mut Heap,
        name: String,
        ctor: CtorBehavior,
        attrs: PropAttributes,
        supertype: Option<usize>,
    ) -> (r: Result<usize, DomError>)
        requires
            old(self).wf(old(heap).objects@),
            old(heap).wf(),
        ensures
            final(heap).wf(),
            final(self).wf(final(heap).objects@),
            r is Err <==> (spec_lookup_binding(old(self).bindings@, name@) is Some || (
            supertype matches Some(s) && s >= old(self).bindings@.len())),
            r is Err ==> r == Err::<usize, DomError>(DomError::RegistrationOrder) && *final(self)
                == *old(self) && *final(heap) == *old(heap),
            r matches Ok(idx) ==> {
                &&& idx == old(self).bindings@.len()
                &&& final(self).bindings@.len() == old(self).bindings@.len() + 1
                &&& forall|k: int|
                    0 <= k < old(self).bindings@.len() ==> final(self).bindings@[k] == old(
                        self,
                    ).bindings@[k]
                &&& final(self).bindings@[idx as int].name == name
                &&& final(self).bindings@[idx as int].ctor == ctor
                &&& final(self).bindings@[idx as int].attrs == attrs
                &&& final(self).bindings@[idx as int].supertype == supertype
                &&& final(self).bindings@[idx as int].proto_obj == old(heap).objects@.len()
                &&& final(self).bindings@[idx as int].ctor_obj == old(heap).objects@.len() + 1
                &&& final(heap).objects@.len() == old(heap).objects@.len() + 2
                &&& forall|o: int|
                    0 <= o < old(heap).objects@.len() ==> final(heap).objects@[o] == old(
                        heap,
                    ).objects@[o]
                &&& final(heap).objects@[old(heap).objects@.len() as int].slot is None
                &&& final(heap).objects@[old(heap).objects@.len() as int + 1].slot is None
                &&& final(heap).objects@[old(heap).objects@.len() as int + 1].proto is None
            },
    {
        let dup = self.lookup(&name);
        if dup.is_some() {
            return Err(DomError::RegistrationOrder);
        }
        let proto_parent: Option<usize> = match supertype {
            Some(s) => {
                if s >= self.bindings.len() {
                    return Err(DomError::RegistrationOrder);
                }
                proof {
                    assert(self.binding_ok(heap.objects@, s as int));
                }
                Some(self.bindings[s].proto_obj)
            },
            None => None,
        };
        let proto_obj = heap.allocate(proto_parent, None);
        let ctor_obj = heap.allocate(None, None);
        let idx: usize = self.bindings.len();
        proof {
            lemma_lookup_binding_none(self.bindings@, name@);
        }
        self.bindings.push(
            TypeBinding { name, ctor, attrs, supertype, proto_obj, ctor_obj },
        );
        proof {
            assert forall|i: int|
                0 <= i < self.bindings@.len() implies self.binding_ok(heap.objects@, i) by {
                if i < idx {
                    assert(old(self).binding_ok(old(heap).objects@, i));
                }
            }
            assert forall|i: int, j: int|
                0 <= i < self.bindings@.len() && 0 <= j < self.bindings@.len() && i
                    != j implies self.bindings@[i].proto_obj != self.bindings@[j].proto_obj by {
                if i == idx as int {
                    assert(old(self).binding_ok(old(heap).objects@, j));
                } else if j == idx as int {
                    assert(old(self).binding_ok(old(heap).objects@, i));
                }
            }
        }
        Ok(idx)
    }
}

/// For every registered type and every instance reflected with that type's
/// prototype, the instance's prototype chain passes through exactly the
/// prototype objects of the types on the declared supertype chain: the
/// `instanceof`-style check holds transitively, and for no other registered
/// type.
pub proof fn lemma_prototype_chain_matches_bindings(
    reg: Registry,
    heap: Heap,
    obj: int,
    t: int,
    u: int,
)
    requires
        heap.wf(),
        reg.wf(heap.objects@),
        0 <= t < reg.bindings@.len(),
        0 <= u < reg.bindings@.len(),
        0 <= obj < heap.objects@.len(),
        heap.objects@[obj].proto == Some(reg.bindings@[t].proto_obj),
    ensures
        crate::heap::chain_contains(heap.objects@, obj, reg.bindings@[u].proto_obj as int)
            <==> in_super_chain(reg.bindings@, t, u),
    decreases t,
{
    let pt = reg.bindings@[t].proto_obj as int;
    let pu = reg.bindings@[u].proto_obj as int;
    assert(reg.binding_ok(heap.objects@, t));
    assert(heap.objects@[obj].proto matches Some(p) ==> (p as int) < obj);
    assert(crate::heap::chain_contains(heap.objects@, obj, pu) == (pt == pu
        || crate::heap::chain_contains(heap.objects@, pt, pu)));
    assert((pt == pu) <==> (t == u));
    match reg.bindings@[t].supertype {
        Some(sup) => {
            lemma_prototype_chain_matches_bindings(reg, heap, pt, sup as int, u);
        },
        None => {
            assert(heap.objects@[pt].proto is None);
            assert(!crate::heap::chain_contains(heap.objects@, pt, pu));
        },
    }
}

} // verus!
