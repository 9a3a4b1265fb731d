//! Qualified names: every member of an object is addressed by a namespace
//! together with a local name, so that members of the same local name can
//! coexist in different namespaces.

use vstd::prelude::*;

verus! {

/// A namespace a member name can live in. The public namespace is the one
/// ordinary script-visible properties use; named namespaces carry the name
/// they were declared with.
#[derive(Clone, Debug)]
pub enum Namespace {
    Public,
    Named(Vec<u8>),
}

impl Namespace {
    /// The public namespace, in which ordinary dynamic properties live.
    pub fn public_namespace() -> (ns: Namespace)
        ensures
            ns is Public,
    {
        Namespace::Public
    }

    /// Whether two namespaces denote the same namespace.
    pub open spec fn spec_eq(self, other: Namespace) -> bool {
        match (self, other) {
            (Namespace::Public, Namespace::Public) => true,
            (Namespace::Named(a), Namespace::Named(b)) => a@ == b@,
            _ => false,
        }
    }
}

/// A namespace-qualified member name.
#[derive(Clone, Debug)]
pub struct QName {
    pub ns: Namespace,
    pub local: Vec<u8>,
}

impl QName {
    /// Make a qualified name from a namespace and a local name.
    pub fn new(ns: Namespace, local: Vec<u8>) -> (q: QName)
        ensures
            q.ns == ns,
            q.local == local,
    {
        QName { ns, local }
    }

    /// Whether two qualified names denote the same member.
    pub open spec fn spec_eq(self, other: QName) -> bool {
        self.ns.spec_eq(other.ns) && self.local@ == other.local@
    }
}

/// Whether two byte strings hold the same bytes.
pub fn bytes_eq(a: &Vec<u8>, b: &Vec<u8>) -> (r: bool)
    ensures
        r == (a@ == b@),
{
    if a.len() != b.len() {
        assert(a@ != b@) by {
            assert(a@.len() != b@.len());
        }
        return false;
    }
    let n = a.len();
    let mut i: usize = 0;
    while i < n
        invariant
            n == a@.len(),
            n == b@.len(),
            i <= n,
            forall|j: int| 0 <= j < i ==> a@[j] == b@[j],
        decreases n - i,
    {
        if a[i] != b[i] {
            return false;
        }
        i += 1;
    }
    proof {
        assert(a@ =~= b@);
    }
    true
}

/// Copy a byte string.
pub fn bytes_clone(a: &Vec<u8>) -> (r: Vec<u8>)
    ensures
        r@ == a@,
{
    let mut r: Vec<u8> = Vec::new();
    let n = a.len();
    let mut i: usize = 0;
    while i < n
        invariant
            n == a@.len(),
            i <= n,
            r@ == a@.subrange(0, i as int),
        decreases n - i,
    {
        r.push(a[i]);
        assert(r@ =~= a@.subrange(0, i + 1 as int));
        i += 1;
    }
    proof {
        assert(a@.subrange(0, n as int) =~= a@);
    }
    r
}

/// Whether two namespaces denote the same namespace.
pub fn ns_matches(a: &Namespace, b: &Namespace) -> (r: bool)
    ensures
        r == a.spec_eq(*b),
{
    match (a, b) {
        (Namespace::Public, Namespace::Public) => true,
        (Namespace::Named(x), Namespace::Named(y)) => bytes_eq(x, y),
        _ => false,
    }
}

/// Whether two qualified names denote the same member.
pub fn qname_matches(a: &QName, b: &QName) -> (r: bool)
    ensures
        r == a.spec_eq(*b),
{
    ns_matches(&a.ns, &b.ns) && bytes_eq(&a.local, &b.local)
}

/// Copy a namespace.
pub fn ns_clone(a: &Namespace) -> (r: Namespace)
    ensures
        r.spec_eq(*a),
        a.spec_eq(r),
{
    match a {
        Namespace::Public => Namespace::Public,
        Namespace::Named(x) => Namespace::Named(bytes_clone(x)),
    }
}

/// Copy a qualified name.
pub fn qname_clone(a: &QName) -> (r: QName)
    ensures
        r.spec_eq(*a),
        a.spec_eq(r),
{
    QName { ns: ns_clone(&a.ns), local: bytes_clone(&a.local) }
}

/// Name equality is symmetric.
pub proof fn lemma_qname_eq_sym(a: QName, b: QName)
    ensures
        a.spec_eq(b) == b.spec_eq(a),
{
}

/// Name equality is transitive.
pub proof fn lemma_qname_eq_trans(a: QName, b: QName, c: QName)
    requires
        a.spec_eq(b),
        b.spec_eq(c),
    ensures
        a.spec_eq(c),
{
}

/// The local name of the `prototype` property, through which a constructor
/// exposes the prototype of the instances it builds.
pub open spec fn prototype_name() -> Seq<u8> {
    seq![112u8, 114u8, 111u8, 116u8, 111u8, 116u8, 121u8, 112u8, 101u8]
}

/// The local name of the `constructor` property, through which a prototype
/// points back at the constructor it belongs to.
pub open spec fn constructor_name() -> Seq<u8> {
    seq![99u8, 111u8, 110u8, 115u8, 116u8, 114u8, 117u8, 99u8, 116u8, 111u8, 114u8]
}

/// Whether `q` is the public name `prototype`.
pub open spec fn is_prototype_qname(q: QName) -> bool {
    q.ns is Public && q.local@ == prototype_name()
}

/// Whether `q` is the public name `constructor`.
pub open spec fn is_constructor_qname(q: QName) -> bool {
    q.ns is Public && q.local@ == constructor_name()
}

/// Two names that are both `prototype`, or both `constructor`, denote the
/// same member; one of each never do.
pub proof fn lemma_special_qnames(q1: QName, q2: QName)
    ensures
        is_prototype_qname(q1) && is_prototype_qname(q2) ==> q1.spec_eq(q2),
        is_constructor_qname(q1) && is_constructor_qname(q2) ==> q1.spec_eq(q2),
        is_prototype_qname(q1) && is_constructor_qname(q2) ==> !q1.spec_eq(q2) && !q2.spec_eq(q1),
{
    assert(prototype_name().len() == 9);
    assert(constructor_name().len() == 11);
}

/// The public qualified name `prototype`.
pub fn prototype_qname() -> (q: QName)
    ensures
        q.ns is Public,
        q.local@ == prototype_name(),
{
    let local: Vec<u8> = vec![112u8, 114u8, 111u8, 116u8, 111u8, 116u8, 121u8, 112u8, 101u8];
    assert(local@ =~= prototype_name());
    QName { ns: Namespace::Public, local }
}

/// The public qualified name `constructor`.
pub fn constructor_qname() -> (q: QName)
    ensures
        q.ns is Public,
        q.local@ == constructor_name(),
{
    let local: Vec<u8> = vec![99u8, 111u8, 110u8, 115u8, 116u8, 114u8, 117u8, 99u8, 116u8, 111u8, 114u8];
    assert(local@ =~= constructor_name());
    QName { ns: Namespace::Public, local }
}

} // verus!
