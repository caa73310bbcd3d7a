//! The namespaces that entries are named in.
use std::cmp::Ordering;
use std::rc::Rc;
use vstd::prelude::*;
use vstd::string::StringSliceAdditionalSpecFns;
use crate::order::{cmp_name, name_bytes, name_order, order_then};
use crate::seqs::{at, group_bytes, lemma_rest_ends, lemma_rest_step, rest};
use crate::text::{bytes_eq, put, put_str};
use crate::Flags;

verus! {

/// What a namespace is the scope of.
#[derive(Debug, Clone, Copy, PartialEq, Eq, Structural)]
pub enum NamespaceKind {
    Namespace,
    Subprogram,
    Type,
}

/// A namespace, and through `parent` the namespaces that it lies in.
#[derive(Debug)]
pub struct Namespace {
    pub parent: Option<Rc<Namespace>>,
    pub name: Option<Vec<u8>>,
    pub kind: NamespaceKind,
}

/// `Rc::clone`: another pointer to the same value.
#[verifier::external_body]
fn share(namespace: &Rc<Namespace>) -> (shared: Rc<Namespace>)
    ensures
        shared == *namespace,
{
    Rc::clone(namespace)
}

/// The order of two chains of names: that of the first names that differ,
/// and where none do, the shorter chain comes first.
pub open spec fn chain_order(a: Seq<Option<Seq<u8>>>, b: Seq<Option<Seq<u8>>>) -> Ordering
    decreases a.len(),
{
    if a.len() == 0 {
        if b.len() == 0 {
            Ordering::Equal
        } else {
            Ordering::Less
        }
    } else if b.len() == 0 {
        Ordering::Greater
    } else {
        order_then(name_order(a[0], b[0]), chain_order(a.drop_first(), b.drop_first()))
    }
}

/// The names of the namespaces of an entry, from the outermost one on;
/// none for an entry that is in no namespace.
pub open spec fn names_of(namespace: Option<Rc<Namespace>>) -> Seq<Option<Seq<u8>>> {
    match namespace {
        Some(namespace) => namespace.names(),
        None => Seq::empty(),
    }
}

/// The order of two entries by namespace and name: an entry in no namespace
/// comes before any entry in one; two entries in namespaces are ordered by
/// their namespaces, and within the same one by their names.
pub open spec fn ns_and_name_order(
    ns1: Option<Rc<Namespace>>,
    name1: Option<Seq<u8>>,
    ns2: Option<Rc<Namespace>>,
    name2: Option<Seq<u8>>,
) -> Ordering {
    match (ns1, ns2) {
        (Some(a), Some(b)) => order_then(chain_order(a.names(), b.names()), name_order(name1, name2)),
        (Some(_), None) => Ordering::Greater,
        (None, Some(_)) => Ordering::Less,
        (None, None) => name_order(name1, name2),
    }
}

/// The text of the name of an entry, or `anon` where it has none.
pub open spec fn name_text(name: Option<Vec<u8>>, anon: &str) -> Seq<u8> {
    match name {
        Some(name) => name@,
        None => anon.spec_bytes(),
    }
}

/// The text of the namespaces of an entry, as it stands before the name of
/// the entry.
pub open spec fn ns_text(namespace: Option<Rc<Namespace>>) -> Seq<u8>
    decreases namespace,
{
    match namespace {
        Some(namespace) => namespace.text(),
        None => Seq::empty(),
    }
}

/// Whether the first names of a chain are those of `filter`, as far as both
/// go.
pub open spec fn names_match(names: Seq<Option<Seq<u8>>>, filter: Seq<&str>, upto: int) -> bool {
    forall|i: int| 0 <= i < upto && i < filter.len() ==> #[trigger] names[i] == Some(filter[i].spec_bytes())
}

/// Writes the name of an entry, or `anon` where it has none.
pub fn print_name(w: &mut Vec<u8>, name: &Option<Vec<u8>>, anon: &str)
    ensures
        final(w)@ == old(w)@ + name_text(*name, anon),
{
    match name {
        Some(name) => put(w, name.as_slice()),
        None => put_str(w, anon),
    }
}

/// Writes the namespaces of an entry, as they stand before its name.
pub fn print_namespace(w: &mut Vec<u8>, namespace: &Option<Rc<Namespace>>)
    ensures
        final(w)@ == old(w)@ + ns_text(*namespace),
{
    broadcast use group_bytes;

    if let Some(namespace) = namespace {
        namespace.print(w);
    }
}

impl Namespace {
    /// The names of this namespace and of those that it lies in, from the
    /// outermost one on.
    pub open spec fn names(&self) -> Seq<Option<Seq<u8>>>
        decreases self,
    {
        match self.parent {
            Some(parent) => parent.names().push(name_bytes(self.name)),
            None => seq![name_bytes(self.name)],
        }
    }

    /// The namespace `len` levels further out, or the outermost one where
    /// there are not that many.
    pub open spec fn ancestor(&self, len: usize) -> Namespace
        decreases len,
    {
        if len == 0 {
            *self
        } else {
            match self.parent {
                Some(parent) => parent.ancestor((len - 1) as usize),
                None => *self,
            }
        }
    }

    /// How this namespace is printed: the names from the outermost one on,
    /// each followed by `::`.
    pub open spec fn text(&self) -> Seq<u8>
        decreases self,
    {
        ns_text(self.parent) + name_text(self.name, "<anon>") + "::".spec_bytes()
    }

    /// Whether this is the scope of a type that has no name, or lies in one.
    pub open spec fn anon_type(&self) -> bool
        decreases self,
    {
        self.kind == NamespaceKind::Type && (self.name is None || match self.parent {
            Some(parent) => parent.anon_type(),
            None => false,
        })
    }

    /// A namespace of the given name and kind within `parent`.
    pub fn new(parent: &Option<Rc<Namespace>>, name: Option<Vec<u8>>, kind: NamespaceKind) -> (namespace:
        Rc<Namespace>)
        ensures
            namespace.parent == *parent,
            namespace.name == name,
            namespace.kind == kind,
    {
        let parent = match parent {
            Some(parent) => Some(share(parent)),
            None => None,
        };
        Rc::new(Namespace { parent, name, kind })
    }

    /// The number of namespaces from the outermost one to this one, as far
    /// as numbers go.
    pub fn len(&self) -> (len: usize)
        ensures
            len == (if self.names().len() <= usize::MAX {
                self.names().len()
            } else {
                usize::MAX as nat
            }),
            len > 0,
        decreases self,
    {
        match &self.parent {
            Some(parent) => {
                let len = parent.len();
                if len < usize::MAX {
                    len + 1
                } else {
                    len
                }
            },
            None => 1,
        }
    }

    /// The namespace `len` levels further out, or the outermost one where
    /// there are not that many.
    pub fn up(&self, len: usize) -> (namespace: &Namespace)
        ensures
            *namespace == self.ancestor(len),
        decreases len,
    {
        if len == 0 {
            self
        } else {
            match &self.parent {
                Some(parent) => parent.up(len - 1),
                None => self,
            }
        }
    }

    /// Writes the namespace as it stands before a name.
    pub fn print(&self, w: &mut Vec<u8>)
        ensures
            final(w)@ == old(w)@ + self.text(),
        decreases self,
    {
        broadcast use group_bytes;

        if let Some(parent) = &self.parent {
            parent.print(w);
        }
        print_name(w, &self.name, "<anon>");
        put_str(w, "::");
    }

    /// Matches the names from the outermost namespace on with the names of
    /// `namespace`, as far as both go. Gives whether they are the same, and
    /// if they are, how many names were matched.
    pub fn _filter(&self, namespace: &[&str]) -> (found: (bool, usize))
        ensures
            found.0 == names_match(self.names(), namespace@, self.names().len() as int),
            found.0 ==> found.1 == (if self.names().len() <= namespace@.len() {
                self.names().len()
            } else {
                namespace@.len()
            }),
            !found.0 ==> found.1 == 0,
        decreases self,
    {
        let (ret, offset) = match &self.parent {
            Some(parent) => parent._filter(namespace),
            None => (true, 0),
        };
        let ghost outer = names_of(self.parent);
        proof {
            assert(self.names() =~= outer.push(name_bytes(self.name)));
            assert forall|i: int| 0 <= i < outer.len() implies self.names()[i] == outer[i] by {}
        }
        if ret {
            if offset < namespace.len() {
                let same = match &self.name {
                    Some(name) => bytes_eq(name.as_slice(), namespace[offset].as_bytes()),
                    None => false,
                };
                proof {
                    if same {
                        assert forall|i: int|
                            0 <= i < self.names().len() && i < namespace@.len() implies #[trigger] self.names()[i]
                            == Some(namespace@[i].spec_bytes()) by {
                            if i < outer.len() {
                                assert(outer[i] == Some(namespace@[i].spec_bytes()));
                            }
                        }
                    } else {
                        assert(self.names()[offset as int] != Some(
                            namespace@[offset as int].spec_bytes(),
                        ));
                    }
                }
                (same, if same {
                    offset + 1
                } else {
                    0
                })
            } else {
                (true, offset)
            }
        } else {
            proof {
                let i = choose|i: int|
                    0 <= i < outer.len() && i < namespace@.len() && #[trigger] outer[i] != Some(
                        namespace@[i].spec_bytes(),
                    );
                assert(self.names()[i] == outer[i]);
            }
            (false, 0)
        }
    }

    /// Whether this namespace is `namespace` or lies in it: the names from
    /// the outermost namespace on are those of `namespace`.
    pub fn filter(&self, namespace: &[&str]) -> (found: bool)
        ensures
            found == (namespace@.len() <= self.names().len() && names_match(
                self.names(),
                namespace@,
                namespace@.len() as int,
            )),
    {
        let (ret, offset) = self._filter(namespace);
        ret && offset == namespace.len()
    }

    /// Whether `namespace` is the scope of a type that has no name, or lies
    /// in one.
    pub fn is_anon_type(namespace: &Option<Rc<Namespace>>) -> (anon: bool)
        ensures
            anon == match *namespace {
                Some(namespace) => namespace.anon_type(),
                None => false,
            },
        decreases *namespace,
    {
        match namespace {
            Some(namespace) => {
                match namespace.kind {
                    NamespaceKind::Type => namespace.name.is_none() || Namespace::is_anon_type(
                        &namespace.parent,
                    ),
                    _ => false,
                }
            },
            None => false,
        }
    }
}

impl<'a> Flags<'a> {
    /// Whether an entry in `namespace` is to be printed, as far as its
    /// namespace goes.
    pub open spec fn namespace_matches(&self, namespace: Option<Rc<Namespace>>) -> bool {
        self.namespace@.len() == 0 || match namespace {
            Some(namespace) => self.namespace@.len() <= namespace.names().len() && names_match(
                namespace.names(),
                self.namespace@,
                self.namespace@.len() as int,
            ),
            None => false,
        }
    }

    /// Whether an entry in `namespace` is to be printed, as far as its
    /// namespace goes.
    pub fn filter_namespace(&self, namespace: &Option<Rc<Namespace>>) -> (found: bool)
        ensures
            found == self.namespace_matches(*namespace),
    {
        if self.namespace.len() != 0 {
            match namespace {
                Some(namespace) => namespace.filter(self.namespace.as_slice()),
                None => false,
            }
        } else {
            true
        }
    }
}


/// The order of two chains of the same length is that of the chains
/// without their last names, and where those are the same, that of the last
/// names.
pub proof fn lemma_chain_order_push(
    a: Seq<Option<Seq<u8>>>,
    b: Seq<Option<Seq<u8>>>,
    x: Option<Seq<u8>>,
    y: Option<Seq<u8>>,
)
    requires
        a.len() == b.len(),
    ensures
        chain_order(a.push(x), b.push(y)) == order_then(chain_order(a, b), name_order(x, y)),
    decreases a.len(),
{
    if a.len() == 0 {
        assert(a.push(x).drop_first() =~= a);
        assert(b.push(y).drop_first() =~= b);
    } else {
        lemma_chain_order_push(a.drop_first(), b.drop_first(), x, y);
        assert(a.push(x).drop_first() =~= a.drop_first().push(x));
        assert(b.push(y).drop_first() =~= b.drop_first().push(y));
    }
}

/// A chain of names is in the order `Equal` with itself.
pub proof fn lemma_chain_order_same(a: Seq<Option<Seq<u8>>>)
    ensures
        chain_order(a, a) == Ordering::Equal,
    decreases a.len(),
{
    if a.len() > 0 {
        crate::order::lemma_name_order_equal(a[0], a[0]);
        lemma_chain_order_same(a.drop_first());
    }
}

/// An entry is in the order `Equal` with itself by namespace and name.
pub proof fn lemma_ns_and_name_order_same(ns: Option<Rc<Namespace>>, name: Option<Seq<u8>>)
    ensures
        ns_and_name_order(ns, name, ns, name) == Ordering::Equal,
{
    crate::order::lemma_name_order_equal(name, name);
    if let Some(ns) = ns {
        lemma_chain_order_same(ns.names());
    }
}

impl Namespace {
    /// Adds to `list` the namespaces from the outermost one to this one.
    fn chain<'a>(&'a self, list: &mut Vec<&'a Namespace>)
        ensures
            final(list)@.len() == old(list)@.len() + self.names().len(),
            forall|k: int| 0 <= k < old(list)@.len() ==> final(list)@[k] == old(list)@[k],
            forall|k: int|
                0 <= k < self.names().len() ==> name_bytes(
                    (#[trigger] final(list)@[old(list)@.len() + k]).name,
                ) == self.names()[k],
        decreases self,
    {
        if let Some(parent) = &self.parent {
            parent.chain(list);
        }
        list.push(self);
    }

    /// Compares two namespaces that are equally many levels in: by their
    /// names from the outermost one on.
    pub fn _cmp(a: &Namespace, b: &Namespace) -> (o: Ordering)
        requires
            a.names().len() == b.names().len(),
        ensures
            o == chain_order(a.names(), b.names()),
        decreases a,
    {
        match (&a.parent, &b.parent) {
            (Some(outer_a), Some(outer_b)) => {
                proof {
                    lemma_chain_order_push(
                        outer_a.names(),
                        outer_b.names(),
                        name_bytes(a.name),
                        name_bytes(b.name),
                    );
                }
                match Namespace::_cmp(outer_a, outer_b) {
                    Ordering::Equal => cmp_name(&a.name, &b.name),
                    o => o,
                }
            },
            (None, None) => {
                proof {
                    lemma_chain_order_push(
                        Seq::empty(),
                        Seq::empty(),
                        name_bytes(a.name),
                        name_bytes(b.name),
                    );
                    assert(Seq::<Option<Seq<u8>>>::empty().push(name_bytes(a.name)) =~= a.names());
                    assert(Seq::<Option<Seq<u8>>>::empty().push(name_bytes(b.name)) =~= b.names());
                }
                cmp_name(&a.name, &b.name)
            },
            _ => {
                proof {
                    lemma_names_len(a);
                    lemma_names_len(b);
                }
                Ordering::Equal
            },
        }
    }

    /// Compares two namespaces by their names from the outermost one on.
    /// Where one lies in the other, the outer one comes first.
    pub fn cmp(a: &Namespace, b: &Namespace) -> (o: Ordering)
        ensures
            o == chain_order(a.names(), b.names()),
    {
        let mut list_a: Vec<&Namespace> = Vec::new();
        a.chain(&mut list_a);
        let mut list_b: Vec<&Namespace> = Vec::new();
        b.chain(&mut list_b);
        let mut i: usize = 0;
        proof {
            lemma_rest_ends(a.names(), 0);
            lemma_rest_ends(b.names(), 0);
        }
        loop
            invariant
                i <= list_a@.len(),
                i <= list_b@.len(),
                list_a@.len() == a.names().len(),
                list_b@.len() == b.names().len(),
                forall|k: int|
                    0 <= k < list_a@.len() ==> name_bytes((#[trigger] list_a@[k]).name)
                        == a.names()[k],
                forall|k: int|
                    0 <= k < list_b@.len() ==> name_bytes((#[trigger] list_b@[k]).name)
                        == b.names()[k],
                chain_order(a.names(), b.names()) == chain_order(
                    rest(a.names(), i),
                    rest(b.names(), i),
                ),
            decreases list_a@.len() - i,
        {
            proof {
                lemma_rest_ends(a.names(), i);
                lemma_rest_ends(b.names(), i);
            }
            if i == list_a.len() {
                if i == list_b.len() {
                    return Ordering::Equal;
                } else {
                    return Ordering::Less;
                }
            }
            if i == list_b.len() {
                return Ordering::Greater;
            }
            proof {
                lemma_rest_step(a.names(), i);
                lemma_rest_step(b.names(), i);
                assert(name_bytes(at(list_a@, i).name) == at(a.names(), i));
                assert(name_bytes(at(list_b@, i).name) == at(b.names(), i));
            }
            match cmp_name(&list_a[i].name, &list_b[i].name) {
                Ordering::Equal => {},
                o => {
                    return o;
                },
            }
            i += 1;
        }
    }
}

/// A namespace that lies in another is further in than the outermost one.
proof fn lemma_names_len(a: &Namespace)
    ensures
        a.names().len() >= 1,
        a.parent is Some ==> a.names().len() >= 2,
        a.parent is None ==> a.names().len() == 1,
    decreases a,
{
    if let Some(parent) = a.parent {
        lemma_names_len(&*parent);
    }
}

/// Compares two entries by namespace and name.
pub fn cmp_ns_and_name(
    ns1: &Option<Rc<Namespace>>,
    name1: &Option<Vec<u8>>,
    ns2: &Option<Rc<Namespace>>,
    name2: &Option<Vec<u8>>,
) -> (o: Ordering)
    ensures
        o == ns_and_name_order(*ns1, name_bytes(*name1), *ns2, name_bytes(*name2)),
{
    match (ns1, ns2) {
        (Some(ns1), Some(ns2)) => match Namespace::cmp(ns1, ns2) {
            Ordering::Equal => cmp_name(name1, name2),
            o => o,
        },
        (Some(_), None) => Ordering::Greater,
        (None, Some(_)) => Ordering::Less,
        (None, None) => cmp_name(name1, name2),
    }
}

} // verus!
