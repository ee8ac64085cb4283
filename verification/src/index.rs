//! The global symbol index: which fully-qualified names are documented, and
//! as what kind of symbol.

use crate::text::texts;
use vstd::hash_map::StringHashMap;
use vstd::prelude::*;

verus! {

/// The kind of symbol that a fully-qualified name stands for.
#[derive(Clone, Copy, Debug, PartialEq, Eq, Structural)]
pub enum SymbolKind {
    Namespace,
    Record,
    Enum,
    Function,
    Alias,
}

impl SymbolKind {
    /// The tag of the kind as it stands in page names.
    pub open spec fn text(self) -> Seq<char> {
        match self {
            SymbolKind::Namespace => "namespace"@,
            SymbolKind::Record => "record"@,
            SymbolKind::Enum => "enum"@,
            SymbolKind::Function => "function"@,
            SymbolKind::Alias => "alias"@,
        }
    }

    /// The tag of the kind as it stands in page names.
    pub fn as_str(self) -> (r: &'static str)
        ensures
            r@ == self.text(),
    {
        match self {
            SymbolKind::Namespace => "namespace",
            SymbolKind::Record => "record",
            SymbolKind::Enum => "enum",
            SymbolKind::Function => "function",
            SymbolKind::Alias => "alias",
        }
    }
}

/// One entry of the index, as `SymbolIndex::entries` hands it out.
#[derive(Clone, Debug, PartialEq, Eq)]
pub struct IndexEntry {
    pub name: String,
    pub kind: SymbolKind,
}

/// A mapping from fully-qualified names to symbol kinds.
///
/// Its view is a `Map` from names to kinds. Besides the map it remembers the
/// order in which the names first came in, so that walking the index gives
/// the same order on every run.
pub struct SymbolIndex {
    map: StringHashMap<SymbolKind>,
    names: Vec<String>,
}

impl View for SymbolIndex {
    type V = Map<Seq<char>, SymbolKind>;

    closed spec fn view(&self) -> Map<Seq<char>, SymbolKind> {
        self.map@
    }
}

/// `names[i]` is the name `k`.
spec fn listed_at(names: Seq<String>, k: Seq<char>, i: int) -> bool {
    0 <= i < names.len() && names[i]@ == k
}

impl SymbolIndex {
    /// `names` lists the keys of `map`, each once.
    #[verifier::type_invariant]
    spec fn listed(self) -> bool {
        &&& forall|i: int| 0 <= i < self.names@.len() ==> self.map@.contains_key(#[trigger] self.names@[i]@)
        &&& forall|k: Seq<char>| #[trigger]
            self.map@.contains_key(k) ==> exists|i: int| listed_at(self.names@, k, i)
        &&& forall|i: int, j: int|
            0 <= i < j < self.names@.len() ==> #[trigger] self.names@[i]@ != #[trigger] self.names@[j]@
    }

    /// The registered names in the order in which they first came in.
    pub closed spec fn order(&self) -> Seq<Seq<char>> {
        texts(self.names@)
    }

    /// The empty index.
    pub fn new() -> (r: Self)
        ensures
            r@ == Map::<Seq<char>, SymbolKind>::empty(),
            r.order() == Seq::<Seq<char>>::empty(),
    {
        assert(texts(Seq::<String>::empty()) =~= Seq::<Seq<char>>::empty());
        SymbolIndex { map: StringHashMap::new(), names: Vec::new() }
    }

    /// Registers `name` as a symbol of kind `kind`. A name that is already
    /// registered keeps its place in the order and takes the new kind.
    pub fn insert(&mut self, name: String, kind: SymbolKind)
        ensures
            final(self)@ == old(self)@.insert(name@, kind),
            final(self).order() == if old(self)@.contains_key(name@) {
                old(self).order()
            } else {
                old(self).order().push(name@)
            },
    {
        proof {
            use_type_invariant(&*self);
        }
        let mut taken = SymbolIndex::new();
        std::mem::swap(self, &mut taken);
        let SymbolIndex { mut map, mut names } = taken;
        let ghost before = map@;
        let ghost listed = names@;
        if !map.contains_key(name.as_str()) {
            names.push(name.clone());
            assert(texts(names@) =~= texts(listed).push(name@));
        }
        map.insert(name, kind);
        proof {
            assert(map@ == before.insert(name@, kind));
            assert forall|i: int| 0 <= i < names@.len() implies map@.contains_key(
                #[trigger] names@[i]@,
            ) by {
                if i < listed.len() {
                    assert(before.contains_key(listed[i]@));
                }
            }
            assert forall|i: int, j: int| 0 <= i < j < names@.len() implies #[trigger] names@[i]@
                != #[trigger] names@[j]@ by {
                if j < listed.len() {
                    assert(listed[i]@ != listed[j]@);
                } else {
                    assert(before.contains_key(listed[i]@));
                }
            }
            let built = SymbolIndex { map: map, names: names };
            assert(built.map@ == map@ && built.names@ == names@);
            assert forall|k: Seq<char>| #[trigger] built.map@.contains_key(k) implies exists|i: int|
                listed_at(built.names@, k, i) by {
                if before.contains_key(k) {
                    let i = choose|i: int| listed_at(listed, k, i);
                    assert(listed_at(names@, k, i));
                } else {
                    assert(listed_at(names@, k, names@.len() - 1));
                }
            }
        }
        *self = SymbolIndex { map, names };
    }

    /// The kind that `name` is registered with, if it is registered.
    pub fn get(&self, name: &str) -> (r: Option<SymbolKind>)
        ensures
            r == if self@.contains_key(name@) {
                Some(self@[name@])
            } else {
                None::<SymbolKind>
            },
    {
        match self.map.get(name) {
            Some(kind) => Some(*kind),
            None => None,
        }
    }

    /// Whether `name` is registered.
    pub fn contains(&self, name: &str) -> (r: bool)
        ensures
            r == self@.contains_key(name@),
    {
        self.map.contains_key(name)
    }

    /// The entries of the index in the order in which their names first came
    /// in: every registered name once, with its kind.
    pub fn entries(&self) -> (r: Vec<IndexEntry>)
        ensures
            r@.len() == self.order().len(),
            forall|i: int|
                0 <= i < r@.len() ==> (#[trigger] r@[i]).name@ == self.order()[i] && r@[i].kind
                    == self@[self.order()[i]],
            forall|i: int|
                0 <= i < r@.len() ==> self@.contains_key(#[trigger] r@[i].name@) && self@[r@[i].name@]
                    == r@[i].kind,
            forall|k: Seq<char>| #[trigger]
                self@.contains_key(k) ==> exists|i: int| 0 <= i < r@.len() && #[trigger] r@[i].name@ == k,
            forall|i: int, j: int|
                0 <= i < j < r@.len() ==> #[trigger] r@[i].name@ != #[trigger] r@[j].name@,
    {
        proof {
            use_type_invariant(self);
        }
        let mut out: Vec<IndexEntry> = Vec::new();
        let mut i: usize = 0;
        while i < self.names.len()
            invariant
                i <= self.names@.len(),
                out@.len() == i,
                self.listed(),
                forall|j: int|
                    0 <= j < i ==> (#[trigger] out@[j]).name@ == self.names@[j]@ && self.map@[out@[j].name@]
                        == out@[j].kind,
            decreases self.names@.len() - i,
        {
            let name = self.names[i].clone();
            match self.map.get(name.as_str()) {
                Some(kind) => {
                    out.push(IndexEntry { name, kind: *kind });
                },
                None => {
                    assert(false);
                },
            }
            i = i + 1;
        }
        proof {
            assert forall|k: Seq<char>| #[trigger] self@.contains_key(k) implies exists|i: int|
                0 <= i < out@.len() && #[trigger] out@[i].name@ == k by {
                let i = choose|i: int| listed_at(self.names@, k, i);
                assert(out@[i].name@ == k);
            }
        }
        out
    }
}

} // verus!
