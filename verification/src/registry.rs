//! The type registry and effective-identifier resolution.
//!
//! Every registered type is named by a pair of paths: a unique full path and
//! a shorter display path that may collide across scopes. The registry also
//! holds each type's default value, consulted when a stored entry is missing
//! or cannot be coerced. Registration happens once at setup time; after the
//! table is sealed it is read-only.

use vstd::prelude::*;

use crate::value::Value;
use crate::value::ValueView;

verus! {

/// A type identifier: the unique full path and the possibly ambiguous short
/// path.
pub struct TypePath {
    /// Unique full name of the type, e.g. `my_app::settings::Audio`.
    pub full: Vec<u8>,
    /// Shorter display name, e.g. `Audio`; two types may share it.
    pub short: Vec<u8>,
}

/// The mathematical shape of a [`TypePath`].
pub ghost struct TypePathView {
    pub full: Seq<u8>,
    pub short: Seq<u8>,
}

impl View for TypePath {
    type V = TypePathView;

    open spec fn view(&self) -> TypePathView {
        TypePathView { full: self.full@, short: self.short@ }
    }
}

impl TypePath {
    /// Builds an identifier from its two paths.
    pub fn new(full: Vec<u8>, short: Vec<u8>) -> (r: TypePath)
        ensures
            r@.full == full@,
            r@.short == short@,
    {
        TypePath { full, short }
    }

    /// An owned copy with the same view.
    pub fn deep_clone(&self) -> (r: TypePath)
        ensures
            r@ == self@,
    {
        TypePath {
            full: crate::value::clone_bytes(&self.full),
            short: crate::value::clone_bytes(&self.short),
        }
    }
}

/// One registration: a type identifier together with the type's default
/// value.
pub struct Registration {
    /// The registered type's identifier.
    pub type_path: TypePath,
    /// The value used when nothing usable was loaded for this type.
    pub default: Value,
}

/// The mathematical shape of a [`Registration`].
pub ghost struct RegistrationView {
    pub full: Seq<u8>,
    pub short: Seq<u8>,
    pub default: ValueView,
}

impl View for Registration {
    type V = RegistrationView;

    open spec fn view(&self) -> RegistrationView {
        RegistrationView {
            full: self.type_path.full@,
            short: self.type_path.short@,
            default: self.default@,
        }
    }
}

/// No two registrations bear the same full path.
pub open spec fn full_paths_unique(regs: Seq<RegistrationView>) -> bool {
    forall|i: int, j: int|
        0 <= i < regs.len() && 0 <= j < regs.len() && i != j ==> regs[i].full != regs[j].full
}

/// There is an entry with this full path.
pub open spec fn contains_full(regs: Seq<RegistrationView>, full: Seq<u8>) -> bool {
    exists|i: int| 0 <= i < regs.len() && regs[i].full == full
}

/// The index of the entry with this full path.
pub open spec fn index_of_full(regs: Seq<RegistrationView>, full: Seq<u8>) -> int {
    choose|i: int| 0 <= i < regs.len() && regs[i].full == full
}

/// Entry `i` is the only one registered under this short path.
pub open spec fn short_witness(regs: Seq<RegistrationView>, short: Seq<u8>, i: int) -> bool {
    &&& 0 <= i < regs.len()
    &&& regs[i].short == short
    &&& forall|j: int| 0 <= j < regs.len() && regs[j].short == short ==> j == i
}

/// Exactly one entry is registered under this short path.
pub open spec fn has_unique_short(regs: Seq<RegistrationView>, short: Seq<u8>) -> bool {
    exists|i: int| short_witness(regs, short, i)
}

/// The index of the only entry with this short path.
pub open spec fn unique_short_index(regs: Seq<RegistrationView>, short: Seq<u8>) -> int {
    choose|i: int| short_witness(regs, short, i)
}

/// Exactly one entry is registered under this short path, and it is the one
/// with this full path.
pub open spec fn unique_short_match(
    regs: Seq<RegistrationView>,
    full: Seq<u8>,
    short: Seq<u8>,
) -> bool {
    has_unique_short(regs, short) && regs[unique_short_index(regs, short)].full == full
}

/// The effective identifier of a type: its short path when that is
/// unambiguous and names this very type, otherwise its full path when
/// registered, otherwise nothing.
pub open spec fn spec_effective_path(
    regs: Seq<RegistrationView>,
    path: TypePathView,
) -> Option<Seq<u8>> {
    if unique_short_match(regs, path.full, path.short) {
        Option::Some(path.short)
    } else if contains_full(regs, path.full) {
        Option::Some(path.full)
    } else {
        Option::None
    }
}

/// The registration a document key names: the unique type with this short
/// path when there is one, else the type with this full path, else nothing.
pub open spec fn spec_resolve_key(regs: Seq<RegistrationView>, key: Seq<u8>) -> Option<int> {
    if has_unique_short(regs, key) {
        Option::Some(unique_short_index(regs, key))
    } else if contains_full(regs, key) {
        Option::Some(index_of_full(regs, key))
    } else {
        Option::None
    }
}

/// No registration's short path is spelled like any registration's full
/// path. Short paths are bare type names while full paths carry their
/// module prefix, so real registries satisfy this; a registry that does
/// not can have one type's document key hijacked by another type's name.
pub open spec fn no_short_shadows_full(regs: Seq<RegistrationView>) -> bool {
    forall|i: int, j: int|
        0 <= i < regs.len() && 0 <= j < regs.len() ==> (#[trigger] regs[i]).short != (
        #[trigger] regs[j]).full
}

/// A type whose effective identifier resolves is registered under its full
/// path.
pub proof fn lemma_effective_implies_registered(regs: Seq<RegistrationView>, path: TypePathView)
    requires
        spec_effective_path(regs, path) is Some,
    ensures
        contains_full(regs, path.full),
{
    if unique_short_match(regs, path.full, path.short) {
        let w = unique_short_index(regs, path.short);
        assert(short_witness(regs, path.short, w));
        assert(0 <= w < regs.len() && regs[w].full == path.full);
    }
}

/// The registration table: write-once per type at setup, read-many after.
pub struct PreferencesRegistry {
    entries: Vec<Registration>,
    sealed: bool,
}

impl View for PreferencesRegistry {
    type V = Seq<RegistrationView>;

    closed spec fn view(&self) -> Seq<RegistrationView> {
        Seq::new(
            self.entries@.len(),
            |i: int|
                if 0 <= i < self.entries@.len() {
                    self.entries@[i]@
                } else {
                    RegistrationView {
                        full: Seq::empty(),
                        short: Seq::empty(),
                        default: ValueView::Bool(false),
                    }
                },
        )
    }
}

impl PreferencesRegistry {
    /// Full paths are unique: the registry never holds two registrations of
    /// one type.
    pub open spec fn wf(self) -> bool {
        full_paths_unique(self@)
    }

    /// The table no longer accepts registrations.
    pub closed spec fn is_sealed(self) -> bool {
        self.sealed
    }

    /// An empty, unsealed registry.
    pub fn new() -> (r: PreferencesRegistry)
        ensures
            r@ =~= Seq::<RegistrationView>::empty(),
            r.wf(),
            !r.is_sealed(),
    {
        PreferencesRegistry { entries: Vec::new(), sealed: false }
    }

    /// How many types are registered.
    pub fn len(&self) -> (n: usize)
        ensures
            n == self@.len(),
    {
        self.entries.len()
    }

    /// The registration at an index.
    pub fn entry_at(&self, i: usize) -> (r: &Registration)
        requires
            i < self@.len(),
        ensures
            r@ == self@[i as int],
    {
        &self.entries[i]
    }

    /// The index of the registration with this full path, if any.
    pub fn find_full(&self, full: &Vec<u8>) -> (r: Option<usize>)
        ensures
            match r {
                Option::Some(i) => i < self@.len() && self@[i as int].full == full@
                    && contains_full(self@, full@),
                Option::None => !contains_full(self@, full@),
            },
    {
        let n = self.entries.len();
        let mut i: usize = 0;
        while i < n
            invariant
                n == self@.len(),
                i <= n,
                forall|j: int| 0 <= j < i ==> self@[j].full != full@,
            decreases n - i,
        {
            if crate::order::bytes_eq(&self.entries[i].type_path.full, full) {
                return Option::Some(i);
            }
            i = i + 1;
        }
        Option::None
    }

    /// Registers a type with its default value. Registration is idempotent:
    /// a full path that is already present leaves the table unchanged.
    /// Registering after the table was sealed is a wiring bug and is ruled
    /// out up front.
    pub fn register(&mut self, type_path: TypePath, default: Value)
        requires
            !old(self).is_sealed(),
            old(self).wf(),
        ensures
            final(self).wf(),
            !final(self).is_sealed(),
            contains_full(old(self)@, type_path@.full) ==> final(self)@ == old(self)@,
            !contains_full(old(self)@, type_path@.full) ==> final(self)@ =~= old(self)@.push(
                RegistrationView {
                    full: type_path@.full,
                    short: type_path@.short,
                    default: default@,
                },
            ),
    {
        match self.find_full(&type_path.full) {
            Option::Some(_) => {
                proof {
                    assert(self@ =~= old(self)@);
                }
            },
            Option::None => {
                let ghost pre = self@;
                let ghost pushed = RegistrationView {
                    full: type_path@.full,
                    short: type_path@.short,
                    default: default@,
                };
                self.entries.push(Registration { type_path, default });
                proof {
                    assert(self@ =~= pre.push(pushed));
                    assert forall|i: int, j: int|
                        0 <= i < self@.len() && 0 <= j < self@.len() && i
                            != j implies self@[i].full != self@[j].full by {
                        if i < pre.len() && j < pre.len() {
                            assert(pre[i] == self@[i]);
                            assert(pre[j] == self@[j]);
                        } else if i < pre.len() {
                            assert(self@[j] == pushed);
                            assert(!(0 <= i < pre.len() && pre[i].full == pushed.full));
                        } else {
                            assert(self@[i] == pushed);
                            assert(!(0 <= j < pre.len() && pre[j].full == pushed.full));
                        }
                    }
                }
            },
        }
    }

    /// Whether the table has been sealed; callers that cannot carry the
    /// proof can test this before registering.
    pub fn sealed(&self) -> (r: bool)
        ensures
            r == self.is_sealed(),
    {
        self.sealed
    }

    /// Checks that no registered short path is spelled like any registered
    /// full path. Together with the registry's full-path uniqueness this
    /// makes every effective key distinct (see the library's laws), which
    /// the load flow relies on; callers that cannot carry the proof can
    /// test it here.
    pub fn no_shadowed_names(&self) -> (r: bool)
        ensures
            r == no_short_shadows_full(self@),
    {
        let n = self.entries.len();
        let mut i: usize = 0;
        while i < n
            invariant
                n == self@.len(),
                i <= n,
                forall|p: int, q: int|
                    0 <= p < i && 0 <= q < self@.len() ==> (#[trigger] self@[p]).short != (
                    #[trigger] self@[q]).full,
            decreases n - i,
        {
            let mut j: usize = 0;
            while j < n
                invariant
                    n == self@.len(),
                    i < n,
                    j <= n,
                    forall|q: int|
                        0 <= q < j ==> (#[trigger] self@[q]).full != self@[i as int].short,
                decreases n - j,
            {
                if crate::order::bytes_eq(
                    &self.entries[i].type_path.short,
                    &self.entries[j].type_path.full,
                ) {
                    proof {
                        assert(self@[i as int].short == self@[j as int].full);
                    }
                    return false;
                }
                j = j + 1;
            }
            i = i + 1;
        }
        true
    }

    /// Marks the table as in use: no further registrations are accepted.
    pub fn seal(&mut self)
        ensures
            final(self)@ == old(self)@,
            final(self).is_sealed(),
            old(self).wf() ==> final(self).wf(),
    {
        self.sealed = true;
    }

    /// Scans for this short path: the first index bearing it, and whether a
    /// second one does too.
    fn scan_short(&self, short: &Vec<u8>) -> (r: (Option<usize>, bool))
        ensures
            r.0 is None ==> !r.1 && forall|j: int| 0 <= j < self@.len() ==> self@[j].short
                != short@,
            r.0 matches Option::Some(h) ==> h < self@.len() && self@[h as int].short == short@
                && (!r.1 ==> short_witness(self@, short@, h as int)),
            r.1 ==> exists|p: int, q: int|
                0 <= p < self@.len() && 0 <= q < self@.len() && p != q && self@[p].short == short@
                    && self@[q].short == short@,
    {
        let n = self.entries.len();
        let mut short_hit: Option<usize> = Option::None;
        let mut short_dup: bool = false;
        let mut i: usize = 0;
        while i < n
            invariant
                n == self@.len(),
                i <= n,
                short_hit is None ==> !short_dup && forall|j: int|
                    0 <= j < i ==> self@[j].short != short@,
                short_hit matches Option::Some(h) ==> h < i && self@[h as int].short == short@
                    && (!short_dup ==> forall|j: int|
                        0 <= j < i && j != h ==> self@[j].short != short@),
                short_dup ==> exists|p: int, q: int|
                    0 <= p < i && 0 <= q < i && p != q && self@[p].short == short@ && self@[q].short
                        == short@,
            decreases n - i,
        {
            if crate::order::bytes_eq(&self.entries[i].type_path.short, short) {
                match short_hit {
                    Option::None => { short_hit = Option::Some(i) },
                    Option::Some(h) => {
                        proof {
                            let ghost p = h as int;
                            let ghost q = i as int;
                            assert(0 <= p && p < i + 1 && 0 <= q && q < i + 1 && p != q
                                && self@[p].short == short@ && self@[q].short == short@);
                        }
                        short_dup = true;
                    },
                }
            }
            i = i + 1;
        }
        (short_hit, short_dup)
    }

    /// No entry can be the unique holder of this short path when two entries
    /// share it.
    proof fn lemma_dup_short_not_unique(&self, short: Seq<u8>)
        requires
            exists|p: int, q: int|
                0 <= p < self@.len() && 0 <= q < self@.len() && p != q && self@[p].short == short
                    && self@[q].short == short,
        ensures
            !has_unique_short(self@, short),
    {
        let (p, q) = choose|p: int, q: int|
            0 <= p < self@.len() && 0 <= q < self@.len() && p != q && self@[p].short == short
                && self@[q].short == short;
        if has_unique_short(self@, short) {
            let w = unique_short_index(self@, short);
            assert(short_witness(self@, short, w));
            assert(p == w && q == w);
            assert(false);
        }
    }

    /// Resolves a type identifier to its effective document key, following
    /// the ambiguity rule: the short path when it is unambiguous and names
    /// this type, else the full path when registered, else nothing.
    pub fn effective_type_path(&self, path: &TypePath) -> (r: Option<Vec<u8>>)
        ensures
            match r {
                Option::Some(key) => spec_effective_path(self@, path@) == Option::Some(key@),
                Option::None => spec_effective_path(self@, path@) is None,
            },
    {
        let ghost k = path@.short;
        let (short_hit, short_dup) = self.scan_short(&path.short);
        if !short_dup {
            match short_hit {
                Option::Some(h) => {
                    proof {
                        assert(short_witness(self@, k, h as int));
                        assert(has_unique_short(self@, k));
                        let w = unique_short_index(self@, k);
                        assert(short_witness(self@, k, w));
                        assert(w == h as int);
                    }
                    if crate::order::bytes_eq(&self.entries[h].type_path.full, &path.full) {
                        proof {
                            assert(unique_short_match(self@, path@.full, k));
                        }
                        return Option::Some(crate::value::clone_bytes(&path.short));
                    }
                    proof {
                        assert(!unique_short_match(self@, path@.full, k));
                    }
                },
                Option::None => {
                    proof {
                        if has_unique_short(self@, k) {
                            let w = unique_short_index(self@, k);
                            assert(short_witness(self@, k, w));
                            assert(false);
                        }
                    }
                },
            }
        } else {
            proof {
                self.lemma_dup_short_not_unique(k);
            }
        }
        match self.find_full(&path.full) {
            Option::Some(_) => Option::Some(crate::value::clone_bytes(&path.full)),
            Option::None => Option::None,
        }
    }

    /// Resolves a document key to a registration index: the unique type with
    /// this short path when there is one, else the type with this full path.
    pub fn resolve_key(&self, key: &Vec<u8>) -> (r: Option<usize>)
        requires
            self.wf(),
        ensures
            match r {
                Option::Some(i) => i < self@.len() && spec_resolve_key(self@, key@)
                    == Option::Some(i as int),
                Option::None => spec_resolve_key(self@, key@) is None,
            },
    {
        let ghost k = key@;
        let (short_hit, short_dup) = self.scan_short(key);
        if !short_dup {
            match short_hit {
                Option::Some(h) => {
                    proof {
                        assert(short_witness(self@, k, h as int));
                        assert(has_unique_short(self@, k));
                        let w = unique_short_index(self@, k);
                        assert(short_witness(self@, k, w));
                        assert(w == h as int);
                    }
                    return Option::Some(h);
                },
                Option::None => {
                    proof {
                        if has_unique_short(self@, k) {
                            let w = unique_short_index(self@, k);
                            assert(short_witness(self@, k, w));
                            assert(false);
                        }
                    }
                },
            }
        } else {
            proof {
                self.lemma_dup_short_not_unique(k);
            }
        }
        match self.find_full(key) {
            Option::Some(i) => {
                proof {
                    let w = index_of_full(self@, k);
                    assert(0 <= w < self@.len() && self@[w].full == k);
                    assert(w == i as int);
                }
                Option::Some(i)
            },
            Option::None => Option::None,
        }
    }
}

} // verus!
