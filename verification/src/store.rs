//! Typed handles and the generic asset store.
//!
//! A store hands out sequential handles, keeps the stored assets, protects
//! built-in assets from removal, falls back to a default asset for unknown
//! handles and records which handles were touched ("dirty") since the last
//! time the renderer asked.

use crate::text::{chars_of, decimal, decimal_chars, push_str_chars, string_from_chars};
use std::marker::PhantomData;
use vstd::prelude::*;

verus! {

/// A typed handle to an asset of type `T` in a [`Store`].
pub struct H<T> {
    id: u32,
    _ty: PhantomData<T>,
}

impl<T> View for H<T> {
    type V = u32;

    /// The numeric identifier of the handle.
    closed spec fn view(&self) -> u32 {
        self.id
    }
}

impl<T> Clone for H<T> {
    fn clone(&self) -> (r: Self)
        ensures
            r@ == self@,
    {
        H { id: self.id, _ty: PhantomData }
    }
}

impl<T> Copy for H<T> {
}

impl<T> H<T> {
    /// A handle with the given numeric identifier.
    pub fn new(id: u32) -> (r: Self)
        ensures
            r@ == id,
    {
        H { id, _ty: PhantomData }
    }

    /// The numeric identifier of the handle.
    pub fn id(&self) -> (r: u32)
        ensures
            r == self@,
    {
        self.id
    }
}

/// How a handle is shown: a fixed name for built-in assets, or its number.
pub enum HandleName<T> {
    Static(&'static str),
    Id(H<T>),
}

/// An asset type that can live in a [`Store`].
pub trait StoreType: Sized {
    /// Which identifiers name built-in assets of this type.
    spec fn builtin_spec(id: u32) -> bool;

    /// The fixed display name of a built-in identifier, `None` for others.
    spec fn ident_spec(id: u32) -> Option<Seq<char>>;

    /// The name of the asset type.
    spec fn type_name_spec() -> Seq<char>;

    /// The name of the asset type.
    fn name() -> (r: &'static str)
        ensures
            r@ == Self::type_name_spec(),
    ;

    /// How a handle of this type is shown: its fixed name when it has one,
    /// else the handle itself.
    fn ident_fmt(handle: H<Self>) -> (r: HandleName<Self>)
        ensures
            match r {
                HandleName::Static(s) => Self::ident_spec(handle@) == Some(s@),
                HandleName::Id(h) => Self::ident_spec(handle@) is None && h@ == handle@,
            },
    ;

    /// Whether `handle` names a built-in asset, which cannot be removed.
    fn is_builtin(handle: H<Self>) -> (r: bool)
        ensures
            r == Self::builtin_spec(handle@),
    ;
}

/// An asset type with a fallback asset, used for unknown handles.
pub trait StoreTypeFallback: StoreType {
    /// The identifier of the fallback asset.
    spec fn fallback_spec() -> u32;

    /// The handle of the fallback asset.
    fn fallback() -> (r: H<Self>)
        ensures
            r@ == Self::fallback_spec(),
    ;
}

/// An asset type whose values carry a name.
pub trait StoreTypeName: StoreType {
    /// The name of an asset value.
    spec fn name_spec(&self) -> Seq<char>;

    /// The name of an asset value.
    fn name(&self) -> (r: &str)
        ensures
            r@ == self.name_spec(),
    ;
}

/// An asset type with built-in assets that a new store is populated with.
pub trait StoreDefaults: StoreType {
    /// How many built-in assets `populate` adds.
    spec fn default_count() -> nat;

    /// `v` is the built-in asset `populate` adds under identifier `id`.
    spec fn is_builtin_asset(id: u32, v: Self) -> bool;

    /// Adds the built-in assets to an empty store.
    fn populate(store: &mut Store<Self>)
        requires
            old(store).wf(),
            old(store).next_id() == 0,
        ensures
            final(store).wf(),
            final(store).next_id() == Self::default_count(),
            forall|id: u32| id < Self::default_count() ==> final(store).contains(id),
            forall|id: u32|
                #![trigger final(store).value(id)]
                #![trigger Self::is_builtin_asset(id, final(store).value(id))]
                id < Self::default_count() ==> Self::is_builtin_asset(id, final(store).value(id)),
            final(store).dirty_ids() == old(store).dirty_ids(),
    ;
}

/// A collection of assets of one type, addressed by handles.
pub struct Store<T> {
    data: Vec<Option<T>>,
    dirty: Vec<u32>,
}

impl<T: StoreType> Store<T> {
    /// The assets by identifier; `None` for removed ones.
    pub closed spec fn contents(self) -> Seq<Option<T>> {
        self.data@
    }

    /// The identifier the next added asset will get.
    pub open spec fn next_id(self) -> nat {
        self.contents().len()
    }

    /// `id` names an asset held by the store.
    pub open spec fn contains(self, id: u32) -> bool {
        id < self.contents().len() && self.contents()[id as int] is Some
    }

    /// The asset named by `id` (meaningful when `self.contains(id)`).
    pub open spec fn value(self, id: u32) -> T {
        self.contents()[id as int]->Some_0
    }

    /// The identifiers marked dirty since the last `pop_dirty`, in order.
    pub closed spec fn dirty_ids(self) -> Seq<u32> {
        self.dirty@
    }

    /// Identifiers fit in a `u32` and no identifier is marked twice.
    pub closed spec fn wf(self) -> bool {
        &&& self.data@.len() <= u32::MAX
        &&& self.dirty@.no_duplicates()
    }

    /// An empty store.
    pub fn empty() -> (s: Self)
        ensures
            s.wf(),
            s.next_id() == 0,
            s.contents() == Seq::<Option<T>>::empty(),
            s.dirty_ids() == Seq::<u32>::empty(),
    {
        Store { data: Vec::new(), dirty: Vec::new() }
    }

    /// Adds an asset and returns its new handle.
    pub fn add(&mut self, elem: T) -> (h: H<T>)
        requires
            old(self).wf(),
            old(self).next_id() < u32::MAX,
        ensures
            final(self).wf(),
            h@ == old(self).next_id(),
            final(self).contents() == old(self).contents().push(Some(elem)),
            final(self).dirty_ids() == old(self).dirty_ids(),
    {
        let id = self.data.len() as u32;
        self.data.push(Some(elem));
        H::new(id)
    }

    /// The asset named by `h`, if the store holds it.
    pub fn try_get(&self, h: H<T>) -> (r: Option<&T>)
        ensures
            r is Some <==> self.contains(h@),
            r is Some ==> *r->Some_0 == self.value(h@),
    {
        let id = h.id() as usize;
        if id < self.data.len() {
            self.data[id].as_ref()
        } else {
            None
        }
    }

    /// Marks `id` dirty unless it already is.
    fn set_dirty(&mut self, id: u32)
        requires
            old(self).wf(),
        ensures
            final(self).wf(),
            final(self).contents() == old(self).contents(),
            final(self).dirty_ids() == if old(self).dirty_ids().contains(id) {
                old(self).dirty_ids()
            } else {
                old(self).dirty_ids().push(id)
            },
    {
        let mut i: usize = 0;
        while i < self.dirty.len()
            invariant
                0 <= i <= self.dirty@.len(),
                *self == *old(self),
                self.wf(),
                forall|j: int| 0 <= j < i ==> self.dirty@[j] != id,
            decreases self.dirty@.len() - i,
        {
            if self.dirty[i] == id {
                assert(self.dirty@.contains(id));
                return;
            }
            i += 1;
        }
        let ghost d0 = self.dirty@;
        self.dirty.push(id);
        assert forall|a: int, b: int| 0 <= a < self.dirty@.len() && 0 <= b < self.dirty@.len() && a != b
            implies self.dirty@[a] != self.dirty@[b] by {
            if a < d0.len() && b < d0.len() {
            } else if a == d0.len() {
                assert(self.dirty@[b] == d0[b]);
            } else {
                assert(self.dirty@[a] == d0[a]);
            }
        }
    }

    /// Takes the list of dirty identifiers, leaving it empty.
    pub fn pop_dirty(&mut self) -> (r: Vec<u32>)
        requires
            old(self).wf(),
        ensures
            final(self).wf(),
            r@ == old(self).dirty_ids(),
            final(self).dirty_ids() == Seq::<u32>::empty(),
            final(self).contents() == old(self).contents(),
    {
        let mut swap_store: Vec<u32> = Vec::new();
        std::mem::swap(&mut self.dirty, &mut swap_store);
        swap_store
    }

    /// Removes the asset named by `h` and returns it. Built-in assets are
    /// never removed. Removing a handle that is not built in marks it dirty,
    /// whether or not the store held it.
    pub fn remove(&mut self, h: H<T>) -> (r: Option<T>)
        requires
            old(self).wf(),
        ensures
            final(self).wf(),
            T::builtin_spec(h@) ==> r is None && *final(self) == *old(self),
            !T::builtin_spec(h@) ==> {
                &&& r is Some <==> old(self).contains(h@)
                &&& r is Some ==> r->Some_0 == old(self).value(h@)
                &&& final(self).contents() == if old(self).contains(h@) {
                    old(self).contents().update(h@ as int, None)
                } else {
                    old(self).contents()
                }
                &&& final(self).dirty_ids() == if old(self).dirty_ids().contains(h@) {
                    old(self).dirty_ids()
                } else {
                    old(self).dirty_ids().push(h@)
                }
            },
    {
        if T::is_builtin(h) {
            return None;
        }
        let id = h.id() as usize;
        let mut item: Option<T> = None;
        if id < self.data.len() {
            std::mem::swap(&mut self.data[id], &mut item);
        }
        self.set_dirty(h.id());
        item
    }

    /// The number of identifiers handed out so far.
    pub fn len(&self) -> (r: usize)
        ensures
            r == self.next_id(),
    {
        self.data.len()
    }
}

impl<T: StoreDefaults> Store<T> {
    /// A store holding the built-in assets of `T`.
    pub fn populated() -> (s: Self)
        ensures
            s.wf(),
            s.next_id() == T::default_count(),
            forall|id: u32| id < T::default_count() ==> s.contains(id),
            forall|id: u32|
                #![trigger s.value(id)]
                #![trigger T::is_builtin_asset(id, s.value(id))]
                id < T::default_count() ==> T::is_builtin_asset(id, s.value(id)),
            s.dirty_ids() == Seq::<u32>::empty(),
    {
        let mut store = Self::empty();
        store.populate();
        store
    }

    /// Adds the built-in assets of `T` to an empty store.
    pub fn populate(&mut self)
        requires
            old(self).wf(),
            old(self).next_id() == 0,
        ensures
            final(self).wf(),
            final(self).next_id() == T::default_count(),
            forall|id: u32| id < T::default_count() ==> final(self).contains(id),
            forall|id: u32|
                #![trigger final(self).value(id)]
                #![trigger T::is_builtin_asset(id, final(self).value(id))]
                id < T::default_count() ==> T::is_builtin_asset(id, final(self).value(id)),
            final(self).dirty_ids() == old(self).dirty_ids(),
    {
        T::populate(self);
    }
}

impl<T: StoreTypeFallback> Store<T> {
    /// The asset named by `h`, or the fallback asset when the store does not
    /// hold `h`.
    pub fn get(&self, h: H<T>) -> (r: &T)
        requires
            self.contains(T::fallback_spec()),
        ensures
            *r == if self.contains(h@) { self.value(h@) } else { self.value(T::fallback_spec()) },
    {
        match self.try_get(h) {
            Some(elem) => elem,
            None => {
                let fallback = self.try_get(T::fallback());
                fallback.unwrap()
            },
        }
    }
}

impl<T: StoreTypeName> Store<T> {
    /// The handle of the first asset (by identifier) with the given name.
    pub fn find_by_name(&self, name: &str) -> (r: Option<H<T>>)
        requires
            self.wf(),
        ensures
            r is None <==> !exists|id: u32| #[trigger] self.contains(id) && self.value(id).name_spec() == name@,
            r is Some ==> self.contains(r->Some_0@) && self.value(r->Some_0@).name_spec() == name@,
            r is Some ==> forall|id: u32| #[trigger] self.contains(id) && self.value(id).name_spec() == name@
                ==> r->Some_0@ <= id,
    {
        let target = name.to_owned();
        let mut i: usize = 0;
        while i < self.data.len()
            invariant
                0 <= i <= self.data@.len(),
                self.data@.len() <= u32::MAX,
                target@ == name@,
                forall|id: u32| #[trigger] self.contains(id) && id < i ==> self.value(id).name_spec() != name@,
            decreases self.data@.len() - i,
        {
            if let Some(item) = &self.data[i] {
                let item_name = item.name().to_owned();
                if item_name == target {
                    let h = H::new(i as u32);
                    assert(self.contains(i as u32));
                    return Some(h);
                }
                assert forall|id: u32| #[trigger] self.contains(id) && id < i + 1 implies self.value(id).name_spec() != name@ by {
                    if id == i {
                    }
                }
            }
            i += 1;
        }
        None
    }
}
/// The dirty list after marking `id`.
pub open spec fn dirty_after(dirty: Seq<u32>, id: u32) -> Seq<u32> {
    if dirty.contains(id) {
        dirty
    } else {
        dirty.push(id)
    }
}

impl<T: StoreType> Store<T> {
    /// Mutable access to the asset named by `h`, if the store holds it.
    /// Handing out mutable access marks the handle dirty.
    pub fn try_get_mut(&mut self, h: H<T>) -> (r: Option<&mut T>)
        requires
            old(self).wf(),
        ensures
            r is Some <==> old(self).contains(h@),
            match r {
                Some(e) => {
                    &&& *e == old(self).value(h@)
                    &&& final(self).contents() == old(self).contents().update(h@ as int, Some(*final(e)))
                    &&& final(self).dirty_ids() == dirty_after(old(self).dirty_ids(), h@)
                    &&& final(self).wf()
                },
                None => *final(self) == *old(self),
            },
    {
        let id = h.id() as usize;
        if id < self.data.len() && self.data[id].is_some() {
            self.set_dirty(h.id());
            self.data[id].as_mut()
        } else {
            None
        }
    }
}
impl<T: StoreTypeFallback> Store<T> {
    /// The identifier `get` and `get_mut` resolve `h` to.
    pub open spec fn resolve(self, h: u32) -> u32 {
        if self.contains(h) { h } else { T::fallback_spec() }
    }

    /// Mutable access to the asset named by `h`, or to the fallback asset
    /// when the store does not hold `h`. The accessed handle is marked dirty.
    pub fn get_mut(&mut self, h: H<T>) -> (r: &mut T)
        requires
            old(self).wf(),
            old(self).contains(T::fallback_spec()),
        ensures
            *r == old(self).value(old(self).resolve(h@)),
            final(self).contents() == old(self).contents().update(
                old(self).resolve(h@) as int,
                Some(*final(r)),
            ),
            final(self).dirty_ids() == dirty_after(old(self).dirty_ids(), old(self).resolve(h@)),
            final(self).wf(),
    {
        if self.try_get(h).is_some() {
            self.try_get_mut(h).unwrap()
        } else {
            self.try_get_mut(T::fallback()).unwrap()
        }
    }
}

/// A read after an add gives back the added asset, under the handle the
/// add returned, and leaves every other asset as it was.
pub proof fn law_read_after_add<T: StoreType>(before: Store<T>, after: Store<T>, elem: T)
    requires
        before.next_id() < u32::MAX,
        after.contents() == before.contents().push(Some(elem)),
    ensures
        after.contains(before.next_id() as u32),
        after.value(before.next_id() as u32) == elem,
        forall|id: u32| id < before.next_id() ==> (#[trigger] after.contains(id) == before.contains(id) && (
        before.contains(id) ==> after.value(id) == before.value(id))),
{
}

/// Removing a handle leaves every other handle's asset as it was, and a
/// removed handle no longer resolves.
pub proof fn law_remove_is_local<T: StoreType>(before: Store<T>, after: Store<T>, h: u32)
    requires
        after.contents() == if before.contains(h) {
            before.contents().update(h as int, None)
        } else {
            before.contents()
        },
    ensures
        !after.contains(h),
        forall|id: u32| id != h ==> (#[trigger] after.contains(id) == before.contains(id) && (before.contains(id)
            ==> after.value(id) == before.value(id))),
{
}

/// Marking a handle dirty records it exactly once, keeping earlier marks in
/// order.
pub proof fn law_dirty_marks_once(dirty: Seq<u32>, id: u32)
    requires
        dirty.no_duplicates(),
    ensures
        dirty_after(dirty, id).contains(id),
        dirty_after(dirty, id).no_duplicates(),
        dirty_after(dirty, id).len() <= dirty.len() + 1,
        forall|i: int| 0 <= i < dirty.len() ==> #[trigger] dirty_after(dirty, id)[i] == dirty[i],
{
    if !dirty.contains(id) {
        assert(dirty.push(id)[dirty.len() as int] == id);
        assert forall|a: int, b: int| 0 <= a < dirty.push(id).len() && 0 <= b < dirty.push(id).len() && a != b
            implies dirty.push(id)[a] != dirty.push(id)[b] by {
            if a < dirty.len() && b < dirty.len() {
            } else if a == dirty.len() {
                assert(dirty.push(id)[b] == dirty[b]);
            } else {
                assert(dirty.push(id)[a] == dirty[a]);
            }
        }
    }
}

/// `get` resolves a held handle to its own asset and any other handle to
/// the fallback asset.
pub proof fn law_get_resolves<T: StoreTypeFallback>(s: Store<T>, h: u32)
    requires
        s.contains(T::fallback_spec()),
    ensures
        s.contains(s.resolve(h)),
        s.contains(h) ==> s.resolve(h) == h,
        !s.contains(h) ==> s.resolve(h) == T::fallback_spec(),
{
}

/// How a handle is written in messages: its fixed name, or the type name,
/// ` #` and the handle's number.
pub open spec fn ident_spec<T: StoreType>(id: u32) -> Seq<char> {
    match T::ident_spec(id) {
        Some(s) => s,
        None => T::type_name_spec() + " #"@ + decimal(id as nat),
    }
}

/// How a handle is written in messages.
pub fn ident<T: StoreType>(h: H<T>) -> (r: String)
    ensures
        r@ == ident_spec::<T>(h@),
{
    match T::ident_fmt(h) {
        HandleName::Static(name) => name.to_owned(),
        HandleName::Id(id) => {
            let mut out = chars_of(T::name());
            push_str_chars(&mut out, " #");
            let mut digits = decimal_chars(id.id());
            out.append(&mut digits);
            string_from_chars(out.as_slice())
        },
    }
}

impl<T: StoreType> HandleName<T> {
    /// The handle name as shown: a fixed name in double quotes, or `#` and
    /// the handle's number.
    pub fn to_display_string(&self) -> (r: String)
        ensures
            r@ == match self {
                HandleName::Static(s) => "\""@ + s@ + "\""@,
                HandleName::Id(h) => "#"@ + decimal(h@ as nat),
            },
    {
        match self {
            HandleName::Static(s) => {
                let mut out = chars_of("\"");
                push_str_chars(&mut out, s);
                push_str_chars(&mut out, "\"");
                string_from_chars(out.as_slice())
            },
            HandleName::Id(h) => {
                let mut out = chars_of("#");
                let mut digits = decimal_chars(h.id());
                out.append(&mut digits);
                string_from_chars(out.as_slice())
            },
        }
    }
}

} // verus!
