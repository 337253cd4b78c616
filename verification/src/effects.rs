//! What the inspector knows about the effects a user can apply: the enabled
//! effect plugins, and the parameters each has declared once loaded.
//!
//! A listing exists as soon as the install scan finds the plugin; its
//! parameters arrive later, when the host has loaded it. An effect with no
//! declaration yet is listed and applicable; it only shows no controls.

use vstd::prelude::*;
use crate::text::str_eq;

verus! {

/// An installed plugin, as the install scan reports it.
pub struct InstalledPlugin {
    /// Its reverse-DNS id.
    pub id: String,
    /// Its manifest's display name.
    pub name: String,
    /// Whether the user has it switched on.
    pub enabled: bool,
    /// Whether its manifest declares the `effect` world.
    pub effect_world: bool,
}

/// One installed effect plugin as the inspector sees it, with parameters of
/// type `P`.
pub struct EffectListing<P> {
    /// The plugin's id: what an applied effect names.
    pub plugin: String,
    /// The display name the picker shows.
    pub name: String,
    /// The parameters it declared, in declaration order.
    pub params: Vec<P>,
}

impl<P> EffectListing<P> {
    /// An installed effect with no declaration read yet.
    pub fn new(plugin: String, name: String) -> (r: EffectListing<P>)
        ensures
            r.plugin@ == plugin@,
            r.name@ == name@,
            r.params@.len() == 0,
    {
        EffectListing { plugin, name, params: Vec::new() }
    }

    /// The same listing carrying the parameters the plugin declared.
    pub fn with_params(self, params: Vec<P>) -> (r: EffectListing<P>)
        ensures
            r.plugin == self.plugin,
            r.name == self.name,
            r.params == params,
    {
        EffectListing { plugin: self.plugin, name: self.name, params }
    }
}

/// The first listing of `s` for `plugin`.
pub open spec fn listing_index<P>(s: Seq<EffectListing<P>>, plugin: Seq<char>) -> Option<int> {
    if exists|i: int| 0 <= i < s.len() && s[i].plugin@ == plugin {
        Some(choose|i: int| 0 <= i < s.len() && s[i].plugin@ == plugin && forall|j: int| 0 <= j < i ==> (#[trigger] s[j]).plugin@ != plugin)
    } else {
        None
    }
}

/// The plugins of `installed` the user can apply as effects: enabled, and
/// declaring the effect world, in scan order.
pub open spec fn offered(installed: Seq<InstalledPlugin>) -> Seq<InstalledPlugin>
    decreases installed.len(),
{
    if installed.len() == 0 {
        Seq::empty()
    } else {
        let before = offered(installed.drop_last());
        let p = installed.last();
        if p.enabled && p.effect_world {
            before.push(p)
        } else {
            before
        }
    }
}

/// Every effect the user can apply, in the order the picker lists them.
pub struct EffectCatalog<P> {
    entries: Vec<EffectListing<P>>,
}

impl<P> EffectCatalog<P> {
    /// Every listing, in picker order.
    pub closed spec fn spec_entries(&self) -> Seq<EffectListing<P>> {
        self.entries@
    }

    /// An empty catalogue.
    pub fn new() -> (r: EffectCatalog<P>)
        ensures
            r.spec_entries().len() == 0,
    {
        EffectCatalog { entries: Vec::new() }
    }

    /// The catalogue of the enabled effect-world plugins in `installed`, in
    /// scan order, none with parameters yet: a switched-off plugin is not
    /// offered, and one declaring other worlds only is not an effect.
    pub fn from_installed(installed: &[InstalledPlugin]) -> (r: EffectCatalog<P>)
        ensures
            r.spec_entries().len() == offered(installed@).len(),
            forall|i: int|
                0 <= i < r.spec_entries().len() ==> {
                    &&& (#[trigger] r.spec_entries()[i]).plugin@ == offered(installed@)[i].id@
                    &&& r.spec_entries()[i].name@ == offered(installed@)[i].name@
                    &&& r.spec_entries()[i].params@.len() == 0
                },
    {
        let mut entries: Vec<EffectListing<P>> = Vec::new();
        let mut i: usize = 0;
        while i < installed.len()
            invariant
                i <= installed@.len(),
                entries@.len() == offered(installed@.subrange(0, i as int)).len(),
                forall|k: int|
                    0 <= k < entries@.len() ==> {
                        &&& (#[trigger] entries@[k]).plugin@ == offered(installed@.subrange(0, i as int))[k].id@
                        &&& entries@[k].name@ == offered(installed@.subrange(0, i as int))[k].name@
                        &&& entries@[k].params@.len() == 0
                    },
            decreases installed@.len() - i,
        {
            let ghost prefix = installed@.subrange(0, i + 1 as int);
            assert(prefix.drop_last() =~= installed@.subrange(0, i as int));
            let p = &installed[i];
            if p.enabled && p.effect_world {
                entries.push(EffectListing::new(p.id.clone(), p.name.clone()));
            }
            i = i + 1;
        }
        assert(installed@.subrange(0, installed@.len() as int) =~= installed@);
        EffectCatalog { entries }
    }

    /// Adds one listing to the end of the catalogue.
    pub fn push(&mut self, listing: EffectListing<P>)
        ensures
            final(self).spec_entries() == old(self).spec_entries().push(listing),
    {
        self.entries.push(listing);
    }

    /// Records what `plugin` declared: the first listing for it takes the
    /// parameters, and a plugin the catalogue does not hold is added under
    /// its id, so a declaration is never dropped.
    #[verifier::rlimit(40)]
    pub fn declare(&mut self, plugin: &str, params: Vec<P>)
        ensures
            match listing_index(old(self).spec_entries(), plugin@) {
                Some(k) => {
                    &&& final(self).spec_entries().len() == old(self).spec_entries().len()
                    &&& final(self).spec_entries()[k].plugin == old(self).spec_entries()[k].plugin
                    &&& final(self).spec_entries()[k].name == old(self).spec_entries()[k].name
                    &&& final(self).spec_entries()[k].params@ == params@
                    &&& forall|i: int|
                        0 <= i < old(self).spec_entries().len() && i != k ==> (#[trigger] final(self).spec_entries()[i])
                            == old(self).spec_entries()[i]
                },
                None => {
                    &&& final(self).spec_entries().len() == old(self).spec_entries().len() + 1
                    &&& final(self).spec_entries().drop_last() == old(self).spec_entries()
                    &&& final(self).spec_entries().last().plugin@ == plugin@
                    &&& final(self).spec_entries().last().name@ == plugin@
                    &&& final(self).spec_entries().last().params@ == params@
                },
            },
    {
        match self.find(plugin) {
            Some(k) => {
                let mut entries: Vec<EffectListing<P>> = Vec::new();
                std::mem::swap(&mut entries, &mut self.entries);
                let ghost all = entries@;
                let listing = entries.remove(k);
                assert(listing == all[k as int]);
                let updated = listing.with_params(params);
                entries.insert(k, updated);
                assert(entries@.len() == all.len());
                assert(entries@[k as int] == updated);
                assert forall|i: int| 0 <= i < all.len() && i != k implies entries@[i] == all[i] by {}
                self.entries = entries;
            },
            None => {
                let ghost before = self.entries@;
                let listing = EffectListing::new(plugin.to_string(), plugin.to_string());
                self.entries.push(listing.with_params(params));
                assert(self.entries@.drop_last() =~= before);
            },
        }
    }

    /// The position of the first listing for `plugin`.
    fn find(&self, plugin: &str) -> (r: Option<usize>)
        ensures
            match r {
                Some(k) => k < self.spec_entries().len() && listing_index(self.spec_entries(), plugin@) == Some(k as int),
                None => listing_index(self.spec_entries(), plugin@) is None,
            },
    {
        let mut i: usize = 0;
        while i < self.entries.len()
            invariant
                i <= self.entries@.len(),
                forall|j: int| 0 <= j < i ==> (#[trigger] self.entries@[j]).plugin@ != plugin@,
            decreases self.entries@.len() - i,
        {
            if str_eq(self.entries[i].plugin.as_str(), plugin) {
                proof {
                    let s = self.entries@;
                    let w = choose|w: int| 0 <= w < s.len() && s[w].plugin@ == plugin@ && forall|j: int| 0 <= j < w ==> (#[trigger] s[j]).plugin@ != plugin@;
                    assert(w == i);
                }
                return Some(i);
            }
            i = i + 1;
        }
        None
    }

    /// Every listing, in picker order.
    pub fn entries(&self) -> (r: &[EffectListing<P>])
        ensures
            r@ == self.spec_entries(),
    {
        self.entries.as_slice()
    }

    /// Whether the catalogue offers nothing at all.
    pub fn is_empty(&self) -> (r: bool)
        ensures
            r == (self.spec_entries().len() == 0),
    {
        self.entries.len() == 0
    }

    /// The listing for `plugin`, if it is installed.
    pub fn listing(&self, plugin: &str) -> (r: Option<&EffectListing<P>>)
        ensures
            match r {
                Some(l) => listing_index(self.spec_entries(), plugin@) matches Some(k) && *l == self.spec_entries()[k],
                None => listing_index(self.spec_entries(), plugin@) is None,
            },
    {
        match self.find(plugin) {
            Some(k) => Some(&self.entries[k]),
            None => None,
        }
    }

    /// What to call `plugin`: its display name, or its id when the plugin
    /// an applied effect names is not installed here.
    pub fn name_of<'a>(&'a self, plugin: &'a str) -> (r: &'a str)
        ensures
            r@ == match listing_index(self.spec_entries(), plugin@) {
                Some(k) => self.spec_entries()[k].name@,
                None => plugin@,
            },
    {
        match self.find(plugin) {
            Some(k) => self.entries[k].name.as_str(),
            None => plugin,
        }
    }

    /// The parameters `plugin` declared; none when it is not installed or
    /// has not been loaded.
    pub fn params_of(&self, plugin: &str) -> (r: &[P])
        ensures
            r@ == match listing_index(self.spec_entries(), plugin@) {
                Some(k) => self.spec_entries()[k].params@,
                None => Seq::<P>::empty(),
            },
    {
        match self.find(plugin) {
            Some(k) => self.entries[k].params.as_slice(),
            None => {
                let none: &[P] = &[];
                assert(none@ =~= Seq::<P>::empty());
                none
            },
        }
    }
}

} // verus!
