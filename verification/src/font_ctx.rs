//! The process-wide font registry: a concurrency-safe mapping from
//! name to font data with insert, lookup, remove and a fixed default
//! entry, reachable from outside the per-tick pipeline (asset loading
//! does not hold the tick's exclusive state access).

use std::sync::Arc;

use vstd::prelude::*;

verus! {

#[verifier::external_type_specification]
#[verifier::external_body]
pub struct ExFontData(peniko::FontData);

/// The concurrent name-to-font map behind the registry. The map's own
/// type carries a hasher parameter Verus cannot declare, so the value
/// is held behind this struct; the registry's contracts speak of
/// `font_entries`, the names it holds and which font each stands for.
#[verifier::external_body]
pub struct FontMap {
    map: dashmap::DashMap<String, peniko::FontData>,
}

/// The identifier of a font's backing blob: font bytes are opaque to
/// the core, and the blob's unique id stands for the font in the
/// registry's contracts. It is a function of the font value alone
/// (linebender_resource_handle's Blob carries its id, and cloning
/// keeps it).
pub uninterp spec fn font_id(f: peniko::FontData) -> u64;

/// What the map holds: each name held, mapped to the identifier of
/// the font stored under it.
pub uninterp spec fn font_entries(m: FontMap) -> Map<Seq<char>, u64>;

/// The map holds no entries at all.
pub open spec fn font_entries_empty(m: FontMap) -> bool {
    font_entries(m) == Map::<Seq<char>, u64>::empty()
}

/// Relies on dashmap::DashMap::new: a fresh map holds no entries.
#[verifier::external_body]
fn font_map_new() -> (r: FontMap)
    ensures
        font_entries_empty(r),
{
    FontMap { map: dashmap::DashMap::new() }
}

impl FontMap {
    /// Relies on dashmap::DashMap::insert: the entry for the name is
    /// created, or replaced when one exists; other names are
    /// untouched.
    #[verifier::external_body]
    fn insert(&mut self, name: String, font: peniko::FontData)
        ensures
            font_entries(*final(self)) == font_entries(*old(self)).insert(name@, font_id(font)),
    {
        self.map.insert(name, font);
    }

    /// Relies on dashmap::DashMap::get: an entry is found if and only
    /// if the name is held, and the font handed out is a clone of the
    /// stored one (a shared handle, same backing blob).
    #[verifier::external_body]
    fn get(&self, name: &String) -> (r: Option<peniko::FontData>)
        ensures
            r matches Some(f) ==> font_entries(*self).contains_key(name@) && font_id(f)
                == font_entries(*self)[name@],
            r is None <==> !font_entries(*self).contains_key(name@),
    {
        self.map.get(name).map(|e| e.value().clone())
    }

    /// Relies on dashmap::DashMap::remove: the entry is removed and
    /// reported if and only if the name was held; other names are
    /// untouched.
    #[verifier::external_body]
    fn remove(&mut self, name: &String) -> (r: Option<()>)
        ensures
            font_entries(*final(self)) == font_entries(*old(self)).remove(name@),
            r is Some <==> font_entries(*old(self)).contains_key(name@),
    {
        self.map.remove(name).map(|_| ())
    }
}

/// Relies on peniko::FontData::new and Blob::new: wraps the given
/// bytes as an owned font resource (index 0 of a collection).
#[verifier::external_body]
pub fn font_from_bytes(data: Vec<u8>) -> peniko::FontData {
    peniko::FontData::new(peniko::Blob::new(Arc::new(data)), 0)
}

/// The font registry: named fonts plus a fixed default entry.
pub struct FontContext {
    default: peniko::FontData,
    fonts: FontMap,
}

impl FontContext {
    /// What the registry holds, the default entry aside: each name,
    /// mapped to the identifier of the font stored under it.
    pub closed spec fn spec_fonts(&self) -> Map<Seq<char>, u64> {
        font_entries(self.fonts)
    }

    /// The set of names the registry holds, the default entry aside.
    pub open spec fn spec_names(&self) -> Set<Seq<char>> {
        self.spec_fonts().dom()
    }

    /// The fixed default font.
    pub closed spec fn spec_default(&self) -> peniko::FontData {
        self.default
    }

    /// An empty registry around the given default font.
    pub fn new(default: peniko::FontData) -> (r: FontContext)
        ensures
            r.spec_fonts() =~= Map::<Seq<char>, u64>::empty(),
            r.spec_default() == default,
    {
        FontContext { default, fonts: font_map_new() }
    }

    /// Insert a font under a custom name, replacing any previous entry
    /// of that name; other names and the default font are untouched.
    pub fn insert(&mut self, name: String, font: peniko::FontData)
        ensures
            final(self).spec_fonts() == old(self).spec_fonts().insert(name@, font_id(font)),
            final(self).spec_default() == old(self).spec_default(),
    {
        self.fonts.insert(name, font);
    }

    /// Get a font by name: a clone of the font stored under it, or
    /// nothing if and only if no font of that name is held.
    pub fn get(&self, name: &String) -> (r: Option<peniko::FontData>)
        ensures
            r matches Some(f) ==> self.spec_fonts().contains_key(name@) && font_id(f)
                == self.spec_fonts()[name@],
            r is None <==> !self.spec_fonts().contains_key(name@),
    {
        self.fonts.get(name)
    }

    /// Remove a font. Reports the removal if and only if a font of
    /// that name was held; other names and the default font are
    /// untouched.
    pub fn remove(&mut self, name: &String) -> (r: Option<()>)
        ensures
            final(self).spec_fonts() == old(self).spec_fonts().remove(name@),
            final(self).spec_default() == old(self).spec_default(),
            r is Some <==> old(self).spec_names().contains(name@),
    {
        self.fonts.remove(name)
    }

    /// The fixed default font.
    pub fn default_font(&self) -> (r: &peniko::FontData)
        ensures
            *r == self.spec_default(),
    {
        &self.default
    }
}

impl Default for FontContext {
    /// An empty registry whose default entry wraps no bytes; a driver
    /// that ships a real default face builds the registry with `new`.
    fn default() -> (r: FontContext)
        ensures
            r.spec_fonts() =~= Map::<Seq<char>, u64>::empty(),
    {
        FontContext { default: font_from_bytes(Vec::new()), fonts: font_map_new() }
    }
}

} // verus!
