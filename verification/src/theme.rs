//! Theme resolution: a widget's visual scheme is looked up by its
//! identity, falling back to a default scheme keyed by the widget's
//! category when no specific scheme is registered.

use vstd::prelude::*;

use crate::widget::WidgetKind;

verus! {

/// An sRGB color with alpha, the payload of every paint in a scheme.
#[derive(Clone, Copy, Debug, PartialEq, Eq, Structural)]
pub struct Color {
    pub r: u8,
    pub g: u8,
    pub b: u8,
    pub a: u8,
}

impl Color {
    /// An opaque color from its three channels.
    pub fn rgb(r: u8, g: u8, b: u8) -> (c: Color)
        ensures
            c == (Color { r, g, b, a: 255u8 }),
    {
        Color { r, g, b, a: 255 }
    }

    /// Opaque black, the fallback paint when a scheme lacks an entry.
    pub fn black() -> (c: Color)
        ensures
            c == (Color { r: 0u8, g: 0u8, b: 0u8, a: 255u8 }),
    {
        Color { r: 0, g: 0, b: 0, a: 255 }
    }
}

/// A resolved set of visual attributes for one widget: paint values
/// keyed by semantic name (for example "color").
#[derive(Clone, Debug)]
pub struct Scheme {
    entries: Vec<(String, Color)>,
}

impl Scheme {
    /// The mapping this scheme denotes: the first entry for a name wins.
    pub closed spec fn view(&self) -> Map<Seq<char>, Color> {
        pairs_map(self.entries@)
    }

    /// A scheme with no entries: every lookup falls back.
    pub fn empty() -> (s: Scheme)
        ensures
            s@ == Map::<Seq<char>, Color>::empty(),
    {
        let s = Scheme { entries: Vec::new() };
        proof {
            assert(s@ =~= Map::<Seq<char>, Color>::empty());
        }
        s
    }

    /// Add an entry for `name` unless one is already present.
    pub fn set(&mut self, name: String, color: Color)
        ensures
            final(self)@ == old(self)@.insert(name@, color),
            final(self)@.dom() == old(self)@.dom().insert(name@),
    {
        proof {
            lemma_pairs_map_push(self.entries@, name@, color);
        }
        // Later entries must not shadow an earlier one, so replace in place.
        let n = self.entries.len();
        let mut i: usize = 0;
        while i < n
            invariant
                i <= n,
                n == self.entries@.len(),
                *self == *old(self),
                forall|k: int| 0 <= k < i ==> #[trigger] self.entries@[k].0@ != name@,
            decreases n - i,
        {
            let hit = self.entries[i].0 == name;
            if hit {
                self.entries.set(i, (name, color));
                proof {
                    lemma_pairs_map_update(old(self).entries@, self.entries@, i as int, name@, color);
                }
                return ;
            }
            i += 1;
        }
        self.entries.push((name, color));
        proof {
            lemma_pairs_map_fresh_push(old(self).entries@, name@, color);
        }
    }

    /// The paint registered under `name`, or nothing.
    pub fn get(&self, name: &String) -> (r: Option<Color>)
        ensures
            r matches Some(c) ==> self@.contains_key(name@) && self@[name@] == c,
            r is None ==> !self@.contains_key(name@),
    {
        let n = self.entries.len();
        let mut i: usize = 0;
        while i < n
            invariant
                i <= n,
                n == self.entries@.len(),
                forall|k: int| 0 <= k < i ==> #[trigger] self.entries@[k].0@ != name@,
            decreases n - i,
        {
            let hit = self.entries[i].0 == *name;
            if hit {
                proof {
                    lemma_pairs_map_first_hit(self.entries@, i as int);
                }
                return Some(self.entries[i].1);
            }
            i += 1;
        }
        proof {
            lemma_pairs_map_miss(self.entries@, name@);
        }
        None
    }

    /// The paint registered under `name`, or the given fallback.
    pub fn get_or(&self, name: &String, fallback: Color) -> (r: Color)
        ensures
            self@.contains_key(name@) ==> r == self@[name@],
            !self@.contains_key(name@) ==> r == fallback,
    {
        match self.get(name) {
            Some(c) => c,
            None => fallback,
        }
    }
}

/// The mapping a list of (name, paint) pairs denotes; the first entry
/// for a name wins.
pub open spec fn pairs_map(s: Seq<(String, Color)>) -> Map<Seq<char>, Color>
    decreases s,
{
    if s.len() == 0 {
        Map::empty()
    } else {
        pairs_map(s.subrange(1, s.len() as int)).insert(s[0].0@, s[0].1)
    }
}

proof fn lemma_pairs_map_push(s: Seq<(String, Color)>, name: Seq<char>, c: Color)
    ensures
        pairs_map(s).insert(name, c).dom() == pairs_map(s).dom().insert(name),
{
    assert(pairs_map(s).insert(name, c).dom() =~= pairs_map(s).dom().insert(name));
}

/// A lookup that scanned past `i` distinct names and hit at `i` returns
/// what the denoted map holds for that name.
proof fn lemma_pairs_map_first_hit(s: Seq<(String, Color)>, i: int)
    requires
        0 <= i < s.len(),
        forall|k: int| 0 <= k < i ==> #[trigger] s[k].0@ != s[i].0@,
    ensures
        pairs_map(s).contains_key(s[i].0@),
        pairs_map(s)[s[i].0@] == s[i].1,
    decreases s,
{
    if i > 0 {
        let t = s.subrange(1, s.len() as int);
        assert forall|k: int| 0 <= k < i - 1 implies #[trigger] t[k].0@ != t[i - 1].0@ by {
            assert(t[k] == s[k + 1]);
            assert(t[i - 1] == s[i]);
        }
        lemma_pairs_map_first_hit(t, i - 1);
        assert(s[0].0@ != s[i].0@);
    }
}

/// A name that occurs in no pair is not in the denoted map.
proof fn lemma_pairs_map_miss(s: Seq<(String, Color)>, name: Seq<char>)
    requires
        forall|k: int| 0 <= k < s.len() ==> #[trigger] s[k].0@ != name,
    ensures
        !pairs_map(s).contains_key(name),
    decreases s,
{
    if s.len() > 0 {
        let t = s.subrange(1, s.len() as int);
        assert forall|k: int| 0 <= k < t.len() implies #[trigger] t[k].0@ != name by {
            assert(t[k] == s[k + 1]);
        }
        lemma_pairs_map_miss(t, name);
    }
}

/// Overwriting the first pair that holds `name` updates the denoted map
/// at `name` alone.
proof fn lemma_pairs_map_update(
    s: Seq<(String, Color)>,
    s2: Seq<(String, Color)>,
    i: int,
    name: Seq<char>,
    c: Color,
)
    requires
        0 <= i < s.len(),
        s2.len() == s.len(),
        s[i].0@ == name,
        s2[i].1 == c,
        s2[i].0@ == name,
        forall|k: int| 0 <= k < s.len() && k != i ==> s2[k] == s[k],
        forall|k: int| 0 <= k < i ==> #[trigger] s[k].0@ != name,
    ensures
        pairs_map(s2) == pairs_map(s).insert(name, c),
        pairs_map(s2).dom() == pairs_map(s).dom().insert(name),
    decreases s,
{
    let t = s.subrange(1, s.len() as int);
    let t2 = s2.subrange(1, s2.len() as int);
    if i == 0 {
        assert(t2 =~= t);
        assert(pairs_map(s2) =~= pairs_map(s).insert(name, c));
    } else {
        assert forall|k: int| 0 <= k < t.len() && k != i - 1 implies t2[k] == t[k] by {
            assert(t[k] == s[k + 1]);
            assert(t2[k] == s2[k + 1]);
        }
        assert(t[i - 1] == s[i]);
        assert(t2[i - 1] == s2[i]);
        assert forall|k: int| 0 <= k < i - 1 implies #[trigger] t[k].0@ != name by {
            assert(t[k] == s[k + 1]);
        }
        lemma_pairs_map_update(t, t2, i - 1, name, c);
        assert(s2[0] == s[0]);
        assert(s[0].0@ != name);
        assert(pairs_map(s2) =~= pairs_map(s).insert(name, c));
    }
    assert(pairs_map(s2).dom() =~= pairs_map(s).dom().insert(name));
}

/// Appending a pair for a name no earlier pair holds adds that name to
/// the denoted map.
proof fn lemma_pairs_map_fresh_push(s: Seq<(String, Color)>, name: Seq<char>, c: Color)
    requires
        forall|k: int| 0 <= k < s.len() ==> #[trigger] s[k].0@ != name,
    ensures
        forall|p: (String, Color)|
            p.0@ == name && p.1 == c ==> pairs_map(s.push(p)) == pairs_map(s).insert(name, c),
    decreases s,
{
    assert forall|p: (String, Color)|
        p.0@ == name && p.1 == c implies pairs_map(s.push(p)) == pairs_map(s).insert(name, c) by {
        if s.len() == 0 {
            assert(s.push(p)[0] == p);
            assert(s.push(p).subrange(1, 1) =~= Seq::<(String, Color)>::empty());
            assert(pairs_map(s.push(p).subrange(1, 1)) =~= Map::<Seq<char>, Color>::empty());
            assert(pairs_map(s.push(p)) =~= pairs_map(s).insert(name, c));
        } else {
            let t = s.subrange(1, s.len() as int);
            assert forall|k: int| 0 <= k < t.len() implies #[trigger] t[k].0@ != name by {
                assert(t[k] == s[k + 1]);
            }
            lemma_pairs_map_fresh_push(t, name, c);
            assert(s.push(p).subrange(1, s.len() as int + 1) =~= t.push(p));
            assert(s.push(p)[0] == s[0]);
            assert(pairs_map(s.push(p)) =~= pairs_map(s).insert(name, c));
        }
    }
}


/// The active theme: a scheme per registered widget identity, and a
/// default scheme per widget category as the fallback.
pub struct Theme {
    schemes: Vec<(String, Scheme)>,
    default_container: Scheme,
    default_button: Scheme,
    default_text: Scheme,
}

/// The mapping a list of (identity, scheme) pairs denotes; the first
/// entry for an identity wins.
pub open spec fn theme_map(s: Seq<(String, Scheme)>) -> Map<Seq<char>, Map<Seq<char>, Color>>
    decreases s,
{
    if s.len() == 0 {
        Map::empty()
    } else {
        theme_map(s.subrange(1, s.len() as int)).insert(s[0].0@, s[0].1@)
    }
}

/// A lookup that scanned past `i` distinct identities and hit at `i`
/// returns what the denoted map holds for that identity.
proof fn lemma_theme_map_first_hit(s: Seq<(String, Scheme)>, i: int)
    requires
        0 <= i < s.len(),
        forall|k: int| 0 <= k < i ==> #[trigger] s[k].0@ != s[i].0@,
    ensures
        theme_map(s).contains_key(s[i].0@),
        theme_map(s)[s[i].0@] == s[i].1@,
    decreases s,
{
    if i > 0 {
        let t = s.subrange(1, s.len() as int);
        assert forall|k: int| 0 <= k < i - 1 implies #[trigger] t[k].0@ != t[i - 1].0@ by {
            assert(t[k] == s[k + 1]);
            assert(t[i - 1] == s[i]);
        }
        lemma_theme_map_first_hit(t, i - 1);
        assert(s[0].0@ != s[i].0@);
    }
}

/// An identity that occurs in no pair is not in the denoted map.
proof fn lemma_theme_map_miss(s: Seq<(String, Scheme)>, name: Seq<char>)
    requires
        forall|k: int| 0 <= k < s.len() ==> #[trigger] s[k].0@ != name,
    ensures
        !theme_map(s).contains_key(name),
    decreases s,
{
    if s.len() > 0 {
        let t = s.subrange(1, s.len() as int);
        assert forall|k: int| 0 <= k < t.len() implies #[trigger] t[k].0@ != name by {
            assert(t[k] == s[k + 1]);
        }
        lemma_theme_map_miss(t, name);
    }
}

impl Theme {
    /// The mapping from widget identity to that widget's scheme.
    pub closed spec fn spec_schemes(&self) -> Map<Seq<char>, Map<Seq<char>, Color>> {
        theme_map(self.schemes@)
    }

    /// The fallback scheme of a category.
    pub closed spec fn spec_default_of(&self, kind: WidgetKind) -> Map<Seq<char>, Color> {
        match kind {
            WidgetKind::Container => self.default_container@,
            WidgetKind::Button => self.default_button@,
            WidgetKind::Text => self.default_text@,
        }
    }

    /// A theme with no registered identities and the given category
    /// defaults.
    pub fn new(default_container: Scheme, default_button: Scheme, default_text: Scheme) -> (t:
        Theme)
        ensures
            t.spec_schemes() == Map::<Seq<char>, Map<Seq<char>, Color>>::empty(),
            t.spec_default_of(WidgetKind::Container) == default_container@,
            t.spec_default_of(WidgetKind::Button) == default_button@,
            t.spec_default_of(WidgetKind::Text) == default_text@,
    {
        let t = Theme {
            schemes: Vec::new(),
            default_container,
            default_button,
            default_text,
        };
        proof {
            assert(t.schemes@ =~= Seq::<(String, Scheme)>::empty());
            assert(t.spec_schemes() =~= Map::<Seq<char>, Map<Seq<char>, Color>>::empty());
        }
        t
    }

    /// Register a scheme for a widget identity, replacing any scheme
    /// registered for that identity before.
    pub fn register(&mut self, ident: String, scheme: Scheme)
        ensures
            final(self).spec_schemes() == old(self).spec_schemes().insert(ident@, scheme@),
            forall|k: WidgetKind| final(self).spec_default_of(k) == old(self).spec_default_of(k),
    {
        let n = self.schemes.len();
        let mut i: usize = 0;
        while i < n
            invariant
                i <= n,
                n == self.schemes@.len(),
                *self == *old(self),
                forall|k: int| 0 <= k < i ==> #[trigger] self.schemes@[k].0@ != ident@,
            decreases n - i,
        {
            let hit = self.schemes[i].0 == ident;
            if hit {
                self.schemes.set(i, (ident, scheme));
                proof {
                    lemma_theme_map_update(
                        old(self).schemes@,
                        self.schemes@,
                        i as int,
                        ident@,
                        scheme@,
                    );
                }
                return ;
            }
            i += 1;
        }
        proof {
            lemma_theme_map_miss(self.schemes@, ident@);
            lemma_theme_register(self.schemes@, ident@, scheme@);
        }
        self.schemes.push((ident, scheme));
    }

    /// The scheme registered for a widget identity, or nothing.
    pub fn scheme_of(&self, ident: &String) -> (r: Option<&Scheme>)
        ensures
            r matches Some(s) ==> self.spec_schemes().contains_key(ident@) && s@
                == self.spec_schemes()[ident@],
            r is None ==> !self.spec_schemes().contains_key(ident@),
    {
        let n = self.schemes.len();
        let mut i: usize = 0;
        while i < n
            invariant
                i <= n,
                n == self.schemes@.len(),
                forall|k: int| 0 <= k < i ==> #[trigger] self.schemes@[k].0@ != ident@,
            decreases n - i,
        {
            let hit = self.schemes[i].0 == *ident;
            if hit {
                proof {
                    lemma_theme_map_first_hit(self.schemes@, i as int);
                }
                return Some(&self.schemes[i].1);
            }
            i += 1;
        }
        proof {
            lemma_theme_map_miss(self.schemes@, ident@);
        }
        None
    }

    /// The fallback scheme of a category.
    pub fn default_scheme_of(&self, kind: WidgetKind) -> (r: &Scheme)
        ensures
            r@ == self.spec_default_of(kind),
    {
        match kind {
            WidgetKind::Container => &self.default_container,
            WidgetKind::Button => &self.default_button,
            WidgetKind::Text => &self.default_text,
        }
    }

    /// What an identity of the given category resolves to: the scheme
    /// registered for the identity, else the category's default.
    pub open spec fn spec_resolve(&self, ident: Seq<char>, kind: WidgetKind) -> Map<
        Seq<char>,
        Color,
    > {
        if self.spec_schemes().contains_key(ident) {
            self.spec_schemes()[ident]
        } else {
            self.spec_default_of(kind)
        }
    }

    /// Resolve a widget's scheme: its registered scheme if any, else
    /// its category's default. An unregistered identity never fails;
    /// it falls back.
    pub fn resolve(&self, ident: &String, kind: WidgetKind) -> (r: &Scheme)
        ensures
            r@ == self.spec_resolve(ident@, kind),
    {
        match self.scheme_of(ident) {
            Some(s) => s,
            None => self.default_scheme_of(kind),
        }
    }
}

/// Overwriting the first pair that holds `name` updates the denoted
/// map at `name` alone.
proof fn lemma_theme_map_update(
    s: Seq<(String, Scheme)>,
    s2: Seq<(String, Scheme)>,
    i: int,
    name: Seq<char>,
    v: Map<Seq<char>, Color>,
)
    requires
        0 <= i < s.len(),
        s2.len() == s.len(),
        s[i].0@ == name,
        s2[i].1@ == v,
        s2[i].0@ == name,
        forall|k: int| 0 <= k < s.len() && k != i ==> s2[k] == s[k],
        forall|k: int| 0 <= k < i ==> #[trigger] s[k].0@ != name,
    ensures
        theme_map(s2) == theme_map(s).insert(name, v),
    decreases s,
{
    let t = s.subrange(1, s.len() as int);
    let t2 = s2.subrange(1, s2.len() as int);
    if i == 0 {
        assert(t2 =~= t);
        assert(theme_map(s2) =~= theme_map(s).insert(name, v));
    } else {
        assert forall|k: int| 0 <= k < t.len() && k != i - 1 implies t2[k] == t[k] by {
            assert(t[k] == s[k + 1]);
            assert(t2[k] == s2[k + 1]);
        }
        assert(t[i - 1] == s[i]);
        assert(t2[i - 1] == s2[i]);
        assert forall|k: int| 0 <= k < i - 1 implies #[trigger] t[k].0@ != name by {
            assert(t[k] == s[k + 1]);
        }
        lemma_theme_map_update(t, t2, i - 1, name, v);
        assert(s2[0] == s[0]);
        assert(s[0].0@ != name);
        assert(theme_map(s2) =~= theme_map(s).insert(name, v));
    }
}

/// Appending a pair for an identity the map lacks adds it to the map.
proof fn lemma_theme_register(s: Seq<(String, Scheme)>, name: Seq<char>, v: Map<Seq<char>, Color>)
    requires
        !theme_map(s).contains_key(name),
    ensures
        forall|p: (String, Scheme)|
            p.0@ == name && p.1@ == v ==> theme_map(s.push(p)) == theme_map(s).insert(name, v),
    decreases s,
{
    assert forall|p: (String, Scheme)|
        p.0@ == name && p.1@ == v implies theme_map(s.push(p)) == theme_map(s).insert(name, v) by {
        if s.len() == 0 {
            assert(s.push(p)[0] == p);
            assert(s.push(p).subrange(1, 1) =~= Seq::<(String, Scheme)>::empty());
            assert(theme_map(s.push(p).subrange(1, 1)) =~= Map::<Seq<char>, Map<Seq<char>, Color>>::empty());
            assert(theme_map(s.push(p)) =~= theme_map(s).insert(name, v));
        } else {
            let t = s.subrange(1, s.len() as int);
            assert(!theme_map(t).contains_key(name) || s[0].0@ == name) by {
                if theme_map(t).contains_key(name) && s[0].0@ != name {
                    assert(theme_map(s) == theme_map(t).insert(s[0].0@, s[0].1@));
                    assert(theme_map(s).contains_key(name));
                }
            }
            if s[0].0@ == name {
                assert(theme_map(s).contains_key(name));
            }
            lemma_theme_register(t, name, v);
            assert(s.push(p).subrange(1, s.len() as int + 1) =~= t.push(p));
            assert(s.push(p)[0] == s[0]);
            assert(theme_map(s.push(p)) =~= theme_map(s).insert(name, v));
        }
    }
}

} // verus!
