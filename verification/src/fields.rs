//! Field maps and the project / template data model.
//!
//! A [`FieldMap`] maps field names to values and keeps its entries in the
//! order of their names, which is the order in which the JSON documents of a
//! project list them.
use vstd::prelude::*;
use crate::text::chars_of;

verus! {

// ───────────────────────────── order of names ─────────────────────────────

/// `a` comes before `b` in the order of `String`'s `Ord` (code point by code point).
pub open spec fn lex_lt(a: Seq<char>, b: Seq<char>) -> bool
    decreases a.len(),
{
    if a.len() == 0 {
        b.len() > 0
    } else if b.len() == 0 {
        false
    } else if a[0] != b[0] {
        a[0] < b[0]
    } else {
        lex_lt(a.drop_first(), b.drop_first())
    }
}

/// The order of names is a strict total order.
pub proof fn lemma_lex_order(a: Seq<char>, b: Seq<char>)
    ensures
        !lex_lt(a, a),
        a != b ==> (lex_lt(a, b) <==> !lex_lt(b, a)),
        a == b ==> !lex_lt(a, b),
    decreases a.len(),
{
    if a.len() > 0 {
        lemma_lex_order(a.drop_first(), a.drop_first());
        if b.len() > 0 {
            if a[0] == b[0] {
                lemma_lex_order(a.drop_first(), b.drop_first());
                if a != b {
                    assert(a == seq![a[0]] + a.drop_first());
                    assert(b == seq![b[0]] + b.drop_first());
                    assert(a.drop_first() != b.drop_first());
                }
            } else {
                assert(a != b);
            }
        } else {
            assert(a != b);
        }
    } else {
        if b.len() == 0 {
            assert(a =~= b);
        }
    }
}

/// The order of names is transitive.
pub proof fn lemma_lex_transitive(a: Seq<char>, b: Seq<char>, c: Seq<char>)
    requires
        lex_lt(a, b),
        lex_lt(b, c),
    ensures
        lex_lt(a, c),
    decreases a.len(),
{
    if a.len() > 0 && b.len() > 0 && c.len() > 0 {
        if a[0] == b[0] && b[0] == c[0] {
            lemma_lex_transitive(a.drop_first(), b.drop_first(), c.drop_first());
        }
    }
}

proof fn lemma_lex_common_prefix(a: Seq<char>, b: Seq<char>, i: int)
    requires
        0 <= i <= a.len(),
        i <= b.len(),
        a.take(i) == b.take(i),
    ensures
        lex_lt(a, b) == lex_lt(a.skip(i), b.skip(i)),
    decreases i,
{
    if i > 0 {
        assert(a[0] == a.take(i)[0]);
        assert(b[0] == b.take(i)[0]);
        assert(a.drop_first().take(i - 1) == a.take(i).drop_first());
        assert(b.drop_first().take(i - 1) == b.take(i).drop_first());
        lemma_lex_common_prefix(a.drop_first(), b.drop_first(), i - 1);
        assert(a.drop_first().skip(i - 1) == a.skip(i));
        assert(b.drop_first().skip(i - 1) == b.skip(i));
    } else {
        assert(a.skip(0) == a);
        assert(b.skip(0) == b);
    }
}

/// How two names compare.
#[derive(Clone, Copy, Debug, PartialEq, Eq, Structural)]
pub enum NameOrder {
    Less,
    Same,
    Greater,
}

/// Compares two names in the order of `String`'s `Ord`.
pub fn compare_names(a: &str, b: &str) -> (res: NameOrder)
    ensures
        res is Less <==> lex_lt(a@, b@),
        res is Same <==> a@ == b@,
        res is Greater <==> lex_lt(b@, a@),
{
    let x = chars_of(a);
    let y = chars_of(b);
    let mut i: usize = 0;
    while i < x.len() && i < y.len() && x[i] == y[i]
        invariant
            x@ == a@,
            y@ == b@,
            i <= x.len(),
            i <= y.len(),
            x@.take(i as int) == y@.take(i as int),
        decreases x.len() - i,
    {
        assert(x@.take(i + 1) == x@.take(i as int).push(x@[i as int]));
        assert(y@.take(i + 1) == y@.take(i as int).push(y@[i as int]));
        i += 1;
    }
    proof {
        lemma_lex_common_prefix(x@, y@, i as int);
        lemma_lex_common_prefix(y@, x@, i as int);
        lemma_lex_order(x@, y@);
    }
    if i == x.len() && i == y.len() {
        assert(x@ == x@.take(i as int));
        assert(y@ == y@.take(i as int));
        NameOrder::Same
    } else if i == x.len() {
        assert(x@ != y@);
        NameOrder::Less
    } else if i == y.len() {
        assert(x@ != y@);
        NameOrder::Greater
    } else if x[i] < y[i] {
        assert(x@ != y@ && x@[i as int] != y@[i as int]);
        NameOrder::Less
    } else {
        assert(x@ != y@ && x@[i as int] != y@[i as int]);
        NameOrder::Greater
    }
}

/// Whether name `a` comes before name `b`.
pub fn name_before(a: &str, b: &str) -> (res: bool)
    ensures
        res == lex_lt(a@, b@),
{
    match compare_names(a, b) {
        NameOrder::Less => true,
        _ => false,
    }
}

// ───────────────────────────── field maps ─────────────────────────────

/// The map that a list of entries denotes: a later entry for a name replaces
/// an earlier one.
pub open spec fn map_of(s: Seq<(String, String)>) -> Map<Seq<char>, Seq<char>>
    decreases s.len(),
{
    if s.len() == 0 {
        Map::empty()
    } else {
        map_of(s.drop_last()).insert(s.last().0@, s.last().1@)
    }
}

/// The entries' names strictly increase.
pub open spec fn names_increasing(s: Seq<(String, String)>) -> bool {
    forall|i: int, j: int| 0 <= i < j < s.len() ==> lex_lt(#[trigger] s[i].0@, #[trigger] s[j].0@)
}

proof fn lemma_names_increasing_prefix(s: Seq<(String, String)>)
    requires
        names_increasing(s),
        s.len() > 0,
    ensures
        names_increasing(s.drop_last()),
{
    let t = s.drop_last();
    assert forall|i: int, j: int| 0 <= i < j < t.len() implies lex_lt(
        #[trigger] t[i].0@,
        #[trigger] t[j].0@,
    ) by {
        assert(t[i] == s[i] && t[j] == s[j]);
    }
}

proof fn lemma_map_of_distinct(s: Seq<(String, String)>)
    requires
        names_increasing(s),
    ensures
        forall|k: Seq<char>| #[trigger]
            map_of(s).dom().contains(k) <==> exists|i: int| 0 <= i < s.len() && s[i].0@ == k,
        forall|i: int| 0 <= i < s.len() ==> map_of(s)[#[trigger] s[i].0@] == s[i].1@,
    decreases s.len(),
{
    if s.len() > 0 {
        let t = s.drop_last();
        let last = s[s.len() - 1];
        lemma_names_increasing_prefix(s);
        lemma_map_of_distinct(t);
        assert(map_of(s) == map_of(t).insert(last.0@, last.1@));
        assert forall|k: Seq<char>| #[trigger]
            map_of(s).dom().contains(k) <==> exists|i: int| 0 <= i < s.len() && s[i].0@ == k by {
            if map_of(s).dom().contains(k) {
                if k == last.0@ {
                    assert(s[s.len() - 1].0@ == k);
                } else {
                    assert(map_of(t).dom().contains(k));
                    let i = choose|i: int| 0 <= i < t.len() && t[i].0@ == k;
                    assert(s[i] == t[i]);
                }
            }
            if exists|i: int| 0 <= i < s.len() && s[i].0@ == k {
                let i = choose|i: int| 0 <= i < s.len() && s[i].0@ == k;
                if i < s.len() - 1 {
                    assert(t[i] == s[i]);
                    assert(map_of(t).dom().contains(k));
                }
            }
        }
        assert forall|i: int| 0 <= i < s.len() implies map_of(s)[#[trigger] s[i].0@] == s[i].1@ by {
            if i < s.len() - 1 {
                assert(t[i] == s[i]);
                assert(lex_lt(s[i].0@, s[s.len() - 1].0@));
                lemma_lex_order(s[i].0@, s[i].0@);
                assert(s[i].0@ != last.0@);
                assert(map_of(t)[t[i].0@] == t[i].1@);
            }
        }
    }
}

/// A map from field names to field values, its entries kept in the order of the names.
pub struct FieldMap {
    entries: Vec<(String, String)>,
}

impl View for FieldMap {
    type V = Map<Seq<char>, Seq<char>>;

    closed spec fn view(&self) -> Map<Seq<char>, Seq<char>> {
        map_of(self.entries@)
    }
}

impl FieldMap {
    /// The entries are kept in strictly increasing order of names (the type's invariant).
    #[verifier::type_invariant]
    pub closed spec fn is_ordered(self) -> bool {
        names_increasing(self.entries@)
    }

    /// The entries, as (name, value) pairs, in the order of the names.
    pub closed spec fn entry_list(self) -> Seq<(Seq<char>, Seq<char>)> {
        self.entries@.map_values(|e: (String, String)| (e.0@, e.1@))
    }

    /// The entry list lists each entry of the map once, in increasing order of names.
    pub proof fn lemma_entry_list(self)
        requires
            self.is_ordered(),
        ensures
            forall|i: int, j: int|
                0 <= i < j < self.entry_list().len() ==> lex_lt(
                    #[trigger] self.entry_list()[i].0,
                    #[trigger] self.entry_list()[j].0,
                ),
            forall|k: Seq<char>| #[trigger]
                self@.dom().contains(k) <==> exists|i: int|
                    0 <= i < self.entry_list().len() && self.entry_list()[i].0 == k,
            forall|i: int|
                0 <= i < self.entry_list().len() ==> self@[#[trigger] self.entry_list()[i].0]
                    == self.entry_list()[i].1,
            self@.dom().finite(),
            self@.dom().len() == self.entry_list().len(),
    {
        lemma_map_of_distinct(self.entries@);
        let s = self.entries@;
        assert forall|k: Seq<char>| #[trigger] self@.dom().contains(k) <==> exists|i: int|
            0 <= i < self.entry_list().len() && self.entry_list()[i].0 == k by {
            if self@.dom().contains(k) {
                let i = choose|i: int| 0 <= i < s.len() && s[i].0@ == k;
                assert(self.entry_list()[i].0 == k);
            }
        }
        lemma_map_of_size(s);
    }

    /// An empty field map.
    pub fn new() -> (res: FieldMap)
        ensures
            res@ == Map::<Seq<char>, Seq<char>>::empty(),
    {
        FieldMap { entries: Vec::new() }
    }

    /// Number of fields.
    pub fn len(&self) -> (res: usize)
        ensures
            res == self@.dom().len(),
    {
        proof {
            use_type_invariant(self);
            self.lemma_entry_list();
        }
        self.entries.len()
    }

    /// The value of field `key`.
    pub fn get(&self, key: &str) -> (res: Option<String>)
        ensures
            res matches Some(v) ==> self@.dom().contains(key@) && self@[key@] == v@,
            res is None ==> !self@.dom().contains(key@),
    {
        proof {
            use_type_invariant(self);
            lemma_map_of_distinct(self.entries@);
        }
        let mut i: usize = 0;
        while i < self.entries.len()
            invariant
                i <= self.entries@.len(),
                forall|j: int| 0 <= j < i ==> self.entries@[j].0@ != key@,
            decreases self.entries@.len() - i,
        {
            if crate::text::same_text(self.entries[i].0.as_str(), key) {
                proof {
                    use_type_invariant(self);
                    lemma_map_of_distinct(self.entries@);
                    assert(self.entries@[i as int].0@ == key@);
                }
                return Some(self.entries[i].1.clone());
            }
            i += 1;
        }
        proof {
            use_type_invariant(self);
            lemma_map_of_distinct(self.entries@);
        }
        None
    }

    /// Number of entries in the entry list.
    pub fn entry_count(&self) -> (res: usize)
        ensures
            res == self.entry_list().len(),
    {
        self.entries.len()
    }

    /// The (name, value) pair at position `i` of the entry list.
    pub fn entry(&self, i: usize) -> (res: (String, String))
        requires
            i < self.entry_list().len(),
        ensures
            res.0@ == self.entry_list()[i as int].0,
            res.1@ == self.entry_list()[i as int].1,
    {
        (self.entries[i].0.clone(), self.entries[i].1.clone())
    }

    /// Sets field `key` to `value`, replacing any value it had.
    pub fn insert(&mut self, key: String, value: String)
        ensures
            final(self)@ == old(self)@.insert(key@, value@),
    {
        proof {
            use_type_invariant(&*self);
        }
        let mut entries: Vec<(String, String)> = Vec::new();
        std::mem::swap(&mut entries, &mut self.entries);
        let ghost s = entries@;
        let mut i: usize = 0;
        while i < entries.len() && name_before(entries[i].0.as_str(), key.as_str())
            invariant
                entries@ == s,
                names_increasing(s),
                i <= s.len(),
                forall|j: int| 0 <= j < i ==> lex_lt(#[trigger] s[j].0@, key@),
            decreases s.len() - i,
        {
            i += 1;
        }
        let same = i < entries.len() && crate::text::same_text(entries[i].0.as_str(), key.as_str());
        let ghost k = key@;
        let ghost v = value@;
        if same {
            entries.set(i, (key, value));
        } else {
            entries.insert(i, (key, value));
        }
        proof {
            let n = entries@;
            lemma_map_of_distinct(s);
            // keys after position i are greater than `k`
            assert forall|j: int| i <= j < s.len() && s[j].0@ != k implies lex_lt(k, #[trigger] s[j].0@) by {
                lemma_lex_order(s[i as int].0@, k);
                if s[i as int].0@ == k {
                    assert(j > i);
                    assert(lex_lt(s[i as int].0@, s[j].0@));
                } else {
                    assert(lex_lt(k, s[i as int].0@));
                    if j > i {
                        assert(lex_lt(s[i as int].0@, s[j].0@));
                        lemma_lex_transitive(k, s[i as int].0@, s[j].0@);
                    }
                }
            }
            assert(names_increasing(n)) by {
                assert forall|a: int, b: int| 0 <= a < b < n.len() implies lex_lt(
                    #[trigger] n[a].0@,
                    #[trigger] n[b].0@,
                ) by {
                    if same {
                        if a == i {
                            assert(s[i as int].0@ == k);
                        }
                        if b == i {
                            assert(s[i as int].0@ == k);
                        }
                        assert(lex_lt(s[a].0@, s[b].0@));
                    } else {
                        if a < i && b < i {
                            assert(lex_lt(s[a].0@, s[b].0@));
                        } else if a < i && b == i {
                        } else if a < i && b > i {
                            assert(n[b] == s[b - 1]);
                            lemma_lex_transitive(s[a].0@, k, s[b - 1].0@);
                        } else if a == i {
                            assert(n[b] == s[b - 1]);
                        } else {
                            assert(n[a] == s[a - 1] && n[b] == s[b - 1]);
                            assert(lex_lt(s[a - 1].0@, s[b - 1].0@));
                        }
                    }
                }
            }
            lemma_map_of_distinct(n);
            let old_map = map_of(s);
            let new_map = map_of(n);
            assert forall|q: Seq<char>| new_map.dom().contains(q) <==> old_map.insert(k, v).dom().contains(q) by {
                if new_map.dom().contains(q) {
                    let j = choose|j: int| 0 <= j < n.len() && n[j].0@ == q;
                    if q != k {
                        if same || j < i {
                            assert(s[j] == n[j]);
                        } else {
                            assert(n[j] == s[j - 1]);
                        }
                    }
                }
                if old_map.dom().contains(q) && q != k {
                    let j = choose|j: int| 0 <= j < s.len() && s[j].0@ == q;
                    if same || j < i {
                        assert(n[j] == s[j]);
                    } else {
                        assert(n[j + 1] == s[j]);
                    }
                }
                if q == k {
                    assert(n[i as int].0@ == k);
                }
            }
            assert forall|q: Seq<char>| new_map.dom().contains(q) implies new_map[q] == old_map.insert(k, v)[q] by {
                let j = choose|j: int| 0 <= j < n.len() && n[j].0@ == q;
                if q == k {
                    if j != i {
                        lemma_lex_order(n[j].0@, n[i as int].0@);
                    }
                } else {
                    if same || j < i {
                        assert(s[j] == n[j]);
                    } else {
                        assert(n[j] == s[j - 1]);
                    }
                }
            }
            assert(new_map =~= old_map.insert(k, v));
        }
        self.entries = entries;
    }

    /// Builds a field map from (name, value) pairs, a later pair for a name
    /// replacing an earlier one.
    pub fn from_pairs(pairs: Vec<(String, String)>) -> (res: FieldMap)
        ensures
            res@ == map_of(pairs@),
    {
        let mut m = FieldMap::new();
        let mut i: usize = 0;
        while i < pairs.len()
            invariant
                i <= pairs@.len(),
                m@ == map_of(pairs@.take(i as int)),
            decreases pairs@.len() - i,
        {
            let (k, v) = (pairs[i].0.clone(), pairs[i].1.clone());
            m.insert(k, v);
            assert(pairs@.take(i + 1).drop_last() == pairs@.take(i as int));
            i += 1;
        }
        assert(pairs@.take(pairs@.len() as int) == pairs@);
        m
    }
}

proof fn lemma_map_of_size(s: Seq<(String, String)>)
    requires
        names_increasing(s),
    ensures
        map_of(s).dom().finite(),
        map_of(s).dom().len() == s.len(),
    decreases s.len(),
{
    if s.len() > 0 {
        let t = s.drop_last();
        assert(names_increasing(t)) by {
            assert forall|i: int, j: int| 0 <= i < j < t.len() implies lex_lt(
                #[trigger] t[i].0@,
                #[trigger] t[j].0@,
            ) by {
                assert(t[i] == s[i] && t[j] == s[j]);
            }
        }
        lemma_map_of_size(t);
        lemma_map_of_distinct(t);
        if map_of(t).dom().contains(s.last().0@) {
            let i = choose|i: int| 0 <= i < t.len() && t[i].0@ == s.last().0@;
            assert(t[i] == s[i]);
            assert(lex_lt(s[i].0@, s[s.len() - 1].0@));
            lemma_lex_order(s[i].0@, s[i].0@);
        }
    }
}

} // verus!

verus! {

impl Clone for FieldMap {
    fn clone(&self) -> (res: Self)
        ensures
            res@ == self@,
            res.entry_list() == self.entry_list(),
    {
        proof {
            use_type_invariant(self);
        }
        let mut entries: Vec<(String, String)> = Vec::new();
        let mut i: usize = 0;
        while i < self.entries.len()
            invariant
                i <= self.entries@.len(),
                entries@.len() == i,
                forall|j: int| 0 <= j < i ==> #[trigger] entries@[j] == self.entries@[j],
            decreases self.entries@.len() - i,
        {
            entries.push((self.entries[i].0.clone(), self.entries[i].1.clone()));
            i += 1;
        }
        assert(entries@ =~= self.entries@);
        FieldMap { entries }
    }
}

// ───────────────────────────── data model ─────────────────────────────

/// A template definition (`meta.json` of a template folder). `global_fields`
/// are shared by all pages of a project, `local_fields` are set per page; both
/// map a field name to a human-readable description.
pub struct Template {
    /// The `$schema` URI of the template file.
    pub schema: Option<String>,
    pub global_fields: FieldMap,
    pub local_fields: FieldMap,
}

/// Page size and orientation handed to the Typst layout.
pub struct PageLayout {
    /// Paper size recognized by Typst (such as `a4` or `letter`).
    pub size: String,
    /// `true` for landscape, `false` for portrait.
    pub orientation: bool,
}

/// One page of a project: the layout variant, the page layout, the per-page
/// field values, the source file and extra arguments for `kicad-cli`.
pub struct PageConfig {
    pub variant: Option<String>,
    pub layout: PageLayout,
    pub local_fields: FieldMap,
    pub path: String,
    pub extra_args: Option<Vec<String>>,
}

/// A project: field values shared by all pages, and the pages in order.
pub struct ProjectConfig {
    pub global_fields: FieldMap,
    pub pages: Vec<PageConfig>,
}

/// An electronic part as stored in the parts library.
pub struct ElectronicPart {
    pub name: String,
    pub reference: String,
    pub value: String,
    pub description: String,
    pub link: Option<String>,
}

/// The texts of an optional list of strings.
pub open spec fn opt_strings_view(v: Option<Vec<String>>) -> Option<Seq<Seq<char>>> {
    match v {
        Some(a) => Some(a@.map_values(|s: String| s@)),
        None => None,
    }
}

/// A copy of a list of strings.
pub fn clone_strings(a: &Vec<String>) -> (res: Vec<String>)
    ensures
        res@ == a@,
{
    let mut res: Vec<String> = Vec::new();
    let mut i: usize = 0;
    while i < a.len()
        invariant
            i <= a@.len(),
            res@ == a@.take(i as int),
        decreases a@.len() - i,
    {
        res.push(a[i].clone());
        assert(a@.take(i + 1) == a@.take(i as int).push(a@[i as int]));
        i += 1;
    }
    assert(a@.take(a@.len() as int) == a@);
    res
}

impl Clone for PageLayout {
    fn clone(&self) -> (res: Self)
        ensures
            res.size@ == self.size@,
            res.orientation == self.orientation,
    {
        PageLayout { size: self.size.clone(), orientation: self.orientation }
    }
}

impl Clone for PageConfig {
    fn clone(&self) -> (res: Self)
        ensures
            res.variant == self.variant,
            res.layout.size@ == self.layout.size@,
            res.layout.orientation == self.layout.orientation,
            res.local_fields@ == self.local_fields@,
            res.path@ == self.path@,
            opt_strings_view(res.extra_args) == opt_strings_view(self.extra_args),
    {
        let variant = match &self.variant {
            Some(v) => Some(v.clone()),
            None => None,
        };
        let extra_args = match &self.extra_args {
            Some(a) => Some(clone_strings(a)),
            None => None,
        };
        PageConfig {
            variant,
            layout: self.layout.clone(),
            local_fields: self.local_fields.clone(),
            path: self.path.clone(),
            extra_args,
        }
    }
}

} // verus!
