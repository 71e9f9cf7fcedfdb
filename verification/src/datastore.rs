//! The unit of state passed through a migration: maps from setting names to
//! values and from setting names to per-setting metadata, modeled as
//! `Map<Seq<char>, _>` views over association lists with unique keys.

use vstd::prelude::*;
use crate::strings::str_eq;
use crate::value::{Value, ValueView, values_view};

verus! {

/// The map modeled by an association list: later entries win, though a
/// well-formed list never repeats a key.
pub open spec fn assoc_map<V: View>(s: Seq<(String, V)>) -> Map<Seq<char>, V::V>
    decreases s.len(),
{
    if s.len() == 0 {
        Map::empty()
    } else {
        assoc_map(s.drop_last()).insert(s.last().0@, s.last().1@)
    }
}

/// No two entries share a key.
pub open spec fn keys_unique<V>(s: Seq<(String, V)>) -> bool {
    forall|i: int, j: int| 0 <= i < j < s.len() ==> s[i].0@ != s[j].0@
}

/// A key is in the modeled map exactly when some entry carries it.
proof fn lemma_assoc_map_contains<V: View>(s: Seq<(String, V)>, k: Seq<char>)
    ensures
        assoc_map(s).contains_key(k) <==> exists|i: int| 0 <= i < s.len() && s[i].0@ == k,
    decreases s.len(),
{
    if s.len() > 0 {
        lemma_assoc_map_contains(s.drop_last(), k);
        if s.last().0@ == k {
            assert(s[s.len() - 1].0@ == k);
        } else {
            if assoc_map(s).contains_key(k) {
                let i = choose|i: int| 0 <= i < s.drop_last().len() && s.drop_last()[i].0@ == k;
                assert(s[i].0@ == k);
            }
            if exists|i: int| 0 <= i < s.len() && s[i].0@ == k {
                let i = choose|i: int| 0 <= i < s.len() && s[i].0@ == k;
                assert(s.drop_last()[i].0@ == k);
            }
        }
    }
}

/// With unique keys, the entry at index `i` gives the map's value at its key.
proof fn lemma_assoc_map_get<V: View>(s: Seq<(String, V)>, i: int)
    requires
        keys_unique(s),
        0 <= i < s.len(),
    ensures
        assoc_map(s).contains_key(s[i].0@),
        assoc_map(s)[s[i].0@] == s[i].1@,
    decreases s.len(),
{
    if i < s.len() - 1 {
        lemma_assoc_map_get(s.drop_last(), i);
        assert(s.drop_last()[i] == s[i]);
    }
}

/// Appending an entry inserts its key/value pair into the modeled map.
proof fn lemma_assoc_map_push<V: View>(s: Seq<(String, V)>, key: String, value: V)
    ensures
        assoc_map(s.push((key, value))) == assoc_map(s).insert(key@, value@),
{
    assert(s.push((key, value)).drop_last() =~= s);
}

/// Dropping the entry at index `i` removes its key from the modeled map.
proof fn lemma_assoc_map_remove<V: View>(s: Seq<(String, V)>, i: int)
    requires
        keys_unique(s),
        0 <= i < s.len(),
    ensures
        assoc_map(s.remove(i)) == assoc_map(s).remove(s[i].0@),
        keys_unique(s.remove(i)),
    decreases s.len(),
{
    let k = s[i].0@;
    if i == s.len() - 1 {
        assert(s.remove(i) =~= s.drop_last());
        lemma_assoc_map_contains(s.drop_last(), k);
        assert(assoc_map(s.drop_last()) =~= assoc_map(s.drop_last()).insert(k, s[i].1@).remove(
            k,
        ));
    } else {
        lemma_assoc_map_remove(s.drop_last(), i);
        assert(s.remove(i).drop_last() =~= s.drop_last().remove(i));
        assert(s.remove(i).last() == s.last());
        assert(assoc_map(s.remove(i)) == assoc_map(s.drop_last().remove(i)).insert(
            s.last().0@,
            s.last().1@,
        ));
        assert(assoc_map(s).remove(k) =~= assoc_map(s.drop_last()).remove(k).insert(
            s.last().0@,
            s.last().1@,
        ));
    }
}

/// A mapping from setting names to values: the `data` half of a migration's
/// state, and also the metadata entries attached to one setting.
#[derive(Debug)]
pub struct ValueMap {
    entries: Vec<(String, Value)>,
}

impl View for ValueMap {
    type V = Map<Seq<char>, ValueView>;

    closed spec fn view(&self) -> Map<Seq<char>, ValueView> {
        assoc_map(self.entries@)
    }
}

impl ValueMap {
    /// Each setting name appears at most once.
    pub closed spec fn wf(&self) -> bool {
        keys_unique(self.entries@)
    }

    /// The empty map.
    pub fn new() -> (r: ValueMap)
        ensures
            r@ == Map::<Seq<char>, ValueView>::empty(),
            r.wf(),
    {
        ValueMap { entries: Vec::new() }
    }

    /// The index of the entry carrying `key`, if any.
    #[verifier::loop_isolation(false)]
    fn index_of(&self, key: &str) -> (r: Option<usize>)
        ensures
            match r {
                Some(i) => i < self.entries@.len() && self.entries@[i as int].0@ == key@,
                None => forall|j: int|
                    0 <= j < self.entries@.len() ==> self.entries@[j].0@ != key@,
            },
    {
        let mut i: usize = 0;
        while i < self.entries.len()
            invariant
                i <= self.entries@.len(),
                forall|j: int| 0 <= j < i ==> self.entries@[j].0@ != key@,
            decreases self.entries@.len() - i,
        {
            if str_eq(self.entries[i].0.as_str(), key) {
                return Some(i);
            }
            i = i + 1;
        }
        None
    }

    /// Whether `key` is present.
    pub fn contains_key(&self, key: &str) -> (r: bool)
        ensures
            r == self@.contains_key(key@),
    {
        proof {
            lemma_assoc_map_contains(self.entries@, key@);
        }
        self.index_of(key).is_some()
    }

    /// The value stored for `key`, if any.
    pub fn get(&self, key: &str) -> (r: Option<&Value>)
        requires
            self.wf(),
        ensures
            match r {
                Some(v) => self@.contains_key(key@) && v@ == self@[key@],
                None => !self@.contains_key(key@),
            },
    {
        proof {
            lemma_assoc_map_contains(self.entries@, key@);
        }
        match self.index_of(key) {
            Some(i) => {
                proof {
                    lemma_assoc_map_get(self.entries@, i as int);
                }
                Some(&self.entries[i].1)
            },
            None => None,
        }
    }

    /// Store `value` under `key`, replacing any previous value.
    pub fn insert(&mut self, key: String, value: Value)
        requires
            old(self).wf(),
        ensures
            final(self).wf(),
            final(self)@ == old(self)@.insert(key@, value@),
    {
        match self.index_of(key.as_str()) {
            Some(i) => {
                proof {
                    lemma_assoc_map_remove(self.entries@, i as int);
                }
                self.entries.remove(i);
            },
            None => {},
        }
        proof {
            lemma_assoc_map_push(self.entries@, key, value);
            lemma_assoc_map_contains(self.entries@, key@);
        }
        let ghost pre = self.entries@;
        self.entries.push((key, value));
        proof {
            assert(final(self)@ =~= old(self)@.insert(key@, value@));
            assert forall|x: int, y: int|
                0 <= x < y < self.entries@.len() implies self.entries@[x].0@
                != self.entries@[y].0@ by {
                if y == self.entries@.len() - 1 {
                    assert(pre[x].0@ != key@);
                }
            }
        }
    }

    /// Remove `key`, returning the value it held, if any.
    pub fn remove(&mut self, key: &str) -> (r: Option<Value>)
        requires
            old(self).wf(),
        ensures
            final(self).wf(),
            final(self)@ == old(self)@.remove(key@),
            r is Some <==> old(self)@.contains_key(key@),
            r is Some ==> r->0@ == old(self)@[key@],
    {
        proof {
            lemma_assoc_map_contains(self.entries@, key@);
        }
        match self.index_of(key) {
            Some(i) => {
                proof {
                    lemma_assoc_map_get(self.entries@, i as int);
                    lemma_assoc_map_remove(self.entries@, i as int);
                }
                let e = self.entries.remove(i);
                Some(e.1)
            },
            None => {
                proof {
                    assert(self@ =~= old(self)@.remove(key@));
                }
                None
            },
        }
    }

    /// The keys currently present, each exactly once, in unspecified order.
    #[verifier::loop_isolation(false)]
    pub fn keys(&self) -> (r: Vec<String>)
        requires
            self.wf(),
        ensures
            forall|i: int| 0 <= i < r@.len() ==> self@.contains_key(#[trigger] r@[i]@),
            forall|k: Seq<char>|
                self@.contains_key(k) ==> exists|i: int| 0 <= i < r@.len() && r@[i]@ == k,
            forall|i: int, j: int| 0 <= i < j < r@.len() ==> r@[i]@ != r@[j]@,
    {
        let mut out: Vec<String> = Vec::new();
        let mut i: usize = 0;
        while i < self.entries.len()
            invariant
                i <= self.entries@.len(),
                out@.len() == i,
                forall|j: int| 0 <= j < i ==> out@[j] == self.entries@[j].0,
            decreases self.entries@.len() - i,
        {
            out.push(self.entries[i].0.clone());
            i = i + 1;
        }
        proof {
            assert forall|x: int| 0 <= x < out@.len() implies self@.contains_key(
                #[trigger] out@[x]@,
            ) by {
                lemma_assoc_map_get(self.entries@, x);
            }
            assert forall|k: Seq<char>| self@.contains_key(k) implies exists|x: int|
                0 <= x < out@.len() && out@[x]@ == k by {
                lemma_assoc_map_contains(self.entries@, k);
                let x = choose|x: int| 0 <= x < self.entries@.len() && self.entries@[x].0@ == k;
                assert(out@[x]@ == k);
            }
        }
        out
    }

    /// The two maps hold exactly the same keys and equal values.
    #[verifier::loop_isolation(false)]
    pub fn deep_eq(&self, other: &ValueMap) -> (r: bool)
        requires
            self.wf(),
            other.wf(),
        ensures
            r == (self@ == other@),
    {
        let ks = self.keys();
        let mut i: usize = 0;
        while i < ks.len()
            invariant
                i <= ks@.len(),
                forall|j: int|
                    0 <= j < i ==> other@.contains_key(#[trigger] ks@[j]@) && other@[ks@[j]@]
                        == self@[ks@[j]@],
            decreases ks@.len() - i,
        {
            let v2 = match other.get(ks[i].as_str()) {
                Some(v2) => v2,
                None => {
                    return false;
                },
            };
            let v1 = match self.get(ks[i].as_str()) {
                Some(v1) => v1,
                None => {
                    proof {
                        assert(false);
                    }
                    return false;
                },
            };
            if !v1.deep_eq(v2) {
                return false;
            }
            i = i + 1;
        }
        let ks2 = other.keys();
        let mut j: usize = 0;
        while j < ks2.len()
            invariant
                j <= ks2@.len(),
                forall|x: int| 0 <= x < j ==> self@.contains_key(#[trigger] ks2@[x]@),
            decreases ks2@.len() - j,
        {
            if !self.contains_key(ks2[j].as_str()) {
                return false;
            }
            j = j + 1;
        }
        proof {
            assert forall|k: Seq<char>| other@.contains_key(k) implies self@.contains_key(k) by {
                let x = choose|x: int| 0 <= x < ks2@.len() && ks2@[x]@ == k;
            }
            assert forall|k: Seq<char>| self@.contains_key(k) implies other@.contains_key(k)
                && other@[k] == self@[k] by {
                let x = choose|x: int| 0 <= x < ks@.len() && ks@[x]@ == k;
            }
            assert(self@ =~= other@);
        }
        true
    }
}

/// The metadata half of a migration's state: for each setting name, a map from
/// metadata keys to values.
#[derive(Debug)]
pub struct MetadataMap {
    entries: Vec<(String, ValueMap)>,
}

impl View for MetadataMap {
    type V = Map<Seq<char>, Map<Seq<char>, ValueView>>;

    closed spec fn view(&self) -> Map<Seq<char>, Map<Seq<char>, ValueView>> {
        assoc_map(self.entries@)
    }
}

impl MetadataMap {
    /// Each setting name appears at most once, and each inner map is well formed.
    pub closed spec fn wf(&self) -> bool {
        keys_unique(self.entries@) && forall|i: int|
            0 <= i < self.entries@.len() ==> (#[trigger] self.entries@[i].1).wf()
    }

    /// The empty map.
    pub fn new() -> (r: MetadataMap)
        ensures
            r@ == Map::<Seq<char>, Map<Seq<char>, ValueView>>::empty(),
            r.wf(),
    {
        MetadataMap { entries: Vec::new() }
    }

    /// The index of the entry carrying `key`, if any.
    #[verifier::loop_isolation(false)]
    fn index_of(&self, key: &str) -> (r: Option<usize>)
        ensures
            match r {
                Some(i) => i < self.entries@.len() && self.entries@[i as int].0@ == key@,
                None => forall|j: int|
                    0 <= j < self.entries@.len() ==> self.entries@[j].0@ != key@,
            },
    {
        let mut i: usize = 0;
        while i < self.entries.len()
            invariant
                i <= self.entries@.len(),
                forall|j: int| 0 <= j < i ==> self.entries@[j].0@ != key@,
            decreases self.entries@.len() - i,
        {
            if str_eq(self.entries[i].0.as_str(), key) {
                return Some(i);
            }
            i = i + 1;
        }
        None
    }

    /// Whether metadata is recorded for the setting `key`.
    pub fn contains_key(&self, key: &str) -> (r: bool)
        ensures
            r == self@.contains_key(key@),
    {
        proof {
            lemma_assoc_map_contains(self.entries@, key@);
        }
        self.index_of(key).is_some()
    }

    /// The metadata map for the setting `key`, if any.
    pub fn get(&self, key: &str) -> (r: Option<&ValueMap>)
        requires
            self.wf(),
        ensures
            match r {
                Some(v) => self@.contains_key(key@) && v@ == self@[key@] && v.wf(),
                None => !self@.contains_key(key@),
            },
    {
        proof {
            lemma_assoc_map_contains(self.entries@, key@);
        }
        match self.index_of(key) {
            Some(i) => {
                proof {
                    lemma_assoc_map_get(self.entries@, i as int);
                }
                Some(&self.entries[i].1)
            },
            None => None,
        }
    }

    /// Store `value` under `key`, replacing any previous entry.
    pub fn insert(&mut self, key: String, value: ValueMap)
        requires
            old(self).wf(),
            value.wf(),
        ensures
            final(self).wf(),
            final(self)@ == old(self)@.insert(key@, value@),
    {
        match self.index_of(key.as_str()) {
            Some(i) => {
                proof {
                    lemma_assoc_map_remove(self.entries@, i as int);
                }
                self.entries.remove(i);
            },
            None => {},
        }
        proof {
            lemma_assoc_map_push(self.entries@, key, value);
        }
        let ghost pre = self.entries@;
        self.entries.push((key, value));
        proof {
            assert(final(self)@ =~= old(self)@.insert(key@, value@));
            assert forall|x: int, y: int|
                0 <= x < y < self.entries@.len() implies self.entries@[x].0@
                != self.entries@[y].0@ by {
                if y == self.entries@.len() - 1 {
                    assert(pre[x].0@ != key@);
                }
            }
        }
    }

    /// Remove the setting `key` and hand its metadata map out, if any.
    pub fn remove(&mut self, key: &str) -> (r: Option<ValueMap>)
        requires
            old(self).wf(),
        ensures
            final(self).wf(),
            final(self)@ == old(self)@.remove(key@),
            r is Some <==> old(self)@.contains_key(key@),
            r is Some ==> r->0@ == old(self)@[key@] && r->0.wf(),
    {
        proof {
            lemma_assoc_map_contains(self.entries@, key@);
        }
        match self.index_of(key) {
            Some(i) => {
                proof {
                    lemma_assoc_map_get(self.entries@, i as int);
                    lemma_assoc_map_remove(self.entries@, i as int);
                }
                let e = self.entries.remove(i);
                Some(e.1)
            },
            None => {
                proof {
                    assert(self@ =~= old(self)@.remove(key@));
                }
                None
            },
        }
    }

    /// The setting names currently present, each exactly once, in unspecified
    /// order.
    #[verifier::loop_isolation(false)]
    pub fn keys(&self) -> (r: Vec<String>)
        requires
            self.wf(),
        ensures
            forall|i: int| 0 <= i < r@.len() ==> self@.contains_key(#[trigger] r@[i]@),
            forall|k: Seq<char>|
                self@.contains_key(k) ==> exists|i: int| 0 <= i < r@.len() && r@[i]@ == k,
            forall|i: int, j: int| 0 <= i < j < r@.len() ==> r@[i]@ != r@[j]@,
    {
        let mut out: Vec<String> = Vec::new();
        let mut i: usize = 0;
        while i < self.entries.len()
            invariant
                i <= self.entries@.len(),
                out@.len() == i,
                forall|j: int| 0 <= j < i ==> out@[j] == self.entries@[j].0,
            decreases self.entries@.len() - i,
        {
            out.push(self.entries[i].0.clone());
            i = i + 1;
        }
        proof {
            assert forall|x: int| 0 <= x < out@.len() implies self@.contains_key(
                #[trigger] out@[x]@,
            ) by {
                lemma_assoc_map_get(self.entries@, x);
            }
            assert forall|k: Seq<char>| self@.contains_key(k) implies exists|x: int|
                0 <= x < out@.len() && out@[x]@ == k by {
                lemma_assoc_map_contains(self.entries@, k);
                let x = choose|x: int| 0 <= x < self.entries@.len() && self.entries@[x].0@ == k;
                assert(out@[x]@ == k);
            }
        }
        out
    }

    /// The two maps hold exactly the same settings with equal metadata.
    #[verifier::loop_isolation(false)]
    pub fn deep_eq(&self, other: &MetadataMap) -> (r: bool)
        requires
            self.wf(),
            other.wf(),
        ensures
            r == (self@ == other@),
    {
        let ks = self.keys();
        let mut i: usize = 0;
        while i < ks.len()
            invariant
                i <= ks@.len(),
                forall|j: int|
                    0 <= j < i ==> other@.contains_key(#[trigger] ks@[j]@) && other@[ks@[j]@]
                        == self@[ks@[j]@],
            decreases ks@.len() - i,
        {
            let v2 = match other.get(ks[i].as_str()) {
                Some(v2) => v2,
                None => {
                    return false;
                },
            };
            let v1 = match self.get(ks[i].as_str()) {
                Some(v1) => v1,
                None => {
                    proof {
                        assert(false);
                    }
                    return false;
                },
            };
            if !v1.deep_eq(v2) {
                return false;
            }
            i = i + 1;
        }
        let ks2 = other.keys();
        let mut j: usize = 0;
        while j < ks2.len()
            invariant
                j <= ks2@.len(),
                forall|x: int| 0 <= x < j ==> self@.contains_key(#[trigger] ks2@[x]@),
            decreases ks2@.len() - j,
        {
            if !self.contains_key(ks2[j].as_str()) {
                return false;
            }
            j = j + 1;
        }
        proof {
            assert forall|k: Seq<char>| other@.contains_key(k) implies self@.contains_key(k) by {
                let x = choose|x: int| 0 <= x < ks2@.len() && ks2@[x]@ == k;
            }
            assert forall|k: Seq<char>| self@.contains_key(k) implies other@.contains_key(k)
                && other@[k] == self@[k] by {
                let x = choose|x: int| 0 <= x < ks@.len() && ks@[x]@ == k;
            }
            assert(self@ =~= other@);
        }
        true
    }
}

/// Mathematical model of a [`MigrationData`] snapshot.
pub struct MigrationDataView {
    pub data: Map<Seq<char>, ValueView>,
    pub metadata: Map<Seq<char>, Map<Seq<char>, ValueView>>,
}

/// The state handed to a migration and handed back on success: the setting
/// values and the per-setting metadata of one datastore snapshot.  A name may
/// appear in either map without appearing in the other; no referential
/// integrity is enforced between the two.
#[derive(Debug)]
pub struct MigrationData {
    pub data: ValueMap,
    pub metadata: MetadataMap,
}

impl View for MigrationData {
    type V = MigrationDataView;

    open spec fn view(&self) -> MigrationDataView {
        MigrationDataView { data: self.data@, metadata: self.metadata@ }
    }
}

impl MigrationData {
    /// Both halves have unique keys.
    pub open spec fn wf(&self) -> bool {
        self.data.wf() && self.metadata.wf()
    }

    /// An empty snapshot.
    pub fn new() -> (r: MigrationData)
        ensures
            r.wf(),
            r@.data == Map::<Seq<char>, ValueView>::empty(),
            r@.metadata == Map::<Seq<char>, Map<Seq<char>, ValueView>>::empty(),
    {
        MigrationData { data: ValueMap::new(), metadata: MetadataMap::new() }
    }

    /// The two snapshots model the same data and metadata.
    pub fn deep_eq(&self, other: &MigrationData) -> (r: bool)
        requires
            self.wf(),
            other.wf(),
        ensures
            r == (self@ == other@),
    {
        let r = self.data.deep_eq(&other.data) && self.metadata.deep_eq(&other.metadata);
        proof {
            if self@.data == other@.data && self@.metadata == other@.metadata {
                assert(self@ =~= other@);
            }
        }
        r
    }
}

/// The fatal outcomes of a migration run.  A targeted array holding an element
/// that is not a string cannot be compared against the expected string lists,
/// so the whole step fails rather than risk corrupting foreign data.
#[derive(Debug)]
#[allow(inconsistent_fields)]
pub enum MigrationError {
    /// A setting's array value held a non-string element; carries the setting
    /// name and the raw array.
    ReplaceListContents { setting: String, data: Vec<Value> },
    /// A metadata array value held a non-string element; carries the setting
    /// name, the metadata key and the raw array.
    ReplaceMetadataListContents { setting: String, metadata: String, data: Vec<Value> },
    /// A setting held a value of a category the migration cannot interpret at
    /// all; carries the setting name.
    InvalidSettingType { data: String },
}

/// Mathematical model of a [`MigrationError`].
#[allow(inconsistent_fields)]
pub enum MigrationErrorView {
    ReplaceListContents { setting: Seq<char>, data: Seq<ValueView> },
    ReplaceMetadataListContents { setting: Seq<char>, metadata: Seq<char>, data: Seq<ValueView> },
    InvalidSettingType { data: Seq<char> },
}

impl View for MigrationError {
    type V = MigrationErrorView;

    open spec fn view(&self) -> MigrationErrorView {
        match self {
            MigrationError::ReplaceListContents { setting, data } => {
                MigrationErrorView::ReplaceListContents {
                    setting: setting@,
                    data: values_view(data@),
                }
            },
            MigrationError::ReplaceMetadataListContents { setting, metadata, data } => {
                MigrationErrorView::ReplaceMetadataListContents {
                    setting: setting@,
                    metadata: metadata@,
                    data: values_view(data@),
                }
            },
            MigrationError::InvalidSettingType { data } => {
                MigrationErrorView::InvalidSettingType { data: data@ }
            },
        }
    }
}

} // verus!
