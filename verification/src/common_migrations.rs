//! The catalog of reusable migration operators.  Each operator carries its
//! static parameters and offers `forward` (upgrade) and `backward` (downgrade)
//! transformations of a [`MigrationData`] snapshot.
//!
//! Shared edge-case policy: absence of a targeted key is never an error, and a
//! targeted key holding a value of an unexpected category is left untouched.
//! The one fatal failure is an array that was expected to contain only strings
//! but holds a non-string element (see [`MigrationError`]).

use vstd::prelude::*;
use crate::strings::{is_prefix_of, is_suffix_of, str_eq, str_starts_with, str_ends_with};
use crate::value::{Value, ValueView, values_view, lemma_values_view};
use crate::datastore::{MigrationData, MigrationDataView, MigrationError, MigrationErrorView,
    ValueMap, MetadataMap};

verus! {

/// The views of a sequence of string slices.
pub open spec fn strs_view(s: Seq<&str>) -> Seq<Seq<char>> {
    s.map_values(|x: &str| x@)
}

/// A key is in `s.take(n)` exactly when one of the first `n` elements is it.
proof fn lemma_take_contains<A>(s: Seq<A>, n: int, k: A)
    requires
        0 <= n <= s.len(),
    ensures
        s.take(n).contains(k) <==> exists|j: int| 0 <= j < n && s[j] == k,
{
    if s.take(n).contains(k) {
        let j = choose|j: int| 0 <= j < s.take(n).len() && s.take(n)[j] == k;
        assert(s[j] == k);
    }
    if exists|j: int| 0 <= j < n && s[j] == k {
        let j = choose|j: int| 0 <= j < n && s[j] == k;
        assert(s.take(n)[j] == k);
    }
}

/// The map `m` with every key in `names` removed.
pub open spec fn map_without_keys(
    m: Map<Seq<char>, ValueView>,
    names: Seq<Seq<char>>,
) -> Map<Seq<char>, ValueView> {
    m.remove_keys(names.to_set())
}

/// The snapshot `d` with every setting named in `names` removed from `data`;
/// metadata is untouched.
pub open spec fn spec_remove_settings(
    d: MigrationDataView,
    names: Seq<Seq<char>>,
) -> MigrationDataView {
    MigrationDataView { data: map_without_keys(d.data, names), metadata: d.metadata }
}

/// Remove every key named in `names` from `map`.
#[verifier::loop_isolation(false)]
pub(crate) fn remove_keys_from_map(map: ValueMap, names: &[&str]) -> (r: ValueMap)
    requires
        map.wf(),
    ensures
        r.wf(),
        r@ == map_without_keys(map@, strs_view(names@)),
{
    let ghost orig = map@;
    let ghost kseq = strs_view(names@);
    let mut map = map;
    let mut i: usize = 0;
    while i < names.len()
        invariant
            i <= names@.len(),
            map.wf(),
            map@ == orig.remove_keys(kseq.take(i as int).to_set()),
        decreases names@.len() - i,
    {
        map.remove(names[i]);
        proof {
            assert forall|k: Seq<char>|
                kseq.take(i + 1).contains(k) == (kseq.take(i as int).contains(k) || k == kseq[
                    i as int
                ]) by {
                lemma_take_contains(kseq, i as int, k);
                lemma_take_contains(kseq, i + 1, k);
            }
            assert(map@ =~= orig.remove_keys(kseq.take(i + 1).to_set()));
        }
        i = i + 1;
    }
    proof {
        assert(kseq.take(names@.len() as int) =~= kseq);
    }
    map
}

/// We use this migration when we add settings and want to make sure they're
/// removed before we go back to old versions that don't understand them.
pub struct AddSettingsMigration<'a>(pub &'a [&'static str]);

impl<'a> AddSettingsMigration<'a> {
    /// New versions must either have a default for the settings or generate
    /// them, so there is no work to do on upgrade.
    pub fn forward(&mut self, input: MigrationData) -> (r: Result<MigrationData, MigrationError>)
        requires
            input.wf(),
        ensures
            r == Result::<MigrationData, MigrationError>::Ok(input),
    {
        Ok(input)
    }

    /// Older versions don't know about the settings; remove them so that old
    /// versions don't see them and fail deserialization.
    pub fn backward(&mut self, input: MigrationData) -> (r: Result<MigrationData, MigrationError>)
        requires
            input.wf(),
        ensures
            r is Ok,
            r->Ok_0.wf(),
            r->Ok_0@ == spec_remove_settings(input@, strs_view(old(self).0@)),
    {
        let MigrationData { data, metadata } = input;
        let data = remove_keys_from_map(data, self.0);
        Ok(MigrationData { data, metadata })
    }
}

/// We use this migration when we remove settings from the model, so the new
/// version doesn't see them and error.
pub struct RemoveSettingsMigration<'a>(pub &'a [&'static str]);

impl<'a> RemoveSettingsMigration<'a> {
    /// Newer versions don't know about the settings; remove them so that new
    /// versions don't see them and fail deserialization.
    pub fn forward(&mut self, input: MigrationData) -> (r: Result<MigrationData, MigrationError>)
        requires
            input.wf(),
        ensures
            r is Ok,
            r->Ok_0.wf(),
            r->Ok_0@ == spec_remove_settings(input@, strs_view(old(self).0@)),
    {
        let MigrationData { data, metadata } = input;
        let data = remove_keys_from_map(data, self.0);
        Ok(MigrationData { data, metadata })
    }

    /// Old versions must either have a default for the settings or generate
    /// them, so there is no work to do on downgrade.
    pub fn backward(&mut self, input: MigrationData) -> (r: Result<MigrationData, MigrationError>)
        requires
            input.wf(),
        ensures
            r == Result::<MigrationData, MigrationError>::Ok(input),
    {
        Ok(input)
    }
}

/// `k` starts with one of the given prefixes.
pub open spec fn matches_any_prefix(k: Seq<char>, prefixes: Seq<Seq<char>>) -> bool {
    exists|i: int| 0 <= i < prefixes.len() && is_prefix_of(#[trigger] prefixes[i], k)
}

/// The snapshot `d` with every setting whose name starts with one of
/// `prefixes` removed from `data`; metadata is untouched.
pub open spec fn spec_remove_prefixed(
    d: MigrationDataView,
    prefixes: Seq<Seq<char>>,
) -> MigrationDataView {
    MigrationDataView {
        data: d.data.filter_keys(|k: Seq<char>| !matches_any_prefix(k, prefixes)),
        metadata: d.metadata,
    }
}

/// Whether `k` starts with any of `prefixes`.
#[verifier::loop_isolation(false)]
fn str_matches_any_prefix(k: &str, prefixes: &[&str]) -> (r: bool)
    ensures
        r == matches_any_prefix(k@, strs_view(prefixes@)),
{
    let mut i: usize = 0;
    while i < prefixes.len()
        invariant
            i <= prefixes@.len(),
            forall|j: int| 0 <= j < i ==> !is_prefix_of(#[trigger] strs_view(prefixes@)[j], k@),
        decreases prefixes@.len() - i,
    {
        if str_starts_with(k, prefixes[i]) {
            proof {
                assert(is_prefix_of(strs_view(prefixes@)[i as int], k@));
            }
            return true;
        }
        i = i + 1;
    }
    false
}

/// Remove from `map` every key that starts with one of `prefixes`.
#[verifier::loop_isolation(false)]
pub(crate) fn remove_prefixed_from_map(map: ValueMap, prefixes: &[&str]) -> (r: ValueMap)
    requires
        map.wf(),
    ensures
        r.wf(),
        r@ == map@.filter_keys(|k: Seq<char>| !matches_any_prefix(k, strs_view(prefixes@))),
{
    let ghost orig = map@;
    let ghost ps = strs_view(prefixes@);
    let keys = map.keys();
    let ghost kseq = keys@.map_values(|s: String| s@);
    let mut map = map;
    let mut i: usize = 0;
    while i < keys.len()
        invariant
            i <= keys@.len(),
            map.wf(),
            map@ == orig.filter_keys(
                |k: Seq<char>| !(kseq.take(i as int).contains(k) && matches_any_prefix(k, ps)),
            ),
        decreases keys@.len() - i,
    {
        if str_matches_any_prefix(keys[i].as_str(), prefixes) {
            map.remove(keys[i].as_str());
        }
        proof {
            assert forall|k: Seq<char>|
                kseq.take(i + 1).contains(k) == (kseq.take(i as int).contains(k) || k == kseq[
                    i as int
                ]) by {
                lemma_take_contains(kseq, i as int, k);
                lemma_take_contains(kseq, i + 1, k);
            }
            assert(map@ =~= orig.filter_keys(
                |k: Seq<char>| !(kseq.take(i + 1).contains(k) && matches_any_prefix(k, ps)),
            ));
        }
        i = i + 1;
    }
    proof {
        assert forall|k: Seq<char>| orig.contains_key(k) && matches_any_prefix(k, ps)
            implies kseq.take(keys@.len() as int).contains(k) by {
            let j = choose|j: int| 0 <= j < keys@.len() && keys@[j]@ == k;
            assert(kseq[j] == k);
            lemma_take_contains(kseq, keys@.len() as int, k);
        }
        assert(map@ =~= orig.filter_keys(|k: Seq<char>| !matches_any_prefix(k, ps)));
    }
    map
}

/// We use this migration when we add a cluster of settings under known
/// prefixes and want to make sure they're removed before we go back to old
/// versions that don't understand them.  Useful for user-defined keys where
/// the exact names are not known in advance.
pub struct AddPrefixesMigration(pub Vec<&'static str>);

impl AddPrefixesMigration {
    /// New versions must either have a default for the settings or generate
    /// them, so there is no work to do on upgrade.
    pub fn forward(&mut self, input: MigrationData) -> (r: Result<MigrationData, MigrationError>)
        requires
            input.wf(),
        ensures
            r == Result::<MigrationData, MigrationError>::Ok(input),
    {
        Ok(input)
    }

    /// Older versions don't know about the settings; remove every setting
    /// whose name starts with one of the prefixes.
    pub fn backward(&mut self, input: MigrationData) -> (r: Result<MigrationData, MigrationError>)
        requires
            input.wf(),
        ensures
            r is Ok,
            r->Ok_0.wf(),
            r->Ok_0@ == spec_remove_prefixed(input@, strs_view(old(self).0@)),
    {
        let MigrationData { data, metadata } = input;
        let data = remove_prefixed_from_map(data, self.0.as_slice());
        Ok(MigrationData { data, metadata })
    }
}

/// A prefix/suffix pair naming the settings a migration owns: every setting
/// whose name starts with `prefix` and ends with `suffix`.
pub struct PrefixSuffix {
    pub prefix: &'static str,
    pub suffix: &'static str,
}

impl View for PrefixSuffix {
    type V = (Seq<char>, Seq<char>);

    open spec fn view(&self) -> (Seq<char>, Seq<char>) {
        (self.prefix@, self.suffix@)
    }
}

/// The views of a sequence of prefix/suffix pairs.
pub open spec fn prefix_suffixes_view(s: Seq<PrefixSuffix>) -> Seq<(Seq<char>, Seq<char>)> {
    s.map_values(|x: PrefixSuffix| x@)
}

/// `k` starts with the prefix and ends with the suffix of one of `pairs`.
pub open spec fn matches_any_prefix_suffix(
    k: Seq<char>,
    pairs: Seq<(Seq<char>, Seq<char>)>,
) -> bool {
    exists|i: int|
        0 <= i < pairs.len() && is_prefix_of(#[trigger] pairs[i].0, k) && is_suffix_of(
            pairs[i].1,
            k,
        )
}

/// The snapshot `d` with every setting matching one of the prefix/suffix
/// pairs removed from `data`; metadata is untouched.
pub open spec fn spec_remove_prefix_suffixed(
    d: MigrationDataView,
    pairs: Seq<(Seq<char>, Seq<char>)>,
) -> MigrationDataView {
    MigrationDataView {
        data: d.data.filter_keys(|k: Seq<char>| !matches_any_prefix_suffix(k, pairs)),
        metadata: d.metadata,
    }
}

/// Whether `k` matches any of the prefix/suffix pairs.
#[verifier::loop_isolation(false)]
fn str_matches_any_prefix_suffix(k: &str, pairs: &[PrefixSuffix]) -> (r: bool)
    ensures
        r == matches_any_prefix_suffix(k@, prefix_suffixes_view(pairs@)),
{
    let mut i: usize = 0;
    while i < pairs.len()
        invariant
            i <= pairs@.len(),
            forall|j: int|
                0 <= j < i ==> !(is_prefix_of(
                    #[trigger] prefix_suffixes_view(pairs@)[j].0,
                    k@,
                ) && is_suffix_of(prefix_suffixes_view(pairs@)[j].1, k@)),
        decreases pairs@.len() - i,
    {
        if str_starts_with(k, pairs[i].prefix) && str_ends_with(k, pairs[i].suffix) {
            proof {
                assert(is_prefix_of(prefix_suffixes_view(pairs@)[i as int].0, k@));
            }
            return true;
        }
        i = i + 1;
    }
    false
}

/// We use this migration when we add clusters of settings that share a known
/// prefix and leaf name, so they can be removed before we go back to old
/// versions that don't understand them.
pub struct AddPrefixSuffixMigration(pub Vec<PrefixSuffix>);

impl AddPrefixSuffixMigration {
    /// New versions must either have a default for the settings or generate
    /// them, so there is no work to do on upgrade.
    pub fn forward(&mut self, input: MigrationData) -> (r: Result<MigrationData, MigrationError>)
        requires
            input.wf(),
        ensures
            r == Result::<MigrationData, MigrationError>::Ok(input),
    {
        Ok(input)
    }

    /// Older versions don't know about the settings; remove every setting
    /// whose name matches one of the prefix/suffix pairs.
    #[verifier::loop_isolation(false)]
    pub fn backward(&mut self, input: MigrationData) -> (r: Result<MigrationData, MigrationError>)
        requires
            input.wf(),
        ensures
            r is Ok,
            r->Ok_0.wf(),
            r->Ok_0@ == spec_remove_prefix_suffixed(input@, prefix_suffixes_view(old(self).0@)),
    {
        let ghost orig = input@;
        let ghost ps = prefix_suffixes_view(self.0@);
        let MigrationData { data, metadata } = input;
        let keys = data.keys();
        let ghost kseq = keys@.map_values(|s: String| s@);
        let mut data = data;
        let mut i: usize = 0;
        while i < keys.len()
            invariant
                i <= keys@.len(),
                data.wf(),
                data@ == orig.data.filter_keys(
                    |k: Seq<char>| !(kseq.take(i as int).contains(k) && matches_any_prefix_suffix(
                        k,
                        ps,
                    )),
                ),
            decreases keys@.len() - i,
        {
            if str_matches_any_prefix_suffix(keys[i].as_str(), self.0.as_slice()) {
                data.remove(keys[i].as_str());
            }
            proof {
                assert forall|k: Seq<char>|
                    kseq.take(i + 1).contains(k) == (kseq.take(i as int).contains(k) || k == kseq[
                        i as int
                    ]) by {
                    lemma_take_contains(kseq, i as int, k);
                    lemma_take_contains(kseq, i + 1, k);
                }
                assert(data@ =~= orig.data.filter_keys(
                    |k: Seq<char>| !(kseq.take(i + 1).contains(k) && matches_any_prefix_suffix(
                        k,
                        ps,
                    )),
                ));
            }
            i = i + 1;
        }
        proof {
            assert forall|k: Seq<char>| orig.data.contains_key(k) && matches_any_prefix_suffix(
                k,
                ps,
            ) implies kseq.take(keys@.len() as int).contains(k) by {
                let j = choose|j: int| 0 <= j < keys@.len() && keys@[j]@ == k;
                assert(kseq[j] == k);
                lemma_take_contains(kseq, keys@.len() as int, k);
            }
            assert(data@ =~= orig.data.filter_keys(
                |k: Seq<char>| !matches_any_prefix_suffix(k, ps),
            ));
        }
        Ok(MigrationData { data, metadata })
    }
}

/// The data map with `setting` set to the string `new_val` when it currently
/// holds exactly the string `old_val`; otherwise unchanged.  Absent settings
/// and settings of another shape are left alone.
pub open spec fn spec_replace_string(
    data: Map<Seq<char>, ValueView>,
    setting: Seq<char>,
    old_val: Seq<char>,
    new_val: Seq<char>,
) -> Map<Seq<char>, ValueView> {
    if data.contains_key(setting) && data[setting] == ValueView::String(old_val) {
        data.insert(setting, ValueView::String(new_val))
    } else {
        data
    }
}

/// We use this migration when we replace a setting's old string value with a
/// new string value.
pub struct ReplaceStringMigration {
    pub setting: &'static str,
    pub old_val: &'static str,
    pub new_val: &'static str,
}

impl ReplaceStringMigration {
    /// On upgrade, replace the setting's value with `new_val` when it holds
    /// exactly the string `old_val`.
    pub fn forward(&mut self, input: MigrationData) -> (r: Result<MigrationData, MigrationError>)
        requires
            input.wf(),
        ensures
            r is Ok,
            r->Ok_0.wf(),
            r->Ok_0@.data == spec_replace_string(
                input@.data,
                old(self).setting@,
                old(self).old_val@,
                old(self).new_val@,
            ),
            r->Ok_0@.metadata == input@.metadata,
    {
        let MigrationData { data, metadata } = input;
        let mut data = data;
        let mut matched = false;
        match data.get(self.setting) {
            Some(v) => match v {
                Value::String(s) => {
                    matched = str_eq(s.as_str(), self.old_val);
                },
                _ => {},
            },
            None => {},
        }
        if matched {
            data.insert(self.setting.to_owned(), Value::String(self.new_val.to_owned()));
        }
        Ok(MigrationData { data, metadata })
    }

    /// On downgrade, replace the setting's value with `old_val` when it holds
    /// exactly the string `new_val`.
    pub fn backward(&mut self, input: MigrationData) -> (r: Result<MigrationData, MigrationError>)
        requires
            input.wf(),
        ensures
            r is Ok,
            r->Ok_0.wf(),
            r->Ok_0@.data == spec_replace_string(
                input@.data,
                old(self).setting@,
                old(self).new_val@,
                old(self).old_val@,
            ),
            r->Ok_0@.metadata == input@.metadata,
    {
        let MigrationData { data, metadata } = input;
        let mut data = data;
        let mut matched = false;
        match data.get(self.setting) {
            Some(v) => match v {
                Value::String(s) => {
                    matched = str_eq(s.as_str(), self.new_val);
                },
                _ => {},
            },
            None => {},
        }
        if matched {
            data.insert(self.setting.to_owned(), Value::String(self.old_val.to_owned()));
        }
        Ok(MigrationData { data, metadata })
    }
}

/// The data map with `setting` removed when it currently holds exactly the
/// string `old_val`; otherwise unchanged.
pub open spec fn spec_remove_matching_string(
    data: Map<Seq<char>, ValueView>,
    setting: Seq<char>,
    old_val: Seq<char>,
) -> Map<Seq<char>, ValueView> {
    if data.contains_key(setting) && data[setting] == ValueView::String(old_val) {
        data.remove(setting)
    } else {
        data
    }
}

/// We use this migration to remove a setting entirely if its string value
/// matches the old value.
pub struct RemoveMatchingString {
    pub setting: &'static str,
    pub old_val: &'static str,
}

impl RemoveMatchingString {
    /// On upgrade, remove the setting when it holds exactly the string
    /// `old_val`.
    pub fn forward(&mut self, input: MigrationData) -> (r: Result<MigrationData, MigrationError>)
        requires
            input.wf(),
        ensures
            r is Ok,
            r->Ok_0.wf(),
            r->Ok_0@.data == spec_remove_matching_string(
                input@.data,
                old(self).setting@,
                old(self).old_val@,
            ),
            r->Ok_0@.metadata == input@.metadata,
    {
        let MigrationData { data, metadata } = input;
        let mut data = data;
        let mut matched = false;
        match data.get(self.setting) {
            Some(v) => match v {
                Value::String(s) => {
                    matched = str_eq(s.as_str(), self.old_val);
                },
                _ => {},
            },
            None => {},
        }
        if matched {
            data.remove(self.setting);
        }
        Ok(MigrationData { data, metadata })
    }

    /// No work to do on downgrade.
    pub fn backward(&mut self, input: MigrationData) -> (r: Result<MigrationData, MigrationError>)
        requires
            input.wf(),
        ensures
            r == Result::<MigrationData, MigrationError>::Ok(input),
    {
        Ok(input)
    }
}

/// Every element is a string value.
pub open spec fn all_strings(elems: Seq<ValueView>) -> bool {
    forall|i: int| 0 <= i < elems.len() ==> (#[trigger] elems[i]) is String
}

/// The characters of each element of an all-string array.
pub open spec fn string_elems(elems: Seq<ValueView>) -> Seq<Seq<char>> {
    elems.map_values(|v: ValueView| v->String_0)
}

/// The array value holding exactly the given strings.
pub open spec fn strings_value(vals: Seq<Seq<char>>) -> ValueView {
    ValueView::Array(vals.map_values(|s: Seq<char>| ValueView::String(s)))
}

/// Whether every element of `elems` is a string value.
#[verifier::loop_isolation(false)]
pub(crate) fn all_string_elems(elems: &Vec<Value>) -> (r: bool)
    ensures
        r == all_strings(values_view(elems@)),
{
    broadcast use lemma_values_view;

    let mut i: usize = 0;
    while i < elems.len()
        invariant
            i <= elems@.len(),
            forall|j: int| 0 <= j < i ==> (#[trigger] values_view(elems@)[j]) is String,
        decreases elems@.len() - i,
    {
        match &elems[i] {
            Value::String(_) => {},
            _ => {
                proof {
                    assert(!(values_view(elems@)[i as int] is String));
                }
                return false;
            },
        }
        i = i + 1;
    }
    true
}

/// Whether the strings in `elems` equal `vals`, in order and in length.
#[verifier::loop_isolation(false)]
fn string_list_equals(elems: &Vec<Value>, vals: &[&str]) -> (r: bool)
    requires
        all_strings(values_view(elems@)),
    ensures
        r == (string_elems(values_view(elems@)) == strs_view(vals@)),
{
    broadcast use lemma_values_view;

    if elems.len() != vals.len() {
        proof {
            assert(string_elems(values_view(elems@)).len() != strs_view(vals@).len());
        }
        return false;
    }
    let mut i: usize = 0;
    while i < elems.len()
        invariant
            i <= elems@.len(),
            elems@.len() == vals@.len(),
            forall|j: int|
                0 <= j < i ==> #[trigger] string_elems(values_view(elems@))[j] == strs_view(
                    vals@,
                )[j],
        decreases elems@.len() - i,
    {
        match &elems[i] {
            Value::String(s) => {
                if !str_eq(s.as_str(), vals[i]) {
                    proof {
                        assert(string_elems(values_view(elems@))[i as int] != strs_view(vals@)[
                            i as int
                        ]);
                    }
                    return false;
                }
            },
            _ => {
                proof {
                    assert(false);
                }
                return false;
            },
        }
        i = i + 1;
    }
    proof {
        assert(string_elems(values_view(elems@)) =~= strs_view(vals@));
    }
    true
}

/// Clone the elements of an array value, for an error payload.
#[verifier::loop_isolation(false)]
pub(crate) fn clone_values(elems: &Vec<Value>) -> (r: Vec<Value>)
    ensures
        values_view(r@) == values_view(elems@),
{
    broadcast use lemma_values_view;

    let mut out: Vec<Value> = Vec::new();
    let mut i: usize = 0;
    while i < elems.len()
        invariant
            i <= elems@.len(),
            out@.len() == i,
            forall|j: int| 0 <= j < i ==> out@[j]@ == elems@[j]@,
        decreases elems@.len() - i,
    {
        out.push(elems[i].clone());
        i = i + 1;
    }
    proof {
        assert(values_view(out@) =~= values_view(elems@));
    }
    out
}

/// Build the array value holding exactly the given strings.
#[verifier::loop_isolation(false)]
fn strings_to_value(vals: &[&str]) -> (r: Value)
    ensures
        r@ == strings_value(strs_view(vals@)),
{
    broadcast use lemma_values_view;

    let mut out: Vec<Value> = Vec::new();
    let mut i: usize = 0;
    while i < vals.len()
        invariant
            i <= vals@.len(),
            out@.len() == i,
            forall|j: int| 0 <= j < i ==> out@[j]@ == ValueView::String(strs_view(vals@)[j]),
        decreases vals@.len() - i,
    {
        out.push(Value::String(vals[i].to_owned()));
        i = i + 1;
    }
    proof {
        assert(values_view(out@) =~= strs_view(vals@).map_values(
            |s: Seq<char>| ValueView::String(s),
        ));
    }
    Value::Array(out)
}

/// One whole-list replacement: when the named setting holds exactly the
/// ordered string list `old_vals`, the array is replaced with `new_vals`.
pub struct ListReplacement {
    pub setting: &'static str,
    pub old_vals: &'static [&'static str],
    pub new_vals: &'static [&'static str],
}

/// Mathematical model of a [`ListReplacement`].
pub struct ListReplacementView {
    pub setting: Seq<char>,
    pub old_vals: Seq<Seq<char>>,
    pub new_vals: Seq<Seq<char>>,
}

impl View for ListReplacement {
    type V = ListReplacementView;

    open spec fn view(&self) -> ListReplacementView {
        ListReplacementView {
            setting: self.setting@,
            old_vals: strs_view(self.old_vals@),
            new_vals: strs_view(self.new_vals@),
        }
    }
}

/// The views of a sequence of list replacements.
pub open spec fn list_replacements_view(s: Seq<ListReplacement>) -> Seq<ListReplacementView> {
    s.map_values(|x: ListReplacement| x@)
}

/// One list replacement applied to the data map.  When the setting holds an
/// array, every element must be a string or the step fails; when the string
/// list equals the expected one, the whole array is replaced.  An absent
/// setting or one of another shape is left alone.
pub open spec fn spec_replace_list_step(
    data: Map<Seq<char>, ValueView>,
    r: ListReplacementView,
    forward: bool,
) -> Result<Map<Seq<char>, ValueView>, MigrationErrorView> {
    let from = if forward {
        r.old_vals
    } else {
        r.new_vals
    };
    let to = if forward {
        r.new_vals
    } else {
        r.old_vals
    };
    if data.contains_key(r.setting) {
        match data[r.setting] {
            ValueView::Array(elems) => {
                if !all_strings(elems) {
                    Err(
                        MigrationErrorView::ReplaceListContents {
                            setting: r.setting,
                            data: elems,
                        },
                    )
                } else if string_elems(elems) == from {
                    Ok(data.insert(r.setting, strings_value(to)))
                } else {
                    Ok(data)
                }
            },
            _ => Ok(data),
        }
    } else {
        Ok(data)
    }
}

/// The replacements applied left to right; the first fatal array aborts the
/// run with its error.
pub open spec fn spec_replace_lists(
    data: Map<Seq<char>, ValueView>,
    rs: Seq<ListReplacementView>,
    forward: bool,
) -> Result<Map<Seq<char>, ValueView>, MigrationErrorView>
    decreases rs.len(),
{
    if rs.len() == 0 {
        Ok(data)
    } else {
        match spec_replace_list_step(data, rs[0], forward) {
            Ok(d2) => spec_replace_lists(d2, rs.drop_first(), forward),
            Err(e) => Err(e),
        }
    }
}

/// Apply each replacement in order to the data half of the snapshot.
#[verifier::loop_isolation(false)]
fn apply_list_replacements(input: MigrationData, reps: &Vec<ListReplacement>, forward: bool) -> (r:
    Result<MigrationData, MigrationError>)
    requires
        input.wf(),
    ensures
        ({
            match spec_replace_lists(input@.data, list_replacements_view(reps@), forward) {
                Ok(d) => r is Ok && r->Ok_0.wf() && r->Ok_0@.data == d && r->Ok_0@.metadata
                    == input@.metadata,
                Err(e) => r is Err && r->Err_0@ == e,
            }
        }),
{
    let ghost rv = list_replacements_view(reps@);
    let ghost orig = input@;
    let MigrationData { data, metadata } = input;
    let mut data = data;
    proof {
        assert(rv.skip(0) =~= rv);
    }
    let mut i: usize = 0;
    while i < reps.len()
        invariant
            i <= reps@.len(),
            data.wf(),
            spec_replace_lists(orig.data, rv, forward) == spec_replace_lists(
                data@,
                rv.skip(i as int),
                forward,
            ),
        decreases reps@.len() - i,
    {
        let ghost pre = data@;
        let rep = &reps[i];
        let from: &[&str] = if forward {
            rep.old_vals
        } else {
            rep.new_vals
        };
        let to: &[&str] = if forward {
            rep.new_vals
        } else {
            rep.old_vals
        };
        let mut matched = false;
        let mut bad: Option<Vec<Value>> = None;
        match data.get(rep.setting) {
            Some(v) => match v {
                Value::Array(elems) => {
                    if !all_string_elems(elems) {
                        bad = Some(clone_values(elems));
                    } else {
                        matched = string_list_equals(elems, from);
                    }
                },
                _ => {},
            },
            None => {},
        }
        proof {
            assert(rv.skip(i as int)[0] == rv[i as int]);
            assert(rv.skip(i as int).drop_first() =~= rv.skip(i + 1));
        }
        match bad {
            Some(arr) => {
                let err = MigrationError::ReplaceListContents {
                    setting: rep.setting.to_owned(),
                    data: arr,
                };
                proof {
                    assert(spec_replace_list_step(pre, rv[i as int], forward) == Err::<
                        Map<Seq<char>, ValueView>,
                        MigrationErrorView,
                    >(err@));
                }
                return Err(err);
            },
            None => {},
        }
        if matched {
            data.insert(rep.setting.to_owned(), strings_to_value(to));
        }
        proof {
            assert(spec_replace_lists(pre, rv.skip(i as int), forward) == spec_replace_lists(
                data@,
                rv.skip(i + 1),
                forward,
            ));
        }
        i = i + 1;
    }
    proof {
        assert(rv.skip(reps@.len() as int) =~= Seq::<ListReplacementView>::empty());
    }
    Ok(MigrationData { data, metadata })
}

/// We use this migration when we need to replace settings that contain lists
/// of string values; for example, when a release changes the list of
/// configuration files associated with a service.
pub struct ReplaceListsMigration(pub Vec<ListReplacement>);

impl ReplaceListsMigration {
    /// On upgrade, replace each setting's array with `new_vals` when it holds
    /// exactly the string list `old_vals`.  An array holding a non-string
    /// element fails the run.
    pub fn forward(&mut self, input: MigrationData) -> (r: Result<MigrationData, MigrationError>)
        requires
            input.wf(),
        ensures
            ({
                match spec_replace_lists(input@.data, list_replacements_view(old(self).0@), true) {
                    Ok(d) => r is Ok && r->Ok_0.wf() && r->Ok_0@.data == d && r->Ok_0@.metadata
                        == input@.metadata,
                    Err(e) => r is Err && r->Err_0@ == e,
                }
            }),
    {
        apply_list_replacements(input, &self.0, true)
    }

    /// On downgrade, the symmetric replacement: `new_vals` is restored to
    /// `old_vals`.
    pub fn backward(&mut self, input: MigrationData) -> (r: Result<MigrationData, MigrationError>)
        requires
            input.wf(),
        ensures
            ({
                match spec_replace_lists(input@.data, list_replacements_view(old(self).0@), false) {
                    Ok(d) => r is Ok && r->Ok_0.wf() && r->Ok_0@.data == d && r->Ok_0@.metadata
                        == input@.metadata,
                    Err(e) => r is Err && r->Err_0@ == e,
                }
            }),
    {
        apply_list_replacements(input, &self.0, false)
    }
}

/// When a conditional migration does not apply to the running variant, this
/// operator still produces a valid intermediate datastore: both directions
/// return the input unchanged.
pub struct NoOpMigration;

impl NoOpMigration {
    /// No work to do on upgrade: the same datastore is handed back.
    pub fn forward(&mut self, input: MigrationData) -> (r: Result<MigrationData, MigrationError>)
        requires
            input.wf(),
        ensures
            r == Result::<MigrationData, MigrationError>::Ok(input),
    {
        Ok(input)
    }

    /// No work to do on downgrade: the same datastore is handed back.
    pub fn backward(&mut self, input: MigrationData) -> (r: Result<MigrationData, MigrationError>)
        requires
            input.wf(),
        ensures
            r == Result::<MigrationData, MigrationError>::Ok(input),
    {
        Ok(input)
    }
}

/// The names of the metadata keys a migration owns for one setting.
#[derive(Debug)]
pub struct SettingMetadata {
    pub setting: &'static str,
    pub metadata: &'static [&'static str],
}

/// Mathematical model of a [`SettingMetadata`].
pub struct SettingMetadataView {
    pub setting: Seq<char>,
    pub metadata: Seq<Seq<char>>,
}

impl View for SettingMetadata {
    type V = SettingMetadataView;

    open spec fn view(&self) -> SettingMetadataView {
        SettingMetadataView { setting: self.setting@, metadata: strs_view(self.metadata@) }
    }
}

/// The views of a sequence of setting/metadata-key groups.
pub open spec fn setting_metadata_view(s: Seq<SettingMetadata>) -> Seq<SettingMetadataView> {
    s.map_values(|x: SettingMetadata| x@)
}

/// One step: the named metadata keys removed from one setting's metadata.  A
/// setting with no metadata at all is left alone.
pub open spec fn spec_remove_metadata_step(
    m: Map<Seq<char>, Map<Seq<char>, ValueView>>,
    sm: SettingMetadataView,
) -> Map<Seq<char>, Map<Seq<char>, ValueView>> {
    if m.contains_key(sm.setting) {
        m.insert(sm.setting, m[sm.setting].remove_keys(sm.metadata.to_set()))
    } else {
        m
    }
}

/// The metadata-key removals applied left to right.
pub open spec fn spec_remove_metadata(
    m: Map<Seq<char>, Map<Seq<char>, ValueView>>,
    sms: Seq<SettingMetadataView>,
) -> Map<Seq<char>, Map<Seq<char>, ValueView>>
    decreases sms.len(),
{
    if sms.len() == 0 {
        m
    } else {
        spec_remove_metadata(spec_remove_metadata_step(m, sms[0]), sms.drop_first())
    }
}

/// Remove the named metadata keys of each listed setting.
#[verifier::loop_isolation(false)]
fn remove_metadata_keys(metadata: MetadataMap, sms: &[SettingMetadata]) -> (r: MetadataMap)
    requires
        metadata.wf(),
    ensures
        r.wf(),
        r@ == spec_remove_metadata(metadata@, setting_metadata_view(sms@)),
{
    let ghost sv = setting_metadata_view(sms@);
    let ghost orig = metadata@;
    let mut metadata = metadata;
    proof {
        assert(sv.skip(0) =~= sv);
    }
    let mut i: usize = 0;
    while i < sms.len()
        invariant
            i <= sms@.len(),
            metadata.wf(),
            spec_remove_metadata(orig, sv) == spec_remove_metadata(metadata@, sv.skip(i as int)),
        decreases sms@.len() - i,
    {
        let ghost pre = metadata@;
        let sm = &sms[i];
        match metadata.remove(sm.setting) {
            Some(inner) => {
                let inner = remove_keys_from_map(inner, sm.metadata);
                metadata.insert(sm.setting.to_owned(), inner);
                proof {
                    assert(metadata@ =~= spec_remove_metadata_step(pre, sv[i as int]));
                }
            },
            None => {
                proof {
                    assert(metadata@ =~= spec_remove_metadata_step(pre, sv[i as int]));
                }
            },
        }
        proof {
            assert(sv.skip(i as int)[0] == sv[i as int]);
            assert(sv.skip(i as int).drop_first() =~= sv.skip(i + 1));
            assert(spec_remove_metadata(pre, sv.skip(i as int)) == spec_remove_metadata(
                metadata@,
                sv.skip(i + 1),
            ));
        }
        i = i + 1;
    }
    proof {
        assert(sv.skip(sms@.len() as int) =~= Seq::<SettingMetadataView>::empty());
    }
    metadata
}

/// We use this migration when we add metadata and want to make sure they're
/// removed before we go back to old versions that don't understand them.
pub struct AddMetadataMigration(pub &'static [SettingMetadata]);

impl AddMetadataMigration {
    /// New versions must have the metadata already defined in defaults, so
    /// there is no work to do on upgrade.
    pub fn forward(&mut self, input: MigrationData) -> (r: Result<MigrationData, MigrationError>)
        requires
            input.wf(),
        ensures
            r == Result::<MigrationData, MigrationError>::Ok(input),
    {
        Ok(input)
    }

    /// Older versions might break with certain settings metadata (such as
    /// setting-generators), so remove the named keys on downgrade.
    pub fn backward(&mut self, input: MigrationData) -> (r: Result<MigrationData, MigrationError>)
        requires
            input.wf(),
        ensures
            r is Ok,
            r->Ok_0.wf(),
            r->Ok_0@.data == input@.data,
            r->Ok_0@.metadata == spec_remove_metadata(
                input@.metadata,
                setting_metadata_view(old(self).0@),
            ),
    {
        let MigrationData { data, metadata } = input;
        let metadata = remove_metadata_keys(metadata, self.0);
        Ok(MigrationData { data, metadata })
    }
}

/// We use this migration when we remove metadata from the model.
pub struct RemoveMetadataMigration(pub &'static [SettingMetadata]);

impl RemoveMetadataMigration {
    /// Newer versions don't know about the metadata; remove the named keys on
    /// upgrade.
    pub fn forward(&mut self, input: MigrationData) -> (r: Result<MigrationData, MigrationError>)
        requires
            input.wf(),
        ensures
            r is Ok,
            r->Ok_0.wf(),
            r->Ok_0@.data == input@.data,
            r->Ok_0@.metadata == spec_remove_metadata(
                input@.metadata,
                setting_metadata_view(old(self).0@),
            ),
    {
        let MigrationData { data, metadata } = input;
        let metadata = remove_metadata_keys(metadata, self.0);
        Ok(MigrationData { data, metadata })
    }

    /// No work to do on downgrade.
    pub fn backward(&mut self, input: MigrationData) -> (r: Result<MigrationData, MigrationError>)
        requires
            input.wf(),
        ensures
            r == Result::<MigrationData, MigrationError>::Ok(input),
    {
        Ok(input)
    }
}

/// One whole-list replacement on a metadata value: when the named metadata
/// key of the named setting holds exactly the ordered string list `old_vals`,
/// the array is replaced with `new_vals`.
pub struct MetadataListReplacement {
    pub setting: &'static str,
    pub metadata: &'static str,
    pub old_vals: &'static [&'static str],
    pub new_vals: &'static [&'static str],
}

/// Mathematical model of a [`MetadataListReplacement`].
pub struct MetadataListReplacementView {
    pub setting: Seq<char>,
    pub metadata: Seq<char>,
    pub old_vals: Seq<Seq<char>>,
    pub new_vals: Seq<Seq<char>>,
}

impl View for MetadataListReplacement {
    type V = MetadataListReplacementView;

    open spec fn view(&self) -> MetadataListReplacementView {
        MetadataListReplacementView {
            setting: self.setting@,
            metadata: self.metadata@,
            old_vals: strs_view(self.old_vals@),
            new_vals: strs_view(self.new_vals@),
        }
    }
}

/// The views of a sequence of metadata list replacements.
pub open spec fn metadata_list_replacements_view(s: Seq<MetadataListReplacement>) -> Seq<
    MetadataListReplacementView,
> {
    s.map_values(|x: MetadataListReplacement| x@)
}

/// One metadata list replacement applied to the metadata map: the same
/// array-equality logic as a data list replacement, on
/// `metadata[setting][key]`.
pub open spec fn spec_replace_metadata_list_step(
    m: Map<Seq<char>, Map<Seq<char>, ValueView>>,
    r: MetadataListReplacementView,
    forward: bool,
) -> Result<Map<Seq<char>, Map<Seq<char>, ValueView>>, MigrationErrorView> {
    let from = if forward {
        r.old_vals
    } else {
        r.new_vals
    };
    let to = if forward {
        r.new_vals
    } else {
        r.old_vals
    };
    if m.contains_key(r.setting) && m[r.setting].contains_key(r.metadata) {
        match m[r.setting][r.metadata] {
            ValueView::Array(elems) => {
                if !all_strings(elems) {
                    Err(
                        MigrationErrorView::ReplaceMetadataListContents {
                            setting: r.setting,
                            metadata: r.metadata,
                            data: elems,
                        },
                    )
                } else if string_elems(elems) == from {
                    Ok(m.insert(r.setting, m[r.setting].insert(r.metadata, strings_value(to))))
                } else {
                    Ok(m)
                }
            },
            _ => Ok(m),
        }
    } else {
        Ok(m)
    }
}

/// The metadata list replacements applied left to right; the first fatal
/// array aborts the run with its error.
pub open spec fn spec_replace_metadata_lists(
    m: Map<Seq<char>, Map<Seq<char>, ValueView>>,
    rs: Seq<MetadataListReplacementView>,
    forward: bool,
) -> Result<Map<Seq<char>, Map<Seq<char>, ValueView>>, MigrationErrorView>
    decreases rs.len(),
{
    if rs.len() == 0 {
        Ok(m)
    } else {
        match spec_replace_metadata_list_step(m, rs[0], forward) {
            Ok(m2) => spec_replace_metadata_lists(m2, rs.drop_first(), forward),
            Err(e) => Err(e),
        }
    }
}

/// Apply each metadata list replacement in order.
#[verifier::loop_isolation(false)]
fn apply_metadata_list_replacements(
    input: MigrationData,
    reps: &Vec<MetadataListReplacement>,
    forward: bool,
) -> (r: Result<MigrationData, MigrationError>)
    requires
        input.wf(),
    ensures
        ({
            match spec_replace_metadata_lists(
                input@.metadata,
                metadata_list_replacements_view(reps@),
                forward,
            ) {
                Ok(m) => r is Ok && r->Ok_0.wf() && r->Ok_0@.metadata == m && r->Ok_0@.data
                    == input@.data,
                Err(e) => r is Err && r->Err_0@ == e,
            }
        }),
{
    let ghost rv = metadata_list_replacements_view(reps@);
    let ghost orig = input@;
    let MigrationData { data, metadata } = input;
    let mut metadata = metadata;
    proof {
        assert(rv.skip(0) =~= rv);
    }
    let mut i: usize = 0;
    while i < reps.len()
        invariant
            i <= reps@.len(),
            metadata.wf(),
            spec_replace_metadata_lists(orig.metadata, rv, forward) == spec_replace_metadata_lists(
                metadata@,
                rv.skip(i as int),
                forward,
            ),
        decreases reps@.len() - i,
    {
        let ghost pre = metadata@;
        let rep = &reps[i];
        let from: &[&str] = if forward {
            rep.old_vals
        } else {
            rep.new_vals
        };
        let to: &[&str] = if forward {
            rep.new_vals
        } else {
            rep.old_vals
        };
        let mut matched = false;
        let mut bad: Option<Vec<Value>> = None;
        match metadata.get(rep.setting) {
            Some(inner) => match inner.get(rep.metadata) {
                Some(v) => match v {
                    Value::Array(elems) => {
                        if !all_string_elems(elems) {
                            bad = Some(clone_values(elems));
                        } else {
                            matched = string_list_equals(elems, from);
                        }
                    },
                    _ => {},
                },
                None => {},
            },
            None => {},
        }
        proof {
            assert(rv.skip(i as int)[0] == rv[i as int]);
            assert(rv.skip(i as int).drop_first() =~= rv.skip(i + 1));
        }
        match bad {
            Some(arr) => {
                let err = MigrationError::ReplaceMetadataListContents {
                    setting: rep.setting.to_owned(),
                    metadata: rep.metadata.to_owned(),
                    data: arr,
                };
                proof {
                    assert(spec_replace_metadata_list_step(pre, rv[i as int], forward) == Err::<
                        Map<Seq<char>, Map<Seq<char>, ValueView>>,
                        MigrationErrorView,
                    >(err@));
                }
                return Err(err);
            },
            None => {},
        }
        if matched {
            match metadata.remove(rep.setting) {
                Some(inner) => {
                    let mut inner = inner;
                    inner.insert(rep.metadata.to_owned(), strings_to_value(to));
                    metadata.insert(rep.setting.to_owned(), inner);
                },
                None => {
                    proof {
                        assert(false);
                    }
                },
            }
            proof {
                assert(metadata@ =~= pre.insert(
                    rv[i as int].setting,
                    pre[rv[i as int].setting].insert(
                        rv[i as int].metadata,
                        strings_value(strs_view(to@)),
                    ),
                ));
            }
        }
        proof {
            assert(spec_replace_metadata_lists(pre, rv.skip(i as int), forward)
                == spec_replace_metadata_lists(metadata@, rv.skip(i + 1), forward));
        }
        i = i + 1;
    }
    proof {
        assert(rv.skip(reps@.len() as int) =~= Seq::<MetadataListReplacementView>::empty());
    }
    Ok(MigrationData { data, metadata })
}

/// We use this migration when we need to replace metadata that contain lists
/// of string values; for example, when a release changes the list of affected
/// services associated with a setting.
pub struct ReplaceMetadataListsMigration(pub Vec<MetadataListReplacement>);

impl ReplaceMetadataListsMigration {
    /// On upgrade, replace each metadata array with `new_vals` when it holds
    /// exactly the string list `old_vals`.  An array holding a non-string
    /// element fails the run.
    pub fn forward(&mut self, input: MigrationData) -> (r: Result<MigrationData, MigrationError>)
        requires
            input.wf(),
        ensures
            ({
                match spec_replace_metadata_lists(
                    input@.metadata,
                    metadata_list_replacements_view(old(self).0@),
                    true,
                ) {
                    Ok(m) => r is Ok && r->Ok_0.wf() && r->Ok_0@.metadata == m && r->Ok_0@.data
                        == input@.data,
                    Err(e) => r is Err && r->Err_0@ == e,
                }
            }),
    {
        apply_metadata_list_replacements(input, &self.0, true)
    }

    /// On downgrade, the symmetric replacement: `new_vals` is restored to
    /// `old_vals`.
    pub fn backward(&mut self, input: MigrationData) -> (r: Result<MigrationData, MigrationError>)
        requires
            input.wf(),
        ensures
            ({
                match spec_replace_metadata_lists(
                    input@.metadata,
                    metadata_list_replacements_view(old(self).0@),
                    false,
                ) {
                    Ok(m) => r is Ok && r->Ok_0.wf() && r->Ok_0@.metadata == m && r->Ok_0@.data
                        == input@.data,
                    Err(e) => r is Err && r->Err_0@ == e,
                }
            }),
    {
        apply_metadata_list_replacements(input, &self.0, false)
    }
}

/// The metadata map with `metadata[setting][key]` set to the string `new_val`
/// when it currently holds exactly the string `old_val`; otherwise unchanged.
pub open spec fn spec_replace_metadata_value(
    m: Map<Seq<char>, Map<Seq<char>, ValueView>>,
    setting: Seq<char>,
    key: Seq<char>,
    old_val: Seq<char>,
    new_val: Seq<char>,
) -> Map<Seq<char>, Map<Seq<char>, ValueView>> {
    if m.contains_key(setting) && m[setting].contains_key(key) && m[setting][key]
        == ValueView::String(old_val) {
        m.insert(setting, m[setting].insert(key, ValueView::String(new_val)))
    } else {
        m
    }
}

/// One single-value metadata replacement; for example, when a release changes
/// the setting-generator associated with a setting.
#[derive(Debug, Clone)]
pub struct MetadataReplacement {
    pub setting: &'static str,
    pub metadata: &'static str,
    pub old_val: &'static str,
    pub new_val: &'static str,
}

/// Mathematical model of a [`MetadataReplacement`].
pub struct MetadataReplacementView {
    pub setting: Seq<char>,
    pub metadata: Seq<char>,
    pub old_val: Seq<char>,
    pub new_val: Seq<char>,
}

impl View for MetadataReplacement {
    type V = MetadataReplacementView;

    open spec fn view(&self) -> MetadataReplacementView {
        MetadataReplacementView {
            setting: self.setting@,
            metadata: self.metadata@,
            old_val: self.old_val@,
            new_val: self.new_val@,
        }
    }
}

/// The views of a sequence of metadata replacements.
pub open spec fn metadata_replacements_view(s: Seq<MetadataReplacement>) -> Seq<
    MetadataReplacementView,
> {
    s.map_values(|x: MetadataReplacement| x@)
}

/// The single-value metadata replacements applied left to right; `forward`
/// chooses which of the two values is looked for and which is written.
pub open spec fn spec_replace_metadata(
    m: Map<Seq<char>, Map<Seq<char>, ValueView>>,
    rs: Seq<MetadataReplacementView>,
    forward: bool,
) -> Map<Seq<char>, Map<Seq<char>, ValueView>>
    decreases rs.len(),
{
    if rs.len() == 0 {
        m
    } else {
        let from = if forward {
            rs[0].old_val
        } else {
            rs[0].new_val
        };
        let to = if forward {
            rs[0].new_val
        } else {
            rs[0].old_val
        };
        spec_replace_metadata(
            spec_replace_metadata_value(m, rs[0].setting, rs[0].metadata, from, to),
            rs.drop_first(),
            forward,
        )
    }
}

impl MetadataReplacement {
    /// Executes the metadata replacement on the given datastore.
    ///
    /// Returns whether the replacement was performed: an absent setting, an
    /// absent metadata key, a non-string value and a value not matching
    /// `old_val` all leave the snapshot alone.
    fn perform_replacement(&self, input: &mut MigrationData) -> (r: bool)
        requires
            old(input).wf(),
        ensures
            final(input).wf(),
            final(input)@.data == old(input)@.data,
            final(input)@.metadata == spec_replace_metadata_value(
                old(input)@.metadata,
                self.setting@,
                self.metadata@,
                self.old_val@,
                self.new_val@,
            ),
            r == (old(input)@.metadata.contains_key(self.setting@)
                && old(input)@.metadata[self.setting@].contains_key(self.metadata@)
                && old(input)@.metadata[self.setting@][self.metadata@] == ValueView::String(
                self.old_val@,
            )),
    {
        let ghost pre = input@.metadata;
        let mut matched = false;
        match input.metadata.get(self.setting) {
            Some(inner) => match inner.get(self.metadata) {
                Some(v) => match v {
                    Value::String(s) => {
                        matched = str_eq(s.as_str(), self.old_val);
                    },
                    _ => {},
                },
                None => {},
            },
            None => {},
        }
        if matched {
            match input.metadata.remove(self.setting) {
                Some(inner) => {
                    let mut inner = inner;
                    inner.insert(self.metadata.to_owned(), Value::String(self.new_val.to_owned()));
                    input.metadata.insert(self.setting.to_owned(), inner);
                },
                None => {
                    proof {
                        assert(false);
                    }
                },
            }
            proof {
                assert(input@.metadata =~= pre.insert(
                    self.setting@,
                    pre[self.setting@].insert(self.metadata@, ValueView::String(self.new_val@)),
                ));
            }
        }
        matched
    }
}

/// We use this migration when we need to replace a single metadata value.
pub struct ReplaceMetadataMigration(pub Vec<MetadataReplacement>);

impl ReplaceMetadataMigration {
    /// On upgrade, perform each replacement: `old_val` becomes `new_val`.
    #[verifier::loop_isolation(false)]
    pub fn forward(&mut self, input: MigrationData) -> (r: Result<MigrationData, MigrationError>)
        requires
            input.wf(),
        ensures
            r is Ok,
            r->Ok_0.wf(),
            r->Ok_0@.data == input@.data,
            r->Ok_0@.metadata == spec_replace_metadata(
                input@.metadata,
                metadata_replacements_view(old(self).0@),
                true,
            ),
    {
        let ghost rv = metadata_replacements_view(self.0@);
        let ghost orig = input@;
        let mut input = input;
        proof {
            assert(rv.skip(0) =~= rv);
        }
        let mut i: usize = 0;
        while i < self.0.len()
            invariant
                i <= self.0@.len(),
                input.wf(),
                input@.data == orig.data,
                spec_replace_metadata(orig.metadata, rv, true) == spec_replace_metadata(
                    input@.metadata,
                    rv.skip(i as int),
                    true,
                ),
            decreases self.0@.len() - i,
        {
            let ghost pre = input@.metadata;
            self.0[i].perform_replacement(&mut input);
            proof {
                assert(rv.skip(i as int)[0] == rv[i as int]);
                assert(rv.skip(i as int).drop_first() =~= rv.skip(i + 1));
                assert(spec_replace_metadata(pre, rv.skip(i as int), true)
                    == spec_replace_metadata(input@.metadata, rv.skip(i + 1), true));
            }
            i = i + 1;
        }
        proof {
            assert(rv.skip(self.0@.len() as int) =~= Seq::<MetadataReplacementView>::empty());
        }
        Ok(input)
    }

    /// On downgrade, perform the inverse of each replacement: `new_val` is
    /// looked for and `old_val` restored.
    #[verifier::loop_isolation(false)]
    pub fn backward(&mut self, input: MigrationData) -> (r: Result<MigrationData, MigrationError>)
        requires
            input.wf(),
        ensures
            r is Ok,
            r->Ok_0.wf(),
            r->Ok_0@.data == input@.data,
            r->Ok_0@.metadata == spec_replace_metadata(
                input@.metadata,
                metadata_replacements_view(old(self).0@),
                false,
            ),
    {
        let ghost rv = metadata_replacements_view(self.0@);
        let ghost orig = input@;
        let mut input = input;
        proof {
            assert(rv.skip(0) =~= rv);
        }
        let mut i: usize = 0;
        while i < self.0.len()
            invariant
                i <= self.0@.len(),
                input.wf(),
                input@.data == orig.data,
                spec_replace_metadata(orig.metadata, rv, false) == spec_replace_metadata(
                    input@.metadata,
                    rv.skip(i as int),
                    false,
                ),
            decreases self.0@.len() - i,
        {
            let ghost pre = input@.metadata;
            let rep = &self.0[i];
            let swapped = MetadataReplacement {
                setting: rep.setting,
                metadata: rep.metadata,
                old_val: rep.new_val,
                new_val: rep.old_val,
            };
            swapped.perform_replacement(&mut input);
            proof {
                assert(rv.skip(i as int)[0] == rv[i as int]);
                assert(rv.skip(i as int).drop_first() =~= rv.skip(i + 1));
                assert(spec_replace_metadata(pre, rv.skip(i as int), false)
                    == spec_replace_metadata(input@.metadata, rv.skip(i + 1), false));
            }
            i = i + 1;
        }
        proof {
            assert(rv.skip(self.0@.len() as int) =~= Seq::<MetadataReplacementView>::empty());
        }
        Ok(input)
    }
}

/// The setting named `k` carries metadata `strength` equal to the string
/// `weak`.
pub open spec fn is_weak(m: Map<Seq<char>, Map<Seq<char>, ValueView>>, k: Seq<char>) -> bool {
    m.contains_key(k) && m[k].contains_key("strength"@) && m[k]["strength"@] == ValueView::String(
        "weak"@,
    )
}

/// The snapshot with every weak-marked setting removed from `data` and the
/// metadata map cleared entirely.
pub open spec fn spec_remove_weak_and_clear(d: MigrationDataView) -> MigrationDataView {
    MigrationDataView {
        data: d.data.filter_keys(|k: Seq<char>| !is_weak(d.metadata, k)),
        metadata: Map::empty(),
    }
}

/// On downgrade to versions that don't track setting strength, every setting
/// whose metadata marks it weak is removed, and then the whole metadata map is
/// cleared unconditionally, relying on first boot to repopulate defaults.
pub struct RemoveMetadataAndWeakSettingsMigration;

impl RemoveMetadataAndWeakSettingsMigration {
    /// No work to do on upgrade: the same datastore is handed back.
    pub fn forward(&mut self, input: MigrationData) -> (r: Result<MigrationData, MigrationError>)
        requires
            input.wf(),
        ensures
            r == Result::<MigrationData, MigrationError>::Ok(input),
    {
        Ok(input)
    }

    /// Delete all the weak settings, then clear every metadata entry, even
    /// those of settings that were not weak.
    #[verifier::loop_isolation(false)]
    pub fn backward(&mut self, input: MigrationData) -> (r: Result<MigrationData, MigrationError>)
        requires
            input.wf(),
        ensures
            r is Ok,
            r->Ok_0.wf(),
            r->Ok_0@ == spec_remove_weak_and_clear(input@),
    {
        let ghost orig = input@;
        let MigrationData { data, metadata } = input;
        let keys = metadata.keys();
        let ghost kseq = keys@.map_values(|s: String| s@);
        let mut data = data;
        let mut i: usize = 0;
        while i < keys.len()
            invariant
                i <= keys@.len(),
                data.wf(),
                data@ == orig.data.filter_keys(
                    |k: Seq<char>| !(kseq.take(i as int).contains(k) && is_weak(orig.metadata, k)),
                ),
            decreases keys@.len() - i,
        {
            let mut weak = false;
            match metadata.get(keys[i].as_str()) {
                Some(inner) => match inner.get("strength") {
                    Some(v) => match v {
                        Value::String(s) => {
                            weak = str_eq(s.as_str(), "weak");
                        },
                        _ => {},
                    },
                    None => {},
                },
                None => {},
            }
            if weak {
                data.remove(keys[i].as_str());
            }
            proof {
                assert forall|k: Seq<char>|
                    kseq.take(i + 1).contains(k) == (kseq.take(i as int).contains(k) || k == kseq[
                        i as int
                    ]) by {
                    lemma_take_contains(kseq, i as int, k);
                    lemma_take_contains(kseq, i + 1, k);
                }
                assert(data@ =~= orig.data.filter_keys(
                    |k: Seq<char>| !(kseq.take(i + 1).contains(k) && is_weak(orig.metadata, k)),
                ));
            }
            i = i + 1;
        }
        proof {
            assert forall|k: Seq<char>| is_weak(orig.metadata, k) implies kseq.take(
                keys@.len() as int,
            ).contains(k) by {
                let j = choose|j: int| 0 <= j < keys@.len() && keys@[j]@ == k;
                assert(kseq[j] == k);
                lemma_take_contains(kseq, keys@.len() as int, k);
            }
            assert(data@ =~= orig.data.filter_keys(|k: Seq<char>| !is_weak(orig.metadata, k)));
        }
        Ok(MigrationData { data, metadata: MetadataMap::new() })
    }
}

} // verus!
