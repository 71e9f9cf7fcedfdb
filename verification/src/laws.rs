//! The laws the operator catalog obeys, stated over the operators' spec
//! functions and proved once and for all: pass-through of unnamed keys,
//! the add-settings round trip, and replacement idempotence.

use vstd::prelude::*;
use crate::value::ValueView;
use crate::datastore::MigrationDataView;
use crate::settings_migrations::device_list_strategy::spec_replace_device_list_strategy;
use crate::common_migrations::{spec_remove_settings, spec_remove_prefixed,
    spec_remove_prefix_suffixed, spec_replace_string, spec_remove_matching_string,
    spec_replace_lists, spec_remove_metadata, spec_replace_metadata_lists, spec_replace_metadata,
    spec_replace_metadata_value, spec_remove_weak_and_clear, matches_any_prefix,
    matches_any_prefix_suffix, is_weak, ListReplacementView, SettingMetadataView,
    MetadataListReplacementView, MetadataReplacementView};

verus! {

/// Pass-through: a setting not named in the operator's parameters is
/// unchanged by removal of the named settings, and metadata is untouched.
/// This covers `AddSettingsMigration::backward` and
/// `RemoveSettingsMigration::forward`.
pub proof fn add_settings_pass_through(d: MigrationDataView, names: Seq<Seq<char>>, k: Seq<char>)
    requires
        !names.contains(k),
    ensures
        spec_remove_settings(d, names).data.contains_key(k) == d.data.contains_key(k),
        d.data.contains_key(k) ==> spec_remove_settings(d, names).data[k] == d.data[k],
        spec_remove_settings(d, names).metadata == d.metadata,
{
}

/// Pass-through: a setting whose name starts with none of the prefixes is
/// unchanged by `AddPrefixesMigration::backward` (and by the
/// configuration-files/services deletion, which uses the same removal), and
/// metadata is untouched.
pub proof fn add_prefixes_pass_through(
    d: MigrationDataView,
    prefixes: Seq<Seq<char>>,
    k: Seq<char>,
)
    requires
        !matches_any_prefix(k, prefixes),
    ensures
        spec_remove_prefixed(d, prefixes).data.contains_key(k) == d.data.contains_key(k),
        d.data.contains_key(k) ==> spec_remove_prefixed(d, prefixes).data[k] == d.data[k],
        spec_remove_prefixed(d, prefixes).metadata == d.metadata,
{
}

/// Pass-through: a setting matching none of the prefix/suffix pairs is
/// unchanged by `AddPrefixSuffixMigration::backward`, and metadata is
/// untouched.
pub proof fn add_prefix_suffix_pass_through(
    d: MigrationDataView,
    pairs: Seq<(Seq<char>, Seq<char>)>,
    k: Seq<char>,
)
    requires
        !matches_any_prefix_suffix(k, pairs),
    ensures
        spec_remove_prefix_suffixed(d, pairs).data.contains_key(k) == d.data.contains_key(k),
        d.data.contains_key(k) ==> spec_remove_prefix_suffixed(d, pairs).data[k] == d.data[k],
        spec_remove_prefix_suffixed(d, pairs).metadata == d.metadata,
{
}

/// Pass-through: a setting other than the one a string replacement names is
/// unchanged in either direction.
pub proof fn replace_string_pass_through(
    data: Map<Seq<char>, ValueView>,
    setting: Seq<char>,
    old_val: Seq<char>,
    new_val: Seq<char>,
    k: Seq<char>,
)
    requires
        k != setting,
    ensures
        spec_replace_string(data, setting, old_val, new_val).contains_key(k) == data.contains_key(
            k,
        ),
        data.contains_key(k) ==> spec_replace_string(data, setting, old_val, new_val)[k] == data[k],
{
}

/// Pass-through: a setting other than the one a matching-string removal names
/// is unchanged.
pub proof fn remove_matching_string_pass_through(
    data: Map<Seq<char>, ValueView>,
    setting: Seq<char>,
    old_val: Seq<char>,
    k: Seq<char>,
)
    requires
        k != setting,
    ensures
        spec_remove_matching_string(data, setting, old_val).contains_key(k) == data.contains_key(
            k,
        ),
        data.contains_key(k) ==> spec_remove_matching_string(data, setting, old_val)[k] == data[k],
{
}

/// Pass-through: a setting named by none of the list replacements is
/// unchanged by a successful run in either direction.
pub proof fn replace_lists_pass_through(
    data: Map<Seq<char>, ValueView>,
    rs: Seq<ListReplacementView>,
    forward: bool,
    k: Seq<char>,
)
    requires
        forall|i: int| 0 <= i < rs.len() ==> (#[trigger] rs[i]).setting != k,
    ensures
        spec_replace_lists(data, rs, forward) is Ok ==> {
            let d2 = spec_replace_lists(data, rs, forward)->Ok_0;
            &&& d2.contains_key(k) == data.contains_key(k)
            &&& (data.contains_key(k) ==> d2[k] == data[k])
        },
    decreases rs.len(),
{
    if rs.len() > 0 {
        match crate::common_migrations::spec_replace_list_step(data, rs[0], forward) {
            Ok(d2) => {
                assert(forall|i: int|
                    0 <= i < rs.drop_first().len() ==> (#[trigger] rs.drop_first()[i]).setting
                        != k);
                replace_lists_pass_through(d2, rs.drop_first(), forward, k);
            },
            Err(_) => {},
        }
    }
}

/// Pass-through: a metadata entry not named by any of the groups (either
/// because its setting is not listed, or because its key is not among the
/// keys listed for that setting) is unchanged by metadata-key removal, and no
/// setting's presence in the metadata map changes.  This covers
/// `AddMetadataMigration::backward` and `RemoveMetadataMigration::forward`.
pub proof fn remove_metadata_pass_through(
    m: Map<Seq<char>, Map<Seq<char>, ValueView>>,
    sms: Seq<SettingMetadataView>,
    s: Seq<char>,
    mk: Seq<char>,
)
    requires
        forall|i: int|
            0 <= i < sms.len() ==> !((#[trigger] sms[i]).setting == s && sms[i].metadata.contains(
                mk,
            )),
    ensures
        spec_remove_metadata(m, sms).contains_key(s) == m.contains_key(s),
        m.contains_key(s) ==> {
            let m2 = spec_remove_metadata(m, sms);
            &&& m2[s].contains_key(mk) == m[s].contains_key(mk)
            &&& (m[s].contains_key(mk) ==> m2[s][mk] == m[s][mk])
        },
    decreases sms.len(),
{
    if sms.len() > 0 {
        let m1 = crate::common_migrations::spec_remove_metadata_step(m, sms[0]);
        assert(forall|i: int|
            0 <= i < sms.drop_first().len() ==> !((#[trigger] sms.drop_first()[i]).setting == s
                && sms.drop_first()[i].metadata.contains(mk)));
        remove_metadata_pass_through(m1, sms.drop_first(), s, mk);
    }
}

/// Pass-through: a metadata entry not named by any of the metadata list
/// replacements is unchanged by a successful run in either direction, and no
/// setting's presence in the metadata map changes.
pub proof fn replace_metadata_lists_pass_through(
    m: Map<Seq<char>, Map<Seq<char>, ValueView>>,
    rs: Seq<MetadataListReplacementView>,
    forward: bool,
    s: Seq<char>,
    mk: Seq<char>,
)
    requires
        forall|i: int|
            0 <= i < rs.len() ==> !((#[trigger] rs[i]).setting == s && rs[i].metadata == mk),
    ensures
        spec_replace_metadata_lists(m, rs, forward) is Ok ==> {
            let m2 = spec_replace_metadata_lists(m, rs, forward)->Ok_0;
            &&& m2.contains_key(s) == m.contains_key(s)
            &&& (m.contains_key(s) ==> m2[s].contains_key(mk) == m[s].contains_key(mk))
            &&& (m.contains_key(s) && m[s].contains_key(mk) ==> m2[s][mk] == m[s][mk])
        },
    decreases rs.len(),
{
    if rs.len() > 0 {
        match crate::common_migrations::spec_replace_metadata_list_step(m, rs[0], forward) {
            Ok(m1) => {
                assert(forall|i: int|
                    0 <= i < rs.drop_first().len() ==> !((#[trigger] rs.drop_first()[i]).setting
                        == s && rs.drop_first()[i].metadata == mk));
                replace_metadata_lists_pass_through(m1, rs.drop_first(), forward, s, mk);
            },
            Err(_) => {},
        }
    }
}

/// Pass-through: a metadata entry not named by any of the single-value
/// metadata replacements is unchanged in either direction, and no setting's
/// presence in the metadata map changes.
pub proof fn replace_metadata_pass_through(
    m: Map<Seq<char>, Map<Seq<char>, ValueView>>,
    rs: Seq<MetadataReplacementView>,
    forward: bool,
    s: Seq<char>,
    mk: Seq<char>,
)
    requires
        forall|i: int|
            0 <= i < rs.len() ==> !((#[trigger] rs[i]).setting == s && rs[i].metadata == mk),
    ensures
        ({
            let m2 = spec_replace_metadata(m, rs, forward);
            &&& m2.contains_key(s) == m.contains_key(s)
            &&& (m.contains_key(s) ==> m2[s].contains_key(mk) == m[s].contains_key(mk))
            &&& (m.contains_key(s) && m[s].contains_key(mk) ==> m2[s][mk] == m[s][mk])
        }),
    decreases rs.len(),
{
    if rs.len() > 0 {
        let from = if forward {
            rs[0].old_val
        } else {
            rs[0].new_val
        };
        let to = if forward {
            rs[0].new_val
        } else {
            rs[0].old_val
        };
        let m1 = spec_replace_metadata_value(m, rs[0].setting, rs[0].metadata, from, to);
        assert(forall|i: int|
            0 <= i < rs.drop_first().len() ==> !((#[trigger] rs.drop_first()[i]).setting == s
                && rs.drop_first()[i].metadata == mk));
        replace_metadata_pass_through(m1, rs.drop_first(), forward, s, mk);
    }
}

/// Pass-through for the weak-settings cleanup, on the data half: a setting
/// whose metadata does not mark it weak keeps its value.  The metadata half
/// deliberately has no pass-through: the whole metadata map is cleared,
/// including entries of settings that were not weak.
pub proof fn remove_weak_settings_pass_through(d: MigrationDataView, k: Seq<char>)
    requires
        !is_weak(d.metadata, k),
    ensures
        spec_remove_weak_and_clear(d).data.contains_key(k) == d.data.contains_key(k),
        d.data.contains_key(k) ==> spec_remove_weak_and_clear(d).data[k] == d.data[k],
{
}

/// Round trip for added settings: when none of the added settings is present,
/// removing them is the identity.  Since `AddSettingsMigration::forward`
/// returns its input unchanged, `backward(forward(d)) == d` holds exactly on
/// such snapshots.
pub proof fn add_settings_round_trip(d: MigrationDataView, names: Seq<Seq<char>>)
    requires
        forall|i: int| 0 <= i < names.len() ==> !d.data.contains_key(#[trigger] names[i]),
    ensures
        spec_remove_settings(d, names) == d,
{
    assert forall|k: Seq<char>| names.to_set().contains(k) implies !d.data.contains_key(k) by {
        let i = choose|i: int| 0 <= i < names.len() && names[i] == k;
    }
    assert(spec_remove_settings(d, names).data =~= d.data);
}

/// Removing the named settings twice equals removing them once, so the net
/// effect of `backward` followed by `forward` (a no-op) is exactly "the named
/// settings removed" — not a true round trip.
pub proof fn remove_settings_idempotent(d: MigrationDataView, names: Seq<Seq<char>>)
    ensures
        spec_remove_settings(spec_remove_settings(d, names), names) == spec_remove_settings(
            d,
            names,
        ),
{
    assert(spec_remove_settings(spec_remove_settings(d, names), names).data
        =~= spec_remove_settings(d, names).data);
}

/// String replacement is idempotent in one direction: after a successful
/// replacement the value no longer equals `old_val` (or, when the two values
/// are equal, replacing again writes the same value), so applying `forward`
/// twice equals applying it once; the same holds of `backward` with the
/// values swapped.
pub proof fn replace_string_idempotent(
    data: Map<Seq<char>, ValueView>,
    setting: Seq<char>,
    old_val: Seq<char>,
    new_val: Seq<char>,
)
    ensures
        spec_replace_string(
            spec_replace_string(data, setting, old_val, new_val),
            setting,
            old_val,
            new_val,
        ) == spec_replace_string(data, setting, old_val, new_val),
{
    let d1 = spec_replace_string(data, setting, old_val, new_val);
    if data.contains_key(setting) && data[setting] == ValueView::String(old_val) {
        if old_val == new_val {
            assert(d1.insert(setting, ValueView::String(new_val)) =~= d1);
        }
    }
}

/// Removing settings under the named prefixes twice equals removing them
/// once: re-running the downgrade direction is a no-op the second time.
pub proof fn remove_prefixed_idempotent(d: MigrationDataView, prefixes: Seq<Seq<char>>)
    ensures
        spec_remove_prefixed(spec_remove_prefixed(d, prefixes), prefixes) == spec_remove_prefixed(
            d,
            prefixes,
        ),
{
    assert(spec_remove_prefixed(spec_remove_prefixed(d, prefixes), prefixes).data
        =~= spec_remove_prefixed(d, prefixes).data);
}

/// Removing a matching string twice equals removing it once: after the first
/// removal the setting is gone.
pub proof fn remove_matching_string_idempotent(
    data: Map<Seq<char>, ValueView>,
    setting: Seq<char>,
    old_val: Seq<char>,
)
    ensures
        spec_remove_matching_string(
            spec_remove_matching_string(data, setting, old_val),
            setting,
            old_val,
        ) == spec_remove_matching_string(data, setting, old_val),
{
}

/// Pass-through: a setting other than the device-list-strategy setting is
/// unchanged by a successful downgrade of that migration.
pub proof fn replace_device_list_strategy_pass_through(
    data: Map<Seq<char>, ValueView>,
    k: Seq<char>,
)
    requires
        k != "settings.kubelet-device-plugins.nvidia.device-list-strategy"@,
    ensures
        spec_replace_device_list_strategy(data) is Ok ==> {
            let d2 = spec_replace_device_list_strategy(data)->Ok_0;
            &&& d2.contains_key(k) == data.contains_key(k)
            &&& (data.contains_key(k) ==> d2[k] == data[k])
        },
{
}

/// Single-value metadata replacement is idempotent in one direction, for the
/// same reason string replacement is: after a successful replacement the
/// value no longer equals `old_val`, or the rewrite writes the same value.
pub proof fn replace_metadata_value_idempotent(
    m: Map<Seq<char>, Map<Seq<char>, ValueView>>,
    setting: Seq<char>,
    key: Seq<char>,
    old_val: Seq<char>,
    new_val: Seq<char>,
)
    ensures
        spec_replace_metadata_value(
            spec_replace_metadata_value(m, setting, key, old_val, new_val),
            setting,
            key,
            old_val,
            new_val,
        ) == spec_replace_metadata_value(m, setting, key, old_val, new_val),
{
    let m1 = spec_replace_metadata_value(m, setting, key, old_val, new_val);
    if m.contains_key(setting) && m[setting].contains_key(key) && m[setting][key]
        == ValueView::String(old_val) {
        if old_val == new_val {
            assert(m1[setting].insert(key, ValueView::String(new_val)) =~= m1[setting]);
            assert(m1.insert(setting, m1[setting]) =~= m1);
        }
    }
}

/// The weak-settings cleanup is idempotent: the first run clears the whole
/// metadata map, so the second run finds no setting marked weak and changes
/// nothing.
pub proof fn remove_weak_and_clear_idempotent(d: MigrationDataView)
    ensures
        spec_remove_weak_and_clear(spec_remove_weak_and_clear(d)) == spec_remove_weak_and_clear(d),
{
    let d1 = spec_remove_weak_and_clear(d);
    assert(spec_remove_weak_and_clear(d1).data =~= d1.data);
}

} // verus!
