//! The NVIDIA Kubernetes device plugin's device-list-strategy setting changed
//! from a string to a list that also accepts the new value `cdi-cri`.  On
//! downgrade the list form and the new value are folded back into a single
//! string that old versions understand.

use vstd::prelude::*;
use crate::common_migrations::{all_strings, string_elems, all_string_elems, clone_values};
use crate::datastore::{MigrationData, MigrationError, MigrationErrorView};
use crate::strings::str_eq;
use crate::value::{Value, ValueView, lemma_values_view, values_view};

verus! {

/// The downgrade transformation on the data map.  A list becomes its first
/// element (or `volume-mounts` when it is empty or starts with `cdi-cri`); a
/// string stays itself unless it is `cdi-cri`, which becomes `volume-mounts`;
/// any other shape is a fatal error; an absent setting is left alone.
pub open spec fn spec_replace_device_list_strategy(data: Map<Seq<char>, ValueView>) -> Result<
    Map<Seq<char>, ValueView>,
    MigrationErrorView,
> {
    let setting = "settings.kubelet-device-plugins.nvidia.device-list-strategy"@;
    if !data.contains_key(setting) {
        Ok(data)
    } else {
        match data[setting] {
            ValueView::Array(elems) => {
                if !all_strings(elems) {
                    Err(MigrationErrorView::ReplaceListContents { setting: setting, data: elems })
                } else {
                    let strs = string_elems(elems);
                    let newv = if strs.len() == 0 || strs[0] == "cdi-cri"@ {
                        "volume-mounts"@
                    } else {
                        strs[0]
                    };
                    Ok(data.insert(setting, ValueView::String(newv)))
                }
            },
            ValueView::String(s) => Ok(
                data.insert(
                    setting,
                    ValueView::String(
                        if s == "cdi-cri"@ {
                            "volume-mounts"@
                        } else {
                            s
                        },
                    ),
                ),
            ),
            _ => Err(MigrationErrorView::InvalidSettingType { data: setting }),
        }
    }
}

/// We changed the type of the device-list-strategy setting from a string to a
/// list and accept `cdi-cri` as a new valid value; on downgrade both are
/// reduced to a single string old versions can read.
pub struct ReplaceDeviceListStrategy;

impl ReplaceDeviceListStrategy {
    /// New versions accept every old shape of the setting, so there is no
    /// work to do on upgrade.
    pub fn forward(&mut self, input: MigrationData) -> (r: Result<MigrationData, MigrationError>)
        requires
            input.wf(),
        ensures
            r == Result::<MigrationData, MigrationError>::Ok(input),
    {
        Ok(input)
    }

    /// On downgrade, fold the list form and the `cdi-cri` value back into a
    /// single string.
    pub fn backward(&mut self, input: MigrationData) -> (r: Result<MigrationData, MigrationError>)
        requires
            input.wf(),
        ensures
            ({
                match spec_replace_device_list_strategy(input@.data) {
                    Ok(d) => r is Ok && r->Ok_0.wf() && r->Ok_0@.data == d && r->Ok_0@.metadata
                        == input@.metadata,
                    Err(e) => r is Err && r->Err_0@ == e,
                }
            }),
    {
        broadcast use lemma_values_view;

        let setting = "settings.kubelet-device-plugins.nvidia.device-list-strategy";
        let MigrationData { data, metadata } = input;
        let mut data = data;
        let mut new_string: Option<String> = None;
        let mut bad_list: Option<Vec<Value>> = None;
        let mut bad_type = false;
        match data.get(setting) {
            Some(v) => match v {
                Value::Array(elems) => {
                    if !all_string_elems(elems) {
                        bad_list = Some(clone_values(elems));
                    } else if elems.len() == 0 {
                        new_string = Some("volume-mounts".to_owned());
                    } else {
                        match &elems[0] {
                            Value::String(s) => {
                                if str_eq(s.as_str(), "cdi-cri") {
                                    new_string = Some("volume-mounts".to_owned());
                                } else {
                                    new_string = Some(s.clone());
                                }
                                proof {
                                    assert(string_elems(values_view(elems@))[0] == s@);
                                }
                            },
                            _ => {
                                proof {
                                    assert(!(values_view(elems@)[0] is String));
                                    assert(false);
                                }
                            },
                        }
                    }
                },
                Value::String(s) => {
                    if str_eq(s.as_str(), "cdi-cri") {
                        new_string = Some("volume-mounts".to_owned());
                    } else {
                        new_string = Some(s.clone());
                    }
                },
                _ => {
                    bad_type = true;
                },
            },
            None => {},
        }
        match bad_list {
            Some(arr) => {
                return Err(
                    MigrationError::ReplaceListContents { setting: setting.to_owned(), data: arr },
                );
            },
            None => {},
        }
        if bad_type {
            return Err(MigrationError::InvalidSettingType { data: setting.to_owned() });
        }
        match new_string {
            Some(ns) => {
                data.insert(setting.to_owned(), Value::String(ns));
            },
            None => {},
        }
        Ok(MigrationData { data, metadata })
    }
}

} // verus!
