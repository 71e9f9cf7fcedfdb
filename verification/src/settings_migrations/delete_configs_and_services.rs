//! Newer releases delete and repopulate all configuration-file and service
//! entries whenever the migrator runs; nodes downgrading to versions before
//! that change must delete those keys here so they are rebuilt.

use vstd::prelude::*;
use crate::common_migrations::{remove_prefixed_from_map, matches_any_prefix,
    spec_remove_prefixed, strs_view};
use crate::datastore::{MigrationData, MigrationError};

verus! {

/// The key prefixes whose settings are deleted on downgrade.
pub open spec fn deleted_prefixes() -> Seq<Seq<char>> {
    seq!["configuration-files."@, "services."@]
}

/// Deletes every `configuration-files.` and `services.` entry on downgrade,
/// leaving metadata untouched.
pub struct DeleteConfigsAndServicesOnDowngradeMigration;

impl DeleteConfigsAndServicesOnDowngradeMigration {
    /// No work to do on upgrade: the same datastore is handed back.
    pub fn forward(&mut self, input: MigrationData) -> (r: Result<MigrationData, MigrationError>)
        requires
            input.wf(),
        ensures
            r == Result::<MigrationData, MigrationError>::Ok(input),
    {
        Ok(input)
    }

    /// On downgrade, remove every setting under the owned prefixes.
    pub fn backward(&mut self, input: MigrationData) -> (r: Result<MigrationData, MigrationError>)
        requires
            input.wf(),
        ensures
            r is Ok,
            r->Ok_0.wf(),
            r->Ok_0@ == spec_remove_prefixed(input@, deleted_prefixes()),
    {
        let prefixes: &[&str] = &["configuration-files.", "services."];
        proof {
            assert(strs_view(prefixes@) =~= deleted_prefixes());
        }
        let MigrationData { data, metadata } = input;
        let data = remove_prefixed_from_map(data, prefixes);
        proof {
            assert(data@ =~= input@.data.filter_keys(
                |k: Seq<char>| !matches_any_prefix(k, deleted_prefixes()),
            ));
        }
        Ok(MigrationData { data, metadata })
    }
}

} // verus!
