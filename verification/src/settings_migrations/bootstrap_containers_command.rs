//! We added a `command` setting under every host container and bootstrap
//! container; those settings must be removed again on downgrade.

use vstd::prelude::*;
use crate::Direction;
use crate::common_migrations::{AddPrefixSuffixMigration, PrefixSuffix, prefix_suffixes_view,
    spec_remove_prefix_suffixed};
use crate::datastore::{MigrationData, MigrationError};

verus! {

/// The prefix/suffix pairs naming the settings this version step added.
pub open spec fn added_prefix_suffixes() -> Seq<(Seq<char>, Seq<char>)> {
    seq![
        ("settings.host-containers"@, "command"@),
        ("settings.bootstrap-containers"@, "command"@),
    ]
}

/// Apply this version step in the given direction: a no-op on upgrade, and
/// removal of every matching setting on downgrade.
pub fn run(direction: Direction, input: MigrationData) -> (r: Result<
    MigrationData,
    MigrationError,
>)
    requires
        input.wf(),
    ensures
        direction is Forward ==> r == Result::<MigrationData, MigrationError>::Ok(input),
        direction is Backward ==> r is Ok && r->Ok_0.wf() && r->Ok_0@
            == spec_remove_prefix_suffixed(input@, added_prefix_suffixes()),
{
    let mut pairs: Vec<PrefixSuffix> = Vec::new();
    pairs.push(PrefixSuffix { prefix: "settings.host-containers", suffix: "command" });
    pairs.push(PrefixSuffix { prefix: "settings.bootstrap-containers", suffix: "command" });
    proof {
        assert(prefix_suffixes_view(pairs@) =~= added_prefix_suffixes());
    }
    let mut migration = AddPrefixSuffixMigration(pairs);
    match direction {
        Direction::Forward => migration.forward(input),
        Direction::Backward => migration.backward(input),
    }
}

} // verus!
