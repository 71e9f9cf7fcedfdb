//! We added new hostname patterns to be matched by the ECR credential
//! provider: the pattern list is replaced wholesale in each direction.

use vstd::prelude::*;
use crate::Direction;
use crate::common_migrations::{ListReplacement, ListReplacementView, ReplaceListsMigration,
    list_replacements_view, spec_replace_lists, strs_view};
use crate::datastore::{MigrationData, MigrationError};

verus! {

/// The one list replacement this version step performs.
pub open spec fn image_patterns_replacement() -> ListReplacementView {
    ListReplacementView {
        setting:
            "settings.kubernetes.credential-providers.ecr-credential-provider.image-patterns"@,
        old_vals:
            seq![
                "*.dkr.ecr.*.amazonaws.com"@,
                "*.dkr.ecr.*.amazonaws.com.cn"@,
                "*.dkr.ecr-fips.*.amazonaws.com"@,
                "*.dkr.ecr.eu-isoe-west-1.cloud.adc-e.uk"@,
                "*.dkr.ecr-fips.eu-isoe-west-1.cloud.adc-e.uk"@,
                "*.dkr.ecr.us-iso-east-1.c2s.ic.gov"@,
                "*.dkr.ecr.us-isob-east-1.sc2s.sgov.gov"@,
            ],
        new_vals:
            seq![
                "*.dkr.ecr.*.amazonaws.com"@,
                "*.dkr.ecr.*.amazonaws.com.cn"@,
                "*.dkr.ecr.*.on.aws"@,
                "*.dkr.ecr.*.on.amazonwebservices.com.cn"@,
                "*.dkr.ecr-fips.*.amazonaws.com"@,
                "*.dkr.ecr.*.cloud.adc-e.uk"@,
                "*.dkr.ecr-fips.*.cloud.adc-e.uk"@,
                "*.dkr.ecr.*.c2s.ic.gov"@,
                "*.dkr.ecr-fips.*.c2s.ic.gov"@,
                "*.dkr.ecr.*.sc2s.sgov.gov"@,
                "*.dkr.ecr-fips.*.sc2s.sgov.gov"@,
                "*.dkr.ecr.*.csp.hci.ic.gov"@,
                "*.dkr.ecr-fips.*.csp.hci.ic.gov"@,
                "public.ecr.aws"@,
            ],
    }
}

/// Apply this version step in the given direction: the old pattern list is
/// replaced with the new one on upgrade, and restored on downgrade.
pub fn run(direction: Direction, input: MigrationData) -> (r: Result<
    MigrationData,
    MigrationError,
>)
    requires
        input.wf(),
    ensures
        ({
            match spec_replace_lists(
                input@.data,
                seq![image_patterns_replacement()],
                direction is Forward,
            ) {
                Ok(d) => r is Ok && r->Ok_0.wf() && r->Ok_0@.data == d && r->Ok_0@.metadata
                    == input@.metadata,
                Err(e) => r is Err && r->Err_0@ == e,
            }
        }),
{
    let old_vals: &[&str] = &[
        "*.dkr.ecr.*.amazonaws.com",
        "*.dkr.ecr.*.amazonaws.com.cn",
        "*.dkr.ecr-fips.*.amazonaws.com",
        "*.dkr.ecr.eu-isoe-west-1.cloud.adc-e.uk",
        "*.dkr.ecr-fips.eu-isoe-west-1.cloud.adc-e.uk",
        "*.dkr.ecr.us-iso-east-1.c2s.ic.gov",
        "*.dkr.ecr.us-isob-east-1.sc2s.sgov.gov",
    ];
    let new_vals: &[&str] = &[
        "*.dkr.ecr.*.amazonaws.com",
        "*.dkr.ecr.*.amazonaws.com.cn",
        "*.dkr.ecr.*.on.aws",
        "*.dkr.ecr.*.on.amazonwebservices.com.cn",
        "*.dkr.ecr-fips.*.amazonaws.com",
        "*.dkr.ecr.*.cloud.adc-e.uk",
        "*.dkr.ecr-fips.*.cloud.adc-e.uk",
        "*.dkr.ecr.*.c2s.ic.gov",
        "*.dkr.ecr-fips.*.c2s.ic.gov",
        "*.dkr.ecr.*.sc2s.sgov.gov",
        "*.dkr.ecr-fips.*.sc2s.sgov.gov",
        "*.dkr.ecr.*.csp.hci.ic.gov",
        "*.dkr.ecr-fips.*.csp.hci.ic.gov",
        "public.ecr.aws",
    ];
    let mut reps: Vec<ListReplacement> = Vec::new();
    reps.push(
        ListReplacement {
            setting:
                "settings.kubernetes.credential-providers.ecr-credential-provider.image-patterns",
            old_vals,
            new_vals,
        },
    );
    proof {
        assert(strs_view(old_vals@) =~= image_patterns_replacement().old_vals);
        assert(strs_view(new_vals@) =~= image_patterns_replacement().new_vals);
        assert(reps@[0]@ == image_patterns_replacement());
        assert(list_replacements_view(reps@) =~= seq![image_patterns_replacement()]);
    }
    let mut migration = ReplaceListsMigration(reps);
    match direction {
        Direction::Forward => migration.forward(input),
        Direction::Backward => migration.backward(input),
    }
}

} // verus!
