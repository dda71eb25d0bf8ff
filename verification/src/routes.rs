//! What the dispatcher itself answers to operational probes.

use vstd::prelude::*;

verus! {

/// The answer to a health probe.
#[derive(Debug)]
pub struct Health {
    pub status: &'static str,
    pub service: &'static str,
    pub stage: &'static str,
    pub version: String,
}

/// The dispatcher is up, in this version.
pub fn health(version: &str) -> (health: Health)
    ensures
        health.status@ == "ok"@,
        health.service@ == "viralefy-api"@,
        health.stage@ == "scaffold"@,
        health.version@ == version@,
{
    Health {
        status: "ok",
        service: "viralefy-api",
        stage: "scaffold",
        version: version.to_string(),
    }
}

/// The answer to a readiness probe.
#[derive(Debug)]
pub struct Readiness {
    pub ready: bool,
    pub db: &'static str,
    pub jwks: &'static str,
    pub upstream_core: &'static str,
    pub upstream_auth: &'static str,
    pub upstream_payments: &'static str,
    pub upstream_sender: &'static str,
}

/// The dispatcher takes requests. What it depends on is not looked at.
pub fn ready() -> (readiness: Readiness)
    ensures
        readiness.ready,
        readiness.db@ == "skipped (scaffold)"@,
        readiness.jwks@ == "skipped (scaffold)"@,
        readiness.upstream_core@ == "skipped (scaffold)"@,
        readiness.upstream_auth@ == "skipped (scaffold)"@,
        readiness.upstream_payments@ == "skipped (scaffold)"@,
        readiness.upstream_sender@ == "skipped (scaffold)"@,
{
    Readiness {
        ready: true,
        db: "skipped (scaffold)",
        jwks: "skipped (scaffold)",
        upstream_core: "skipped (scaffold)",
        upstream_auth: "skipped (scaffold)",
        upstream_payments: "skipped (scaffold)",
        upstream_sender: "skipped (scaffold)",
    }
}

} // verus!
