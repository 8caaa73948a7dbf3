use vstd::prelude::*;

use crate::rules::text_is;
use crate::sinks::Vulnerability;

verus! {

/// A SARIF 2.1.0 log.
pub struct SarifReport {
    pub version: String,
    pub schema: String,
    pub runs: Vec<SarifRun>,
}

pub struct SarifRun {
    pub tool: SarifTool,
    pub results: Vec<SarifResult>,
}

pub struct SarifTool {
    pub driver: SarifDriver,
}

pub struct SarifDriver {
    pub name: String,
    pub information_uri: String,
    pub rules: Vec<SarifRule>,
}

pub struct SarifRule {
    pub id: String,
    pub short_description: SarifMessage,
    pub default_configuration: SarifDefaultConfig,
    pub help_uri: String,
}

pub struct SarifDefaultConfig {
    pub level: String,
}

pub struct SarifResult {
    pub rule_id: String,
    pub level: String,
    pub message: SarifMessage,
    pub locations: Vec<SarifLocation>,
}

pub struct SarifLocation {
    pub physical_location: SarifPhysicalLocation,
}

pub struct SarifPhysicalLocation {
    pub artifact_location: SarifArtifactLocation,
    pub region: SarifRegion,
}

pub struct SarifArtifactLocation {
    pub uri: String,
}

pub struct SarifRegion {
    pub start_line: usize,
}

pub struct SarifMessage {
    pub text: String,
}

/// The SARIF level of a finding: `note` for an informational one (severity
/// `INFO`, the Sentinel Guard hints), `error` for any other.
pub open spec fn level_of(severity: Seq<char>) -> Seq<char> {
    if severity == "INFO"@ {
        "note"@
    } else {
        "error"@
    }
}

/// `r` reports finding `v`: same rule, message, file and line, the level
/// that its severity gives, one location.
pub open spec fn reports(r: SarifResult, v: Vulnerability) -> bool {
    &&& r.rule_id@ == v.id@
    &&& r.level@ == level_of(v.severity@)
    &&& r.message.text@ == v.message@
    &&& r.locations.len() == 1
    &&& r.locations@[0].physical_location.artifact_location.uri@ == v.file@
    &&& r.locations@[0].physical_location.region.start_line == v.line
}

/// The SARIF result for one finding.
pub fn sarif_result(v: &Vulnerability) -> (r: SarifResult)
    ensures
        reports(r, *v),
{
    let mut locations: Vec<SarifLocation> = Vec::new();
    locations.push(
        SarifLocation {
            physical_location: SarifPhysicalLocation {
                artifact_location: SarifArtifactLocation { uri: v.file.clone() },
                region: SarifRegion { start_line: v.line },
            },
        },
    );
    let level = if text_is(&v.severity, "INFO") {
        String::from_str("note")
    } else {
        String::from_str("error")
    };
    SarifResult {
        rule_id: v.id.clone(),
        level,
        message: SarifMessage { text: v.message.clone() },
        locations,
    }
}

/// Whether some finding is a Sentinel Guard cryptography hint.
pub open spec fn has_crypto_finding(findings: Seq<Vulnerability>) -> bool {
    exists|i: int| 0 <= i < findings.len() && #[trigger] findings[i].id@ == "TOTAL-CRYPTO-001"@
}

/// The SARIF log for a list of findings: one run of the analyzer with its
/// rule `TOTAL-SQL-001` (SQL injection), followed by `TOTAL-CRYPTO-001`
/// (Sentinel Guard) exactly when some finding is a cryptography hint, and
/// one result per finding, in order.
pub fn sarif_report(findings: &Vec<Vulnerability>) -> (r: SarifReport)
    ensures
        r.version@ == "2.1.0"@,
        r.schema@ == "https://json.schemastore.org/sarif-2.1.0.json"@,
        r.runs.len() == 1,
        r.runs@[0].tool.driver.name@ == "TOTAL-Analyzer-v2.0"@,
        r.runs@[0].tool.driver.information_uri@ == "https://total-protocol.com"@,
        r.runs@[0].tool.driver.rules.len() == if has_crypto_finding(findings@) {
            2int
        } else {
            1int
        },
        r.runs@[0].tool.driver.rules@[0].id@ == "TOTAL-SQL-001"@,
        r.runs@[0].tool.driver.rules@[0].short_description.text@ == "SQL injection"@,
        r.runs@[0].tool.driver.rules@[0].default_configuration.level@ == "error"@,
        r.runs@[0].tool.driver.rules@[0].help_uri@ == "https://total-protocol.com/docs/sql-injection"@,
        has_crypto_finding(findings@) ==> {
            &&& r.runs@[0].tool.driver.rules@[1].id@ == "TOTAL-CRYPTO-001"@
            &&& r.runs@[0].tool.driver.rules@[1].short_description.text@ == "Software cryptography"@
            &&& r.runs@[0].tool.driver.rules@[1].default_configuration.level@ == "note"@
            &&& r.runs@[0].tool.driver.rules@[1].help_uri@ == "https://total-protocol.com/docs/sentinel-guard"@
        },
        r.runs@[0].results.len() == findings.len(),
        forall|i: int| 0 <= i < findings.len() ==> reports(#[trigger] r.runs@[0].results@[i], findings@[i]),
{
    let mut rules: Vec<SarifRule> = Vec::new();
    rules.push(
        SarifRule {
            id: String::from_str("TOTAL-SQL-001"),
            short_description: SarifMessage { text: String::from_str("SQL injection") },
            default_configuration: SarifDefaultConfig { level: String::from_str("error") },
            help_uri: String::from_str("https://total-protocol.com/docs/sql-injection"),
        },
    );
    let mut crypto = false;
    let mut k: usize = 0;
    while k < findings.len()
        invariant
            0 <= k <= findings.len(),
            crypto <==> exists|j: int| 0 <= j < k && #[trigger] findings@[j].id@ == "TOTAL-CRYPTO-001"@,
        decreases findings.len() - k,
    {
        if text_is(&findings[k].id, "TOTAL-CRYPTO-001") {
            crypto = true;
        }
        k = k + 1;
    }
    if crypto {
        rules.push(
            SarifRule {
                id: String::from_str("TOTAL-CRYPTO-001"),
                short_description: SarifMessage { text: String::from_str("Software cryptography") },
                default_configuration: SarifDefaultConfig { level: String::from_str("note") },
                help_uri: String::from_str("https://total-protocol.com/docs/sentinel-guard"),
            },
        );
    }
    let mut results: Vec<SarifResult> = Vec::new();
    let mut i: usize = 0;
    while i < findings.len()
        invariant
            0 <= i <= findings.len(),
            results.len() == i,
            forall|j: int| 0 <= j < i ==> reports(#[trigger] results@[j], findings@[j]),
        decreases findings.len() - i,
    {
        results.push(sarif_result(&findings[i]));
        i = i + 1;
    }
    let mut runs: Vec<SarifRun> = Vec::new();
    runs.push(
        SarifRun {
            tool: SarifTool {
                driver: SarifDriver {
                    name: String::from_str("TOTAL-Analyzer-v2.0"),
                    information_uri: String::from_str("https://total-protocol.com"),
                    rules,
                },
            },
            results,
        },
    );
    SarifReport {
        version: String::from_str("2.1.0"),
        schema: String::from_str("https://json.schemastore.org/sarif-2.1.0.json"),
        runs,
    }
}

} // verus!
