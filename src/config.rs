use vstd::prelude::*;

verus! {

/// The settings of one migration run.
pub struct MigrationConfig {
    pub app_runtime_version: String,
    pub mule_maven_plugin_version: String,
    pub munit_version: String,
    pub mule_artifact: MuleArtifactConfig,
    pub replacements: Vec<ReplacementRule>,
}

/// The values that the artifact descriptor should hold.
pub struct MuleArtifactConfig {
    pub min_mule_version: String,
    pub java_specification_versions: Vec<String>,
}

/// A literal text substitution: every `from` becomes `to`.
pub struct ReplacementRule {
    pub from: String,
    pub to: String,
}

/// Every rule replaces a non-empty text.
pub open spec fn rules_wf(rules: Seq<ReplacementRule>) -> bool {
    forall|k: int| 0 <= k < rules.len() ==> (#[trigger] rules[k]).from@.len() > 0
}

impl MigrationConfig {
    pub open spec fn wf(&self) -> bool {
        rules_wf(self.replacements@)
    }

    /// Whether every replacement rule has a non-empty `from`.
    pub fn is_valid(&self) -> (r: bool)
        ensures
            r == self.wf(),
    {
        let mut k: usize = 0;
        while k < self.replacements.len()
            invariant
                k <= self.replacements.len(),
                forall|j: int| 0 <= j < k ==> (#[trigger] self.replacements@[j]).from@.len() > 0,
            decreases self.replacements.len() - k,
        {
            if self.replacements[k].from.as_str().is_empty() {
                return false;
            }
            k = k + 1;
        }
        true
    }
}

} // verus!
