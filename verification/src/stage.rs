use vstd::prelude::*;
use vstd::string::StringExecFns;

verus! {

/// Where the service runs.
#[derive(Clone, Copy, Debug, PartialEq, Eq, Structural)]
pub enum Stage {
    Local,
    Development,
    Production,
}

/// The text names no stage.
#[derive(Clone, Copy, Debug, PartialEq, Eq, Structural)]
pub struct InvalidStage;

impl Default for Stage {
    fn default() -> (stage: Stage)
        ensures
            stage == Stage::Development,
    {
        Stage::Development
    }
}

impl Stage {
    /// The short name of the stage.
    pub open spec fn label(self) -> Seq<char> {
        match self {
            Stage::Local => "Local"@,
            Stage::Development => "Dev"@,
            Stage::Production => "Prod"@,
        }
    }

    /// The stage that `text` names, by its short or its long name.
    pub open spec fn named(text: Seq<char>) -> Option<Stage> {
        if text == "Local"@ {
            Some(Stage::Local)
        } else if text == "Dev"@ || text == "Development"@ {
            Some(Stage::Development)
        } else if text == "Prod"@ || text == "Production"@ {
            Some(Stage::Production)
        } else {
            None
        }
    }

    /// Renders the stage as its short name.
    pub fn to_string(&self) -> (text: String)
        ensures
            text@ == self.label(),
    {
        match self {
            Stage::Local => String::from_str("Local"),
            Stage::Development => String::from_str("Dev"),
            Stage::Production => String::from_str("Prod"),
        }
    }

    /// Reads a stage from its short or its long name; any other text is
    /// refused.
    pub fn try_from_str(stage: &str) -> (parsed: Result<Stage, InvalidStage>)
        ensures
            match Stage::named(stage@) {
                Some(named) => parsed == Ok::<Stage, InvalidStage>(named),
                None => parsed == Err::<Stage, InvalidStage>(InvalidStage),
            },
    {
        let owned = String::from_str(stage);
        if owned == String::from_str("Local") {
            Ok(Stage::Local)
        } else if owned == String::from_str("Dev") || owned == String::from_str("Development") {
            Ok(Stage::Development)
        } else if owned == String::from_str("Prod") || owned == String::from_str("Production") {
            Ok(Stage::Production)
        } else {
            Err(InvalidStage)
        }
    }
}

impl std::str::FromStr for Stage {
    type Err = InvalidStage;

    /// Reads a stage from its short or its long name, as `try_from_str`
    /// does; any other text is refused.
    fn from_str(s: &str) -> (parsed: Result<Stage, InvalidStage>)
        ensures
            match Stage::named(s@) {
                Some(named) => parsed == Ok::<Stage, InvalidStage>(named),
                None => parsed == Err::<Stage, InvalidStage>(InvalidStage),
            },
    {
        Stage::try_from_str(s)
    }
}

/// The short name of a stage names that stage.
pub proof fn lemma_stage_round_trip(stage: Stage)
    ensures
        Stage::named(stage.label()) == Some(stage),
{
    reveal_strlit("Local");
    reveal_strlit("Dev");
    reveal_strlit("Development");
    reveal_strlit("Prod");
    reveal_strlit("Production");
    assert("Local"@.len() == 5);
    assert("Dev"@.len() == 3);
    assert("Development"@.len() == 11);
    assert("Prod"@.len() == 4);
    assert("Production"@.len() == 10);
}

} // verus!
