use vstd::prelude::*;

use crate::resolver::str_eq;

verus! {

/// How aggressively the loader hides itself from the server.
#[derive(Debug, Clone, Copy, PartialEq, Eq, Structural)]
pub enum HideLevel {
    Disabled,
    Low,
    Medium,
    High,
    Maximum,
}

impl HideLevel {
    /// The Russian label shown for this level.
    pub fn label_ru(self) -> (r: &'static str)
        ensures
            self is Disabled ==> r@ == "Отключен"@,
            self is Low ==> r@ == "Низкий"@,
            self is Medium ==> r@ == "Средний"@,
            self is High ==> r@ == "Высокий"@,
            self is Maximum ==> r@ == "Максимальный"@,
    {
        match self {
            HideLevel::Disabled => "Отключен",
            HideLevel::Low => "Низкий",
            HideLevel::Medium => "Средний",
            HideLevel::High => "Высокий",
            HideLevel::Maximum => "Максимальный",
        }
    }

    /// The loader's own name for this level.
    pub fn to_marsey_value(self) -> (r: &'static str)
        ensures
            self is Disabled ==> r@ == "Disabled"@,
            self is Low ==> r@ == "Duplicit"@,
            self is Medium ==> r@ == "Normal"@,
            self is High ==> r@ == "Explicit"@,
            self is Maximum ==> r@ == "Unconditional"@,
    {
        match self {
            HideLevel::Disabled => "Disabled",
            HideLevel::Low => "Duplicit",
            HideLevel::Medium => "Normal",
            HideLevel::High => "Explicit",
            HideLevel::Maximum => "Unconditional",
        }
    }

    /// The level a settings key stands for, `None` for an unknown key.
    pub open spec fn spec_from_key(key: Seq<char>) -> Option<HideLevel> {
        if key == "disabled"@ {
            Some(HideLevel::Disabled)
        } else if key == "low"@ {
            Some(HideLevel::Low)
        } else if key == "medium"@ {
            Some(HideLevel::Medium)
        } else if key == "high"@ {
            Some(HideLevel::High)
        } else if key == "maximum"@ {
            Some(HideLevel::Maximum)
        } else {
            None
        }
    }

    /// Reads a settings key back to its level, as `spec_from_key` says.
    pub fn from_key(key: &str) -> (r: Option<HideLevel>)
        ensures
            r == Self::spec_from_key(key@),
    {
        if str_eq(key, "disabled") {
            Some(HideLevel::Disabled)
        } else if str_eq(key, "low") {
            Some(HideLevel::Low)
        } else if str_eq(key, "medium") {
            Some(HideLevel::Medium)
        } else if str_eq(key, "high") {
            Some(HideLevel::High)
        } else if str_eq(key, "maximum") {
            Some(HideLevel::Maximum)
        } else {
            None
        }
    }

    /// The settings key of this level.
    pub open spec fn as_key_spec(self) -> Seq<char> {
        match self {
            HideLevel::Disabled => "disabled"@,
            HideLevel::Low => "low"@,
            HideLevel::Medium => "medium"@,
            HideLevel::High => "high"@,
            HideLevel::Maximum => "maximum"@,
        }
    }

    /// The key this level is stored under in the settings file.
    pub fn as_key(self) -> (r: &'static str)
        ensures
            r@ == self.as_key_spec(),
    {
        match self {
            HideLevel::Disabled => "disabled",
            HideLevel::Low => "low",
            HideLevel::Medium => "medium",
            HideLevel::High => "high",
            HideLevel::Maximum => "maximum",
        }
    }
}

/// The security-relevant launcher settings.
#[derive(Debug)]
pub struct SecuritySettings {
    pub hide_level: HideLevel,
    pub auto_login: bool,
    pub disable_redial: bool,
    pub autodelete_hwid: bool,
}

impl Default for SecuritySettings {
    /// The defaults a fresh installation starts with.
    fn default() -> (r: Self)
        ensures
            r.hide_level is Medium,
            r.auto_login,
            !r.disable_redial,
            !r.autodelete_hwid,
    {
        SecuritySettings {
            hide_level: HideLevel::Medium,
            auto_login: true,
            disable_redial: false,
            autodelete_hwid: false,
        }
    }
}

/// Everything the launcher persists as settings.
#[derive(Debug)]
pub struct LauncherSettings {
    pub security: SecuritySettings,
}

impl Default for LauncherSettings {
    fn default() -> (r: Self)
        ensures
            r.security.hide_level is Medium,
            r.security.auto_login,
            !r.security.disable_redial,
            !r.security.autodelete_hwid,
    {
        LauncherSettings { security: SecuritySettings::default() }
    }
}

} // verus!
