use vstd::prelude::*;

verus! {

/// Command-line options of the desktop front end.
pub struct Args {
    /// Path to the configuration file.
    pub config: Option<String>,
    /// Skip the confirmation prompt before executing commands.
    pub skip_confirmation: bool,
    /// Show every catalog entry, disregarding compatibility checks.
    pub override_validation: bool,
    /// Bypass the terminal size limit.
    pub size_bypass: bool,
    /// Enable mouse interaction.
    pub mouse: bool,
    /// Bypass the root user check.
    pub bypass_root: bool,
}

impl Default for Args {
    fn default() -> (r: Self)
        ensures
            r.config is None,
            !r.skip_confirmation,
            r.override_validation,
            r.size_bypass,
            r.mouse,
            r.bypass_root,
    {
        Args {
            config: None,
            skip_confirmation: false,
            override_validation: true,
            size_bypass: true,
            mouse: true,
            bypass_root: true,
        }
    }
}

/// Settings of the desktop front end.
#[derive(Clone, Copy, Debug, PartialEq, Eq, Structural)]
pub struct AppConfig {
    pub skip_confirmation: bool,
    pub override_validation: bool,
    pub size_bypass: bool,
    pub mouse: bool,
    pub bypass_root: bool,
}

impl Default for AppConfig {
    fn default() -> (r: Self)
        ensures
            r == (AppConfig {
                skip_confirmation: false,
                override_validation: true,
                size_bypass: true,
                mouse: true,
                bypass_root: true,
            }),
    {
        AppConfig {
            skip_confirmation: false,
            override_validation: true,
            size_bypass: true,
            mouse: true,
            bypass_root: true,
        }
    }
}

impl From<Args> for AppConfig {
    fn from(args: Args) -> (r: AppConfig) {
        AppConfig {
            skip_confirmation: args.skip_confirmation,
            override_validation: args.override_validation,
            size_bypass: args.size_bypass,
            mouse: args.mouse,
            bypass_root: args.bypass_root,
        }
    }
}

impl vstd::std_specs::convert::FromSpecImpl<Args> for AppConfig {
    open spec fn obeys_from_spec() -> bool {
        true
    }

    open spec fn from_spec(args: Args) -> AppConfig {
        AppConfig {
            skip_confirmation: args.skip_confirmation,
            override_validation: args.override_validation,
            size_bypass: args.size_bypass,
            mouse: args.mouse,
            bypass_root: args.bypass_root,
        }
    }
}

impl AppConfig {
    /// Whether the catalog provider should filter entries by compatibility: only when
    /// validation is not overridden.
    pub fn validates_catalog(&self) -> (r: bool)
        ensures
            r == !self.override_validation,
    {
        !self.override_validation
    }
}

} // verus!
