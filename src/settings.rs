//! Configuration of the transform and the context of one module.
use vstd::prelude::*;

verus! {

/// A boundary component: the export `component` of the module `from`.
#[derive(Debug, Clone, PartialEq, Eq, Hash)]
pub struct Boundary {
    /// The exported name of the component.
    pub component: String,
    /// The module the component is imported from.
    pub from: String,
}

pub struct BoundaryView {
    pub component: Seq<char>,
    pub from: Seq<char>,
}

impl View for Boundary {
    type V = BoundaryView;

    open spec fn view(&self) -> BoundaryView {
        BoundaryView { component: self.component@, from: self.from@ }
    }
}

impl Boundary {
    /// A copy of this boundary.
    pub fn duplicate(&self) -> (r: Boundary)
        ensures
            r@ == self@,
    {
        Boundary { component: self.component.clone(), from: self.from.clone() }
    }
}

/// Static configuration of the transform.
#[derive(Debug)]
pub struct Config {
    /// Whether the transform runs; when unset it runs in development only.
    pub enabled: Option<bool>,
    /// Boundaries besides the built-in `Suspense` of `react`, in order of
    /// precedence.
    pub boundaries: Vec<Boundary>,
}

pub struct ConfigView {
    pub enabled: Option<bool>,
    pub boundaries: Seq<BoundaryView>,
}

impl View for Config {
    type V = ConfigView;

    open spec fn view(&self) -> ConfigView {
        ConfigView {
            enabled: self.enabled,
            boundaries: self.boundaries@.map_values(|b: Boundary| b@),
        }
    }
}

/// The value of `enabled` when the configuration leaves it out: unset.
pub fn default_enabled() -> (r: Option<bool>)
    ensures
        r is None,
{
    None
}

/// What the host tells about the module being transformed.
#[derive(Debug)]
pub struct Context {
    /// The target environment.
    pub env_name: Environment,
    /// The name of the current file.
    pub filename: String,
}

pub struct ContextView {
    pub env_name: Environment,
    pub filename: Seq<char>,
}

impl View for Context {
    type V = ContextView;

    open spec fn view(&self) -> ContextView {
        ContextView { env_name: self.env_name, filename: self.filename@ }
    }
}

/// The target environment.
#[derive(Debug, Clone, Copy, PartialEq, Eq, Structural)]
pub enum Environment {
    /// Development, where tracking boundaries helps debugging.
    Development,
    /// Tests, where tracking is off as in production.
    Test,
    /// Production, where tracking is off.
    Production,
}

/// The environment a name stands for, if any.
pub open spec fn environment_named(s: Seq<char>) -> Option<Environment> {
    if s == "development"@ {
        Some(Environment::Development)
    } else if s == "test"@ {
        Some(Environment::Test)
    } else if s == "production"@ {
        Some(Environment::Production)
    } else {
        None
    }
}

impl Environment {
    /// Reads an environment name: `development`, `test` or `production`.
    /// Any other name gives `"{value} is not a valid environment"`.
    pub fn try_from(value: &str) -> (r: Result<Environment, String>)
        ensures
            r matches Ok(e) ==> environment_named(value@) == Some(e),
            r is Err <==> environment_named(value@) is None,
            r matches Err(m) ==> m@ == value@ + " is not a valid environment"@,
    {
        let v = value.to_owned();
        if v == String::from_str("development") {
            Ok(Environment::Development)
        } else if v == String::from_str("test") {
            Ok(Environment::Test)
        } else if v == String::from_str("production") {
            Ok(Environment::Production)
        } else {
            let mut m = v;
            m.append(" is not a valid environment");
            Err(m)
        }
    }
}

} // verus!
