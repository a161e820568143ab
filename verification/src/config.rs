//! Project configuration as plain values: what a project manifest holds
//! once parsed. Reading and writing the manifest file belongs to the
//! caller.

use vstd::prelude::*;

verus! {

/// A whole project configuration.
#[derive(Debug, Clone, PartialEq, Eq)]
pub struct ProjectConfig {
    pub project: ProjectInfo,
    pub build: BuildConfig,
    pub server: ServerConfig,
    pub optimize: OptimizeConfig,
}

/// The project's name and version.
#[derive(Debug, Clone, PartialEq, Eq)]
pub struct ProjectInfo {
    pub name: String,
    pub version: String,
}

/// Build settings.
#[derive(Debug, Clone, PartialEq, Eq)]
pub struct BuildConfig {
    pub auto_select: bool,
    pub runtime: Option<String>,
    pub sourcemaps: bool,
    pub output: String,
}

/// Development server settings.
#[derive(Debug, Clone, PartialEq, Eq)]
pub struct ServerConfig {
    pub port: u16,
    pub host: String,
    pub hmr: bool,
    pub cors_origins: Vec<String>,
}

/// Output optimization settings.
#[derive(Debug, Clone, PartialEq, Eq)]
pub struct OptimizeConfig {
    pub wasm_opt: String,
    pub strip: bool,
    pub lto: bool,
}

/// The default for boolean settings that are on unless turned off.
pub fn default_true() -> (r: bool)
    ensures
        r,
{
    true
}

/// The default output directory.
pub fn default_output() -> (r: String)
    ensures
        r@ == "dist"@,
{
    "dist".to_owned()
}

/// The default development server port.
pub fn default_port() -> (r: u16)
    ensures
        r == 3000,
{
    3000
}

/// The default development server host.
pub fn default_host() -> (r: String)
    ensures
        r@ == "localhost"@,
{
    "localhost".to_owned()
}

/// The default optimization level handed to the wasm optimizer.
pub fn default_wasm_opt() -> (r: String)
    ensures
        r@ == "z"@,
{
    "z".to_owned()
}

impl Default for BuildConfig {
    /// Automatic runtime selection, sourcemaps on, output to `dist`.
    fn default() -> (r: Self)
        ensures
            r.auto_select,
            r.runtime is None,
            r.sourcemaps,
            r.output@ == "dist"@,
    {
        BuildConfig {
            auto_select: default_true(),
            runtime: None,
            sourcemaps: default_true(),
            output: default_output(),
        }
    }
}

impl Default for ServerConfig {
    /// Port 3000 on localhost with hot reload and no extra origins.
    fn default() -> (r: Self)
        ensures
            r.port == 3000,
            r.host@ == "localhost"@,
            r.hmr,
            r.cors_origins@ == Seq::<String>::empty(),
    {
        ServerConfig {
            port: default_port(),
            host: default_host(),
            hmr: default_true(),
            cors_origins: Vec::new(),
        }
    }
}

impl Default for OptimizeConfig {
    /// Size-optimized output, stripped, with link-time optimization.
    fn default() -> (r: Self)
        ensures
            r.wasm_opt@ == "z"@,
            r.strip,
            r.lto,
    {
        OptimizeConfig { wasm_opt: default_wasm_opt(), strip: default_true(), lto: default_true() }
    }
}

/// The runtime name the configuration selects.
pub open spec fn runtime_spec(c: ProjectConfig) -> Seq<char> {
    if c.build.auto_select {
        "auto"@
    } else {
        match c.build.runtime {
            Some(s) => s@,
            None => "micro"@,
        }
    }
}

impl ProjectConfig {
    /// The project's name.
    pub fn name(&self) -> (r: &str)
        ensures
            r@ == self.project.name@,
    {
        self.project.name.as_str()
    }

    /// The project's version.
    pub fn version(&self) -> (r: &str)
        ensures
            r@ == self.project.version@,
    {
        self.project.version.as_str()
    }

    /// The selected runtime: `auto` under automatic selection, otherwise
    /// the configured runtime, defaulting to `micro`.
    pub fn runtime(&self) -> (r: &str)
        ensures
            r@ == runtime_spec(*self),
    {
        if self.build.auto_select {
            "auto"
        } else {
            match &self.build.runtime {
                Some(s) => s.as_str(),
                None => "micro",
            }
        }
    }
}

} // verus!
