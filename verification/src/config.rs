//! Configuration data: server lists, paths, build step lists per platform
//! and architecture, and the lookups the orchestrator makes on them.
//!
//! Loading the file that fills these structures is the host's business;
//! here they are plain values, and every lookup has an exact contract.
//! Lookups that depend on the running platform take its name as a value.

use vstd::prelude::*;
use crate::error::AppError;

verus! {

/// Branding configuration kept for display purposes.
#[derive(Debug)]
pub struct OemConfig {
    pub oem_key: String,
    pub oems: Vec<String>,
}

/// Paths removed before a build: project-relative and output-relative.
#[derive(Debug)]
pub struct CleanConfig {
    pub path: Vec<String>,
    pub out_path: Vec<String>,
}

/// Source-control settings.
#[derive(Debug)]
pub struct GitConfig {
    pub addr: String,
}

/// One path per supported platform, plus the store location.
#[derive(Debug)]
pub struct PlatformPaths {
    pub windows: String,
    pub linux: String,
    pub macos: String,
    pub db: String,
}

/// The build machines per platform and the address of the coordinating
/// host.
#[derive(Debug)]
pub struct ServerConfig {
    pub windows: Vec<String>,
    pub macos: Vec<String>,
    pub linux: Vec<String>,
    pub db_server: String,
}

/// Notification mail settings.
#[derive(Debug)]
pub struct EmailConfig {
    pub web: String,
    pub smtp: String,
    pub from: String,
    pub password: String,
    pub to: Vec<String>,
}

/// Project-generator default arguments per platform.
#[derive(Debug)]
pub struct PlatformArgs {
    pub windows: Vec<String>,
    pub linux: Vec<String>,
    pub macos: Vec<String>,
}

/// One declarative pipeline step: its kind, optional target, the state the
/// task enters before it runs, and an optional skip predicate.
#[derive(Debug)]
pub struct BuildStep {
    pub name: String,
    pub step_type: String,
    pub target: Option<String>,
    pub state: Option<String>,
    pub skip_if: Option<String>,
    pub description: Option<String>,
}

impl Clone for BuildStep {
    /// An exact copy, field by field.
    fn clone(&self) -> (r: Self)
        ensures
            r == *self,
    {
        BuildStep {
            name: self.name.clone(),
            step_type: self.step_type.clone(),
            target: crate::task::clone_opt_string(&self.target),
            state: crate::task::clone_opt_string(&self.state),
            skip_if: crate::task::clone_opt_string(&self.skip_if),
            description: crate::task::clone_opt_string(&self.description),
        }
    }
}

/// Step lists per architecture; a platform fills the ones it supports.
#[derive(Debug)]
pub struct ArchitectureBuildSteps {
    pub x64: Vec<BuildStep>,
    pub x86: Vec<BuildStep>,
    pub arm64: Vec<BuildStep>,
    pub arm: Vec<BuildStep>,
}

/// Step lists per platform.
#[derive(Debug)]
pub struct PlatformBuildSteps {
    pub windows: ArchitectureBuildSteps,
    pub linux: ArchitectureBuildSteps,
    pub macos: ArchitectureBuildSteps,
}

/// The whole configuration of one orchestrator process.
#[derive(Debug)]
pub struct AppConfig {
    pub sign: Option<String>,
    pub custom_args: Vec<String>,
    pub build_args: Vec<String>,
    pub oem: OemConfig,
    pub clean: CleanConfig,
    pub git: GitConfig,
    pub src: PlatformPaths,
    pub dev_tools: PlatformPaths,
    pub python: Option<PlatformPaths>,
    pub backup_path: PlatformPaths,
    pub server: ServerConfig,
    pub email: EmailConfig,
    pub gn_default_args: PlatformArgs,
    pub build_steps: PlatformBuildSteps,
}

/// The platform-dependent member of a `PlatformPaths` record, by platform
/// name.
pub open spec fn spec_platform_path(p: &PlatformPaths, os: Seq<char>) -> Option<Seq<char>> {
    if os == "windows"@ {
        Some(p.windows@)
    } else if os == "linux"@ {
        Some(p.linux@)
    } else if os == "macos"@ {
        Some(p.macos@)
    } else {
        None
    }
}

/// Picks the platform-dependent member of a `PlatformPaths` record.
fn platform_path<'a>(p: &'a PlatformPaths, os: &str) -> (r: Result<&'a String, AppError>)
    ensures
        match r {
            Ok(s) => spec_platform_path(p, os@) == Some(s@),
            Err(e) => spec_platform_path(p, os@) is None && e == AppError::Validation,
        },
{
    if crate::text::str_eq_str(os, "windows") {
        Ok(&p.windows)
    } else if crate::text::str_eq_str(os, "linux") {
        Ok(&p.linux)
    } else if crate::text::str_eq_str(os, "macos") {
        Ok(&p.macos)
    } else {
        Err(AppError::Validation)
    }
}

/// The step list `get_build_steps` picks for a platform and architecture:
/// the architecture's own list, falling back to the platform's `x64` list
/// where an architecture-specific list is absent or empty.
pub open spec fn spec_build_steps_for(c: &AppConfig, os: Seq<char>, arch: Seq<char>) -> Seq<
    BuildStep,
> {
    if os == "windows"@ {
        if arch == "x86"@ {
            c.build_steps.windows.x86@
        } else {
            c.build_steps.windows.x64@
        }
    } else if os == "macos"@ {
        if arch == "arm64"@ && c.build_steps.macos.arm64@.len() > 0 {
            c.build_steps.macos.arm64@
        } else {
            c.build_steps.macos.x64@
        }
    } else if os == "linux"@ {
        if arch == "arm64"@ && c.build_steps.linux.arm64@.len() > 0 {
            c.build_steps.linux.arm64@
        } else if arch == "arm"@ && c.build_steps.linux.arm@.len() > 0 {
            c.build_steps.linux.arm@
        } else {
            c.build_steps.linux.x64@
        }
    } else {
        Seq::<BuildStep>::empty()
    }
}

/// Copies a step list, preserving its value.
fn clone_steps(v: &Vec<BuildStep>) -> (r: Vec<BuildStep>)
    ensures
        r@ == v@,
{
    let r = v.clone();
    proof {
        assert(r@ =~= v@);
    }
    r
}

impl AppConfig {
    /// The store location.
    pub fn get_db_path(&self) -> (r: &String)
        ensures
            r@ == self.src.db@,
    {
        &self.src.db
    }

    /// The source tree path on the given platform.
    pub fn get_src_path<'a>(&'a self, os: &str) -> (r: Result<&'a String, AppError>)
        ensures
            match r {
                Ok(s) => spec_platform_path(&self.src, os@) == Some(s@),
                Err(_) => spec_platform_path(&self.src, os@) is None,
            },
    {
        platform_path(&self.src, os)
    }

    /// The backup root on the given platform.
    pub fn get_backup_path<'a>(&'a self, os: &str) -> (r: Result<&'a String, AppError>)
        ensures
            match r {
                Ok(s) => spec_platform_path(&self.backup_path, os@) == Some(s@),
                Err(_) => spec_platform_path(&self.backup_path, os@) is None,
            },
    {
        platform_path(&self.backup_path, os)
    }

    /// The developer-tools path on the given platform, when one is set.
    pub fn get_dev_tools_path<'a>(&'a self, os: &str) -> (r: Option<&'a String>)
        ensures
            match r {
                Some(s) => spec_platform_path(&self.dev_tools, os@) == Some(s@),
                None => spec_platform_path(&self.dev_tools, os@) is None,
            },
    {
        match platform_path(&self.dev_tools, os) {
            Ok(s) => Some(s),
            Err(_) => None,
        }
    }

    /// The interpreter path on the given platform; set only for `linux` and
    /// `macos`, and only when the configuration carries one.
    pub fn get_python_path<'a>(&'a self, os: &str) -> (r: Option<&'a String>)
        ensures
            match r {
                Some(s) => match self.python {
                    Some(p) => (os@ == "linux"@ && s@ == p.linux@) || (os@ == "macos"@ && s@
                        == p.macos@),
                    None => false,
                },
                None => self.python is None || (os@ != "linux"@ && os@ != "macos"@),
            },
    {
        match &self.python {
            Some(p) => {
                if crate::text::str_eq_str(os, "linux") {
                    Some(&p.linux)
                } else if crate::text::str_eq_str(os, "macos") {
                    Some(&p.macos)
                } else {
                    None
                }
            },
            None => None,
        }
    }

    /// The project-generator default arguments on the given platform.
    pub fn get_gn_default_args<'a>(&'a self, os: &str) -> (r: Result<&'a Vec<String>, AppError>)
        ensures
            match r {
                Ok(v) => (os@ == "windows"@ && v == &self.gn_default_args.windows) || (os@
                    == "linux"@ && v == &self.gn_default_args.linux) || (os@ == "macos"@ && v
                    == &self.gn_default_args.macos),
                Err(_) => os@ != "windows"@ && os@ != "linux"@ && os@ != "macos"@,
            },
    {
        if crate::text::str_eq_str(os, "windows") {
            Ok(&self.gn_default_args.windows)
        } else if crate::text::str_eq_str(os, "linux") {
            Ok(&self.gn_default_args.linux)
        } else if crate::text::str_eq_str(os, "macos") {
            Ok(&self.gn_default_args.macos)
        } else {
            Err(AppError::Validation)
        }
    }

    /// The pipeline step list for a platform and architecture; without an
    /// architecture the `x64` list applies.
    pub fn get_build_steps(&self, os: &str, architecture: Option<&str>) -> (r: Vec<BuildStep>)
        ensures
            r@ == spec_build_steps_for(
                self,
                os@,
                match architecture {
                    Some(a) => a@,
                    None => "x64"@,
                },
            ),
    {
        let arch: &str = match architecture {
            Some(a) => a,
            None => "x64",
        };
        if crate::text::str_eq_str(os, "windows") {
            if crate::text::str_eq_str(arch, "x86") {
                clone_steps(&self.build_steps.windows.x86)
            } else {
                clone_steps(&self.build_steps.windows.x64)
            }
        } else if crate::text::str_eq_str(os, "macos") {
            if crate::text::str_eq_str(arch, "arm64") && self.build_steps.macos.arm64.len() > 0 {
                clone_steps(&self.build_steps.macos.arm64)
            } else {
                clone_steps(&self.build_steps.macos.x64)
            }
        } else if crate::text::str_eq_str(os, "linux") {
            if crate::text::str_eq_str(arch, "arm64") && self.build_steps.linux.arm64.len() > 0 {
                clone_steps(&self.build_steps.linux.arm64)
            } else if crate::text::str_eq_str(arch, "arm") && self.build_steps.linux.arm.len()
                > 0 {
                clone_steps(&self.build_steps.linux.arm)
            } else {
                clone_steps(&self.build_steps.linux.x64)
            }
        } else {
            let r: Vec<BuildStep> = Vec::new();
            proof {
                assert(r@ =~= Seq::<BuildStep>::empty());
            }
            r
        }
    }
}

/// The view of one pipeline step.
pub ghost struct StepV {
    pub name: Seq<char>,
    pub step_type: Seq<char>,
    pub target: Option<Seq<char>>,
    pub state: Option<Seq<char>>,
    pub skip_if: Option<Seq<char>>,
    pub description: Option<Seq<char>>,
}

/// The view of one pipeline step.
pub open spec fn sv(s: BuildStep) -> StepV {
    StepV {
        name: s.name@,
        step_type: s.step_type@,
        target: crate::task::spec_opt_view(s.target),
        state: crate::task::spec_opt_view(s.state),
        skip_if: crate::task::spec_opt_view(s.skip_if),
        description: crate::task::spec_opt_view(s.description),
    }
}

/// The view of a platform-path record.
pub ghost struct PathsV {
    pub windows: Seq<char>,
    pub linux: Seq<char>,
    pub macos: Seq<char>,
    pub db: Seq<char>,
}

/// The view of a platform-path record.
pub open spec fn pv(p: &PlatformPaths) -> PathsV {
    PathsV { windows: p.windows@, linux: p.linux@, macos: p.macos@, db: p.db@ }
}

/// The view of an architecture step table.
pub ghost struct ArchStepsV {
    pub x64: Seq<StepV>,
    pub x86: Seq<StepV>,
    pub arm64: Seq<StepV>,
    pub arm: Seq<StepV>,
}

/// The views of a step list.
pub open spec fn spec_step_views(v: Seq<BuildStep>) -> Seq<StepV> {
    v.map_values(|s: BuildStep| sv(s))
}

/// The view of an architecture step table.
pub open spec fn av(a: &ArchitectureBuildSteps) -> ArchStepsV {
    ArchStepsV {
        x64: spec_step_views(a.x64@),
        x86: spec_step_views(a.x86@),
        arm64: spec_step_views(a.arm64@),
        arm: spec_step_views(a.arm@),
    }
}

/// The whole configuration as a mathematical value.
pub ghost struct ConfigV {
    pub sign: Option<Seq<char>>,
    pub custom_args: Seq<Seq<char>>,
    pub build_args: Seq<Seq<char>>,
    pub oem_key: Seq<char>,
    pub oems: Seq<Seq<char>>,
    pub clean_path: Seq<Seq<char>>,
    pub clean_out_path: Seq<Seq<char>>,
    pub git_addr: Seq<char>,
    pub src: PathsV,
    pub dev_tools: PathsV,
    pub python: Option<PathsV>,
    pub backup_path: PathsV,
    pub server_windows: Seq<Seq<char>>,
    pub server_macos: Seq<Seq<char>>,
    pub server_linux: Seq<Seq<char>>,
    pub db_server: Seq<char>,
    pub email_web: Seq<char>,
    pub email_smtp: Seq<char>,
    pub email_from: Seq<char>,
    pub email_password: Seq<char>,
    pub email_to: Seq<Seq<char>>,
    pub gn_windows: Seq<Seq<char>>,
    pub gn_linux: Seq<Seq<char>>,
    pub gn_macos: Seq<Seq<char>>,
    pub steps_windows: ArchStepsV,
    pub steps_linux: ArchStepsV,
    pub steps_macos: ArchStepsV,
}

/// The views of a list of strings.
pub open spec fn svs(items: Seq<String>) -> Seq<Seq<char>> {
    items.map_values(|s: String| s@)
}

/// The whole configuration as a mathematical value.
pub open spec fn cv(c: &AppConfig) -> ConfigV {
    ConfigV {
        sign: crate::task::spec_opt_view(c.sign),
        custom_args: svs(c.custom_args@),
        build_args: svs(c.build_args@),
        oem_key: c.oem.oem_key@,
        oems: svs(c.oem.oems@),
        clean_path: svs(c.clean.path@),
        clean_out_path: svs(c.clean.out_path@),
        git_addr: c.git.addr@,
        src: pv(&c.src),
        dev_tools: pv(&c.dev_tools),
        python: match c.python {
            Some(p) => Some(pv(&p)),
            None => None,
        },
        backup_path: pv(&c.backup_path),
        server_windows: svs(c.server.windows@),
        server_macos: svs(c.server.macos@),
        server_linux: svs(c.server.linux@),
        db_server: c.server.db_server@,
        email_web: c.email.web@,
        email_smtp: c.email.smtp@,
        email_from: c.email.from@,
        email_password: c.email.password@,
        email_to: svs(c.email.to@),
        gn_windows: svs(c.gn_default_args.windows@),
        gn_linux: svs(c.gn_default_args.linux@),
        gn_macos: svs(c.gn_default_args.macos@),
        steps_windows: av(&c.build_steps.windows),
        steps_linux: av(&c.build_steps.linux),
        steps_macos: av(&c.build_steps.macos),
    }
}

/// Copies a list of strings, preserving its value.
pub fn clone_string_vec(v: &Vec<String>) -> (r: Vec<String>)
    ensures
        r@ == v@,
{
    let r = v.clone();
    proof {
        assert(r@ =~= v@);
    }
    r
}

/// Copies a platform-path record, preserving its view.
fn clone_paths(p: &PlatformPaths) -> (r: PlatformPaths)
    ensures
        pv(&r) == pv(p),
{
    PlatformPaths {
        windows: p.windows.clone(),
        linux: p.linux.clone(),
        macos: p.macos.clone(),
        db: p.db.clone(),
    }
}

/// Copies an architecture step table, preserving its view.
fn clone_arch_steps(a: &ArchitectureBuildSteps) -> (r: ArchitectureBuildSteps)
    ensures
        av(&r) == av(a),
{
    ArchitectureBuildSteps {
        x64: clone_steps(&a.x64),
        x86: clone_steps(&a.x86),
        arm64: clone_steps(&a.arm64),
        arm: clone_steps(&a.arm),
    }
}

/// Copies a whole configuration, preserving its view.
pub fn clone_config(c: &AppConfig) -> (r: AppConfig)
    ensures
        cv(&r) == cv(c),
{
    AppConfig {
        sign: crate::task::clone_opt_string(&c.sign),
        custom_args: clone_string_vec(&c.custom_args),
        build_args: clone_string_vec(&c.build_args),
        oem: OemConfig { oem_key: c.oem.oem_key.clone(), oems: clone_string_vec(&c.oem.oems) },
        clean: CleanConfig {
            path: clone_string_vec(&c.clean.path),
            out_path: clone_string_vec(&c.clean.out_path),
        },
        git: GitConfig { addr: c.git.addr.clone() },
        src: clone_paths(&c.src),
        dev_tools: clone_paths(&c.dev_tools),
        python: match &c.python {
            Some(p) => Some(clone_paths(p)),
            None => None,
        },
        backup_path: clone_paths(&c.backup_path),
        server: ServerConfig {
            windows: clone_string_vec(&c.server.windows),
            macos: clone_string_vec(&c.server.macos),
            linux: clone_string_vec(&c.server.linux),
            db_server: c.server.db_server.clone(),
        },
        email: EmailConfig {
            web: c.email.web.clone(),
            smtp: c.email.smtp.clone(),
            from: c.email.from.clone(),
            password: c.email.password.clone(),
            to: clone_string_vec(&c.email.to),
        },
        gn_default_args: PlatformArgs {
            windows: clone_string_vec(&c.gn_default_args.windows),
            linux: clone_string_vec(&c.gn_default_args.linux),
            macos: clone_string_vec(&c.gn_default_args.macos),
        },
        build_steps: PlatformBuildSteps {
            windows: clone_arch_steps(&c.build_steps.windows),
            linux: clone_arch_steps(&c.build_steps.linux),
            macos: clone_arch_steps(&c.build_steps.macos),
        },
    }
}

} // verus!
