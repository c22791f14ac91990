//! The service records the orchestrator wires together at startup.  Each
//! holds the configuration it works from; their behaviour lives in the
//! store, queue, pipeline and broker modules, and in the host around them.

use vstd::prelude::*;
use crate::broker::Broker;
use crate::config::AppConfig;
use crate::config::clone_config;
use crate::config::cv;

verus! {

/// Cleans build outputs and runs the project generator.
pub struct ProjectBuilder {
    pub config: AppConfig,
}

impl ProjectBuilder {
    /// A builder working from this configuration.
    pub fn new(config: AppConfig) -> (r: Self)
        ensures
            cv(&r.config) == cv(&config),
    {
        ProjectBuilder { config }
    }
}

/// Runs compiler invocations with live output capture.
pub struct Compiler {
    pub config: AppConfig,
}

impl Compiler {
    /// A compiler runner working from this configuration.
    pub fn new(config: AppConfig) -> (r: Self)
        ensures
            cv(&r.config) == cv(&config),
    {
        Compiler { config }
    }
}

/// Builds platform installers and combines universal outputs.
pub struct InstallerBuilder {
    pub config: AppConfig,
}

impl InstallerBuilder {
    /// An installer builder working from this configuration.
    pub fn new(config: AppConfig) -> (r: Self)
        ensures
            cv(&r.config) == cv(&config),
    {
        InstallerBuilder { config }
    }
}

/// Archives build artifacts.
pub struct BackupManager {
    pub config: AppConfig,
}

impl BackupManager {
    /// A backup manager working from this configuration.
    pub fn new(config: AppConfig) -> (r: Self)
        ensures
            cv(&r.config) == cv(&config),
    {
        BackupManager { config }
    }
}

/// Sends completion notifications.
pub struct EmailSender {
    pub config: AppConfig,
}

impl EmailSender {
    /// A sender working from this configuration.
    pub fn new(config: AppConfig) -> (r: Self)
        ensures
            cv(&r.config) == cv(&config),
    {
        EmailSender { config }
    }
}

/// The build service: the pipeline workers and their shared configuration,
/// with an optional live-log broker attached.
pub struct BuildService {
    pub config: AppConfig,
    pub builder: ProjectBuilder,
    pub compiler: Compiler,
    pub installer: InstallerBuilder,
    pub backup_manager: BackupManager,
    pub email_sender: EmailSender,
    pub ws_manager: Option<Broker>,
}

impl BuildService {
    /// Wires up every worker from one configuration; no broker attached
    /// yet.
    pub fn new(config: AppConfig) -> (r: Self)
        ensures
            cv(&r.config) == cv(&config),
            cv(&r.builder.config) == cv(&config),
            cv(&r.compiler.config) == cv(&config),
            cv(&r.installer.config) == cv(&config),
            cv(&r.backup_manager.config) == cv(&config),
            cv(&r.email_sender.config) == cv(&config),
            r.ws_manager is None,
    {
        let builder = ProjectBuilder::new(clone_config(&config));
        let compiler = Compiler::new(clone_config(&config));
        let installer = InstallerBuilder::new(clone_config(&config));
        let backup_manager = BackupManager::new(clone_config(&config));
        let email_sender = EmailSender::new(clone_config(&config));
        BuildService {
            config,
            builder,
            compiler,
            installer,
            backup_manager,
            email_sender,
            ws_manager: None,
        }
    }

    /// The same service with a live-log broker attached.
    pub fn with_ws_manager(self, ws_manager: Broker) -> (r: Self)
        ensures
            cv(&r.config) == cv(&self.config),
            r.ws_manager == Some(ws_manager),
    {
        BuildService { ws_manager: Some(ws_manager), ..self }
    }
}

} // verus!
