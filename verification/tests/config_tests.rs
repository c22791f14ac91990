use buildhub::config::AppConfig;
use buildhub::config::ArchitectureBuildSteps;
use buildhub::config::BuildStep;
use buildhub::config::CleanConfig;
use buildhub::config::EmailConfig;
use buildhub::config::GitConfig;
use buildhub::config::OemConfig;
use buildhub::config::PlatformArgs;
use buildhub::config::PlatformBuildSteps;
use buildhub::config::PlatformPaths;
use buildhub::config::ServerConfig;
use buildhub::services::BuildService;
use buildhub::broker::Broker;

fn named_step(name: &str) -> BuildStep {
    BuildStep {
        name: String::from(name),
        step_type: String::from("ninja"),
        target: Some(String::from("chrome")),
        state: Some(String::from("build chrome")),
        skip_if: None,
        description: None,
    }
}

fn arch_steps(x64: &str, arm64: Option<&str>) -> ArchitectureBuildSteps {
    ArchitectureBuildSteps {
        x64: vec![named_step(x64)],
        x86: Vec::new(),
        arm64: arm64.map(|n| vec![named_step(n)]).unwrap_or_default(),
        arm: Vec::new(),
    }
}

fn paths(tag: &str) -> PlatformPaths {
    PlatformPaths {
        windows: format!("C:/{}", tag),
        linux: format!("/opt/{}", tag),
        macos: format!("/Users/{}", tag),
        db: String::from("pkg.db"),
    }
}

fn sample_config() -> AppConfig {
    AppConfig {
        sign: None,
        custom_args: vec![String::from("use_goma=false")],
        build_args: Vec::new(),
        oem: OemConfig { oem_key: String::from("brand"), oems: Vec::new() },
        clean: CleanConfig { path: vec![String::from("gen")], out_path: Vec::new() },
        git: GitConfig { addr: String::from("git.example") },
        src: paths("src"),
        dev_tools: paths("tools"),
        python: None,
        backup_path: paths("backup"),
        server: ServerConfig {
            windows: vec![String::from("W1")],
            macos: vec![String::from("M1")],
            linux: Vec::new(),
            db_server: String::from("db.example:3000"),
        },
        email: EmailConfig {
            web: String::new(),
            smtp: String::from("smtp.example"),
            from: String::from("builder@example.com"),
            password: String::new(),
            to: Vec::new(),
        },
        gn_default_args: PlatformArgs {
            windows: vec![String::from("is_official_build=true")],
            linux: Vec::new(),
            macos: Vec::new(),
        },
        build_steps: PlatformBuildSteps {
            windows: arch_steps("win-x64", None),
            linux: arch_steps("linux-x64", None),
            macos: arch_steps("mac-x64", Some("mac-arm64")),
        },
    }
}

#[test]
fn platform_lookups() {
    let c = sample_config();
    assert_eq!(c.get_db_path(), "pkg.db");
    assert_eq!(c.get_src_path("linux").unwrap(), "/opt/src");
    assert_eq!(c.get_src_path("macos").unwrap(), "/Users/src");
    assert!(c.get_src_path("beos").is_err());
    assert_eq!(c.get_backup_path("windows").unwrap(), "C:/backup");
    assert_eq!(c.get_dev_tools_path("linux").map(String::as_str), Some("/opt/tools"));
    assert_eq!(c.get_python_path("linux"), None);
    assert_eq!(c.get_gn_default_args("windows").unwrap()[0], "is_official_build=true");
}

#[test]
fn build_steps_fall_back_to_x64() {
    let c = sample_config();
    assert_eq!(c.get_build_steps("macos", Some("arm64"))[0].name, "mac-arm64");
    assert_eq!(c.get_build_steps("macos", Some("x64"))[0].name, "mac-x64");
    assert_eq!(c.get_build_steps("linux", Some("arm64"))[0].name, "linux-x64");
    assert_eq!(c.get_build_steps("windows", None)[0].name, "win-x64");
    assert_eq!(c.get_build_steps("windows", Some("x86")).len(), 0);
    assert_eq!(c.get_build_steps("beos", None).len(), 0);
}

#[test]
fn the_build_service_wires_every_worker() {
    let svc = BuildService::new(sample_config());
    assert!(svc.ws_manager.is_none());
    assert_eq!(svc.builder.config.src.linux, "/opt/src");
    assert_eq!(svc.compiler.config.server.db_server, "db.example:3000");
    assert_eq!(svc.installer.config.src.macos, "/Users/src");
    assert_eq!(svc.backup_manager.config.backup_path.windows, "C:/backup");
    assert_eq!(svc.email_sender.config.email.smtp, "smtp.example");
    let with_broker = svc.with_ws_manager(Broker::new());
    assert!(with_broker.ws_manager.is_some());
}
