use nix_sandbox_mcp_daemon::config::{
    artifact_environment, default_idle_timeout, default_max_lifetime, default_memory,
    default_mount_point, default_project_path, default_timeout, BackendType, Config,
    EnvironmentTable, EnvironmentMeta, InheritEnv, ProjectConfig, SandboxArtifactMeta,
};

fn bundled_python() -> EnvironmentMeta {
    EnvironmentMeta {
        backend: BackendType::Jail,
        exec_path: "/nix/store/xxx-python-sandbox/bin/run".to_string(),
        session_exec: None,
        timeout_seconds: 30,
        memory_mb: 512,
        interpreter_type: None,
    }
}

fn config_with_python() -> Config {
    let mut environments = EnvironmentTable::new();
    environments.insert("python".to_string(), bundled_python());
    Config {
        environments,
        project: None,
        session: None,
    }
}

#[test]
fn merge_environments_override() {
    // A bundled "python" environment ...
    let mut config = config_with_python();

    // ... merged with a scanned "python" of a different exec path ...
    let env_meta = EnvironmentMeta {
        backend: BackendType::Jail,
        exec_path: String::from("/custom/bin/run"),
        interpreter_type: Some("python".to_string()),
        session_exec: Some("/some/path".to_string()),
        timeout_seconds: 30,
        memory_mb: 512,
    };
    let mut envs = EnvironmentTable::new();
    envs.insert(String::from("python"), env_meta);

    // ... lets the scanned version win.
    config.merge_environments(envs);
    assert_eq!(
        config.environments.get("python").unwrap().exec_path,
        "/custom/bin/run"
    );
}

#[test]
fn merge_environments_additive() {
    let mut config = config_with_python();

    let env_meta_python = EnvironmentMeta {
        backend: BackendType::Jail,
        exec_path: String::from("/custom/bin/run"),
        interpreter_type: Some("python".to_string()),
        session_exec: Some("/some/path".to_string()),
        timeout_seconds: 30,
        memory_mb: 512,
    };
    let env_meta_ruby = EnvironmentMeta {
        backend: BackendType::Jail,
        exec_path: String::from("/custom-ruby/bin/run"),
        interpreter_type: Some("bash".to_string()),
        session_exec: Some("/some/other/path".to_string()),
        timeout_seconds: 30,
        memory_mb: 512,
    };
    let mut envs = EnvironmentTable::new();
    envs.insert(String::from("python"), env_meta_python);
    envs.insert(String::from("ruby"), env_meta_ruby);

    config.merge_environments(envs);
    assert_eq!(
        config.environments.get("python").unwrap().exec_path,
        "/custom/bin/run"
    );
    assert_eq!(
        config.environments.get("ruby").unwrap().exec_path,
        "/custom-ruby/bin/run"
    );
}

#[test]
fn resolved_project_dir_from_config() {
    let config = Config {
        environments: EnvironmentTable::new(),
        project: Some(ProjectConfig {
            path: "/home/user/myproject".to_string(),
            mount_point: "/project".to_string(),
            use_flake: false,
            inherit_env: InheritEnv { vars: Vec::new() },
        }),
        session: None,
    };
    // Falls back to the declared path when no override is set.
    assert_eq!(
        config.resolved_project_dir(None, false, ""),
        Some("/home/user/myproject".to_string())
    );
}

#[test]
fn resolved_project_dir_none_without_config() {
    let config = Config {
        environments: EnvironmentTable::new(),
        project: None,
        session: None,
    };
    assert!(config.resolved_project_dir(None, false, "").is_none());
}

#[test]
fn resolved_project_dir_override_wins() {
    let config = Config {
        environments: EnvironmentTable::new(),
        project: Some(ProjectConfig {
            path: "/declared".to_string(),
            mount_point: "/project".to_string(),
            use_flake: false,
            inherit_env: InheritEnv { vars: Vec::new() },
        }),
        session: None,
    };
    assert_eq!(
        config.resolved_project_dir(Some("/override".to_string()), true, ""),
        Some("/override".to_string())
    );
    // An override that is not a directory is ignored.
    assert_eq!(
        config.resolved_project_dir(Some("/override".to_string()), false, ""),
        Some("/declared".to_string())
    );
}

#[test]
fn resolved_project_dir_relative_joins_cwd() {
    let config = Config {
        environments: EnvironmentTable::new(),
        project: Some(ProjectConfig {
            path: "proj".to_string(),
            mount_point: "/project".to_string(),
            use_flake: false,
            inherit_env: InheritEnv { vars: Vec::new() },
        }),
        session: None,
    };
    assert_eq!(
        config.resolved_project_dir(None, false, "/home/user"),
        Some("/home/user/proj".to_string())
    );
}

#[test]
fn project_mount_from_config() {
    let config = Config {
        environments: EnvironmentTable::new(),
        project: Some(ProjectConfig {
            path: "/tmp".to_string(),
            mount_point: "/custom-mount".to_string(),
            use_flake: false,
            inherit_env: InheritEnv { vars: Vec::new() },
        }),
        session: None,
    };
    // Falls back to the declared mount point when no override is set.
    assert_eq!(config.project_mount(None), "/custom-mount");
}

#[test]
fn project_mount_default() {
    let config = Config {
        environments: EnvironmentTable::new(),
        project: None,
        session: None,
    };
    assert_eq!(config.project_mount(None), "/project");
}

#[test]
fn project_mount_override_wins() {
    let config = Config {
        environments: EnvironmentTable::new(),
        project: None,
        session: None,
    };
    assert_eq!(
        config.project_mount(Some("/elsewhere".to_string())),
        "/elsewhere"
    );
}

#[test]
fn artifact_environment_assembles_descriptor() {
    let meta = SandboxArtifactMeta {
        name: "data-science".to_string(),
        interpreter_type: "python".to_string(),
        timeout_seconds: 60,
        memory_mb: 1024,
    };
    let env = artifact_environment(
        "/sandboxes/data-science/bin/run".to_string(),
        Some("/sandboxes/data-science/bin/session-run".to_string()),
        &meta,
    );
    assert_eq!(env.backend, BackendType::Jail);
    assert_eq!(env.exec_path, "/sandboxes/data-science/bin/run");
    assert_eq!(
        env.session_exec.as_deref(),
        Some("/sandboxes/data-science/bin/session-run")
    );
    assert_eq!(env.timeout_seconds, 60);
    assert_eq!(env.memory_mb, 1024);
    assert_eq!(env.interpreter_type.as_deref(), Some("python"));
}

#[test]
fn environment_table_lookup_and_names() {
    let mut table = EnvironmentTable::new();
    assert!(!table.contains("python"));
    table.insert("python".to_string(), bundled_python());
    table.insert("shell".to_string(), bundled_python());
    assert!(table.contains("python"));
    assert!(table.contains("shell"));
    assert!(!table.contains("node"));
    assert!(table.get("node").is_none());
    let names = table.names();
    assert_eq!(names, vec!["python".to_string(), "shell".to_string()]);
    // A re-insertion overrides but does not duplicate the name.
    table.insert("python".to_string(), bundled_python());
    assert_eq!(table.names().len(), 2);
}

#[test]
fn default_values() {
    assert_eq!(default_timeout(), 30);
    assert_eq!(default_memory(), 512);
    assert_eq!(default_idle_timeout(), 300);
    assert_eq!(default_max_lifetime(), 3600);
    assert_eq!(default_project_path(), ".");
    assert_eq!(default_mount_point(), "/project");
}
