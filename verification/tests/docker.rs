use orbitbuild::docker::{
    buildx_builder_exists, buildx_create_command, buildx_ensure_builder, buildx_ensure_result,
    buildx_inspect_command, buildx_remove_command, buildx_use_command, platform_to_arch,
    socket_path_for_platform, DockerError, ProcessOutcome,
};
use orbitbuild::path::FsPath;

#[test]
fn test_buildx_create_command_no_append() {
    let cmd = buildx_create_command(
        "orbit",
        &FsPath::from_text("/tmp/orbit-arm64.sock"),
        "linux/arm64",
        false,
    );
    assert_eq!(cmd.program, "docker");
    let args = cmd.get_args();
    assert_eq!(
        *args,
        vec![
            "buildx",
            "create",
            "--name",
            "orbit",
            "--driver",
            "remote",
            "unix:///tmp/orbit-arm64.sock",
            "--platform",
            "linux/arm64",
        ]
    );
    assert!(!args.contains(&"--append".to_string()));
}

#[test]
fn test_buildx_create_command_with_append() {
    let cmd = buildx_create_command(
        "orbit",
        &FsPath::from_text("/tmp/orbit-amd64.sock"),
        "linux/amd64",
        true,
    );
    let args = cmd.get_args();
    assert!(args.contains(&"--append".to_string()));
    assert_eq!(
        *args,
        vec![
            "buildx",
            "create",
            "--name",
            "orbit",
            "--driver",
            "remote",
            "unix:///tmp/orbit-amd64.sock",
            "--platform",
            "linux/amd64",
            "--append",
        ]
    );
}

#[test]
fn test_buildx_inspect_command() {
    let cmd = buildx_inspect_command("orbit");
    assert_eq!(*cmd.get_args(), vec!["buildx", "inspect", "orbit"]);
}

#[test]
fn test_buildx_remove_command_args() {
    let cmd = buildx_remove_command("orbit");
    assert_eq!(*cmd.get_args(), vec!["buildx", "rm", "orbit"]);
}

#[test]
fn buildx_use_command_args() {
    let cmd = buildx_use_command("orbit");
    assert_eq!(*cmd.get_args(), vec!["buildx", "use", "orbit"]);
}

#[test]
fn test_socket_path_for_platform() {
    let path = socket_path_for_platform(&FsPath::from_text("/tmp"), "linux/arm64");
    assert_eq!(path, FsPath::from_text("/tmp/orbit-arm64.sock"));

    let path = socket_path_for_platform(&FsPath::from_text("/var/run"), "linux/amd64");
    assert_eq!(path, FsPath::from_text("/var/run/orbit-amd64.sock"));
}

#[test]
fn test_platform_to_arch() {
    assert_eq!(platform_to_arch("linux/arm64"), "arm64");
    assert_eq!(platform_to_arch("linux/amd64"), "amd64");
}

#[test]
fn arch_follows_the_last_slash() {
    assert_eq!(platform_to_arch("linux/arm/v7"), "v7");
    assert_eq!(platform_to_arch("linux/"), "");
}

#[test]
fn platforms_of_one_architecture_share_a_socket() {
    let dir = FsPath::from_text("/tmp");
    assert_eq!(
        socket_path_for_platform(&dir, "linux/arm64"),
        socket_path_for_platform(&dir, "linux/v8/arm64")
    );
    assert_ne!(
        socket_path_for_platform(&dir, "linux/arm64"),
        socket_path_for_platform(&dir, "linux/amd64")
    );
}

#[test]
fn existing_builders_are_appended_to() {
    let socket = FsPath::from_text("/tmp/orbit-arm64.sock");
    let exists = ProcessOutcome::Exited { success: true };
    let missing = ProcessOutcome::Exited { success: false };
    let no_docker = ProcessOutcome::NotStarted("no such file".to_string());
    assert!(buildx_builder_exists(&exists));
    assert!(!buildx_builder_exists(&missing));
    assert!(!buildx_builder_exists(&no_docker));
    assert_eq!(
        buildx_ensure_builder("orbit", &socket, "linux/arm64", &exists),
        buildx_create_command("orbit", &socket, "linux/arm64", true)
    );
    assert_eq!(
        buildx_ensure_builder("orbit", &socket, "linux/arm64", &missing),
        buildx_create_command("orbit", &socket, "linux/arm64", false)
    );
}

#[test]
fn builder_setup_reports_failures() {
    assert_eq!(buildx_ensure_result(ProcessOutcome::Exited { success: true }), Ok(()));
    let failed = buildx_ensure_result(ProcessOutcome::Exited { success: false }).unwrap_err();
    assert_eq!(failed, DockerError::CommandFailed);
    assert_eq!(failed.to_string(), "docker buildx create failed");
    let absent =
        buildx_ensure_result(ProcessOutcome::NotStarted("not found".to_string())).unwrap_err();
    assert_eq!(
        absent.to_string(),
        "failed to run docker buildx create — is docker installed? not found"
    );
}

#[test]
fn socket_urls_replace_what_is_not_text() {
    let socket = FsPath { bytes: vec![47, 116, 255] };
    let cmd = buildx_create_command("orbit", &socket, "linux/arm64", false);
    assert_eq!(cmd.get_args()[6], "unix:///t\u{fffd}");
}
