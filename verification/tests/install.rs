use vibedev::auto_update::UpdateError;
use vibedev::build_info::{package_version, repo_dir};
use vibedev::install::{
    check_dependencies, cleanup_windows, finalize_auto_update_on_quit, install_release,
    install_release_linux, install_release_macos, install_release_windows, join_path,
    linux_rsync_args, linux_rsync_install_hint, tar_args, target_path, Installer,
};

fn strings(v: &[&str]) -> Vec<String> {
    v.iter().map(|s| s.to_string()).collect()
}

#[test]
fn each_system_has_its_installer() {
    assert_eq!(install_release("macos"), Ok(Installer::MacOs));
    assert_eq!(install_release("linux"), Ok(Installer::Linux));
    assert_eq!(install_release("windows"), Ok(Installer::Windows));
    assert_eq!(install_release("plan9"), Err("not supported: plan9".to_string()));
    assert_eq!(target_path("linux"), Ok("zed.tar.gz".to_string()));
    assert_eq!(target_path("macos"), Ok("Zed.dmg".to_string()));
    assert_eq!(target_path("windows"), Ok("Zed.exe".to_string()));
    assert_eq!(target_path("plan9"), Err("not supported: plan9".to_string()));
}

#[test]
fn the_hint_fits_the_distribution() {
    let hint = |release: &str| linux_rsync_install_hint(Some(release));
    assert_eq!(hint("NAME=x\nID=arch\n"), "Install it with: sudo pacman -S rsync");
    assert_eq!(
        hint("ID=linuxmint\nID_LIKE=\"ubuntu debian\"\n"),
        "Install it with: sudo apt install rsync"
    );
    assert_eq!(hint("  ID=\"Fedora\"  \r\n"), "Install it with: sudo dnf install rsync");
    assert_eq!(
        hint("ID=\"rocky\"\nID_LIKE=\"rhel centos fedora\""),
        "Install it with: sudo dnf install rsync"
    );
    assert_eq!(hint("ID=nixos"), "Install pkgs.rsync from nixpkgs");
    assert_eq!(hint("ID=void"), "Please install rsync using your package manager");
    assert_eq!(hint("VERSION_ID=arch"), "Please install rsync using your package manager");
    // the first rule that fits counts
    assert_eq!(
        hint("ID=debian\nID_LIKE=arch\n"),
        "Install it with: sudo pacman -S rsync"
    );
    assert_eq!(
        linux_rsync_install_hint(None),
        "Please install rsync using your package manager"
    );
}

#[test]
fn rsync_is_needed_on_two_systems() {
    assert_eq!(check_dependencies("linux", true, None), Ok(()));
    assert_eq!(check_dependencies("windows", false, None), Ok(()));
    assert_eq!(
        check_dependencies("linux", false, Some("ID=debian")),
        Err(UpdateError {
            missing_dependency: true,
            message: "rsync is required for auto-updates but is not installed. Install it with: sudo apt install rsync"
                .to_string(),
        })
    );
    assert_eq!(
        check_dependencies("macos", false, None),
        Err(UpdateError {
            missing_dependency: false,
            message: "Could not auto-update because the required rsync utility was not found."
                .to_string(),
        })
    );
}

#[test]
fn linux_replaces_the_running_program() {
    let plan = install_release_linux(
        "stable",
        "/home/me",
        Some("/opt/zed.app/libexec/zed-editor"),
    );
    assert_eq!(plan.from, "zed.app");
    assert_eq!(plan.to, "/opt/");
    assert_eq!(plan.program, "/opt/zed.app/libexec/zed-editor");
    let plan = install_release_linux("preview", "/home/me", Some("/usr/bin/zed"));
    assert_eq!(plan.from, "zed-preview.app");
    assert_eq!(plan.to, "/home/me/.local");
    assert_eq!(plan.program, "/home/me/.local/zed-preview.app/libexec/zed-editor");
    assert_eq!(install_release_linux("stable", "/home/me/", None).to, "/home/me/.local");
    assert_eq!(join_path("", "a"), "a");
    assert_eq!(tar_args("a.tgz", "d"), strings(&["-xzf", "a.tgz", "-C", "d"]));
    assert_eq!(linux_rsync_args("f", "t"), strings(&["-av", "--delete", "f", "t"]));
}

#[test]
fn macos_copies_from_the_image() {
    let plan = install_release_macos(
        "/tmp/x",
        "/tmp/x/Zed.dmg",
        "/Applications/VibeDev.app",
        "VibeDev.app",
    );
    assert_eq!(plan.mount, "/tmp/x/VibeDev");
    assert_eq!(
        plan.attach,
        strings(&["attach", "-nobrowse", "/tmp/x/Zed.dmg", "-mountroot", "/tmp/x"])
    );
    assert_eq!(
        plan.rsync,
        strings(&[
            "-av",
            "--delete",
            "--exclude",
            "Icon?",
            "/tmp/x/VibeDev/VibeDev.app/",
            "/Applications/VibeDev.app",
        ])
    );
    assert_eq!(plan.detach, strings(&["detach", "-force", "/tmp/x/VibeDev"]));
}

#[test]
fn windows_runs_the_installer_silently() {
    let plan = install_release_windows("C:/up/Zed.exe");
    assert_eq!(plan.mark, "C:/up/Zed.exe:Zone.Identifier");
    assert_eq!(
        plan.args,
        strings(&["/verysilent", "/update=true", "/MERGETASKS=!desktopicon"])
    );
    assert_eq!(cleanup_windows(), strings(&["updates", "install", "old"]));
    assert_eq!(finalize_auto_update_on_quit(false), None);
    assert_eq!(finalize_auto_update_on_quit(true), Some(strings(&["--launch", "false"])));
}

#[test]
fn the_package_file_states_the_version() {
    let toml = "[package]\nname = \"zed\"\nversion = \"1.2.3\"\nversion = \"4\"\n";
    assert_eq!(package_version(toml), Some("1.2.3".to_string()));
    assert_eq!(package_version("rust-version = \"1\"\n"), None);
    assert_eq!(package_version("version = 1=2"), Some("1".to_string()));
    assert_eq!(package_version(""), None);
}

#[test]
fn the_sources_are_found_from_a_package() {
    let dir = |d: &str| repo_dir(d, false);
    assert_eq!(dir("/home/me/zed/crates/inspector_ui"), Some("/home/me/zed".to_string()));
    assert_eq!(dir("/zed//crates/./inspector_ui/"), Some("/zed".to_string()));
    assert_eq!(dir("/crates/inspector_ui"), Some("/".to_string()));
    assert_eq!(dir("crates/inspector_ui"), Some(String::new()));
    assert_eq!(dir("./crates/inspector_ui"), Some(".".to_string()));
    assert_eq!(dir("/zed/crates/other"), None);
    assert_eq!(dir("/zed/tools/inspector_ui"), None);
    assert_eq!(dir("/zed/crates/my_inspector_ui"), None);
    assert_eq!(dir("inspector_ui"), None);
    assert_eq!(dir(""), None);
    // as the paths of std do it
    for d in ["/a/b/crates/inspector_ui", "/a//crates//inspector_ui/.", "a/crates/inspector_ui"] {
        let path = std::path::Path::new(d);
        let two_up = path.parent().and_then(|p| p.parent()).map(|p| p.display().to_string());
        assert_eq!(dir(d), two_up);
    }
}

#[test]
fn the_sources_are_found_on_windows_too() {
    let dir = |d: &str| repo_dir(d, true);
    let some = |d: &str| Some(d.to_string());
    assert_eq!(dir(r"C:\src\zed\crates\inspector_ui"), some(r"C:\src\zed"));
    assert_eq!(dir(r"C:/src/zed/crates\inspector_ui\"), some("C:/src/zed"));
    assert_eq!(dir(r"C:\src\.\crates\.\inspector_ui\."), some(r"C:\src"));
    assert_eq!(dir(r"C:\crates\inspector_ui"), some(r"C:\"));
    assert_eq!(dir(r"C:crates\inspector_ui"), some("C:"));
    assert_eq!(dir(r"\crates\inspector_ui"), some(r"\"));
    assert_eq!(dir(r"crates\inspector_ui"), some(""));
    assert_eq!(dir(r"\\host\share\src\crates\inspector_ui"), some(r"\\host\share\src"));
    assert_eq!(dir(r"\\host\share\crates\inspector_ui"), some(r"\\host\share\"));
    assert_eq!(dir(r"\\crates\inspector_ui"), None);
    assert_eq!(dir(r"\\?\C:\src\crates\inspector_ui"), some(r"\\?\C:\src"));
    assert_eq!(dir(r"\\?\C:\crates\inspector_ui"), some(r"\\?\C:\"));
    assert_eq!(dir(r"\\?\C:\src/crates/inspector_ui"), None);
    assert_eq!(dir(r"\\?\C:\src\crates\inspector_ui\."), None);
    assert_eq!(dir(r"\\?\UNC\host\share\crates\inspector_ui"), some(r"\\?\UNC\host\share\"));
    assert_eq!(dir(r"C:\src\tools\inspector_ui"), None);
    assert_eq!(repo_dir(r"C:\src\crates\inspector_ui", false), None);
}
