use hills::application::runner;
use hills::config::{application_name, get_alias, resolve};
use hills::docker_compose::command;
use hills::docker_compose::runner as compose_runner;
use hills::lima::provision;
use hills::lima::template::provision_files::{all, script_of};
use hills::lima::template::{arch_of, image_url_for};
use hills::lima::{self, command as lima_command};
use hills::mutagen;
use hills::vm;

fn strs(v: &[&str]) -> Vec<String> {
    v.iter().map(|s| s.to_string()).collect()
}

#[test]
fn compose_command_line() {
    let mut c = command::new("alpha".to_string(), "/src/alpha".to_string());
    c.add_file("a.yml".to_string()).add_file("b.yml".to_string()).set_parallel(-3);
    assert_eq!(
        c.ps(),
        strs(&["docker", "compose", "ps", "-p", "alpha", "--project-directory", "/src/alpha", "-f", "a.yml", "-f", "b.yml", "--parallel", "-3"])
    );
    assert_eq!(c.make("up")[2], "up");
}

#[test]
fn compose_runner_command_line() {
    let mut r = compose_runner::new("p".to_string(), "/d".to_string());
    r.set_parallel(12);
    assert_eq!(r.ps(), strs(&["docker", "compose", "ps", "-p", "p", "--project-directory", "/d", "--parallel", "12"]));
}

#[test]
fn application_runner_command_line() {
    let r = runner::new("alpha".to_string(), "/src/alpha".to_string(), strs(&["x.yml", "override.yml"]));
    assert_eq!(
        r.ps(),
        strs(&["docker", "compose", "ps", "-p", "alpha", "--project-directory", "/src/alpha", "-f", "x.yml", "-f", "override.yml"])
    );
}

#[test]
fn lima_values() {
    let l = lima::new("lima".to_string(), 2, "8GB".to_string(), "30GB".to_string(), 2222);
    assert_eq!(l.os(), "Linux");
    assert_eq!(l.name(), "hills-lima");
    let c = lima_command::new(l.name());
    assert_eq!(c.name, "hills-lima");
    assert_eq!(mutagen::new("mutagen".to_string()).name, "hills");
}

#[test]
fn provisions() {
    let p = provision::new("echo".to_string(), true);
    assert_eq!(p.mode, "user");
    assert_eq!(provision::new("echo".to_string(), false).mode, "system");
    let d = provision::dispatch("body", "/etc/x");
    assert_eq!(d.script, "#!/bin/bash\ncat <<'EOF' > /etc/x\nbody\nEOF\n");
    assert_eq!(d.mode, "system");
}

#[test]
fn provision_files_listing() {
    let names = all();
    assert_eq!(names.len(), 11);
    assert_eq!(names[0], "/etc/multipath.conf");
    assert_eq!(names[3], "01_rootable.sh");
    let mut sorted = names.clone();
    sorted.sort();
    assert_eq!(sorted, names);
    assert_eq!(script_of("10_tz.sh"), "#!/bin/bash\nset -eux -o pipefail\ntimedatectl set-timezone Asia/Tokyo");
    for n in names.iter() {
        assert!(script_of(n).starts_with("#!/bin/bash\nset -eux -o pipefail\n"));
    }
}

#[test]
fn architectures_and_images() {
    assert_eq!(arch_of("x86_64").as_deref(), Some("x86_64"));
    assert_eq!(arch_of("arm64").as_deref(), Some("aarch64"));
    assert_eq!(arch_of("sparc"), None);
    assert!(image_url_for("x86_64").ends_with("amd64.img"));
    assert!(image_url_for("aarch64").ends_with("arm64.img"));
}

#[test]
fn vm_detection() {
    assert!(vm::on("Linux lima-hills 5.15.0 #1 SMP x86_64 GNU/Linux\n"));
    assert!(!vm::on("Linux other 5.15.0"));
    assert!(!vm::on("Linux lima-hillsx 5.15.0"));
    assert!(vm::should("Darwin mac.local 22.1.0"));
    assert!(!vm::should("Linux host 5.15.0"));
    vm::login();
    vm::shutdown();
    vm::destroy();
}

#[test]
fn aliases() {
    let aliases = vec![("a".to_string(), "alpha".to_string()), ("b".to_string(), "beta".to_string())];
    assert_eq!(get_alias(&aliases, &"beta".to_string()).as_deref(), Some("b"));
    assert_eq!(get_alias(&aliases, &"gamma".to_string()), None);
    let apps = strs(&["alpha", "beta", "gamma"]);
    assert_eq!(resolve(&aliases, &apps, &"a".to_string()).as_deref(), Some("alpha"));
    assert_eq!(resolve(&aliases, &apps, &"gamma".to_string()).as_deref(), Some("gamma"));
    assert_eq!(resolve(&aliases, &apps, &"zeta".to_string()), None);
}

#[test]
fn lima_status_from_listing() {
    let c = lima_command::new("hills-lima".to_string());
    assert_eq!(c.status_in("default,running\nhills-lima,poweroff\n"), Some(lima_command::Status::PowerOff));
    assert_eq!(c.status_in("hills-lima,running,extra"), Some(lima_command::Status::Running));
    assert_eq!(c.status_in("  hills-lima,aborted  "), Some(lima_command::Status::Aborted));
    assert_eq!(c.status_in("hills-lima,not_created"), Some(lima_command::Status::NotCreated));
    assert_eq!(c.status_in("default,running"), Some(lima_command::Status::NotCreated));
    assert_eq!(c.status_in(""), Some(lima_command::Status::NotCreated));
    assert_eq!(c.status_in("hills-lima,broken"), None);
    assert_eq!(c.status_in("hills-lima-x,running"), Some(lima_command::Status::NotCreated));
}

#[test]
fn application_file_names() {
    assert_eq!(application_name("alpha.toml").as_deref(), Some("alpha"));
    assert_eq!(application_name(".toml").as_deref(), Some(""));
    assert_eq!(application_name("alpha.yml"), None);
    assert_eq!(application_name("toml"), None);
}
