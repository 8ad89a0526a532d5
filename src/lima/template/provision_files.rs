//! Files installed in the virtual machine while it is provisioned, each
//! with the script that writes it.

use crate::text::{concat, lit, same, views};
use vstd::prelude::*;

verus! {

/// Names of the provisioning files, in ascending order.
pub open spec fn file_names() -> Seq<Seq<char>> {
    seq![
        "/etc/multipath.conf"@,
        "/etc/sysctl.d/60-inotify-limit.conf"@,
        "/root/.profile"@,
        "01_rootable.sh"@,
        "10_ip_forwarding.sh"@,
        "10_tz.sh"@,
        "30_dns_server.sh"@,
        "30_dns_stub_listener.sh"@,
        "50_apt.sh"@,
        "70_docker.sh"@,
        "90_restart_service.sh"@,
    ]
}

/// Contents of the provisioning file `name`, if there is one by that name.
pub open spec fn body_of(name: Seq<char>) -> Option<Seq<char>> {
    if name == "/etc/multipath.conf"@ {
        Some(r#"
defaults {
    user_friendly_names yes
}

blacklist {
    device {
        vendor "VBOX"
        product "HARDDISK"
    }
}
"#@)
    } else if name == "/etc/sysctl.d/60-inotify-limit.conf"@ {
        Some(r#"
fs.inotify.max_user_watches=524288
fs.inotify.max_user_instances=256
"#@)
    } else if name == "/root/.profile"@ {
        Some(r#"
[ "$BASH" -a -f ~/.bashrc ] && . ~/.bashrc
tty -s && mesg n
"#@)
    } else if name == "01_rootable.sh"@ {
        Some("sudo cp ~/.ssh/authorized_keys /root/.ssh/"@)
    } else if name == "10_ip_forwarding.sh"@ {
        Some(r#"
bash -c "sed -i 's/^#net\.ipv4\.ip_forward/net.ipv4.ip_forward=1/' /etc/sysctl.conf"
bash -c "sed -i 's/^#net\.ipv6\.conf\.all\.forwarding/net.ipv6.conf.all.forwarding=1/' /etc/sysctl.conf"
"#@)
    } else if name == "10_tz.sh"@ {
        Some("timedatectl set-timezone Asia/Tokyo"@)
    } else if name == "30_dns_server.sh"@ {
        Some(r#"
bash -c "sed -i 's/^#DNS=.*$/DNS=8.8.8.8/' /etc/systemd/resolved.conf"
"#@)
    } else if name == "30_dns_stub_listener.sh"@ {
        Some(r#"
bash -c "sed -i 's/^#DNSStubListener=.*$/DNSStubListener=no/' /etc/systemd/resolved.conf"
"#@)
    } else if name == "50_apt.sh"@ {
        Some(r#"
apt update
apt -y install --no-install-recommends build-essential ruby mysql-client uidmap dbus-user-session net-tools
rm -rf /var/lib/apt/lists/* /var/cache/apt/*
"#@)
    } else if name == "70_docker.sh"@ {
        Some(r#"
curl -fsSL https://get.docker.com | sh

curl -L "https://github.com/docker/compose/releases/download/v2.10.0/docker-compose-$(uname -s)-$(uname -m)" -o /tmp/docker-compose
chmod +x /tmp/docker-compose
mv /tmp/docker-compose /usr/local/bin/docker-compose
"#@)
    } else if name == "90_restart_service.sh"@ {
        Some(r#"
sysctl --system

systemctl restart multipathd.service

ln -sf ../run/systemd/resolve/resolv.conf /etc/resolv.conf
systemctl restart systemd-resolved
"#@)
    } else {
        None
    }
}

/// A shell script that stops at the first failing command and then runs `body`.
pub open spec fn script_text(body: Seq<char>) -> Seq<char> {
    "#!/bin/bash\nset -eux -o pipefail\n"@ + body
}

/// The names of all provisioning files, in ascending order.
pub fn all() -> (r: Vec<String>)
    ensures
        views(r@) == file_names(),
{
    let mut r: Vec<String> = Vec::new();
    r.push(lit("/etc/multipath.conf"));
    r.push(lit("/etc/sysctl.d/60-inotify-limit.conf"));
    r.push(lit("/root/.profile"));
    r.push(lit("01_rootable.sh"));
    r.push(lit("10_ip_forwarding.sh"));
    r.push(lit("10_tz.sh"));
    r.push(lit("30_dns_server.sh"));
    r.push(lit("30_dns_stub_listener.sh"));
    r.push(lit("50_apt.sh"));
    r.push(lit("70_docker.sh"));
    r.push(lit("90_restart_service.sh"));
    proof {
        assert(views(r@) =~= file_names());
    }
    r
}

/// The provisioning script of the file `path`.
pub fn script_of(path: &str) -> (r: String)
    requires
        body_of(path@) is Some,
    ensures
        r@ == script_text(body_of(path@)->0),
{
    proof {
        reveal_strlit("/etc/multipath.conf");
        reveal_strlit("/etc/sysctl.d/60-inotify-limit.conf");
        reveal_strlit("/root/.profile");
        reveal_strlit("01_rootable.sh");
        reveal_strlit("10_ip_forwarding.sh");
        reveal_strlit("10_tz.sh");
        reveal_strlit("30_dns_server.sh");
        reveal_strlit("30_dns_stub_listener.sh");
        reveal_strlit("50_apt.sh");
        reveal_strlit("70_docker.sh");
        reveal_strlit("90_restart_service.sh");
    }
    if same(path, "/etc/multipath.conf") {
        script_with(r#"
defaults {
    user_friendly_names yes
}

blacklist {
    device {
        vendor "VBOX"
        product "HARDDISK"
    }
}
"#)
    } else if same(path, "/etc/sysctl.d/60-inotify-limit.conf") {
        script_with(r#"
fs.inotify.max_user_watches=524288
fs.inotify.max_user_instances=256
"#)
    } else if same(path, "/root/.profile") {
        script_with(r#"
[ "$BASH" -a -f ~/.bashrc ] && . ~/.bashrc
tty -s && mesg n
"#)
    } else if same(path, "01_rootable.sh") {
        script_with("sudo cp ~/.ssh/authorized_keys /root/.ssh/")
    } else if same(path, "10_ip_forwarding.sh") {
        script_with(r#"
bash -c "sed -i 's/^#net\.ipv4\.ip_forward/net.ipv4.ip_forward=1/' /etc/sysctl.conf"
bash -c "sed -i 's/^#net\.ipv6\.conf\.all\.forwarding/net.ipv6.conf.all.forwarding=1/' /etc/sysctl.conf"
"#)
    } else if same(path, "10_tz.sh") {
        script_with("timedatectl set-timezone Asia/Tokyo")
    } else if same(path, "30_dns_server.sh") {
        script_with(r#"
bash -c "sed -i 's/^#DNS=.*$/DNS=8.8.8.8/' /etc/systemd/resolved.conf"
"#)
    } else if same(path, "30_dns_stub_listener.sh") {
        script_with(r#"
bash -c "sed -i 's/^#DNSStubListener=.*$/DNSStubListener=no/' /etc/systemd/resolved.conf"
"#)
    } else if same(path, "50_apt.sh") {
        script_with(r#"
apt update
apt -y install --no-install-recommends build-essential ruby mysql-client uidmap dbus-user-session net-tools
rm -rf /var/lib/apt/lists/* /var/cache/apt/*
"#)
    } else if same(path, "70_docker.sh") {
        script_with(r#"
curl -fsSL https://get.docker.com | sh

curl -L "https://github.com/docker/compose/releases/download/v2.10.0/docker-compose-$(uname -s)-$(uname -m)" -o /tmp/docker-compose
chmod +x /tmp/docker-compose
mv /tmp/docker-compose /usr/local/bin/docker-compose
"#)
    } else {
        script_with(r#"
sysctl --system

systemctl restart multipathd.service

ln -sf ../run/systemd/resolve/resolv.conf /etc/resolv.conf
systemctl restart systemd-resolved
"#)
    }
}

/// `script` preceded by the interpreter line and strict shell options.
fn script_with(script: &str) -> (r: String)
    ensures
        r@ == script_text(script@),
{
    concat("#!/bin/bash\nset -eux -o pipefail\n", script)
}

} // verus!
