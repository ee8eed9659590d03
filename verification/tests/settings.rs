use akasha::config::{AkashaConfig, MihomoConfig, ProxyGroup};
use akasha::pkginfo::{join, PkgInfo};
use akasha::shell::{
    install_content, mihomo_start_command, praxy_script, shell_from_path, uninstall_content, Shell,
};
use akasha::subscription::{usage_from_value, SubscriptionInfo};

fn group(name: &str, proxies: &[&str]) -> ProxyGroup {
    ProxyGroup {
        name: name.to_string(),
        group_type: "select".to_string(),
        proxies: proxies.iter().map(|p| p.to_string()).collect(),
    }
}

#[test]
fn mihomo_config_accessors() {
    let c = MihomoConfig { proxy_groups: vec![group("GLOBAL", &["DIRECT", "hk"]), group("Auto", &["jp"])] };
    assert_eq!(c.groups_name(), vec!["GLOBAL".to_string(), "Auto".to_string()]);
    assert_eq!(
        c.groups_proxies(),
        vec![vec!["DIRECT".to_string(), "hk".to_string()], vec!["jp".to_string()]]
    );
    assert_eq!(c.group_count(), 2);
}

#[test]
fn akasha_config_test_url_default() {
    let c = AkashaConfig::new("https://sub.example/x".to_string(), None);
    assert_eq!(c.subscription_link(), "https://sub.example/x");
    assert_eq!(c.test_url(), "http://cp.cloudflare.com/generate_204");
    let c = AkashaConfig::new("l".to_string(), Some("https://www.gstatic.com/generate_204".to_string()));
    assert_eq!(c.test_url(), "https://www.gstatic.com/generate_204");
}

fn info(headers: Vec<(&str, &[u8])>) -> SubscriptionInfo<u64> {
    SubscriptionInfo::new(
        "https://sub.example/x".to_string(),
        headers.into_iter().map(|(n, v)| (n.to_string(), v.to_vec())).collect(),
        "proxies: []".to_string(),
        1700000000,
    )
}

#[test]
fn usage_from_subscription_header() {
    let i = info(vec![
        ("content-type", b"text/yaml"),
        ("subscription-userinfo", b"upload=1024; download=2048; total=10737418240; expire=1767225600"),
    ]);
    let u = i.parse_usage().unwrap();
    assert_eq!(u.upload, 1024);
    assert_eq!(u.download, 2048);
    assert_eq!(u.total, 10737418240);
    assert_eq!(u.expire, Some("1767225600".to_string()));
    assert_eq!(i.get_updatetime(), 1700000000);
    assert_eq!(i.get_text(), "proxies: []");
    assert_eq!(i.url(), "https://sub.example/x");
}

#[test]
fn usage_edge_cases() {
    assert!(info(vec![("content-type", b"text/yaml")]).parse_usage().is_none());
    let u = usage_from_value(&b"upload=x;download= 7 ;expire=;other=3;total".to_vec());
    assert_eq!(u.upload, 0);
    assert_eq!(u.download, 7);
    assert_eq!(u.total, 0);
    assert_eq!(u.expire, None);
    let u = usage_from_value(&b"".to_vec());
    assert_eq!((u.upload, u.download, u.total), (0, 0, 0));
}

#[test]
fn subscription_update_replaces_response() {
    let mut i = info(vec![]);
    i.update(vec![("subscription-userinfo".to_string(), b"total=1".to_vec())], "new".to_string(), 5);
    assert_eq!(i.parse_usage().unwrap().total, 1);
    assert_eq!(i.get_text(), "new");
    assert_eq!(i.get_updatetime(), 5);
}

#[test]
fn path_join_like_std() {
    for (base, part) in [("/home/u/.config", "akasha"), ("/tmp/", "akasha"), ("", "x"), ("/a", "/b"), ("rel", "y/z")] {
        let expected = std::path::Path::new(base).join(part);
        assert_eq!(join(base, part), expected.to_str().unwrap(), "{base} {part}");
    }
}

fn pkg(manifest: Option<&str>) -> PkgInfo {
    PkgInfo::new(
        "akasha",
        "0.1.0",
        "someone",
        "/home/u/.config".to_string(),
        "/home/u/.cache".to_string(),
        "/tmp".to_string(),
        manifest.map(|m| m.to_string()),
    )
}

#[test]
fn package_paths() {
    let p = pkg(None);
    assert_eq!(p.get_name(), "akasha");
    assert_eq!(p.get_version(), "0.1.0");
    assert_eq!(p.get_authors(), "someone");
    assert_eq!(p.get_app_configdir(), "/home/u/.config/akasha");
    assert_eq!(p.get_app_cachedir(), "/home/u/.cache/akasha");
    assert_eq!(p.get_mihomo_socket(), "/tmp/akasha/mihomo.sock");
    assert_eq!(p.get_mihomo_config(), "/home/u/.config/akasha/config.yaml");
    assert_eq!(p.get_akasha_config(), "/home/u/.config/akasha/akasha.toml");
    let d = pkg(Some("/src/akasha"));
    assert_eq!(d.get_app_configdir(), "/src/akasha/config");
    assert_eq!(d.get_akasha_config(), "/src/akasha/config/akasha.toml");
    assert_eq!(
        mihomo_start_command(&p),
        "akasha-mihomo -d /home/u/.config/akasha -f /home/u/.config/akasha/config.yaml -ext-ctl-unix /tmp/akasha/mihomo.sock"
    );
}

#[test]
fn shells_and_init_lines() {
    assert_eq!(shell_from_path("/bin/zsh"), Some(Shell::Zsh));
    assert_eq!(shell_from_path("/usr/bin/zsh"), None);
    assert_eq!(Shell::Fish.name(), "fish");
    assert_eq!(Shell::Bash.init_line(), "eval \"$(/usr/local/bin/akasha init bash)\"");
    assert_eq!(Shell::Fish.rc_path("/home/u"), "/home/u/.config/fish/config.fish");
    assert_eq!(Shell::Zsh.rc_path("/home/u/"), "/home/u/.zshrc");
}

#[test]
fn install_adds_line_once() {
    let line = Shell::Zsh.init_line();
    assert_eq!(install_content("", &line), Some(format!("{line}\n")));
    let once = install_content("alias x=y", &line).unwrap();
    assert_eq!(once, format!("alias x=y\n{line}\n"));
    assert_eq!(install_content(&once, &line), None);
    assert_eq!(install_content(&format!("  {line}  \r\nmore"), &line), None);
}

#[test]
fn uninstall_removes_line() {
    let line = Shell::Bash.init_line();
    let installed = install_content("alias x=y\n", &line).unwrap();
    assert_eq!(uninstall_content(&installed, &line), "alias x=y\n");
    assert_eq!(uninstall_content(&format!("{line}\n"), &line), "");
    assert_eq!(uninstall_content(&format!("a\n {line}\nb"), &line), "a\nb\n");
    assert_eq!(uninstall_content("", &line), "");
}

#[test]
fn praxy_scripts_use_port() {
    let bash = praxy_script(Shell::Bash, "7890");
    assert!(bash.starts_with("\nfunction praxy() {\n"));
    assert!(bash.contains("export http_proxy=http://127.0.0.1:7890\n"));
    assert!(bash.contains("export all_proxy=socks5://127.0.0.1:7890\n"));
    assert_eq!(bash, praxy_script(Shell::Zsh, "7890"));
    let fish = praxy_script(Shell::Fish, "7890");
    assert!(fish.contains("set -gx https_proxy http://127.0.0.1:7890\n"));
    assert!(fish.ends_with("    end\nend\n"));
}

#[test]
fn uninstall_undoes_install() {
    let line = Shell::Fish.init_line();
    for content in ["", "a\n", "a\n\nb c\n", "\n\n"] {
        let installed = install_content(content, &line).unwrap();
        assert_eq!(uninstall_content(&installed, &line), content);
    }
    let installed = install_content("\n", &line).unwrap();
    assert_eq!(uninstall_content(&installed, &line), "");
}

#[test]
fn usage_header_is_the_first_userinfo_value() {
    let with = info(vec![("a", b"1"), ("subscription-userinfo", b"upload=1"), ("subscription-userinfo", b"x")]);
    assert_eq!(with.usage_header(), Some(b"upload=1".to_vec()));
    assert_eq!(info(vec![("a", b"1")]).usage_header(), None);
}
