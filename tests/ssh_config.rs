use sftui::config::{SshConfig, SshHost};

fn create_test_config(content: &str) -> SshConfig {
    let mut config = SshConfig::new();
    config.parse_config(content);
    config
}

#[test]
fn test_exact_match() {
    let config = create_test_config(
        r#"
Host server1
    HostName 192.168.1.10
    User admin
    Port 2222

Host server2
    HostName server2.example.com
    User root
"#,
    );

    let host = config.get_host("server1").unwrap();
    assert_eq!(host.host, "server1");
    assert_eq!(host.hostname, Some("192.168.1.10".to_string()));
    assert_eq!(host.user, Some("admin".to_string()));
    assert_eq!(host.port, Some(2222));

    let host = config.get_host("server2").unwrap();
    assert_eq!(host.host, "server2");
    assert_eq!(host.hostname, Some("server2.example.com".to_string()));
    assert_eq!(host.user, Some("root".to_string()));

    assert!(config.get_host("server3").is_none());
}

#[test]
fn test_wildcard_asterisk() {
    let config = create_test_config(
        r#"
Host web.example.com
    User specific

Host prod-*.example.com
    User produser
    Port 22

Host *.example.com
    User webuser
    Port 443
"#,
    );

    let host = config.get_host("web.example.com").unwrap();
    assert_eq!(host.user, Some("specific".to_string()));

    let host = config.get_host("prod-app.example.com").unwrap();
    assert_eq!(host.user, Some("produser".to_string()));
    assert_eq!(host.port, Some(22));

    let host = config.get_host("test.example.com").unwrap();
    assert_eq!(host.user, Some("webuser".to_string()));
    assert_eq!(host.port, Some(443));

    assert!(config.get_host("example.org").is_none());
}

#[test]
fn test_wildcard_question_mark() {
    let config = create_test_config(
        r#"
Host server?
    HostName 10.0.0.%h
    User admin

Host server??
    HostName 10.1.0.%h
    User superadmin
"#,
    );

    let host = config.get_host("server1").unwrap();
    assert_eq!(host.hostname, Some("10.0.0.%h".to_string()));
    assert_eq!(host.user, Some("admin".to_string()));

    let host = config.get_host("server10").unwrap();
    assert_eq!(host.hostname, Some("10.1.0.%h".to_string()));
    assert_eq!(host.user, Some("superadmin".to_string()));

    assert!(config.get_host("server100").is_none());
}

#[test]
fn test_simple_negation() {
    let config = create_test_config(
        r#"
Host *.internal.com
    User internal
    Port 2222

Host !*.internal.com
    User external
    Port 22
"#,
    );

    let host = config.get_host("app.internal.com").unwrap();
    assert_eq!(host.user, Some("internal".to_string()));
    assert_eq!(host.port, Some(2222));
}

#[test]
fn test_pattern_precedence() {
    let config = create_test_config(
        r#"
Host specific.example.com
    User specific_user

Host *.example.com
    User wildcard_user

Host *
    User default_user
"#,
    );

    let host = config.get_host("specific.example.com").unwrap();
    assert_eq!(host.user, Some("specific_user".to_string()));

    let host = config.get_host("other.example.com").unwrap();
    assert_eq!(host.user, Some("wildcard_user".to_string()));

    let host = config.get_host("random.server.org").unwrap();
    assert_eq!(host.user, Some("default_user".to_string()));
}

#[test]
fn test_get_all_hosts_excludes_wildcards() {
    let config = create_test_config(
        r#"
Host server1
    HostName 192.168.1.1

Host server2
    HostName 192.168.1.2

Host *.example.com
    User webuser

Host server?
    User admin

Host * !*.internal
    User external
"#,
    );

    let all_hosts = config.get_all_hosts();
    let host_names: Vec<&str> = all_hosts.iter().map(|h| h.host.as_str()).collect();

    assert_eq!(host_names.len(), 2);
    assert!(host_names.contains(&"server1"));
    assert!(host_names.contains(&"server2"));

    assert!(!host_names.iter().any(|&h| h.contains('*')));
    assert!(!host_names.iter().any(|&h| h.contains('?')));
}

#[test]
fn test_complex_wildcard_scenarios() {
    let config = create_test_config(
        r#"
Host prod-db-*
    HostName %h.database.internal
    User dbadmin
    Port 5432

Host prod-*
    HostName %h.prod.internal
    User produser
    Port 22

Host *-db-*
    User dbuser
    Port 3306
"#,
    );

    let host = config.get_host("prod-db-master").unwrap();
    assert_eq!(host.hostname, Some("%h.database.internal".to_string()));
    assert_eq!(host.user, Some("dbadmin".to_string()));
    assert_eq!(host.port, Some(5432));

    let host = config.get_host("prod-web").unwrap();
    assert_eq!(host.hostname, Some("%h.prod.internal".to_string()));
    assert_eq!(host.user, Some("produser".to_string()));
    assert_eq!(host.port, Some(22));

    let host = config.get_host("test-db-slave").unwrap();
    assert_eq!(host.user, Some("dbuser".to_string()));
    assert_eq!(host.port, Some(3306));
}

#[test]
fn test_hostname_fallback() {
    let config = create_test_config(
        r#"
Host myserver
    User admin

Host *.local
    User localuser
"#,
    );

    let host = config.get_host("myserver").unwrap();
    assert_eq!(host.hostname, None);
}

#[test]
fn literal_pattern_matches_only_itself() {
    assert!(sftui::config::pattern_matches("server1", "server1"));
    assert!(!sftui::config::pattern_matches("server1", "server2"));
    assert!(!sftui::config::pattern_matches("server1", "server1x"));
    assert!(!sftui::config::pattern_matches("a.b", "axb"));
    let config = create_test_config("Host alpha\n  User u\n");
    assert!(config.get_host("alpha").is_some());
    assert!(config.get_host("alph").is_none());
}

#[test]
fn star_needs_the_dot() {
    assert!(sftui::config::pattern_matches("*.example.com", "a.example.com"));
    assert!(!sftui::config::pattern_matches("*.example.com", "example.com"));
    assert!(sftui::config::pattern_matches("*.example.com", ".example.com"));
}

#[test]
fn question_mark_is_one_character() {
    assert!(sftui::config::pattern_matches("server?", "server1"));
    assert!(!sftui::config::pattern_matches("server?", "server10"));
    assert!(!sftui::config::pattern_matches("server?", "server"));
}

#[test]
fn negated_pattern_inverts() {
    assert!(sftui::config::pattern_matches("!*.internal.com", "app.example.com"));
    assert!(!sftui::config::pattern_matches("!*.internal.com", "app.internal.com"));
    assert!(sftui::config::pattern_matches("!db", "web"));
    assert!(!sftui::config::pattern_matches("!db", "db"));
}

#[test]
fn other_characters_are_literal() {
    assert!(sftui::config::pattern_matches("a+b", "a+b"));
    assert!(!sftui::config::pattern_matches("a+b", "aab"));
    assert!(sftui::config::pattern_matches("[x]*", "[x]yz"));
    assert!(sftui::config::pattern_matches("*", ""));
    assert!(sftui::config::pattern_matches("**a", "bba"));
}

#[test]
fn first_match_keeps_its_fields() {
    let config = create_test_config("Host n*\n User u1\n Port 2201\nHost *\n User u2\n");
    let host = config.get_host("node").unwrap();
    assert_eq!(host.user, Some("u1".to_string()));
    assert_eq!(host.port, Some(2201));
}

#[test]
fn later_entries_fill_unset_fields() {
    let config = create_test_config(
        "Host stg_*\n User deploy\n Port 2022\nHost stg_server1\n HostName 10.1.2.3\n",
    );
    let host = config.get_host("stg_server1").unwrap();
    assert_eq!(host.host, "stg_server1");
    assert_eq!(host.hostname, Some("10.1.2.3".to_string()));
    assert_eq!(host.user, Some("deploy".to_string()));
    assert_eq!(host.port, Some(2022));
}

#[test]
fn catch_all_gives_default_user() {
    let config = create_test_config("Host * \n User default_user");
    for name in ["anything", "db.example.com", "x"] {
        let host = config.get_host(name).unwrap();
        assert_eq!(host.user, Some("default_user".to_string()));
        assert_eq!(host.host, name);
    }
}

#[test]
fn listing_keeps_repeats_and_entry_fields() {
    let config = create_test_config("Host a b* a\n User u\nHost c\n");
    let hosts: Vec<SshHost> = config.get_all_hosts();
    let names: Vec<&str> = hosts.iter().map(|h| h.host.as_str()).collect();
    assert_eq!(names, vec!["a", "a", "c"]);
    assert_eq!(hosts[0].user, Some("u".to_string()));
    assert_eq!(hosts[2].user, None);
}

#[test]
fn parser_skips_comments_and_ignores_case_of_keys() {
    let config = create_test_config(
        "# leading comment\nUser nobody\nHOST box\n  # indented comment\n  hOsTnAmE 10.0.0.9\n  IdentityFile ~/.ssh/my key\n  ProxyJump jump\n  Unknown thing\n  User\n",
    );
    assert_eq!(config.entries().len(), 1);
    let host = config.get_host("box").unwrap();
    assert_eq!(host.hostname, Some("10.0.0.9".to_string()));
    assert_eq!(host.identity_file, Some("~/.ssh/my key".to_string()));
    assert_eq!(host.proxy_jump, Some("jump".to_string()));
    assert_eq!(host.user, None);
}

#[test]
fn bad_ports_are_ignored() {
    let config = create_test_config(
        "Host a\n Port 0\nHost b\n Port 65536\nHost c\n Port abc\nHost d\n Port +22\nHost e\n Port 65535\nHost f\n Port 22 23\n",
    );
    assert_eq!(config.get_host("a").unwrap().port, None);
    assert_eq!(config.get_host("b").unwrap().port, None);
    assert_eq!(config.get_host("c").unwrap().port, None);
    assert_eq!(config.get_host("d").unwrap().port, Some(22));
    assert_eq!(config.get_host("e").unwrap().port, Some(65535));
    assert_eq!(config.get_host("f").unwrap().port, None);
}

#[test]
fn empty_text_has_no_entries() {
    let config = create_test_config("");
    assert_eq!(config.entries().len(), 0);
    assert!(config.get_host("any").is_none());
    assert!(config.get_all_hosts().is_empty());
}

#[test]
fn crlf_lines_parse() {
    let config = create_test_config("Host w\r\n User web\r\n");
    assert_eq!(config.get_host("w").unwrap().user, Some("web".to_string()));
}
