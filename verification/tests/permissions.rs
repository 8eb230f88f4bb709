use std::collections::BTreeMap;
use devops_agent::permissions::config::load_permissions;
use devops_agent::permissions::PermissionChecker;

#[test]
fn admins_see_everything_users_their_projects() {
    let c = PermissionChecker::new(vec!["root".into()], vec![("ann".into(), vec!["p1".into(), "p2".into()])]);
    assert!(c.can_access("root", "anything"));
    assert!(c.can_access("ann", "p1"));
    assert!(!c.can_access("ann", "p3"));
    assert!(!c.can_access("bob", "p1"));
    assert!(c.visible_projects("root").is_none());
    assert_eq!(c.visible_projects("bob"), None);
    let mut ann = c.visible_projects("ann").unwrap();
    ann.sort();
    assert_eq!(ann, vec!["p1", "p2"]);
}

#[test]
fn permissions_from_config_keys() {
    let mut conf = BTreeMap::new();
    conf.insert("permissions.admin_users.0".to_string(), "root".to_string());
    conf.insert("permissions.user.0.name".to_string(), "ann".to_string());
    conf.insert("permissions.user.0.projects.0".to_string(), "p1".to_string());
    let c = load_permissions(&conf);
    assert!(c.can_access("root", "x"));
    assert!(c.can_access("ann", "p1"));
    assert!(!c.can_access("ann", "p2"));
}
