use rbacr::access::{normalize_resources, normalize_verbs};
use rbacr::check::{matches_rules, subject_of};
use rbacr::print::{format_age, format_creation_since, format_duration};
use rbacr::{
    Access, Binding, CRBInfo, Check, CheckError, CheckItem, Kind, NsAll, PolicyRule, RBInfo,
    RoleDef, RoleLookup, Rules, SubKind, Subject,
};

fn strs(v: &[&str]) -> Vec<String> {
    v.iter().map(|s| s.to_string()).collect()
}

fn rule(res: Option<&[&str]>, verbs: &[&str]) -> PolicyRule {
    PolicyRule { resources: res.map(strs), verbs: strs(verbs) }
}

fn clause(res: Option<&[&str]>, verbs: &[&str]) -> Rules {
    Rules::new(res.map(strs), strs(verbs))
}

fn subject(kind: &str, name: &str) -> Subject {
    Subject { kind: kind.to_string(), name: name.to_string() }
}

fn binding(name: &str, ns: Option<&str>, role: &str, subjects: Option<Vec<Subject>>) -> Binding {
    Binding {
        name: name.to_string(),
        namespace: ns.map(|s| s.to_string()),
        role_name: role.to_string(),
        subjects,
        creation_timestamp: Some(1_700_000_000),
    }
}

fn role(name: &str, rules: Option<Vec<PolicyRule>>) -> RoleDef {
    RoleDef { name: name.to_string(), rules }
}

fn pod_reader() -> RoleDef {
    role("pod-reader", Some(vec![rule(Some(&["pods"]), &["get", "list"])]))
}

#[test]
fn normalize_concatenates_entries_in_order() {
    let rules = Some(vec![
        rule(Some(&["pods", "services"]), &["get"]),
        rule(None, &["list"]),
        rule(Some(&["pods"]), &["watch", "get"]),
    ]);
    assert_eq!(normalize_resources(&rules), Some(strs(&["pods", "services", "pods"])));
    assert_eq!(normalize_verbs(&rules), strs(&["get", "list", "watch", "get"]));
}

#[test]
fn normalize_absent_when_no_entry_has_resources() {
    let rules = Some(vec![rule(None, &["get"]), rule(None, &["list"])]);
    assert_eq!(normalize_resources(&rules), None);
    assert_eq!(normalize_verbs(&rules), strs(&["get", "list"]));
}

#[test]
fn normalize_role_without_rules() {
    assert_eq!(normalize_resources(&None), None);
    assert_eq!(normalize_verbs(&None), Vec::<String>::new());
    assert_eq!(normalize_resources(&Some(vec![])), None);
}

#[test]
fn normalize_entry_with_empty_resource_list() {
    let rules = Some(vec![rule(Some(&[]), &["get"])]);
    assert_eq!(normalize_resources(&rules), Some(Vec::new()));
}

#[test]
fn resolve_drops_bindings_with_missing_role() {
    let pairs = vec![
        (binding("a", Some("default"), "pod-reader", None), RoleLookup::Found(pod_reader())),
        (binding("b", Some("default"), "gone", None), RoleLookup::NotFound),
        (binding("c", Some("kube-system"), "pod-reader", None), RoleLookup::Found(pod_reader())),
    ];
    let out = RBInfo::run(pairs);
    assert_eq!(out.len(), 2);
    assert_eq!(out[0].role_binding_info.name, "a");
    assert_eq!(out[1].role_binding_info.name, "c");
    assert_eq!(out[0].role_resources, Some(strs(&["pods"])));
    assert_eq!(out[0].role_verbs, strs(&["get", "list"]));
}

#[test]
fn resolve_cluster_drops_bindings_with_missing_role() {
    let pairs = vec![
        (binding("x", None, "gone", None), RoleLookup::NotFound),
        (binding("y", None, "view", None), RoleLookup::Found(role("view", None))),
    ];
    let out = CRBInfo::run(pairs);
    assert_eq!(out.len(), 1);
    assert_eq!(out[0].cluster_role_binding_info.name, "y");
    assert_eq!(out[0].cluster_role_resources, None);
    assert!(out[0].cluster_role_verbs.is_empty());
}

#[test]
fn resolve_is_repeatable() {
    let make = || {
        vec![
            (binding("a", Some("default"), "r", None), RoleLookup::NotFound),
            (binding("b", Some("default"), "pod-reader", None), RoleLookup::Found(pod_reader())),
        ]
    };
    let first = RBInfo::run(make());
    let second = RBInfo::run(make());
    assert_eq!(first.len(), second.len());
    assert_eq!(first[0].role_binding_info.name, second[0].role_binding_info.name);
}

#[test]
fn check_without_rules_never_matches() {
    let res = Some(strs(&["pods"]));
    let verbs = strs(&["get"]);
    assert!(!matches_rules(&None, &res, &verbs));
    assert!(!matches_rules(&Some(vec![]), &res, &verbs));
}

#[test]
fn check_subset_of_verbs_matches() {
    let res = Some(strs(&["pods"]));
    let verbs = strs(&["get", "list"]);
    let rules = Some(vec![clause(Some(&["pods"]), &["get"])]);
    assert!(matches_rules(&rules, &res, &verbs));
}

#[test]
fn check_missing_second_resource_fails() {
    let res = Some(strs(&["pods"]));
    let verbs = strs(&["get"]);
    let rules = Some(vec![clause(Some(&["pods", "secrets"]), &["get"])]);
    assert!(!matches_rules(&rules, &res, &verbs));
}

#[test]
fn check_missing_verb_fails() {
    let res = Some(strs(&["pods"]));
    let verbs = strs(&["get"]);
    let rules = Some(vec![clause(Some(&["pods"]), &["get", "delete"])]);
    assert!(!matches_rules(&rules, &res, &verbs));
}

#[test]
fn check_failing_clause_aborts_later_match() {
    let res = Some(strs(&["pods"]));
    let verbs = strs(&["get"]);
    let rules = Some(vec![
        clause(Some(&["secrets"]), &["get"]),
        clause(Some(&["pods"]), &["get"]),
    ]);
    assert!(!matches_rules(&rules, &res, &verbs));
    let rules = Some(vec![
        clause(Some(&["pods"]), &["get"]),
        clause(Some(&["secrets"]), &["get"]),
    ]);
    assert!(!matches_rules(&rules, &res, &verbs));
}

#[test]
fn check_clause_without_resources_is_ignored() {
    let res = Some(strs(&["pods"]));
    let verbs = strs(&["get"]);
    assert!(!matches_rules(&Some(vec![clause(None, &["delete"])]), &res, &verbs));
    let rules = Some(vec![clause(None, &["delete"]), clause(Some(&["pods"]), &["get"])]);
    assert!(matches_rules(&rules, &res, &verbs));
}

#[test]
fn check_binding_without_resources_fails() {
    let rules = Some(vec![clause(Some(&["pods"]), &["get"])]);
    assert!(!matches_rules(&rules, &None, &strs(&["get"])));
}

fn snapshot() -> Access {
    let rb = vec![
        (
            binding("rb-user", Some("default"), "pod-reader", Some(vec![subject("User", "alice"), subject("Group", "devs")])),
            RoleLookup::Found(pod_reader()),
        ),
        (binding("rb-empty", None, "pod-reader", Some(vec![])), RoleLookup::Found(pod_reader())),
        (binding("rb-none", Some("default"), "pod-reader", None), RoleLookup::Found(pod_reader())),
        (
            binding("rb-other", Some("default"), "cm", Some(vec![subject("User", "bob")])),
            RoleLookup::Found(role("cm", Some(vec![rule(Some(&["configmaps"]), &["get"])]))),
        ),
    ];
    let crb = vec![(
        binding("crb-sa", None, "pod-admin", Some(vec![subject("ServiceAccount", "robot")])),
        RoleLookup::Found(role("pod-admin", Some(vec![rule(Some(&["pods"]), &["get", "delete"])]))),
    )];
    Access::run(strs(&["default", "kube-system"]), rb, crb)
}

fn pods_get(kind: Kind) -> CheckItem {
    CheckItem::new(kind, Some(vec![clause(Some(&["pods"]), &["get"])]))
}

#[test]
fn scope_all_reports_both() {
    let access = snapshot();
    assert_eq!(access.ns_list.ns_all, strs(&["default", "kube-system"]));
    let rep = Check::check_item(&pods_get(Kind::All), &access).unwrap();
    assert_eq!(rep.namespaced.len(), 1);
    let o = &rep.namespaced[0];
    assert_eq!(o.rb, "rb-user");
    assert_eq!(o.ns, "default");
    assert_eq!(o.r, "pod-reader");
    assert_eq!(o.age, Some(1_700_000_000));
    assert_eq!(o.subject, "alice");
    assert_eq!(o.sub_kind, SubKind::User);
    assert_eq!(rep.cluster.len(), 1);
    assert_eq!(rep.cluster[0].crb, "crb-sa");
    assert_eq!(rep.cluster[0].r, "pod-admin");
    assert_eq!(rep.cluster[0].subject, "robot");
    assert_eq!(rep.cluster[0].sub_kind, SubKind::ServiceAccount);
}

#[test]
fn scope_role_reports_no_cluster_records() {
    let rep = Check::check_item(&pods_get(Kind::Role), &snapshot()).unwrap();
    assert_eq!(rep.namespaced.len(), 1);
    assert!(rep.cluster.is_empty());
}

#[test]
fn scope_cluster_reports_no_namespaced_records() {
    let rep = Check::check_item(&pods_get(Kind::ClusterRole), &snapshot()).unwrap();
    assert!(rep.namespaced.is_empty());
    assert_eq!(rep.cluster.len(), 1);
}

#[test]
fn bindings_without_subjects_are_skipped() {
    let access = Access::run(
        vec![],
        vec![
            (binding("none", Some("default"), "pod-reader", None), RoleLookup::Found(pod_reader())),
            (binding("empty", Some("default"), "pod-reader", Some(vec![])), RoleLookup::Found(pod_reader())),
        ],
        vec![],
    );
    let rep = Check::check_item(&pods_get(Kind::All), &access).unwrap();
    assert!(rep.namespaced.is_empty());
    assert!(rep.cluster.is_empty());
    assert_eq!(rep.skipped_namespaced, strs(&["none", "empty"]));
    assert!(rep.skipped_cluster.is_empty());
    let rep = Check::check_item(&pods_get(Kind::ClusterRole), &access).unwrap();
    assert!(rep.skipped_namespaced.is_empty());
}

#[test]
fn missing_namespace_reads_default() {
    let access = Access::run(
        vec![],
        vec![(binding("rb", None, "pod-reader", Some(vec![subject("Group", "ops")])), RoleLookup::Found(pod_reader()))],
        vec![],
    );
    let rep = Check::check_item(&pods_get(Kind::Role), &access).unwrap();
    assert_eq!(rep.namespaced[0].ns, "default");
    assert_eq!(rep.namespaced[0].sub_kind, SubKind::Group);
}

#[test]
fn unknown_subject_kind_is_an_error() {
    let access = Access::run(
        vec![],
        vec![],
        vec![(binding("crb", None, "pod-reader", Some(vec![subject("Robot", "r2")])), RoleLookup::Found(pod_reader()))],
    );
    let err = Check::check_item(&pods_get(Kind::All), &access).unwrap_err();
    assert_eq!(err, CheckError::UnknownSubjectKind("Robot".to_string()));
    // Out of scope, the same binding is never looked at.
    assert!(Check::check_item(&pods_get(Kind::Role), &access).is_ok());
}

#[test]
fn unknown_subject_kind_aborts_run() {
    let access = Access::run(
        vec![],
        vec![(binding("rb", Some("default"), "pod-reader", Some(vec![subject("Machine", "m")])), RoleLookup::Found(pod_reader()))],
        vec![],
    );
    let mut check = Check::new();
    check.add("ok".to_string(), pods_get(Kind::ClusterRole));
    check.add("bad".to_string(), pods_get(Kind::Role));
    assert_eq!(check.run(&access).unwrap_err(), CheckError::UnknownSubjectKind("Machine".to_string()));
}

#[test]
fn run_reports_each_item_in_order() {
    let mut check = Check::new();
    check.add("pods".to_string(), pods_get(Kind::All));
    check.add("nothing".to_string(), CheckItem::new(Kind::All, None));
    let out = check.run(&snapshot()).unwrap();
    assert_eq!(out.len(), 2);
    assert_eq!(out[0].0, "pods");
    assert_eq!(out[0].1.namespaced.len(), 1);
    assert_eq!(out[1].0, "nothing");
    assert!(out[1].1.namespaced.is_empty());
    assert!(out[1].1.cluster.is_empty());
}

#[test]
fn policy_store_add_and_lookup() {
    let mut check = Check::new();
    check.add("a".to_string(), pods_get(Kind::Role));
    check.add("b".to_string(), pods_get(Kind::All));
    check.add("a".to_string(), pods_get(Kind::ClusterRole));
    assert_eq!(check.get_check().unwrap(), strs(&["a", "b"]));
    assert_eq!(check.get_check_item("a").unwrap().kind, Kind::ClusterRole);
    assert_eq!(check.get_check_item("b").unwrap().kind, Kind::All);
    assert_eq!(check.get_check_item("c").unwrap_err(), CheckError::MissingItem("c".to_string()));
}

#[test]
fn subject_kinds() {
    assert_eq!(SubKind::from_kind(&"User".to_string()), Some(SubKind::User));
    assert_eq!(SubKind::from_kind(&"Group".to_string()), Some(SubKind::Group));
    assert_eq!(SubKind::from_kind(&"ServiceAccount".to_string()), Some(SubKind::ServiceAccount));
    assert_eq!(SubKind::from_kind(&"user".to_string()), None);
    let b = binding("b", None, "r", Some(vec![subject("User", "u1"), subject("Group", "g")]));
    assert_eq!(subject_of(&b), Ok(Some(("u1".to_string(), SubKind::User))));
}

#[test]
fn age_days_hours_minutes() {
    assert_eq!(format_duration(2 * 86400 + 3 * 3600), "2d");
    assert_eq!(format_duration(3 * 3600 + 10 * 60), "3h");
    assert_eq!(format_duration(45 * 60), "45m");
}

#[test]
fn age_edges() {
    assert_eq!(format_duration(0), "0m");
    assert_eq!(format_duration(59), "0m");
    assert_eq!(format_duration(86399), "23h");
    assert_eq!(format_duration(86400), "1d");
    assert_eq!(format_duration(3600), "1h");
    assert_eq!(format_duration(-30), "0m");
    assert_eq!(format_duration(-125), "-2m");
    assert_eq!(format_duration(1234 * 86400), "1234d");
    assert_eq!(format_age(1_000, 1_000 + 5 * 3600 + 7), Some("5h".to_string()));
    assert_eq!(format_age(0, 0), Some("0m".to_string()));
    assert_eq!(format_age(i64::MIN, 1), None);
}

#[test]
fn namespace_list_kept() {
    let ns = NsAll { ns_all: strs(&["default", "kube-public"]) };
    assert_eq!(ns.ns_all.len(), 2);
}

#[test]
fn age_since_creation_uses_clock() {
    // Twenty years after the epoch, counted in days, is at least four digits.
    let age = format_creation_since(0).unwrap();
    assert!(age.ends_with('d'));
    assert!(age.len() >= 5);
}

#[test]
fn first_unknown_kind_is_reported() {
    let access = Access::run(
        vec![],
        vec![
            (binding("rb1", Some("default"), "pod-reader", Some(vec![subject("Bot", "b")])), RoleLookup::Found(pod_reader())),
            (binding("rb2", Some("default"), "pod-reader", Some(vec![subject("Pet", "p")])), RoleLookup::Found(pod_reader())),
        ],
        vec![(binding("crb", None, "pod-reader", Some(vec![subject("Alien", "a")])), RoleLookup::Found(pod_reader()))],
    );
    let err = Check::check_item(&pods_get(Kind::All), &access).unwrap_err();
    assert_eq!(err, CheckError::UnknownSubjectKind("Bot".to_string()));
    let err = Check::check_item(&pods_get(Kind::ClusterRole), &access).unwrap_err();
    assert_eq!(err, CheckError::UnknownSubjectKind("Alien".to_string()));
}

#[test]
fn age_since_creation_out_of_range() {
    assert_eq!(format_creation_since(i64::MIN), None);
}
