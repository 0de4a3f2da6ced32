use cluster_registry::add_cluster;
use cluster_registry::connect_to_cluster;
use cluster_registry::find_cluster;
use cluster_registry::format_clusters_print;
use cluster_registry::list_clusters;
use cluster_registry::Cluster;

fn rec(name: &str, url: &str, username: &str) -> Cluster {
    Cluster::new(name.to_string(), url.to_string(), username.to_string())
}

#[test]
fn upsert_twice_equals_upsert_once() {
    let mut once: Vec<Cluster> = vec![rec("A", "u1", "n1")];
    let mut twice: Vec<Cluster> = vec![rec("A", "u1", "n1")];

    add_cluster("B".to_string(), "u2".to_string(), "n2".to_string(), &mut once);

    add_cluster("B".to_string(), "u2".to_string(), "n2".to_string(), &mut twice);
    add_cluster("B".to_string(), "u2".to_string(), "n2".to_string(), &mut twice);

    assert_eq!(once, twice);

    add_cluster("A".to_string(), "u9".to_string(), "n9".to_string(), &mut once);

    add_cluster("A".to_string(), "u9".to_string(), "n9".to_string(), &mut twice);
    add_cluster("A".to_string(), "u9".to_string(), "n9".to_string(), &mut twice);

    assert_eq!(once, twice);
}

#[test]
fn upsert_updates_in_place_and_keeps_order() {
    let mut clusters: Vec<Cluster> = vec![rec("A", "u1", "n1"), rec("B", "u2", "n2")];
    add_cluster("A".to_string(), "u3".to_string(), "n3".to_string(), &mut clusters);
    assert_eq!(clusters, vec![rec("A", "u3", "n3"), rec("B", "u2", "n2")]);
}

#[test]
fn upsert_appends_on_new_name() {
    let mut clusters: Vec<Cluster> = vec![rec("A", "u1", "n1")];
    add_cluster("B".to_string(), "u2".to_string(), "n2".to_string(), &mut clusters);
    assert_eq!(clusters, vec![rec("A", "u1", "n1"), rec("B", "u2", "n2")]);
}

#[test]
fn upsert_sequences_keep_names_unique() {
    let mut clusters: Vec<Cluster> = Vec::new();
    let calls = [
        ("dev", "https://api.dev", "alice"),
        ("prod", "https://api.prod", "bob"),
        ("dev", "https://api2.dev", "carol"),
        ("stage", "https://api.stage", "dan"),
        ("prod", "https://api2.prod", "erin"),
        ("dev", "https://api3.dev", "fred"),
    ];
    for (name, url, username) in calls {
        add_cluster(name.to_string(), url.to_string(), username.to_string(), &mut clusters);
    }
    for i in 0..clusters.len() {
        for j in 0..clusters.len() {
            if i != j {
                assert_ne!(clusters[i].name(), clusters[j].name());
            }
        }
    }
    assert_eq!(clusters.len(), 3);
}

#[test]
fn find_returns_first_match_position() {
    let clusters: Vec<Cluster> = vec![rec("A", "u1", "n1"), rec("B", "u2", "n2")];
    assert_eq!(find_cluster("A", &clusters), Some(0));
    assert_eq!(find_cluster("B", &clusters), Some(1));
}

#[test]
fn find_miss_returns_none() {
    let clusters: Vec<Cluster> = vec![rec("A", "u1", "n1")];
    assert_eq!(find_cluster("Z", &clusters), None);
    assert_eq!(find_cluster("a", &clusters), None);
}

#[test]
fn connect_miss_fails_with_not_found() {
    let clusters: Vec<Cluster> = vec![rec("A", "u1", "n1")];
    let r = connect_to_cluster("Z", &clusters);
    let e = r.expect_err("connecting to an absent name must fail");
    assert_eq!(e.name, "Z");
    assert_eq!(
        e.message(),
        "Cluster with name Z not found in config file, consider adding arguments \
         --username and --cluster-url to save it"
    );
}

#[test]
fn connect_hit_yields_the_record_login_request() {
    let clusters: Vec<Cluster> =
        vec![rec("A", "https://a", "ann"), rec("B", "https://b", "ben")];
    let req = connect_to_cluster("B", &clusters).expect("B is registered");
    assert_eq!(req.url, "https://b");
    assert_eq!(req.username, "ben");
}

#[test]
fn listing_narrow_and_wide() {
    let c = rec("prod", "https://x", "bob");
    assert_eq!(format_clusters_print(false, &c), "prod");
    assert_eq!(format_clusters_print(true, &c), "prod\tbob\thttps://x");
}

#[test]
fn list_produces_one_line_per_record_in_order() {
    let clusters: Vec<Cluster> =
        vec![rec("dev", "https://d", "alice"), rec("prod", "https://p", "bob")];
    assert_eq!(list_clusters(false, &clusters), vec!["dev", "prod"]);
    assert_eq!(
        list_clusters(true, &clusters),
        vec!["dev\talice\thttps://d", "prod\tbob\thttps://p"]
    );
}

#[test]
fn add_and_connect_end_to_end() {
    // load: start from the empty registry
    let mut clusters: Vec<Cluster> = Vec::new();
    // upsert, then the caller would persist the full registry
    add_cluster(
        "dev".to_string(),
        "https://api.dev".to_string(),
        "alice".to_string(),
        &mut clusters,
    );
    assert_eq!(clusters, vec![rec("dev", "https://api.dev", "alice")]);
    // connect: exactly one login request, with the record's url and username
    let req = connect_to_cluster("dev", &clusters).expect("dev was just registered");
    assert_eq!(req.url, "https://api.dev");
    assert_eq!(req.username, "alice");
}

#[test]
fn record_accessors_expose_the_fields() {
    let c = rec("dev", "https://api.dev", "alice");
    assert_eq!(c.name(), "dev");
    assert_eq!(c.url(), "https://api.dev");
    assert_eq!(c.username(), "alice");
}
