use vstd::prelude::*;
use vstd::string::StringExecFns;

verus! {

/// A named cluster connection profile. `name` is the unique key of a
/// record; `url` and `username` are its mutable attributes.
#[derive(Debug, PartialEq, Eq)]
pub struct Cluster {
    name: String,
    url: String,
    username: String,
}

/// Mathematical image of a [`Cluster`]: each field as its sequence of
/// characters.
#[verifier::ext_equal]
pub struct ClusterView {
    pub name: Seq<char>,
    pub url: Seq<char>,
    pub username: Seq<char>,
}

impl View for Cluster {
    type V = ClusterView;

    closed spec fn view(&self) -> ClusterView {
        ClusterView { name: self.name@, url: self.url@, username: self.username@ }
    }
}

impl DeepView for Cluster {
    type V = ClusterView;

    open spec fn deep_view(&self) -> ClusterView {
        self@
    }
}

impl Cluster {
    /// A record with the given fields.
    pub fn new(name: String, url: String, username: String) -> (c: Cluster)
        ensures
            c@ == (ClusterView { name: name@, url: url@, username: username@ }),
    {
        Cluster { name, url, username }
    }

    /// The record's name, its unique key.
    pub fn name(&self) -> (r: &String)
        ensures
            r@ == self@.name,
    {
        &self.name
    }

    /// The cluster's endpoint.
    pub fn url(&self) -> (r: &String)
        ensures
            r@ == self@.url,
    {
        &self.url
    }

    /// The name to log in under.
    pub fn username(&self) -> (r: &String)
        ensures
            r@ == self@.username,
    {
        &self.username
    }
}

/// The record with the given fields.
pub open spec fn record(name: Seq<char>, url: Seq<char>, username: Seq<char>) -> ClusterView {
    ClusterView { name, url, username }
}

/// Some record of `s` is named `name`.
pub open spec fn has_name(s: Seq<ClusterView>, name: Seq<char>) -> bool {
    exists|i: int| 0 <= i < s.len() && s[i].name == name
}

/// `i` is the position of the first record of `s` named `name`.
pub open spec fn is_first_match(s: Seq<ClusterView>, name: Seq<char>, i: int) -> bool {
    &&& 0 <= i < s.len()
    &&& s[i].name == name
    &&& forall|j: int| 0 <= j < i ==> s[j].name != name
}

/// The position of the first record of `s` named `name`; meaningful only
/// when `has_name(s, name)`.
pub open spec fn first_index(s: Seq<ClusterView>, name: Seq<char>) -> int {
    choose|i: int| is_first_match(s, name, i)
}

/// No two records of `s` share a name.
pub open spec fn unique_names(s: Seq<ClusterView>) -> bool {
    forall|i: int, j: int| 0 <= i < j < s.len() ==> s[i].name != s[j].name
}

/// The registry after an add-or-update: the first record named `name`
/// replaced in place, or a fresh record appended at the tail.
pub open spec fn upsert_view(
    s: Seq<ClusterView>,
    name: Seq<char>,
    url: Seq<char>,
    username: Seq<char>,
) -> Seq<ClusterView> {
    if has_name(s, name) {
        s.update(first_index(s, name), record(name, url, username))
    } else {
        s.push(record(name, url, username))
    }
}

/// Wherever some record matches, a first matching position exists.
pub proof fn lemma_first_match_exists(s: Seq<ClusterView>, name: Seq<char>, w: int)
    requires
        0 <= w < s.len(),
        s[w].name == name,
    ensures
        exists|i: int| is_first_match(s, name, i),
    decreases w,
{
    if exists|j: int| 0 <= j < w && s[j].name == name {
        let j = choose|j: int| 0 <= j < w && s[j].name == name;
        lemma_first_match_exists(s, name, j);
    } else {
        assert(is_first_match(s, name, w));
    }
}

/// `first_index` lands on the first matching position.
pub proof fn lemma_has_name_first(s: Seq<ClusterView>, name: Seq<char>)
    requires
        has_name(s, name),
    ensures
        is_first_match(s, name, first_index(s, name)),
{
    let w = choose|i: int| 0 <= i < s.len() && s[i].name == name;
    lemma_first_match_exists(s, name, w);
}

/// The first matching position is unique, so `first_index` equals any
/// position known to be a first match.
pub proof fn lemma_first_index_is(s: Seq<ClusterView>, name: Seq<char>, i: int)
    requires
        is_first_match(s, name, i),
    ensures
        first_index(s, name) == i,
{
    let k = first_index(s, name);
    assert(is_first_match(s, name, k));
    if k < i {
        assert(s[k].name != name);
    } else if i < k {
        assert(s[i].name != name);
    }
}

/// Exact-match linear lookup: the position of the first record of
/// `clusters` named `name`, or `None` when no record carries that name.
pub fn find_cluster(name: &str, clusters: &Vec<Cluster>) -> (r: Option<usize>)
    ensures
        match r {
            Some(i) => is_first_match(clusters.deep_view(), name@, i as int),
            None => !has_name(clusters.deep_view(), name@),
        },
{
    let target: String = name.to_owned();
    let n = clusters.len();
    let mut j: usize = 0;
    while j < n
        invariant
            n == clusters@.len(),
            j <= n,
            target@ == name@,
            forall|k: int| 0 <= k < j ==> clusters.deep_view()[k].name != name@,
        decreases n - j,
    {
        if clusters[j].name == target {
            return Some(j);
        }
        j = j + 1;
    }
    None
}

/// Add or update a cluster in the registry.
///  - If no record carries `name`, a record with the given fields is
///    appended at the tail.
///  - If one does, the first such record has its `url` and `username`
///    replaced in place: its position and its name are kept.
pub fn add_cluster(name: String, url: String, username: String, clusters: &mut Vec<Cluster>)
    requires
        name@.len() > 0,
    ensures
        final(clusters).deep_view() == upsert_view(
            old(clusters).deep_view(),
            name@,
            url@,
            username@,
        ),
{
    let ghost s0 = clusters.deep_view();
    match find_cluster(name.as_str(), clusters) {
        Some(i) => {
            proof {
                lemma_first_index_is(s0, name@, i as int);
            }
            clusters[i] = Cluster { name, url, username };
            proof {
                assert(clusters.deep_view() =~~= upsert_view(s0, name@, url@, username@));
            }
        },
        None => {
            clusters.push(Cluster { name, url, username });
            proof {
                assert(clusters.deep_view() =~~= upsert_view(s0, name@, url@, username@));
            }
        },
    }
}

/// Failure of a connect request: no record of the registry carries the
/// requested name. The error keeps that name and offers a remediation
/// hint to the caller.
#[derive(Debug, PartialEq, Eq)]
pub struct NotFoundError {
    pub name: String,
}

/// The remediation hint carried by a [`NotFoundError`] over name `name`.
pub open spec fn not_found_message(name: Seq<char>) -> Seq<char> {
    "Cluster with name "@ + name
        + " not found in config file, consider adding arguments --username and --cluster-url to save it"@
}

impl NotFoundError {
    /// The human-readable remediation hint.
    pub fn message(&self) -> (m: String)
        ensures
            m@ == not_found_message(self.name@),
    {
        let mut m = "Cluster with name ".to_owned();
        m.append(self.name.as_str());
        m.append(
            " not found in config file, consider adding arguments --username and --cluster-url to save it",
        );
        m
    }
}

/// What the external login tool is to be invoked with: the matched
/// record's endpoint and the name to log in under.
#[derive(Debug, PartialEq, Eq)]
pub struct LoginRequest {
    pub url: String,
    pub username: String,
}

/// The request carries the endpoint and username of the first record of
/// `s` named `name`.
pub open spec fn request_for(s: Seq<ClusterView>, name: Seq<char>, req: LoginRequest) -> bool {
    &&& has_name(s, name)
    &&& req.url@ == s[first_index(s, name)].url
    &&& req.username@ == s[first_index(s, name)].username
}

/// Fetch the cluster named `cluster_name` and decide the login request
/// for it. Returns the request built from the first (under the registry
/// invariant: the only) record carrying that name, or a
/// [`NotFoundError`] exactly when no record does.
pub fn connect_to_cluster(cluster_name: &str, clusters: &Vec<Cluster>) -> (r: Result<
    LoginRequest,
    NotFoundError,
>)
    ensures
        match r {
            Ok(req) => request_for(clusters.deep_view(), cluster_name@, req),
            Err(e) => !has_name(clusters.deep_view(), cluster_name@) && e.name@ == cluster_name@,
        },
{
    match find_cluster(cluster_name, clusters) {
        Some(i) => {
            proof {
                lemma_first_index_is(clusters.deep_view(), cluster_name@, i as int);
            }
            let c = &clusters[i];
            Ok(LoginRequest { url: c.url.clone(), username: c.username.clone() })
        },
        None => Err(NotFoundError { name: cluster_name.to_owned() }),
    }
}

/// The display line for one record: the bare name, or, when `wide`, the
/// name, username and url separated by tabs.
pub open spec fn display_line(wide: bool, c: ClusterView) -> Seq<char> {
    if wide {
        c.name + "\t"@ + c.username + "\t"@ + c.url
    } else {
        c.name
    }
}

/// Format one record for display.
pub fn format_clusters_print(wide: bool, cluster: &Cluster) -> (line: String)
    ensures
        line@ == display_line(wide, cluster@),
{
    if wide {
        let mut line = cluster.name.clone();
        line.append("\t");
        line.append(cluster.username.as_str());
        line.append("\t");
        line.append(cluster.url.as_str());
        line
    } else {
        cluster.name.clone()
    }
}

/// List all clusters: one display line per record, in registry order.
/// The lines are handed back for the caller's output sink.
pub fn list_clusters(wide: bool, clusters: &Vec<Cluster>) -> (lines: Vec<String>)
    ensures
        lines@.len() == clusters@.len(),
        forall|i: int|
            0 <= i < clusters@.len() ==> lines@[i]@ == display_line(
                wide,
                clusters.deep_view()[i],
            ),
{
    let n = clusters.len();
    let mut lines: Vec<String> = Vec::new();
    let mut j: usize = 0;
    while j < n
        invariant
            n == clusters@.len(),
            j <= n,
            lines@.len() == j,
            forall|i: int|
                0 <= i < j ==> lines@[i]@ == display_line(wide, clusters.deep_view()[i]),
        decreases n - j,
    {
        let line = format_clusters_print(wide, &clusters[j]);
        lines.push(line);
        j = j + 1;
    }
    lines
}

} // verus!
