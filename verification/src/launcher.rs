//! The launcher: resolves a named backend version, composes the backend
//! configuration in layers, and lays out the spark-submit command line and
//! environment.  The subprocess spawn itself is I/O and belongs to the
//! embedding program, which executes the returned plan.

use vstd::prelude::*;
use vstd::string::StringExecFns;

use crate::config::keys_distinct;
use crate::config::map_of;
use crate::config::merged_with;
use crate::config::ConfigTable;
use crate::config::KvEntries;
use crate::config::SparkVersion;
use crate::strutil::str_eq;

verus! {

/// Why a launch could not be prepared.
#[derive(Clone, Copy, PartialEq, Eq, Structural, Debug)]
pub enum LaunchError {
    /// The requested version name is not configured.
    VersionNotFound,
    /// No configured version is flagged as the default.
    NoDefaultVersion,
}

/// Why the launcher could not be built at startup.
#[derive(Clone, Copy, PartialEq, Eq, Structural, Debug)]
pub enum ConfigError {
    /// No versions are configured and no Spark installation could be found.
    NoSparkInstallation,
    /// The configured versions do not have exactly one default.
    NotExactlyOneDefault,
}

/// Everything needed to start one backend: the path to spark-submit, its
/// argument vector, and the extra environment entries to set.
pub struct LaunchPlan {
    pub submit_path: String,
    pub args: Vec<String>,
    pub env: ConfigTable,
}

/// The mapping of an optional configuration layer: absent means empty.
pub open spec fn layer(t: Option<ConfigTable>) -> Map<Seq<char>, Seq<char>> {
    match t {
        Option::Some(c) => c@,
        Option::None => Map::empty(),
    }
}

/// Config composition: the version's defaults, overwritten per key by the
/// user's settings, comma-extended by merge entries on keys already
/// present, then overwritten per key by the version's forced overrides.
pub open spec fn composed(
    d: Map<Seq<char>, Seq<char>>,
    u: Map<Seq<char>, Seq<char>>,
    m: Map<Seq<char>, Seq<char>>,
    o: Map<Seq<char>, Seq<char>>,
) -> Map<Seq<char>, Seq<char>> {
    merged_with(d.union_prefer_right(u), m).union_prefer_right(o)
}

/// Override wins after merge: every key the override layer binds is bound
/// to the override's value in the composition.
pub proof fn lemma_override_wins(
    d: Map<Seq<char>, Seq<char>>,
    u: Map<Seq<char>, Seq<char>>,
    m: Map<Seq<char>, Seq<char>>,
    o: Map<Seq<char>, Seq<char>>,
    k: Seq<char>,
)
    requires
        o.dom().contains(k),
    ensures
        composed(d, u, m, o).dom().contains(k),
        composed(d, u, m, o)[k] == o[k],
{
}

/// Merge entries join with a comma: a key bound by the defaults or the
/// user's settings and listed by the merge layer, and not overridden, ends
/// bound to the base value, a comma, and the merge value.
pub proof fn lemma_merge_joins(
    d: Map<Seq<char>, Seq<char>>,
    u: Map<Seq<char>, Seq<char>>,
    m: Map<Seq<char>, Seq<char>>,
    o: Map<Seq<char>, Seq<char>>,
    k: Seq<char>,
)
    requires
        d.dom().contains(k) || u.dom().contains(k),
        m.dom().contains(k),
        !o.dom().contains(k),
    ensures
        composed(d, u, m, o).dom().contains(k),
        composed(d, u, m, o)[k] == d.union_prefer_right(u)[k] + ","@ + m[k],
{
}

/// Merge only acts on keys already present: a key absent from the
/// defaults, the user's settings and the overrides is absent from the
/// composition, whatever the merge layer lists.
pub proof fn lemma_merge_needs_present_key(
    d: Map<Seq<char>, Seq<char>>,
    u: Map<Seq<char>, Seq<char>>,
    m: Map<Seq<char>, Seq<char>>,
    o: Map<Seq<char>, Seq<char>>,
    k: Seq<char>,
)
    requires
        !d.dom().contains(k),
        !u.dom().contains(k),
        !o.dom().contains(k),
    ensures
        !composed(d, u, m, o).dom().contains(k),
{
}

/// The system-controlled keys injected after composition: the session
/// token, the callback URL, the proxy's listener and interceptor classes,
/// and an ephemeral gRPC binding port.
pub open spec fn injected(
    c: Map<Seq<char>, Seq<char>>,
    token: Seq<char>,
    callback: Seq<char>,
) -> Map<Seq<char>, Seq<char>> {
    c.insert("spark.connect.proxy.token"@, token).insert(
        "spark.connect.proxy.callback"@,
        callback,
    ).insert(
        "spark.extraListeners"@,
        "org.apache.spark.sql.connect.proxy.SparkConnectProxyListener"@,
    ).insert(
        "spark.connect.grpc.interceptor.classes"@,
        "org.apache.spark.sql.connect.proxy.SparkConnectProxyInterceptor"@,
    ).insert("spark.connect.grpc.binding.port"@, "0"@)
}

/// Composes the launch configuration from the version's layers and the
/// user's request configuration.
pub fn compose_configs(version: &SparkVersion, user_config: &ConfigTable) -> (r: ConfigTable)
    requires
        version.wf(),
        user_config.wf(),
    ensures
        r.wf(),
        r@ == composed(
            layer(version.default_configs),
            user_config@,
            layer(version.merge_configs),
            layer(version.override_configs),
        ),
{
    let mut r = ConfigTable::new();
    match &version.default_configs {
        Option::Some(d) => {
            r.extend_from(d);
            proof {
                assert(r@ =~= layer(version.default_configs));
            }
        },
        Option::None => {
            proof {
                assert(r@ =~= layer(version.default_configs));
            }
        },
    }
    r.extend_from(user_config);
    let ghost base = r@;
    match &version.merge_configs {
        Option::Some(m) => {
            r.merge_from(m);
        },
        Option::None => {
            proof {
                assert(merged_with(base, layer(version.merge_configs)) =~= base);
            }
        },
    }
    let ghost merged = r@;
    proof {
        assert(merged == merged_with(base, layer(version.merge_configs)));
    }
    match &version.override_configs {
        Option::Some(o) => {
            r.extend_from(o);
        },
        Option::None => {
            proof {
                assert(merged.union_prefer_right(layer(version.override_configs)) =~= merged);
            }
        },
    }
    r
}

/// The `--conf key=value` argument pairs for the entries, in order.
pub open spec fn conf_args(entries: KvEntries) -> Seq<Seq<char>>
    decreases entries.len(),
{
    if entries.len() == 0 {
        Seq::empty()
    } else {
        conf_args(entries.drop_last()) + seq![
            "--conf"@,
            entries.last().0 + "="@ + entries.last().1,
        ]
    }
}

/// The full spark-submit argument vector: `--master local`, one
/// `--conf key=value` pair per configuration entry, then the fixed plugin
/// jar and server class.
pub open spec fn args_of(entries: KvEntries) -> Seq<Seq<char>> {
    seq!["--master"@, "local"@] + conf_args(entries) + seq![
        "--jars"@,
        "plugin/target/scala-2.13/spark-connect-proxy_2.13-0.1.0-SNAPSHOT.jar"@,
        "--class"@,
        "org.apache.spark.sql.connect.service.SparkConnectServer"@,
    ]
}

fn build_args(configs: &ConfigTable) -> (r: Vec<String>)
    ensures
        r@.map_values(|s: String| s@) == args_of(configs.entries()),
{
    let mut args: Vec<String> = Vec::new();
    args.push(String::from_str("--master"));
    args.push(String::from_str("local"));
    let n = configs.len();
    let mut i: usize = 0;
    proof {
        let f = |s: String| s@;
        assert(configs.entries().take(0) =~= Seq::<(Seq<char>, Seq<char>)>::empty());
        assert(args@.map_values(f) =~= seq!["--master"@, "local"@] + conf_args(
            configs.entries().take(0),
        ));
    }
    while i < n
        invariant
            n == configs.entries().len(),
            0 <= i <= n,
            args@.map_values(|s: String| s@) == seq!["--master"@, "local"@] + conf_args(
                configs.entries().take(i as int),
            ),
        decreases n - i,
    {
        let ghost args0 = args@;
        let p = configs.pair_at(i);
        let mut kv = p.0.clone();
        kv.append("=");
        kv.append(p.1.as_str());
        let ghost kvv = kv@;
        args.push(String::from_str("--conf"));
        args.push(kv);
        i = i + 1;
        proof {
            let f = |s: String| s@;
            let t = configs.entries().take(i as int);
            let cl = conf_args(configs.entries().take(i - 1));
            assert(t.drop_last() =~= configs.entries().take(i - 1));
            assert(t.last() == configs.entries()[i - 1]);
            assert(conf_args(t) == cl + seq![
                "--conf"@,
                configs.entries()[i - 1].0 + "="@ + configs.entries()[i - 1].1,
            ]);
            assert(kvv == configs.entries()[i - 1].0 + "="@ + configs.entries()[i - 1].1);
            assert(args0.map_values(f).len() == args0.len());
            assert(args0.len() == 2 + cl.len());
            let rhs = seq!["--master"@, "local"@] + conf_args(t);
            assert(args@.map_values(f).len() == args0.len() + 2);
            assert(rhs.len() == args0.len() + 2);
            assert forall|j: int| 0 <= j < args@.len() implies args@.map_values(f)[j]
                == rhs[j] by {
                if j < args0.len() {
                    assert(args@[j] == args0[j]);
                    assert(args0.map_values(f)[j] == (seq!["--master"@, "local"@] + cl)[j]);
                    if j >= 2 {
                        assert((seq!["--master"@, "local"@] + cl)[j] == cl[j - 2]);
                        assert(conf_args(t)[j - 2] == cl[j - 2]);
                    }
                } else if j == args0.len() {
                    assert(args@[j]@ == "--conf"@);
                    assert(conf_args(t)[j - 2] == "--conf"@);
                } else {
                    assert(args@[j]@ == kvv);
                    assert(conf_args(t)[j - 2] == configs.entries()[i - 1].0 + "="@
                        + configs.entries()[i - 1].1);
                }
            }
            assert(args@.map_values(f) =~= rhs);
        }
    }
    let ghost args_mid = args@;
    args.push(String::from_str("--jars"));
    args.push(
        String::from_str("plugin/target/scala-2.13/spark-connect-proxy_2.13-0.1.0-SNAPSHOT.jar"),
    );
    args.push(String::from_str("--class"));
    args.push(String::from_str("org.apache.spark.sql.connect.service.SparkConnectServer"));
    proof {
        let f = |s: String| s@;
        assert(configs.entries().take(n as int) =~= configs.entries());
        let es = configs.entries();
        let cl = conf_args(es);
        assert(args_mid.map_values(f) == seq!["--master"@, "local"@] + cl);
        assert(args_mid.map_values(f).len() == args_mid.len());
        assert(args_mid.len() == 2 + cl.len());
        assert(args@.len() == args_mid.len() + 4);
        assert(args_of(es).len() == 2 + cl.len() + 4);
        assert forall|j: int| 0 <= j < args@.len() implies args@.map_values(f)[j]
            == args_of(es)[j] by {
            if j < args_mid.len() {
                assert(args@[j] == args_mid[j]);
                assert(args_mid.map_values(f)[j] == (seq!["--master"@, "local"@] + cl)[j]);
                assert(args_of(es)[j] == (seq!["--master"@, "local"@] + cl)[j]);
            } else {
                assert(args_of(es)[j] == seq![
                    "--jars"@,
                    "plugin/target/scala-2.13/spark-connect-proxy_2.13-0.1.0-SNAPSHOT.jar"@,
                    "--class"@,
                    "org.apache.spark.sql.connect.service.SparkConnectServer"@,
                ][j - args_mid.len()]);
            }
        }
        assert(args@.map_values(f) =~= args_of(es));
    }
    args
}

/// How many of the versions are flagged as the default.
pub open spec fn count_defaults(vs: Seq<SparkVersion>) -> int
    decreases vs.len(),
{
    if vs.len() == 0 {
        0
    } else {
        count_defaults(vs.drop_last()) + if vs.last().default {
            1int
        } else {
            0int
        }
    }
}

/// Every version's configuration layers are well-formed.
pub open spec fn versions_wf(vs: Seq<SparkVersion>) -> bool {
    forall|i: int| 0 <= i < vs.len() ==> (#[trigger] vs[i]).wf()
}

/// Version selection fails with exactly this error: no configured version
/// carries the requested name, or none is flagged default when no name was
/// given.
pub open spec fn select_fails(
    vs: Seq<SparkVersion>,
    version_name: Option<&str>,
    e: LaunchError,
) -> bool {
    match version_name {
        Option::Some(nm) => e == LaunchError::VersionNotFound && forall|i: int|
            0 <= i < vs.len() ==> (#[trigger] vs[i]).name@ != nm@,
        Option::None => e == LaunchError::NoDefaultVersion && forall|i: int|
            0 <= i < vs.len() ==> !(#[trigger] vs[i]).default,
    }
}

/// The plan prepares the selected version: its spark-submit path and
/// environment come from a version satisfying the selection request, and
/// its arguments lay out the composed configuration with the injected
/// system keys, in some entry order.
pub open spec fn plan_matches(
    plan: LaunchPlan,
    vs: Seq<SparkVersion>,
    version_name: Option<&str>,
    token: Seq<char>,
    callback: Seq<char>,
    user_cfg: Map<Seq<char>, Seq<char>>,
) -> bool {
    exists|vi: int|
        0 <= vi < vs.len() && {
            let v = #[trigger] vs[vi];
            &&& version_matches(v, version_name)
            &&& plan.submit_path@ == v.home@ + "/bin/spark-submit"@
            &&& plan.env.entries() == (match v.env {
                Option::Some(e) => e.entries(),
                Option::None => Seq::<(Seq<char>, Seq<char>)>::empty(),
            })
            &&& exists|es: KvEntries|
                keys_distinct(es) && #[trigger] map_of(es) == injected(
                    composed(
                        layer(v.default_configs),
                        user_cfg,
                        layer(v.merge_configs),
                        layer(v.override_configs),
                    ),
                    token,
                    callback,
                ) && plan.args@.map_values(|s: String| s@) == args_of(es)
        }
}

/// The version satisfies the selection request: it carries the requested
/// name, or is the default when no name was given.
pub open spec fn version_matches(v: SparkVersion, version_name: Option<&str>) -> bool {
    match version_name {
        Option::Some(nm) => v.name@ == nm@,
        Option::None => v.default,
    }
}

/// Some configured version equals `v` and satisfies the selection request.
pub open spec fn found_version(
    vs: Seq<SparkVersion>,
    version_name: Option<&str>,
    v: SparkVersion,
) -> bool {
    exists|i: int| 0 <= i < vs.len() && #[trigger] vs[i] == v && version_matches(vs[i], version_name)
}

/// Resolves version names to installations, composes backend
/// configurations, and prepares spark-submit invocations.
pub struct Launcher {
    versions: Vec<SparkVersion>,
    callback_addr: String,
}

impl Launcher {
    /// The configured versions, in configuration order.
    pub closed spec fn spec_versions(&self) -> Seq<SparkVersion> {
        self.versions@
    }

    /// The callback base URL handed to every backend.
    pub closed spec fn spec_callback_addr(&self) -> Seq<char> {
        self.callback_addr@
    }

    /// Builds the launcher.  With configured versions, exactly one must be
    /// flagged default.  With none, a synthetic "default" version is
    /// bootstrapped from the SPARK_HOME environment value when available,
    /// else from the grandparent directory of a spark-submit found on the
    /// search path; with neither, startup fails.
    pub fn from_parts(
        versions: Vec<SparkVersion>,
        callback_addr: String,
        spark_home_env: Option<String>,
        submit_grandparent: Option<String>,
    ) -> (r: Result<Launcher, ConfigError>)
        requires
            versions_wf(versions@),
        ensures
            match r {
                Result::Ok(l) => l.spec_callback_addr() == callback_addr@ && versions_wf(
                    l.spec_versions(),
                ) && (if versions@.len() > 0 {
                    l.spec_versions() == versions@ && count_defaults(versions@) == 1
                } else {
                    l.spec_versions().len() == 1 && l.spec_versions()[0].default && l.spec_versions()[0].name@
                        == "default"@ && (match spark_home_env {
                        Option::Some(h) => l.spec_versions()[0].home@ == h@,
                        Option::None => submit_grandparent matches Option::Some(g)
                            && l.spec_versions()[0].home@ == g@,
                    })
                }),
                Result::Err(e) => if versions@.len() > 0 {
                    e == ConfigError::NotExactlyOneDefault && count_defaults(versions@) != 1
                } else {
                    e == ConfigError::NoSparkInstallation && spark_home_env is None
                        && submit_grandparent is None
                },
            },
    {
        if versions.len() == 0 {
            let home_opt = match spark_home_env {
                Option::Some(h) => Option::Some(h),
                Option::None => submit_grandparent,
            };
            match home_opt {
                Option::Some(home) => {
                    let synthetic = SparkVersion {
                        name: String::from_str("default"),
                        home,
                        default: true,
                        env: Option::None,
                        default_configs: Option::None,
                        merge_configs: Option::None,
                        override_configs: Option::None,
                    };
                    let mut vs: Vec<SparkVersion> = Vec::new();
                    vs.push(synthetic);
                    Result::Ok(Launcher { versions: vs, callback_addr })
                },
                Option::None => Result::Err(ConfigError::NoSparkInstallation),
            }
        } else {
            let n = versions.len();
            let mut count: usize = 0;
            let mut i: usize = 0;
            proof {
                assert(versions@.take(0) =~= Seq::<SparkVersion>::empty());
            }
            while i < n
                invariant
                    n == versions@.len(),
                    0 <= i <= n,
                    count <= i,
                    count == count_defaults(versions@.take(i as int)),
                decreases n - i,
            {
                if versions[i].default {
                    count = count + 1;
                }
                i = i + 1;
                proof {
                    let t = versions@.take(i as int);
                    assert(t.drop_last() =~= versions@.take(i - 1));
                    assert(t.last() == versions@[i - 1]);
                }
            }
            proof {
                assert(versions@.take(n as int) =~= versions@);
            }
            if count == 1 {
                Result::Ok(Launcher { versions, callback_addr })
            } else {
                Result::Err(ConfigError::NotExactlyOneDefault)
            }
        }
    }

    /// The names of the configured versions, in order.
    pub fn get_versions(&self) -> (r: Vec<String>)
        ensures
            r@.map_values(|s: String| s@) == self.spec_versions().map_values(
                |v: SparkVersion| v.name@,
            ),
    {
        let n = self.versions.len();
        let mut out: Vec<String> = Vec::new();
        let mut i: usize = 0;
        proof {
            let f = |s: String| s@;
            assert(out@.map_values(f) =~= self.spec_versions().take(0).map_values(
                |v: SparkVersion| v.name@,
            ));
        }
        while i < n
            invariant
                n == self.spec_versions().len(),
                0 <= i <= n,
                out@.map_values(|s: String| s@) == self.spec_versions().take(i as int).map_values(
                    |v: SparkVersion| v.name@,
                ),
            decreases n - i,
        {
            let ghost out0 = out@;
            out.push(self.versions[i].name.clone());
            i = i + 1;
            proof {
                let f = |s: String| s@;
                let ncl = |v: SparkVersion| v.name@;
                assert(out0.map_values(f).len() == out0.len());
                assert(out0.len() == i - 1);
                assert forall|j: int| 0 <= j < i implies out@.map_values(f)[j]
                    == self.spec_versions().take(i as int).map_values(ncl)[j] by {
                    if j < i - 1 {
                        assert(out@[j] == out0[j]);
                        assert(out0.map_values(f)[j] == self.spec_versions().take(
                            i - 1,
                        ).map_values(ncl)[j]);
                        assert(self.spec_versions().take(i - 1)[j] == self.spec_versions().take(
                            i as int,
                        )[j]);
                    }
                }
                assert(out@.map_values(f) =~= self.spec_versions().take(i as int).map_values(ncl));
            }
        }
        proof {
            assert(self.spec_versions().take(n as int) =~= self.spec_versions());
        }
        out
    }

    /// The configured version under `version_name`, or the default version
    /// when no name is given.
    fn find_version<'a>(&'a self, version_name: Option<&str>) -> (r: Result<
        &'a SparkVersion,
        LaunchError,
    >)
        ensures
            match r {
                Result::Ok(v) => found_version(self.spec_versions(), version_name, *v),
                Result::Err(e) => select_fails(self.spec_versions(), version_name, e),
            },
    {
        let n = self.versions.len();
        let mut i: usize = 0;
        match version_name {
            Option::Some(nm) => {
                while i < n
                    invariant
                        version_name == Option::Some(nm),
                        n == self.spec_versions().len(),
                        0 <= i <= n,
                        forall|j: int|
                            0 <= j < i ==> (#[trigger] self.spec_versions()[j]).name@ != nm@,
                    decreases n - i,
                {
                    if str_eq(self.versions[i].name.as_str(), nm) {
                        let found = &self.versions[i];
                        proof {
                            assert(self.spec_versions()[i as int] == *found);
                            assert(version_matches(self.spec_versions()[i as int], version_name));
                            assert(found_version(self.spec_versions(), version_name, *found));
                        }
                        return Result::Ok(found);
                    }
                    i = i + 1;
                }
                Result::Err(LaunchError::VersionNotFound)
            },
            Option::None => {
                while i < n
                    invariant
                        version_name is None,
                        n == self.spec_versions().len(),
                        0 <= i <= n,
                        forall|j: int| 0 <= j < i ==> !(#[trigger] self.spec_versions()[j]).default,
                    decreases n - i,
                {
                    if self.versions[i].default {
                        let found = &self.versions[i];
                        proof {
                            assert(self.spec_versions()[i as int] == *found);
                            assert(version_matches(self.spec_versions()[i as int], version_name));
                            assert(found_version(self.spec_versions(), version_name, *found));
                        }
                        return Result::Ok(found);
                    }
                    i = i + 1;
                }
                Result::Err(LaunchError::NoDefaultVersion)
            },
        }
    }

    /// Prepares the spark-submit invocation for one session: selects the
    /// version, composes the configuration layers, injects the
    /// system-controlled keys, and lays out the argument vector.  The
    /// caller performs the spawn itself.
    pub fn launch_plan(
        &self,
        version_name: Option<&str>,
        token: &str,
        user_config: &ConfigTable,
    ) -> (r: Result<LaunchPlan, LaunchError>)
        requires
            versions_wf(self.spec_versions()),
            user_config.wf(),
        ensures
            match r {
                Result::Ok(plan) => plan_matches(
                    plan,
                    self.spec_versions(),
                    version_name,
                    token@,
                    self.spec_callback_addr(),
                    user_config@,
                ),
                Result::Err(e) => select_fails(self.spec_versions(), version_name, e),
            },
    {
        let version = match self.find_version(version_name) {
            Result::Ok(v) => v,
            Result::Err(e) => {
                return Result::Err(e);
            },
        };
        proof {
            let vi = choose|vi: int|
                0 <= vi < self.spec_versions().len() && #[trigger] self.spec_versions()[vi]
                    == *version && version_matches(self.spec_versions()[vi], version_name);
            assert(self.spec_versions()[vi].wf());
        }
        let mut configs = compose_configs(version, user_config);
        configs.insert(String::from_str("spark.connect.proxy.token"), token.to_owned());
        configs.insert(
            String::from_str("spark.connect.proxy.callback"),
            self.callback_addr.clone(),
        );
        configs.insert(
            String::from_str("spark.extraListeners"),
            String::from_str("org.apache.spark.sql.connect.proxy.SparkConnectProxyListener"),
        );
        configs.insert(
            String::from_str("spark.connect.grpc.interceptor.classes"),
            String::from_str("org.apache.spark.sql.connect.proxy.SparkConnectProxyInterceptor"),
        );
        configs.insert(String::from_str("spark.connect.grpc.binding.port"), String::from_str("0"));
        let args = build_args(&configs);
        let mut submit_path = version.home.clone();
        submit_path.append("/bin/spark-submit");
        let env = match &version.env {
            Option::Some(e) => e.clone(),
            Option::None => ConfigTable::new(),
        };
        let plan = LaunchPlan { submit_path, args, env };
        proof {
            configs.lemma_view_is_entries();
            assert(keys_distinct(configs.entries()));
        }
        Result::Ok(plan)
    }
}

} // verus!
