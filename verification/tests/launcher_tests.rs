use spark_connect_proxy::config::ConfigTable;
use spark_connect_proxy::config::SparkVersion;
use spark_connect_proxy::launcher::ConfigError;
use spark_connect_proxy::launcher::LaunchError;
use spark_connect_proxy::launcher::Launcher;

fn table(pairs: &[(&str, &str)]) -> ConfigTable {
    let mut t = ConfigTable::new();
    for (k, v) in pairs {
        t.insert(k.to_string(), v.to_string());
    }
    t
}

fn version(name: &str, default: bool) -> SparkVersion {
    SparkVersion {
        name: name.to_string(),
        home: format!("/opt/{}", name),
        default,
        env: None,
        default_configs: None,
        merge_configs: None,
        override_configs: None,
    }
}

fn callback() -> String {
    "http://10.0.0.5:8100".to_string()
}

#[test]
fn bootstrap_from_spark_home() {
    let launcher = Launcher::from_parts(
        Vec::new(),
        callback(),
        Some("/opt/spark-home".to_string()),
        Some("/ignored".to_string()),
    )
    .expect("bootstrap should succeed");
    assert_eq!(launcher.get_versions(), vec!["default".to_string()]);
}

#[test]
fn bootstrap_from_search_path() {
    let launcher =
        Launcher::from_parts(Vec::new(), callback(), None, Some("/opt/from-path".to_string()))
            .expect("bootstrap should succeed");
    assert_eq!(launcher.get_versions(), vec!["default".to_string()]);
}

#[test]
fn bootstrap_fails_without_installation() {
    match Launcher::from_parts(Vec::new(), callback(), None, None) {
        Ok(_) => panic!("bootstrap should fail"),
        Err(err) => assert_eq!(err, ConfigError::NoSparkInstallation),
    }
}

#[test]
fn exactly_one_default_enforced() {
    match Launcher::from_parts(vec![version("a", true), version("b", true)], callback(), None, None)
    {
        Ok(_) => panic!("two defaults should be refused"),
        Err(err) => assert_eq!(err, ConfigError::NotExactlyOneDefault),
    }
    match Launcher::from_parts(vec![version("a", false)], callback(), None, None) {
        Ok(_) => panic!("zero defaults should be refused"),
        Err(err) => assert_eq!(err, ConfigError::NotExactlyOneDefault),
    }
    let launcher =
        Launcher::from_parts(vec![version("a", true), version("b", false)], callback(), None, None)
            .expect("one default should be accepted");
    assert_eq!(launcher.get_versions(), vec!["a".to_string(), "b".to_string()]);
}

#[test]
fn unknown_version_not_found() {
    let launcher = Launcher::from_parts(vec![version("a", true)], callback(), None, None).unwrap();
    match launcher.launch_plan(Some("missing"), "tok", &table(&[])) {
        Ok(_) => panic!("unknown version should be refused"),
        Err(err) => assert_eq!(err, LaunchError::VersionNotFound),
    }
}

#[test]
fn plan_lays_out_command_line() {
    let launcher =
        Launcher::from_parts(vec![version("a", true), version("b", false)], callback(), None, None)
            .unwrap();
    let plan = launcher.launch_plan(Some("b"), "tok-1", &table(&[])).unwrap();
    assert_eq!(plan.submit_path, "/opt/b/bin/spark-submit");
    let args = plan.args;
    assert_eq!(args[0], "--master");
    assert_eq!(args[1], "local");
    let n = args.len();
    assert_eq!(args[n - 4], "--jars");
    assert_eq!(args[n - 3], "plugin/target/scala-2.13/spark-connect-proxy_2.13-0.1.0-SNAPSHOT.jar");
    assert_eq!(args[n - 2], "--class");
    assert_eq!(args[n - 1], "org.apache.spark.sql.connect.service.SparkConnectServer");
    assert!(args.contains(&"--conf".to_string()));
    assert!(args.contains(&"spark.connect.proxy.token=tok-1".to_string()));
    assert!(args.contains(&"spark.connect.proxy.callback=http://10.0.0.5:8100".to_string()));
    assert!(args.contains(&"spark.connect.grpc.binding.port=0".to_string()));
    assert!(args.contains(
        &"spark.extraListeners=org.apache.spark.sql.connect.proxy.SparkConnectProxyListener"
            .to_string()
    ));
    assert!(args.contains(
        &"spark.connect.grpc.interceptor.classes=org.apache.spark.sql.connect.proxy.SparkConnectProxyInterceptor"
            .to_string()
    ));
}

#[test]
fn plan_uses_default_version_when_unnamed() {
    let launcher =
        Launcher::from_parts(vec![version("a", false), version("b", true)], callback(), None, None)
            .unwrap();
    let plan = launcher.launch_plan(None, "tok", &table(&[])).unwrap();
    assert_eq!(plan.submit_path, "/opt/b/bin/spark-submit");
}

#[test]
fn merge_composition_reaches_command_line() {
    let mut v = version("a", true);
    v.default_configs = Some(table(&[("k", "d")]));
    v.merge_configs = Some(table(&[("k", "m")]));
    let launcher = Launcher::from_parts(vec![v], callback(), None, None).unwrap();
    let plan = launcher.launch_plan(None, "tok", &table(&[])).unwrap();
    assert!(plan.args.contains(&"k=d,m".to_string()));
}

#[test]
fn plan_carries_version_env() {
    let mut v = version("a", true);
    v.env = Some(table(&[("SPARK_LOCAL_IP", "127.0.0.1")]));
    let launcher = Launcher::from_parts(vec![v], callback(), None, None).unwrap();
    let plan = launcher.launch_plan(None, "tok", &table(&[])).unwrap();
    assert_eq!(plan.env.get("SPARK_LOCAL_IP").unwrap(), "127.0.0.1");
}
