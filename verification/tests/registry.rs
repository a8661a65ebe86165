use envoy_exporter::gauges::{same_texts, Metric, MetricsRegistry};

fn labels(values: &[&str]) -> Vec<String> {
    values.iter().map(|v| v.to_string()).collect()
}

fn text(registry: &MetricsRegistry) -> String {
    String::from_utf8(registry.render().unwrap()).unwrap()
}

#[test]
fn new_registry_holds_nothing() {
    let registry = MetricsRegistry::new();
    for metric in Metric::all() {
        assert_eq!(registry.get(metric, &labels(&["A", "E1"])), None);
        assert_eq!(registry.get(metric, &labels(&["A", "E1", "X1"])), None);
    }
    assert_eq!(text(&registry), "");
}

#[test]
fn setters_write_their_own_family() {
    let mut registry = MetricsRegistry::new();
    registry.set_online("A", "E1", true);
    registry.set_current_watts("A", "E1", 150);
    registry.set_lifetime_watt_hours("A", "E1", 500);
    registry.set_today_watt_hours("A", "E1", 20);
    registry.set_inverter_watts("A", "E1", "X1", 75);
    registry.set_build_info("0.1.0", "abc", "1.80");
    let device = labels(&["A", "E1"]);
    assert_eq!(registry.get(Metric::Online, &device), Some(1));
    assert_eq!(registry.get(Metric::CurrentWatts, &device), Some(150));
    assert_eq!(registry.get(Metric::LifetimeWattHours, &device), Some(500));
    assert_eq!(registry.get(Metric::TodayWattHours, &device), Some(20));
    assert_eq!(registry.get(Metric::InverterLastWatts, &labels(&["A", "E1", "X1"])), Some(75));
    assert_eq!(registry.get(Metric::BuildInfo, &labels(&["0.1.0", "abc", "1.80"])), Some(1));
    assert_eq!(registry.get(Metric::InverterLastWatts, &device), None);
    assert_eq!(registry.get(Metric::Online, &labels(&["A", "E2"])), None);
    assert_eq!(registry.get(Metric::Online, &labels(&["E1", "A"])), None);
}

#[test]
fn online_is_one_or_zero() {
    let mut registry = MetricsRegistry::new();
    registry.set_online("A", "E1", true);
    registry.set_online("B", "E2", false);
    assert_eq!(registry.get(Metric::Online, &labels(&["A", "E1"])), Some(1));
    assert_eq!(registry.get(Metric::Online, &labels(&["B", "E2"])), Some(0));
}

#[test]
fn a_setter_replaces_and_never_adds_up() {
    let mut registry = MetricsRegistry::new();
    registry.set_current_watts("A", "E1", 150);
    registry.set_current_watts("A", "E1", 150);
    assert_eq!(registry.get(Metric::CurrentWatts, &labels(&["A", "E1"])), Some(150));
    registry.set_current_watts("A", "E1", -4);
    assert_eq!(registry.get(Metric::CurrentWatts, &labels(&["A", "E1"])), Some(-4));
    assert_eq!(
        text(&registry),
        "# HELP envoy_current_watts Number of watts being produced\n\
         # TYPE envoy_current_watts gauge\n\
         envoy_current_watts{envoy=\"E1\",host=\"A\"} -4\n"
    );
}

#[test]
fn label_tuples_that_read_alike_are_kept_apart() {
    let mut registry = MetricsRegistry::new();
    registry.set_current_watts("ab", "c", 1);
    registry.set_current_watts("a", "bc", 2);
    assert_eq!(registry.get(Metric::CurrentWatts, &labels(&["ab", "c"])), Some(1));
    assert_eq!(registry.get(Metric::CurrentWatts, &labels(&["a", "bc"])), Some(2));
}

#[test]
fn metric_descriptions_are_the_published_ones() {
    let expected: [(Metric, &str, &str, &[&str]); 6] = [
        (
            Metric::BuildInfo,
            "envoy_build_info",
            "A metric with a constant '1' value labeled by version, revision and rustversion",
            &["version", "revision", "rustversion"],
        ),
        (Metric::Online, "envoy_online", "Metric scraping successful", &["host", "envoy"]),
        (
            Metric::CurrentWatts,
            "envoy_current_watts",
            "Number of watts being produced",
            &["host", "envoy"],
        ),
        (
            Metric::TodayWattHours,
            "envoy_today_watt_hours",
            "Number of watt hours produced today",
            &["host", "envoy"],
        ),
        (
            Metric::LifetimeWattHours,
            "envoy_lifetime_watt_hours",
            "Number of watt hours ever produced",
            &["host", "envoy"],
        ),
        (
            Metric::InverterLastWatts,
            "envoy_inverter_last_watts",
            "Number of watts last reported produced by an inverter",
            &["host", "envoy", "inverter"],
        ),
    ];
    let all = Metric::all();
    assert_eq!(all.len(), 6);
    for (i, (metric, name, help, label_names)) in expected.iter().enumerate() {
        assert_eq!(all[i], *metric);
        assert_eq!(metric.name(), *name);
        assert_eq!(metric.help(), *help);
        assert_eq!(metric.label_names(), labels(label_names));
        assert_eq!(metric.label_count(), label_names.len());
    }
}

#[test]
fn same_texts_compares_element_by_element() {
    assert!(same_texts(&labels(&[]), &labels(&[])));
    assert!(same_texts(&labels(&["a", "b"]), &labels(&["a", "b"])));
    assert!(!same_texts(&labels(&["a", "b"]), &labels(&["a", "c"])));
    assert!(!same_texts(&labels(&["a", "b"]), &labels(&["a"])));
    assert!(!same_texts(&labels(&["ab", "c"]), &labels(&["a", "bc"])));
}

#[test]
fn render_writes_every_family_in_the_text_format() {
    let mut registry = MetricsRegistry::new();
    registry.set_online("A", "E1", true);
    registry.set_current_watts("A", "E1", 150);
    registry.set_lifetime_watt_hours("A", "E1", 500);
    registry.set_today_watt_hours("A", "E1", 20);
    registry.set_inverter_watts("A", "E1", "X2", 80);
    registry.set_inverter_watts("A", "E1", "X1", 75);
    registry.set_build_info("0.1.0", "abc", "1.80");
    assert_eq!(
        text(&registry),
        "# HELP envoy_build_info A metric with a constant '1' value labeled by version, revision and rustversion\n\
         # TYPE envoy_build_info gauge\n\
         envoy_build_info{revision=\"abc\",rustversion=\"1.80\",version=\"0.1.0\"} 1\n\
         # HELP envoy_current_watts Number of watts being produced\n\
         # TYPE envoy_current_watts gauge\n\
         envoy_current_watts{envoy=\"E1\",host=\"A\"} 150\n\
         # HELP envoy_inverter_last_watts Number of watts last reported produced by an inverter\n\
         # TYPE envoy_inverter_last_watts gauge\n\
         envoy_inverter_last_watts{envoy=\"E1\",host=\"A\",inverter=\"X1\"} 75\n\
         envoy_inverter_last_watts{envoy=\"E1\",host=\"A\",inverter=\"X2\"} 80\n\
         # HELP envoy_lifetime_watt_hours Number of watt hours ever produced\n\
         # TYPE envoy_lifetime_watt_hours gauge\n\
         envoy_lifetime_watt_hours{envoy=\"E1\",host=\"A\"} 500\n\
         # HELP envoy_online Metric scraping successful\n\
         # TYPE envoy_online gauge\n\
         envoy_online{envoy=\"E1\",host=\"A\"} 1\n\
         # HELP envoy_today_watt_hours Number of watt hours produced today\n\
         # TYPE envoy_today_watt_hours gauge\n\
         envoy_today_watt_hours{envoy=\"E1\",host=\"A\"} 20\n"
    );
}

#[test]
fn render_twice_gives_the_same_bytes() {
    let mut registry = MetricsRegistry::new();
    registry.set_online("A", "E1", true);
    registry.set_online("B", "E2", false);
    registry.set_inverter_watts("A", "E1", "X1", 75);
    registry.set_build_info("0.1.0", "", "");
    let first = registry.render().unwrap();
    let second = registry.render().unwrap();
    assert!(!first.is_empty());
    assert_eq!(first, second);
}

#[test]
fn render_escapes_label_values() {
    let mut registry = MetricsRegistry::new();
    registry.set_online("a\"b", "c\\d", true);
    assert_eq!(
        text(&registry),
        "# HELP envoy_online Metric scraping successful\n\
         # TYPE envoy_online gauge\n\
         envoy_online{envoy=\"c\\\\d\",host=\"a\\\"b\"} 1\n"
    );
}
