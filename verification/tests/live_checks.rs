use pipewireao_rtc::{
    admit_link, artifact_reference_check, discard_count, file_reference_variable,
    is_system_path, maintained_plugin_check, port_identity_matches, port_name_matches,
    realized_topology_check, sinks_advanced, start_topology_check, LinkAdmission,
    LinkObservation, PortDirection, ScientificDiagnostic, discard_sink_properties,
    fits_source_properties, link_properties, EndpointFactory, ObjectRealization, ObjectSpec,
};

fn refused(admission: LinkAdmission) -> ScientificDiagnostic {
    match admission {
        LinkAdmission::Refused(diagnostic) => diagnostic,
        other => panic!("expected a refusal, got {other:?}"),
    }
}

#[test]
fn port_names_match_plainly_or_qualified_by_a_colon() {
    assert!(port_name_matches("frames", "frames"));
    assert!(port_name_matches("fits:frames", "frames"));
    assert!(port_name_matches("a:b:frames", "frames"));
    assert!(port_name_matches(":frames", "frames"));
    assert!(!port_name_matches("xframes", "frames"));
    assert!(!port_name_matches("frames", "xframes"));
    assert!(!port_name_matches("fits:frame", "frames"));
    assert!(!port_name_matches("", "frames"));
}

#[test]
fn port_identity_needs_node_direction_and_name() {
    let direction = PortDirection::Output;
    assert!(port_identity_matches(Some("42"), Some("out"), Some("src:frames"), 42, "frames", direction));
    assert!(!port_identity_matches(Some("4"), Some("out"), Some("frames"), 42, "frames", direction));
    assert!(!port_identity_matches(Some("42"), Some("in"), Some("frames"), 42, "frames", direction));
    assert!(!port_identity_matches(Some("42"), Some("out"), None, 42, "frames", direction));
    assert!(!port_identity_matches(None, Some("out"), Some("frames"), 42, "frames", direction));
    assert!(port_identity_matches(Some("7"), Some("in"), Some("frames"), 7, "frames", PortDirection::Input));
}

#[test]
fn usable_links_are_admitted_when_passivity_is_retained() {
    let label = "links[0] a:out -> b:in";
    assert_eq!(admit_link(0, label, &LinkObservation::Active, Some("true"), true), LinkAdmission::Admitted);
    assert_eq!(admit_link(0, label, &LinkObservation::Paused, None, false), LinkAdmission::Admitted);
    assert_eq!(admit_link(0, label, &LinkObservation::Paused, Some("false"), false), LinkAdmission::Admitted);
    assert_eq!(admit_link(0, label, &LinkObservation::Unknown, None, true), LinkAdmission::Waiting);
    assert_eq!(
        admit_link(0, label, &LinkObservation::Pending("Init".to_owned()), None, false),
        LinkAdmission::Waiting
    );
}

#[test]
fn links_that_lost_passivity_or_failed_are_refused() {
    let label = "links[3] a:out -> b:in";
    let lost = refused(admit_link(3, label, &LinkObservation::Active, None, true));
    assert_eq!(lost.field(), "links[3].passive");
    assert_eq!(
        lost.message(),
        "configured link.passive=true, but the public PipeWire link reports None"
    );
    let gained = refused(admit_link(12, label, &LinkObservation::Paused, Some("true"), false));
    assert_eq!(gained.field(), "links[12].passive");
    assert_eq!(
        gained.message(),
        "configured link.passive=false, but the public PipeWire link reports Some(\"true\")"
    );
    let other = refused(admit_link(1, label, &LinkObservation::Active, Some("false"), true));
    assert_eq!(
        other.message(),
        format!("configured link.passive=true, but the public PipeWire link reports {:?}", Some("false"))
    );
    let unlinked = refused(admit_link(3, label, &LinkObservation::Unlinked, None, false));
    assert_eq!((unlinked.field(), unlinked.message()), (label, "link became unlinked"));
    let failed = refused(admit_link(3, label, &LinkObservation::Failed("no format".to_owned()), None, false));
    assert_eq!((failed.field(), failed.message()), (label, "no format"));
}

#[test]
fn realized_topology_must_match_the_declaration() {
    assert!(realized_topology_check(2, 3, 1, 2, 3, 1).is_ok());
    let error = realized_topology_check(2, 3, 1, 1, 3, 10).expect_err("missing node");
    assert_eq!(error.field(), "topology");
    assert_eq!(
        error.message(),
        "expected exactly 2 runner-owned nodes, 3 required nodes, and 1 declared links; observed 1 owned node(s), 3 required node(s), and 10 link(s)"
    );
    assert!(start_topology_check(2, 3, 1, 2, 3, 1).is_ok());
    let error = start_topology_check(2, 3, 1, 2, 2, 1).expect_err("lost node");
    assert_eq!(error.field(), "topology");
    assert_eq!(
        error.message(),
        "every declared source, graph, sink, and link must exist before start"
    );
}

#[test]
fn discard_counts_are_nonnegative() {
    assert_eq!(discard_count("discard.buffers", 0), Ok(0));
    assert_eq!(discard_count("discard.buffers", 41), Ok(41));
    assert_eq!(
        discard_count("discard.buffers", -3),
        Err("discard.buffers is negative: -3".to_owned())
    );
    assert_eq!(
        discard_count("discard.process-calls", i64::MIN),
        Err("discard.process-calls is negative: -9223372036854775808".to_owned())
    );
}

#[test]
fn every_sink_must_advance_after_start() {
    let before = vec![("sink-a".to_owned(), 4u64), ("sink-b".to_owned(), 0u64)];
    let advanced = vec![("sink-b".to_owned(), 1u64), ("sink-a".to_owned(), 5u64)];
    let stalled = vec![("sink-a".to_owned(), 9u64), ("sink-b".to_owned(), 0u64)];
    let missing = vec![("sink-a".to_owned(), 9u64)];
    assert!(sinks_advanced(&before, &advanced));
    assert!(!sinks_advanced(&before, &stalled));
    assert!(!sinks_advanced(&before, &missing));
    assert!(sinks_advanced(&Vec::new(), &missing));
}

#[test]
fn file_references_name_an_environment_variable() {
    assert_eq!(
        file_reference_variable("sources[0].config.path", "${PIPEWIREAO_SOURCE_ARGS}"),
        Ok("PIPEWIREAO_SOURCE_ARGS".to_owned())
    );
    assert_eq!(file_reference_variable("f", "${}"), Ok(String::new()));
    for configured in ["$PIPEWIREAO", "{X}", "${X", "/tmp/x", "${"] {
        let error = file_reference_variable("f", configured).expect_err("not a reference");
        assert_eq!(error.field(), "f");
        assert_eq!(error.message(), "expected an explicit environment file reference");
    }
}

#[test]
fn maintained_artifacts_are_referenced_and_named_exactly() {
    assert!(artifact_reference_check(
        "sinks[0].plugin.path",
        "${PIPEWIREAO_DISCARD_PLUGIN}",
        "PIPEWIREAO_DISCARD_PLUGIN"
    )
    .is_ok());
    let error = artifact_reference_check("sinks[0].plugin.path", "/usr/lib/x.so", "PIPEWIREAO_DISCARD_PLUGIN")
        .expect_err("literal path");
    assert_eq!(error.field(), "sinks[0].plugin.path");
    assert_eq!(
        error.message(),
        format!("expected maintained artifact reference {:?}", "${PIPEWIREAO_DISCARD_PLUGIN}")
    );
    assert!(maintained_plugin_check("f", Some("libspa-fits.so"), "libspa-fits.so", "FITS", "/b/libspa-fits.so").is_ok());
    let error = maintained_plugin_check("f", Some("libother.so"), "libspa-fits.so", "FITS", "/b/libother.so")
        .expect_err("other plugin");
    assert_eq!(
        error.message(),
        "expected maintained FITS plugin \"libspa-fits.so\", got /b/libother.so"
    );
    assert!(maintained_plugin_check("f", None, "libspa-fits.so", "FITS", "/").is_err());
}

#[test]
fn system_paths_lie_under_usr() {
    assert!(is_system_path("/usr"));
    assert!(is_system_path("/usr/lib/spa-0.2/libspa-fits.so"));
    assert!(!is_system_path("/usrlocal/lib"));
    assert!(!is_system_path("/home/usr/lib"));
    assert!(!is_system_path("/us"));
    assert!(!is_system_path(""));
}

fn endpoint(realization: ObjectRealization<EndpointFactory>, arguments: Vec<(String, String)>) -> ObjectSpec<EndpointFactory> {
    ObjectSpec {
        realization,
        module: None,
        node_name: "rtc-node".to_owned(),
        plugin_path: None,
        configuration_path: None,
        arguments,
        ports: Vec::new(),
    }
}

fn pairs(items: &[(&str, &str)]) -> Vec<(String, String)> {
    items.iter().map(|(k, v)| (k.to_string(), v.to_string())).collect()
}

#[test]
fn owned_objects_are_requested_with_their_identity_and_arguments() {
    let sink = endpoint(ObjectRealization::Factory(EndpointFactory::FormatAgnosticDiscardSink), Vec::new());
    assert_eq!(
        discard_sink_properties(&sink),
        pairs(&[
            ("factory.name", "api.pipewireao.discard"),
            ("library.name", "pipewireao/libspa-pipewireao-discard"),
            ("node.name", "rtc-node"),
            ("node.description", "PipeWireAO RTC non-actuating discard sink"),
            ("node.virtual", "true"),
            ("node.want-driver", "true"),
            ("object.linger", "false"),
        ])
    );
    let source = endpoint(
        ObjectRealization::Factory(EndpointFactory::FitsCompleteFrameSource),
        pairs(&[("api.fits.hdu", "1"), ("api.fits.path", "${PIPEWIREAO_RTC_FITS_PATH}"), ("api.fits.loop", "true")]),
    );
    assert_eq!(
        fits_source_properties(&source, "/data/excitation.fits"),
        pairs(&[
            ("factory.name", "api.fits.source"),
            ("node.name", "rtc-node"),
            ("node.description", "PipeWireAO RTC recorded complete-frame source"),
            ("node.virtual", "true"),
            ("object.linger", "false"),
            ("api.fits.hdu", "1"),
            ("api.fits.path", "/data/excitation.fits"),
            ("api.fits.loop", "true"),
        ])
    );
}

#[test]
fn links_are_requested_between_numbered_ports() {
    assert_eq!(
        link_properties(31, 40, 52, 7, false),
        pairs(&[
            ("link.output.node", "31"),
            ("link.output.port", "40"),
            ("link.input.node", "52"),
            ("link.input.port", "7"),
        ])
    );
    assert_eq!(
        link_properties(0, 4294967295, 1, 2, true),
        pairs(&[
            ("link.output.node", "0"),
            ("link.output.port", "4294967295"),
            ("link.input.node", "1"),
            ("link.input.port", "2"),
            ("link.passive", "true"),
        ])
    );
}

#[test]
fn quoted_values_are_escaped_as_debug_does() {
    let error = maintained_plugin_check("f", Some("x"), "lib\"odd\\.so", "FITS", "/b/x").expect_err("other");
    assert_eq!(error.message(), format!("expected maintained FITS plugin {:?}, got /b/x", "lib\"odd\\.so"));
    let lost = refused(admit_link(0, "l", &LinkObservation::Active, Some("tr\"ue\n"), true));
    assert_eq!(
        lost.message(),
        format!("configured link.passive=true, but the public PipeWire link reports {:?}", Some("tr\"ue\n"))
    );
}
