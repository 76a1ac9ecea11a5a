use pipewireao_rtc::{DevelopmentConfig, ObjectRealization, PortDirection};

const MINIMAL: &str = r##"{
    profile = development
    execution = complete-frame
    authority = none
    claim = development-characterization
    sources = [
        {
            factory = api.fits.source
            module = libpipewire-module-spa-node-factory
            node.name = pipewireao-rtc-source
            plugin.path = "${PIPEWIREAO_FITS_PLUGIN}"
            args = {
                api.fits.path = "${PIPEWIREAO_RTC_FITS_PATH}"
                api.fits.hdu = 1
                api.fits.io-mode = file
                api.fits.loop = true
                api.fits.output-mode = frame
                api.fits.prefault = false
                api.fits.rate = 1000/1
                api.fits.readiness = timerfd
                api.fits.sample-rank = 1
                api.fits.schema = org.calculon.ao.docrime-excitation/1
            }
            ports = [
                { name = output direction = output element-type = F32_LE shape = [ 2 ] schema = org.calculon.ao.docrime-excitation/1 }
            ]
        }
    ]
    graphs = [
        {
            factory = pipewireao.fgn-native
            module = libpipewire-module-ndarray-filter-chain
            node.name = pipewireao-rtc-graph
            config.path = "${PIPEWIREAO_RTC_GRAPH_MINIMAL}"
            ports = [
                { name = input direction = input element-type = F32_LE shape = [ 2 ] schema = org.calculon.ao.docrime-excitation/1 }
                { name = output direction = output element-type = F32_LE shape = [ 2 ] schema = org.calculon.ao.controller-command/1 }
            ]
        }
    ]
    sinks = [
        {
            factory = api.pipewireao.discard
            module = libpipewire-module-spa-node-factory
            node.name = pipewireao-rtc-sink
            plugin.path = "${PIPEWIREAO_DISCARD_PLUGIN}"
            ports = [
                { name = input direction = input element-type = F32_LE shape = [ 2 ] schema = org.calculon.ao.controller-command/1 }
            ]
        }
    ]
    properties = {}
    parameters = {}
    observations = []
    links = [
        { output = "pipewireao-rtc-source:output" input = "pipewireao-rtc-graph:input" passive = false }
        { output = "pipewireao-rtc-graph:output" input = "pipewireao-rtc-sink:input" passive = false }
    ]
    execution-groups = [
        { name = main nodes = [ pipewireao-rtc-source pipewireao-rtc-graph pipewireao-rtc-sink ] }
    ]
}
"##;

const SERIAL: &str = r##"{
    profile = development
    execution = complete-frame
    authority = none
    claim = development-characterization
    sources = [
        {
            factory = pipewireao.simulated-complete-frame
            module = libpipewire-module-ndarray-filter-chain
            node.name = pipewireao-rtc-serial-source
            config.path = "${PIPEWIREAO_RTC_SOURCE_GRAPH_SERIAL}"
            ports = [
                { name = output direction = output element-type = F32_LE shape = [ 2 ] schema = org.calculon.ao.docrime-excitation/1 }
            ]
        }
    ]
    graphs = [
        {
            factory = pipewireao.fgn-native
            module = libpipewire-module-ndarray-filter-chain
            node.name = pipewireao-rtc-serial-graph-a
            config.path = "${PIPEWIREAO_RTC_GRAPH_SERIAL_A}"
            ports = [
                { name = input direction = input element-type = F32_LE shape = [ 2 ] schema = org.calculon.ao.docrime-excitation/1 }
                { name = output direction = output element-type = F32_LE shape = [ 2 ] schema = org.calculon.ao.filtered-excitation/1 }
            ]
        }
        {
            factory = pipewireao.fgn-native
            module = libpipewire-module-ndarray-filter-chain
            node.name = pipewireao-rtc-serial-graph-b
            config.path = "${PIPEWIREAO_RTC_GRAPH_SERIAL_B}"
            ports = [
                { name = input direction = input element-type = F32_LE shape = [ 2 ] schema = org.calculon.ao.filtered-excitation/1 }
                { name = output direction = output element-type = F32_LE shape = [ 2 ] schema = org.calculon.ao.controller-command/1 }
            ]
        }
    ]
    sinks = [
        {
            factory = api.pipewireao.discard
            module = libpipewire-module-spa-node-factory
            node.name = pipewireao-rtc-serial-sink
            plugin.path = "${PIPEWIREAO_DISCARD_PLUGIN}"
            ports = [
                { name = input direction = input element-type = F32_LE shape = [ 2 ] schema = org.calculon.ao.controller-command/1 }
            ]
        }
    ]
    properties = {}
    parameters = {}
    observations = []
    links = [
        { output = "pipewireao-rtc-serial-source:output" input = "pipewireao-rtc-serial-graph-a:input" passive = false }
        { output = "pipewireao-rtc-serial-graph-a:output" input = "pipewireao-rtc-serial-graph-b:input" passive = false }
        { output = "pipewireao-rtc-serial-graph-b:output" input = "pipewireao-rtc-serial-sink:input" passive = false }
    ]
    execution-groups = [
        {
            name = chain
            nodes = [
                pipewireao-rtc-serial-source
                pipewireao-rtc-serial-graph-a
                pipewireao-rtc-serial-graph-b
                pipewireao-rtc-serial-sink
            ]
        }
    ]
}
"##;

const FORK: &str = r##"{
    profile = development
    execution = complete-frame
    authority = none
    claim = development-characterization
    sources = [
        {
            factory = pipewireao.simulated-complete-frame
            module = libpipewire-module-ndarray-filter-chain
            node.name = pipewireao-rtc-fork-source
            config.path = "${PIPEWIREAO_RTC_SOURCE_GRAPH_FORK}"
            ports = [
                { name = output direction = output element-type = F32_LE shape = [ 2 ] schema = org.calculon.ao.docrime-excitation/1 }
            ]
        }
    ]
    graphs = [
        {
            factory = pipewireao.fgn-native
            module = libpipewire-module-ndarray-filter-chain
            node.name = pipewireao-rtc-fork-graph-a
            config.path = "${PIPEWIREAO_RTC_GRAPH_FORK_A}"
            ports = [
                { name = input direction = input element-type = F32_LE shape = [ 2 ] schema = org.calculon.ao.docrime-excitation/1 }
                { name = output direction = output element-type = F32_LE shape = [ 2 ] schema = org.calculon.ao.controller-command/1 }
            ]
        }
        {
            factory = pipewireao.fgn-native
            module = libpipewire-module-ndarray-filter-chain
            node.name = pipewireao-rtc-fork-graph-b
            config.path = "${PIPEWIREAO_RTC_GRAPH_FORK_B}"
            ports = [
                { name = input direction = input element-type = F32_LE shape = [ 2 ] schema = org.calculon.ao.docrime-excitation/1 }
                { name = output direction = output element-type = F32_LE shape = [ 2 ] schema = org.calculon.ao.controller-command/1 }
            ]
        }
    ]
    sinks = [
        {
            factory = api.pipewireao.discard
            module = libpipewire-module-spa-node-factory
            node.name = pipewireao-rtc-fork-sink-a
            plugin.path = "${PIPEWIREAO_DISCARD_PLUGIN}"
            ports = [
                { name = input direction = input element-type = F32_LE shape = [ 2 ] schema = org.calculon.ao.controller-command/1 }
            ]
        }
        {
            factory = api.pipewireao.discard
            module = libpipewire-module-spa-node-factory
            node.name = pipewireao-rtc-fork-sink-b
            plugin.path = "${PIPEWIREAO_DISCARD_PLUGIN}"
            ports = [
                { name = input direction = input element-type = F32_LE shape = [ 2 ] schema = org.calculon.ao.controller-command/1 }
            ]
        }
    ]
    properties = {}
    parameters = {}
    observations = []
    links = [
        { output = "pipewireao-rtc-fork-source:output" input = "pipewireao-rtc-fork-graph-a:input" passive = true }
        { output = "pipewireao-rtc-fork-source:output" input = "pipewireao-rtc-fork-graph-b:input" passive = true }
        { output = "pipewireao-rtc-fork-graph-a:output" input = "pipewireao-rtc-fork-sink-a:input" passive = false }
        { output = "pipewireao-rtc-fork-graph-b:output" input = "pipewireao-rtc-fork-sink-b:input" passive = false }
    ]
    execution-groups = [
        { name = branch-a nodes = [ pipewireao-rtc-fork-graph-a pipewireao-rtc-fork-sink-a ] }
        { name = branch-b nodes = [ pipewireao-rtc-fork-graph-b pipewireao-rtc-fork-sink-b ] }
    ]
}
"##;

const AOS_HIL: &str = r##"{
    profile = development
    execution = complete-frame
    authority = none
    claim = development-characterization
    sources = [
        {
            ownership = external
            node.name = pipewireao-aos-hil-wfs
            ports = [
                { name = output_1 direction = output element-type = F32_LE shape = [ 64 64 ] schema = org.adaptiveopticssim.hil-reference.shack-hartmann-frame.f32/1 }
            ]
        }
    ]
    graphs = [
        {
            factory = pipewireao.fgn-native
            module = libpipewire-module-ndarray-filter-chain
            node.name = pipewireao-rtc-aos-controller
            config.path = "${PIPEWIREAO_RTC_GRAPH_AOS_CONTROLLER}"
            ports = [
                { name = input direction = input element-type = F32_LE shape = [ 64 64 ] schema = org.adaptiveopticssim.hil-reference.shack-hartmann-frame.f32/1 }
                { name = output direction = output element-type = F32_LE shape = [ 25 ] schema = org.adaptiveopticssim.hil-reference.dm-command.f32/1 }
            ]
        }
    ]
    sinks = [
        {
            ownership = external
            node.name = pipewireao-aos-hil-command
            ports = [
                { name = input_1 direction = input element-type = F32_LE shape = [ 25 ] schema = org.adaptiveopticssim.hil-reference.dm-command.f32/1 }
            ]
        }
    ]
    properties = {}
    parameters = {}
    observations = []
    links = [
        { output = "pipewireao-aos-hil-wfs:output_1" input = "pipewireao-rtc-aos-controller:input" passive = true }
        { output = "pipewireao-rtc-aos-controller:output" input = "pipewireao-aos-hil-command:input_1" passive = true }
    ]
    execution-groups = [
        { name = control nodes = [ pipewireao-rtc-aos-controller ] }
    ]
}
"##;


fn replace_once(document: &str, before: &str, after: &str) -> String {
    assert!(document.contains(before), "fixture does not contain {before:?}");
    document.replacen(before, after, 1)
}

fn field_of(document: &str) -> String {
    DevelopmentConfig::parse(document)
        .expect_err("the mutation must be refused")
        .field()
        .to_owned()
}

#[test]
fn upstream_to_downstream_order_follows_every_link() {
    let serial = DevelopmentConfig::parse(SERIAL).unwrap();
    assert_eq!(
        serial.topological_node_names(),
        [
            "pipewireao-rtc-serial-source",
            "pipewireao-rtc-serial-graph-a",
            "pipewireao-rtc-serial-graph-b",
            "pipewireao-rtc-serial-sink",
        ]
    );
    let fork = DevelopmentConfig::parse(FORK).unwrap();
    assert_eq!(
        fork.topological_node_names(),
        [
            "pipewireao-rtc-fork-source",
            "pipewireao-rtc-fork-graph-a",
            "pipewireao-rtc-fork-graph-b",
            "pipewireao-rtc-fork-sink-a",
            "pipewireao-rtc-fork-sink-b",
        ]
    );
    let order = fork.topological_node_names();
    for link in &fork.links {
        let output = link.output.rsplit_once(':').unwrap().0;
        let input = link.input.rsplit_once(':').unwrap().0;
        let before = order.iter().position(|name| name == output).unwrap();
        let after = order.iter().position(|name| name == input).unwrap();
        assert!(before < after, "{output} must precede {input}");
    }
}

#[test]
fn links_are_listed_furthest_downstream_first() {
    let serial = DevelopmentConfig::parse(SERIAL).unwrap();
    let order: Vec<usize> = serial.links_downstream_first().iter().map(|(index, _)| *index).collect();
    assert_eq!(order, [2, 1, 0]);
    let fork = DevelopmentConfig::parse(FORK).unwrap();
    let listed = fork.links_downstream_first();
    let order: Vec<usize> = listed.iter().map(|(index, _)| *index).collect();
    assert_eq!(order, [3, 2, 0, 1]);
    for (index, link) in listed {
        assert_eq!(link, &fork.links[index]);
    }
}

#[test]
fn owned_and_external_nodes_partition_the_session() {
    let config = DevelopmentConfig::parse(AOS_HIL).unwrap();
    assert_eq!(config.node_names().len(), config.object_count());
    assert_eq!(
        config.owned_object_count() + config.externally_owned_node_names().len(),
        config.object_count()
    );
    assert_eq!(
        config.session_controlled_topological_node_names(),
        ["pipewireao-rtc-aos-controller"]
    );
    assert!(config.sources[0].realization.is_external());
    assert_eq!(config.sources[0].realization, ObjectRealization::External);
    assert!(config.sources[0].module.is_none());
    let minimal = DevelopmentConfig::parse(MINIMAL).unwrap();
    assert_eq!(minimal.owned_object_count(), 3);
    assert!(minimal.externally_owned_node_names().is_empty());
    assert_eq!(
        minimal.node_names(),
        ["pipewireao-rtc-source", "pipewireao-rtc-graph", "pipewireao-rtc-sink"]
    );
}

#[test]
fn execution_group_members_are_listed_upstream_first() {
    let fork = DevelopmentConfig::parse(FORK).unwrap();
    assert_eq!(fork.execution_group_names(), ["branch-a", "branch-b"]);
    assert_eq!(
        fork.execution_group_node_names("branch-b").unwrap(),
        ["pipewireao-rtc-fork-graph-b", "pipewireao-rtc-fork-sink-b"]
    );
    assert_eq!(
        fork.execution_group_sink_names("branch-a").unwrap(),
        ["pipewireao-rtc-fork-sink-a"]
    );
    assert!(fork.execution_group_node_names("missing").is_none());
    assert!(fork.execution_group_sink_names("missing").is_none());
}

#[test]
fn decoded_values_keep_the_declared_contract() {
    let config = DevelopmentConfig::parse(MINIMAL).unwrap();
    let port = &config.sources[0].ports[0];
    assert_eq!(port.name, "output");
    assert_eq!(port.direction, PortDirection::Output);
    assert_eq!(port.element_type, "F32_LE");
    assert_eq!(port.shape, [2]);
    assert_eq!(port.schema, "org.calculon.ao.docrime-excitation/1");
    assert_eq!(config.sources[0].arguments.len(), 10);
    assert_eq!(
        config.sources[0].arguments[0],
        ("api.fits.path".to_owned(), "${PIPEWIREAO_RTC_FITS_PATH}".to_owned())
    );
    assert!(!config.links[0].passive);
    assert_eq!(config.links[1].input, "pipewireao-rtc-sink:input");
    let config = DevelopmentConfig::parse(&replace_once(MINIMAL, "shape = [ 2 ] schema = org.calculon.ao.controller-command/1 }\n            ]\n        }\n    ]\n    sinks", "shape = [ +2 ] schema = org.calculon.ao.controller-command/1 }\n            ]\n        }\n    ]\n    sinks")).unwrap();
    assert_eq!(config.graphs[0].ports[1].shape, [2]);
}

#[test]
fn document_and_root_errors_name_their_fields() {
    let error = DevelopmentConfig::parse("{ profile = development").unwrap_err();
    assert_eq!(error.field(), "configuration");
    assert!(error.message().starts_with("invalid relaxed SPA-JSON at line 1, column "));
    let error = DevelopmentConfig::parse("{\n  profile = \"dev\\q\"\n}").unwrap_err();
    assert_eq!(error.message(), "invalid relaxed SPA-JSON at line 2, column 19: unsupported string escape");
    assert_eq!(
        field_of(&replace_once(MINIMAL, "profile = development", "profile = development\n    bogus = 1")),
        "configuration.bogus"
    );
    assert_eq!(
        field_of(&replace_once(MINIMAL, "profile = development", "profile = development\n    profile = development")),
        "profile"
    );
    let missing = replace_once(MINIMAL, "observations = []", "");
    let error = DevelopmentConfig::parse(&missing).unwrap_err();
    assert_eq!(error.field(), "observations");
    assert_eq!(error.message(), "required field is missing");
    let error = DevelopmentConfig::parse(&replace_once(MINIMAL, "profile = development", "profile = operational")).unwrap_err();
    assert_eq!(error.message(), "expected \"development\", got \"operational\"");
    assert_eq!(field_of("[ 1 2 ]"), "configuration");
}

#[test]
fn object_and_port_errors_name_their_fields() {
    assert_eq!(
        field_of(&replace_once(MINIMAL, "node.name = pipewireao-rtc-graph", "node.name = pipewireao-rtc-source")),
        "graphs[0].node.name"
    );
    assert_eq!(
        field_of(&replace_once(MINIMAL, "node.name = pipewireao-rtc-graph", "node.name = \"pipewireao:graph\"")),
        "graphs[0].node.name"
    );
    assert_eq!(
        field_of(&replace_once(MINIMAL, "shape = [ 2 ] schema = org.calculon.ao.docrime-excitation/1 }", "shape = [ 2 x ] schema = org.calculon.ao.docrime-excitation/1 }")),
        "sources[0].ports[0].shape[1]"
    );
    assert_eq!(
        field_of(&replace_once(MINIMAL, "{ name = input direction = input element-type = F32_LE shape = [ 2 ] schema = org.calculon.ao.docrime-excitation/1 }", "")),
        "graphs[0].ports"
    );
    assert_eq!(
        field_of(&replace_once(MINIMAL, "name = output direction = output", "name = output direction = sideways")),
        "sources[0].ports[0].direction"
    );
    assert_eq!(
        field_of(&replace_once(MINIMAL, "module = libpipewire-module-ndarray-filter-chain", "module = libpipewire-module-spa-node-factory")),
        "graphs[0].module"
    );
    assert_eq!(
        field_of(&replace_once(MINIMAL, "api.fits.hdu = 1", "api.fits.hdu = 1\n                api.fits.gain = 2")),
        "sources[0].args.api.fits.gain"
    );
    assert_eq!(
        field_of(&replace_once(MINIMAL, "api.fits.hdu = 1\n", "")),
        "sources[0].args.api.fits.hdu"
    );
    assert_eq!(
        field_of(&replace_once(MINIMAL, "config.path = \"${PIPEWIREAO_RTC_GRAPH_MINIMAL}\"", "config.path = \"${pipewireao_rtc_graph_minimal}\"")),
        "graphs[0].config.path"
    );
    assert_eq!(
        field_of(&replace_once(MINIMAL, "properties = {}", "properties = { gain = 2 }")),
        "properties"
    );
    assert_eq!(
        field_of(&replace_once(MINIMAL, "parameters = {}", "parameters = { gain = [ 1 2 ] }")),
        "parameters"
    );
}

#[test]
fn topology_errors_name_their_fields() {
    let no_links = replace_once(
        MINIMAL,
        "links = [\n        { output = \"pipewireao-rtc-source:output\" input = \"pipewireao-rtc-graph:input\" passive = false }\n        { output = \"pipewireao-rtc-graph:output\" input = \"pipewireao-rtc-sink:input\" passive = false }\n    ]",
        "links = []",
    );
    assert_eq!(field_of(&no_links), "links");
    assert_eq!(
        field_of(&replace_once(MINIMAL, "\"pipewireao-rtc-source:output\"", "pipewireao-rtc-source")),
        "links[0].output"
    );
    assert_eq!(
        field_of(&replace_once(MINIMAL, "input = \"pipewireao-rtc-sink:input\"", "input = \"pipewireao-rtc-sink:output\"")),
        "links[1].input"
    );
    let unconsumed = replace_once(
        MINIMAL,
        "\n        { output = \"pipewireao-rtc-graph:output\" input = \"pipewireao-rtc-sink:input\" passive = false }",
        "",
    );
    let error = DevelopmentConfig::parse(&unconsumed).unwrap_err();
    assert_eq!(error.field(), "port pipewireao-rtc-sink:input");
    assert_eq!(error.message(), "input requires exactly one producer, got 0");
    let spare_source = "        {\n            factory = pipewireao.simulated-complete-frame\n            module = libpipewire-module-ndarray-filter-chain\n            node.name = pipewireao-rtc-serial-spare\n            config.path = \"${PIPEWIREAO_RTC_SOURCE_GRAPH_SPARE}\"\n            ports = [\n                { name = output direction = output element-type = F32_LE shape = [ 2 ] schema = org.calculon.ao.docrime-excitation/1 }\n            ]\n        }\n    ]\n    graphs";
    let starved = replace_once(SERIAL, "    ]\n    graphs", spare_source);
    let error = DevelopmentConfig::parse(&starved).unwrap_err();
    assert_eq!(error.field(), "port pipewireao-rtc-serial-spare:output");
    assert_eq!(error.message(), "output requires at least one declared consumer");
    let third_graph = "        {\n            factory = pipewireao.fgn-native\n            module = libpipewire-module-ndarray-filter-chain\n            node.name = pipewireao-rtc-serial-graph-c\n            config.path = \"${PIPEWIREAO_RTC_GRAPH_SERIAL_C}\"\n            ports = [\n                { name = input direction = input element-type = F32_LE shape = [ 2 ] schema = org.calculon.ao.docrime-excitation/1 }\n                { name = output direction = output element-type = F32_LE shape = [ 2 ] schema = org.calculon.ao.controller-command/1 }\n            ]\n        }\n    ]\n    sinks";
    let with_third = replace_once(SERIAL, "    ]\n    sinks", third_graph);
    let rewired = with_third
        .replacen(
            "{ output = \"pipewireao-rtc-serial-source:output\" input = \"pipewireao-rtc-serial-graph-a:input\" passive = false }",
            "{ output = \"pipewireao-rtc-serial-source:output\" input = \"pipewireao-rtc-serial-graph-c:input\" passive = false }\n        { output = \"pipewireao-rtc-serial-graph-b:output\" input = \"pipewireao-rtc-serial-graph-a:input\" passive = false }",
            1,
        )
        .replacen(
            "{ output = \"pipewireao-rtc-serial-graph-b:output\" input = \"pipewireao-rtc-serial-sink:input\" passive = false }",
            "{ output = \"pipewireao-rtc-serial-graph-c:output\" input = \"pipewireao-rtc-serial-sink:input\" passive = false }",
            1,
        );
    let cycle = rewired.replace("schema = org.calculon.ao.filtered-excitation/1", "schema = org.calculon.ao.docrime-excitation/1")
        .replacen("schema = org.calculon.ao.controller-command/1 }\n            ]\n        }\n        {\n            factory = pipewireao.fgn-native\n            module = libpipewire-module-ndarray-filter-chain\n            node.name = pipewireao-rtc-serial-graph-c", "schema = org.calculon.ao.docrime-excitation/1 }\n            ]\n        }\n        {\n            factory = pipewireao.fgn-native\n            module = libpipewire-module-ndarray-filter-chain\n            node.name = pipewireao-rtc-serial-graph-c", 1);
    let error = DevelopmentConfig::parse(&cycle).unwrap_err();
    assert_eq!(error.field(), "links", "{cycle}");
    assert_eq!(error.message(), "declared session topology contains a cycle");
    let error = DevelopmentConfig::parse(&replace_once(
        MINIMAL,
        "pipewireao-rtc-source:output\" input = \"pipewireao-rtc-graph:input\"",
        "pipewireao-rtc-source:output\" input = \"pipewireao-rtc-sink:input\"",
    ))
    .unwrap_err();
    assert_eq!(error.field(), "links[0]");
}

#[test]
fn quoted_values_in_messages_are_escaped() {
    let document = replace_once(
        MINIMAL,
        "{ name = output direction = output element-type = F32_LE shape = [ 2 ] schema = org.calculon.ao.docrime-excitation/1 }",
        "{ name = output direction = \"a\\\"b\" element-type = F32_LE shape = [ 2 ] schema = org.calculon.ao.docrime-excitation/1 }",
    );
    let error = DevelopmentConfig::parse(&document).unwrap_err();
    assert_eq!(error.message(), format!("direction must be input or output, got {:?}", "a\"b"));
    assert_eq!(error.message(), "direction must be input or output, got \"a\\\"b\"");
}

#[test]
fn shape_mismatches_name_both_shapes() {
    let document = replace_once(
        MINIMAL,
        "{ name = input direction = input element-type = F32_LE shape = [ 2 ] schema = org.calculon.ao.docrime-excitation/1 }",
        "{ name = input direction = input element-type = F32_LE shape = [ 3 ] schema = org.calculon.ao.docrime-excitation/1 }",
    );
    let error = DevelopmentConfig::parse(&document).unwrap_err();
    assert!(error.field().ends_with(".shape"), "{}", error.field());
    assert!(error.message().ends_with("have incompatible shapes [2] and [3]"), "{}", error.message());
}

#[test]
fn the_first_rejected_factory_argument_is_the_least_key() {
    let document = replace_once(
        MINIMAL,
        "api.fits.hdu = 1",
        "api.fits.zeta = 1\n                api.fits.hdu = 1\n                api.fits.alpha = 1",
    );
    let error = DevelopmentConfig::parse(&document).unwrap_err();
    assert_eq!(error.field(), "sources[0].args.api.fits.alpha");
    assert_eq!(error.message(), "factory argument is not admitted for this fixture");
}

const INDEPENDENT: &str = r##"{
    profile = development
    execution = complete-frame
    authority = none
    claim = development-characterization
    sources = [
        {
            factory = pipewireao.simulated-complete-frame
            module = libpipewire-module-ndarray-filter-chain
            node.name = pipewireao-rtc-path-a-source
            config.path = "${PIPEWIREAO_RTC_SOURCE_GRAPH_PATH_A}"
            ports = [
                { name = output direction = output element-type = F32_LE shape = [ 2 ] schema = org.calculon.ao.docrime-excitation/1 }
            ]
        }
        {
            factory = pipewireao.simulated-complete-frame
            module = libpipewire-module-ndarray-filter-chain
            node.name = pipewireao-rtc-path-b-source
            config.path = "${PIPEWIREAO_RTC_SOURCE_GRAPH_PATH_B}"
            ports = [
                { name = output direction = output element-type = F32_LE shape = [ 2 ] schema = org.calculon.ao.docrime-excitation/1 }
            ]
        }
    ]
    graphs = [
        {
            factory = pipewireao.fgn-native
            module = libpipewire-module-ndarray-filter-chain
            node.name = pipewireao-rtc-path-a-graph
            config.path = "${PIPEWIREAO_RTC_GRAPH_PATH_A}"
            ports = [
                { name = input direction = input element-type = F32_LE shape = [ 2 ] schema = org.calculon.ao.docrime-excitation/1 }
                { name = output direction = output element-type = F32_LE shape = [ 2 ] schema = org.calculon.ao.controller-command/1 }
            ]
        }
        {
            factory = pipewireao.fgn-native
            module = libpipewire-module-ndarray-filter-chain
            node.name = pipewireao-rtc-path-b-graph
            config.path = "${PIPEWIREAO_RTC_GRAPH_PATH_B}"
            ports = [
                { name = input direction = input element-type = F32_LE shape = [ 2 ] schema = org.calculon.ao.docrime-excitation/1 }
                { name = output direction = output element-type = F32_LE shape = [ 2 ] schema = org.calculon.ao.controller-command/1 }
            ]
        }
    ]
    sinks = [
        {
            factory = api.pipewireao.discard
            module = libpipewire-module-spa-node-factory
            node.name = pipewireao-rtc-path-a-sink
            plugin.path = "${PIPEWIREAO_DISCARD_PLUGIN}"
            ports = [
                { name = input direction = input element-type = F32_LE shape = [ 2 ] schema = org.calculon.ao.controller-command/1 }
            ]
        }
        {
            factory = api.pipewireao.discard
            module = libpipewire-module-spa-node-factory
            node.name = pipewireao-rtc-path-b-sink
            plugin.path = "${PIPEWIREAO_DISCARD_PLUGIN}"
            ports = [
                { name = input direction = input element-type = F32_LE shape = [ 2 ] schema = org.calculon.ao.controller-command/1 }
            ]
        }
    ]
    properties = {}
    parameters = {}
    observations = []
    links = [
        { output = "pipewireao-rtc-path-a-source:output" input = "pipewireao-rtc-path-a-graph:input" passive = false }
        { output = "pipewireao-rtc-path-a-graph:output" input = "pipewireao-rtc-path-a-sink:input" passive = false }
        { output = "pipewireao-rtc-path-b-source:output" input = "pipewireao-rtc-path-b-graph:input" passive = false }
        { output = "pipewireao-rtc-path-b-graph:output" input = "pipewireao-rtc-path-b-sink:input" passive = false }
    ]
    execution-groups = [
        { name = path-a nodes = [ pipewireao-rtc-path-a-source pipewireao-rtc-path-a-graph pipewireao-rtc-path-a-sink ] }
        { name = path-b nodes = [ pipewireao-rtc-path-b-source pipewireao-rtc-path-b-graph pipewireao-rtc-path-b-sink ] }
    ]
}"##;

#[test]
fn nodes_that_become_ready_together_are_ordered_by_name() {
    let config = DevelopmentConfig::parse(&INDEPENDENT.replace("pipewireao-rtc-path-a-source", "zeta-source")).unwrap();
    assert_eq!(
        config.topological_node_names(),
        [
            "pipewireao-rtc-path-b-source",
            "zeta-source",
            "pipewireao-rtc-path-b-graph",
            "pipewireao-rtc-path-a-graph",
            "pipewireao-rtc-path-b-sink",
            "pipewireao-rtc-path-a-sink",
        ]
    );
    let order: Vec<usize> = config.links_downstream_first().iter().map(|(index, _)| *index).collect();
    assert_eq!(order, [1, 3, 0, 2]);
}
