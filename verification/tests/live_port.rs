use pipewireao_rtc::{
    validate_live_port, ObjectRole, ObservedFormat, ObservedNdArray, PortDirection, PortSpec,
    PropertyValue,
};

fn port() -> PortSpec {
    PortSpec {
        name: "input".to_owned(),
        direction: PortDirection::Input,
        element_type: "F32_LE".to_owned(),
        shape: vec![2],
        schema: "org.calculon.ao.docrime-excitation/1".to_owned(),
    }
}

fn advertised() -> ObservedFormat {
    ObservedFormat {
        is_enum_format: true,
        object_type: 262147,
        object_id: 3,
        property_count: 6,
        ndarray: Ok(ObservedNdArray {
            element_type: "F32_LE".to_owned(),
            shape: vec![2],
            row_major: true,
            layout: "RowMajor".to_owned(),
            rate: Some((1000, 1)),
        }),
        schema_properties: vec![PropertyValue::Text(
            "org.calculon.ao.docrime-excitation/1".to_owned(),
        )],
    }
}

fn refusal(role: ObjectRole, owned_sink: bool, format: &ObservedFormat) -> (String, String) {
    let error = validate_live_port(role, owned_sink, format, &port()).unwrap_err();
    (error.field().to_owned(), error.message().to_owned())
}

#[test]
fn an_advertised_contract_that_matches_is_admitted() {
    assert!(validate_live_port(ObjectRole::Graph, false, &advertised(), &port()).is_ok());
    assert!(validate_live_port(ObjectRole::Sink, false, &advertised(), &port()).is_ok());
}

#[test]
fn every_departure_from_the_contract_names_its_property() {
    let mut format = advertised();
    format.is_enum_format = false;
    assert_eq!(
        refusal(ObjectRole::Graph, false, &format),
        (
            "graph.ports.input.format".to_owned(),
            "expected a SPA EnumFormat object, observed type 262147 id 3".to_owned()
        )
    );
    let mut format = advertised();
    format.ndarray = Err("missing shape".to_owned());
    assert_eq!(
        refusal(ObjectRole::Source, false, &format).1,
        "invalid ndarray EnumFormat: missing shape"
    );
    let mut format = advertised();
    if let Ok(ndarray) = &mut format.ndarray {
        ndarray.element_type = "U16_LE".to_owned();
    }
    assert_eq!(refusal(ObjectRole::Graph, false, &format).0, "graph.ports.input.element-type");
    let mut format = advertised();
    if let Ok(ndarray) = &mut format.ndarray {
        ndarray.shape = vec![2, 3];
    }
    assert_eq!(
        refusal(ObjectRole::Graph, false, &format),
        ("graph.ports.input.shape".to_owned(), "expected [2], observed [2, 3]".to_owned())
    );
    let mut format = advertised();
    if let Ok(ndarray) = &mut format.ndarray {
        ndarray.row_major = false;
        ndarray.layout = "ColumnMajor".to_owned();
    }
    assert_eq!(
        refusal(ObjectRole::Graph, false, &format).1,
        "expected row-major, observed ColumnMajor"
    );
    let mut format = advertised();
    if let Ok(ndarray) = &mut format.ndarray {
        ndarray.rate = Some((500, 1));
    }
    assert_eq!(
        refusal(ObjectRole::Graph, false, &format).1,
        "expected 1000/1 complete frames per second, observed Some(Fraction { num: 500, denom: 1 })"
    );
    let mut format = advertised();
    if let Ok(ndarray) = &mut format.ndarray {
        ndarray.rate = None;
    }
    assert_eq!(
        refusal(ObjectRole::Graph, false, &format).1,
        "expected 1000/1 complete frames per second, observed None"
    );
}

#[test]
fn the_schema_must_be_one_matching_fixed_string() {
    let mut format = advertised();
    format.schema_properties.clear();
    assert_eq!(
        refusal(ObjectRole::Source, false, &format),
        ("source.ports.input.schema".to_owned(), "required property is missing".to_owned())
    );
    let mut format = advertised();
    format.schema_properties.push(PropertyValue::Text("again".to_owned()));
    assert_eq!(refusal(ObjectRole::Source, false, &format).1, "property is declared more than once");
    let mut format = advertised();
    format.schema_properties = vec![PropertyValue::Other("Int(3)".to_owned())];
    assert_eq!(
        refusal(ObjectRole::Source, false, &format).1,
        "expected a fixed string, observed Int(3)"
    );
    let mut format = advertised();
    format.schema_properties = vec![PropertyValue::Text("org.other/1".to_owned())];
    assert_eq!(
        refusal(ObjectRole::Source, false, &format).1,
        "expected \"org.calculon.ao.docrime-excitation/1\", observed \"org.other/1\""
    );
}

#[test]
fn a_runner_owned_discard_sink_advertises_an_unconstrained_format() {
    let mut format = advertised();
    assert_eq!(
        refusal(ObjectRole::Sink, true, &format),
        (
            "sink.ports.input.format".to_owned(),
            "the discard sink must advertise an unconstrained format object".to_owned()
        )
    );
    format.property_count = 0;
    format.ndarray = Err("no properties".to_owned());
    assert!(validate_live_port(ObjectRole::Sink, true, &format, &port()).is_ok());
}
