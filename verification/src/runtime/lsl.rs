use vstd::prelude::*;
use crate::analyzer::register::is_known_schema;
use crate::analyzer::types::doc_view;
use crate::assoc::StrMap;
use crate::ast::{EntityDecl, Field, FieldMetadata, LuminaType, Span, StoredField, TyView, spec_default_span};
use crate::text::{sort_strings, strictly_sorted, views};

verus! {

/// What a standard field is: its name, type, documentation and range (as
/// IEEE-754 double bits).
pub type FieldSpec = (Seq<char>, TyView, Option<Seq<char>>, Option<(u64, u64)>);

/// `f` is the stored field `s` describes, with no `@affects` and no position.
pub open spec fn field_matches(f: Field, s: FieldSpec) -> bool {
    &&& f is Stored
    &&& match f {
        Field::Stored(sf) => {
            &&& sf.name@ == s.0
            &&& sf.ty@ == s.1
            &&& doc_view(sf.metadata.doc) == s.2
            &&& sf.metadata.range == s.3
            &&& sf.metadata.affects@.len() == 0
            &&& sf.span == spec_default_span()
        },
        _ => false,
    }
}

/// `d` is the entity `name` with exactly the fields `fs`, in order.
pub open spec fn decl_matches(d: EntityDecl, name: Seq<char>, fs: Seq<FieldSpec>) -> bool {
    &&& d.name@ == name
    &&& d.span == spec_default_span()
    &&& d.fields@.len() == fs.len()
    &&& forall|i: int| 0 <= i < fs.len() ==> #[trigger] field_matches(d.fields@[i], fs[i])
}

/// The standard library schemas: for each path, the entity and its fields.
pub open spec fn lsl_schema(path: Seq<char>) -> Option<(Seq<char>, Seq<FieldSpec>)> {
    if path == "LSL::datacenter::Server"@ {
        Some(("Server"@, seq![
            ("hostname"@, TyView::Text, None, None),
            ("mgmt_ip"@, TyView::Text, None, None),
            ("cpu_percent"@, TyView::Number, Some("CPU utilization 0-100"@), Some((0u64, 4636737291354636288u64))),
            ("memory_percent"@, TyView::Number, Some("Memory utilization 0-100"@), Some((0u64, 4636737291354636288u64))),
            ("disk_percent"@, TyView::Number, None, None),
            ("inlet_temp_c"@, TyView::Number, Some("Inlet temperature in Celsius"@), Some((0u64, 4635681760191971328u64))),
            ("power_watts"@, TyView::Number, None, None),
            ("status"@, TyView::Text, None, None),
            ("model"@, TyView::Text, None, None),
            ("serial_number"@, TyView::Text, None, None),
        ]))
    } else if path == "LSL::datacenter::Rack"@ {
        Some(("Rack"@, seq![
            ("rack_id"@, TyView::Text, None, None),
            ("location"@, TyView::Text, None, None),
            ("total_capacity_u"@, TyView::Number, None, None),
            ("used_capacity_u"@, TyView::Number, None, None),
            ("total_power_kw"@, TyView::Number, None, None),
            ("ambient_temp_c"@, TyView::Number, None, None),
        ]))
    } else if path == "LSL::datacenter::PDU"@ {
        Some(("PDU"@, seq![
            ("pdu_id"@, TyView::Text, None, None),
            ("phase_a_amps"@, TyView::Number, None, None),
            ("phase_b_amps"@, TyView::Number, None, None),
            ("phase_c_amps"@, TyView::Number, None, None),
            ("total_power_kw"@, TyView::Number, None, None),
            ("voltage"@, TyView::Number, None, None),
        ]))
    } else if path == "LSL::datacenter::CRAC"@ {
        Some(("CRAC"@, seq![
            ("unit_id"@, TyView::Text, None, None),
            ("supply_temp_c"@, TyView::Number, None, None),
            ("return_temp_c"@, TyView::Number, None, None),
            ("fan_speed_percent"@, TyView::Number, None, None),
            ("cooling_capacity_kw"@, TyView::Number, None, None),
            ("status"@, TyView::Text, None, None),
        ]))
    } else if path == "LSL::network::Switch"@ {
        Some(("Switch"@, seq![
            ("hostname"@, TyView::Text, None, None),
            ("mgmt_ip"@, TyView::Text, None, None),
            ("port_count"@, TyView::Number, None, None),
            ("uplink_gbps"@, TyView::Number, None, None),
            ("packet_loss_percent"@, TyView::Number, Some("Packet loss 0-100"@), Some((0u64, 4636737291354636288u64))),
            ("cpu_percent"@, TyView::Number, None, None),
            ("status"@, TyView::Text, None, None),
        ]))
    } else if path == "LSL::network::Router"@ {
        Some(("Router"@, seq![
            ("hostname"@, TyView::Text, None, None),
            ("mgmt_ip"@, TyView::Text, None, None),
            ("bgp_peer_count"@, TyView::Number, None, None),
            ("route_table_size"@, TyView::Number, None, None),
            ("throughput_gbps"@, TyView::Number, None, None),
            ("status"@, TyView::Text, None, None),
        ]))
    } else if path == "LSL::network::Firewall"@ {
        Some(("Firewall"@, seq![
            ("hostname"@, TyView::Text, None, None),
            ("mgmt_ip"@, TyView::Text, None, None),
            ("active_sessions"@, TyView::Number, None, None),
            ("blocked_count"@, TyView::Number, None, None),
            ("throughput_mbps"@, TyView::Number, None, None),
            ("status"@, TyView::Text, None, None),
        ]))
    } else if path == "LSL::k8s::Pod"@ {
        Some(("Pod"@, seq![
            ("name"@, TyView::Text, None, None),
            ("namespace"@, TyView::Text, None, None),
            ("cpu_millicores"@, TyView::Number, None, None),
            ("memory_mb"@, TyView::Number, None, None),
            ("restart_count"@, TyView::Number, None, None),
            ("status"@, TyView::Text, None, None),
        ]))
    } else if path == "LSL::k8s::Node"@ {
        Some(("Node"@, seq![
            ("name"@, TyView::Text, None, None),
            ("cpu_capacity"@, TyView::Number, None, None),
            ("memory_capacity_gb"@, TyView::Number, None, None),
            ("pod_count"@, TyView::Number, None, None),
            ("cpu_percent"@, TyView::Number, None, None),
            ("status"@, TyView::Text, None, None),
        ]))
    } else if path == "LSL::k8s::Deployment"@ {
        Some(("Deployment"@, seq![
            ("name"@, TyView::Text, None, None),
            ("namespace"@, TyView::Text, None, None),
            ("replicas"@, TyView::Number, None, None),
            ("available_replicas"@, TyView::Number, None, None),
            ("image"@, TyView::Text, None, None),
            ("status"@, TyView::Text, None, None),
        ]))
    } else if path == "LSL::power::UPS"@ {
        Some(("UPS"@, seq![
            ("unit_id"@, TyView::Text, None, None),
            ("battery_percent"@, TyView::Number, Some("Battery charge 0-100"@), Some((0u64, 4636737291354636288u64))),
            ("load_percent"@, TyView::Number, None, None),
            ("input_voltage"@, TyView::Number, None, None),
            ("output_voltage"@, TyView::Number, None, None),
            ("runtime_minutes"@, TyView::Number, None, None),
            ("status"@, TyView::Text, None, None),
        ]))
    } else if path == "LSL::power::Generator"@ {
        Some(("Generator"@, seq![
            ("unit_id"@, TyView::Text, None, None),
            ("fuel_percent"@, TyView::Number, None, None),
            ("output_kw"@, TyView::Number, None, None),
            ("frequency_hz"@, TyView::Number, None, None),
            ("runtime_hours"@, TyView::Number, None, None),
            ("status"@, TyView::Text, None, None),
        ]))
    } else {
        None
    }
}

/// The paths of the standard schemas are distinct.
proof fn lemma_paths_distinct()
    ensures
        "LSL::datacenter::Server"@ != "LSL::datacenter::Rack"@,
        "LSL::datacenter::Server"@ != "LSL::datacenter::PDU"@,
        "LSL::datacenter::Server"@ != "LSL::datacenter::CRAC"@,
        "LSL::datacenter::Server"@ != "LSL::network::Switch"@,
        "LSL::datacenter::Server"@ != "LSL::network::Router"@,
        "LSL::datacenter::Server"@ != "LSL::network::Firewall"@,
        "LSL::datacenter::Server"@ != "LSL::k8s::Pod"@,
        "LSL::datacenter::Server"@ != "LSL::k8s::Node"@,
        "LSL::datacenter::Server"@ != "LSL::k8s::Deployment"@,
        "LSL::datacenter::Server"@ != "LSL::power::UPS"@,
        "LSL::datacenter::Server"@ != "LSL::power::Generator"@,
        "LSL::datacenter::Rack"@ != "LSL::datacenter::PDU"@,
        "LSL::datacenter::Rack"@ != "LSL::datacenter::CRAC"@,
        "LSL::datacenter::Rack"@ != "LSL::network::Switch"@,
        "LSL::datacenter::Rack"@ != "LSL::network::Router"@,
        "LSL::datacenter::Rack"@ != "LSL::network::Firewall"@,
        "LSL::datacenter::Rack"@ != "LSL::k8s::Pod"@,
        "LSL::datacenter::Rack"@ != "LSL::k8s::Node"@,
        "LSL::datacenter::Rack"@ != "LSL::k8s::Deployment"@,
        "LSL::datacenter::Rack"@ != "LSL::power::UPS"@,
        "LSL::datacenter::Rack"@ != "LSL::power::Generator"@,
        "LSL::datacenter::PDU"@ != "LSL::datacenter::CRAC"@,
        "LSL::datacenter::PDU"@ != "LSL::network::Switch"@,
        "LSL::datacenter::PDU"@ != "LSL::network::Router"@,
        "LSL::datacenter::PDU"@ != "LSL::network::Firewall"@,
        "LSL::datacenter::PDU"@ != "LSL::k8s::Pod"@,
        "LSL::datacenter::PDU"@ != "LSL::k8s::Node"@,
        "LSL::datacenter::PDU"@ != "LSL::k8s::Deployment"@,
        "LSL::datacenter::PDU"@ != "LSL::power::UPS"@,
        "LSL::datacenter::PDU"@ != "LSL::power::Generator"@,
        "LSL::datacenter::CRAC"@ != "LSL::network::Switch"@,
        "LSL::datacenter::CRAC"@ != "LSL::network::Router"@,
        "LSL::datacenter::CRAC"@ != "LSL::network::Firewall"@,
        "LSL::datacenter::CRAC"@ != "LSL::k8s::Pod"@,
        "LSL::datacenter::CRAC"@ != "LSL::k8s::Node"@,
        "LSL::datacenter::CRAC"@ != "LSL::k8s::Deployment"@,
        "LSL::datacenter::CRAC"@ != "LSL::power::UPS"@,
        "LSL::datacenter::CRAC"@ != "LSL::power::Generator"@,
        "LSL::network::Switch"@ != "LSL::network::Router"@,
        "LSL::network::Switch"@ != "LSL::network::Firewall"@,
        "LSL::network::Switch"@ != "LSL::k8s::Pod"@,
        "LSL::network::Switch"@ != "LSL::k8s::Node"@,
        "LSL::network::Switch"@ != "LSL::k8s::Deployment"@,
        "LSL::network::Switch"@ != "LSL::power::UPS"@,
        "LSL::network::Switch"@ != "LSL::power::Generator"@,
        "LSL::network::Router"@ != "LSL::network::Firewall"@,
        "LSL::network::Router"@ != "LSL::k8s::Pod"@,
        "LSL::network::Router"@ != "LSL::k8s::Node"@,
        "LSL::network::Router"@ != "LSL::k8s::Deployment"@,
        "LSL::network::Router"@ != "LSL::power::UPS"@,
        "LSL::network::Router"@ != "LSL::power::Generator"@,
        "LSL::network::Firewall"@ != "LSL::k8s::Pod"@,
        "LSL::network::Firewall"@ != "LSL::k8s::Node"@,
        "LSL::network::Firewall"@ != "LSL::k8s::Deployment"@,
        "LSL::network::Firewall"@ != "LSL::power::UPS"@,
        "LSL::network::Firewall"@ != "LSL::power::Generator"@,
        "LSL::k8s::Pod"@ != "LSL::k8s::Node"@,
        "LSL::k8s::Pod"@ != "LSL::k8s::Deployment"@,
        "LSL::k8s::Pod"@ != "LSL::power::UPS"@,
        "LSL::k8s::Pod"@ != "LSL::power::Generator"@,
        "LSL::k8s::Node"@ != "LSL::k8s::Deployment"@,
        "LSL::k8s::Node"@ != "LSL::power::UPS"@,
        "LSL::k8s::Node"@ != "LSL::power::Generator"@,
        "LSL::k8s::Deployment"@ != "LSL::power::UPS"@,
        "LSL::k8s::Deployment"@ != "LSL::power::Generator"@,
        "LSL::power::UPS"@ != "LSL::power::Generator"@,
{
    reveal_strlit("LSL::datacenter::Server");
    reveal_strlit("LSL::datacenter::Rack");
    reveal_strlit("LSL::datacenter::PDU");
    reveal_strlit("LSL::datacenter::CRAC");
    reveal_strlit("LSL::network::Switch");
    reveal_strlit("LSL::network::Router");
    reveal_strlit("LSL::network::Firewall");
    reveal_strlit("LSL::k8s::Pod");
    reveal_strlit("LSL::k8s::Node");
    reveal_strlit("LSL::k8s::Deployment");
    reveal_strlit("LSL::power::UPS");
    reveal_strlit("LSL::power::Generator");
    assert("LSL::datacenter::Server"@.len() == 23);
    assert("LSL::datacenter::Rack"@.len() == 21);
    assert("LSL::datacenter::PDU"@.len() == 20);
    assert("LSL::datacenter::CRAC"@.len() == 21);
    assert("LSL::network::Switch"@.len() == 20);
    assert("LSL::network::Router"@.len() == 20);
    assert("LSL::network::Firewall"@.len() == 22);
    assert("LSL::k8s::Pod"@.len() == 13);
    assert("LSL::k8s::Node"@.len() == 14);
    assert("LSL::k8s::Deployment"@.len() == 20);
    assert("LSL::power::UPS"@.len() == 15);
    assert("LSL::power::Generator"@.len() == 21);
    assert("LSL::datacenter::Server"@ != "LSL::datacenter::Rack"@);
    assert("LSL::datacenter::Server"@ != "LSL::datacenter::PDU"@);
    assert("LSL::datacenter::Server"@ != "LSL::datacenter::CRAC"@);
    assert("LSL::datacenter::Server"@ != "LSL::network::Switch"@);
    assert("LSL::datacenter::Server"@ != "LSL::network::Router"@);
    assert("LSL::datacenter::Server"@ != "LSL::network::Firewall"@);
    assert("LSL::datacenter::Server"@ != "LSL::k8s::Pod"@);
    assert("LSL::datacenter::Server"@ != "LSL::k8s::Node"@);
    assert("LSL::datacenter::Server"@ != "LSL::k8s::Deployment"@);
    assert("LSL::datacenter::Server"@ != "LSL::power::UPS"@);
    assert("LSL::datacenter::Server"@ != "LSL::power::Generator"@);
    assert("LSL::datacenter::Rack"@ != "LSL::datacenter::PDU"@);
    assert("LSL::datacenter::Rack"@[17] != "LSL::datacenter::CRAC"@[17]);
    assert("LSL::datacenter::Rack"@ != "LSL::datacenter::CRAC"@);
    assert("LSL::datacenter::Rack"@ != "LSL::network::Switch"@);
    assert("LSL::datacenter::Rack"@ != "LSL::network::Router"@);
    assert("LSL::datacenter::Rack"@ != "LSL::network::Firewall"@);
    assert("LSL::datacenter::Rack"@ != "LSL::k8s::Pod"@);
    assert("LSL::datacenter::Rack"@ != "LSL::k8s::Node"@);
    assert("LSL::datacenter::Rack"@ != "LSL::k8s::Deployment"@);
    assert("LSL::datacenter::Rack"@ != "LSL::power::UPS"@);
    assert("LSL::datacenter::Rack"@[5] != "LSL::power::Generator"@[5]);
    assert("LSL::datacenter::Rack"@ != "LSL::power::Generator"@);
    assert("LSL::datacenter::PDU"@ != "LSL::datacenter::CRAC"@);
    assert("LSL::datacenter::PDU"@[5] != "LSL::network::Switch"@[5]);
    assert("LSL::datacenter::PDU"@ != "LSL::network::Switch"@);
    assert("LSL::datacenter::PDU"@[5] != "LSL::network::Router"@[5]);
    assert("LSL::datacenter::PDU"@ != "LSL::network::Router"@);
    assert("LSL::datacenter::PDU"@ != "LSL::network::Firewall"@);
    assert("LSL::datacenter::PDU"@ != "LSL::k8s::Pod"@);
    assert("LSL::datacenter::PDU"@ != "LSL::k8s::Node"@);
    assert("LSL::datacenter::PDU"@[5] != "LSL::k8s::Deployment"@[5]);
    assert("LSL::datacenter::PDU"@ != "LSL::k8s::Deployment"@);
    assert("LSL::datacenter::PDU"@ != "LSL::power::UPS"@);
    assert("LSL::datacenter::PDU"@ != "LSL::power::Generator"@);
    assert("LSL::datacenter::CRAC"@ != "LSL::network::Switch"@);
    assert("LSL::datacenter::CRAC"@ != "LSL::network::Router"@);
    assert("LSL::datacenter::CRAC"@ != "LSL::network::Firewall"@);
    assert("LSL::datacenter::CRAC"@ != "LSL::k8s::Pod"@);
    assert("LSL::datacenter::CRAC"@ != "LSL::k8s::Node"@);
    assert("LSL::datacenter::CRAC"@ != "LSL::k8s::Deployment"@);
    assert("LSL::datacenter::CRAC"@ != "LSL::power::UPS"@);
    assert("LSL::datacenter::CRAC"@[5] != "LSL::power::Generator"@[5]);
    assert("LSL::datacenter::CRAC"@ != "LSL::power::Generator"@);
    assert("LSL::network::Switch"@[14] != "LSL::network::Router"@[14]);
    assert("LSL::network::Switch"@ != "LSL::network::Router"@);
    assert("LSL::network::Switch"@ != "LSL::network::Firewall"@);
    assert("LSL::network::Switch"@ != "LSL::k8s::Pod"@);
    assert("LSL::network::Switch"@ != "LSL::k8s::Node"@);
    assert("LSL::network::Switch"@[5] != "LSL::k8s::Deployment"@[5]);
    assert("LSL::network::Switch"@ != "LSL::k8s::Deployment"@);
    assert("LSL::network::Switch"@ != "LSL::power::UPS"@);
    assert("LSL::network::Switch"@ != "LSL::power::Generator"@);
    assert("LSL::network::Router"@ != "LSL::network::Firewall"@);
    assert("LSL::network::Router"@ != "LSL::k8s::Pod"@);
    assert("LSL::network::Router"@ != "LSL::k8s::Node"@);
    assert("LSL::network::Router"@[5] != "LSL::k8s::Deployment"@[5]);
    assert("LSL::network::Router"@ != "LSL::k8s::Deployment"@);
    assert("LSL::network::Router"@ != "LSL::power::UPS"@);
    assert("LSL::network::Router"@ != "LSL::power::Generator"@);
    assert("LSL::network::Firewall"@ != "LSL::k8s::Pod"@);
    assert("LSL::network::Firewall"@ != "LSL::k8s::Node"@);
    assert("LSL::network::Firewall"@ != "LSL::k8s::Deployment"@);
    assert("LSL::network::Firewall"@ != "LSL::power::UPS"@);
    assert("LSL::network::Firewall"@ != "LSL::power::Generator"@);
    assert("LSL::k8s::Pod"@ != "LSL::k8s::Node"@);
    assert("LSL::k8s::Pod"@ != "LSL::k8s::Deployment"@);
    assert("LSL::k8s::Pod"@ != "LSL::power::UPS"@);
    assert("LSL::k8s::Pod"@ != "LSL::power::Generator"@);
    assert("LSL::k8s::Node"@ != "LSL::k8s::Deployment"@);
    assert("LSL::k8s::Node"@ != "LSL::power::UPS"@);
    assert("LSL::k8s::Node"@ != "LSL::power::Generator"@);
    assert("LSL::k8s::Deployment"@ != "LSL::power::UPS"@);
    assert("LSL::k8s::Deployment"@ != "LSL::power::Generator"@);
    assert("LSL::power::UPS"@ != "LSL::power::Generator"@);
}

/// A stored field with optional documentation and range.
fn stored(name: &str, ty: LuminaType, doc: Option<&str>, range: Option<(u64, u64)>) -> (f: Field)
    ensures
        field_matches(
            f,
            (
                name@,
                ty@,
                match doc {
                    Some(d) => Some(d@),
                    None => None,
                },
                range,
            ),
        ),
{
    let meta = FieldMetadata {
        doc: match doc {
            Some(d) => Some(String::from_str(d)),
            None => None,
        },
        range,
        affects: Vec::new(),
    };
    Field::Stored(StoredField { name: String::from_str(name), ty, metadata: meta, span: Span::default_span() })
}

fn schema_datacenter_server() -> (d: EntityDecl)
    ensures
        decl_matches(d, "Server"@, lsl_schema("LSL::datacenter::Server"@).unwrap().1),
{
    proof {
        lemma_paths_distinct();
    }
    let fields = vec![
        stored("hostname", LuminaType::Text, None, None),
        stored("mgmt_ip", LuminaType::Text, None, None),
        stored("cpu_percent", LuminaType::Number, Some("CPU utilization 0-100"), Some((0u64, 4636737291354636288u64))),
        stored("memory_percent", LuminaType::Number, Some("Memory utilization 0-100"), Some((0u64, 4636737291354636288u64))),
        stored("disk_percent", LuminaType::Number, None, None),
        stored("inlet_temp_c", LuminaType::Number, Some("Inlet temperature in Celsius"), Some((0u64, 4635681760191971328u64))),
        stored("power_watts", LuminaType::Number, None, None),
        stored("status", LuminaType::Text, None, None),
        stored("model", LuminaType::Text, None, None),
        stored("serial_number", LuminaType::Text, None, None),
    ];
    EntityDecl { name: String::from_str("Server"), fields, span: Span::default_span() }
}

fn schema_datacenter_rack() -> (d: EntityDecl)
    ensures
        decl_matches(d, "Rack"@, lsl_schema("LSL::datacenter::Rack"@).unwrap().1),
{
    proof {
        lemma_paths_distinct();
    }
    let fields = vec![
        stored("rack_id", LuminaType::Text, None, None),
        stored("location", LuminaType::Text, None, None),
        stored("total_capacity_u", LuminaType::Number, None, None),
        stored("used_capacity_u", LuminaType::Number, None, None),
        stored("total_power_kw", LuminaType::Number, None, None),
        stored("ambient_temp_c", LuminaType::Number, None, None),
    ];
    EntityDecl { name: String::from_str("Rack"), fields, span: Span::default_span() }
}

fn schema_datacenter_pdu() -> (d: EntityDecl)
    ensures
        decl_matches(d, "PDU"@, lsl_schema("LSL::datacenter::PDU"@).unwrap().1),
{
    proof {
        lemma_paths_distinct();
    }
    let fields = vec![
        stored("pdu_id", LuminaType::Text, None, None),
        stored("phase_a_amps", LuminaType::Number, None, None),
        stored("phase_b_amps", LuminaType::Number, None, None),
        stored("phase_c_amps", LuminaType::Number, None, None),
        stored("total_power_kw", LuminaType::Number, None, None),
        stored("voltage", LuminaType::Number, None, None),
    ];
    EntityDecl { name: String::from_str("PDU"), fields, span: Span::default_span() }
}

fn schema_datacenter_crac() -> (d: EntityDecl)
    ensures
        decl_matches(d, "CRAC"@, lsl_schema("LSL::datacenter::CRAC"@).unwrap().1),
{
    proof {
        lemma_paths_distinct();
    }
    let fields = vec![
        stored("unit_id", LuminaType::Text, None, None),
        stored("supply_temp_c", LuminaType::Number, None, None),
        stored("return_temp_c", LuminaType::Number, None, None),
        stored("fan_speed_percent", LuminaType::Number, None, None),
        stored("cooling_capacity_kw", LuminaType::Number, None, None),
        stored("status", LuminaType::Text, None, None),
    ];
    EntityDecl { name: String::from_str("CRAC"), fields, span: Span::default_span() }
}

fn schema_network_switch() -> (d: EntityDecl)
    ensures
        decl_matches(d, "Switch"@, lsl_schema("LSL::network::Switch"@).unwrap().1),
{
    proof {
        lemma_paths_distinct();
    }
    let fields = vec![
        stored("hostname", LuminaType::Text, None, None),
        stored("mgmt_ip", LuminaType::Text, None, None),
        stored("port_count", LuminaType::Number, None, None),
        stored("uplink_gbps", LuminaType::Number, None, None),
        stored("packet_loss_percent", LuminaType::Number, Some("Packet loss 0-100"), Some((0u64, 4636737291354636288u64))),
        stored("cpu_percent", LuminaType::Number, None, None),
        stored("status", LuminaType::Text, None, None),
    ];
    EntityDecl { name: String::from_str("Switch"), fields, span: Span::default_span() }
}

fn schema_network_router() -> (d: EntityDecl)
    ensures
        decl_matches(d, "Router"@, lsl_schema("LSL::network::Router"@).unwrap().1),
{
    proof {
        lemma_paths_distinct();
    }
    let fields = vec![
        stored("hostname", LuminaType::Text, None, None),
        stored("mgmt_ip", LuminaType::Text, None, None),
        stored("bgp_peer_count", LuminaType::Number, None, None),
        stored("route_table_size", LuminaType::Number, None, None),
        stored("throughput_gbps", LuminaType::Number, None, None),
        stored("status", LuminaType::Text, None, None),
    ];
    EntityDecl { name: String::from_str("Router"), fields, span: Span::default_span() }
}

fn schema_network_firewall() -> (d: EntityDecl)
    ensures
        decl_matches(d, "Firewall"@, lsl_schema("LSL::network::Firewall"@).unwrap().1),
{
    proof {
        lemma_paths_distinct();
    }
    let fields = vec![
        stored("hostname", LuminaType::Text, None, None),
        stored("mgmt_ip", LuminaType::Text, None, None),
        stored("active_sessions", LuminaType::Number, None, None),
        stored("blocked_count", LuminaType::Number, None, None),
        stored("throughput_mbps", LuminaType::Number, None, None),
        stored("status", LuminaType::Text, None, None),
    ];
    EntityDecl { name: String::from_str("Firewall"), fields, span: Span::default_span() }
}

fn schema_k8s_pod() -> (d: EntityDecl)
    ensures
        decl_matches(d, "Pod"@, lsl_schema("LSL::k8s::Pod"@).unwrap().1),
{
    proof {
        lemma_paths_distinct();
    }
    let fields = vec![
        stored("name", LuminaType::Text, None, None),
        stored("namespace", LuminaType::Text, None, None),
        stored("cpu_millicores", LuminaType::Number, None, None),
        stored("memory_mb", LuminaType::Number, None, None),
        stored("restart_count", LuminaType::Number, None, None),
        stored("status", LuminaType::Text, None, None),
    ];
    EntityDecl { name: String::from_str("Pod"), fields, span: Span::default_span() }
}

fn schema_k8s_node() -> (d: EntityDecl)
    ensures
        decl_matches(d, "Node"@, lsl_schema("LSL::k8s::Node"@).unwrap().1),
{
    proof {
        lemma_paths_distinct();
    }
    let fields = vec![
        stored("name", LuminaType::Text, None, None),
        stored("cpu_capacity", LuminaType::Number, None, None),
        stored("memory_capacity_gb", LuminaType::Number, None, None),
        stored("pod_count", LuminaType::Number, None, None),
        stored("cpu_percent", LuminaType::Number, None, None),
        stored("status", LuminaType::Text, None, None),
    ];
    EntityDecl { name: String::from_str("Node"), fields, span: Span::default_span() }
}

fn schema_k8s_deployment() -> (d: EntityDecl)
    ensures
        decl_matches(d, "Deployment"@, lsl_schema("LSL::k8s::Deployment"@).unwrap().1),
{
    proof {
        lemma_paths_distinct();
    }
    let fields = vec![
        stored("name", LuminaType::Text, None, None),
        stored("namespace", LuminaType::Text, None, None),
        stored("replicas", LuminaType::Number, None, None),
        stored("available_replicas", LuminaType::Number, None, None),
        stored("image", LuminaType::Text, None, None),
        stored("status", LuminaType::Text, None, None),
    ];
    EntityDecl { name: String::from_str("Deployment"), fields, span: Span::default_span() }
}

fn schema_power_ups() -> (d: EntityDecl)
    ensures
        decl_matches(d, "UPS"@, lsl_schema("LSL::power::UPS"@).unwrap().1),
{
    proof {
        lemma_paths_distinct();
    }
    let fields = vec![
        stored("unit_id", LuminaType::Text, None, None),
        stored("battery_percent", LuminaType::Number, Some("Battery charge 0-100"), Some((0u64, 4636737291354636288u64))),
        stored("load_percent", LuminaType::Number, None, None),
        stored("input_voltage", LuminaType::Number, None, None),
        stored("output_voltage", LuminaType::Number, None, None),
        stored("runtime_minutes", LuminaType::Number, None, None),
        stored("status", LuminaType::Text, None, None),
    ];
    EntityDecl { name: String::from_str("UPS"), fields, span: Span::default_span() }
}

fn schema_power_generator() -> (d: EntityDecl)
    ensures
        decl_matches(d, "Generator"@, lsl_schema("LSL::power::Generator"@).unwrap().1),
{
    proof {
        lemma_paths_distinct();
    }
    let fields = vec![
        stored("unit_id", LuminaType::Text, None, None),
        stored("fuel_percent", LuminaType::Number, None, None),
        stored("output_kw", LuminaType::Number, None, None),
        stored("frequency_hz", LuminaType::Number, None, None),
        stored("runtime_hours", LuminaType::Number, None, None),
        stored("status", LuminaType::Text, None, None),
    ];
    EntityDecl { name: String::from_str("Generator"), fields, span: Span::default_span() }
}

/// The registry of standard library schemas, by path.
pub struct LslRegistry {
    pub schemas: StrMap<EntityDecl>,
}

impl LslRegistry {
    pub open spec fn wf(&self) -> bool {
        &&& self.schemas.wf()
        &&& forall|p: Seq<char>| #[trigger] self.schemas@.contains_key(p) <==> lsl_schema(p) is Some
        &&& forall|p: Seq<char>|
            #[trigger] self.schemas@.contains_key(p) ==> decl_matches(
                self.schemas@[p],
                lsl_schema(p).unwrap().0,
                lsl_schema(p).unwrap().1,
            )
    }

    /// The registry with every standard schema.
    pub fn new() -> (r: Self)
        ensures
            r.wf(),
    {
        let mut schemas: StrMap<EntityDecl> = StrMap::new();
        schemas.insert(String::from_str("LSL::datacenter::Server"), schema_datacenter_server());
        schemas.insert(String::from_str("LSL::datacenter::Rack"), schema_datacenter_rack());
        schemas.insert(String::from_str("LSL::datacenter::PDU"), schema_datacenter_pdu());
        schemas.insert(String::from_str("LSL::datacenter::CRAC"), schema_datacenter_crac());
        schemas.insert(String::from_str("LSL::network::Switch"), schema_network_switch());
        schemas.insert(String::from_str("LSL::network::Router"), schema_network_router());
        schemas.insert(String::from_str("LSL::network::Firewall"), schema_network_firewall());
        schemas.insert(String::from_str("LSL::k8s::Pod"), schema_k8s_pod());
        schemas.insert(String::from_str("LSL::k8s::Node"), schema_k8s_node());
        schemas.insert(String::from_str("LSL::k8s::Deployment"), schema_k8s_deployment());
        schemas.insert(String::from_str("LSL::power::UPS"), schema_power_ups());
        schemas.insert(String::from_str("LSL::power::Generator"), schema_power_generator());
        let r = LslRegistry { schemas };
        proof {
            lemma_paths_distinct();
            assert forall|p: Seq<char>| #[trigger] r.schemas@.contains_key(p) <==> lsl_schema(p) is Some by {}
        }
        r
    }

    /// The schema at a path such as `LSL::datacenter::Server`.
    pub fn resolve(&self, path: &str) -> (r: Option<&EntityDecl>)
        requires
            self.wf(),
        ensures
            match r {
                Some(d) => lsl_schema(path@) is Some && decl_matches(
                    *d,
                    lsl_schema(path@).unwrap().0,
                    lsl_schema(path@).unwrap().1,
                ),
                None => lsl_schema(path@) is None,
            },
    {
        self.schemas.get(path)
    }

    /// The fields of the schema at a path.
    pub fn get_fields(&self, path: &str) -> (r: Option<&Vec<Field>>)
        requires
            self.wf(),
        ensures
            match r {
                Some(fs) => lsl_schema(path@) is Some && fs@.len() == lsl_schema(path@).unwrap().1.len()
                    && forall|i: int|
                    0 <= i < fs@.len() ==> #[trigger] field_matches(fs@[i], lsl_schema(path@).unwrap().1[i]),
                None => lsl_schema(path@) is None,
            },
    {
        match self.schemas.get(path) {
            Some(d) => Some(&d.fields),
            None => None,
        }
    }

    /// The paths of all schemas, sorted.
    pub fn list_schemas(&self) -> (r: Vec<String>)
        requires
            self.wf(),
        ensures
            strictly_sorted(views(r@)),
            views(r@).to_set() == self.schemas@.dom(),
    {
        let keys = self.schemas.keys();
        proof {
            assert(crate::text::distinct(views(keys@))) by {
                assert forall|i: int, j: int| 0 <= i < j < views(keys@).len() implies #[trigger] views(
                    keys@,
                )[i] != #[trigger] views(keys@)[j] by {
                    assert(keys@[i] == self.schemas.pairs()[i].0);
                    assert(keys@[j] == self.schemas.pairs()[j].0);
                }
            }
            assert(views(keys@).to_set() =~= self.schemas@.dom()) by {
                assert forall|k: Seq<char>| views(keys@).to_set().contains(k) implies self.schemas@.dom().contains(k) by {
                    let i = choose|i: int| 0 <= i < views(keys@).len() && views(keys@)[i] == k;
                    assert(keys@[i] == self.schemas.pairs()[i].0);
                    crate::assoc::lemma_key_index(self.schemas.pairs(), k);
                }
                assert forall|k: Seq<char>| self.schemas@.dom().contains(k) implies views(keys@).to_set().contains(k) by {
                    crate::assoc::lemma_key_index(self.schemas.pairs(), k);
                    let i = crate::assoc::key_index(self.schemas.pairs(), k);
                    assert(keys@[i] == self.schemas.pairs()[i].0);
                    assert(views(keys@)[i] == k);
                }
            }
        }
        sort_strings(keys)
    }
}

/// Every namespace an import may name is a schema of the registry, and no other.
pub proof fn law_known_schemas_resolve(p: Seq<char>)
    ensures
        is_known_schema(p) <==> lsl_schema(p) is Some,
{
}

} // verus!
