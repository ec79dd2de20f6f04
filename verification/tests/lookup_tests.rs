use smart_garden_gateway_boot_analyzer::cpms;
use smart_garden_gateway_boot_analyzer::ipr;

const LM_ID: &str = "37e12251-11cc-487a-a74f-4d50a41f3815";
const GW_ID: &str = "12345678-9abc-def0-1234-56789abcdef0";
const IPR_LM_ID: &str = "b7ece5ec-10bf-4b75-9f57-62cd62dfd284";

fn cpms_record(parent: Option<&str>, status: &str, lm: Option<cpms::Component>) -> cpms::Data {
    cpms::Data {
        components: cpms::Components {
            linux_module: lm,
            radio_module: None,
        },
        configuration: cpms::Configuration {
            eol_test_passed: Some(true),
            hardware_version: Some("1.0".to_string()),
            self_test_passed: Some(true),
        },
        ipr_id: LM_ID.to_string(),
        parent: parent.map(|p| p.to_string()),
        status: status.to_string(),
    }
}

#[test]
fn cpms_gw_lookup_follows_parent() {
    let lm_data = cpms_record(Some(GW_ID), "NEW", None);
    match cpms::get_gw_data(LM_ID, Ok(lm_data)) {
        cpms::Lookup::FetchParent(id) => assert_eq!(id, GW_ID),
        cpms::Lookup::Fail(e) => panic!("{}", e.message()),
    }
}

#[test]
fn cpms_gw_lookup_without_parent_fails() {
    let lm_data = cpms_record(None, "NEW", None);
    match cpms::get_gw_data(LM_ID, Ok(lm_data)) {
        cpms::Lookup::FetchParent(_) => panic!("a record without a parent must fail"),
        cpms::Lookup::Fail(e) => assert_eq!(
            e.message(),
            "Failed to get parent of 37e12251-11cc-487a-a74f-4d50a41f3815"
        ),
    }
}

#[test]
fn cpms_gw_lookup_reports_fetch_failure() {
    match cpms::get_gw_data(LM_ID, Err("connection refused".to_string())) {
        cpms::Lookup::FetchParent(_) => panic!("a failed fetch must fail the lookup"),
        cpms::Lookup::Fail(e) => assert_eq!(
            e.message(),
            "Failed to fetch CPMS data for 37e12251-11cc-487a-a74f-4d50a41f3815\nError: connection refused"
        ),
    }
}

#[test]
fn cpms_request_path_is_exact() {
    assert_eq!(
        cpms::request_path("http://server", LM_ID),
        format!("http://server/api/iprconfig/{LM_ID}")
    );
}

#[test]
fn disassemble_builds_removal_path() {
    let lm = cpms::Component::new(LM_ID.to_string());
    let gw_data = cpms_record(None, "NEW", Some(lm));
    match cpms::disassemble_gw("http://server", GW_ID, Ok(gw_data)) {
        Ok(path) => assert_eq!(
            path,
            format!("http://server/api/iprconfig/{GW_ID}/assembly/{LM_ID}")
        ),
        Err(e) => panic!("{}", e.message()),
    }
}

#[test]
fn disassemble_without_linux_module_fails() {
    let gw_data = cpms_record(None, "NEW", None);
    match cpms::disassemble_gw("http://server", GW_ID, Ok(gw_data)) {
        Ok(_) => panic!("a gateway without a Linux module cannot be disassembled"),
        Err(e) => assert_eq!(
            e.message(),
            "Failed to get Linux module for 12345678-9abc-def0-1234-56789abcdef0"
        ),
    }
}

#[test]
fn disassemble_reports_fetch_failure() {
    match cpms::disassemble_gw("http://server", GW_ID, Err("timeout".to_string())) {
        Ok(_) => panic!("a failed fetch must fail the disassembly"),
        Err(e) => assert_eq!(
            e.message(),
            "Failed to fetch CPMS data for 12345678-9abc-def0-1234-56789abcdef0\nError: timeout"
        ),
    }
}

#[test]
fn component_keeps_its_id() {
    let c = cpms::Component::new(LM_ID.to_string());
    assert_eq!(c.ipr_id(), LM_ID);
}

#[test]
fn ipr_gw_lookup_follows_parent() {
    let lm_data = ipr::Data {
        ipr_id: IPR_LM_ID.to_string(),
        parent: Some(GW_ID.to_string()),
        status: "MANUFACTURED".to_string(),
    };
    match ipr::get_gw_data(IPR_LM_ID, Ok(lm_data)) {
        ipr::Lookup::FetchParent(id) => assert_eq!(id, GW_ID),
        ipr::Lookup::Fail(e) => panic!("{}", e.message()),
    }
}

#[test]
fn ipr_gw_lookup_without_parent_fails() {
    let lm_data = ipr::Data {
        ipr_id: IPR_LM_ID.to_string(),
        parent: None,
        status: "MANUFACTURED".to_string(),
    };
    match ipr::get_gw_data(IPR_LM_ID, Ok(lm_data)) {
        ipr::Lookup::FetchParent(_) => panic!("a record without a parent must fail"),
        ipr::Lookup::Fail(e) => assert_eq!(
            e.message(),
            "Failed to get parent of b7ece5ec-10bf-4b75-9f57-62cd62dfd284"
        ),
    }
}

#[test]
fn ipr_gw_lookup_reports_fetch_failure() {
    match ipr::get_gw_data(IPR_LM_ID, Err("500 Internal Server Error".to_string())) {
        ipr::Lookup::FetchParent(_) => panic!("a failed fetch must fail the lookup"),
        ipr::Lookup::Fail(e) => assert_eq!(
            e.message(),
            "Failed to fetch IPR data for b7ece5ec-10bf-4b75-9f57-62cd62dfd284\nError: 500 Internal Server Error"
        ),
    }
}

#[test]
fn ipr_request_path_is_exact() {
    assert_eq!(
        ipr::request_path("http://server", IPR_LM_ID),
        format!("http://server/v2/products/{IPR_LM_ID}")
    );
}
