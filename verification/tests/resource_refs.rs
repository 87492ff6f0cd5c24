use temper_desktop::resource_ref::{parse_ref, ResourceId};
use temper_desktop::temper::{
    begin_resolve, finish_resolve, temper_connection_status, ConnectionStatus, RefResolution,
    ResolveStep, ResourceLookup, ResourceView, TemperState,
};

#[test]
fn parses_bare_and_decorated_refs() {
    let id = "01a0d873-59c9-72f0-a31f-23f0da5d8789";
    assert_eq!(parse_ref(id).unwrap().to_string(), id);
    assert_eq!(
        parse_ref(&format!("temper-is-worked-natively-{id}"))
            .unwrap()
            .to_string(),
        id
    );
    assert!(parse_ref("not-a-ref").is_none());
    assert!(
        parse_ref(&format!("x{id}")).is_none(),
        "a uuid glued to a slug is not a ref"
    );
}

#[test]
fn parsed_ref_carries_the_big_endian_value() {
    let id = parse_ref("01a0d873-59c9-72f0-a31f-23f0da5d8789").unwrap();
    assert_eq!(id.as_u128(), 0x01a0d873_59c9_72f0_a31f_23f0da5d8789u128);
    assert_eq!(id, ResourceId(0x01a0d873_59c9_72f0_a31f_23f0da5d8789u128));
}

#[test]
fn formats_lower_case_hyphenated() {
    let id = ResourceId(0xABCDEF01_2345_6789_ABCD_EF0123456789u128);
    assert_eq!(id.to_string(), "abcdef01-2345-6789-abcd-ef0123456789");
    assert_eq!(ResourceId(0).to_string(), "00000000-0000-0000-0000-000000000000");
    assert_eq!(ResourceId(u128::MAX).to_string(), "ffffffff-ffff-ffff-ffff-ffffffffffff");
}

#[test]
fn upper_case_digits_parse() {
    let id = parse_ref("ABCDEF01-2345-6789-ABCD-EF0123456789").unwrap();
    assert_eq!(id, ResourceId(0xABCDEF01_2345_6789_ABCD_EF0123456789u128));
}

#[test]
fn surrounding_whitespace_is_ignored() {
    let id = parse_ref("  \tslug-01a0d873-59c9-72f0-a31f-23f0da5d8789 \n").unwrap();
    assert_eq!(id.to_string(), "01a0d873-59c9-72f0-a31f-23f0da5d8789");
    let id = parse_ref("\u{3000}01a0d873-59c9-72f0-a31f-23f0da5d8789\u{a0}").unwrap();
    assert_eq!(id.to_string(), "01a0d873-59c9-72f0-a31f-23f0da5d8789");
}

#[test]
fn round_trip_of_formatted_ids() {
    for v in [0u128, 1, 0xdead_beef, u128::MAX, 0x8000_0000_0000_0000_0000_0000_0000_0000] {
        let text = ResourceId(v).to_string();
        assert_eq!(parse_ref(&text), Some(ResourceId(v)));
        assert_eq!(parse_ref(&format!("a-b-{text}")), Some(ResourceId(v)));
        assert_eq!(parse_ref(&format!("-{text}")), Some(ResourceId(v)));
    }
}

#[test]
fn malformed_refs_are_rejected() {
    // too short
    assert!(parse_ref("01a0d873-59c9-72f0-a31f-23f0da5d878").is_none());
    assert!(parse_ref("").is_none());
    assert!(parse_ref("   ").is_none());
    // hyphens in the wrong places
    assert!(parse_ref("01a0d87359-c9-72f0-a31f-23f0da5d8789").is_none());
    // a non-hex digit
    assert!(parse_ref("01a0d873-59c9-72f0-a31f-23f0da5d878g").is_none());
    // the simple 32-digit form is not a reference of 36 characters
    assert!(parse_ref("01a0d87359c972f0a31f23f0da5d8789").is_none());
    // a head that does not end in a hyphen
    assert!(parse_ref("slug_01a0d873-59c9-72f0-a31f-23f0da5d8789").is_none());
    // a non-ASCII character inside the last 36 characters
    assert!(parse_ref("01a0d873-59c9-72f0-a31f-23f0da5d878\u{e9}").is_none());
}

#[test]
fn connection_status_follows_the_connect_attempt() {
    let ok: TemperState<u32> = TemperState::connect(Ok(7));
    assert_eq!(
        temper_connection_status(&ok),
        ConnectionStatus { connected: true, error: None }
    );
    assert_eq!(ok.connected_client(), Ok(&7));

    let failed: TemperState<u32> = TemperState::connect(Err("no credentials".to_string()));
    assert_eq!(
        temper_connection_status(&failed),
        ConnectionStatus { connected: false, error: Some("no credentials".to_string()) }
    );
    assert_eq!(failed.connected_client(), Err("temper is not connected".to_string()));
}

#[test]
fn non_refs_settle_as_unresolved_at_once() {
    match begin_resolve("not-a-ref".to_string()) {
        ResolveStep::Settled(r) => assert_eq!(
            r,
            RefResolution::Unresolved {
                id: "not-a-ref".to_string(),
                reason: "not a resource reference".to_string()
            }
        ),
        ResolveStep::Lookup(_) => panic!("a text that names no resource is not read"),
    }
    match begin_resolve("doc-01a0d873-59c9-72f0-a31f-23f0da5d8789".to_string()) {
        ResolveStep::Lookup(id) => {
            assert_eq!(id.to_string(), "01a0d873-59c9-72f0-a31f-23f0da5d8789")
        }
        ResolveStep::Settled(_) => panic!("a reference is read"),
    }
}

fn unresolved(raw: &str, reason: &str) -> RefResolution {
    RefResolution::Unresolved { id: raw.to_string(), reason: reason.to_string() }
}

#[test]
fn lookup_outcomes_map_to_resolutions() {
    let raw = "00000000-0000-7000-8000-000000000000";
    assert_eq!(
        finish_resolve(raw.to_string(), ResourceLookup::NotFound),
        unresolved(raw, "no resource at this reference"),
        "a ref to nothing must read as unresolved, not failed"
    );
    assert_eq!(
        finish_resolve(raw.to_string(), ResourceLookup::Gone),
        unresolved(raw, "this resource is gone")
    );
    assert_eq!(
        finish_resolve(raw.to_string(), ResourceLookup::Forbidden),
        unresolved(raw, "not visible to you")
    );
    assert_eq!(
        finish_resolve(raw.to_string(), ResourceLookup::Failed("timed out".to_string())),
        RefResolution::Failed { id: raw.to_string(), message: "timed out".to_string() }
    );
    let view = ResourceView {
        title: "Sea".to_string(),
        doc_type_name: "poem".to_string(),
        context_ref: Some("@me/writing".to_string()),
        decorated_ref: format!("sea-{raw}"),
    };
    assert_eq!(
        finish_resolve(format!("x-{raw}"), ResourceLookup::Found(view)),
        RefResolution::Resolved {
            id: format!("x-{raw}"),
            title: "Sea".to_string(),
            doc_type: "poem".to_string(),
            context_ref: Some("@me/writing".to_string()),
            decorated_ref: format!("sea-{raw}"),
        }
    );
}

#[test]
fn texts_that_split_a_character_are_no_refs() {
    // 'é' is two bytes: with 35 ASCII characters after it the last 36 bytes
    // begin inside it
    assert_eq!(parse_ref(&format!("\u{e9}{}", "a".repeat(35))), None);
    // a 3-byte character, one byte into it
    assert_eq!(parse_ref(&format!("\u{20ac}{}", "a".repeat(34))), None);
    assert_eq!(
        parse_ref("\u{e9}-01a0d873-59c9-72f0-a31f-23f0da5d8789"),
        Some(ResourceId(0x01a0d873_59c9_72f0_a31f_23f0da5d8789u128))
    );
}
