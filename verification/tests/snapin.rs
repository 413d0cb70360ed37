use enum_snapins::snapin::ActivationError;
use enum_snapins::snapin::BitmapHandle;
use enum_snapins::snapin::ComponentData;
use enum_snapins::snapin::IconHandle;
use enum_snapins::snapin::IndirectField;
use enum_snapins::snapin::MMCSnapIn;
use enum_snapins::snapin::MMCSnapInAbout;
use enum_snapins::snapin::MMCSnapInImage;
use enum_snapins::snapin::NamedValue;
use enum_snapins::snapin::PendingLookup;
use enum_snapins::snapin::ResolveError;
use enum_snapins::snapin::StoreError;
use enum_snapins::snapin::ValueData;
use enum_snapins::snapin::has_standalone_subkey;

fn sv(name: &str, data: &str) -> NamedValue {
    NamedValue {
        name: name.to_string(),
        data: ValueData::Str(data.to_string()),
    }
}

fn entry(subkeys: Vec<Option<String>>, values: Vec<NamedValue>) -> Option<ComponentData> {
    Some(ComponentData { subkeys, values })
}

#[test]
fn missing_entry_is_not_registered() {
    let r = MMCSnapIn::resolve("{11111111-2222-3333-4444-555555555555}".to_string(), None);
    match r {
        Err(StoreError::NotRegistered) => {}
        _ => panic!("expected NotRegistered"),
    }
}

#[test]
fn direct_fields_are_taken_verbatim() {
    let values = vec![
        sv("NameString", "A Name"),
        sv("Description", "Its description"),
        sv("ApplicationBase", r"C:\base"),
        sv("ModuleName", "mod.dll"),
        sv("SomethingUnknown", "ignored"),
    ];
    let (rec, lookups) = MMCSnapIn::resolve("c1".to_string(), entry(vec![], values)).unwrap();
    assert_eq!(rec.clsid, "c1");
    assert_eq!(rec.namestring.as_deref(), Some("A Name"));
    assert_eq!(rec.description.as_deref(), Some("Its description"));
    assert_eq!(rec.application_base.as_deref(), Some(r"C:\base"));
    assert_eq!(rec.module_name.as_deref(), Some("mod.dll"));
    assert!(rec.namestringindirect.is_none());
    assert!(rec.about.is_none());
    assert!(!rec.standalone);
    assert!(lookups.is_empty());
}

#[test]
fn non_string_data_is_ignored() {
    let values = vec![NamedValue {
        name: "NameString".to_string(),
        data: ValueData::Other,
    }];
    let (rec, lookups) = MMCSnapIn::resolve("c2".to_string(), entry(vec![], values)).unwrap();
    assert!(rec.namestring.is_none());
    assert!(lookups.is_empty());
}

#[test]
fn later_value_overwrites_earlier() {
    let values = vec![sv("NameString", "First"), sv("NameString", "Second")];
    let (rec, _) = MMCSnapIn::resolve("c3".to_string(), entry(vec![], values)).unwrap();
    assert_eq!(rec.namestring.as_deref(), Some("Second"));
}

#[test]
fn indirect_values_become_resolution_requests() {
    let values = vec![
        sv("NameStringIndirect", r"@name.dll,-10"),
        sv("ProviderStringIndirect", r"@prov.dll,-20"),
        sv("VersionStringIndirect", "not a reference"),
    ];
    let (rec, lookups) = MMCSnapIn::resolve("c4".to_string(), entry(vec![], values)).unwrap();
    // an unparsable reference asks for nothing and leaves its field absent
    assert_eq!(lookups.len(), 2);
    match &lookups[0] {
        PendingLookup::Resolve(IndirectField::Name, isr) => {
            assert_eq!(isr.dllpath, "name.dll");
            assert_eq!(isr.strid, 10);
        }
        _ => panic!("expected a name resolution request"),
    }
    match &lookups[1] {
        PendingLookup::Resolve(IndirectField::Provider, isr) => {
            assert_eq!(isr.dllpath, "prov.dll");
            assert_eq!(isr.strid, 20);
        }
        _ => panic!("expected a provider resolution request"),
    }
    assert!(rec.namestringindirect.is_none());
    assert!(rec.providerstringindirect.is_none());
    assert!(rec.versionstringindirect.is_none());
}

#[test]
fn failed_indirect_resolution_keeps_direct_name() {
    let values = vec![
        sv("NameString", "Good Name"),
        sv("NameStringIndirect", r"@missing.dll,-10"),
    ];
    let (mut rec, lookups) = MMCSnapIn::resolve("c5".to_string(), entry(vec![], values)).unwrap();
    assert_eq!(lookups.len(), 1);
    rec.apply_resolution(IndirectField::Name, Err(ResolveError::LibraryLoadFailed));
    assert_eq!(rec.namestring.as_deref(), Some("Good Name"));
    assert!(rec.namestringindirect.is_none());
    rec.apply_resolution(IndirectField::Version, Err(ResolveError::StringNotFound));
    assert!(rec.versionstringindirect.is_none());
}

#[test]
fn successful_resolution_fills_exactly_its_field() {
    let values = vec![sv("NameStringIndirect", r"@name.dll,-10")];
    let (mut rec, _) = MMCSnapIn::resolve("c6".to_string(), entry(vec![], values)).unwrap();
    rec.apply_resolution(IndirectField::Name, Ok("Resolved Name".to_string()));
    assert_eq!(rec.namestringindirect.as_deref(), Some("Resolved Name"));
    assert!(rec.providerstringindirect.is_none());
    assert!(rec.versionstringindirect.is_none());
}

#[test]
fn well_formed_about_requests_activation() {
    let values = vec![sv("About", "00000000-0000-0000-0000-000000000001")];
    let (_, lookups) = MMCSnapIn::resolve("c7".to_string(), entry(vec![], values)).unwrap();
    assert_eq!(lookups.len(), 1);
    match lookups[0] {
        PendingLookup::Activate(g) => assert_eq!(g, 1),
        _ => panic!("expected an activation request"),
    }
}

#[test]
fn braced_about_requests_activation() {
    let values = vec![sv("About", "{550E8400-E29B-41D4-A716-446655440000}")];
    let (_, lookups) = MMCSnapIn::resolve("c8".to_string(), entry(vec![], values)).unwrap();
    assert_eq!(lookups.len(), 1);
    match lookups[0] {
        PendingLookup::Activate(g) => assert_eq!(g, 0x550E8400_E29B_41D4_A716_446655440000u128),
        _ => panic!("expected an activation request"),
    }
}

#[test]
fn malformed_about_requests_nothing() {
    let values = vec![sv("About", "not a guid")];
    let (rec, lookups) = MMCSnapIn::resolve("c9".to_string(), entry(vec![], values)).unwrap();
    assert!(lookups.is_empty());
    assert!(rec.about.is_none());
}

#[test]
fn activation_outcome_is_applied() {
    let (mut rec, _) = MMCSnapIn::resolve("ca".to_string(), entry(vec![], vec![])).unwrap();
    rec.apply_activation(Err(ActivationError::InstantiationFailed));
    assert!(rec.about.is_none());
    let about = MMCSnapInAbout {
        description: Some("desc".to_string()),
        provider: None,
        version: None,
        icon: None,
        image: None,
    };
    rec.apply_activation(Ok(about));
    assert_eq!(rec.about.as_ref().unwrap().description.as_deref(), Some("desc"));
}

#[test]
fn standalone_subkey_is_found_case_insensitively() {
    let keys = vec![Some("STANDALONE".to_string())];
    assert!(has_standalone_subkey(&keys));
    let keys = vec![Some("StandAlone".to_string())];
    assert!(has_standalone_subkey(&keys));
    let keys = vec![Some("NodeTypes".to_string())];
    assert!(!has_standalone_subkey(&keys));
    let keys: Vec<Option<String>> = vec![];
    assert!(!has_standalone_subkey(&keys));
}

#[test]
fn subkey_enumeration_error_does_not_suppress_marker() {
    let keys = vec![None, Some("StandAlone".to_string())];
    assert!(has_standalone_subkey(&keys));
    let keys = vec![None, Some("Other".to_string()), None];
    assert!(!has_standalone_subkey(&keys));
}

#[test]
fn resolve_sets_standalone_flag_from_subkeys() {
    let subkeys = vec![Some("NodeTypes".to_string()), Some("standalone".to_string())];
    let (rec, _) = MMCSnapIn::resolve("cb".to_string(), entry(subkeys, vec![])).unwrap();
    assert!(rec.standalone);
    let (rec, _) = MMCSnapIn::resolve("cc".to_string(), entry(vec![], vec![])).unwrap();
    assert!(!rec.standalone);
}

#[test]
fn icon_and_bitmap_handles_refuse_the_null_sentinel() {
    assert!(IconHandle::new(0).is_none());
    assert!(BitmapHandle::new(0).is_none());
    assert_eq!(IconHandle::new(7).unwrap().release(), 7);
    assert_eq!(BitmapHandle::new(9).unwrap().release(), 9);
}

#[test]
fn image_without_icon_releases_exactly_the_triad() {
    // track acquisitions against releases: every duplicated handle must come
    // back exactly once, so the outstanding count returns to zero
    let acquired: Vec<usize> = vec![11, 12, 13];
    let about = MMCSnapInAbout {
        description: None,
        provider: None,
        version: None,
        icon: None,
        image: Some(MMCSnapInImage {
            small: BitmapHandle::new(acquired[0]).unwrap(),
            small_open: BitmapHandle::new(acquired[1]).unwrap(),
            large: BitmapHandle::new(acquired[2]).unwrap(),
            mask: 0x00FF_00FF,
        }),
    };
    assert!(about.image.is_some());
    assert!(about.icon.is_none());
    let released = about.release_handles();
    assert_eq!(released, acquired);
}

#[test]
fn record_releases_every_owned_handle_exactly_once() {
    let (mut rec, _) = MMCSnapIn::resolve("cd".to_string(), entry(vec![], vec![])).unwrap();
    let about = MMCSnapInAbout {
        description: None,
        provider: None,
        version: None,
        icon: Some(IconHandle::new(21).unwrap()),
        image: Some(MMCSnapInImage {
            small: BitmapHandle::new(22).unwrap(),
            small_open: BitmapHandle::new(23).unwrap(),
            large: BitmapHandle::new(24).unwrap(),
            mask: 0,
        }),
    };
    rec.apply_activation(Ok(about));
    let mut outstanding = vec![21, 22, 23, 24];
    let released = rec.release_handles();
    for h in released {
        let pos = outstanding
            .iter()
            .position(|&x| x == h)
            .expect("released a handle that was never acquired");
        outstanding.remove(pos);
    }
    assert!(outstanding.is_empty());
}

#[test]
fn empty_record_releases_nothing() {
    let (rec, _) = MMCSnapIn::resolve("ce".to_string(), entry(vec![], vec![])).unwrap();
    assert!(rec.release_handles().is_empty());
    let about = MMCSnapInAbout {
        description: None,
        provider: None,
        version: None,
        icon: None,
        image: None,
    };
    assert!(about.release_handles().is_empty());
}
