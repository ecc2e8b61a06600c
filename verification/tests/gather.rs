use snipespotter::client::SnipeItError;
use snipespotter::discovery::{ChassisType, MonitorInfo, SystemInfo};
use snipespotter::failure::Failure;
use snipespotter::gather::{
    gather_sync, matching_models, normalize, optional_asset, resolution_from_ids, resolve_named,
    resolve_taxonomy, resolved_id, GatherQuery, ResolvedTaxonomy, TaxonomyResolution,
};
use snipespotter::model::{Asset, AssetModel, Category, Manufacturer};

fn manufacturer(id: u64, name: &str) -> Manufacturer {
    Manufacturer {
        id,
        name: name.to_owned(),
    }
}

fn server_failure(error: SnipeItError) -> Failure {
    Failure {
        causes: vec!["remote".to_owned()],
        server: Some(error),
    }
}

#[test]
fn strict_name_resolution_distinguishes_missing_unique_and_ambiguous() {
    let values = [manufacturer(2, "Dell Inc."), manufacturer(3, "Dell Inc.")];
    assert_eq!(resolve_named(&values, "hp"), TaxonomyResolution::Missing);
    assert_eq!(
        resolve_named(&values[..1], "dell inc."),
        TaxonomyResolution::Resolved { id: 2 }
    );
    assert_eq!(
        resolve_named(&values, "dell inc."),
        TaxonomyResolution::Ambiguous
    );
}

#[test]
fn model_matching_requires_exact_normalized_name_and_manufacturer() {
    let models = vec![
        AssetModel {
            id: 10,
            name: String::from("Latitude 7450"),
            manufacturer: Some(manufacturer(2, "Dell")),
            category: Some(Category {
                id: 4,
                name: String::from("Laptop"),
            }),
        },
        AssetModel {
            id: 11,
            name: String::from("Latitude 7450 Plus"),
            manufacturer: Some(manufacturer(2, "Dell")),
            category: None,
        },
    ];
    let matches = matching_models(&models, "latitude 7450", Some(2));
    assert_eq!(matches.len(), 1);
    assert_eq!(matches[0].id, 10);
    let categories: Vec<u64> = matches
        .iter()
        .filter_map(|model| model.category.as_ref().map(|c| c.id))
        .collect();
    assert_eq!(
        resolution_from_ids(&categories),
        TaxonomyResolution::Resolved { id: 4 }
    );
}

#[test]
fn normalization_collapses_case_and_whitespace() {
    assert_eq!(normalize("  Dell   INC. "), "dell inc.");
}

#[test]
fn not_found_asset_is_optional_but_other_errors_propagate() {
    assert!(matches!(
        optional_asset(Err(server_failure(SnipeItError::NotFound))),
        Ok(None)
    ));
    assert!(optional_asset(Err(server_failure(SnipeItError::AuthFailure))).is_err());
}

#[test]
fn a_name_that_resolves_gives_its_number() {
    assert_eq!(resolved_id(&TaxonomyResolution::Resolved { id: 5 }), Some(5));
    assert_eq!(resolved_id(&TaxonomyResolution::Ambiguous), None);
    assert_eq!(resolved_id(&TaxonomyResolution::Missing), None);
    assert_eq!(resolution_from_ids(&vec![7, 7]), TaxonomyResolution::Resolved { id: 7 });
}

#[test]
fn a_taxonomy_is_resolved_from_both_lists() {
    let models = vec![AssetModel {
        id: 10,
        name: String::from("Latitude  7450"),
        manufacturer: Some(manufacturer(2, "Dell")),
        category: Some(Category {
            id: 4,
            name: String::from("Laptop"),
        }),
    }];
    let taxonomy = resolve_taxonomy(" DELL ", "LATITUDE 7450", &vec![manufacturer(2, "Dell")], &models);
    assert_eq!(
        taxonomy,
        ResolvedTaxonomy {
            manufacturer: TaxonomyResolution::Resolved { id: 2 },
            category: TaxonomyResolution::Resolved { id: 4 },
            model: TaxonomyResolution::Resolved { id: 10 },
            normalized_manufacturer: "dell".to_owned(),
            normalized_model: "latitude 7450".to_owned(),
        }
    );
}

fn asset(id: u64) -> Asset {
    Asset {
        id,
        name: format!("asset {id}"),
        serial: None,
        asset_tag: None,
        status_label: None,
        assigned_to: None,
        model: None,
    }
}

#[test]
fn gathering_asks_for_the_system_and_each_monitor() {
    let system = SystemInfo {
        manufacturer: "Dell".to_owned(),
        model: "Latitude".to_owned(),
        serial: "SYS".to_owned(),
        asset_tag: String::new(),
        chassis_type: ChassisType(9),
    };
    let monitor = MonitorInfo {
        manufacturer_code: "DEL".to_owned(),
        product_code: "1234".to_owned(),
        serial: "MON".to_owned(),
        manufacture_week: 7,
        manufacture_year: 2025,
    };
    let mut gathering = gather_sync(system.clone(), vec![monitor.clone()]);
    assert_eq!(
        gathering.query(),
        GatherQuery::FindAsset {
            serial: "SYS".to_owned()
        }
    );
    assert_eq!(gathering.found(Ok(Some(asset(7)))), Ok(()));
    assert_eq!(
        gathering.query(),
        GatherQuery::Resolve {
            manufacturer: "Dell".to_owned(),
            model: "Latitude".to_owned()
        }
    );
    let nothing = resolve_taxonomy("Dell", "Latitude", &Vec::new(), &Vec::new());
    gathering.resolved(nothing.clone());
    assert_eq!(
        gathering.query(),
        GatherQuery::FindAsset {
            serial: "MON".to_owned()
        }
    );
    assert_eq!(
        gathering.found(Err(server_failure(SnipeItError::NotFound))),
        Ok(())
    );
    assert_eq!(
        gathering.query(),
        GatherQuery::Resolve {
            manufacturer: "DEL".to_owned(),
            model: "1234".to_owned()
        }
    );
    gathering.resolved(nothing);
    assert_eq!(gathering.query(), GatherQuery::Complete);
    let gathered = gathering.finish();
    assert_eq!(gathered.system, system);
    assert_eq!(gathered.system_asset.map(|found| found.id), Some(7));
    assert_eq!(gathered.monitors.len(), 1);
    assert_eq!(gathered.monitors[0].monitor, monitor);
    assert_eq!(gathered.monitors[0].asset_id, None);
}

#[test]
fn a_failed_lookup_ends_the_gathering() {
    let system = SystemInfo {
        manufacturer: "Dell".to_owned(),
        model: "Latitude".to_owned(),
        serial: "SYS".to_owned(),
        asset_tag: String::new(),
        chassis_type: ChassisType(9),
    };
    let mut gathering = gather_sync(system, Vec::new());
    let failure = server_failure(SnipeItError::PermissionDenied);
    assert!(gathering.found(Err(failure)).is_err());
}

#[test]
fn names_are_compared_without_case_and_spacing() {
    for name in ["Dell Inc.", " dell  INC. ", "DELL\tINC.", "\u{a0}Dell\u{2003}Inc.\n"] {
        let normal = normalize(name);
        assert_eq!(normal, "dell inc.");
        assert_eq!(normalize(&normal), normal);
        assert_eq!(normalize(&name.to_ascii_uppercase()), normal);
    }
    assert_eq!(normalize("  "), "");
    assert_eq!(normalize("ÉCRAN Σ"), "écran σ");
}
