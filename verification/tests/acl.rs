use snipespotter::acl::{validate_file_acl_contract, AclFault, DATA_ACL_SDDL};

#[test]
fn canonical_file_acl_contract_is_accepted() {
    for sddl in [
        "D:PAI(A;;FA;;;SY)(A;;FA;;;BA)",
        "D:PAI(A;;FA;;;BA)(A;;FA;;;SY)",
    ] {
        if let Err(error) = validate_file_acl_contract(sddl) {
            panic!("canonical Windows file ACL was rejected: {}", error.message());
        }
    }
}

#[test]
fn file_acl_contract_rejects_broad_extra_or_non_file_aces() {
    for sddl in [
        "D:PAI(A;;FA;;;SY)(A;;FA;;;BA)(A;;FA;;;WD)",
        "D:PAI(A;;GA;;;SY)(A;;FA;;;BA)",
        "D:PAI(A;OICI;GA;;;SY)(A;;FA;;;BA)",
        "D:PAI(A;;FA;;;SY)(A;;FA;;;SY)",
        "D:PAI(A;;FA;;;BA)(A;;FA;;;BA)",
        "D:(A;;FA;;;SY)(A;;FA;;;BA)",
    ] {
        assert!(
            validate_file_acl_contract(sddl).is_err(),
            "ACL must not satisfy the file contract: {sddl}"
        );
    }
}

#[test]
fn every_acl_fault_has_its_input_and_its_message() {
    let cases = [
        ("O:SY", AclFault::MissingPrefix, "missing DACL prefix"),
        ("D:PAI", AclFault::NoEntries, "DACL contains no ACEs"),
        (
            "D:AI(A;;FA;;;SY)(A;;FA;;;BA)",
            AclFault::NotProtected,
            "DACL is not protected",
        ),
        (
            "D:P(A;;FA;;;SY)x",
            AclFault::TrailingData,
            "DACL contains trailing data",
        ),
        ("D:P(A;;FA;;;SY", AclFault::Unterminated, "ACE is unterminated"),
        (
            "D:P(A;;FA;;SY)",
            AclFault::FieldCount,
            "ACE does not contain six fields",
        ),
        (
            "D:P(D;;FA;;;SY)",
            AclFault::NotAllow,
            "DACL contains a non-allow ACE",
        ),
        (
            "D:P(A;OI;FA;;;SY)",
            AclFault::NotCanonical,
            "ACE is not a canonical full-file allow",
        ),
        (
            "D:P(A;;FA;;;WD)",
            AclFault::UnauthorizedPrincipal,
            "DACL contains an unauthorized principal",
        ),
        (
            "D:P(A;;FA;;;SY)(A;;FA;;;SY)",
            AclFault::DuplicatePrincipal,
            "DACL contains a duplicate required principal",
        ),
        (
            "D:P(A;;FA;;;SY)",
            AclFault::Incomplete,
            "DACL must contain exactly SYSTEM and Administrators",
        ),
    ];
    for (sddl, fault, message) in cases {
        assert_eq!(validate_file_acl_contract(sddl), Err(fault), "{sddl}");
        assert_eq!(fault.message(), message);
    }
}

#[test]
fn the_directory_descriptor_is_no_file_descriptor() {
    assert_eq!(DATA_ACL_SDDL, "D:P(A;OICI;GA;;;SY)(A;OICI;GA;;;BA)");
    assert_eq!(
        validate_file_acl_contract(DATA_ACL_SDDL),
        Err(AclFault::NotCanonical)
    );
}
