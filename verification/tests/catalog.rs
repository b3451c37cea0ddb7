use irs::catalog::{list_tokens, CatalogError, Inspected, Inspection};
use irs::token::{
    explain, Handle, OsError, Owner, ProcessAccess, Release, TokenAccess, TokenDetails, TokenKind,
    TokenRecord,
};

const DENIED: OsError = OsError { code: 5 };

fn owner(domain: &str, user: &str) -> Owner {
    Owner::Known { domain: domain.to_string(), user: user.to_string() }
}

fn details(session: u32, kind: TokenKind, privileges: &[&str]) -> TokenDetails {
    TokenDetails { session, kind, privileges: privileges.iter().map(|p| p.to_string()).collect() }
}

fn record(pid: u32, user: &str) -> TokenRecord {
    TokenRecord {
        pid,
        owner: owner("LAB", user),
        session: 1,
        kind: TokenKind::Primary,
        privileges: vec!["SeChangeNotifyPrivilege".to_string()],
    }
}

fn nothing_to_close() -> Inspected {
    Inspected { release: Release { revert: false, close: vec![] }, record: None }
}

#[test]
fn an_inspection_begins_with_its_pid() {
    assert_eq!(Inspection::begin(812), Inspection { pid: 812 });
}

#[test]
fn a_process_that_cannot_be_opened_is_passed_over() {
    let end = Inspection::begin(4).with_process(Err(DENIED)).unwrap_err();
    assert_eq!(end, nothing_to_close());
}

#[test]
fn a_token_that_cannot_be_opened_closes_the_process() {
    let stage = Inspection::begin(4).with_process(Ok(Handle { raw: 100 })).unwrap();
    assert_eq!(stage.pid, 4);
    assert_eq!(stage.process, Handle { raw: 100 });
    let end = stage.with_token(Err(DENIED)).unwrap_err();
    assert_eq!(
        end,
        Inspected {
            release: Release { revert: false, close: vec![Handle { raw: 100 }] },
            record: None,
        }
    );
}

#[test]
fn an_inspection_closes_the_token_and_then_the_process() {
    let stage = Inspection::begin(612)
        .with_process(Ok(Handle { raw: 100 }))
        .unwrap()
        .with_token(Ok(Handle { raw: 104 }))
        .unwrap();
    assert_eq!((stage.pid, stage.process.raw, stage.token.raw), (612, 100, 104));
    let end = stage.with_facts(
        Ok(owner("NT AUTHORITY", "SYSTEM")),
        Ok(details(0, TokenKind::Primary, &["SeDebugPrivilege", "SeTcbPrivilege"])),
    );
    assert_eq!(
        end.release,
        Release { revert: false, close: vec![Handle { raw: 104 }, Handle { raw: 100 }] }
    );
    assert_eq!(
        end.record,
        Some(TokenRecord {
            pid: 612,
            owner: owner("NT AUTHORITY", "SYSTEM"),
            session: 0,
            kind: TokenKind::Primary,
            privileges: vec!["SeDebugPrivilege".to_string(), "SeTcbPrivilege".to_string()],
        })
    );
}

#[test]
fn an_owner_that_does_not_resolve_is_unknown() {
    let end = Inspection::begin(9)
        .with_process(Ok(Handle { raw: 1 }))
        .unwrap()
        .with_token(Ok(Handle { raw: 2 }))
        .unwrap()
        .with_facts(Err(OsError { code: 1332 }), Ok(details(3, TokenKind::Impersonation, &[])));
    let record = end.record.unwrap();
    assert_eq!(record.owner, Owner::Unknown);
    assert_eq!(record.pid, 9);
    assert_eq!(record.session, 3);
    assert_eq!(record.kind, TokenKind::Impersonation);
    assert!(record.privileges.is_empty());
    assert_eq!(end.release.close, vec![Handle { raw: 2 }, Handle { raw: 1 }]);
}

#[test]
fn a_token_that_cannot_be_read_leaves_no_record_and_no_handle() {
    let end = Inspection::begin(9)
        .with_process(Ok(Handle { raw: 1 }))
        .unwrap()
        .with_token(Ok(Handle { raw: 2 }))
        .unwrap()
        .with_facts(Ok(owner("LAB", "alice")), Err(DENIED));
    assert_eq!(end.record, None);
    assert_eq!(
        end.release,
        Release { revert: false, close: vec![Handle { raw: 2 }, Handle { raw: 1 }] }
    );
}

#[test]
fn an_enumeration_that_fails_fails_the_listing() {
    let os = OsError { code: 8 };
    assert_eq!(list_tokens(Err(os)), Err(CatalogError { os }));
}

#[test]
fn an_empty_enumeration_lists_nothing() {
    assert_eq!(list_tokens(Ok(vec![])), Ok(vec![]));
}

#[test]
fn an_inaccessible_process_is_absent_and_fails_nothing() {
    let found = vec![Some(record(4, "a")), None, Some(record(8, "b")), None];
    assert_eq!(list_tokens(Ok(found)), Ok(vec![record(4, "a"), record(8, "b")]));
    assert_eq!(list_tokens(Ok(vec![None, None, None])), Ok(vec![]));
}

#[test]
fn records_are_listed_by_ascending_pid() {
    let found = vec![
        Some(record(900, "d")),
        Some(record(4, "a")),
        None,
        Some(record(612, "c")),
        Some(record(88, "b")),
    ];
    assert_eq!(
        list_tokens(Ok(found)),
        Ok(vec![record(4, "a"), record(88, "b"), record(612, "c"), record(900, "d")])
    );
}

#[test]
fn records_of_one_pid_keep_their_order() {
    let found = vec![Some(record(7, "first")), Some(record(3, "x")), Some(record(7, "second"))];
    assert_eq!(
        list_tokens(Ok(found)),
        Ok(vec![record(3, "x"), record(7, "first"), record(7, "second")])
    );
}

#[test]
fn two_listings_of_one_snapshot_are_identical() {
    let snapshot = || Ok(vec![Some(record(31, "b")), None, Some(record(2, "a"))]);
    assert_eq!(list_tokens(snapshot()), list_tokens(snapshot()));
}

#[test]
fn every_listed_record_has_a_token_type_by_name() {
    let found = vec![
        Some(TokenRecord { kind: TokenKind::Impersonation, ..record(5, "a") }),
        Some(record(1, "b")),
    ];
    for r in list_tokens(Ok(found)).unwrap() {
        assert!(r.kind.name() == "primary" || r.kind.name() == "impersonation");
    }
    assert_eq!(TokenKind::Primary.name(), "primary");
    assert_eq!(TokenKind::Impersonation.name(), "impersonation");
}

#[test]
fn the_largest_and_smallest_pid_are_listed() {
    let found = vec![Some(record(u32::MAX, "z")), Some(record(0, "idle"))];
    assert_eq!(list_tokens(Ok(found)), Ok(vec![record(0, "idle"), record(u32::MAX, "z")]));
}

#[test]
fn a_catalog_error_has_a_message() {
    assert_eq!(
        CatalogError { os: OsError { code: 8 } }.message(),
        "process enumeration failed (os error 8)"
    );
}

#[test]
fn a_record_is_one_line() {
    let r = TokenRecord {
        pid: 612,
        owner: owner("NT AUTHORITY", "SYSTEM"),
        session: 0,
        kind: TokenKind::Primary,
        privileges: vec!["SeDebugPrivilege".to_string(), "SeTcbPrivilege".to_string()],
    };
    assert_eq!(r.line(), "612\tNT AUTHORITY\\SYSTEM\t0\tprimary\tSeDebugPrivilege,SeTcbPrivilege");
}

#[test]
fn a_record_without_owner_or_privileges_is_one_line() {
    let r = TokenRecord {
        pid: 4294967295,
        owner: Owner::Unknown,
        session: 12,
        kind: TokenKind::Impersonation,
        privileges: vec![],
    };
    assert_eq!(r.line(), "4294967295\tunknown\t12\timpersonation\t");
    let one = TokenRecord { privileges: vec!["SeShutdownPrivilege".to_string()], ..r };
    assert_eq!(one.line(), "4294967295\tunknown\t12\timpersonation\tSeShutdownPrivilege");
}

#[test]
fn an_owner_is_domain_and_user() {
    assert_eq!(owner("LAB", "alice").text(), "LAB\\alice");
    assert_eq!(owner("", "").text(), "\\");
    assert_eq!(Owner::Unknown.text(), "unknown");
}

#[test]
fn a_record_takes_what_the_details_hold() {
    let r = TokenRecord::new(
        44,
        Owner::Unknown,
        details(2, TokenKind::Impersonation, &["SeDebugPrivilege"]),
    );
    assert_eq!(
        r,
        TokenRecord {
            pid: 44,
            owner: Owner::Unknown,
            session: 2,
            kind: TokenKind::Impersonation,
            privileges: vec!["SeDebugPrivilege".to_string()],
        }
    );
}

#[test]
fn an_os_error_is_named_by_its_code() {
    assert_eq!(OsError { code: 0 }.text(), "os error 0");
    assert_eq!(OsError { code: 1314 }.text(), "os error 1314");
    assert_eq!(explain("token open failed", OsError { code: 5 }), "token open failed (os error 5)");
}

#[test]
fn an_inspection_asks_for_the_least_rights() {
    let inspection = Inspection::begin(4);
    assert_eq!(inspection.access(), ProcessAccess::Query);
    let stage = inspection.with_process(Ok(Handle { raw: 1 })).unwrap();
    assert_eq!(stage.access(), TokenAccess::Read);
}
