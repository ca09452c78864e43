use transportal::transmission::rpc::{classify_http_status, check_response, csrf_decision};
use transportal::transmission::types::{
    Request, RequestInner, Response, SessionGetKey, TorrentAddRequired, TorrentAddResponse,
    TorrentAdded, TorrentAddedOrDuplicate, TorrentDuplicate, TorrentGetFormat, TorrentGetKey,
    TorrentStatus,
};

#[test]
fn test_request_builders() {
    let r = Request::session_get(vec![SessionGetKey::Version]);
    assert!(r.tag.is_none());
    assert!(matches!(
        r.request,
        RequestInner::SessionGet { fields } if fields == vec![SessionGetKey::Version]
    ));

    let r = Request::torrent_start(Some(vec!["abc".to_string()]));
    assert!(matches!(
        r.request,
        RequestInner::TorrentStart { ids: Some(ids) } if ids == vec!["abc".to_string()]
    ));

    let r = Request::torrent_stop(None);
    assert!(matches!(r.request, RequestInner::TorrentStop { ids: None }));

    let r = Request::torrent_verify(None);
    assert!(matches!(r.request, RequestInner::TorrentVerify { ids: None }));

    let r = Request::torrent_get(
        TorrentGetFormat::Objects,
        vec![TorrentGetKey::Name, TorrentGetKey::AddedDate],
        Some(vec!["hash".to_string()]),
    );
    match r.request {
        RequestInner::TorrentGet { format, fields, ids } => {
            assert_eq!(format, TorrentGetFormat::Objects);
            assert_eq!(fields, vec![TorrentGetKey::Name, TorrentGetKey::AddedDate]);
            assert_eq!(ids, Some(vec!["hash".to_string()]));
        }
        _ => panic!("wrong request"),
    }

    let r = Request::torrent_add(TorrentAddRequired::Filename("magnet:x".to_string()), true);
    match r.request {
        RequestInner::TorrentAdd {
            required,
            cookies,
            download_dir,
            labels,
            paused,
            peer_limit,
            bandwidth_priority,
            files_wanted,
            files_unwanted,
            priority_high,
            priority_low,
            priority_normal,
        } => {
            assert!(matches!(required, TorrentAddRequired::Filename(f) if f == "magnet:x"));
            assert_eq!(paused, Some(true));
            assert!(cookies.is_none());
            assert!(download_dir.is_none());
            assert!(labels.is_none());
            assert!(peer_limit.is_none());
            assert!(bandwidth_priority.is_none());
            assert!(files_wanted.is_none());
            assert!(files_unwanted.is_none());
            assert!(priority_high.is_none());
            assert!(priority_low.is_none());
            assert!(priority_normal.is_none());
        }
        _ => panic!("wrong request"),
    }
}

#[test]
fn test_request_tag() {
    let mut r = Request::session_get(vec![]);
    assert!(r.tag.is_none());
    r.tag(Some(9));
    assert_eq!(r.tag, Some(9));
    r.tag(None);
    assert!(r.tag.is_none());
}

#[test]
fn test_wire_names() {
    assert_eq!(SessionGetKey::Version.wire_name(), "version");
    assert_eq!(SessionGetKey::AltSpeedDown.wire_name(), "alt-speed-down");
    assert_eq!(SessionGetKey::SeedRatioLimit.wire_name(), "seedRatioLimit");
    assert_eq!(SessionGetKey::SeedRatioLimited.wire_name(), "seedRatioLimited");
    assert_eq!(SessionGetKey::RpcVersionMinimum.wire_name(), "rpc-version-minimum");
    assert_eq!(TorrentGetKey::AddedDate.wire_name(), "addedDate");
    assert_eq!(TorrentGetKey::HashString.wire_name(), "hashString");
    assert_eq!(TorrentGetKey::FileCount.wire_name(), "file-count");
    assert_eq!(TorrentGetKey::PeerLimit.wire_name(), "peer-limit");
    assert_eq!(TorrentGetKey::PrimaryMimeType.wire_name(), "primary-mime-type");
    assert_eq!(TorrentGetFormat::Objects.wire_name(), "objects");
    assert_eq!(TorrentGetFormat::Table.wire_name(), "table");
    let add = TorrentAddRequired::Filename("x".to_string());
    assert_eq!(add.wire_name(), "filename");
    assert_eq!(add.value(), "x");
    assert_eq!(
        Request::session_get(vec![]).request.method_name(),
        "session-get"
    );
    assert_eq!(
        Request::torrent_add(TorrentAddRequired::Metainfo("m".to_string()), false)
            .request
            .method_name(),
        "torrent-add"
    );
}

#[test]
fn test_torrent_status() {
    assert_eq!(TorrentStatus::Stopped.code(), 0);
    assert_eq!(TorrentStatus::Seeding.code(), 6);
    assert_eq!(TorrentStatus::from_code(0), Ok(TorrentStatus::Stopped));
    assert_eq!(TorrentStatus::from_code(4), Ok(TorrentStatus::Downloading));
    assert_eq!(TorrentStatus::from_code(6), Ok(TorrentStatus::Seeding));
    assert_eq!(TorrentStatus::from_code(7), Err(()));
    assert_eq!(TorrentStatus::Stopped.ui(), "Paused");
    assert_eq!(TorrentStatus::VerifyQueued.ui(), "Queued for verification");
    assert_eq!(TorrentStatus::DownloadQueued.label(), "download-queued");
    assert_eq!(TorrentStatus::Seeding.label(), "seeding");
}

#[test]
fn test_response_is_success() {
    let ok: Response<u32> = Response {
        result: "success".to_string(),
        arguments: 1,
        tag: None,
    };
    assert!(ok.is_success());
    let err: Response<u32> = Response {
        result: "no such method".to_string(),
        arguments: 1,
        tag: None,
    };
    assert!(!err.is_success());
}

#[test]
fn test_hash_string() {
    let added = TorrentAddResponse {
        added_or_duplicate: TorrentAddedOrDuplicate::TorrentAdded(TorrentAdded {
            hash_string: "abc123".to_string(),
            name: "x".to_string(),
            id: 1,
        }),
    };
    assert_eq!(added.hash_string(), "abc123");
    let dup = TorrentAddResponse {
        added_or_duplicate: TorrentAddedOrDuplicate::TorrentDuplicate(TorrentDuplicate {
            hash_string: "def456".to_string(),
            name: "y".to_string(),
            id: 2,
        }),
    };
    assert_eq!(dup.hash_string(), "def456");
}

#[test]
fn test_classify_http_status() {
    assert_eq!(classify_http_status(200), Ok(()));
    assert_eq!(classify_http_status(204), Ok(()));
    assert_eq!(classify_http_status(401), Err(401));
    assert_eq!(classify_http_status(403), Err(403));
    assert_eq!(classify_http_status(404), Err(502));
    assert_eq!(classify_http_status(409), Err(502));
    assert_eq!(classify_http_status(500), Err(502));
    assert_eq!(classify_http_status(301), Err(502));
}

#[test]
fn test_check_response() {
    let good: Option<Response<u32>> = Some(Response {
        result: "success".to_string(),
        arguments: 5,
        tag: Some(1),
    });
    let passed = check_response(good).unwrap();
    assert_eq!(passed.arguments, 5);
    let bad: Option<Response<u32>> = Some(Response {
        result: "failure".to_string(),
        arguments: 5,
        tag: None,
    });
    assert!(matches!(check_response(bad), Err(502)));
    assert!(matches!(check_response::<u32>(None), Err(502)));
}

#[test]
fn test_csrf_decision() {
    let old = "old-id".to_string();
    // no header: nothing stored, no retry
    assert_eq!(csrf_decision(&old, None, true), (None, false));
    // unchanged id: nothing stored, retry follows the conflict status
    assert_eq!(csrf_decision(&old, Some("old-id".to_string()), false), (None, false));
    assert_eq!(csrf_decision(&old, Some("old-id".to_string()), true), (None, true));
    // changed id: stored, retry follows the conflict status
    assert_eq!(
        csrf_decision(&old, Some("new-id".to_string()), true),
        (Some("new-id".to_string()), true)
    );
    assert_eq!(
        csrf_decision(&old, Some("new-id".to_string()), false),
        (Some("new-id".to_string()), false)
    );
}
