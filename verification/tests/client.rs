use snipespotter::client::{
    base_url, body_limit_error, classify_status, endpoint_url, judge_url, list_query, network,
    page_url, response_text, retry_after, safe_invalid, validate_serial, BodyReader, Endpoint, NetworkErrorKind,
    PageRequest, PageStep, Pagination, SnipeItError, UrlError, UrlParts, MAX_ERROR_BODY_BYTES,
    MAX_PAGE_REQUESTS, MAX_SUCCESS_BODY_BYTES, MAX_TOTAL_ROWS, PAGE_SIZE, PAGINATION_DEADLINE,
};

#[test]
fn production_constructors_reject_http_before_client_creation() {
    let Err(error) = base_url("http://127.0.0.1:1") else {
        panic!("production constructor must reject HTTP");
    };
    assert!(error.message().contains("HTTPS"));
}

#[test]
fn statuses_are_classified() {
    assert_eq!(classify_status(401, None), SnipeItError::AuthFailure);
    assert_eq!(classify_status(403, None), SnipeItError::PermissionDenied);
    assert_eq!(classify_status(404, None), SnipeItError::NotFound);
    assert_eq!(
        classify_status(429, Some(7)),
        SnipeItError::RateLimited {
            retry_after: Some(7)
        }
    );
    assert!(matches!(
        classify_status(503, None),
        SnipeItError::ServerError { status: 503, .. }
    ));
    assert!(matches!(
        classify_status(422, None),
        SnipeItError::Validation { .. }
    ));
    assert_eq!(
        classify_status(302, None),
        safe_invalid("unexpected HTTP status")
    );
}

#[test]
fn errors_are_described() {
    let cases = [
        (SnipeItError::AuthFailure, "Snipe-IT authentication failed"),
        (SnipeItError::PermissionDenied, "Snipe-IT permission denied"),
        (
            SnipeItError::RateLimited { retry_after: None },
            "Snipe-IT rate limit exceeded",
        ),
        (
            SnipeItError::ServerError {
                status: 503,
                message: "temporarily unavailable".to_owned(),
            },
            "Snipe-IT server error 503: temporarily unavailable",
        ),
    ];
    for (error, message) in cases {
        assert_eq!(error.message(), message);
    }
    for error in [network(true, false), network(false, true), network(false, false)] {
        assert!(error.message().starts_with("Snipe-IT network error: network "));
    }
    assert_eq!(
        network(true, true),
        SnipeItError::NetworkError {
            kind: NetworkErrorKind::Timeout
        }
    );
    assert_eq!(
        network(false, true),
        SnipeItError::NetworkError {
            kind: NetworkErrorKind::Connect
        }
    );
}

#[test]
fn delays_are_read_from_the_header() {
    assert_eq!(retry_after(Some("7")), Some(7));
    assert_eq!(retry_after(Some("soon")), None);
    assert_eq!(retry_after(None), None);
}

#[test]
fn serials_are_checked() {
    assert_eq!(validate_serial("ABC-123"), Ok(()));
    for serial in [".", "..", "bad\nvalue"] {
        assert_eq!(
            validate_serial(serial),
            Err(SnipeItError::Validation {
                message: "serial is not a safe URL segment".to_owned()
            })
        );
    }
}

#[test]
fn serial_url_segment_contract() {
    let base = base_url("https://example.test/prefix/").expect("the address is good");
    let address = |serial: &str| {
        let endpoint = Endpoint::AssetBySerial {
            serial: serial.to_owned(),
        };
        endpoint_url(&base, &endpoint)
    };
    let start = "https://example.test/prefix/api/v1/hardware/byserial/";
    assert_eq!(address("a/b?c#d"), Ok(format!("{start}a%2Fb%3Fc%23d")));
    assert_eq!(address("50%"), Ok(format!("{start}50%25")));
    let foreign = address("日本語").expect("any character can be written");
    assert!(foreign.starts_with("https://example.test/prefix/api/v1/hardware/byserial/%"));
    for serial in [".", "..", "bad\nvalue"] {
        assert!(matches!(
            address(serial),
            Err(SnipeItError::Validation { .. })
        ));
    }
}

#[test]
fn bodies_are_bounded() {
    let mut reader = BodyReader::start(200, None, Some(3)).expect("three bytes are admitted");
    assert_eq!(reader.append(b"ab"), Ok(()));
    assert_eq!(reader.append(b"c"), Ok(()));
    assert_eq!(reader.finish(), Ok(b"abc".to_vec()));

    assert!(BodyReader::start(200, None, Some(MAX_SUCCESS_BODY_BYTES as u64 + 1)).is_err());
    let mut reader = BodyReader::start(200, None, None).expect("the length is not announced");
    assert_eq!(reader.append(&vec![0; MAX_SUCCESS_BODY_BYTES]), Ok(()));
    assert_eq!(reader.append(&[0]), Err(body_limit_error(200, None)));

    let limited = BodyReader::start(429, Some(9), Some(MAX_ERROR_BODY_BYTES as u64 + 1));
    assert_eq!(
        limited.err(),
        Some(SnipeItError::RateLimited {
            retry_after: Some(9)
        })
    );
    let failed = BodyReader::start(401, None, None).expect("nothing is announced");
    assert_eq!(failed.finish(), Err(SnipeItError::AuthFailure));
}

#[test]
fn bodies_are_texts() {
    assert_eq!(response_text(b"caf\xc3\xa9".to_vec()), Ok("café".to_owned()));
    assert_eq!(
        response_text(vec![0xC3]),
        Err(safe_invalid("response body is not valid UTF-8"))
    );
}

#[test]
fn listings_are_read_page_by_page() {
    let mut pagination: Pagination<usize> = Pagination::new();
    let first = pagination.next_request(0).expect("the first page is asked for");
    assert_eq!(
        first,
        PageRequest {
            limit: PAGE_SIZE,
            offset: 0
        }
    );
    assert_eq!(
        pagination.record_page((0..PAGE_SIZE).collect()),
        Ok(PageStep::More)
    );
    let second = pagination.next_request(1).expect("there may be more");
    assert_eq!(second.offset, PAGE_SIZE);
    assert_eq!(pagination.record_page(vec![100]), Ok(PageStep::Complete));
    assert_eq!(pagination.values, (0..=PAGE_SIZE).collect::<Vec<usize>>());
}

#[test]
fn listings_that_do_not_end_are_given_up() {
    let pagination: Pagination<u8> = Pagination::new();
    assert!(pagination.next_request(PAGINATION_DEADLINE + 1).is_err());

    let mut oversized: Pagination<u8> = Pagination::new();
    assert!(oversized.record_page(vec![0; PAGE_SIZE + 1]).is_err());

    let mut endless: Pagination<u8> = Pagination::new();
    let mut pages: usize = 0;
    loop {
        if endless.next_request(0).is_err() {
            break;
        }
        match endless.record_page(vec![0; PAGE_SIZE]) {
            Ok(PageStep::More) => pages += 1,
            Ok(PageStep::Complete) => panic!("every page was full"),
            Err(_) => break,
        }
    }
    assert!(pages <= MAX_PAGE_REQUESTS);
    assert!(endless.values.len() <= MAX_TOTAL_ROWS);
}

#[test]
fn addresses_are_judged() {
    assert_eq!(
        base_url(" https://example.test/base "),
        Ok("https://example.test/base".to_owned())
    );
    assert_eq!(base_url("http://example.test"), Err(UrlError::NotHttps));
    assert!(base_url("https://user@example.test").is_err());
    assert!(base_url("https://example.test/?a=b").is_err());
    assert!(base_url("not a url").is_err());
    let parts = UrlParts {
        scheme: "https".to_owned(),
        username: String::new(),
        has_password: false,
        has_query: false,
        has_fragment: false,
        has_host: true,
    };
    assert_eq!(judge_url(Some(parts.clone())), Ok(()));
    assert_eq!(
        judge_url(Some(UrlParts {
            has_password: true,
            ..parts
        })),
        Err(UrlError::NotAnEndpoint)
    );
}

#[test]
fn endpoints_have_addresses() {
    let base = base_url("https://example.test/base").expect("the address is good");
    assert_eq!(
        endpoint_url(
            &base,
            &Endpoint::AssetBySerial {
                serial: "A/B C".to_owned()
            }
        ),
        Ok("https://example.test/base/api/v1/hardware/byserial/A%2FB%20C".to_owned())
    );
    assert_eq!(
        endpoint_url(&base, &Endpoint::Checkin { asset_id: 7 }),
        Ok("https://example.test/base/api/v1/hardware/7/checkin".to_owned())
    );
    let request = PageRequest {
        limit: PAGE_SIZE,
        offset: 100,
    };
    assert_eq!(
        list_query("dell inc.", request),
        vec![
            ("search".to_owned(), "dell inc.".to_owned()),
            ("limit".to_owned(), "100".to_owned()),
            ("offset".to_owned(), "100".to_owned()),
        ]
    );
    assert_eq!(
        page_url(&base, &Endpoint::Models, "dell inc.", request),
        Ok("https://example.test/base/api/v1/models?search=dell+inc.&limit=100&offset=100".to_owned())
    );
}

/// What a reply of this status gives, with the body in the given pieces.
fn reply(status: u16, retry: Option<&str>, pieces: &[&[u8]]) -> Result<Vec<u8>, SnipeItError> {
    let mut reader = BodyReader::start(status, retry_after(retry), None)?;
    for piece in pieces {
        reader.append(piece)?;
    }
    reader.finish()
}

#[test]
fn oversized_rate_limit_preserves_retry_after() {
    let body = vec![b'x'; MAX_ERROR_BODY_BYTES + 1];
    let expected = SnipeItError::RateLimited {
        retry_after: Some(17),
    };
    assert_eq!(
        BodyReader::start(429, retry_after(Some("17")), Some(body.len() as u64)).err(),
        Some(expected.clone())
    );
    assert_eq!(reply(429, Some("17"), &[&body]), Err(expected));
}

#[test]
fn rate_limit_preserves_retry_after() {
    assert_eq!(
        reply(429, Some("9"), &[br#"{"message":"slow down"}"#]),
        Err(SnipeItError::RateLimited {
            retry_after: Some(9)
        })
    );
}

#[test]
fn http_body_caps_all_routes() {
    let oversized = vec![b'x'; 1_048_576 + 1];
    let expected = SnipeItError::InvalidResponse {
        message: String::from("response body exceeds limit"),
    };
    assert_eq!(
        BodyReader::start(200, None, Some(oversized.len() as u64)).err(),
        Some(expected.clone())
    );
    assert_eq!(reply(200, None, &[&oversized]), Err(expected));
}

#[test]
fn chunked_response_enforces_cumulative_cap() {
    let chunk = vec![b'x'; 65_536];
    let chunks: Vec<&[u8]> = (0..=16).map(|_| chunk.as_slice()).collect();
    assert_eq!(
        reply(200, None, &chunks),
        Err(SnipeItError::InvalidResponse {
            message: String::from("response body exceeds limit")
        })
    );
    assert_eq!(reply(200, None, &chunks[..16]), Ok(vec![b'x'; 1_048_576]));
}

#[test]
fn pagination_limits_and_total_deadline() {
    let mut pagination: Pagination<u64> = Pagination::new();
    assert!(pagination.next_request(0).is_ok());
    assert_eq!(
        pagination.record_page((1..=101).collect()),
        Err(SnipeItError::InvalidResponse {
            message: String::from("pagination page exceeds requested limit")
        })
    );
}

#[test]
fn find_models_paginates_across_pages() {
    let base = base_url("https://example.test").expect("the address is good");
    let mut pagination: Pagination<u64> = Pagination::new();
    let first = pagination.next_request(0).expect("the first page is asked for");
    assert_eq!(
        page_url(&base, &Endpoint::Models, "ThinkPad", first),
        Ok("https://example.test/api/v1/models?search=ThinkPad&limit=100&offset=0".to_owned())
    );
    assert_eq!(
        pagination.record_page((1_u64..=100).collect()),
        Ok(PageStep::More)
    );
    let second = pagination.next_request(0).expect("the second page is asked for");
    assert_eq!(
        page_url(&base, &Endpoint::Models, "ThinkPad", second),
        Ok("https://example.test/api/v1/models?search=ThinkPad&limit=100&offset=100".to_owned())
    );
    assert_eq!(pagination.record_page(vec![101, 102]), Ok(PageStep::Complete));
    assert_eq!(pagination.values.len(), 102);
    assert_eq!(pagination.values[100], 101);
}

#[test]
fn taxonomy_lookup_propagates_auth_error() {
    assert_eq!(
        reply(401, None, &[br#"{"message":"unauthorized"}"#]),
        Err(SnipeItError::AuthFailure)
    );
}

#[test]
fn redirects_never_forward_requests() {
    assert!(matches!(
        reply(302, None, &[b"redirect-secret"]),
        Err(SnipeItError::InvalidResponse { .. })
    ));
}

#[test]
fn endpoints_extend_the_path_alone() {
    let asset = Endpoint::Asset { asset_id: 7 };
    for base in [
        "https://example.test/base",
        "https://example.test/base/",
        "https://example.test/base?a=b#c",
        "https://example.test/base/#c",
    ] {
        assert_eq!(
            endpoint_url(base, &asset),
            Ok("https://example.test/base/api/v1/hardware/7".to_owned())
        );
    }
    assert_eq!(
        endpoint_url("https://example.test", &asset),
        Ok("https://example.test/api/v1/hardware/7".to_owned())
    );
    for base in ["mailto:someone@example.test", "not a url"] {
        assert_eq!(
            endpoint_url(base, &asset),
            Err(safe_invalid("base URL cannot contain path segments"))
        );
    }
}
