use rbm::Error;

fn all() -> Vec<Error> {
    vec![
        Error::HttpError(String::from("connection refused")),
        Error::PoolError(String::from("timed out waiting for connection")),
        Error::MigrationError(String::from("migration failed")),
        Error::MysqlError(String::from("server has gone away")),
        Error::NotFound,
        Error::CommandAlreadyCompleted,
        Error::UnknownRoute,
        Error::InvalidMonitoring(String::from("missing 'max_latency_ms'")),
    ]
}

#[test]
fn names_are_coarse_categories() {
    let names: Vec<String> = all().iter().map(|e| e.name()).collect();
    assert_eq!(
        names,
        vec![
            "Internal server error",
            "Internal server error",
            "Internal server error",
            "Internal server error",
            "Not found",
            "Conflict",
            "Not found",
            "Bad request",
        ]
    );
}

#[test]
fn status_codes_follow_the_mapping() {
    let codes: Vec<u16> = all().iter().map(|e| e.status_code()).collect();
    assert_eq!(codes, vec![500, 500, 500, 500, 404, 409, 404, 400]);
}

#[test]
fn messages_describe_the_error() {
    let messages: Vec<String> = all().iter().map(|e| e.to_string()).collect();
    assert_eq!(
        messages,
        vec![
            "connection refused",
            "timed out waiting for connection",
            "migration failed",
            "server has gone away",
            "Resource not found",
            "Command is already completed",
            "Unknown API route",
            "Invalid monitoring: missing 'max_latency_ms'",
        ]
    );
}

#[test]
fn envelope_holds_code_category_and_message() {
    let body = Error::CommandAlreadyCompleted.error_response();
    assert_eq!(body.code, 409);
    assert_eq!(body.error, "Conflict");
    assert_eq!(body.message, "Command is already completed");

    let body = Error::UnknownRoute.error_response();
    assert_eq!(body.code, 404);
    assert_eq!(body.error, "Not found");
    assert_eq!(body.message, "Unknown API route");

    let body = Error::InvalidMonitoring(String::from("'endpoint' must be a valid IP"))
        .error_response();
    assert_eq!(body.code, 400);
    assert_eq!(body.error, "Bad request");
    assert_eq!(body.message, "Invalid monitoring: 'endpoint' must be a valid IP");

    let body = Error::PoolError(String::from("pool exhausted")).error_response();
    assert_eq!(body.code, 500);
    assert_eq!(body.error, "Internal server error");
    assert_eq!(body.message, "pool exhausted");
}
