use iron_shield::error::IronShieldError;

#[test]
fn test_iron_shield_error_display() {
    // Test AddressParse error
    let addr_error = IronShieldError::AddressParse("invalid IP address syntax".to_string());
    assert!(addr_error.to_string().contains("Failed to parse network address"));

    // Test ServerRun error
    let server_error = IronShieldError::ServerRun(
        axum::Error::new(std::io::Error::other("test server error")).to_string(),
    );
    assert!(server_error.to_string().contains("Server runtime error"));

    // Test ConfigRead error
    let io_error = std::io::Error::new(std::io::ErrorKind::NotFound, "File not found");
    let config_read_error = IronShieldError::ConfigRead(io_error.to_string());
    assert!(config_read_error.to_string().contains("Failed to read configuration file"));

    // Test ConfigParse error - creating a JSON5 error by attempting to parse invalid JSON5
    let config_parse_error = IronShieldError::ConfigParse(
        json5::from_str::<serde_json::Value>("{invalid json5")
            .unwrap_err()
            .to_string(),
    );
    assert!(config_parse_error.to_string().contains("Failed to parse configuration"));

    // Test JsonParse error
    let json_parse_error = IronShieldError::JsonParse(
        serde_json::from_str::<serde_json::Value>("{invalid json")
            .unwrap_err()
            .to_string(),
    );
    assert!(json_parse_error.to_string().contains("Failed to parse JSON"));

    // Test Generic error
    let generic_error = IronShieldError::Generic("Test error".to_string());
    assert!(generic_error.to_string().contains("Error: Test error"));
}

#[test]
fn test_iron_shield_error_source() {
    // Test that errors with sources say so
    let io_error = std::io::Error::new(std::io::ErrorKind::NotFound, "File not found");
    let config_read_error = IronShieldError::ConfigRead(io_error.to_string());
    assert!(config_read_error.has_source());

    // Test that Generic error has no source
    let generic_error = IronShieldError::Generic("Test error".to_string());
    assert!(!generic_error.has_source());
}

#[test]
fn test_from_implementations() {
    // Test From<&str>
    let str_error: IronShieldError = "test error".into();
    assert!(matches!(str_error, IronShieldError::Generic(_)));
    assert_eq!(str_error, IronShieldError::Generic("test error".to_string()));

    // Test From<String>
    let string_error: IronShieldError = "test error".to_string().into();
    assert!(matches!(string_error, IronShieldError::Generic(_)));
    assert_eq!(string_error, IronShieldError::Generic("test error".to_string()));
}

#[test]
fn test_iron_shield_error_debug() {
    let config_read_error = IronShieldError::AddressParse("invalid IP address syntax".to_string());

    let debug_output = format!("{config_read_error:?}");
    assert!(debug_output.contains("AddressParse"));
}

#[test]
fn test_result_type_alias() {
    let success_result: Result<String, IronShieldError> = Ok("success".to_string());
    assert!(success_result.is_ok());

    let error_result: Result<String, IronShieldError> =
        Err(IronShieldError::Generic("test".to_string()));
    assert!(error_result.is_err());
}
