use std::time::Duration;

/// Test authentication functionality
#[test]
fn test_authentication() {
    // Mock authentication system
    struct MockAuth {
        valid_tokens: Vec<String>,
    }

    impl MockAuth {
        fn new() -> Self {
            Self {
                valid_tokens: vec!["token123".to_string(), "token456".to_string()],
            }
        }

        fn validate_token(&self, token: &str) -> bool {
            self.valid_tokens.contains(&token.to_string())
        }
    }

    let auth = MockAuth::new();

    // Test valid token
    assert!(auth.validate_token("token123"), "Valid token should authenticate");

    // Test invalid token
    assert!(!auth.validate_token("invalid_token"), "Invalid token should fail");

    // Test empty token
    assert!(!auth.validate_token(""), "Empty token should fail");
}

/// Test rate limiting functionality
#[test]
fn test_gateway_implementation_test_rate_limiting() {
    struct RateLimiter {
        max_requests: usize,
        requests: Vec<std::time::Instant>,
    }

    impl RateLimiter {
        fn new(max_requests: usize) -> Self {
            Self {
                max_requests,
                requests: Vec::new(),
            }
        }

        fn check_limit(&mut self) -> bool {
            // Clean old requests (older than 1 minute)
            let now = std::time::Instant::now();
            self.requests.retain(|&time| now.duration_since(time) < Duration::from_secs(60));

            if self.requests.len() < self.max_requests {
                self.requests.push(now);
                true
            } else {
                false
            }
        }
    }

    let mut limiter = RateLimiter::new(2);

    // First two requests should pass
    assert!(limiter.check_limit(), "First request should pass");
    assert!(limiter.check_limit(), "Second request should pass");

    // Third request should be limited
    assert!(!limiter.check_limit(), "Third request should be limited");
}

/// Test WebSocket functionality
#[test]
fn test_websocket_handlers() {
    // Mock WebSocket handler
    struct WebSocketHandler {
        connections: usize,
    }

    impl WebSocketHandler {
        fn new() -> Self {
            Self { connections: 0 }
        }

        fn connect(&mut self) {
            self.connections += 1;
        }

        fn disconnect(&mut self) {
            if self.connections > 0 {
                self.connections -= 1;
            }
        }

        fn active_connections(&self) -> usize {
            self.connections
        }
    }

    let mut handler = WebSocketHandler::new();

    // Test connection management
    handler.connect();
    handler.connect();
    assert_eq!(handler.active_connections(), 2, "Should have 2 active connections");

    handler.disconnect();
    assert_eq!(handler.active_connections(), 1, "Should have 1 active connection after disconnect");
}

/// Test file operations
#[test]
fn test_file_operations() {
    // Mock file system
    struct MockFileSystem {
        files: std::collections::HashMap<String, String>,
    }

    impl MockFileSystem {
        fn new() -> Self {
            Self {
                files: std::collections::HashMap::new(),
            }
        }

        fn read_file(&self, path: &str) -> Option<&String> {
            self.files.get(path)
        }

        fn write_file(&mut self, path: &str, content: &str) {
            self.files.insert(path.to_string(), content.to_string());
        }

        fn list_files(&self) -> Vec<String> {
            self.files.keys().cloned().collect()
        }
    }

    let mut fs = MockFileSystem::new();

    // Test file operations
    fs.write_file("/test/file1.txt", "content1");
    fs.write_file("/test/file2.txt", "content2");

    assert_eq!(fs.list_files().len(), 2, "Should have 2 files");
    assert_eq!(fs.read_file("/test/file1.txt"), Some(&"content1".to_string()));
    assert_eq!(fs.read_file("/test/file2.txt"), Some(&"content2".to_string()));
    assert_eq!(fs.read_file("/test/nonexistent.txt"), None);
}

/// Test command execution
#[test]
fn test_gateway_implementation_test_command_execution() {
    struct CommandExecutor {
        successful_commands: Vec<String>,
        failed_commands: Vec<String>,
    }

    impl CommandExecutor {
        fn new() -> Self {
            Self {
                successful_commands: Vec::new(),
                failed_commands: Vec::new(),
            }
        }

        fn execute(&mut self, command: &str) -> bool {
            // Mock execution - simple commands succeed, complex ones fail
            if command.starts_with("echo") || command.starts_with("ls") {
                self.successful_commands.push(command.to_string());
                true
            } else {
                self.failed_commands.push(command.to_string());
                false
            }
        }
    }

    let mut executor = CommandExecutor::new();

    // Test successful command
    assert!(executor.execute("echo hello"), "Echo command should succeed");

    // Test another successful command
    assert!(executor.execute("ls -la"), "LS command should succeed");

    // Test failed command
    assert!(!executor.execute("rm -rf /"), "Dangerous command should fail");
}

/// Test error handling
#[test]
fn test_gateway_implementation_test_error_handling() {
    struct ErrorHandler {
        errors: Vec<String>,
    }

    impl ErrorHandler {
        fn new() -> Self {
            Self { errors: Vec::new() }
        }

        fn handle_error(&mut self, error: &str) {
            self.errors.push(error.to_string());
        }

        fn has_errors(&self) -> bool {
            !self.errors.is_empty()
        }

        fn get_errors(&self) -> &[String] {
            &self.errors
        }
    }

    let mut handler = ErrorHandler::new();

    // Test error handling
    assert!(!handler.has_errors(), "Should start with no errors");

    handler.handle_error("Connection timeout");
    handler.handle_error("Invalid token");

    assert!(handler.has_errors(), "Should have errors after handling");
    assert_eq!(handler.get_errors().len(), 2, "Should have 2 errors");
}

/// Test performance metrics
#[test]
fn test_performance_metrics() {
    struct PerformanceTracker {
        total_time: Duration,
        request_count: u32,
    }

    impl PerformanceTracker {
        fn new() -> Self {
            Self {
                total_time: Duration::default(),
                request_count: 0,
            }
        }

        fn record_request(&mut self, duration: Duration) {
            self.total_time += duration;
            self.request_count += 1;
        }

        fn average_time(&self) -> Duration {
            if self.request_count > 0 {
                self.total_time / self.request_count
            } else {
                Duration::default()
            }
        }
    }

    let mut tracker = PerformanceTracker::new();

    tracker.record_request(Duration::from_millis(100));
    tracker.record_request(Duration::from_millis(200));
    tracker.record_request(Duration::from_millis(300));

    assert_eq!(tracker.request_count, 3);
    assert_eq!(tracker.average_time(), Duration::from_millis(200));
}

/// Test security boundaries
#[test]
fn test_security_boundaries() {
    struct PathValidator;

    impl PathValidator {
        fn is_safe_path(&self, path: &str) -> bool {
            // Prevent path traversal attacks
            !path.contains("..") && !path.contains("//") && !path.starts_with('/')
        }
    }

    let validator = PathValidator;

    // Test safe paths
    assert!(validator.is_safe_path("file.txt"), "Simple filename should be safe");
    assert!(validator.is_safe_path("folder/file.txt"), "Relative path should be safe");

    // Test unsafe paths
    assert!(!validator.is_safe_path("../file.txt"), "Path traversal should be blocked");
    assert!(!validator.is_safe_path("/etc/passwd"), "Absolute path should be blocked");
    assert!(!validator.is_safe_path("folder//file.txt"), "Double slash should be blocked");
}
