use quantis_qrng::api::{
    bytes_from_raw, check_bytes_query, check_integers_query, default_correction, default_count,
    default_format, default_int_count, device_info, health, integers_from_raw, parse_correction,
    parse_format, random_bytes, random_bytes_from_device, random_integers,
    random_integers_from_device, root, ApiResponse, BytesQuery, Correction, ErrorKind, Format,
    IntegersQuery, RequestError, Step, MAX_BYTES_COUNT, MAX_INT_COUNT,
};
use quantis_qrng::device::{DeviceInfo, QuantisError};
use quantis_qrng::utils::RingBuffer;

fn noise(len: usize, seed: u64) -> Vec<u8> {
    let mut state = seed;
    (0..len)
        .map(|_| {
            state = state.wrapping_mul(6364136223846793005).wrapping_add(1442695040888963407);
            (state >> 56) as u8
        })
        .collect()
}

fn filled_ring(capacity: usize, seed: u64) -> RingBuffer {
    let mut ring = RingBuffer::new(capacity);
    assert_eq!(ring.write(&noise(capacity, seed)), capacity);
    ring
}

fn bytes_query(count: usize, format: &str, correction: &str) -> BytesQuery {
    BytesQuery { count, format: format.to_string(), correction: correction.to_string() }
}

fn respond<T>(step: Step<T>) -> ApiResponse<T> {
    match step {
        Step::Respond(response) => response,
        Step::ReadDevice { size } => panic!("asked for {} bytes of the device", size),
    }
}

fn error_of<T>(response: &ApiResponse<T>) -> String {
    assert!(!response.success);
    assert!(response.data.is_none());
    response.error.clone().unwrap()
}

#[test]
fn defaults() {
    assert_eq!(default_count(), 32);
    assert_eq!(default_format(), "hex");
    assert_eq!(default_correction(), "none");
    assert_eq!(default_int_count(), 1);
    assert_eq!(MAX_BYTES_COUNT, 65536);
    assert_eq!(MAX_INT_COUNT, 1000);
}

#[test]
fn api_response_success() {
    let response = ApiResponse::success(5);
    assert!(response.success);
    assert_eq!(response.data, Some(5));
    assert_eq!(response.error, None);
}

#[test]
fn api_response_error() {
    let response: ApiResponse<u8> = ApiResponse::error("no");
    assert!(!response.success);
    assert_eq!(response.data, None);
    assert_eq!(response.error, Some("no".to_string()));
}

#[test]
fn test_health_endpoint() {
    let ring = filled_ring(64, 1);
    let report = health(true, &ring).unwrap();
    assert_eq!(report.status, "healthy");
    assert_eq!(report.device, "connected");
    assert_eq!(report.buffer_available, 64);
    assert!(health(false, &ring).is_none());
}

#[test]
fn test_random_bytes() {
    let mut ring = filled_ring(64, 2);
    let query = bytes_query(default_count(), &default_format(), &default_correction());
    let response = respond(random_bytes(&query, &mut ring));
    assert!(response.success);
    assert_eq!(response.error, None);
    let data = response.data.unwrap();
    assert_eq!(data.count, 32);
    assert_eq!(data.format, "hex");
    assert_eq!(data.correction, "none");
    assert_eq!(data.bytes.len(), 64);
    assert!(data.bytes.chars().all(|c| matches!(c, '0'..='9' | 'a'..='f')));
    assert_eq!(ring.available(), 32);
}

#[test]
fn test_random_integers() {
    let mut ring = filled_ring(64, 3);
    let query = IntegersQuery { min: 1, max: 100, count: 10 };
    let response = respond(random_integers(&query, &mut ring));
    assert!(response.success);
    let data = response.data.unwrap();
    assert_eq!(data.integers.len(), 10);
    assert_eq!((data.min, data.max, data.count), (1, 100, 10));
    for value in data.integers {
        assert!(value >= 1 && value <= 100);
    }
    assert_eq!(ring.available(), 44);
}

#[test]
fn bytes_are_the_oldest_of_the_ring() {
    let mut ring = RingBuffer::new(8);
    ring.write(&[0xde, 0xad, 0xbe, 0xef, 0x01]);
    let response = respond(random_bytes(&bytes_query(4, "hex", "none"), &mut ring));
    assert_eq!(response.data.unwrap().bytes, "deadbeef");
    assert_eq!(ring.read(1), Some(vec![0x01]));
}

#[test]
fn bytes_base64() {
    let mut ring = filled_ring(64, 4);
    let response = respond(random_bytes(&bytes_query(48, "base64", "none"), &mut ring));
    let data = response.data.unwrap();
    assert_eq!(data.bytes.len(), 64);
    assert_eq!(data.count, 48);
    assert_eq!(data.format, "base64");
    let exact = bytes_from_raw(&bytes_query(3, "base64", "none"), b"Man");
    assert_eq!(exact.data.unwrap().bytes, "TWFu");
}

#[test]
fn bytes_count_out_of_range() {
    let mut ring = filled_ring(16, 5);
    for count in [0, 65537, usize::MAX] {
        let response = respond(random_bytes(&bytes_query(count, "hex", "none"), &mut ring));
        assert_eq!(error_of(&response), "Count must be between 1 and 65536");
        assert_eq!(ring.available(), 16);
    }
    let raw = bytes_from_raw(&bytes_query(0, "hex", "none"), &[1, 2]);
    assert_eq!(error_of(&raw), "Count must be between 1 and 65536");
}

#[test]
fn bytes_count_at_the_bounds() {
    let mut ring = filled_ring(65536, 6);
    let one = respond(random_bytes(&bytes_query(1, "hex", "none"), &mut ring));
    assert_eq!(one.data.unwrap().bytes.len(), 2);
    let mut full = filled_ring(65536, 7);
    let most = respond(random_bytes(&bytes_query(65536, "hex", "none"), &mut full));
    assert_eq!(most.data.unwrap().bytes.len(), 131072);
    assert_eq!(full.available(), 0);
}

#[test]
fn bytes_invalid_names() {
    let mut ring = filled_ring(16, 8);
    let correction = respond(random_bytes(&bytes_query(4, "hex", "xor"), &mut ring));
    assert_eq!(error_of(&correction), "Invalid correction method");
    let format = respond(random_bytes(&bytes_query(4, "binary", "none"), &mut ring));
    assert_eq!(error_of(&format), "Invalid format");
    let both = respond(random_bytes(&bytes_query(4, "HEX", "None"), &mut ring));
    assert_eq!(error_of(&both), "Invalid correction method");
    let all = respond(random_bytes(&bytes_query(0, "binary", "xor"), &mut ring));
    assert_eq!(error_of(&all), "Count must be between 1 and 65536");
    assert_eq!(ring.available(), 16);
}

#[test]
fn bytes_von_neumann_needs_more_than_it_draws() {
    let mut ring = filled_ring(64, 9);
    let response = respond(random_bytes(&bytes_query(8, "hex", "von_neumann"), &mut ring));
    assert_eq!(
        error_of(&response),
        "Insufficient entropy after von_neumann correction, try larger count"
    );
    assert_eq!(ring.available(), 56);
}

#[test]
fn bytes_von_neumann_from_enough_raw_bytes() {
    let response = bytes_from_raw(&bytes_query(2, "hex", "von_neumann"), &[0xAA, 0xAA, 0x55, 0x55]);
    assert_eq!(response.data.unwrap().bytes, "ff00");
    let first = bytes_from_raw(&bytes_query(1, "hex", "von_neumann"), &[0xAA, 0xAA, 0x55, 0x55]);
    let data = first.data.unwrap();
    assert_eq!(data.bytes, "ff");
    assert_eq!(data.correction, "von_neumann");
}

#[test]
fn bytes_from_too_few_raw_bytes() {
    let response = bytes_from_raw(&bytes_query(3, "hex", "none"), &[1, 2]);
    assert_eq!(
        error_of(&response),
        "Insufficient entropy after von_neumann correction, try larger count"
    );
}

#[test]
fn bytes_fall_back_to_the_device() {
    let mut ring = RingBuffer::new(64);
    ring.write(&[1, 2, 3]);
    let query = bytes_query(4, "hex", "none");
    match random_bytes(&query, &mut ring) {
        Step::ReadDevice { size } => assert_eq!(size, 4),
        Step::Respond(_) => panic!("the ring holds too little"),
    }
    assert_eq!(ring.available(), 3);
    let served = random_bytes_from_device(&query, Ok(vec![0xca, 0xfe, 0xba, 0xbe]));
    assert_eq!(served.data.unwrap().bytes, "cafebabe");
}

#[test]
fn bytes_device_errors() {
    let query = bytes_query(4, "hex", "none");
    let timeout = random_bytes_from_device(&query, Err(QuantisError::Timeout));
    assert_eq!(error_of(&timeout), "Device error: Read timeout");
    let usb = random_bytes_from_device(&query, Err(QuantisError::Usb("No device".to_string())));
    assert_eq!(error_of(&usb), "Device error: USB error: No device");
    let fault = random_bytes_from_device(&bytes_query(0, "hex", "none"), Err(QuantisError::Timeout));
    assert_eq!(error_of(&fault), "Count must be between 1 and 65536");
}

#[test]
fn check_bytes_query_names() {
    assert_eq!(
        check_bytes_query(&bytes_query(1, "base64", "von_neumann")),
        Ok((Correction::VonNeumann, Format::Base64))
    );
    assert_eq!(check_bytes_query(&bytes_query(1, "hex", "none")), Ok((Correction::Raw, Format::Hex)));
    assert_eq!(check_bytes_query(&bytes_query(1, "hex", "")), Err(RequestError::Correction));
    assert_eq!(parse_format(&"hex".to_string()), Some(Format::Hex));
    assert_eq!(parse_format(&"hex ".to_string()), None);
    assert_eq!(parse_correction(&"von_neumann".to_string()), Some(Correction::VonNeumann));
    assert_eq!(parse_correction(&"von-neumann".to_string()), None);
}

#[test]
fn integers_range() {
    let mut ring = filled_ring(4096, 10);
    let query = IntegersQuery { min: 1, max: 6, count: 1000 };
    let response = respond(random_integers(&query, &mut ring));
    let data = response.data.unwrap();
    assert_eq!(data.integers.len(), 1000);
    assert!(data.integers.iter().all(|&v| 1 <= v && v <= 6));
    for face in 1..=6 {
        assert!(data.integers.contains(&face));
    }
    assert_eq!(ring.available(), 4096 - 2000);
}

#[test]
fn integers_invalid_range() {
    let mut ring = filled_ring(64, 11);
    let same = respond(random_integers(&IntegersQuery { min: 5, max: 5, count: 1 }, &mut ring));
    assert!(!same.success);
    assert!(error_of(&same).contains("min must be less than max"));
    let reversed = respond(random_integers(&IntegersQuery { min: 6, max: 5, count: 1 }, &mut ring));
    assert_eq!(error_of(&reversed), "min must be less than max");
    let both = respond(random_integers(&IntegersQuery { min: 6, max: 5, count: 0 }, &mut ring));
    assert_eq!(error_of(&both), "min must be less than max");
    assert_eq!(ring.available(), 64);
}

#[test]
fn integers_count_out_of_range() {
    let mut ring = filled_ring(64, 12);
    for count in [0, 1001, usize::MAX] {
        let response = respond(random_integers(&IntegersQuery { min: 1, max: 6, count }, &mut ring));
        assert_eq!(error_of(&response), "count must be between 1 and 1000");
    }
    assert_eq!(ring.available(), 64);
    assert_eq!(
        check_integers_query(&IntegersQuery { min: 1, max: 6, count: 1001 }),
        Err(RequestError::IntCount)
    );
}

#[test]
fn integers_draw_twice_the_bytes_needed() {
    assert_eq!(check_integers_query(&IntegersQuery { min: 1, max: 6, count: 1000 }), Ok(2000));
    assert_eq!(check_integers_query(&IntegersQuery { min: 0, max: 255, count: 1 }), Ok(2));
    assert_eq!(check_integers_query(&IntegersQuery { min: 0, max: 256, count: 1 }), Ok(4));
    assert_eq!(check_integers_query(&IntegersQuery { min: 0, max: 65535, count: 3 }), Ok(12));
    assert_eq!(
        check_integers_query(&IntegersQuery { min: i64::MIN, max: i64::MAX, count: 1000 }),
        Ok(16000)
    );
}

#[test]
fn integers_from_given_bytes() {
    let query = IntegersQuery { min: 1, max: 6, count: 3 };
    let response = integers_from_raw(&query, &[0, 5, 6, 255, 9, 9]);
    assert_eq!(response.data.unwrap().integers, vec![1, 6, 1]);
    let short = integers_from_raw(&query, &[0, 5]);
    assert_eq!(error_of(&short), "Insufficient entropy for requested integers");
}

#[test]
fn integers_over_all_of_i64_find_no_entropy() {
    let mut ring = filled_ring(64, 13);
    let query = IntegersQuery { min: i64::MIN, max: i64::MAX, count: 2 };
    let response = respond(random_integers(&query, &mut ring));
    assert_eq!(error_of(&response), "Insufficient entropy for requested integers");
    assert_eq!(ring.available(), 32);
}

#[test]
fn integers_fall_back_to_the_device() {
    let mut ring = RingBuffer::new(64);
    ring.write(&[1, 2, 3]);
    let query = IntegersQuery { min: -5, max: 5, count: 2 };
    match random_integers(&query, &mut ring) {
        Step::ReadDevice { size } => assert_eq!(size, 4),
        Step::Respond(_) => panic!("the ring holds too little"),
    }
    assert_eq!(ring.available(), 3);
    let served = random_integers_from_device(&query, Ok(vec![10, 11, 0, 0]));
    assert_eq!(served.data.unwrap().integers, vec![5, -5]);
    let failed = random_integers_from_device(&query, Err(QuantisError::DeviceNotFound));
    assert_eq!(error_of(&failed), "Device error: Device not found");
}

#[test]
fn request_error_messages_and_kinds() {
    let cases = [
        (RequestError::ByteCount, "Count must be between 1 and 65536", ErrorKind::InvalidParameter),
        (RequestError::Correction, "Invalid correction method", ErrorKind::InvalidParameter),
        (RequestError::Format, "Invalid format", ErrorKind::InvalidParameter),
        (
            RequestError::DebiasedShort,
            "Insufficient entropy after von_neumann correction, try larger count",
            ErrorKind::InsufficientEntropy,
        ),
        (RequestError::Range, "min must be less than max", ErrorKind::InvalidParameter),
        (RequestError::IntCount, "count must be between 1 and 1000", ErrorKind::InvalidParameter),
        (
            RequestError::IntegersShort,
            "Insufficient entropy for requested integers",
            ErrorKind::InsufficientEntropy,
        ),
        (
            RequestError::Device(QuantisError::Timeout),
            "Device error: Read timeout",
            ErrorKind::Timeout,
        ),
        (
            RequestError::Device(QuantisError::Usb("Pipe error".to_string())),
            "Device error: USB error: Pipe error",
            ErrorKind::UsbTransport,
        ),
        (
            RequestError::Device(QuantisError::InvalidResponse),
            "Device error: Invalid response from device",
            ErrorKind::InvalidResponse,
        ),
        (
            RequestError::DeviceInfo(QuantisError::DeviceNotFound),
            "Failed to get device info: Device not found",
            ErrorKind::DeviceNotFound,
        ),
    ];
    for (error, message, kind) in cases {
        assert_eq!(error.message(), message);
        assert_eq!(error.kind(), kind);
        let response: ApiResponse<u8> = error.response();
        assert_eq!(error_of(&response), message);
    }
}

#[test]
fn device_info_report() {
    let mut ring = RingBuffer::new(32);
    ring.write(&[0; 5]);
    let info = DeviceInfo::from_descriptor(Some("Quantis".to_string()), None, 1, 2);
    let response = device_info(Ok(info.clone()), &ring);
    assert!(response.success);
    let report = response.data.unwrap();
    assert_eq!(report.device, info);
    assert_eq!(report.buffer_size, 32);
    assert_eq!(report.buffer_available, 5);
    let failed = device_info(Err(QuantisError::Usb("Access denied".to_string())), &ring);
    assert_eq!(error_of(&failed), "Failed to get device info: USB error: Access denied");
}

#[test]
fn root_names_the_service() {
    let info = root();
    assert_eq!(info.service, "Quantis QRNG API");
    assert_eq!(info.version, "1.0.0");
    assert_eq!(
        info.endpoints,
        vec![
            "/api/v1/health",
            "/api/v1/random/bytes",
            "/api/v1/random/int",
            "/api/v1/device/info"
        ]
    );
}
