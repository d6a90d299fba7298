use camloc::camera_info::{read_camera_info, CameraInfo};

fn bits(v: [f64; 9]) -> [u64; 9] {
    v.map(f64::to_bits)
}

#[test]
fn calibration_bytes_are_matrices_row_count_and_coefficients() {
    let optimal: [f64; 9] = [1.0, 0.0, 320.0, 0.0, 1.0, 240.0, 0.0, 0.0, 1.0];
    let camera: [f64; 9] = [2.0, 0.0, 310.0, 0.0, 2.0, 250.0, 0.0, 0.0, 1.0];
    let dist: [f64; 5] = [0.1, -0.2, 0.0, 0.0, 0.05];
    let info = CameraInfo {
        optimal_matrix: bits(optimal),
        camera_matrix: bits(camera),
        dist_rows: 1,
        dist_coeffs: dist.iter().map(|d| d.to_bits()).collect(),
        horizontal_fov: 1.1f64.to_bits(),
    };
    let mut expected: Vec<u8> = optimal.iter().chain(camera.iter()).flat_map(|v| v.to_be_bytes()).collect();
    expected.push(1);
    expected.extend(dist.iter().flat_map(|v| v.to_be_bytes()));
    let bytes = info.to_be_bytes();
    assert_eq!(bytes, expected);
    assert_eq!(bytes.len(), 9 * 8 * 2 + 1 + 5 * 8);
}

#[test]
fn row_count_is_one_byte() {
    let info = CameraInfo {
        optimal_matrix: [0; 9],
        camera_matrix: [0; 9],
        dist_rows: 258,
        dist_coeffs: vec![],
        horizontal_fov: 0,
    };
    let bytes = info.to_be_bytes();
    assert_eq!(bytes.len(), 145);
    assert_eq!(bytes[144], 2);
}

#[test]
fn client_reads_matrices_count_byte_coefficients_and_fov() {
    let mut bytes: Vec<u8> = (0..144).map(|i| i as u8).collect();
    bytes.push(3);
    bytes.extend([9, 8, 7]);
    bytes.extend(1.5f64.to_be_bytes());
    bytes.extend([0xaa, 0xbb]);
    let (info, used) = read_camera_info(&bytes).unwrap();
    assert_eq!(used, 156);
    assert_eq!(info.optimal_matrix, (0..72).map(|i| i as u8).collect::<Vec<u8>>());
    assert_eq!(info.camera_matrix, (72..144).map(|i| i as u8).collect::<Vec<u8>>());
    assert_eq!(info.dist_coeffs, vec![9, 8, 7]);
    assert_eq!(f64::from_bits(info.horizontal_fov), 1.5);
    assert!(read_camera_info(&bytes[..155]).is_none());
    assert!(read_camera_info(&bytes[..100]).is_none());
}

#[test]
fn written_matrices_are_read_back() {
    let info = CameraInfo {
        optimal_matrix: [1.0f64; 9].map(f64::to_bits),
        camera_matrix: [2.0f64; 9].map(f64::to_bits),
        dist_rows: 0,
        dist_coeffs: vec![],
        horizontal_fov: 0,
    };
    let mut bytes = info.to_be_bytes();
    bytes.extend(0.7f64.to_be_bytes());
    let (read, used) = read_camera_info(&bytes).unwrap();
    assert_eq!(used, 153);
    assert_eq!(read.optimal_matrix, bytes[..72].to_vec());
    assert_eq!(read.camera_matrix, [2.0f64.to_be_bytes(); 9].concat());
    assert!(read.dist_coeffs.is_empty());
    assert_eq!(f64::from_bits(read.horizontal_fov), 0.7);
}
