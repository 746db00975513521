//! Moving covers that are kept as files.

use waveflow_commands::digest::hash_file_blake3;
use waveflow_commands::error::AppError;
use waveflow_commands::media_file::{
    human_bytes, is_mp4, staging_name, store_hash_addressed_mp4, target_name,
};

#[test]
fn reads_like_the_rest_of_the_interface() {
    assert_eq!(human_bytes(256 * 1024 * 1024), "256 MB");
    assert_eq!(human_bytes(89_128_960), "85.0 MB");
    assert_eq!(human_bytes(64 * 1024 * 1024), "64.0 MB");
}

#[test]
fn holds_at_both_ends() {
    assert_eq!(human_bytes(0), "0 B");
    assert_eq!(human_bytes(1023), "1023 B");
    assert_eq!(human_bytes(1024), "1.0 KB");
    assert_eq!(human_bytes(9_007_199_254_740_992), "8192 TB");
}

fn by_division(bytes: u64) -> String {
    let units = ["B", "KB", "MB", "GB", "TB"];
    let mut value = bytes as f64;
    let mut unit = 0;
    while value >= 1024.0 && unit < units.len() - 1 {
        value /= 1024.0;
        unit += 1;
    }
    if unit == 0 || value >= 100.0 {
        format!("{value:.0} {}", units[unit])
    } else {
        format!("{value:.1} {}", units[unit])
    }
}

#[test]
fn a_size_is_what_dividing_it_gives() {
    let mut n: u64 = 1;
    let mut step: u64 = 0;
    while step < 4000 {
        for d in [0, 1, 2, 3] {
            let v = n.wrapping_add(d);
            assert_eq!(human_bytes(v), by_division(v), "{v}");
        }
        n = n.wrapping_mul(6364136223846793005).wrapping_add(1442695040888963407);
        n >>= step % 50;
        n |= 1;
        step += 1;
    }
    for shift in 0..64 {
        for v in [1u64 << shift, (1u64 << shift) - 1, u64::MAX >> shift] {
            assert_eq!(human_bytes(v), by_division(v), "{v}");
        }
    }
    for v in [102_348, 102_349, 102_350, 1_048_523, 1_048_524, 104_805_171, u64::MAX] {
        assert_eq!(human_bytes(v), by_division(v), "{v}");
    }
}

#[test]
fn a_video_is_known_by_its_fifth_byte_on() {
    assert!(is_mp4(&b"\0\0\0\x18ftypisom".to_vec()));
    assert!(!is_mp4(&b"\0\0\0\x18ftyp".to_vec().split_off(1)));
    assert!(!is_mp4(&b"RIFF".to_vec()));
}

#[test]
fn a_video_is_kept_under_its_hash() {
    let video = b"\0\0\0\x18ftypisom".to_vec();
    let hash = blake3::hash(&video).to_hex().to_string();
    assert_eq!(store_hash_addressed_mp4(&video, None, 100), Ok(hash.clone()));
    assert_eq!(hash_file_blake3(&video), hash);
    assert_eq!(target_name(&hash), format!("{hash}.mp4"));
    assert!(staging_name(&hash, 7, 8).contains(&hash));
    assert_ne!(staging_name(&hash, 7, 8), staging_name(&hash, 7, 9));
}

#[test]
fn what_is_too_large_or_no_video_is_refused() {
    let video = b"\0\0\0\x18ftypisom".to_vec();
    assert!(matches!(store_hash_addressed_mp4(&video, None, 3), Err(AppError::Other(_))));
    assert!(matches!(
        store_hash_addressed_mp4(&b"not a video".to_vec(), None, 100),
        Err(AppError::Other(_))
    ));
}
